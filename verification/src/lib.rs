//! Turns a hierarchical test-specification document — title, primary
//! items, secondary items, tertiary test cases — into Markdown text or
//! into the cell grid of a spreadsheet workbook.
//!
//! The tree model lives in [`testspec`], the YAML reader in [`parse`],
//! the Markdown renderer in [`markdown`], the tabular layout engine in
//! [`grid`], and the configuration values in [`options`] and [`opt`].
//! Both renderers carry contracts that pin their output down exactly;
//! [`laws`] states and proves the properties that hold across them.

pub mod testspec;
pub mod text;
pub mod markdown;
pub mod options;
pub mod grid;
pub mod opt;
pub mod parse;
pub mod laws;

pub use testspec::{PrimaryItem, SecondaryItem, TertiaryItem, TestSpec};
