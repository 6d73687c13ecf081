use vstd::prelude::*;
use vstd::string::StringExecFns;

use crate::testspec::{PrimaryItem, SecondaryItem, TertiaryItem, TestSpec};

verus! {

/// A rejected input document. The parser enforces the document shape:
/// a mapping with a string `title` at every level, sequences for the
/// child lists, and strings inside the three leaf-level lists. The
/// `children` list of a secondary item must be present; every other
/// list defaults to empty when absent.
#[derive(Debug, PartialEq, Eq, Clone)]
pub enum ParseError {
    /// The document is not well-formed YAML; carries the syntax
    /// error's text.
    Syntax(String),
    /// A node that should describe an item is not a mapping with a
    /// `title` key.
    MissingTitle,
    /// A `title` or a list entry is not a string.
    ExpectedString,
    /// A child list is not a sequence.
    ExpectedSequence,
    /// A secondary item without its mandatory `children` list.
    MissingChildren,
}

#[verifier::external_type_specification]
#[verifier::external_body]
pub struct ExYamlValue(serde_yaml::Value);

/// Relies on serde_yaml::from_str::<Value>: parses one YAML document
/// into the generic value tree, or reports the syntax error as text.
#[verifier::external_body]
fn yaml_parse(s: &str) -> (r: Result<serde_yaml::Value, String>) {
    serde_yaml::from_str::<serde_yaml::Value>(s).map_err(|e| e.to_string())
}

/// Relies on serde_yaml::Value::get: looks a key up when the value is
/// a mapping and the key is present, and yields nothing otherwise.
#[verifier::external_body]
fn yaml_get<'a>(v: &'a serde_yaml::Value, key: &str) -> (r: Option<&'a serde_yaml::Value>) {
    v.get(key)
}

/// Relies on serde_yaml::Value::as_str: the string inside a string
/// node, and nothing for any other node.
#[verifier::external_body]
fn yaml_as_str<'a>(v: &'a serde_yaml::Value) -> (r: Option<&'a str>) {
    v.as_str()
}

/// Relies on serde_yaml::Value::as_sequence: the elements of a
/// sequence node, and nothing for any other node.
#[verifier::external_body]
fn yaml_as_sequence<'a>(v: &'a serde_yaml::Value) -> (r: Option<&'a Vec<serde_yaml::Value>>) {
    v.as_sequence()
}

/// The mandatory string `title` of an item node.
fn title_from_yaml(v: &serde_yaml::Value) -> (r: Result<String, ParseError>) {
    match yaml_get(v, "title") {
        None => Err(ParseError::MissingTitle),
        Some(t) => match yaml_as_str(t) {
            None => Err(ParseError::ExpectedString),
            Some(s) => Ok(s.to_owned()),
        },
    }
}

/// A list of free-text strings.
fn string_list_from_yaml(v: &serde_yaml::Value) -> (r: Result<Vec<String>, ParseError>) {
    let seq = match yaml_as_sequence(v) {
        None => {
            return Err(ParseError::ExpectedSequence);
        },
        Some(s) => s,
    };
    let mut items: Vec<String> = Vec::new();
    let mut i: usize = 0;
    while i < seq.len()
        invariant
            i <= seq@.len(),
        decreases seq@.len() - i,
    {
        match yaml_as_str(&seq[i]) {
            None => {
                return Err(ParseError::ExpectedString);
            },
            Some(s) => items.push(s.to_owned()),
        }
        i = i + 1;
    }
    Ok(items)
}

/// An optional list of free-text strings: absent means empty.
fn optional_string_list_from_yaml(v: &serde_yaml::Value, key: &str) -> (r: Result<
    Vec<String>,
    ParseError,
>) {
    match yaml_get(v, key) {
        None => Ok(Vec::new()),
        Some(list) => string_list_from_yaml(list),
    }
}

/// One tertiary test case: a title and the three optional lists.
fn tertiary_from_yaml(v: &serde_yaml::Value) -> (r: Result<TertiaryItem, ParseError>) {
    let title = title_from_yaml(v)?;
    let operations = optional_string_list_from_yaml(v, "operations")?;
    let confirmations = optional_string_list_from_yaml(v, "confirmations")?;
    let remarks = optional_string_list_from_yaml(v, "remarks")?;
    Ok(TertiaryItem { title, operations, confirmations, remarks })
}

/// One secondary item: a title and its mandatory `children` list.
fn secondary_from_yaml(v: &serde_yaml::Value) -> (r: Result<SecondaryItem, ParseError>) {
    let title = title_from_yaml(v)?;
    let list = match yaml_get(v, "children") {
        None => {
            return Err(ParseError::MissingChildren);
        },
        Some(l) => l,
    };
    let seq = match yaml_as_sequence(list) {
        None => {
            return Err(ParseError::ExpectedSequence);
        },
        Some(s) => s,
    };
    let mut children: Vec<TertiaryItem> = Vec::new();
    let mut i: usize = 0;
    while i < seq.len()
        invariant
            i <= seq@.len(),
        decreases seq@.len() - i,
    {
        let child = tertiary_from_yaml(&seq[i])?;
        children.push(child);
        i = i + 1;
    }
    Ok(SecondaryItem { title, children })
}

/// One primary item: a title and its optional `children` list.
fn primary_from_yaml(v: &serde_yaml::Value) -> (r: Result<PrimaryItem, ParseError>) {
    let title = title_from_yaml(v)?;
    let mut children: Vec<SecondaryItem> = Vec::new();
    match yaml_get(v, "children") {
        None => {},
        Some(list) => {
            let seq = match yaml_as_sequence(list) {
                None => {
                    return Err(ParseError::ExpectedSequence);
                },
                Some(s) => s,
            };
            let mut i: usize = 0;
            while i < seq.len()
                invariant
                    i <= seq@.len(),
                decreases seq@.len() - i,
            {
                let child = secondary_from_yaml(&seq[i])?;
                children.push(child);
                i = i + 1;
            }
        },
    }
    Ok(PrimaryItem { title, children })
}

impl TestSpec {
    /// Parses a YAML specification document: a mapping with a string
    /// `title` and an optional `cases` sequence of primary items. The
    /// tree arrives from the YAML library as an opaque value, so this
    /// function promises nothing of its result; everything proved
    /// about the renderers holds for whatever tree it builds.
    pub fn from_str(s: &str) -> (r: Result<TestSpec, ParseError>) {
        let root = match yaml_parse(s) {
            Err(e) => {
                return Err(ParseError::Syntax(e));
            },
            Ok(v) => v,
        };
        let title = title_from_yaml(&root)?;
        let mut cases: Vec<PrimaryItem> = Vec::new();
        match yaml_get(&root, "cases") {
            None => {},
            Some(list) => {
                let seq = match yaml_as_sequence(list) {
                    None => {
                        return Err(ParseError::ExpectedSequence);
                    },
                    Some(s) => s,
                };
                let mut i: usize = 0;
                while i < seq.len()
                    invariant
                        i <= seq@.len(),
                    decreases seq@.len() - i,
                {
                    let case = primary_from_yaml(&seq[i])?;
                    cases.push(case);
                    i = i + 1;
                }
            },
        }
        Ok(TestSpec { title, cases })
    }
}

} // verus!
