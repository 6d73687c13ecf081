use vstd::prelude::*;
use vstd::string::StringExecFns;

verus! {

/// Mathematical view of one column's configuration.
pub struct ColumnOptionView {
    pub header: Seq<char>,
    pub width: u32,
}

/// One column of the generated table: its header text and its width
/// in character units.
#[derive(Debug, PartialEq, Eq, Clone)]
pub struct ColumnOption {
    pub header: String,
    pub width: u32,
}

impl View for ColumnOption {
    type V = ColumnOptionView;

    open spec fn view(&self) -> ColumnOptionView {
        ColumnOptionView { header: self.header@, width: self.width }
    }
}

impl DeepView for ColumnOption {
    type V = ColumnOptionView;

    open spec fn deep_view(&self) -> ColumnOptionView {
        self.view()
    }
}

/// Mathematical view of the nine column configurations.
pub struct ColumnsOptionView {
    pub no_column: ColumnOptionView,
    pub primary_item_column: ColumnOptionView,
    pub secondary_item_column: ColumnOptionView,
    pub tertiary_item_column: ColumnOptionView,
    pub operator_column: ColumnOptionView,
    pub result_column: ColumnOptionView,
    pub operations_column: ColumnOptionView,
    pub confirmations_column: ColumnOptionView,
    pub remarks_column: ColumnOptionView,
}

impl ColumnsOptionView {
    /// The nine columns in their fixed table order.
    pub open spec fn column_seq(self) -> Seq<ColumnOptionView> {
        seq![
            self.no_column,
            self.primary_item_column,
            self.secondary_item_column,
            self.tertiary_item_column,
            self.operator_column,
            self.result_column,
            self.operations_column,
            self.confirmations_column,
            self.remarks_column,
        ]
    }
}

/// The configuration of the nine table columns, in the fixed order:
/// number, primary, secondary, tertiary, operator, result, operations,
/// confirmations, remarks.
#[derive(Debug, PartialEq, Eq, Clone)]
pub struct ColumnsOption {
    pub no_column: ColumnOption,
    pub primary_item_column: ColumnOption,
    pub secondary_item_column: ColumnOption,
    pub tertiary_item_column: ColumnOption,
    pub operator_column: ColumnOption,
    pub result_column: ColumnOption,
    pub operations_column: ColumnOption,
    pub confirmations_column: ColumnOption,
    pub remarks_column: ColumnOption,
}

impl View for ColumnsOption {
    type V = ColumnsOptionView;

    open spec fn view(&self) -> ColumnsOptionView {
        ColumnsOptionView {
            no_column: self.no_column@,
            primary_item_column: self.primary_item_column@,
            secondary_item_column: self.secondary_item_column@,
            tertiary_item_column: self.tertiary_item_column@,
            operator_column: self.operator_column@,
            result_column: self.result_column@,
            operations_column: self.operations_column@,
            confirmations_column: self.confirmations_column@,
            remarks_column: self.remarks_column@,
        }
    }
}

impl ColumnsOption {
    /// The column at a table position, counted from the left.
    pub fn column(&self, i: usize) -> (r: &ColumnOption)
        requires
            i < 9,
        ensures
            r@ == self@.column_seq()[i as int],
    {
        match i {
            0 => &self.no_column,
            1 => &self.primary_item_column,
            2 => &self.secondary_item_column,
            3 => &self.tertiary_item_column,
            4 => &self.operator_column,
            5 => &self.result_column,
            6 => &self.operations_column,
            7 => &self.confirmations_column,
            _ => &self.remarks_column,
        }
    }
}

/// The default column configuration.
pub open spec fn default_columns() -> ColumnsOptionView {
    ColumnsOptionView {
        no_column: ColumnOptionView { header: "No."@, width: 8 },
        primary_item_column: ColumnOptionView { header: "Primary Item"@, width: 16 },
        secondary_item_column: ColumnOptionView { header: "Secondary Item"@, width: 16 },
        tertiary_item_column: ColumnOptionView { header: "Tertiary Item"@, width: 16 },
        operator_column: ColumnOptionView { header: "Operator"@, width: 12 },
        result_column: ColumnOptionView { header: "Result"@, width: 8 },
        operations_column: ColumnOptionView { header: "Operations"@, width: 60 },
        confirmations_column: ColumnOptionView { header: "Confirmations"@, width: 60 },
        remarks_column: ColumnOptionView { header: "Remarks"@, width: 60 },
    }
}

impl Default for ColumnsOption {
    fn default() -> (r: Self)
        ensures
            r@ == default_columns(),
    {
        ColumnsOption {
            no_column: ColumnOption { header: String::from_str("No."), width: 8 },
            primary_item_column: ColumnOption {
                header: String::from_str("Primary Item"),
                width: 16,
            },
            secondary_item_column: ColumnOption {
                header: String::from_str("Secondary Item"),
                width: 16,
            },
            tertiary_item_column: ColumnOption {
                header: String::from_str("Tertiary Item"),
                width: 16,
            },
            operator_column: ColumnOption { header: String::from_str("Operator"), width: 12 },
            result_column: ColumnOption { header: String::from_str("Result"), width: 8 },
            operations_column: ColumnOption { header: String::from_str("Operations"), width: 60 },
            confirmations_column: ColumnOption {
                header: String::from_str("Confirmations"),
                width: 60,
            },
            remarks_column: ColumnOption { header: String::from_str("Remarks"), width: 60 },
        }
    }
}

/// Mathematical view of the whole generation configuration.
pub struct GenerateOptionView {
    pub column_options: ColumnsOptionView,
    pub font_family: Seq<char>,
    pub header_font_color: u32,
    pub header_bg_color: u32,
    pub body_font_color: u32,
    pub body_bg_color: u32,
    pub border_color: u32,
}

/// The configuration consumed by the tabular renderer: the nine
/// columns, the font family, and the five colors (each an `0xRRGGBB`
/// value).
#[derive(Debug, PartialEq, Eq, Clone)]
pub struct GenerateOption {
    pub column_options: ColumnsOption,
    pub font_family: String,
    pub header_font_color: u32,
    pub header_bg_color: u32,
    pub body_font_color: u32,
    pub body_bg_color: u32,
    pub border_color: u32,
}

impl View for GenerateOption {
    type V = GenerateOptionView;

    open spec fn view(&self) -> GenerateOptionView {
        GenerateOptionView {
            column_options: self.column_options@,
            font_family: self.font_family@,
            header_font_color: self.header_font_color,
            header_bg_color: self.header_bg_color,
            body_font_color: self.body_font_color,
            body_bg_color: self.body_bg_color,
            border_color: self.border_color,
        }
    }
}

/// The default generation configuration.
pub open spec fn default_generate_option() -> GenerateOptionView {
    GenerateOptionView {
        column_options: default_columns(),
        font_family: "Yu Gothic"@,
        header_font_color: 0xffffff,
        header_bg_color: 0x5b9bd5,
        body_font_color: 0x000000,
        body_bg_color: 0xffffff,
        border_color: 0x5b9bd5,
    }
}

impl Default for GenerateOption {
    fn default() -> (r: Self)
        ensures
            r@ == default_generate_option(),
    {
        GenerateOption {
            column_options: ColumnsOption::default(),
            font_family: String::from_str("Yu Gothic"),
            header_font_color: 0xffffff,
            header_bg_color: 0x5b9bd5,
            body_font_color: 0x000000,
            body_bg_color: 0xffffff,
            border_color: 0x5b9bd5,
        }
    }
}

} // verus!
