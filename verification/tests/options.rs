use testspec::opt::{Color, Format, Input, OptionError, Output};
use testspec::options::{ColumnsOption, GenerateOption};

#[test]
fn format_accepts_both_names_in_any_case() {
    assert_eq!(Format::from_str("markdown"), Ok(Format::Markdown));
    assert_eq!(Format::from_str("MARKDOWN"), Ok(Format::Markdown));
    assert_eq!(Format::from_str("Excel"), Ok(Format::Excel));
    assert_eq!(Format::from_str("excel"), Ok(Format::Excel));
}

#[test]
fn format_rejects_anything_else() {
    assert_eq!(
        Format::from_str("html"),
        Err(OptionError::InvalidFormat("html".to_string()))
    );
}

#[test]
fn dash_selects_the_standard_streams() {
    assert_eq!(Input::from_str("-"), Input::StdIn);
    assert_eq!(Output::from_str("-"), Output::StdOut);
}

#[test]
fn paths_are_kept_verbatim() {
    assert_eq!(
        Input::from_str("Spec.YAML"),
        Input::Path("Spec.YAML".to_string())
    );
    assert_eq!(
        Output::from_str("Out.XLSX"),
        Output::Path("Out.XLSX".to_string())
    );
}

#[test]
fn colors_parse_as_six_hex_digits() {
    assert_eq!(Color::from_str("0x5b9bd5"), Ok(Color(0x5b9bd5)));
    assert_eq!(Color::from_str("0xFFFFFF"), Ok(Color(0xffffff)));
    assert_eq!(Color::from_str("0x000000"), Ok(Color(0)));
    assert_eq!(Color::from_str("0x123AbC"), Ok(Color(0x123abc)));
}

#[test]
fn malformed_colors_are_rejected() {
    for bad in ["5b9bd5", "0x5b9bd", "0x5b9bd55", "0xZZZZZZ", "", "0x"] {
        assert_eq!(
            Color::from_str(bad),
            Err(OptionError::InvalidColor(bad.to_string())),
            "{bad} should be rejected"
        );
    }
}

#[test]
fn color_exposes_its_raw_value() {
    let c = Color::from_str("0x00ff00").unwrap();
    assert_eq!(c.into_inner(), 0x00ff00);
}

#[test]
fn default_options_match_the_documented_table() {
    let opt = GenerateOption::default();
    let c: &ColumnsOption = &opt.column_options;
    let pairs = [
        (&c.no_column, "No.", 8),
        (&c.primary_item_column, "Primary Item", 16),
        (&c.secondary_item_column, "Secondary Item", 16),
        (&c.tertiary_item_column, "Tertiary Item", 16),
        (&c.operator_column, "Operator", 12),
        (&c.result_column, "Result", 8),
        (&c.operations_column, "Operations", 60),
        (&c.confirmations_column, "Confirmations", 60),
        (&c.remarks_column, "Remarks", 60),
    ];
    for (col, header, width) in pairs {
        assert_eq!(col.header, header);
        assert_eq!(col.width, width);
    }
    assert_eq!(opt.font_family, "Yu Gothic");
    assert_eq!(opt.header_font_color, 0xffffff);
    assert_eq!(opt.header_bg_color, 0x5b9bd5);
    assert_eq!(opt.body_font_color, 0x000000);
    assert_eq!(opt.body_bg_color, 0xffffff);
    assert_eq!(opt.border_color, 0x5b9bd5);
}
