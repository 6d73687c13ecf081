use testspec::grid::{layout, Cell, CellValue};
use testspec::options::GenerateOption;
use testspec::{PrimaryItem, SecondaryItem, TertiaryItem, TestSpec};

fn leaf(title: &str, ops: &[&str], confs: &[&str], rems: &[&str]) -> TertiaryItem {
    TertiaryItem {
        title: title.to_string(),
        operations: ops.iter().map(|s| s.to_string()).collect(),
        confirmations: confs.iter().map(|s| s.to_string()).collect(),
        remarks: rems.iter().map(|s| s.to_string()).collect(),
    }
}

fn text(cell: &Cell) -> &str {
    match &cell.value {
        CellValue::Text(t) => t.as_str(),
        _ => panic!("expected a text cell"),
    }
}

fn cell_at(row: &[Cell], col: usize) -> &Cell {
    row.iter()
        .find(|c| c.col == col)
        .unwrap_or_else(|| panic!("no cell in column {col}"))
}

#[test]
fn empty_specification_yields_header_row_only() {
    let spec = TestSpec {
        title: "T".to_string(),
        cases: vec![],
    };
    let grid = layout(&spec, &GenerateOption::default());
    assert_eq!(grid.rows.len(), 1);
}

#[test]
fn header_row_uses_the_configured_headers() {
    let spec = TestSpec {
        title: "T".to_string(),
        cases: vec![],
    };
    let grid = layout(&spec, &GenerateOption::default());
    let header: Vec<&str> = grid.rows[0].iter().map(text).collect();
    assert_eq!(
        header,
        vec![
            "No.",
            "Primary Item",
            "Secondary Item",
            "Tertiary Item",
            "Operator",
            "Result",
            "Operations",
            "Confirmations",
            "Remarks"
        ]
    );
    for (i, cell) in grid.rows[0].iter().enumerate() {
        assert_eq!(cell.col, i);
        assert_eq!(cell.span, 1);
    }
}

#[test]
fn single_leaf_fills_one_data_row() {
    let spec = TestSpec {
        title: "Spec".to_string(),
        cases: vec![PrimaryItem {
            title: "P1".to_string(),
            children: vec![SecondaryItem {
                title: "S1".to_string(),
                children: vec![leaf("T1", &["Op A"], &[], &["Note"])],
            }],
        }],
    };
    let grid = layout(&spec, &GenerateOption::default());
    assert_eq!(grid.rows.len(), 2);
    let row = &grid.rows[1];
    assert_eq!(cell_at(row, 0).value, CellValue::Number(1));
    assert_eq!(text(cell_at(row, 1)), "P1");
    assert_eq!(cell_at(row, 1).span, 1);
    assert_eq!(text(cell_at(row, 2)), "S1");
    assert_eq!(cell_at(row, 2).span, 1);
    assert_eq!(text(cell_at(row, 3)), "T1");
    assert_eq!(cell_at(row, 4).value, CellValue::Blank);
    assert_eq!(cell_at(row, 5).value, CellValue::Blank);
    assert_eq!(text(cell_at(row, 6)), "1. Op A");
    assert_eq!(text(cell_at(row, 7)), "");
    assert_eq!(text(cell_at(row, 8)), "- Note");
}

#[test]
fn two_leaves_merge_the_secondary_title_over_two_rows() {
    let spec = TestSpec {
        title: "Spec".to_string(),
        cases: vec![PrimaryItem {
            title: "P1".to_string(),
            children: vec![SecondaryItem {
                title: "S1".to_string(),
                children: vec![leaf("T1", &[], &[], &[]), leaf("T2", &[], &[], &[])],
            }],
        }],
    };
    let grid = layout(&spec, &GenerateOption::default());
    assert_eq!(grid.rows.len(), 3);
    let first = &grid.rows[1];
    let second = &grid.rows[2];
    let merged = cell_at(first, 2);
    assert_eq!(text(merged), "S1");
    assert_eq!(merged.span, 2);
    assert_eq!(first.iter().filter(|c| c.col == 2).count(), 1);
    assert!(second.iter().all(|c| c.col != 2));
    assert!(second.iter().all(|c| c.col != 1));
    assert_eq!(text(cell_at(first, 3)), "T1");
    assert_eq!(text(cell_at(second, 3)), "T2");
    let primary = cell_at(first, 1);
    assert_eq!(text(primary), "P1");
    assert_eq!(primary.span, 2);
}

#[test]
fn row_numbers_run_continuously_across_the_document() {
    let spec = TestSpec {
        title: "Spec".to_string(),
        cases: vec![
            PrimaryItem {
                title: "P1".to_string(),
                children: vec![
                    SecondaryItem {
                        title: "S1".to_string(),
                        children: vec![leaf("a", &[], &[], &[]), leaf("b", &[], &[], &[])],
                    },
                    SecondaryItem {
                        title: "S2".to_string(),
                        children: vec![leaf("c", &[], &[], &[])],
                    },
                ],
            },
            PrimaryItem {
                title: "P2".to_string(),
                children: vec![SecondaryItem {
                    title: "S3".to_string(),
                    children: vec![leaf("d", &[], &[], &[])],
                }],
            },
        ],
    };
    let grid = layout(&spec, &GenerateOption::default());
    assert_eq!(grid.rows.len(), 5);
    for (r, row) in grid.rows.iter().enumerate().skip(1) {
        assert_eq!(cell_at(row, 0).value, CellValue::Number(r));
    }
    let p1 = cell_at(&grid.rows[1], 1);
    assert_eq!(text(p1), "P1");
    assert_eq!(p1.span, 3);
    let s2 = cell_at(&grid.rows[3], 2);
    assert_eq!(text(s2), "S2");
    assert_eq!(s2.span, 1);
}

#[test]
fn childless_branches_still_fill_a_row() {
    let spec = TestSpec {
        title: "Spec".to_string(),
        cases: vec![
            PrimaryItem {
                title: "Empty".to_string(),
                children: vec![],
            },
            PrimaryItem {
                title: "Half".to_string(),
                children: vec![SecondaryItem {
                    title: "Bare".to_string(),
                    children: vec![],
                }],
            },
        ],
    };
    let grid = layout(&spec, &GenerateOption::default());
    assert_eq!(grid.rows.len(), 3);
    // the childless primary item: a numbered row of blanks
    let row1 = &grid.rows[1];
    assert_eq!(cell_at(row1, 0).value, CellValue::Number(1));
    for col in 1..9 {
        assert_eq!(cell_at(row1, col).value, CellValue::Blank);
    }
    // the childless secondary item: its primary's title, the rest blank
    let row2 = &grid.rows[2];
    assert_eq!(cell_at(row2, 0).value, CellValue::Number(2));
    assert_eq!(text(cell_at(row2, 1)), "Half");
    for col in 2..9 {
        assert_eq!(cell_at(row2, col).value, CellValue::Blank);
    }
}

#[test]
fn list_cells_join_their_lines() {
    let spec = TestSpec {
        title: "Spec".to_string(),
        cases: vec![PrimaryItem {
            title: "P".to_string(),
            children: vec![SecondaryItem {
                title: "S".to_string(),
                children: vec![leaf(
                    "T",
                    &["open", "close"],
                    &["done", "clean"],
                    &["first", "second"],
                )],
            }],
        }],
    };
    let grid = layout(&spec, &GenerateOption::default());
    let row = &grid.rows[1];
    assert_eq!(text(cell_at(row, 6)), "1. open\n2. close");
    assert_eq!(text(cell_at(row, 7)), "- done\n- clean");
    assert_eq!(text(cell_at(row, 8)), "- first\n- second");
}
