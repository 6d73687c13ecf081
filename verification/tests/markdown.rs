use testspec::markdown::generate_markdown;
use testspec::{PrimaryItem, SecondaryItem, TertiaryItem, TestSpec};

fn leaf(title: &str, ops: &[&str], confs: &[&str], rems: &[&str]) -> TertiaryItem {
    TertiaryItem {
        title: title.to_string(),
        operations: ops.iter().map(|s| s.to_string()).collect(),
        confirmations: confs.iter().map(|s| s.to_string()).collect(),
        remarks: rems.iter().map(|s| s.to_string()).collect(),
    }
}

#[test]
fn empty_specification_renders_title_only() {
    let spec = TestSpec {
        title: "Spec title".to_string(),
        cases: vec![],
    };
    assert_eq!(generate_markdown(&spec), "# Spec title\n");
}

#[test]
fn empty_title_still_renders_a_heading() {
    let spec = TestSpec {
        title: String::new(),
        cases: vec![],
    };
    assert_eq!(generate_markdown(&spec), "# \n");
}

#[test]
fn single_case_document() {
    let spec = TestSpec {
        title: "Spec".to_string(),
        cases: vec![PrimaryItem {
            title: "P1".to_string(),
            children: vec![SecondaryItem {
                title: "S1".to_string(),
                children: vec![leaf("T1", &["Op A"], &[], &["Note"])],
            }],
        }],
    };
    let md = generate_markdown(&spec);
    assert_eq!(
        md,
        "# Spec\n\
         \n\
         ## P1\n\
         \n\
         ### S1\n\
         \n\
         #### T1\n\
         \n\
         ##### Operations\n\
         \n\
         1. Op A\n\
         \n\
         ##### Remarks\n\
         \n\
         - Note\n"
    );
    assert!(!md.contains("Confirmation"));
}

#[test]
fn subsection_headings_follow_their_lists() {
    let spec = TestSpec {
        title: "T".to_string(),
        cases: vec![PrimaryItem {
            title: "P".to_string(),
            children: vec![SecondaryItem {
                title: "S".to_string(),
                children: vec![leaf("C", &[], &["check it"], &[])],
            }],
        }],
    };
    let md = generate_markdown(&spec);
    assert!(!md.contains("##### Operations"));
    assert!(md.contains("##### Confirmation\n\n- [ ] check it\n"));
    assert!(!md.contains("##### Remarks"));
}

#[test]
fn operations_are_numbered_in_order() {
    let ops: Vec<String> = (1..=12).map(|i| format!("step {i}")).collect();
    let ops_ref: Vec<&str> = ops.iter().map(|s| s.as_str()).collect();
    let spec = TestSpec {
        title: "T".to_string(),
        cases: vec![PrimaryItem {
            title: "P".to_string(),
            children: vec![SecondaryItem {
                title: "S".to_string(),
                children: vec![leaf("C", &ops_ref, &[], &[])],
            }],
        }],
    };
    let md = generate_markdown(&spec);
    assert!(md.contains("1. step 1\n2. step 2\n"));
    assert!(md.contains("9. step 9\n10. step 10\n11. step 11\n12. step 12\n"));
}

#[test]
fn empty_branches_render_headings_without_rows_of_text() {
    let spec = TestSpec {
        title: "Doc".to_string(),
        cases: vec![
            PrimaryItem {
                title: "Empty".to_string(),
                children: vec![],
            },
            PrimaryItem {
                title: "Full".to_string(),
                children: vec![SecondaryItem {
                    title: "Bare".to_string(),
                    children: vec![],
                }],
            },
        ],
    };
    let md = generate_markdown(&spec);
    assert_eq!(md, "# Doc\n\n## Empty\n\n## Full\n\n### Bare\n");
}

#[test]
fn headings_appear_in_document_order() {
    let spec = TestSpec {
        title: "Doc".to_string(),
        cases: vec![
            PrimaryItem {
                title: "A".to_string(),
                children: vec![SecondaryItem {
                    title: "A1".to_string(),
                    children: vec![leaf("A1a", &[], &[], &[]), leaf("A1b", &[], &[], &[])],
                }],
            },
            PrimaryItem {
                title: "B".to_string(),
                children: vec![],
            },
        ],
    };
    let md = generate_markdown(&spec);
    let headings: Vec<&str> = md.lines().filter(|l| l.starts_with('#')).collect();
    assert_eq!(
        headings,
        vec!["# Doc", "## A", "### A1", "#### A1a", "#### A1b", "## B"]
    );
}
