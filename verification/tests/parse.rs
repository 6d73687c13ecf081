use testspec::parse::ParseError;
use testspec::{PrimaryItem, SecondaryItem, TertiaryItem, TestSpec};

#[test]
fn spec_title_only() {
    let s = "
title: Spec title
";
    let expected = TestSpec {
        title: "Spec title".to_string(),
        cases: vec![],
    };
    let actual: TestSpec = TestSpec::from_str(s).unwrap();
    assert_eq!(expected, actual);
}

#[test]
fn single() {
    let s = "
title: Spec title

cases:
  - title: Primary 1
    children:
      - title: Secondary 1-1
        children:
          - title: Tertiary 1-1-1
            operations:
              - Operation 1-1-1-1
            confirmations:
              - Confirmation 1-1-1-1
            remarks:
              - Remark 1-1-1-1
";

    let expected = TestSpec {
        title: "Spec title".to_string(),
        cases: vec![PrimaryItem {
            title: "Primary 1".to_string(),
            children: vec![SecondaryItem {
                title: "Secondary 1-1".to_string(),
                children: vec![TertiaryItem {
                    title: "Tertiary 1-1-1".to_string(),
                    operations: vec!["Operation 1-1-1-1".to_string()],
                    confirmations: vec!["Confirmation 1-1-1-1".to_string()],
                    remarks: vec!["Remark 1-1-1-1".to_string()],
                }],
            }],
        }],
    };
    let actual: TestSpec = TestSpec::from_str(s).unwrap();
    assert_eq!(expected, actual);
}

#[test]
fn double() {
    let s = "
title: Spec title

cases:
  - title: Primary 1
    children:
      - title: Secondary 1-1
        children:
          - title: Tertiary 1-1-1
            operations:
              - Operation 1-1-1-1
              - Operation 1-1-1-2
            confirmations:
              - Confirmation 1-1-1-1
              - Confirmation 1-1-1-2
            remarks:
              - Remark 1-1-1-1
              - Remark 1-1-1-2

          - title: Tertiary 1-1-2
            operations:
              - Operation 1-1-2-1
              - Operation 1-1-2-2
            confirmations:
              - Confirmation 1-1-2-1
              - Confirmation 1-1-2-2
            remarks:
              - Remark 1-1-2-1
              - Remark 1-1-2-2

      - title: Secondary 1-2
        children:
          - title: Tertiary 1-2-1
            operations:
              - Operation 1-2-1-1
              - Operation 1-2-1-2
            confirmations:
              - Confirmation 1-2-1-1
              - Confirmation 1-2-1-2
            remarks:
              - Remark 1-2-1-1
              - Remark 1-2-1-2

          - title: Tertiary 1-2-2
            operations:
              - Operation 1-2-2-1
              - Operation 1-2-2-2
            confirmations:
              - Confirmation 1-2-2-1
              - Confirmation 1-2-2-2
            remarks:
              - Remark 1-2-2-1
              - Remark 1-2-2-2

  - title: Primary 2
    children:
      - title: Secondary 2-1
        children:
          - title: Tertiary 2-1-1
            operations:
              - Operation 2-1-1-1
              - Operation 2-1-1-2
            confirmations:
              - Confirmation 2-1-1-1
              - Confirmation 2-1-1-2
            remarks:
              - Remark 2-1-1-1
              - Remark 2-1-1-2

          - title: Tertiary 2-1-2
            operations:
              - Operation 2-1-2-1
              - Operation 2-1-2-2
            confirmations:
              - Confirmation 2-1-2-1
              - Confirmation 2-1-2-2
            remarks:
              - Remark 2-1-2-1
              - Remark 2-1-2-2

      - title: Secondary 2-2
        children:
          - title: Tertiary 2-2-1
            operations:
              - Operation 2-2-1-1
              - Operation 2-2-1-2
            confirmations:
              - Confirmation 2-2-1-1
              - Confirmation 2-2-1-2
            remarks:
              - Remark 2-2-1-1
              - Remark 2-2-1-2

          - title: Tertiary 2-2-2
            operations:
              - Operation 2-2-2-1
              - Operation 2-2-2-2
            confirmations:
              - Confirmation 2-2-2-1
              - Confirmation 2-2-2-2
            remarks:
              - Remark 2-2-2-1
              - Remark 2-2-2-2
";

    let expected = TestSpec {
        title: "Spec title".to_string(),
        cases: vec![
            PrimaryItem {
                title: "Primary 1".to_string(),
                children: vec![
                    SecondaryItem {
                        title: "Secondary 1-1".to_string(),
                        children: vec![
                            TertiaryItem {
                                title: "Tertiary 1-1-1".to_string(),
                                operations: vec![
                                    "Operation 1-1-1-1".to_string(),
                                    "Operation 1-1-1-2".to_string(),
                                ],
                                confirmations: vec![
                                    "Confirmation 1-1-1-1".to_string(),
                                    "Confirmation 1-1-1-2".to_string(),
                                ],
                                remarks: vec![
                                    "Remark 1-1-1-1".to_string(),
                                    "Remark 1-1-1-2".to_string(),
                                ],
                            },
                            TertiaryItem {
                                title: "Tertiary 1-1-2".to_string(),
                                operations: vec![
                                    "Operation 1-1-2-1".to_string(),
                                    "Operation 1-1-2-2".to_string(),
                                ],
                                confirmations: vec![
                                    "Confirmation 1-1-2-1".to_string(),
                                    "Confirmation 1-1-2-2".to_string(),
                                ],
                                remarks: vec![
                                    "Remark 1-1-2-1".to_string(),
                                    "Remark 1-1-2-2".to_string(),
                                ],
                            },
                        ],
                    },
                    SecondaryItem {
                        title: "Secondary 1-2".to_string(),
                        children: vec![
                            TertiaryItem {
                                title: "Tertiary 1-2-1".to_string(),
                                operations: vec![
                                    "Operation 1-2-1-1".to_string(),
                                    "Operation 1-2-1-2".to_string(),
                                ],
                                confirmations: vec![
                                    "Confirmation 1-2-1-1".to_string(),
                                    "Confirmation 1-2-1-2".to_string(),
                                ],
                                remarks: vec![
                                    "Remark 1-2-1-1".to_string(),
                                    "Remark 1-2-1-2".to_string(),
                                ],
                            },
                            TertiaryItem {
                                title: "Tertiary 1-2-2".to_string(),
                                operations: vec![
                                    "Operation 1-2-2-1".to_string(),
                                    "Operation 1-2-2-2".to_string(),
                                ],
                                confirmations: vec![
                                    "Confirmation 1-2-2-1".to_string(),
                                    "Confirmation 1-2-2-2".to_string(),
                                ],
                                remarks: vec![
                                    "Remark 1-2-2-1".to_string(),
                                    "Remark 1-2-2-2".to_string(),
                                ],
                            },
                        ],
                    },
                ],
            },
            PrimaryItem {
                title: "Primary 2".to_string(),
                children: vec![
                    SecondaryItem {
                        title: "Secondary 2-1".to_string(),
                        children: vec![
                            TertiaryItem {
                                title: "Tertiary 2-1-1".to_string(),
                                operations: vec![
                                    "Operation 2-1-1-1".to_string(),
                                    "Operation 2-1-1-2".to_string(),
                                ],
                                confirmations: vec![
                                    "Confirmation 2-1-1-1".to_string(),
                                    "Confirmation 2-1-1-2".to_string(),
                                ],
                                remarks: vec![
                                    "Remark 2-1-1-1".to_string(),
                                    "Remark 2-1-1-2".to_string(),
                                ],
                            },
                            TertiaryItem {
                                title: "Tertiary 2-1-2".to_string(),
                                operations: vec![
                                    "Operation 2-1-2-1".to_string(),
                                    "Operation 2-1-2-2".to_string(),
                                ],
                                confirmations: vec![
                                    "Confirmation 2-1-2-1".to_string(),
                                    "Confirmation 2-1-2-2".to_string(),
                                ],
                                remarks: vec![
                                    "Remark 2-1-2-1".to_string(),
                                    "Remark 2-1-2-2".to_string(),
                                ],
                            },
                        ],
                    },
                    SecondaryItem {
                        title: "Secondary 2-2".to_string(),
                        children: vec![
                            TertiaryItem {
                                title: "Tertiary 2-2-1".to_string(),
                                operations: vec![
                                    "Operation 2-2-1-1".to_string(),
                                    "Operation 2-2-1-2".to_string(),
                                ],
                                confirmations: vec![
                                    "Confirmation 2-2-1-1".to_string(),
                                    "Confirmation 2-2-1-2".to_string(),
                                ],
                                remarks: vec![
                                    "Remark 2-2-1-1".to_string(),
                                    "Remark 2-2-1-2".to_string(),
                                ],
                            },
                            TertiaryItem {
                                title: "Tertiary 2-2-2".to_string(),
                                operations: vec![
                                    "Operation 2-2-2-1".to_string(),
                                    "Operation 2-2-2-2".to_string(),
                                ],
                                confirmations: vec![
                                    "Confirmation 2-2-2-1".to_string(),
                                    "Confirmation 2-2-2-2".to_string(),
                                ],
                                remarks: vec![
                                    "Remark 2-2-2-1".to_string(),
                                    "Remark 2-2-2-2".to_string(),
                                ],
                            },
                        ],
                    },
                ],
            },
        ],
    };
    let actual: TestSpec = TestSpec::from_str(s).unwrap();
    assert_eq!(expected, actual);
}

#[test]
fn malformed_yaml_is_a_syntax_error() {
    let r = TestSpec::from_str("title: [unclosed");
    assert!(matches!(r, Err(ParseError::Syntax(_))));
}

#[test]
fn missing_title_is_rejected() {
    let r = TestSpec::from_str("cases: []");
    assert_eq!(r, Err(ParseError::MissingTitle));
}

#[test]
fn non_string_title_is_rejected() {
    let r = TestSpec::from_str("title: 17");
    assert_eq!(r, Err(ParseError::ExpectedString));
}

#[test]
fn non_sequence_cases_is_rejected() {
    let r = TestSpec::from_str("title: T\ncases: 5");
    assert_eq!(r, Err(ParseError::ExpectedSequence));
}

#[test]
fn secondary_without_children_is_rejected() {
    let s = "
title: T
cases:
  - title: P
    children:
      - title: S
";
    let r = TestSpec::from_str(s);
    assert_eq!(r, Err(ParseError::MissingChildren));
}

#[test]
fn absent_lists_default_to_empty() {
    let s = "
title: T
cases:
  - title: P
    children:
      - title: S
        children:
          - title: C
";
    let spec = TestSpec::from_str(s).unwrap();
    let leaf = &spec.cases[0].children[0].children[0];
    assert_eq!(leaf.title, "C");
    assert!(leaf.operations.is_empty());
    assert!(leaf.confirmations.is_empty());
    assert!(leaf.remarks.is_empty());
}
