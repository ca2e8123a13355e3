use std::collections::HashMap;

use runebender::theme::{iter_items, ParseThemeLineError, ValueKind};

#[test]
fn parse_smoke_test() {
    let my_theme = r#"// this is a comment
            THIS_IS_A_KEY: #fff
            SO_IS_THIS: 1.1
            THIS_HAS_A_COMMENT_AFTER_IT: #fff //oops
            "#;

    let items = iter_items(my_theme)
        .into_iter()
        .collect::<Result<HashMap<_, _>, _>>()
        .unwrap();
    assert_eq!(items.len(), 3);
    assert_eq!(items.get("THIS_HAS_A_COMMENT_AFTER_IT"), Some(&"#fff"));
}

#[test]
fn malformed_lines_are_errors() {
    let items = iter_items("A: 1\nno colon here\nB: 2: 3 // comment\r\n  \n");
    assert_eq!(items.len(), 3);
    assert_eq!(items[0], Ok(("A", "1")));
    assert_eq!(
        items[1],
        Err(ParseThemeLineError("no colon here".to_string()))
    );
    assert_eq!(items[2], Err(ParseThemeLineError("B: 2: 3 ".to_string())));
}

#[test]
fn crlf_and_blank_lines() {
    let items = iter_items("KEY :  value \r\n\r\n// only a comment\r\nOTHER:x");
    assert_eq!(items, vec![Ok(("KEY", "value")), Ok(("OTHER", "x"))]);
    assert!(iter_items("").is_empty());
}

#[test]
fn value_kinds_differ() {
    assert_ne!(ValueKind::Color, ValueKind::Float);
}
