use weekly::collection::Weekly;
use weekly::entry::Entry;
use weekly::entry::Kind;

#[test]
fn reparse_is_structurally_equal() {
    let text = "name: X\ntype: topic\nlink: http://a\ndescription: did stuff\ncc:\n  - bob\n  - alice\n";
    let a = Entry::parse(text).expect("well-formed fragment");
    let b = Entry::parse(text).expect("well-formed fragment");
    assert_eq!(a, b);
}

#[test]
fn parse_reads_every_field() {
    let text = "name: X\ntype: topic\nlink: http://a\ndescription: did stuff\nquote: \"q1\\nq2\"\ncc:\n  - bob\n  - alice\n";
    let e = Entry::parse(text).expect("well-formed fragment");
    assert_eq!(e.name, "X");
    assert_eq!(e.kind, Kind::Topic);
    assert_eq!(e.link, Some("http://a".to_string()));
    assert_eq!(e.description, Some("did stuff".to_string()));
    assert_eq!(e.quote, Some("q1\nq2".to_string()));
    assert_eq!(e.cc, vec!["bob".to_string(), "alice".to_string()]);
}

#[test]
fn parse_kind_draft() {
    let e = Entry::parse("name: X\ntype: draft\n").expect("well-formed fragment");
    assert_eq!(e.kind, Kind::Draft);
}

#[test]
fn kind_defaults_to_draft() {
    let e = Entry::parse("name: X\n").expect("fragment without a type field");
    assert_eq!(e.kind, Kind::Draft);
    assert_eq!(e.name, "X");
    assert_eq!(e.link, None);
    assert_eq!(e.description, None);
    assert_eq!(e.quote, None);
    assert!(e.cc.is_empty());
}

#[test]
fn unknown_kind_rejects_the_whole_fragment() {
    assert!(Entry::parse("name: X\ntype: foo\n").is_none());
}

#[test]
fn missing_name_yields_no_entry() {
    assert!(Entry::parse("type: draft\nlink: http://a\n").is_none());
}

#[test]
fn non_string_collaborators_are_skipped() {
    let e = Entry::parse("name: X\ncc:\n  - a\n  - 42\n  - b\n").expect("well-formed fragment");
    assert_eq!(e.cc, vec!["a".to_string(), "b".to_string()]);
}

#[test]
fn merge_concatenates_descriptions_in_order() {
    let mut w = Weekly::new();
    w.parse("name: X\ndescription: one\n");
    w.parse("name: X\ndescription: two\n");
    w.parse("name: X\ndescription: three\n");
    assert_eq!(w.len(), 1);
    let e = w.get("X").expect("entry is present");
    assert_eq!(e.description, Some("onetwothree".to_string()));
}

#[test]
fn merge_keeps_collaborator_order() {
    let mut w = Weekly::new();
    w.parse("name: X\ncc:\n  - a\n  - b\n");
    w.parse("name: X\ncc:\n  - c\n");
    let e = w.get("X").expect("entry is present");
    assert_eq!(e.cc, vec!["a".to_string(), "b".to_string(), "c".to_string()]);
}

#[test]
fn merge_last_kind_wins() {
    let mut w = Weekly::new();
    w.parse("name: X\ntype: topic\n");
    w.parse("name: X\n");
    let e = w.get("X").expect("entry is present");
    assert_eq!(e.kind, Kind::Draft);
}

#[test]
fn merge_takes_absent_fields_from_the_other_side() {
    let mut a = Entry::parse("name: X\nlink: http://a\n").expect("well-formed fragment");
    let b = Entry::parse("name: X\ndescription: later\n").expect("well-formed fragment");
    a.merge(b);
    assert_eq!(a.link, Some("http://a".to_string()));
    assert_eq!(a.description, Some("later".to_string()));
    assert_eq!(a.quote, None);
}

#[test]
fn malformed_fragment_is_a_no_op() {
    let mut w = Weekly::new();
    w.parse("name: X\n");
    assert_eq!(w.len(), 1);
    w.parse("type: draft\nlink: http://x\n");
    assert_eq!(w.len(), 1);
    w.parse("foo: [unclosed\n");
    assert_eq!(w.len(), 1);
    w.parse("");
    assert_eq!(w.len(), 1);
    assert!(w.get("Y").is_none());
}

#[test]
fn render_full_entry() {
    let e = Entry {
        name: "X".to_string(),
        kind: Kind::Draft,
        link: Some("http://a".to_string()),
        description: Some("did stuff".to_string()),
        quote: Some("line1\nline2".to_string()),
        cc: vec!["bob".to_string()],
    };
    assert_eq!(e.render(), "- [X](http://a), did stuff\n > line1\n > line2\n[@bob][bob]\n");
}

#[test]
fn render_bare_entry() {
    let e = Entry {
        name: "Y".to_string(),
        kind: Kind::Draft,
        link: None,
        description: None,
        quote: None,
        cc: vec![],
    };
    assert_eq!(e.render(), "- Y\n");
}

#[test]
fn render_empty_quote_has_no_quote_lines() {
    let e = Entry {
        name: "Y".to_string(),
        kind: Kind::Draft,
        link: None,
        description: None,
        quote: Some(String::new()),
        cc: vec![],
    };
    assert_eq!(e.render(), "- Y\n");
}

#[test]
fn render_quote_with_trailing_newline_and_crlf() {
    let e = Entry {
        name: "Y".to_string(),
        kind: Kind::Draft,
        link: None,
        description: None,
        quote: Some("line1\r\nline2\n".to_string()),
        cc: vec![],
    };
    assert_eq!(e.render(), "- Y\n > line1\n > line2\n");
}

#[test]
fn render_joins_collaborators_with_commas() {
    let e = Entry {
        name: "Y".to_string(),
        kind: Kind::Draft,
        link: None,
        description: None,
        quote: None,
        cc: vec!["a".to_string(), "b".to_string(), "c".to_string()],
    };
    assert_eq!(e.render(), "- Y\n[@a][a], [@b][b], [@c][c]\n");
}

#[test]
fn collection_renders_in_order_of_first_appearance() {
    let mut w = Weekly::new();
    w.parse("name: B\ndescription: first\n");
    w.parse("name: A\n");
    w.parse("name: B\ndescription: second\n");
    assert_eq!(w.len(), 2);
    assert_eq!(w.render(), "- B, firstsecond\n- A\n");
}

#[test]
fn empty_collection_renders_nothing() {
    let w = Weekly::new();
    assert_eq!(w.len(), 0);
    assert_eq!(w.render(), "");
}
