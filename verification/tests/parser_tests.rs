use amsterdam::draft::{apply_header_field, PostDraft};
use amsterdam::parser::{finish, is_delimiter, parse_lines, step, ParseError, ParserState};

fn lines_of(raw: &[&str]) -> Vec<String> {
    let mut v: Vec<String> = Vec::new();
    for s in raw {
        v.push(String::from(*s));
    }
    v
}

fn parse_doc(raw: &[&str]) -> Result<PostDraft, ParseError> {
    finish(parse_lines(&lines_of(raw)))
}

#[test]
fn no_delimiter_is_malformed() {
    let r = parse_doc(&["hello", "world", "no header here"]);
    assert_eq!(r.err(), Some(ParseError::MissingDelimiter));
}

#[test]
fn empty_document_is_malformed() {
    let r = parse_doc(&[]);
    assert_eq!(r.err(), Some(ParseError::MissingDelimiter));
}

#[test]
fn unterminated_header_is_malformed() {
    let r = parse_doc(&["---", "title: Hi"]);
    assert_eq!(r.err(), Some(ParseError::UnterminatedHeader));
}

#[test]
fn end_to_end_document() {
    let r = parse_doc(&["---", "title: Hello", "tags: a, b", "---", "body line"]).unwrap();
    assert_eq!(r.title, "Hello");
    assert_eq!(r.tags, Some(vec![String::from("a"), String::from("b")]));
    assert_eq!(r.body, "body line");
    assert!(r.published);
    assert_eq!(r.subtitle, None);
    assert_eq!(r.creation_date, None);
    assert_eq!(r.license, None);
}

#[test]
fn title_is_trimmed() {
    let r = parse_doc(&["---", "title:   Hello  ", "", "b"]).unwrap();
    assert_eq!(r.title, "Hello");
}

#[test]
fn body_is_joined_without_leading_or_trailing_newline() {
    let r = parse_doc(&["---", "", "L1", "L2", "L3"]).unwrap();
    assert_eq!(r.body, "L1\nL2\nL3");
}

#[test]
fn preamble_before_delimiter_is_skipped() {
    let r = parse_doc(&["stray text", "---", "title: T", "", "b"]).unwrap();
    assert_eq!(r.title, "T");
    assert_eq!(r.body, "b");
}

#[test]
fn second_dash_line_closes_header_and_later_ones_are_body() {
    let r = parse_doc(&["---", "title: T", "---", "x", "---", "y"]).unwrap();
    assert_eq!(r.body, "x\n---\ny");
}

#[test]
fn all_header_fields_are_set() {
    let r = parse_doc(&[
        "---",
        "title: T",
        "subtitle: S",
        "date: 2020-01-01",
        "license: CC0",
        "tags: x",
        "",
        "body",
    ])
    .unwrap();
    assert_eq!(r.title, "T");
    assert_eq!(r.subtitle, Some(String::from("S")));
    assert_eq!(r.creation_date, Some(String::from("2020-01-01")));
    assert_eq!(r.license, Some(String::from("CC0")));
    assert_eq!(r.tags, Some(vec![String::from("x")]));
}

#[test]
fn unrecognized_field_is_ignored_and_reported() {
    let (st, w) = step(ParserState::Ready, "---");
    assert!(w.is_none());
    let (st, w) = step(st, "author: X");
    assert_eq!(w, Some(String::from("author")));
    let (st, w) = step(st, "title: Hi");
    assert!(w.is_none());
    let (st, _) = step(st, "");
    let (st, _) = step(st, "body");
    let r = finish(st).unwrap();
    assert_eq!(r.title, "Hi");
    assert_eq!(r.subtitle, None);
    assert_eq!(r.body, "body");
}

#[test]
fn unrecognized_field_does_not_abort_parse() {
    let r = parse_doc(&["---", "author: X", "title: Hi", "", "b"]).unwrap();
    assert_eq!(r.title, "Hi");
}

#[test]
fn delimiter_shapes() {
    assert!(is_delimiter("-"));
    assert!(is_delimiter("---"));
    assert!(is_delimiter("----------"));
    assert!(!is_delimiter(""));
    assert!(!is_delimiter("- -"));
    assert!(!is_delimiter("---x"));
    assert!(!is_delimiter(" ---"));
}

#[test]
fn tags_round_trip() {
    let d = PostDraft::new();
    let d = apply_header_field(d, "tags", " a, b ,c");
    assert_eq!(
        d.tags,
        Some(vec![String::from("a"), String::from("b"), String::from("c")])
    );
}

#[test]
fn empty_tag_tokens_pass_through() {
    let d = PostDraft::new();
    let d = apply_header_field(d, "tags", "a,,b");
    assert_eq!(
        d.tags,
        Some(vec![String::from("a"), String::from(""), String::from("b")])
    );
}

#[test]
fn value_keeps_inner_colons() {
    let r = parse_doc(&["---", "title: a:b: c", "", "x"]).unwrap();
    assert_eq!(r.title, "a:b: c");
}

#[test]
fn fresh_draft_defaults() {
    let d = PostDraft::new();
    assert_eq!(d.title, "");
    assert_eq!(d.body, "");
    assert!(d.published);
    assert_eq!(d.tags, None);
}
