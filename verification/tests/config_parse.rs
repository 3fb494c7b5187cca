use gixkit::config::parse::{events_from, from_bytes, Comment, Error, Event, Header, ParseNode};

fn header(name: &str) -> Event {
    Event::SectionHeader(Header { name: name.as_bytes().to_vec(), separator: None, subsection_name: None })
}

fn header_with(name: &str, separator: &str, subsection: &[u8]) -> Event {
    Event::SectionHeader(Header {
        name: name.as_bytes().to_vec(),
        separator: Some(separator.as_bytes().to_vec()),
        subsection_name: Some(subsection.to_vec()),
    })
}

fn key(name: &str) -> Event {
    Event::SectionKey(name.as_bytes().to_vec())
}

fn value(bytes: &str) -> Event {
    Event::Value(bytes.as_bytes().to_vec())
}

fn value_not_done(bytes: &str) -> Event {
    Event::ValueNotDone(bytes.as_bytes().to_vec())
}

fn value_done(bytes: &str) -> Event {
    Event::ValueDone(bytes.as_bytes().to_vec())
}

fn newline(bytes: &str) -> Event {
    Event::Newline(bytes.as_bytes().to_vec())
}

fn whitespace(bytes: &str) -> Event {
    Event::Whitespace(bytes.as_bytes().to_vec())
}

fn comment(tag: u8, text: &str) -> Event {
    Event::Comment(Comment { tag, text: text.as_bytes().to_vec() })
}

fn failure(line_number: usize, node: ParseNode, rest: &str) -> Error {
    Error { line_number, last_attempted_parser: node, parsed_until: rest.as_bytes().to_vec() }
}

#[test]
fn empty_input_has_no_events() {
    assert_eq!(from_bytes(b""), Ok(vec![]));
}

#[test]
fn comments_whitespace_and_newlines_may_stand_alone() {
    assert_eq!(
        from_bytes(b"  \n; comment\n#other"),
        Ok(vec![
            whitespace("  "),
            newline("\n"),
            comment(b';', " comment"),
            newline("\n"),
            comment(b'#', "other"),
        ])
    );
}

#[test]
fn a_section_with_one_key() {
    assert_eq!(
        from_bytes(b"[core]\n\tbare = true\n"),
        Ok(vec![
            header("core"),
            newline("\n"),
            whitespace("\t"),
            key("bare"),
            whitespace(" "),
            Event::KeyValueSeparator,
            whitespace(" "),
            value("true"),
            newline("\n"),
        ])
    );
}

#[test]
fn a_key_may_follow_the_header_on_its_line() {
    assert_eq!(
        from_bytes(b"[a]k=v"),
        Ok(vec![header("a"), key("k"), Event::KeyValueSeparator, value("v")])
    );
}

#[test]
fn the_last_dot_separates_a_subsection() {
    assert_eq!(from_bytes(b"[remote.origin]"), Ok(vec![header_with("remote", ".", b"origin")]));
    assert_eq!(from_bytes(b"[a.b.c]"), Ok(vec![header_with("a.b", ".", b"c")]));
    assert_eq!(from_bytes(b"[a.]"), Ok(vec![header_with("a", ".", b"")]));
}

#[test]
fn a_header_needs_a_name_before_the_dot() {
    assert_eq!(from_bytes(b"[.x]"), Err(failure(0, ParseNode::SectionHeader, "[.x]")));
}

#[test]
fn a_quoted_subsection_loses_its_escapes() {
    assert_eq!(
        from_bytes(b"[remote \"ori\\\"gin\\\\x\\y\"]"),
        Ok(vec![header_with("remote", " ", b"ori\"gin\\xy")])
    );
    assert_eq!(from_bytes(b"[a \t\"\"]"), Ok(vec![header_with("a", " \t", b"")]));
    assert_eq!(from_bytes(b"[a.b \"c\"]"), Ok(vec![header_with("a.b", " ", b"c")]));
}

#[test]
fn a_quoted_subsection_must_be_closed() {
    assert_eq!(from_bytes(b"[core \"a]"), Err(failure(0, ParseNode::SectionHeader, "[core \"a]")));
    assert_eq!(
        from_bytes(b"[core \"a\\\n\"]"),
        Err(failure(0, ParseNode::SectionHeader, "[core \"a\\\n\"]"))
    );
    assert_eq!(
        from_bytes(b"[core \"a\0b\"]"),
        Err(failure(0, ParseNode::SectionHeader, "[core \"a\0b\"]"))
    );
    assert_eq!(from_bytes(b"[core\"a\"]"), Err(failure(0, ParseNode::SectionHeader, "[core\"a\"]")));
}

#[test]
fn a_header_must_be_complete() {
    assert_eq!(from_bytes(b"["), Err(failure(0, ParseNode::SectionHeader, "[")));
    assert_eq!(from_bytes(b"[]"), Err(failure(0, ParseNode::SectionHeader, "[]")));
    assert_eq!(from_bytes(b"[a"), Err(failure(0, ParseNode::SectionHeader, "[a")));
    assert_eq!(from_bytes(b"[a_b]"), Err(failure(0, ParseNode::SectionHeader, "[a_b]")));
}

#[test]
fn what_is_no_section_fails_at_the_header() {
    assert_eq!(from_bytes(b"x"), Err(failure(0, ParseNode::SectionHeader, "x")));
    assert_eq!(from_bytes(b"\n\n k = v"), Err(failure(2, ParseNode::SectionHeader, "k = v")));
}

#[test]
fn a_key_without_separator_has_an_empty_value() {
    assert_eq!(
        from_bytes(b"[a]\nk\n"),
        Ok(vec![header("a"), newline("\n"), key("k"), value(""), newline("\n")])
    );
    assert_eq!(
        from_bytes(b"[a]\nk ; c"),
        Ok(vec![header("a"), newline("\n"), key("k"), whitespace(" "), value(""), comment(b';', " c")])
    );
}

#[test]
fn a_separator_without_value_has_an_empty_value() {
    assert_eq!(
        from_bytes(b"[a]\nk =\n"),
        Ok(vec![
            header("a"),
            newline("\n"),
            key("k"),
            whitespace(" "),
            Event::KeyValueSeparator,
            value(""),
            newline("\n"),
        ])
    );
    assert_eq!(
        from_bytes(b"[a]\nk="),
        Ok(vec![header("a"), newline("\n"), key("k"), Event::KeyValueSeparator, value("")])
    );
}

#[test]
fn keys_hold_letters_digits_and_hyphens() {
    assert_eq!(
        from_bytes(b"[a]a-b1=2"),
        Ok(vec![header("a"), key("a-b1"), Event::KeyValueSeparator, value("2")])
    );
    assert_eq!(from_bytes(b"[a]\n1a=2"), Err(failure(1, ParseNode::Name, "1a=2")));
    assert_eq!(from_bytes(b"[a]\n-a=2"), Err(failure(1, ParseNode::Name, "-a=2")));
}

#[test]
fn whitespace_behind_a_value_is_not_part_of_it() {
    assert_eq!(
        from_bytes(b"[a]k = v w  # c\n"),
        Ok(vec![
            header("a"),
            key("k"),
            whitespace(" "),
            Event::KeyValueSeparator,
            whitespace(" "),
            value("v w"),
            whitespace("  "),
            comment(b'#', " c"),
            newline("\n"),
        ])
    );
}

#[test]
fn quotes_protect_comment_markers() {
    assert_eq!(
        from_bytes(b"[a]k=\"x;y#z\" ; c"),
        Ok(vec![
            header("a"),
            key("k"),
            Event::KeyValueSeparator,
            value("\"x;y#z\""),
            whitespace(" "),
            comment(b';', " c"),
        ])
    );
}

#[test]
fn an_open_quote_spoils_the_value() {
    assert_eq!(from_bytes(b"[a]\nk = \"x\n"), Err(failure(1, ParseNode::Value, "k = \"x\n")));
    assert_eq!(from_bytes(b"[a]k=\"x"), Err(failure(0, ParseNode::Value, "k=\"x")));
}

#[test]
fn escapes_in_values_are_kept_as_written() {
    assert_eq!(
        from_bytes(b"[a]k=a\\n\\t\\b\\\\\\\"z"),
        Ok(vec![header("a"), key("k"), Event::KeyValueSeparator, value("a\\n\\t\\b\\\\\\\"z")])
    );
}

#[test]
fn a_backslash_must_escape_something() {
    assert_eq!(from_bytes(b"[a]k=a\\x"), Err(failure(0, ParseNode::Value, "k=a\\x")));
    assert_eq!(from_bytes(b"[a]k=a\\"), Err(failure(0, ParseNode::Value, "k=a\\")));
    assert_eq!(from_bytes(b"[a]k=a\\\r"), Err(failure(0, ParseNode::Value, "k=a\\\r")));
    assert_eq!(from_bytes(b"[a]k=a\\\rb"), Err(failure(0, ParseNode::Value, "k=a\\\rb")));
}

#[test]
fn a_backslash_at_the_end_of_a_line_continues_the_value() {
    assert_eq!(
        from_bytes(b"[a]\nk = x\\\n  y \n"),
        Ok(vec![
            header("a"),
            newline("\n"),
            key("k"),
            whitespace(" "),
            Event::KeyValueSeparator,
            whitespace(" "),
            value_not_done("x"),
            newline("\n"),
            value_done("  y"),
            whitespace(" "),
            newline("\n"),
        ])
    );
    assert_eq!(
        from_bytes(b"[a]k=x\\\r\n\\\ny"),
        Ok(vec![
            header("a"),
            key("k"),
            Event::KeyValueSeparator,
            value_not_done("x"),
            newline("\r\n"),
            value_not_done(""),
            newline("\n"),
            value_done("y"),
        ])
    );
    assert_eq!(
        from_bytes(b"[a]k=x\\\n"),
        Ok(vec![
            header("a"),
            key("k"),
            Event::KeyValueSeparator,
            value_not_done("x"),
            newline("\n"),
            value_done(""),
        ])
    );
}

#[test]
fn quotes_stay_open_across_continued_lines() {
    assert_eq!(
        from_bytes(b"[a]k=\"x\\\n;y\""),
        Ok(vec![
            header("a"),
            key("k"),
            Event::KeyValueSeparator,
            value_not_done("\"x"),
            newline("\n"),
            value_done(";y\""),
        ])
    );
}

#[test]
fn carriage_returns_before_line_feeds_belong_to_the_line_end() {
    assert_eq!(
        from_bytes(b"[a]\r\nk = v\r\n"),
        Ok(vec![
            header("a"),
            newline("\r\n"),
            key("k"),
            whitespace(" "),
            Event::KeyValueSeparator,
            whitespace(" "),
            value("v"),
            newline("\r\n"),
        ])
    );
}

#[test]
fn line_ends_in_a_row_are_one_event() {
    assert_eq!(
        from_bytes(b"\n\r\n\n[a]\n\n"),
        Ok(vec![newline("\n\r\n\n"), header("a"), newline("\n\n")])
    );
}

#[test]
fn the_line_number_counts_the_line_ends_that_were_read() {
    assert_eq!(from_bytes(b"\n[a]\n\n\n=b"), Err(failure(4, ParseNode::Name, "=b")));
    assert_eq!(from_bytes(b"[a]\nk=v\n[b]\n["), Err(failure(3, ParseNode::Name, "[")));
}

#[test]
fn line_ends_inside_an_unfinished_value_are_not_counted() {
    assert_eq!(
        from_bytes(b"[a]\nk = x\\\ny\\\n\"z\n"),
        Err(failure(1, ParseNode::Value, "k = x\\\ny\\\n\"z\n"))
    );
}

#[test]
fn line_ends_inside_a_finished_value_are_counted() {
    assert_eq!(from_bytes(b"[a]\nk = x\\\ny\n!"), Err(failure(3, ParseNode::Name, "!")));
}

#[test]
fn several_sections_follow_each_other() {
    assert_eq!(
        from_bytes(b"[a]\nx=1\n[b \"c\"]\ny\n"),
        Ok(vec![
            header("a"),
            newline("\n"),
            key("x"),
            Event::KeyValueSeparator,
            value("1"),
            newline("\n"),
            header_with("b", " ", b"c"),
            newline("\n"),
            key("y"),
            value(""),
            newline("\n"),
        ])
    );
}

#[test]
fn a_byte_order_mark_is_skipped() {
    assert_eq!(from_bytes(b"\xef\xbb\xbf[a]"), Ok(vec![header("a")]));
    assert_eq!(from_bytes(b"\xfe\xff[a]"), Ok(vec![header("a")]));
    assert_eq!(from_bytes(b"\xff\xfe[a]"), Ok(vec![header("a")]));
    assert_eq!(from_bytes(b"\xff\xfe\0\0[a]"), Ok(vec![header("a")]));
    assert_eq!(from_bytes(b"\0\0\xfe\xff[a]"), Ok(vec![header("a")]));
    assert_eq!(from_bytes(b"\x0e\xfe\xff[a]"), Ok(vec![header("a")]));
    assert_eq!(from_bytes(b"\x84\x31\x95\x33[a]"), Ok(vec![header("a")]));
    assert_eq!(from_bytes(b"\xdd\x73\x66\x73[a]"), Ok(vec![header("a")]));
    assert_eq!(from_bytes(b"\xf7\x64\x4c[a]"), Ok(vec![header("a")]));
    assert_eq!(from_bytes(b"\xfb\xee\x28[a]"), Ok(vec![header("a")]));
    assert_eq!(from_bytes(b"\x2b\x2f\x76\x38[a]"), Ok(vec![header("a")]));
    assert_eq!(from_bytes(b"\x2b\x2f\x76\x2f"), Ok(vec![]));
    assert_eq!(from_bytes(b"\xef\xbb\xbf"), Ok(vec![]));
}

#[test]
fn what_only_resembles_a_byte_order_mark_is_input() {
    assert_eq!(
        from_bytes(b"\xef\xbb[a]"),
        Err(Error {
            line_number: 0,
            last_attempted_parser: ParseNode::SectionHeader,
            parsed_until: b"\xef\xbb[a]".to_vec(),
        })
    );
    assert_eq!(
        from_bytes(b"+/v[a]"),
        Err(failure(0, ParseNode::SectionHeader, "+/v[a]"))
    );
}

#[test]
fn parsing_may_start_anywhere() {
    assert_eq!(events_from(b"garbage[a]", 7), Ok(vec![header("a")]));
    assert_eq!(events_from(b"[a]", 3), Ok(vec![]));
    assert_eq!(events_from(b"\xef\xbb\xbf[a]", 0).is_err(), true);
}

#[test]
fn form_feeds_end_a_value_as_whitespace_but_are_no_whitespace_between_events() {
    assert_eq!(from_bytes(b"[a]k=v\x0c"), Err(failure(0, ParseNode::Name, "\x0c")));
}
