use vanadium::render::{read_entity, render, render_output, render_source, EntityReadError};

#[test]
fn render_strips_tags_and_decodes_entities() {
    assert_eq!(render("<b>hi &lt; there</b>"), "hi < there");
}

#[test]
fn render_decodes_gt() {
    assert_eq!(render("a &gt; b"), "a > b");
}

#[test]
fn render_keeps_unknown_entity_verbatim() {
    assert_eq!(render("&unknown;"), "&unknown;");
}

#[test]
fn render_unterminated_entity_is_verbatim() {
    assert_eq!(render("x&lt"), "x&lt");
}

#[test]
fn render_entity_is_seen_even_inside_a_tag() {
    assert_eq!(render("<a &gt; b>out"), ">out");
}

#[test]
fn render_plain_text_unchanged() {
    assert_eq!(render("plain text"), "plain text");
}

#[test]
fn render_empty_body_is_empty() {
    assert_eq!(render(""), "");
}

#[test]
fn render_suppresses_tag_contents() {
    assert_eq!(render("<em class=\"x\">y</em>"), "y");
}

#[test]
fn render_source_numbers_lines() {
    assert_eq!(render_source("a\nb"), "     1 a\n     2 b\n");
}

#[test]
fn render_source_strips_carriage_return_before_newline() {
    assert_eq!(render_source("a\r\nb\r\n"), "     1 a\n     2 b\n");
}

#[test]
fn render_source_trailing_newline_adds_no_line() {
    assert_eq!(render_source("a\n"), "     1 a\n");
}

#[test]
fn render_source_keeps_empty_lines() {
    assert_eq!(render_source("a\n\nb"), "     1 a\n     2 \n     3 b\n");
}

#[test]
fn render_source_of_empty_body_is_empty() {
    assert_eq!(render_source(""), "");
}

#[test]
fn render_source_does_not_decode() {
    assert_eq!(render_source("<b>&lt;</b>"), "     1 <b>&lt;</b>\n");
}

#[test]
fn render_output_selects_mode() {
    assert_eq!(render_output("<b>x</b>", false), "x");
    assert_eq!(render_output("<b>x</b>", true), "     1 <b>x</b>\n");
}

#[test]
fn render_entity_table_is_case_sensitive() {
    assert_eq!(render("&LT;"), "&LT;");
}

#[test]
fn read_entity_known_names() {
    assert_eq!(read_entity("&lt;x"), Ok((2, "<")));
    assert_eq!(read_entity("&gt;"), Ok((2, ">")));
}

#[test]
fn read_entity_unknown_name() {
    assert_eq!(read_entity("&xy;z"), Err(EntityReadError::Unsupported(3)));
}

#[test]
fn read_entity_without_terminator() {
    assert_eq!(read_entity("&ab"), Err(EntityReadError::Eof));
}
