use galaxy_md::events::{parser_options, EndTag, MdEvent, ParseOptions, StartTag};
use galaxy_md::plain::{markdown_to_plain_text, plain_text_from_events};

fn text(s: &str) -> MdEvent {
    MdEvent::Text(s.to_string())
}

#[test]
fn options_match_the_formatted_view() {
    assert_eq!(
        parser_options(),
        ParseOptions {
            yaml_metadata_blocks: true,
            pluses_metadata_blocks: true,
            tables: true,
            strikethrough: true,
        }
    );
}

#[test]
fn empty_document_has_empty_text() {
    assert_eq!(markdown_to_plain_text(""), "");
    assert_eq!(markdown_to_plain_text("   \n\n  "), "");
}

#[test]
fn paragraphs_are_separated_by_a_blank_line() {
    assert_eq!(markdown_to_plain_text("one\n\ntwo"), "one\n\ntwo");
}

#[test]
fn soft_break_becomes_space_and_hard_break_newline() {
    assert_eq!(markdown_to_plain_text("a\nb"), "a b");
    assert_eq!(markdown_to_plain_text("a  \nb"), "a\nb");
    assert_eq!(markdown_to_plain_text("a\\\nb"), "a\nb");
}

#[test]
fn heading_starts_on_its_own_line() {
    assert_eq!(markdown_to_plain_text("para\n# Head\ntext"), "para\n\nHead\ntext");
    assert_eq!(markdown_to_plain_text("# Title\n\nbody"), "Title\nbody");
}

#[test]
fn inline_code_and_emphasis_keep_their_text() {
    assert_eq!(markdown_to_plain_text("use `x` *now* **here**"), "use x now here");
}

#[test]
fn ordered_list_keeps_its_start_number() {
    assert_eq!(markdown_to_plain_text("7. a\n8. b\n9. c"), "  7. a\n  8. b\n  9. c");
}

#[test]
fn pluses_front_matter_is_hidden() {
    assert_eq!(markdown_to_plain_text("+++\ntitle = 1\n+++\n\nBody"), "Body");
}

#[test]
fn table_cells_are_trimmed_and_rows_end_lines() {
    let out = markdown_to_plain_text("| a  | b |\n|---|---|\n| x | `y` |\n\nafter");
    assert_eq!(out, "a | b\nx | y\n\nafter");
}

#[test]
fn soft_break_inside_text_before_table_stays_space() {
    let out = markdown_to_plain_text("line one\nline two");
    assert_eq!(out, "line one line two");
}

#[test]
fn events_front_matter_writes_nothing() {
    let events = vec![
        MdEvent::Start(StartTag::MetadataBlock),
        text("title: x"),
        MdEvent::SoftBreak,
        MdEvent::End(EndTag::MetadataBlock),
        MdEvent::Start(StartTag::Paragraph),
        text("Body"),
        MdEvent::End(EndTag::Paragraph),
    ];
    assert_eq!(plain_text_from_events(&events), "Body");
}

#[test]
fn events_table_row_joins_trimmed_cells() {
    let events = vec![
        MdEvent::Start(StartTag::Table),
        MdEvent::Start(StartTag::TableHead),
        MdEvent::Start(StartTag::TableCell),
        text("  A "),
        MdEvent::End(EndTag::TableCell),
        MdEvent::Start(StartTag::TableCell),
        text("B"),
        MdEvent::HardBreak,
        text("C\t"),
        MdEvent::End(EndTag::TableCell),
        MdEvent::End(EndTag::TableHead),
        MdEvent::Start(StartTag::TableRow),
        MdEvent::Start(StartTag::TableCell),
        MdEvent::End(EndTag::TableCell),
        MdEvent::End(EndTag::TableRow),
        MdEvent::End(EndTag::Table),
        text("x"),
    ];
    assert_eq!(plain_text_from_events(&events), "A | B C\n\n\nx");
}

#[test]
fn events_numbering_does_not_overflow() {
    let events = vec![
        MdEvent::Start(StartTag::List(Some(u64::MAX))),
        MdEvent::Start(StartTag::Item),
        text("a"),
        MdEvent::End(EndTag::Item),
        MdEvent::Start(StartTag::Item),
        text("b"),
        MdEvent::End(EndTag::Item),
        MdEvent::End(EndTag::List),
    ];
    assert_eq!(
        plain_text_from_events(&events),
        "  18446744073709551615. a\n  18446744073709551616. b"
    );
}

#[test]
fn events_unrendered_markup_is_ignored() {
    let with_markup = vec![
        MdEvent::Start(StartTag::Paragraph),
        MdEvent::Start(StartTag::Other),
        text("gone"),
        MdEvent::End(EndTag::Other),
        MdEvent::Other,
        text(" and here"),
        MdEvent::End(EndTag::Paragraph),
    ];
    let without: Vec<MdEvent> = vec![
        text("gone"),
        text(" and here"),
        MdEvent::End(EndTag::Paragraph),
    ];
    assert_eq!(plain_text_from_events(&with_markup), "gone and here");
    assert_eq!(plain_text_from_events(&with_markup), plain_text_from_events(&without));
}

#[test]
fn events_code_block_ends_with_one_blank_line() {
    let events = vec![
        MdEvent::Start(StartTag::CodeBlock),
        text("let x = 1;\n"),
        MdEvent::End(EndTag::CodeBlock),
        MdEvent::Start(StartTag::Paragraph),
        text("after"),
        MdEvent::End(EndTag::Paragraph),
    ];
    assert_eq!(plain_text_from_events(&events), "let x = 1;\n\nafter");
}

#[test]
fn events_bullet_items_after_heading() {
    let events = vec![
        MdEvent::Start(StartTag::Heading),
        text("H"),
        MdEvent::End(EndTag::Heading),
        MdEvent::Start(StartTag::List(None)),
        MdEvent::Start(StartTag::Item),
        text("a"),
        MdEvent::End(EndTag::Item),
        MdEvent::End(EndTag::List),
    ];
    assert_eq!(plain_text_from_events(&events), "H\n  • a");
}

#[test]
fn plain_text_never_ends_in_whitespace() {
    for md in ["a\n\n", "- x\n", "```\ncode\n```\n", "| a |\n|---|\n| b |\n", "# h\n"] {
        let out = markdown_to_plain_text(md);
        assert!(!out.ends_with(char::is_whitespace), "{md:?} -> {out:?}");
    }
}
