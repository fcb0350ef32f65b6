use galaxy_md::plain::markdown_to_plain_text;

#[test]
fn table_serializes_as_pipe_separated_rows() {
    let md = "| A | B |\n|---|---|\n| 1 | 2 |";

    let out = markdown_to_plain_text(md);

    assert_eq!(out, "A | B\n1 | 2");
}

#[test]
fn table_does_not_run_cells_together() {
    // With tables disabled a 2x2 table would copy as the run-on string "AB12".
    let out = markdown_to_plain_text("| A | B |\n|---|---|\n| 1 | 2 |");

    assert!(!out.contains("AB12"), "cells ran together: {out:?}");
    assert!(out.contains(" | "), "missing cell separator: {out:?}");
}

#[test]
fn strikethrough_keeps_inner_text_without_markers() {
    let out = markdown_to_plain_text("~~gone~~ and here");

    assert_eq!(out, "gone and here");
}

#[test]
fn task_list_items_render_literal_checkboxes() {
    // Task lists are not enabled, so checkboxes stay literal text.
    let out = markdown_to_plain_text("- [ ] todo\n- [x] done");

    assert_eq!(out, "  • [ ] todo\n  • [x] done");
}

#[test]
fn nested_lists_render_every_item() {
    let out = markdown_to_plain_text("- a\n  - b\n- c");

    assert!(out.contains("• a"), "{out:?}");
    assert!(out.contains("• b"), "{out:?}");
    assert!(out.contains("• c"), "{out:?}");
}

#[test]
fn ordered_list_numbers_items() {
    let out = markdown_to_plain_text("1. first\n2. second");

    assert_eq!(out, "  1. first\n  2. second");
}

#[test]
fn code_block_preserves_content() {
    let out = markdown_to_plain_text("```rust\nlet x = 1;\n```");

    assert_eq!(out, "let x = 1;");
}

#[test]
fn yaml_front_matter_is_hidden() {
    let out = markdown_to_plain_text("---\ntitle: Hidden\n---\n\nBody text");

    assert_eq!(out, "Body text");
}
