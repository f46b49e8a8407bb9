use mew_desktop::markdown::{
    code_highlight_step, set_line_highlights, virtualize_document, HighlightAction, InlineStyle,
    InlineText, MarkdownBlock, MarkdownRenderBlock, StyledSpan, VIRTUAL_ROW_BYTES,
};
use mew_desktop::markdown_blocks::{parse_document, StreamingMarkdown};

#[test]
fn parses_blocks_and_inline_styles() {
    let document = parse_document(
        "# Title\n\nA **bold** and *soft* `code` [link](https://example.com).\n\n- one\n- two\n\n> quote",
    );

    assert!(matches!(
        document.blocks[0],
        MarkdownBlock::Heading { level: 1, .. }
    ));
    assert!(matches!(
        document.blocks[2],
        MarkdownBlock::List(ref items) if items.len() == 2
    ));
    assert!(matches!(
        document.blocks[3],
        MarkdownBlock::Quote(ref lines) if lines.len() == 1
    ));

    let MarkdownBlock::Paragraph(inline) = &document.blocks[1] else {
        panic!("expected paragraph")
    };
    assert_eq!(inline.text, "A bold and soft code link.");
    assert_eq!(
        inline
            .highlights
            .iter()
            .map(|highlight| highlight.style)
            .collect::<Vec<_>>(),
        vec![
            InlineStyle::Strong,
            InlineStyle::Emphasis,
            InlineStyle::Code,
            InlineStyle::Link,
        ]
    );
}

#[test]
fn parses_code_fences_and_tables() {
    let document = parse_document(
        "```rust\nfn main() {}\n```\n\n| name | value |\n| --- | --- |\n| mew | 1 |",
    );

    assert!(matches!(
        &document.blocks[0],
        MarkdownBlock::Code { language: Some(language), text }
            if language == "rust" && text == "fn main() {}"
    ));
    assert!(matches!(
        &document.blocks[1],
        MarkdownBlock::Table(rows) if rows.len() == 2
    ));
}

#[test]
fn virtualizes_large_blocks_without_dropping_text() {
    let source = "word ".repeat(600);
    let document = parse_document(&source);
    let rows = virtualize_document(&document);
    let rendered = rows
        .iter()
        .filter_map(|row| match &row.block {
            MarkdownBlock::Paragraph(inline) => Some(inline.text.as_str()),
            _ => None,
        })
        .collect::<String>();

    assert!(rows.len() > 1);
    assert_eq!(rendered, source.trim());
    assert!(rows.iter().skip(1).all(|row| row.continuation));
}

#[test]
fn virtualizes_long_unicode_lines_without_splitting_utf8() {
    let source = format!("{}é{}", "a".repeat(VIRTUAL_ROW_BYTES - 1), "a".repeat(8));
    let document = parse_document(&source);
    let rows = virtualize_document(&document);
    let rendered = rows
        .iter()
        .filter_map(|row| match &row.block {
            MarkdownBlock::Paragraph(inline) => Some(inline.text.as_str()),
            _ => None,
        })
        .collect::<String>();

    assert!(rows.len() > 1);
    assert_eq!(rendered, source);
}

#[test]
fn virtualizes_empty_code_blocks_as_one_row() {
    let document = parse_document("```\n```");
    let rows = virtualize_document(&document);

    assert_eq!(rows.len(), 1);
    assert!(matches!(rows[0].block, MarkdownBlock::Code { ref text, .. } if text.is_empty()));
}

#[test]
fn preserves_long_list_items_for_layout_wrapping() {
    let item =
        "A long bullet item should stay one logical item while the view wraps it.".repeat(8);
    let document = parse_document(&format!("- {item}"));

    let MarkdownBlock::List(items) = &document.blocks[0] else {
        panic!("expected a list")
    };
    assert_eq!(items.len(), 1);
    assert_eq!(items[0].text, item);

    let rows = virtualize_document(&document);
    assert_eq!(rows.len(), 1);
    assert!(matches!(
        &rows[0].block,
        MarkdownBlock::List(items) if items.len() == 1 && items[0].text == item
    ));
}

#[test]
fn preserves_hard_wrapped_list_item_continuations() {
    let document = parse_document("- first line\n  continuation line\n\n- second item");

    let MarkdownBlock::List(items) = &document.blocks[0] else {
        panic!("expected a list")
    };
    assert_eq!(items.len(), 2);
    assert_eq!(items[0].text, "first line continuation line");
    assert_eq!(items[1].text, "second item");
}

#[test]
fn streaming_markdown_consumes_only_new_text_and_keeps_the_document() {
    let mut streaming = StreamingMarkdown::new();
    let _ = streaming.append("A **growing");

    let document = streaming.append("** response");
    assert!(matches!(
        document.blocks.as_slice(),
        [MarkdownBlock::Paragraph(inline) | MarkdownBlock::Raw(inline)]
            if inline.text == "A growing response"
    ));
}

fn code_row(text: &str, continuation: bool) -> MarkdownRenderBlock {
    MarkdownRenderBlock {
        block: MarkdownBlock::Code { language: Some("rust".into()), text: text.into() },
        continuation,
        syntax_highlights: Vec::new(),
    }
}

#[test]
fn code_highlighting_begins_continues_and_ends_blocks() {
    let paragraph = MarkdownRenderBlock {
        block: MarkdownBlock::Paragraph(InlineText { text: "p".into(), highlights: Vec::new() }),
        continuation: false,
        syntax_highlights: Vec::new(),
    };
    assert_eq!(code_highlight_step(false, &paragraph), (false, HighlightAction::Skip));
    assert_eq!(
        code_highlight_step(false, &code_row("fn a() {", false)),
        (true, HighlightAction::BeginAndHighlight(Some("rust".into())))
    );
    assert_eq!(code_highlight_step(true, &code_row("}", true)), (true, HighlightAction::Highlight));
    assert_eq!(
        code_highlight_step(false, &code_row("}", true)),
        (true, HighlightAction::BeginAndHighlight(Some("rust".into())))
    );
    assert_eq!(
        code_highlight_step(true, &code_row("fn b() {}", false)),
        (true, HighlightAction::BeginAndHighlight(Some("rust".into())))
    );
    assert_eq!(code_highlight_step(true, &paragraph), (false, HighlightAction::EndBlock));
}

#[test]
fn line_highlights_cover_non_empty_spans() {
    let mut row = code_row("let x", false);
    let span = |len: usize, bold: bool| StyledSpan {
        len,
        color: Some([1, 2, 3]),
        bold,
        italic: false,
        underline: false,
    };
    set_line_highlights(&mut row, &vec![span(3, true), span(0, false), span(2, false)]);
    let ranges: Vec<_> = row.syntax_highlights.iter().map(|h| (h.range.clone(), h.bold)).collect();
    assert_eq!(ranges, vec![(0..3, true), (3..5, false)]);
    assert!(!row.continuation);
}
