//! The Markdown events that the plain-text rendering reads, and the parser
//! that produces them.

use pulldown_cmark::{Event, Options, Parser, Tag, TagEnd};
use vstd::prelude::*;

verus! {

/// Which Markdown extensions the parser recognises.
#[derive(Clone, Copy, Debug, PartialEq, Eq, Structural)]
pub struct ParseOptions {
    /// Front matter between `---` lines.
    pub yaml_metadata_blocks: bool,
    /// Front matter between `+++` lines.
    pub pluses_metadata_blocks: bool,
    /// GitHub-style pipe tables.
    pub tables: bool,
    /// `~~struck~~` text.
    pub strikethrough: bool,
}

/// The extension set of the formatted view: both kinds of front matter,
/// tables and strikethrough; task lists, footnotes and the rest stay off.
pub open spec fn viewer_options() -> ParseOptions {
    ParseOptions {
        yaml_metadata_blocks: true,
        pluses_metadata_blocks: true,
        tables: true,
        strikethrough: true,
    }
}

/// The options under which the plain-text view reads Markdown, so that it
/// interprets the same syntax as the formatted view.
pub fn parser_options() -> (o: ParseOptions)
    ensures
        o == viewer_options(),
{
    ParseOptions {
        yaml_metadata_blocks: true,
        pluses_metadata_blocks: true,
        tables: true,
        strikethrough: true,
    }
}

/// The plain text reads front matter of both kinds, tables and
/// strikethrough, as the formatted view does.
pub proof fn lemma_viewer_options()
    ensures
        viewer_options().yaml_metadata_blocks,
        viewer_options().pluses_metadata_blocks,
        viewer_options().tables,
        viewer_options().strikethrough,
{
}

/// The kind of a block or span that an event opens.
#[derive(Clone, Copy, Debug, PartialEq, Eq)]
pub enum StartTag {
    MetadataBlock,
    Table,
    TableHead,
    TableRow,
    TableCell,
    Heading,
    Paragraph,
    CodeBlock,
    /// A list; `Some(n)` for an ordered list whose first item is numbered `n`.
    List(Option<u64>),
    Item,
    /// Any other block or span (emphasis, links, quotes, ...).
    Other,
}

/// The kind of a block or span that an event closes.
#[derive(Clone, Copy, Debug, PartialEq, Eq)]
pub enum EndTag {
    MetadataBlock,
    Table,
    TableHead,
    TableRow,
    TableCell,
    Heading,
    Paragraph,
    CodeBlock,
    List,
    Item,
    Other,
}

/// One step of a Markdown document read in order.
#[derive(Clone, Debug, PartialEq, Eq)]
pub enum MdEvent {
    Start(StartTag),
    End(EndTag),
    /// Literal text.
    Text(String),
    /// Inline code.
    Code(String),
    /// A line break inside a paragraph that is not a hard break.
    SoftBreak,
    /// A hard line break.
    HardBreak,
    /// Any other event (HTML, rules, footnote references, ...).
    Other,
}

/// The event stream that the CommonMark parser of `pulldown-cmark` produces
/// for `source` with the extensions in `options`.
pub uninterp spec fn markdown_events(source: Seq<char>, options: ParseOptions) -> Seq<MdEvent>;

#[verifier::external_type_specification]
#[verifier::external_body]
pub struct ExParserEvent<'a>(pulldown_cmark::Event<'a>);

#[verifier::external_type_specification]
#[verifier::external_body]
pub struct ExParserTag<'a>(pulldown_cmark::Tag<'a>);

#[verifier::external_type_specification]
#[verifier::external_body]
pub struct ExParserTagEnd(pulldown_cmark::TagEnd);

/// Runs `Parser::new_ext` on `source` with the extensions of
/// `options` and collects its events, each taken by its variant.
/// Claimed: the result is the parser's event stream for these arguments.
#[verifier::external_body]
pub(crate) fn parse_events(source: &str, options: ParseOptions) -> (events: Vec<MdEvent>)
    ensures
        events@ == markdown_events(source@, options),
{
    let mut flags = Options::empty();
    flags.set(Options::ENABLE_YAML_STYLE_METADATA_BLOCKS, options.yaml_metadata_blocks);
    flags.set(Options::ENABLE_PLUSES_DELIMITED_METADATA_BLOCKS, options.pluses_metadata_blocks);
    flags.set(Options::ENABLE_TABLES, options.tables);
    flags.set(Options::ENABLE_STRIKETHROUGH, options.strikethrough);
    Parser::new_ext(source, flags).map(event_of).collect()
}

/// Takes a `pulldown_cmark::Event` by its variant, moving the text it holds.
#[verifier::external_body]
fn event_of(event: Event<'_>) -> MdEvent {
    match event {
        Event::Start(tag) => MdEvent::Start(start_tag_of(tag)),
        Event::End(tag) => MdEvent::End(end_tag_of(tag)),
        Event::Text(text) => MdEvent::Text(text.into_string()),
        Event::Code(text) => MdEvent::Code(text.into_string()),
        Event::SoftBreak => MdEvent::SoftBreak,
        Event::HardBreak => MdEvent::HardBreak,
        _ => MdEvent::Other,
    }
}

/// Takes a `pulldown_cmark::Tag` by its variant.
#[verifier::external_body]
fn start_tag_of(tag: Tag<'_>) -> StartTag {
    match tag {
        Tag::MetadataBlock(_) => StartTag::MetadataBlock,
        Tag::Table(_) => StartTag::Table,
        Tag::TableHead => StartTag::TableHead,
        Tag::TableRow => StartTag::TableRow,
        Tag::TableCell => StartTag::TableCell,
        Tag::Heading { .. } => StartTag::Heading,
        Tag::Paragraph => StartTag::Paragraph,
        Tag::CodeBlock(_) => StartTag::CodeBlock,
        Tag::List(first) => StartTag::List(first),
        Tag::Item => StartTag::Item,
        _ => StartTag::Other,
    }
}

/// Takes a `pulldown_cmark::TagEnd` by its variant.
#[verifier::external_body]
fn end_tag_of(tag: TagEnd) -> EndTag {
    match tag {
        TagEnd::MetadataBlock(_) => EndTag::MetadataBlock,
        TagEnd::Table => EndTag::Table,
        TagEnd::TableHead => EndTag::TableHead,
        TagEnd::TableRow => EndTag::TableRow,
        TagEnd::TableCell => EndTag::TableCell,
        TagEnd::Heading(_) => EndTag::Heading,
        TagEnd::Paragraph => EndTag::Paragraph,
        TagEnd::CodeBlock => EndTag::CodeBlock,
        TagEnd::List(_) => EndTag::List,
        TagEnd::Item => EndTag::Item,
        _ => EndTag::Other,
    }
}

} // verus!
