//! Markdown as a sequence of events, read by `pulldown-cmark`.

use vstd::prelude::*;
use pulldown_cmark::{Alignment, CodeBlockKind, Event, Options, Parser, Tag, TagEnd};

verus! {

/// How a table column aligns its cells.
#[derive(Clone, Copy, Debug, PartialEq, Eq)]
pub enum Align {
    Unset,
    Left,
    Center,
    Right,
}

/// The element that a `Start` event opens.
#[derive(Clone, Debug, PartialEq)]
pub enum MdTag {
    Paragraph,
    /// A heading of the given level (1 to 6).
    Heading(u8),
    BlockQuote,
    /// A code block, with the language of a fenced block (`None` for an indented one).
    CodeBlock(Option<String>),
    /// A list, with the number of its first item when it is ordered.
    List(Option<u64>),
    Item,
    /// A footnote definition, with its label.
    FootnoteDefinition(String),
    /// A table, with the alignment of each column.
    Table(Vec<Align>),
    TableHead,
    TableRow,
    TableCell,
    Emphasis,
    Strong,
    Strikethrough,
    /// A link, with its destination.
    Link(String),
    Image,
    /// Any element that the renderer does not distinguish.
    Other,
}

/// The element that an `End` event closes.
#[derive(Clone, Copy, Debug, PartialEq, Eq)]
pub enum MdTagEnd {
    Paragraph,
    Heading,
    BlockQuote,
    CodeBlock,
    List,
    Item,
    FootnoteDefinition,
    Table,
    TableHead,
    TableRow,
    TableCell,
    Emphasis,
    Strong,
    Strikethrough,
    Link,
    Image,
    Other,
}

/// One event of a parsed Markdown document.
#[derive(Clone, Debug, PartialEq)]
pub enum MdEvent {
    Start(MdTag),
    End(MdTagEnd),
    Text(String),
    Code(String),
    Html(String),
    FootnoteReference(String),
    SoftBreak,
    HardBreak,
    Rule,
    TaskListMarker(bool),
    /// Any event that the renderer does not distinguish (inline HTML, math).
    Other,
}

/// Which extensions of CommonMark the parser recognises.
#[derive(Clone, Copy, Debug, PartialEq, Eq)]
pub struct Extensions {
    pub tables: bool,
    pub strikethrough: bool,
    pub tasklists: bool,
    pub footnotes: bool,
}

/// What `pulldown-cmark` reads from a text with the given extensions switched on, each
/// event in the form of `MdEvent`.
pub uninterp spec fn markdown_events(text: Seq<char>, tables: bool, strikethrough: bool, tasklists: bool, footnotes: bool) -> Seq<MdEvent>;

/// `pulldown_cmark::Parser::new_ext` with the options that `ext` switches on, collected,
/// each event renamed into `MdEvent` (variant for variant, texts copied). The parser's
/// reading of Markdown is left to `markdown_events`.
#[verifier::external_body]
pub(crate) fn parse_events(text: &str, ext: Extensions) -> (events: Vec<MdEvent>)
    ensures
        events@ == markdown_events(text@, ext.tables, ext.strikethrough, ext.tasklists, ext.footnotes),
{
    let mut opts = Options::empty();
    opts.set(Options::ENABLE_TABLES, ext.tables);
    opts.set(Options::ENABLE_STRIKETHROUGH, ext.strikethrough);
    opts.set(Options::ENABLE_TASKLISTS, ext.tasklists);
    opts.set(Options::ENABLE_FOOTNOTES, ext.footnotes);
    Parser::new_ext(text, opts).map(event_of).collect()
}

#[verifier::external_type_specification]
#[verifier::external_body]
pub struct ExEvent<'a>(Event<'a>);

#[verifier::external_type_specification]
#[verifier::external_body]
pub struct ExTag<'a>(Tag<'a>);

#[verifier::external_type_specification]
#[verifier::external_body]
pub struct ExTagEnd(TagEnd);

#[verifier::external_type_specification]
#[verifier::external_body]
pub struct ExAlignment(Alignment);

/// Renames a `pulldown_cmark::Event` into an `MdEvent`.
#[verifier::external_body]
fn event_of(e: Event) -> MdEvent {
    match e {
        Event::Start(t) => MdEvent::Start(tag_of(t)),
        Event::End(t) => MdEvent::End(tag_end_of(t)),
        Event::Text(s) => MdEvent::Text(s.to_string()),
        Event::Code(s) => MdEvent::Code(s.to_string()),
        Event::Html(s) => MdEvent::Html(s.to_string()),
        Event::FootnoteReference(s) => MdEvent::FootnoteReference(s.to_string()),
        Event::SoftBreak => MdEvent::SoftBreak,
        Event::HardBreak => MdEvent::HardBreak,
        Event::Rule => MdEvent::Rule,
        Event::TaskListMarker(b) => MdEvent::TaskListMarker(b),
        _ => MdEvent::Other,
    }
}

/// Renames the block-level `pulldown_cmark::Tag`s into `MdTag`s.
#[verifier::external_body]
fn tag_of(t: Tag) -> MdTag {
    match t {
        Tag::Paragraph => MdTag::Paragraph,
        Tag::Heading { level, .. } => MdTag::Heading(level as u8),
        Tag::BlockQuote(_) => MdTag::BlockQuote,
        Tag::CodeBlock(CodeBlockKind::Fenced(lang)) => MdTag::CodeBlock(Some(lang.to_string())),
        Tag::CodeBlock(CodeBlockKind::Indented) => MdTag::CodeBlock(None),
        Tag::List(first) => MdTag::List(first),
        Tag::Item => MdTag::Item,
        Tag::FootnoteDefinition(label) => MdTag::FootnoteDefinition(label.to_string()),
        Tag::Table(aligns) => MdTag::Table(aligns.into_iter().map(align_of).collect()),
        t => inline_tag_of(t),
    }
}

/// Renames the table-part and inline `pulldown_cmark::Tag`s into `MdTag`s.
#[verifier::external_body]
fn inline_tag_of(t: Tag) -> MdTag {
    match t {
        Tag::TableHead => MdTag::TableHead,
        Tag::TableRow => MdTag::TableRow,
        Tag::TableCell => MdTag::TableCell,
        Tag::Emphasis => MdTag::Emphasis,
        Tag::Strong => MdTag::Strong,
        Tag::Strikethrough => MdTag::Strikethrough,
        Tag::Link { dest_url, .. } => MdTag::Link(dest_url.to_string()),
        Tag::Image { .. } => MdTag::Image,
        _ => MdTag::Other,
    }
}

/// Renames a `pulldown_cmark::TagEnd` into an `MdTagEnd`.
#[verifier::external_body]
fn tag_end_of(t: TagEnd) -> MdTagEnd {
    match t {
        TagEnd::Paragraph => MdTagEnd::Paragraph,
        TagEnd::Heading(_) => MdTagEnd::Heading,
        TagEnd::BlockQuote(_) => MdTagEnd::BlockQuote,
        TagEnd::CodeBlock => MdTagEnd::CodeBlock,
        TagEnd::List(_) => MdTagEnd::List,
        TagEnd::Item => MdTagEnd::Item,
        TagEnd::FootnoteDefinition => MdTagEnd::FootnoteDefinition,
        TagEnd::Table => MdTagEnd::Table,
        t => inline_tag_end_of(t),
    }
}

/// Renames the table-part and inline `pulldown_cmark::TagEnd`s into `MdTagEnd`s.
#[verifier::external_body]
fn inline_tag_end_of(t: TagEnd) -> MdTagEnd {
    match t {
        TagEnd::TableHead => MdTagEnd::TableHead,
        TagEnd::TableRow => MdTagEnd::TableRow,
        TagEnd::TableCell => MdTagEnd::TableCell,
        TagEnd::Emphasis => MdTagEnd::Emphasis,
        TagEnd::Strong => MdTagEnd::Strong,
        TagEnd::Strikethrough => MdTagEnd::Strikethrough,
        TagEnd::Link => MdTagEnd::Link,
        TagEnd::Image => MdTagEnd::Image,
        _ => MdTagEnd::Other,
    }
}

/// Renames a `pulldown_cmark::Alignment` into an `Align`.
#[verifier::external_body]
fn align_of(a: Alignment) -> Align {
    match a {
        Alignment::None => Align::Unset,
        Alignment::Left => Align::Left,
        Alignment::Center => Align::Center,
        Alignment::Right => Align::Right,
    }
}

} // verus!
