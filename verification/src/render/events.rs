//! The tokenizer boundary: the fixed-dialect event stream from
//! `pulldown-cmark`, classified into the crate's own event model, and
//! nested into the markup tree the renderer consumes.
//!
//! The dialect is fixed here once: tables, strikethrough, smart punctuation
//! and math are enabled; footnotes, task lists and metadata blocks are not.

use vstd::prelude::*;
use crate::render::markdown::{MarkupNode, MarkupTag, MdAlign};

verus! {

#[verifier::external_type_specification]
#[verifier::external_body]
pub struct ExEvent<'a>(pulldown_cmark::Event<'a>);

/// The ghost mark of one parser event: the part the HTML pass dispatches
/// on — math spans with their expressions, code fences with their info
/// strings, text with its payload.  Every other event is `Other`.
pub enum EventMark {
    InlineMath(Seq<char>),
    DisplayMath(Seq<char>),
    CodeStart(Option<Seq<char>>),
    CodeEnd,
    Text(Seq<char>),
    Other,
}

/// The mark of one parser event: a function of the event value alone,
/// fixed by the accessors below — which variant an event is, and what its
/// payload reads.
pub uninterp spec fn ev_mark(e: pulldown_cmark::Event<'_>) -> EventMark;

/// The marks of the event stream the parser produces for this text: one
/// sequence, determined by the text and the fixed dialect alone.
pub uninterp spec fn md_marks_of(text: Seq<char>) -> Seq<EventMark>;

/// The event stream the parser produces for this text, as owned values:
/// one sequence, determined by the text and the fixed dialect alone.
pub uninterp spec fn raw_events_of(text: Seq<char>) -> Seq<pulldown_cmark::Event<'static>>;

/// What `pulldown_cmark::html::push_html` writes for an event stream: a
/// function of the events' values alone.
pub uninterp spec fn html_of(events: Seq<pulldown_cmark::Event<'static>>) -> Seq<char>;

/// Whether some event of the stream is a math span.
pub open spec fn has_math_mark(s: Seq<EventMark>) -> bool {
    exists|i: int|
        0 <= i < s.len() && ((#[trigger] s[i]) is InlineMath || s[i] is DisplayMath)
}

/// Whether some event of the stream opens or closes a code block.
pub open spec fn has_code_mark(s: Seq<EventMark>) -> bool {
    exists|i: int| 0 <= i < s.len() && ((#[trigger] s[i]) is CodeStart || s[i] is CodeEnd)
}

/// One event of the flat stream, in the crate's own model.  `End` carries
/// no tag: the stream is balanced, so an end always closes the innermost
/// open group.
#[derive(Debug)]
pub enum MdEvent {
    Start(MarkupTag),
    End,
    Text(String),
    Code(String),
    Html(String),
    InlineHtml(String),
    SoftBreak,
    HardBreak,
    Rule,
    InlineMath(String),
    DisplayMath(String),
    /// An event the fixed dialect never produces.
    Unsupported,
}

/// Relies on `pulldown_cmark::Parser::new_ext` and `Event::into_static`:
/// parses the text with tables, smart punctuation, strikethrough and math
/// enabled and collects the owned event stream.  The parse is
/// deterministic, so the stream and its marks are the fixed functions
/// `raw_events_of` and `md_marks_of` of the text.
#[verifier::external_body]
pub(crate) fn parse_events(text: &str) -> (r: Vec<pulldown_cmark::Event<'static>>)
    ensures
        r@ == raw_events_of(text@),
        r@.map_values(|e: pulldown_cmark::Event<'static>| ev_mark(e)) == md_marks_of(text@),
{
    let options = pulldown_cmark::Options::ENABLE_TABLES
        | pulldown_cmark::Options::ENABLE_SMART_PUNCTUATION
        | pulldown_cmark::Options::ENABLE_STRIKETHROUGH
        | pulldown_cmark::Options::ENABLE_MATH;
    pulldown_cmark::Parser::new_ext(text, options).map(|e| e.into_static()).collect()
}

/// Relies on `pulldown_cmark::html::push_html`: renders an event stream
/// into an HTML string, a function `html_of` of the events' values alone.
#[verifier::external_body]
pub(crate) fn events_to_html(events: Vec<pulldown_cmark::Event<'static>>) -> (r: String)
    ensures
        r@ == html_of(events@),
{
    let mut s = String::new();
    pulldown_cmark::html::push_html(&mut s, events.into_iter());
    s
}

/// Relies on `pulldown_cmark::Event::Text`: the text payload, if any.
#[verifier::external_body]
pub(crate) fn ev_text(e: &pulldown_cmark::Event<'_>) -> (r: Option<String>)
    ensures
        match r {
            Some(s) => ev_mark(*e) == EventMark::Text(s@),
            None => !(ev_mark(*e) is Text),
        },
{
    match e {
        pulldown_cmark::Event::Text(t) => Some(t.to_string()),
        _ => None,
    }
}

/// Relies on `pulldown_cmark::Event::Code`.
#[verifier::external_body]
fn ev_code(e: &pulldown_cmark::Event<'_>) -> Option<String> {
    match e {
        pulldown_cmark::Event::Code(t) => Some(t.to_string()),
        _ => None,
    }
}

/// Relies on `pulldown_cmark::Event::Html`.
#[verifier::external_body]
fn ev_html(e: &pulldown_cmark::Event<'_>) -> Option<String> {
    match e {
        pulldown_cmark::Event::Html(t) => Some(t.to_string()),
        _ => None,
    }
}

/// Relies on `pulldown_cmark::Event::InlineHtml`.
#[verifier::external_body]
fn ev_inline_html(e: &pulldown_cmark::Event<'_>) -> Option<String> {
    match e {
        pulldown_cmark::Event::InlineHtml(t) => Some(t.to_string()),
        _ => None,
    }
}

/// Relies on `pulldown_cmark::Event::InlineMath`.
#[verifier::external_body]
pub(crate) fn ev_inline_math(e: &pulldown_cmark::Event<'_>) -> (r: Option<String>)
    ensures
        match r {
            Some(s) => ev_mark(*e) == EventMark::InlineMath(s@),
            None => !(ev_mark(*e) is InlineMath),
        },
{
    match e {
        pulldown_cmark::Event::InlineMath(t) => Some(t.to_string()),
        _ => None,
    }
}

/// Relies on `pulldown_cmark::Event::DisplayMath`.
#[verifier::external_body]
pub(crate) fn ev_display_math(e: &pulldown_cmark::Event<'_>) -> (r: Option<String>)
    ensures
        match r {
            Some(s) => ev_mark(*e) == EventMark::DisplayMath(s@),
            None => !(ev_mark(*e) is DisplayMath),
        },
{
    match e {
        pulldown_cmark::Event::DisplayMath(t) => Some(t.to_string()),
        _ => None,
    }
}

/// Relies on `pulldown_cmark::Event::SoftBreak`.
#[verifier::external_body]
fn ev_is_soft_break(e: &pulldown_cmark::Event<'_>) -> bool {
    matches!(e, pulldown_cmark::Event::SoftBreak)
}

/// Relies on `pulldown_cmark::Event::HardBreak`.
#[verifier::external_body]
fn ev_is_hard_break(e: &pulldown_cmark::Event<'_>) -> bool {
    matches!(e, pulldown_cmark::Event::HardBreak)
}

/// Relies on `pulldown_cmark::Event::Rule`.
#[verifier::external_body]
fn ev_is_rule(e: &pulldown_cmark::Event<'_>) -> bool {
    matches!(e, pulldown_cmark::Event::Rule)
}

/// Relies on `pulldown_cmark::Event::End`: whether this ends any group.
#[verifier::external_body]
fn ev_is_end(e: &pulldown_cmark::Event<'_>) -> bool {
    matches!(e, pulldown_cmark::Event::End(_))
}

/// Relies on `pulldown_cmark::TagEnd::CodeBlock`: whether this ends a code
/// block.
#[verifier::external_body]
pub(crate) fn ev_is_code_block_end(e: &pulldown_cmark::Event<'_>) -> (r: bool)
    ensures
        r == (ev_mark(*e) is CodeEnd),
{
    matches!(e, pulldown_cmark::Event::End(pulldown_cmark::TagEnd::CodeBlock))
}

/// Relies on `pulldown_cmark::Event::Start`: whether this starts any group.
#[verifier::external_body]
fn ev_is_start(e: &pulldown_cmark::Event<'_>) -> bool {
    matches!(e, pulldown_cmark::Event::Start(_))
}

/// Relies on `pulldown_cmark::Tag::Paragraph`.
#[verifier::external_body]
fn ev_start_paragraph(e: &pulldown_cmark::Event<'_>) -> bool {
    matches!(e, pulldown_cmark::Event::Start(pulldown_cmark::Tag::Paragraph))
}

/// Relies on `pulldown_cmark::Tag::Heading`: the level's numeric value,
/// between 1 and 6.
#[verifier::external_body]
fn ev_start_heading(e: &pulldown_cmark::Event<'_>) -> Option<u8> {
    match e {
        pulldown_cmark::Event::Start(pulldown_cmark::Tag::Heading { level, .. }) => {
            Some(*level as u8)
        },
        _ => None,
    }
}

/// Relies on `pulldown_cmark::Tag::BlockQuote`.
#[verifier::external_body]
fn ev_start_block_quote(e: &pulldown_cmark::Event<'_>) -> bool {
    matches!(e, pulldown_cmark::Event::Start(pulldown_cmark::Tag::BlockQuote(_)))
}

/// Relies on `pulldown_cmark::Tag::CodeBlock` and `CodeBlockKind`: the
/// fence's info string, or `None` for an indented block.
#[verifier::external_body]
pub(crate) fn ev_start_code_block(e: &pulldown_cmark::Event<'_>) -> (r: Option<Option<String>>)
    ensures
        match r {
            Some(lang) => ev_mark(*e) == EventMark::CodeStart(
                match lang {
                    Some(l) => Some(l@),
                    None => None,
                },
            ),
            None => !(ev_mark(*e) is CodeStart),
        },
{
    match e {
        pulldown_cmark::Event::Start(pulldown_cmark::Tag::CodeBlock(kind)) => match kind {
            pulldown_cmark::CodeBlockKind::Indented => Some(None),
            pulldown_cmark::CodeBlockKind::Fenced(s) => Some(Some(s.to_string())),
        },
        _ => None,
    }
}

/// Relies on `pulldown_cmark::Tag::HtmlBlock`.
#[verifier::external_body]
fn ev_start_html_block(e: &pulldown_cmark::Event<'_>) -> bool {
    matches!(e, pulldown_cmark::Event::Start(pulldown_cmark::Tag::HtmlBlock))
}

/// Relies on `pulldown_cmark::Tag::List`: the first number of an ordered
/// list, `None` inside `Some` meaning the list is unordered.
#[verifier::external_body]
fn ev_start_list(e: &pulldown_cmark::Event<'_>) -> Option<Option<u64>> {
    match e {
        pulldown_cmark::Event::Start(pulldown_cmark::Tag::List(start)) => Some(*start),
        _ => None,
    }
}

/// Relies on `pulldown_cmark::Tag::Item`.
#[verifier::external_body]
fn ev_start_item(e: &pulldown_cmark::Event<'_>) -> bool {
    matches!(e, pulldown_cmark::Event::Start(pulldown_cmark::Tag::Item))
}

/// Relies on `pulldown_cmark::Tag::Table` and `Alignment`: the column
/// alignments, one per column.
#[verifier::external_body]
fn ev_start_table(e: &pulldown_cmark::Event<'_>) -> Option<Vec<MdAlign>> {
    match e {
        pulldown_cmark::Event::Start(pulldown_cmark::Tag::Table(aligns)) => Some(
            aligns.iter().map(|a| match a {
                pulldown_cmark::Alignment::None => MdAlign::Default,
                pulldown_cmark::Alignment::Left => MdAlign::Left,
                pulldown_cmark::Alignment::Center => MdAlign::Center,
                pulldown_cmark::Alignment::Right => MdAlign::Right,
            }).collect(),
        ),
        _ => None,
    }
}

/// Relies on `pulldown_cmark::Tag::TableHead`.
#[verifier::external_body]
fn ev_start_table_head(e: &pulldown_cmark::Event<'_>) -> bool {
    matches!(e, pulldown_cmark::Event::Start(pulldown_cmark::Tag::TableHead))
}

/// Relies on `pulldown_cmark::Tag::TableRow`.
#[verifier::external_body]
fn ev_start_table_row(e: &pulldown_cmark::Event<'_>) -> bool {
    matches!(e, pulldown_cmark::Event::Start(pulldown_cmark::Tag::TableRow))
}

/// Relies on `pulldown_cmark::Tag::TableCell`.
#[verifier::external_body]
fn ev_start_table_cell(e: &pulldown_cmark::Event<'_>) -> bool {
    matches!(e, pulldown_cmark::Event::Start(pulldown_cmark::Tag::TableCell))
}

/// Relies on `pulldown_cmark::Tag::Emphasis`.
#[verifier::external_body]
fn ev_start_emphasis(e: &pulldown_cmark::Event<'_>) -> bool {
    matches!(e, pulldown_cmark::Event::Start(pulldown_cmark::Tag::Emphasis))
}

/// Relies on `pulldown_cmark::Tag::Strong`.
#[verifier::external_body]
fn ev_start_strong(e: &pulldown_cmark::Event<'_>) -> bool {
    matches!(e, pulldown_cmark::Event::Start(pulldown_cmark::Tag::Strong))
}

/// Relies on `pulldown_cmark::Tag::Strikethrough`.
#[verifier::external_body]
fn ev_start_strikethrough(e: &pulldown_cmark::Event<'_>) -> bool {
    matches!(e, pulldown_cmark::Event::Start(pulldown_cmark::Tag::Strikethrough))
}

/// Relies on `pulldown_cmark::Tag::Link`: the destination URL.
#[verifier::external_body]
fn ev_start_link(e: &pulldown_cmark::Event<'_>) -> Option<String> {
    match e {
        pulldown_cmark::Event::Start(pulldown_cmark::Tag::Link { dest_url, .. }) => Some(
            dest_url.to_string(),
        ),
        _ => None,
    }
}

/// Relies on `pulldown_cmark::Tag::Image`: the destination URL.
#[verifier::external_body]
fn ev_start_image(e: &pulldown_cmark::Event<'_>) -> Option<String> {
    match e {
        pulldown_cmark::Event::Start(pulldown_cmark::Tag::Image { dest_url, .. }) => Some(
            dest_url.to_string(),
        ),
        _ => None,
    }
}

/// Classifies one parser event into the crate's own model.  Events outside
/// the fixed dialect classify as `Unsupported`.
pub fn classify_event(e: &pulldown_cmark::Event<'_>) -> MdEvent {
    if ev_start_paragraph(e) {
        return MdEvent::Start(MarkupTag::Paragraph);
    }
    if let Some(level) = ev_start_heading(e) {
        return MdEvent::Start(MarkupTag::Heading(level));
    }
    if ev_start_block_quote(e) {
        return MdEvent::Start(MarkupTag::BlockQuote);
    }
    if let Some(lang) = ev_start_code_block(e) {
        return MdEvent::Start(MarkupTag::CodeBlock(lang));
    }
    if ev_start_html_block(e) {
        return MdEvent::Start(MarkupTag::HtmlBlock);
    }
    if let Some(start) = ev_start_list(e) {
        return MdEvent::Start(MarkupTag::List(start));
    }
    if ev_start_item(e) {
        return MdEvent::Start(MarkupTag::Item);
    }
    if let Some(aligns) = ev_start_table(e) {
        return MdEvent::Start(MarkupTag::Table(aligns));
    }
    if ev_start_table_head(e) {
        return MdEvent::Start(MarkupTag::TableHead);
    }
    if ev_start_table_row(e) {
        return MdEvent::Start(MarkupTag::TableRow);
    }
    if ev_start_table_cell(e) {
        return MdEvent::Start(MarkupTag::TableCell);
    }
    if ev_start_emphasis(e) {
        return MdEvent::Start(MarkupTag::Emphasis);
    }
    if ev_start_strong(e) {
        return MdEvent::Start(MarkupTag::Strong);
    }
    if ev_start_strikethrough(e) {
        return MdEvent::Start(MarkupTag::Strikethrough);
    }
    if let Some(dest) = ev_start_link(e) {
        return MdEvent::Start(MarkupTag::Link { dest });
    }
    if let Some(dest) = ev_start_image(e) {
        return MdEvent::Start(MarkupTag::Image { dest });
    }
    if ev_is_start(e) {
        return MdEvent::Start(MarkupTag::Unsupported);
    }
    if ev_is_end(e) {
        return MdEvent::End;
    }
    if let Some(t) = ev_text(e) {
        return MdEvent::Text(t);
    }
    if let Some(t) = ev_code(e) {
        return MdEvent::Code(t);
    }
    if let Some(t) = ev_html(e) {
        return MdEvent::Html(t);
    }
    if let Some(t) = ev_inline_html(e) {
        return MdEvent::InlineHtml(t);
    }
    if let Some(t) = ev_inline_math(e) {
        return MdEvent::InlineMath(t);
    }
    if let Some(t) = ev_display_math(e) {
        return MdEvent::DisplayMath(t);
    }
    if ev_is_soft_break(e) {
        return MdEvent::SoftBreak;
    }
    if ev_is_hard_break(e) {
        return MdEvent::HardBreak;
    }
    if ev_is_rule(e) {
        return MdEvent::Rule;
    }
    MdEvent::Unsupported
}

/// The nesting state of the tokenizer boundary: the groups currently
/// open, innermost last, and the finished top-level nodes.
pub struct NestState {
    /// The open groups: each tag with the children collected so far.
    pub stack: Vec<(MarkupTag, Vec<MarkupNode>)>,
    /// The finished top-level nodes, in order.
    pub top: Vec<MarkupNode>,
}

/// Turns a leaf event into a leaf node; `None` for start and end events.
fn leaf_node(e: MdEvent) -> (r: Option<MarkupNode>)
    ensures
        (e is Start || e is End) <==> r is None,
{
    match e {
        MdEvent::Start(_) => None,
        MdEvent::End => None,
        MdEvent::Text(t) => Some(MarkupNode::Text(t)),
        MdEvent::Code(t) => Some(MarkupNode::Code(t)),
        MdEvent::Html(t) => Some(MarkupNode::Html(t)),
        MdEvent::InlineHtml(t) => Some(MarkupNode::InlineHtml(t)),
        MdEvent::SoftBreak => Some(MarkupNode::SoftBreak),
        MdEvent::HardBreak => Some(MarkupNode::HardBreak),
        MdEvent::Rule => Some(MarkupNode::Rule),
        MdEvent::InlineMath(t) => Some(MarkupNode::InlineMath(t)),
        MdEvent::DisplayMath(t) => Some(MarkupNode::DisplayMath(t)),
        MdEvent::Unsupported => Some(MarkupNode::Unsupported),
    }
}

/// Feeds one event into the nesting state: a start opens a group, an end
/// closes the innermost open group (a stray end is ignored), and a leaf
/// joins the innermost open group or the top level.  In a balanced
/// stream, such as the tokenizer's, every opened group is closed again.
pub fn nest_step(state: NestState, e: MdEvent) -> NestState {
    let NestState { mut stack, mut top } = state;
    match e {
        MdEvent::Start(tag) => {
            stack.push((tag, Vec::new()));
        },
        MdEvent::End => {
            match stack.pop() {
                Some((tag, children)) => {
                    let node = MarkupNode::Group { tag, children };
                    match stack.pop() {
                        Some((ptag, mut pchildren)) => {
                            pchildren.push(node);
                            stack.push((ptag, pchildren));
                        },
                        None => {
                            top.push(node);
                        },
                    }
                },
                None => {},
            }
        },
        other => {
            let node = match leaf_node(other) {
                Some(n) => n,
                None => MarkupNode::Unsupported,
            };
            match stack.pop() {
                Some((ptag, mut pchildren)) => {
                    pchildren.push(node);
                    stack.push((ptag, pchildren));
                },
                None => {
                    top.push(node);
                },
            }
        },
    }
    NestState { stack, top }
}

/// The markup tree the tokenizer boundary hands over for this text: one
/// value, determined by the text and the fixed dialect alone.
pub uninterp spec fn tree_of(text: Seq<char>) -> Seq<MarkupNode>;

/// Relies on `pulldown_cmark::Parser::new_ext`: the tokenizer boundary as
/// a whole, handing over the markup tree the renderer consumes.  The parse
/// is the only call the body makes; the closure handed into the parser's
/// event pipeline classifies and nests each event through the verified,
/// panic-free `classify_event` and `nest_step` above, both plain
/// deterministic code.  The parse is guaranteed balanced, so after the
/// fold no group is left open and the finished top level is the tree;
/// this wrapper trusts that the boundary's result is the fixed function
/// `tree_of` of the text.
#[verifier::external_body]
pub(crate) fn tokenize(text: &str) -> (r: Vec<MarkupNode>)
    ensures
        r@ == tree_of(text@),
{
    let options = pulldown_cmark::Options::ENABLE_TABLES
        | pulldown_cmark::Options::ENABLE_SMART_PUNCTUATION
        | pulldown_cmark::Options::ENABLE_STRIKETHROUGH
        | pulldown_cmark::Options::ENABLE_MATH;
    let state = pulldown_cmark::Parser::new_ext(text, options).fold(
        NestState { stack: Vec::new(), top: Vec::new() },
        |state, e| nest_step(state, classify_event(&e)),
    );
    state.top
}

/// Parses markup text into the markup tree.
pub fn parse_markup(text: &str) -> (r: Vec<MarkupNode>)
    ensures
        r@ == tree_of(text@),
{
    tokenize(text)
}

} // verus!
