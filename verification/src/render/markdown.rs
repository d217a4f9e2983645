//! The markup renderer: a markup tree model, a structured content tree,
//! and the fail-fast conversion between them.
//!
//! The tree is produced by the tokenizer boundary in [`crate::render::events`];
//! math spans are handed to a caller-supplied [`MathEvaluator`].  The
//! conversion itself is specified exactly: for well-shaped, math-free trees
//! the result is pinned to [`spec_render`], and every error names a fault
//! that the input really contains.

use vstd::prelude::*;
use crate::text::str_to_string;

verus! {

/// A table column's alignment.
#[derive(Debug, Clone, Copy, PartialEq, Eq, Structural)]
pub enum MdAlign {
    Default,
    Left,
    Center,
    Right,
}

/// The tag of a markup group node.
#[derive(Debug, Clone)]
pub enum MarkupTag {
    Paragraph,
    Heading(u8),
    BlockQuote,
    /// A code block; `None` marks an indented block, `Some` a fenced block
    /// with its info string (possibly empty).
    CodeBlock(Option<String>),
    HtmlBlock,
    /// A list; `Some(n)` marks an ordered list starting at `n`.
    List(Option<u64>),
    Item,
    Table(Vec<MdAlign>),
    TableHead,
    TableRow,
    TableCell,
    Emphasis,
    Strong,
    Strikethrough,
    Link { dest: String },
    Image { dest: String },
    /// A tag the fixed dialect never produces; reaching one is an internal
    /// invariant violation, not user error.
    Unsupported,
}

/// A node of the markup tree handed in by the tokenizer boundary.
#[derive(Debug)]
pub enum MarkupNode {
    Group { tag: MarkupTag, children: Vec<MarkupNode> },
    Text(String),
    Code(String),
    Html(String),
    InlineHtml(String),
    SoftBreak,
    HardBreak,
    Rule,
    InlineMath(String),
    DisplayMath(String),
    /// A leaf the fixed dialect never produces (a footnote reference, a
    /// task-list marker); reaching one is an internal invariant violation.
    Unsupported,
}

/// A node of the structured content tree, the typesetting-ready output.
/// `M` is the evaluator's content type for rendered math.
#[derive(Debug)]
pub enum ContentNode<M> {
    Sequence(Vec<ContentNode<M>>),
    Paragraph(Vec<ContentNode<M>>),
    Heading { level: u8, content: Vec<ContentNode<M>> },
    BlockQuote(Vec<ContentNode<M>>),
    CodeBlock { text: String, lang: Option<String> },
    Code(String),
    List { start: Option<u64>, items: Vec<ContentNode<M>> },
    ListItem { number: Option<u64>, content: Vec<ContentNode<M>> },
    Table {
        columns: usize,
        aligns: Vec<MdAlign>,
        header: Vec<ContentNode<M>>,
        rows: Vec<Vec<ContentNode<M>>>,
    },
    TableCell(Vec<ContentNode<M>>),
    Emphasis(Vec<ContentNode<M>>),
    Strong(Vec<ContentNode<M>>),
    Strikethrough(Vec<ContentNode<M>>),
    Link { dest: String, content: Vec<ContentNode<M>> },
    Text(String),
    Space,
    LineBreak,
    Rule,
    Math(M),
}

/// Why a render failed.
#[derive(Debug, Clone, PartialEq, Eq)]
pub enum RenderError {
    /// One or more math spans failed to typeset; carries every diagnostic.
    TypstError(Vec<String>),
    /// Raw HTML appeared, which the content tree cannot embed.
    UnsupportedHtml,
    /// A table group did not start with a table head, or held something
    /// other than rows.
    MalformedTable,
    /// An image link: acknowledged but not yet supported.
    Unimplemented,
    /// A node the fixed dialect never produces appeared: a configuration
    /// defect, not user error.
    InternalInvariant,
}

/// The mathematics gateway: one call, one isolated evaluation environment.
/// A failed evaluation reports every diagnostic it produced, never an
/// empty list, and is not retried.
pub trait MathEvaluator {
    /// The evaluator's structured content type.
    type Content;

    /// Evaluates a bare expression in math mode with an empty scope.
    fn eval_inline(&self, expr: &str) -> (r: Result<Self::Content, Vec<String>>)
        ensures
            r matches Err(d) ==> d@.len() > 0,
    ;

    /// Evaluates an already-trimmed expression as block math in markup
    /// mode, with the mathematics symbols in scope.
    fn eval_display(&self, expr: &str) -> (r: Result<Self::Content, Vec<String>>)
        ensures
            r matches Err(d) ==> d@.len() > 0,
    ;

    /// Compiles the expression as a standalone auto-sized page and renders
    /// that page as an SVG fragment.
    fn eval_svg(&self, expr: &str, display: bool) -> (r: Result<String, Vec<String>>)
        ensures
            r matches Err(d) ==> d@.len() > 0,
    ;
}

/// The ghost shape of a content tree: the same constructors with their
/// mathematical views, math payloads dropped.
pub enum ContentView {
    Sequence(Seq<ContentView>),
    Paragraph(Seq<ContentView>),
    Heading { level: u8, content: Seq<ContentView> },
    BlockQuote(Seq<ContentView>),
    CodeBlock { text: Seq<char>, lang: Option<Seq<char>> },
    Code(Seq<char>),
    List { start: Option<u64>, items: Seq<ContentView> },
    ListItem { number: Option<u64>, content: Seq<ContentView> },
    Table {
        columns: int,
        aligns: Seq<MdAlign>,
        header: Seq<ContentView>,
        rows: Seq<Seq<ContentView>>,
    },
    TableCell(Seq<ContentView>),
    Emphasis(Seq<ContentView>),
    Strong(Seq<ContentView>),
    Strikethrough(Seq<ContentView>),
    Link { dest: Seq<char>, content: Seq<ContentView> },
    Text(Seq<char>),
    Space,
    LineBreak,
    Rule,
    Math,
}

/// The ghost shapes of a list of rendered nodes, in order.
pub open spec fn content_views<M>(s: Seq<ContentNode<M>>) -> Seq<ContentView>
    decreases s,
{
    if s.len() == 0 {
        Seq::empty()
    } else {
        seq![content_view(s[0])] + content_views(s.drop_first())
    }
}

/// The ghost shapes of a list of rendered rows.
pub open spec fn row_views<M>(s: Seq<Vec<ContentNode<M>>>) -> Seq<Seq<ContentView>>
    decreases s,
{
    if s.len() == 0 {
        Seq::empty()
    } else {
        seq![content_views(s[0]@)] + row_views(s.drop_first())
    }
}

/// The ghost shape of a rendered node.
pub open spec fn content_view<M>(c: ContentNode<M>) -> ContentView
    decreases c,
{
    match c {
        ContentNode::Sequence(cs) => ContentView::Sequence(content_views(cs@)),
        ContentNode::Paragraph(cs) => ContentView::Paragraph(content_views(cs@)),
        ContentNode::Heading { level, content } => ContentView::Heading {
            level,
            content: content_views(content@),
        },
        ContentNode::BlockQuote(cs) => ContentView::BlockQuote(content_views(cs@)),
        ContentNode::CodeBlock { text, lang } => ContentView::CodeBlock {
            text: text@,
            lang: match lang {
                Some(l) => Some(l@),
                None => None,
            },
        },
        ContentNode::Code(s) => ContentView::Code(s@),
        ContentNode::List { start, items } => ContentView::List {
            start,
            items: content_views(items@),
        },
        ContentNode::ListItem { number, content } => ContentView::ListItem {
            number,
            content: content_views(content@),
        },
        ContentNode::Table { columns, aligns, header, rows } => ContentView::Table {
            columns: columns as int,
            aligns: aligns@,
            header: content_views(header@),
            rows: row_views(rows@),
        },
        ContentNode::TableCell(cs) => ContentView::TableCell(content_views(cs@)),
        ContentNode::Emphasis(cs) => ContentView::Emphasis(content_views(cs@)),
        ContentNode::Strong(cs) => ContentView::Strong(content_views(cs@)),
        ContentNode::Strikethrough(cs) => ContentView::Strikethrough(content_views(cs@)),
        ContentNode::Link { dest, content } => ContentView::Link {
            dest: dest@,
            content: content_views(content@),
        },
        ContentNode::Text(s) => ContentView::Text(s@),
        ContentNode::Space => ContentView::Space,
        ContentNode::LineBreak => ContentView::LineBreak,
        ContentNode::Rule => ContentView::Rule,
        ContentNode::Math(_) => ContentView::Math,
    }
}

/// The shape list of `s` holds one entry per node.
pub proof fn lemma_content_views_len<M>(s: Seq<ContentNode<M>>)
    ensures
        content_views(s).len() == s.len(),
    decreases s,
{
    if s.len() > 0 {
        lemma_content_views_len(s.drop_first());
    }
}

/// Appending one node appends its shape.
pub proof fn lemma_content_views_push<M>(s: Seq<ContentNode<M>>, c: ContentNode<M>)
    ensures
        content_views(s.push(c)) == content_views(s).push(content_view(c)),
    decreases s,
{
    if s.len() == 0 {
        assert(s.push(c) =~= seq![c]);
        assert(s.push(c).drop_first() =~= Seq::<ContentNode<M>>::empty());
        assert(s.push(c)[0] == c);
        assert(content_views(s.push(c).drop_first()) == Seq::<ContentView>::empty());
        assert(content_views(s.push(c)) == seq![content_view(c)] + Seq::<ContentView>::empty());
        assert(seq![content_view(c)] + Seq::<ContentView>::empty() =~= seq![content_view(c)]);
        assert(content_views(s) =~= Seq::<ContentView>::empty());
        assert(content_views(s).push(content_view(c)) =~= seq![content_view(c)]);
    } else {
        lemma_content_views_push(s.drop_first(), c);
        assert(s.push(c).drop_first() =~= s.drop_first().push(c));
        assert(s.push(c)[0] == s[0]);
        assert(content_views(s.push(c)) == seq![content_view(s[0])] + content_views(
            s.drop_first().push(c),
        ));
        assert(content_views(s).push(content_view(c)) =~= seq![content_view(s[0])] + (
        content_views(s.drop_first()).push(content_view(c))));
    }
}

/// Appending one row appends its shape list.
pub proof fn lemma_row_views_push<M>(s: Seq<Vec<ContentNode<M>>>, c: Vec<ContentNode<M>>)
    ensures
        row_views(s.push(c)) == row_views(s).push(content_views(c@)),
    decreases s,
{
    if s.len() == 0 {
        assert(s.push(c) =~= seq![c]);
        assert(s.push(c).drop_first() =~= Seq::<Vec<ContentNode<M>>>::empty());
        assert(s.push(c)[0] == c);
        assert(row_views(s.push(c).drop_first()) == Seq::<Seq<ContentView>>::empty());
        assert(row_views(s.push(c)) == seq![content_views(c@)] + Seq::<Seq<ContentView>>::empty());
        assert(seq![content_views(c@)] + Seq::<Seq<ContentView>>::empty() =~= seq![
            content_views(c@),
        ]);
        assert(row_views(s) =~= Seq::<Seq<ContentView>>::empty());
        assert(row_views(s).push(content_views(c@)) =~= seq![content_views(c@)]);
    } else {
        lemma_row_views_push(s.drop_first(), c);
        assert(s.push(c).drop_first() =~= s.drop_first().push(c));
        assert(s.push(c)[0] == s[0]);
        assert(row_views(s.push(c)) == seq![content_views(s[0]@)] + row_views(
            s.drop_first().push(c),
        ));
        assert(row_views(s).push(content_views(c@)) =~= seq![content_views(s[0]@)] + (row_views(
            s.drop_first(),
        ).push(content_views(c@))));
    }
}

} // verus!

verus! {

/// A piece of text in the markup dialect, ready to be rendered.
#[derive(Debug, Clone)]
pub struct MarkdownRenderable(String);

impl MarkdownRenderable {
    pub closed spec fn view(self) -> Seq<char> {
        self.0@
    }

    /// Wraps raw markup text.
    pub fn from_raw(raw: String) -> (r: MarkdownRenderable)
        ensures
            r@ == raw@,
    {
        MarkdownRenderable(raw)
    }

    /// The raw markup text.
    pub fn raw(&self) -> (r: &str)
        ensures
            r@ == self@,
    {
        self.0.as_str()
    }
}

} // verus!

verus! {

/// The whitespace characters trimmed around display math: the Unicode
/// white-space set, as `str::trim` uses it.
pub open spec fn is_md_space(c: char) -> bool {
    ||| c == '\u{0009}'
    ||| c == '\u{000A}'
    ||| c == '\u{000B}'
    ||| c == '\u{000C}'
    ||| c == '\u{000D}'
    ||| c == '\u{0020}'
    ||| c == '\u{0085}'
    ||| c == '\u{00A0}'
    ||| c == '\u{1680}'
    ||| ('\u{2000}' <= c && c <= '\u{200A}')
    ||| c == '\u{2028}'
    ||| c == '\u{2029}'
    ||| c == '\u{202F}'
    ||| c == '\u{205F}'
    ||| c == '\u{3000}'
}

/// `s` without leading whitespace.
pub open spec fn ltrim(s: Seq<char>) -> Seq<char>
    decreases s.len(),
{
    if s.len() > 0 && is_md_space(s[0]) {
        ltrim(s.drop_first())
    } else {
        s
    }
}

/// `s` without trailing whitespace.
pub open spec fn rtrim(s: Seq<char>) -> Seq<char>
    decreases s.len(),
{
    if s.len() > 0 && is_md_space(s[s.len() - 1]) {
        rtrim(s.drop_last())
    } else {
        s
    }
}

/// `s` without surrounding whitespace.
pub open spec fn trim_spec(s: Seq<char>) -> Seq<char> {
    rtrim(ltrim(s))
}

fn is_space_char(c: char) -> (r: bool)
    ensures
        r == is_md_space(c),
{
    c == '\u{0009}' || c == '\u{000A}' || c == '\u{000B}' || c == '\u{000C}' || c == '\u{000D}'
        || c == '\u{0020}' || c == '\u{0085}' || c == '\u{00A0}' || c == '\u{1680}' || (
    '\u{2000}' <= c && c <= '\u{200A}') || c == '\u{2028}' || c == '\u{2029}' || c == '\u{202F}'
        || c == '\u{205F}' || c == '\u{3000}'
}

/// Strips the whitespace around `s`.
pub fn trim_text(s: &str) -> (r: &str)
    ensures
        r@ == trim_spec(s@),
{
    let n = s.unicode_len();
    proof {
        assert(s@.skip(0) =~= s@);
    }
    let mut a: usize = 0;
    while a < n && is_space_char(s.get_char(a))
        invariant
            a <= n,
            n == s@.len(),
            ltrim(s@) == ltrim(s@.skip(a as int)),
        decreases n - a,
    {
        proof {
            assert(s@.skip(a as int).drop_first() =~= s@.skip(a as int + 1));
        }
        a = a + 1;
    }
    proof {
        assert(ltrim(s@.skip(a as int)) == s@.skip(a as int));
    }
    let mut b: usize = n;
    while b > a && is_space_char(s.get_char(b - 1))
        invariant
            a <= b <= n,
            n == s@.len(),
            ltrim(s@) == s@.skip(a as int),
            rtrim(s@.skip(a as int)) == rtrim(s@.subrange(a as int, b as int)),
        decreases b,
    {
        proof {
            assert(s@.subrange(a as int, b as int).drop_last() =~= s@.subrange(
                a as int,
                b as int - 1,
            ));
            assert(s@.subrange(a as int, b as int)[b - a - 1] == s@[b - 1]);
        }
        b = b - 1;
    }
    proof {
        assert(rtrim(s@.subrange(a as int, b as int)) == s@.subrange(a as int, b as int));
    }
    s.substring_char(a, b)
}

/// Whether every node of the tree is free of math spans.
pub open spec fn math_free(n: MarkupNode) -> bool
    decreases n,
{
    match n {
        MarkupNode::Group { children, .. } => all_math_free(children@),
        MarkupNode::InlineMath(_) => false,
        MarkupNode::DisplayMath(_) => false,
        _ => true,
    }
}

pub open spec fn all_math_free(s: Seq<MarkupNode>) -> bool
    decreases s,
{
    if s.len() == 0 {
        true
    } else {
        math_free(s[0]) && all_math_free(s.drop_first())
    }
}

/// Whether a table group's children have the demanded shape: a head first,
/// then rows only.
pub open spec fn table_shape_ok(s: Seq<MarkupNode>) -> bool
    decreases s,
{
    &&& s.len() >= 1
    &&& s[0] matches MarkupNode::Group { tag: MarkupTag::TableHead, children: hc } && all_static_ok(
        hc@,
    )
    &&& rows_ok(s.drop_first())
}

pub open spec fn rows_ok(s: Seq<MarkupNode>) -> bool
    decreases s,
{
    if s.len() == 0 {
        true
    } else {
        (s[0] matches MarkupNode::Group { tag: MarkupTag::TableRow, children: rc }
            && all_static_ok(rc@)) && rows_ok(s.drop_first())
    }
}

/// Whether every leaf under a code block is plain text.
pub open spec fn all_text(s: Seq<MarkupNode>) -> bool
    decreases s,
{
    if s.len() == 0 {
        true
    } else {
        (s[0] is Text) && all_text(s.drop_first())
    }
}

/// The concatenated text leaves of a code block.
pub open spec fn texts_concat(s: Seq<MarkupNode>) -> Seq<char>
    decreases s,
{
    if s.len() == 0 {
        Seq::empty()
    } else {
        (match s[0] {
            MarkupNode::Text(t) => t@,
            _ => Seq::empty(),
        }) + texts_concat(s.drop_first())
    }
}

/// Whether the tree renders without error, not counting math failures: no
/// raw HTML, no image, no out-of-dialect node, heading levels in range,
/// tables well shaped, code blocks text-only, and table heads and rows only
/// inside a table.
pub open spec fn static_ok(n: MarkupNode) -> bool
    decreases n,
{
    match n {
        MarkupNode::Group { tag, children } => match tag {
            MarkupTag::CodeBlock(_) => all_text(children@),
            MarkupTag::HtmlBlock => false,
            MarkupTag::Heading(l) => 1 <= l <= 6 && all_static_ok(children@),
            MarkupTag::Table(_) => table_shape_ok(children@),
            MarkupTag::TableHead => false,
            MarkupTag::TableRow => false,
            MarkupTag::Image { .. } => false,
            MarkupTag::Unsupported => false,
            _ => all_static_ok(children@),
        },
        MarkupNode::Html(_) => false,
        MarkupNode::InlineHtml(_) => false,
        MarkupNode::Unsupported => false,
        _ => true,
    }
}

pub open spec fn all_static_ok(s: Seq<MarkupNode>) -> bool
    decreases s,
{
    if s.len() == 0 {
        true
    } else {
        static_ok(s[0]) && all_static_ok(s.drop_first())
    }
}

/// Whether the tree holds raw HTML anywhere: an HTML leaf, an inline-HTML
/// leaf, or an HTML block group.
pub open spec fn has_html(n: MarkupNode) -> bool
    decreases n,
{
    match n {
        MarkupNode::Group { tag, children } => (tag is HtmlBlock) || exists|i: int|
            0 <= i < children@.len() && has_html(#[trigger] children@[i]),
        MarkupNode::Html(_) => true,
        MarkupNode::InlineHtml(_) => true,
        _ => false,
    }
}

/// Whether the tree holds an image anywhere.
pub open spec fn has_image(n: MarkupNode) -> bool
    decreases n,
{
    match n {
        MarkupNode::Group { tag, children } => (tag matches MarkupTag::Image { .. }) || exists|
            i: int,
        | 0 <= i < children@.len() && has_image(#[trigger] children@[i]),
        _ => false,
    }
}

/// Whether the tree holds an internal-invariant violation anywhere: an
/// out-of-dialect node or tag, a heading level out of range, or a
/// non-text leaf under a code block.
pub open spec fn has_inv_fault(n: MarkupNode) -> bool
    decreases n,
{
    match n {
        MarkupNode::Group { tag, children } => {
            ||| (tag is Unsupported)
            ||| (tag matches MarkupTag::Heading(l) && !(1 <= l <= 6))
            ||| (tag matches MarkupTag::CodeBlock(_) && exists|i: int|
                0 <= i < children@.len() && !((#[trigger] children@[i]) is Text))
            ||| exists|i: int| 0 <= i < children@.len() && has_inv_fault(#[trigger] children@[i])
        },
        MarkupNode::Unsupported => true,
        _ => false,
    }
}

/// Whether the tree holds a table-shape fault anywhere: a head or row
/// group outside a table, a table whose first child is not its head, or a
/// table whose remaining children are not all row groups.
pub open spec fn has_table_fault(n: MarkupNode) -> bool
    decreases n,
{
    match n {
        MarkupNode::Group { tag, children } => {
            ||| (tag is TableHead)
            ||| (tag is TableRow)
            ||| (tag matches MarkupTag::Table(_) && !(children@.len() >= 1 && children@[0]
                matches MarkupNode::Group { tag: MarkupTag::TableHead, .. }))
            ||| (tag matches MarkupTag::Table(_) && exists|i: int|
                1 <= i < children@.len() && !((#[trigger] children@[i]) matches MarkupNode::Group {
                    tag: MarkupTag::TableRow,
                    ..
                }))
            ||| exists|i: int| 0 <= i < children@.len() && has_table_fault(#[trigger] children@[i])
        },
        _ => false,
    }
}

/// Whether the error `e` names a fault the tree really holds: raw HTML for
/// `UnsupportedHtml`, an image for `Unimplemented`, a table-shape fault
/// for `MalformedTable`, an out-of-dialect piece for `InternalInvariant`,
/// and a math span with non-empty diagnostics for `TypstError`.
pub open spec fn err_cause(n: MarkupNode, e: RenderError) -> bool {
    match e {
        RenderError::UnsupportedHtml => has_html(n),
        RenderError::Unimplemented => has_image(n),
        RenderError::MalformedTable => has_table_fault(n),
        RenderError::InternalInvariant => has_inv_fault(n),
        RenderError::TypstError(d) => !math_free(n) && d@.len() > 0,
    }
}

/// A fault of one sibling is a fault of the list.
proof fn lemma_cause_seq(s: Seq<MarkupNode>, i: int, e: RenderError)
    requires
        0 <= i < s.len(),
        err_cause(s[i], e),
    ensures
        errs_cause(s, e),
{
    if e is TypstError {
        lemma_all_math_free_iff(s);
    }
}

/// A fault of one child is a fault of the group around it.
proof fn lemma_cause_lift(tag: MarkupTag, children: Vec<MarkupNode>, i: int, e: RenderError)
    requires
        0 <= i < children@.len(),
        err_cause(children@[i], e),
    ensures
        err_cause(MarkupNode::Group { tag: tag, children: children }, e),
{
    let node = MarkupNode::Group { tag: tag, children: children };
    match node {
        MarkupNode::Group { tag: t2, children: c2 } => {
            assert(c2@ == children@);
            match e {
                RenderError::UnsupportedHtml => {
                    assert(exists|j: int| 0 <= j < c2@.len() && has_html(#[trigger] c2@[j])) by {
                        assert(has_html(c2@[i]));
                    }
                    assert(has_html(node));
                },
                RenderError::Unimplemented => {
                    assert(exists|j: int| 0 <= j < c2@.len() && has_image(#[trigger] c2@[j])) by {
                        assert(has_image(c2@[i]));
                    }
                    assert(has_image(node));
                },
                RenderError::MalformedTable => {
                    assert(exists|j: int|
                        0 <= j < c2@.len() && has_table_fault(#[trigger] c2@[j])) by {
                        assert(has_table_fault(c2@[i]));
                    }
                    assert(has_table_fault(node));
                },
                RenderError::InternalInvariant => {
                    assert(exists|j: int|
                        0 <= j < c2@.len() && has_inv_fault(#[trigger] c2@[j])) by {
                        assert(has_inv_fault(c2@[i]));
                    }
                    assert(has_inv_fault(node));
                },
                RenderError::TypstError(_) => {
                    lemma_all_math_free_iff(children@);
                },
            }
        },
        _ => {},
    }
}

/// A fault of some sibling is a fault of the group around them.
proof fn lemma_cause_group_from_seq(tag: MarkupTag, children: Vec<MarkupNode>, e: RenderError)
    requires
        errs_cause(children@, e),
    ensures
        err_cause(MarkupNode::Group { tag: tag, children: children }, e),
{
    match e {
        RenderError::UnsupportedHtml => {
            let i = choose|i: int| 0 <= i < children@.len() && has_html(#[trigger] children@[i]);
            lemma_cause_lift(tag, children, i, e);
        },
        RenderError::Unimplemented => {
            let i = choose|i: int| 0 <= i < children@.len() && has_image(#[trigger] children@[i]);
            lemma_cause_lift(tag, children, i, e);
        },
        RenderError::MalformedTable => {
            let i = choose|i: int|
                0 <= i < children@.len() && has_table_fault(#[trigger] children@[i]);
            lemma_cause_lift(tag, children, i, e);
        },
        RenderError::InternalInvariant => {
            let i = choose|i: int|
                0 <= i < children@.len() && has_inv_fault(#[trigger] children@[i]);
            lemma_cause_lift(tag, children, i, e);
        },
        RenderError::TypstError(_) => {},
    }
}

/// The same, over a list of sibling nodes.
pub open spec fn errs_cause(s: Seq<MarkupNode>, e: RenderError) -> bool {
    match e {
        RenderError::UnsupportedHtml => exists|i: int|
            0 <= i < s.len() && has_html(#[trigger] s[i]),
        RenderError::Unimplemented => exists|i: int|
            0 <= i < s.len() && has_image(#[trigger] s[i]),
        RenderError::MalformedTable => exists|i: int|
            0 <= i < s.len() && has_table_fault(#[trigger] s[i]),
        RenderError::InternalInvariant => exists|i: int|
            0 <= i < s.len() && has_inv_fault(#[trigger] s[i]),
        RenderError::TypstError(d) => !all_math_free(s) && d@.len() > 0,
    }
}

/// The number an ordered list's item at offset `i` gets: the start plus the
/// offset, held at the largest representable value.  An unordered item gets
/// none.
pub open spec fn number_at(start: Option<u64>, i: int) -> Option<u64> {
    match start {
        Some(s) => if s + i > u64::MAX {
            Some(u64::MAX)
        } else {
            Some((s + i) as u64)
        },
        None => None,
    }
}

/// A fallback shape for nodes the guarded contracts never reach.
pub open spec fn dummy_view() -> ContentView {
    ContentView::Sequence(Seq::empty())
}

/// The shape of one list slot: an item group becomes a numbered item; any
/// other node is wrapped as one.
pub open spec fn item_view(n: MarkupNode, num: Option<u64>) -> ContentView
    decreases n, 1int,
{
    match n {
        MarkupNode::Group { tag: MarkupTag::Item, children } => ContentView::ListItem {
            number: num,
            content: spec_renders(children@),
        },
        _ => ContentView::ListItem { number: num, content: seq![spec_render(n)] },
    }
}

/// The shapes of a list's slots, numbering from offset `idx`.
pub open spec fn spec_items(s: Seq<MarkupNode>, start: Option<u64>, idx: int) -> Seq<ContentView>
    decreases s, 3int,
{
    if s.len() == 0 {
        Seq::empty()
    } else {
        seq![item_view(s[0], number_at(start, idx))] + spec_items(s.drop_first(), start, idx + 1)
    }
}

/// The shapes of a table's body rows.
pub open spec fn spec_rows(s: Seq<MarkupNode>) -> Seq<Seq<ContentView>>
    decreases s, 3int,
{
    if s.len() == 0 {
        Seq::empty()
    } else {
        seq![row_view(s[0])] + spec_rows(s.drop_first())
    }
}

/// The shape of one table row's cells.
pub open spec fn row_view(n: MarkupNode) -> Seq<ContentView>
    decreases n, 1int,
{
    match n {
        MarkupNode::Group { tag: MarkupTag::TableRow, children: rc } => spec_renders(rc@),
        _ => Seq::empty(),
    }
}

/// What the fail-fast renderer produces for a well-shaped, math-free node.
pub open spec fn spec_render(n: MarkupNode) -> ContentView
    decreases n, 0int,
{
    match n {
        MarkupNode::Group { tag, children } => match tag {
            MarkupTag::Paragraph => ContentView::Paragraph(spec_renders(children@)),
            MarkupTag::Heading(l) => ContentView::Heading {
                level: l,
                content: spec_renders(children@),
            },
            MarkupTag::BlockQuote => ContentView::BlockQuote(spec_renders(children@)),
            MarkupTag::CodeBlock(lang) => ContentView::CodeBlock {
                text: texts_concat(children@),
                lang: match lang {
                    Some(l) => if l@.len() > 0 {
                        Some(l@)
                    } else {
                        None
                    },
                    None => None,
                },
            },
            MarkupTag::HtmlBlock => dummy_view(),
            MarkupTag::List(start) => ContentView::List {
                start,
                items: spec_items(children@, start, 0),
            },
            MarkupTag::Item => ContentView::ListItem {
                number: None,
                content: spec_renders(children@),
            },
            MarkupTag::Table(aligns) => if children@.len() >= 1 {
                ContentView::Table {
                    columns: head_cells(children@[0]).len() as int,
                    aligns: aligns@,
                    header: head_view(children@[0]),
                    rows: spec_rows(children@.drop_first()),
                }
            } else {
                dummy_view()
            },
            MarkupTag::TableHead => dummy_view(),
            MarkupTag::TableRow => dummy_view(),
            MarkupTag::TableCell => ContentView::TableCell(spec_renders(children@)),
            MarkupTag::Emphasis => ContentView::Emphasis(spec_renders(children@)),
            MarkupTag::Strong => ContentView::Strong(spec_renders(children@)),
            MarkupTag::Strikethrough => ContentView::Strikethrough(spec_renders(children@)),
            MarkupTag::Link { dest } => ContentView::Link {
                dest: dest@,
                content: spec_renders(children@),
            },
            MarkupTag::Image { .. } => dummy_view(),
            MarkupTag::Unsupported => dummy_view(),
        },
        MarkupNode::Text(s) => ContentView::Text(s@),
        MarkupNode::Code(s) => ContentView::Code(s@),
        MarkupNode::Html(_) => dummy_view(),
        MarkupNode::InlineHtml(_) => dummy_view(),
        MarkupNode::SoftBreak => ContentView::Space,
        MarkupNode::HardBreak => ContentView::LineBreak,
        MarkupNode::Rule => ContentView::Rule,
        MarkupNode::InlineMath(_) => ContentView::Math,
        MarkupNode::DisplayMath(_) => ContentView::Math,
        MarkupNode::Unsupported => dummy_view(),
    }
}

/// The shapes of a list of sibling nodes.
pub open spec fn spec_renders(s: Seq<MarkupNode>) -> Seq<ContentView>
    decreases s, 2int,
{
    if s.len() == 0 {
        Seq::empty()
    } else {
        seq![spec_render(s[0])] + spec_renders(s.drop_first())
    }
}

/// The cells of a table head group; empty for anything else.
pub open spec fn head_cells(n: MarkupNode) -> Seq<MarkupNode> {
    match n {
        MarkupNode::Group { tag: MarkupTag::TableHead, children: hc } => hc@,
        _ => Seq::empty(),
    }
}

/// The shapes of a table head's cells.
pub open spec fn head_view(n: MarkupNode) -> Seq<ContentView>
    decreases n, 1int,
{
    match n {
        MarkupNode::Group { tag: MarkupTag::TableHead, children: hc } => spec_renders(hc@),
        _ => Seq::empty(),
    }
}

} // verus!

verus! {

/// A node list is all statically renderable exactly when each node is.
pub proof fn lemma_all_static_ok_iff(s: Seq<MarkupNode>)
    ensures
        all_static_ok(s) <==> (forall|i: int| 0 <= i < s.len() ==> static_ok(#[trigger] s[i])),
    decreases s,
{
    if s.len() > 0 {
        lemma_all_static_ok_iff(s.drop_first());
        if all_static_ok(s) {
            assert forall|i: int| 0 <= i < s.len() implies static_ok(#[trigger] s[i]) by {
                if i > 0 {
                    assert(s[i] == s.drop_first()[i - 1]);
                }
            }
        }
        if forall|i: int| 0 <= i < s.len() ==> static_ok(#[trigger] s[i]) {
            assert forall|j: int|
                0 <= j < s.drop_first().len() implies static_ok(
                #[trigger] s.drop_first()[j],
            ) by {
                assert(s.drop_first()[j] == s[j + 1]);
            }
            assert(static_ok(s[0]));
        }
    }
}

/// A node list is math free exactly when each node is.
pub proof fn lemma_all_math_free_iff(s: Seq<MarkupNode>)
    ensures
        all_math_free(s) <==> (forall|i: int| 0 <= i < s.len() ==> math_free(#[trigger] s[i])),
    decreases s,
{
    if s.len() > 0 {
        lemma_all_math_free_iff(s.drop_first());
        if all_math_free(s) {
            assert forall|i: int| 0 <= i < s.len() implies math_free(#[trigger] s[i]) by {
                if i > 0 {
                    assert(s[i] == s.drop_first()[i - 1]);
                }
            }
        }
        if forall|i: int| 0 <= i < s.len() ==> math_free(#[trigger] s[i]) {
            assert forall|j: int|
                0 <= j < s.drop_first().len() implies math_free(
                #[trigger] s.drop_first()[j],
            ) by {
                assert(s.drop_first()[j] == s[j + 1]);
            }
            assert(math_free(s[0]));
        }
    }
}

/// A node list is all text exactly when each node is.
pub proof fn lemma_all_text_iff(s: Seq<MarkupNode>)
    ensures
        all_text(s) <==> (forall|i: int| 0 <= i < s.len() ==> (#[trigger] s[i]) is Text),
    decreases s,
{
    if s.len() > 0 {
        lemma_all_text_iff(s.drop_first());
        if all_text(s) {
            assert forall|i: int| 0 <= i < s.len() implies (#[trigger] s[i]) is Text by {
                if i > 0 {
                    assert(s[i] == s.drop_first()[i - 1]);
                }
            }
        }
        if forall|i: int| 0 <= i < s.len() ==> (#[trigger] s[i]) is Text {
            assert forall|j: int|
                0 <= j < s.drop_first().len() implies (#[trigger] s.drop_first()[j]) is Text by {
                assert(s.drop_first()[j] == s[j + 1]);
            }
            assert(s[0] is Text);
        }
    }
}

/// A row list is well shaped exactly when each row is a row group of
/// statically renderable cells.
pub proof fn lemma_rows_ok_iff(s: Seq<MarkupNode>)
    ensures
        rows_ok(s) <==> (forall|i: int|
            0 <= i < s.len() ==> ((#[trigger] s[i]) matches MarkupNode::Group {
                tag: MarkupTag::TableRow,
                children: rc,
            } && all_static_ok(rc@))),
    decreases s,
{
    if s.len() > 0 {
        lemma_rows_ok_iff(s.drop_first());
        if rows_ok(s) {
            assert forall|i: int| 0 <= i < s.len() implies ((#[trigger] s[i])
                matches MarkupNode::Group { tag: MarkupTag::TableRow, children: rc }
                && all_static_ok(rc@)) by {
                if i > 0 {
                    assert(s[i] == s.drop_first()[i - 1]);
                }
            }
        }
        if forall|i: int|
            0 <= i < s.len() ==> ((#[trigger] s[i]) matches MarkupNode::Group {
                tag: MarkupTag::TableRow,
                children: rc,
            } && all_static_ok(rc@)) {
            assert forall|j: int|
                0 <= j < s.drop_first().len() implies ((#[trigger] s.drop_first()[j])
                matches MarkupNode::Group { tag: MarkupTag::TableRow, children: rc }
                && all_static_ok(rc@)) by {
                assert(s.drop_first()[j] == s[j + 1]);
            }
            assert(s[0] matches MarkupNode::Group { tag: MarkupTag::TableRow, children: rc }
                && all_static_ok(rc@));
        }
    }
}

pub proof fn lemma_spec_renders_len(s: Seq<MarkupNode>)
    ensures
        spec_renders(s).len() == s.len(),
    decreases s,
{
    if s.len() > 0 {
        lemma_spec_renders_len(s.drop_first());
    }
}

pub proof fn lemma_spec_renders_snoc(s: Seq<MarkupNode>, i: int)
    requires
        0 <= i < s.len(),
    ensures
        spec_renders(s.take(i + 1)) == spec_renders(s.take(i)).push(spec_render(s[i])),
    decreases i,
{
    if i == 0 {
        assert(s.take(1) =~= seq![s[0]]);
        assert(s.take(1)[0] == s[0]);
        assert(s.take(1).drop_first() =~= Seq::<MarkupNode>::empty());
        assert(spec_renders(s.take(1).drop_first()) == Seq::<ContentView>::empty());
        assert(spec_renders(s.take(1)) == seq![spec_render(s[0])] + Seq::<ContentView>::empty());
        assert(s.take(0) =~= Seq::<MarkupNode>::empty());
        assert(spec_renders(s.take(0)).push(spec_render(s[0])) =~= seq![spec_render(s[0])]
            + Seq::<ContentView>::empty());
    } else {
        let t = s.drop_first();
        lemma_spec_renders_snoc(t, i - 1);
        assert(s.take(i + 1).drop_first() =~= t.take(i));
        assert(s.take(i).drop_first() =~= t.take(i - 1));
        assert(s.take(i + 1)[0] == s[0]);
        assert(s.take(i)[0] == s[0]);
        assert(t[i - 1] == s[i]);
        assert(spec_renders(s.take(i + 1)) == seq![spec_render(s[0])] + (spec_renders(
            t.take(i - 1),
        ).push(spec_render(s[i]))));
        assert(spec_renders(s.take(i)).push(spec_render(s[i])) =~= seq![spec_render(s[0])] + (
        spec_renders(t.take(i - 1)).push(spec_render(s[i]))));
    }
}

pub proof fn lemma_spec_items_snoc(s: Seq<MarkupNode>, start: Option<u64>, idx: int, i: int)
    requires
        0 <= i < s.len(),
    ensures
        spec_items(s.take(i + 1), start, idx) == spec_items(s.take(i), start, idx).push(
            item_view(s[i], number_at(start, idx + i)),
        ),
    decreases i,
{
    if i == 0 {
        assert(s.take(1) =~= seq![s[0]]);
        assert(s.take(1)[0] == s[0]);
        assert(s.take(1).drop_first() =~= Seq::<MarkupNode>::empty());
        assert(spec_items(s.take(1).drop_first(), start, idx + 1) == Seq::<ContentView>::empty());
        assert(spec_items(s.take(1), start, idx) == seq![item_view(s[0], number_at(start, idx))]
            + Seq::<ContentView>::empty());
        assert(s.take(0) =~= Seq::<MarkupNode>::empty());
        assert(spec_items(s.take(0), start, idx).push(item_view(s[0], number_at(start, idx))) =~=
        seq![item_view(s[0], number_at(start, idx))] + Seq::<ContentView>::empty());
    } else {
        let t = s.drop_first();
        lemma_spec_items_snoc(t, start, idx + 1, i - 1);
        assert(s.take(i + 1).drop_first() =~= t.take(i));
        assert(s.take(i).drop_first() =~= t.take(i - 1));
        assert(s.take(i + 1)[0] == s[0]);
        assert(s.take(i)[0] == s[0]);
        assert(t[i - 1] == s[i]);
        assert(spec_items(s.take(i + 1), start, idx) == seq![item_view(s[0], number_at(start, idx))]
            + (spec_items(t.take(i - 1), start, idx + 1).push(
            item_view(s[i], number_at(start, idx + i)),
        )));
        assert(spec_items(s.take(i), start, idx).push(item_view(s[i], number_at(start, idx + i)))
            =~= seq![item_view(s[0], number_at(start, idx))] + (spec_items(
            t.take(i - 1),
            start,
            idx + 1,
        ).push(item_view(s[i], number_at(start, idx + i)))));
    }
}

pub proof fn lemma_spec_rows_snoc(s: Seq<MarkupNode>, i: int)
    requires
        0 <= i < s.len(),
    ensures
        spec_rows(s.take(i + 1)) == spec_rows(s.take(i)).push(row_view(s[i])),
    decreases i,
{
    if i == 0 {
        assert(s.take(1) =~= seq![s[0]]);
        assert(s.take(1)[0] == s[0]);
        assert(s.take(1).drop_first() =~= Seq::<MarkupNode>::empty());
        assert(spec_rows(s.take(1).drop_first()) == Seq::<Seq<ContentView>>::empty());
        assert(spec_rows(s.take(1)) == seq![row_view(s[0])] + Seq::<Seq<ContentView>>::empty());
        assert(s.take(0) =~= Seq::<MarkupNode>::empty());
        assert(spec_rows(s.take(0)).push(row_view(s[0])) =~= seq![row_view(s[0])] + Seq::<
            Seq<ContentView>,
        >::empty());
    } else {
        let t = s.drop_first();
        lemma_spec_rows_snoc(t, i - 1);
        assert(s.take(i + 1).drop_first() =~= t.take(i));
        assert(s.take(i).drop_first() =~= t.take(i - 1));
        assert(s.take(i + 1)[0] == s[0]);
        assert(s.take(i)[0] == s[0]);
        assert(t[i - 1] == s[i]);
        assert(spec_rows(s.take(i + 1)) == seq![row_view(s[0])] + (spec_rows(t.take(i - 1)).push(
            row_view(s[i]),
        )));
        assert(spec_rows(s.take(i)).push(row_view(s[i])) =~= seq![row_view(s[0])] + (spec_rows(
            t.take(i - 1),
        ).push(row_view(s[i]))));
    }
}

pub proof fn lemma_texts_concat_snoc(s: Seq<MarkupNode>, i: int)
    requires
        0 <= i < s.len(),
    ensures
        texts_concat(s.take(i + 1)) == texts_concat(s.take(i)) + (match s[i] {
            MarkupNode::Text(t) => t@,
            _ => Seq::<char>::empty(),
        }),
    decreases i,
{
    let piece = (match s[i] {
        MarkupNode::Text(t) => t@,
        _ => Seq::<char>::empty(),
    });
    if i == 0 {
        assert(s.take(1) =~= seq![s[0]]);
        assert(s.take(1)[0] == s[0]);
        assert(s.take(1).drop_first() =~= Seq::<MarkupNode>::empty());
        assert(texts_concat(s.take(1).drop_first()) == Seq::<char>::empty());
        assert(texts_concat(s.take(1)) == piece + Seq::<char>::empty());
        assert(piece + Seq::<char>::empty() =~= piece);
        assert(s.take(0) =~= Seq::<MarkupNode>::empty());
        assert(texts_concat(s.take(0)) + piece =~= piece);
    } else {
        let t = s.drop_first();
        let first = (match s[0] {
            MarkupNode::Text(x) => x@,
            _ => Seq::<char>::empty(),
        });
        lemma_texts_concat_snoc(t, i - 1);
        assert(s.take(i + 1).drop_first() =~= t.take(i));
        assert(s.take(i).drop_first() =~= t.take(i - 1));
        assert(s.take(i + 1)[0] == s[0]);
        assert(s.take(i)[0] == s[0]);
        assert(t[i - 1] == s[i]);
        assert(texts_concat(s.take(i + 1)) == first + (texts_concat(t.take(i - 1)) + piece));
        assert(texts_concat(s.take(i)) + piece =~= first + (texts_concat(t.take(i - 1)) + piece));
    }
}

} // verus!

verus! {

/// Renders a list of sibling nodes, fail-fast: the first error aborts.
pub fn render_children<E: MathEvaluator>(children: &Vec<MarkupNode>, eval: &E) -> (r: Result<
    Vec<ContentNode<E::Content>>,
    RenderError,
>)
    ensures
        all_static_ok(children@) && all_math_free(children@) ==> r is Ok,
        r matches Ok(cs) ==> (all_static_ok(children@) && content_views(cs@) == spec_renders(
            children@,
        )),
        r matches Err(e) ==> errs_cause(children@, e),
        all_math_free(children@) ==> (r matches Err(e) ==> Some(e) == seq_fault(children@)),
    decreases children, 0int,
{
    let mut out: Vec<ContentNode<E::Content>> = Vec::new();
    let mut i: usize = 0;
    proof {
        assert(children@.take(0) =~= Seq::<MarkupNode>::empty());
    }
    while i < children.len()
        invariant
            i <= children@.len(),
            forall|j: int| 0 <= j < i ==> static_ok(#[trigger] children@[j]),
            (forall|j: int| 0 <= j < i ==> math_free(#[trigger] children@[j])) ==> (forall|j: int|
                0 <= j < i ==> node_fault(#[trigger] children@[j]) is None),
            content_views(out@) == spec_renders(children@.take(i as int)),
        decreases children@.len() - i,
    {
        proof {
            assert(decreases_to!(children => children@[i as int]));
        }
        match render_node(&children[i], eval) {
            Ok(c) => {
                let ghost out_before = out@;
                out.push(c);
                proof {
                    assert(out@ =~= out_before.push(c));
                    lemma_content_views_push(out_before, c);
                    lemma_spec_renders_snoc(children@, i as int);
                    if forall|j: int| 0 <= j <= i ==> math_free(#[trigger] children@[j]) {
                        assert forall|j: int|
                            0 <= j <= i implies node_fault(#[trigger] children@[j]) is None by {
                            if j == i {
                                lemma_no_fault(children@[i as int]);
                            }
                        }
                    }
                }
            },
            Err(e) => {
                proof {
                    lemma_all_static_ok_iff(children@);
                    lemma_all_math_free_iff(children@);
                    assert(!(static_ok(children@[i as int]) && math_free(children@[i as int])));
                    lemma_cause_seq(children@, i as int, e);
                    if all_math_free(children@) {
                        assert(Some(e) == node_fault(children@[i as int]));
                        lemma_seq_fault_at(children@, i as int, e);
                    }
                }
                return Err(e);
            },
        }
        i = i + 1;
    }
    proof {
        assert(children@.take(children@.len() as int) =~= children@);
        lemma_all_static_ok_iff(children@);
        lemma_all_math_free_iff(children@);
    }
    Ok(out)
}

/// Renders one markup node into one content node, fail-fast and
/// depth-first.  For a well-shaped, math-free node the result's shape is
/// exactly [`spec_render`]; raw HTML, images, and out-of-dialect nodes
/// fail with their own errors; math failures carry the evaluator's
/// non-empty diagnostics.
pub fn render_node<E: MathEvaluator>(node: &MarkupNode, eval: &E) -> (r: Result<
    ContentNode<E::Content>,
    RenderError,
>)
    ensures
        static_ok(*node) && math_free(*node) ==> r is Ok,
        r matches Ok(c) ==> (static_ok(*node) && content_view(c) == spec_render(*node)),
        r matches Err(e) ==> err_cause(*node, e),
        math_free(*node) ==> (r matches Err(e) ==> Some(e) == node_fault(*node)),
        (*node matches MarkupNode::Group { tag: MarkupTag::Table(_), children: tc } && !(
        tc@.len() >= 1 && tc@[0] matches MarkupNode::Group { tag: MarkupTag::TableHead, .. }))
            ==> r == Err::<ContentNode<E::Content>, RenderError>(RenderError::MalformedTable),
        (*node matches MarkupNode::Group { tag: MarkupTag::Heading(l), .. } && !(1 <= l <= 6))
            ==> r == Err::<ContentNode<E::Content>, RenderError>(RenderError::InternalInvariant),
        (*node matches MarkupNode::Html(_) || *node matches MarkupNode::InlineHtml(_) || *node
            matches MarkupNode::Group { tag: MarkupTag::HtmlBlock, .. }) ==> r == Err::<
            ContentNode<E::Content>,
            RenderError,
        >(RenderError::UnsupportedHtml),
        (*node matches MarkupNode::Group { tag: MarkupTag::Image { .. }, .. }) ==> r == Err::<
            ContentNode<E::Content>,
            RenderError,
        >(RenderError::Unimplemented),
        (*node is Unsupported || *node matches MarkupNode::Group {
            tag: MarkupTag::Unsupported,
            ..
        }) ==> r == Err::<ContentNode<E::Content>, RenderError>(RenderError::InternalInvariant),
    decreases node, 3int,
{
    match node {
        MarkupNode::Group { tag, children } => render_group(tag, children, eval),
        MarkupNode::Text(s) => Ok(ContentNode::Text(str_to_string(s.as_str()))),
        MarkupNode::Code(s) => Ok(ContentNode::Code(str_to_string(s.as_str()))),
        MarkupNode::Html(_) => Err(RenderError::UnsupportedHtml),
        MarkupNode::InlineHtml(_) => Err(RenderError::UnsupportedHtml),
        MarkupNode::SoftBreak => Ok(ContentNode::Space),
        MarkupNode::HardBreak => Ok(ContentNode::LineBreak),
        MarkupNode::Rule => Ok(ContentNode::Rule),
        MarkupNode::InlineMath(src) => match eval.eval_inline(src.as_str()) {
            Ok(c) => Ok(ContentNode::Math(c)),
            Err(d) => Err(RenderError::TypstError(d)),
        },
        MarkupNode::DisplayMath(src) => {
            let trimmed = trim_text(src.as_str());
            match eval.eval_display(trimmed) {
                Ok(c) => Ok(ContentNode::Math(c)),
                Err(d) => Err(RenderError::TypstError(d)),
            }
        },
        MarkupNode::Unsupported => Err(RenderError::InternalInvariant),
    }
}

/// Renders one group node; the dispatch over tags.
#[verifier::rlimit(100)]
fn render_group<E: MathEvaluator>(tag: &MarkupTag, children: &Vec<MarkupNode>, eval: &E) -> (r:
    Result<ContentNode<E::Content>, RenderError>)
    ensures
        ({
            let node = MarkupNode::Group { tag: *tag, children: *children };
            &&& static_ok(node) && math_free(node) ==> r is Ok
            &&& r matches Ok(c) ==> (static_ok(node) && content_view(c) == spec_render(node))
            &&& r matches Err(e) ==> err_cause(node, e)
            &&& math_free(node) ==> (r matches Err(e) ==> Some(e) == node_fault(node))
            &&& (*tag matches MarkupTag::Table(_) && !(children@.len() >= 1 && children@[0]
                matches MarkupNode::Group { tag: MarkupTag::TableHead, .. })) ==> r == Err::<
                ContentNode<E::Content>,
                RenderError,
            >(RenderError::MalformedTable)
            &&& (*tag matches MarkupTag::Heading(l) && !(1 <= l <= 6)) ==> r == Err::<
                ContentNode<E::Content>,
                RenderError,
            >(RenderError::InternalInvariant)
            &&& (*tag is HtmlBlock) ==> r == Err::<ContentNode<E::Content>, RenderError>(
                RenderError::UnsupportedHtml,
            )
            &&& (*tag matches MarkupTag::Image { .. }) ==> r == Err::<
                ContentNode<E::Content>,
                RenderError,
            >(RenderError::Unimplemented)
            &&& (*tag is Unsupported) ==> r == Err::<ContentNode<E::Content>, RenderError>(
                RenderError::InternalInvariant,
            )
        }),
    decreases children, 2int,
{
    let ghost node = MarkupNode::Group { tag: *tag, children: *children };
    match tag {
        MarkupTag::Paragraph => match render_children(children, eval) {
            Ok(cs) => Ok(ContentNode::Paragraph(cs)),
            Err(e) => {
                proof {
                    lemma_cause_group_from_seq(MarkupTag::Paragraph, *children, e);
                }
                Err(e)
            },
        },
        MarkupTag::Heading(level) => {
            if *level < 1 || *level > 6 {
                return Err(RenderError::InternalInvariant);
            }
            match render_children(children, eval) {
                Ok(cs) => Ok(ContentNode::Heading { level: *level, content: cs }),
                Err(e) => {
                    proof {
                        lemma_cause_group_from_seq(MarkupTag::Heading(*level), *children, e);
                    }
                    Err(e)
                },
            }
        },
        MarkupTag::BlockQuote => match render_children(children, eval) {
            Ok(cs) => Ok(ContentNode::BlockQuote(cs)),
            Err(e) => {
                proof {
                    lemma_cause_group_from_seq(MarkupTag::BlockQuote, *children, e);
                }
                Err(e)
            },
        },
        MarkupTag::CodeBlock(lang) => render_code_block(lang, children),
        MarkupTag::HtmlBlock => Err(RenderError::UnsupportedHtml),
        MarkupTag::List(start) => render_list(*start, children, eval),
        MarkupTag::Item => match render_children(children, eval) {
            Ok(cs) => Ok(ContentNode::ListItem { number: None, content: cs }),
            Err(e) => {
                proof {
                    lemma_cause_group_from_seq(MarkupTag::Item, *children, e);
                }
                Err(e)
            },
        },
        MarkupTag::Table(aligns) => render_table(aligns, children, eval),
        MarkupTag::TableHead => Err(RenderError::MalformedTable),
        MarkupTag::TableRow => Err(RenderError::MalformedTable),
        MarkupTag::TableCell => match render_children(children, eval) {
            Ok(cs) => Ok(ContentNode::TableCell(cs)),
            Err(e) => {
                proof {
                    lemma_cause_group_from_seq(MarkupTag::TableCell, *children, e);
                }
                Err(e)
            },
        },
        MarkupTag::Emphasis => match render_children(children, eval) {
            Ok(cs) => Ok(ContentNode::Emphasis(cs)),
            Err(e) => {
                proof {
                    lemma_cause_group_from_seq(MarkupTag::Emphasis, *children, e);
                }
                Err(e)
            },
        },
        MarkupTag::Strong => match render_children(children, eval) {
            Ok(cs) => Ok(ContentNode::Strong(cs)),
            Err(e) => {
                proof {
                    lemma_cause_group_from_seq(MarkupTag::Strong, *children, e);
                }
                Err(e)
            },
        },
        MarkupTag::Strikethrough => match render_children(children, eval) {
            Ok(cs) => Ok(ContentNode::Strikethrough(cs)),
            Err(e) => {
                proof {
                    lemma_cause_group_from_seq(MarkupTag::Strikethrough, *children, e);
                }
                Err(e)
            },
        },
        MarkupTag::Link { dest } => match render_children(children, eval) {
            Ok(cs) => Ok(
                ContentNode::Link { dest: str_to_string(dest.as_str()), content: cs },
            ),
            Err(e) => {
                proof {
                    lemma_cause_group_from_seq(
                        MarkupTag::Link { dest: *dest },
                        *children,
                        e,
                    );
                }
                Err(e)
            },
        },
        MarkupTag::Image { .. } => Err(RenderError::Unimplemented),
        MarkupTag::Unsupported => Err(RenderError::InternalInvariant),
    }
}

/// Concatenates a code block's text leaves; anything else under a code
/// block is an internal invariant violation.
fn render_code_block<E>(lang: &Option<String>, children: &Vec<MarkupNode>) -> (r: Result<
    ContentNode<E>,
    RenderError,
>)
    ensures
        ({
            let node = MarkupNode::Group { tag: MarkupTag::CodeBlock(*lang), children: *children };
            &&& static_ok(node) ==> r is Ok
            &&& r matches Ok(c) ==> (static_ok(node) && content_view(c) == spec_render(node))
            &&& r matches Err(e) ==> (e is InternalInvariant && err_cause(node, e) && Some(e)
                == code_fault(children@))
        }),
{
    let ghost node = MarkupNode::Group { tag: MarkupTag::CodeBlock(*lang), children: *children };
    let mut text = String::new();
    let mut i: usize = 0;
    proof {
        assert(children@.take(0) =~= Seq::<MarkupNode>::empty());
    }
    while i < children.len()
        invariant
            i <= children@.len(),
            forall|j: int| 0 <= j < i ==> (#[trigger] children@[j]) is Text,
            text@ == texts_concat(children@.take(i as int)),
        decreases children@.len() - i,
    {
        match &children[i] {
            MarkupNode::Text(t) => {
                text.append(t.as_str());
                proof {
                    lemma_texts_concat_snoc(children@, i as int);
                }
            },
            _ => {
                proof {
                    lemma_all_text_iff(children@);
                    assert(exists|j: int|
                        0 <= j < children@.len() && !((#[trigger] children@[j]) is Text)) by {
                        assert(!(children@[i as int] is Text));
                    }
                    assert(has_inv_fault(
                        MarkupNode::Group { tag: MarkupTag::CodeBlock(*lang), children: *children },
                    ));
                    lemma_code_fault_at(children@, i as int);
                }
                return Err(RenderError::InternalInvariant);
            },
        }
        i = i + 1;
    }
    proof {
        assert(children@.take(children@.len() as int) =~= children@);
        lemma_all_text_iff(children@);
    }
    let lang_out: Option<String> = match lang {
        Some(l) => {
            if l.unicode_len() > 0 {
                Some(str_to_string(l.as_str()))
            } else {
                None
            }
        },
        None => None,
    };
    Ok(ContentNode::CodeBlock { text, lang: lang_out })
}

/// Renders a list's slots, numbering them from the list's start where it
/// is ordered.
fn render_list<E: MathEvaluator>(
    start: Option<u64>,
    children: &Vec<MarkupNode>,
    eval: &E,
) -> (r: Result<ContentNode<E::Content>, RenderError>)
    ensures
        ({
            let node = MarkupNode::Group { tag: MarkupTag::List(start), children: *children };
            &&& static_ok(node) && math_free(node) ==> r is Ok
            &&& r matches Ok(c) ==> (static_ok(node) && content_view(c) == spec_render(node))
            &&& r matches Err(e) ==> err_cause(node, e)
            &&& math_free(node) ==> (r matches Err(e) ==> Some(e) == node_fault(node))
        }),
    decreases children, 1int,
{
    let ghost node = MarkupNode::Group { tag: MarkupTag::List(start), children: *children };
    let mut items: Vec<ContentNode<E::Content>> = Vec::new();
    let mut i: usize = 0;
    proof {
        assert(children@.take(0) =~= Seq::<MarkupNode>::empty());
    }
    while i < children.len()
        invariant
            i <= children@.len(),
            forall|j: int| 0 <= j < i ==> static_ok(#[trigger] children@[j]),
            (forall|j: int| 0 <= j < i ==> math_free(#[trigger] children@[j])) ==> (forall|j: int|
                0 <= j < i ==> slot_fault(#[trigger] children@[j]) is None),
            content_views(items@) == spec_items(children@.take(i as int), start, 0),
        decreases children@.len() - i,
    {
        let number: Option<u64> = match start {
            Some(s) => {
                if i as u64 <= u64::MAX - s {
                    Some(s + i as u64)
                } else {
                    Some(u64::MAX)
                }
            },
            None => None,
        };
        proof {
            assert(number == number_at(start, i as int));
            assert(decreases_to!(children => children@[i as int]));
        }
        let item: ContentNode<E::Content> = match &children[i] {
            MarkupNode::Group { tag: MarkupTag::Item, children: ic } => {
                match render_children(ic, eval) {
                    Ok(cs) => {
                        proof {
                            if math_free(children@[i as int]) {
                                assert(all_math_free(ic@));
                                lemma_seq_no_fault(ic@);
                                assert(slot_fault(children@[i as int]) is None);
                            }
                        }
                        ContentNode::ListItem { number, content: cs }
                    },
                    Err(e) => {
                        proof {
                            lemma_all_static_ok_iff(children@);
                            lemma_all_math_free_iff(children@);
                            assert(static_ok(children@[i as int]) == all_static_ok(ic@));
                            assert(math_free(children@[i as int]) == all_math_free(ic@));
                            assert(!(all_static_ok(ic@) && all_math_free(ic@)));
                            lemma_cause_group_from_seq(MarkupTag::Item, *ic, e);
                            assert(err_cause(children@[i as int], e));
                            lemma_cause_lift(MarkupTag::List(start), *children, i as int, e);
                            if all_math_free(children@) {
                                assert(all_math_free(ic@));
                                assert(Some(e) == seq_fault(ic@));
                                assert(Some(e) == slot_fault(children@[i as int]));
                                assert(forall|j: int|
                                    0 <= j < i ==> math_free(#[trigger] children@[j]));
                                lemma_list_fault_at(children@, i as int, e);
                            }
                        }
                        return Err(e);
                    },
                }
            },
            other => match render_node(other, eval) {
                Ok(c) => {
                    let mut content: Vec<ContentNode<E::Content>> = Vec::new();
                    content.push(c);
                    proof {
                        if math_free(children@[i as int]) {
                            lemma_no_fault(children@[i as int]);
                            assert(slot_fault(children@[i as int]) is None);
                        }
                        assert(content@ =~= seq![c]);
                        assert(content@.drop_first() =~= Seq::<ContentNode<E::Content>>::empty());
                        assert(content_views(content@.drop_first()) == Seq::<ContentView>::empty());
                        assert(content_views(content@) == seq![content_view(c)] + Seq::<
                            ContentView,
                        >::empty());
                        assert(seq![content_view(c)] + Seq::<ContentView>::empty() =~= seq![
                            content_view(c),
                        ]);
                    }
                    ContentNode::ListItem { number, content }
                },
                Err(e) => {
                    proof {
                        lemma_all_static_ok_iff(children@);
                        lemma_all_math_free_iff(children@);
                        assert(!(static_ok(children@[i as int]) && math_free(
                            children@[i as int],
                        )));
                        lemma_cause_lift(MarkupTag::List(start), *children, i as int, e);
                        if all_math_free(children@) {
                            assert(math_free(children@[i as int]));
                            assert(Some(e) == node_fault(children@[i as int]));
                            assert(Some(e) == slot_fault(children@[i as int]));
                            assert(forall|j: int|
                                0 <= j < i ==> math_free(#[trigger] children@[j]));
                            lemma_list_fault_at(children@, i as int, e);
                        }
                    }
                    return Err(e);
                },
            },
        };
        let ghost items_before = items@;
        items.push(item);
        proof {
            assert(items@ =~= items_before.push(item));
            lemma_content_views_push(items_before, item);
            lemma_spec_items_snoc(children@, start, 0, i as int);
            assert(content_view(item) == item_view(children@[i as int], number_at(start, i as int)));
            if forall|j: int| 0 <= j <= i ==> math_free(#[trigger] children@[j]) {
                assert forall|j: int|
                    0 <= j <= i implies slot_fault(#[trigger] children@[j]) is None by {}
            }
        }
        i = i + 1;
    }
    proof {
        assert(children@.take(children@.len() as int) =~= children@);
        lemma_all_static_ok_iff(children@);
        lemma_all_math_free_iff(children@);
    }
    Ok(ContentNode::List { start, items })
}

/// Renders a table: the first child must be the head, the rest rows.
fn render_table<E: MathEvaluator>(
    aligns: &Vec<MdAlign>,
    children: &Vec<MarkupNode>,
    eval: &E,
) -> (r: Result<ContentNode<E::Content>, RenderError>)
    ensures
        ({
            let node = MarkupNode::Group { tag: MarkupTag::Table(*aligns), children: *children };
            &&& static_ok(node) && math_free(node) ==> r is Ok
            &&& r matches Ok(c) ==> (static_ok(node) && content_view(c) == spec_render(node))
            &&& r matches Err(e) ==> err_cause(node, e)
            &&& math_free(node) ==> (r matches Err(e) ==> Some(e) == node_fault(node))
            &&& !(children@.len() >= 1 && children@[0] matches MarkupNode::Group {
                tag: MarkupTag::TableHead,
                ..
            }) ==> r == Err::<ContentNode<E::Content>, RenderError>(RenderError::MalformedTable)
        }),
    decreases children, 1int,
{
    let ghost node = MarkupNode::Group { tag: MarkupTag::Table(*aligns), children: *children };
    if children.len() == 0 {
        proof {
            assert(has_table_fault(node));
        }
        return Err(RenderError::MalformedTable);
    }
    let header: Vec<ContentNode<E::Content>> = match &children[0] {
        MarkupNode::Group { tag: MarkupTag::TableHead, children: hc } => {
            match render_children(hc, eval) {
                Ok(cs) => {
                    proof {
                        assert(content_views(cs@) == spec_renders(hc@));
                        assert(head_view(children@[0]) == spec_renders(hc@));
                        assert(head_cells(children@[0]) == hc@);
                        lemma_content_views_len(cs@);
                        lemma_spec_renders_len(hc@);
                        assert(cs@.len() == hc@.len());
                        if math_free(node) {
                            lemma_all_math_free_iff(children@);
                            assert(math_free(children@[0]));
                            assert(all_math_free(hc@));
                            lemma_seq_no_fault(hc@);
                            assert(head_fault(children@[0]) is None);
                        }
                    }
                    cs
                },
                Err(e) => {
                    proof {
                        lemma_all_math_free_iff(children@);
                        assert(children@.len() >= 1 && children@[0] matches MarkupNode::Group {
                            tag: MarkupTag::TableHead,
                            ..
                        });
                        assert(!(all_static_ok(hc@) && all_math_free(hc@)));
                        assert(static_ok(node) ==> table_shape_ok(children@));
                        assert(table_shape_ok(children@) ==> all_static_ok(hc@));
                        assert(math_free(children@[0]) == all_math_free(hc@));
                        lemma_cause_group_from_seq(MarkupTag::TableHead, *hc, e);
                        assert(err_cause(children@[0], e));
                        lemma_cause_lift(MarkupTag::Table(*aligns), *children, 0, e);
                        if math_free(node) {
                            assert(Some(e) == seq_fault(hc@));
                            assert(Some(e) == head_fault(children@[0]));
                            assert(Some(e) == node_fault(node));
                        }
                    }
                    return Err(e);
                },
            }
        },
        _ => {
            proof {
                assert(has_table_fault(node));
            }
            return Err(RenderError::MalformedTable);
        },
    };
    let columns = header.len();
    let ghost header_fact = content_views(header@) == head_view(children@[0]) && header@.len()
        == head_cells(children@[0]).len();
    proof {
        assert(header_fact);
    }
    let mut rows: Vec<Vec<ContentNode<E::Content>>> = Vec::new();
    let mut i: usize = 1;
    proof {
        assert(children@.drop_first().take(0) =~= Seq::<MarkupNode>::empty());
    }
    while i < children.len()
        invariant
            1 <= i <= children@.len(),
            children@.len() >= 1,
            children@[0] matches MarkupNode::Group { tag: MarkupTag::TableHead, .. },
            header_fact == (content_views(header@) == head_view(children@[0]) && header@.len()
                == head_cells(children@[0]).len()),
            header_fact,
            columns == header@.len(),
            node == (MarkupNode::Group { tag: MarkupTag::Table(*aligns), children: *children }),
            forall|j: int|
                1 <= j < i ==> ((#[trigger] children@[j]) matches MarkupNode::Group {
                    tag: MarkupTag::TableRow,
                    children: rc,
                } && all_static_ok(rc@)),
            math_free(node) ==> head_fault(children@[0]) is None,
            math_free(node) ==> (forall|j: int|
                1 <= j < i ==> row_fault(#[trigger] children@[j]) is None),
            row_views(rows@) == spec_rows(children@.drop_first().take(i - 1)),
        decreases children@.len() - i,
    {
        proof {
            assert(decreases_to!(children => children@[i as int]));
        }
        let row: Vec<ContentNode<E::Content>> = match &children[i] {
            MarkupNode::Group { tag: MarkupTag::TableRow, children: rc } => {
                match render_children(rc, eval) {
                    Ok(cs) => {
                        proof {
                            assert(row_view(children@[i as int]) == spec_renders(rc@));
                            if math_free(node) {
                                lemma_all_math_free_iff(children@);
                                assert(math_free(children@[i as int]));
                                assert(all_math_free(rc@));
                                lemma_seq_no_fault(rc@);
                                assert(row_fault(children@[i as int]) is None);
                            }
                        }
                        cs
                    },
                    Err(e) => {
                        proof {
                            lemma_all_math_free_iff(children@);
                            lemma_rows_ok_iff(children@.drop_first());
                            assert(children@.drop_first()[i - 1] == children@[i as int]);
                            assert(!(all_static_ok(rc@) && all_math_free(rc@)));
                            assert(static_ok(node) ==> table_shape_ok(children@));
                            assert(table_shape_ok(children@) ==> rows_ok(children@.drop_first()));
                            assert(rows_ok(children@.drop_first()) ==> all_static_ok(rc@));
                            assert(math_free(children@[i as int]) == all_math_free(rc@));
                            lemma_cause_group_from_seq(MarkupTag::TableRow, *rc, e);
                            assert(err_cause(children@[i as int], e));
                            lemma_cause_lift(MarkupTag::Table(*aligns), *children, i as int, e);
                            if math_free(node) {
                                assert(Some(e) == seq_fault(rc@));
                                assert(Some(e) == row_fault(children@[i as int]));
                                assert forall|j: int|
                                    0 <= j < i - 1 implies row_fault(
                                    #[trigger] children@.drop_first()[j],
                                ) is None by {
                                    assert(children@.drop_first()[j] == children@[j + 1]);
                                }
                                assert(children@.drop_first()[i - 1] == children@[i as int]);
                                lemma_rows_fault_at(children@.drop_first(), i - 1, e);
                                assert(Some(e) == node_fault(node));
                            }
                        }
                        return Err(e);
                    },
                }
            },
            _ => {
                proof {
                    lemma_rows_ok_iff(children@.drop_first());
                    assert(children@.drop_first()[i - 1] == children@[i as int]);
                    assert(!rows_ok(children@.drop_first()));
                    assert(static_ok(node) ==> table_shape_ok(children@));
                    assert(table_shape_ok(children@) ==> rows_ok(children@.drop_first()));
                    assert(!((#[trigger] children@[i as int]) matches MarkupNode::Group {
                        tag: MarkupTag::TableRow,
                        ..
                    }));
                    assert(has_table_fault(node));
                    if math_free(node) {
                        assert(row_fault(children@[i as int]) == Some(RenderError::MalformedTable));
                        assert forall|j: int|
                            0 <= j < i - 1 implies row_fault(
                            #[trigger] children@.drop_first()[j],
                        ) is None by {
                            assert(children@.drop_first()[j] == children@[j + 1]);
                        }
                        lemma_rows_fault_at(
                            children@.drop_first(),
                            i - 1,
                            RenderError::MalformedTable,
                        );
                        assert(Some(RenderError::MalformedTable) == node_fault(node));
                    }
                }
                return Err(RenderError::MalformedTable);
            },
        };
        let ghost rows_before = rows@;
        rows.push(row);
        proof {
            assert(rows@ =~= rows_before.push(row));
            lemma_row_views_push(rows_before, row);
            lemma_spec_rows_snoc(children@.drop_first(), i - 1);
            assert(children@.drop_first()[i - 1] == children@[i as int]);
        }
        i = i + 1;
    }
    let mut aligns_out: Vec<MdAlign> = Vec::new();
    let mut a: usize = 0;
    while a < aligns.len()
        invariant
            a <= aligns@.len(),
            aligns_out@ =~= aligns@.take(a as int),
        decreases aligns@.len() - a,
    {
        aligns_out.push(aligns[a]);
        a = a + 1;
    }
    proof {
        assert(aligns_out@ =~= aligns@);
        assert(children@.drop_first().take(children@.len() - 1) =~= children@.drop_first());
        lemma_all_math_free_iff(children@);
        lemma_rows_ok_iff(children@.drop_first());
        assert(forall|j: int|
            0 <= j < children@.drop_first().len() ==> children@.drop_first()[j]
                == #[trigger] children@[j + 1]);
    }
    Ok(ContentNode::Table { columns, aligns: aligns_out, header, rows })
}

/// Renders a whole document: its top-level nodes in order, as one
/// sequence node.
pub fn render_document<E: MathEvaluator>(nodes: &Vec<MarkupNode>, eval: &E) -> (r: Result<
    ContentNode<E::Content>,
    RenderError,
>)
    ensures
        all_static_ok(nodes@) && all_math_free(nodes@) ==> r is Ok,
        r matches Ok(c) ==> (all_static_ok(nodes@) && content_view(c) == ContentView::Sequence(
            spec_renders(nodes@),
        )),
        r matches Err(e) ==> errs_cause(nodes@, e),
        all_math_free(nodes@) ==> (r matches Err(e) ==> Some(e) == seq_fault(nodes@)),
{
    match render_children(nodes, eval) {
        Ok(cs) => Ok(ContentNode::Sequence(cs)),
        Err(e) => Err(e),
    }
}

} // verus!

verus! {

impl MarkdownRenderable {
    /// Renders the markup text into the structured content tree,
    /// fail-fast; math spans go through the given evaluator.
    pub fn content<E: MathEvaluator>(&self, eval: &E) -> (r: Result<
        ContentNode<E::Content>,
        RenderError,
    >)
        ensures
            all_static_ok(crate::render::events::tree_of(self@)) && all_math_free(
                crate::render::events::tree_of(self@),
            ) ==> r is Ok,
            r matches Ok(c) ==> (all_static_ok(crate::render::events::tree_of(self@))
                && content_view(c) == ContentView::Sequence(
                spec_renders(crate::render::events::tree_of(self@)),
            )),
            r matches Err(e) ==> errs_cause(crate::render::events::tree_of(self@), e),
            all_math_free(crate::render::events::tree_of(self@)) ==> (r matches Err(e) ==> Some(e)
                == seq_fault(crate::render::events::tree_of(self@))),
    {
        render_markdown(self.raw(), eval)
    }

    /// Renders the markup text into an HTML string in one forward pass,
    /// collecting every math failure; math spans become embedded SVG.
    /// Success is owed whenever the text holds no math span.
    pub fn html<E: MathEvaluator>(&self, eval: &E) -> (r: Result<String, RenderError>)
        ensures
            !crate::render::events::has_math_mark(crate::render::events::md_marks_of(self@))
                ==> r is Ok,
            (!crate::render::events::has_math_mark(crate::render::events::md_marks_of(self@))
                && !crate::render::events::has_code_mark(
                crate::render::events::md_marks_of(self@),
            )) ==> (r matches Ok(h) && h@ == crate::render::events::html_of(
                crate::render::events::raw_events_of(self@),
            )),
            r matches Err(e) ==> (e matches RenderError::TypstError(d) && d@.len() > 0
                && crate::render::events::has_math_mark(
                crate::render::events::md_marks_of(self@),
            )),
    {
        crate::render::html::render_html(self.raw(), eval)
    }
}

/// Parses markup text and renders it into the structured content tree,
/// fail-fast.  The tree the tokenizer hands over is named `tree_of`; for a
/// well-shaped, math-free tree the result's shape is pinned to its
/// rendering, and success is owed.
pub fn render_markdown<E: MathEvaluator>(markdown: &str, eval: &E) -> (r: Result<
    ContentNode<E::Content>,
    RenderError,
>)
    ensures
        all_static_ok(crate::render::events::tree_of(markdown@)) && all_math_free(
            crate::render::events::tree_of(markdown@),
        ) ==> r is Ok,
        r matches Ok(c) ==> (all_static_ok(crate::render::events::tree_of(markdown@))
            && content_view(c) == ContentView::Sequence(
            spec_renders(crate::render::events::tree_of(markdown@)),
        )),
        r matches Err(e) ==> errs_cause(crate::render::events::tree_of(markdown@), e),
        all_math_free(crate::render::events::tree_of(markdown@)) ==> (r matches Err(e) ==> Some(e)
            == seq_fault(crate::render::events::tree_of(markdown@))),
{
    let tree = crate::render::events::parse_markup(markdown);
    render_document(&tree, eval)
}

} // verus!

verus! {

pub proof fn lemma_spec_items_index(s: Seq<MarkupNode>, start: Option<u64>, idx: int, i: int)
    requires
        0 <= i < s.len(),
    ensures
        spec_items(s, start, idx).len() == s.len(),
        spec_items(s, start, idx)[i] == item_view(s[i], number_at(start, idx + i)),
    decreases s,
{
    if s.len() > 0 {
        if i == 0 {
            lemma_spec_items_len(s.drop_first(), start, idx + 1);
        } else {
            lemma_spec_items_index(s.drop_first(), start, idx + 1, i - 1);
        }
    }
}

pub proof fn lemma_spec_items_len(s: Seq<MarkupNode>, start: Option<u64>, idx: int)
    ensures
        spec_items(s, start, idx).len() == s.len(),
    decreases s,
{
    if s.len() > 0 {
        lemma_spec_items_len(s.drop_first(), start, idx + 1);
    }
}

pub proof fn lemma_spec_rows_index(s: Seq<MarkupNode>, i: int)
    requires
        0 <= i < s.len(),
    ensures
        spec_rows(s).len() == s.len(),
        spec_rows(s)[i] == row_view(s[i]),
    decreases s,
{
    if s.len() > 0 {
        if i == 0 {
            lemma_spec_rows_len(s.drop_first());
        } else {
            lemma_spec_rows_index(s.drop_first(), i - 1);
        }
    }
}

pub proof fn lemma_spec_rows_len(s: Seq<MarkupNode>)
    ensures
        spec_rows(s).len() == s.len(),
    decreases s,
{
    if s.len() > 0 {
        lemma_spec_rows_len(s.drop_first());
    }
}

/// Rendering is deterministic in shape: the fail-fast renderer pins every
/// successful result's shape to `spec_render`, so any two successful
/// renders of the same tree — whatever the evaluator, in whatever process
/// — have the same shape, math nodes included.
pub proof fn lemma_render_deterministic<M1, M2>(
    n: MarkupNode,
    c1: ContentNode<M1>,
    c2: ContentNode<M2>,
)
    requires
        content_view(c1) == spec_render(n),
        content_view(c2) == spec_render(n),
    ensures
        content_view(c1) == content_view(c2),
{
}

/// An ordered list starting at `start` numbers its direct slots
/// `start`, `start + 1`, `start + 2`, and so on, in order.  The lemma
/// holds of every list group wherever it stands, so a nested ordered
/// list's numbering starts over at its own declared start and is not
/// influenced by the list around it.  Numbers too large for the machine
/// word are left out.
pub proof fn lemma_ordered_list_numbering(children: Vec<MarkupNode>, start: u64, i: int)
    requires
        0 <= i < children@.len(),
        start + i <= u64::MAX,
    ensures
        spec_render(
            MarkupNode::Group { tag: MarkupTag::List(Some(start)), children: children },
        ) matches ContentView::List { start: s, items } && s == Some(start) && items.len()
            == children@.len() && (items[i] matches ContentView::ListItem { number, .. } && number
            == Some((start + i) as u64)),
{
    let node = MarkupNode::Group { tag: MarkupTag::List(Some(start)), children: children };
    lemma_spec_items_index(children@, Some(start), 0, i);
    assert(spec_render(node) == ContentView::List {
        start: Some(start),
        items: spec_items(children@, Some(start), 0),
    });
    assert(item_view(children@[i], number_at(Some(start), i)) matches ContentView::ListItem {
        number,
        ..
    } && number == Some((start + i) as u64));
}

/// A well-shaped table's column count equals the number of its header
/// cells.
pub proof fn lemma_table_columns(children: Vec<MarkupNode>, aligns: Vec<MdAlign>)
    requires
        table_shape_ok(children@),
    ensures
        spec_render(
            MarkupNode::Group { tag: MarkupTag::Table(aligns), children: children },
        ) matches ContentView::Table { columns, header, .. } && columns == header.len(),
{
    let node = MarkupNode::Group { tag: MarkupTag::Table(aligns), children: children };
    match children@[0] {
        MarkupNode::Group { tag: ht, children: hc } => {
            lemma_spec_renders_len(hc@);
        },
        _ => {},
    }
}

/// A body row keeps exactly the cells it was given: a row with fewer
/// cells than the header is neither padded nor rejected.
pub proof fn lemma_table_rows_unpadded(
    children: Vec<MarkupNode>,
    aligns: Vec<MdAlign>,
    i: int,
)
    requires
        table_shape_ok(children@),
        1 <= i < children@.len(),
    ensures
        spec_render(
            MarkupNode::Group { tag: MarkupTag::Table(aligns), children: children },
        ) matches ContentView::Table { rows, .. } && rows.len() == children@.len() - 1 && rows[i
            - 1] == row_view(children@[i]),
        children@[i] matches MarkupNode::Group { tag: rt, children: rc } ==> (rt
            == MarkupTag::TableRow ==> row_view(children@[i]).len() == rc@.len()),
{
    let node = MarkupNode::Group { tag: MarkupTag::Table(aligns), children: children };
    lemma_spec_rows_index(children@.drop_first(), i - 1);
    assert(children@.drop_first()[i - 1] == children@[i]);
    match children@[i] {
        MarkupNode::Group { tag: rt, children: rc } => {
            if rt == MarkupTag::TableRow {
                lemma_spec_renders_len(rc@);
            }
        },
        _ => {},
    }
}

} // verus!

verus! {

/// A heading keeps its level and one rendered node per child: the content
/// tree describes the same document structure the markup tree does.
pub proof fn lemma_heading_structure_preserved(children: Vec<MarkupNode>, level: u8)
    ensures
        spec_render(
            MarkupNode::Group { tag: MarkupTag::Heading(level), children: children },
        ) matches ContentView::Heading { level: l, content } && l == level && content.len()
            == children@.len(),
{
    lemma_spec_renders_len(children@);
}

/// A list keeps its ordering, its start, and one slot per child.
pub proof fn lemma_list_structure_preserved(children: Vec<MarkupNode>, start: Option<u64>)
    ensures
        spec_render(
            MarkupNode::Group { tag: MarkupTag::List(start), children: children },
        ) matches ContentView::List { start: s, items } && s == start && items.len()
            == children@.len(),
{
    lemma_spec_items_len(children@, start, 0);
}

} // verus!

verus! {

/// A tree holding raw HTML is never statically renderable.
pub proof fn lemma_html_not_static(n: MarkupNode)
    requires
        has_html(n),
    ensures
        !static_ok(n),
    decreases n,
{
    match n {
        MarkupNode::Group { tag, children } => {
            if tag is HtmlBlock {
            } else {
                let i = choose|i: int|
                    0 <= i < children@.len() && has_html(#[trigger] children@[i]);
                lemma_html_not_static(children@[i]);
                match tag {
                    MarkupTag::CodeBlock(_) => {
                        lemma_all_text_iff(children@);
                        assert(!(children@[i] is Text));
                    },
                    MarkupTag::Table(_) => {
                        if children@.len() >= 1 && children@[0] matches MarkupNode::Group {
                            tag: MarkupTag::TableHead,
                            ..
                        } {
                            if i == 0 {
                                match children@[0] {
                                    MarkupNode::Group { tag: ht, children: hc } => {
                                        let j = choose|j: int|
                                            0 <= j < hc@.len() && has_html(#[trigger] hc@[j]);
                                        lemma_html_not_static(hc@[j]);
                                        lemma_all_static_ok_iff(hc@);
                                        assert(!table_shape_ok(children@));
                                    },
                                    _ => {},
                                }
                            } else {
                                lemma_rows_ok_iff(children@.drop_first());
                                assert(children@.drop_first()[i - 1] == children@[i]);
                                match children@[i] {
                                    MarkupNode::Group { tag: rt, children: rc } => {
                                        if rt is TableRow {
                                            let j = choose|j: int|
                                                0 <= j < rc@.len() && has_html(#[trigger] rc@[j]);
                                            lemma_html_not_static(rc@[j]);
                                            lemma_all_static_ok_iff(rc@);
                                        }
                                        assert(!rows_ok(children@.drop_first()));
                                    },
                                    _ => {
                                        assert(!rows_ok(children@.drop_first()));
                                    },
                                }
                                assert(!table_shape_ok(children@));
                            }
                        }
                    },
                    _ => {
                        lemma_all_static_ok_iff(children@);
                    },
                }
            }
        },
        _ => {},
    }
}

/// Raw HTML is rejected with its own error: a math-free document that
/// holds raw HTML, and no table fault, image or out-of-dialect piece,
/// cannot render — and any error the renderer returns for it is
/// `UnsupportedHtml`.
pub proof fn lemma_raw_html_rejected(nodes: Seq<MarkupNode>, e: RenderError)
    requires
        exists|i: int| 0 <= i < nodes.len() && has_html(#[trigger] nodes[i]),
        all_math_free(nodes),
        forall|i: int| 0 <= i < nodes.len() ==> !has_table_fault(#[trigger] nodes[i]),
        forall|i: int| 0 <= i < nodes.len() ==> !has_image(#[trigger] nodes[i]),
        forall|i: int| 0 <= i < nodes.len() ==> !has_inv_fault(#[trigger] nodes[i]),
        errs_cause(nodes, e),
    ensures
        !all_static_ok(nodes),
        e is UnsupportedHtml,
{
    let i = choose|i: int| 0 <= i < nodes.len() && has_html(#[trigger] nodes[i]);
    lemma_html_not_static(nodes[i]);
    lemma_all_static_ok_iff(nodes);
    match e {
        RenderError::TypstError(_) => {
            assert(false);
        },
        _ => {},
    }
}

} // verus!

verus! {

/// Only a math node has the math shape: a rendered node whose shape is
/// `Math` is a `Math` node carrying the evaluator's content.
pub proof fn lemma_math_shape_is_math_node<M>(c: ContentNode<M>)
    requires
        content_view(c) == ContentView::Math,
    ensures
        c matches ContentNode::Math(_),
{
}

/// Whether the shape holds a math node anywhere.
pub open spec fn view_has_math(c: ContentView) -> bool
    decreases c,
{
    match c {
        ContentView::Math => true,
        ContentView::Sequence(s) => views_have_math(s),
        ContentView::Paragraph(s) => views_have_math(s),
        ContentView::Heading { content, .. } => views_have_math(content),
        ContentView::BlockQuote(s) => views_have_math(s),
        ContentView::List { items, .. } => views_have_math(items),
        ContentView::ListItem { content, .. } => views_have_math(content),
        ContentView::Table { header, rows, .. } => views_have_math(header) || exists|i: int|
            0 <= i < rows.len() && views_have_math(#[trigger] rows[i]),
        ContentView::TableCell(s) => views_have_math(s),
        ContentView::Emphasis(s) => views_have_math(s),
        ContentView::Strong(s) => views_have_math(s),
        ContentView::Strikethrough(s) => views_have_math(s),
        ContentView::Link { content, .. } => views_have_math(content),
        _ => false,
    }
}

pub open spec fn views_have_math(s: Seq<ContentView>) -> bool
    decreases s,
{
    exists|i: int| 0 <= i < s.len() && view_has_math(#[trigger] s[i])
}

/// A well-shaped tree with a math span renders to a shape that holds a
/// math node: evaluated math is embedded, never dropped.
pub proof fn lemma_math_is_embedded(n: MarkupNode)
    requires
        static_ok(n),
        !math_free(n),
    ensures
        view_has_math(spec_render(n)),
    decreases n,
{
    match n {
        MarkupNode::Group { tag, children } => {
            lemma_all_math_free_iff(children@);
            let i = choose|i: int|
                0 <= i < children@.len() && !math_free(#[trigger] children@[i]);
            match tag {
                MarkupTag::CodeBlock(_) => {
                    lemma_all_text_iff(children@);
                    assert(children@[i] is Text);
                    assert(math_free(children@[i]));
                },
                MarkupTag::Table(_) => {
                    if i == 0 {
                        match children@[0] {
                            MarkupNode::Group { tag: ht, children: hc } => {
                                lemma_all_math_free_iff(hc@);
                                let j = choose|j: int|
                                    0 <= j < hc@.len() && !math_free(#[trigger] hc@[j]);
                                lemma_all_static_ok_iff(hc@);
                                lemma_math_is_embedded(hc@[j]);
                                lemma_spec_renders_index_math(hc@, j);
                                assert(view_has_math(spec_render(n)));
                            },
                            _ => {},
                        }
                    } else {
                        lemma_rows_ok_iff(children@.drop_first());
                        assert(children@.drop_first()[i - 1] == children@[i]);
                        match children@[i] {
                            MarkupNode::Group { tag: rt, children: rc } => {
                                lemma_all_math_free_iff(rc@);
                                let j = choose|j: int|
                                    0 <= j < rc@.len() && !math_free(#[trigger] rc@[j]);
                                lemma_all_static_ok_iff(rc@);
                                lemma_math_is_embedded(rc@[j]);
                                lemma_spec_renders_index_math(rc@, j);
                                lemma_spec_rows_index(children@.drop_first(), i - 1);
                                assert(spec_render(n) matches ContentView::Table { rows, .. }
                                    && views_have_math(rows[i - 1]));
                                assert(view_has_math(spec_render(n)));
                            },
                            _ => {},
                        }
                    }
                },
                MarkupTag::List(start) => {
                    lemma_all_static_ok_iff(children@);
                    lemma_spec_items_index(children@, start, 0, i);
                    match children@[i] {
                        MarkupNode::Group { tag: it, children: ic } => {
                            if it is Item {
                                lemma_all_math_free_iff(ic@);
                                let j = choose|j: int|
                                    0 <= j < ic@.len() && !math_free(#[trigger] ic@[j]);
                                lemma_all_static_ok_iff(ic@);
                                lemma_math_is_embedded(ic@[j]);
                                lemma_spec_renders_index_math(ic@, j);
                                assert(item_view(children@[i], number_at(start, i)) matches
                                    ContentView::ListItem { content, .. } && content
                                    == spec_renders(ic@));
                                assert(view_has_math(item_view(children@[i], number_at(start, i))));
                            } else {
                                lemma_math_is_embedded(children@[i]);
                                assert(item_view(children@[i], number_at(start, i)) matches
                                    ContentView::ListItem { content, .. } && content == seq![
                                    spec_render(children@[i]),
                                ]);
                                assert(seq![spec_render(children@[i])][0] == spec_render(
                                    children@[i],
                                ));
                                assert(views_have_math(seq![spec_render(children@[i])]));
                                assert(view_has_math(item_view(children@[i], number_at(start, i))));
                            }
                        },
                        _ => {
                            lemma_math_is_embedded(children@[i]);
                            assert(item_view(children@[i], number_at(start, i)) matches
                                ContentView::ListItem { content, .. } && content == seq![
                                spec_render(children@[i]),
                            ]);
                            assert(seq![spec_render(children@[i])][0] == spec_render(
                                children@[i],
                            ));
                            assert(views_have_math(seq![spec_render(children@[i])]));
                            assert(view_has_math(item_view(children@[i], number_at(start, i))));
                        },
                    }
                    assert(views_have_math(spec_items(children@, start, 0)));
                },
                _ => {
                    lemma_all_static_ok_iff(children@);
                    lemma_math_is_embedded(children@[i]);
                    lemma_spec_renders_index_math(children@, i);
                },
            }
        },
        _ => {},
    }
}

/// A sibling whose rendering holds math makes the rendered list hold
/// math.
proof fn lemma_spec_renders_index_math(s: Seq<MarkupNode>, i: int)
    requires
        0 <= i < s.len(),
        view_has_math(spec_render(s[i])),
    ensures
        views_have_math(spec_renders(s)),
    decreases s,
{
    lemma_spec_renders_len(s);
    if i == 0 {
        assert(spec_renders(s)[0] == spec_render(s[0]));
    } else {
        lemma_spec_renders_index_math(s.drop_first(), i - 1);
        let j = choose|j: int|
            0 <= j < spec_renders(s.drop_first()).len() && view_has_math(
                #[trigger] spec_renders(s.drop_first())[j],
            );
        assert(spec_renders(s)[j + 1] == spec_renders(s.drop_first())[j]);
    }
}

} // verus!

verus! {

/// The first of two optional faults, in order.
pub open spec fn opt_or(a: Option<RenderError>, b: Option<RenderError>) -> Option<RenderError> {
    match a {
        Some(_) => a,
        None => b,
    }
}

/// The first fault of a math-free tree, in the renderer's own order:
/// depth-first, left to right, structural checks before children where
/// the renderer makes them.  Math spans carry no fault here; the
/// first-error clauses are guarded by `math_free`.
pub open spec fn node_fault(n: MarkupNode) -> Option<RenderError>
    decreases n, 0int,
{
    match n {
        MarkupNode::Group { tag, children } => match tag {
            MarkupTag::Paragraph => seq_fault(children@),
            MarkupTag::Heading(l) => if !(1 <= l <= 6) {
                Some(RenderError::InternalInvariant)
            } else {
                seq_fault(children@)
            },
            MarkupTag::BlockQuote => seq_fault(children@),
            MarkupTag::CodeBlock(_) => code_fault(children@),
            MarkupTag::HtmlBlock => Some(RenderError::UnsupportedHtml),
            MarkupTag::List(_) => list_fault(children@),
            MarkupTag::Item => seq_fault(children@),
            MarkupTag::Table(_) => if children@.len() < 1 {
                Some(RenderError::MalformedTable)
            } else {
                opt_or(head_fault(children@[0]), rows_fault(children@.drop_first()))
            },
            MarkupTag::TableHead => Some(RenderError::MalformedTable),
            MarkupTag::TableRow => Some(RenderError::MalformedTable),
            MarkupTag::TableCell => seq_fault(children@),
            MarkupTag::Emphasis => seq_fault(children@),
            MarkupTag::Strong => seq_fault(children@),
            MarkupTag::Strikethrough => seq_fault(children@),
            MarkupTag::Link { .. } => seq_fault(children@),
            MarkupTag::Image { .. } => Some(RenderError::Unimplemented),
            MarkupTag::Unsupported => Some(RenderError::InternalInvariant),
        },
        MarkupNode::Html(_) => Some(RenderError::UnsupportedHtml),
        MarkupNode::InlineHtml(_) => Some(RenderError::UnsupportedHtml),
        MarkupNode::Unsupported => Some(RenderError::InternalInvariant),
        _ => None,
    }
}

/// The first fault among siblings, left to right.
pub open spec fn seq_fault(s: Seq<MarkupNode>) -> Option<RenderError>
    decreases s, 2int,
{
    if s.len() == 0 {
        None
    } else {
        opt_or(node_fault(s[0]), seq_fault(s.drop_first()))
    }
}

/// The first fault under a code block: its first non-text leaf.
pub open spec fn code_fault(s: Seq<MarkupNode>) -> Option<RenderError>
    decreases s, 2int,
{
    if s.len() == 0 {
        None
    } else if !(s[0] is Text) {
        Some(RenderError::InternalInvariant)
    } else {
        code_fault(s.drop_first())
    }
}

/// The first fault of one list slot: an item group's children, or the
/// slot node itself.
pub open spec fn slot_fault(n: MarkupNode) -> Option<RenderError>
    decreases n, 1int,
{
    match n {
        MarkupNode::Group { tag: MarkupTag::Item, children } => seq_fault(children@),
        _ => node_fault(n),
    }
}

/// The first fault among a list's slots, left to right.
pub open spec fn list_fault(s: Seq<MarkupNode>) -> Option<RenderError>
    decreases s, 3int,
{
    if s.len() == 0 {
        None
    } else {
        opt_or(slot_fault(s[0]), list_fault(s.drop_first()))
    }
}

/// The first fault of a table's head slot.
pub open spec fn head_fault(n: MarkupNode) -> Option<RenderError>
    decreases n, 1int,
{
    match n {
        MarkupNode::Group { tag: MarkupTag::TableHead, children } => seq_fault(children@),
        _ => Some(RenderError::MalformedTable),
    }
}

/// The first fault of one table row slot.
pub open spec fn row_fault(n: MarkupNode) -> Option<RenderError>
    decreases n, 1int,
{
    match n {
        MarkupNode::Group { tag: MarkupTag::TableRow, children } => seq_fault(children@),
        _ => Some(RenderError::MalformedTable),
    }
}

/// The first fault among a table's body rows, in order.
pub open spec fn rows_fault(s: Seq<MarkupNode>) -> Option<RenderError>
    decreases s, 3int,
{
    if s.len() == 0 {
        None
    } else {
        opt_or(row_fault(s[0]), rows_fault(s.drop_first()))
    }
}

/// A well-shaped math-free tree has no fault.
pub proof fn lemma_no_fault(n: MarkupNode)
    requires
        static_ok(n),
        math_free(n),
    ensures
        node_fault(n) is None,
    decreases n, 0int,
{
    match n {
        MarkupNode::Group { tag, children } => {
            lemma_all_static_ok_iff(children@);
            lemma_all_math_free_iff(children@);
            match tag {
                MarkupTag::CodeBlock(_) => {
                    lemma_all_text_iff(children@);
                    lemma_code_no_fault(children@);
                },
                MarkupTag::List(_) => {
                    lemma_list_no_fault(children@);
                },
                MarkupTag::Table(_) => {
                    match children@[0] {
                        MarkupNode::Group { tag: ht, children: hc } => {
                            lemma_all_math_free_iff(hc@);
                            lemma_seq_no_fault(hc@);
                        },
                        _ => {},
                    }
                    lemma_rows_no_fault(children@.drop_first());
                },
                _ => {
                    lemma_seq_no_fault(children@);
                },
            }
        },
        _ => {},
    }
}

pub proof fn lemma_seq_no_fault(s: Seq<MarkupNode>)
    requires
        all_static_ok(s),
        all_math_free(s),
    ensures
        seq_fault(s) is None,
    decreases s, 2int,
{
    if s.len() > 0 {
        lemma_no_fault(s[0]);
        lemma_seq_no_fault(s.drop_first());
    }
}

proof fn lemma_code_no_fault(s: Seq<MarkupNode>)
    requires
        all_text(s),
    ensures
        code_fault(s) is None,
    decreases s, 2int,
{
    if s.len() > 0 {
        lemma_code_no_fault(s.drop_first());
    }
}

proof fn lemma_list_no_fault(s: Seq<MarkupNode>)
    requires
        all_static_ok(s),
        all_math_free(s),
    ensures
        list_fault(s) is None,
    decreases s, 3int,
{
    if s.len() > 0 {
        assert(static_ok(s[0]) && math_free(s[0]));
        match s[0] {
            MarkupNode::Group { tag: t0, children } => {
                if t0 is Item {
                    assert(all_static_ok(children@));
                    assert(all_math_free(children@));
                    lemma_seq_no_fault(children@);
                } else {
                    lemma_no_fault(s[0]);
                }
                assert(slot_fault(s[0]) is None);
            },
            _ => {
                lemma_no_fault(s[0]);
                assert(slot_fault(s[0]) is None);
            },
        }
        lemma_list_no_fault(s.drop_first());
    }
}

proof fn lemma_rows_no_fault(s: Seq<MarkupNode>)
    requires
        rows_ok(s),
        all_math_free(s),
    ensures
        rows_fault(s) is None,
    decreases s, 3int,
{
    if s.len() > 0 {
        assert(s[0] matches MarkupNode::Group { tag: MarkupTag::TableRow, children: rc }
            && all_static_ok(rc@));
        assert(math_free(s[0]));
        match s[0] {
            MarkupNode::Group { tag: rt, children } => {
                if rt is TableRow {
                    assert(all_math_free(children@));
                    lemma_seq_no_fault(children@);
                }
                assert(row_fault(s[0]) is None);
            },
            _ => {},
        }
        lemma_rows_no_fault(s.drop_first());
    }
}

/// The first fault of a sibling list is the first faulting sibling's.
pub proof fn lemma_seq_fault_at(s: Seq<MarkupNode>, i: int, e: RenderError)
    requires
        0 <= i < s.len(),
        forall|j: int| 0 <= j < i ==> node_fault(#[trigger] s[j]) is None,
        node_fault(s[i]) == Some(e),
    ensures
        seq_fault(s) == Some(e),
    decreases i,
{
    if i > 0 {
        lemma_seq_fault_at(s.drop_first(), i - 1, e);
    }
}

proof fn lemma_list_fault_at(s: Seq<MarkupNode>, i: int, e: RenderError)
    requires
        0 <= i < s.len(),
        forall|j: int| 0 <= j < i ==> slot_fault(#[trigger] s[j]) is None,
        slot_fault(s[i]) == Some(e),
    ensures
        list_fault(s) == Some(e),
    decreases i,
{
    if i > 0 {
        lemma_list_fault_at(s.drop_first(), i - 1, e);
    }
}

proof fn lemma_rows_fault_at(s: Seq<MarkupNode>, i: int, e: RenderError)
    requires
        0 <= i < s.len(),
        forall|j: int| 0 <= j < i ==> row_fault(#[trigger] s[j]) is None,
        row_fault(s[i]) == Some(e),
    ensures
        rows_fault(s) == Some(e),
    decreases i,
{
    if i > 0 {
        lemma_rows_fault_at(s.drop_first(), i - 1, e);
    }
}

proof fn lemma_code_fault_at(s: Seq<MarkupNode>, i: int)
    requires
        0 <= i < s.len(),
        forall|j: int| 0 <= j < i ==> (#[trigger] s[j]) is Text,
        !(s[i] is Text),
    ensures
        code_fault(s) == Some(RenderError::InternalInvariant),
    decreases i,
{
    if i > 0 {
        lemma_code_fault_at(s.drop_first(), i - 1);
    }
}

} // verus!

verus! {

/// The HTML pass is deterministic where its output is pinned: two
/// successful renders of one text without math spans and code fences are
/// byte-identical, both being `html_of` of the same parsed stream.
pub proof fn lemma_html_deterministic(text: Seq<char>, h1: Seq<char>, h2: Seq<char>)
    requires
        h1 == crate::render::events::html_of(crate::render::events::raw_events_of(text)),
        h2 == crate::render::events::html_of(crate::render::events::raw_events_of(text)),
    ensures
        h1 == h2,
{
}

} // verus!
