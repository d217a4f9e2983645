//! The HTML stream renderer: one forward pass over the flat event stream.
//!
//! Code blocks are highlighted line by line through `syntect`, math spans
//! are replaced by SVG fragments from the evaluator, raw HTML passes
//! through verbatim, and math failures are collected to the end of the
//! pass: the pass always completes, and succeeds exactly when no math span
//! failed.

use vstd::prelude::*;
use crate::render::events::{
    ev_display_math, ev_inline_math, ev_is_code_block_end, ev_mark, ev_start_code_block, ev_text,
    events_to_html, has_code_mark, has_math_mark, html_of, md_marks_of, parse_events,
    raw_events_of, EventMark,
};
use crate::render::markdown::{MathEvaluator, RenderError};

verus! {

#[verifier::external_type_specification]
#[verifier::external_body]
pub struct ExSyntaxSet(syntect::parsing::SyntaxSet);

#[verifier::external_type_specification]
#[verifier::external_body]
pub struct ExSyntaxReference(syntect::parsing::SyntaxReference);

#[verifier::external_type_specification]
#[verifier::external_body]
pub struct ExClassedHTMLGenerator<'a>(syntect::html::ClassedHTMLGenerator<'a>);

/// Relies on `syntect::parsing::SyntaxSet::load_defaults_newlines`: the
/// bundled grammar set, with newline-keeping variants.
#[verifier::external_body]
fn load_default_syntaxes() -> syntect::parsing::SyntaxSet {
    syntect::parsing::SyntaxSet::load_defaults_newlines()
}

/// Relies on `syntect::parsing::SyntaxSet::find_syntax_by_name`.
#[verifier::external_body]
fn find_by_name<'a>(ss: &'a syntect::parsing::SyntaxSet, name: &str) -> Option<
    &'a syntect::parsing::SyntaxReference,
> {
    ss.find_syntax_by_name(name)
}

/// Relies on `syntect::parsing::SyntaxSet::find_syntax_by_extension`.
#[verifier::external_body]
fn find_by_extension<'a>(ss: &'a syntect::parsing::SyntaxSet, ext: &str) -> Option<
    &'a syntect::parsing::SyntaxReference,
> {
    ss.find_syntax_by_extension(ext)
}

/// Relies on `syntect::parsing::SyntaxSet::find_syntax_plain_text`: the
/// plain-text grammar, present in every set this crate builds — the only
/// sets verified code produces come from `load_default_syntaxes`, whose
/// bundled dump includes it (the call would panic on a set without it).
#[verifier::external_body]
fn plain_text_syntax<'a>(ss: &'a syntect::parsing::SyntaxSet) -> &'a syntect::parsing::SyntaxReference {
    ss.find_syntax_plain_text()
}

/// Relies on `syntect::html::ClassedHTMLGenerator::new_with_class_style`
/// with spaced CSS classes.
#[verifier::external_body]
fn new_generator<'a>(
    syntax: &'a syntect::parsing::SyntaxReference,
    ss: &'a syntect::parsing::SyntaxSet,
) -> syntect::html::ClassedHTMLGenerator<'a> {
    syntect::html::ClassedHTMLGenerator::new_with_class_style(
        syntax,
        ss,
        syntect::html::ClassStyle::Spaced,
    )
}

/// Relies on `ClassedHTMLGenerator::parse_html_for_line_which_includes_newline`;
/// reports whether the line was taken.
#[verifier::external_body]
fn feed_line(g: &mut syntect::html::ClassedHTMLGenerator<'_>, line: &str) -> bool {
    g.parse_html_for_line_which_includes_newline(line).is_ok()
}

/// Relies on `ClassedHTMLGenerator::finalize`: the accumulated HTML.
#[verifier::external_body]
fn finish_generator(g: syntect::html::ClassedHTMLGenerator<'_>) -> String {
    g.finalize()
}

/// The lines of a text, split after each newline, the newline kept on the
/// line before it: a function of the characters alone.
pub uninterp spec fn lines_of(text: Seq<char>) -> Seq<Seq<char>>;

/// Relies on `syntect::util::LinesWithEndings`: splits after each newline,
/// keeping the newline on the line before it.
#[verifier::external_body]
fn lines_with_endings(text: &str) -> (r: Vec<String>)
    ensures
        r@.map_values(|l: String| l@) == lines_of(text@),
{
    syntect::util::LinesWithEndings::from(text).map(|l| l.to_owned()).collect()
}

/// Relies on `pulldown_cmark::Event::Html` built from an owned string.
#[verifier::external_body]
fn ev_from_html(s: String) -> pulldown_cmark::Event<'static> {
    pulldown_cmark::Event::Html(s.into())
}

/// Relies on `pulldown_cmark::Event::InlineHtml` built from an owned string.
#[verifier::external_body]
fn ev_from_inline_html(s: String) -> pulldown_cmark::Event<'static> {
    pulldown_cmark::Event::InlineHtml(s.into())
}

/// Relies on `pulldown_cmark::Event::Text` built from an owned string.
#[verifier::external_body]
fn ev_from_text(s: String) -> pulldown_cmark::Event<'static> {
    pulldown_cmark::Event::Text(s.into())
}

/// Relies on `pulldown_cmark::Event`'s derived `Clone`: the copy equals
/// the original.
#[verifier::external_body]
fn ev_copy<'a>(e: &pulldown_cmark::Event<'a>) -> (r: pulldown_cmark::Event<'a>)
    ensures
        r == *e,
{
    e.clone()
}

/// The fallback order for a fence's language tag: the grammar found by
/// name wins, then the one found by file extension, and an unknown tag
/// falls back to the plain-text grammar — never an error.
fn choose_syntax<'a>(
    by_name: Option<&'a syntect::parsing::SyntaxReference>,
    by_extension: Option<&'a syntect::parsing::SyntaxReference>,
    plain: &'a syntect::parsing::SyntaxReference,
) -> (r: &'a syntect::parsing::SyntaxReference)
    ensures
        r == (match by_name {
            Some(s) => s,
            None => match by_extension {
                Some(s) => s,
                None => plain,
            },
        }),
{
    match by_name {
        Some(s) => s,
        None => match by_extension {
            Some(s) => s,
            None => plain,
        },
    }
}

/// Picks the grammar for a fence's language tag: by grammar name first,
/// then by file extension, falling back to plain text for an unknown tag.
fn resolve_syntax<'a>(ss: &'a syntect::parsing::SyntaxSet, lang: &str) -> &'a syntect::parsing::SyntaxReference {
    choose_syntax(find_by_name(ss, lang), find_by_extension(ss, lang), plain_text_syntax(ss))
}

/// Moves every diagnostic of `src` to the end of `dst`, keeping order.
fn append_all(dst: &mut Vec<String>, src: Vec<String>)
    ensures
        final(dst)@ == old(dst)@ + src@,
{
    let ghost src0 = src@;
    let mut src = src;
    let total: usize = src.len();
    proof {
        assert(old(dst)@ + src0.take(0) =~= old(dst)@);
    }
    let mut i: usize = 0;
    while src.len() > 0
        invariant
            i <= src0.len(),
            src0.len() == total,
            src@ == src0.skip(i as int),
            dst@ == old(dst)@ + src0.take(i as int),
        decreases src@.len(),
    {
        proof {
            assert(src0.skip(i as int).len() > 0);
            assert(i < src0.len());
        }
        let d = src.remove(0);
        dst.push(d);
        proof {
            assert(src0.skip(i as int).drop_first() =~= src0.skip(i as int + 1));
            assert(src0.take(i as int).push(src0[i as int]) =~= src0.take(i as int + 1));
            assert(dst@ =~= old(dst)@ + src0.take(i as int + 1));
        }
        i = i + 1;
    }
    proof {
        assert(src0.take(i as int) =~= src0);
    }
}

/// One forward pass over the event stream: code blocks are replaced by
/// highlighted fragments, math spans by the evaluator's SVG or an empty
/// placeholder, and every other event passes through verbatim.  Returns
/// the assembled stream and the collected math diagnostics: the
/// diagnostics are empty when no event is a math span, only math spans
/// produce diagnostics, and a stream without math spans and code fences
/// comes back exactly as it went in.
pub fn assemble_html_events<'a, E: MathEvaluator>(
    events: &Vec<pulldown_cmark::Event<'a>>,
    eval: &E,
) -> (r: (Vec<pulldown_cmark::Event<'a>>, Vec<String>))
    ensures
        ({
            let marks = events@.map_values(|e: pulldown_cmark::Event<'a>| ev_mark(e));
            &&& !has_math_mark(marks) ==> r.1@.len() == 0
            &&& r.1@.len() > 0 ==> has_math_mark(marks)
            &&& (!has_math_mark(marks) && !has_code_mark(marks)) ==> r.0@ == events@
        }),
{
    let ghost marks = events@.map_values(|e: pulldown_cmark::Event<'a>| ev_mark(e));
    let ss = load_default_syntaxes();
    let mut out: Vec<pulldown_cmark::Event<'a>> = Vec::new();
    let mut diags: Vec<String> = Vec::new();
    let mut current: Option<syntect::html::ClassedHTMLGenerator<'_>> = None;
    let mut i: usize = 0;
    proof {
        assert(marks.take(0) =~= Seq::<EventMark>::empty());
        assert(events@.take(0) =~= Seq::<pulldown_cmark::Event<'a>>::empty());
        assert(out@ =~= events@.take(0));
    }
    while i < events.len()
        invariant
            i <= events@.len(),
            marks == events@.map_values(|e: pulldown_cmark::Event<'a>| ev_mark(e)),
            !has_math_mark(marks.take(i as int)) ==> diags@.len() == 0,
            (!has_math_mark(marks.take(i as int)) && !has_code_mark(marks.take(i as int))) ==> (
            out@ == events@.take(i as int) && current is None),
        decreases events@.len() - i,
    {
        let ghost marks_now = marks.take(i as int + 1);
        proof {
            assert(marks_now =~= marks.take(i as int).push(marks[i as int]));
            assert(marks[i as int] == ev_mark(events@[i as int]));
        }
        let e = &events[i];
        if let Some(lang) = ev_start_code_block(e) {
            let tag = match lang {
                Some(l) => l,
                None => String::new(),
            };
            let syntax = resolve_syntax(&ss, tag.as_str());
            current = Some(new_generator(syntax, &ss));
            proof {
                lemma_marks_prefix(marks, i as int);
                assert(marks_now[i as int] is CodeStart);
                assert(has_code_mark(marks_now));
            }
        } else if ev_is_code_block_end(e) {
            match current {
                Some(g) => {
                    let mut fragment = crate::text::str_to_string("<pre>");
                    let body = finish_generator(g);
                    fragment.append(body.as_str());
                    fragment.append("</pre>");
                    out.push(ev_from_html(fragment));
                },
                None => {},
            }
            current = None;
            proof {
                lemma_marks_prefix(marks, i as int);
                assert(marks_now[i as int] is CodeEnd);
                assert(has_code_mark(marks_now));
            }
        } else if let Some(expr) = ev_inline_math(e) {
            match eval.eval_svg(expr.as_str(), false) {
                Ok(svg) => {
                    out.push(ev_from_inline_html(svg));
                },
                Err(ds) => {
                    append_all(&mut diags, ds);
                    out.push(ev_from_text(String::new()));
                },
            }
            proof {
                lemma_marks_prefix(marks, i as int);
                assert(marks_now[i as int] is InlineMath);
                assert(has_math_mark(marks_now));
            }
        } else if let Some(expr) = ev_display_math(e) {
            match eval.eval_svg(expr.as_str(), true) {
                Ok(svg) => {
                    out.push(ev_from_html(svg));
                },
                Err(ds) => {
                    append_all(&mut diags, ds);
                    out.push(ev_from_text(String::new()));
                },
            }
            proof {
                lemma_marks_prefix(marks, i as int);
                assert(marks_now[i as int] is DisplayMath);
                assert(has_math_mark(marks_now));
            }
        } else if let Some(t) = ev_text(e) {
            match current {
                Some(mut g) => {
                    let lines = lines_with_endings(t.as_str());
                    let mut l: usize = 0;
                    while l < lines.len()
                        decreases lines@.len() - l,
                    {
                        let _ = feed_line(&mut g, lines[l].as_str());
                        l = l + 1;
                    }
                    current = Some(g);
                    proof {
                        lemma_marks_prefix(marks, i as int);
                    }
                },
                None => {
                    let ghost out_before = out@;
                    out.push(ev_copy(e));
                    proof {
                        lemma_marks_prefix(marks, i as int);
                        lemma_marks_extend(marks, i as int);
                        assert(out@ =~= out_before.push(events@[i as int]));
                        assert(events@.take(i as int + 1) =~= events@.take(i as int).push(
                            events@[i as int],
                        ));
                    }
                },
            }
        } else {
            let ghost out_before = out@;
            out.push(ev_copy(e));
            proof {
                lemma_marks_prefix(marks, i as int);
                lemma_marks_extend(marks, i as int);
                assert(out@ =~= out_before.push(events@[i as int]));
                assert(events@.take(i as int + 1) =~= events@.take(i as int).push(
                    events@[i as int],
                ));
            }
        }
        i = i + 1;
    }
    proof {
        assert(marks.take(marks.len() as int) =~= marks);
        assert(events@.take(events@.len() as int) =~= events@);
    }
    (out, diags)
}

/// Freedom from math and code marks carries from a prefix to the next
/// event when that event is neither.
proof fn lemma_marks_extend(marks: Seq<EventMark>, i: int)
    requires
        0 <= i < marks.len(),
    ensures
        (!has_math_mark(marks.take(i)) && !(marks[i] is InlineMath) && !(marks[i] is DisplayMath))
            ==> !has_math_mark(marks.take(i + 1)),
        (!has_code_mark(marks.take(i)) && !(marks[i] is CodeStart) && !(marks[i] is CodeEnd))
            ==> !has_code_mark(marks.take(i + 1)),
{
    if !has_math_mark(marks.take(i)) && !(marks[i] is InlineMath) && !(marks[i] is DisplayMath) {
        assert forall|j: int|
            0 <= j < i + 1 implies !((#[trigger] marks.take(i + 1)[j]) is InlineMath
            || marks.take(i + 1)[j] is DisplayMath) by {
            if j < i {
                assert(marks.take(i)[j] == marks.take(i + 1)[j]);
            } else {
                assert(marks.take(i + 1)[j] == marks[i]);
            }
        }
    }
    if !has_code_mark(marks.take(i)) && !(marks[i] is CodeStart) && !(marks[i] is CodeEnd) {
        assert forall|j: int|
            0 <= j < i + 1 implies !((#[trigger] marks.take(i + 1)[j]) is CodeStart
            || marks.take(i + 1)[j] is CodeEnd) by {
            if j < i {
                assert(marks.take(i)[j] == marks.take(i + 1)[j]);
            } else {
                assert(marks.take(i + 1)[j] == marks[i]);
            }
        }
    }
}

/// Freedom from math or code marks in an extended prefix carries back to
/// the prefix it extends.
proof fn lemma_marks_prefix(marks: Seq<EventMark>, i: int)
    requires
        0 <= i < marks.len(),
    ensures
        !has_math_mark(marks.take(i + 1)) ==> !has_math_mark(marks.take(i)),
        !has_code_mark(marks.take(i + 1)) ==> !has_code_mark(marks.take(i)),
{
    if has_math_mark(marks.take(i)) {
        let j = choose|j: int|
            0 <= j < i && ((#[trigger] marks.take(i)[j]) is InlineMath || marks.take(i)[j]
                is DisplayMath);
        assert(marks.take(i + 1)[j] == marks.take(i)[j]);
        assert(has_math_mark(marks.take(i + 1)));
    }
    if has_code_mark(marks.take(i)) {
        let j = choose|j: int|
            0 <= j < i && ((#[trigger] marks.take(i)[j]) is CodeStart || marks.take(i)[j]
                is CodeEnd);
        assert(marks.take(i + 1)[j] == marks.take(i)[j]);
        assert(has_code_mark(marks.take(i + 1)));
    }
}

/// Renders markup text to HTML in one forward pass, collecting every math
/// failure rather than stopping at the first.  The parsed stream's marks
/// are named `md_marks_of`: success is owed whenever the text holds no
/// math span, and only an accumulated, non-empty list of typesetting
/// diagnostics can make the pass fail.
pub fn render_html<E: MathEvaluator>(text: &str, eval: &E) -> (r: Result<String, RenderError>)
    ensures
        !has_math_mark(md_marks_of(text@)) ==> r is Ok,
        (!has_math_mark(md_marks_of(text@)) && !has_code_mark(md_marks_of(text@))) ==> (r matches
            Ok(h) && h@ == html_of(raw_events_of(text@))),
        r matches Err(e) ==> (e matches RenderError::TypstError(d) && d@.len() > 0
            && has_math_mark(md_marks_of(text@))),
{
    let events = parse_events(text);
    let (out, diags) = assemble_html_events(&events, eval);
    let html = events_to_html(out);
    if diags.len() == 0 {
        Ok(html)
    } else {
        Err(RenderError::TypstError(diags))
    }
}

} // verus!
