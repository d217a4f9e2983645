use bedrock::render::markdown::{
    ContentNode, MarkdownRenderable, MathEvaluator, RenderError, render_markdown,
};
use comemo::Track;
use typst::diag::FileResult;
use typst::foundations::{Bytes, Datetime, Scope, Value};
use typst::syntax::{FileId, Source, Span};
use typst::text::{Font, FontBook};
use typst::utils::LazyHash;
use typst::{Library, World};
use typst_kit::fonts::{FontSlot, Fonts};

/// A minimal typesetting environment: the embedded fonts, the default
/// library, and one detached source.
struct TestWorld {
    source: Source,
    library: LazyHash<Library>,
    book: LazyHash<FontBook>,
    fonts: Vec<FontSlot>,
}

impl TestWorld {
    fn new(source: String) -> Self {
        let fonts = Fonts::searcher().include_system_fonts(false).search();
        TestWorld {
            source: Source::detached(source),
            library: LazyHash::new(Library::default()),
            book: LazyHash::new(fonts.book),
            fonts: fonts.fonts,
        }
    }
}

impl World for TestWorld {
    fn library(&self) -> &LazyHash<Library> {
        &self.library
    }

    fn book(&self) -> &LazyHash<FontBook> {
        &self.book
    }

    fn main(&self) -> FileId {
        self.source.id()
    }

    fn source(&self, id: FileId) -> FileResult<Source> {
        if id == self.source.id() {
            Ok(self.source.clone())
        } else {
            Err(typst::diag::FileError::AccessDenied)
        }
    }

    fn file(&self, _id: FileId) -> FileResult<Bytes> {
        Err(typst::diag::FileError::AccessDenied)
    }

    fn font(&self, id: usize) -> Option<Font> {
        self.fonts[id].get()
    }

    fn today(&self, _offset: Option<i64>) -> Option<Datetime> {
        None
    }
}

/// The real gateway: each call builds one fresh, isolated environment.
struct TypstEval;

fn diags_to_strings(diags: ecow::EcoVec<typst::diag::SourceDiagnostic>) -> Vec<String> {
    let out: Vec<String> = diags.iter().map(|d| d.message.to_string()).collect();
    if out.is_empty() {
        vec!["typesetting failed".to_string()]
    } else {
        out
    }
}

impl MathEvaluator for TypstEval {
    type Content = typst::foundations::Content;

    fn eval_inline(&self, expr: &str) -> Result<Self::Content, Vec<String>> {
        let world = TestWorld::new(String::new());
        let value = typst::eval::eval_string(
            (&world as &dyn World).track(),
            expr,
            Span::detached(),
            typst::eval::EvalMode::Math,
            Scope::new(),
        )
        .map_err(diags_to_strings)?;
        match value {
            Value::Content(c) => Ok(c),
            other => Err(vec![format!("math produced a non-content value: {:?}", other)]),
        }
    }

    fn eval_display(&self, expr: &str) -> Result<Self::Content, Vec<String>> {
        let world = TestWorld::new(String::new());
        let scope = world.library().math.scope().clone();
        let value = typst::eval::eval_string(
            (&world as &dyn World).track(),
            &format!("$ {} $", expr),
            Span::detached(),
            typst::eval::EvalMode::Markup,
            scope,
        )
        .map_err(diags_to_strings)?;
        match value {
            Value::Content(c) => Ok(c),
            other => Err(vec![format!("math produced a non-content value: {:?}", other)]),
        }
    }

    fn eval_svg(&self, expr: &str, display: bool) -> Result<String, Vec<String>> {
        let template = if display {
            format!("#set page(width: auto, height: auto, margin: 0em)\n$ {} $\n", expr)
        } else {
            format!("#set page(width: auto, height: auto, margin: 0em)\n${}$", expr)
        };
        let world = TestWorld::new(template);
        let document = typst::compile(&world).output.map_err(diags_to_strings)?;
        Ok(typst_svg::svg(&document.pages[0]))
    }
}

#[test]
fn valid_display_math_renders_on_the_content_path() {
    let tree = render_markdown("$$ e^(pi i) + 1 = 0 $$", &TypstEval).unwrap();
    let nodes = match tree {
        ContentNode::Sequence(nodes) => nodes,
        other => panic!("unexpected root {:?}", other),
    };
    let math = nodes
        .iter()
        .find_map(|n| find_math(n))
        .expect("the document holds the rendered math");
    assert!(!math.is_empty());
}

fn find_math(node: &ContentNode<typst::foundations::Content>) -> Option<&typst::foundations::Content> {
    match node {
        ContentNode::Math(m) => Some(m),
        ContentNode::Sequence(ns) | ContentNode::Paragraph(ns) => ns.iter().find_map(find_math),
        _ => None,
    }
}

#[test]
fn valid_display_math_renders_on_the_html_path() {
    let md = MarkdownRenderable::from_raw("$$ e^(pi i) + 1 = 0 $$".to_string());
    let html = md.html(&TypstEval).unwrap();
    assert!(html.contains("<svg"), "html was {:?}", html);
}

#[test]
fn invalid_math_fails_the_content_path() {
    let r = render_markdown("$norealfunction(1)$", &TypstEval);
    match r {
        Err(RenderError::TypstError(d)) => assert!(!d.is_empty()),
        other => panic!("expected a typesetting error, got {:?}", other.map(|_| ())),
    }
}

#[test]
fn invalid_math_fails_the_html_path_after_a_full_pass() {
    let md = MarkdownRenderable::from_raw("before $norealfunction(1)$ after".to_string());
    match md.html(&TypstEval) {
        Err(RenderError::TypstError(d)) => assert!(!d.is_empty()),
        other => panic!("expected a typesetting error, got {:?}", other),
    }
}

#[test]
fn html_block_succeeds_on_the_html_path_and_fails_on_the_content_path() {
    let input = "<div>embedded</div>\n";
    let html = MarkdownRenderable::from_raw(input.to_string()).html(&TypstEval).unwrap();
    assert!(html.contains("<div>embedded</div>"));
    let r = render_markdown(input, &TypstEval);
    assert!(matches!(r.map(|_| ()), Err(RenderError::UnsupportedHtml)));
}
