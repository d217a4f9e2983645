use bedrock::render::markdown::{
    ContentNode, MarkdownRenderable, MarkupNode, MarkupTag, MathEvaluator, MdAlign, RenderError,
    render_markdown, render_node,
};

/// An evaluator that never typesets: it hands the expression text back, so
/// structural tests can see exactly what reached the gateway.
struct EchoEval;

impl MathEvaluator for EchoEval {
    type Content = String;

    fn eval_inline(&self, expr: &str) -> Result<String, Vec<String>> {
        Ok(format!("inline:{}", expr))
    }

    fn eval_display(&self, expr: &str) -> Result<String, Vec<String>> {
        Ok(format!("display:{}", expr))
    }

    fn eval_svg(&self, expr: &str, display: bool) -> Result<String, Vec<String>> {
        Ok(format!("<svg data-display=\"{}\">{}</svg>", display, expr))
    }
}

/// An evaluator that rejects every span with one diagnostic.
struct FailEval;

impl MathEvaluator for FailEval {
    type Content = String;

    fn eval_inline(&self, _expr: &str) -> Result<String, Vec<String>> {
        Err(vec!["unbalanced delimiters".to_string()])
    }

    fn eval_display(&self, _expr: &str) -> Result<String, Vec<String>> {
        Err(vec!["unbalanced delimiters".to_string()])
    }

    fn eval_svg(&self, _expr: &str, _display: bool) -> Result<String, Vec<String>> {
        Err(vec!["unbalanced delimiters".to_string()])
    }
}

fn flat(nodes: &[ContentNode<String>]) -> &[ContentNode<String>] {
    nodes
}

#[test]
fn heading_is_rendered_with_its_level() {
    let tree = render_markdown("## Hi", &EchoEval).unwrap();
    match tree {
        ContentNode::Sequence(nodes) => match flat(&nodes) {
            [ContentNode::Heading { level, content }] => {
                assert_eq!(2, *level);
                match flat(content) {
                    [ContentNode::Text(t)] => assert_eq!("Hi", t),
                    other => panic!("unexpected heading content {:?}", other),
                }
            }
            other => panic!("unexpected document {:?}", other),
        },
        other => panic!("unexpected root {:?}", other),
    }
}

#[test]
fn ordered_list_numbers_direct_children_only() {
    let tree = render_markdown("3. a\n4. b\n5. c\n", &EchoEval).unwrap();
    let nodes = match tree {
        ContentNode::Sequence(nodes) => nodes,
        other => panic!("unexpected root {:?}", other),
    };
    match flat(&nodes) {
        [ContentNode::List { start, items }] => {
            assert_eq!(Some(3), *start);
            let numbers: Vec<Option<u64>> = items
                .iter()
                .map(|i| match i {
                    ContentNode::ListItem { number, .. } => *number,
                    other => panic!("unexpected list slot {:?}", other),
                })
                .collect();
            assert_eq!(vec![Some(3), Some(4), Some(5)], numbers);
        }
        other => panic!("unexpected document {:?}", other),
    }
}

#[test]
fn nested_ordered_list_restarts_at_its_own_start() {
    let tree = render_markdown("3. a\n4. b\n   1. x\n   2. y\n", &EchoEval).unwrap();
    let nodes = match tree {
        ContentNode::Sequence(nodes) => nodes,
        other => panic!("unexpected root {:?}", other),
    };
    let items = match flat(&nodes) {
        [ContentNode::List { start: Some(3), items }] => items,
        other => panic!("unexpected document {:?}", other),
    };
    assert_eq!(2, items.len());
    let second = match &items[1] {
        ContentNode::ListItem { number: Some(4), content } => content,
        other => panic!("unexpected second item {:?}", other),
    };
    let inner = second
        .iter()
        .find_map(|n| match n {
            ContentNode::List { start, items } => Some((start, items)),
            _ => None,
        })
        .expect("the second item holds the nested list");
    assert_eq!(Some(1), *inner.0);
    let numbers: Vec<Option<u64>> = inner
        .1
        .iter()
        .map(|i| match i {
            ContentNode::ListItem { number, .. } => *number,
            other => panic!("unexpected nested slot {:?}", other),
        })
        .collect();
    assert_eq!(vec![Some(1), Some(2)], numbers);
}

#[test]
fn html_block_fails_content_rendering() {
    let r = render_markdown("<div>\nhello\n</div>\n", &EchoEval);
    assert_eq!(Err(RenderError::UnsupportedHtml), r.map(|_| ()));
}

#[test]
fn inline_html_fails_content_rendering() {
    let r = render_markdown("a <b>bold</b> claim", &EchoEval);
    assert_eq!(Err(RenderError::UnsupportedHtml), r.map(|_| ()));
}

#[test]
fn image_is_not_yet_supported() {
    let r = render_markdown("![alt](https://example.com/x.png)", &EchoEval);
    assert_eq!(Err(RenderError::Unimplemented), r.map(|_| ()));
}

#[test]
fn table_without_head_is_malformed() {
    let node = MarkupNode::Group { tag: MarkupTag::Table(vec![]), children: vec![] };
    let r = render_node(&node, &EchoEval);
    assert_eq!(Err(RenderError::MalformedTable), r.map(|_| ()));
}

#[test]
fn table_with_leading_row_is_malformed() {
    let row = MarkupNode::Group { tag: MarkupTag::TableRow, children: vec![] };
    let node = MarkupNode::Group { tag: MarkupTag::Table(vec![]), children: vec![row] };
    let r = render_node(&node, &EchoEval);
    assert_eq!(Err(RenderError::MalformedTable), r.map(|_| ()));
}

#[test]
fn short_table_row_is_kept_as_given() {
    // The renderer itself neither pads nor rejects a row that is shorter
    // than the header: the row below has one cell against two columns.
    let cell = |text: &str| MarkupNode::Group {
        tag: MarkupTag::TableCell,
        children: vec![MarkupNode::Text(text.to_string())],
    };
    let head = MarkupNode::Group {
        tag: MarkupTag::TableHead,
        children: vec![cell("a"), cell("b")],
    };
    let row = MarkupNode::Group { tag: MarkupTag::TableRow, children: vec![cell("c")] };
    let table = MarkupNode::Group {
        tag: MarkupTag::Table(vec![]),
        children: vec![head, row],
    };
    match render_node(&table, &EchoEval).unwrap() {
        ContentNode::Table { columns, header, rows, .. } => {
            assert_eq!(2, columns);
            assert_eq!(2, header.len());
            assert_eq!(1, rows.len());
            assert_eq!(1, rows[0].len());
        }
        other => panic!("unexpected node {:?}", other),
    }
}

#[test]
fn tokenizer_pads_short_table_rows() {
    // The tokenizer hands short rows over already padded to the header
    // width; the renderer keeps what it is given.
    let tree = render_markdown("|a|b|\n|-|-|\n|c|\n", &EchoEval).unwrap();
    let nodes = match tree {
        ContentNode::Sequence(nodes) => nodes,
        other => panic!("unexpected root {:?}", other),
    };
    match flat(&nodes) {
        [ContentNode::Table { columns, header, rows, .. }] => {
            assert_eq!(2, *columns);
            assert_eq!(2, header.len());
            assert_eq!(1, rows.len());
            assert_eq!(2, rows[0].len());
        }
        other => panic!("unexpected document {:?}", other),
    }
}

#[test]
fn code_block_keeps_text_and_language() {
    let tree = render_markdown("```py\nx = 1\n```\n", &EchoEval).unwrap();
    let nodes = match tree {
        ContentNode::Sequence(nodes) => nodes,
        other => panic!("unexpected root {:?}", other),
    };
    match flat(&nodes) {
        [ContentNode::CodeBlock { text, lang }] => {
            assert_eq!("x = 1\n", text);
            assert_eq!(Some("py".to_string()), lang.clone());
        }
        other => panic!("unexpected document {:?}", other),
    }
}

#[test]
fn display_math_is_trimmed_before_evaluation() {
    let tree = render_markdown("$$   x + 1   $$", &EchoEval).unwrap();
    let nodes = match tree {
        ContentNode::Sequence(nodes) => nodes,
        other => panic!("unexpected root {:?}", other),
    };
    let found = nodes.iter().any(|n| matches_math(n, "display:x + 1"));
    assert!(found, "no trimmed display math in {:?}", nodes);
}

fn matches_math(node: &ContentNode<String>, wanted: &str) -> bool {
    match node {
        ContentNode::Math(m) => m == wanted,
        ContentNode::Sequence(ns)
        | ContentNode::Paragraph(ns)
        | ContentNode::BlockQuote(ns)
        | ContentNode::Emphasis(ns)
        | ContentNode::Strong(ns)
        | ContentNode::Strikethrough(ns)
        | ContentNode::TableCell(ns) => ns.iter().any(|n| matches_math(n, wanted)),
        ContentNode::Heading { content, .. }
        | ContentNode::ListItem { content, .. }
        | ContentNode::Link { content, .. } => content.iter().any(|n| matches_math(n, wanted)),
        ContentNode::List { items, .. } => items.iter().any(|n| matches_math(n, wanted)),
        _ => false,
    }
}

#[test]
fn failing_math_is_fatal_on_the_content_path() {
    let r = render_markdown("before $x +$ after", &FailEval);
    match r {
        Err(RenderError::TypstError(d)) => {
            assert_eq!(vec!["unbalanced delimiters".to_string()], d);
        }
        other => panic!("expected a typesetting error, got {:?}", other.map(|_| ())),
    }
}

#[test]
fn failing_math_is_collected_on_the_html_path() {
    let md = MarkdownRenderable::from_raw("one $a +$ two $b +$ three".to_string());
    match md.html(&FailEval) {
        Err(RenderError::TypstError(d)) => {
            assert_eq!(2, d.len());
        }
        other => panic!("expected a typesetting error, got {:?}", other),
    }
}

#[test]
fn html_passes_through_on_the_html_path() {
    let md = MarkdownRenderable::from_raw("<div>verbatim</div>\n".to_string());
    let html = md.html(&EchoEval).unwrap();
    assert!(html.contains("<div>verbatim</div>"), "html was {:?}", html);
}

#[test]
fn math_becomes_svg_on_the_html_path() {
    let md = MarkdownRenderable::from_raw("before $x$ after".to_string());
    let html = md.html(&EchoEval).unwrap();
    assert!(html.contains("<svg"), "html was {:?}", html);
}

#[test]
fn unknown_code_language_falls_back_to_plain_text() {
    let md = MarkdownRenderable::from_raw("```nosuchlanguage\nwords here\n```\n".to_string());
    let html = md.html(&EchoEval).unwrap();
    assert!(html.contains("<pre>"), "html was {:?}", html);
    assert!(html.contains("words here"), "html was {:?}", html);
}

#[test]
fn known_code_language_is_highlighted() {
    let md = MarkdownRenderable::from_raw("```rs\nlet x = 1;\n```\n".to_string());
    let html = md.html(&EchoEval).unwrap();
    assert!(html.contains("<pre>"), "html was {:?}", html);
    assert!(html.contains("<span"), "html was {:?}", html);
}

#[test]
fn repeated_html_renders_are_byte_identical() {
    let md = MarkdownRenderable::from_raw(
        "# T\n\nsome *text* with $m$ and\n\n|a|b|\n|-|-|\n|c|d|\n".to_string(),
    );
    let first = md.html(&EchoEval).unwrap();
    let second = md.html(&EchoEval).unwrap();
    assert_eq!(first, second);
}

#[test]
fn parity_of_structure_between_both_paths() {
    let input = "## Head\n\n1. one\n2. two\n\n|a|b|\n|-|-|\n|c|d|\n";
    let tree = render_markdown(input, &EchoEval).unwrap();
    let html = MarkdownRenderable::from_raw(input.to_string()).html(&EchoEval).unwrap();

    let nodes = match tree {
        ContentNode::Sequence(nodes) => nodes,
        other => panic!("unexpected root {:?}", other),
    };
    let has_h2 = nodes.iter().any(|n| matches!(n, ContentNode::Heading { level: 2, .. }));
    let list_starts: Vec<Option<u64>> = nodes
        .iter()
        .filter_map(|n| match n {
            ContentNode::List { start, .. } => Some(*start),
            _ => None,
        })
        .collect();
    let table_columns: Vec<usize> = nodes
        .iter()
        .filter_map(|n| match n {
            ContentNode::Table { columns, .. } => Some(*columns),
            _ => None,
        })
        .collect();
    assert!(has_h2);
    assert_eq!(vec![Some(1)], list_starts);
    assert_eq!(vec![2], table_columns);

    assert!(html.contains("<h2>"));
    assert!(html.contains("<ol>"));
    assert!(html.contains("<table>"));
    assert_eq!(2, html.matches("<th>").count());
}

#[test]
fn raw_text_round_trips() {
    let md = MarkdownRenderable::from_raw("plain".to_string());
    assert_eq!("plain", md.raw());
}

#[test]
fn out_of_dialect_node_is_an_internal_invariant() {
    let r = render_node(&MarkupNode::Unsupported, &EchoEval);
    assert_eq!(Err(RenderError::InternalInvariant), r.map(|_| ()));
}

#[test]
fn non_text_under_a_code_block_is_an_internal_invariant() {
    let node = MarkupNode::Group {
        tag: MarkupTag::CodeBlock(None),
        children: vec![MarkupNode::Rule],
    };
    let r = render_node(&node, &EchoEval);
    assert_eq!(Err(RenderError::InternalInvariant), r.map(|_| ()));
}

#[test]
fn inline_constructs_render_structurally() {
    let tree = render_markdown(
        "*em* **st** ~~del~~ [x](https://example.com) `code`",
        &EchoEval,
    )
    .unwrap();
    let nodes = match tree {
        ContentNode::Sequence(nodes) => nodes,
        other => panic!("unexpected root {:?}", other),
    };
    let para = match flat(&nodes) {
        [ContentNode::Paragraph(children)] => children,
        other => panic!("unexpected document {:?}", other),
    };
    assert!(para.iter().any(|n| matches!(n, ContentNode::Emphasis(_))));
    assert!(para.iter().any(|n| matches!(n, ContentNode::Strong(_))));
    assert!(para.iter().any(|n| matches!(n, ContentNode::Strikethrough(_))));
    assert!(para.iter().any(|n| match n {
        ContentNode::Link { dest, .. } => dest == "https://example.com",
        _ => false,
    }));
    assert!(para.iter().any(|n| match n {
        ContentNode::Code(c) => c == "code",
        _ => false,
    }));
}

#[test]
fn breaks_and_rules_render() {
    let tree = render_markdown("a\nb\n\nc  \nd\n\n---\n", &EchoEval).unwrap();
    let nodes = match tree {
        ContentNode::Sequence(nodes) => nodes,
        other => panic!("unexpected root {:?}", other),
    };
    assert!(nodes.iter().any(|n| matches!(n, ContentNode::Rule)));
    fn has_space(n: &ContentNode<String>) -> bool {
        match n {
            ContentNode::Space => true,
            ContentNode::Paragraph(c) => c.iter().any(has_space),
            _ => false,
        }
    }
    fn has_break(n: &ContentNode<String>) -> bool {
        match n {
            ContentNode::LineBreak => true,
            ContentNode::Paragraph(c) => c.iter().any(has_break),
            _ => false,
        }
    }
    assert!(nodes.iter().any(has_space));
    assert!(nodes.iter().any(has_break));
}

#[test]
fn table_alignments_are_kept() {
    let tree = render_markdown("|a|b|c|d|\n|:-|:-:|-:|-|\n|1|2|3|4|\n", &EchoEval).unwrap();
    let nodes = match tree {
        ContentNode::Sequence(nodes) => nodes,
        other => panic!("unexpected root {:?}", other),
    };
    match flat(&nodes) {
        [ContentNode::Table { aligns, .. }] => {
            assert_eq!(
                vec![MdAlign::Left, MdAlign::Center, MdAlign::Right, MdAlign::Default],
                aligns.clone()
            );
        }
        other => panic!("unexpected document {:?}", other),
    }
}

#[test]
fn block_quote_wraps_its_content() {
    let tree = render_markdown("> quoted\n", &EchoEval).unwrap();
    let nodes = match tree {
        ContentNode::Sequence(nodes) => nodes,
        other => panic!("unexpected root {:?}", other),
    };
    assert!(nodes.iter().any(|n| matches!(n, ContentNode::BlockQuote(_))));
}

#[test]
fn stream_without_math_or_code_passes_through_unchanged() {
    let options = pulldown_cmark::Options::ENABLE_TABLES
        | pulldown_cmark::Options::ENABLE_SMART_PUNCTUATION
        | pulldown_cmark::Options::ENABLE_STRIKETHROUGH
        | pulldown_cmark::Options::ENABLE_MATH;
    let text = "# Title\n\nplain *text* and <b>html</b>\n\n|a|b|\n|-|-|\n|c|d|\n";
    let events: Vec<pulldown_cmark::Event> =
        pulldown_cmark::Parser::new_ext(text, options).collect();
    let (out, diags) = bedrock::render::html::assemble_html_events(&events, &EchoEval);
    assert!(diags.is_empty());
    assert_eq!(events, out);
}

#[test]
fn leftmost_fault_decides_the_error() {
    // Raw HTML stands before the image: the error is the HTML's.
    let r = render_markdown("a <b>x</b> then ![i](https://example.com/i.png)", &EchoEval);
    assert_eq!(Err(RenderError::UnsupportedHtml), r.map(|_| ()));

    // The image stands first: the error is the image's.
    let r = render_markdown("![i](https://example.com/i.png) then <b>x</b>", &EchoEval);
    assert_eq!(Err(RenderError::Unimplemented), r.map(|_| ()));
}
