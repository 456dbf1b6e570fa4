use highlight_pulldown::{
    first_unmatched_end, has_plain_text, highlight, try_highlight, CodeBlockKind, Error, Event,
    PulldownHighlighter, Registry,
};
use syntect::highlighting::{Theme, ThemeSet};
use syntect::html::highlighted_html_for_string;
use syntect::parsing::{SyntaxDefinition, SyntaxSet, SyntaxSetBuilder};

type Doc = Vec<Event<u32>>;

fn theme() -> Theme {
    ThemeSet::load_defaults().themes["base16-ocean.dark"].clone()
}

fn text(s: &str) -> Event<u32> {
    Event::Text(s.to_string())
}

fn fenced(token: &str) -> Event<u32> {
    Event::StartCodeBlock(CodeBlockKind::Fenced(token.to_string()))
}

fn indented() -> Event<u32> {
    Event::StartCodeBlock(CodeBlockKind::Indented)
}

fn render(syntax_set: &SyntaxSet, token: Option<&str>, code: &str) -> String {
    let syntax = match token {
        Some(token) => syntax_set.find_syntax_by_token(token).unwrap(),
        None => syntax_set.find_syntax_plain_text(),
    };
    highlighted_html_for_string(code, syntax_set, syntax, &theme()).unwrap()
}

/// A registry with a plain-text definition and one whose only rule pushes a
/// context that no definition provides, so that rendering an `x` fails.
fn registry_with_a_broken_syntax() -> SyntaxSet {
    let broken = "%YAML 1.2\n---\nname: Broken\nfile_extensions: [broken]\nscope: source.broken\ncontexts:\n  main:\n    - match: 'x'\n      push: scope:source.missing\n";
    let mut builder = SyntaxSetBuilder::new();
    builder.add_plain_text_syntax();
    builder.add(SyntaxDefinition::load_from_str(broken, true, None).unwrap());
    builder.build()
}

#[test]
fn scenario_python_block_between_texts() {
    let syntax_set = SyntaxSet::load_defaults_newlines();
    let input: Doc = vec![text("intro"), fenced("python"), text("print(1)"), Event::EndCodeBlock, text("outro")];
    let output = highlight(&syntax_set, &theme(), input).unwrap();
    let page = render(&syntax_set, Some("python"), "print(1)");
    assert_ne!(page, "print(1)");
    assert_ne!(page, render(&syntax_set, None, "print(1)"));
    assert_eq!(output, vec![text("intro"), Event::Html(page), text("outro")]);
}

#[test]
fn scenario_unknown_language_is_rendered_as_plain_text() {
    let syntax_set = SyntaxSet::load_defaults_newlines();
    assert!(syntax_set.find_syntax_by_token("nonexistent-lang").is_none());
    let input: Doc = vec![fenced("nonexistent-lang"), text("x=1"), Event::EndCodeBlock];
    let output = highlight(&syntax_set, &theme(), input).unwrap();
    assert_eq!(output, vec![Event::Html(render(&syntax_set, None, "x=1"))]);
}

#[test]
fn plain_text_page_is_exact() {
    let syntax_set = SyntaxSet::load_defaults_newlines();
    let input: Doc = vec![indented(), text("a < b\n"), Event::EndCodeBlock];
    let output = highlight(&syntax_set, &theme(), input).unwrap();
    let expected = "<pre style=\"background-color:#2b303b;\">\n<span style=\"color:#c0c5ce;\">a &lt; b\n</span></pre>\n";
    assert_eq!(output, vec![Event::Html(expected.to_string())]);
}

#[test]
fn document_without_code_blocks_passes_through() {
    let syntax_set = SyntaxSet::load_defaults_newlines();
    let input: Doc = vec![
        Event::Other(1),
        text("one"),
        text("two"),
        Event::Html("<hr>".to_string()),
        Event::Other(2),
        text(""),
        Event::Other(1),
    ];
    let output = highlight(&syntax_set, &theme(), input.clone()).unwrap();
    assert_eq!(output, input);
}

#[test]
fn empty_document_gives_empty_output() {
    let syntax_set = SyntaxSet::load_defaults_newlines();
    let output = highlight(&syntax_set, &theme(), Doc::new()).unwrap();
    assert_eq!(output, Doc::new());
}

#[test]
fn text_fragments_of_a_block_are_joined_in_order() {
    let syntax_set = SyntaxSet::load_defaults_newlines();
    let input: Doc = vec![
        fenced("rs"),
        text("fn f() {\n"),
        text("    1\n"),
        text("}\n"),
        Event::EndCodeBlock,
    ];
    let output = highlight(&syntax_set, &theme(), input).unwrap();
    let page = render(&syntax_set, Some("rs"), "fn f() {\n    1\n}\n");
    assert_eq!(output, vec![Event::Html(page)]);
}

#[test]
fn empty_block_is_rendered_from_empty_text() {
    let syntax_set = SyntaxSet::load_defaults_newlines();
    let input: Doc = vec![indented(), Event::EndCodeBlock];
    let output = highlight(&syntax_set, &theme(), input).unwrap();
    let expected = "<pre style=\"background-color:#2b303b;\">\n</pre>\n";
    assert_eq!(output, vec![Event::Html(expected.to_string())]);
}

#[test]
fn forwarded_events_keep_their_order() {
    let syntax_set = SyntaxSet::load_defaults_newlines();
    let input: Doc = vec![
        Event::Other(10),
        text("a"),
        indented(),
        text("code"),
        Event::Other(11),
        Event::EndCodeBlock,
        text("b"),
        Event::Other(12),
    ];
    let output = highlight(&syntax_set, &theme(), input).unwrap();
    let page = render(&syntax_set, None, "code");
    assert_eq!(
        output,
        vec![Event::Other(10), text("a"), Event::Other(11), Event::Html(page), text("b"), Event::Other(12)]
    );
}

#[test]
fn two_blocks_are_rendered_each_on_its_own() {
    let syntax_set = SyntaxSet::load_defaults_newlines();
    let input: Doc = vec![
        fenced("python"),
        text("x = 1\n"),
        Event::EndCodeBlock,
        text("between"),
        fenced("rust"),
        text("let x = 1;\n"),
        Event::EndCodeBlock,
    ];
    let output = highlight(&syntax_set, &theme(), input).unwrap();
    assert_eq!(
        output,
        vec![
            Event::Html(render(&syntax_set, Some("python"), "x = 1\n")),
            text("between"),
            Event::Html(render(&syntax_set, Some("rust"), "let x = 1;\n")),
        ]
    );
}

#[test]
fn plain_first_block_leaves_second_block_plain() {
    let syntax_set = SyntaxSet::load_defaults_newlines();
    let input: Doc = vec![
        fenced("no-such-language"),
        text("let x = 1;\n"),
        Event::EndCodeBlock,
        indented(),
        text("let y = 2;\n"),
        Event::EndCodeBlock,
    ];
    let output = highlight(&syntax_set, &theme(), input).unwrap();
    assert_eq!(
        output,
        vec![
            Event::Html(render(&syntax_set, None, "let x = 1;\n")),
            Event::Html(render(&syntax_set, None, "let y = 2;\n")),
        ]
    );
}

#[test]
fn selected_syntax_stays_for_a_block_that_selects_none() {
    let syntax_set = SyntaxSet::load_defaults_newlines();
    let input: Doc = vec![
        fenced("rust"),
        text("let x = 1;\n"),
        Event::EndCodeBlock,
        indented(),
        text("let y = 2;\n"),
        Event::EndCodeBlock,
        fenced("no-such-language"),
        text("let z = 3;\n"),
        Event::EndCodeBlock,
    ];
    let output = highlight(&syntax_set, &theme(), input).unwrap();
    assert_ne!(
        render(&syntax_set, Some("rust"), "let y = 2;\n"),
        render(&syntax_set, None, "let y = 2;\n")
    );
    assert_eq!(
        output,
        vec![
            Event::Html(render(&syntax_set, Some("rust"), "let x = 1;\n")),
            Event::Html(render(&syntax_set, Some("rust"), "let y = 2;\n")),
            Event::Html(render(&syntax_set, Some("rust"), "let z = 3;\n")),
        ]
    );
}

#[test]
fn every_call_starts_from_plain_text() {
    let theme = theme();
    let highlighter = PulldownHighlighter::new(SyntaxSet::load_defaults_newlines(), &theme);
    let syntax_set = SyntaxSet::load_defaults_newlines();
    let first: Doc = vec![fenced("rust"), text("let x = 1;\n"), Event::EndCodeBlock];
    let second: Doc = vec![indented(), text("let y = 2;\n"), Event::EndCodeBlock];
    assert_eq!(
        highlighter.highlight(first).unwrap(),
        vec![Event::Html(render(&syntax_set, Some("rust"), "let x = 1;\n"))]
    );
    assert_eq!(
        highlighter.highlight(second.clone()).unwrap(),
        vec![Event::Html(render(&syntax_set, None, "let y = 2;\n"))]
    );
    assert_eq!(highlighter.highlight(second.clone()).unwrap(), highlight(&syntax_set, &theme, second).unwrap());
}

#[test]
fn text_of_a_block_left_open_is_not_written() {
    let syntax_set = SyntaxSet::load_defaults_newlines();
    let input: Doc = vec![text("a"), indented(), text("lost"), Event::Other(3)];
    let output = highlight(&syntax_set, &theme(), input).unwrap();
    assert_eq!(output, vec![text("a"), Event::Other(3)]);
}

#[test]
fn second_start_before_an_end_reselects_and_keeps_the_text() {
    let syntax_set = SyntaxSet::load_defaults_newlines();
    let input: Doc = vec![indented(), text("a = 1\n"), fenced("python"), text("b = 2\n"), Event::EndCodeBlock];
    assert_eq!(first_unmatched_end(&input), None);
    let output = highlight(&syntax_set, &theme(), input).unwrap();
    assert_eq!(output, vec![Event::Html(render(&syntax_set, Some("python"), "a = 1\nb = 2\n"))]);
}

#[test]
fn engine_failure_is_returned_and_no_events() {
    let syntax_set = registry_with_a_broken_syntax();
    assert!(has_plain_text(&syntax_set));
    let input: Doc = vec![text("kept?"), fenced("broken"), text("x\n"), Event::EndCodeBlock, text("after")];
    let result = highlight(&syntax_set, &theme(), input);
    match result {
        Err(Error::HighlightError(syntect::Error::ParsingError(_))) => {}
        other => panic!("expected a failure of the engine, got {:?}", other),
    }
}

#[test]
fn first_engine_failure_wins() {
    let syntax_set = registry_with_a_broken_syntax();
    let input: Doc = vec![
        fenced("broken"),
        text("fine\n"),
        Event::EndCodeBlock,
        fenced("broken"),
        text("x\n"),
        Event::EndCodeBlock,
    ];
    let error = highlight(&syntax_set, &theme(), input).unwrap_err();
    assert_eq!(error.message(), "error highlighting code");
    let good: Doc = vec![fenced("broken"), text("fine\n"), Event::EndCodeBlock];
    assert_eq!(highlight(&syntax_set, &theme(), good).unwrap().len(), 1);
}

#[test]
fn error_messages() {
    assert_eq!(Error::InvalidTheme("solar".to_string()).message(), "theme 'solar' is not available");
    assert_eq!(Error::InvalidTheme(String::new()).message(), "theme '' is not available");
    let failure = syntect::Error::Fmt(std::fmt::Error);
    assert_eq!(Error::HighlightError(failure).message(), "error highlighting code");
}

#[test]
fn engine_error_converts_to_highlight_error() {
    let error = Error::from(syntect::Error::Fmt(std::fmt::Error));
    assert!(matches!(error, Error::HighlightError(syntect::Error::Fmt(_))));
}

#[test]
fn first_unmatched_end_is_found() {
    assert_eq!(first_unmatched_end(&Doc::new()), None);
    assert_eq!(first_unmatched_end(&vec![text("a"), Event::Other(1)]), None);
    assert_eq!(
        first_unmatched_end(&vec![indented(), Event::EndCodeBlock, fenced("c"), text("x"), Event::EndCodeBlock]),
        None
    );
    assert_eq!(first_unmatched_end(&vec![indented(), text("still open")]), None);
    assert_eq!(first_unmatched_end(&vec![Event::<u32>::EndCodeBlock]), Some(0));
    assert_eq!(first_unmatched_end(&vec![text("a"), Event::EndCodeBlock]), Some(1));
    assert_eq!(
        first_unmatched_end(&vec![indented(), Event::EndCodeBlock, text("a"), Event::EndCodeBlock, Event::EndCodeBlock]),
        Some(3)
    );
    assert_eq!(
        first_unmatched_end(&vec![indented(), indented(), Event::EndCodeBlock, Event::EndCodeBlock]),
        Some(3)
    );
}

#[test]
fn plain_text_definition_is_recognised() {
    assert!(has_plain_text(&SyntaxSet::load_defaults_newlines()));
    assert!(!has_plain_text(&SyntaxSet::new()));
    let mut builder = SyntaxSetBuilder::new();
    builder.add_plain_text_syntax();
    assert!(has_plain_text(&builder.build()));
}

#[test]
fn try_highlight_refuses_what_highlight_does_not_take() {
    let theme = theme();
    let defaults = Registry::load_defaults_newlines();
    let unmatched: Doc = vec![text("a"), Event::EndCodeBlock];
    assert!(try_highlight(&defaults, &theme, unmatched).is_none());
    let fine: Doc = vec![text("a")];
    assert!(try_highlight(&Registry::new(), &theme, fine.clone()).is_none());
    assert_eq!(try_highlight(&defaults, &theme, fine.clone()).unwrap().unwrap(), fine);
}

#[test]
fn try_highlight_agrees_with_highlight() {
    let theme = theme();
    let registry = Registry::load_defaults_newlines();
    let input: Doc = vec![text("intro"), fenced("python"), text("print(1)"), Event::EndCodeBlock];
    let expected = highlight(registry.as_syntax_set(), &theme, input.clone()).unwrap();
    assert_eq!(expected.len(), 2);
    assert_eq!(try_highlight(&registry, &theme, input).unwrap().unwrap(), expected);
}

#[test]
fn registry_of_defaults_is_the_engines_own() {
    let registry = Registry::load_defaults_newlines();
    let defaults = SyntaxSet::load_defaults_newlines();
    assert!(has_plain_text(registry.as_syntax_set()));
    assert_eq!(registry.as_syntax_set().syntaxes().len(), defaults.syntaxes().len());
    assert!(registry.as_syntax_set().syntaxes().len() > 1);
    let input: Doc = vec![fenced("rust"), text("let x = 1;\n"), Event::EndCodeBlock];
    let page = render(&defaults, Some("rust"), "let x = 1;\n");
    assert_eq!(highlight(registry.as_syntax_set(), &theme(), input.clone()).unwrap(), vec![Event::Html(page.clone())]);
    let theme = theme();
    let highlighter = PulldownHighlighter::new(registry.into_syntax_set(), &theme);
    assert_eq!(highlighter.highlight(input).unwrap(), vec![Event::Html(page)]);
}

#[test]
fn empty_registry_holds_no_definition() {
    let registry = Registry::new();
    assert!(!has_plain_text(registry.as_syntax_set()));
    assert!(registry.as_syntax_set().syntaxes().is_empty());
    assert!(registry.into_syntax_set().syntaxes().is_empty());
}

#[test]
fn token_is_looked_up_by_extension_and_by_name() {
    let syntax_set = SyntaxSet::load_defaults_newlines();
    let by_extension: Doc = vec![fenced("py"), text("x = 1\n"), Event::EndCodeBlock];
    let by_name: Doc = vec![fenced("PYTHON"), text("x = 1\n"), Event::EndCodeBlock];
    let page = Event::Html(render(&syntax_set, Some("python"), "x = 1\n"));
    assert_eq!(highlight(&syntax_set, &theme(), by_extension).unwrap(), vec![page.clone()]);
    assert_eq!(highlight(&syntax_set, &theme(), by_name).unwrap(), vec![page]);
}
