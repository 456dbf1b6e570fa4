use highlight_pulldown::{CodeBlockKind, Event, PulldownHighlighter};
use pulldown_cmark::CowStr;
use syntect::highlighting::ThemeSet;
use syntect::parsing::SyntaxSet;

type Parsed<'a> = pulldown_cmark::Event<'a>;

fn read<'a>(event: Parsed<'a>) -> Event<Parsed<'a>> {
    match event {
        Parsed::Start(pulldown_cmark::Tag::CodeBlock(kind)) => Event::StartCodeBlock(match kind {
            pulldown_cmark::CodeBlockKind::Fenced(lang) => CodeBlockKind::Fenced(lang.to_string()),
            pulldown_cmark::CodeBlockKind::Indented => CodeBlockKind::Indented,
        }),
        Parsed::End(pulldown_cmark::Tag::CodeBlock(_)) => Event::EndCodeBlock,
        Parsed::Text(text) => Event::Text(text.to_string()),
        other => Event::Other(other),
    }
}

fn write<'a>(event: Event<Parsed<'a>>) -> Parsed<'a> {
    match event {
        Event::Text(text) => Parsed::Text(CowStr::from(text)),
        Event::Html(markup) => Parsed::Html(CowStr::from(markup)),
        Event::Other(other) => other,
        Event::StartCodeBlock(_) | Event::EndCodeBlock => {
            unreachable!("a pass writes no start or end of a code block")
        }
    }
}

#[test]
fn without_theme() {
    let markdown = r#"
      ```python
      print("foo", 42)
      ```
   "#;

    let events = pulldown_cmark::Parser::new(markdown);

    let theme_set = ThemeSet::load_defaults();
    let theme = theme_set.themes.get("base16-ocean.dark").unwrap();
    let highlighter = PulldownHighlighter::new(SyntaxSet::load_defaults_newlines(), &theme);
    let events = highlighter.highlight(events.map(read).collect()).unwrap();

    let mut html = String::new();
    pulldown_cmark::html::push_html(&mut html, events.into_iter().map(write));

    let expected = r#"<pre style="background-color:#2b303b;">
<span style="color:#c0c5ce;">  ```python
</span><span style="color:#c0c5ce;">  print(&quot;foo&quot;, 42)
</span><span style="color:#c0c5ce;">  ```
</span></pre>
"#;
    assert_eq!(html, expected);
}

#[test]
fn fenced_markdown_is_highlighted_and_the_rest_kept() {
    let markdown = "# Title\n\n```rust\nfn main() {}\n```\n\nBye *now*.\n";
    let theme_set = ThemeSet::load_defaults();
    let theme = &theme_set.themes["InspiredGitHub"];
    let syntax_set = SyntaxSet::load_defaults_newlines();
    let page = syntect::html::highlighted_html_for_string(
        "fn main() {}\n",
        &syntax_set,
        syntax_set.find_syntax_by_token("rust").unwrap(),
        theme,
    )
    .unwrap();

    let parsed: Vec<Parsed> = pulldown_cmark::Parser::new(markdown).collect();
    let highlighter = PulldownHighlighter::new(syntax_set, theme);
    let written: Vec<Parsed> = highlighter
        .highlight(parsed.iter().cloned().map(read).collect())
        .unwrap()
        .into_iter()
        .map(write)
        .collect();

    let block_at = parsed
        .iter()
        .position(|event| matches!(event, Parsed::Start(pulldown_cmark::Tag::CodeBlock(_))))
        .unwrap();
    let mut expected: Vec<Parsed> = parsed[..block_at].to_vec();
    expected.push(Parsed::Html(CowStr::from(page)));
    expected.extend(parsed[block_at + 3..].iter().cloned());
    assert!(matches!(parsed[block_at + 2], Parsed::End(pulldown_cmark::Tag::CodeBlock(_))));
    assert_eq!(written, expected);
}
