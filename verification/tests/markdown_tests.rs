use terminal_velocity::markdown::MarkdownProcessor;

#[test]
fn test_basic_markdown() {
    let processor = MarkdownProcessor::new();
    let input = "# Hello\n\nThis is a test";
    let output = processor.render(input);
    assert!(output.contains("<h1>Hello</h1>"));
    assert!(output.contains("<p>This is a test</p>"));
}

#[test]
fn test_code_highlighting() {
    let processor = MarkdownProcessor::new();
    let input = "```rust\nfn main() {\n    println!(\"Hello\");\n}\n```";
    let output = processor.render(input);
    assert!(output.contains("highlight"));
    assert!(output.contains("language-rust"));
    assert!(output.contains("println!"));
}

#[test]
fn test_mixed_content() {
    let processor = MarkdownProcessor::new();
    let input = r#"# Test

Some text

```python
def hello():
    print("Hello")
```

More text"#;
    let output = processor.render(input);
    assert!(output.contains("<h1>"));
    assert!(output.contains("language-python"));
    assert!(output.contains("<p>Some text</p>"));
    assert!(output.contains("<p>More text</p>"));
}

#[test]
fn test_unknown_language() {
    let processor = MarkdownProcessor::new();
    let input = "```unknown-lang\nsome code\n```";
    let output = processor.render(input);
    assert!(output.contains("language-unknown-lang"));
    assert!(output.contains("some code"));
}

#[test]
fn test_inline_code() {
    let processor = MarkdownProcessor::new();
    let input = "This is `inline code`";
    let output = processor.render(input);
    assert!(output.contains("<code>inline code</code>"));
}

#[test]
fn test_python_block_marker_and_escaping() {
    let processor = MarkdownProcessor::new();
    let input = "```python\nif a < b:\n    print(a)\n```";
    let output = processor.render(input);
    assert!(output.contains("language-python"));
    assert!(output.contains("&lt;"), "the source text is escaped in the output");
    assert!(output.contains("print"));
}

#[test]
fn test_highlighting_adds_markup() {
    let processor = MarkdownProcessor::new();
    let input = "```rust\nlet x = 1;\n```";
    let output = processor.render(input);
    assert!(
        output.contains("<span"),
        "highlighting must annotate the code, not hand it back unchanged"
    );
}

#[test]
fn test_render_strips_leading_header_block() {
    let processor = MarkdownProcessor::new();
    let input = "---\ntitle: \"X\"\n---\n\n# Body";
    let output = processor.render(input);
    assert!(output.contains("<h1>Body</h1>"));
    assert!(!output.contains("title"));
}

#[test]
fn test_strikethrough_and_tables() {
    let processor = MarkdownProcessor::new();
    let output = processor.render("~~gone~~");
    assert!(output.contains("<del>gone</del>"));
    let table = "| a | b |\n|---|---|\n| 1 | 2 |";
    let output = processor.render(table);
    assert!(output.contains("<table>"));
}
