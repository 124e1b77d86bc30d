use terminal_velocity::config::Config;
use terminal_velocity::date::validate_date;
use terminal_velocity::errors::Error;
use terminal_velocity::markdown::MarkdownProcessor;
use terminal_velocity::post::{create_new_post, Post};
use terminal_velocity::slug::slugify;

fn test_config(site_dir: &str) -> Config {
    let mut config = Config::default();
    config.site_dir = site_dir.to_string();
    config
}

#[test]
fn test_slugify() {
    let test_cases = vec![
        ("Hello World!", "hello-world"),
        ("Test 123", "test-123"),
        ("Multiple   Spaces", "multiple-spaces"),
        ("special#@!characters", "specialcharacters"),
        ("trailing-dash-", "trailing-dash"),
        ("-leading-dash", "leading-dash"),
        ("mixed_CASE_123", "mixed-case-123"),
        ("", ""),
        ("   ", ""),
        ("###", ""),
    ];

    for (input, expected) in test_cases {
        assert_eq!(slugify(input), expected);
    }
}

#[test]
fn test_validate_date() {
    assert!(validate_date("2024-01-01"));

    let invalid_cases = ["2024/01/01", "01-01-2024", "2024-13-01", "not-a-date"];
    for invalid in invalid_cases {
        assert!(!validate_date(invalid));
    }
}

#[test]
fn test_leap_year_dates() {
    assert!(validate_date("2024-02-29"));
    assert!(!validate_date("2023-02-29"));
    assert!(validate_date("2000-02-29"));
    assert!(!validate_date("1900-02-29"));
    assert!(!validate_date("2024-04-31"));
}

#[test]
fn test_create_new_post() {
    let config = test_config("/site");

    let title = "Test Post Title";
    let plan = create_new_post(&config, title, "2024-01-01", None).unwrap();

    assert_eq!(plan.path, "/site/posts/2024-01-01-test-post-title.md");
    assert!(plan.content.contains("title: \"Test Post Title\""));
    assert!(plan.content.contains("slug: \"test-post-title\""));
    assert!(plan.content.contains("date: "));
    assert!(plan.content.contains("Write your post content here..."));
}

#[test]
fn test_empty_title_error() {
    let config = test_config("/site");
    let result = create_new_post(&config, "###", "2024-01-01", None);
    assert!(result.is_err());
}

#[test]
fn test_post_metadata_deserialization() {
    let yaml = r#"---
title: "Test Post"
date: "2024-01-01"
author: "Test Author"
tags: ["tag1", "tag2"]
preview: "Test preview"
slug: "test-post"
---"#;

    let md_proc = MarkdownProcessor::new();
    let post = Post::new_from_path("test.md", yaml, &md_proc).unwrap();

    assert_eq!(post.metadata.title, "Test Post");
    assert_eq!(post.metadata.date, "2024-01-01");
    assert_eq!(post.metadata.author, "Test Author");
    assert_eq!(post.metadata.tags, vec!["tag1", "tag2"]);
    assert_eq!(post.metadata.preview, "Test preview");
    assert_eq!(post.metadata.slug, "test-post");
}

#[test]
fn test_post_metadata_defaults() {
    let yaml = r#"---
title: "Test Post"
date: "2024-01-01"
slug: "test-post"
---"#;

    let md_proc = MarkdownProcessor::new();
    let post = Post::new_from_path("test.md", yaml, &md_proc).unwrap();

    assert_eq!(post.metadata.author, "Anonymous");
    assert!(post.metadata.tags.is_empty());
    assert_eq!(post.metadata.preview, "");
}

#[test]
fn test_read_time_in_post_metadata() {
    let content = r#"---
title: "Test Post"
date: "2024-01-01"
slug: "test-post"
---

This is a test post with enough words to make it take at least one minute to read.
Let's add some more text to make sure we have enough content to test the read time calculation.
We'll keep adding words until we have enough for a proper test of the functionality."#;

    let md_proc = MarkdownProcessor::new();
    let post = Post::new_from_path("test-post.md", content, &md_proc).unwrap();

    assert!(
        post.metadata.read_time > 0,
        "Read time should be calculated and greater than 0"
    );
}

#[test]
fn test_missing_delimiter_names_file() {
    let md_proc = MarkdownProcessor::new();
    let content = "title: \"No Header Block\"\njust text";
    let err = Post::new_from_path("broken.md", content, &md_proc).unwrap_err();
    match err {
        Error::Frontmatter { file, message } => {
            assert_eq!(file, "broken.md");
            assert_eq!(message, "missing metadata delimiter");
        }
        _ => panic!("expected a frontmatter error"),
    }
}

#[test]
fn test_bad_date_names_file() {
    let md_proc = MarkdownProcessor::new();
    let content = "---\ntitle: \"Post\"\ndate: 2024-13-01\nslug: \"post\"\n---\nbody";
    let err = Post::new_from_path("bad-date.md", content, &md_proc).unwrap_err();
    match err {
        Error::Frontmatter { file, message } => {
            assert_eq!(file, "bad-date.md");
            assert_eq!(message, "Invalid date format. Expected YYYY-MM-DD");
        }
        _ => panic!("expected a frontmatter error"),
    }
}

#[test]
fn test_missing_title_rejected() {
    let md_proc = MarkdownProcessor::new();
    let content = "---\ndate: 2024-01-01\nslug: \"post\"\n---\nbody";
    let err = Post::new_from_path("untitled.md", content, &md_proc).unwrap_err();
    match err {
        Error::Frontmatter { file, message } => {
            assert_eq!(file, "untitled.md");
            assert_eq!(message, "missing field: title");
        }
        _ => panic!("expected a frontmatter error"),
    }
}

#[test]
fn test_empty_slug_rejected() {
    let md_proc = MarkdownProcessor::new();
    let content = "---\ntitle: \"Post\"\ndate: 2024-01-01\nslug: \"###\"\n---\nbody";
    let err = Post::new_from_path("no-slug.md", content, &md_proc).unwrap_err();
    match err {
        Error::Frontmatter { message, .. } => {
            assert_eq!(message, "Slug cannot be empty");
        }
        _ => panic!("expected a frontmatter error"),
    }
}

#[test]
fn test_loaded_slug_is_normalized() {
    let md_proc = MarkdownProcessor::new();
    let content = "---\ntitle: \"Post\"\ndate: 2024-01-01\nslug: \"My Fancy Slug\"\n---\nbody";
    let post = Post::new_from_path("post.md", content, &md_proc).unwrap();
    assert_eq!(post.metadata.slug, "my-fancy-slug");
    assert!(post.metadata.read_time >= 1);
}

#[test]
fn test_read_time_excludes_code_blocks() {
    let md_proc = MarkdownProcessor::new();
    let few_words = "short body";
    let mut many_code_lines = String::from("```\n");
    for _ in 0..1000 {
        many_code_lines.push_str("let x = some_function_call(with, many, words, inside);\n");
    }
    many_code_lines.push_str("```\n");
    let content = format!(
        "---\ntitle: \"Post\"\ndate: 2024-01-01\nslug: \"post\"\n---\n{}\n{}",
        few_words, many_code_lines
    );
    let post = Post::new_from_path("post.md", &content, &md_proc).unwrap();
    assert_eq!(post.metadata.read_time, 1);
}

#[test]
fn test_read_time_excludes_inline_code_spans() {
    let md_proc = MarkdownProcessor::new();
    let mut span = String::from("only four words here `");
    for _ in 0..2000 {
        span.push_str("word ");
    }
    span.push('`');
    let content = format!(
        "---\ntitle: \"Post\"\ndate: 2024-01-01\nslug: \"post\"\n---\n{}",
        span
    );
    let post = Post::new_from_path("post.md", &content, &md_proc).unwrap();
    assert_eq!(post.metadata.read_time, 1);
}

#[test]
fn test_process_asset_paths() {
    let md_proc = MarkdownProcessor::new();
    let content = "---\ntitle: \"Post\"\ndate: 2024-01-01\nslug: \"test-post\"\n---\n![Image](./assets/pic.png)";
    let mut post = Post::new_from_path("post.md", content, &md_proc).unwrap();
    let config = test_config("/site");
    post.process_asset_paths(&config);
    assert!(post.content.contains("/posts/test-post/assets/pic.png"));
    assert!(!post.content.contains("./assets/"));
    assert!(post.html_content.contains("/posts/test-post/assets/pic.png"));
}

#[test]
fn test_assets_dirs() {
    let md_proc = MarkdownProcessor::new();
    let content = "---\ntitle: \"Post\"\ndate: 2024-01-01\nslug: \"test-post\"\n---\nbody";
    let post = Post::new_from_path("post.md", content, &md_proc).unwrap();
    let config = test_config("/site");
    assert_eq!(post.assets_dir(&config), "/site/posts/test-post/assets");
    assert_eq!(
        post.assets_output_dir(&config),
        "/site/dist/posts/test-post/assets"
    );
}
