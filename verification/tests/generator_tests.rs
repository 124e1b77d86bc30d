use terminal_velocity::config::Config;
use terminal_velocity::errors::Error;
use terminal_velocity::generator::{
    rebuild_site, sort_posts, SiteGenerator, SourceFile, TemplateSource,
};

fn gen_test_config(site_dir: &str) -> Config {
    let mut config = Config::default();
    config.site_dir = site_dir.to_string();
    config.base_url = "http://localhost:8000".to_string();
    config.title = "Test Blog".to_string();
    config.description = "Test Description".to_string();
    config.author.name = "Test Author".to_string();
    config.author.email = "test@example.com".to_string();
    config.server.port = 8000;
    config
}

fn gen_test_templates() -> Vec<TemplateSource> {
    vec![
        TemplateSource {
            name: "base.html".to_string(),
            content: "{% block content %}{% endblock %}".to_string(),
        },
        TemplateSource {
            name: "post.html".to_string(),
            content: "{% extends \"base.html\" %}{% block content %}{{ post.html_content | safe }}{% endblock %}"
                .to_string(),
        },
        TemplateSource {
            name: "index.html".to_string(),
            content: "{% extends \"base.html\" %}{% block content %}{% for post in posts %}{{ post.metadata.title }}{% endfor %}{% endblock %}"
                .to_string(),
        },
    ]
}

fn gen_test_post_source() -> SourceFile {
    SourceFile {
        path: "/site/posts/test-post/post.md".to_string(),
        content: r#"---
title: "Test Post"
date: 2024-01-01
author: "Test Author"
tags: ["test"]
preview: "Test preview"
slug: "test-post"
---
# Test Content
Test body

![Test Image](./assets/test-image.txt)"#
            .to_string(),
    }
}

#[test]
fn test_site_generator_initialization() {
    let config = gen_test_config("/site");
    let generator = SiteGenerator::new(config, Some(gen_test_templates()));
    assert!(generator.is_ok());
}

#[test]
fn test_read_posts() {
    let config = gen_test_config("/site");
    let generator = SiteGenerator::new(config, Some(gen_test_templates())).unwrap();

    let posts = generator.read_posts(&vec![gen_test_post_source()]).unwrap();
    assert_eq!(posts.len(), 1);
    assert_eq!(posts[0].metadata.title, "Test Post");
    assert_eq!(posts[0].metadata.date, "2024-01-01");
}

#[test]
fn test_generate_post_page() {
    let config = gen_test_config("/site");
    let generator = SiteGenerator::new(config, Some(gen_test_templates())).unwrap();

    let plan = generator.generate_site(&vec![gen_test_post_source()]).unwrap();
    assert!(plan
        .pages
        .iter()
        .any(|p| p.path == "/site/dist/posts/test-post/index.html"));
}

#[test]
fn test_generate_index_page() {
    let config = gen_test_config("/site");
    let generator = SiteGenerator::new(config, Some(gen_test_templates())).unwrap();

    let plan = generator.generate_site(&vec![gen_test_post_source()]).unwrap();
    assert!(plan.pages.iter().any(|p| p.path == "/site/dist/index.html"));
}

#[test]
fn test_generate_site() {
    let config = gen_test_config("/site");
    let generator = SiteGenerator::new(config, Some(gen_test_templates())).unwrap();

    let plan = generator.generate_site(&vec![gen_test_post_source()]).unwrap();

    assert!(plan
        .pages
        .iter()
        .any(|p| p.path == "/site/dist/posts/test-post/index.html"));
    assert!(plan.pages.iter().any(|p| p.path == "/site/dist/index.html"));
    assert_eq!(plan.static_copy.source_dir, "/site/static");
    assert_eq!(plan.static_copy.dest_dir, "/site/dist");
    assert_eq!(plan.asset_copies.len(), 1);
    assert_eq!(
        plan.asset_copies[0].source_dir,
        "/site/posts/test-post/assets"
    );
    assert_eq!(
        plan.asset_copies[0].dest_dir,
        "/site/dist/posts/test-post/assets"
    );
}

#[test]
fn test_end_to_end_single_post() {
    let mut config = gen_test_config("/site");
    config.build.output_dir = "output".to_string();
    let templates = vec![
        TemplateSource {
            name: "post.html".to_string(),
            content: "<h1>{{ post.metadata.title }}</h1>{{ post.html_content | safe }}".to_string(),
        },
        TemplateSource {
            name: "index.html".to_string(),
            content: "<ul>{% for post in posts %}<li>{{ post.metadata.title }}</li>{% endfor %}</ul>"
                .to_string(),
        },
    ];
    let source = SourceFile {
        path: "/site/posts/test-post.md".to_string(),
        content: "---\ntitle: \"Test Post\"\ndate: 2024-01-01\nslug: \"test-post\"\n---\nHello world."
            .to_string(),
    };
    let generator = SiteGenerator::new(config, Some(templates)).unwrap();
    let plan = generator.generate_site(&vec![source]).unwrap();

    let post_page = plan
        .pages
        .iter()
        .find(|p| p.path == "/site/output/posts/test-post/index.html")
        .expect("the post page is planned");
    assert!(post_page.content.contains("Test Post"));

    let index_page = plan
        .pages
        .iter()
        .find(|p| p.path == "/site/output/index.html")
        .expect("the listing page is planned");
    assert!(index_page.content.contains("Test Post"));
}

#[test]
fn test_post_sorting() {
    let config = gen_test_config("/site");
    let generator = SiteGenerator::new(config, Some(gen_test_templates())).unwrap();

    let old_post = SourceFile {
        path: "/site/posts/old-post.md".to_string(),
        content: "---\ntitle: \"Old Post\"\ndate: 2023-12-31\nslug: \"old-post\"\n---\nOld content"
            .to_string(),
    };
    let new_post = SourceFile {
        path: "/site/posts/new-post.md".to_string(),
        content: "---\ntitle: \"New Post\"\ndate: 2024-01-02\nslug: \"new-post\"\n---\nNew content"
            .to_string(),
    };
    let posts = generator
        .read_posts(&vec![gen_test_post_source(), old_post, new_post])
        .unwrap();
    assert_eq!(posts.len(), 3);

    let sorted_posts = sort_posts(posts);

    assert_eq!(sorted_posts[0].metadata.date, "2024-01-02");
    assert_eq!(sorted_posts[1].metadata.date, "2024-01-01");
    assert_eq!(sorted_posts[2].metadata.date, "2023-12-31");
}

#[test]
fn test_sort_is_stable_for_equal_dates() {
    let config = gen_test_config("/site");
    let generator = SiteGenerator::new(config, Some(gen_test_templates())).unwrap();
    let first = SourceFile {
        path: "/site/posts/a.md".to_string(),
        content: "---\ntitle: \"First\"\ndate: 2024-01-01\nslug: \"first\"\n---\nx".to_string(),
    };
    let second = SourceFile {
        path: "/site/posts/b.md".to_string(),
        content: "---\ntitle: \"Second\"\ndate: 2024-01-01\nslug: \"second\"\n---\ny".to_string(),
    };
    let posts = generator.read_posts(&vec![first, second]).unwrap();
    let sorted = sort_posts(posts);
    assert_eq!(sorted[0].metadata.slug, "first");
    assert_eq!(sorted[1].metadata.slug, "second");
}

#[test]
fn test_error_handling_missing_template() {
    let config = gen_test_config("/site");
    let result = SiteGenerator::new(config, None);

    assert!(matches!(result, Err(Error::Template(_))));
    if let Err(e) = result {
        assert!(e
            .describe()
            .contains("Templates directory does not exist"));
    } else {
        panic!("Expected Template error");
    }
}

#[test]
fn test_generate_site_aborts_on_bad_source() {
    let config = gen_test_config("/site");
    let generator = SiteGenerator::new(config, Some(gen_test_templates())).unwrap();
    let bad = SourceFile {
        path: "/site/posts/broken.md".to_string(),
        content: "no header at all".to_string(),
    };
    let err = generator
        .generate_site(&vec![gen_test_post_source(), bad])
        .unwrap_err();
    match err {
        Error::Frontmatter { file, .. } => assert_eq!(file, "/site/posts/broken.md"),
        _ => panic!("expected a frontmatter error"),
    }
}

#[test]
fn test_slug_collisions_are_not_deduplicated() {
    // Slug uniqueness is not enforced: two documents sharing a slug are both
    // planned at the same output path, and the later write silently
    // overwrites the earlier one. A known, preserved limitation.
    let config = gen_test_config("/site");
    let generator = SiteGenerator::new(config, Some(gen_test_templates())).unwrap();
    let a = SourceFile {
        path: "/site/posts/a.md".to_string(),
        content: "---\ntitle: \"A\"\ndate: 2024-01-01\nslug: \"same\"\n---\na".to_string(),
    };
    let b = SourceFile {
        path: "/site/posts/b.md".to_string(),
        content: "---\ntitle: \"B\"\ndate: 2024-01-02\nslug: \"same\"\n---\nb".to_string(),
    };
    let plan = generator.generate_site(&vec![a, b]).unwrap();
    let same_path: Vec<_> = plan
        .pages
        .iter()
        .filter(|p| p.path == "/site/dist/posts/same/index.html")
        .collect();
    assert_eq!(same_path.len(), 2);
}

#[test]
fn test_rebuild_site_matches_generate() {
    let config = gen_test_config("/site");
    let plan = rebuild_site(
        config,
        Some(gen_test_templates()),
        &vec![gen_test_post_source()],
    )
    .unwrap();
    assert!(plan.pages.iter().any(|p| p.path == "/site/dist/index.html"));
}
