use blog_content::buckets::{label_buckets, Bucket};
use blog_content::date::{decode_date, decode_datetime, is_later};
use blog_content::metadata::{default_false, RawMetadata};
use blog_content::order::date_order;
use blog_content::slug::{clean_lowercase_slug, slug_from_filename};
use blog_content::{
    build_index, extract_date_from_filename, is_markdown_path, load_posts, parse_frontmatter,
    process_markdown_content, render_markdown, AppState, Date, DateTime, FrontmatterError, Post,
    PostIndex, PostMetadata, SourceFile,
};

fn source(path: &str, text: &str) -> SourceFile {
    SourceFile { path: path.to_string(), text: text.to_string() }
}

fn paths(posts: &[&Post]) -> Vec<String> {
    posts.iter().map(|p| p.file_path.clone()).collect()
}

fn bucket<'a>(buckets: &'a [Bucket], name: &str) -> Option<&'a Bucket> {
    buckets.iter().find(|b| b.name == name)
}

#[test]
fn test_post_index() {
    let index = PostIndex::new();
    assert_eq!(index.get_all_posts().len(), 0);
    assert_eq!(index.get_recent_posts(5).len(), 0);
}

#[test]
fn test_extract_date_from_filename() {
    let date = extract_date_from_filename("2025-11-23-test-article.md");
    assert!(date.is_some());
    let d = date.unwrap();
    assert_eq!(format!("{:04}-{:02}-{:02}", d.year, d.month, d.day), "2025-11-23");
}

#[test]
fn test_parse_frontmatter() {
    let content = r#"---
title: "测试文章"
date: 2025-11-23
tags: ["Rust", "Dioxus"]
---

这是文章正文内容。
"#;
    let (metadata, body) = parse_frontmatter(content).unwrap();
    assert_eq!(metadata.title, "测试文章");
    assert!(body.contains("这是文章正文内容"));
}

#[test]
fn test_render_markdown() {
    let markdown = "# 标题\n\n这是**粗体**文本。";
    let html = render_markdown(markdown);
    assert!(html.contains("<h1>标题</h1>"));
    assert!(html.contains("<strong>粗体</strong>"));
}

#[test]
fn test_from_yaml() {
    let yaml = r#"
title: "测试文章"
date: 2025-11-23
author: "测试作者"
tags: ["Rust", "Dioxus"]
draft: false
"#;
    let metadata = PostMetadata::from_yaml(yaml).unwrap();
    assert_eq!(metadata.title, "测试文章");
    assert_eq!(metadata.author, Some("测试作者".to_string()));
    assert_eq!(metadata.tags, Some(vec!["Rust".to_string(), "Dioxus".to_string()]));
    assert!(!metadata.is_draft());
}

#[test]
fn test_get_slug() {
    let mut metadata = PostMetadata::new();
    metadata.title = "测试文章".to_string();

    let slug = metadata.get_slug("2025-11-23-test-article.md");
    assert_eq!(slug, "test-article");

    metadata.slug = Some("custom-slug".to_string());
    let slug = metadata.get_slug("2025-11-23-test-article.md");
    assert_eq!(slug, "custom-slug");
}

#[test]
fn document_without_marker_is_all_body() {
    let text = "# Heading\n\nNo frontmatter here.\n-- not a marker";
    let (metadata, body) = parse_frontmatter(text).unwrap();
    assert_eq!(metadata, PostMetadata::new());
    assert_eq!(metadata, PostMetadata::default());
    assert_eq!(body, text);
    let (metadata, body) = parse_frontmatter("").unwrap();
    assert_eq!(metadata, PostMetadata::new());
    assert_eq!(body, "");
}

#[test]
fn body_drops_markers_and_one_line_break() {
    let (m, body) = parse_frontmatter("---\ntitle: A\n---\n\nBody\n").unwrap();
    assert_eq!(m.title, "A");
    assert_eq!(body, "\nBody\n");
    let (_, body) = parse_frontmatter("---\ntitle: A\r\n---\r\n\r\nBody").unwrap();
    assert_eq!(body, "\r\nBody");
    let (_, body) = parse_frontmatter("---\ntitle: A\n---Body").unwrap();
    assert_eq!(body, "Body");
    let (_, body) = parse_frontmatter("---\ntitle: A\n---").unwrap();
    assert_eq!(body, "");
}

#[test]
fn missing_closing_marker_is_an_error() {
    assert_eq!(parse_frontmatter("---\ntitle: A\nbody"), Err(FrontmatterError::MissingClosingMarker));
    assert_eq!(parse_frontmatter("---"), Err(FrontmatterError::MissingClosingMarker));
    assert_eq!(parse_frontmatter("-----"), Err(FrontmatterError::MissingClosingMarker));
}

#[test]
fn malformed_block_is_an_error() {
    assert_eq!(
        parse_frontmatter("---\ntitle: [unclosed\n---\nbody"),
        Err(FrontmatterError::InvalidMetadata)
    );
    assert_eq!(PostMetadata::from_yaml("a: b: c"), Err(FrontmatterError::InvalidMetadata));
}

#[test]
fn missing_keys_take_defaults() {
    let m = PostMetadata::from_yaml("author: Someone\nunknown: 3\n").unwrap();
    assert_eq!(m.title, "Untitled");
    assert_eq!(m.author, Some("Someone".to_string()));
    assert_eq!(m.date, None);
    assert_eq!(m.tags, None);
    assert!(!m.draft);
    let m = PostMetadata::from_yaml("title: T\ndraft: true\nslug: s\nlayout: wide\nsummary: S\ncover_image: c.png\ncategories: [x, 3, y]\n").unwrap();
    assert!(m.is_draft());
    assert_eq!(m.slug, Some("s".to_string()));
    assert_eq!(m.layout, Some("wide".to_string()));
    assert_eq!(m.summary, Some("S".to_string()));
    assert_eq!(m.cover_image, Some("c.png".to_string()));
    assert_eq!(m.categories, Some(vec!["x".to_string(), "y".to_string()]));
}

#[test]
fn dates_accept_two_forms() {
    let day = Date { year: 2025, month: 11, day: 23 };
    assert_eq!(decode_date("2025-11-23"), Some(day));
    assert_eq!(decode_date("2025/11/23"), Some(day));
    assert_eq!(decode_date("23.11.2025"), None);
    assert_eq!(decode_date("2025-02-30"), None);
    let m = PostMetadata::from_yaml("title: T\ndate: 2024/01/05\n").unwrap();
    assert_eq!(m.date, Some(Date { year: 2024, month: 1, day: 5 }));
    let m = PostMetadata::from_yaml("title: T\ndate: someday\n").unwrap();
    assert_eq!(m.date, None);
}

#[test]
fn timestamps_accept_three_forms() {
    let day = Date { year: 2025, month: 11, day: 23 };
    assert_eq!(
        decode_datetime("2025-11-23 08:30:15"),
        Some(DateTime { date: day, hour: 8, minute: 30, second: 15 })
    );
    assert_eq!(
        decode_datetime("2025-11-23T08:30:15"),
        Some(DateTime { date: day, hour: 8, minute: 30, second: 15 })
    );
    assert_eq!(decode_datetime("2025-11-23"), Some(DateTime { date: day, hour: 0, minute: 0, second: 0 }));
    assert_eq!(decode_datetime("late"), None);
    let m = PostMetadata::from_yaml("title: T\nupdated: 2025-11-23T08:30:15\n").unwrap();
    assert_eq!(m.updated, Some(DateTime { date: day, hour: 8, minute: 30, second: 15 }));
}

#[test]
fn slug_strips_full_date_prefix() {
    assert_eq!(PostMetadata::new().get_slug("2025-11-23-test-article.md"), "test-article");
    assert_eq!(slug_from_filename("posts/2024-01-02-Hello World.md"), "hello-world");
}

#[test]
fn slug_keeps_partial_date_prefix() {
    assert_eq!(PostMetadata::new().get_slug("2025x-notes.md"), "2025x-notes");
    assert_eq!(PostMetadata::new().get_slug("2025-1123-notes.md"), "2025-1123-notes");
    assert_eq!(PostMetadata::new().get_slug("2025-11-23.md"), "2025-11-23");
    assert_eq!(PostMetadata::new().get_slug("2025-11-23xnotes.md"), "2025-11-23xnotes");
    assert_eq!(PostMetadata::new().get_slug("2025-ab-cd-notes.md"), "2025-ab-cd-notes");
    assert_eq!(PostMetadata::new().get_slug("2025-1x-23-notes.md"), "2025-1x-23-notes");
}

#[test]
fn slug_normalises_case_and_symbols() {
    assert_eq!(PostMetadata::new().get_slug("My_First Post!.md"), "my-first-post");
    assert_eq!(clean_lowercase_slug("a b_c!?d"), "a-b-cd");
    assert_eq!(PostMetadata::new().get_slug("noext"), "noext");
}

#[test]
fn empty_explicit_slug_falls_back() {
    let mut m = PostMetadata::new();
    m.slug = Some(String::new());
    assert_eq!(m.get_slug("2025-11-23-test-article.md"), "test-article");
    m.slug = Some("Keep As Is".to_string());
    assert_eq!(m.get_slug("2025-11-23-test-article.md"), "Keep As Is");
}

#[test]
fn render_heading_and_bold() {
    let html = render_markdown("# Title\n\n**bold**");
    assert!(html.contains("<h1>Title</h1>"));
    assert!(html.contains("<strong>bold</strong>"));
    let table = render_markdown("| a | b |\n|---|---|\n| 1 | 2 |\n");
    assert!(table.contains("<table>"));
    assert!(render_markdown("~~gone~~").contains("<del>gone</del>"));
}

#[test]
fn markdown_paths_by_extension() {
    assert!(is_markdown_path("blogs/a.md"));
    assert!(!is_markdown_path("blogs/a.mdx"));
    assert!(!is_markdown_path("blogs/md"));
    assert!(!is_markdown_path("blogs/a.txt"));
}

#[test]
fn filename_date_needs_full_shape() {
    assert_eq!(extract_date_from_filename("dir/2024-02-29-leap.md"), Some(Date { year: 2024, month: 2, day: 29 }));
    assert_eq!(extract_date_from_filename("2023-02-29-not-leap.md"), None);
    assert_eq!(extract_date_from_filename("2025x-notes.md"), None);
    assert_eq!(extract_date_from_filename("short.md"), None);
}

#[test]
fn processing_renders_the_body() {
    let post = process_markdown_content("blogs/x.md", "---\ntitle: X\n---\n# H\n").unwrap();
    assert_eq!(post.content, "# H\n");
    assert!(post.html_content.contains("<h1>H</h1>"));
    assert_eq!(post.file_path, "blogs/x.md");
    assert_eq!(post.slug(), "x");
}

#[test]
fn failures_are_reported_and_skipped() {
    let sources = vec![
        source("a.md", "---\ntitle: A\n---\nA"),
        source("broken.md", "---\ntitle: B\n"),
        source("bad.md", "---\n[x\n---\n"),
        source("c.md", "plain"),
    ];
    let (posts, failures) = load_posts(&sources);
    assert_eq!(posts.len(), 2);
    assert_eq!(failures.len(), 2);
    assert_eq!(failures[0].path, "broken.md");
    assert_eq!(failures[0].error, FrontmatterError::MissingClosingMarker);
    assert_eq!(failures[1].path, "bad.md");
    assert_eq!(failures[1].error, FrontmatterError::InvalidMetadata);
    let (index, _) = build_index(&sources);
    let all: Vec<&Post> = index.get_all_posts().iter().collect();
    assert_eq!(paths(&all), vec!["a.md", "c.md"]);
}

#[test]
fn drafts_are_never_listed() {
    let sources = vec![
        source("a.md", "---\ntitle: A\ntags: [t]\ncategories: [c]\ndate: 2024-01-01\n---\n"),
        source("d.md", "---\ntitle: D\ndraft: true\ntags: [t]\ncategories: [c]\ndate: 2025-01-01\nslug: secret\n---\n"),
    ];
    let (index, failures) = build_index(&sources);
    assert!(failures.is_empty());
    let all: Vec<&Post> = index.get_all_posts().iter().collect();
    assert_eq!(paths(&all), vec!["a.md"]);
    assert_eq!(paths(&index.get_posts_by_tag("t")), vec!["a.md"]);
    assert_eq!(paths(&index.get_posts_by_category("c")), vec!["a.md"]);
    assert_eq!(paths(&index.get_recent_posts(10)), vec!["a.md"]);
    assert!(index.get_post_by_slug("secret").is_none());
}

#[test]
fn recent_posts_newest_first_undated_last() {
    let sources = vec![
        source("a.md", "---\ntitle: A\ndate: 2024-01-01\n---\n"),
        source("b.md", "---\ntitle: B\n---\n"),
        source("2025-03-01-c.md", "---\ntitle: C\n---\n"),
        source("d.md", "---\ntitle: D\ndate: 2023/05/05\n---\n"),
        source("e.md", "no frontmatter"),
        source("f.md", "---\ntitle: F\ndate: 2024-01-01\n---\n"),
    ];
    let (index, _) = build_index(&sources);
    assert_eq!(index.sorted_by_date, vec![2, 0, 5, 3, 1, 4]);
    assert_eq!(
        paths(&index.get_recent_posts(10)),
        vec!["2025-03-01-c.md", "a.md", "f.md", "d.md", "b.md", "e.md"]
    );
    assert_eq!(paths(&index.get_recent_posts(2)), vec!["2025-03-01-c.md", "a.md"]);
    assert_eq!(index.get_recent_posts(0).len(), 0);
}

#[test]
fn building_twice_gives_the_same_index() {
    let sources = vec![
        source("a.md", "---\ntitle: A\ntags: [x, y]\ncategories: [k]\n---\n"),
        source("b.md", "---\ntitle: B\ntags: [y]\ndate: 2020-01-01\n---\n"),
        source("c.md", "---\ntitle: C\ntags: [x]\ncategories: [k, m]\n---\n"),
    ];
    let (first, _) = build_index(&sources);
    let (second, _) = build_index(&sources);
    let names = |b: &[Bucket]| b.iter().map(|x| (x.name.clone(), x.positions.clone())).collect::<Vec<_>>();
    assert_eq!(names(&first.tags), names(&second.tags));
    assert_eq!(names(&first.categories), names(&second.categories));
    assert_eq!(first.sorted_by_date, second.sorted_by_date);
    assert_eq!(first.sorted_by_date, vec![1, 0, 2]);
}

#[test]
fn tag_buckets_keep_order_and_duplicates() {
    let sources = vec![
        source("a.md", "---\ntitle: A\ntags: [x, x, y]\n---\n"),
        source("b.md", "---\ntitle: B\ntags: [y]\ncategories: [k]\n---\n"),
    ];
    let (index, _) = build_index(&sources);
    assert_eq!(bucket(&index.tags, "x").unwrap().positions, vec![0, 0]);
    assert_eq!(bucket(&index.tags, "y").unwrap().positions, vec![0, 1]);
    assert_eq!(bucket(&index.categories, "k").unwrap().positions, vec![1]);
    assert_eq!(paths(&index.get_posts_by_tag("x")), vec!["a.md", "a.md"]);
    assert!(index.get_posts_by_tag("nope").is_empty());
    assert!(index.get_posts_by_category("nope").is_empty());
}

#[test]
fn slug_lookup_prefers_explicit_slug() {
    let sources = vec![
        source("2025-01-01-first-post.md", "---\ntitle: One\nslug: custom\n---\n"),
        source("2025-01-02-second-post.md", "---\ntitle: Two\n---\n"),
    ];
    let (index, _) = build_index(&sources);
    assert_eq!(index.get_post_by_slug("custom").unwrap().file_path, "2025-01-01-first-post.md");
    assert!(index.get_post_by_slug("first-post").is_none());
    assert_eq!(index.get_post_by_slug("second-post").unwrap().file_path, "2025-01-02-second-post.md");
    assert!(index.get_post_by_slug("missing").is_none());
}

#[test]
fn app_state_queries_and_theme() {
    let mut state = AppState::new();
    assert_eq!(state.theme, "light");
    state.toggle_theme();
    assert_eq!(state.theme, "dark");
    state.toggle_theme();
    assert_eq!(state.theme, "light");
    let (index, _) = build_index(&vec![source("a.md", "---\ntitle: A\ntags: [t]\n---\n")]);
    state.post_index = index;
    assert_eq!(paths(&state.get_posts_by_tag("t")), vec!["a.md"]);
    assert!(state.get_posts_by_category("t").is_empty());
    assert_eq!(state.get_recent_posts(1).len(), 1);
    assert!(state.get_post_by_slug("a").is_some());
    assert_eq!(AppState::default().theme, "light");
    assert_eq!(PostIndex::default().get_all_posts().len(), 0);
}

#[test]
fn raw_values_decode_exactly() {
    let raw = RawMetadata {
        title: None,
        date: Some("2021/07/04".to_string()),
        author: Some("A".to_string()),
        tags: Some(vec!["t".to_string()]),
        categories: None,
        summary: None,
        cover_image: None,
        slug: Some("s".to_string()),
        draft: None,
        updated: Some("bad".to_string()),
        layout: None,
    };
    let m = PostMetadata::from_raw(raw);
    assert_eq!(m.title, "Untitled");
    assert_eq!(m.date, Some(Date { year: 2021, month: 7, day: 4 }));
    assert_eq!(m.author, Some("A".to_string()));
    assert_eq!(m.tags, Some(vec!["t".to_string()]));
    assert_eq!(m.slug, Some("s".to_string()));
    assert!(!m.draft);
    assert_eq!(m.updated, None);
    assert!(!default_false());
}

#[test]
fn date_order_is_stable_and_newest_first() {
    let d = |y: i32, m: u32, day: u32| Some(Date { year: y, month: m, day });
    assert!(is_later(&Date { year: 2024, month: 2, day: 1 }, &Date { year: 2024, month: 1, day: 31 }));
    assert!(!is_later(&Date { year: 2024, month: 1, day: 31 }, &Date { year: 2024, month: 1, day: 31 }));
    let keys = vec![None, d(2020, 1, 1), d(2022, 5, 5), None, d(2020, 1, 1), d(2019, 12, 31)];
    assert_eq!(date_order(&keys), vec![2, 1, 4, 5, 0, 3]);
    assert_eq!(date_order(&Vec::new()), Vec::<usize>::new());
}

#[test]
fn label_buckets_group_positions() {
    let lists = vec![
        vec!["a".to_string(), "b".to_string()],
        vec![],
        vec!["b".to_string(), "c".to_string(), "b".to_string()],
    ];
    let buckets = label_buckets(&lists);
    let got: Vec<(String, Vec<usize>)> =
        buckets.iter().map(|b| (b.name.clone(), b.positions.clone())).collect();
    assert_eq!(
        got,
        vec![
            ("a".to_string(), vec![0]),
            ("b".to_string(), vec![0, 2, 2]),
            ("c".to_string(), vec![2]),
        ]
    );
}
