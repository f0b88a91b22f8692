use claude_kanban::server::docs::{derive_title, list_docs, page, safe_asset_path, safe_filename, DocFile};

#[test]
fn derive_title_uses_first_h1_when_present() {
    assert_eq!(derive_title(b"# Hello\n\nrest", "any.md"), "Hello");
}

#[test]
fn derive_title_skips_leading_blank_lines() {
    assert_eq!(derive_title(b"\n\n# Hi\n\nrest", "any.md"), "Hi");
}

#[test]
fn derive_title_falls_back_to_filename_when_no_h1() {
    assert_eq!(derive_title(b"no heading here", "getting-started.md"), "Getting started");
}

#[test]
fn derive_title_ignores_non_h1_lines() {
    assert_eq!(derive_title(b"Not a heading\n# Later", "workflow.md"), "Workflow");
}

#[test]
fn safe_filename_rejects_traversal() {
    assert!(safe_filename("getting-started.md"));
    assert!(!safe_filename("../Cargo.toml"));
    assert!(!safe_filename("foo/bar"));
    assert!(!safe_filename(".hidden"));
    assert!(!safe_filename(""));
    assert!(!safe_filename("a\\b"));
}

#[test]
fn safe_asset_path_walks_each_segment() {
    assert!(safe_asset_path("logo.svg"));
    assert!(safe_asset_path("images/logo.svg"));
    assert!(!safe_asset_path("../Cargo.toml"));
    assert!(!safe_asset_path("images/../secret"));
    assert!(!safe_asset_path(""));
}

fn file(name: &str, text: &str) -> DocFile {
    DocFile { name: name.into(), bytes: text.as_bytes().to_vec() }
}

#[test]
fn the_table_of_contents_is_sorted_and_lists_top_level_markdown_only() {
    let files = vec![
        file("workflow.md", "# The workflow"),
        file("assets/logo.svg", "<svg/>"),
        file("getting-started.md", "no heading"),
        file("sub/page.md", "# Hidden"),
    ];
    let toc: Vec<(String, String)> = list_docs(&files).into_iter().map(|e| (e.file, e.title)).collect();
    assert_eq!(
        toc,
        vec![
            ("getting-started.md".to_string(), "Getting started".to_string()),
            ("workflow.md".to_string(), "The workflow".to_string()),
        ]
    );
}

#[test]
fn bytes_that_are_no_text_fall_back_to_the_filename() {
    let files = vec![DocFile { name: "broken-page.md".into(), bytes: vec![0xff, 0xfe, b'#'] }];
    assert_eq!(list_docs(&files)[0].title, "Broken page");
}

#[test]
fn a_page_is_shown_only_under_a_safe_embedded_name() {
    assert_eq!(
        page("workflow.md", true).unwrap(),
        "<article class=\"prose prose-sm max-w-none\" data-md-src=\"/raw/docs/workflow.md\"></article>"
    );
    assert!(page("workflow.md", false).is_none());
    assert!(page("../secret", true).is_none());
}
