use ssg::config::{
    default_escape_markdown_in_math, default_language, default_syntax_highlighter_theme,
    default_template, default_text_direction, Config,
};
use ssg::content::content::{
    include_targets, load_bare_page, load_formatted_file, load_markdown_with_includes,
    load_single_content_file, title_of,
};
use ssg::content::problem::{load_multiple_files, order_number, text_before};
use ssg::content::{load_problem, Content, ContentKind, ContentMetadata, SourceFile};
use ssg::formatted_text::theorem::default_numbered;
use ssg::formatted_text::{Conversion, FormattedText};

fn file(name: &str, text: &str) -> SourceFile {
    SourceFile { name: name.to_string(), text: text.to_string() }
}

fn get_test_config() -> Config {
    Config {
        content_dir: "src/test_assets".to_string(),
        build_dir: "build".to_string(),
        template_dir: "templates".to_string(),
        syntax_highlighter_theme: "base16-ocean.dark".to_string(),
        ..Default::default()
    }
}

fn html_of(text: &FormattedText, config: &Config) -> String {
    match text.to_html(config) {
        Ok(Conversion::Html(html)) => html,
        _ => panic!("expected finished HTML"),
    }
}

fn sample_metadata(kind: ContentKind) -> ContentMetadata {
    ContentMetadata {
        title: "Sample Problem".to_string(),
        id: Some("sample-problem-001".to_string()),
        kind,
        ..Default::default()
    }
}

#[test]
fn problem_test_load_problem_p1() {
    let files = vec![
        file("metadata.yaml", "title: Sample Problem"),
        file("problem.md", "Problem Body\n"),
        file("solution.md", "Some Solution\n"),
        file("hint.md", "Hint Body\n"),
    ];
    let metadata = sample_metadata(ContentKind::Problem);
    let content = load_problem(&files, metadata).expect("Failed to load problem");

    assert!(matches!(content, Content::Problem { .. }));
    assert_eq!(content.content_type(), "problem");

    if let Content::Problem { metadata, statement, solutions, hints } = content {
        assert_eq!(metadata.title, "Sample Problem");
        assert_eq!(metadata.id, Some("sample-problem-001".to_string()));
        let config = get_test_config();

        let problem_html = html_of(&statement, &config);
        assert!(problem_html.contains("<p>Problem Body</p>"));

        assert_eq!(solutions.len(), 1);
        let solution_html = html_of(&solutions[0], &config);
        assert!(solution_html.contains("<p>Some Solution</p>"));

        assert_eq!(hints.len(), 1);
        let hint_html = html_of(&hints[0], &config);
        assert!(hint_html.contains("<p>Hint Body</p>"));
    } else {
        panic!("Expected Content::Problem, got something else");
    }
}

#[test]
fn problem_test_load_problem_missing_problem_file() {
    let files = vec![file("metadata.yaml", "title: \"Test Problem\"")];
    let result = load_problem(&files, sample_metadata(ContentKind::Problem));
    assert!(result.is_err());
    let err_msg = result.err().unwrap();
    assert!(err_msg.contains("Problem file not found"));
}

#[test]
fn problem_test_load_multiple_files() {
    let files = vec![
        file("solution.2.md", "Solution 2"),
        file("solution.10.md", "Solution 10"),
        file("solution.1.md", "Solution 1"),
        file("solution.md", "Default Solution"),
        file("not-a-solution.md", "Not a solution"),
    ];
    let solutions = load_multiple_files(&files, "solution").expect("Failed to load solutions");
    assert_eq!(solutions.len(), 4);
    if let FormattedText::Markdown(content) = &solutions[0] {
        assert_eq!(content, "Default Solution");
    } else {
        panic!("Expected Markdown");
    }
    if let FormattedText::Markdown(content) = &solutions[1] {
        assert_eq!(content, "Solution 1");
    } else {
        panic!("Expected Markdown");
    }
    if let FormattedText::Markdown(content) = &solutions[2] {
        assert_eq!(content, "Solution 2");
    } else {
        panic!("Expected Markdown");
    }
    if let FormattedText::Markdown(content) = &solutions[3] {
        assert_eq!(content, "Solution 10");
    } else {
        panic!("Expected Markdown");
    }
}

#[test]
fn files_with_equal_numbers_come_by_name() {
    let files = vec![
        file("hint.tex", "tex"),
        file("hint.0.md", "zero"),
        file("hint.md", "md"),
        file("hint.1.txt", "other"),
        file("hintx.md", "other"),
        file("a-hint.md", "other"),
        file("hint.99999999999999999999999999.md", "huge"),
    ];
    let hints = load_multiple_files(&files, "hint").unwrap();
    let texts: Vec<String> = hints
        .iter()
        .map(|h| match h {
            FormattedText::Markdown(t) => format!("md:{}", t),
            FormattedText::Latex(t) => format!("tex:{}", t),
            FormattedText::Html(t) => format!("html:{}", t),
        })
        .collect();
    assert_eq!(texts, vec!["md:zero", "md:huge", "md:md", "tex:tex"]);
}

#[test]
fn basename_is_taken_literally_in_the_pattern() {
    let files = vec![file("a.b.md", "dot"), file("aXb.md", "other")];
    let found = load_multiple_files(&files, "a.b").unwrap();
    assert_eq!(found.len(), 1);
    let files = vec![file("a+(b)[c]{d}^$#&-~|?*\\.md", "all"), file("a.md", "other")];
    let found = load_multiple_files(&files, "a+(b)[c]{d}^$#&-~|?*\\").unwrap();
    assert_eq!(found.len(), 1);
}

#[test]
fn statement_prefers_latex() {
    let files = vec![file("problem.md", "md"), file("problem.tex", "tex")];
    match load_problem(&files, sample_metadata(ContentKind::Problem)).unwrap() {
        Content::Problem { statement: FormattedText::Latex(t), solutions, hints, .. } => {
            assert_eq!(t, "tex");
            assert!(solutions.is_empty());
            assert!(hints.is_empty());
        }
        _ => panic!("expected a problem with a LaTeX statement"),
    }
}

#[test]
fn order_numbers() {
    assert_eq!(order_number(&None), 0);
    assert_eq!(order_number(&Some("10".chars().collect())), 10);
    assert_eq!(order_number(&Some("007".chars().collect())), 7);
    assert_eq!(order_number(&Some("".chars().collect())), 0);
    assert_eq!(order_number(&Some("1a".chars().collect())), 0);
    assert_eq!(order_number(&Some("99999999999999999999999999".chars().collect())), 0);
    assert_eq!(
        order_number(&Some(usize::MAX.to_string().chars().collect())),
        usize::MAX
    );
}

#[test]
fn text_order() {
    let c = |s: &str| s.chars().collect::<Vec<char>>();
    assert!(text_before(&c("a"), &c("b")));
    assert!(!text_before(&c("b"), &c("a")));
    assert!(text_before(&c("a"), &c("a")));
    assert!(text_before(&c("a"), &c("ab")));
    assert!(!text_before(&c("ab"), &c("a")));
    assert!(text_before(&c(""), &c("")));
}

#[test]
fn content_test_load_page_content() {
    let config = Config {
        content_dir: "/tmp".to_string(),
        build_dir: "/tmp/build".to_string(),
        template_dir: "/tmp/templates".to_string(),
        ..Default::default()
    };
    let files = vec![
        file("metadata.yaml", "title: \"Test Page\""),
        file("body.md", "# Test Page Content\n\nThis is a test page with some *markdown* content."),
    ];
    let metadata = ContentMetadata {
        title: "Test Page".to_string(),
        id: Some("test-page".to_string()),
        kind: ContentKind::Page,
        ..Default::default()
    };
    let content = Content::load(metadata, &files).unwrap();
    assert!(matches!(content, Content::Page { .. }));
    assert_eq!(content.content_type(), "page");
    let metadata = content.metadata();
    assert_eq!(metadata.title, "Test Page");
    assert_eq!(metadata.id, Some("test-page".to_string()));
    if let Content::Page { body, .. } = content {
        let html = html_of(&body, &config);
        assert!(html.contains("<h1"));
        assert!(html.contains("Test Page Content"));
        assert!(html.contains("<em>markdown</em>"));
    } else {
        panic!("Expected Page content type");
    }
}

#[test]
fn test_markdown_include() {
    let config = Config::default();
    let files = vec![
        file("metadata.yaml", "title: 'Inc'\ntype: 'page'"),
        file("part.md", "Included text"),
        file("body.md", "# H\n#include \"part.md\""),
    ];
    let metadata = ContentMetadata { kind: ContentKind::Page, ..Default::default() };
    let content = Content::load(metadata, &files).unwrap();
    if let Content::Page { body, .. } = content {
        let html = html_of(&body, &config);
        assert!(html.contains("Included text"));
    } else {
        panic!("Expected Page content type");
    }
}

#[test]
fn includes_are_expanded_once() {
    let files = vec![file("a.md", "A\n#include \"b.md\"\n"), file("b.md", "B")];
    assert_eq!(
        load_markdown_with_includes("x\n  #include \"a.md\"\ny", &files),
        Ok("x\nA\n#include \"b.md\"\n\ny".to_string())
    );
    assert_eq!(load_markdown_with_includes("x\ny\n", &files), Ok("x\ny\n".to_string()));
    assert_eq!(load_markdown_with_includes("", &files), Ok(String::new()));
    assert_eq!(
        load_markdown_with_includes("#include b.md", &files),
        Ok("B".to_string())
    );
}

#[test]
fn missing_include_is_an_error() {
    let files = vec![file("a.md", "A")];
    assert_eq!(
        load_markdown_with_includes("x\n#include \"c.md\"\n#include \"d.md\"", &files),
        Err("Included file not found: c.md".to_string())
    );
}

#[test]
fn include_targets_in_order() {
    assert_eq!(
        include_targets("a\n#include \"x.md\"\n  #include   y.md  \n#includez\nb"),
        vec!["x.md".to_string(), "y.md".to_string(), "z".to_string()]
    );
    assert!(include_targets("no directive").is_empty());
}

#[test]
fn blog_body_is_found_by_extension() {
    let files = vec![file("body.html", "<p>h</p>"), file("body.tex", "t")];
    let metadata = ContentMetadata { kind: ContentKind::Blog, ..Default::default() };
    match Content::load(metadata, &files).unwrap() {
        Content::Blog { body: FormattedText::Latex(t), .. } => assert_eq!(t, "t"),
        _ => panic!("expected a blog entry in LaTeX"),
    }
    let files = vec![file("body.html", "<p>h</p>")];
    match load_single_content_file(&files, "body").unwrap() {
        FormattedText::Html(t) => assert_eq!(t, "<p>h</p>"),
        _ => panic!("expected HTML"),
    }
    assert_eq!(
        load_single_content_file(&Vec::new(), "body").err(),
        Some("No body file found".to_string())
    );
}

#[test]
fn unknown_kind_is_an_error() {
    let result = Content::load(ContentMetadata::default(), &Vec::new());
    assert_eq!(result.err(), Some("Unknown content type: Unknown".to_string()));
}

#[test]
fn bare_pages() {
    let files = vec![file("part.md", "P")];
    let page = load_bare_page(
        Some("md"),
        "## My  Title \n#include \"part.md\"",
        &files,
        "build/a.html".to_string(),
        "/a.html".to_string(),
    )
    .unwrap();
    assert_eq!(page.metadata().title, "My  Title");
    assert_eq!(page.metadata().kind, ContentKind::Page);
    assert_eq!(page.metadata().output_path, "build/a.html");
    assert_eq!(page.metadata().url, "/a.html");
    match page {
        Content::Page { body: FormattedText::Markdown(t), .. } => assert_eq!(t, "## My  Title \nP"),
        _ => panic!("expected a Markdown page"),
    }
    let page = load_bare_page(Some("tex"), "# x", &files, String::new(), String::new()).unwrap();
    assert_eq!(page.metadata().title, "");
    assert!(matches!(page, Content::Page { body: FormattedText::Latex(_), .. }));
    let page = load_bare_page(Some("html"), "<p>", &files, String::new(), String::new()).unwrap();
    assert!(matches!(page, Content::Page { body: FormattedText::Html(_), .. }));
    assert_eq!(
        load_bare_page(Some("txt"), "", &files, String::new(), String::new()).err(),
        Some("Unsupported file type: Some(\"txt\")".to_string())
    );
    assert_eq!(
        load_bare_page(None, "", &files, String::new(), String::new()).err(),
        Some("Unsupported file type: None".to_string())
    );
}

#[test]
fn titles() {
    assert_eq!(title_of("# Title\ntext"), Some("Title".to_string()));
    assert_eq!(title_of("## A # B"), Some("A B".to_string()));
    assert_eq!(title_of("### Deep"), None);
    assert_eq!(title_of("#Title"), None);
    assert_eq!(title_of(""), None);
}

#[test]
fn formatted_files_by_extension() {
    let files = Vec::new();
    assert!(matches!(
        load_formatted_file(&file("a.md", "x"), &files),
        Ok(FormattedText::Markdown(_))
    ));
    assert!(matches!(
        load_formatted_file(&file("a.tex", "x"), &files),
        Ok(FormattedText::Latex(_))
    ));
    assert_eq!(
        load_formatted_file(&file("a.html", "x"), &files).err(),
        Some("Unsupported file extension".to_string())
    );
    assert_eq!(
        load_formatted_file(&file(".md", "x"), &files).err(),
        Some("Unsupported file extension".to_string())
    );
}

#[test]
fn kinds_by_name() {
    assert_eq!(ContentKind::from_name("problem"), Some(ContentKind::Problem));
    assert_eq!(ContentKind::from_name("blog"), Some(ContentKind::Blog));
    assert_eq!(ContentKind::from_name("page"), Some(ContentKind::Page));
    assert_eq!(ContentKind::from_name("unknown"), Some(ContentKind::Unknown));
    assert_eq!(ContentKind::from_name("Page"), None);
    assert_eq!(ContentKind::default(), ContentKind::Unknown);
}

#[test]
fn defaults() {
    assert_eq!(default_language(), "en");
    assert_eq!(default_text_direction(), "ltr");
    assert!(default_escape_markdown_in_math());
    assert_eq!(default_syntax_highlighter_theme(), "base16-ocean.dark");
    assert_eq!(default_template(), "list.html");
    assert!(default_numbered());
    let config = Config::default();
    assert!(!config.escape_markdown_in_math);
    assert!(config.theorems.is_empty());
    assert_eq!(config.syntax_highlighter_theme, "");
}
