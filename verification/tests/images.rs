use ssg::path::{join, relative_path};
use ssg::render::images::{normalize_path, prefix_image_urls, should_prefix};
use ssg::render::ImageProcessor;

fn chars(s: &str) -> Vec<char> {
    s.chars().collect()
}

#[test]
fn test_prefix_image_urls_basic() {
    let html = r#"<img src="figs/image.png" alt="An image">"#;
    let image_paths = vec!["figs/image.png".to_string()];
    let root_url = "https://example.com/static/";

    let result = prefix_image_urls(html, &image_paths, root_url);
    assert_eq!(
        result,
        r#"<img src="https://example.com/static/figs/image.png" alt="An image">"#
    );
}

#[test]
fn test_prefix_image_urls_multiple() {
    let html = r#"
            <div>
                <img src="figs/image1.png" alt="Image 1">
                <img src="figs/subfolder/image2.jpg" alt="Image 2">
                <img src="https://example.org/image.png" alt="External image">
                <img src="data:image/png;base64,abc123=" alt="Data URL">
                <img src="/absolute/path/image.png" alt="Absolute path">
            </div>
        "#;

    let image_paths =
        vec!["figs/image1.png".to_string(), "figs/subfolder/image2.jpg".to_string()];
    let root_url = "https://example.com/static/";

    let result = prefix_image_urls(html, &image_paths, root_url);
    assert!(result.contains(r#"src="https://example.com/static/figs/image1.png""#));
    assert!(result.contains(r#"src="https://example.com/static/figs/subfolder/image2.jpg""#));
    assert!(result.contains(r#"src="https://example.org/image.png""#));
    assert!(result.contains(r#"src="data:image/png;base64,abc123=""#));
    assert!(result.contains(r#"src="/absolute/path/image.png""#));
}

#[test]
fn test_prefix_css_urls() {
    let html = r#"
            <style>
                .bg-image { background-image: url('figs/bg.jpg'); }
                .another-bg { background: url("figs/pattern.png") repeat; }
                .external-bg { background-image: url('https://example.org/bg.jpg'); }
            </style>
        "#;

    let image_paths = vec!["figs/bg.jpg".to_string(), "figs/pattern.png".to_string()];
    let root_url = "https://example.com/static/";

    let result = prefix_image_urls(html, &image_paths, root_url);
    assert!(result.contains("url('https://example.com/static/figs/bg.jpg')"));
    assert!(result.contains("url('https://example.com/static/figs/pattern.png')"));
    assert!(result.contains("url('https://example.org/bg.jpg')"));
}

#[test]
fn test_image_processor() {
    let mut processor = ImageProcessor::new(
        "src/test_assets/problems/p1".to_string(),
        "src".to_string(),
        "/tmp/build".to_string(),
        vec!["figs/blue.png".to_string(), "figs/green.png".to_string()],
    );

    assert!(processor.has_images());
    assert!(processor.image_count() > 0);

    let html = r#"<img src="figs/blue.png" alt="Blue"><p>Some text</p>"#;
    assert_eq!(processor.update_html_with_image_urls(html), html);

    let steps = processor.copy_images_to_build_dir().unwrap();
    assert_eq!(steps.len(), 2);
    assert_eq!(steps[0].source, "src/test_assets/problems/p1/figs/blue.png");
    assert_eq!(
        steps[0].target,
        "/tmp/build/static/assets/test_assets/problems/p1/figs/blue.png"
    );
    assert_eq!(steps[1].source, "src/test_assets/problems/p1/figs/green.png");

    let updated = processor.update_html_with_image_urls(html);
    assert!(updated.contains("/static/assets/test_assets/problems/p1/figs/blue.png"));
    assert_eq!(
        updated,
        r#"<img src="/static/assets/test_assets/problems/p1/figs/blue.png" alt="Blue"><p>Some text</p>"#
    );
    let many = processor.update_multiple_html(&vec![html.to_string(), "<p>x</p>".to_string()]);
    assert_eq!(many, vec![updated, "<p>x</p>".to_string()]);
}

#[test]
fn processor_without_images_plans_nothing() {
    let mut processor =
        ImageProcessor::new("a/b".to_string(), "elsewhere".to_string(), "build".to_string(), Vec::new());
    assert!(!processor.has_images());
    assert_eq!(processor.image_count(), 0);
    assert!(processor.copy_images_to_build_dir().unwrap().is_empty());
    assert_eq!(processor.update_html_with_image_urls("<img src=\"x.png\">"), "<img src=\"x.png\">");
}

#[test]
fn item_outside_the_content_directory_is_an_error() {
    let mut processor = ImageProcessor::new(
        "other/item".to_string(),
        "content".to_string(),
        "build".to_string(),
        vec!["a.png".to_string()],
    );
    assert_eq!(
        processor.copy_images_to_build_dir().err(),
        Some("Path other/item is not inside content".to_string())
    );
}

#[test]
fn prefix_decisions() {
    let images = vec![chars("figs/a.png"), chars("b.png")];
    assert!(should_prefix(&chars("figs/a.png"), &images));
    assert!(should_prefix(&chars("figs\\a.png"), &images));
    assert!(should_prefix(&chars("figs"), &images));
    assert!(should_prefix(&chars("b.png?x=1"), &images));
    assert!(!should_prefix(&chars("c.png"), &images));
    assert!(!should_prefix(&chars("http://h/figs/a.png"), &images));
    assert!(!should_prefix(&chars("https://h/b.png"), &images));
    assert!(!should_prefix(&chars("data:b.png"), &images));
    assert!(!should_prefix(&chars("/b.png"), &images));
    assert!(!should_prefix(&chars("b.png"), &Vec::new()));
}

#[test]
fn every_occurrence_of_the_source_in_a_tag_is_prefixed() {
    let result = prefix_image_urls(
        "<img src=\"a.png\" alt=\"a.png\"> url(a.png) url(\"z.png\")",
        &vec!["a.png".to_string()],
        "/r/",
    );
    assert_eq!(result, "<img src=\"/r/a.png\" alt=\"/r/a.png\"> url('/r/a.png') url(\"z.png\")");
}

#[test]
fn paths() {
    assert_eq!(normalize_path(&chars("a\\b\\c/d")), chars("a/b/c/d"));
    assert_eq!(relative_path(&chars("content/a/b"), &chars("content")), Some(chars("a/b")));
    assert_eq!(relative_path(&chars("content/a/b"), &chars("content/")), Some(chars("a/b")));
    assert_eq!(relative_path(&chars("content"), &chars("content")), Some(chars("")));
    assert_eq!(relative_path(&chars("contents/a"), &chars("content")), None);
    assert_eq!(join(&chars("a"), &chars("b")), chars("a/b"));
    assert_eq!(join(&chars("a/"), &chars("b")), chars("a/b"));
    assert_eq!(join(&chars(""), &chars("b")), chars("b"));
}
