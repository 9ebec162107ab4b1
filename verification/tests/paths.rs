use ssg::config::Config;
use ssg::path::{join, relative_path, set_extension};
use std::path::Path;
use ssg::content::{content_output_path, content_url};

fn chars(s: &str) -> Vec<char> {
    s.chars().collect()
}

#[test]
fn test_content_output_path_abs() {
    let conf = Config {
        content_dir: "/content".to_string(),
        build_dir: "/build".to_string(),
        template_dir: "/templates".to_string(),
        ..Default::default()
    };

    let output_path = content_output_path("/content/page1.md", "/home/user", &conf);
    assert_eq!(output_path, Ok("/build/page1.html".to_string()));
}

#[test]
fn test_content_output_path_rel() {
    let conf = Config {
        content_dir: "content".to_string(),
        build_dir: "build".to_string(),
        ..Default::default()
    };

    let output_path = content_output_path("content/subdir/page1.md", "/home/user", &conf);
    assert_eq!(output_path, Ok("build/subdir/page1.html".to_string()));
}

#[test]
fn test_content_url() {
    let conf = Config {
        content_dir: "content".to_string(),
        build_dir: "build".to_string(),
        ..Default::default()
    };

    let url = content_url("content/subdir/page1.md", "/home/user", &conf);
    assert_eq!(url, Ok("/subdir/page1.html".to_string()));
}

#[test]
fn directory_of_an_item_gets_a_page_of_its_name() {
    let conf = Config {
        content_dir: "content".to_string(),
        build_dir: "build".to_string(),
        ..Default::default()
    };
    assert_eq!(
        content_output_path("content/problems/p1", "/w", &conf),
        Ok("build/problems/p1.html".to_string())
    );
    assert_eq!(content_url("content/problems/p1", "/w", &conf), Ok("/problems/p1.html".to_string()));
}

#[test]
fn source_outside_the_content_directory_is_an_error() {
    let conf = Config {
        content_dir: "content".to_string(),
        build_dir: "build".to_string(),
        ..Default::default()
    };
    assert_eq!(
        content_output_path("other/page.md", "/w", &conf),
        Err("Path /w/other/page is not a subpath of content directory /w/content".to_string())
    );
    assert_eq!(
        content_url("/elsewhere/page.md", "/w", &conf),
        Err("Path /elsewhere/page is not a subpath of content directory /w/content".to_string())
    );
}

#[test]
fn extensions() {
    assert_eq!(set_extension(&chars("a/b.md"), "html"), chars("a/b.html"));
    assert_eq!(set_extension(&chars("a/b.md"), ""), chars("a/b"));
    assert_eq!(set_extension(&chars("a.d/b"), "html"), chars("a.d/b.html"));
    assert_eq!(set_extension(&chars("a/.hidden"), "x"), chars("a/.hidden.x"));
    assert_eq!(set_extension(&chars("a/b.tar.gz"), ""), chars("a/b.tar"));
    assert_eq!(set_extension(&chars("a/"), "x"), chars("a/"));
    assert_eq!(set_extension(&chars(""), "x"), chars(""));
    assert_eq!(set_extension(&chars("a/.."), "x"), chars("a/.."));
}

#[test]
fn page_outside_the_build_directory_is_an_error() {
    let conf = Config { content_dir: "content".to_string(), ..Default::default() };
    assert_eq!(
        content_output_path("content/sub/page1.md", "/w", &conf),
        Ok("sub/page1.html".to_string())
    );
    assert_eq!(
        content_url("content/sub/page1.md", "/w", &conf),
        Err("Path sub/page1.html is not a subpath of build directory ".to_string())
    );
}

#[test]
fn paths_agree_with_the_standard_library() {
    for path in ["a/b.md", "a/b", "b.tar.gz", "a.d/b", "a/.hidden", ".hidden.md", "a/b.", "/x/y.z", "a/.."] {
        for ext in ["", "html", "x.y"] {
            let expected = Path::new(path).with_extension(ext);
            let got: String = set_extension(&chars(path), ext).iter().collect();
            assert_eq!(got, expected.to_string_lossy(), "{:?} with {:?}", path, ext);
        }
    }
    for (dir, name) in [("a", "b"), ("a/", "b"), ("", "b"), ("/", "b"), ("a/b", "c/d"), ("a", "")] {
        let expected = Path::new(dir).join(name);
        let got: String = join(&chars(dir), &chars(name)).iter().collect();
        assert_eq!(got, expected.to_string_lossy(), "{:?} joined with {:?}", dir, name);
    }
    for (path, base) in [
        ("content/a/b", "content"),
        ("content/a/b", "content/"),
        ("content", "content"),
        ("contents/a", "content"),
        ("/c/a", "/c"),
        ("a/b", "b"),
        ("/a", "/"),
    ] {
        let expected =
            Path::new(path).strip_prefix(base).ok().map(|p| p.to_string_lossy().to_string());
        let got: Option<String> =
            relative_path(&chars(path), &chars(base)).map(|p| p.iter().collect());
        assert_eq!(got, expected, "{:?} relative to {:?}", path, base);
    }
}
