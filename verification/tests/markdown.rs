use ssg::config::Config;
use ssg::formatted_text::markdown_expandable::extract_class;
use ssg::formatted_text::{
    extract_math_segments, markdown_to_html, preprocess_cards, preprocess_expandables,
    restore_math_segments, Conversion, FormattedText,
};

fn get_test_config() -> Config {
    Config {
        content_dir: "src/test_assets".to_string(),
        build_dir: "build".to_string(),
        template_dir: "templates".to_string(),
        syntax_highlighter_theme: "base16-ocean.dark".to_string(),
        ..Default::default()
    }
}

#[test]
fn test_preprocess_expandables() {
    let input = r#"
:::expandable
**Heading** [Click to Expand]
Some text

More text
::::

:::expandable
**Heading 2** ([Expand])
Some more
"#;
    let out = preprocess_expandables(input);
    assert!(out.contains(r#"**Heading** <a class="expand-link" data-bs-toggle="collapse" href='#expand-1'>Click to Expand</a>"#));
    assert!(out.contains(r#"**Heading 2** (<a class="expand-link" data-bs-toggle="collapse" href='#expand-2'>Expand</a>)"#));
}

#[test]
fn test_preprocess_cards() {
    let input = r#"
:::card[example]
Some code here
More code here
::::
"#;
    let out = preprocess_cards(input);
    assert!(out.contains(r#"<div class="card example">"#));
    assert!(out.contains(r#"Some code here"#));
    assert!(out.contains(r#"More code here"#));
}

#[test]
fn test_preprocess_cards_no_class() {
    let input = r#"
:::card
Some code here
More code here
::::
"#;
    let out = preprocess_cards(input);
    assert!(out.contains(r#"<div class="card ">"#));
    assert!(out.contains(r#"Some code here"#));
    assert!(out.contains(r#"More code here"#));
}

#[test]
fn card_without_class_keeps_the_trailing_space() {
    assert_eq!(
        preprocess_cards(":::card\nText\n::::"),
        "<div class=\"card \">\n\nText\n  </div>\n\n"
    );
}

#[test]
fn card_with_class_exact() {
    assert_eq!(
        preprocess_cards("a\n  :::card[note]\nx\ny\n:::\nb"),
        "a\n<div class=\"card note\">\n\nx\ny\n  </div>\n\nb\n"
    );
}

#[test]
fn card_that_is_not_closed_runs_to_the_end() {
    assert_eq!(preprocess_cards(":::card\nx"), "<div class=\"card \">\n\nx\n  </div>\n\n");
    assert_eq!(preprocess_cards(":::card"), "<div class=\"card \">\n\n  </div>\n\n");
}

#[test]
fn text_without_cards_gets_a_line_feed_per_line() {
    assert_eq!(preprocess_cards("a\r\nb"), "a\nb\n");
    assert_eq!(preprocess_cards(""), "");
    assert_eq!(preprocess_expandables("a\n\nb\n"), "a\n\nb\n");
}

#[test]
fn class_is_what_stands_in_brackets() {
    assert_eq!(extract_class(":::card[example]"), Some("example".to_string()));
    assert_eq!(extract_class(":::card"), None);
    assert_eq!(extract_class(":::card[a][b]"), Some("a][b".to_string()));
    assert_eq!(extract_class(":::card[\"]"), None);
}

#[test]
fn expandable_block_exact() {
    assert_eq!(
        preprocess_expandables(":::expandable\n**H** [Click]\nBody\n::::"),
        "**H** <a class=\"expand-link\" data-bs-toggle=\"collapse\" href='#expand-1'>Click</a>\n\n<div class=\"collapse\" id=\"expand-1\">\n  <div class=\"card card-body\">\nBody\n  </div>\n</div>\n"
    );
}

#[test]
fn expandable_block_generates_one_id() {
    let out = preprocess_expandables(":::expandable\n**H** [Click]\nBody\n::::");
    assert_eq!(out.matches("href='#expand-1'").count(), 1);
    assert_eq!(out.matches("id=\"expand-1\"").count(), 1);
    assert!(!out.contains("expand-2"));
    assert!(out.starts_with("**H** <a "));
    assert!(out.contains(">Click</a>"));
}

#[test]
fn expandable_blocks_are_numbered_in_order() {
    let out = preprocess_expandables(":::expandable\n[a]\n:::\n:::expandable\n[b]\n:::\n:::expandable\n[c]\n:::");
    let first = out.find("expand-1").unwrap();
    let second = out.find("expand-2").unwrap();
    let third = out.find("expand-3").unwrap();
    assert!(first < second && second < third);
    assert!(out.contains("href='#expand-3'>c</a>"));
}

#[test]
fn nested_fence_ends_the_expandable_block() {
    assert_eq!(
        preprocess_expandables(":::expandable\n  H [x]  \nin\n:::card\nout"),
        "H <a class=\"expand-link\" data-bs-toggle=\"collapse\" href='#expand-1'>x</a>\n\n<div class=\"collapse\" id=\"expand-1\">\n  <div class=\"card card-body\">\nin\n  </div>\n</div>\nout\n"
    );
}

#[test]
fn expandable_fence_on_the_last_line() {
    assert_eq!(
        preprocess_expandables(":::expandable"),
        "\n\n<div class=\"collapse\" id=\"expand-1\">\n  <div class=\"card card-body\">\n  </div>\n</div>\n"
    );
}

#[test]
fn math_segments_are_taken_out_and_put_back() {
    let (text, segments) = extract_math_segments("a $x_1$ b $$y$$ c");
    assert_eq!(text, "a MATH_SEGMENT_PLACEHOLDER_0 b MATH_SEGMENT_PLACEHOLDER_1 c");
    assert_eq!(segments, vec!["$x_1$".to_string(), "$$y$$".to_string()]);
    assert_eq!(restore_math_segments(&text, &segments), "a $x_1$ b $$y$$ c");
}

#[test]
fn escaped_and_unclosed_dollars_stay() {
    let (text, segments) = extract_math_segments("cost \\$5 and $open");
    assert_eq!(text, "cost \\$5 and $open");
    assert!(segments.is_empty());
    let (text, segments) = extract_math_segments("$a\\$b$ $$c$d$$");
    assert_eq!(text, "MATH_SEGMENT_PLACEHOLDER_0 MATH_SEGMENT_PLACEHOLDER_1");
    assert_eq!(segments, vec!["$a\\$b$".to_string(), "$$c$d$$".to_string()]);
    let (text, segments) = extract_math_segments("$$x");
    assert_eq!(text, "$$x");
    assert!(segments.is_empty());
    let (text, segments) = extract_math_segments("$$x$");
    assert_eq!(text, "$MATH_SEGMENT_PLACEHOLDER_0");
    assert_eq!(segments, vec!["$x$".to_string()]);
}

#[test]
fn placeholders_are_told_apart_by_their_whole_number() {
    let segments: Vec<String> = (0..11).map(|i| format!("${}$", i)).collect();
    assert_eq!(
        restore_math_segments("MATH_SEGMENT_PLACEHOLDER_10 MATH_SEGMENT_PLACEHOLDER_1", &segments),
        "$10$ $1$"
    );
    assert_eq!(
        restore_math_segments("MATH_SEGMENT_PLACEHOLDER_0 MATH_SEGMENT_PLACEHOLDER_10", &segments),
        "$0$ $1$0"
    );
    assert_eq!(
        restore_math_segments("MATH_SEGMENT_PLACEHOLDER_11 MATH_SEGMENT_PLACEHOLDER_", &segments),
        "$1$1 MATH_SEGMENT_PLACEHOLDER_"
    );
    assert_eq!(restore_math_segments("x", &Vec::new()), "x");
    assert_eq!(restore_math_segments("MATH_SEGMENT_PLACEHOLDER_0", &Vec::new()), "MATH_SEGMENT_PLACEHOLDER_0");
}

#[test]
fn every_span_is_restored_verbatim() {
    let mut text = String::from("MATH_SEGMENT start ");
    for i in 0..25 {
        text.push_str(&format!("$a_{}$0 and $$b\\_{}$$ ", i, i));
    }
    let (without, segments) = extract_math_segments(&text);
    assert_eq!(segments.len(), 50);
    assert!(!without.contains('$'));
    assert_eq!(restore_math_segments(&without, &segments), text);

    let eleven = "$a$".repeat(11);
    let (without, segments) = extract_math_segments(&eleven);
    assert_eq!(restore_math_segments(&without, &segments), eleven);
}

#[test]
fn eleventh_math_span_survives_the_engine() {
    let mut config = get_test_config();
    config.escape_markdown_in_math = false;
    let mut text = String::new();
    for i in 0..12 {
        text.push_str(&format!("$x_{}\\_y$ ", i));
    }
    let output = markdown_to_html(&text, &config).unwrap();
    for i in 0..12 {
        assert!(output.contains(&format!("$x_{}\\_y$", i)), "span {} in {}", i, output);
    }
}

#[test]
fn test_basic_checks() {
    let config = get_test_config();
    let result_1 = markdown_to_html("markdown", &config);
    assert!(result_1.is_ok());
    let output_1 = result_1.unwrap();
    assert_eq!(output_1, "<p>markdown</p>\n");

    let result_2 = markdown_to_html("## heading\ntext\n", &config);
    assert!(result_2.is_ok());
    let output_2 = result_2.unwrap();
    assert_eq!(output_2, "<h2>heading</h2>\n<p>text</p>\n");
}

#[test]
fn test_markdown_with_math() {
    let config = get_test_config();
    let result_3 = markdown_to_html("$$\n2^5\n$$", &config);
    assert!(result_3.is_ok());
    let output_3 = result_3.unwrap();
    assert!(output_3.contains("$$\n2^5\n$$"));
}

#[test]
fn test_autolink() {
    let config = get_test_config();
    let result_4 = markdown_to_html("https://example.com", &config);
    assert!(result_4.is_ok());
    let output_4 = result_4.unwrap();
    assert_eq!(
        output_4,
        "<p><a href=\"https://example.com\">https://example.com</a></p>\n"
    );
}

#[test]
fn test_syntax_highlighting() {
    let config = get_test_config();
    println!("{}", config.syntax_highlighter_theme);
    let result = markdown_to_html("```rust\nfn main() {}\n```", &config);
    assert!(result.is_ok());
    let output = result.unwrap();
    assert!(output.contains("background-color"));
}

#[test]
fn test_alerts() {
    let config = get_test_config();
    let result = markdown_to_html(
        "> [!NOTE]
> Highlights information that users should take into account, even when skimming.",
        &config,
    );
    assert!(result.is_ok());
    let output = result.unwrap();
    assert!(output.contains(r#"<p class="markdown-alert-title">Note</p>"#));
}

#[test]
fn test_strikethrough() {
    let config = get_test_config();
    let result = markdown_to_html("~~strikethrough~~", &config);
    assert!(result.is_ok());
    let output = result.unwrap();
    assert_eq!(output, "<p><del>strikethrough</del></p>\n");
}

#[test]
fn test_table() {
    let config = get_test_config();
    let result = markdown_to_html(
        "| Header 1 | Header 2 |\n| --------- | -------- |\n| Row 1    | Row 2   |",
        &config,
    );
    assert!(result.is_ok());
    let output = result.unwrap();
    assert!(output.contains("<table>"));
}

#[test]
fn test_math_backslash_escaping_enabled() {
    let config = get_test_config();
    let input = "$$
first line \nsecond line
$$";
    let output = markdown_to_html(input, &config).unwrap();

    assert!(output.contains("second line"));
}

#[test]
fn test_math_backslash_escaping_disabled() {
    let mut config = get_test_config();
    config.escape_markdown_in_math = false;

    let input = "$$
first line \
second line
$$";
    let output = markdown_to_html(input, &config).unwrap();

    assert!(output.contains(
        "first line \
second line"
    ));
    assert!(!output.contains("<br />"));
}

#[test]
fn test_custom_html() {
    let config = get_test_config();
    let result = markdown_to_html("<div class=\"custom-class\">Custom HTML</div>", &config);
    assert!(result.is_ok());
    let output = result.unwrap();
    assert_eq!(output, "<div class=\"custom-class\">Custom HTML</div>\n");
}

#[test]
fn test_expandables() {
    let config = get_test_config();
    let input = "Some text

:::expandable
**Proof**. [Click to Expand]

The proof text $2^4$.
::::

Some other text
        ";
    let result = markdown_to_html(input, &config);
    assert!(result.is_ok());
    let output = result.unwrap();
    assert!(output.contains(r#"<p><strong>Proof</strong>. <a class="expand-link" data-bs-toggle="collapse" href='#expand-1'>Click to Expand</a></p>"#));
}

#[test]
fn test_cards() {
    let config = get_test_config();
    let input = r#"Some text
:::card[example]
**Example (Condition Number)** Let $f(x) = \sqrt{x}$. Since $f'(x) = \frac{1}{2\sqrt{x}}$, we have:

$$
\kappa_{rel}(f, x) = \left\lvert \frac{x f'(x)}{f(x)} \right\rvert = \left\lvert \frac{x/(2\sqrt{x})}{\sqrt{x}} \right\rvert = \frac{1}{2}
$$

This means that a given relative change in the input causes a relative change in the output of about half as much.
::::
Some other text
        "#;
    let result = markdown_to_html(input, &config);
    assert!(result.is_ok());
    let output = result.unwrap();
    assert!(output.contains(r#"<div class="card example">"#));
    assert!(output.contains(r#"<strong>Example (Condition Number)</strong>"#));
    assert!(output.contains(r#"Let $f(x) = \sqrt{x}$."#));
    assert!(output.contains(r#"<p>Some other text</p>"#));
}

#[test]
fn math_goes_through_the_engine_where_the_flag_is_set() {
    let mut config = get_test_config();
    config.escape_markdown_in_math = true;
    let output = markdown_to_html("$a_1 *b* c_2$", &config).unwrap();
    assert!(output.contains("<em>b</em>"));
    config.escape_markdown_in_math = false;
    let output = markdown_to_html("$a_1 *b* c_2$", &config).unwrap();
    assert_eq!(output, "<p>$a_1 *b* c_2$</p>\n");
}

#[test]
fn unknown_theme_leaves_code_plain() {
    let mut config = get_test_config();
    config.syntax_highlighter_theme = "no-such-theme".to_string();
    let output = markdown_to_html("```rust\nfn main() {}\n```", &config).unwrap();
    assert!(output.contains("fn main() {}"));
    assert!(!output.contains("background-color"));
    let output = markdown_to_html("*a*", &Config::default()).unwrap();
    assert_eq!(output, "<p><em>a</em></p>\n");
}

#[test]
fn html_fragment_is_returned_verbatim() {
    let config = get_test_config();
    let fragment = FormattedText::Html("<b>not *touched*</b> $x$".to_string());
    match fragment.to_html(&config) {
        Ok(Conversion::Html(html)) => assert_eq!(html, "<b>not *touched*</b> $x$"),
        _ => panic!("expected finished HTML"),
    }
}

#[test]
fn markdown_fragment_is_converted_at_once() {
    let config = get_test_config();
    let fragment = FormattedText::Markdown("*a*".to_string());
    match fragment.to_html(&config) {
        Ok(Conversion::Html(html)) => assert_eq!(html, "<p><em>a</em></p>\n"),
        _ => panic!("expected finished HTML"),
    }
}

#[test]
fn latex_fragment_waits_for_the_renderer() {
    let mut config = get_test_config();
    config.theorems.push(ssg::formatted_text::Theorem {
        name: "theorem".to_string(),
        label: "Theorem".to_string(),
        numbered: true,
    });
    let fragment = FormattedText::Latex("\\begin{theorem}x\\end{theorem}".to_string());
    match fragment.to_html(&config) {
        Ok(Conversion::Latex(job)) => {
            assert_eq!(job.request.input, "**Theorem 1**. x\n");
            assert_eq!(job.finish(Ok("<p>x</p>".to_string())), Ok("<p>x</p>".to_string()));
        }
        _ => panic!("expected a job for the renderer"),
    }
    let broken = FormattedText::Latex("\\begin{a}\\end{b}".to_string());
    assert!(matches!(broken.to_html(&config), Err(_)));
}
