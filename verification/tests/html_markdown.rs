use swiftide_integrations::html_markdown::HtmlToMarkdownTransformer;

#[test]
fn test_html_to_markdown() {
    let transformer = HtmlToMarkdownTransformer::default();
    let chunk = transformer
        .transform_chunk("<h1>Hello, World!</h1>")
        .unwrap();
    assert_eq!(chunk, "# Hello, World!");
}

#[test]
fn scripts_and_styles_are_dropped() {
    let transformer = HtmlToMarkdownTransformer::new();
    let html = "<style>p { color: red; }</style><p>Kept</p><script>alert(1)</script>";
    assert_eq!(transformer.transform_chunk(html).unwrap(), "Kept");

    let only_images = HtmlToMarkdownTransformer::new()
        .with_skip_tags(vec!["img".to_string()])
        .with_concurrency(2);
    assert_eq!(only_images.concurrency(), Some(2));
    assert_eq!(
        only_images.transform_chunk("<p>Kept</p><img src=\"x.png\">").unwrap(),
        "Kept"
    );
    let with_script = only_images.transform_chunk("<p>Kept</p><script>alert(1)</script>").unwrap();
    assert!(with_script.starts_with("Kept"));
}
