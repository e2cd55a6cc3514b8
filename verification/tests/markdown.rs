use fsconcat::markdown_preview::{
    HtmlFile, Markdown, MarkdownPreview, Preview, PreviewError,
};

#[test]
fn heading_and_paragraph_render_to_html_elements() {
    let markdown = Markdown::new("# Title\n\nHello".to_string());
    let html = markdown.to_html();
    assert!(html.contains("<h1>"), "{}", html);
    assert!(html.contains("Title"), "{}", html);
    assert!(html.contains("<p>"), "{}", html);
    assert!(html.contains("Hello"), "{}", html);
}

#[test]
fn rendering_two_inputs_concatenates_their_renders() {
    let first = "# One\n\nalpha".to_string();
    let second = "# Two\n\nbeta".to_string();
    let separate = Markdown::new(first.clone()).to_html() + &Markdown::new(second.clone()).to_html();
    let preview = MarkdownPreview::new(vec![first, second]).unwrap();
    assert_eq!(preview.render_html(), separate);
}

#[test]
fn rendering_no_inputs_gives_the_empty_string() {
    let preview = MarkdownPreview::new(Vec::new()).unwrap();
    assert_eq!(preview.render_html(), String::new());
}

#[test]
fn previewer_renders_into_preview_html() {
    let preview = MarkdownPreview::new(vec!["x".to_string()]).unwrap();
    assert_eq!(preview.html_file.path, "preview.html");
    assert_eq!(preview.preview.path, "preview.html");
    assert_eq!(preview.markdowns.len(), 1);
}

#[test]
fn viewer_command_depends_on_the_platform() {
    assert_eq!(Preview::viewer_command(true, false).unwrap(), "cmd");
    assert_eq!(Preview::viewer_command(true, true).unwrap(), "cmd");
    assert_eq!(Preview::viewer_command(false, true).unwrap(), "open");
    assert!(matches!(
        Preview::viewer_command(false, false),
        Err(PreviewError::UnsupportedPlatform)
    ));
}

#[test]
fn path_holders_keep_their_paths() {
    let html_file = HtmlFile::new("preview.html".to_string());
    assert_eq!(html_file.path, "preview.html");
    let preview = Preview::new("preview.html".to_string());
    assert_eq!(preview.path, "preview.html");
}
