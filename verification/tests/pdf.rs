use std::path::Path;

use lopdf::content::{Content, Operation};
use lopdf::{Dictionary, Document, Object, Stream};

use swiftide_integrations::pdf::{format_as_markdown_text, PdfError, PdfLoader};

#[test]
fn test_pdf_loader_creation() {
    let loader = PdfLoader::from_path("test.pdf");
    assert_eq!(Path::new(loader.path()), Path::new("test.pdf"));
    assert!(loader.is_markdown_formatting_enabled());
}

#[test]
fn test_pdf_loader_builder() {
    let loader = PdfLoader::builder()
        .path("test.pdf")
        .format_as_markdown(false)
        .build()
        .unwrap();

    assert_eq!(Path::new(loader.path()), Path::new("test.pdf"));
    assert!(!loader.is_markdown_formatting_enabled());
}

#[test]
fn test_pdf_loader_with_markdown_formatting() {
    let loader = PdfLoader::from_path("test.pdf").with_markdown_formatting(false);

    assert!(!loader.is_markdown_formatting_enabled());
}

#[test]
fn test_format_as_markdown_text() {
    let loader = PdfLoader::from_path("test.pdf");
    let input = "Line 1\n\nLine 2\n   Line 3   \n\n\nLine 4";
    let expected = "Line 1\n\nLine 2 Line 3\n\nLine 4";
    let result = loader.format_as_markdown_text(input);
    assert_eq!(result, expected);
}

#[test]
fn test_format_as_markdown_text_empty() {
    let loader = PdfLoader::from_path("test.pdf");
    let result = loader.format_as_markdown_text("");
    assert_eq!(result, "");
}

#[test]
fn test_format_as_markdown_text_single_line() {
    let loader = PdfLoader::from_path("test.pdf");
    let input = "Single line of text";
    let result = loader.format_as_markdown_text(input);
    assert_eq!(result, "Single line of text");
}

#[test]
fn builder_without_path_fails() {
    assert!(matches!(PdfLoader::builder().build(), Err(PdfError::MissingPath)));
}

#[test]
fn markdown_drops_blank_only_paragraphs_and_windows_line_ends() {
    assert_eq!(format_as_markdown_text("  a\r\n b \r\n\r\n\r\nc  "), "a b\n\nc");
    assert_eq!(format_as_markdown_text("\n\n   \n"), "");
}

#[test]
fn page_nodes_keep_order_and_count_pages() {
    let loader = PdfLoader::from_path("doc.pdf");
    let pages = loader
        .page_nodes(vec![(1, "First   page\ntext".to_string()), (2, "Second".to_string())])
        .unwrap();
    assert_eq!(pages.len(), 2);
    assert_eq!(pages[0].chunk, "First   page text");
    assert_eq!(pages[0].page_number, 1);
    assert_eq!(pages[0].total_pages, 2);
    assert_eq!(pages[0].path, "doc.pdf");
    assert_eq!(pages[0].original_size, pages[0].chunk.len());
    assert_eq!(pages[1].chunk, "Second");
    assert!(matches!(loader.page_nodes(Vec::new()), Err(PdfError::NoPages)));

    let raw = PdfLoader::from_path("doc.pdf").with_markdown_formatting(false);
    let raw_pages = raw.page_nodes(vec![(7, " a\n\nb ".to_string())]).unwrap();
    assert_eq!(raw_pages[0].chunk, " a\n\nb ");
}

#[test]
fn loader_display_names_its_path() {
    assert_eq!(PdfLoader::from_path("x/y.pdf").to_display_string(), "PdfLoader(x/y.pdf)");
}

fn sample_pdf(texts: &[&str]) -> Vec<u8> {
    let mut doc = Document::with_version("1.5");
    let pages_id = doc.new_object_id();
    let mut font = Dictionary::new();
    font.set("Type", "Font");
    font.set("Subtype", "Type1");
    font.set("BaseFont", "Courier");
    let font_id = doc.add_object(font);
    let mut fonts = Dictionary::new();
    fonts.set("F1", font_id);
    let mut resources = Dictionary::new();
    resources.set("Font", fonts);
    let resources_id = doc.add_object(resources);
    let mut kids: Vec<Object> = Vec::new();
    for text in texts {
        let content = Content {
            operations: vec![
                Operation::new("BT", vec![]),
                Operation::new("Tf", vec!["F1".into(), 24.into()]),
                Operation::new("Td", vec![100.into(), 600.into()]),
                Operation::new("Tj", vec![Object::string_literal(*text)]),
                Operation::new("ET", vec![]),
            ],
        };
        let content_id = doc.add_object(Stream::new(Dictionary::new(), content.encode().unwrap()));
        let mut page = Dictionary::new();
        page.set("Type", "Page");
        page.set("Parent", pages_id);
        page.set("Contents", content_id);
        kids.push(doc.add_object(page).into());
    }
    let mut pages = Dictionary::new();
    pages.set("Type", "Pages");
    pages.set("Count", texts.len() as i64);
    pages.set("Kids", kids);
    pages.set("Resources", resources_id);
    let media_box: Vec<Object> = vec![0.into(), 0.into(), 595.into(), 842.into()];
    pages.set("MediaBox", media_box);
    doc.objects.insert(pages_id, Object::Dictionary(pages));
    let mut catalog = Dictionary::new();
    catalog.set("Type", "Catalog");
    catalog.set("Pages", pages_id);
    let catalog_id = doc.add_object(catalog);
    doc.trailer.set("Root", catalog_id);
    let mut bytes = Vec::new();
    doc.save_to(&mut bytes).unwrap();
    bytes
}

#[test]
fn extract_pdf_pages_makes_one_node_per_page() {
    let loader = PdfLoader::builder()
        .path("doc.pdf")
        .format_as_markdown(false)
        .build()
        .unwrap();
    let pages = loader.extract_pdf_pages(&sample_pdf(&["Hello", "World"])).unwrap();
    assert_eq!(pages.len(), 2);
    assert_eq!(pages[0].page_number, 1);
    assert_eq!(pages[1].page_number, 2);
    assert!(pages.iter().all(|p| p.total_pages == 2 && p.path == "doc.pdf"));
    assert!(pages[0].chunk.contains("Hello"));
    assert!(pages[1].chunk.contains("World"));
    assert_eq!(pages[0].original_size, pages[0].chunk.len());
}

#[test]
fn extract_pdf_pages_errors() {
    let loader = PdfLoader::from_path("doc.pdf");
    assert_eq!(
        loader.extract_pdf_pages(b"not a pdf at all").unwrap_err(),
        PdfError::Unreadable
    );
    assert_eq!(loader.extract_pdf_pages(&sample_pdf(&[])).unwrap_err(), PdfError::NoPages);
}
