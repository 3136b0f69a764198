use std::io::{Cursor, Write};

use nlm::pptx::package::{brand_charter, entry_names, media_content, read_slide_at, read_theme};
use zip::write::SimpleFileOptions;
use zip::{CompressionMethod, ZipWriter};

fn archive(entries: &[(&str, &[u8])]) -> Vec<u8> {
    let mut w = ZipWriter::new(Cursor::new(Vec::new()));
    let opts = SimpleFileOptions::default().compression_method(CompressionMethod::Stored);
    for (name, data) in entries {
        w.start_file(*name, opts.clone()).unwrap();
        w.write_all(data).unwrap();
    }
    w.finish().unwrap().into_inner()
}

const THEME: &str = r#"<a:theme xmlns:a="http://a" name="Brand"><a:themeElements><a:clrScheme name="c"><a:accent1><a:srgbClr val="ff0000"/></a:accent1></a:clrScheme><a:fontScheme name="f"><a:majorFont><a:latin typeface="Inter"/></a:majorFont></a:fontScheme></a:themeElements></a:theme>"#;
const SLIDE1: &str = r#"<p:sld xmlns:a="http://a" xmlns:p="http://p"><p:sp><p:txBody><a:p><a:r><a:t>Welcome</a:t></a:r></a:p></p:txBody></p:sp><p:sp><p:txBody><a:p><a:r><a:t>Agenda</a:t></a:r></a:p></p:txBody></p:sp></p:sld>"#;
const RELS1: &str = r#"<Relationships><Relationship Type="http://x/relationships/image" Target="../media/logo.png"/></Relationships>"#;
const LAYOUT1: &str = r#"<p:sldLayout xmlns:p="http://p"><p:cSld name="Title Slide"/></p:sldLayout>"#;
const LAYOUT2: &str = r#"<p:sldLayout xmlns:p="http://p" type="blank"><p:cSld/></p:sldLayout>"#;

fn template() -> Vec<u8> {
    archive(&[
        ("[Content_Types].xml", b"<Types/>"),
        ("ppt/theme/theme1.xml", THEME.as_bytes()),
        ("ppt/slides/slide1.xml", SLIDE1.as_bytes()),
        ("ppt/slides/_rels/slide1.xml.rels", RELS1.as_bytes()),
        ("ppt/slides/slide3.xml", b"<p:sld/>"),
        ("ppt/slideLayouts/slideLayout2.xml", LAYOUT2.as_bytes()),
        ("ppt/slideLayouts/slideLayout1.xml", LAYOUT1.as_bytes()),
        ("ppt/media/logo.png", &[0x89, 0x50, 0x4e, 0x47]),
    ])
}

#[test]
fn entry_names_in_archive_order() {
    let names = entry_names(&template()).unwrap();
    assert_eq!(names.len(), 8);
    assert_eq!(names[0], "[Content_Types].xml");
    assert_eq!(names[7], "ppt/media/logo.png");
    assert!(entry_names(b"not a zip archive").is_none());
}

#[test]
fn theme_read_from_the_archive() {
    let theme = read_theme(&template());
    assert_eq!(theme.theme_name.as_deref(), Some("Brand"));
    assert_eq!(theme.colors.len(), 1);
    assert_eq!(theme.colors[0].role, "accent1");
    assert_eq!(theme.colors[0].hex, "FF0000");
    assert_eq!(theme.major_font.as_deref(), Some("Inter"));
    assert_eq!(theme.minor_font, None);
    let no_theme = read_theme(&archive(&[("a.txt", b"x")]));
    assert!(no_theme.theme_name.is_none() && no_theme.colors.is_empty());
    let bad = archive(&[("ppt/theme/theme1.xml", b"<a:theme name=\"T\"><a:dk1></a:dk2></a:theme>")]);
    let malformed = read_theme(&bad);
    assert!(malformed.theme_name.is_none() && malformed.colors.is_empty());
}

#[test]
fn slides_read_from_the_archive() {
    let bytes = template();
    let s1 = read_slide_at(&bytes, 1);
    assert_eq!(s1.title, "Welcome");
    assert_eq!(s1.body, "Agenda");
    assert_eq!(s1.images, vec!["logo.png"]);
    let s2 = read_slide_at(&bytes, 2);
    assert_eq!(s2.body, "[unreadable: ppt/slides/slide2.xml not found in archive]");
    let bad = archive(&[("ppt/slides/slide1.xml", &[0xff, 0xfe, 0x00])]);
    let s = read_slide_at(&bad, 1);
    assert!(s.body.starts_with("[unreadable: "));
    assert!(!s.body.contains("not found"));
}

#[test]
fn brand_charter_of_a_template() {
    let bytes = template();
    let c = brand_charter(&bytes, "brand.pptx", "out/assets").unwrap();
    assert_eq!(c.source_filename, "brand.pptx");
    assert_eq!(c.theme_name.as_deref(), Some("Brand"));
    assert_eq!(c.layouts, vec!["Title Slide", "blank"]);
    assert_eq!(c.slides.len(), 3);
    assert_eq!(c.slides[0].index, 1);
    assert_eq!(c.slides[1].body, "[unreadable: ppt/slides/slide2.xml not found in archive]");
    assert_eq!(c.slides[2].index, 3);
    assert_eq!(c.slides[2].title, "");
    assert_eq!(c.assets.len(), 1);
    assert_eq!(c.assets[0].original_name, "ppt/media/logo.png");
    assert_eq!(c.assets[0].written_to, "out/assets/logo.png");
    assert!(brand_charter(b"PK but not really", "x.pptx", "a").is_none());
}

#[test]
fn media_bytes_and_missing_entries() {
    let bytes = template();
    assert_eq!(media_content(&bytes, "ppt/media/logo.png").unwrap(), vec![0x89, 0x50, 0x4e, 0x47]);
    match media_content(&bytes, "ppt/media/none.png") {
        Err(e) => assert_eq!(e, "ppt/media/none.png not found in archive"),
        Ok(_) => panic!("expected a missing entry"),
    }
}
