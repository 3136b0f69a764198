use nlm::pptx::archive::{
    join_path, layout_entries, layout_label, list_media, parse_usize, planned_assets, slide_count,
    trim_both_matches,
};
use nlm::pptx::slides::{extract_image_targets, extract_layout_name, extract_slide_texts, read_slide, unreadable_slide};
use nlm::pptx::theme::{in_scheme, is_color_role, parse_theme};
use nlm::pptx::{
    file_basename, render_markdown, slide_heading, strip_pptx_ext, BrandCharter, ExtractedAsset, SlideContent,
    ThemeColor,
};
use nlm::xml::{attr, local_name, read_events, XmlEvent, XmlTag};

const THEME: &str = r#"<?xml version="1.0" encoding="UTF-8" standalone="yes"?>
<a:theme xmlns:a="http://schemas.openxmlformats.org/drawingml/2006/main" name="Office Theme">
  <a:themeElements>
    <a:clrScheme name="Office">
      <a:dk1><a:sysClr val="windowText" lastClr="000000"/></a:dk1>
      <a:lt1><a:sysClr val="window"/></a:lt1>
      <a:accent1><a:srgbClr val="5b9bd5"/></a:accent1>
    </a:clrScheme>
    <a:fontScheme name="Office">
      <a:majorFont><a:latin typeface="Calibri Light"/></a:majorFont>
      <a:minorFont><a:latin typeface="Calibri"/></a:minorFont>
    </a:fontScheme>
  </a:themeElements>
  <a:objectDefaults><a:accent2><a:srgbClr val="ffffff"/></a:accent2></a:objectDefaults>
</a:theme>"#;

const SLIDE: &str = r#"<p:sld xmlns:a="http://a" xmlns:p="http://p"><p:cSld><p:spTree><p:sp><p:txBody><a:bodyPr/><a:p><a:r><a:t>Hello</a:t></a:r><a:r><a:t> World</a:t></a:r></a:p></p:txBody></p:sp><p:sp><p:txBody><a:p><a:r><a:t>Line 1</a:t></a:r></a:p><a:p><a:r><a:t>Line 2 &amp; more</a:t></a:r></a:p></p:txBody></p:sp><p:sp><p:txBody><a:p><a:r><a:t>   </a:t></a:r></a:p></p:txBody></p:sp></p:spTree></p:cSld></p:sld>"#;

const RELS: &str = r#"<Relationships xmlns="http://r"><Relationship Id="rId1" Type="http://schemas.openxmlformats.org/officeDocument/2006/relationships/slideLayout" Target="../slideLayouts/slideLayout1.xml"/><Relationship Id="rId2" Type="http://schemas.openxmlformats.org/officeDocument/2006/relationships/image" Target="../media/image1.png"/></Relationships>"#;

#[test]
fn theme_colors_fonts_and_name() {
    let theme = parse_theme(THEME).unwrap();
    assert_eq!(theme.theme_name.as_deref(), Some("Office Theme"));
    let colors: Vec<(&str, &str)> = theme.colors.iter().map(|c| (c.role.as_str(), c.hex.as_str())).collect();
    assert_eq!(colors, vec![("dk1", "000000"), ("lt1", "WINDOW"), ("accent1", "5B9BD5")]);
    assert_eq!(theme.major_font.as_deref(), Some("Calibri Light"));
    assert_eq!(theme.minor_font.as_deref(), Some("Calibri"));
}

#[test]
fn malformed_theme_is_an_error() {
    let err = parse_theme(r#"<a:theme name="T"><a:clrScheme><a:dk1><a:srgbClr val="1"/></a:dk2></a:theme>"#).err();
    assert!(err.unwrap().starts_with("XML error in theme1.xml: "));
}

#[test]
fn color_roles_and_schemes() {
    for r in ["dk1", "lt1", "dk2", "lt2", "accent1", "accent6", "hlink", "folHlink"] {
        assert!(is_color_role(r));
    }
    assert!(!is_color_role("accent7"));
    assert!(!is_color_role("DK1"));
    let path = vec!["theme".to_string(), "clrScheme".to_string(), "dk1".to_string()];
    assert!(in_scheme(&path, "clrScheme"));
    assert!(!in_scheme(&path, "fontScheme"));
}

#[test]
fn slide_text_frames() {
    assert_eq!(extract_slide_texts(SLIDE), vec!["Hello World", "Line 1\nLine 2 & more"]);
    assert_eq!(extract_slide_texts("<p:sld/>"), Vec::<String>::new());
}

#[test]
fn slide_images_from_relationships() {
    assert_eq!(extract_image_targets(RELS), vec!["image1.png"]);
    assert_eq!(extract_image_targets("<Relationships/>"), Vec::<String>::new());
}

#[test]
fn layout_names() {
    let named = r#"<p:sldLayout xmlns:p="http://p" type="title"><p:cSld name="Title Slide"><p:spTree/></p:cSld></p:sldLayout>"#;
    assert_eq!(extract_layout_name(named).as_deref(), Some("Title Slide"));
    let typed = r#"<p:sldLayout xmlns:p="http://p" type="obj"><p:cSld/></p:sldLayout>"#;
    assert_eq!(extract_layout_name(typed).as_deref(), Some("obj"));
    assert_eq!(extract_layout_name("<p:other/>"), None);
    assert_eq!(layout_label(typed, "ppt/slideLayouts/slideLayout2.xml"), "obj");
    assert_eq!(layout_label("<x/>", "ppt/slideLayouts/slideLayout2.xml"), "ppt/slideLayouts/slideLayout2.xml");
}

#[test]
fn slides_take_their_first_frame_as_title() {
    let s = read_slide(3, SLIDE, Some(RELS));
    assert_eq!(s.index, 3);
    assert_eq!(s.title, "Hello World");
    assert_eq!(s.body, "Line 1\nLine 2 & more");
    assert_eq!(s.images, vec!["image1.png"]);
    let bare = read_slide(1, "<p:sld/>", None);
    assert_eq!(bare.title, "");
    assert_eq!(bare.body, "");
    assert!(bare.images.is_empty());
    let bad = unreadable_slide(4, "ppt/slides/slide4.xml not found in archive");
    assert_eq!(bad.index, 4);
    assert_eq!(bad.title, "");
    assert_eq!(bad.body, "[unreadable: ppt/slides/slide4.xml not found in archive]");
}

#[test]
fn xml_events_names_and_attributes() {
    let events = read_events(r#"<a:x k="1" b:k2="2"><y/>t</a:x>"#, false);
    assert_eq!(events.len(), 5);
    match &events[0] {
        XmlEvent::Start(tag) => {
            assert_eq!(tag.name, "a:x");
            assert_eq!(attr(tag, "k").as_deref(), Some("1"));
            assert_eq!(attr(tag, "k2").as_deref(), Some("2"));
            assert_eq!(attr(tag, "k3"), None);
        }
        _ => panic!("expected a start tag"),
    }
    assert!(matches!(&events[1], XmlEvent::Empty(t) if t.name == "y"));
    assert!(matches!(&events[2], XmlEvent::Text(Some(t)) if t == "t"));
    assert!(matches!(&events[3], XmlEvent::End(n) if n == "a:x"));
    assert!(matches!(&events[4], XmlEvent::Eof));
    let broken = read_events("<a></b>", false);
    assert!(matches!(broken.last(), Some(XmlEvent::Error(m)) if !m.is_empty()));
    assert_eq!(local_name("a:b"), "b");
    assert_eq!(local_name("b"), "b");
    assert_eq!(local_name("a:b:c"), "b:c");
    let tag = XmlTag { name: "x".to_string(), attrs: vec![("p:val".to_string(), "v".to_string())] };
    assert_eq!(attr(&tag, "val").as_deref(), Some("v"));
}

#[test]
fn archive_entries() {
    let names: Vec<String> = [
        "[Content_Types].xml",
        "ppt/slides/slide2.xml",
        "ppt/slides/slide10.xml",
        "ppt/slides/_rels/slide2.xml.rels",
        "ppt/slides/slideX.xml",
        "ppt/media/image1.png",
        "ppt/slideLayouts/slideLayout10.xml",
        "ppt/slideLayouts/slideLayout2.xml",
        "ppt/slideLayouts/_rels/slideLayout2.xml.rels",
        "ppt/media/sub/image2.jpeg",
        "ppt/slideLayouts/slideLayout1.xml",
    ]
    .iter()
    .map(|s| s.to_string())
    .collect();
    assert_eq!(slide_count(&names), 10);
    assert_eq!(slide_count(&Vec::new()), 0);
    let media = list_media(&names);
    assert_eq!(media, vec!["ppt/media/image1.png", "ppt/media/sub/image2.jpeg"]);
    assert_eq!(
        layout_entries(&names),
        vec![
            "ppt/slideLayouts/slideLayout1.xml",
            "ppt/slideLayouts/slideLayout2.xml",
            "ppt/slideLayouts/slideLayout10.xml"
        ]
    );
    let planned = planned_assets(&media, "out/assets");
    let got: Vec<(&str, &str)> = planned.iter().map(|a| (a.original_name.as_str(), a.written_to.as_str())).collect();
    assert_eq!(
        got,
        vec![("ppt/media/image1.png", "out/assets/image1.png"), ("ppt/media/sub/image2.jpeg", "out/assets/image2.jpeg")]
    );
}

#[test]
fn number_parsing_and_trimming() {
    assert_eq!(parse_usize("42"), Some(42));
    assert_eq!(parse_usize("+7"), Some(7));
    assert_eq!(parse_usize("007"), Some(7));
    assert_eq!(parse_usize(""), None);
    assert_eq!(parse_usize("+"), None);
    assert_eq!(parse_usize("-1"), None);
    assert_eq!(parse_usize("1a"), None);
    assert_eq!(parse_usize("99999999999999999999999"), None);
    assert_eq!(trim_both_matches("ppt/slideLayouts/slideLayout12.xml", "ppt/slideLayouts/slideLayout", ".xml"), "12");
    assert_eq!(trim_both_matches("aaab.x.x", "a", ".x"), "b");
    assert_eq!(join_path("out", "a.png"), "out/a.png");
    assert_eq!(join_path("out/", "a.png"), "out/a.png");
    assert_eq!(join_path("", "a.png"), "a.png");
    assert_eq!(join_path("out", "/abs.png"), "/abs.png");
}

#[test]
fn small_name_helpers() {
    assert_eq!(file_basename("ppt/media/image1.png"), "image1.png");
    assert_eq!(file_basename("image1.png"), "image1.png");
    assert_eq!(strip_pptx_ext("brand.pptx"), "brand");
    assert_eq!(strip_pptx_ext("BRAND.PPTX"), "BRAND");
    assert_eq!(strip_pptx_ext("brand.Pptx"), "brand.Pptx");
    let s = SlideContent { index: 1, title: "  Hello\nWorld  ".to_string(), body: String::new(), images: vec![] };
    assert_eq!(slide_heading(&s), "Hello World");
    let blank = SlideContent { index: 2, title: " \n ".to_string(), body: String::new(), images: vec![] };
    assert_eq!(slide_heading(&blank), "(no title)");
}

#[test]
fn brand_charter_markdown() {
    let charter = BrandCharter {
        source_filename: "brand.pptx".to_string(),
        theme_name: Some("Office Theme".to_string()),
        colors: vec![ThemeColor { role: "accent1".to_string(), hex: "5B9BD5".to_string() }],
        major_font: Some("Calibri Light".to_string()),
        minor_font: None,
        layouts: vec!["Title Slide".to_string()],
        slides: vec![
            SlideContent {
                index: 1,
                title: "Hello\nWorld".to_string(),
                body: "Body".to_string(),
                images: vec!["image1.png".to_string(), "image2.png".to_string()],
            },
            SlideContent { index: 2, title: String::new(), body: "  ".to_string(), images: vec![] },
        ],
        assets: vec![ExtractedAsset {
            original_name: "ppt/media/image1.png".to_string(),
            written_to: "out/assets/image1.png".to_string(),
        }],
    };
    assert_eq!(
        render_markdown(&charter),
        "# Brand charter — brand\n\n## Theme\n\n- **Theme name** : Office Theme\n- **Heading font** : Calibri Light\n- **Body font** : (unspecified)\n\n## Colors\n\n| Role | Hex |\n|---|---|\n| accent1 | `#5B9BD5` |\n\n## Slide layouts\n\n- Title Slide\n\n## Assets extracted\n\n- `ppt/media/image1.png` → `out/assets/image1.png`\n\n## Slides (2)\n\n### Slide 1 — Hello World\n\nBody\n\n**Images** : image1.png, image2.png\n\n### Slide 2 — (no title)\n\n"
    );
}

#[test]
fn empty_brand_charter_markdown() {
    let charter = BrandCharter {
        source_filename: "t.PPTX".to_string(),
        theme_name: None,
        colors: vec![],
        major_font: None,
        minor_font: None,
        layouts: vec![],
        slides: vec![],
        assets: vec![],
    };
    assert_eq!(
        render_markdown(&charter),
        "# Brand charter — t\n\n## Theme\n\n- **Theme name** : (unspecified)\n- **Heading font** : (unspecified)\n- **Body font** : (unspecified)\n\n## Colors\n\n_(no theme colors detected — template may use a default Office theme)_\n\n## Slide layouts\n\n_(no layouts detected)_\n\n## Assets extracted\n\n_(no media)_\n\n## Slides (0)\n\n"
    );
}

#[test]
fn charter_lines_follow_charter_order() {
    let color = |r: &str, h: &str| ThemeColor { role: r.to_string(), hex: h.to_string() };
    let charter = BrandCharter {
        source_filename: "deck.pptx".to_string(),
        theme_name: None,
        colors: vec![color("dk1", "000000"), color("accent2", "ED7D31"), color("accent1", "4472C4")],
        major_font: None,
        minor_font: None,
        layouts: vec!["Zeta".to_string(), "Alpha".to_string()],
        slides: vec![
            SlideContent { index: 2, title: "B".to_string(), body: String::new(), images: vec![] },
            SlideContent { index: 1, title: "A".to_string(), body: String::new(), images: vec![] },
        ],
        assets: vec![],
    };
    let md = render_markdown(&charter);
    let at = |needle: &str| md.find(needle).unwrap();
    assert!(at("| dk1 | `#000000` |") < at("| accent2 | `#ED7D31` |"));
    assert!(at("| accent2 | `#ED7D31` |") < at("| accent1 | `#4472C4` |"));
    assert!(at("- Zeta\n") < at("- Alpha\n"));
    assert!(at("### Slide 2 — B") < at("### Slide 1 — A"));
}
