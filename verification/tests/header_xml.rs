use rhwp::header::write_header;
use rhwp::hwpx::serialize_hwpx;
use rhwp::model::{CharShape, Document, Font, UnderlineType};
use std::io::Read;

fn extract_header_xml(bytes: &[u8]) -> String {
    let cursor = std::io::Cursor::new(bytes);
    let mut archive = zip::ZipArchive::new(cursor).expect("valid zip");
    let mut entry = archive.by_name("Contents/header.xml").expect("header.xml");
    let mut xml = String::new();
    entry.read_to_string(&mut xml).expect("read");
    xml
}

fn font(name: &str) -> Font {
    Font { name: name.to_string() }
}

#[test]
fn empty_doc_has_seven_fontfaces() {
    let doc = Document::default();
    let bytes = serialize_hwpx(&doc).expect("serialize");
    let xml = extract_header_xml(&bytes);
    assert!(xml.contains(r#"<hh:fontfaces itemCnt="7">"#), "fontfaces missing: {xml}");
    for lang in ["HANGUL", "LATIN", "HANJA", "JAPANESE", "OTHER", "SYMBOL", "USER"] {
        assert!(xml.contains(&format!(r#"lang="{lang}""#)), "lang {lang} missing");
    }
}

#[test]
fn font_name_appears_in_fontfaces() {
    let mut doc = Document::default();
    doc.doc_info.font_faces = vec![Vec::new(); 7];
    doc.doc_info.font_faces[0].push(font("HY고딕"));
    doc.doc_info.font_faces[0].push(font("함초롬바탕"));
    let bytes = serialize_hwpx(&doc).expect("serialize");
    let xml = extract_header_xml(&bytes);
    assert!(xml.contains(r#"face="HY고딕""#), "HY고딕 missing: {xml}");
    assert!(xml.contains(r#"face="함초롬바탕""#), "함초롬바탕 missing");
    assert!(xml.contains(r#"fontCnt="2""#), "HANGUL fontCnt=2 missing");
}

#[test]
fn font_face_name_xml_escaped() {
    let mut doc = Document::default();
    doc.doc_info.font_faces = vec![Vec::new(); 7];
    doc.doc_info.font_faces[0].push(font("A&B<C"));
    let bytes = serialize_hwpx(&doc).expect("serialize");
    let xml = extract_header_xml(&bytes);
    assert!(xml.contains(r#"face="A&amp;B&lt;C""#), "escape missing: {xml}");
}

#[test]
fn font_faces_roundtrip() {
    let mut doc = Document::default();
    doc.doc_info.font_faces = vec![Vec::new(); 7];
    doc.doc_info.font_faces[0].push(font("함초롬돋움"));
    doc.doc_info.font_faces[1].push(font("Times New Roman"));
    let bytes = serialize_hwpx(&doc).expect("serialize");
    let xml = extract_header_xml(&bytes);
    assert!(xml.contains(r#"<hh:fontface lang="HANGUL" fontCnt="1"><hh:font id="0" face="함초롬돋움""#));
    assert!(xml.contains(r#"<hh:fontface lang="LATIN" fontCnt="1"><hh:font id="0" face="Times New Roman""#));
    for lang in ["HANJA", "JAPANESE", "OTHER", "SYMBOL", "USER"] {
        assert!(
            xml.contains(&format!(r#"<hh:fontface lang="{lang}" fontCnt="0"></hh:fontface>"#)),
            "group {lang} should be empty"
        );
    }
}

fn make_charpr_doc(cs: CharShape) -> Document {
    let mut doc = Document::default();
    doc.doc_info.char_shapes.push(cs);
    doc
}

#[test]
fn empty_charshapes_emits_default_charpr() {
    let doc = Document::default();
    let bytes = serialize_hwpx(&doc).expect("serialize");
    let xml = extract_header_xml(&bytes);
    assert!(xml.contains(r##"<hh:charProperties itemCnt="1">"##), "default charPr missing: {xml}");
    assert!(xml.contains(r##"id="0""##));
}

#[test]
fn charpr_bold_italic_emitted() {
    let cs = CharShape { bold: true, italic: true, base_size: 1000, ..Default::default() };
    let bytes = serialize_hwpx(&make_charpr_doc(cs)).expect("serialize");
    let xml = extract_header_xml(&bytes);
    assert!(xml.contains("<hh:bold/>"), "bold missing");
    assert!(xml.contains("<hh:italic/>"), "italic missing");
}

#[test]
fn charpr_no_bold_italic_when_false() {
    let cs = CharShape { bold: false, italic: false, ..Default::default() };
    let bytes = serialize_hwpx(&make_charpr_doc(cs)).expect("serialize");
    let xml = extract_header_xml(&bytes);
    assert!(!xml.contains("<hh:bold/>"), "bold should not appear");
    assert!(!xml.contains("<hh:italic/>"), "italic should not appear");
}

#[test]
fn charpr_underline_bottom_emitted() {
    let cs = CharShape {
        underline_type: UnderlineType::Bottom,
        underline_shape: 0,
        underline_color: 0x00000000,
        ..Default::default()
    };
    let bytes = serialize_hwpx(&make_charpr_doc(cs)).expect("serialize");
    let xml = extract_header_xml(&bytes);
    assert!(xml.contains(r##"type="BOTTOM""##), "underline BOTTOM missing: {xml}");
    assert!(xml.contains(r##"shape="SOLID""##), "shape missing");
}

#[test]
fn charpr_strikeout_emitted() {
    let cs = CharShape { strikethrough: true, strike_shape: 0, strike_color: 0, ..Default::default() };
    let bytes = serialize_hwpx(&make_charpr_doc(cs)).expect("serialize");
    let xml = extract_header_xml(&bytes);
    assert!(xml.contains("<hh:strikeout "), "strikeout missing: {xml}");
}

#[test]
fn charpr_roundtrip() {
    let cs = CharShape {
        base_size: 1200,
        bold: true,
        font_ids: [1, 2, 0, 0, 0, 0, 0],
        ratios: [100, 90, 100, 100, 100, 100, 100],
        spacings: [0, -5, 0, 0, 0, 0, 0],
        relative_sizes: [100; 7],
        char_offsets: [0; 7],
        text_color: 0x000000FF,
        shade_color: 0xFFFFFFFF,
        border_fill_id: 2,
        ..Default::default()
    };
    let mut doc = Document::default();
    doc.doc_info.char_shapes.push(cs.clone());
    let bytes = serialize_hwpx(&doc).expect("serialize");
    let xml = extract_header_xml(&bytes);
    assert!(xml.contains(r#"<hh:charProperties itemCnt="1">"#));
    assert!(xml.contains(r##"<hh:charPr id="0" height="1200" textColor="#FF0000" shadeColor="none""##), "{xml}");
    assert!(xml.contains("<hh:bold/>"));
    assert!(xml.contains(r#"<hh:fontRef hangul="1" latin="2" hanja="0" japanese="0" other="0" symbol="0" user="0"/>"#));
    assert!(xml.contains(r#"<hh:ratio hangul="100" latin="90" hanja="100" japanese="100" other="100" symbol="100" user="100"/>"#));
    assert!(xml.contains(r#"<hh:spacing hangul="0" latin="-5" hanja="0" japanese="0" other="0" symbol="0" user="0"/>"#));
    assert!(xml.contains(r#"symMark="NONE" borderFillIDRef="2">"#));
}

#[test]
fn write_header_is_header_entry() {
    let mut doc = Document::default();
    doc.doc_info.char_shapes.push(CharShape::default());
    doc.doc_info.char_shapes.push(CharShape { italic: true, ..Default::default() });
    let direct = write_header(&doc).expect("header");
    let bytes = serialize_hwpx(&doc).expect("serialize");
    assert_eq!(String::from_utf8(direct).expect("utf8"), extract_header_xml(&bytes));
}

#[test]
fn two_char_shapes_numbered_in_order() {
    let mut doc = Document::default();
    doc.doc_info.char_shapes.push(CharShape::default());
    doc.doc_info.char_shapes.push(CharShape { italic: true, ..Default::default() });
    let xml = String::from_utf8(write_header(&doc).expect("header")).expect("utf8");
    assert!(xml.contains(r#"<hh:charProperties itemCnt="2"><hh:charPr id="0" "#));
    assert!(xml.contains(r#"<hh:charPr id="1" "#));
    assert_eq!(xml.matches("<hh:italic/>").count(), 1);
    assert!(xml.starts_with("<?xml version=\"1.0\" encoding=\"UTF-8\" standalone=\"yes\" ?><hh:head "));
    assert!(xml.ends_with("</hh:head>"));
}
