use rhwp::hwpx::serialize_hwpx;
use rhwp::model::{
    BinDataContent, Cell, CharShapeRef, Control, Document, ImageAttr, PageDef, Paragraph, Picture,
    Section, Table,
};
use std::io::Read;

fn entry_text(bytes: &[u8], name: &str) -> String {
    let cursor = std::io::Cursor::new(bytes);
    let mut archive = zip::ZipArchive::new(cursor).expect("valid zip");
    let mut entry = archive.by_name(name).expect("entry");
    let mut xml = String::new();
    entry.read_to_string(&mut xml).expect("read");
    xml
}

fn extract_section0_xml(bytes: &[u8]) -> String {
    entry_text(bytes, "Contents/section0.xml")
}

fn entry_names(bytes: &[u8]) -> Vec<String> {
    let cursor = std::io::Cursor::new(bytes);
    let archive = zip::ZipArchive::new(cursor).expect("valid zip");
    archive.file_names().map(|n| n.expect("name").into_owned()).collect()
}

fn section_entry_count(bytes: &[u8]) -> usize {
    entry_names(bytes)
        .iter()
        .filter(|n| n.starts_with("Contents/section") && n.ends_with(".xml"))
        .count()
}

fn text_doc(texts: &[&str]) -> Document {
    let mut doc = Document::default();
    let mut section = Section::default();
    for t in texts {
        let mut p = Paragraph::default();
        p.text = t.to_string();
        section.paragraphs.push(p);
    }
    doc.sections.push(section);
    doc
}

#[test]
fn serialize_empty_doc_parses_back() {
    let doc = Document::default();
    let bytes = serialize_hwpx(&doc).expect("serialize empty");
    let names = entry_names(&bytes);
    assert_eq!(section_entry_count(&bytes), 0);
    assert!(!names.iter().any(|n| n.starts_with("BinData/")));
}

#[test]
fn serialize_with_one_section_parses_back() {
    let mut doc = Document::default();
    doc.sections.push(Section::default());
    let bytes = serialize_hwpx(&doc).expect("serialize one-section");
    assert_eq!(section_entry_count(&bytes), 1);
}

#[test]
fn serialize_text_paragraph_roundtrip() {
    let doc = text_doc(&["안녕 Hello 123"]);
    let bytes = serialize_hwpx(&doc).expect("serialize text");
    let xml = extract_section0_xml(&bytes);
    assert!(xml.contains("<hp:t>안녕 Hello 123</hp:t>"), "text not injected into section0.xml");
    assert_eq!(section_entry_count(&bytes), 1);
}

#[test]
fn tab_and_linebreak_emitted_inline() {
    let doc = text_doc(&["A\tB\nC"]);
    let bytes = serialize_hwpx(&doc).expect("serialize");
    let xml = extract_section0_xml(&bytes);
    assert!(
        xml.contains(r#"<hp:t>A<hp:tab width="8000" leader="0" type="1"/>B<hp:lineBreak/>C</hp:t>"#),
        "mixed content not rendered: {}",
        xml
    );
}

#[test]
fn linesegs_emitted_per_linebreak() {
    let doc = text_doc(&["A\nB\nC"]);
    let bytes = serialize_hwpx(&doc).expect("serialize");
    let xml = extract_section0_xml(&bytes);
    let count = xml.matches("<hp:lineseg ").count();
    assert_eq!(count, 3, "expected 3 linesegs, got {}: {}", count, xml);
    assert!(xml.contains(r#"textpos="0" vertpos="0""#));
    assert!(xml.contains(r#"textpos="2" vertpos="1600""#));
    assert!(xml.contains(r#"textpos="4" vertpos="3200""#));
}

#[test]
fn multi_paragraph_emits_multiple_hp_p() {
    let doc = text_doc(&["첫째 줄", "둘째", "끝"]);
    let bytes = serialize_hwpx(&doc).expect("serialize");
    let xml = extract_section0_xml(&bytes);
    let p_count = xml.matches("<hp:p ").count();
    assert_eq!(p_count, 3, "expected 3 <hp:p>, got {}", p_count);
    assert!(xml.contains("<hp:t>첫째 줄</hp:t>"));
    assert!(xml.contains("<hp:t>둘째</hp:t>"));
    assert!(xml.contains("<hp:t>끝</hp:t>"));
}

#[test]
fn xml_escape_applied_to_section_text() {
    let doc = text_doc(&["a & b < c"]);
    let bytes = serialize_hwpx(&doc).expect("serialize");
    let xml = extract_section0_xml(&bytes);
    assert!(xml.contains("a &amp; b &lt; c"), "escape missing: {}", xml);
}

#[test]
fn mimetype_is_first_entry() {
    let doc = Document::default();
    let bytes = serialize_hwpx(&doc).expect("serialize");
    assert_eq!(&bytes[0..4], b"PK\x03\x04", "ZIP signature");
    let name_len = u16::from_le_bytes([bytes[26], bytes[27]]) as usize;
    let name = &bytes[30..30 + name_len];
    assert_eq!(name, b"mimetype");
}

#[test]
fn mimetype_stored_not_deflated() {
    let doc = Document::default();
    let bytes = serialize_hwpx(&doc).expect("serialize");
    let method = u16::from_le_bytes([bytes[8], bytes[9]]);
    assert_eq!(method, 0, "mimetype must be STORED (method=0)");
}

#[test]
fn hancom_required_files_present() {
    let mut doc = Document::default();
    doc.sections.push(Section::default());
    let bytes = serialize_hwpx(&doc).expect("serialize");
    let names = entry_names(&bytes);
    let required = [
        "mimetype",
        "version.xml",
        "Contents/header.xml",
        "Contents/section0.xml",
        "Contents/content.hpf",
        "Preview/PrvText.txt",
        "Preview/PrvImage.png",
        "settings.xml",
        "META-INF/container.xml",
        "META-INF/container.rdf",
        "META-INF/manifest.xml",
    ];
    for r in &required {
        assert!(names.iter().any(|n| n == r), "missing required file: {}", r);
    }
}

fn make_picture_doc(bin_data_id: u16, ext: &str, data: Vec<u8>, width: u32, height: u32) -> Document {
    let mut doc = Document::default();
    doc.bin_data_content.push(BinDataContent { id: bin_data_id, data, extension: ext.to_string() });
    let mut sec = Section::default();
    let mut para = Paragraph::default();
    let mut pic = Picture::default();
    pic.common.width = width;
    pic.common.height = height;
    pic.image_attr = ImageAttr { bin_data_id, ..Default::default() };
    para.text = "\u{0002}".to_string();
    para.controls.push(Control::Picture(Box::new(pic)));
    sec.paragraphs.push(para);
    doc.sections.push(sec);
    doc
}

#[test]
fn picture_bindata_entry_generated() {
    let png_bytes = vec![0x89u8, 0x50, 0x4e, 0x47];
    let doc = make_picture_doc(1, "png", png_bytes, 5000, 3000);
    let bytes = serialize_hwpx(&doc).expect("serialize");
    let names = entry_names(&bytes);
    assert!(names.iter().any(|n| n == "BinData/image1.png"), "BinData missing: {:?}", names);
}

#[test]
fn picture_manifest_entry() {
    let png_bytes = vec![0x89u8, 0x50, 0x4e, 0x47];
    let doc = make_picture_doc(1, "png", png_bytes, 5000, 3000);
    let bytes = serialize_hwpx(&doc).expect("serialize");
    let xml = entry_text(&bytes, "Contents/content.hpf");
    assert!(xml.contains("BinData/image1.png"), "manifest missing: {xml}");
    assert!(xml.contains("image/png"), "media-type missing");
}

#[test]
fn picture_roundtrip_attr() {
    let png_bytes = vec![0x89u8, 0x50, 0x4e, 0x47];
    let doc = make_picture_doc(2, "png", png_bytes, 7200, 5400);
    let bytes = serialize_hwpx(&doc).expect("serialize");
    let xml = extract_section0_xml(&bytes);
    assert!(xml.contains("<hp:pic "), "hp:pic missing");
    assert!(xml.contains(r#"binaryItemIDRef="image2""#), "binaryItemIDRef missing: {xml}");
    assert!(xml.contains(r#"width="7200""#), "width missing");
    assert!(xml.contains(r#"height="5400""#), "height missing");
}

fn make_table_doc(row_count: u16, col_count: u16, border_fill_id: u16) -> Document {
    let mut doc = Document::default();
    let mut sec = Section::default();
    let mut para = Paragraph::default();
    let mut tbl = Table::default();
    tbl.row_count = row_count;
    tbl.col_count = col_count;
    tbl.border_fill_id = border_fill_id;
    for r in 0..row_count {
        for c in 0..col_count {
            tbl.cells.push(Cell::new_empty(c, r, 5000, 1000, border_fill_id));
        }
    }
    para.text = "\u{0002}".to_string();
    para.controls.push(Control::Table(Box::new(tbl)));
    sec.paragraphs.push(para);
    doc.sections.push(sec);
    doc
}

#[test]
fn empty_table_roundtrip() {
    let doc = make_table_doc(2, 3, 1);
    let bytes = serialize_hwpx(&doc).expect("serialize");
    assert_eq!(section_entry_count(&bytes), 1);
    let xml = extract_section0_xml(&bytes);
    assert!(xml.contains(r#"rowCnt="2""#), "row_count");
    assert!(xml.contains(r#"colCnt="3""#), "col_count");
    assert_eq!(xml.matches("<hp:tc ").count(), 6);
}

#[test]
fn table_cell_text_roundtrip() {
    let mut doc = Document::default();
    let mut sec = Section::default();
    let mut para = Paragraph::default();
    let mut tbl = Table::default();
    tbl.row_count = 1;
    tbl.col_count = 1;
    tbl.border_fill_id = 1;
    let mut cell = Cell::new_empty(0, 0, 5000, 1000, 1);
    cell.paragraphs.clear();
    let mut cp = Paragraph::default();
    cp.text = "셀 텍스트".to_string();
    cell.paragraphs.push(cp);
    tbl.cells.push(cell);
    para.text = "\u{0002}".to_string();
    para.controls.push(Control::Table(Box::new(tbl)));
    sec.paragraphs.push(para);
    doc.sections.push(sec);

    let bytes = serialize_hwpx(&doc).expect("serialize");
    let xml = extract_section0_xml(&bytes);
    assert!(xml.contains("<hp:tbl "), "tbl missing: {}", &xml[..xml.len().min(500)]);
    assert!(xml.contains("셀 텍스트"), "cell text missing");
    assert!(xml.contains(r#"rowCnt="1""#));
    assert!(xml.contains("<hp:t>셀 텍스트</hp:t>"), "cell text run missing");
}

#[test]
fn table_borderfillidref() {
    let doc = make_table_doc(1, 1, 7);
    let bytes = serialize_hwpx(&doc).expect("serialize");
    let xml = extract_section0_xml(&bytes);
    assert!(xml.contains(r#"borderFillIDRef="7""#), "borderFillIDRef missing: {}", &xml[..xml.len().min(500)]);
}

#[test]
fn table_cellspan_roundtrip() {
    let mut doc = Document::default();
    let mut sec = Section::default();
    let mut para = Paragraph::default();
    let mut tbl = Table::default();
    tbl.row_count = 2;
    tbl.col_count = 2;
    tbl.border_fill_id = 1;
    let mut merged = Cell::new_empty(0, 0, 10000, 1000, 1);
    merged.col_span = 2;
    tbl.cells.push(merged);
    tbl.cells.push(Cell::new_empty(0, 1, 5000, 1000, 1));
    tbl.cells.push(Cell::new_empty(1, 1, 5000, 1000, 1));
    para.text = "\u{0002}".to_string();
    para.controls.push(Control::Table(Box::new(tbl)));
    sec.paragraphs.push(para);
    doc.sections.push(sec);

    let bytes = serialize_hwpx(&doc).expect("serialize");
    let xml = extract_section0_xml(&bytes);
    assert!(xml.contains(r#"<hp:cellSpan colSpan="2" rowSpan="1"/>"#), "colSpan");
    assert_eq!(xml.matches(r#"<hp:cellSpan colSpan="1" rowSpan="1"/>"#).count(), 2, "rowSpan");
}

fn make_section_doc(pd: PageDef) -> Document {
    let mut doc = Document::default();
    let mut sec = Section::default();
    sec.section_def.page_def = pd;
    let mut para = Paragraph::default();
    para.text = "test".to_string();
    sec.paragraphs.push(para);
    doc.sections.push(sec);
    doc
}

#[test]
#[allow(non_snake_case)]
fn pagePr_dynamic_width_height() {
    let mut pd = PageDef::default();
    pd.width = 42000;
    pd.height = 59528;
    pd.landscape = true;
    let bytes = serialize_hwpx(&make_section_doc(pd)).expect("serialize");
    let xml = extract_section0_xml(&bytes);
    assert!(xml.contains(r#"width="42000""#), "width missing: {xml}");
    assert!(xml.contains(r#"height="59528""#), "height missing");
    assert!(xml.contains(r#"landscape="WIDELY""#), "landscape WIDELY missing");
}

#[test]
#[allow(non_snake_case)]
fn pagePr_margins_dynamic() {
    let pd = PageDef {
        width: 59528,
        height: 84186,
        margin_left: 9000,
        margin_right: 9000,
        margin_top: 6000,
        margin_bottom: 5000,
        margin_header: 4000,
        margin_footer: 4000,
        margin_gutter: 1000,
        landscape: true,
        ..Default::default()
    };
    let bytes = serialize_hwpx(&make_section_doc(pd)).expect("serialize");
    let xml = extract_section0_xml(&bytes);
    assert!(xml.contains(r#"left="9000" right="9000""#), "lr missing: {xml}");
    assert!(xml.contains(r#"top="6000" bottom="5000""#), "tb missing");
    assert!(xml.contains(r#"header="4000" footer="4000""#), "header missing");
    assert!(xml.contains(r#"gutter="1000""#), "gutter missing");
}

#[test]
fn single_charshape_single_run() {
    let mut doc = Document::default();
    let mut sec = Section::default();
    let mut para = Paragraph::default();
    para.text = "hello".to_string();
    para.char_shapes = vec![CharShapeRef { start_pos: 0, char_shape_id: 7 }];
    sec.paragraphs.push(para);
    doc.sections.push(sec);
    let bytes = serialize_hwpx(&doc).expect("serialize");
    let xml = extract_section0_xml(&bytes);
    let run_count = xml.matches("<hp:run ").count();
    assert_eq!(run_count, 2, "expected 2 hp:run (secPr + text), got {run_count}: {xml}");
    assert!(xml.contains(r#"charPrIDRef="7""#), "charPrIDRef=7 missing: {xml}");
    assert!(xml.contains("<hp:t>hello</hp:t>"), "text missing: {xml}");
}

#[test]
fn multi_run_splits_correctly() {
    let mut doc = Document::default();
    let mut sec = Section::default();
    let mut para = Paragraph::default();
    para.text = "AB CD".to_string();
    para.char_shapes = vec![
        CharShapeRef { start_pos: 0, char_shape_id: 1 },
        CharShapeRef { start_pos: 2, char_shape_id: 2 },
        CharShapeRef { start_pos: 3, char_shape_id: 3 },
    ];
    sec.paragraphs.push(para);
    doc.sections.push(sec);
    let bytes = serialize_hwpx(&doc).expect("serialize");
    let xml = extract_section0_xml(&bytes);
    let run_count = xml.matches("<hp:run ").count();
    assert_eq!(run_count, 4, "expected 4 hp:run, got {run_count}: {xml}");
    assert!(xml.contains(r#"charPrIDRef="1"><hp:t>AB</hp:t>"#), "run1 missing: {xml}");
    assert!(xml.contains(r#"charPrIDRef="2"><hp:t> </hp:t>"#), "run2 missing: {xml}");
    assert!(xml.contains(r#"charPrIDRef="3"><hp:t>CD</hp:t>"#), "run3 missing: {xml}");
}

#[test]
#[allow(non_snake_case)]
fn pagePr_landscape_narrow() {
    let pd = PageDef { landscape: false, width: 59528, height: 84186, ..Default::default() };
    let bytes = serialize_hwpx(&make_section_doc(pd)).expect("serialize");
    let xml = extract_section0_xml(&bytes);
    assert!(xml.contains(r#"landscape="NARROW""#), "NARROW missing: {xml}");
}

// ----- package layout -----

#[test]
fn package_entry_order_and_count() {
    let mut doc = make_picture_doc(3, "jpg", vec![1, 2, 3], 100, 100);
    doc.sections.push(Section::default());
    let bytes = serialize_hwpx(&doc).expect("serialize");
    let names = entry_names(&bytes);
    let expected = [
        "mimetype",
        "version.xml",
        "Contents/header.xml",
        "Contents/section0.xml",
        "Contents/section1.xml",
        "Preview/PrvText.txt",
        "Preview/PrvImage.png",
        "settings.xml",
        "META-INF/container.rdf",
        "BinData/image3.jpg",
        "Contents/content.hpf",
        "META-INF/container.xml",
        "META-INF/manifest.xml",
    ];
    assert_eq!(names, expected.to_vec());
    let cursor = std::io::Cursor::new(&bytes);
    let mut archive = zip::ZipArchive::new(cursor).expect("zip");
    for i in 0..archive.len() {
        let f = archive.by_index(i).expect("entry");
        let stored = f.compression() == zip::CompressionMethod::Stored;
        assert_eq!(stored, i == 0, "entry {:?} compression", f.name());
    }
}

#[test]
fn image_written_once_per_id() {
    let mut doc = make_picture_doc(5, "PNG", vec![9, 9], 10, 10);
    doc.bin_data_content.push(BinDataContent { id: 5, data: vec![1], extension: "gif".to_string() });
    let mut pic = Picture::default();
    pic.image_attr.bin_data_id = 5;
    let mut p = Paragraph::default();
    p.text = "\u{0002}".to_string();
    p.controls.push(Control::Picture(Box::new(pic)));
    doc.sections[0].paragraphs.push(p);
    let mut zero = Picture::default();
    zero.image_attr.bin_data_id = 0;
    let mut q = Paragraph::default();
    q.text = "\u{0002}".to_string();
    q.controls.push(Control::Picture(Box::new(zero)));
    doc.sections[0].paragraphs.push(q);
    let mut missing = Picture::default();
    missing.image_attr.bin_data_id = 8;
    let mut r = Paragraph::default();
    r.text = "\u{0002}".to_string();
    r.controls.push(Control::Picture(Box::new(missing)));
    doc.sections[0].paragraphs.push(r);

    let bytes = serialize_hwpx(&doc).expect("serialize");
    let names = entry_names(&bytes);
    let bins: Vec<&String> = names.iter().filter(|n| n.starts_with("BinData/")).collect();
    assert_eq!(bins, vec!["BinData/image5.PNG"]);
    let cursor = std::io::Cursor::new(&bytes);
    let mut archive = zip::ZipArchive::new(cursor).expect("zip");
    let mut data = Vec::new();
    archive.by_name("BinData/image5.PNG").expect("image").read_to_end(&mut data).expect("read");
    assert_eq!(data, vec![9, 9]);
    let hpf = entry_text(&bytes, "Contents/content.hpf");
    assert!(hpf.contains(
        r#"<opf:item id="image5" href="BinData/image5.PNG" media-type="image/png" isEmbeded="1"/>"#
    ));
}

#[test]
fn image_inside_table_cell_collected() {
    let mut doc = make_table_doc(1, 1, 1);
    doc.bin_data_content.push(BinDataContent { id: 4, data: vec![7], extension: "bmp".to_string() });
    let mut pic = Picture::default();
    pic.image_attr.bin_data_id = 4;
    if let Control::Table(t) = &mut doc.sections[0].paragraphs[0].controls[0] {
        t.cells[0].paragraphs[0].text = "\u{0002}".to_string();
        t.cells[0].paragraphs[0].controls.push(Control::Picture(Box::new(pic)));
    }
    let bytes = serialize_hwpx(&doc).expect("serialize");
    let names = entry_names(&bytes);
    assert!(names.iter().any(|n| n == "BinData/image4.bmp"));
}

#[test]
fn single_section_without_images_uses_fixed_manifest() {
    let doc = text_doc(&["x"]);
    let bytes = serialize_hwpx(&doc).expect("serialize");
    let hpf = entry_text(&bytes, "Contents/content.hpf");
    assert_eq!(hpf, rhwp::static_assets::EMPTY_CONTENT_HPF);
}

#[test]
fn two_sections_listed_in_manifest_and_spine() {
    let mut doc = text_doc(&["a"]);
    doc.sections.push(Section::default());
    let bytes = serialize_hwpx(&doc).expect("serialize");
    let hpf = entry_text(&bytes, "Contents/content.hpf");
    assert!(hpf.contains(r#"<opf:item id="section0" href="Contents/section0.xml" media-type="application/xml"/><opf:item id="section1" href="Contents/section1.xml" media-type="application/xml"/>"#));
    assert!(hpf.contains(r#"<opf:itemref idref="section0" linear="yes"/><opf:itemref idref="section1" linear="yes"/></opf:spine>"#));
}

#[test]
fn empty_section_gets_one_empty_paragraph() {
    let mut doc = Document::default();
    doc.sections.push(Section::default());
    let bytes = serialize_hwpx(&doc).expect("serialize");
    let xml = extract_section0_xml(&bytes);
    assert_eq!(xml.matches("<hp:p ").count(), 1);
    assert!(xml.contains(r#"<hp:run charPrIDRef="0"><hp:t/></hp:run>"#));
    assert!(xml.ends_with("</hs:sec>"));
}

#[test]
fn second_paragraph_starts_below_first() {
    let doc = text_doc(&["A\nB", "C"]);
    let bytes = serialize_hwpx(&doc).expect("serialize");
    let xml = extract_section0_xml(&bytes);
    assert!(xml.contains(r#"textpos="0" vertpos="3200""#), "{xml}");
}
