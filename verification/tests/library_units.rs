use rhwp::content::{write_content_hpf, BinDataEntry};
use rhwp::error::{HwpError, SerializeError};
use rhwp::model::{BorderLineType, Cell, Alignment, LineSpacingType, Paragraph, Picture, Table, Control, VerticalAlign};
use rhwp::picture::{bin_data_path, media_type, write_picture};
use rhwp::section::render_paragraph_runs;
use rhwp::table::write_table;
use rhwp::utils::{
    alignment_to_str, border_line_type_to_str, border_width_to_str, color_ref_to_hex, empty_tag,
    end_tag, line_shape_to_str, line_spacing_type_to_str, start_tag, start_tag_attrs, text,
    write_xml_decl, xml_escape, XmlWriter,
};
use rhwp::zip_writer::HwpxZipWriter;
use std::io::Read;

// ----- XML escaping -----

#[test]
fn xml_escape_all_five_characters() {
    assert_eq!(xml_escape("a&b<c>\"d'e"), "a&amp;b&lt;c&gt;&quot;d&apos;e");
}

#[test]
fn xml_escape_keeps_plain_text() {
    assert_eq!(xml_escape("plain 한글 text\t\n"), "plain 한글 text\t\n");
    assert_eq!(xml_escape(""), "");
}

#[test]
fn xml_escape_of_concatenation() {
    let a = "x<y";
    let b = "&z";
    assert_eq!(xml_escape(&format!("{a}{b}")), format!("{}{}", xml_escape(a), xml_escape(b)));
}

#[test]
fn xml_escape_output_has_no_markup() {
    let out = xml_escape("<tag attr=\"v\">'q'</tag> & more");
    assert!(!out.contains('<') && !out.contains('>') && !out.contains('"') && !out.contains('\''));
    for (i, _) in out.match_indices('&') {
        let rest = &out[i..];
        assert!(
            rest.starts_with("&amp;")
                || rest.starts_with("&lt;")
                || rest.starts_with("&gt;")
                || rest.starts_with("&quot;")
                || rest.starts_with("&apos;")
        );
    }
}

// ----- value notations -----

#[test]
fn color_ref_to_hex_values() {
    assert_eq!(color_ref_to_hex(0x000000FF), "#FF0000");
    assert_eq!(color_ref_to_hex(0x00123456), "#563412");
    assert_eq!(color_ref_to_hex(0), "#000000");
    assert_eq!(color_ref_to_hex(0xFFFFFFFF), "none");
    assert_eq!(color_ref_to_hex(0x01ABCDEF), "#EFCDAB");
}

#[test]
fn line_shape_names() {
    assert_eq!(line_shape_to_str(0), "SOLID");
    assert_eq!(line_shape_to_str(1), "DASH");
    assert_eq!(line_shape_to_str(12), "DOUBLE_WAVE");
    assert_eq!(line_shape_to_str(200), "SOLID");
}

#[test]
fn border_line_type_names() {
    assert_eq!(border_line_type_to_str(&BorderLineType::NoLine), "NONE");
    assert_eq!(border_line_type_to_str(&BorderLineType::Double), "DOUBLE_SLIM");
    assert_eq!(border_line_type_to_str(&BorderLineType::Wave), "WAVE");
}

#[test]
fn border_width_alignment_spacing_names() {
    assert_eq!(border_width_to_str(0), "0.1 mm");
    assert_eq!(alignment_to_str(Alignment::Center), "CENTER");
    assert_eq!(line_spacing_type_to_str(LineSpacingType::Percent), "PERCENT");
}

// ----- pictures -----

#[test]
fn bin_data_path_format() {
    assert_eq!(bin_data_path(3, "jpg"), "BinData/image3.jpg");
    assert_eq!(bin_data_path(65535, "png"), "BinData/image65535.png");
    assert_eq!(bin_data_path(0, ""), "BinData/image0.");
}

#[test]
fn media_type_by_extension() {
    assert_eq!(media_type("png"), "image/png");
    assert_eq!(media_type("PNG"), "image/png");
    assert_eq!(media_type("Jpeg"), "image/jpeg");
    assert_eq!(media_type("jpg"), "image/jpeg");
    assert_eq!(media_type("bmp"), "image/bmp");
    assert_eq!(media_type("gif"), "image/gif");
    assert_eq!(media_type("tif"), "image/tiff");
    assert_eq!(media_type("wmf"), "image/x-wmf");
    assert_eq!(media_type("emf"), "image/x-emf");
    assert_eq!(media_type("xyz"), "application/octet-stream");
}

#[test]
fn write_picture_reference_and_size() {
    let mut pic = Picture::default();
    pic.common.width = 7200;
    pic.common.height = 5400;
    pic.image_attr.bin_data_id = 2;
    pic.image_attr.brightness = -3;
    let mut out = String::from("X");
    write_picture(&mut out, &pic);
    assert!(out.starts_with("X<hp:pic id=\"0\""));
    assert!(out.contains(r#"<hc:img binaryItemIDRef="image2" bright="-3" contrast="0" effect="REAL_PIC"/>"#), "{out}");
    assert!(out.contains(r#"width="7200""#));
    assert!(out.ends_with("</hp:pic>"));
}

// ----- paragraphs and tables -----

#[test]
fn paragraph_runs_and_vertical_advance() {
    let mut p = Paragraph::default();
    p.text = "A\nB\nC".to_string();
    let (runs, segs, next) = render_paragraph_runs(&p, 1000, 8000);
    assert_eq!(next, 1000 + 3 * 1600);
    assert_eq!(runs, r#"<hp:run charPrIDRef="0"><hp:t>A<hp:lineBreak/>B<hp:lineBreak/>C</hp:t></hp:run>"#);
    assert_eq!(segs.matches("<hp:lineseg ").count(), 3);
    assert!(segs.contains(r#"textpos="2" vertpos="2600""#));
}

#[test]
fn paragraph_control_placeholder_renders_table_before_text() {
    let mut p = Paragraph::default();
    p.text = "x\u{0002}y".to_string();
    let mut tbl = Table::default();
    tbl.row_count = 1;
    tbl.col_count = 1;
    tbl.cells.push(Cell::new_empty(0, 0, 100, 100, 1));
    p.controls.push(Control::Table(Box::new(tbl)));
    let (runs, _, next) = render_paragraph_runs(&p, 0, 8000);
    assert_eq!(next, 1600);
    let first = runs.find("<hp:t>x</hp:t>").expect("x run");
    let table = runs.find("<hp:tbl ").expect("table");
    let y = runs.find("<hp:t>y</hp:t>").expect("y text");
    assert!(first < table && table < y, "{runs}");
}

#[test]
fn paragraph_unplaced_control_gets_own_run() {
    let mut p = Paragraph::default();
    p.text = "only text".to_string();
    p.controls.push(Control::Picture(Box::new(Picture::default())));
    let (runs, _, _) = render_paragraph_runs(&p, 0, 8000);
    assert_eq!(runs.matches("<hp:run ").count(), 2, "{runs}");
    assert!(runs.ends_with("<hp:t/></hp:run>"), "{runs}");
}

#[test]
fn write_table_cells_and_counts() {
    let mut tbl = Table::default();
    tbl.row_count = 1;
    tbl.col_count = 2;
    tbl.border_fill_id = 3;
    tbl.cells.push(Cell::new_empty(0, 0, 5000, 1000, 3));
    tbl.cells.push(Cell::new_empty(1, 0, 5000, 1000, 3));
    let mut out = String::new();
    write_table(&mut out, &tbl, 8000);
    assert!(out.starts_with("<hp:tbl "));
    assert!(out.contains(r#"rowCnt="1" colCnt="2""#), "{out}");
    assert_eq!(out.matches("<hp:tc ").count(), 2);
    assert_eq!(out.matches("<hp:tr>").count(), 1, "{out}");
    assert!(out.contains(r#"<hp:cellAddr colAddr="1" rowAddr="0"/>"#), "{out}");
    assert!(out.ends_with("</hp:tbl>"));
}

#[test]
fn cell_new_empty_defaults() {
    let c = Cell::new_empty(2, 3, 500, 600, 4);
    assert_eq!((c.col, c.row, c.col_span, c.row_span), (2, 3, 1, 1));
    assert_eq!((c.width, c.height, c.border_fill_id), (500, 600, 4));
    assert_eq!(c.vertical_align, VerticalAlign::Center);
    assert_eq!((c.padding.left, c.padding.right, c.padding.top, c.padding.bottom), (141, 141, 141, 141));
    assert_eq!(c.paragraphs.len(), 1);
    assert!(c.paragraphs[0].text.is_empty());
}

// ----- content.hpf -----

#[test]
fn content_hpf_lists_sections_and_images() {
    let hrefs = vec!["Contents/section0.xml".to_string(), "Contents/section1.xml".to_string()];
    let bins = vec![BinDataEntry {
        id: "image1".to_string(),
        href: "BinData/image1.png".to_string(),
        media_type: "image/png".to_string(),
    }];
    let xml = String::from_utf8(write_content_hpf(&hrefs, &bins).expect("hpf")).expect("utf8");
    assert!(xml.contains(r#"<opf:item id="section1" href="Contents/section1.xml" media-type="application/xml"/><opf:item id="image1" href="BinData/image1.png" media-type="image/png" isEmbeded="1"/><opf:item id="settings""#), "{xml}");
    assert!(xml.ends_with(r#"<opf:itemref idref="section0" linear="yes"/><opf:itemref idref="section1" linear="yes"/></opf:spine></opf:package>"#));
}

// ----- ZIP writer -----

#[test]
fn zip_writer_round_trip() {
    let mut z = HwpxZipWriter::new();
    z.write_stored("a.txt", b"stored").expect("stored");
    z.write_deflated("dir/b.txt", b"deflated data").expect("deflated");
    let bytes = z.finish().expect("finish");
    let mut archive = zip::ZipArchive::new(std::io::Cursor::new(&bytes)).expect("zip");
    assert_eq!(archive.len(), 2);
    let mut s = String::new();
    archive.by_name("dir/b.txt").expect("b").read_to_string(&mut s).expect("read");
    assert_eq!(s, "deflated data");
    assert_eq!(archive.by_index(0).expect("a").compression(), zip::CompressionMethod::Stored);
    assert_eq!(archive.by_index(1).expect("b").compression(), zip::CompressionMethod::Deflated);
}

#[test]
fn zip_writer_refuses_duplicate_path() {
    let mut z = HwpxZipWriter::new();
    z.write_deflated("same", b"1").expect("first");
    let r = z.write_deflated("same", b"2");
    assert!(matches!(r, Err(SerializeError::ZipError(_))));
}

// ----- quick-xml event helpers -----

#[test]
fn xml_event_helpers_write_expected_markup() {
    let mut w = XmlWriter::new();
    write_xml_decl(&mut w).expect("decl");
    start_tag_attrs(&mut w, "root", &[("a", "1"), ("b", "x\"y\n")]).expect("start");
    start_tag(&mut w, "child").expect("child");
    text(&mut w, "a<b & 'c'\r").expect("text");
    end_tag(&mut w, "child").expect("end child");
    empty_tag(&mut w, "leaf", &[("k", "<v>\t")]).expect("empty");
    empty_tag(&mut w, "bare", &[]).expect("bare");
    end_tag(&mut w, "root").expect("end root");
    let out = String::from_utf8(w.into_bytes()).expect("utf8");
    let expected = [
        "<?xml version=\"1.0\" encoding=\"UTF-8\" standalone=\"yes\"?>",
        "<root a=\"1\" b=\"x&quot;y&#10;\">",
        "<child>a&lt;b &amp; &apos;c&apos;&#13;</child>",
        "<leaf k=\"&lt;v&gt;&#9;\"/>",
        "<bare/>",
        "</root>",
    ]
    .join("");
    assert_eq!(out, expected);
}

// ----- errors -----

#[test]
fn hwp_error_messages() {
    assert_eq!(HwpError::InvalidFile("bad".to_string()).message(), "유효하지 않은 파일: bad");
    assert_eq!(HwpError::PageOutOfRange(12).message(), "페이지 12을(를) 찾을 수 없습니다");
    assert_eq!(HwpError::RenderError("x".to_string()).message(), "렌더링 오류: x");
    assert_eq!(HwpError::InvalidField("f".to_string()).message(), "필드 오류: f");
}

#[test]
fn serialize_error_becomes_render_error() {
    match HwpError::from_serialize_error(SerializeError::ZipError("boom".to_string())) {
        HwpError::RenderError(m) => assert_eq!(m, "ZipError(\"boom\")"),
        other => panic!("unexpected {:?}", other),
    }
    match HwpError::from_serialize_error(SerializeError::XmlError("a\"b\n".to_string())) {
        HwpError::RenderError(m) => assert_eq!(m, "XmlError(\"a\\\"b\\n\")"),
        other => panic!("unexpected {:?}", other),
    }
}

#[test]
fn xml_writer_starts_empty() {
    let w = XmlWriter::new();
    assert!(w.into_bytes().is_empty());
}
