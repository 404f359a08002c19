//! Shared formatting helpers of the HWPX writers: XML escaping, colour
//! notation, and the OWPML names of model enumerations.

use vstd::prelude::*;
use vstd::string::*;
use crate::model::{Alignment, BorderLineType, LineSpacingType};
use crate::text::{digit_char, push_char, push_str};
use crate::error::{io_error_text, SerializeError};
use vstd::utf8::encode_utf8;
use quick_xml::Writer;
use quick_xml::events::{BytesDecl, BytesEnd, BytesStart, BytesText, Event};

verus! {

/// What one character becomes in escaped XML text or attribute values.
pub open spec fn escape_char(c: char) -> Seq<char> {
    if c == '&' {
        "&amp;"@
    } else if c == '<' {
        "&lt;"@
    } else if c == '>' {
        "&gt;"@
    } else if c == '"' {
        "&quot;"@
    } else if c == '\'' {
        "&apos;"@
    } else {
        seq![c]
    }
}

/// `s` with each of `& < > " '` replaced by its predefined XML entity.
pub open spec fn xml_escaped(s: Seq<char>) -> Seq<char>
    decreases s.len(),
{
    if s.len() == 0 {
        Seq::empty()
    } else {
        xml_escaped(s.drop_last()) + escape_char(s.last())
    }
}

/// Escaping works character by character: escaping a concatenation is
/// concatenating the escaped parts.
pub proof fn law_escape_concat(a: Seq<char>, b: Seq<char>)
    ensures
        xml_escaped(a + b) == xml_escaped(a) + xml_escaped(b),
    decreases b.len(),
{
    if b.len() == 0 {
        assert(a + b =~= a);
        assert(xml_escaped(a) + xml_escaped(b) =~= xml_escaped(a));
    } else {
        law_escape_concat(a, b.drop_last());
        assert((a + b).drop_last() =~= a + b.drop_last());
        assert((a + b).last() == b.last());
        assert(xml_escaped(a) + xml_escaped(b) =~= xml_escaped(a) + xml_escaped(b.drop_last()) + escape_char(b.last()));
    }
}

/// Whether a character is one of `& < > " '`.
pub open spec fn is_xml_special(c: char) -> bool {
    c == '&' || c == '<' || c == '>' || c == '"' || c == '\''
}

/// Text without `& < > " '` is left as it is.
pub proof fn law_escape_plain(s: Seq<char>)
    requires
        forall|i: int| 0 <= i < s.len() ==> !is_xml_special(#[trigger] s[i]),
    ensures
        xml_escaped(s) == s,
    decreases s.len(),
{
    if s.len() > 0 {
        law_escape_plain(s.drop_last());
        assert(!is_xml_special(s[s.len() - 1]));
        assert(xml_escaped(s) =~= s);
    }
}

/// One of the five predefined entities starts `s`.
pub open spec fn starts_with_entity(s: Seq<char>) -> bool {
    ||| "&amp;"@.is_prefix_of(s)
    ||| "&lt;"@.is_prefix_of(s)
    ||| "&gt;"@.is_prefix_of(s)
    ||| "&quot;"@.is_prefix_of(s)
    ||| "&apos;"@.is_prefix_of(s)
}

proof fn lemma_entity_prefix_extend(s: Seq<char>, t: Seq<char>)
    requires
        starts_with_entity(s),
    ensures
        starts_with_entity(s + t),
{
    let u = s + t;
    if "&amp;"@.is_prefix_of(s) {
        assert(u.subrange(0, "&amp;"@.len() as int) =~= s.subrange(0, "&amp;"@.len() as int));
    } else if "&lt;"@.is_prefix_of(s) {
        assert(u.subrange(0, "&lt;"@.len() as int) =~= s.subrange(0, "&lt;"@.len() as int));
    } else if "&gt;"@.is_prefix_of(s) {
        assert(u.subrange(0, "&gt;"@.len() as int) =~= s.subrange(0, "&gt;"@.len() as int));
    } else if "&quot;"@.is_prefix_of(s) {
        assert(u.subrange(0, "&quot;"@.len() as int) =~= s.subrange(0, "&quot;"@.len() as int));
    } else {
        assert(u.subrange(0, "&apos;"@.len() as int) =~= s.subrange(0, "&apos;"@.len() as int));
    }
}

/// Escaped text holds no `<`, `>`, `"` or `'`, and every `&` in it starts
/// one of the five entities.
pub proof fn law_escape_no_markup(s: Seq<char>)
    ensures
        forall|i: int| 0 <= i < xml_escaped(s).len() ==> {
            let c = #[trigger] xml_escaped(s)[i];
            c != '<' && c != '>' && c != '"' && c != '\''
        },
        forall|i: int| 0 <= i < xml_escaped(s).len() && #[trigger] xml_escaped(s)[i] == '&' ==>
            starts_with_entity(xml_escaped(s).subrange(i, xml_escaped(s).len() as int)),
    decreases s.len(),
{
    reveal_strlit("&amp;");
    reveal_strlit("&lt;");
    reveal_strlit("&gt;");
    reveal_strlit("&quot;");
    reveal_strlit("&apos;");
    if s.len() > 0 {
        law_escape_no_markup(s.drop_last());
        let pre = xml_escaped(s.drop_last());
        let e = escape_char(s.last());
        let x = xml_escaped(s);
        assert(x == pre + e);
        assert forall|i: int| 0 <= i < x.len() implies {
            let c = #[trigger] x[i];
            c != '<' && c != '>' && c != '"' && c != '\''
        } by {
            if i < pre.len() {
                assert(x[i] == pre[i]);
            } else {
                assert(x[i] == e[i - pre.len()]);
            }
        }
        assert forall|i: int| 0 <= i < x.len() && #[trigger] x[i] == '&' implies
            starts_with_entity(x.subrange(i, x.len() as int)) by {
            let rest = x.subrange(i, x.len() as int);
            if i < pre.len() {
                assert(x[i] == pre[i]);
                let prest = pre.subrange(i, pre.len() as int);
                assert(rest =~= prest + e);
                lemma_entity_prefix_extend(prest, e);
            } else {
                assert(x[i] == e[i - pre.len()]);
                if i > pre.len() {
                    assert(e.len() > 1);
                    assert(e[i - pre.len()] != '&');
                }
                assert(rest =~= e);
                assert(e.subrange(0, e.len() as int) =~= e);
            }
        }
    }
}

/// Appends the escaped form of one character.
pub fn push_escaped_char(out: &mut String, c: char)
    ensures
        final(out)@ == old(out)@ + escape_char(c),
{
    if c == '&' {
        push_str(out, "&amp;");
    } else if c == '<' {
        push_str(out, "&lt;");
    } else if c == '>' {
        push_str(out, "&gt;");
    } else if c == '"' {
        push_str(out, "&quot;");
    } else if c == '\'' {
        push_str(out, "&apos;");
    } else {
        push_char(out, c);
    }
}

/// Appends the escaped form of `s`.
pub fn push_escaped(out: &mut String, s: &str)
    ensures
        final(out)@ == old(out)@ + xml_escaped(s@),
{
    let ghost start = out@;
    let ghost text = s@;
    for c in it: s.chars()
        invariant
            it.seq() == text,
            out@ == start + xml_escaped(text.take(it.index() as int)),
    {
        let ghost before = out@;
        let ghost i = it.index() as int;
        push_escaped_char(out, c);
        proof {
            assert(text.take(i + 1).drop_last() =~= text.take(i));
            assert(out@ =~= start + xml_escaped(text.take(i + 1)));
        }
    }
    proof {
        assert(text.take(text.len() as int) =~= text);
    }
}

/// XML escape of a text or attribute value (`&`, `<`, `>`, `"`, `'`).
pub fn xml_escape(s: &str) -> (r: String)
    ensures
        r@ == xml_escaped(s@),
{
    let mut out = String::new();
    push_escaped(&mut out, s);
    proof {
        assert(out@ =~= xml_escaped(s@));
    }
    out
}


/// Upper-case hexadecimal digit for `d < 16`.
pub open spec fn hex_digit(d: nat) -> char {
    if d < 10 {
        digit_char(d)
    } else if d == 10 {
        'A'
    } else if d == 11 {
        'B'
    } else if d == 12 {
        'C'
    } else if d == 13 {
        'D'
    } else if d == 14 {
        'E'
    } else {
        'F'
    }
}

/// Two upper-case hexadecimal digits of a byte value.
pub open spec fn hex2(b: nat) -> Seq<char> {
    seq![hex_digit(b / 16), hex_digit(b % 16)]
}

/// A COLORREF (`0x00BBGGRR`) as `#RRGGBB`; the value `0xFFFFFFFF` as `none`.
pub open spec fn color_hex(c: u32) -> Seq<char> {
    if c == 0xFFFF_FFFF {
        "none"@
    } else {
        seq!['#'] + hex2(c as nat % 256) + hex2((c as nat / 256) % 256) + hex2((c as nat / 65536) % 256)
    }
}

fn hex_char(d: u32) -> (c: char)
    requires
        d < 16,
    ensures
        c == hex_digit(d as nat),
{
    match d {
        0 => '0',
        1 => '1',
        2 => '2',
        3 => '3',
        4 => '4',
        5 => '5',
        6 => '6',
        7 => '7',
        8 => '8',
        9 => '9',
        10 => 'A',
        11 => 'B',
        12 => 'C',
        13 => 'D',
        14 => 'E',
        _ => 'F',
    }
}

fn push_hex2(out: &mut String, b: u32)
    requires
        b < 256,
    ensures
        final(out)@ == old(out)@ + hex2(b as nat),
{
    push_char(out, hex_char(b / 16));
    push_char(out, hex_char(b % 16));
    assert(out@ =~= old(out)@ + hex2(b as nat));
}

/// HWP ColorRef (`0x00BBGGRR`) to `#RRGGBB`, or `"none"` for `0xFFFFFFFF`.
pub fn color_ref_to_hex(c: u32) -> (r: String)
    ensures
        r@ == color_hex(c),
{
    if c == 0xFFFF_FFFF {
        let mut s = String::new();
        push_str(&mut s, "none");
        assert(s@ =~= "none"@);
        return s;
    }
    let r = c & 0xFF;
    let g = (c >> 8) & 0xFF;
    let b = (c >> 16) & 0xFF;
    assert(r == c % 256 && g == (c / 256) % 256 && b == (c / 65536) % 256) by (bit_vector)
        requires
            r == c & 0xFF,
            g == (c >> 8) & 0xFF,
            b == (c >> 16) & 0xFF,
    ;
    let mut s = String::new();
    push_char(&mut s, '#');
    push_hex2(&mut s, r);
    push_hex2(&mut s, g);
    push_hex2(&mut s, b);
    assert(s@ =~= color_hex(c));
    s
}

/// OWPML name of a line-shape code.
pub open spec fn line_shape_name(shape: u8) -> Seq<char> {
    if shape == 1 {
        "DASH"@
    } else if shape == 2 {
        "DOT"@
    } else if shape == 3 {
        "DASH_DOT"@
    } else if shape == 4 {
        "DASH_DOT_DOT"@
    } else if shape == 5 {
        "LONG_DASH"@
    } else if shape == 6 {
        "CIRCLE"@
    } else if shape == 7 {
        "DOUBLE_SLIM"@
    } else if shape == 8 {
        "SLIM_THICK"@
    } else if shape == 9 {
        "THICK_SLIM"@
    } else if shape == 10 {
        "SLIM_THICK_SLIM"@
    } else if shape == 11 {
        "WAVE"@
    } else if shape == 12 {
        "DOUBLE_WAVE"@
    } else {
        "SOLID"@
    }
}

/// Line-shape code (table 27) to its XML name; unknown codes are `SOLID`.
pub fn line_shape_to_str(shape: u8) -> (r: &'static str)
    ensures
        r@ == line_shape_name(shape),
{
    match shape {
        0 => "SOLID",
        1 => "DASH",
        2 => "DOT",
        3 => "DASH_DOT",
        4 => "DASH_DOT_DOT",
        5 => "LONG_DASH",
        6 => "CIRCLE",
        7 => "DOUBLE_SLIM",
        8 => "SLIM_THICK",
        9 => "THICK_SLIM",
        10 => "SLIM_THICK_SLIM",
        11 => "WAVE",
        12 => "DOUBLE_WAVE",
        _ => "SOLID",
    }
}

/// OWPML name of a border line type.
pub open spec fn border_line_type_name(t: BorderLineType) -> Seq<char> {
    match t {
        BorderLineType::NoLine => "NONE"@,
        BorderLineType::Solid => "SOLID"@,
        BorderLineType::Dash => "DASH"@,
        BorderLineType::Dot => "DOT"@,
        BorderLineType::DashDot => "DASH_DOT"@,
        BorderLineType::DashDotDot => "DASH_DOT_DOT"@,
        BorderLineType::LongDash => "LONG_DASH"@,
        BorderLineType::Circle => "CIRCLE"@,
        BorderLineType::Double => "DOUBLE_SLIM"@,
        BorderLineType::ThinThickDouble => "SLIM_THICK"@,
        BorderLineType::ThickThinDouble => "THICK_SLIM"@,
        BorderLineType::ThinThickThinTriple => "SLIM_THICK_SLIM"@,
        BorderLineType::Wave => "WAVE"@,
        BorderLineType::DoubleWave => "DOUBLE_WAVE"@,
        _ => "SOLID"@,
    }
}

/// BorderLineType to its OWPML name; the 3D kinds are written as `SOLID`.
pub fn border_line_type_to_str(t: &BorderLineType) -> (r: &'static str)
    ensures
        r@ == border_line_type_name(*t),
{
    match t {
        BorderLineType::NoLine => "NONE",
        BorderLineType::Solid => "SOLID",
        BorderLineType::Dash => "DASH",
        BorderLineType::Dot => "DOT",
        BorderLineType::DashDot => "DASH_DOT",
        BorderLineType::DashDotDot => "DASH_DOT_DOT",
        BorderLineType::LongDash => "LONG_DASH",
        BorderLineType::Circle => "CIRCLE",
        BorderLineType::Double => "DOUBLE_SLIM",
        BorderLineType::ThinThickDouble => "SLIM_THICK",
        BorderLineType::ThickThinDouble => "THICK_SLIM",
        BorderLineType::ThinThickThinTriple => "SLIM_THICK_SLIM",
        BorderLineType::Wave => "WAVE",
        BorderLineType::DoubleWave => "DOUBLE_WAVE",
        _ => "SOLID",
    }
}

/// Border thickness index to its `"N.N mm"` text.
pub open spec fn border_width_name(w: u8) -> Seq<char> {
    if w == 0 {
        "0.1 mm"@
    } else if w == 1 {
        "0.3 mm"@
    } else if w == 2 {
        "0.5 mm"@
    } else if w == 3 {
        "1.0 mm"@
    } else if w == 4 {
        "1.5 mm"@
    } else {
        "2.0 mm"@
    }
}

/// Border thickness index (u8) to `"N.N mm"`; indices from 5 on are `2.0 mm`.
pub fn border_width_to_str(w: u8) -> (r: &'static str)
    ensures
        r@ == border_width_name(w),
{
    match w {
        0 => "0.1 mm",
        1 => "0.3 mm",
        2 => "0.5 mm",
        3 => "1.0 mm",
        4 => "1.5 mm",
        _ => "2.0 mm",
    }
}

/// OWPML name of a paragraph alignment.
pub open spec fn alignment_name(a: Alignment) -> Seq<char> {
    match a {
        Alignment::Justify => "JUSTIFY"@,
        Alignment::Left => "LEFT"@,
        Alignment::Right => "RIGHT"@,
        Alignment::Center => "CENTER"@,
        Alignment::Distribute => "DISTRIBUTE"@,
        Alignment::Split => "JUSTIFY"@,
    }
}

/// Alignment to its OWPML name; `Split` is written as `JUSTIFY`.
pub fn alignment_to_str(a: Alignment) -> (r: &'static str)
    ensures
        r@ == alignment_name(a),
{
    match a {
        Alignment::Justify => "JUSTIFY",
        Alignment::Left => "LEFT",
        Alignment::Right => "RIGHT",
        Alignment::Center => "CENTER",
        Alignment::Distribute => "DISTRIBUTE",
        Alignment::Split => "JUSTIFY",
    }
}

/// OWPML name of a line-spacing type.
pub open spec fn line_spacing_type_name(t: LineSpacingType) -> Seq<char> {
    match t {
        LineSpacingType::Percent => "PERCENT"@,
        LineSpacingType::Fixed => "FIXED"@,
        LineSpacingType::SpaceOnly => "SPACEONLY"@,
        LineSpacingType::Minimum => "MINIMUM"@,
    }
}

/// LineSpacingType to its OWPML name.
pub fn line_spacing_type_to_str(t: LineSpacingType) -> (r: &'static str)
    ensures
        r@ == line_spacing_type_name(t),
{
    match t {
        LineSpacingType::Percent => "PERCENT",
        LineSpacingType::Fixed => "FIXED",
        LineSpacingType::SpaceOnly => "SPACEONLY",
        LineSpacingType::Minimum => "MINIMUM",
    }
}


// ---------------------------------------------------------------------
// XML events through quick-xml
// ---------------------------------------------------------------------

/// The quick-xml writer type, opaque to proofs.
#[verifier::external_type_specification]
#[verifier::external_body]
#[verifier::reject_recursive_types(W)]
pub struct ExXmlWriter<W>(quick_xml::Writer<W>);

/// The quick-xml start-tag event type, opaque to proofs.
#[verifier::external_type_specification]
#[verifier::external_body]
pub struct ExBytesStart<'a>(quick_xml::events::BytesStart<'a>);

/// The bytes held by a quick-xml writer over a byte vector.
pub uninterp spec fn xml_written(w: Writer<Vec<u8>>) -> Seq<u8>;

/// The writer writes events as they are: no indentation, and no space
/// before the slash of an empty tag (the configuration of `Writer::new`).
pub uninterp spec fn xml_plain(w: Writer<Vec<u8>>) -> bool;

/// `Writer::new(Vec::new())`: an unindented writer holding no bytes.
#[verifier::external_body]
fn xml_writer_new() -> (w: Writer<Vec<u8>>)
    ensures
        xml_written(w) == Seq::<u8>::empty(),
        xml_plain(w),
{
    Writer::new(Vec::new())
}

/// `Writer::into_inner`: the bytes written.
#[verifier::external_body]
fn xml_writer_into_inner(w: Writer<Vec<u8>>) -> (r: Vec<u8>)
    ensures
        r@ == xml_written(w),
{
    w.into_inner()
}

/// The text of a start tag under construction: its name, then
/// ` key="value"` per attribute added.
pub uninterp spec fn start_content(e: BytesStart<'static>) -> Seq<char>;

/// What quick-xml writes for one character of a text node (`escape`).
pub open spec fn text_escape_char(c: char) -> Seq<char> {
    if c == '<' { "&lt;"@ }
    else if c == '>' { "&gt;"@ }
    else if c == '&' { "&amp;"@ }
    else if c == '\'' { "&apos;"@ }
    else if c == '"' { "&quot;"@ }
    else if c == '\r' { "&#13;"@ }
    else { seq![c] }
}

/// What quick-xml writes for one character of an attribute value
/// (`escape_attribute`): the text escapes plus line feed and tab.
pub open spec fn attr_escape_char(c: char) -> Seq<char> {
    if c == '\n' { "&#10;"@ }
    else if c == '\t' { "&#9;"@ }
    else { text_escape_char(c) }
}

/// A text node as quick-xml writes it.
pub open spec fn text_escaped(s: Seq<char>) -> Seq<char>
    decreases s.len(),
{
    if s.len() == 0 { Seq::empty() } else { text_escaped(s.drop_last()) + text_escape_char(s.last()) }
}

/// An attribute value as quick-xml writes it.
pub open spec fn attr_escaped(s: Seq<char>) -> Seq<char>
    decreases s.len(),
{
    if s.len() == 0 { Seq::empty() } else { attr_escaped(s.drop_last()) + attr_escape_char(s.last()) }
}

/// `BytesStart::new`: a start tag with the given name and no attributes.
#[verifier::external_body]
fn bytes_start_new(name: &str) -> (e: BytesStart<'static>)
    ensures
        start_content(e) == name@,
{
    BytesStart::new(name.to_string())
}

/// `BytesStart::push_attribute` with a `(key, value)` pair: appends a
/// space, the key, `="`, the value escaped by `escape_attribute`, and `"`.
#[verifier::external_body]
fn bytes_start_push_attribute(e: &mut BytesStart<'static>, key: &str, value: &str)
    ensures
        start_content(*final(e)) == start_content(*old(e)) + " "@ + key@ + "=\""@ + attr_escaped(value@) + "\""@,
{
    e.push_attribute((key, value));
}

/// `Writer::write_event` with `Event::Start` on an unindented writer:
/// `<`, the tag's text and `>` are appended. Writing into a `Vec<u8>`
/// does not fail.
#[verifier::external_body]
fn write_start_event(w: &mut Writer<Vec<u8>>, e: BytesStart<'static>) -> (r: Result<(), std::io::Error>)
    requires
        xml_plain(*old(w)),
    ensures
        r is Ok,
        xml_plain(*final(w)),
        xml_written(*final(w)) == xml_written(*old(w)) + encode_utf8("<"@ + start_content(e) + ">"@),
{
    w.write_event(Event::Start(e))
}

/// `Writer::write_event` with `Event::Empty` on an unindented writer with
/// no space before the slash: `<`, the tag's text and `/>` are appended.
/// Writing into a `Vec<u8>` does not fail.
#[verifier::external_body]
fn write_empty_event(w: &mut Writer<Vec<u8>>, e: BytesStart<'static>) -> (r: Result<(), std::io::Error>)
    requires
        xml_plain(*old(w)),
    ensures
        r is Ok,
        xml_plain(*final(w)),
        xml_written(*final(w)) == xml_written(*old(w)) + encode_utf8("<"@ + start_content(e) + "/>"@),
{
    w.write_event(Event::Empty(e))
}

/// `Writer::write_event` with `Event::End(BytesEnd::new(name))` on an
/// unindented writer: `</`, the name and `>` are appended. Writing into a
/// `Vec<u8>` does not fail.
#[verifier::external_body]
fn write_end_event(w: &mut Writer<Vec<u8>>, name: &str) -> (r: Result<(), std::io::Error>)
    requires
        xml_plain(*old(w)),
    ensures
        r is Ok,
        xml_plain(*final(w)),
        xml_written(*final(w)) == xml_written(*old(w)) + encode_utf8("</"@ + name@ + ">"@),
{
    w.write_event(Event::End(BytesEnd::new(name)))
}

/// `Writer::write_event` with `Event::Text(BytesText::new(content))`: the
/// content, escaped by `escape`, is appended. Writing into a `Vec<u8>`
/// does not fail.
#[verifier::external_body]
fn write_text_event(w: &mut Writer<Vec<u8>>, content: &str) -> (r: Result<(), std::io::Error>)
    requires
        xml_plain(*old(w)),
    ensures
        r is Ok,
        xml_plain(*final(w)),
        xml_written(*final(w)) == xml_written(*old(w)) + encode_utf8(text_escaped(content@)),
{
    w.write_event(Event::Text(BytesText::new(content)))
}

/// `Writer::write_event` with `Event::Decl(BytesDecl::new("1.0",
/// Some("UTF-8"), Some("yes")))` on an unindented writer: the declaration
/// is appended. Writing into a `Vec<u8>` does not fail.
#[verifier::external_body]
fn write_decl_event(w: &mut Writer<Vec<u8>>) -> (r: Result<(), std::io::Error>)
    requires
        xml_plain(*old(w)),
    ensures
        r is Ok,
        xml_plain(*final(w)),
        xml_written(*final(w)) == xml_written(*old(w))
            + encode_utf8("<?xml version=\"1.0\" encoding=\"UTF-8\" standalone=\"yes\"?>"@),
{
    w.write_event(Event::Decl(BytesDecl::new("1.0", Some("UTF-8"), Some("yes"))))
}

/// Attributes as they appear in a tag: ` key="value"` each, in order.
pub open spec fn attrs_xml(attrs: Seq<(&str, &str)>) -> Seq<char>
    decreases attrs.len(),
{
    if attrs.len() == 0 {
        Seq::empty()
    } else {
        attrs_xml(attrs.drop_last()) + " "@ + attrs.last().0@ + "=\""@ + attr_escaped(attrs.last().1@) + "\""@
    }
}

/// An XML writer over an in-memory byte buffer, writing events as they
/// are (no indentation).
pub struct XmlWriter {
    inner: Writer<Vec<u8>>,
}

impl XmlWriter {
    /// The writer writes events as they are (see `xml_plain`).
    pub closed spec fn wf(&self) -> bool {
        xml_plain(self.inner)
    }

    /// The bytes written so far.
    pub closed spec fn written(&self) -> Seq<u8> {
        xml_written(self.inner)
    }

    /// A writer holding no bytes.
    pub fn new() -> (w: XmlWriter)
        ensures
            w.wf(),
            w.written() == Seq::<u8>::empty(),
    {
        XmlWriter { inner: xml_writer_new() }
    }

    /// The bytes written.
    pub fn into_bytes(self) -> (r: Vec<u8>)
        ensures
            r@ == self.written(),
    {
        xml_writer_into_inner(self.inner)
    }
}

/// Writes the XML declaration `<?xml version="1.0" encoding="UTF-8" standalone="yes"?>`.
pub fn write_xml_decl(w: &mut XmlWriter) -> (r: Result<(), SerializeError>)
    requires
        old(w).wf(),
    ensures
        r is Ok,
        final(w).wf(),
        final(w).written() == old(w).written()
            + encode_utf8("<?xml version=\"1.0\" encoding=\"UTF-8\" standalone=\"yes\"?>"@),
{
    match write_decl_event(&mut w.inner) {
        Ok(()) => Ok(()),
        Err(e) => Err(SerializeError::XmlError(io_error_text(&e))),
    }
}

/// Writes a start tag without attributes: `<name>`.
pub fn start_tag(w: &mut XmlWriter, name: &str) -> (r: Result<(), SerializeError>)
    requires
        old(w).wf(),
    ensures
        r is Ok,
        final(w).wf(),
        final(w).written() == old(w).written() + encode_utf8("<"@ + name@ + ">"@),
{
    let e = bytes_start_new(name);
    match write_start_event(&mut w.inner, e) {
        Ok(()) => Ok(()),
        Err(e) => Err(SerializeError::XmlError(io_error_text(&e))),
    }
}

fn tag_with_attrs(name: &str, attrs: &[(&str, &str)]) -> (e: BytesStart<'static>)
    ensures
        start_content(e) == name@ + attrs_xml(attrs@),
{
    let mut e = bytes_start_new(name);
    let n = attrs.len();
    let mut i: usize = 0;
    assert(attrs@.take(0) =~= Seq::<(&str, &str)>::empty());
    while i < n
        invariant
            n == attrs@.len(),
            i <= n,
            start_content(e) == name@ + attrs_xml(attrs@.take(i as int)),
        decreases n - i,
    {
        let (k, v) = attrs[i];
        bytes_start_push_attribute(&mut e, k, v);
        proof {
            let t = attrs@.take(i + 1);
            assert(t.drop_last() =~= attrs@.take(i as int));
            assert(t.last() == attrs@[i as int]);
            assert(start_content(e) =~= name@ + attrs_xml(t));
        }
        i = i + 1;
    }
    assert(attrs@.take(n as int) =~= attrs@);
    e
}

/// Writes a start tag with attributes: `<name k="v" ...>`, each value
/// escaped.
pub fn start_tag_attrs(w: &mut XmlWriter, name: &str, attrs: &[(&str, &str)]) -> (r: Result<(), SerializeError>)
    requires
        old(w).wf(),
    ensures
        r is Ok,
        final(w).wf(),
        final(w).written() == old(w).written() + encode_utf8("<"@ + name@ + attrs_xml(attrs@) + ">"@),
{
    let e = tag_with_attrs(name, attrs);
    assert("<"@ + start_content(e) + ">"@ =~= "<"@ + name@ + attrs_xml(attrs@) + ">"@);
    match write_start_event(&mut w.inner, e) {
        Ok(()) => Ok(()),
        Err(e) => Err(SerializeError::XmlError(io_error_text(&e))),
    }
}

/// Writes an end tag: `</name>`.
pub fn end_tag(w: &mut XmlWriter, name: &str) -> (r: Result<(), SerializeError>)
    requires
        old(w).wf(),
    ensures
        r is Ok,
        final(w).wf(),
        final(w).written() == old(w).written() + encode_utf8("</"@ + name@ + ">"@),
{
    match write_end_event(&mut w.inner, name) {
        Ok(()) => Ok(()),
        Err(e) => Err(SerializeError::XmlError(io_error_text(&e))),
    }
}

/// Writes a self-closing tag: `<name k="v" .../>`, each value escaped.
pub fn empty_tag(w: &mut XmlWriter, name: &str, attrs: &[(&str, &str)]) -> (r: Result<(), SerializeError>)
    requires
        old(w).wf(),
    ensures
        r is Ok,
        final(w).wf(),
        final(w).written() == old(w).written() + encode_utf8("<"@ + name@ + attrs_xml(attrs@) + "/>"@),
{
    let e = tag_with_attrs(name, attrs);
    assert("<"@ + start_content(e) + "/>"@ =~= "<"@ + name@ + attrs_xml(attrs@) + "/>"@);
    match write_empty_event(&mut w.inner, e) {
        Ok(()) => Ok(()),
        Err(e) => Err(SerializeError::XmlError(io_error_text(&e))),
    }
}

/// Writes a text node, escaped.
pub fn text(w: &mut XmlWriter, content: &str) -> (r: Result<(), SerializeError>)
    requires
        old(w).wf(),
    ensures
        r is Ok,
        final(w).wf(),
        final(w).written() == old(w).written() + encode_utf8(text_escaped(content@)),
{
    match write_text_event(&mut w.inner, content) {
        Ok(()) => Ok(()),
        Err(e) => Err(SerializeError::XmlError(io_error_text(&e))),
    }
}

} // verus!
