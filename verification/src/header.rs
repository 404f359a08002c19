//! `Contents/header.xml`: the document's resource tables (font faces,
//! border fills, character properties and the fixed paragraph and style
//! placeholders).

use vstd::prelude::*;
use vstd::utf8::encode_utf8;
use crate::error::SerializeError;
use crate::model::{CharShape, Document, Font, UnderlineType, default_char_shape};
use crate::text::{contains_text, lemma_contains_append, lemma_contains_extend, lemma_contains_last, lemma_contains_last3, lemma_contains_last5, lemma_contains_mid, lemma_concat3, dec_int, dec_nat, push_i64, push_str, push_u64, string_into_bytes, string_of};
use crate::utils::{color_hex, color_ref_to_hex, line_shape_name, line_shape_to_str, xml_escape, xml_escaped};

verus! {

/// `"1"` or `"0"`.
pub open spec fn flag01(b: bool) -> Seq<char> {
    if b { "1"@ } else { "0"@ }
}

/// `s` when `b` holds, nothing otherwise.
pub open spec fn when(b: bool, s: Seq<char>) -> Seq<char> {
    if b { s } else { Seq::empty() }
}

/// A seven-language attribute element: `<tag hangul=".." latin=".." .. user=".."/>`.
pub open spec fn lang7_xml(tag: Seq<char>, v: Seq<int>) -> Seq<char> {
    "<"@ + tag + " hangul=\""@ + dec_int(v[0]) + "\" latin=\""@ + dec_int(v[1])
        + "\" hanja=\""@ + dec_int(v[2]) + "\" japanese=\""@ + dec_int(v[3])
        + "\" other=\""@ + dec_int(v[4]) + "\" symbol=\""@ + dec_int(v[5])
        + "\" user=\""@ + dec_int(v[6]) + "\"/>"@
}

fn push_lang7(out: &mut String, tag: &str, v: [i64; 7])
    ensures
        final(out)@ == old(out)@ + lang7_xml(tag@, v@.map_values(|x: i64| x as int)),
{
    let ghost vals = v@.map_values(|x: i64| x as int);
    let mut s = string_of("<");
    push_str(&mut s, tag);
    push_str(&mut s, " hangul=\"");
    push_i64(&mut s, v[0]);
    push_str(&mut s, "\" latin=\"");
    push_i64(&mut s, v[1]);
    push_str(&mut s, "\" hanja=\"");
    push_i64(&mut s, v[2]);
    push_str(&mut s, "\" japanese=\"");
    push_i64(&mut s, v[3]);
    push_str(&mut s, "\" other=\"");
    push_i64(&mut s, v[4]);
    push_str(&mut s, "\" symbol=\"");
    push_i64(&mut s, v[5]);
    push_str(&mut s, "\" user=\"");
    push_i64(&mut s, v[6]);
    push_str(&mut s, "\"/>");
    assert(s@ == lang7_xml(tag@, vals));
    push_str(out, s.as_str());
}

/// `lang7_attr` over `u16` values (font references).
pub open spec fn u16s(v: [u16; 7]) -> Seq<int> {
    v@.map_values(|x: u16| x as int)
}

/// `lang7_attr` over `u8` values (ratios, relative sizes).
pub open spec fn u8s(v: [u8; 7]) -> Seq<int> {
    v@.map_values(|x: u8| x as int)
}

/// `lang7_attr` over `i8` values (spacings, offsets).
pub open spec fn i8s(v: [i8; 7]) -> Seq<int> {
    v@.map_values(|x: i8| x as int)
}

fn lang7_attr(tag: &str, vals: &[u16; 7]) -> (r: String)
    ensures
        r@ == lang7_xml(tag@, u16s(*vals)),
{
    let v: [i64; 7] = [vals[0] as i64, vals[1] as i64, vals[2] as i64, vals[3] as i64, vals[4] as i64, vals[5] as i64, vals[6] as i64];
    let mut s = String::new();
    push_lang7(&mut s, tag, v);
    assert(v@.map_values(|x: i64| x as int) =~= u16s(*vals));
    assert(s@ =~= lang7_xml(tag@, u16s(*vals)));
    s
}

fn lang7_attr_u8(tag: &str, vals: &[u8; 7]) -> (r: String)
    ensures
        r@ == lang7_xml(tag@, u8s(*vals)),
{
    let v: [i64; 7] = [vals[0] as i64, vals[1] as i64, vals[2] as i64, vals[3] as i64, vals[4] as i64, vals[5] as i64, vals[6] as i64];
    let mut s = String::new();
    push_lang7(&mut s, tag, v);
    assert(v@.map_values(|x: i64| x as int) =~= u8s(*vals));
    assert(s@ =~= lang7_xml(tag@, u8s(*vals)));
    s
}

fn lang7_attr_i8(tag: &str, vals: &[i8; 7]) -> (r: String)
    ensures
        r@ == lang7_xml(tag@, i8s(*vals)),
{
    let v: [i64; 7] = [vals[0] as i64, vals[1] as i64, vals[2] as i64, vals[3] as i64, vals[4] as i64, vals[5] as i64, vals[6] as i64];
    let mut s = String::new();
    push_lang7(&mut s, tag, v);
    assert(v@.map_values(|x: i64| x as int) =~= i8s(*vals));
    assert(s@ =~= lang7_xml(tag@, i8s(*vals)));
    s
}


/// The underline element of a character shape (none without underline).
pub open spec fn underline_xml(cs: CharShape) -> Seq<char> {
    match cs.underline_type {
        UnderlineType::NoUnderline => Seq::empty(),
        UnderlineType::Bottom => "<hh:underline type=\""@ + "BOTTOM"@ + "\" shape=\""@
            + line_shape_name(cs.underline_shape) + "\" color=\""@ + color_hex(cs.underline_color) + "\"/>"@,
        UnderlineType::Top => "<hh:underline type=\""@ + "TOP"@ + "\" shape=\""@
            + line_shape_name(cs.underline_shape) + "\" color=\""@ + color_hex(cs.underline_color) + "\"/>"@,
    }
}

/// Name of an outline type code (1 SOLID, 2 DASH, 3 DOT, others NONE).
pub open spec fn outline_name(t: u8) -> Seq<char> {
    if t == 1 { "SOLID"@ } else if t == 2 { "DASH"@ } else if t == 3 { "DOT"@ } else { "NONE"@ }
}

/// Opening tag of a `charPr`, with its scalar attributes.
pub open spec fn charpr_open(id: nat, cs: CharShape) -> Seq<char> {
    "<hh:charPr id=\""@ + dec_nat(id) + "\" height=\""@ + dec_int(cs.base_size as int)
        + "\" textColor=\""@ + color_hex(cs.text_color) + "\" shadeColor=\""@ + color_hex(cs.shade_color)
        + "\" useFontSpace=\"0\" useKerning=\""@ + flag01(cs.kerning)
        + "\" symMark=\"NONE\" borderFillIDRef=\""@ + dec_nat(cs.border_fill_id as nat) + "\">"@
}

/// The five seven-language children of a `charPr`.
pub open spec fn charpr_langs(cs: CharShape) -> Seq<char> {
    lang7_xml("hh:fontRef"@, u16s(cs.font_ids)) + lang7_xml("hh:ratio"@, u8s(cs.ratios))
        + lang7_xml("hh:spacing"@, i8s(cs.spacings)) + lang7_xml("hh:relSz"@, u8s(cs.relative_sizes))
        + lang7_xml("hh:offset"@, i8s(cs.char_offsets))
}

/// The optional effect children of a `charPr`, in document order.
pub open spec fn charpr_effects(cs: CharShape) -> Seq<char> {
    when(cs.bold, "<hh:bold/>"@) + when(cs.italic, "<hh:italic/>"@) + underline_xml(cs)
        + when(cs.strikethrough, "<hh:strikeout shape=\""@ + line_shape_name(cs.strike_shape)
            + "\" color=\""@ + color_hex(cs.strike_color) + "\"/>"@)
        + when(cs.outline_type != 0, "<hh:outline type=\""@ + outline_name(cs.outline_type) + "\"/>"@)
        + when(cs.shadow_type != 0, "<hh:shadow type=\""@ + "DROP"@ + "\" color=\""@
            + color_hex(cs.shadow_color) + "\"/>"@)
        + when(cs.emboss, "<hh:emboss/>"@) + when(cs.engrave, "<hh:engrave/>"@)
        + when(cs.superscript, "<hh:supscript/>"@) + when(cs.subscript, "<hh:subscript/>"@)
}

/// One `<hh:charPr>` element.
#[verifier::opaque]
pub open spec fn charpr_xml(id: nat, cs: CharShape) -> Seq<char> {
    charpr_open(id, cs) + charpr_langs(cs) + charpr_effects(cs) + "</hh:charPr>"@
}

fn push_when(s: &mut String, b: bool, t: &str)
    ensures
        final(s)@ == old(s)@ + when(b, t@),
{
    if b {
        push_str(s, t);
    } else {
        assert(s@ =~= s@ + when(b, t@));
    }
}

fn write_charpr_open(out: &mut String, id: usize, cs: &CharShape)
    ensures
        final(out)@ == old(out)@ + charpr_open(id as nat, *cs),
{
    let text_color = color_ref_to_hex(cs.text_color);
    let shade_color = color_ref_to_hex(cs.shade_color);
    let mut s = string_of("<hh:charPr id=\"");
    push_u64(&mut s, id as u64);
    push_str(&mut s, "\" height=\"");
    push_i64(&mut s, cs.base_size as i64);
    push_str(&mut s, "\" textColor=\"");
    push_str(&mut s, text_color.as_str());
    push_str(&mut s, "\" shadeColor=\"");
    push_str(&mut s, shade_color.as_str());
    push_str(&mut s, "\" useFontSpace=\"0\" useKerning=\"");
    push_str(&mut s, if cs.kerning { "1" } else { "0" });
    push_str(&mut s, "\" symMark=\"NONE\" borderFillIDRef=\"");
    push_u64(&mut s, cs.border_fill_id as u64);
    push_str(&mut s, "\">");
    assert(s@ == charpr_open(id as nat, *cs));
    push_str(out, s.as_str());
}

fn write_charpr_effects(out: &mut String, cs: &CharShape)
    ensures
        final(out)@ == old(out)@ + charpr_effects(*cs),
{
    let mut s = String::new();
    let ghost s0 = s@;
    push_when(&mut s, cs.bold, "<hh:bold/>");
    assert(s@ =~= when(cs.bold, "<hh:bold/>"@));
    push_when(&mut s, cs.italic, "<hh:italic/>");
    let ghost s2 = s@;
    match cs.underline_type {
        UnderlineType::NoUnderline => {
            assert(s@ =~= s2 + underline_xml(*cs));
        },
        UnderlineType::Bottom | UnderlineType::Top => {
            let utype = match cs.underline_type {
                UnderlineType::Bottom => "BOTTOM",
                _ => "TOP",
            };
            let ushape = line_shape_to_str(cs.underline_shape);
            let ucolor = color_ref_to_hex(cs.underline_color);
            let mut u = string_of("<hh:underline type=\"");
            push_str(&mut u, utype);
            push_str(&mut u, "\" shape=\"");
            push_str(&mut u, ushape);
            push_str(&mut u, "\" color=\"");
            push_str(&mut u, ucolor.as_str());
            push_str(&mut u, "\"/>");
            assert(u@ == underline_xml(*cs));
            push_str(&mut s, u.as_str());
        },
    }
    let ghost s3 = s@;
    if cs.strikethrough {
        let sshape = line_shape_to_str(cs.strike_shape);
        let scolor = color_ref_to_hex(cs.strike_color);
        let mut t = string_of("<hh:strikeout shape=\"");
        push_str(&mut t, sshape);
        push_str(&mut t, "\" color=\"");
        push_str(&mut t, scolor.as_str());
        push_str(&mut t, "\"/>");
        push_str(&mut s, t.as_str());
    } else {
        assert(s@ =~= s3 + when(false, Seq::<char>::empty()));
    }
    let ghost s4 = s@;
    if cs.outline_type != 0 {
        let otype = match cs.outline_type {
            1 => "SOLID",
            2 => "DASH",
            3 => "DOT",
            _ => "NONE",
        };
        let mut t = string_of("<hh:outline type=\"");
        push_str(&mut t, otype);
        push_str(&mut t, "\"/>");
        push_str(&mut s, t.as_str());
    } else {
        assert(s@ =~= s4 + when(false, Seq::<char>::empty()));
    }
    let ghost s5 = s@;
    if cs.shadow_type != 0 {
        let scolor = color_ref_to_hex(cs.shadow_color);
        let mut t = string_of("<hh:shadow type=\"");
        push_str(&mut t, "DROP");
        push_str(&mut t, "\" color=\"");
        push_str(&mut t, scolor.as_str());
        push_str(&mut t, "\"/>");
        push_str(&mut s, t.as_str());
    } else {
        assert(s@ =~= s5 + when(false, Seq::<char>::empty()));
    }
    push_when(&mut s, cs.emboss, "<hh:emboss/>");
    push_when(&mut s, cs.engrave, "<hh:engrave/>");
    push_when(&mut s, cs.superscript, "<hh:supscript/>");
    push_when(&mut s, cs.subscript, "<hh:subscript/>");
    assert(s@ == charpr_effects(*cs));
    push_str(out, s.as_str());
}

/// Appends one `<hh:charPr>` for character shape `cs` with index `id`.
fn write_single_char_pr(out: &mut String, id: usize, cs: &CharShape)
    ensures
        final(out)@ == old(out)@ + charpr_xml(id as nat, *cs),
{
    reveal(charpr_xml);
    let mut s = String::new();
    write_charpr_open(&mut s, id, cs);
    assert(s@ =~= charpr_open(id as nat, *cs));
    push_str(&mut s, lang7_attr("hh:fontRef", &cs.font_ids).as_str());
    push_str(&mut s, lang7_attr_u8("hh:ratio", &cs.ratios).as_str());
    push_str(&mut s, lang7_attr_i8("hh:spacing", &cs.spacings).as_str());
    push_str(&mut s, lang7_attr_u8("hh:relSz", &cs.relative_sizes).as_str());
    push_str(&mut s, lang7_attr_i8("hh:offset", &cs.char_offsets).as_str());
    let ghost before_effects = s@;
    assert(before_effects =~= charpr_open(id as nat, *cs) + charpr_langs(*cs));
    write_charpr_effects(&mut s, cs);
    push_str(&mut s, "</hh:charPr>");
    assert(s@ =~= charpr_xml(id as nat, *cs));
    push_str(out, s.as_str());
}


/// `<hh:charPr>` elements for the shapes `cs[0..n]`, with ids `0..n`.
pub open spec fn charprs_xml(cs: Seq<CharShape>, n: nat) -> Seq<char>
    decreases n,
{
    if n == 0 {
        Seq::empty()
    } else {
        charprs_xml(cs, (n - 1) as nat) + charpr_xml((n - 1) as nat, cs[n - 1])
    }
}

/// The `<hh:charProperties>` block: one `charPr` per shape, or the
/// default shape as id 0 when there is none (section XML refers to id 0).
pub open spec fn char_properties_xml(cs: Seq<CharShape>) -> Seq<char> {
    if cs.len() == 0 {
        "<hh:charProperties itemCnt=\"1\">"@ + charpr_xml(0, default_char_shape()) + "</hh:charProperties>"@
    } else {
        "<hh:charProperties itemCnt=\""@ + dec_nat(cs.len()) + "\">"@ + charprs_xml(cs, cs.len())
            + "</hh:charProperties>"@
    }
}

fn write_char_properties(out: &mut String, char_shapes: &Vec<CharShape>)
    ensures
        final(out)@ == old(out)@ + char_properties_xml(char_shapes@),
{
    if char_shapes.len() == 0 {
        let mut s = string_of("<hh:charProperties itemCnt=\"1\">");
        let d = CharShape::default();
        write_single_char_pr(&mut s, 0, &d);
        push_str(&mut s, "</hh:charProperties>");
        assert(s@ == char_properties_xml(char_shapes@));
        push_str(out, s.as_str());
        return;
    }
    let mut s = string_of("<hh:charProperties itemCnt=\"");
    push_u64(&mut s, char_shapes.len() as u64);
    push_str(&mut s, "\">");
    let ghost head = s@;
    let n = char_shapes.len();
    let mut i: usize = 0;
    assert(s@ =~= head + charprs_xml(char_shapes@, 0));
    while i < n
        invariant
            n == char_shapes@.len(),
            i <= n,
            s@ == head + charprs_xml(char_shapes@, i as nat),
        decreases n - i,
    {
        let ghost prev = charprs_xml(char_shapes@, i as nat);
        write_single_char_pr(&mut s, i, &char_shapes[i]);
        proof {
            lemma_concat3(head, prev, charpr_xml(i as nat, char_shapes@[i as int]));
        }
        i = i + 1;
    }
    push_str(&mut s, "</hh:charProperties>");
    assert(s@ =~= char_properties_xml(char_shapes@));
    push_str(out, s.as_str());
}

/// Language group name of index `i` (`0..7`), in the order of `font_faces`.
pub open spec fn lang_name(i: nat) -> Seq<char> {
    if i == 0 { "HANGUL"@ }
    else if i == 1 { "LATIN"@ }
    else if i == 2 { "HANJA"@ }
    else if i == 3 { "JAPANESE"@ }
    else if i == 4 { "OTHER"@ }
    else if i == 5 { "SYMBOL"@ }
    else { "USER"@ }
}

fn lang_name_str(i: usize) -> (r: &'static str)
    requires
        i < 7,
    ensures
        r@ == lang_name(i as nat),
{
    match i {
        0 => "HANGUL",
        1 => "LATIN",
        2 => "HANJA",
        3 => "JAPANESE",
        4 => "OTHER",
        5 => "SYMBOL",
        _ => "USER",
    }
}

/// The fixed `typeInfo` child of every font.
pub open spec fn type_info_xml() -> Seq<char> {
    "<hh:typeInfo familyType=\"FCAT_GOTHIC\" weight=\"6\" proportion=\"4\" contrast=\"0\" strokeVariation=\"1\" armStyle=\"1\" letterform=\"1\" midline=\"1\" xHeight=\"1\"/>"@
}

/// One `<hh:font>` with id `j`; its face name is XML-escaped.
pub open spec fn font_xml(j: nat, f: Font) -> Seq<char> {
    "<hh:font id=\""@ + dec_nat(j) + "\" face=\""@ + xml_escaped(f.name@)
        + "\" type=\"TTF\" isEmbedded=\"0\">"@ + type_info_xml() + "</hh:font>"@
}

/// The fonts `fonts[0..n]`, with ids `0..n`.
pub open spec fn fonts_xml(fonts: Seq<Font>, n: nat) -> Seq<char>
    decreases n,
{
    if n == 0 {
        Seq::empty()
    } else {
        fonts_xml(fonts, (n - 1) as nat) + font_xml((n - 1) as nat, fonts[n - 1])
    }
}

/// The fonts of language group `i`: nothing when the model has no such group.
pub open spec fn font_group(font_faces: Seq<Vec<Font>>, i: nat) -> Seq<Font> {
    if i < font_faces.len() { font_faces[i as int]@ } else { Seq::empty() }
}

/// One `<hh:fontface>` for a language and its fonts.
pub open spec fn fontface_xml(lang: Seq<char>, fonts: Seq<Font>) -> Seq<char> {
    "<hh:fontface lang=\""@ + lang + "\" fontCnt=\""@ + dec_nat(fonts.len()) + "\">"@
        + fonts_xml(fonts, fonts.len()) + "</hh:fontface>"@
}

/// The `fontface` elements of the first `n` language groups.
pub open spec fn fontface_groups_xml(font_faces: Seq<Vec<Font>>, n: nat) -> Seq<char>
    decreases n,
{
    if n == 0 {
        Seq::empty()
    } else {
        fontface_groups_xml(font_faces, (n - 1) as nat)
            + fontface_xml(lang_name((n - 1) as nat), font_group(font_faces, (n - 1) as nat))
    }
}

/// The `<hh:fontfaces>` block: always all seven language groups.
pub open spec fn fontfaces_xml(font_faces: Seq<Vec<Font>>) -> Seq<char> {
    "<hh:fontfaces itemCnt=\"7\">"@ + fontface_groups_xml(font_faces, 7) + "</hh:fontfaces>"@
}

/// The font faces block always lists the seven language groups, in the
/// order HANGUL, LATIN, HANJA, JAPANESE, OTHER, SYMBOL, USER, each with
/// its fonts (none for a group the model lacks).
pub proof fn law_seven_fontfaces(ff: Seq<Vec<Font>>)
    ensures
        fontfaces_xml(ff) == "<hh:fontfaces itemCnt=\"7\">"@
            + fontface_xml("HANGUL"@, font_group(ff, 0))
            + fontface_xml("LATIN"@, font_group(ff, 1))
            + fontface_xml("HANJA"@, font_group(ff, 2))
            + fontface_xml("JAPANESE"@, font_group(ff, 3))
            + fontface_xml("OTHER"@, font_group(ff, 4))
            + fontface_xml("SYMBOL"@, font_group(ff, 5))
            + fontface_xml("USER"@, font_group(ff, 6))
            + "</hh:fontfaces>"@,
{
    reveal_with_fuel(fontface_groups_xml, 8);
    let g = |i: nat| fontface_xml(lang_name(i), font_group(ff, i));
    assert(fontface_groups_xml(ff, 7) =~= g(0) + g(1) + g(2) + g(3) + g(4) + g(5) + g(6));
}

fn write_fontface(out: &mut String, lang: &str, fonts: &Vec<Font>)
    ensures
        final(out)@ == old(out)@ + fontface_xml(lang@, fonts@),
{
    let mut s = string_of("<hh:fontface lang=\"");
    push_str(&mut s, lang);
    push_str(&mut s, "\" fontCnt=\"");
    push_u64(&mut s, fonts.len() as u64);
    push_str(&mut s, "\">");
    let ghost head = s@;
    let n = fonts.len();
    let mut j: usize = 0;
    assert(s@ =~= head + fonts_xml(fonts@, 0));
    while j < n
        invariant
            n == fonts@.len(),
            j <= n,
            s@ == head + fonts_xml(fonts@, j as nat),
        decreases n - j,
    {
        let mut f = string_of("<hh:font id=\"");
        push_u64(&mut f, j as u64);
        push_str(&mut f, "\" face=\"");
        push_str(&mut f, xml_escape(fonts[j].name.as_str()).as_str());
        push_str(&mut f, "\" type=\"TTF\" isEmbedded=\"0\">");
        push_str(&mut f, "<hh:typeInfo familyType=\"FCAT_GOTHIC\" weight=\"6\" proportion=\"4\" contrast=\"0\" strokeVariation=\"1\" armStyle=\"1\" letterform=\"1\" midline=\"1\" xHeight=\"1\"/>");
        push_str(&mut f, "</hh:font>");
        assert(f@ == font_xml(j as nat, fonts@[j as int]));
        let ghost prev = fonts_xml(fonts@, j as nat);
        push_str(&mut s, f.as_str());
        proof {
            lemma_concat3(head, prev, f@);
        }
        j = j + 1;
    }
    push_str(&mut s, "</hh:fontface>");
    assert(s@ =~= fontface_xml(lang@, fonts@));
    push_str(out, s.as_str());
}

fn write_fontfaces(out: &mut String, font_faces: &Vec<Vec<Font>>)
    ensures
        final(out)@ == old(out)@ + fontfaces_xml(font_faces@),
{
    let mut s = string_of("<hh:fontfaces itemCnt=\"7\">");
    let ghost head = s@;
    let empty: Vec<Font> = Vec::new();
    let mut i: usize = 0;
    assert(s@ =~= head + fontface_groups_xml(font_faces@, 0));
    while i < 7
        invariant
            i <= 7,
            empty@.len() == 0,
            s@ == head + fontface_groups_xml(font_faces@, i as nat),
        decreases 7 - i,
    {
        let fonts: &Vec<Font> = if i < font_faces.len() { &font_faces[i] } else { &empty };
        assert(fonts@ =~= font_group(font_faces@, i as nat));
        let ghost prev = fontface_groups_xml(font_faces@, i as nat);
        write_fontface(&mut s, lang_name_str(i), fonts);
        proof {
            lemma_concat3(head, prev, fontface_xml(lang_name(i as nat), font_group(font_faces@, i as nat)));
        }
        i = i + 1;
    }
    push_str(&mut s, "</hh:fontfaces>");
    assert(s@ =~= fontfaces_xml(font_faces@));
    push_str(out, s.as_str());
}


/// One side border of a placeholder border fill.
pub open spec fn border_side_xml(dir: Seq<char>) -> Seq<char> {
    "<hh:"@ + dir + "Border type=\"NONE\" width=\"0.1 mm\" color=\"#000000\"/>"@
}

/// A placeholder border fill: no borders but a solid diagonal; id 2 also
/// has an empty fill brush.
pub open spec fn border_fill_xml(id: nat) -> Seq<char> {
    "<hh:borderFill id=\""@ + dec_nat(id) + "\" threeD=\"0\" shadow=\"0\" centerLine=\"NONE\" breakCellSeparateLine=\"0\">"@
        + "<hh:slash type=\"NONE\" Crooked=\"0\" isCounter=\"0\"/>"@
        + "<hh:backSlash type=\"NONE\" Crooked=\"0\" isCounter=\"0\"/>"@
        + border_side_xml("left"@) + border_side_xml("right"@) + border_side_xml("top"@)
        + border_side_xml("bottom"@)
        + "<hh:diagonal type=\"SOLID\" width=\"0.1 mm\" color=\"#000000\"/>"@
        + when(id == 2, "<hc:fillBrush><hc:winBrush faceColor=\"none\" hatchColor=\"#999999\" alpha=\"0\"/></hc:fillBrush>"@)
        + "</hh:borderFill>"@
}

/// The `<hh:borderFills>` block: border fills 1 and 2.
pub open spec fn border_fills_xml() -> Seq<char> {
    "<hh:borderFills itemCnt=\"2\">"@ + border_fill_xml(1) + border_fill_xml(2) + "</hh:borderFills>"@
}

fn push_border_side(s: &mut String, dir: &str)
    ensures
        final(s)@ == old(s)@ + border_side_xml(dir@),
{
    let mut t = string_of("<hh:");
    push_str(&mut t, dir);
    push_str(&mut t, "Border type=\"NONE\" width=\"0.1 mm\" color=\"#000000\"/>");
    push_str(s, t.as_str());
}

fn push_border_fill(out: &mut String, id: u32)
    ensures
        final(out)@ == old(out)@ + border_fill_xml(id as nat),
{
    let mut s = string_of("<hh:borderFill id=\"");
    push_u64(&mut s, id as u64);
    push_str(&mut s, "\" threeD=\"0\" shadow=\"0\" centerLine=\"NONE\" breakCellSeparateLine=\"0\">");
    push_str(&mut s, "<hh:slash type=\"NONE\" Crooked=\"0\" isCounter=\"0\"/>");
    push_str(&mut s, "<hh:backSlash type=\"NONE\" Crooked=\"0\" isCounter=\"0\"/>");
    push_border_side(&mut s, "left");
    push_border_side(&mut s, "right");
    push_border_side(&mut s, "top");
    push_border_side(&mut s, "bottom");
    push_str(&mut s, "<hh:diagonal type=\"SOLID\" width=\"0.1 mm\" color=\"#000000\"/>");
    push_when(&mut s, id == 2, "<hc:fillBrush><hc:winBrush faceColor=\"none\" hatchColor=\"#999999\" alpha=\"0\"/></hc:fillBrush>");
    push_str(&mut s, "</hh:borderFill>");
    assert(s@ == border_fill_xml(id as nat));
    push_str(out, s.as_str());
}

fn border_fills_placeholder(out: &mut String)
    ensures
        final(out)@ == old(out)@ + border_fills_xml(),
{
    let mut s = string_of("<hh:borderFills itemCnt=\"2\">");
    push_border_fill(&mut s, 1);
    push_border_fill(&mut s, 2);
    push_str(&mut s, "</hh:borderFills>");
    assert(s@ == border_fills_xml());
    push_str(out, s.as_str());
}

/// The fixed tab-properties block (tab definition 0).
pub open spec fn tab_properties_xml() -> Seq<char> {
    "<hh:tabProperties itemCnt=\"1\"><hh:tabPr id=\"0\" autoTabLeft=\"0\" autoTabRight=\"0\"/></hh:tabProperties>"@
}

fn tab_properties_placeholder(out: &mut String)
    ensures
        final(out)@ == old(out)@ + tab_properties_xml(),
{
    push_str(out, "<hh:tabProperties itemCnt=\"1\"><hh:tabPr id=\"0\" autoTabLeft=\"0\" autoTabRight=\"0\"/></hh:tabProperties>");
}

/// The fixed paragraph-properties block (paragraph shape 0: justified,
/// 160% line spacing, border fill 2).
pub open spec fn para_properties_xml() -> Seq<char> {
    "<hh:paraProperties itemCnt=\"1\">"@
        + "<hh:paraPr id=\"0\" tabPrIDRef=\"0\" condense=\"0\" fontLineHeight=\"0\" snapToGrid=\"1\" suppressLineNumbers=\"0\" checked=\"0\">"@
        + "<hh:align horizontal=\"JUSTIFY\" vertical=\"BASELINE\"/>"@
        + "<hh:heading type=\"NONE\" idRef=\"0\" level=\"0\"/>"@
        + "<hh:breakSetting breakLatinWord=\"KEEP_WORD\" breakNonLatinWord=\"KEEP_WORD\" widowOrphan=\"0\" keepWithNext=\"0\" keepLines=\"0\" pageBreakBefore=\"0\" lineWrap=\"BREAK\"/>"@
        + "<hh:autoSpacing eAsianEng=\"0\" eAsianNum=\"0\"/>"@
        + "<hh:margin><hc:intent value=\"0\" unit=\"HWPUNIT\"/><hc:left value=\"0\" unit=\"HWPUNIT\"/><hc:right value=\"0\" unit=\"HWPUNIT\"/><hc:prev value=\"0\" unit=\"HWPUNIT\"/><hc:next value=\"0\" unit=\"HWPUNIT\"/></hh:margin>"@
        + "<hh:lineSpacing type=\"PERCENT\" value=\"160\" unit=\"HWPUNIT\"/>"@
        + "<hh:border borderFillIDRef=\"2\" offsetLeft=\"0\" offsetRight=\"0\" offsetTop=\"0\" offsetBottom=\"0\" connect=\"0\" ignoreMargin=\"0\"/>"@
        + "</hh:paraPr>"@
        + "</hh:paraProperties>"@
}

fn para_properties_placeholder(out: &mut String)
    ensures
        final(out)@ == old(out)@ + para_properties_xml(),
{
    let mut s = string_of("<hh:paraProperties itemCnt=\"1\">");
    push_str(&mut s, "<hh:paraPr id=\"0\" tabPrIDRef=\"0\" condense=\"0\" fontLineHeight=\"0\" snapToGrid=\"1\" suppressLineNumbers=\"0\" checked=\"0\">");
    push_str(&mut s, "<hh:align horizontal=\"JUSTIFY\" vertical=\"BASELINE\"/>");
    push_str(&mut s, "<hh:heading type=\"NONE\" idRef=\"0\" level=\"0\"/>");
    push_str(&mut s, "<hh:breakSetting breakLatinWord=\"KEEP_WORD\" breakNonLatinWord=\"KEEP_WORD\" widowOrphan=\"0\" keepWithNext=\"0\" keepLines=\"0\" pageBreakBefore=\"0\" lineWrap=\"BREAK\"/>");
    push_str(&mut s, "<hh:autoSpacing eAsianEng=\"0\" eAsianNum=\"0\"/>");
    push_str(&mut s, "<hh:margin><hc:intent value=\"0\" unit=\"HWPUNIT\"/><hc:left value=\"0\" unit=\"HWPUNIT\"/><hc:right value=\"0\" unit=\"HWPUNIT\"/><hc:prev value=\"0\" unit=\"HWPUNIT\"/><hc:next value=\"0\" unit=\"HWPUNIT\"/></hh:margin>");
    push_str(&mut s, "<hh:lineSpacing type=\"PERCENT\" value=\"160\" unit=\"HWPUNIT\"/>");
    push_str(&mut s, "<hh:border borderFillIDRef=\"2\" offsetLeft=\"0\" offsetRight=\"0\" offsetTop=\"0\" offsetBottom=\"0\" connect=\"0\" ignoreMargin=\"0\"/>");
    push_str(&mut s, "</hh:paraPr>");
    push_str(&mut s, "</hh:paraProperties>");
    assert(s@ == para_properties_xml());
    push_str(out, s.as_str());
}

/// The fixed styles block (style 0, the normal paragraph style).
pub open spec fn styles_xml() -> Seq<char> {
    "<hh:styles itemCnt=\"1\">"@
        + "<hh:style id=\"0\" type=\"PARA\" name=\"바탕글\" engName=\"Normal\" paraPrIDRef=\"0\" charPrIDRef=\"0\" nextStyleIDRef=\"0\" langID=\"1042\" lockForm=\"0\"/>"@
        + "</hh:styles>"@
}

fn styles_placeholder(out: &mut String)
    ensures
        final(out)@ == old(out)@ + styles_xml(),
{
    let mut s = string_of("<hh:styles itemCnt=\"1\">");
    push_str(&mut s, "<hh:style id=\"0\" type=\"PARA\" name=\"바탕글\" engName=\"Normal\" paraPrIDRef=\"0\" charPrIDRef=\"0\" nextStyleIDRef=\"0\" langID=\"1042\" lockForm=\"0\"/>");
    push_str(&mut s, "</hh:styles>");
    assert(s@ == styles_xml());
    push_str(out, s.as_str());
}

/// Namespace declarations and version attributes of `<hh:head>`.
pub const HEAD_NS: &'static str = "xmlns:ha=\"http://www.hancom.co.kr/hwpml/2011/app\" xmlns:hp=\"http://www.hancom.co.kr/hwpml/2011/paragraph\" xmlns:hp10=\"http://www.hancom.co.kr/hwpml/2016/paragraph\" xmlns:hs=\"http://www.hancom.co.kr/hwpml/2011/section\" xmlns:hc=\"http://www.hancom.co.kr/hwpml/2011/core\" xmlns:hh=\"http://www.hancom.co.kr/hwpml/2011/head\" xmlns:hhs=\"http://www.hancom.co.kr/hwpml/2011/history\" xmlns:hm=\"http://www.hancom.co.kr/hwpml/2011/master-page\" xmlns:hpf=\"http://www.hancom.co.kr/schema/2011/hpf\" xmlns:dc=\"http://purl.org/dc/elements/1.1/\" xmlns:opf=\"http://www.idpf.org/2007/opf/\" xmlns:ooxmlchart=\"http://www.hancom.co.kr/hwpml/2016/ooxmlchart\" xmlns:epub=\"http://www.idpf.org/2007/ops\" xmlns:config=\"urn:oasis:names:tc:opendocument:xmlns:config:1.0\" version=\"1.2\" secCnt=\"1\"";

/// The whole `header.xml` text for the given font faces and character shapes.
#[verifier::opaque]
pub open spec fn header_xml(font_faces: Seq<Vec<Font>>, char_shapes: Seq<CharShape>) -> Seq<char> {
    "<?xml version=\"1.0\" encoding=\"UTF-8\" standalone=\"yes\" ?>"@
        + "<hh:head "@ + HEAD_NS@ + ">"@
        + "<hh:beginNum page=\"1\" footnote=\"1\" endnote=\"1\" pic=\"1\" tbl=\"1\" equation=\"1\"/>"@
        + "<hh:refList>"@
        + fontfaces_xml(font_faces)
        + border_fills_xml()
        + char_properties_xml(char_shapes)
        + tab_properties_xml()
        + "<hh:numberings itemCnt=\"0\"/>"@
        + para_properties_xml()
        + styles_xml()
        + "</hh:refList>"@
        + "<hh:compatibleDocument targetProgram=\"HWP201X\"><hh:layoutCompatibility/></hh:compatibleDocument>"@
        + "<hh:docOption><hh:linkinfo path=\"\" pageInherit=\"0\" footnoteInherit=\"0\"/></hh:docOption>"@
        + "<hh:trackchageConfig flags=\"56\"/>"@
        + "</hh:head>"@
}

/// Serializes the document's resource tables as `Contents/header.xml`
/// (UTF-8). Always succeeds.
pub fn write_header(doc: &Document) -> (r: Result<Vec<u8>, SerializeError>)
    ensures
        match r {
            Ok(bytes) => bytes@ == encode_utf8(header_xml(doc.doc_info.font_faces@, doc.doc_info.char_shapes@)),
            Err(_) => false,
        },
{
    reveal(header_xml);
    let mut out = string_of("<?xml version=\"1.0\" encoding=\"UTF-8\" standalone=\"yes\" ?>");
    push_str(&mut out, "<hh:head ");
    push_str(&mut out, HEAD_NS);
    push_str(&mut out, ">");
    push_str(&mut out, "<hh:beginNum page=\"1\" footnote=\"1\" endnote=\"1\" pic=\"1\" tbl=\"1\" equation=\"1\"/>");
    push_str(&mut out, "<hh:refList>");
    write_fontfaces(&mut out, &doc.doc_info.font_faces);
    border_fills_placeholder(&mut out);
    write_char_properties(&mut out, &doc.doc_info.char_shapes);
    tab_properties_placeholder(&mut out);
    push_str(&mut out, "<hh:numberings itemCnt=\"0\"/>");
    para_properties_placeholder(&mut out);
    styles_placeholder(&mut out);
    push_str(&mut out, "</hh:refList>");
    push_str(&mut out, "<hh:compatibleDocument targetProgram=\"HWP201X\"><hh:layoutCompatibility/></hh:compatibleDocument>");
    push_str(&mut out, "<hh:docOption><hh:linkinfo path=\"\" pageInherit=\"0\" footnoteInherit=\"0\"/></hh:docOption>");
    push_str(&mut out, "<hh:trackchageConfig flags=\"56\"/>");
    push_str(&mut out, "</hh:head>");
    assert(out@ == header_xml(doc.doc_info.font_faces@, doc.doc_info.char_shapes@));
    Ok(string_into_bytes(out))
}


spec fn effects_before_scripts(cs: CharShape) -> Seq<char> {
    when(cs.bold, "<hh:bold/>"@) + when(cs.italic, "<hh:italic/>"@) + underline_xml(cs)
        + when(cs.strikethrough, "<hh:strikeout shape=\""@ + line_shape_name(cs.strike_shape)
            + "\" color=\""@ + color_hex(cs.strike_color) + "\"/>"@)
        + when(cs.outline_type != 0, "<hh:outline type=\""@ + outline_name(cs.outline_type) + "\"/>"@)
        + when(cs.shadow_type != 0, "<hh:shadow type=\""@ + "DROP"@ + "\" color=\""@
            + color_hex(cs.shadow_color) + "\"/>"@)
        + when(cs.emboss, "<hh:emboss/>"@) + when(cs.engrave, "<hh:engrave/>"@)
}

proof fn lemma_regroup(a: Seq<char>, b: Seq<char>, c: Seq<char>, d: Seq<char>, e: Seq<char>, f: Seq<char>)
    ensures
        a + b + (c + d + e) + f == (a + b + c) + d + (e + f),
        a + b + (c + d + e) + f == (a + b + c + d) + e + f,
{
    assert(a + b + (c + d + e) + f =~= (a + b + c) + d + (e + f));
    assert(a + b + (c + d + e) + f =~= (a + b + c + d) + e + f);
}

spec fn charpr_head(id: nat, cs: CharShape) -> Seq<char> {
    charpr_open(id, cs) + charpr_langs(cs) + effects_before_scripts(cs)
}

proof fn lemma_charpr_split(id: nat, cs: CharShape)
    ensures
        charpr_xml(id, cs) == charpr_head(id, cs) + when(cs.superscript, "<hh:supscript/>"@)
            + (when(cs.subscript, "<hh:subscript/>"@) + "</hh:charPr>"@),
        charpr_xml(id, cs) == (charpr_head(id, cs) + when(cs.superscript, "<hh:supscript/>"@))
            + when(cs.subscript, "<hh:subscript/>"@) + "</hh:charPr>"@,
{
    reveal(charpr_xml);
    assert(charpr_effects(cs) == effects_before_scripts(cs) + when(cs.superscript, "<hh:supscript/>"@)
        + when(cs.subscript, "<hh:subscript/>"@));
    lemma_regroup(charpr_open(id, cs), charpr_langs(cs), effects_before_scripts(cs),
        when(cs.superscript, "<hh:supscript/>"@), when(cs.subscript, "<hh:subscript/>"@), "</hh:charPr>"@);
}

proof fn lemma_charpr_head_ignores_scripts(id: nat, cs: CharShape, x: CharShape)
    requires
        x == (CharShape { superscript: x.superscript, subscript: x.subscript, ..cs }),
    ensures
        charpr_head(id, x) == charpr_head(id, cs),
{
}

/// Setting the superscript flag of a character shape adds exactly
/// `<hh:supscript/>` to its `charPr`, and nothing else: with the flag off
/// the element is the same text without it.
pub proof fn law_charpr_superscript(id: nat, cs: CharShape)
    ensures
        exists|a: Seq<char>, b: Seq<char>|
            charpr_xml(id, CharShape { superscript: true, ..cs }) == a + "<hh:supscript/>"@ + b
            && #[trigger] charpr_xml(id, CharShape { superscript: false, ..cs }) == a + b,
{
    let on = CharShape { superscript: true, ..cs };
    let off = CharShape { superscript: false, ..cs };
    lemma_charpr_split(id, on);
    lemma_charpr_split(id, off);
    lemma_charpr_head_ignores_scripts(id, cs, on);
    lemma_charpr_head_ignores_scripts(id, cs, off);
    let a = charpr_head(id, cs);
    let b = when(cs.subscript, "<hh:subscript/>"@) + "</hh:charPr>"@;
    assert(a + Seq::<char>::empty() =~= a);
    assert(charpr_xml(id, on) == a + "<hh:supscript/>"@ + b);
    assert(charpr_xml(id, off) == a + b);
}

/// Setting the subscript flag of a character shape adds exactly
/// `<hh:subscript/>` to its `charPr`, and nothing else: with the flag off
/// the element is the same text without it.
pub proof fn law_charpr_subscript(id: nat, cs: CharShape)
    ensures
        exists|a: Seq<char>, b: Seq<char>|
            charpr_xml(id, CharShape { subscript: true, ..cs }) == a + "<hh:subscript/>"@ + b
            && #[trigger] charpr_xml(id, CharShape { subscript: false, ..cs }) == a + b,
{
    let on = CharShape { subscript: true, ..cs };
    let off = CharShape { subscript: false, ..cs };
    lemma_charpr_split(id, on);
    lemma_charpr_split(id, off);
    lemma_charpr_head_ignores_scripts(id, cs, on);
    lemma_charpr_head_ignores_scripts(id, cs, off);
    let a = charpr_head(id, cs) + when(cs.superscript, "<hh:supscript/>"@);
    let b = "</hh:charPr>"@;
    assert(a + Seq::<char>::empty() =~= a);
    assert(charpr_xml(id, on) == a + "<hh:subscript/>"@ + b);
    assert(charpr_xml(id, off) == a + b);
}

/// A superscript shape's `charPr` holds `<hh:supscript/>`, a subscript
/// shape's holds `<hh:subscript/>`.
pub proof fn law_charpr_scripts(id: nat, cs: CharShape)
    ensures
        cs.superscript ==> contains_text(charpr_xml(id, cs), "<hh:supscript/>"@),
        cs.subscript ==> contains_text(charpr_xml(id, cs), "<hh:subscript/>"@),
{
    lemma_charpr_split(id, cs);
    if cs.superscript {
        lemma_contains_mid(charpr_head(id, cs), "<hh:supscript/>"@,
            when(cs.subscript, "<hh:subscript/>"@) + "</hh:charPr>"@);
    }
    if cs.subscript {
        lemma_contains_mid(charpr_head(id, cs) + when(cs.superscript, "<hh:supscript/>"@),
            "<hh:subscript/>"@, "</hh:charPr>"@);
    }
}

proof fn lemma_charprs_hold(cs: Seq<CharShape>, n: nat, k: nat)
    requires
        k < n <= cs.len(),
    ensures
        contains_text(charprs_xml(cs, n), charpr_xml(k, cs[k as int])),
    decreases n,
{
    if k == n - 1 {
        lemma_contains_mid(charprs_xml(cs, (n - 1) as nat), charpr_xml(k, cs[k as int]), Seq::empty());
        assert(charprs_xml(cs, (n - 1) as nat) + charpr_xml(k, cs[k as int]) + Seq::<char>::empty()
            =~= charprs_xml(cs, n));
    } else {
        lemma_charprs_hold(cs, (n - 1) as nat, k);
        let last = charpr_xml((n - 1) as nat, cs[n - 1]);
        lemma_contains_extend(charprs_xml(cs, (n - 1) as nat), charpr_xml(k, cs[k as int]), Seq::empty(), last);
        assert(Seq::<char>::empty() + charprs_xml(cs, (n - 1) as nat) + last =~= charprs_xml(cs, n));
    }
}

/// The header declares every character shape of the model as the
/// `charPr` whose id is its index.
pub proof fn law_header_declares_char_shapes(ff: Seq<Vec<Font>>, cs: Seq<CharShape>, k: int)
    requires
        0 <= k < cs.len(),
    ensures
        contains_text(header_xml(ff, cs), charpr_xml(k as nat, cs[k])),
{
    lemma_charprs_hold(cs, cs.len(), k as nat);
    let cp = char_properties_xml(cs);
    let pre = "<hh:charProperties itemCnt=\""@ + dec_nat(cs.len()) + "\">"@;
    lemma_contains_extend(charprs_xml(cs, cs.len()), charpr_xml(k as nat, cs[k]), pre, "</hh:charProperties>"@);
    assert(cp =~= pre + charprs_xml(cs, cs.len()) + "</hh:charProperties>"@);
    let h = "<?xml version=\"1.0\" encoding=\"UTF-8\" standalone=\"yes\" ?>"@
        + "<hh:head "@ + HEAD_NS@ + ">"@
        + "<hh:beginNum page=\"1\" footnote=\"1\" endnote=\"1\" pic=\"1\" tbl=\"1\" equation=\"1\"/>"@
        + "<hh:refList>"@
        + fontfaces_xml(ff)
        + border_fills_xml();
    let t = tab_properties_xml()
        + "<hh:numberings itemCnt=\"0\"/>"@
        + para_properties_xml()
        + styles_xml()
        + "</hh:refList>"@
        + "<hh:compatibleDocument targetProgram=\"HWP201X\"><hh:layoutCompatibility/></hh:compatibleDocument>"@
        + "<hh:docOption><hh:linkinfo path=\"\" pageInherit=\"0\" footnoteInherit=\"0\"/></hh:docOption>"@
        + "<hh:trackchageConfig flags=\"56\"/>"@
        + "</hh:head>"@;
    lemma_contains_extend(cp, charpr_xml(k as nat, cs[k]), h, t);
    assert(header_xml(ff, cs) =~= h + cp + t) by {
        reveal(header_xml);
    }
}

/// A character shape's `charPr` carries its base size as `height`, its
/// text colour as `textColor`, its shade colour as `shadeColor` and its
/// border fill as `borderFillIDRef`.
pub proof fn law_charpr_attrs(id: nat, cs: CharShape)
    ensures
        contains_text(charpr_xml(id, cs), "\" height=\""@ + dec_int(cs.base_size as int) + "\" textColor=\""@
            + color_hex(cs.text_color) + "\" shadeColor=\""@),
        contains_text(charpr_xml(id, cs), "\" shadeColor=\""@ + color_hex(cs.shade_color)
            + "\" useFontSpace=\"0\" useKerning=\""@),
        contains_text(charpr_xml(id, cs), "\" symMark=\"NONE\" borderFillIDRef=\""@
            + dec_nat(cs.border_fill_id as nat) + "\">"@),
{
    let a = "<hh:charPr id=\""@ + dec_nat(id);
    let p = "\" height=\""@;
    let q = dec_int(cs.base_size as int);
    let r = "\" textColor=\""@;
    let u = color_hex(cs.text_color);
    let v = "\" shadeColor=\""@;
    let w = color_hex(cs.shade_color);
    let x = "\" useFontSpace=\"0\" useKerning=\""@;
    let k = flag01(cs.kerning);
    let y = "\" symMark=\"NONE\" borderFillIDRef=\""@;
    let bf = dec_nat(cs.border_fill_id as nat);
    let z = "\">"@;
    let t1 = p + q + r + u + v;
    let t2 = v + w + x;
    let t3 = y + bf + z;
    let s5 = a + p + q + r + u + v;
    lemma_contains_last5(a, p, q, r, u, v);
    lemma_contains_last3(a + p + q + r + u, v, w, x);
    let s7 = s5 + w + x;
    lemma_contains_append(s5, t1, w);
    lemma_contains_append(s5 + w, t1, x);
    lemma_contains_append(s7, t1, k);
    lemma_contains_append(s7, t2, k);
    lemma_contains_append(s7 + k, t1, y);
    lemma_contains_append(s7 + k, t2, y);
    lemma_contains_append(s7 + k + y, t1, bf);
    lemma_contains_append(s7 + k + y, t2, bf);
    lemma_contains_append(s7 + k + y + bf, t1, z);
    lemma_contains_append(s7 + k + y + bf, t2, z);
    lemma_contains_last3(s7 + k, y, bf, z);
    let op = s7 + k + y + bf + z;
    assert(charpr_open(id, cs) == op);
    lemma_charpr_split(id, cs);
    let rest1 = charpr_langs(cs);
    let rest2 = effects_before_scripts(cs);
    let rest3 = when(cs.superscript, "<hh:supscript/>"@);
    let rest4 = when(cs.subscript, "<hh:subscript/>"@) + "</hh:charPr>"@;
    lemma_contains_append(op, t1, rest1);
    lemma_contains_append(op, t2, rest1);
    lemma_contains_append(op, t3, rest1);
    lemma_contains_append(op + rest1, t1, rest2);
    lemma_contains_append(op + rest1, t2, rest2);
    lemma_contains_append(op + rest1, t3, rest2);
    lemma_contains_append(op + rest1 + rest2, t1, rest3);
    lemma_contains_append(op + rest1 + rest2, t2, rest3);
    lemma_contains_append(op + rest1 + rest2, t3, rest3);
    lemma_contains_append(op + rest1 + rest2 + rest3, t1, rest4);
    lemma_contains_append(op + rest1 + rest2 + rest3, t2, rest4);
    lemma_contains_append(op + rest1 + rest2 + rest3, t3, rest4);
}

proof fn lemma_fonts_hold(fonts: Seq<Font>, n: nat, j: nat)
    requires
        j < n <= fonts.len(),
    ensures
        contains_text(fonts_xml(fonts, n), font_xml(j, fonts[j as int])),
    decreases n,
{
    let prev = fonts_xml(fonts, (n - 1) as nat);
    let last = font_xml((n - 1) as nat, fonts[n - 1]);
    if j == n - 1 {
        lemma_contains_last(prev, last);
    } else {
        lemma_fonts_hold(fonts, (n - 1) as nat, j);
        lemma_contains_append(prev, font_xml(j, fonts[j as int]), last);
    }
}

proof fn lemma_groups_hold(ff: Seq<Vec<Font>>, n: nat, g: nat, t: Seq<char>)
    requires
        g < n,
        contains_text(fontface_xml(lang_name(g), font_group(ff, g)), t),
    ensures
        contains_text(fontface_groups_xml(ff, n), t),
    decreases n,
{
    let prev = fontface_groups_xml(ff, (n - 1) as nat);
    let last = fontface_xml(lang_name((n - 1) as nat), font_group(ff, (n - 1) as nat));
    if g == n - 1 {
        lemma_contains_extend(last, t, prev, Seq::empty());
        lemma_empty_right2(prev + last);
    } else {
        lemma_groups_hold(ff, (n - 1) as nat, g, t);
        lemma_contains_append(prev, t, last);
    }
}

proof fn lemma_empty_right2(s: Seq<char>)
    ensures
        s + Seq::<char>::empty() == s,
{
    assert(s + Seq::<char>::empty() =~= s);
}

proof fn lemma_header_holds_fontfaces(ff: Seq<Vec<Font>>, cs: Seq<CharShape>, t: Seq<char>)
    requires
        contains_text(fontfaces_xml(ff), t),
    ensures
        contains_text(header_xml(ff, cs), t),
{
    let h = "<?xml version=\"1.0\" encoding=\"UTF-8\" standalone=\"yes\" ?>"@
        + "<hh:head "@ + HEAD_NS@ + ">"@
        + "<hh:beginNum page=\"1\" footnote=\"1\" endnote=\"1\" pic=\"1\" tbl=\"1\" equation=\"1\"/>"@
        + "<hh:refList>"@;
    let t2 = border_fills_xml()
        + char_properties_xml(cs)
        + tab_properties_xml()
        + "<hh:numberings itemCnt=\"0\"/>"@
        + para_properties_xml()
        + styles_xml()
        + "</hh:refList>"@
        + "<hh:compatibleDocument targetProgram=\"HWP201X\"><hh:layoutCompatibility/></hh:compatibleDocument>"@
        + "<hh:docOption><hh:linkinfo path=\"\" pageInherit=\"0\" footnoteInherit=\"0\"/></hh:docOption>"@
        + "<hh:trackchageConfig flags=\"56\"/>"@
        + "</hh:head>"@;
    lemma_contains_extend(fontfaces_xml(ff), t, h, t2);
    assert(header_xml(ff, cs) =~= h + fontfaces_xml(ff) + t2) by {
        reveal(header_xml);
    }
}

/// The header lists each language group `g` with its font count as
/// `fontCnt`, and font `j` of the group with id `j` and its (escaped)
/// name as `face`.
pub proof fn law_header_fonts(ff: Seq<Vec<Font>>, cs: Seq<CharShape>, g: nat, j: nat)
    requires
        g < 7,
    ensures
        contains_text(header_xml(ff, cs), "<hh:fontface lang=\""@ + lang_name(g) + "\" fontCnt=\""@
            + dec_nat(font_group(ff, g).len()) + "\">"@),
        j < font_group(ff, g).len() ==> contains_text(header_xml(ff, cs), "<hh:font id=\""@ + dec_nat(j)
            + "\" face=\""@ + xml_escaped(font_group(ff, g)[j as int].name@) + "\" type=\"TTF\" isEmbedded=\"0\">"@),
{
    let fonts = font_group(ff, g);
    let head = "<hh:fontface lang=\""@ + lang_name(g) + "\" fontCnt=\""@ + dec_nat(fonts.len()) + "\">"@;
    let body = fonts_xml(fonts, fonts.len());
    let close = "</hh:fontface>"@;
    assert(fontface_xml(lang_name(g), fonts) == head + body + close);
    lemma_contains_mid(Seq::empty(), head, body + close);
    lemma_concat3(Seq::<char>::empty() + head, body, close);
    assert(Seq::<char>::empty() + head =~= head);
    let fo = "<hh:fontfaces itemCnt=\"7\">"@;
    let fc = "</hh:fontfaces>"@;
    lemma_groups_hold(ff, 7, g, head);
    lemma_contains_extend(fontface_groups_xml(ff, 7), head, fo, fc);
    lemma_header_holds_fontfaces(ff, cs, head);
    if j < fonts.len() {
        let fx = font_xml(j, fonts[j as int]);
        let t = "<hh:font id=\""@ + dec_nat(j) + "\" face=\""@ + xml_escaped(fonts[j as int].name@)
            + "\" type=\"TTF\" isEmbedded=\"0\">"@;
        let tail = type_info_xml() + "</hh:font>"@;
        lemma_contains_mid(Seq::empty(), t, tail);
        assert(Seq::<char>::empty() + t =~= t);
        assert(fx == t + tail);
        lemma_fonts_hold(fonts, fonts.len(), j);
        let ft = choose|i: int| 0 <= i && i + fx.len() <= body.len() && #[trigger] body.subrange(i, i + fx.len()) == fx;
        assert(body.subrange(ft, ft + t.len()) =~= fx.subrange(0, t.len() as int));
        assert(fx.subrange(0, t.len() as int) =~= t);
        lemma_contains_extend(body, t, head, close);
        lemma_groups_hold(ff, 7, g, t);
        lemma_contains_extend(fontface_groups_xml(ff, 7), t, fo, fc);
        lemma_header_holds_fontfaces(ff, cs, t);
    }
}
} // verus!
