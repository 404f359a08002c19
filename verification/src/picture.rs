//! `<hp:pic>`: pictures inside section XML, and the names under which
//! their image data is stored in the package.

use vstd::prelude::*;
use vstd::string::*;
use crate::model::{ImageAttr, ImageEffect, Picture};
use crate::shape::{box4_xml, pos_xml, push_box4, push_pos, push_sz, sz_xml, text_wrap_name, text_wrap_str};
use crate::text::{contains_text, dec_int, dec_nat, lemma_contains_append, lemma_contains_last, lemma_contains_mid, push_char, push_i64, push_str, push_u64, string_of};

verus! {

/// OWPML name of an image effect.
pub open spec fn image_effect_name(e: ImageEffect) -> Seq<char> {
    match e {
        ImageEffect::RealPic => "REAL_PIC"@,
        ImageEffect::GrayScale => "GRAY_SCALE"@,
        ImageEffect::BlackWhite => "BLACK_WHITE"@,
        ImageEffect::Pattern8x8 => "PATTERN_8X8"@,
    }
}

/// The `<hc:img>` element: the image is referred to as `image{bin_data_id}`.
pub open spec fn image_xml(ia: ImageAttr) -> Seq<char> {
    "<hc:img binaryItemIDRef=\"image"@ + dec_nat(ia.bin_data_id as nat) + "\" bright=\""@
        + dec_int(ia.brightness as int) + "\" contrast=\""@ + dec_int(ia.contrast as int)
        + "\" effect=\""@ + image_effect_name(ia.effect) + "\"/>"@
}

/// The opening `<hp:pic>` tag.
pub open spec fn pic_open_xml(pic: Picture) -> Seq<char> {
    "<hp:pic id=\"0\" zOrder=\""@ + dec_int(pic.common.z_order as int)
        + "\" numberingType=\"PICTURE\" textWrap=\""@ + text_wrap_name(pic.common.text_wrap)
        + "\" textFlow=\"BOTH_SIDES\" lock=\"0\" dropcapstyle=\"None\" instid=\""@
        + dec_nat(pic.common.instance_id as nat) + "\">"@
}

/// A whole `<hp:pic>` element.
#[verifier::opaque]
pub open spec fn picture_xml(pic: Picture) -> Seq<char> {
    pic_open_xml(pic) + sz_xml(pic.common) + pos_xml(pic.common)
        + box4_xml("hp:outMargin"@, pic.common.margin.left as int, pic.common.margin.right as int,
            pic.common.margin.top as int, pic.common.margin.bottom as int)
        + box4_xml("hp:inMargin"@, pic.padding.left as int, pic.padding.right as int,
            pic.padding.top as int, pic.padding.bottom as int)
        + box4_xml("hp:imgClip"@, pic.crop.left as int, pic.crop.right as int, pic.crop.top as int,
            pic.crop.bottom as int)
        + image_xml(pic.image_attr)
        + "</hp:pic>"@
}

/// A picture's clipping box carries its crop rectangle attribute by
/// attribute: `left`, `right`, `top` and `bottom` are the crop's left,
/// right, top and bottom values.
pub proof fn law_img_clip(pic: Picture)
    ensures
        contains_text(picture_xml(pic), "<hp:imgClip left=\""@ + dec_int(pic.crop.left as int)
            + "\" right=\""@ + dec_int(pic.crop.right as int) + "\" top=\""@ + dec_int(pic.crop.top as int)
            + "\" bottom=\""@ + dec_int(pic.crop.bottom as int) + "\"/>"@),
{
    reveal(picture_xml);
    reveal_strlit("<");
    reveal_strlit("hp:imgClip");
    reveal_strlit(" left=\"");
    reveal_strlit("<hp:imgClip left=\"");
    let clip = box4_xml("hp:imgClip"@, pic.crop.left as int, pic.crop.right as int, pic.crop.top as int,
        pic.crop.bottom as int);
    let a = pic_open_xml(pic) + sz_xml(pic.common) + pos_xml(pic.common)
        + box4_xml("hp:outMargin"@, pic.common.margin.left as int, pic.common.margin.right as int,
            pic.common.margin.top as int, pic.common.margin.bottom as int)
        + box4_xml("hp:inMargin"@, pic.padding.left as int, pic.padding.right as int,
            pic.padding.top as int, pic.padding.bottom as int);
    let b = image_xml(pic.image_attr) + "</hp:pic>"@;
    assert(picture_xml(pic) =~= a + clip + b);
    assert(clip =~= "<hp:imgClip left=\""@ + dec_int(pic.crop.left as int)
        + "\" right=\""@ + dec_int(pic.crop.right as int) + "\" top=\""@ + dec_int(pic.crop.top as int)
        + "\" bottom=\""@ + dec_int(pic.crop.bottom as int) + "\"/>"@);
    lemma_contains_mid(a, clip, b);
}

/// A picture's outer margins carry its common margins side by side
/// (`left`, `right`, `top`, `bottom`), and its inner margins its padding.
pub proof fn law_picture_margins(pic: Picture)
    ensures
        contains_text(picture_xml(pic), "<hp:outMargin left=\""@ + dec_int(pic.common.margin.left as int)
            + "\" right=\""@ + dec_int(pic.common.margin.right as int) + "\" top=\""@
            + dec_int(pic.common.margin.top as int) + "\" bottom=\""@ + dec_int(pic.common.margin.bottom as int)
            + "\"/>"@),
        contains_text(picture_xml(pic), "<hp:inMargin left=\""@ + dec_int(pic.padding.left as int)
            + "\" right=\""@ + dec_int(pic.padding.right as int) + "\" top=\""@ + dec_int(pic.padding.top as int)
            + "\" bottom=\""@ + dec_int(pic.padding.bottom as int) + "\"/>"@),
{
    lemma_picture_margin_pieces(pic);
    reveal_strlit("<");
    reveal_strlit("hp:outMargin");
    reveal_strlit("hp:inMargin");
    reveal_strlit(" left=\"");
    reveal_strlit("<hp:outMargin left=\"");
    reveal_strlit("<hp:inMargin left=\"");
    assert(box4_xml("hp:outMargin"@, pic.common.margin.left as int, pic.common.margin.right as int,
        pic.common.margin.top as int, pic.common.margin.bottom as int)
        =~= "<hp:outMargin left=\""@ + dec_int(pic.common.margin.left as int)
            + "\" right=\""@ + dec_int(pic.common.margin.right as int) + "\" top=\""@
            + dec_int(pic.common.margin.top as int) + "\" bottom=\""@ + dec_int(pic.common.margin.bottom as int)
            + "\"/>"@);
    assert(box4_xml("hp:inMargin"@, pic.padding.left as int, pic.padding.right as int,
        pic.padding.top as int, pic.padding.bottom as int)
        =~= "<hp:inMargin left=\""@ + dec_int(pic.padding.left as int)
            + "\" right=\""@ + dec_int(pic.padding.right as int) + "\" top=\""@ + dec_int(pic.padding.top as int)
            + "\" bottom=\""@ + dec_int(pic.padding.bottom as int) + "\"/>"@);
}

proof fn lemma_picture_margin_pieces(pic: Picture)
    ensures
        contains_text(picture_xml(pic), box4_xml("hp:outMargin"@, pic.common.margin.left as int,
            pic.common.margin.right as int, pic.common.margin.top as int, pic.common.margin.bottom as int)),
        contains_text(picture_xml(pic), box4_xml("hp:inMargin"@, pic.padding.left as int, pic.padding.right as int,
            pic.padding.top as int, pic.padding.bottom as int)),
{
    let a = pic_open_xml(pic) + sz_xml(pic.common) + pos_xml(pic.common);
    let om = box4_xml("hp:outMargin"@, pic.common.margin.left as int, pic.common.margin.right as int,
        pic.common.margin.top as int, pic.common.margin.bottom as int);
    let im = box4_xml("hp:inMargin"@, pic.padding.left as int, pic.padding.right as int,
        pic.padding.top as int, pic.padding.bottom as int);
    let clip = box4_xml("hp:imgClip"@, pic.crop.left as int, pic.crop.right as int, pic.crop.top as int,
        pic.crop.bottom as int);
    let img = image_xml(pic.image_attr);
    let end = "</hp:pic>"@;
    assert(picture_xml(pic) == a + om + im + clip + img + end) by {
        reveal(picture_xml);
    }
    lemma_contains_last(a, om);
    lemma_contains_append(a + om, om, im);
    lemma_contains_append(a + om + im, om, clip);
    lemma_contains_append(a + om + im + clip, om, img);
    lemma_contains_append(a + om + im + clip + img, om, end);
    lemma_contains_last(a + om, im);
    lemma_contains_append(a + om + im, im, clip);
    lemma_contains_append(a + om + im + clip, im, img);
    lemma_contains_append(a + om + im + clip + img, im, end);
}

/// The image reference of a picture names its image by id: `image{id}`.
pub proof fn law_picture_image_ref(pic: Picture)
    ensures
        contains_text(picture_xml(pic), "<hc:img binaryItemIDRef=\"image"@
            + dec_nat(pic.image_attr.bin_data_id as nat) + "\" bright=\""@),
{
    reveal(picture_xml);
    let a = pic_open_xml(pic) + sz_xml(pic.common) + pos_xml(pic.common)
        + box4_xml("hp:outMargin"@, pic.common.margin.left as int, pic.common.margin.right as int,
            pic.common.margin.top as int, pic.common.margin.bottom as int)
        + box4_xml("hp:inMargin"@, pic.padding.left as int, pic.padding.right as int,
            pic.padding.top as int, pic.padding.bottom as int)
        + box4_xml("hp:imgClip"@, pic.crop.left as int, pic.crop.right as int, pic.crop.top as int,
            pic.crop.bottom as int);
    let t = "<hc:img binaryItemIDRef=\"image"@ + dec_nat(pic.image_attr.bin_data_id as nat) + "\" bright=\""@;
    let ia = pic.image_attr;
    let rest = dec_int(ia.brightness as int) + "\" contrast=\""@ + dec_int(ia.contrast as int)
        + "\" effect=\""@ + image_effect_name(ia.effect) + "\"/>"@ + "</hp:pic>"@;
    assert(picture_xml(pic) =~= a + t + rest);
    lemma_contains_mid(a, t, rest);
}

fn image_tag(ia: &ImageAttr) -> (r: String)
    ensures
        r@ == image_xml(*ia),
{
    let effect = match ia.effect {
        ImageEffect::RealPic => "REAL_PIC",
        ImageEffect::GrayScale => "GRAY_SCALE",
        ImageEffect::BlackWhite => "BLACK_WHITE",
        ImageEffect::Pattern8x8 => "PATTERN_8X8",
    };
    let mut s = string_of("<hc:img binaryItemIDRef=\"image");
    push_u64(&mut s, ia.bin_data_id as u64);
    push_str(&mut s, "\" bright=\"");
    push_i64(&mut s, ia.brightness as i64);
    push_str(&mut s, "\" contrast=\"");
    push_i64(&mut s, ia.contrast as i64);
    push_str(&mut s, "\" effect=\"");
    push_str(&mut s, effect);
    push_str(&mut s, "\"/>");
    assert(s@ == image_xml(*ia));
    s
}

/// `<hp:pic>` serialization, appended to `out`.
pub fn write_picture(out: &mut String, pic: &Picture)
    ensures
        final(out)@ == old(out)@ + picture_xml(*pic),
{
    reveal(picture_xml);
    let mut s = string_of("<hp:pic id=\"0\" zOrder=\"");
    push_i64(&mut s, pic.common.z_order as i64);
    push_str(&mut s, "\" numberingType=\"PICTURE\" textWrap=\"");
    push_str(&mut s, text_wrap_str(pic.common.text_wrap));
    push_str(&mut s, "\" textFlow=\"BOTH_SIDES\" lock=\"0\" dropcapstyle=\"None\" instid=\"");
    push_u64(&mut s, pic.common.instance_id as u64);
    push_str(&mut s, "\">");
    assert(s@ == pic_open_xml(*pic));
    push_sz(&mut s, &pic.common);
    push_pos(&mut s, &pic.common);
    push_box4(&mut s, "hp:outMargin", pic.common.margin.left as i64, pic.common.margin.right as i64,
        pic.common.margin.top as i64, pic.common.margin.bottom as i64);
    push_box4(&mut s, "hp:inMargin", pic.padding.left as i64, pic.padding.right as i64,
        pic.padding.top as i64, pic.padding.bottom as i64);
    push_box4(&mut s, "hp:imgClip", pic.crop.left as i64, pic.crop.right as i64, pic.crop.top as i64,
        pic.crop.bottom as i64);
    push_str(&mut s, image_tag(&pic.image_attr).as_str());
    push_str(&mut s, "</hp:pic>");
    assert(s@ == picture_xml(*pic));
    push_str(out, s.as_str());
}

/// Package path of an image: `BinData/image{id}.{ext}`.
pub open spec fn bin_data_path_spec(id: u16, ext: Seq<char>) -> Seq<char> {
    "BinData/image"@ + dec_nat(id as nat) + "."@ + ext
}

/// BinData ZIP path: `"BinData/image{id}.{ext}"`.
pub fn bin_data_path(id: u16, ext: &str) -> (r: String)
    ensures
        r@ == bin_data_path_spec(id, ext@),
{
    let mut s = string_of("BinData/image");
    push_u64(&mut s, id as u64);
    push_str(&mut s, ".");
    push_str(&mut s, ext);
    s
}

/// ASCII upper-case letters mapped to lower case, other characters kept.
pub open spec fn ascii_lower(s: Seq<char>) -> Seq<char> {
    s.map_values(|c: char| if 'A' <= c && c <= 'Z' { ((c as u32) + 32) as char } else { c })
}

/// MIME type of an image file extension, compared without regard to case.
pub open spec fn media_type_name(ext: Seq<char>) -> Seq<char> {
    let e = ascii_lower(ext);
    if e == "png"@ {
        "image/png"@
    } else if e == "jpg"@ || e == "jpeg"@ {
        "image/jpeg"@
    } else if e == "bmp"@ {
        "image/bmp"@
    } else if e == "gif"@ {
        "image/gif"@
    } else if e == "tiff"@ || e == "tif"@ {
        "image/tiff"@
    } else if e == "wmf"@ {
        "image/x-wmf"@
    } else if e == "emf"@ {
        "image/x-emf"@
    } else {
        "application/octet-stream"@
    }
}

fn lower_ascii(ext: &str) -> (r: String)
    ensures
        r@ == ascii_lower(ext@),
{
    let mut s = String::new();
    let ghost text = ext@;
    for c in it: ext.chars()
        invariant
            it.seq() == text,
            s@ == ascii_lower(text.take(it.index() as int)),
    {
        let ghost i = it.index() as int;
        let d = if 'A' <= c && c <= 'Z' { ((c as u8) + 32) as char } else { c };
        push_char(&mut s, d);
        proof {
            assert(s@ =~= ascii_lower(text.take(i + 1)));
        }
    }
    proof {
        assert(text.take(text.len() as int) =~= text);
    }
    s
}

/// MIME type from an image file extension (case-insensitive);
/// unknown extensions give `application/octet-stream`.
pub fn media_type(ext: &str) -> (r: &'static str)
    ensures
        r@ == media_type_name(ext@),
{
    let e = lower_ascii(ext);
    if e == string_of("png") {
        "image/png"
    } else if e == string_of("jpg") || e == string_of("jpeg") {
        "image/jpeg"
    } else if e == string_of("bmp") {
        "image/bmp"
    } else if e == string_of("gif") {
        "image/gif"
    } else if e == string_of("tiff") || e == string_of("tif") {
        "image/tiff"
    } else if e == string_of("wmf") {
        "image/x-wmf"
    } else if e == string_of("emf") {
        "image/x-emf"
    } else {
        "application/octet-stream"
    }
}

} // verus!
