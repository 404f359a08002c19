//! Placement elements shared by tables and pictures (`hp:sz`, `hp:pos`,
//! margin boxes) and the OWPML names of the placement enumerations.

use vstd::prelude::*;
use crate::model::{CommonObjAttr, HorzAlign, HorzRelTo, SizeCriterion, TextWrap, VertAlign, VertRelTo};
use crate::text::{contains_text, dec_int, dec_nat, lemma_contains_mid, push_i64, push_str, push_u64, string_of};

verus! {

/// OWPML name of a text-wrap mode.
pub open spec fn text_wrap_name(w: TextWrap) -> Seq<char> {
    match w {
        TextWrap::Square => "SQUARE"@,
        TextWrap::Tight => "TIGHT"@,
        TextWrap::Through => "THROUGH"@,
        TextWrap::TopAndBottom => "TOP_AND_BOTTOM"@,
        TextWrap::BehindText => "BEHIND_TEXT"@,
        TextWrap::InFrontOfText => "IN_FRONT_OF_TEXT"@,
    }
}

/// The OWPML name of a text-wrap mode.
pub fn text_wrap_str(w: TextWrap) -> (r: &'static str)
    ensures
        r@ == text_wrap_name(w),
{
    match w {
        TextWrap::Square => "SQUARE",
        TextWrap::Tight => "TIGHT",
        TextWrap::Through => "THROUGH",
        TextWrap::TopAndBottom => "TOP_AND_BOTTOM",
        TextWrap::BehindText => "BEHIND_TEXT",
        TextWrap::InFrontOfText => "IN_FRONT_OF_TEXT",
    }
}

/// OWPML name of a vertical reference.
pub open spec fn vert_rel_name(v: VertRelTo) -> Seq<char> {
    match v {
        VertRelTo::Paper => "PAPER"@,
        VertRelTo::Page => "PAGE"@,
        VertRelTo::Para => "PARA"@,
    }
}

/// The OWPML name of a vertical reference.
pub fn vert_rel_str(v: VertRelTo) -> (r: &'static str)
    ensures
        r@ == vert_rel_name(v),
{
    match v {
        VertRelTo::Paper => "PAPER",
        VertRelTo::Page => "PAGE",
        VertRelTo::Para => "PARA",
    }
}

/// OWPML name of a horizontal reference.
pub open spec fn horz_rel_name(h: HorzRelTo) -> Seq<char> {
    match h {
        HorzRelTo::Paper => "PAPER"@,
        HorzRelTo::Page => "PAGE"@,
        HorzRelTo::Column => "COLUMN"@,
        HorzRelTo::Para => "PARA"@,
    }
}

/// The OWPML name of a horizontal reference.
pub fn horz_rel_str(h: HorzRelTo) -> (r: &'static str)
    ensures
        r@ == horz_rel_name(h),
{
    match h {
        HorzRelTo::Paper => "PAPER",
        HorzRelTo::Page => "PAGE",
        HorzRelTo::Column => "COLUMN",
        HorzRelTo::Para => "PARA",
    }
}

/// OWPML name of a vertical alignment.
pub open spec fn vert_align_name(v: VertAlign) -> Seq<char> {
    match v {
        VertAlign::Top => "TOP"@,
        VertAlign::Center => "CENTER"@,
        VertAlign::Bottom => "BOTTOM"@,
        VertAlign::Inside => "INSIDE"@,
        VertAlign::Outside => "OUTSIDE"@,
    }
}

/// The OWPML name of a vertical alignment.
pub fn vert_align_str(v: VertAlign) -> (r: &'static str)
    ensures
        r@ == vert_align_name(v),
{
    match v {
        VertAlign::Top => "TOP",
        VertAlign::Center => "CENTER",
        VertAlign::Bottom => "BOTTOM",
        VertAlign::Inside => "INSIDE",
        VertAlign::Outside => "OUTSIDE",
    }
}

/// OWPML name of a horizontal alignment.
pub open spec fn horz_align_name(h: HorzAlign) -> Seq<char> {
    match h {
        HorzAlign::Left => "LEFT"@,
        HorzAlign::Center => "CENTER"@,
        HorzAlign::Right => "RIGHT"@,
        HorzAlign::Inside => "INSIDE"@,
        HorzAlign::Outside => "OUTSIDE"@,
    }
}

/// The OWPML name of a horizontal alignment.
pub fn horz_align_str(h: HorzAlign) -> (r: &'static str)
    ensures
        r@ == horz_align_name(h),
{
    match h {
        HorzAlign::Left => "LEFT",
        HorzAlign::Center => "CENTER",
        HorzAlign::Right => "RIGHT",
        HorzAlign::Inside => "INSIDE",
        HorzAlign::Outside => "OUTSIDE",
    }
}

/// OWPML name of a size criterion.
pub open spec fn size_criterion_name(s: SizeCriterion) -> Seq<char> {
    match s {
        SizeCriterion::Paper => "PAPER"@,
        SizeCriterion::Page => "PAGE"@,
        SizeCriterion::Column => "COLUMN"@,
        SizeCriterion::Para => "PARA"@,
        SizeCriterion::Absolute => "ABSOLUTE"@,
    }
}

/// The OWPML name of a size criterion.
pub fn size_criterion_str(s: SizeCriterion) -> (r: &'static str)
    ensures
        r@ == size_criterion_name(s),
{
    match s {
        SizeCriterion::Paper => "PAPER",
        SizeCriterion::Page => "PAGE",
        SizeCriterion::Column => "COLUMN",
        SizeCriterion::Para => "PARA",
        SizeCriterion::Absolute => "ABSOLUTE",
    }
}

/// `"1"` for true, `"0"` for false.
pub open spec fn bool01(b: bool) -> Seq<char> {
    if b { "1"@ } else { "0"@ }
}

/// The `<hp:sz>` element of an object.
pub open spec fn sz_xml(c: CommonObjAttr) -> Seq<char> {
    "<hp:sz width=\""@ + dec_nat(c.width as nat) + "\" widthRelTo=\""@ + size_criterion_name(c.width_criterion)
        + "\" height=\""@ + dec_nat(c.height as nat) + "\" heightRelTo=\""@
        + size_criterion_name(c.height_criterion) + "\" protect=\"0\"/>"@
}

/// The `<hp:pos>` element of an object.
pub open spec fn pos_xml(c: CommonObjAttr) -> Seq<char> {
    "<hp:pos treatAsChar=\""@ + bool01(c.treat_as_char)
        + "\" affectLSpacing=\"0\" flowWithText=\"1\" allowOverlap=\"0\" holdAnchorAndSO=\"0\" vertRelTo=\""@
        + vert_rel_name(c.vert_rel_to) + "\" horzRelTo=\""@ + horz_rel_name(c.horz_rel_to)
        + "\" vertAlign=\""@ + vert_align_name(c.vert_align) + "\" horzAlign=\""@
        + horz_align_name(c.horz_align) + "\" vertOffset=\""@ + dec_nat(c.vertical_offset as nat)
        + "\" horzOffset=\""@ + dec_nat(c.horizontal_offset as nat) + "\"/>"@
}

/// A four-sided box element `<tag left=".." right=".." top=".." bottom=".."/>`.
pub open spec fn box4_xml(tag: Seq<char>, l: int, r: int, t: int, b: int) -> Seq<char> {
    "<"@ + tag + " left=\""@ + dec_int(l) + "\" right=\""@ + dec_int(r) + "\" top=\""@ + dec_int(t)
        + "\" bottom=\""@ + dec_int(b) + "\"/>"@
}

/// Appends the `<hp:sz>` element of an object.
pub fn push_sz(out: &mut String, c: &CommonObjAttr)
    ensures
        final(out)@ == old(out)@ + sz_xml(*c),
{
    let mut s = string_of("<hp:sz width=\"");
    push_u64(&mut s, c.width as u64);
    push_str(&mut s, "\" widthRelTo=\"");
    push_str(&mut s, size_criterion_str(c.width_criterion));
    push_str(&mut s, "\" height=\"");
    push_u64(&mut s, c.height as u64);
    push_str(&mut s, "\" heightRelTo=\"");
    push_str(&mut s, size_criterion_str(c.height_criterion));
    push_str(&mut s, "\" protect=\"0\"/>");
    assert(s@ == sz_xml(*c));
    push_str(out, s.as_str());
}

/// Appends the `<hp:pos>` element of an object.
pub fn push_pos(out: &mut String, c: &CommonObjAttr)
    ensures
        final(out)@ == old(out)@ + pos_xml(*c),
{
    let mut s = string_of("<hp:pos treatAsChar=\"");
    push_str(&mut s, if c.treat_as_char { "1" } else { "0" });
    push_str(&mut s, "\" affectLSpacing=\"0\" flowWithText=\"1\" allowOverlap=\"0\" holdAnchorAndSO=\"0\" vertRelTo=\"");
    push_str(&mut s, vert_rel_str(c.vert_rel_to));
    push_str(&mut s, "\" horzRelTo=\"");
    push_str(&mut s, horz_rel_str(c.horz_rel_to));
    push_str(&mut s, "\" vertAlign=\"");
    push_str(&mut s, vert_align_str(c.vert_align));
    push_str(&mut s, "\" horzAlign=\"");
    push_str(&mut s, horz_align_str(c.horz_align));
    push_str(&mut s, "\" vertOffset=\"");
    push_u64(&mut s, c.vertical_offset as u64);
    push_str(&mut s, "\" horzOffset=\"");
    push_u64(&mut s, c.horizontal_offset as u64);
    push_str(&mut s, "\"/>");
    assert(s@ == pos_xml(*c));
    push_str(out, s.as_str());
}

/// Appends a four-sided box element (margins, clipping).
pub fn push_box4(out: &mut String, tag: &str, l: i64, r: i64, t: i64, b: i64)
    ensures
        final(out)@ == old(out)@ + box4_xml(tag@, l as int, r as int, t as int, b as int),
{
    let mut s = string_of("<");
    push_str(&mut s, tag);
    push_str(&mut s, " left=\"");
    push_i64(&mut s, l);
    push_str(&mut s, "\" right=\"");
    push_i64(&mut s, r);
    push_str(&mut s, "\" top=\"");
    push_i64(&mut s, t);
    push_str(&mut s, "\" bottom=\"");
    push_i64(&mut s, b);
    push_str(&mut s, "\"/>");
    assert(s@ == box4_xml(tag@, l as int, r as int, t as int, b as int));
    push_str(out, s.as_str());
}


/// An object's size element carries its width as `width` and its height
/// as `height`.
pub proof fn law_sz_attrs(c: CommonObjAttr)
    ensures
        contains_text(sz_xml(c), "<hp:sz width=\""@ + dec_nat(c.width as nat) + "\" widthRelTo=\""@),
        contains_text(sz_xml(c), "\" height=\""@ + dec_nat(c.height as nat) + "\" heightRelTo=\""@),
{
    let t1 = "<hp:sz width=\""@ + dec_nat(c.width as nat) + "\" widthRelTo=\""@;
    let r1 = size_criterion_name(c.width_criterion) + "\" height=\""@ + dec_nat(c.height as nat) + "\" heightRelTo=\""@
        + size_criterion_name(c.height_criterion) + "\" protect=\"0\"/>"@;
    assert(sz_xml(c) =~= Seq::<char>::empty() + t1 + r1);
    lemma_contains_mid(Seq::empty(), t1, r1);
    let a2 = t1 + size_criterion_name(c.width_criterion);
    let t2 = "\" height=\""@ + dec_nat(c.height as nat) + "\" heightRelTo=\""@;
    let r2 = size_criterion_name(c.height_criterion) + "\" protect=\"0\"/>"@;
    assert(sz_xml(c) =~= a2 + t2 + r2);
    lemma_contains_mid(a2, t2, r2);
}

/// An object's position element carries its vertical offset as
/// `vertOffset` and its horizontal offset as `horzOffset`.
pub proof fn law_pos_offsets(c: CommonObjAttr)
    ensures
        contains_text(pos_xml(c), "\" vertOffset=\""@ + dec_nat(c.vertical_offset as nat) + "\" horzOffset=\""@
            + dec_nat(c.horizontal_offset as nat) + "\"/>"@),
{
    let t = "\" vertOffset=\""@ + dec_nat(c.vertical_offset as nat) + "\" horzOffset=\""@
        + dec_nat(c.horizontal_offset as nat) + "\"/>"@;
    let a = "<hp:pos treatAsChar=\""@ + bool01(c.treat_as_char)
        + "\" affectLSpacing=\"0\" flowWithText=\"1\" allowOverlap=\"0\" holdAnchorAndSO=\"0\" vertRelTo=\""@
        + vert_rel_name(c.vert_rel_to) + "\" horzRelTo=\""@ + horz_rel_name(c.horz_rel_to)
        + "\" vertAlign=\""@ + vert_align_name(c.vert_align) + "\" horzAlign=\""@
        + horz_align_name(c.horz_align);
    assert(pos_xml(c) =~= a + t + Seq::empty());
    lemma_contains_mid(a, t, Seq::empty());
}
} // verus!
