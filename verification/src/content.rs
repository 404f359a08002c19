//! `Contents/content.hpf`: the package manifest (header, sections, embedded
//! images, settings) and the reading order of the sections.

use vstd::prelude::*;
use vstd::utf8::encode_utf8;
use crate::error::SerializeError;
use crate::text::{contains_text, dec_nat, lemma_concat3, lemma_contains_append, lemma_contains_extend, lemma_contains_last, push_str, push_u64, string_into_bytes, string_of};
use crate::utils::{push_escaped, xml_escaped};

verus! {

/// A manifest item for an embedded image.
pub struct BinDataEntry {
    /// Manifest id (`image{N}`).
    pub id: String,
    /// Package path of the image data.
    pub href: String,
    /// MIME type of the image.
    pub media_type: String,
}

impl BinDataEntry {
    /// Id, path and MIME type.
    pub open spec fn fields(&self) -> (Seq<char>, Seq<char>, Seq<char>) {
        (self.id@, self.href@, self.media_type@)
    }
}

/// Start of the package document, up to the header's manifest item.
pub const HPF_HEAD: &'static str = "<?xml version=\"1.0\" encoding=\"UTF-8\" standalone=\"yes\" ?><opf:package xmlns:opf=\"http://www.idpf.org/2007/opf/\" xmlns:dc=\"http://purl.org/dc/elements/1.1/\" version=\"\" unique-identifier=\"\" id=\"\"><opf:metadata><opf:title/><opf:language>ko</opf:language></opf:metadata><opf:manifest><opf:item id=\"header\" href=\"Contents/header.xml\" media-type=\"application/xml\"/>";

/// The settings item, the end of the manifest and the start of the spine.
pub const HPF_MID: &'static str = "<opf:item id=\"settings\" href=\"settings.xml\" media-type=\"application/xml\"/></opf:manifest><opf:spine><opf:itemref idref=\"header\" linear=\"yes\"/>";

/// The end of the package document.
pub const HPF_TAIL: &'static str = "</opf:spine></opf:package>";

/// Manifest item of section `i` with path `href`.
pub open spec fn section_item_xml(i: nat, href: Seq<char>) -> Seq<char> {
    "<opf:item id=\"section"@ + dec_nat(i) + "\" href=\""@ + xml_escaped(href) + "\" media-type=\"application/xml\"/>"@
}

/// Manifest items of the first `n` sections.
pub open spec fn section_items_xml(hrefs: Seq<Seq<char>>, n: nat) -> Seq<char>
    decreases n,
{
    if n == 0 || n > hrefs.len() {
        Seq::empty()
    } else {
        section_items_xml(hrefs, (n - 1) as nat) + section_item_xml((n - 1) as nat, hrefs[n - 1])
    }
}

/// Manifest item of an embedded image.
pub open spec fn bin_item_xml(e: (Seq<char>, Seq<char>, Seq<char>)) -> Seq<char> {
    "<opf:item id=\""@ + xml_escaped(e.0) + "\" href=\""@ + xml_escaped(e.1) + "\" media-type=\""@
        + xml_escaped(e.2) + "\" isEmbeded=\"1\"/>"@
}

/// Manifest items of the first `n` images.
pub open spec fn bin_items_xml(bins: Seq<(Seq<char>, Seq<char>, Seq<char>)>, n: nat) -> Seq<char>
    decreases n,
{
    if n == 0 || n > bins.len() {
        Seq::empty()
    } else {
        bin_items_xml(bins, (n - 1) as nat) + bin_item_xml(bins[n - 1])
    }
}

/// Spine entries of the first `n` sections.
pub open spec fn itemrefs_xml(n: nat) -> Seq<char>
    decreases n,
{
    if n == 0 {
        Seq::empty()
    } else {
        itemrefs_xml((n - 1) as nat) + "<opf:itemref idref=\"section"@ + dec_nat((n - 1) as nat) + "\" linear=\"yes\"/>"@
    }
}

/// The package document for the given section paths and image items.
#[verifier::opaque]
pub open spec fn content_hpf_xml(hrefs: Seq<Seq<char>>, bins: Seq<(Seq<char>, Seq<char>, Seq<char>)>) -> Seq<char> {
    HPF_HEAD@ + section_items_xml(hrefs, hrefs.len()) + bin_items_xml(bins, bins.len()) + HPF_MID@
        + itemrefs_xml(hrefs.len()) + HPF_TAIL@
}

proof fn lemma_section_items_hold(hrefs: Seq<Seq<char>>, n: nat, i: nat)
    requires
        i < n <= hrefs.len(),
    ensures
        contains_text(section_items_xml(hrefs, n), section_item_xml(i, hrefs[i as int])),
    decreases n,
{
    let prev = section_items_xml(hrefs, (n - 1) as nat);
    let last = section_item_xml((n - 1) as nat, hrefs[n - 1]);
    if i == n - 1 {
        lemma_contains_last(prev, last);
    } else {
        lemma_section_items_hold(hrefs, (n - 1) as nat, i);
        lemma_contains_append(prev, section_item_xml(i, hrefs[i as int]), last);
    }
}

proof fn lemma_bin_items_hold(bins: Seq<(Seq<char>, Seq<char>, Seq<char>)>, n: nat, i: nat)
    requires
        i < n <= bins.len(),
    ensures
        contains_text(bin_items_xml(bins, n), bin_item_xml(bins[i as int])),
    decreases n,
{
    let prev = bin_items_xml(bins, (n - 1) as nat);
    let last = bin_item_xml(bins[n - 1]);
    if i == n - 1 {
        lemma_contains_last(prev, last);
    } else {
        lemma_bin_items_hold(bins, (n - 1) as nat, i);
        lemma_contains_append(prev, bin_item_xml(bins[i as int]), last);
    }
}

/// The package document lists section `i` under the id `section{i}` with
/// its path as `href`, and each image under its own id with its own path
/// as `href` and its own MIME type as `media-type`.
pub proof fn law_manifest_items(
    hrefs: Seq<Seq<char>>,
    bins: Seq<(Seq<char>, Seq<char>, Seq<char>)>,
)
    ensures
        forall|i: int| 0 <= i < hrefs.len() ==> contains_text(#[trigger] content_hpf_xml(hrefs, bins),
            "<opf:item id=\"section"@ + dec_nat(i as nat) + "\" href=\""@ + xml_escaped(hrefs[i])
                + "\" media-type=\"application/xml\"/>"@),
        forall|i: int| 0 <= i < bins.len() ==> contains_text(content_hpf_xml(hrefs, bins),
            "<opf:item id=\""@ + xml_escaped(#[trigger] bins[i].0) + "\" href=\""@ + xml_escaped(bins[i].1)
                + "\" media-type=\""@ + xml_escaped(bins[i].2) + "\" isEmbeded=\"1\"/>"@),
{
    let si = section_items_xml(hrefs, hrefs.len());
    let bi = bin_items_xml(bins, bins.len());
    let mid = HPF_MID@ + itemrefs_xml(hrefs.len()) + HPF_TAIL@;
    assert(content_hpf_xml(hrefs, bins) == HPF_HEAD@ + si + bi + mid) by {
        reveal(content_hpf_xml);
        lemma_concat3(HPF_HEAD@ + si + bi + HPF_MID@, itemrefs_xml(hrefs.len()), HPF_TAIL@);
        lemma_concat3(HPF_HEAD@ + si + bi, HPF_MID@, itemrefs_xml(hrefs.len()) + HPF_TAIL@);
        lemma_concat3(HPF_MID@, itemrefs_xml(hrefs.len()), HPF_TAIL@);
    }
    assert forall|i: int| 0 <= i < hrefs.len() implies contains_text(#[trigger] content_hpf_xml(hrefs, bins),
        "<opf:item id=\"section"@ + dec_nat(i as nat) + "\" href=\""@ + xml_escaped(hrefs[i])
            + "\" media-type=\"application/xml\"/>"@) by {
        let t = section_item_xml(i as nat, hrefs[i]);
        lemma_section_items_hold(hrefs, hrefs.len(), i as nat);
        lemma_contains_extend(si, t, HPF_HEAD@, bi + mid);
        lemma_concat3(HPF_HEAD@ + si, bi, mid);
    }
    assert forall|i: int| 0 <= i < bins.len() implies contains_text(content_hpf_xml(hrefs, bins),
        "<opf:item id=\""@ + xml_escaped(#[trigger] bins[i].0) + "\" href=\""@ + xml_escaped(bins[i].1)
            + "\" media-type=\""@ + xml_escaped(bins[i].2) + "\" isEmbeded=\"1\"/>"@) by {
        let t = bin_item_xml(bins[i]);
        lemma_bin_items_hold(bins, bins.len(), i as nat);
        lemma_contains_extend(bi, t, HPF_HEAD@ + si, mid);
    }
}

/// Builds `Contents/content.hpf` (UTF-8). Always succeeds.
pub fn write_content_hpf(section_hrefs: &Vec<String>, bin_entries: &Vec<BinDataEntry>) -> (r: Result<Vec<u8>, SerializeError>)
    ensures
        match r {
            Ok(bytes) => bytes@ == encode_utf8(content_hpf_xml(
                section_hrefs@.map_values(|h: String| h@),
                bin_entries@.map_values(|e: BinDataEntry| e.fields()),
            )),
            Err(_) => false,
        },
{
    reveal(content_hpf_xml);
    let ghost hrefs = section_hrefs@.map_values(|h: String| h@);
    let ghost bins = bin_entries@.map_values(|e: BinDataEntry| e.fields());
    let mut out = string_of(HPF_HEAD);
    let ghost head = out@;
    let n = section_hrefs.len();
    let mut i: usize = 0;
    assert(out@ =~= head + section_items_xml(hrefs, 0));
    while i < n
        invariant
            n == section_hrefs@.len(),
            hrefs == section_hrefs@.map_values(|h: String| h@),
            i <= n,
            out@ == head + section_items_xml(hrefs, i as nat),
        decreases n - i,
    {
        let mut s = string_of("<opf:item id=\"section");
        push_u64(&mut s, i as u64);
        push_str(&mut s, "\" href=\"");
        push_escaped(&mut s, section_hrefs[i].as_str());
        push_str(&mut s, "\" media-type=\"application/xml\"/>");
        assert(s@ == section_item_xml(i as nat, hrefs[i as int]));
        let ghost prev = section_items_xml(hrefs, i as nat);
        push_str(&mut out, s.as_str());
        proof {
            lemma_concat3(head, prev, s@);
        }
        i = i + 1;
    }
    let ghost head2 = out@;
    let m = bin_entries.len();
    let mut j: usize = 0;
    assert(out@ =~= head2 + bin_items_xml(bins, 0));
    while j < m
        invariant
            m == bin_entries@.len(),
            bins == bin_entries@.map_values(|e: BinDataEntry| e.fields()),
            j <= m,
            out@ == head2 + bin_items_xml(bins, j as nat),
        decreases m - j,
    {
        let e = &bin_entries[j];
        let mut s = string_of("<opf:item id=\"");
        push_escaped(&mut s, e.id.as_str());
        push_str(&mut s, "\" href=\"");
        push_escaped(&mut s, e.href.as_str());
        push_str(&mut s, "\" media-type=\"");
        push_escaped(&mut s, e.media_type.as_str());
        push_str(&mut s, "\" isEmbeded=\"1\"/>");
        assert(s@ == bin_item_xml(bins[j as int]));
        let ghost prev = bin_items_xml(bins, j as nat);
        push_str(&mut out, s.as_str());
        proof {
            lemma_concat3(head2, prev, s@);
        }
        j = j + 1;
    }
    push_str(&mut out, HPF_MID);
    let ghost head3 = out@;
    let mut k: usize = 0;
    assert(out@ =~= head3 + itemrefs_xml(0));
    while k < n
        invariant
            n == section_hrefs@.len(),
            k <= n,
            out@ == head3 + itemrefs_xml(k as nat),
        decreases n - k,
    {
        let mut s = string_of("<opf:itemref idref=\"section");
        push_u64(&mut s, k as u64);
        push_str(&mut s, "\" linear=\"yes\"/>");
        let ghost prev = itemrefs_xml(k as nat);
        push_str(&mut out, s.as_str());
        proof {
            lemma_concat3(head3, prev, s@);
            assert(itemrefs_xml((k + 1) as nat) =~= prev + s@);
        }
        k = k + 1;
    }
    push_str(&mut out, HPF_TAIL);
    assert(out@ =~= content_hpf_xml(hrefs, bins));
    Ok(string_into_bytes(out))
}

} // verus!
