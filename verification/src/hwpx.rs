//! The HWPX package: every file a word processor needs (version, header,
//! sections, previews, settings, container descriptions, manifest) plus
//! the data of every embedded image, in a ZIP container.

use vstd::prelude::*;
use vstd::string::*;
use std::collections::HashSet;
use vstd::utf8::encode_utf8;
use crate::content::{BinDataEntry, content_hpf_xml, write_content_hpf};
use crate::error::SerializeError;
use crate::model::{BinDataContent, Control, Document, Paragraph, Table};
use crate::picture::{bin_data_path, bin_data_path_spec, media_type, media_type_name};
use crate::text::{dec_nat, lemma_dec_nat_digits, lemma_dec_nat_injective, push_str, push_u64, string_of};
use crate::header::{header_xml, write_header};
use crate::section::{section_fits, section_xml, write_section};
use crate::static_assets::{
    EMPTY_CONTENT_HPF, META_INF_CONTAINER_RDF, META_INF_CONTAINER_XML, META_INF_MANIFEST_XML,
    PRV_IMAGE_PNG, PRV_TEXT, SETTINGS_XML, VERSION_XML,
};
use crate::zip_writer::{entries_size, has_path, zip_archive_bytes, zip_room, HwpxZipWriter, ZipEntry};

verus! {

broadcast use vstd::std_specs::hash::group_hash_axioms;

/// Image ids of the pictures in the first `n` paragraphs of `ps`, in
/// document order (the paragraphs of table cells included).
pub open spec fn paras_pics(ps: Seq<Paragraph>, n: nat) -> Seq<u16>
    decreases ps, n,
{
    if n == 0 || n > ps.len() {
        Seq::empty()
    } else {
        paras_pics(ps, (n - 1) as nat) + ctrls_pics(ps[n - 1], ps[n - 1].controls@.len())
    }
}

/// Image ids of the pictures among the first `k` controls of a paragraph.
pub open spec fn ctrls_pics(p: Paragraph, k: nat) -> Seq<u16>
    decreases p, k,
{
    if k == 0 || k > p.controls@.len() {
        Seq::empty()
    } else {
        ctrls_pics(p, (k - 1) as nat) + control_pics(p.controls@[k - 1])
    }
}

/// Image ids of a control: its own for a picture, those of its cells for a table.
pub open spec fn control_pics(c: Control) -> Seq<u16>
    decreases c, 0nat,
{
    match c {
        Control::Picture(pic) => seq![pic.image_attr.bin_data_id],
        Control::Table(t) => cells_pics(*t, t.cells@.len()),
        Control::Other => Seq::empty(),
    }
}

/// Image ids in the first `n` cells of a table.
pub open spec fn cells_pics(t: Table, n: nat) -> Seq<u16>
    decreases t, n,
{
    if n == 0 || n > t.cells@.len() {
        Seq::empty()
    } else {
        cells_pics(t, (n - 1) as nat) + paras_pics(t.cells@[n - 1].paragraphs@, t.cells@[n - 1].paragraphs@.len())
    }
}

/// Index of the first image content with id `id` among the first `n`.
pub open spec fn find_bin(contents: Seq<BinDataContent>, id: u16, n: nat) -> Option<int>
    decreases n,
{
    if n == 0 || n > contents.len() {
        None
    } else {
        match find_bin(contents, id, (n - 1) as nat) {
            Some(i) => Some(i),
            None => if contents[n - 1].id == id { Some(n - 1) } else { None },
        }
    }
}

/// Progress of image collection: the ids met so far, and the indices of
/// the image contents written (in order).
pub struct BinState {
    pub seen: Set<u16>,
    pub picked: Seq<int>,
}

/// One picture: a non-zero id met for the first time is recorded, and its
/// first image content (if there is one) is written.
pub open spec fn bin_step(st: BinState, id: u16, contents: Seq<BinDataContent>) -> BinState {
    if id > 0 && !st.seen.contains(id) {
        BinState {
            seen: st.seen.insert(id),
            picked: match find_bin(contents, id, contents.len()) {
                Some(i) => st.picked.push(i),
                None => st.picked,
            },
        }
    } else {
        st
    }
}

/// Image collection over a sequence of picture ids.
pub open spec fn bin_fold(st: BinState, ids: Seq<u16>, contents: Seq<BinDataContent>) -> BinState
    decreases ids.len(),
{
    if ids.len() == 0 {
        st
    } else {
        bin_step(bin_fold(st, ids.drop_last(), contents), ids.last(), contents)
    }
}

/// Collecting over `a + b` is collecting over `a`, then over `b`.
pub proof fn lemma_bin_fold_concat(st: BinState, a: Seq<u16>, b: Seq<u16>, contents: Seq<BinDataContent>)
    ensures
        bin_fold(st, a + b, contents) == bin_fold(bin_fold(st, a, contents), b, contents),
    decreases b.len(),
{
    if b.len() == 0 {
        assert(a + b =~= a);
    } else {
        lemma_bin_fold_concat(st, a, b.drop_last(), contents);
        assert((a + b).drop_last() =~= a + b.drop_last());
    }
}

/// The package entry of an image content: deflated, at `BinData/image{id}.{ext}`.
pub open spec fn bin_zip_entry(c: BinDataContent) -> ZipEntry {
    (bin_data_path_spec(c.id, c.extension@), true, c.data@)
}

/// The manifest item of an image content.
pub open spec fn bin_manifest_entry(c: BinDataContent) -> (Seq<char>, Seq<char>, Seq<char>) {
    ("image"@ + dec_nat(c.id as nat), bin_data_path_spec(c.id, c.extension@), media_type_name(c.extension@))
}

/// Package entries of the picked image contents.
pub open spec fn picked_zip_entries(contents: Seq<BinDataContent>, picked: Seq<int>) -> Seq<ZipEntry> {
    picked.map_values(|i: int| bin_zip_entry(contents[i]))
}

/// Manifest items of the picked image contents.
pub open spec fn picked_manifest(contents: Seq<BinDataContent>, picked: Seq<int>) -> Seq<(Seq<char>, Seq<char>, Seq<char>)> {
    picked.map_values(|i: int| bin_manifest_entry(contents[i]))
}

/// The exec state of image collection matches `st`, on top of the package
/// entries `base`.
pub open spec fn collect_state(
    st: BinState,
    contents: Seq<BinDataContent>,
    base: Seq<ZipEntry>,
    z: HwpxZipWriter,
    entries: Seq<BinDataEntry>,
    written: Set<u16>,
) -> bool {
    &&& written == st.seen
    &&& z.entries() == base + picked_zip_entries(contents, st.picked)
    &&& entries.map_values(|e: BinDataEntry| e.fields()) == picked_manifest(contents, st.picked)
    &&& forall|k: int| 0 <= k < st.picked.len() ==> 0 <= #[trigger] st.picked[k] < contents.len()
}

fn find_content(contents: &Vec<BinDataContent>, id: u16) -> (r: Option<usize>)
    ensures
        match r {
            Some(i) => find_bin(contents@, id, contents@.len()) == Some(i as int) && i < contents@.len()
                && contents@[i as int].id == id,
            None => find_bin(contents@, id, contents@.len()) is None,
        },
{
    let n = contents.len();
    let mut i: usize = 0;
    while i < n
        invariant
            n == contents@.len(),
            i <= n,
            find_bin(contents@, id, i as nat) is None,
        decreases n - i,
    {
        if contents[i].id == id {
            proof {
                lemma_find_bin_stable(contents@, id, (i + 1) as nat, contents@.len());
            }
            return Some(i);
        }
        i = i + 1;
    }
    None
}

proof fn lemma_find_bin_stable(contents: Seq<BinDataContent>, id: u16, m: nat, n: nat)
    requires
        m <= n <= contents.len(),
        find_bin(contents, id, m) is Some,
    ensures
        find_bin(contents, id, n) == find_bin(contents, id, m),
    decreases n - m,
{
    if m < n {
        lemma_find_bin_stable(contents, id, m, (n - 1) as nat);
    }
}


/// One picture with image id `id` (see `bin_step`).
fn collect_picture(
    id: u16,
    doc: &Document,
    z: &mut HwpxZipWriter,
    entries: &mut Vec<BinDataEntry>,
    written_ids: &mut HashSet<u16>,
    Ghost(st): Ghost<BinState>,
    Ghost(base): Ghost<Seq<ZipEntry>>,
    Ghost(goal): Ghost<Seq<ZipEntry>>,
) -> (r: Result<(), SerializeError>)
    requires
        collect_state(st, doc.bin_data_content@, base, *old(z), old(entries)@, old(written_ids)@),
    ensures
        r is Ok ==> collect_state(bin_step(st, id, doc.bin_data_content@), doc.bin_data_content@, base,
            *final(z), final(entries)@, final(written_ids)@),
        r matches Err(e) ==> e is ZipError,
        old(z).sound() && fits_within(base + picked_zip_entries(doc.bin_data_content@,
            bin_step(st, id, doc.bin_data_content@).picked), goal) ==> r is Ok && final(z).sound(),
{
    let ghost contents = doc.bin_data_content@;
    let ghost seen0 = written_ids@;
    let fresh = id > 0 && written_ids.insert(id);
    proof {
        if id > 0 && !fresh {
            assert(written_ids@ =~= seen0);
        }
    }
    if fresh {
        match find_content(&doc.bin_data_content, id) {
            Some(i) => {
                let bc = &doc.bin_data_content[i];
                let path = bin_data_path(id, bc.extension.as_str());
                let mime = media_type(bc.extension.as_str());
                proof {
                    let st2 = bin_step(st, id, contents);
                    assert(st2.picked == st.picked.push(i as int));
                    assert(picked_zip_entries(contents, st2.picked) =~= picked_zip_entries(contents, st.picked).push(bin_zip_entry(contents[i as int])));
                    assert(base + picked_zip_entries(contents, st2.picked) =~= (base + picked_zip_entries(contents, st.picked)).push(bin_zip_entry(contents[i as int])));
                    if old(z).sound() && fits_within(base + picked_zip_entries(contents, st2.picked), goal) {
                        lemma_fits_next(z.entries(), bin_zip_entry(contents[i as int]), goal);
                    }
                }
                z.write_deflated(path.as_str(), bc.data.as_slice())?;
                let mut item_id = string_of("image");
                push_u64(&mut item_id, id as u64);
                let entry = BinDataEntry { id: item_id, href: path, media_type: string_of(mime) };
                let ghost old_entries = entries@;
                entries.push(entry);
                proof {
                    let st2 = bin_step(st, id, contents);
                    assert(st2.picked == st.picked.push(i as int));
                    assert(picked_zip_entries(contents, st2.picked) =~= picked_zip_entries(contents, st.picked).push(bin_zip_entry(contents[i as int])));
                    assert(picked_manifest(contents, st2.picked) =~= picked_manifest(contents, st.picked).push(bin_manifest_entry(contents[i as int])));
                    assert(base + picked_zip_entries(contents, st2.picked) =~= (base + picked_zip_entries(contents, st.picked)).push(bin_zip_entry(contents[i as int])));
                    assert(entries@.map_values(|e: BinDataEntry| e.fields()) =~= old_entries.map_values(|e: BinDataEntry| e.fields()).push(entry.fields()));
                    assert forall|k: int| 0 <= k < st2.picked.len() implies 0 <= #[trigger] st2.picked[k] < contents.len() by {
                        if k < st.picked.len() {
                            assert(st2.picked[k] == st.picked[k]);
                        } else {
                            assert(st2.picked[k] == i as int);
                        }
                    }
                }
            },
            None => {
                assert(bin_step(st, id, contents).picked == st.picked);
            },
        }
    }
    Ok(())
}

proof fn lemma_pics_step_paras(ps: Seq<Paragraph>, i: nat)
    requires
        i < ps.len(),
    ensures
        paras_pics(ps, i + 1) == paras_pics(ps, i) + ctrls_pics(ps[i as int], ps[i as int].controls@.len()),
{
}

proof fn lemma_pics_step_ctrls(p: Paragraph, k: nat)
    requires
        k < p.controls@.len(),
    ensures
        ctrls_pics(p, k + 1) == ctrls_pics(p, k) + control_pics(p.controls@[k as int]),
{
}

proof fn lemma_pics_step_cells(t: Table, j: nat)
    requires
        j < t.cells@.len(),
    ensures
        cells_pics(t, j + 1) == cells_pics(t, j) + paras_pics(t.cells@[j as int].paragraphs@, t.cells@[j as int].paragraphs@.len()),
{
}

/// Collects the images of the pictures in `paras` (and in the cells of
/// their tables), writing each image's data once.
fn collect_bin_data_in_paras(
    paras: &[Paragraph],
    doc: &Document,
    z: &mut HwpxZipWriter,
    entries: &mut Vec<BinDataEntry>,
    written_ids: &mut HashSet<u16>,
    Ghost(st): Ghost<BinState>,
    Ghost(base): Ghost<Seq<ZipEntry>>,
    Ghost(goal): Ghost<Seq<ZipEntry>>,
) -> (r: Result<(), SerializeError>)
    requires
        collect_state(st, doc.bin_data_content@, base, *old(z), old(entries)@, old(written_ids)@),
    ensures
        r is Ok ==> collect_state(bin_fold(st, paras_pics(paras@, paras@.len()), doc.bin_data_content@),
            doc.bin_data_content@, base, *final(z), final(entries)@, final(written_ids)@),
        r matches Err(e) ==> e is ZipError,
        old(z).sound() && fits_within(base + picked_zip_entries(doc.bin_data_content@,
            bin_fold(st, paras_pics(paras@, paras@.len()), doc.bin_data_content@).picked), goal)
            ==> r is Ok && final(z).sound(),
    decreases paras@,
{
    let ghost contents = doc.bin_data_content@;
    let n = paras.len();
    let mut i: usize = 0;
    let ghost mut cur = st;
    let ghost all = paras_pics(paras@, n as nat);
    let ghost good = old(z).sound()
        && fits_within(base + picked_zip_entries(contents, bin_fold(st, all, contents).picked), goal);
    assert(paras_pics(paras@, 0) =~= Seq::<u16>::empty());
    while i < n
        invariant
            n == paras@.len(),
            i <= n,
            contents == doc.bin_data_content@,
            all == paras_pics(paras@, n as nat),
            good == (old(z).sound()
                && fits_within(base + picked_zip_entries(contents, bin_fold(st, all, contents).picked), goal)),
            cur == bin_fold(st, paras_pics(paras@, i as nat), contents),
            collect_state(cur, contents, base, *z, entries@, written_ids@),
            good ==> z.sound(),
        decreases n - i,
    {
        let para = &paras[i];
        let ghost before = paras_pics(paras@, i as nat);
        let m = para.controls.len();
        let mut k: usize = 0;
        assert(before + ctrls_pics(*para, 0) =~= before);
        while k < m
            invariant
                n == paras@.len(),
                i < n,
                *para == paras@[i as int],
                m == para.controls@.len(),
                k <= m,
                contents == doc.bin_data_content@,
                all == paras_pics(paras@, n as nat),
                good == (old(z).sound()
                    && fits_within(base + picked_zip_entries(contents, bin_fold(st, all, contents).picked), goal)),
                before == paras_pics(paras@, i as nat),
                cur == bin_fold(st, before + ctrls_pics(*para, k as nat), contents),
                collect_state(cur, contents, base, *z, entries@, written_ids@),
                good ==> z.sound(),
            decreases m - k,
        {
            let ghost x = before + ctrls_pics(*para, k as nat);
            proof {
                lemma_pics_step_ctrls(*para, k as nat);
            }
            match &para.controls[k] {
                Control::Picture(pic) => {
                    let id = pic.image_attr.bin_data_id;
                    proof {
                        assert((x + seq![id]).drop_last() =~= x);
                        assert(bin_fold(st, x + seq![id], contents) == bin_step(cur, id, contents));
                        assert(seq![id].is_prefix_of(control_pics(para.controls@[k as int]))) by {
                            assert(control_pics(para.controls@[k as int]) == seq![id]);
                        }
                        lemma_ids_prefix_in_para(paras@, i as nat, k as nat, seq![id]);
                        if good {
                            lemma_goal_prefix(st, x + seq![id], all, contents, base, goal);
                        }
                    }
                    collect_picture(id, doc, z, entries, written_ids, Ghost(cur), Ghost(base), Ghost(goal))?;
                    proof {
                        assert(x + seq![id] =~= before + ctrls_pics(*para, (k + 1) as nat));
                        cur = bin_step(cur, id, contents);
                    }
                },
                Control::Table(tbl) => {
                    let cn = tbl.cells.len();
                    let mut j: usize = 0;
                    assert(x + cells_pics(**tbl, 0) =~= x);
                    while j < cn
                        invariant
                            cn == tbl.cells@.len(),
                            j <= cn,
                            n == paras@.len(),
                            i < n,
                            *para == paras@[i as int],
                            m == para.controls@.len(),
                            k < m,
                            para.controls@[k as int] is Table,
                            *para.controls@[k as int]->Table_0 == **tbl,
                            contents == doc.bin_data_content@,
                            all == paras_pics(paras@, n as nat),
                            good == (old(z).sound()
                                && fits_within(base + picked_zip_entries(contents, bin_fold(st, all, contents).picked), goal)),
                            before == paras_pics(paras@, i as nat),
                            x == before + ctrls_pics(*para, k as nat),
                            cur == bin_fold(st, x + cells_pics(**tbl, j as nat), contents),
                            collect_state(cur, contents, base, *z, entries@, written_ids@),
                            good ==> z.sound(),
                        decreases cn - j,
                    {
                        proof {
                            lemma_pics_step_cells(**tbl, j as nat);
                        }
                        let cell = &tbl.cells[j];
                        let ghost y = paras_pics(cell.paragraphs@, cell.paragraphs@.len());
                        proof {
                            let pc = paras@[i as int];
                            assert(decreases_to!(paras@ => pc));
                            assert(decreases_to!(pc => pc.controls));
                            assert(decreases_to!(pc.controls => pc.controls@));
                            assert(decreases_to!(pc.controls@ => pc.controls@[k as int]));
                            let ctl = pc.controls@[k as int];
                            assert(decreases_to!(ctl => ctl->Table_0));
                            let t = *ctl->Table_0;
                            assert(decreases_to!(t => t.cells));
                            assert(decreases_to!(t.cells => t.cells@));
                            assert(decreases_to!(t.cells@ => t.cells@[j as int]));
                            let c = t.cells@[j as int];
                            assert(decreases_to!(c => c.paragraphs));
                            assert(decreases_to!(c.paragraphs => c.paragraphs@));
                            assert(decreases_to!(paras@ => cell.paragraphs@));
                            lemma_bin_fold_concat(st, x + cells_pics(**tbl, j as nat), y, contents);
                            assert(x + cells_pics(**tbl, j as nat) + y =~= x + cells_pics(**tbl, (j + 1) as nat));
                            assert(x + cells_pics(**tbl, (j + 1) as nat) =~= before + ctrls_pics(*para, k as nat) + cells_pics(**tbl, (j + 1) as nat));
                            lemma_cells_pics_prefix(**tbl, (j + 1) as nat, cn as nat);
                            assert(control_pics(para.controls@[k as int]) == cells_pics(**tbl, cn as nat));
                            lemma_ids_prefix_in_para(paras@, i as nat, k as nat, cells_pics(**tbl, (j + 1) as nat));
                            if good {
                                lemma_goal_prefix(st, x + cells_pics(**tbl, (j + 1) as nat), all, contents, base, goal);
                            }
                        }
                        collect_bin_data_in_paras(cell.paragraphs.as_slice(), doc, z, entries, written_ids, Ghost(cur), Ghost(base), Ghost(goal))?;
                        proof {
                            cur = bin_fold(cur, y, contents);
                        }
                        j = j + 1;
                    }
                    proof {
                        assert(x + cells_pics(**tbl, cn as nat) =~= before + ctrls_pics(*para, (k + 1) as nat));
                    }
                },
                Control::Other => {
                    proof {
                        assert(x =~= before + ctrls_pics(*para, (k + 1) as nat));
                    }
                },
            }
            k = k + 1;
        }
        proof {
            lemma_pics_step_paras(paras@, i as nat);
        }
        i = i + 1;
    }
    Ok(())
}


/// Image ids of the pictures in the first `n` sections of a document.
pub open spec fn doc_pics(doc: Document, n: nat) -> Seq<u16>
    decreases n,
{
    if n == 0 || n > doc.sections@.len() {
        Seq::empty()
    } else {
        doc_pics(doc, (n - 1) as nat)
            + paras_pics(doc.sections@[n - 1].paragraphs@, doc.sections@[n - 1].paragraphs@.len())
    }
}

/// No image id met and no image written yet.
pub open spec fn bin_init() -> BinState {
    BinState { seen: Set::empty(), picked: Seq::empty() }
}

/// The image contents that a document's package holds: each picture's
/// image, once per id, in document order.
pub open spec fn doc_bins(doc: Document) -> BinState {
    bin_fold(bin_init(), doc_pics(doc, doc.sections@.len()), doc.bin_data_content@)
}

/// Writes the data of every picture's image into the package and returns
/// their manifest items.
fn collect_bin_data(doc: &Document, z: &mut HwpxZipWriter, Ghost(goal): Ghost<Seq<ZipEntry>>)
    -> (r: Result<Vec<BinDataEntry>, SerializeError>)
    ensures
        r matches Ok(entries) ==> {
            &&& final(z).entries() == old(z).entries() + picked_zip_entries(doc.bin_data_content@, doc_bins(*doc).picked)
            &&& entries@.map_values(|e: BinDataEntry| e.fields()) == picked_manifest(doc.bin_data_content@, doc_bins(*doc).picked)
        },
        r matches Err(e) ==> e is ZipError,
        old(z).sound() && fits_within(old(z).entries()
            + picked_zip_entries(doc.bin_data_content@, doc_bins(*doc).picked), goal)
            ==> r is Ok && final(z).sound(),
{
    let ghost contents = doc.bin_data_content@;
    let ghost base = z.entries();
    let ghost all = doc_pics(*doc, doc.sections@.len());
    let ghost good = old(z).sound()
        && fits_within(base + picked_zip_entries(contents, bin_fold(bin_init(), all, contents).picked), goal);
    let mut entries: Vec<BinDataEntry> = Vec::new();
    let mut written_ids: HashSet<u16> = HashSet::new();
    let ghost mut cur = bin_init();
    proof {
        assert(base + picked_zip_entries(contents, cur.picked) =~= base);
        assert(entries@.map_values(|e: BinDataEntry| e.fields()) =~= picked_manifest(contents, cur.picked));
        assert(doc_pics(*doc, 0) =~= Seq::<u16>::empty());
    }
    let n = doc.sections.len();
    let mut i: usize = 0;
    while i < n
        invariant
            n == doc.sections@.len(),
            i <= n,
            contents == doc.bin_data_content@,
            all == doc_pics(*doc, n as nat),
            good == (old(z).sound()
                && fits_within(base + picked_zip_entries(contents, bin_fold(bin_init(), all, contents).picked), goal)),
            good == (old(z).sound() && fits_within(old(z).entries()
                + picked_zip_entries(doc.bin_data_content@, doc_bins(*doc).picked), goal)),
            cur == bin_fold(bin_init(), doc_pics(*doc, i as nat), contents),
            collect_state(cur, contents, base, *z, entries@, written_ids@),
            good ==> z.sound(),
        decreases n - i,
    {
        let sec = &doc.sections[i];
        let ghost y = paras_pics(sec.paragraphs@, sec.paragraphs@.len());
        proof {
            lemma_bin_fold_concat(bin_init(), doc_pics(*doc, i as nat), y, contents);
            assert(doc_pics(*doc, (i + 1) as nat) == doc_pics(*doc, i as nat) + y);
            lemma_doc_pics_prefix(*doc, (i + 1) as nat, n as nat);
            if good {
                lemma_goal_prefix(bin_init(), doc_pics(*doc, (i + 1) as nat), all, contents, base, goal);
                assert(bin_fold(bin_init(), doc_pics(*doc, (i + 1) as nat), contents) == bin_fold(cur, y, contents));
                assert(fits_within(base + picked_zip_entries(contents, bin_fold(cur, y, contents).picked), goal));
            }
        }
        collect_bin_data_in_paras(sec.paragraphs.as_slice(), doc, z, &mut entries, &mut written_ids, Ghost(cur), Ghost(base), Ghost(goal))?;
        proof {
            cur = bin_fold(cur, y, contents);
        }
        i = i + 1;
    }
    Ok(entries)
}

/// Package path of section `i`.
pub open spec fn section_href(i: nat) -> Seq<char> {
    "Contents/section"@ + dec_nat(i) + ".xml"@
}

/// Package entries of the first `n` sections of a document.
pub open spec fn section_entries(doc: Document, n: nat) -> Seq<ZipEntry>
    decreases n,
{
    if n == 0 || n > doc.sections@.len() {
        Seq::empty()
    } else {
        section_entries(doc, (n - 1) as nat).push(
            (section_href((n - 1) as nat), true, encode_utf8(crate::section::section_xml(doc.sections@[n - 1]))),
        )
    }
}

/// The package document: the fixed one for a single section without
/// images, the generated one otherwise.
pub open spec fn content_hpf_bytes(doc: Document) -> Seq<u8> {
    let n = doc.sections@.len();
    let picked = doc_bins(doc).picked;
    if n == 1 && picked.len() == 0 {
        encode_utf8(crate::static_assets::EMPTY_CONTENT_HPF@)
    } else {
        encode_utf8(content_hpf_xml(
            Seq::new(n, |i: int| section_href(i as nat)),
            picked_manifest(doc.bin_data_content@, picked),
        ))
    }
}

/// All entries of a document's HWPX package, in order: `mimetype` first
/// and stored, every other entry deflated.
pub open spec fn hwpx_entries(doc: Document) -> Seq<ZipEntry> {
    let head = Seq::<ZipEntry>::empty()
        .push(("mimetype"@, false, encode_utf8("application/hwp+zip"@)))
        .push(("version.xml"@, true, encode_utf8(crate::static_assets::VERSION_XML@)))
        .push(("Contents/header.xml"@, true, encode_utf8(crate::header::header_xml(
            doc.doc_info.font_faces@, doc.doc_info.char_shapes@))));
    let middle = (head + section_entries(doc, doc.sections@.len()))
        .push(("Preview/PrvText.txt"@, true, encode_utf8(crate::static_assets::PRV_TEXT@)))
        .push(("Preview/PrvImage.png"@, true, crate::static_assets::PRV_IMAGE_PNG@))
        .push(("settings.xml"@, true, encode_utf8(crate::static_assets::SETTINGS_XML@)))
        .push(("META-INF/container.rdf"@, true, encode_utf8(crate::static_assets::META_INF_CONTAINER_RDF@)));
    (middle + picked_zip_entries(doc.bin_data_content@, doc_bins(doc).picked))
        .push(("Contents/content.hpf"@, true, content_hpf_bytes(doc)))
        .push(("META-INF/container.xml"@, true, encode_utf8(crate::static_assets::META_INF_CONTAINER_XML@)))
        .push(("META-INF/manifest.xml"@, true, encode_utf8(crate::static_assets::META_INF_MANIFEST_XML@)))
}

/// Every section of the document keeps its offsets and positions within
/// `u32` (see `section_fits`).
pub open spec fn doc_fits(doc: Document) -> bool {
    forall|i: int| 0 <= i < doc.sections@.len() ==> #[trigger] crate::section::section_fits(doc.sections@[i])
}


/// Package paths of sections `0..n`.
fn section_hrefs_of(n: usize) -> (hrefs: Vec<String>)
    ensures
        hrefs@.len() == n,
        forall|i: int| 0 <= i < n ==> (#[trigger] hrefs@[i])@ == section_href(i as nat),
{
    let mut hrefs: Vec<String> = Vec::new();
    let mut i: usize = 0;
    while i < n
        invariant
            i <= n,
            hrefs@.len() == i,
            forall|k: int| 0 <= k < i ==> (#[trigger] hrefs@[k])@ == section_href(k as nat),
        decreases n - i,
    {
        let mut h = string_of("Contents/section");
        push_u64(&mut h, i as u64);
        push_str(&mut h, ".xml");
        hrefs.push(h);
        i = i + 1;
    }
    hrefs
}

/// Serializes a document as an HWPX package (the bytes of a ZIP archive).
///
/// The archive holds, in this order: `mimetype` (stored, first), then
/// deflated `version.xml`, `Contents/header.xml`, one
/// `Contents/section{N}.xml` per section, the two preview files,
/// `settings.xml`, `META-INF/container.rdf`, the data of each picture's
/// image (`BinData/image{id}.{ext}`, once per id), `Contents/content.hpf`,
/// `META-INF/container.xml` and `META-INF/manifest.xml`. Only the ZIP
/// writer can fail, and it does not while the package stays within the
/// limits of a plain ZIP archive (`package_fits`).
pub fn serialize_hwpx(doc: &Document) -> (r: Result<Vec<u8>, SerializeError>)
    requires
        doc_fits(*doc),
    ensures
        r matches Ok(bytes) ==> bytes@ == zip_archive_bytes(hwpx_entries(*doc)),
        r matches Err(e) ==> e is ZipError,
        package_fits(*doc) ==> r is Ok,
{
    let ghost e = hwpx_entries(*doc);
    let ghost good = package_fits(*doc);
    let ghost n0 = doc.sections@.len() as int;
    let ghost p0 = doc_bins(*doc).picked.len() as int;
    proof {
        law_package_layout(*doc);
        law_package_paths_distinct(*doc);
        lemma_fixed_entries(*doc);
        reveal_strlit("application/hwp+zip");
    }
    let mut z = HwpxZipWriter::new();
    assert(z.entries() =~= e.take(0));

    proof { if good { lemma_write_next(e, 0); } }
    z.write_stored("mimetype", "application/hwp+zip".as_bytes())?;
    assert(z.entries() =~= e.take(1));
    proof { if good { lemma_write_next(e, 1); } }
    z.write_deflated("version.xml", VERSION_XML.as_bytes())?;
    assert(z.entries() =~= e.take(2));
    let header = match write_header(doc) {
        Ok(h) => h,
        Err(err) => return Err(err),
    };
    proof { if good { lemma_write_next(e, 2); } }
    z.write_deflated("Contents/header.xml", header.as_slice())?;
    assert(z.entries() =~= e.take(3));

    let n = doc.sections.len();
    let section_hrefs = section_hrefs_of(n);
    let mut i: usize = 0;
    while i < n
        invariant
            n == doc.sections@.len(),
            n0 == n,
            i <= n,
            doc_fits(*doc),
            section_hrefs@.len() == n,
            forall|k: int| 0 <= k < n ==> (#[trigger] section_hrefs@[k])@ == section_href(k as nat),
            e == hwpx_entries(*doc),
            good == package_fits(*doc),
            good ==> zip_room(e) && paths_distinct(e),
            forall|k: int| 0 <= k < n ==> #[trigger] e[3 + k]
                == (section_href(k as nat), true, encode_utf8(section_xml(doc.sections@[k]))),
            e.len() == 10 + n0 + p0,
            p0 >= 0,
            z.entries() == e.take(3 + i),
            good ==> z.sound(),
        decreases n - i,
    {
        let sec = &doc.sections[i];
        assert(section_fits(doc.sections@[i as int]));
        let xml = match write_section(sec, doc, i) {
            Ok(x) => x,
            Err(err) => return Err(err),
        };
        assert(3 + i < e.len());
        proof { if good { lemma_write_next(e, 3 + i as int); } }
        assert(e[3 + i as int] == (section_href(i as nat), true, encode_utf8(section_xml(doc.sections@[i as int]))));
        z.write_deflated(section_hrefs[i].as_str(), xml.as_slice())?;
        assert(z.entries() =~= e.take(3 + i + 1));
        i = i + 1;
    }

    proof { if good { lemma_write_next(e, 3 + n0); } }
    z.write_deflated("Preview/PrvText.txt", PRV_TEXT.as_bytes())?;
    assert(z.entries() =~= e.take(4 + n0));
    proof { if good { lemma_write_next(e, 4 + n0); } }
    z.write_deflated("Preview/PrvImage.png", PRV_IMAGE_PNG.as_slice())?;
    assert(z.entries() =~= e.take(5 + n0));
    proof { if good { lemma_write_next(e, 5 + n0); } }
    z.write_deflated("settings.xml", SETTINGS_XML.as_bytes())?;
    assert(z.entries() =~= e.take(6 + n0));
    proof { if good { lemma_write_next(e, 6 + n0); } }
    z.write_deflated("META-INF/container.rdf", META_INF_CONTAINER_RDF.as_bytes())?;
    assert(z.entries() =~= e.take(7 + n0));

    let ghost picked = doc_bins(*doc).picked;
    let ghost pz = picked_zip_entries(doc.bin_data_content@, picked);
    proof {
        assert(e.take(7 + n0) + pz =~= e.take(7 + n0 + p0)) by {
            assert forall|k: int| 0 <= k < p0 implies #[trigger] e[7 + n0 + k] == pz[k] by {}
        }
        if good {
            assert(e.take(7 + n0 + p0).is_prefix_of(e));
        }
    }
    let bin_entries = collect_bin_data(doc, &mut z, Ghost(e))?;
    assert(z.entries() =~= e.take(7 + n0 + p0));
    let ghost hrefs_view = section_hrefs@.map_values(|h: String| h@);
    assert(hrefs_view =~= Seq::new(n as nat, |k: int| section_href(k as nat)));
    assert(bin_entries@.len() == picked.len()) by {
        assert(bin_entries@.map_values(|b: BinDataEntry| b.fields()).len() == bin_entries@.len());
    }

    proof { if good { lemma_write_next(e, 7 + n0 + p0); } }
    if n == 1 && bin_entries.len() == 0 {
        z.write_deflated("Contents/content.hpf", EMPTY_CONTENT_HPF.as_bytes())?;
    } else {
        let content_hpf = match write_content_hpf(&section_hrefs, &bin_entries) {
            Ok(c) => c,
            Err(err) => return Err(err),
        };
        z.write_deflated("Contents/content.hpf", content_hpf.as_slice())?;
    }
    assert(z.entries() =~= e.take(8 + n0 + p0));
    proof { if good { lemma_write_next(e, 8 + n0 + p0); } }
    z.write_deflated("META-INF/container.xml", META_INF_CONTAINER_XML.as_bytes())?;
    assert(z.entries() =~= e.take(9 + n0 + p0));
    proof { if good { lemma_write_next(e, 9 + n0 + p0); } }
    z.write_deflated("META-INF/manifest.xml", META_INF_MANIFEST_XML.as_bytes())?;
    assert(z.entries() =~= e);
    z.finish()
}

/// Writing entry `k` of an archive within `zip_room` with distinct paths,
/// after its first `k` entries, keeps the room and meets a new path.
proof fn lemma_write_next(e: Seq<ZipEntry>, k: int)
    requires
        0 <= k < e.len(),
        zip_room(e),
        paths_distinct(e),
    ensures
        zip_room(e.take(k).push(e[k])),
        !has_path(e.take(k), e[k].0),
        e.take(k).push(e[k]) == e.take(k + 1),
{
    assert(e.take(k).push(e[k]) =~= e.take(k + 1));
    assert(e.take(k + 1) =~= e.subrange(0, k + 1));
    lemma_fits_next(e.take(k), e[k], e);
}

/// The fixed entries of a package, by index.
proof fn lemma_fixed_entries(doc: Document)
    ensures ({
        let e = hwpx_entries(doc);
        let n = doc.sections@.len() as int;
        let p = doc_bins(doc).picked.len() as int;
        &&& e[0] == ("mimetype"@, false, encode_utf8("application/hwp+zip"@))
        &&& e[1] == ("version.xml"@, true, encode_utf8(VERSION_XML@))
        &&& e[2] == ("Contents/header.xml"@, true, encode_utf8(header_xml(
                doc.doc_info.font_faces@, doc.doc_info.char_shapes@)))
        &&& e[3 + n] == ("Preview/PrvText.txt"@, true, encode_utf8(PRV_TEXT@))
        &&& e[4 + n] == ("Preview/PrvImage.png"@, true, PRV_IMAGE_PNG@)
        &&& e[5 + n] == ("settings.xml"@, true, encode_utf8(SETTINGS_XML@))
        &&& e[6 + n] == ("META-INF/container.rdf"@, true, encode_utf8(META_INF_CONTAINER_RDF@))
        &&& e[7 + n + p] == ("Contents/content.hpf"@, true, content_hpf_bytes(doc))
        &&& e[8 + n + p] == ("META-INF/container.xml"@, true, encode_utf8(META_INF_CONTAINER_XML@))
        &&& e[9 + n + p] == ("META-INF/manifest.xml"@, true, encode_utf8(META_INF_MANIFEST_XML@))
    }),
{
    let n = doc.sections@.len();
    lemma_section_entries(doc, n);
}

proof fn lemma_section_entry(doc: Document, n: nat, i: int)
    requires
        n <= doc.sections@.len(),
        0 <= i < n,
    ensures
        section_entries(doc, n)[i] == (section_href(i as nat), true, encode_utf8(section_xml(doc.sections@[i]))),
    decreases n,
{
    lemma_section_entries(doc, n);
    if i < n - 1 {
        lemma_section_entry(doc, (n - 1) as nat, i);
        lemma_section_entries(doc, (n - 1) as nat);
    }
}

proof fn lemma_section_entries(doc: Document, n: nat)
    requires
        n <= doc.sections@.len(),
    ensures
        section_entries(doc, n).len() == n,
        forall|k: int| 0 <= k < n ==> (#[trigger] section_entries(doc, n)[k]).1
            && section_entries(doc, n)[k].0 == section_href(k as nat),
    decreases n,
{
    if n > 0 {
        lemma_section_entries(doc, (n - 1) as nat);
    }
}

/// The package of any document starts with a stored `mimetype` entry
/// holding `application/hwp+zip`; every other entry is deflated. It holds
/// ten fixed files, one file per section (section `i` at
/// `Contents/section{i}.xml`, holding that section's XML) and one per
/// distinct embedded image, stored at the path that its manifest item in
/// `content.hpf` names.
pub proof fn law_package_layout(doc: Document)
    ensures
        hwpx_entries(doc).len() == 10 + doc.sections@.len() + doc_bins(doc).picked.len(),
        hwpx_entries(doc)[0] == ("mimetype"@, false, encode_utf8("application/hwp+zip"@)),
        forall|i: int| 0 < i < hwpx_entries(doc).len() ==> (#[trigger] hwpx_entries(doc)[i]).1,
        forall|i: int| 0 <= i < doc.sections@.len() ==> #[trigger] hwpx_entries(doc)[3 + i]
            == (section_href(i as nat), true, encode_utf8(section_xml(doc.sections@[i]))),
        forall|k: int| 0 <= k < doc_bins(doc).picked.len() ==> {
            let e = #[trigger] hwpx_entries(doc)[7 + doc.sections@.len() + k];
            let item = picked_manifest(doc.bin_data_content@, doc_bins(doc).picked)[k];
            let c = doc.bin_data_content@[doc_bins(doc).picked[k]];
            &&& e.0 == item.1
            &&& e.2 == c.data@
            &&& item.0 == "image"@ + dec_nat(c.id as nat)
        },
{
    let n = doc.sections@.len();
    lemma_section_entries(doc, n);
    let e = hwpx_entries(doc);
    let head = Seq::<ZipEntry>::empty()
        .push(("mimetype"@, false, encode_utf8("application/hwp+zip"@)))
        .push(("version.xml"@, true, encode_utf8(crate::static_assets::VERSION_XML@)))
        .push(("Contents/header.xml"@, true, encode_utf8(header_xml(
            doc.doc_info.font_faces@, doc.doc_info.char_shapes@))));
    let se = section_entries(doc, n);
    let pz = picked_zip_entries(doc.bin_data_content@, doc_bins(doc).picked);
    let middle = (head + se)
        .push(("Preview/PrvText.txt"@, true, encode_utf8(crate::static_assets::PRV_TEXT@)))
        .push(("Preview/PrvImage.png"@, true, crate::static_assets::PRV_IMAGE_PNG@))
        .push(("settings.xml"@, true, encode_utf8(crate::static_assets::SETTINGS_XML@)))
        .push(("META-INF/container.rdf"@, true, encode_utf8(crate::static_assets::META_INF_CONTAINER_RDF@)));
    assert forall|i: int| 0 <= i < n implies #[trigger] e[3 + i]
        == (section_href(i as nat), true, encode_utf8(section_xml(doc.sections@[i]))) by {
        assert(e[3 + i] == se[i]);
        lemma_section_entry(doc, n, i);
    }
    assert forall|k: int| 0 <= k < pz.len() implies #[trigger] e[7 + n + k] == pz[k] by {
    }
    assert forall|i: int| 0 < i < e.len() implies (#[trigger] e[i]).1 by {
        if i < 3 {
        } else if i < 3 + n {
            assert(e[i] == se[i - 3]);
        } else if i < 7 + n {
        } else if i < 7 + n + pz.len() {
            assert(e[i] == pz[i - 7 - n]);
        } else {
        }
    }
}

/// Each image goes into the package at most once: the image contents
/// picked for a document have pairwise distinct, non-zero ids, each the id
/// of a picture of the document and the first content with that id.
pub proof fn law_images_once(doc: Document)
    ensures
        forall|i: int, j: int| 0 <= i < j < doc_bins(doc).picked.len() ==>
            doc.bin_data_content@[#[trigger] doc_bins(doc).picked[i]].id
                != doc.bin_data_content@[#[trigger] doc_bins(doc).picked[j]].id,
        forall|i: int| 0 <= i < doc_bins(doc).picked.len() ==> {
            let k = #[trigger] doc_bins(doc).picked[i];
            let id = doc.bin_data_content@[k].id;
            &&& id > 0
            &&& doc_pics(doc, doc.sections@.len()).contains(id)
            &&& find_bin(doc.bin_data_content@, id, doc.bin_data_content@.len()) == Some(k)
            &&& 0 <= k < doc.bin_data_content@.len()
        },
{
    let ids = doc_pics(doc, doc.sections@.len());
    lemma_bin_fold_inv(bin_init(), ids, doc.bin_data_content@);
}

/// What image collection keeps: the picked contents are the first ones of
/// distinct, non-zero ids that were met, all recorded as seen.
pub open spec fn bin_inv(st: BinState, met: Seq<u16>, contents: Seq<BinDataContent>) -> bool {
    &&& forall|i: int, j: int| 0 <= i < j < st.picked.len() ==>
            contents[#[trigger] st.picked[i]].id != contents[#[trigger] st.picked[j]].id
    &&& forall|i: int| 0 <= i < st.picked.len() ==> {
            let k = #[trigger] st.picked[i];
            &&& 0 <= k < contents.len()
            &&& contents[k].id > 0
            &&& st.seen.contains(contents[k].id)
            &&& met.contains(contents[k].id)
            &&& find_bin(contents, contents[k].id, contents.len()) == Some(k)
        }
}

proof fn lemma_find_bin_found(contents: Seq<BinDataContent>, id: u16, n: nat)
    requires
        n <= contents.len(),
    ensures
        find_bin(contents, id, n) matches Some(k) ==> 0 <= k < n && contents[k].id == id,
    decreases n,
{
    if n > 0 {
        lemma_find_bin_found(contents, id, (n - 1) as nat);
    }
}

proof fn lemma_bin_fold_inv(st: BinState, ids: Seq<u16>, contents: Seq<BinDataContent>)
    requires
        st == bin_init(),
    ensures
        bin_inv(bin_fold(st, ids, contents), ids, contents),
    decreases ids.len(),
{
    if ids.len() > 0 {
        let prev_ids = ids.drop_last();
        lemma_bin_fold_inv(st, prev_ids, contents);
        let prev = bin_fold(st, prev_ids, contents);
        let id = ids.last();
        let next = bin_step(prev, id, contents);
        assert(bin_fold(st, ids, contents) == next);
        lemma_find_bin_found(contents, id, contents.len());
        assert forall|x: u16| prev_ids.contains(x) implies ids.contains(x) by {
            let w = choose|w: int| 0 <= w < prev_ids.len() && prev_ids[w] == x;
            assert(ids[w] == x);
        }
        assert(ids.contains(id)) by {
            assert(ids[ids.len() - 1] == id);
        }
        if id > 0 && !prev.seen.contains(id) {
            match find_bin(contents, id, contents.len()) {
                Some(k) => {
                    assert forall|i: int| 0 <= i < next.picked.len() implies {
                        let kk = #[trigger] next.picked[i];
                        &&& 0 <= kk < contents.len()
                        &&& contents[kk].id > 0
                        &&& next.seen.contains(contents[kk].id)
                        &&& ids.contains(contents[kk].id)
                        &&& find_bin(contents, contents[kk].id, contents.len()) == Some(kk)
                    } by {
                        if i < prev.picked.len() {
                            assert(next.picked[i] == prev.picked[i]);
                        } else {
                            assert(next.picked[i] == k);
                        }
                    }
                    assert forall|i: int, j: int| 0 <= i < j < next.picked.len() implies
                        contents[#[trigger] next.picked[i]].id != contents[#[trigger] next.picked[j]].id by {
                        assert(next.picked[i] == prev.picked[i]);
                        if j < prev.picked.len() {
                            assert(next.picked[j] == prev.picked[j]);
                        } else {
                            assert(next.picked[j] == k);
                            assert(prev.seen.contains(contents[prev.picked[i]].id));
                        }
                    }
                },
                None => {},
            }
        }
    }
}


proof fn lemma_section_href_shape(k: nat)
    ensures
        section_href(k).len() > 16,
        section_href(k)[0] == 'C',
        section_href(k)[9] == 's',
{
    reveal_strlit("Contents/section");
    reveal_strlit(".xml");
    lemma_dec_nat_digits(k);
}

proof fn lemma_section_href_injective(a: nat, b: nat)
    requires
        section_href(a) == section_href(b),
    ensures
        a == b,
{
    reveal_strlit("Contents/section");
    reveal_strlit(".xml");
    let da = dec_nat(a);
    let db = dec_nat(b);
    assert(section_href(a).len() == 20 + da.len());
    assert(section_href(b).len() == 20 + db.len());
    assert(section_href(a).subrange(16, 16 + da.len() as int) =~= da);
    assert(section_href(b).subrange(16, 16 + db.len() as int) =~= db);
    lemma_dec_nat_injective(a, b);
}

proof fn lemma_bin_path_shape(id: u16, ext: Seq<char>)
    ensures
        bin_data_path_spec(id, ext).len() > 0,
        bin_data_path_spec(id, ext)[0] == 'B',
{
    reveal_strlit("BinData/image");
}

proof fn lemma_bin_path_injective(id1: u16, e1: Seq<char>, id2: u16, e2: Seq<char>)
    requires
        bin_data_path_spec(id1, e1) == bin_data_path_spec(id2, e2),
    ensures
        id1 == id2,
{
    reveal_strlit("BinData/image");
    reveal_strlit(".");
    let d1 = dec_nat(id1 as nat);
    let d2 = dec_nat(id2 as nat);
    let s = bin_data_path_spec(id1, e1);
    lemma_dec_nat_digits(id1 as nat);
    lemma_dec_nat_digits(id2 as nat);
    assert(s == "BinData/image"@ + d1 + "."@ + e1);
    assert(s == "BinData/image"@ + d2 + "."@ + e2);
    if d1.len() < d2.len() {
        assert(s[13 + d1.len() as int] == '.');
        assert(s[13 + d1.len() as int] == d2[d1.len() as int]);
    } else if d2.len() < d1.len() {
        assert(s[13 + d2.len() as int] == '.');
        assert(s[13 + d2.len() as int] == d1[d2.len() as int]);
    } else {
        assert(s.subrange(13, 13 + d1.len() as int) =~= d1);
        assert(s.subrange(13, 13 + d2.len() as int) =~= d2);
        lemma_dec_nat_injective(id1 as nat, id2 as nat);
    }
}

/// The path of the package entry at index `i`: the fixed files, one
/// section file per section, one image file per picked image content.
pub open spec fn entry_path(doc: Document, i: int) -> Seq<char> {
    let n = doc.sections@.len() as int;
    let picked = doc_bins(doc).picked;
    let p = picked.len() as int;
    if i == 0 { "mimetype"@ }
    else if i == 1 { "version.xml"@ }
    else if i == 2 { "Contents/header.xml"@ }
    else if i < 3 + n { section_href((i - 3) as nat) }
    else if i == 3 + n { "Preview/PrvText.txt"@ }
    else if i == 4 + n { "Preview/PrvImage.png"@ }
    else if i == 5 + n { "settings.xml"@ }
    else if i == 6 + n { "META-INF/container.rdf"@ }
    else if i < 7 + n + p {
        let c = doc.bin_data_content@[picked[i - 7 - n]];
        bin_data_path_spec(c.id, c.extension@)
    }
    else if i == 7 + n + p { "Contents/content.hpf"@ }
    else if i == 8 + n + p { "META-INF/container.xml"@ }
    else { "META-INF/manifest.xml"@ }
}

proof fn lemma_entry_path(doc: Document, i: int)
    requires
        0 <= i < hwpx_entries(doc).len(),
    ensures
        hwpx_entries(doc)[i].0 == entry_path(doc, i),
{
    let n = doc.sections@.len();
    lemma_section_entries(doc, n);
    law_package_layout(doc);
    let se = section_entries(doc, n);
    let pz = picked_zip_entries(doc.bin_data_content@, doc_bins(doc).picked);
    let e = hwpx_entries(doc);
    if 3 <= i < 3 + n {
        assert(e[i] == se[i - 3]);
    } else if 7 + n <= i < 7 + n + pz.len() {
        assert(e[i] == pz[i - 7 - n]);
    }
}

/// No two entries of a document's package share a path (so the ZIP writer
/// never meets a duplicate name).
pub proof fn law_package_paths_distinct(doc: Document)
    ensures
        forall|i: int, j: int| 0 <= i < j < hwpx_entries(doc).len() ==>
            (#[trigger] hwpx_entries(doc)[i]).0 != (#[trigger] hwpx_entries(doc)[j]).0,
{
    law_package_layout(doc);
    law_images_once(doc);
    let n = doc.sections@.len() as int;
    let picked = doc_bins(doc).picked;
    let p = picked.len() as int;
    let contents = doc.bin_data_content@;
    reveal_strlit("mimetype");
    reveal_strlit("version.xml");
    reveal_strlit("Contents/header.xml");
    reveal_strlit("Preview/PrvText.txt");
    reveal_strlit("Preview/PrvImage.png");
    reveal_strlit("settings.xml");
    reveal_strlit("META-INF/container.rdf");
    reveal_strlit("Contents/content.hpf");
    reveal_strlit("META-INF/container.xml");
    reveal_strlit("META-INF/manifest.xml");
    assert forall|i: int, j: int| 0 <= i < j < hwpx_entries(doc).len() implies
        (#[trigger] hwpx_entries(doc)[i]).0 != (#[trigger] hwpx_entries(doc)[j]).0 by {
        lemma_entry_path(doc, i);
        lemma_entry_path(doc, j);
        let a = entry_path(doc, i);
        let b = entry_path(doc, j);
        let sec_i = 3 <= i < 3 + n;
        let sec_j = 3 <= j < 3 + n;
        let bin_i = 7 + n <= i < 7 + n + p;
        let bin_j = 7 + n <= j < 7 + n + p;
        if sec_i {
            lemma_section_href_shape((i - 3) as nat);
        }
        if sec_j {
            lemma_section_href_shape((j - 3) as nat);
        }
        if bin_i {
            let c = contents[picked[i - 7 - n]];
            lemma_bin_path_shape(c.id, c.extension@);
        }
        if bin_j {
            let c = contents[picked[j - 7 - n]];
            lemma_bin_path_shape(c.id, c.extension@);
        }
        if sec_i && sec_j {
            if a == b {
                lemma_section_href_injective((i - 3) as nat, (j - 3) as nat);
            }
        } else if bin_i && bin_j {
            let ci = contents[picked[i - 7 - n]];
            let cj = contents[picked[j - 7 - n]];
            assert(ci.id != cj.id);
            if a == b {
                lemma_bin_path_injective(ci.id, ci.extension@, cj.id, cj.extension@);
            }
        } else if a[0] != b[0] {
        } else if a.len() != b.len() {
        } else if a[9] != b[9] {
        } else if a[11] != b[11] {
        } else {
            assert(a[19] != b[19]);
        }
    }
}


// ---------------------------------------------------------------------
// When writing the package succeeds
// ---------------------------------------------------------------------

/// No two entries share a path.
pub open spec fn paths_distinct(es: Seq<ZipEntry>) -> bool {
    forall|i: int, j: int| 0 <= i < j < es.len() ==> (#[trigger] es[i]).0 != (#[trigger] es[j]).0
}

/// `es` is a prefix of `goal`, an archive within `zip_room` whose paths
/// are distinct.
pub open spec fn fits_within(es: Seq<ZipEntry>, goal: Seq<ZipEntry>) -> bool {
    &&& es.is_prefix_of(goal)
    &&& zip_room(goal)
    &&& paths_distinct(goal)
}

/// The package of a document stays within the limits of a plain ZIP
/// archive (see `zip_room`).
pub open spec fn package_fits(doc: Document) -> bool {
    zip_room(hwpx_entries(doc))
}

proof fn lemma_size_prefix(es: Seq<ZipEntry>, k: int)
    requires
        0 <= k <= es.len(),
    ensures
        entries_size(es.take(k)) <= entries_size(es),
    decreases es.len(),
{
    if k < es.len() {
        assert(es.drop_last().take(k) =~= es.take(k));
        lemma_size_prefix(es.drop_last(), k);
    } else {
        assert(es.take(k) =~= es);
    }
}

proof fn lemma_fits_prefix(a: Seq<ZipEntry>, b: Seq<ZipEntry>, goal: Seq<ZipEntry>)
    requires
        a.is_prefix_of(b),
        fits_within(b, goal),
    ensures
        fits_within(a, goal),
{
    assert forall|i: int| 0 <= i < a.len() implies a[i] == goal[i] by {
        assert(a[i] == b[i]);
        assert(b[i] == goal[i]);
    }
    assert(a =~= goal.subrange(0, a.len() as int));
}

/// The next entry of a prefix of `goal` can be written: the archive stays
/// within `zip_room` and the path is new.
proof fn lemma_fits_next(es: Seq<ZipEntry>, x: ZipEntry, goal: Seq<ZipEntry>)
    requires
        fits_within(es.push(x), goal),
    ensures
        zip_room(es.push(x)),
        !has_path(es, x.0),
{
    let t = es.push(x);
    assert(t =~= goal.take(t.len() as int));
    lemma_size_prefix(goal, t.len() as int);
    assert forall|i: int| 0 <= i < t.len() implies (#[trigger] t[i]).0.len() < 16000 by {
        assert(t[i] == goal[i]);
    }
    if has_path(es, x.0) {
        let i = choose|i: int| 0 <= i < es.len() && (#[trigger] es[i]).0 == x.0;
        assert(t[i] == es[i]);
        assert(goal[i] == t[i]);
        assert(t[es.len() as int] == x);
        assert(goal[es.len() as int] == t[es.len() as int]);
        assert(goal[i].0 == goal[es.len() as int].0);
    }
}

proof fn lemma_seq_prefix_trans<A>(a: Seq<A>, b: Seq<A>, c: Seq<A>)
    requires
        a.is_prefix_of(b),
        b.is_prefix_of(c),
    ensures
        a.is_prefix_of(c),
{
    assert forall|i: int| 0 <= i < a.len() implies a[i] == c[i] by {
        assert(a[i] == b[i]);
    }
    assert(a =~= c.subrange(0, a.len() as int));
}

proof fn lemma_seq_prefix_append<A>(p: Seq<A>, a: Seq<A>, b: Seq<A>)
    requires
        a.is_prefix_of(b),
    ensures
        (p + a).is_prefix_of(p + b),
{
    assert forall|i: int| 0 <= i < (p + a).len() implies (p + a)[i] == (p + b)[i] by {
        if i >= p.len() {
            assert(a[i - p.len()] == b[i - p.len()]);
        }
    }
    assert(p + a =~= (p + b).subrange(0, (p + a).len() as int));
}

proof fn lemma_seq_prefix_concat<A>(a: Seq<A>, b: Seq<A>)
    ensures
        a.is_prefix_of(a + b),
{
    assert(a =~= (a + b).subrange(0, a.len() as int));
}

proof fn lemma_paras_pics_prefix(ps: Seq<Paragraph>, a: nat, b: nat)
    requires
        a <= b <= ps.len(),
    ensures
        paras_pics(ps, a).is_prefix_of(paras_pics(ps, b)),
    decreases b,
{
    if a < b {
        lemma_paras_pics_prefix(ps, a, (b - 1) as nat);
        lemma_seq_prefix_concat(paras_pics(ps, (b - 1) as nat), ctrls_pics(ps[b - 1], ps[b - 1].controls@.len()));
        lemma_seq_prefix_trans(paras_pics(ps, a), paras_pics(ps, (b - 1) as nat), paras_pics(ps, b));
    } else {
        assert(paras_pics(ps, a) =~= paras_pics(ps, b).subrange(0, paras_pics(ps, a).len() as int));
    }
}

proof fn lemma_ctrls_pics_prefix(p: Paragraph, a: nat, b: nat)
    requires
        a <= b <= p.controls@.len(),
    ensures
        ctrls_pics(p, a).is_prefix_of(ctrls_pics(p, b)),
    decreases b,
{
    if a < b {
        lemma_ctrls_pics_prefix(p, a, (b - 1) as nat);
        lemma_seq_prefix_concat(ctrls_pics(p, (b - 1) as nat), control_pics(p.controls@[b - 1]));
        lemma_seq_prefix_trans(ctrls_pics(p, a), ctrls_pics(p, (b - 1) as nat), ctrls_pics(p, b));
    } else {
        assert(ctrls_pics(p, a) =~= ctrls_pics(p, b).subrange(0, ctrls_pics(p, a).len() as int));
    }
}

proof fn lemma_cells_pics_prefix(t: Table, a: nat, b: nat)
    requires
        a <= b <= t.cells@.len(),
    ensures
        cells_pics(t, a).is_prefix_of(cells_pics(t, b)),
    decreases b,
{
    if a < b {
        lemma_cells_pics_prefix(t, a, (b - 1) as nat);
        lemma_seq_prefix_concat(cells_pics(t, (b - 1) as nat),
            paras_pics(t.cells@[b - 1].paragraphs@, t.cells@[b - 1].paragraphs@.len()));
        lemma_seq_prefix_trans(cells_pics(t, a), cells_pics(t, (b - 1) as nat), cells_pics(t, b));
    } else {
        assert(cells_pics(t, a) =~= cells_pics(t, b).subrange(0, cells_pics(t, a).len() as int));
    }
}

proof fn lemma_doc_pics_prefix(doc: Document, a: nat, b: nat)
    requires
        a <= b <= doc.sections@.len(),
    ensures
        doc_pics(doc, a).is_prefix_of(doc_pics(doc, b)),
    decreases b,
{
    if a < b {
        lemma_doc_pics_prefix(doc, a, (b - 1) as nat);
        lemma_seq_prefix_concat(doc_pics(doc, (b - 1) as nat),
            paras_pics(doc.sections@[b - 1].paragraphs@, doc.sections@[b - 1].paragraphs@.len()));
        lemma_seq_prefix_trans(doc_pics(doc, a), doc_pics(doc, (b - 1) as nat), doc_pics(doc, b));
    } else {
        assert(doc_pics(doc, a) =~= doc_pics(doc, b).subrange(0, doc_pics(doc, a).len() as int));
    }
}

/// The ids met up to control `k` of paragraph `i`, then `y` (a prefix of
/// that control's ids), are a prefix of all the ids of the paragraphs.
proof fn lemma_ids_prefix_in_para(ps: Seq<Paragraph>, i: nat, k: nat, y: Seq<u16>)
    requires
        i < ps.len(),
        k < ps[i as int].controls@.len(),
        y.is_prefix_of(control_pics(ps[i as int].controls@[k as int])),
    ensures
        (paras_pics(ps, i) + ctrls_pics(ps[i as int], k) + y).is_prefix_of(paras_pics(ps, ps.len())),
{
    let p = ps[i as int];
    let before = paras_pics(ps, i);
    let c = ctrls_pics(p, k);
    lemma_seq_prefix_append(c, y, control_pics(p.controls@[k as int]));
    assert(ctrls_pics(p, k + 1) == c + control_pics(p.controls@[k as int]));
    lemma_ctrls_pics_prefix(p, k + 1, p.controls@.len());
    lemma_seq_prefix_trans(c + y, ctrls_pics(p, k + 1), ctrls_pics(p, p.controls@.len()));
    lemma_seq_prefix_append(before, c + y, ctrls_pics(p, p.controls@.len()));
    assert(before + c + y =~= before + (c + y));
    assert(paras_pics(ps, i + 1) == before + ctrls_pics(p, p.controls@.len()));
    lemma_paras_pics_prefix(ps, i + 1, ps.len());
    lemma_seq_prefix_trans(before + c + y, paras_pics(ps, i + 1), paras_pics(ps, ps.len()));
}

proof fn lemma_fold_extends(st: BinState, ids: Seq<u16>, contents: Seq<BinDataContent>)
    ensures
        st.picked.is_prefix_of(bin_fold(st, ids, contents).picked),
    decreases ids.len(),
{
    if ids.len() == 0 {
        assert(st.picked =~= st.picked.subrange(0, st.picked.len() as int));
    } else {
        let prev = bin_fold(st, ids.drop_last(), contents);
        lemma_fold_extends(st, ids.drop_last(), contents);
        let next = bin_step(prev, ids.last(), contents);
        if next.picked != prev.picked {
            lemma_seq_prefix_concat(prev.picked, next.picked.subrange(prev.picked.len() as int, next.picked.len() as int));
            assert(prev.picked + next.picked.subrange(prev.picked.len() as int, next.picked.len() as int) =~= next.picked);
            lemma_seq_prefix_trans(st.picked, prev.picked, next.picked);
        }
    }
}

/// Collecting over a prefix of the ids picks a prefix of the contents.
proof fn lemma_fold_prefix(st: BinState, a: Seq<u16>, b: Seq<u16>, contents: Seq<BinDataContent>)
    requires
        a.is_prefix_of(b),
    ensures
        bin_fold(st, a, contents).picked.is_prefix_of(bin_fold(st, b, contents).picked),
{
    let rest = b.subrange(a.len() as int, b.len() as int);
    assert(a + rest =~= b);
    lemma_bin_fold_concat(st, a, rest, contents);
    lemma_fold_extends(bin_fold(st, a, contents), rest, contents);
}

/// Where collecting over `b` stays within `goal`, so does collecting over
/// a prefix `a` of it.
proof fn lemma_goal_prefix(
    st: BinState,
    a: Seq<u16>,
    b: Seq<u16>,
    contents: Seq<BinDataContent>,
    base: Seq<ZipEntry>,
    goal: Seq<ZipEntry>,
)
    requires
        a.is_prefix_of(b),
        fits_within(base + picked_zip_entries(contents, bin_fold(st, b, contents).picked), goal),
    ensures
        fits_within(base + picked_zip_entries(contents, bin_fold(st, a, contents).picked), goal),
{
    let pa = bin_fold(st, a, contents).picked;
    let pb = bin_fold(st, b, contents).picked;
    lemma_fold_prefix(st, a, b, contents);
    assert(picked_zip_entries(contents, pa) =~= picked_zip_entries(contents, pb).subrange(0, pa.len() as int));
    lemma_seq_prefix_append(base, picked_zip_entries(contents, pa), picked_zip_entries(contents, pb));
    lemma_fits_prefix(base + picked_zip_entries(contents, pa), base + picked_zip_entries(contents, pb), goal);
}


// ---------------------------------------------------------------------
// Every picture's image is packaged
// ---------------------------------------------------------------------

/// The image id of the picture reached from paragraphs `ps` by `path`:
/// `[i, k]` is control `k` of paragraph `i`; `[i, k, j] + rest` goes into
/// cell `j` of the table that is control `k` of paragraph `i`, then follows
/// `rest` among that cell's paragraphs. `None` where the path leads to no
/// picture.
pub open spec fn pic_at(ps: Seq<Paragraph>, path: Seq<int>) -> Option<u16>
    decreases path.len(),
{
    if path.len() < 2 {
        None
    } else {
        let i = path[0];
        let k = path[1];
        if 0 <= i < ps.len() && 0 <= k < ps[i].controls@.len() {
            match ps[i].controls@[k] {
                Control::Picture(pic) => if path.len() == 2 { Some(pic.image_attr.bin_data_id) } else { None },
                Control::Table(t) => {
                    if path.len() >= 3 && 0 <= path[2] < t.cells@.len() {
                        pic_at(t.cells@[path[2]].paragraphs@, path.subrange(3, path.len() as int))
                    } else {
                        None
                    }
                },
                Control::Other => None,
            }
        } else {
            None
        }
    }
}

proof fn lemma_contains_prefix(a: Seq<u16>, b: Seq<u16>, x: u16)
    requires
        a.is_prefix_of(b),
        a.contains(x),
    ensures
        b.contains(x),
{
    let w = choose|w: int| 0 <= w < a.len() && a[w] == x;
    assert(b[w] == a[w]);
}

proof fn lemma_contains_suffix(a: Seq<u16>, b: Seq<u16>, x: u16)
    requires
        b.contains(x),
    ensures
        (a + b).contains(x),
{
    let w = choose|w: int| 0 <= w < b.len() && b[w] == x;
    assert((a + b)[a.len() + w] == x);
}

proof fn lemma_ctrls_pics_has(p: Paragraph, k: nat, x: u16)
    requires
        k < p.controls@.len(),
        control_pics(p.controls@[k as int]).contains(x),
    ensures
        ctrls_pics(p, p.controls@.len()).contains(x),
{
    lemma_contains_suffix(ctrls_pics(p, k), control_pics(p.controls@[k as int]), x);
    assert(ctrls_pics(p, k + 1) == ctrls_pics(p, k) + control_pics(p.controls@[k as int]));
    lemma_ctrls_pics_prefix(p, k + 1, p.controls@.len());
    lemma_contains_prefix(ctrls_pics(p, k + 1), ctrls_pics(p, p.controls@.len()), x);
}

proof fn lemma_paras_pics_has(ps: Seq<Paragraph>, i: nat, x: u16)
    requires
        i < ps.len(),
        ctrls_pics(ps[i as int], ps[i as int].controls@.len()).contains(x),
    ensures
        paras_pics(ps, ps.len()).contains(x),
{
    lemma_contains_suffix(paras_pics(ps, i), ctrls_pics(ps[i as int], ps[i as int].controls@.len()), x);
    assert(paras_pics(ps, i + 1) == paras_pics(ps, i) + ctrls_pics(ps[i as int], ps[i as int].controls@.len()));
    lemma_paras_pics_prefix(ps, i + 1, ps.len());
    lemma_contains_prefix(paras_pics(ps, i + 1), paras_pics(ps, ps.len()), x);
}

proof fn lemma_cells_pics_has(t: Table, j: nat, x: u16)
    requires
        j < t.cells@.len(),
        paras_pics(t.cells@[j as int].paragraphs@, t.cells@[j as int].paragraphs@.len()).contains(x),
    ensures
        cells_pics(t, t.cells@.len()).contains(x),
{
    let y = paras_pics(t.cells@[j as int].paragraphs@, t.cells@[j as int].paragraphs@.len());
    lemma_contains_suffix(cells_pics(t, j), y, x);
    assert(cells_pics(t, j + 1) == cells_pics(t, j) + y);
    lemma_cells_pics_prefix(t, j + 1, t.cells@.len());
    lemma_contains_prefix(cells_pics(t, j + 1), cells_pics(t, t.cells@.len()), x);
}

/// A picture reached by a path is among the image ids collected from the
/// paragraphs.
proof fn lemma_pic_at_collected(ps: Seq<Paragraph>, path: Seq<int>, x: u16)
    requires
        pic_at(ps, path) == Some(x),
    ensures
        paras_pics(ps, ps.len()).contains(x),
    decreases path.len(),
{
    let i = path[0];
    let k = path[1];
    let p = ps[i];
    match p.controls@[k] {
        Control::Picture(pic) => {
            assert(control_pics(p.controls@[k]) == seq![x]);
            assert(seq![x][0] == x);
        },
        Control::Table(t) => {
            let j = path[2];
            let rest = path.subrange(3, path.len() as int);
            lemma_pic_at_collected(t.cells@[j].paragraphs@, rest, x);
            lemma_cells_pics_has(*t, j as nat, x);
            assert(control_pics(p.controls@[k]) == cells_pics(*t, t.cells@.len()));
        },
        Control::Other => {},
    }
    lemma_ctrls_pics_has(p, k as nat, x);
    lemma_paras_pics_has(ps, i as nat, x);
}

proof fn lemma_doc_pics_has(doc: Document, s: nat, x: u16)
    requires
        s < doc.sections@.len(),
        paras_pics(doc.sections@[s as int].paragraphs@, doc.sections@[s as int].paragraphs@.len()).contains(x),
    ensures
        doc_pics(doc, doc.sections@.len()).contains(x),
{
    let y = paras_pics(doc.sections@[s as int].paragraphs@, doc.sections@[s as int].paragraphs@.len());
    lemma_contains_suffix(doc_pics(doc, s), y, x);
    assert(doc_pics(doc, s + 1) == doc_pics(doc, s) + y);
    lemma_doc_pics_prefix(doc, s + 1, doc.sections@.len());
    lemma_contains_prefix(doc_pics(doc, s + 1), doc_pics(doc, doc.sections@.len()), x);
}

proof fn lemma_find_bin_exists(contents: Seq<BinDataContent>, id: u16, c: int, n: nat)
    requires
        0 <= c < n <= contents.len(),
        contents[c].id == id,
    ensures
        find_bin(contents, id, n) is Some,
    decreases n,
{
    if c < n - 1 {
        lemma_find_bin_exists(contents, id, c, (n - 1) as nat);
    }
}

/// Collection picks, for every non-zero id met that has an image content,
/// a content with that id; ids met are recorded as seen.
proof fn lemma_bin_fold_complete(ids: Seq<u16>, contents: Seq<BinDataContent>)
    ensures ({
        let st = bin_fold(bin_init(), ids, contents);
        &&& forall|x: u16| #[trigger] ids.contains(x) && x > 0 ==> st.seen.contains(x)
        &&& forall|x: u16| #[trigger] st.seen.contains(x) && find_bin(contents, x, contents.len()) is Some
            ==> exists|j: int| 0 <= j < st.picked.len() && 0 <= st.picked[j] < contents.len()
                && #[trigger] contents[st.picked[j]].id == x
    }),
    decreases ids.len(),
{
    if ids.len() > 0 {
        let pre = ids.drop_last();
        lemma_bin_fold_complete(pre, contents);
        let prev = bin_fold(bin_init(), pre, contents);
        let y = ids.last();
        let st = bin_step(prev, y, contents);
        assert(bin_fold(bin_init(), ids, contents) == st);
        lemma_find_bin_found(contents, y, contents.len());
        assert forall|x: u16| #[trigger] ids.contains(x) && x > 0 implies st.seen.contains(x) by {
            let w = choose|w: int| 0 <= w < ids.len() && ids[w] == x;
            if w < ids.len() - 1 {
                assert(pre[w] == x);
                assert(pre.contains(x));
                assert(prev.seen.contains(x));
            } else {
                assert(x == y);
            }
        }
        assert forall|x: u16| #[trigger] st.seen.contains(x) && find_bin(contents, x, contents.len()) is Some
            implies exists|j: int| 0 <= j < st.picked.len() && 0 <= st.picked[j] < contents.len()
                && #[trigger] contents[st.picked[j]].id == x by {
            lemma_find_bin_found(contents, x, contents.len());
            if prev.seen.contains(x) {
                let j = choose|j: int| 0 <= j < prev.picked.len() && 0 <= prev.picked[j] < contents.len()
                    && #[trigger] contents[prev.picked[j]].id == x;
                assert(st.picked[j] == prev.picked[j]);
            } else {
                assert(x == y);
                let k = find_bin(contents, x, contents.len())->0;
                assert(st.picked[prev.picked.len() as int] == k);
            }
        }
    }
}

/// Every picture anywhere in a document (in any section, in the
/// paragraphs of any table cell at any depth) whose non-zero id has an
/// image content gets that image into the package: some picked content
/// has the id, its entry is written at `BinData/image{id}.{ext}` with its
/// data, and the manifest lists it as `image{id}` at that path.
pub proof fn law_every_picture_packaged(doc: Document, s: int, path: Seq<int>, c: int)
    requires
        0 <= s < doc.sections@.len(),
        pic_at(doc.sections@[s].paragraphs@, path) is Some,
        pic_at(doc.sections@[s].paragraphs@, path)->0 > 0,
        0 <= c < doc.bin_data_content@.len(),
        doc.bin_data_content@[c].id == pic_at(doc.sections@[s].paragraphs@, path)->0,
    ensures ({
        let id = pic_at(doc.sections@[s].paragraphs@, path)->0;
        let picked = doc_bins(doc).picked;
        let n = doc.sections@.len() as int;
        exists|j: int| 0 <= j < picked.len() && {
            let b = doc.bin_data_content@[#[trigger] picked[j]];
            &&& b.id == id
            &&& hwpx_entries(doc)[7 + n + j] == (bin_data_path_spec(id, b.extension@), true, b.data@)
            &&& picked_manifest(doc.bin_data_content@, picked)[j]
                == ("image"@ + dec_nat(id as nat), bin_data_path_spec(id, b.extension@), media_type_name(b.extension@))
        }
    }),
{
    let contents = doc.bin_data_content@;
    let ps = doc.sections@[s].paragraphs@;
    let id = pic_at(ps, path)->0;
    lemma_pic_at_collected(ps, path, id);
    lemma_doc_pics_has(doc, s as nat, id);
    let ids = doc_pics(doc, doc.sections@.len());
    lemma_bin_fold_complete(ids, contents);
    lemma_find_bin_exists(contents, id, c, contents.len());
    let st = doc_bins(doc);
    assert(st.seen.contains(id));
    let j = choose|j: int| 0 <= j < st.picked.len() && 0 <= st.picked[j] < contents.len()
        && #[trigger] contents[st.picked[j]].id == id;
    law_package_layout(doc);
    let n = doc.sections@.len() as int;
    assert(hwpx_entries(doc)[7 + n + j] == picked_zip_entries(contents, st.picked)[j]);
}
} // verus!
