//! `Contents/section{N}.xml`: the paragraphs of a section, split into runs
//! by character shape, with tabs, line breaks, inline tables and pictures,
//! and one line segment per line.
//!
//! Model conventions: several `section.paragraphs` are hard paragraph
//! breaks (several `<hp:p>`), `\n` in a paragraph's text is a soft line
//! break (`<hp:lineBreak/>`), `\t` is a tab (`<hp:tab .../>`), and each
//! U+0002 stands for the next inline control of the paragraph.

use vstd::prelude::*;
use vstd::string::*;
use crate::model::{BindingMethod, Control, PageDef, Paragraph, Section};
use crate::picture::{picture_xml, write_picture};
use crate::table::{table_xml, write_table};
use crate::text::{contains_text, dec_nat, lemma_contains_append, lemma_contains_extend, lemma_contains_last3, lemma_contains_mid, push_str, push_u64, string_into_bytes, string_of};
use crate::error::SerializeError;
use vstd::utf8::encode_utf8;
use crate::utils::{escape_char, push_escaped_char};

verus! {

/// Vertical advance of one line: vertical size 1000 plus spacing 600.
pub const VERT_STEP: u32 = 1600;
/// Line-segment flags of the reference documents.
pub const LINE_FLAGS: u32 = 393216;
/// Horizontal size of a line segment.
pub const HORZ_SIZE: u32 = 42520;
/// Tab width used when the section defines none.
pub const TAB_FALLBACK_WIDTH: u32 = 8000;

/// UTF-16 code units of a character.
pub open spec fn char_utf16(c: char) -> nat {
    if (c as u32) >= 0x10000 { 2 } else { 1 }
}

/// UTF-16 length of a text.
pub open spec fn utf16_len(s: Seq<char>) -> nat
    decreases s.len(),
{
    if s.len() == 0 { 0 } else { utf16_len(s.drop_last()) + char_utf16(s.last()) }
}

/// Number of soft line breaks (`\n`) in a text.
pub open spec fn newlines(s: Seq<char>) -> nat
    decreases s.len(),
{
    if s.len() == 0 { 0 } else { newlines(s.drop_last()) + (if s.last() == '\n' { 1nat } else { 0nat }) }
}

/// One `<hp:lineseg>`: a line starting at UTF-16 offset `textpos`, at vertical position `vertpos`.
pub open spec fn lineseg_xml(textpos: nat, vertpos: nat) -> Seq<char> {
    "<hp:lineseg textpos=\""@ + dec_nat(textpos) + "\" vertpos=\""@ + dec_nat(vertpos)
        + "\" vertsize=\"1000\" textheight=\"1000\" baseline=\"850\" spacing=\"600\" horzpos=\"0\" horzsize=\""@
        + dec_nat(HORZ_SIZE as nat) + "\" flags=\""@ + dec_nat(LINE_FLAGS as nat) + "\"/>"@
}

/// A line segment carries its text offset as `textpos` and its vertical
/// position as `vertpos`, in that order.
pub proof fn law_lineseg_positions(textpos: nat, vertpos: nat)
    ensures
        contains_text(lineseg_xml(textpos, vertpos),
            "<hp:lineseg textpos=\""@ + dec_nat(textpos) + "\" vertpos=\""@ + dec_nat(vertpos) + "\""@),
{
    let t = "<hp:lineseg textpos=\""@ + dec_nat(textpos) + "\" vertpos=\""@ + dec_nat(vertpos);
    let r = "\" vertsize=\"1000\" textheight=\"1000\" baseline=\"850\" spacing=\"600\" horzpos=\"0\" horzsize=\""@
        + dec_nat(HORZ_SIZE as nat) + "\" flags=\""@ + dec_nat(LINE_FLAGS as nat) + "\"/>"@;
    assert(lineseg_xml(textpos, vertpos) =~= t + r);
    reveal_strlit("\"");
    reveal_strlit("\" vertsize=\"1000\" textheight=\"1000\" baseline=\"850\" spacing=\"600\" horzpos=\"0\" horzsize=\"");
    let q = "\""@;
    let r2 = r.subrange(1, r.len() as int);
    assert(r =~= q + r2);
    assert(t + r =~= Seq::<char>::empty() + (t + q) + r2);
    lemma_contains_mid(Seq::empty(), t + q, r2);
}

/// The state of run rendering after a prefix of a paragraph's text.
pub struct RunsState {
    /// Runs written so far.
    pub out: Seq<char>,
    /// Controls collected for the open run (they precede its text).
    pub ctrl: Seq<char>,
    /// Content of the open run's `<hp:t>`.
    pub t: Seq<char>,
    /// UTF-16 offset reached.
    pub pos: nat,
    /// Soft line breaks met.
    pub lines: nat,
    /// Tabs met.
    pub tabs: nat,
    /// Index of the next control.
    pub ctrl_idx: nat,
    /// Index of the current character shape.
    pub shape: nat,
    /// Line segments written so far.
    pub segs: Seq<char>,
}

/// Character shape id of the `k`-th shape reference (0 when there is none).
pub open spec fn char_id_at(p: Paragraph, k: nat) -> nat {
    if k < p.char_shapes@.len() { p.char_shapes@[k as int].char_shape_id as nat } else { 0 }
}

/// One `<hp:run>`: collected controls first, then the text element
/// (`<hp:t/>` when there is no text).
pub open spec fn run_xml(id: nat, ctrl: Seq<char>, t: Seq<char>) -> Seq<char> {
    "<hp:run charPrIDRef=\""@ + dec_nat(id) + "\">"@ + ctrl
        + (if t.len() == 0 { "<hp:t/>"@ } else { "<hp:t>"@ + t + "</hp:t>"@ }) + "</hp:run>"@
}

/// Closes the open run.
pub open spec fn emit(p: Paragraph, st: RunsState) -> RunsState {
    RunsState {
        out: st.out + run_xml(char_id_at(p, st.shape), st.ctrl, st.t),
        ctrl: Seq::empty(),
        t: Seq::empty(),
        ..st
    }
}

/// Whether the open run holds anything.
pub open spec fn has_content(st: RunsState) -> bool {
    st.ctrl.len() > 0 || st.t.len() > 0
}

/// Moves to every character shape that starts at or before the current
/// offset, closing the open run (when it holds anything) at each boundary.
pub open spec fn advance(p: Paragraph, st: RunsState) -> RunsState
    decreases p.char_shapes@.len() - st.shape,
{
    if st.shape + 1 < p.char_shapes@.len() && st.pos >= p.char_shapes@[st.shape + 1 as int].start_pos {
        let st2 = if has_content(st) { emit(p, st) } else { st };
        advance(p, RunsState { shape: st.shape + 1, ..st2 })
    } else {
        st
    }
}

/// The `<hp:tab>` element for the `k`-th tab of a paragraph.
pub open spec fn tab_xml(p: Paragraph, k: nat, tab_w: nat) -> Seq<char> {
    let has = k < p.tab_extended@.len();
    let e = p.tab_extended@[k as int];
    let w: nat = if has && e[0] > 0 { e[0] as nat } else { tab_w };
    let leader: nat = if has { e[1] as nat } else { 0 };
    let ttype: nat = if has { e[2] as nat } else { 1 };
    "<hp:tab width=\""@ + dec_nat(w) + "\" leader=\""@ + dec_nat(leader) + "\" type=\""@ + dec_nat(ttype) + "\"/>"@
}

/// The `k`-th tab of a paragraph takes width, leader and type from the
/// paragraph's `k`-th extended tab entry (entries 0, 1, 2) when there is
/// one, with the given default width when that entry's width is 0; without
/// an entry it is the default width, leader 0 and type 1.
pub proof fn law_tab_attrs(p: Paragraph, k: nat, tab_w: nat)
    ensures
        k < p.tab_extended@.len() && p.tab_extended@[k as int][0] > 0 ==> tab_xml(p, k, tab_w)
            == "<hp:tab width=\""@ + dec_nat(p.tab_extended@[k as int][0] as nat) + "\" leader=\""@
                + dec_nat(p.tab_extended@[k as int][1] as nat) + "\" type=\""@
                + dec_nat(p.tab_extended@[k as int][2] as nat) + "\"/>"@,
        k < p.tab_extended@.len() && p.tab_extended@[k as int][0] == 0 ==> tab_xml(p, k, tab_w)
            == "<hp:tab width=\""@ + dec_nat(tab_w) + "\" leader=\""@
                + dec_nat(p.tab_extended@[k as int][1] as nat) + "\" type=\""@
                + dec_nat(p.tab_extended@[k as int][2] as nat) + "\"/>"@,
        k >= p.tab_extended@.len() ==> tab_xml(p, k, tab_w)
            == "<hp:tab width=\""@ + dec_nat(tab_w) + "\" leader=\""@ + dec_nat(0) + "\" type=\""@
                + dec_nat(1) + "\"/>"@,
{
}

/// The initial rendering state of a paragraph starting at `vert_start`.
pub open spec fn runs_init(vert_start: nat) -> RunsState {
    RunsState {
        out: Seq::empty(),
        ctrl: Seq::empty(),
        t: Seq::empty(),
        pos: 0,
        lines: 0,
        tabs: 0,
        ctrl_idx: 0,
        shape: 0,
        segs: lineseg_xml(0, vert_start),
    }
}

/// XML of the `k`-th control of a paragraph (nothing when there is none).
pub open spec fn ctrl_xml_at(p: Paragraph, k: nat, tab_w: nat) -> Seq<char>
    decreases p, 0nat,
{
    if k < p.controls@.len() {
        control_xml(p.controls@[k as int], tab_w)
    } else {
        Seq::empty()
    }
}

/// XML of an inline control: tables and pictures; other controls write nothing.
pub open spec fn control_xml(c: Control, tab_w: nat) -> Seq<char>
    decreases c, 0nat,
{
    match c {
        Control::Table(t) => table_xml(*t, tab_w),
        Control::Picture(pic) => picture_xml(*pic),
        Control::Other => Seq::empty(),
    }
}

/// One character of a paragraph's text.
pub open spec fn runs_step(p: Paragraph, st0: RunsState, c: char, vert_start: nat, tab_w: nat) -> RunsState
    decreases p, 1nat,
{
    let st = advance(p, st0);
    if c == '\t' {
        RunsState { t: st.t + tab_xml(p, st.tabs, tab_w), tabs: st.tabs + 1, pos: st.pos + 1, ..st }
    } else if c == '\n' {
        RunsState {
            t: st.t + "<hp:lineBreak/>"@,
            pos: st.pos + 1,
            lines: st.lines + 1,
            segs: st.segs + lineseg_xml(st.pos + 1, vert_start + (st.lines + 1) * (VERT_STEP as nat)),
            ..st
        }
    } else if c == '\u{2}' {
        let st2 = if st.t.len() > 0 { emit(p, st) } else { st };
        RunsState {
            ctrl: st2.ctrl + ctrl_xml_at(p, st.ctrl_idx, tab_w),
            ctrl_idx: st.ctrl_idx + 1,
            pos: st.pos + 1,
            ..st2
        }
    } else if (c as u32) < 0x20 {
        st
    } else {
        RunsState { t: st.t + escape_char(c), pos: st.pos + char_utf16(c), ..st }
    }
}

/// Rendering state after the first `n` characters of the text.
pub open spec fn runs_fold(p: Paragraph, n: nat, vert_start: nat, tab_w: nat) -> RunsState
    decreases p, n + 2,
{
    if n == 0 || n > p.text@.len() {
        runs_init(vert_start)
    } else {
        runs_step(p, runs_fold(p, (n - 1) as nat, vert_start, tab_w), p.text@[n - 1], vert_start, tab_w)
    }
}

/// Controls from index `k` on that the text did not place: each table or
/// picture gets a run of its own.
pub open spec fn runs_trailing(p: Paragraph, st: RunsState, k: nat, tab_w: nat) -> RunsState
    decreases p, if k <= p.controls@.len() { p.controls@.len() + 1 - k } else { 0 },
{
    if k >= p.controls@.len() {
        st
    } else {
        let st2 = match p.controls@[k as int] {
            Control::Other => st,
            _ => emit(p, RunsState { ctrl: st.ctrl + ctrl_xml_at(p, k, tab_w), ..st }),
        };
        runs_trailing(p, st2, k + 1, tab_w)
    }
}

/// Runs, line segments and the next vertical position of a paragraph.
pub struct RunsResult {
    pub runs: Seq<char>,
    pub segs: Seq<char>,
    pub vert_end: nat,
}

/// Renders a paragraph that starts at `vert_start`: its runs, its line
/// segments, and where the next paragraph starts (one line per soft break
/// plus one).
pub open spec fn render_runs(p: Paragraph, vert_start: nat, tab_w: nat) -> RunsResult
    decreases p, p.text@.len() + p.controls@.len() + 3,
{
    let folded = runs_fold(p, p.text@.len(), vert_start, tab_w);
    let closed = emit(p, folded);
    let done = runs_trailing(p, closed, closed.ctrl_idx, tab_w);
    RunsResult {
        runs: done.out,
        segs: done.segs,
        vert_end: vert_start + (folded.lines + 1) * (VERT_STEP as nat),
    }
}


proof fn lemma_advance_keeps(p: Paragraph, st: RunsState)
    ensures
        advance(p, st).lines == st.lines,
        advance(p, st).pos == st.pos,
        advance(p, st).segs == st.segs,
    decreases p.char_shapes@.len() - st.shape,
{
    if st.shape + 1 < p.char_shapes@.len() && st.pos >= p.char_shapes@[st.shape + 1 as int].start_pos {
        let st2 = if has_content(st) { emit(p, st) } else { st };
        lemma_advance_keeps(p, RunsState { shape: st.shape + 1, ..st2 });
    }
}

proof fn lemma_runs_fold_lines(p: Paragraph, n: nat, vert_start: nat, tab_w: nat)
    requires
        n <= p.text@.len(),
    ensures
        runs_fold(p, n, vert_start, tab_w).lines == newlines(p.text@.take(n as int)),
    decreases n,
{
    if n == 0 {
        assert(p.text@.take(0) =~= Seq::<char>::empty());
    } else {
        lemma_runs_fold_lines(p, (n - 1) as nat, vert_start, tab_w);
        let prev = runs_fold(p, (n - 1) as nat, vert_start, tab_w);
        lemma_advance_keeps(p, prev);
        let c = p.text@[n - 1];
        let st = advance(p, prev);
        let next = runs_step(p, prev, c, vert_start, tab_w);
        assert(runs_fold(p, n, vert_start, tab_w) == next);
        if c == '\n' {
            assert(next.lines == st.lines + 1);
        } else if c == '\t' {
            assert(next.lines == st.lines);
        } else if c == '\u{2}' {
            assert(next.lines == st.lines);
        } else {
            assert(next.lines == st.lines);
        }
        assert(p.text@.take(n as int).drop_last() =~= p.text@.take(n - 1));
        assert(p.text@.take(n as int).last() == p.text@[n - 1]);
    }
}

/// Each paragraph moves the vertical position down by one line (1600)
/// per soft line break in its text, plus one.
pub proof fn law_paragraph_advance(p: Paragraph, vert_start: nat, tab_w: nat)
    ensures
        render_runs(p, vert_start, tab_w).vert_end == vert_start + (newlines(p.text@) + 1) * (VERT_STEP as nat),
{
    lemma_runs_fold_lines(p, p.text@.len(), vert_start, tab_w);
    assert(p.text@.take(p.text@.len() as int) =~= p.text@);
}

/// The text of a paragraph starting at `vert_start` keeps its UTF-16
/// offsets and vertical positions within `u32`.
pub open spec fn text_fits(s: Seq<char>, vert_start: nat) -> bool {
    &&& utf16_len(s) <= u32::MAX
    &&& vert_start + (newlines(s) + 1) * (VERT_STEP as nat) <= u32::MAX
}

/// A paragraph, and every paragraph of the tables it holds (those start at
/// vertical position 0), keeps its offsets and positions within `u32`.
pub open spec fn para_fits(p: Paragraph, vert_start: nat) -> bool
    decreases p, p.controls@.len() + 1,
{
    text_fits(p.text@, vert_start) && ctrls_fit(p, p.controls@.len())
}

/// The first `k` controls of a paragraph fit.
pub open spec fn ctrls_fit(p: Paragraph, k: nat) -> bool
    decreases p, k,
{
    if k == 0 || k > p.controls@.len() {
        true
    } else {
        ctrls_fit(p, (k - 1) as nat) && control_fits(p.controls@[k - 1])
    }
}

/// Every cell paragraph of a table control fits; other controls always do.
pub open spec fn control_fits(c: Control) -> bool
    decreases c, 0nat,
{
    match c {
        Control::Table(t) => cells_fit(*t, t.cells@.len()),
        _ => true,
    }
}

/// The first `n` cells of a table fit.
pub open spec fn cells_fit(t: crate::model::Table, n: nat) -> bool
    decreases t, n,
{
    if n == 0 || n > t.cells@.len() {
        true
    } else {
        cells_fit(t, (n - 1) as nat) && cell_paras_fit(t.cells@[n - 1], t.cells@[n - 1].paragraphs@.len())
    }
}

/// The first `n` paragraphs of a cell fit (each starts at position 0).
pub open spec fn cell_paras_fit(c: crate::model::Cell, n: nat) -> bool
    decreases c, n,
{
    if n == 0 || n > c.paragraphs@.len() {
        true
    } else {
        cell_paras_fit(c, (n - 1) as nat) && para_fits(c.paragraphs@[n - 1], 0)
    }
}

/// Each of the first `n` controls of a fitting paragraph fits.
pub proof fn lemma_ctrls_fit(p: Paragraph, n: nat, k: nat)
    requires
        ctrls_fit(p, n),
        k < n <= p.controls@.len(),
    ensures
        control_fits(p.controls@[k as int]),
    decreases n,
{
    if k + 1 < n {
        lemma_ctrls_fit(p, (n - 1) as nat, k);
    }
}

/// Each of the first `n` cells of a fitting table has fitting paragraphs.
pub proof fn lemma_cells_fit(t: crate::model::Table, n: nat, k: nat)
    requires
        cells_fit(t, n),
        k < n <= t.cells@.len(),
    ensures
        cell_paras_fit(t.cells@[k as int], t.cells@[k as int].paragraphs@.len()),
    decreases n,
{
    if k + 1 < n {
        lemma_cells_fit(t, (n - 1) as nat, k);
    }
}

/// Each of the first `n` paragraphs of a fitting cell fits.
pub proof fn lemma_cell_paras_fit(c: crate::model::Cell, n: nat, k: nat)
    requires
        cell_paras_fit(c, n),
        k < n <= c.paragraphs@.len(),
    ensures
        para_fits(c.paragraphs@[k as int], 0),
    decreases n,
{
    if k + 1 < n {
        lemma_cell_paras_fit(c, (n - 1) as nat, k);
    }
}

/// UTF-16 length and line count only grow along prefixes.
pub proof fn lemma_prefix_counts(s: Seq<char>, i: nat, j: nat)
    requires
        i <= j <= s.len(),
    ensures
        utf16_len(s.take(i as int)) <= utf16_len(s.take(j as int)),
        newlines(s.take(i as int)) <= newlines(s.take(j as int)),
    decreases j - i,
{
    if i < j {
        lemma_prefix_counts(s, i, (j - 1) as nat);
        assert(s.take(j as int).drop_last() =~= s.take(j - 1));
    }
}

fn utf16_units(c: char) -> (n: u32)
    ensures
        n == char_utf16(c),
{
    if (c as u32) >= 0x10000 { 2 } else { 1 }
}

fn push_lineseg(out: &mut String, textpos: u32, vertpos: u32)
    ensures
        final(out)@ == old(out)@ + lineseg_xml(textpos as nat, vertpos as nat),
{
    let mut s = string_of("<hp:lineseg textpos=\"");
    push_u64(&mut s, textpos as u64);
    push_str(&mut s, "\" vertpos=\"");
    push_u64(&mut s, vertpos as u64);
    push_str(&mut s, "\" vertsize=\"1000\" textheight=\"1000\" baseline=\"850\" spacing=\"600\" horzpos=\"0\" horzsize=\"");
    push_u64(&mut s, HORZ_SIZE as u64);
    push_str(&mut s, "\" flags=\"");
    push_u64(&mut s, LINE_FLAGS as u64);
    push_str(&mut s, "\"/>");
    assert(s@ == lineseg_xml(textpos as nat, vertpos as nat));
    push_str(out, s.as_str());
}

fn char_id(p: &Paragraph, k: usize) -> (id: u32)
    ensures
        id as nat == char_id_at(*p, k as nat),
{
    if k < p.char_shapes.len() { p.char_shapes[k].char_shape_id } else { 0 }
}

/// Closes the open run: appends it to `out` and empties `ctrl` and `t`.
fn emit_run(out: &mut String, ctrl: &mut String, t: &mut String, id: u32)
    ensures
        final(out)@ == old(out)@ + run_xml(id as nat, old(ctrl)@, old(t)@),
        final(ctrl)@.len() == 0,
        final(t)@.len() == 0,
{
    let mut s = string_of("<hp:run charPrIDRef=\"");
    push_u64(&mut s, id as u64);
    push_str(&mut s, "\">");
    push_str(&mut s, ctrl.as_str());
    if t.as_str().is_empty() {
        push_str(&mut s, "<hp:t/>");
    } else {
        let mut tt = string_of("<hp:t>");
        push_str(&mut tt, t.as_str());
        push_str(&mut tt, "</hp:t>");
        push_str(&mut s, tt.as_str());
    }
    push_str(&mut s, "</hp:run>");
    assert(s@ == run_xml(id as nat, old(ctrl)@, old(t)@));
    push_str(out, s.as_str());
    *ctrl = String::new();
    *t = String::new();
}

fn push_tab(t: &mut String, p: &Paragraph, k: usize, tab_w: u32)
    ensures
        final(t)@ == old(t)@ + tab_xml(*p, k as nat, tab_w as nat),
{
    let (w, leader, ttype): (u32, u32, u32) = if k < p.tab_extended.len() {
        let e = &p.tab_extended[k];
        (if e[0] > 0 { e[0] as u32 } else { tab_w }, e[1] as u32, e[2] as u32)
    } else {
        (tab_w, 0, 1)
    };
    let mut s = string_of("<hp:tab width=\"");
    push_u64(&mut s, w as u64);
    push_str(&mut s, "\" leader=\"");
    push_u64(&mut s, leader as u64);
    push_str(&mut s, "\" type=\"");
    push_u64(&mut s, ttype as u64);
    push_str(&mut s, "\"/>");
    assert(s@ == tab_xml(*p, k as nat, tab_w as nat));
    push_str(t, s.as_str());
}


/// Applies the character-shape boundaries reached at offset `pos`
/// (see `advance`) to the exec rendering state.
fn advance_shapes(p: &Paragraph, runs: &mut String, ctrl: &mut String, t: &mut String, shape: &mut usize, pos: u32, Ghost(st0): Ghost<RunsState>)
    requires
        st0.out == old(runs)@,
        st0.ctrl == old(ctrl)@,
        st0.t == old(t)@,
        st0.shape == *old(shape) as nat,
        st0.pos == pos as nat,
    ensures
        advance(*p, st0) == (RunsState {
            out: final(runs)@,
            ctrl: final(ctrl)@,
            t: final(t)@,
            shape: *final(shape) as nat,
            ..st0
        }),
{
    while p.char_shapes.len() > 0 && *shape < p.char_shapes.len() - 1 && pos >= p.char_shapes[*shape + 1].start_pos
        invariant
            advance(*p, st0) == advance(*p, RunsState { out: runs@, ctrl: ctrl@, t: t@, shape: *shape as nat, ..st0 }),
            st0.pos == pos as nat,
        decreases p.char_shapes@.len() - *shape,
    {
        let ghost cur = RunsState { out: runs@, ctrl: ctrl@, t: t@, shape: *shape as nat, ..st0 };
        if !ctrl.as_str().is_empty() || !t.as_str().is_empty() {
            let id = char_id(p, *shape);
            emit_run(runs, ctrl, t, id);
            assert(ctrl@ =~= Seq::<char>::empty());
            assert(t@ =~= Seq::<char>::empty());
        }
        *shape = *shape + 1;
        assert(advance(*p, cur) == advance(*p, RunsState { out: runs@, ctrl: ctrl@, t: t@, shape: *shape as nat, ..st0 }));
    }
}

/// Appends the XML of the `k`-th control of `p` (nothing when there is none).
fn write_control(out: &mut String, p: &Paragraph, k: usize, tab_w: u32)
    requires
        ctrls_fit(*p, p.controls@.len()),
    ensures
        final(out)@ == old(out)@ + ctrl_xml_at(*p, k as nat, tab_w as nat),
    decreases *p, 0nat,
{
    if k < p.controls.len() {
        proof {
            lemma_ctrls_fit(*p, p.controls@.len(), k as nat);
        }
        match &p.controls[k] {
            Control::Table(tbl) => {
                write_table(out, tbl, tab_w);
            },
            Control::Picture(pic) => {
                write_picture(out, pic);
            },
            Control::Other => {
                assert(out@ =~= old(out)@ + ctrl_xml_at(*p, k as nat, tab_w as nat));
            },
        }
    } else {
        assert(out@ =~= old(out)@ + ctrl_xml_at(*p, k as nat, tab_w as nat));
    }
}


/// `render_runs`, kept folded where paragraphs are only passed along.
#[verifier::opaque]
pub open spec fn para_render(p: Paragraph, vert_start: nat, tab_w: nat) -> RunsResult {
    render_runs(p, vert_start, tab_w)
}

/// Renders one paragraph that starts at vertical position `vert_start`:
/// returns its runs (split at character-shape boundaries, inline controls
/// before the text of their run), its line segments (one per line), and
/// the vertical position where the next paragraph starts.
pub fn render_paragraph_runs(para: &Paragraph, vert_start: u32, default_tab_width: u32) -> (r: (String, String, u32))
    requires
        para_fits(*para, vert_start as nat),
    ensures
        r.0@ == render_runs(*para, vert_start as nat, default_tab_width as nat).runs,
        r.1@ == render_runs(*para, vert_start as nat, default_tab_width as nat).segs,
        r.2 as nat == render_runs(*para, vert_start as nat, default_tab_width as nat).vert_end,
    decreases *para, 1nat,
{
    let ghost p = *para;
    let ghost vs = vert_start as nat;
    let ghost tw = default_tab_width as nat;
    let ghost text = para.text@;
    let mut runs = String::new();
    let mut ctrl = String::new();
    let mut t = String::new();
    let mut pos: u32 = 0;
    let mut lines: u32 = 0;
    let mut tabs: usize = 0;
    let mut ctrl_idx: usize = 0;
    let mut shape: usize = 0;
    let mut segs = String::new();
    push_lineseg(&mut segs, 0, vert_start);
    proof {
        assert(segs@ =~= lineseg_xml(0, vs));
        assert(runs@ =~= Seq::<char>::empty());
        assert(ctrl@ =~= Seq::<char>::empty());
        assert(t@ =~= Seq::<char>::empty());
        assert(text.take(0) =~= Seq::<char>::empty());
        lemma_prefix_counts(text, 0, text.len());
        assert(text.take(text.len() as int) =~= text);
    }
    for c in it: para.text.chars()
        invariant
            it.seq() == text,
            text == para.text@,
            p == *para,
            vs == vert_start as nat,
            tw == default_tab_width as nat,
            para_fits(p, vs),
            utf16_len(text) <= u32::MAX,
            vs + (newlines(text) + 1) * (VERT_STEP as nat) <= u32::MAX,
            runs_fold(p, it.index() as nat, vs, tw) == (RunsState {
                out: runs@,
                ctrl: ctrl@,
                t: t@,
                pos: pos as nat,
                lines: lines as nat,
                tabs: tabs as nat,
                ctrl_idx: ctrl_idx as nat,
                shape: shape as nat,
                segs: segs@,
            }),
            pos as nat <= utf16_len(text.take(it.index() as int)),
            lines as nat == newlines(text.take(it.index() as int)),
            ctrl_idx <= pos,
            tabs <= pos,
    {
        let ghost i = it.index() as nat;
        let ghost st0 = RunsState {
            out: runs@,
            ctrl: ctrl@,
            t: t@,
            pos: pos as nat,
            lines: lines as nat,
            tabs: tabs as nat,
            ctrl_idx: ctrl_idx as nat,
            shape: shape as nat,
            segs: segs@,
        };
        proof {
            assert(text.take(i + 1 as int).drop_last() =~= text.take(i as int));
            assert(text[i as int] == c);
            lemma_prefix_counts(text, i + 1, text.len());
            assert(text.take(text.len() as int) =~= text);
        }
        advance_shapes(para, &mut runs, &mut ctrl, &mut t, &mut shape, pos, Ghost(st0));
        let ghost adv = advance(p, st0);
        assert(runs_fold(p, i + 1, vs, tw) == runs_step(p, st0, c, vs, tw));
        if c == '\t' {
            push_tab(&mut t, para, tabs, default_tab_width);
            tabs = tabs + 1;
            pos = pos + 1;
        } else if c == '\n' {
            push_str(&mut t, "<hp:lineBreak/>");
            pos = pos + 1;
            lines = lines + 1;
            assert((lines as nat) * (VERT_STEP as nat) <= (newlines(text) + 1) * (VERT_STEP as nat)) by (nonlinear_arith)
                requires
                    lines as nat <= newlines(text) + 1,
            ;
            push_lineseg(&mut segs, pos, vert_start + lines * VERT_STEP);
        } else if c == '\u{2}' {
            if !t.as_str().is_empty() {
                let id = char_id(para, shape);
                emit_run(&mut runs, &mut ctrl, &mut t, id);
                assert(ctrl@ =~= Seq::<char>::empty());
                assert(t@ =~= Seq::<char>::empty());
            }
            write_control(&mut ctrl, para, ctrl_idx, default_tab_width);
            ctrl_idx = ctrl_idx + 1;
            pos = pos + 1;
        } else if (c as u32) < 0x20 {
        } else {
            push_escaped_char(&mut t, c);
            pos = pos + utf16_units(c);
        }
        assert(runs_fold(p, i + 1, vs, tw) == (RunsState {
            out: runs@,
            ctrl: ctrl@,
            t: t@,
            pos: pos as nat,
            lines: lines as nat,
            tabs: tabs as nat,
            ctrl_idx: ctrl_idx as nat,
            shape: shape as nat,
            segs: segs@,
        }));
    }
    let ghost folded = runs_fold(p, text.len(), vs, tw);
    let id = char_id(para, shape);
    emit_run(&mut runs, &mut ctrl, &mut t, id);
    let ghost closed = emit(p, folded);
    assert(ctrl@ =~= closed.ctrl);
    assert(t@ =~= closed.t);
    let n = para.controls.len();
    let mut k: usize = ctrl_idx;
    while k < n
        invariant
            n == para.controls@.len(),
            p == *para,
            tw == default_tab_width as nat,
            para_fits(p, vs),
            runs_trailing(p, closed, closed.ctrl_idx, tw) == runs_trailing(p, RunsState {
                out: runs@,
                ctrl: ctrl@,
                t: t@,
                ..closed
            }, k as nat, tw),
            ctrl@.len() == 0,
            t@.len() == 0,
            shape as nat == closed.shape,
        decreases n - k,
    {
        let ghost cur = RunsState { out: runs@, ctrl: ctrl@, t: t@, ..closed };
        match &para.controls[k] {
            Control::Other => {},
            _ => {
                write_control(&mut ctrl, para, k, default_tab_width);
                let id = char_id(para, shape);
                emit_run(&mut runs, &mut ctrl, &mut t, id);
                assert(ctrl@ =~= Seq::<char>::empty());
                assert(t@ =~= Seq::<char>::empty());
            },
        }
        k = k + 1;
        assert(runs_trailing(p, cur, (k - 1) as nat, tw) == runs_trailing(p, RunsState {
            out: runs@,
            ctrl: ctrl@,
            t: t@,
            ..closed
        }, k as nat, tw));
    }
    assert((lines as nat + 1) * (VERT_STEP as nat) <= (newlines(text) + 1) * (VERT_STEP as nat)) by (nonlinear_arith)
        requires
            lines as nat <= newlines(text),
    ;
    let vert_end = vert_start + (lines + 1) * VERT_STEP;
    (runs, segs, vert_end)
}


/// Namespace declarations of `<hs:sec>`.
pub const SEC_NS: &'static str = "xmlns:ha=\"http://www.hancom.co.kr/hwpml/2011/app\" xmlns:hp=\"http://www.hancom.co.kr/hwpml/2011/paragraph\" xmlns:hp10=\"http://www.hancom.co.kr/hwpml/2016/paragraph\" xmlns:hs=\"http://www.hancom.co.kr/hwpml/2011/section\" xmlns:hc=\"http://www.hancom.co.kr/hwpml/2011/core\" xmlns:hh=\"http://www.hancom.co.kr/hwpml/2011/head\" xmlns:hhs=\"http://www.hancom.co.kr/hwpml/2011/history\" xmlns:hm=\"http://www.hancom.co.kr/hwpml/2011/master-page\" xmlns:hpf=\"http://www.hancom.co.kr/schema/2011/hpf\" xmlns:dc=\"http://purl.org/dc/elements/1.1/\" xmlns:opf=\"http://www.idpf.org/2007/opf/\" xmlns:ooxmlchart=\"http://www.hancom.co.kr/hwpml/2016/ooxmlchart\" xmlns:epub=\"http://www.idpf.org/2007/ops\" xmlns:config=\"urn:oasis:names:tc:opendocument:xmlns:config:1.0\"";

/// Start of `secPr`, up to the tab stop value.
pub const SECPR_OPEN: &'static str = "<hp:secPr id=\"\" textDirection=\"HORIZONTAL\" spaceColumns=\"1134\" tabStop=\"";

/// `secPr` attributes after the tab stop and its leading children.
pub const SECPR_HEAD: &'static str = "\" tabStopVal=\"4000\" tabStopUnit=\"HWPUNIT\" outlineShapeIDRef=\"1\" memoShapeIDRef=\"0\" textVerticalWidthHead=\"0\" masterPageCnt=\"0\"><hp:grid lineGrid=\"0\" charGrid=\"0\" wonggojiFormat=\"0\"/><hp:startNum pageStartsOn=\"BOTH\" page=\"0\" pic=\"0\" tbl=\"0\" equation=\"0\"/><hp:visibility hideFirstHeader=\"0\" hideFirstFooter=\"0\" hideFirstMasterPage=\"0\" border=\"SHOW_ALL\" fill=\"SHOW_ALL\" hideFirstPageNum=\"0\" hideFirstEmptyLine=\"0\" showLineNumber=\"0\"/><hp:lineNumberShape restartType=\"0\" countBy=\"0\" distance=\"0\" startNumber=\"0\"/>";

/// Note properties, page border fill and the end of `secPr`, then the
/// column control that closes the section-definition run.
pub const SECPR_TAIL: &'static str = "<hp:footNotePr><hp:autoNumFormat type=\"DIGIT\" userChar=\"\" prefixChar=\"\" suffixChar=\")\" supscript=\"0\"/><hp:noteLine length=\"-1\" type=\"SOLID\" width=\"0.12 mm\" color=\"#000000\"/><hp:noteSpacing betweenNotes=\"283\" belowLine=\"567\" aboveLine=\"850\"/><hp:numbering type=\"CONTINUOUS\" newNum=\"1\"/><hp:placement place=\"EACH_COLUMN\" beneathText=\"0\"/></hp:footNotePr><hp:endNotePr><hp:autoNumFormat type=\"DIGIT\" userChar=\"\" prefixChar=\"\" suffixChar=\")\" supscript=\"0\"/><hp:noteLine length=\"14692344\" type=\"SOLID\" width=\"0.12 mm\" color=\"#000000\"/><hp:noteSpacing betweenNotes=\"0\" belowLine=\"567\" aboveLine=\"850\"/><hp:numbering type=\"CONTINUOUS\" newNum=\"1\"/><hp:placement place=\"END_OF_DOCUMENT\" beneathText=\"0\"/></hp:endNotePr><hp:pageBorderFill type=\"BOTH\" borderFillIDRef=\"1\" textBorder=\"PAPER\" headerInside=\"0\" footerInside=\"0\" fillArea=\"PAPER\"><hp:offset left=\"1417\" right=\"1417\" top=\"1417\" bottom=\"1417\"/></hp:pageBorderFill></hp:secPr><hp:ctrl><hp:colPr id=\"\" type=\"NEWSPAPER\" layout=\"LEFT\" colCount=\"1\" sameSz=\"1\" sameGap=\"0\"/></hp:ctrl></hp:run>";

/// A number, or the given default text when the number is zero.
pub open spec fn num_or(n: u32, default: Seq<char>) -> Seq<char> {
    if n > 0 { dec_nat(n as nat) } else { default }
}

/// The `<hp:pagePr>` element: the page definition's size, orientation,
/// binding and margins; a zero size or margin keeps the A4 default
/// (59528 x 84186, header/footer 4252, left/right 8504, top 5668, bottom 4252).
pub open spec fn page_pr_xml(pd: PageDef) -> Seq<char> {
    "<hp:pagePr landscape=\""@ + (if pd.landscape { "WIDELY"@ } else { "NARROW"@ })
        + "\" width=\""@ + num_or(pd.width, "59528"@) + "\" height=\""@ + num_or(pd.height, "84186"@)
        + "\" gutterType=\""@ + (if pd.binding == BindingMethod::TopFlip { "TOP_ONLY"@ } else { "LEFT_ONLY"@ })
        + "\">"@
        + "<hp:margin header=\""@
        + (if pd.margin_header > 0 { dec_nat(pd.margin_header as nat) } else { "4252"@ })
        + "\" footer=\""@
        + (if pd.margin_header > 0 { dec_nat(pd.margin_footer as nat) } else { "4252"@ })
        + "\" gutter=\""@ + num_or(pd.margin_gutter, "0"@)
        + "\" left=\""@ + (if pd.margin_left > 0 { dec_nat(pd.margin_left as nat) } else { "8504"@ })
        + "\" right=\""@ + (if pd.margin_left > 0 { dec_nat(pd.margin_right as nat) } else { "8504"@ })
        + "\" top=\""@ + (if pd.margin_top > 0 { dec_nat(pd.margin_top as nat) } else { "5668"@ })
        + "\" bottom=\""@ + (if pd.margin_top > 0 { dec_nat(pd.margin_bottom as nat) } else { "4252"@ })
        + "\"/>"@
        + "</hp:pagePr>"@
}

/// What occurs in the page definition element occurs in the section text.
proof fn lemma_section_holds_page_pr(sec: Section, t: Seq<char>)
    requires
        contains_text(page_pr_xml(sec.section_def.page_def), t),
    ensures
        contains_text(section_xml(sec), t),
{
    let pp = page_pr_xml(sec.section_def.page_def);
    let pre = "<hp:run charPrIDRef=\"0\">"@ + SECPR_OPEN@ + num_or(sec.section_def.default_tab_spacing, "8000"@)
        + SECPR_HEAD@;
    lemma_contains_extend(pp, t, pre, SECPR_TAIL@);
    assert(secpr_run_xml(sec) =~= pre + pp + SECPR_TAIL@);
    let sp = secpr_run_xml(sec);
    let (a, b) = if sec.paragraphs@.len() > 0 {
        (crate::table::p_open_xml(sec.paragraphs@[0]), section_para(sec, 0).runs
            + "<hp:linesegarray>"@ + section_para(sec, 0).segs + "</hp:linesegarray></hp:p>"@)
    } else {
        ("<hp:p id=\"0\" paraPrIDRef=\"0\" styleIDRef=\"0\" pageBreak=\"0\" columnBreak=\"0\" merged=\"0\">"@,
            run_xml(0, Seq::empty(), Seq::empty()) + "<hp:linesegarray>"@
            + lineseg_xml(0, 0) + "</hp:linesegarray></hp:p>"@)
    };
    lemma_contains_extend(sp, t, a, b);
    assert(first_para_xml(sec) =~= a + sp + b);
    let fp = first_para_xml(sec);
    let h = "<?xml version=\"1.0\" encoding=\"UTF-8\" standalone=\"yes\" ?>"@ + "<hs:sec "@ + SEC_NS@ + ">"@;
    let tail = extra_paras_xml(sec, sec.paragraphs@.len()) + "</hs:sec>"@;
    lemma_contains_extend(fp, t, h, tail);
    reveal(section_xml);
    assert(section_xml(sec) =~= h + fp + tail);
}

/// The page margins of a section text carry the page definition's fields
/// of the same names: when the left margin is set, `left` and `right` are
/// the left and right margins; when the top margin is set, `top` and
/// `bottom` are the top and bottom margins; when the header margin is set,
/// `header` and `footer` are the header and footer margins; when the
/// gutter is set, `gutter` is the gutter.
pub proof fn law_page_margins(sec: Section)
    ensures ({
        let pd = sec.section_def.page_def;
        &&& pd.margin_left > 0 ==> contains_text(section_xml(sec),
            "\" left=\""@ + dec_nat(pd.margin_left as nat) + "\" right=\""@ + dec_nat(pd.margin_right as nat) + "\" top=\""@)
        &&& pd.margin_top > 0 ==> contains_text(section_xml(sec),
            "\" top=\""@ + dec_nat(pd.margin_top as nat) + "\" bottom=\""@ + dec_nat(pd.margin_bottom as nat) + "\"/>"@)
        &&& pd.margin_header > 0 ==> contains_text(section_xml(sec),
            "<hp:margin header=\""@ + dec_nat(pd.margin_header as nat) + "\" footer=\""@
                + dec_nat(pd.margin_footer as nat) + "\" gutter=\""@)
        &&& pd.margin_gutter > 0 ==> contains_text(section_xml(sec),
            "\" gutter=\""@ + dec_nat(pd.margin_gutter as nat) + "\" left=\""@)
    }),
{
    let pd = sec.section_def.page_def;
    lemma_page_pr_pieces(pd);
    lemma_section_holds_page_pr(sec, margin_hf_text(pd));
    lemma_section_holds_page_pr(sec, margin_gutter_text(pd));
    lemma_section_holds_page_pr(sec, margin_lr_text(pd));
    lemma_section_holds_page_pr(sec, margin_tb_text(pd));
}

spec fn page_head_text(pd: PageDef) -> Seq<char> {
    "<hp:pagePr landscape=\""@ + (if pd.landscape { "WIDELY"@ } else { "NARROW"@ })
        + "\" width=\""@ + num_or(pd.width, "59528"@) + "\" height=\""@ + num_or(pd.height, "84186"@)
        + "\" gutterType=\""@ + (if pd.binding == BindingMethod::TopFlip { "TOP_ONLY"@ } else { "LEFT_ONLY"@ })
        + "\">"@
}

spec fn hd_text(pd: PageDef) -> Seq<char> {
    if pd.margin_header > 0 { dec_nat(pd.margin_header as nat) } else { "4252"@ }
}

spec fn ft_text(pd: PageDef) -> Seq<char> {
    if pd.margin_header > 0 { dec_nat(pd.margin_footer as nat) } else { "4252"@ }
}

spec fn le_text(pd: PageDef) -> Seq<char> {
    if pd.margin_left > 0 { dec_nat(pd.margin_left as nat) } else { "8504"@ }
}

spec fn ri_text(pd: PageDef) -> Seq<char> {
    if pd.margin_left > 0 { dec_nat(pd.margin_right as nat) } else { "8504"@ }
}

spec fn to_text(pd: PageDef) -> Seq<char> {
    if pd.margin_top > 0 { dec_nat(pd.margin_top as nat) } else { "5668"@ }
}

spec fn bo_text(pd: PageDef) -> Seq<char> {
    if pd.margin_top > 0 { dec_nat(pd.margin_bottom as nat) } else { "4252"@ }
}

spec fn margin_hf_text(pd: PageDef) -> Seq<char> {
    "<hp:margin header=\""@ + hd_text(pd) + "\" footer=\""@ + ft_text(pd) + "\" gutter=\""@
}

spec fn margin_gutter_text(pd: PageDef) -> Seq<char> {
    "\" gutter=\""@ + num_or(pd.margin_gutter, "0"@) + "\" left=\""@
}

spec fn margin_lr_text(pd: PageDef) -> Seq<char> {
    "\" left=\""@ + le_text(pd) + "\" right=\""@ + ri_text(pd) + "\" top=\""@
}

spec fn margin_tb_text(pd: PageDef) -> Seq<char> {
    "\" top=\""@ + to_text(pd) + "\" bottom=\""@ + bo_text(pd) + "\"/>"@
}

proof fn lemma_page_pr_pieces(pd: PageDef)
    ensures
        contains_text(page_pr_xml(pd), margin_hf_text(pd)),
        contains_text(page_pr_xml(pd), margin_gutter_text(pd)),
        contains_text(page_pr_xml(pd), margin_lr_text(pd)),
        contains_text(page_pr_xml(pd), margin_tb_text(pd)),
{
    lemma_page_pr_hf(pd);
    lemma_page_pr_gutter(pd);
    lemma_page_pr_lr(pd);
    lemma_page_pr_tb(pd);
}

spec fn page_tail_after_gutter(pd: PageDef) -> Seq<char> {
    "\" left=\""@ + le_text(pd) + "\" right=\""@ + ri_text(pd) + "\" top=\""@ + to_text(pd)
        + "\" bottom=\""@ + bo_text(pd) + "\"/>"@ + "</hp:pagePr>"@
}

proof fn lemma_page_pr_split(pd: PageDef)
    ensures
        page_pr_xml(pd) == page_head_text(pd) + "<hp:margin header=\""@ + hd_text(pd) + "\" footer=\""@
            + ft_text(pd) + "\" gutter=\""@ + num_or(pd.margin_gutter, "0"@) + page_tail_after_gutter(pd),
{
    let x = page_head_text(pd) + "<hp:margin header=\""@ + hd_text(pd) + "\" footer=\""@
        + ft_text(pd) + "\" gutter=\""@ + num_or(pd.margin_gutter, "0"@);
    assert(page_pr_xml(pd) =~= x + page_tail_after_gutter(pd));
}

#[verifier::rlimit(40)]
proof fn lemma_page_pr_hf(pd: PageDef)
    ensures
        contains_text(page_pr_xml(pd), margin_hf_text(pd)),
{
    lemma_page_pr_split(pd);
    let s0 = page_head_text(pd);
    let t1 = margin_hf_text(pd);
    let b1 = num_or(pd.margin_gutter, "0"@) + page_tail_after_gutter(pd);
    assert(page_pr_xml(pd) =~= s0 + t1 + b1);
    lemma_contains_mid(s0, t1, b1);
}

#[verifier::rlimit(40)]
proof fn lemma_page_pr_gutter(pd: PageDef)
    ensures
        contains_text(page_pr_xml(pd), margin_gutter_text(pd)),
{
    lemma_page_pr_split(pd);
    let a2 = page_head_text(pd) + "<hp:margin header=\""@ + hd_text(pd) + "\" footer=\""@ + ft_text(pd);
    let t2 = margin_gutter_text(pd);
    let b2 = le_text(pd) + "\" right=\""@ + ri_text(pd) + "\" top=\""@ + to_text(pd) + "\" bottom=\""@
        + bo_text(pd) + "\"/>"@ + "</hp:pagePr>"@;
    assert(page_tail_after_gutter(pd) =~= "\" left=\""@ + b2);
    assert(page_pr_xml(pd) =~= a2 + t2 + b2);
    lemma_contains_mid(a2, t2, b2);
}

#[verifier::rlimit(40)]
proof fn lemma_page_pr_lr(pd: PageDef)
    ensures
        contains_text(page_pr_xml(pd), margin_lr_text(pd)),
{
    lemma_page_pr_split(pd);
    let a3 = page_head_text(pd) + "<hp:margin header=\""@ + hd_text(pd) + "\" footer=\""@
        + ft_text(pd) + "\" gutter=\""@ + num_or(pd.margin_gutter, "0"@);
    let t3 = margin_lr_text(pd);
    let b3 = to_text(pd) + "\" bottom=\""@ + bo_text(pd) + "\"/>"@ + "</hp:pagePr>"@;
    assert(page_tail_after_gutter(pd) =~= t3 + b3);
    assert(page_pr_xml(pd) =~= a3 + t3 + b3);
    lemma_contains_mid(a3, t3, b3);
}

#[verifier::rlimit(40)]
proof fn lemma_page_pr_tb(pd: PageDef)
    ensures
        contains_text(page_pr_xml(pd), margin_tb_text(pd)),
{
    lemma_page_pr_split(pd);
    let a3 = page_head_text(pd) + "<hp:margin header=\""@ + hd_text(pd) + "\" footer=\""@
        + ft_text(pd) + "\" gutter=\""@ + num_or(pd.margin_gutter, "0"@);
    let m = "\" left=\""@ + le_text(pd) + "\" right=\""@ + ri_text(pd);
    let t4 = margin_tb_text(pd);
    let end = "</hp:pagePr>"@;
    assert(page_tail_after_gutter(pd) =~= m + t4 + end);
    assert(page_pr_xml(pd) =~= (a3 + m) + t4 + end);
    lemma_contains_mid(a3 + m, t4, end);
}

proof fn lemma_page_head_in_page_pr(pd: PageDef, t: Seq<char>)
    requires
        contains_text(page_head_text(pd), t),
    ensures
        contains_text(page_pr_xml(pd), t),
{
    lemma_page_pr_split(pd);
    let h = page_head_text(pd);
    let m1 = "<hp:margin header=\""@;
    let m2 = "\" footer=\""@;
    let m3 = "\" gutter=\""@;
    let gu = num_or(pd.margin_gutter, "0"@);
    lemma_contains_append(h, t, m1);
    lemma_contains_append(h + m1, t, hd_text(pd));
    lemma_contains_append(h + m1 + hd_text(pd), t, m2);
    lemma_contains_append(h + m1 + hd_text(pd) + m2, t, ft_text(pd));
    lemma_contains_append(h + m1 + hd_text(pd) + m2 + ft_text(pd), t, m3);
    lemma_contains_append(h + m1 + hd_text(pd) + m2 + ft_text(pd) + m3, t, gu);
    lemma_contains_append(h + m1 + hd_text(pd) + m2 + ft_text(pd) + m3 + gu, t, page_tail_after_gutter(pd));
}

/// A section's page definition element carries the page's orientation as
/// `landscape` (`WIDELY` for landscape, `NARROW` otherwise), and, when
/// set, its width as `width` and its height as `height`.
pub proof fn law_page_size(sec: Section)
    ensures ({
        let pd = sec.section_def.page_def;
        &&& contains_text(section_xml(sec), "<hp:pagePr landscape=\""@
            + (if pd.landscape { "WIDELY"@ } else { "NARROW"@ }) + "\" width=\""@)
        &&& pd.width > 0 ==> contains_text(section_xml(sec),
            "\" width=\""@ + dec_nat(pd.width as nat) + "\" height=\""@)
        &&& pd.height > 0 ==> contains_text(section_xml(sec),
            "\" height=\""@ + dec_nat(pd.height as nat) + "\" gutterType=\""@)
    }),
{
    let pd = sec.section_def.page_def;
    let l0 = "<hp:pagePr landscape=\""@;
    let l = if pd.landscape { "WIDELY"@ } else { "NARROW"@ };
    let wl = "\" width=\""@;
    let w = num_or(pd.width, "59528"@);
    let hl = "\" height=\""@;
    let h = num_or(pd.height, "84186"@);
    let gl = "\" gutterType=\""@;
    let g = if pd.binding == BindingMethod::TopFlip { "TOP_ONLY"@ } else { "LEFT_ONLY"@ };
    let cl = "\">"@;
    let t0 = l0 + l + wl;
    let t1 = wl + w + hl;
    let t2 = hl + h + gl;
    lemma_contains_last3(Seq::empty(), l0, l, wl);
    assert(Seq::<char>::empty() + l0 =~= l0);
    lemma_contains_last3(l0 + l, wl, w, hl);
    lemma_contains_last3(l0 + l + wl + w, hl, h, gl);
    let x3 = l0 + l + wl;
    lemma_contains_append(x3, t0, w);
    lemma_contains_append(x3 + w, t0, hl);
    lemma_contains_append(x3 + w + hl, t0, h);
    lemma_contains_append(x3 + w + hl, t1, h);
    lemma_contains_append(x3 + w + hl + h, t0, gl);
    lemma_contains_append(x3 + w + hl + h, t1, gl);
    let x7 = x3 + w + hl + h + gl;
    lemma_contains_append(x7, t0, g);
    lemma_contains_append(x7, t1, g);
    lemma_contains_append(x7, t2, g);
    lemma_contains_append(x7 + g, t0, cl);
    lemma_contains_append(x7 + g, t1, cl);
    lemma_contains_append(x7 + g, t2, cl);
    assert(page_head_text(pd) == x7 + g + cl);
    lemma_page_head_in_page_pr(pd, t0);
    lemma_page_head_in_page_pr(pd, t1);
    lemma_page_head_in_page_pr(pd, t2);
    lemma_section_holds_page_pr(sec, t0);
    lemma_section_holds_page_pr(sec, t1);
    lemma_section_holds_page_pr(sec, t2);
}

fn push_num_or(s: &mut String, n: u32, default: &str)
    ensures
        final(s)@ == old(s)@ + num_or(n, default@),
{
    if n > 0 {
        push_u64(s, n as u64);
    } else {
        push_str(s, default);
    }
}

/// Writes the page definition (`<hp:pagePr>` with its margins).
fn write_page_def(out: &mut String, pd: &PageDef)
    ensures
        final(out)@ == old(out)@ + page_pr_xml(*pd),
{
    let mut s = string_of("<hp:pagePr landscape=\"");
    push_str(&mut s, if pd.landscape { "WIDELY" } else { "NARROW" });
    push_str(&mut s, "\" width=\"");
    push_num_or(&mut s, pd.width, "59528");
    push_str(&mut s, "\" height=\"");
    push_num_or(&mut s, pd.height, "84186");
    push_str(&mut s, "\" gutterType=\"");
    let gutter_type = match pd.binding {
        BindingMethod::TopFlip => "TOP_ONLY",
        _ => "LEFT_ONLY",
    };
    push_str(&mut s, gutter_type);
    push_str(&mut s, "\">");
    push_str(&mut s, "<hp:margin header=\"");
    if pd.margin_header > 0 { push_u64(&mut s, pd.margin_header as u64); } else { push_str(&mut s, "4252"); }
    push_str(&mut s, "\" footer=\"");
    if pd.margin_header > 0 { push_u64(&mut s, pd.margin_footer as u64); } else { push_str(&mut s, "4252"); }
    push_str(&mut s, "\" gutter=\"");
    push_num_or(&mut s, pd.margin_gutter, "0");
    push_str(&mut s, "\" left=\"");
    if pd.margin_left > 0 { push_u64(&mut s, pd.margin_left as u64); } else { push_str(&mut s, "8504"); }
    push_str(&mut s, "\" right=\"");
    if pd.margin_left > 0 { push_u64(&mut s, pd.margin_right as u64); } else { push_str(&mut s, "8504"); }
    push_str(&mut s, "\" top=\"");
    if pd.margin_top > 0 { push_u64(&mut s, pd.margin_top as u64); } else { push_str(&mut s, "5668"); }
    push_str(&mut s, "\" bottom=\"");
    if pd.margin_top > 0 { push_u64(&mut s, pd.margin_bottom as u64); } else { push_str(&mut s, "4252"); }
    push_str(&mut s, "\"/>");
    push_str(&mut s, "</hp:pagePr>");
    assert(s@ == page_pr_xml(*pd));
    push_str(out, s.as_str());
}


/// The section's tab width: its default tab spacing, or 8000 when that is 0.
pub open spec fn section_tab_width(sec: Section) -> nat {
    if sec.section_def.default_tab_spacing > 0 {
        sec.section_def.default_tab_spacing as nat
    } else {
        TAB_FALLBACK_WIDTH as nat
    }
}

/// The run that holds the section definition (`secPr`) and the column control.
pub open spec fn secpr_run_xml(sec: Section) -> Seq<char> {
    "<hp:run charPrIDRef=\"0\">"@ + SECPR_OPEN@ + num_or(sec.section_def.default_tab_spacing, "8000"@) + SECPR_HEAD@
        + page_pr_xml(sec.section_def.page_def) + SECPR_TAIL@
}

/// Vertical position where paragraph `i` of a section starts: 0 for the
/// first, the end of the previous one for the others.
pub open spec fn vert_at(sec: Section, i: nat) -> nat
    decreases i,
{
    if i == 0 {
        0
    } else {
        para_render(sec.paragraphs@[i - 1], vert_at(sec, (i - 1) as nat), section_tab_width(sec)).vert_end
    }
}

/// Lines taken by the first `i` paragraphs: for each, its soft line
/// breaks plus one.
pub open spec fn lines_before(ps: Seq<Paragraph>, i: nat) -> nat
    decreases i,
{
    if i == 0 || i > ps.len() {
        0
    } else {
        lines_before(ps, (i - 1) as nat) + newlines(ps[i - 1].text@) + 1
    }
}

/// Paragraph `i` of a section starts 1600 below the top for every line of
/// the paragraphs before it.
pub proof fn law_paragraph_start(sec: Section, i: nat)
    requires
        i <= sec.paragraphs@.len(),
    ensures
        vert_at(sec, i) == lines_before(sec.paragraphs@, i) * (VERT_STEP as nat),
    decreases i,
{
    if i > 0 {
        law_paragraph_start(sec, (i - 1) as nat);
        reveal(para_render);
        law_paragraph_advance(sec.paragraphs@[i - 1], vert_at(sec, (i - 1) as nat), section_tab_width(sec));
    }
}

/// Every paragraph of the section keeps its offsets and positions within
/// `u32` (see `para_fits`).
pub open spec fn section_fits(sec: Section) -> bool {
    forall|i: nat| i < sec.paragraphs@.len() ==> #[trigger] para_fits(sec.paragraphs@[i as int], vert_at(sec, i))
}

proof fn lemma_section_fits(sec: Section, i: nat)
    requires
        section_fits(sec),
        i < sec.paragraphs@.len(),
    ensures
        para_fits(sec.paragraphs@[i as int], vert_at(sec, i)),
{
}

/// Paragraph `i` of a section, rendered at its vertical position.
pub open spec fn section_para(sec: Section, i: nat) -> RunsResult {
    para_render(sec.paragraphs@[i as int], vert_at(sec, i), section_tab_width(sec))
}

/// Paragraph `i` (not the first) of a section as its own `<hp:p>`.
pub open spec fn extra_para_xml(sec: Section, i: nat) -> Seq<char> {
    crate::table::p_open_xml(sec.paragraphs@[i as int]) + section_para(sec, i).runs + "<hp:linesegarray>"@
        + section_para(sec, i).segs + "</hp:linesegarray></hp:p>"@
}

/// Paragraphs `1..n` of a section.
pub open spec fn extra_paras_xml(sec: Section, n: nat) -> Seq<char>
    decreases n,
{
    if n <= 1 {
        Seq::empty()
    } else {
        extra_paras_xml(sec, (n - 1) as nat) + extra_para_xml(sec, (n - 1) as nat)
    }
}

/// The first `<hp:p>` of a section: it carries the section-definition run;
/// a section without paragraphs gets one empty paragraph.
pub open spec fn first_para_xml(sec: Section) -> Seq<char> {
    if sec.paragraphs@.len() > 0 {
        crate::table::p_open_xml(sec.paragraphs@[0]) + secpr_run_xml(sec) + section_para(sec, 0).runs
            + "<hp:linesegarray>"@ + section_para(sec, 0).segs + "</hp:linesegarray></hp:p>"@
    } else {
        "<hp:p id=\"0\" paraPrIDRef=\"0\" styleIDRef=\"0\" pageBreak=\"0\" columnBreak=\"0\" merged=\"0\">"@
            + secpr_run_xml(sec) + run_xml(0, Seq::empty(), Seq::empty()) + "<hp:linesegarray>"@
            + lineseg_xml(0, 0) + "</hp:linesegarray></hp:p>"@
    }
}

/// The whole `section{N}.xml` text.
#[verifier::opaque]
pub open spec fn section_xml(sec: Section) -> Seq<char> {
    "<?xml version=\"1.0\" encoding=\"UTF-8\" standalone=\"yes\" ?>"@ + "<hs:sec "@ + SEC_NS@ + ">"@
        + first_para_xml(sec) + extra_paras_xml(sec, sec.paragraphs@.len()) + "</hs:sec>"@
}

fn write_p_open(out: &mut String, p: &Paragraph)
    ensures
        final(out)@ == old(out)@ + crate::table::p_open_xml(*p),
{
    let mut s = string_of("<hp:p id=\"0\" paraPrIDRef=\"");
    push_u64(&mut s, p.para_shape_id as u64);
    push_str(&mut s, "\" styleIDRef=\"");
    push_u64(&mut s, p.style_id as u64);
    push_str(&mut s, "\" pageBreak=\"0\" columnBreak=\"0\" merged=\"0\">");
    assert(s@ == crate::table::p_open_xml(*p));
    push_str(out, s.as_str());
}

fn write_secpr_run(out: &mut String, section: &Section)
    ensures
        final(out)@ == old(out)@ + secpr_run_xml(*section),
{
    let mut secpr = string_of("<hp:run charPrIDRef=\"0\">");
    push_str(&mut secpr, SECPR_OPEN);
    push_num_or(&mut secpr, section.section_def.default_tab_spacing, "8000");
    push_str(&mut secpr, SECPR_HEAD);
    write_page_def(&mut secpr, &section.section_def.page_def);
    push_str(&mut secpr, SECPR_TAIL);
    assert(secpr@ == secpr_run_xml(*section));
    push_str(out, secpr.as_str());
}

/// Writes the first paragraph of a section; returns where the next one starts.
fn write_first_para(out: &mut String, section: &Section, tab_width: u32) -> (vert: u32)
    requires
        section_fits(*section),
        tab_width as nat == section_tab_width(*section),
    ensures
        final(out)@ == old(out)@ + first_para_xml(*section),
        section.paragraphs@.len() > 0 ==> vert as nat == vert_at(*section, 1),
{
    let ghost sec = *section;
    let mut s = String::new();
    let mut vert: u32 = 0;
    if section.paragraphs.len() > 0 {
        write_p_open(&mut s, &section.paragraphs[0]);
        assert(s@ =~= crate::table::p_open_xml(sec.paragraphs@[0]));
        write_secpr_run(&mut s, section);
        proof {
            lemma_section_fits(sec, 0);
        }
        let (runs, segs, advance) = render_paragraph_runs(&section.paragraphs[0], 0, tab_width);
        proof {
            reveal(para_render);
        }
        push_str(&mut s, runs.as_str());
        push_str(&mut s, "<hp:linesegarray>");
        push_str(&mut s, segs.as_str());
        push_str(&mut s, "</hp:linesegarray></hp:p>");
        vert = advance;
        assert(s@ == first_para_xml(sec));
    } else {
        push_str(&mut s, "<hp:p id=\"0\" paraPrIDRef=\"0\" styleIDRef=\"0\" pageBreak=\"0\" columnBreak=\"0\" merged=\"0\">");
        assert(s@ =~= "<hp:p id=\"0\" paraPrIDRef=\"0\" styleIDRef=\"0\" pageBreak=\"0\" columnBreak=\"0\" merged=\"0\">"@);
        write_secpr_run(&mut s, section);
        let mut r = string_of("<hp:run charPrIDRef=\"");
        push_u64(&mut r, 0);
        push_str(&mut r, "\">");
        push_str(&mut r, "<hp:t/>");
        push_str(&mut r, "</hp:run>");
        assert(r@ =~= run_xml(0, Seq::empty(), Seq::empty()));
        push_str(&mut s, r.as_str());
        push_str(&mut s, "<hp:linesegarray>");
        push_lineseg(&mut s, 0, 0);
        push_str(&mut s, "</hp:linesegarray></hp:p>");
        assert(s@ == first_para_xml(sec));
    }
    push_str(out, s.as_str());
    vert
}

/// Writes paragraphs `1..` of a section.
fn write_extra_paras(section: &Section, tab_width: u32, vert_start: u32) -> (extra: String)
    requires
        section_fits(*section),
        tab_width as nat == section_tab_width(*section),
        section.paragraphs@.len() > 0 ==> vert_start as nat == vert_at(*section, 1),
    ensures
        extra@ == extra_paras_xml(*section, section.paragraphs@.len()),
{
    let ghost sec = *section;
    let n = section.paragraphs.len();
    let mut extra = String::new();
    let mut vert_cursor: u32 = vert_start;
    let mut i: usize = 1;
    assert(extra@ =~= extra_paras_xml(sec, 1));
    while i < n
        invariant
            sec == *section,
            n == sec.paragraphs@.len(),
            1 <= i,
            n > 0 ==> i <= n,
            n == 0 ==> i == 1,
            section_fits(sec),
            tab_width as nat == section_tab_width(sec),
            i < n ==> vert_cursor as nat == vert_at(sec, i as nat),
            extra@ == extra_paras_xml(sec, i as nat),
        decreases n - i,
    {
        let p = &section.paragraphs[i];
        proof {
            lemma_section_fits(sec, i as nat);
        }
        let (runs, segs, advance) = render_paragraph_runs(p, vert_cursor, tab_width);
        proof {
            reveal(para_render);
        }
        let mut s = String::new();
        write_p_open(&mut s, p);
        assert(s@ =~= crate::table::p_open_xml(*p));
        push_str(&mut s, runs.as_str());
        push_str(&mut s, "<hp:linesegarray>");
        push_str(&mut s, segs.as_str());
        push_str(&mut s, "</hp:linesegarray></hp:p>");
        assert(s@ == extra_para_xml(sec, i as nat));
        push_str(&mut extra, s.as_str());
        vert_cursor = advance;
        i = i + 1;
    }
    proof {
        if n == 0 {
            assert(extra_paras_xml(sec, 0) == extra_paras_xml(sec, 1));
            assert(extra@ == extra_paras_xml(sec, 1));
            assert(extra@ == extra_paras_xml(sec, n as nat));
        } else {
            assert(i == n);
            assert(extra@ == extra_paras_xml(sec, i as nat));
            assert(extra@ == extra_paras_xml(sec, n as nat));
        }
        assert(sec.paragraphs@.len() == n);
    }
    extra
}

/// Serializes one section as `Contents/section{N}.xml` (UTF-8). Always
/// succeeds.
pub fn write_section(section: &Section, _doc: &crate::model::Document, _index: usize) -> (r: Result<Vec<u8>, SerializeError>)
    requires
        section_fits(*section),
    ensures
        match r {
            Ok(bytes) => bytes@ == encode_utf8(section_xml(*section)),
            Err(_) => false,
        },
{
    reveal(section_xml);
    let tab_width: u32 = if section.section_def.default_tab_spacing > 0 {
        section.section_def.default_tab_spacing
    } else {
        TAB_FALLBACK_WIDTH
    };
    let mut out = string_of("<?xml version=\"1.0\" encoding=\"UTF-8\" standalone=\"yes\" ?>");
    push_str(&mut out, "<hs:sec ");
    push_str(&mut out, SEC_NS);
    push_str(&mut out, ">");
    let vert = write_first_para(&mut out, section, tab_width);
    let extra = write_extra_paras(section, tab_width, vert);
    push_str(&mut out, extra.as_str());
    push_str(&mut out, "</hs:sec>");
    assert(out@ == section_xml(*section));
    Ok(string_into_bytes(out))
}

} // verus!
