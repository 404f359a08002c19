//! `<hp:tbl>`: tables inside section XML, with their rows, cells and the
//! paragraphs of each cell.

use vstd::prelude::*;
use crate::model::{Cell, Paragraph, Table, TablePageBreak, TableZone, VerticalAlign};
use crate::section::{cells_fit, cell_paras_fit, lemma_cells_fit, lemma_cell_paras_fit, para_fits, render_paragraph_runs, render_runs, RunsResult};
use crate::shape::{bool01, box4_xml, pos_xml, push_box4, push_pos, push_sz, sz_xml, text_wrap_name, text_wrap_str};
use crate::text::{contains_text, dec_int, dec_nat, lemma_concat3, lemma_contains_append, lemma_contains_extend, lemma_contains_last3, lemma_contains_last5, lemma_contains_mid, push_i64, push_str, push_u64, string_of};

verus! {

/// OWPML name of a table page-break mode.
pub open spec fn page_break_name(b: TablePageBreak) -> Seq<char> {
    match b {
        TablePageBreak::NoBreak => "NONE"@,
        TablePageBreak::CellBreak => "CELL"@,
        TablePageBreak::RowBreak => "ROW"@,
    }
}

/// The opening `<hp:tbl>` tag.
pub open spec fn tbl_open_xml(t: Table) -> Seq<char> {
    "<hp:tbl id=\""@ + dec_nat(t.common.ctrl_id as nat) + "\" zOrder=\""@ + dec_int(t.common.z_order as int)
        + "\" numberingType=\"TABLE\" textWrap=\""@ + text_wrap_name(t.common.text_wrap)
        + "\" textFlow=\"BOTH_SIDES\" lock=\"0\" dropcapstyle=\"None\" pageBreak=\""@ + page_break_name(t.page_break)
        + "\" repeatHeader=\""@ + bool01(t.repeat_header) + "\" rowCnt=\""@ + dec_nat(t.row_count as nat)
        + "\" colCnt=\""@ + dec_nat(t.col_count as nat) + "\" cellSpacing=\""@ + dec_int(t.cell_spacing as int)
        + "\" borderFillIDRef=\""@ + dec_nat(t.border_fill_id as nat) + "\" noAdjust=\"0\">"@
}

/// Size, position and margin children of a table.
pub open spec fn tbl_layout_xml(t: Table) -> Seq<char> {
    sz_xml(t.common) + pos_xml(t.common)
        + box4_xml("hp:outMargin"@, t.outer_margin_left as int, t.outer_margin_right as int,
            t.outer_margin_top as int, t.outer_margin_bottom as int)
        + box4_xml("hp:inMargin"@, t.padding.left as int, t.padding.right as int, t.padding.top as int,
            t.padding.bottom as int)
}

/// One `<hp:cellzone>` element.
pub open spec fn zone_xml(z: TableZone) -> Seq<char> {
    "<hp:cellzone startColAddr=\""@ + dec_nat(z.start_col as nat) + "\" endColAddr=\""@ + dec_nat(z.end_col as nat)
        + "\" startRowAddr=\""@ + dec_nat(z.start_row as nat) + "\" endRowAddr=\""@ + dec_nat(z.end_row as nat)
        + "\" borderFillIDRef=\""@ + dec_nat(z.border_fill_id as nat) + "\"/>"@
}

/// The cell zones `zones[0..n]`.
pub open spec fn zones_xml(zones: Seq<TableZone>, n: nat) -> Seq<char>
    decreases n,
{
    if n == 0 { Seq::empty() } else { zones_xml(zones, (n - 1) as nat) + zone_xml(zones[n - 1]) }
}

/// The opening `<hp:tc>` and `<hp:subList>` tags of a cell.
pub open spec fn cell_open_xml(c: Cell) -> Seq<char> {
    "<hp:tc name=\"\" header=\""@ + bool01(c.is_header) + "\" hasMargin=\""@ + bool01(c.apply_inner_margin)
        + "\" protect=\"0\" editable=\"0\" dirty=\"0\" borderFillIDRef=\""@ + dec_nat(c.border_fill_id as nat) + "\">"@
        + "<hp:subList id=\"\" textDirection=\""@
        + (if c.text_direction == 0 { "HORIZONTAL"@ } else { "VERTICAL"@ })
        + "\" lineWrap=\"BREAK\" vertAlign=\""@
        + (match c.vertical_align {
            VerticalAlign::Top => "TOP"@,
            VerticalAlign::Center => "CENTER"@,
            VerticalAlign::Bottom => "BOTTOM"@,
        })
        + "\" linkListIDRef=\"0\" linkListNextIDRef=\"0\" textWidth=\"0\" textHeight=\"0\" hasTextRef=\"0\" hasNumRef=\"0\">"@
}

/// The address, span, size and margin children that close a cell.
pub open spec fn cell_close_xml(c: Cell) -> Seq<char> {
    "</hp:subList>"@
        + "<hp:cellAddr colAddr=\""@ + dec_nat(c.col as nat) + "\" rowAddr=\""@ + dec_nat(c.row as nat) + "\"/>"@
        + "<hp:cellSpan colSpan=\""@ + dec_nat(c.col_span as nat) + "\" rowSpan=\""@ + dec_nat(c.row_span as nat) + "\"/>"@
        + "<hp:cellSz width=\""@ + dec_nat(c.width as nat) + "\" height=\""@ + dec_nat(c.height as nat) + "\"/>"@
        + box4_xml("hp:cellMargin"@, c.padding.left as int, c.padding.right as int, c.padding.top as int,
            c.padding.bottom as int)
        + "</hp:tc>"@
}

/// A paragraph of a cell with no text and no controls: one empty run.
pub open spec fn empty_cell_para_xml(p: Paragraph) -> Seq<char> {
    "<hp:run charPrIDRef=\""@
        + dec_nat(if p.char_shapes@.len() > 0 { p.char_shapes@[0].char_shape_id as nat } else { 0 })
        + "\"/>"@
}

/// The paragraph of an empty cell.
pub open spec fn blank_cell_para_xml() -> Seq<char> {
    "<hp:p id=\"0\" paraPrIDRef=\"0\" styleIDRef=\"0\" pageBreak=\"0\" columnBreak=\"0\" merged=\"0\"><hp:run charPrIDRef=\"0\"/></hp:p>"@
}

/// The opening `<hp:p>` tag of a paragraph.
pub open spec fn p_open_xml(p: Paragraph) -> Seq<char> {
    "<hp:p id=\"0\" paraPrIDRef=\""@ + dec_nat(p.para_shape_id as nat) + "\" styleIDRef=\""@
        + dec_nat(p.style_id as nat) + "\" pageBreak=\"0\" columnBreak=\"0\" merged=\"0\">"@
}


/// A paragraph inside a cell, given how it renders: an empty run when it
/// has neither text nor controls, its runs and line segments otherwise.
#[verifier::opaque]
pub open spec fn cell_para_body(p: Paragraph, r: RunsResult) -> Seq<char> {
    p_open_xml(p)
        + (if p.text@.len() == 0 && p.controls@.len() == 0 {
            empty_cell_para_xml(p)
        } else {
            r.runs + "<hp:linesegarray>"@ + r.segs + "</hp:linesegarray>"@
        })
        + "</hp:p>"@
}

/// A paragraph inside a cell (it starts at vertical position 0).
pub open spec fn cell_para_xml(p: Paragraph, tab_w: nat) -> Seq<char>
    decreases p, p.text@.len() + p.controls@.len() + 4,
{
    cell_para_body(p, render_runs(p, 0, tab_w))
}

/// The paragraphs `c.paragraphs[0..n]` of a cell.
pub open spec fn cell_paras_xml(c: Cell, n: nat, tab_w: nat) -> Seq<char>
    decreases c, n,
{
    if n == 0 || n > c.paragraphs@.len() {
        Seq::empty()
    } else {
        cell_paras_xml(c, (n - 1) as nat, tab_w) + cell_para_xml(c.paragraphs@[n - 1], tab_w)
    }
}

/// A `<hp:tc>` element around the given paragraph XML; a cell without
/// paragraphs gets one empty paragraph.
#[verifier::opaque]
pub open spec fn cell_body(c: Cell, paras: Seq<char>) -> Seq<char> {
    cell_open_xml(c) + (if c.paragraphs@.len() == 0 { blank_cell_para_xml() } else { paras })
        + cell_close_xml(c)
}

/// One `<hp:tc>` element.
pub open spec fn cell_xml(c: Cell, tab_w: nat) -> Seq<char>
    decreases c, c.paragraphs@.len() + 1,
{
    cell_body(c, cell_paras_xml(c, c.paragraphs@.len(), tab_w))
}

/// The rows written so far, with a new `<hp:tr>` opened (and the open one
/// closed) when cell `c` is on another row than the previous cell. `acc`
/// is the text so far and the row of the open `<hp:tr>` (-1 before the
/// first cell).
pub open spec fn row_open(acc: (Seq<char>, int), c: Cell) -> Seq<char> {
    if c.row as int != acc.1 {
        acc.0 + (if acc.1 >= 0 { "</hp:tr>"@ } else { Seq::empty() }) + "<hp:tr>"@
    } else {
        acc.0
    }
}

/// Adds one cell (its XML `cell`) to the rows written so far.
pub open spec fn row_step(acc: (Seq<char>, int), c: Cell, cell: Seq<char>) -> (Seq<char>, int) {
    (row_open(acc, c) + cell, c.row as int)
}

/// Rows of the first `n` cells of a table.
pub open spec fn cells_fold(t: Table, n: nat, tab_w: nat) -> (Seq<char>, int)
    decreases t, n,
{
    if n == 0 || n > t.cells@.len() {
        (Seq::empty(), -1)
    } else {
        row_step(cells_fold(t, (n - 1) as nat, tab_w), t.cells@[n - 1], cell_xml(t.cells@[n - 1], tab_w))
    }
}

/// A `<hp:tbl>` element around the given rows.
#[verifier::opaque]
pub open spec fn table_body(t: Table, rows: (Seq<char>, int)) -> Seq<char> {
    tbl_open_xml(t) + tbl_layout_xml(t) + zones_xml(t.zones@, t.zones@.len()) + rows.0
        + (if rows.1 >= 0 { "</hp:tr>"@ } else { Seq::empty() }) + "</hp:tbl>"@
}

proof fn lemma_cell_paras_step(c: Cell, j: nat, tw: nat)
    requires
        j < c.paragraphs@.len(),
    ensures
        cell_paras_xml(c, j + 1, tw) == cell_paras_xml(c, j, tw) + cell_para_xml(c.paragraphs@[j as int], tw),
{
}

proof fn lemma_cells_fold_step(t: Table, i: nat, tw: nat)
    requires
        i < t.cells@.len(),
    ensures
        cells_fold(t, i + 1, tw) == row_step(cells_fold(t, i, tw), t.cells@[i as int], cell_xml(t.cells@[i as int], tw)),
{
}

/// A whole `<hp:tbl>` element.
pub open spec fn table_xml(t: Table, tab_w: nat) -> Seq<char>
    decreases t, t.cells@.len() + 1,
{
    table_body(t, cells_fold(t, t.cells@.len(), tab_w))
}

/// The address, span and size elements of a cell, each attribute carrying
/// the cell field of its name.
#[verifier::opaque]
pub open spec fn cell_size_text(c: Cell) -> Seq<char> {
    "<hp:cellAddr colAddr=\""@ + dec_nat(c.col as nat) + "\" rowAddr=\""@ + dec_nat(c.row as nat) + "\"/>"@
        + "<hp:cellSpan colSpan=\""@ + dec_nat(c.col_span as nat) + "\" rowSpan=\""@ + dec_nat(c.row_span as nat) + "\"/>"@
        + "<hp:cellSz width=\""@ + dec_nat(c.width as nat) + "\" height=\""@ + dec_nat(c.height as nat) + "\"/>"@
}

proof fn lemma_regroup6(h: Seq<char>, a: Seq<char>, b: Seq<char>, c: Seq<char>, d: Seq<char>, e: Seq<char>)
    ensures
        h + a + b + c + d + e == h + (a + b + c) + (d + e),
{
    assert(h + a + b + c + d + e =~= h + (a + b + c) + (d + e));
}

proof fn lemma_close_has_size(c: Cell)
    ensures
        contains_text(cell_close_xml(c), cell_size_text(c)),
{
    let head = "</hp:subList>"@;
    let a = "<hp:cellAddr colAddr=\""@ + dec_nat(c.col as nat) + "\" rowAddr=\""@ + dec_nat(c.row as nat) + "\"/>"@;
    let sp = "<hp:cellSpan colSpan=\""@ + dec_nat(c.col_span as nat) + "\" rowSpan=\""@ + dec_nat(c.row_span as nat) + "\"/>"@;
    let sz = "<hp:cellSz width=\""@ + dec_nat(c.width as nat) + "\" height=\""@ + dec_nat(c.height as nat) + "\"/>"@;
    let bx = box4_xml("hp:cellMargin"@, c.padding.left as int, c.padding.right as int, c.padding.top as int,
        c.padding.bottom as int);
    let tc = "</hp:tc>"@;
    assert(cell_size_text(c) == a + sp + sz) by {
        reveal(cell_size_text);
    }
    assert(cell_close_xml(c) == head + a + sp + sz + bx + tc);
    lemma_regroup6(head, a, sp, sz, bx, tc);
    lemma_contains_mid(head, cell_size_text(c), bx + tc);
}

proof fn lemma_cell_has_size(c: Cell, tab_w: nat)
    ensures
        contains_text(cell_xml(c, tab_w), cell_size_text(c)),
{
    lemma_close_has_size(c);
    let paras = cell_paras_xml(c, c.paragraphs@.len(), tab_w);
    let before = cell_open_xml(c) + (if c.paragraphs@.len() == 0 { blank_cell_para_xml() } else { paras });
    lemma_contains_extend(cell_close_xml(c), cell_size_text(c), before, Seq::empty());
    assert(cell_xml(c, tab_w) == cell_body(c, paras));
    assert(cell_body(c, paras) =~= before + cell_close_xml(c) + Seq::<char>::empty()) by {
        reveal(cell_body);
    }
}

proof fn lemma_rows_hold_cell(t: Table, n: nat, j: nat, tab_w: nat)
    requires
        j < n <= t.cells@.len(),
    ensures
        contains_text(cells_fold(t, n, tab_w).0, cell_size_text(t.cells@[j as int])),
    decreases n,
{
    let prev = cells_fold(t, (n - 1) as nat, tab_w);
    let c = t.cells@[n - 1];
    lemma_cells_fold_step(t, (n - 1) as nat, tab_w);
    let opened = row_open(prev, c);
    if j == n - 1 {
        lemma_cell_has_size(c, tab_w);
        lemma_contains_extend(cell_xml(c, tab_w), cell_size_text(c), opened, Seq::empty());
        assert(opened + cell_xml(c, tab_w) + Seq::<char>::empty() =~= opened + cell_xml(c, tab_w));
    } else {
        lemma_rows_hold_cell(t, (n - 1) as nat, j, tab_w);
        let mid = if c.row as int != prev.1 {
            (if prev.1 >= 0 { "</hp:tr>"@ } else { Seq::empty() }) + "<hp:tr>"@
        } else {
            Seq::empty()
        };
        assert(opened =~= prev.0 + mid);
        lemma_contains_extend(prev.0, cell_size_text(t.cells@[j as int]), Seq::empty(), mid + cell_xml(c, tab_w));
        assert(Seq::<char>::empty() + prev.0 + (mid + cell_xml(c, tab_w)) =~= opened + cell_xml(c, tab_w));
    }
}

/// Every cell of a table is written with its own address, span and size:
/// `colAddr`/`rowAddr` are the cell's column and row, `colSpan`/`rowSpan`
/// its spans, and the `cellSz` element's `width` is the cell's width and
/// `height` its height.
pub proof fn law_cell_sizes(t: Table, tab_w: nat, j: int)
    requires
        0 <= j < t.cells@.len(),
    ensures
        contains_text(table_xml(t, tab_w),
            "<hp:cellAddr colAddr=\""@ + dec_nat(t.cells@[j].col as nat) + "\" rowAddr=\""@
            + dec_nat(t.cells@[j].row as nat) + "\"/>"@
            + "<hp:cellSpan colSpan=\""@ + dec_nat(t.cells@[j].col_span as nat) + "\" rowSpan=\""@
            + dec_nat(t.cells@[j].row_span as nat) + "\"/>"@
            + "<hp:cellSz width=\""@ + dec_nat(t.cells@[j].width as nat)
            + "\" height=\""@ + dec_nat(t.cells@[j].height as nat) + "\"/>"@),
{
    let rows = cells_fold(t, t.cells@.len(), tab_w);
    lemma_rows_hold_cell(t, t.cells@.len(), j as nat, tab_w);
    let a = tbl_open_xml(t) + tbl_layout_xml(t) + zones_xml(t.zones@, t.zones@.len());
    let b = (if rows.1 >= 0 { "</hp:tr>"@ } else { Seq::empty() }) + "</hp:tbl>"@;
    lemma_contains_extend(rows.0, cell_size_text(t.cells@[j]), a, b);
    assert(table_xml(t, tab_w) == table_body(t, rows));
    assert(cell_size_text(t.cells@[j]) ==
            "<hp:cellAddr colAddr=\""@ + dec_nat(t.cells@[j].col as nat) + "\" rowAddr=\""@
            + dec_nat(t.cells@[j].row as nat) + "\"/>"@
            + "<hp:cellSpan colSpan=\""@ + dec_nat(t.cells@[j].col_span as nat) + "\" rowSpan=\""@
            + dec_nat(t.cells@[j].row_span as nat) + "\"/>"@
            + "<hp:cellSz width=\""@ + dec_nat(t.cells@[j].width as nat)
            + "\" height=\""@ + dec_nat(t.cells@[j].height as nat) + "\"/>"@) by {
        reveal(cell_size_text);
    }
    assert(table_body(t, rows) =~= a + rows.0 + b) by {
        reveal(table_body);
    }
}

/// A table element declares the table's row count as `rowCnt`, its column
/// count as `colCnt`, and its border fill as `borderFillIDRef`.
pub proof fn law_table_counts(t: Table, tab_w: nat)
    ensures
        contains_text(table_xml(t, tab_w), "\" rowCnt=\""@ + dec_nat(t.row_count as nat) + "\" colCnt=\""@
            + dec_nat(t.col_count as nat) + "\" cellSpacing=\""@),
        contains_text(table_xml(t, tab_w), "\" borderFillIDRef=\""@ + dec_nat(t.border_fill_id as nat)
            + "\" noAdjust=\"0\">"@),
{
    lemma_tbl_open_counts(t);
    let rows = cells_fold(t, t.cells@.len(), tab_w);
    let rest = tbl_layout_xml(t) + zones_xml(t.zones@, t.zones@.len()) + rows.0
        + (if rows.1 >= 0 { "</hp:tr>"@ } else { Seq::empty() }) + "</hp:tbl>"@;
    lemma_contains_append(tbl_open_xml(t), "\" rowCnt=\""@ + dec_nat(t.row_count as nat) + "\" colCnt=\""@
            + dec_nat(t.col_count as nat) + "\" cellSpacing=\""@, rest);
    lemma_contains_append(tbl_open_xml(t), "\" borderFillIDRef=\""@ + dec_nat(t.border_fill_id as nat)
            + "\" noAdjust=\"0\">"@, rest);
    assert(table_xml(t, tab_w) == table_body(t, rows));
    assert(table_body(t, rows) == tbl_open_xml(t) + rest) by {
        reveal(table_body);
        lemma_regroup_tbl(tbl_open_xml(t), tbl_layout_xml(t), zones_xml(t.zones@, t.zones@.len()), rows.0,
            (if rows.1 >= 0 { "</hp:tr>"@ } else { Seq::empty() }), "</hp:tbl>"@);
    }
}

proof fn lemma_regroup_tbl(a: Seq<char>, b: Seq<char>, c: Seq<char>, d: Seq<char>, e: Seq<char>, f: Seq<char>)
    ensures
        a + b + c + d + e + f == a + (b + c + d + e + f),
{
    assert(a + b + c + d + e + f =~= a + (b + c + d + e + f));
}

proof fn lemma_tbl_open_counts(t: Table)
    ensures
        contains_text(tbl_open_xml(t), "\" rowCnt=\""@ + dec_nat(t.row_count as nat) + "\" colCnt=\""@
            + dec_nat(t.col_count as nat) + "\" cellSpacing=\""@),
        contains_text(tbl_open_xml(t), "\" borderFillIDRef=\""@ + dec_nat(t.border_fill_id as nat)
            + "\" noAdjust=\"0\">"@),
{
    let a = "<hp:tbl id=\""@ + dec_nat(t.common.ctrl_id as nat) + "\" zOrder=\""@ + dec_int(t.common.z_order as int)
        + "\" numberingType=\"TABLE\" textWrap=\""@ + text_wrap_name(t.common.text_wrap)
        + "\" textFlow=\"BOTH_SIDES\" lock=\"0\" dropcapstyle=\"None\" pageBreak=\""@ + page_break_name(t.page_break)
        + "\" repeatHeader=\""@ + bool01(t.repeat_header);
    let p = "\" rowCnt=\""@;
    let q = dec_nat(t.row_count as nat);
    let r = "\" colCnt=\""@;
    let u = dec_nat(t.col_count as nat);
    let v = "\" cellSpacing=\""@;
    lemma_contains_last5(a, p, q, r, u, v);
    let x = a + p + q + r + u + v;
    lemma_contains_append(x, p + q + r + u + v, dec_int(t.cell_spacing as int));
    let y = x + dec_int(t.cell_spacing as int);
    lemma_contains_append(y, p + q + r + u + v, "\" borderFillIDRef=\""@);
    let z = y + "\" borderFillIDRef=\""@;
    lemma_contains_append(z, p + q + r + u + v, dec_nat(t.border_fill_id as nat));
    let w = z + dec_nat(t.border_fill_id as nat);
    lemma_contains_append(w, p + q + r + u + v, "\" noAdjust=\"0\">"@);
    assert(tbl_open_xml(t) == w + "\" noAdjust=\"0\">"@);
    lemma_contains_last3(y, "\" borderFillIDRef=\""@, dec_nat(t.border_fill_id as nat), "\" noAdjust=\"0\">"@);
}

fn write_tbl_open(out: &mut String, tbl: &Table)
    ensures
        final(out)@ == old(out)@ + tbl_open_xml(*tbl),
{
    let page_break = match tbl.page_break {
        TablePageBreak::NoBreak => "NONE",
        TablePageBreak::CellBreak => "CELL",
        TablePageBreak::RowBreak => "ROW",
    };
    let mut s = string_of("<hp:tbl id=\"");
    push_u64(&mut s, tbl.common.ctrl_id as u64);
    push_str(&mut s, "\" zOrder=\"");
    push_i64(&mut s, tbl.common.z_order as i64);
    push_str(&mut s, "\" numberingType=\"TABLE\" textWrap=\"");
    push_str(&mut s, text_wrap_str(tbl.common.text_wrap));
    push_str(&mut s, "\" textFlow=\"BOTH_SIDES\" lock=\"0\" dropcapstyle=\"None\" pageBreak=\"");
    push_str(&mut s, page_break);
    push_str(&mut s, "\" repeatHeader=\"");
    push_str(&mut s, if tbl.repeat_header { "1" } else { "0" });
    push_str(&mut s, "\" rowCnt=\"");
    push_u64(&mut s, tbl.row_count as u64);
    push_str(&mut s, "\" colCnt=\"");
    push_u64(&mut s, tbl.col_count as u64);
    push_str(&mut s, "\" cellSpacing=\"");
    push_i64(&mut s, tbl.cell_spacing as i64);
    push_str(&mut s, "\" borderFillIDRef=\"");
    push_u64(&mut s, tbl.border_fill_id as u64);
    push_str(&mut s, "\" noAdjust=\"0\">");
    assert(s@ == tbl_open_xml(*tbl));
    push_str(out, s.as_str());
}

fn write_tbl_layout(out: &mut String, tbl: &Table)
    ensures
        final(out)@ == old(out)@ + tbl_layout_xml(*tbl),
{
    let mut s = String::new();
    push_sz(&mut s, &tbl.common);
    assert(s@ =~= sz_xml(tbl.common));
    push_pos(&mut s, &tbl.common);
    push_box4(&mut s, "hp:outMargin", tbl.outer_margin_left as i64, tbl.outer_margin_right as i64,
        tbl.outer_margin_top as i64, tbl.outer_margin_bottom as i64);
    push_box4(&mut s, "hp:inMargin", tbl.padding.left as i64, tbl.padding.right as i64,
        tbl.padding.top as i64, tbl.padding.bottom as i64);
    assert(s@ == tbl_layout_xml(*tbl));
    push_str(out, s.as_str());
}

fn write_zones(out: &mut String, zones: &Vec<TableZone>)
    ensures
        final(out)@ == old(out)@ + zones_xml(zones@, zones@.len()),
{
    let ghost head = out@;
    let n = zones.len();
    let mut i: usize = 0;
    assert(out@ =~= head + zones_xml(zones@, 0));
    while i < n
        invariant
            n == zones@.len(),
            i <= n,
            out@ == head + zones_xml(zones@, i as nat),
        decreases n - i,
    {
        let z = &zones[i];
        let mut s = string_of("<hp:cellzone startColAddr=\"");
        push_u64(&mut s, z.start_col as u64);
        push_str(&mut s, "\" endColAddr=\"");
        push_u64(&mut s, z.end_col as u64);
        push_str(&mut s, "\" startRowAddr=\"");
        push_u64(&mut s, z.start_row as u64);
        push_str(&mut s, "\" endRowAddr=\"");
        push_u64(&mut s, z.end_row as u64);
        push_str(&mut s, "\" borderFillIDRef=\"");
        push_u64(&mut s, z.border_fill_id as u64);
        push_str(&mut s, "\"/>");
        assert(s@ == zone_xml(zones@[i as int]));
        let ghost prev = zones_xml(zones@, i as nat);
        push_str(out, s.as_str());
        proof {
            lemma_concat3(head, prev, s@);
        }
        i = i + 1;
    }
}

/// `<hp:tbl>` serialization, appended to `out`.
pub fn write_table(out: &mut String, tbl: &Table, default_tab_width: u32)
    requires
        cells_fit(*tbl, tbl.cells@.len()),
    ensures
        final(out)@ == old(out)@ + table_xml(*tbl, default_tab_width as nat),
    decreases *tbl, 0nat,
{
    reveal(table_body);
    let ghost tw = default_tab_width as nat;
    let mut s = String::new();
    write_tbl_open(&mut s, tbl);
    assert(s@ =~= tbl_open_xml(*tbl));
    write_tbl_layout(&mut s, tbl);
    write_zones(&mut s, &tbl.zones);
    let ghost head = s@;
    let mut rows = String::new();
    let mut current_row: i64 = -1;
    let n = tbl.cells.len();
    let mut i: usize = 0;
    assert(rows@ =~= cells_fold(*tbl, 0, tw).0);
    while i < n
        invariant
            n == tbl.cells@.len(),
            i <= n,
            cells_fit(*tbl, tbl.cells@.len()),
            rows@ == cells_fold(*tbl, i as nat, tw).0,
            current_row as int == cells_fold(*tbl, i as nat, tw).1,
            -1 <= current_row <= u16::MAX,
            tw == default_tab_width as nat,
        decreases n - i,
    {
        let cell = &tbl.cells[i];
        let ghost prev = rows@;
        if cell.row as i64 != current_row {
            if current_row >= 0 {
                push_str(&mut rows, "</hp:tr>");
            } else {
                assert(rows@ =~= prev + Seq::<char>::empty());
            }
            push_str(&mut rows, "<hp:tr>");
            current_row = cell.row as i64;
        }
        proof {
            lemma_cells_fit(*tbl, tbl.cells@.len(), i as nat);
        }
        let ghost opened = rows@;
        proof {
            lemma_cells_fold_step(*tbl, i as nat, tw);
        }
        write_cell(&mut rows, cell, default_tab_width);
        i = i + 1;
    }
    push_str(&mut s, rows.as_str());
    if current_row >= 0 {
        push_str(&mut s, "</hp:tr>");
    } else {
        assert(s@ =~= s@ + Seq::<char>::empty());
    }
    push_str(&mut s, "</hp:tbl>");
    assert(s@ == table_xml(*tbl, tw));
    push_str(out, s.as_str());
}

fn write_cell_open(out: &mut String, cell: &Cell)
    ensures
        final(out)@ == old(out)@ + cell_open_xml(*cell),
{
    let vert_align = match cell.vertical_align {
        VerticalAlign::Top => "TOP",
        VerticalAlign::Center => "CENTER",
        VerticalAlign::Bottom => "BOTTOM",
    };
    let mut s = string_of("<hp:tc name=\"\" header=\"");
    push_str(&mut s, if cell.is_header { "1" } else { "0" });
    push_str(&mut s, "\" hasMargin=\"");
    push_str(&mut s, if cell.apply_inner_margin { "1" } else { "0" });
    push_str(&mut s, "\" protect=\"0\" editable=\"0\" dirty=\"0\" borderFillIDRef=\"");
    push_u64(&mut s, cell.border_fill_id as u64);
    push_str(&mut s, "\">");
    push_str(&mut s, "<hp:subList id=\"\" textDirection=\"");
    push_str(&mut s, if cell.text_direction == 0 { "HORIZONTAL" } else { "VERTICAL" });
    push_str(&mut s, "\" lineWrap=\"BREAK\" vertAlign=\"");
    push_str(&mut s, vert_align);
    push_str(&mut s, "\" linkListIDRef=\"0\" linkListNextIDRef=\"0\" textWidth=\"0\" textHeight=\"0\" hasTextRef=\"0\" hasNumRef=\"0\">");
    assert(s@ == cell_open_xml(*cell));
    push_str(out, s.as_str());
}

fn write_cell_close(out: &mut String, cell: &Cell)
    ensures
        final(out)@ == old(out)@ + cell_close_xml(*cell),
{
    let mut s = string_of("</hp:subList>");
    push_str(&mut s, "<hp:cellAddr colAddr=\"");
    push_u64(&mut s, cell.col as u64);
    push_str(&mut s, "\" rowAddr=\"");
    push_u64(&mut s, cell.row as u64);
    push_str(&mut s, "\"/>");
    push_str(&mut s, "<hp:cellSpan colSpan=\"");
    push_u64(&mut s, cell.col_span as u64);
    push_str(&mut s, "\" rowSpan=\"");
    push_u64(&mut s, cell.row_span as u64);
    push_str(&mut s, "\"/>");
    push_str(&mut s, "<hp:cellSz width=\"");
    push_u64(&mut s, cell.width as u64);
    push_str(&mut s, "\" height=\"");
    push_u64(&mut s, cell.height as u64);
    push_str(&mut s, "\"/>");
    push_box4(&mut s, "hp:cellMargin", cell.padding.left as i64, cell.padding.right as i64,
        cell.padding.top as i64, cell.padding.bottom as i64);
    push_str(&mut s, "</hp:tc>");
    assert(s@ == cell_close_xml(*cell));
    push_str(out, s.as_str());
}

fn write_cell_paras(cell: &Cell, default_tab_width: u32) -> (body: String)
    requires
        cell_paras_fit(*cell, cell.paragraphs@.len()),
    ensures
        body@ == cell_paras_xml(*cell, cell.paragraphs@.len(), default_tab_width as nat),
    decreases *cell, 1nat,
{
    let ghost tw = default_tab_width as nat;
    let mut body = String::new();
    let n = cell.paragraphs.len();
    let mut j: usize = 0;
    assert(body@ =~= cell_paras_xml(*cell, 0, tw));
    while j < n
        invariant
            n == cell.paragraphs@.len(),
            j <= n,
            cell_paras_fit(*cell, cell.paragraphs@.len()),
            body@ == cell_paras_xml(*cell, j as nat, tw),
            tw == default_tab_width as nat,
        decreases n - j,
    {
        proof {
            lemma_cell_paras_fit(*cell, cell.paragraphs@.len(), j as nat);
            lemma_cell_paras_step(*cell, j as nat, tw);
        }
        write_cell_para(&mut body, &cell.paragraphs[j], default_tab_width);
        j = j + 1;
    }
    body
}

fn write_cell(out: &mut String, cell: &Cell, default_tab_width: u32)
    requires
        cell_paras_fit(*cell, cell.paragraphs@.len()),
    ensures
        final(out)@ == old(out)@ + cell_xml(*cell, default_tab_width as nat),
    decreases *cell, 2nat,
{
    reveal(cell_body);
    let ghost tw = default_tab_width as nat;
    let mut s = String::new();
    write_cell_open(&mut s, cell);
    assert(s@ =~= cell_open_xml(*cell));
    let ghost head = s@;
    if cell.paragraphs.len() == 0 {
        push_str(&mut s, "<hp:p id=\"0\" paraPrIDRef=\"0\" styleIDRef=\"0\" pageBreak=\"0\" columnBreak=\"0\" merged=\"0\"><hp:run charPrIDRef=\"0\"/></hp:p>");
    } else {
        let body = write_cell_paras(cell, default_tab_width);
        push_str(&mut s, body.as_str());
    }
    write_cell_close(&mut s, cell);
    assert(s@ == cell_xml(*cell, tw));
    push_str(out, s.as_str());
}

fn write_cell_para(out: &mut String, para: &Paragraph, default_tab_width: u32)
    requires
        para_fits(*para, 0),
    ensures
        final(out)@ == old(out)@ + cell_para_xml(*para, default_tab_width as nat),
    decreases *para, 3nat,
{
    reveal(cell_para_body);
    let ghost tw = default_tab_width as nat;
    let mut s = string_of("<hp:p id=\"0\" paraPrIDRef=\"");
    push_u64(&mut s, para.para_shape_id as u64);
    push_str(&mut s, "\" styleIDRef=\"");
    push_u64(&mut s, para.style_id as u64);
    push_str(&mut s, "\" pageBreak=\"0\" columnBreak=\"0\" merged=\"0\">");
    assert(s@ == p_open_xml(*para));
    if para.text.as_str().is_empty() && para.controls.len() == 0 {
        let char_id: u32 = if para.char_shapes.len() > 0 { para.char_shapes[0].char_shape_id } else { 0 };
        let mut r = string_of("<hp:run charPrIDRef=\"");
        push_u64(&mut r, char_id as u64);
        push_str(&mut r, "\"/>");
        assert(r@ == empty_cell_para_xml(*para));
        push_str(&mut s, r.as_str());
    } else {
        let (runs_xml, linesegs_xml, _) = render_paragraph_runs(para, 0, default_tab_width);
        let mut b = String::new();
        push_str(&mut b, runs_xml.as_str());
        assert(b@ =~= runs_xml@);
        push_str(&mut b, "<hp:linesegarray>");
        push_str(&mut b, linesegs_xml.as_str());
        push_str(&mut b, "</hp:linesegarray>");
        push_str(&mut s, b.as_str());
    }
    push_str(&mut s, "</hp:p>");
    assert(s@ == cell_para_xml(*para, tw));
    push_str(out, s.as_str());
}

} // verus!
