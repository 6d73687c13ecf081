use vstd::prelude::*;
use vstd::string::StringExecFns;

use crate::options::{ColumnsOptionView, GenerateOption};
use crate::testspec::{
    PrimaryItem, PrimaryItemView, SecondaryItem, SecondaryItemView, TertiaryItem,
    TertiaryItemView, TestSpec, TestSpecView,
};
use crate::text::{
    join_separated, lemma_join_separated_push, lemma_numbered_lines_take_step,
    lemma_prefixed_lines_take_step, line_break, numbered_lines, prefixed_lines,
};

verus! {

/// What one cell of the grid holds: a row number, a text, or nothing.
#[derive(Debug, PartialEq, Eq, Clone)]
pub enum CellValue {
    Number(usize),
    Text(String),
    Blank,
}

/// Mathematical view of a cell value.
pub enum CellValueView {
    Number(nat),
    Text(Seq<char>),
    Blank,
}

impl View for CellValue {
    type V = CellValueView;

    open spec fn view(&self) -> CellValueView {
        match self {
            CellValue::Number(n) => CellValueView::Number(*n as nat),
            CellValue::Text(t) => CellValueView::Text(t@),
            CellValue::Blank => CellValueView::Blank,
        }
    }
}

impl DeepView for CellValue {
    type V = CellValueView;

    open spec fn deep_view(&self) -> CellValueView {
        self.view()
    }
}

/// One cell of the grid: the column it sits in, its value, and how
/// many rows it covers downward (1 for a plain cell, more for the top
/// of a merged region).
#[derive(Debug, PartialEq, Eq, Clone)]
pub struct Cell {
    pub col: usize,
    pub value: CellValue,
    pub span: usize,
}

/// Mathematical view of a cell.
pub struct CellView {
    pub col: nat,
    pub value: CellValueView,
    pub span: nat,
}

impl View for Cell {
    type V = CellView;

    open spec fn view(&self) -> CellView {
        CellView { col: self.col as nat, value: self.value@, span: self.span as nat }
    }
}

impl DeepView for Cell {
    type V = CellView;

    open spec fn deep_view(&self) -> CellView {
        self.view()
    }
}

/// The laid-out table: row 0 is the header row, every further row
/// belongs to one leaf (or one childless branch) of the tree. Each row
/// lists its cells left to right; a row covered by a merged region
/// holds no cell in that column.
#[derive(Debug, PartialEq, Eq, Clone)]
pub struct Grid {
    pub rows: Vec<Vec<Cell>>,
}

impl View for Grid {
    type V = Seq<Seq<CellView>>;

    open spec fn view(&self) -> Seq<Seq<CellView>> {
        self.rows.deep_view()
    }
}

/// A plain cell carrying the row's running number.
pub open spec fn number_cell(r: nat) -> CellView {
    CellView { col: 0, value: CellValueView::Number(r), span: 1 }
}

/// A plain blank cell.
pub open spec fn blank_cell(col: nat) -> CellView {
    CellView { col, value: CellValueView::Blank, span: 1 }
}

/// A text cell spanning `span` rows downward.
pub open spec fn text_cell(col: nat, t: Seq<char>, span: nat) -> CellView {
    CellView { col, value: CellValueView::Text(t), span }
}

/// The header row: one cell per configured column, in table order.
pub open spec fn header_row(opt: ColumnsOptionView) -> Seq<CellView> {
    Seq::new(9, |i: int| text_cell(i as nat, opt.column_seq()[i].header, 1))
}

/// The text of the operations cell: the numbered operation lines,
/// joined by line breaks.
pub open spec fn operations_text(ops: Seq<Seq<char>>) -> Seq<char> {
    join_separated(numbered_lines(ops, 1))
}

/// The text of a confirmations or remarks cell: one dashed line per
/// item, joined by line breaks.
pub open spec fn listed_text(items: Seq<Seq<char>>) -> Seq<char> {
    join_separated(prefixed_lines("- "@, items))
}

/// The cells a tertiary item contributes to its row: its title, the
/// two cells left blank for the human tester, and the three list
/// texts.
pub open spec fn tertiary_cells(t: TertiaryItemView) -> Seq<CellView> {
    seq![
        text_cell(3, t.title, 1),
        blank_cell(4),
        blank_cell(5),
        text_cell(6, operations_text(t.operations), 1),
        text_cell(7, listed_text(t.confirmations), 1),
        text_cell(8, listed_text(t.remarks), 1),
    ]
}

/// One row per tertiary item, numbered from `r0`, before any title
/// cell of an enclosing level is placed.
pub open spec fn tertiary_rows(ts: Seq<TertiaryItemView>, r0: nat) -> Seq<Seq<CellView>>
    decreases ts.len(),
{
    if ts.len() == 0 {
        Seq::empty()
    } else {
        seq![seq![number_cell(r0)] + tertiary_cells(ts.first())] + tertiary_rows(
            ts.drop_first(),
            r0 + 1,
        )
    }
}

/// How many rows one secondary item occupies: one per tertiary child,
/// or a single placeholder row when it has none.
pub open spec fn rows_of_secondary(s: SecondaryItemView) -> nat {
    if s.children.len() == 0 {
        1
    } else {
        s.children.len()
    }
}

/// How many rows a run of secondary items occupies.
pub open spec fn rows_of_secondaries(ss: Seq<SecondaryItemView>) -> nat
    decreases ss.len(),
{
    if ss.len() == 0 {
        0
    } else {
        rows_of_secondary(ss.first()) + rows_of_secondaries(ss.drop_first())
    }
}

/// How many rows one primary item occupies: the rows of its secondary
/// children, or a single placeholder row when it has none.
pub open spec fn rows_of_primary(p: PrimaryItemView) -> nat {
    if p.children.len() == 0 {
        1
    } else {
        rows_of_secondaries(p.children)
    }
}

/// How many rows a run of primary items occupies.
pub open spec fn rows_of_primaries(ps: Seq<PrimaryItemView>) -> nat
    decreases ps.len(),
{
    if ps.len() == 0 {
        0
    } else {
        rows_of_primary(ps.first()) + rows_of_primaries(ps.drop_first())
    }
}

/// The placeholder row of a childless secondary item: only the row
/// number is filled; the title column of the enclosing primary item is
/// left to that item's own cell.
pub open spec fn empty_secondary_row(r0: nat) -> Seq<CellView> {
    seq![
        number_cell(r0),
        blank_cell(2),
        blank_cell(3),
        blank_cell(4),
        blank_cell(5),
        blank_cell(6),
        blank_cell(7),
        blank_cell(8),
    ]
}

/// The rows of one secondary item, numbered from `r0`. A secondary
/// item with children carries its title in column 2 of its first row,
/// spanning all its rows; a childless one yields the placeholder row.
pub open spec fn secondary_block(s: SecondaryItemView, r0: nat) -> Seq<Seq<CellView>> {
    if s.children.len() == 0 {
        seq![empty_secondary_row(r0)]
    } else {
        let base = tertiary_rows(s.children, r0);
        base.update(0, base[0].insert(1, text_cell(2, s.title, s.children.len())))
    }
}

/// The rows of a run of secondary items, numbered consecutively from
/// `r0`.
pub open spec fn secondary_blocks(ss: Seq<SecondaryItemView>, r0: nat) -> Seq<Seq<CellView>>
    decreases ss.len(),
{
    if ss.len() == 0 {
        Seq::empty()
    } else {
        secondary_block(ss.first(), r0) + secondary_blocks(
            ss.drop_first(),
            r0 + rows_of_secondary(ss.first()),
        )
    }
}

/// The placeholder row of a childless primary item: only the row
/// number is filled; the item's title is not written anywhere.
pub open spec fn empty_primary_row(r0: nat) -> Seq<CellView> {
    seq![
        number_cell(r0),
        blank_cell(1),
        blank_cell(2),
        blank_cell(3),
        blank_cell(4),
        blank_cell(5),
        blank_cell(6),
        blank_cell(7),
        blank_cell(8),
    ]
}

/// The rows of one primary item, numbered from `r0`. A primary item
/// with children carries its title in column 1 of its first row,
/// spanning all its rows; a childless one yields the placeholder row.
pub open spec fn primary_block(p: PrimaryItemView, r0: nat) -> Seq<Seq<CellView>> {
    if p.children.len() == 0 {
        seq![empty_primary_row(r0)]
    } else {
        let base = secondary_blocks(p.children, r0);
        base.update(0, base[0].insert(1, text_cell(1, p.title, rows_of_secondaries(p.children))))
    }
}

/// The rows of a run of primary items, numbered consecutively from
/// `r0`.
pub open spec fn primary_blocks(ps: Seq<PrimaryItemView>, r0: nat) -> Seq<Seq<CellView>>
    decreases ps.len(),
{
    if ps.len() == 0 {
        Seq::empty()
    } else {
        primary_block(ps.first(), r0) + primary_blocks(
            ps.drop_first(),
            r0 + rows_of_primary(ps.first()),
        )
    }
}

/// The whole grid: the header row, then the primary items' rows,
/// numbered continuously from 1.
pub open spec fn grid_rows(s: TestSpecView, opt: ColumnsOptionView) -> Seq<Seq<CellView>> {
    seq![header_row(opt)] + primary_blocks(s.cases, 1)
}

pub proof fn lemma_tertiary_rows_len(ts: Seq<TertiaryItemView>, r0: nat)
    ensures
        tertiary_rows(ts, r0).len() == ts.len(),
    decreases ts.len(),
{
    if ts.len() > 0 {
        lemma_tertiary_rows_len(ts.drop_first(), r0 + 1);
    }
}

pub proof fn lemma_secondary_block_len(s: SecondaryItemView, r0: nat)
    ensures
        secondary_block(s, r0).len() == rows_of_secondary(s),
{
    if s.children.len() > 0 {
        lemma_tertiary_rows_len(s.children, r0);
    }
}

pub proof fn lemma_secondary_blocks_len(ss: Seq<SecondaryItemView>, r0: nat)
    ensures
        secondary_blocks(ss, r0).len() == rows_of_secondaries(ss),
    decreases ss.len(),
{
    if ss.len() > 0 {
        lemma_secondary_block_len(ss.first(), r0);
        lemma_secondary_blocks_len(ss.drop_first(), r0 + rows_of_secondary(ss.first()));
    }
}

pub proof fn lemma_primary_block_len(p: PrimaryItemView, r0: nat)
    ensures
        primary_block(p, r0).len() == rows_of_primary(p),
{
    if p.children.len() > 0 {
        lemma_secondary_blocks_len(p.children, r0);
    }
}

pub proof fn lemma_primary_blocks_len(ps: Seq<PrimaryItemView>, r0: nat)
    ensures
        primary_blocks(ps, r0).len() == rows_of_primaries(ps),
    decreases ps.len(),
{
    if ps.len() > 0 {
        lemma_primary_block_len(ps.first(), r0);
        lemma_primary_blocks_len(ps.drop_first(), r0 + rows_of_primary(ps.first()));
    }
}

pub proof fn lemma_tertiary_rows_take_step(ts: Seq<TertiaryItemView>, r0: nat, i: int)
    requires
        0 <= i < ts.len(),
    ensures
        tertiary_rows(ts.take(i + 1), r0) == tertiary_rows(ts.take(i), r0) + seq![
            seq![number_cell((r0 + i) as nat)] + tertiary_cells(ts[i]),
        ],
    decreases i,
{
    if i == 0 {
        assert(ts.take(1).first() == ts[0]);
        assert(ts.take(1).drop_first() =~= Seq::<TertiaryItemView>::empty());
        assert(ts.take(0) =~= Seq::<TertiaryItemView>::empty());
        assert(tertiary_rows(Seq::<TertiaryItemView>::empty(), r0) == Seq::<Seq<CellView>>::empty());
        assert(tertiary_rows(Seq::<TertiaryItemView>::empty(), r0 + 1)
            == Seq::<Seq<CellView>>::empty());
        assert(tertiary_rows(ts.take(1), r0) =~= tertiary_rows(ts.take(0), r0) + seq![
            seq![number_cell((r0 + 0) as nat)] + tertiary_cells(ts[0]),
        ]);
    } else {
        let rest = ts.drop_first();
        lemma_tertiary_rows_take_step(rest, r0 + 1, i - 1);
        assert(ts.take(i + 1).drop_first() =~= rest.take(i));
        assert(ts.take(i).drop_first() =~= rest.take(i - 1));
        assert(ts.take(i + 1).first() == ts.first());
        assert(ts.take(i).first() == ts.first());
        assert(rest[i - 1] == ts[i]);
        assert((r0 + 1) + (i - 1) == r0 + i);
        assert(tertiary_rows(ts.take(i + 1), r0) =~= tertiary_rows(ts.take(i), r0) + seq![
            seq![number_cell((r0 + i) as nat)] + tertiary_cells(ts[i]),
        ]);
    }
}

pub proof fn lemma_secondary_blocks_take_step(ss: Seq<SecondaryItemView>, r0: nat, i: int)
    requires
        0 <= i < ss.len(),
    ensures
        secondary_blocks(ss.take(i + 1), r0) == secondary_blocks(ss.take(i), r0) + secondary_block(
            ss[i],
            (r0 + rows_of_secondaries(ss.take(i))) as nat,
        ),
    decreases i,
{
    if i == 0 {
        assert(ss.take(1).first() == ss[0]);
        assert(ss.take(1).drop_first() =~= Seq::<SecondaryItemView>::empty());
        assert(ss.take(0) =~= Seq::<SecondaryItemView>::empty());
        assert(secondary_blocks(Seq::<SecondaryItemView>::empty(), r0)
            == Seq::<Seq<CellView>>::empty());
        assert(secondary_blocks(Seq::<SecondaryItemView>::empty(), r0 + rows_of_secondary(ss[0]))
            == Seq::<Seq<CellView>>::empty());
        assert(rows_of_secondaries(ss.take(0)) == 0);
        assert(secondary_blocks(ss.take(1), r0) =~= secondary_blocks(ss.take(0), r0)
            + secondary_block(ss[0], (r0 + 0) as nat));
    } else {
        let rest = ss.drop_first();
        lemma_secondary_blocks_take_step(rest, r0 + rows_of_secondary(ss.first()), i - 1);
        assert(ss.take(i + 1).drop_first() =~= rest.take(i));
        assert(ss.take(i).drop_first() =~= rest.take(i - 1));
        assert(ss.take(i + 1).first() == ss.first());
        assert(ss.take(i).first() == ss.first());
        assert(rest[i - 1] == ss[i]);
        assert(rows_of_secondaries(ss.take(i)) == rows_of_secondary(ss.first())
            + rows_of_secondaries(ss.take(i).drop_first()));
        assert(secondary_blocks(ss.take(i + 1), r0) =~= secondary_blocks(ss.take(i), r0)
            + secondary_block(ss[i], (r0 + rows_of_secondaries(ss.take(i))) as nat));
    }
}

pub proof fn lemma_primary_blocks_take_step(ps: Seq<PrimaryItemView>, r0: nat, i: int)
    requires
        0 <= i < ps.len(),
    ensures
        primary_blocks(ps.take(i + 1), r0) == primary_blocks(ps.take(i), r0) + primary_block(
            ps[i],
            (r0 + rows_of_primaries(ps.take(i))) as nat,
        ),
    decreases i,
{
    if i == 0 {
        assert(ps.take(1).first() == ps[0]);
        assert(ps.take(1).drop_first() =~= Seq::<PrimaryItemView>::empty());
        assert(ps.take(0) =~= Seq::<PrimaryItemView>::empty());
        assert(primary_blocks(Seq::<PrimaryItemView>::empty(), r0)
            == Seq::<Seq<CellView>>::empty());
        assert(primary_blocks(Seq::<PrimaryItemView>::empty(), r0 + rows_of_primary(ps[0]))
            == Seq::<Seq<CellView>>::empty());
        assert(rows_of_primaries(ps.take(0)) == 0);
        assert(primary_blocks(ps.take(1), r0) =~= primary_blocks(ps.take(0), r0) + primary_block(
            ps[0],
            (r0 + 0) as nat,
        ));
    } else {
        let rest = ps.drop_first();
        lemma_primary_blocks_take_step(rest, r0 + rows_of_primary(ps.first()), i - 1);
        assert(ps.take(i + 1).drop_first() =~= rest.take(i));
        assert(ps.take(i).drop_first() =~= rest.take(i - 1));
        assert(ps.take(i + 1).first() == ps.first());
        assert(ps.take(i).first() == ps.first());
        assert(rest[i - 1] == ps[i]);
        assert(rows_of_primaries(ps.take(i)) == rows_of_primary(ps.first()) + rows_of_primaries(
            ps.take(i).drop_first(),
        ));
        assert(primary_blocks(ps.take(i + 1), r0) =~= primary_blocks(ps.take(i), r0)
            + primary_block(ps[i], (r0 + rows_of_primaries(ps.take(i))) as nat));
    }
}

pub proof fn lemma_rows_of_secondaries_take_step(ss: Seq<SecondaryItemView>, i: int)
    requires
        0 <= i < ss.len(),
    ensures
        rows_of_secondaries(ss.take(i + 1)) == rows_of_secondaries(ss.take(i)) + rows_of_secondary(
            ss[i],
        ),
    decreases i,
{
    if i == 0 {
        assert(ss.take(1).first() == ss[0]);
        assert(ss.take(1).drop_first() =~= Seq::<SecondaryItemView>::empty());
        assert(ss.take(0) =~= Seq::<SecondaryItemView>::empty());
    } else {
        let rest = ss.drop_first();
        lemma_rows_of_secondaries_take_step(rest, i - 1);
        assert(ss.take(i + 1).drop_first() =~= rest.take(i));
        assert(ss.take(i).drop_first() =~= rest.take(i - 1));
        assert(ss.take(i + 1).first() == ss.first());
        assert(ss.take(i).first() == ss.first());
        assert(rest[i - 1] == ss[i]);
    }
}

pub proof fn lemma_rows_of_primaries_take_step(ps: Seq<PrimaryItemView>, i: int)
    requires
        0 <= i < ps.len(),
    ensures
        rows_of_primaries(ps.take(i + 1)) == rows_of_primaries(ps.take(i)) + rows_of_primary(
            ps[i],
        ),
    decreases i,
{
    if i == 0 {
        assert(ps.take(1).first() == ps[0]);
        assert(ps.take(1).drop_first() =~= Seq::<PrimaryItemView>::empty());
        assert(ps.take(0) =~= Seq::<PrimaryItemView>::empty());
    } else {
        let rest = ps.drop_first();
        lemma_rows_of_primaries_take_step(rest, i - 1);
        assert(ps.take(i + 1).drop_first() =~= rest.take(i));
        assert(ps.take(i).drop_first() =~= rest.take(i - 1));
        assert(ps.take(i + 1).first() == ps.first());
        assert(ps.take(i).first() == ps.first());
        assert(rest[i - 1] == ps[i]);
    }
}

/// Every block of a secondary run opens with a row of at least one
/// cell (the row number cell stands first in every row).
pub proof fn lemma_secondary_blocks_first(ss: Seq<SecondaryItemView>, r0: nat)
    requires
        ss.len() > 0,
    ensures
        secondary_blocks(ss, r0).len() > 0,
        secondary_blocks(ss, r0)[0].len() >= 1,
{
    let s = ss.first();
    lemma_secondary_block_len(s, r0);
    assert(secondary_blocks(ss, r0)[0] == secondary_block(s, r0)[0]);
    if s.children.len() == 0 {
        assert(secondary_block(s, r0)[0].len() >= 1);
    } else {
        let base = tertiary_rows(s.children, r0);
        assert(base[0] == seq![number_cell(r0)] + tertiary_cells(s.children.first()));
        assert(secondary_block(s, r0)[0].len() >= 1);
    }
}

/// The exact text of the operations cell of one tertiary item.
fn operations_cell_text(items: &Vec<String>) -> (r: String)
    ensures
        r@ == operations_text(items.deep_view()),
{
    let mut buf = String::new();
    let ghost mut lines: Seq<Seq<char>> = Seq::empty();
    let mut i: usize = 0;
    while i < items.len()
        invariant
            i <= items@.len(),
            items.deep_view().len() == items@.len(),
            buf@ == join_separated(lines),
            lines == numbered_lines(items.deep_view().take(i as int), 1),
            lines.len() == i,
        decreases items@.len() - i,
    {
        if i > 0 {
            buf.append("\n");
        }
        let num = crate::text::decimal_string(i + 1);
        buf.append(num.as_str());
        buf.append(". ");
        buf.append(items[i].as_str());
        proof {
            reveal_strlit("\n");
            assert("\n"@ =~= line_break());
            let l = crate::text::dec_digits((i + 1) as nat) + ". "@
                + items.deep_view()[i as int];
            lemma_join_separated_push(lines, l);
            lemma_numbered_lines_take_step(items.deep_view(), 1, i as int);
            lines = lines.push(l);
            assert(buf@ =~= join_separated(lines));
            assert(lines =~= numbered_lines(items.deep_view().take(i as int + 1), 1));
        }
        i = i + 1;
    }
    proof {
        assert(items.deep_view().take(items.deep_view().len() as int) =~= items.deep_view());
    }
    buf
}

/// The exact text of a confirmations or remarks cell of one tertiary
/// item.
fn listed_cell_text(items: &Vec<String>) -> (r: String)
    ensures
        r@ == listed_text(items.deep_view()),
{
    let mut buf = String::new();
    let ghost mut lines: Seq<Seq<char>> = Seq::empty();
    let mut i: usize = 0;
    while i < items.len()
        invariant
            i <= items@.len(),
            items.deep_view().len() == items@.len(),
            buf@ == join_separated(lines),
            lines == prefixed_lines("- "@, items.deep_view().take(i as int)),
            lines.len() == i,
        decreases items@.len() - i,
    {
        if i > 0 {
            buf.append("\n");
        }
        buf.append("- ");
        buf.append(items[i].as_str());
        proof {
            reveal_strlit("\n");
            assert("\n"@ =~= line_break());
            let l = "- "@ + items.deep_view()[i as int];
            lemma_join_separated_push(lines, l);
            lemma_prefixed_lines_take_step("- "@, items.deep_view(), i as int);
            lines = lines.push(l);
            assert(buf@ =~= join_separated(lines));
            assert(lines =~= prefixed_lines("- "@, items.deep_view().take(i as int + 1)));
        }
        i = i + 1;
    }
    proof {
        assert(items.deep_view().take(items.deep_view().len() as int) =~= items.deep_view());
    }
    buf
}

/// Builds the data row of one tertiary item, numbered `r`.
fn tertiary_row(t: &TertiaryItem, r: usize) -> (row: Vec<Cell>)
    ensures
        row.deep_view() == seq![number_cell(r as nat)] + tertiary_cells(t@),
{
    let mut row: Vec<Cell> = Vec::new();
    row.push(Cell { col: 0, value: CellValue::Number(r), span: 1 });
    row.push(Cell { col: 3, value: CellValue::Text(t.title.clone()), span: 1 });
    row.push(Cell { col: 4, value: CellValue::Blank, span: 1 });
    row.push(Cell { col: 5, value: CellValue::Blank, span: 1 });
    row.push(Cell { col: 6, value: CellValue::Text(operations_cell_text(&t.operations)), span: 1 });
    row.push(
        Cell { col: 7, value: CellValue::Text(listed_cell_text(&t.confirmations)), span: 1 },
    );
    row.push(Cell { col: 8, value: CellValue::Text(listed_cell_text(&t.remarks)), span: 1 });
    proof {
        assert(row.deep_view() =~~= seq![number_cell(r as nat)] + tertiary_cells(t@));
    }
    row
}

/// Builds the placeholder row of a childless secondary item.
fn empty_secondary_row_exec(r: usize) -> (row: Vec<Cell>)
    ensures
        row.deep_view() == empty_secondary_row(r as nat),
{
    let mut row: Vec<Cell> = Vec::new();
    row.push(Cell { col: 0, value: CellValue::Number(r), span: 1 });
    proof {
        assert(row.deep_view() =~= empty_secondary_row(r as nat).take(1int));
    }
    let mut c: usize = 2;
    while c < 9
        invariant
            2 <= c <= 9,
            row@.len() == c as int - 1,
            row.deep_view() == empty_secondary_row(r as nat).take(c as int - 1),
        decreases 9 - c,
    {
        row.push(Cell { col: c, value: CellValue::Blank, span: 1 });
        proof {
            assert(row.deep_view() =~= empty_secondary_row(r as nat).take(c as int));
        }
        c = c + 1;
    }
    proof {
        assert(empty_secondary_row(r as nat).take(8int) =~= empty_secondary_row(r as nat));
    }
    row
}

/// Builds the placeholder row of a childless primary item.
fn empty_primary_row_exec(r: usize) -> (row: Vec<Cell>)
    ensures
        row.deep_view() == empty_primary_row(r as nat),
{
    let mut row: Vec<Cell> = Vec::new();
    row.push(Cell { col: 0, value: CellValue::Number(r), span: 1 });
    proof {
        assert(row.deep_view() =~= empty_primary_row(r as nat).take(1int));
    }
    let mut c: usize = 1;
    while c < 9
        invariant
            1 <= c <= 9,
            row@.len() == c as int,
            row.deep_view() == empty_primary_row(r as nat).take(c as int),
        decreases 9 - c,
    {
        row.push(Cell { col: c, value: CellValue::Blank, span: 1 });
        proof {
            assert(row.deep_view() =~~= empty_primary_row(r as nat).take(c as int + 1));
        }
        c = c + 1;
    }
    proof {
        assert(empty_primary_row(r as nat).take(9int) =~= empty_primary_row(r as nat));
    }
    row
}

/// Places a branch title over the rows written since `start`: the cell
/// enters the row at `start` right after the row number, spanning all
/// rows up to the current end. A span of 1 stands for a plain cell,
/// a larger span for a merged region.
fn place_title(rows: &mut Vec<Vec<Cell>>, start: usize, col: usize, title: &String)
    requires
        start < old(rows).len(),
        old(rows).deep_view()[start as int].len() >= 1,
    ensures
        final(rows).deep_view() == old(rows).deep_view().update(
            start as int,
            old(rows).deep_view()[start as int].insert(
                1,
                text_cell(col as nat, title@, (old(rows)@.len() - start) as nat),
            ),
        ),
{
    let span = rows.len() - start;
    let ghost before = rows@;
    let mut row = rows.remove(start);
    proof {
        assert(before[start as int].deep_view().len() == before[start as int]@.len());
    }
    row.insert(1, Cell { col, value: CellValue::Text(title.clone()), span });
    rows.insert(start, row);
    proof {
        assert(rows@ =~= before.update(start as int, row));
        assert(row.deep_view() =~= before[start as int].deep_view().insert(
            1,
            text_cell(col as nat, title@, span as nat),
        ));
        assert(rows.deep_view() =~= old(rows).deep_view().update(start as int, row.deep_view()));
    }
}

/// Lays the specification out as the row grid of the workbook sheet:
/// the header row from the configured column headers, one data row per
/// tertiary item (or per childless branch), continuous row numbers
/// from 1, and the primary and secondary titles each placed once over
/// their block of rows.
pub fn layout(spec: &TestSpec, opt: &GenerateOption) -> (g: Grid)
    ensures
        g@ == grid_rows(spec@, opt@.column_options),
{
    let mut rows: Vec<Vec<Cell>> = Vec::new();
    let mut hr: Vec<Cell> = Vec::new();
    let mut c: usize = 0;
    while c < 9
        invariant
            c <= 9,
            hr@.len() == c as int,
            hr.deep_view() == header_row(opt@.column_options).take(c as int),
        decreases 9 - c,
    {
        let co = opt.column_options.column(c);
        hr.push(Cell { col: c, value: CellValue::Text(co.header.clone()), span: 1 });
        proof {
            assert(hr.deep_view() =~~= header_row(opt@.column_options).take(c as int + 1));
        }
        c = c + 1;
    }
    rows.push(hr);
    proof {
        assert(header_row(opt@.column_options).take(9int) =~= header_row(opt@.column_options));
        assert(spec@.cases.take(0int) =~= Seq::<PrimaryItemView>::empty());
        assert(rows.deep_view() =~~= seq![header_row(opt@.column_options)] + primary_blocks(
            spec@.cases.take(0int),
            1,
        ));
    }

    let mut pi: usize = 0;
    while pi < spec.cases.len()
        invariant
            pi <= spec.cases@.len(),
            spec@.cases.len() == spec.cases@.len(),
            rows@.len() == 1 + rows_of_primaries(spec@.cases.take(pi as int)),
            rows.deep_view() == seq![header_row(opt@.column_options)] + primary_blocks(
                spec@.cases.take(pi as int),
                1,
            ),
        decreases spec.cases@.len() - pi,
    {
        let p = &spec.cases[pi];
        let prim_start = rows.len();
        let ghost base = rows.deep_view();
        proof {
            assert(p@ == spec@.cases[pi as int]);
        }
        if p.children.len() == 0 {
            let row = empty_primary_row_exec(prim_start);
            rows.push(row);
            proof {
                assert(primary_block(p@, prim_start as nat) =~= seq![empty_primary_row(
                    prim_start as nat,
                )]);
                assert(rows.deep_view() =~~= base + primary_block(p@, prim_start as nat));
            }
        } else {
            let mut si: usize = 0;
            while si < p.children.len()
                invariant
                    si <= p.children@.len(),
                    p@.children.len() == p.children@.len(),
                    base.len() == prim_start as int,
                    prim_start <= rows@.len(),
                    rows@.len() == prim_start + rows_of_secondaries(
                        p@.children.take(si as int),
                    ),
                    rows.deep_view() == base + secondary_blocks(
                        p@.children.take(si as int),
                        prim_start as nat,
                    ),
                decreases p.children@.len() - si,
            {
                let s = &p.children[si];
                let sec_start = rows.len();
                let ghost base2 = rows.deep_view();
                proof {
                    assert(s@ == p@.children[si as int]);
                }
                if s.children.len() == 0 {
                    let row = empty_secondary_row_exec(sec_start);
                    rows.push(row);
                    proof {
                        assert(secondary_block(s@, sec_start as nat) =~= seq![
                            empty_secondary_row(sec_start as nat),
                        ]);
                        assert(rows.deep_view() =~~= base2 + secondary_block(
                            s@,
                            sec_start as nat,
                        ));
                    }
                } else {
                    let mut ti: usize = 0;
                    while ti < s.children.len()
                        invariant
                            ti <= s.children@.len(),
                            s@.children.len() == s.children@.len(),
                            base2.len() == sec_start as int,
                            rows@.len() == sec_start + ti,
                            rows.deep_view() == base2 + tertiary_rows(
                                s@.children.take(ti as int),
                                sec_start as nat,
                            ),
                        decreases s.children@.len() - ti,
                    {
                        let row = tertiary_row(&s.children[ti], rows.len());
                        let ghost prev = rows.deep_view();
                        let ghost prev_raw = rows@;
                        rows.push(row);
                        proof {
                            assert(rows@ == prev_raw.push(row));
                            assert forall|j: int| 0 <= j < prev_raw.len() implies
                                rows.deep_view()[j] == prev[j] by {
                                assert(rows@[j] == prev_raw[j]);
                            }
                            assert(rows.deep_view()[prev_raw.len() as int] == row.deep_view());
                            assert(rows.deep_view() =~= prev.push(row.deep_view()));
                            assert(s@.children[ti as int] == s.children@[ti as int]@);
                            lemma_tertiary_rows_take_step(
                                s@.children,
                                sec_start as nat,
                                ti as int,
                            );
                            lemma_tertiary_rows_len(
                                s@.children.take(ti as int),
                                sec_start as nat,
                            );
                            lemma_tertiary_rows_len(
                                s@.children.take(ti as int + 1),
                                sec_start as nat,
                            );
                            let target = base2 + tertiary_rows(
                                s@.children.take(ti as int + 1),
                                sec_start as nat,
                            );
                            assert(target =~= prev.push(row.deep_view()));
                            assert(rows.deep_view() =~= target);
                        }
                        ti = ti + 1;
                    }
                    proof {
                        assert(s@.children.take(s@.children.len() as int) =~= s@.children);
                        lemma_tertiary_rows_len(s@.children, sec_start as nat);
                        assert(rows.deep_view()[sec_start as int] == tertiary_rows(
                            s@.children,
                            sec_start as nat,
                        )[0]);
                        assert(tertiary_rows(s@.children, sec_start as nat)[0] == seq![
                            number_cell(sec_start as nat),
                        ] + tertiary_cells(s@.children.first()));
                    }
                    place_title(&mut rows, sec_start, 2, &s.title);
                    proof {
                        assert(rows.deep_view() =~~= base2 + secondary_block(
                            s@,
                            sec_start as nat,
                        ));
                    }
                }
                proof {
                    lemma_secondary_blocks_take_step(p@.children, prim_start as nat, si as int);
                    lemma_rows_of_secondaries_take_step(p@.children, si as int);
                    lemma_secondary_block_len(s@, sec_start as nat);
                    lemma_secondary_blocks_len(p@.children.take(si as int), prim_start as nat);
                    lemma_secondary_blocks_len(
                        p@.children.take(si as int + 1),
                        prim_start as nat,
                    );
                    assert(rows.deep_view() =~~= base + secondary_blocks(
                        p@.children.take(si as int + 1),
                        prim_start as nat,
                    ));
                }
                si = si + 1;
            }
            proof {
                assert(p@.children.take(p@.children.len() as int) =~= p@.children);
                lemma_secondary_blocks_first(p@.children, prim_start as nat);
            }
            place_title(&mut rows, prim_start, 1, &p.title);
            proof {
                lemma_secondary_blocks_len(p@.children, prim_start as nat);
                assert(rows.deep_view() =~~= base + primary_block(p@, prim_start as nat));
            }
        }
        proof {
            lemma_primary_blocks_take_step(spec@.cases, 1, pi as int);
            lemma_rows_of_primaries_take_step(spec@.cases, pi as int);
            lemma_primary_block_len(p@, prim_start as nat);
            lemma_primary_blocks_len(spec@.cases.take(pi as int), 1);
            lemma_primary_blocks_len(spec@.cases.take(pi as int + 1), 1);
            assert(rows.deep_view() =~~= seq![header_row(opt@.column_options)] + primary_blocks(
                spec@.cases.take(pi as int + 1),
                1,
            ));
        }
        pi = pi + 1;
    }
    proof {
        assert(spec@.cases.take(spec@.cases.len() as int) =~= spec@.cases);
    }
    Grid { rows }
}

} // verus!
