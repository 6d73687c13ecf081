use vstd::prelude::*;

use crate::grid::{
    empty_primary_row, empty_secondary_row, grid_rows, header_row,
    lemma_primary_block_len, lemma_primary_blocks_len, lemma_secondary_block_len,
    lemma_secondary_blocks_len, lemma_tertiary_rows_len, number_cell, primary_block,
    primary_blocks, rows_of_primaries, rows_of_primary, rows_of_secondaries, rows_of_secondary,
    secondary_block, secondary_blocks, tertiary_cells, tertiary_rows, text_cell, CellView,
};
use crate::markdown::{
    markdown_lines, markdown_text, primaries_lines, primary_lines, secondaries_lines,
    secondary_lines, section_lines, tertiaries_lines, tertiary_lines,
};
use crate::options::ColumnsOptionView;
use crate::testspec::{PrimaryItemView, SecondaryItemView, TertiaryItemView, TestSpecView};
use crate::text::{
    dec_digits, digit_char, line_break, numbered_lines, prefixed_lines,
    lemma_numbered_lines_len, lemma_prefixed_lines_len,
};

verus! {

/// How many tertiary items a run of secondary items holds.
pub open spec fn tertiaries_in_secondaries(ss: Seq<SecondaryItemView>) -> nat
    decreases ss.len(),
{
    if ss.len() == 0 {
        0
    } else {
        ss.first().children.len() + tertiaries_in_secondaries(ss.drop_first())
    }
}

/// How many tertiary items a run of primary items holds.
pub open spec fn tertiaries_in_primaries(ps: Seq<PrimaryItemView>) -> nat
    decreases ps.len(),
{
    if ps.len() == 0 {
        0
    } else {
        tertiaries_in_secondaries(ps.first().children) + tertiaries_in_primaries(ps.drop_first())
    }
}

/// How many tertiary items a whole specification holds.
pub open spec fn total_tertiaries(s: TestSpecView) -> nat {
    tertiaries_in_primaries(s.cases)
}

/// No branch of the tree is childless: every primary item has a
/// secondary child, and every secondary item a tertiary child.
pub open spec fn no_empty_branches(s: TestSpecView) -> bool {
    forall|i: int|
        0 <= i < s.cases.len() ==> {
            &&& (#[trigger] s.cases[i]).children.len() > 0
            &&& forall|j: int|
                0 <= j < s.cases[i].children.len() ==> (#[trigger] s.cases[i].children[j])
                    .children.len() > 0
        }
}

proof fn lemma_rows_match_tertiaries_secondaries(ss: Seq<SecondaryItemView>)
    requires
        forall|j: int| 0 <= j < ss.len() ==> (#[trigger] ss[j]).children.len() > 0,
    ensures
        rows_of_secondaries(ss) == tertiaries_in_secondaries(ss),
    decreases ss.len(),
{
    if ss.len() > 0 {
        assert(ss[0].children.len() > 0);
        assert(forall|j: int|
            0 <= j < ss.drop_first().len() ==> (#[trigger] ss.drop_first()[j]).children.len()
                > 0) by {
            assert(forall|j: int|
                0 <= j < ss.drop_first().len() ==> ss.drop_first()[j] == ss[j + 1]);
        }
        lemma_rows_match_tertiaries_secondaries(ss.drop_first());
    }
}

proof fn lemma_rows_match_tertiaries_primaries(ps: Seq<PrimaryItemView>)
    requires
        forall|i: int|
            0 <= i < ps.len() ==> {
                &&& (#[trigger] ps[i]).children.len() > 0
                &&& forall|j: int|
                    0 <= j < ps[i].children.len() ==> (#[trigger] ps[i].children[j]).children.len()
                        > 0
            },
    ensures
        rows_of_primaries(ps) == tertiaries_in_primaries(ps),
    decreases ps.len(),
{
    if ps.len() > 0 {
        assert(ps[0].children.len() > 0);
        lemma_rows_match_tertiaries_secondaries(ps[0].children);
        assert(forall|i: int|
            0 <= i < ps.drop_first().len() ==> ps.drop_first()[i] == ps[i + 1]);
        lemma_rows_match_tertiaries_primaries(ps.drop_first());
    }
}

/// Law: for a specification with no empty branches, the grid holds
/// exactly one row per tertiary item, plus the header row.
pub proof fn lemma_grid_row_count(s: TestSpecView, opt: ColumnsOptionView)
    requires
        no_empty_branches(s),
    ensures
        grid_rows(s, opt).len() == 1 + total_tertiaries(s),
{
    lemma_primary_blocks_len(s.cases, 1);
    lemma_rows_match_tertiaries_primaries(s.cases);
}

/// Law: rendering an empty specification produces Markdown holding
/// only the title heading, and a grid holding only the header row.
pub proof fn lemma_empty_specification(s: TestSpecView, opt: ColumnsOptionView)
    requires
        s.cases.len() == 0,
    ensures
        markdown_lines(s) == seq!["# "@ + s.title],
        markdown_text(s) == "# "@ + s.title + line_break(),
        grid_rows(s, opt) == seq![header_row(opt)],
{
    assert(primaries_lines(s.cases) == Seq::<Seq<char>>::empty());
    assert(markdown_lines(s) =~= seq!["# "@ + s.title]);
    let l = "# "@ + s.title;
    assert(seq![l].drop_first() =~= Seq::<Seq<char>>::empty());
    assert(crate::text::join_terminated(Seq::<Seq<char>>::empty()) == Seq::<char>::empty());
    assert(markdown_text(s) =~= l + line_break());
    assert(primary_blocks(s.cases, 1) == Seq::<Seq<CellView>>::empty());
    assert(grid_rows(s, opt) =~= seq![header_row(opt)]);
}

proof fn lemma_tertiary_rows_numbers(ts: Seq<crate::testspec::TertiaryItemView>, r0: nat)
    ensures
        forall|j: int|
            0 <= j < ts.len() ==> {
                &&& (#[trigger] tertiary_rows(ts, r0)[j]).len() >= 1
                &&& tertiary_rows(ts, r0)[j][0] == number_cell((r0 + j) as nat)
            },
    decreases ts.len(),
{
    lemma_tertiary_rows_len(ts, r0);
    if ts.len() > 0 {
        let rest = ts.drop_first();
        lemma_tertiary_rows_numbers(rest, r0 + 1);
        lemma_tertiary_rows_len(rest, r0 + 1);
        assert forall|j: int| 0 <= j < ts.len() implies {
            &&& (#[trigger] tertiary_rows(ts, r0)[j]).len() >= 1
            &&& tertiary_rows(ts, r0)[j][0] == number_cell((r0 + j) as nat)
        } by {
            if j == 0 {
                assert(tertiary_rows(ts, r0)[0] == seq![number_cell(r0)] + tertiary_cells(
                    ts.first(),
                ));
            } else {
                assert(tertiary_rows(ts, r0)[j] == tertiary_rows(rest, r0 + 1)[j - 1]);
                assert((r0 + 1) + (j - 1) == r0 + j);
            }
        }
    }
}

proof fn lemma_secondary_block_numbers(s: SecondaryItemView, r0: nat)
    ensures
        forall|j: int|
            0 <= j < rows_of_secondary(s) ==> {
                &&& (#[trigger] secondary_block(s, r0)[j]).len() >= 1
                &&& secondary_block(s, r0)[j][0] == number_cell((r0 + j) as nat)
            },
{
    lemma_secondary_block_len(s, r0);
    if s.children.len() == 0 {
        assert(secondary_block(s, r0)[0] == empty_secondary_row(r0));
        assert(empty_secondary_row(r0)[0] == number_cell(r0));
    } else {
        let base = tertiary_rows(s.children, r0);
        lemma_tertiary_rows_numbers(s.children, r0);
        lemma_tertiary_rows_len(s.children, r0);
        let updated = base[0].insert(1, text_cell(2, s.title, s.children.len()));
        assert(updated[0] == base[0][0]);
        assert forall|j: int| 0 <= j < rows_of_secondary(s) implies {
            &&& (#[trigger] secondary_block(s, r0)[j]).len() >= 1
            &&& secondary_block(s, r0)[j][0] == number_cell((r0 + j) as nat)
        } by {
            if j == 0 {
                assert(secondary_block(s, r0)[0] == updated);
            } else {
                assert(secondary_block(s, r0)[j] == base[j]);
            }
        }
    }
}

proof fn lemma_secondary_blocks_numbers(ss: Seq<SecondaryItemView>, r0: nat)
    ensures
        forall|j: int|
            0 <= j < rows_of_secondaries(ss) ==> {
                &&& (#[trigger] secondary_blocks(ss, r0)[j]).len() >= 1
                &&& secondary_blocks(ss, r0)[j][0] == number_cell((r0 + j) as nat)
            },
    decreases ss.len(),
{
    lemma_secondary_blocks_len(ss, r0);
    if ss.len() > 0 {
        let head = ss.first();
        let rest = ss.drop_first();
        let h = rows_of_secondary(head);
        lemma_secondary_block_numbers(head, r0);
        lemma_secondary_block_len(head, r0);
        lemma_secondary_blocks_numbers(rest, r0 + h);
        lemma_secondary_blocks_len(rest, r0 + h);
        assert forall|j: int| 0 <= j < rows_of_secondaries(ss) implies {
            &&& (#[trigger] secondary_blocks(ss, r0)[j]).len() >= 1
            &&& secondary_blocks(ss, r0)[j][0] == number_cell((r0 + j) as nat)
        } by {
            if j < h {
                assert(secondary_blocks(ss, r0)[j] == secondary_block(head, r0)[j]);
            } else {
                assert(secondary_blocks(ss, r0)[j] == secondary_blocks(rest, r0 + h)[j - h]);
                assert((r0 + h) + (j - h) == r0 + j);
            }
        }
    }
}

proof fn lemma_primary_block_numbers(p: PrimaryItemView, r0: nat)
    ensures
        forall|j: int|
            0 <= j < rows_of_primary(p) ==> {
                &&& (#[trigger] primary_block(p, r0)[j]).len() >= 1
                &&& primary_block(p, r0)[j][0] == number_cell((r0 + j) as nat)
            },
{
    lemma_primary_block_len(p, r0);
    if p.children.len() == 0 {
        assert(primary_block(p, r0)[0] == empty_primary_row(r0));
        assert(empty_primary_row(r0)[0] == number_cell(r0));
    } else {
        let base = secondary_blocks(p.children, r0);
        lemma_secondary_blocks_numbers(p.children, r0);
        lemma_secondary_blocks_len(p.children, r0);
        let updated = base[0].insert(1, text_cell(1, p.title, rows_of_secondaries(p.children)));
        assert(updated[0] == base[0][0]);
        assert forall|j: int| 0 <= j < rows_of_primary(p) implies {
            &&& (#[trigger] primary_block(p, r0)[j]).len() >= 1
            &&& primary_block(p, r0)[j][0] == number_cell((r0 + j) as nat)
        } by {
            if j == 0 {
                assert(primary_block(p, r0)[0] == updated);
            } else {
                assert(primary_block(p, r0)[j] == base[j]);
            }
        }
    }
}

proof fn lemma_primary_blocks_numbers(ps: Seq<PrimaryItemView>, r0: nat)
    ensures
        forall|j: int|
            0 <= j < rows_of_primaries(ps) ==> {
                &&& (#[trigger] primary_blocks(ps, r0)[j]).len() >= 1
                &&& primary_blocks(ps, r0)[j][0] == number_cell((r0 + j) as nat)
            },
    decreases ps.len(),
{
    lemma_primary_blocks_len(ps, r0);
    if ps.len() > 0 {
        let head = ps.first();
        let rest = ps.drop_first();
        let h = rows_of_primary(head);
        lemma_primary_block_numbers(head, r0);
        lemma_primary_block_len(head, r0);
        lemma_primary_blocks_numbers(rest, r0 + h);
        lemma_primary_blocks_len(rest, r0 + h);
        assert forall|j: int| 0 <= j < rows_of_primaries(ps) implies {
            &&& (#[trigger] primary_blocks(ps, r0)[j]).len() >= 1
            &&& primary_blocks(ps, r0)[j][0] == number_cell((r0 + j) as nat)
        } by {
            if j < h {
                assert(primary_blocks(ps, r0)[j] == primary_block(head, r0)[j]);
            } else {
                assert(primary_blocks(ps, r0)[j] == primary_blocks(rest, r0 + h)[j - h]);
                assert((r0 + h) + (j - h) == r0 + j);
            }
        }
    }
}

/// Law: the first cell of every data row carries the row's own index
/// as its number, so the numbers run 1, 2, 3, ... from the first data
/// row to the last: strictly increasing, starting at 1, with no gaps.
pub proof fn lemma_grid_row_numbers(s: TestSpecView, opt: ColumnsOptionView)
    ensures
        forall|r: int|
            1 <= r < grid_rows(s, opt).len() ==> {
                &&& (#[trigger] grid_rows(s, opt)[r]).len() >= 1
                &&& grid_rows(s, opt)[r][0] == number_cell(r as nat)
            },
{
    lemma_primary_blocks_numbers(s.cases, 1);
    lemma_primary_blocks_len(s.cases, 1);
    assert forall|r: int| 1 <= r < grid_rows(s, opt).len() implies {
        &&& (#[trigger] grid_rows(s, opt)[r]).len() >= 1
        &&& grid_rows(s, opt)[r][0] == number_cell(r as nat)
    } by {
        assert(grid_rows(s, opt)[r] == primary_blocks(s.cases, 1)[r - 1]);
        assert(1 + (r - 1) == r);
    }
}

pub proof fn lemma_contains_split(a: Seq<Seq<char>>, b: Seq<Seq<char>>, x: Seq<char>)
    ensures
        (a + b).contains(x) <==> a.contains(x) || b.contains(x),
{
    if (a + b).contains(x) {
        let i = choose|i: int| 0 <= i < (a + b).len() && (a + b)[i] == x;
        if i < a.len() {
            assert(a[i] == x);
        } else {
            assert(b[i - a.len()] == x);
        }
    }
    if a.contains(x) {
        let i = choose|i: int| 0 <= i < a.len() && a[i] == x;
        assert((a + b)[i] == x);
    }
    if b.contains(x) {
        let i = choose|i: int| 0 <= i < b.len() && b[i] == x;
        assert((a + b)[a.len() + i] == x);
    }
}

proof fn lemma_dec_digits_first(n: nat)
    ensures
        dec_digits(n).len() >= 1,
        '0' <= dec_digits(n)[0] && dec_digits(n)[0] <= '9',
    decreases n,
{
    if n < 10 {
        assert(dec_digits(n)[0] == digit_char(n));
    } else {
        lemma_dec_digits_first(n / 10);
        assert(dec_digits(n)[0] == dec_digits(n / 10)[0]);
    }
}

/// Every numbered list line opens with a decimal digit, never `#`.
proof fn lemma_numbered_lines_heads(items: Seq<Seq<char>>, k: nat)
    ensures
        forall|i: int|
            0 <= i < numbered_lines(items, k).len() ==> {
                &&& (#[trigger] numbered_lines(items, k)[i]).len() > 0
                &&& numbered_lines(items, k)[i][0] != '#'
            },
    decreases items.len(),
{
    if items.len() > 0 {
        lemma_dec_digits_first(k);
        assert(numbered_lines(items, k)[0] == dec_digits(k) + ". "@ + items.first());
        assert(numbered_lines(items, k)[0][0] == dec_digits(k)[0]);
        lemma_numbered_lines_heads(items.drop_first(), k + 1);
        assert(forall|i: int|
            1 <= i < numbered_lines(items, k).len() ==> numbered_lines(items, k)[i]
                == numbered_lines(items.drop_first(), k + 1)[i - 1]);
    }
}

/// Every prefixed list line opens with the prefix's first character.
proof fn lemma_prefixed_lines_heads(prefix: Seq<char>, items: Seq<Seq<char>>)
    requires
        prefix.len() > 0,
    ensures
        forall|i: int|
            0 <= i < prefixed_lines(prefix, items).len() ==> {
                &&& (#[trigger] prefixed_lines(prefix, items)[i]).len() > 0
                &&& prefixed_lines(prefix, items)[i][0] == prefix[0]
            },
    decreases items.len(),
{
    if items.len() > 0 {
        assert(prefixed_lines(prefix, items)[0] == prefix + items.first());
        assert(prefixed_lines(prefix, items)[0][0] == prefix[0]);
        lemma_prefixed_lines_heads(prefix, items.drop_first());
        assert(forall|i: int|
            1 <= i < prefixed_lines(prefix, items).len() ==> prefixed_lines(prefix, items)[i]
                == prefixed_lines(prefix, items.drop_first())[i - 1]);
    }
}

/// A subsection block contains its own heading when its body is
/// non-empty, and contains none of the three subsection headings
/// whose body lines all open with a character other than `#`.
proof fn lemma_section_contains(heading: Seq<char>, body: Seq<Seq<char>>, x: Seq<char>)
    requires
        forall|i: int|
            0 <= i < body.len() ==> (#[trigger] body[i]).len() > 0 && body[i][0] != '#',
        x.len() > 0,
        x[0] == '#',
    ensures
        section_lines(heading, body).contains(x) <==> body.len() > 0 && x == heading,
{
    if body.len() > 0 {
        let head3 = seq![Seq::<char>::empty(), heading, Seq::<char>::empty()];
        lemma_contains_split(head3, body, x);
        if x == heading {
            assert(head3[1] == heading);
            assert(head3.contains(x));
        }
        if head3.contains(x) {
            let i = choose|i: int| 0 <= i < head3.len() && head3[i] == x;
            assert(x.len() > 0);
            assert(i == 1);
        }
        if body.contains(x) {
            let i = choose|i: int| 0 <= i < body.len() && body[i] == x;
            assert(body[i][0] != '#');
            assert(false);
        }
    }
}

/// Law: a subsection heading stands in a tertiary item's rendered
/// lines exactly when the matching list is non-empty: no dangling
/// heading over an empty list, no list without its heading.
pub proof fn lemma_subsection_heading_iff(t: TertiaryItemView)
    ensures
        tertiary_lines(t).contains("##### Operations"@) <==> t.operations.len() > 0,
        tertiary_lines(t).contains("##### Confirmation"@) <==> t.confirmations.len() > 0,
        tertiary_lines(t).contains("##### Remarks"@) <==> t.remarks.len() > 0,
{
    reveal_strlit("##### Operations");
    reveal_strlit("##### Confirmation");
    reveal_strlit("##### Remarks");
    reveal_strlit("#### ");
    reveal_strlit("- [ ] ");
    reveal_strlit("- ");
    let ops_h = "##### Operations"@;
    let conf_h = "##### Confirmation"@;
    let rem_h = "##### Remarks"@;
    let title_line = "#### "@ + t.title;
    let head2 = seq![Seq::<char>::empty(), title_line];
    let ops_body = numbered_lines(t.operations, 1);
    let conf_body = prefixed_lines("- [ ] "@, t.confirmations);
    let rem_body = prefixed_lines("- "@, t.remarks);
    let s_ops = section_lines(ops_h, ops_body);
    let s_conf = section_lines(conf_h, conf_body);
    let s_rem = section_lines(rem_h, rem_body);
    lemma_numbered_lines_heads(t.operations, 1);
    lemma_prefixed_lines_heads("- [ ] "@, t.confirmations);
    lemma_prefixed_lines_heads("- "@, t.remarks);
    lemma_numbered_lines_len(t.operations, 1);
    lemma_prefixed_lines_len("- [ ] "@, t.confirmations);
    lemma_prefixed_lines_len("- "@, t.remarks);
    assert(title_line[4] == ' ');
    assert(ops_h[4] == '#' && conf_h[4] == '#' && rem_h[4] == '#');
    assert(tertiary_lines(t) == head2 + s_ops + s_conf + s_rem);
    let tail2 = s_conf + s_rem;
    let tail1 = s_ops + tail2;
    assert(tertiary_lines(t) =~= head2 + tail1);
    lemma_heading_cases(head2, tail1, tail2, t, ops_h);
    lemma_heading_cases(head2, tail1, tail2, t, conf_h);
    lemma_heading_cases(head2, tail1, tail2, t, rem_h);
}

/// One shared containment analysis: which of the three subsection
/// headings stand in a tertiary block's lines.
proof fn lemma_heading_cases(
    head2: Seq<Seq<char>>,
    tail1: Seq<Seq<char>>,
    tail2: Seq<Seq<char>>,
    t: TertiaryItemView,
    x: Seq<char>,
)
    requires
        head2 == seq![Seq::<char>::empty(), "#### "@ + t.title],
        tail1 == section_lines("##### Operations"@, numbered_lines(t.operations, 1)) + tail2,
        tail2 == section_lines("##### Confirmation"@, prefixed_lines("- [ ] "@, t.confirmations))
            + section_lines("##### Remarks"@, prefixed_lines("- "@, t.remarks)),
        x.len() > 0,
        x[0] == '#',
        x.len() >= 5 ==> x[4] == '#',
        x == "##### Operations"@ || x == "##### Confirmation"@ || x == "##### Remarks"@,
        "##### Operations"@.len() == 16,
        "##### Confirmation"@.len() == 18,
        "##### Remarks"@.len() == 13,
        "#### "@.len() == 5,
        ("#### "@ + t.title)[4] == ' ',
        forall|i: int|
            0 <= i < numbered_lines(t.operations, 1).len() ==> {
                &&& (#[trigger] numbered_lines(t.operations, 1)[i]).len() > 0
                &&& numbered_lines(t.operations, 1)[i][0] != '#'
            },
        forall|i: int|
            0 <= i < prefixed_lines("- [ ] "@, t.confirmations).len() ==> {
                &&& (#[trigger] prefixed_lines("- [ ] "@, t.confirmations)[i]).len() > 0
                &&& prefixed_lines("- [ ] "@, t.confirmations)[i][0] == '-'
            },
        forall|i: int|
            0 <= i < prefixed_lines("- "@, t.remarks).len() ==> {
                &&& (#[trigger] prefixed_lines("- "@, t.remarks)[i]).len() > 0
                &&& prefixed_lines("- "@, t.remarks)[i][0] == '-'
            },
        numbered_lines(t.operations, 1).len() == t.operations.len(),
        prefixed_lines("- [ ] "@, t.confirmations).len() == t.confirmations.len(),
        prefixed_lines("- "@, t.remarks).len() == t.remarks.len(),
    ensures
        (head2 + tail1).contains(x) <==> {
            ||| x == "##### Operations"@ && t.operations.len() > 0
            ||| x == "##### Confirmation"@ && t.confirmations.len() > 0
            ||| x == "##### Remarks"@ && t.remarks.len() > 0
        },
{
    let ops_h = "##### Operations"@;
    let conf_h = "##### Confirmation"@;
    let rem_h = "##### Remarks"@;
    let title_line = "#### "@ + t.title;
    let s_ops = section_lines(ops_h, numbered_lines(t.operations, 1));
    let s_conf = section_lines(conf_h, prefixed_lines("- [ ] "@, t.confirmations));
    let s_rem = section_lines(rem_h, prefixed_lines("- "@, t.remarks));
    lemma_contains_split(head2, tail1, x);
    lemma_contains_split(s_ops, tail2, x);
    lemma_contains_split(s_conf, s_rem, x);
    assert(title_line.len() >= 5);
    assert(x != title_line);
    if head2.contains(x) {
        let i = choose|i: int| 0 <= i < head2.len() && head2[i] == x;
        assert(false);
    }
    lemma_section_contains(ops_h, numbered_lines(t.operations, 1), x);
    lemma_section_contains(conf_h, prefixed_lines("- [ ] "@, t.confirmations), x);
    lemma_section_contains(rem_h, prefixed_lines("- "@, t.remarks), x);
}

proof fn lemma_tertiary_rows_index(ts: Seq<TertiaryItemView>, r0: nat, j: int)
    requires
        0 <= j < ts.len(),
    ensures
        tertiary_rows(ts, r0)[j] == seq![number_cell((r0 + j) as nat)] + tertiary_cells(ts[j]),
    decreases j,
{
    lemma_tertiary_rows_len(ts, r0);
    if j == 0 {
        assert(tertiary_rows(ts, r0)[0] == seq![number_cell(r0)] + tertiary_cells(ts.first()));
    } else {
        let rest = ts.drop_first();
        lemma_tertiary_rows_index(rest, r0 + 1, j - 1);
        assert(tertiary_rows(ts, r0)[j] == tertiary_rows(rest, r0 + 1)[j - 1]);
        assert(rest[j - 1] == ts[j]);
        assert((r0 + 1) + (j - 1) == r0 + j);
    }
}

proof fn lemma_rows_of_secondaries_take_bound(ss: Seq<SecondaryItemView>, j: int)
    requires
        0 <= j < ss.len(),
    ensures
        rows_of_secondaries(ss.take(j)) + rows_of_secondary(ss[j]) <= rows_of_secondaries(ss),
    decreases j,
{
    let rest = ss.drop_first();
    if j == 0 {
        assert(ss.take(0) =~= Seq::<SecondaryItemView>::empty());
        assert(rows_of_secondaries(ss.take(0)) == 0);
    } else {
        lemma_rows_of_secondaries_take_bound(rest, j - 1);
        assert(ss.take(j).drop_first() =~= rest.take(j - 1));
        assert(ss.take(j).first() == ss.first());
        assert(rest[j - 1] == ss[j]);
    }
}

proof fn lemma_rows_of_primaries_take_bound(ps: Seq<PrimaryItemView>, i: int)
    requires
        0 <= i < ps.len(),
    ensures
        rows_of_primaries(ps.take(i)) + rows_of_primary(ps[i]) <= rows_of_primaries(ps),
    decreases i,
{
    let rest = ps.drop_first();
    if i == 0 {
        assert(ps.take(0) =~= Seq::<PrimaryItemView>::empty());
        assert(rows_of_primaries(ps.take(0)) == 0);
    } else {
        lemma_rows_of_primaries_take_bound(rest, i - 1);
        assert(ps.take(i).drop_first() =~= rest.take(i - 1));
        assert(ps.take(i).first() == ps.first());
        assert(rest[i - 1] == ps[i]);
    }
}

proof fn lemma_secondary_blocks_at(ss: Seq<SecondaryItemView>, r0: nat, j: int, d: int)
    requires
        0 <= j < ss.len(),
        0 <= d < rows_of_secondary(ss[j]),
    ensures
        secondary_blocks(ss, r0)[rows_of_secondaries(ss.take(j)) + d] == secondary_block(
            ss[j],
            (r0 + rows_of_secondaries(ss.take(j))) as nat,
        )[d],
    decreases j,
{
    let head = ss.first();
    let rest = ss.drop_first();
    let hr = rows_of_secondary(head);
    lemma_secondary_block_len(head, r0);
    if j == 0 {
        assert(ss.take(0) =~= Seq::<SecondaryItemView>::empty());
        assert(rows_of_secondaries(ss.take(0)) == 0);
        assert(secondary_blocks(ss, r0)[d] == secondary_block(head, r0)[d]);
    } else {
        lemma_secondary_blocks_at(rest, r0 + hr, j - 1, d);
        assert(ss.take(j).drop_first() =~= rest.take(j - 1));
        assert(ss.take(j).first() == ss.first());
        assert(rows_of_secondaries(ss.take(j)) == hr + rows_of_secondaries(rest.take(j - 1)));
        assert(rest[j - 1] == ss[j]);
        lemma_rows_of_secondaries_take_bound(rest, j - 1);
        lemma_secondary_blocks_len(rest, r0 + hr);
        let n = rows_of_secondaries(ss.take(j)) + d;
        assert(n - hr < secondary_blocks(rest, r0 + hr).len());
        assert(secondary_blocks(ss, r0)[n] == secondary_blocks(rest, r0 + hr)[n - hr]);
    }
}

proof fn lemma_primary_blocks_at(ps: Seq<PrimaryItemView>, r0: nat, i: int, d: int)
    requires
        0 <= i < ps.len(),
        0 <= d < rows_of_primary(ps[i]),
    ensures
        primary_blocks(ps, r0)[rows_of_primaries(ps.take(i)) + d] == primary_block(
            ps[i],
            (r0 + rows_of_primaries(ps.take(i))) as nat,
        )[d],
    decreases i,
{
    let head = ps.first();
    let rest = ps.drop_first();
    let hr = rows_of_primary(head);
    lemma_primary_block_len(head, r0);
    if i == 0 {
        assert(ps.take(0) =~= Seq::<PrimaryItemView>::empty());
        assert(rows_of_primaries(ps.take(0)) == 0);
        assert(primary_blocks(ps, r0)[d] == primary_block(head, r0)[d]);
    } else {
        lemma_primary_blocks_at(rest, r0 + hr, i - 1, d);
        assert(ps.take(i).drop_first() =~= rest.take(i - 1));
        assert(ps.take(i).first() == ps.first());
        assert(rows_of_primaries(ps.take(i)) == hr + rows_of_primaries(rest.take(i - 1)));
        assert(rest[i - 1] == ps[i]);
        lemma_rows_of_primaries_take_bound(rest, i - 1);
        lemma_primary_blocks_len(rest, r0 + hr);
        let n = rows_of_primaries(ps.take(i)) + d;
        assert(n - hr < primary_blocks(rest, r0 + hr).len());
        assert(primary_blocks(ps, r0)[n] == primary_blocks(rest, r0 + hr)[n - hr]);
    }
}

proof fn lemma_tertiary_cells_cols(t: TertiaryItemView)
    ensures
        tertiary_cells(t).len() == 6,
        forall|m: int| 0 <= m < 6 ==> (#[trigger] tertiary_cells(t)[m]).col >= 3,
{
}

/// The grid row where a secondary item's block of rows starts: one
/// header row, then the rows of the earlier primary items, then the
/// rows of the earlier secondary items of its own primary item.
pub open spec fn secondary_start_row(s: TestSpecView, i: int, j: int) -> int {
    1 + rows_of_primaries(s.cases.take(i)) as int + rows_of_secondaries(
        s.cases[i].children.take(j),
    ) as int
}

/// Law: a secondary item with `k` tertiary children (`k >= 1`) puts
/// its title into column 2 exactly once, as one cell spanning exactly
/// its `k` rows: placed in its first row, duplicated nowhere in that
/// row, and absent from every further row of its block.
pub proof fn lemma_merge_span(s: TestSpecView, opt: ColumnsOptionView, i: int, j: int)
    requires
        0 <= i < s.cases.len(),
        0 <= j < s.cases[i].children.len(),
        s.cases[i].children[j].children.len() >= 1,
    ensures
        ({
            let sec = s.cases[i].children[j];
            let k = sec.children.len();
            let r0 = secondary_start_row(s, i, j);
            let g = grid_rows(s, opt);
            &&& 1 <= r0 && r0 + k <= g.len()
            &&& exists|m: int|
                0 <= m < g[r0].len() && #[trigger] g[r0][m] == text_cell(2, sec.title, k)
            &&& forall|m1: int, m2: int|
                0 <= m1 < g[r0].len() && 0 <= m2 < g[r0].len() && (#[trigger] g[r0][m1]).col == 2
                    && (#[trigger] g[r0][m2]).col == 2 ==> m1 == m2
            &&& forall|d: int, m: int|
                1 <= d < k && 0 <= m < g[r0 + d].len() ==> (#[trigger] g[r0 + d][m]).col != 2
        }),
{
    let p = s.cases[i];
    let sec = p.children[j];
    let k = sec.children.len();
    let g = grid_rows(s, opt);
    let prim_r0 = 1 + rows_of_primaries(s.cases.take(i));
    let l0 = rows_of_secondaries(p.children.take(j));
    let r0 = secondary_start_row(s, i, j);
    let col2cell = text_cell(2, sec.title, k);

    // bounds
    lemma_rows_of_primaries_take_bound(s.cases, i);
    lemma_rows_of_secondaries_take_bound(p.children, j);
    lemma_primary_blocks_len(s.cases, 1);
    lemma_secondary_blocks_len(p.children, prim_r0 as nat);
    lemma_secondary_block_len(sec, r0 as nat);
    assert(rows_of_secondary(sec) == k);
    assert(rows_of_primary(p) == rows_of_secondaries(p.children));
    assert(l0 + k <= rows_of_primary(p));
    assert(r0 + k <= g.len());

    let pb = primary_block(p, prim_r0 as nat);
    let sb = secondary_blocks(p.children, prim_r0 as nat);
    let tb = tertiary_rows(sec.children, r0 as nat);
    lemma_tertiary_rows_len(sec.children, r0 as nat);
    lemma_tertiary_cells_cols(sec.children[0]);

    // the shape of the block's own rows
    let b0 = seq![number_cell(r0 as nat)] + tertiary_cells(sec.children[0]);
    lemma_tertiary_rows_index(sec.children, r0 as nat, 0);
    assert(tb[0] == b0);
    let w = tb[0].insert(1, col2cell);
    assert(w =~= seq![number_cell(r0 as nat), col2cell] + tertiary_cells(sec.children[0]));
    assert(secondary_block(sec, r0 as nat)[0] == w);

    // connect grid rows to the block's rows
    assert forall|d: int| #![trigger g.index(r0 + d)] 0 <= d < k implies g[r0 + d] == if l0 + d
        == 0 {
        pb[0]
    } else {
        secondary_block(sec, r0 as nat)[d]
    } by {
        lemma_primary_blocks_at(s.cases, 1, i, l0 + d);
        assert(g[r0 + d] == primary_blocks(s.cases, 1)[rows_of_primaries(s.cases.take(i)) + (l0
            + d)]);
        assert(g[r0 + d] == pb[l0 + d]);
        lemma_secondary_blocks_at(p.children, prim_r0 as nat, j, d);
        if l0 + d > 0 {
            assert(pb[l0 + d] == sb[l0 + d]);
            assert(sb[l0 + d] == secondary_block(sec, r0 as nat)[d]);
        }
    }

    // the first row of the block
    if l0 == 0 {
        // also the first row of the primary block: the primary title
        // cell enters at position 1, pushing the column-2 cell right
        lemma_secondary_blocks_at(p.children, prim_r0 as nat, j, 0);
        assert(sb[0] == w);
        let v = sb[0].insert(1, text_cell(1, p.title, rows_of_secondaries(p.children)));
        assert(pb[0] == v);
        assert(v =~= seq![
            number_cell(r0 as nat),
            text_cell(1, p.title, rows_of_secondaries(p.children)),
            col2cell,
        ] + tertiary_cells(sec.children[0]));
        assert(g[r0] == v);
        assert(g[r0][2] == col2cell);
        assert forall|m: int|
            0 <= m < g[r0].len() && (#[trigger] g[r0][m]).col == 2 implies m == 2 by {
            if m >= 3 {
                assert(g[r0][m] == tertiary_cells(sec.children[0])[m - 3]);
            }
        }
    } else {
        assert(g[r0] == w);
        assert(g[r0][1] == col2cell);
        assert forall|m: int|
            0 <= m < g[r0].len() && (#[trigger] g[r0][m]).col == 2 implies m == 1 by {
            if m >= 2 {
                assert(g[r0][m] == tertiary_cells(sec.children[0])[m - 2]);
            }
        }
    }

    // the further rows of the block hold no column-2 cell
    assert forall|d: int, m: int|
        1 <= d < k && 0 <= m < g[r0 + d].len() implies (#[trigger] g[r0 + d][m]).col != 2 by {
        assert(g[r0 + d] == secondary_block(sec, r0 as nat)[d]);
        assert(secondary_block(sec, r0 as nat)[d] == tb[d]);
        lemma_tertiary_rows_index(sec.children, r0 as nat, d);
        lemma_tertiary_cells_cols(sec.children[d]);
        if m >= 1 {
            assert(g[r0 + d][m] == tertiary_cells(sec.children[d])[m - 1]);
        }
    }
}

/// A heading line of the generated Markdown: one that opens with `#`.
/// No generated body line ever does.
pub open spec fn is_heading_line(l: Seq<char>) -> bool {
    l.len() > 0 && l[0] == '#'
}

/// The run of `#` characters a line opens with.
pub open spec fn leading_hashes(l: Seq<char>) -> nat
    decreases l.len(),
{
    if l.len() == 0 || l[0] != '#' {
        0
    } else {
        1 + leading_hashes(l.drop_first())
    }
}

/// A heading line's level; 0 for any other line.
pub open spec fn heading_level(l: Seq<char>) -> nat {
    if is_heading_line(l) {
        leading_hashes(l)
    } else {
        0
    }
}

/// How many lines are headings of the given level.
pub open spec fn count_at_level(ls: Seq<Seq<char>>, k: nat) -> nat
    decreases ls.len(),
{
    if ls.len() == 0 {
        0
    } else {
        (if heading_level(ls.first()) == k {
            1nat
        } else {
            0nat
        }) + count_at_level(ls.drop_first(), k)
    }
}

/// The heading lines, in order, with every other line left out.
pub open spec fn heading_lines(ls: Seq<Seq<char>>) -> Seq<Seq<char>>
    decreases ls.len(),
{
    if ls.len() == 0 {
        Seq::empty()
    } else {
        (if is_heading_line(ls.first()) {
            seq![ls.first()]
        } else {
            Seq::<Seq<char>>::empty()
        }) + heading_lines(ls.drop_first())
    }
}

/// The headings one tertiary item contributes, in order: its own
/// title heading, then one subsection heading per non-empty list.
pub open spec fn tertiary_headings(t: TertiaryItemView) -> Seq<Seq<char>> {
    seq!["#### "@ + t.title] + (if t.operations.len() > 0 {
        seq!["##### Operations"@]
    } else {
        Seq::<Seq<char>>::empty()
    }) + (if t.confirmations.len() > 0 {
        seq!["##### Confirmation"@]
    } else {
        Seq::<Seq<char>>::empty()
    }) + (if t.remarks.len() > 0 {
        seq!["##### Remarks"@]
    } else {
        Seq::<Seq<char>>::empty()
    })
}

pub open spec fn tertiaries_headings(ts: Seq<TertiaryItemView>) -> Seq<Seq<char>>
    decreases ts.len(),
{
    if ts.len() == 0 {
        Seq::empty()
    } else {
        tertiary_headings(ts.first()) + tertiaries_headings(ts.drop_first())
    }
}

pub open spec fn secondary_headings(s: SecondaryItemView) -> Seq<Seq<char>> {
    seq!["### "@ + s.title] + tertiaries_headings(s.children)
}

pub open spec fn secondaries_headings(ss: Seq<SecondaryItemView>) -> Seq<Seq<char>>
    decreases ss.len(),
{
    if ss.len() == 0 {
        Seq::empty()
    } else {
        secondary_headings(ss.first()) + secondaries_headings(ss.drop_first())
    }
}

pub open spec fn primary_headings(p: PrimaryItemView) -> Seq<Seq<char>> {
    seq!["## "@ + p.title] + secondaries_headings(p.children)
}

pub open spec fn primaries_headings(ps: Seq<PrimaryItemView>) -> Seq<Seq<char>>
    decreases ps.len(),
{
    if ps.len() == 0 {
        Seq::empty()
    } else {
        primary_headings(ps.first()) + primaries_headings(ps.drop_first())
    }
}

/// Every heading of the rendered document, in document order.
pub open spec fn document_headings(s: TestSpecView) -> Seq<Seq<char>> {
    seq!["# "@ + s.title] + primaries_headings(s.cases)
}

proof fn lemma_heading_lines_concat(a: Seq<Seq<char>>, b: Seq<Seq<char>>)
    ensures
        heading_lines(a + b) == heading_lines(a) + heading_lines(b),
    decreases a.len(),
{
    if a.len() == 0 {
        assert(a + b =~= b);
        assert(heading_lines(a + b) =~= heading_lines(a) + heading_lines(b));
    } else {
        assert((a + b).drop_first() =~= a.drop_first() + b);
        assert((a + b).first() == a.first());
        lemma_heading_lines_concat(a.drop_first(), b);
        assert(heading_lines(a + b) =~= heading_lines(a) + heading_lines(b));
    }
}

proof fn lemma_count_at_level_concat(a: Seq<Seq<char>>, b: Seq<Seq<char>>, k: nat)
    ensures
        count_at_level(a + b, k) == count_at_level(a, k) + count_at_level(b, k),
    decreases a.len(),
{
    if a.len() == 0 {
        assert(a + b =~= b);
    } else {
        assert((a + b).drop_first() =~= a.drop_first() + b);
        assert((a + b).first() == a.first());
        lemma_count_at_level_concat(a.drop_first(), b, k);
    }
}

proof fn lemma_heading_lines_none(ls: Seq<Seq<char>>, k: nat)
    requires
        forall|i: int| 0 <= i < ls.len() ==> !is_heading_line(#[trigger] ls[i]),
        k >= 1,
    ensures
        heading_lines(ls) == Seq::<Seq<char>>::empty(),
        count_at_level(ls, k) == 0,
    decreases ls.len(),
{
    if ls.len() > 0 {
        assert(!is_heading_line(ls[0]));
        assert(heading_level(ls[0]) == 0);
        assert(forall|i: int|
            0 <= i < ls.drop_first().len() ==> ls.drop_first()[i] == ls[i + 1]);
        lemma_heading_lines_none(ls.drop_first(), k);
        assert(heading_lines(ls) =~= Seq::<Seq<char>>::empty());
    }
}

/// A line made of `k` hash marks and then a space is a heading of
/// level exactly `k`.
proof fn lemma_level_of_marked_line(l: Seq<char>, k: nat)
    requires
        l.len() > k,
        forall|i: int| 0 <= i < k ==> l[i] == '#',
        l[k as int] == ' ',
    ensures
        leading_hashes(l) == k,
        k >= 1 ==> is_heading_line(l) && heading_level(l) == k,
    decreases k,
{
    if k == 0 {
        assert(l[0] != '#');
    } else {
        assert(l[0] == '#');
        let rest = l.drop_first();
        assert(forall|i: int| 0 <= i < k - 1 ==> rest[i] == l[i + 1]);
        assert(rest[k - 1] == ' ');
        lemma_level_of_marked_line(rest, (k - 1) as nat);
    }
}

/// The heading structure of one subsection block.
proof fn lemma_section_headings(heading: Seq<char>, body: Seq<Seq<char>>, k: nat)
    requires
        forall|i: int|
            0 <= i < body.len() ==> (#[trigger] body[i]).len() > 0 && body[i][0] != '#',
        is_heading_line(heading),
        heading_level(heading) == 5,
        1 <= k <= 4,
    ensures
        heading_lines(section_lines(heading, body)) == if body.len() > 0 {
            seq![heading]
        } else {
            Seq::<Seq<char>>::empty()
        },
        count_at_level(section_lines(heading, body), k) == 0,
{
    if body.len() > 0 {
        let head3 = seq![Seq::<char>::empty(), heading, Seq::<char>::empty()];
        lemma_heading_lines_concat(head3, body);
        lemma_count_at_level_concat(head3, body, k);
        lemma_heading_lines_none(body, k);
        let one = seq![Seq::<char>::empty()];
        let two = seq![heading, Seq::<char>::empty()];
        assert(head3.drop_first() =~= two);
        assert(two.drop_first() =~= one);
        assert(one.drop_first() =~= Seq::<Seq<char>>::empty());
        assert(heading_lines(Seq::<Seq<char>>::empty()) =~= Seq::<Seq<char>>::empty());
        assert(heading_lines(one) =~= Seq::<Seq<char>>::empty());
        assert(heading_lines(two) =~= seq![heading]);
        assert(heading_lines(head3) =~= seq![heading]);
        assert(count_at_level(Seq::<Seq<char>>::empty(), k) == 0);
        assert(heading_level(heading) == 5 && k != 5);
        assert(count_at_level(one, k) == 0);
        assert(count_at_level(two, k) == 0);
        assert(count_at_level(head3, k) == 0);
        assert(heading_lines(section_lines(heading, body)) =~= seq![heading]);
        assert(count_at_level(section_lines(heading, body), k) == 0);
    }
}

/// The heading structure of one tertiary item's lines.
proof fn lemma_tertiary_heading_structure(t: TertiaryItemView, k: nat)
    requires
        1 <= k <= 4,
    ensures
        heading_lines(tertiary_lines(t)) == tertiary_headings(t),
        count_at_level(tertiary_lines(t), k) == if k == 4 {
            1nat
        } else {
            0nat
        },
{
    reveal_strlit("#### ");
    reveal_strlit("##### Operations");
    reveal_strlit("##### Confirmation");
    reveal_strlit("##### Remarks");
    reveal_strlit("- [ ] ");
    reveal_strlit("- ");
    let title_line = "#### "@ + t.title;
    let head2 = seq![Seq::<char>::empty(), title_line];
    let ops_body = numbered_lines(t.operations, 1);
    let conf_body = prefixed_lines("- [ ] "@, t.confirmations);
    let rem_body = prefixed_lines("- "@, t.remarks);
    let s_ops = section_lines("##### Operations"@, ops_body);
    let s_conf = section_lines("##### Confirmation"@, conf_body);
    let s_rem = section_lines("##### Remarks"@, rem_body);
    lemma_numbered_lines_heads(t.operations, 1);
    lemma_prefixed_lines_heads("- [ ] "@, t.confirmations);
    lemma_prefixed_lines_heads("- "@, t.remarks);
    lemma_numbered_lines_len(t.operations, 1);
    lemma_prefixed_lines_len("- [ ] "@, t.confirmations);
    lemma_prefixed_lines_len("- "@, t.remarks);
    assert(forall|i: int| 0 <= i < 4 ==> title_line[i] == '#');
    assert(title_line[4] == ' ');
    lemma_level_of_marked_line(title_line, 4);
    assert(forall|i: int| 0 <= i < 5 ==> ("##### Operations"@)[i] == '#');
    assert(("##### Operations"@)[5] == ' ');
    lemma_level_of_marked_line("##### Operations"@, 5);
    assert(forall|i: int| 0 <= i < 5 ==> ("##### Confirmation"@)[i] == '#');
    assert(("##### Confirmation"@)[5] == ' ');
    lemma_level_of_marked_line("##### Confirmation"@, 5);
    assert(forall|i: int| 0 <= i < 5 ==> ("##### Remarks"@)[i] == '#');
    assert(("##### Remarks"@)[5] == ' ');
    lemma_level_of_marked_line("##### Remarks"@, 5);
    lemma_section_headings("##### Operations"@, ops_body, k);
    lemma_section_headings("##### Confirmation"@, conf_body, k);
    lemma_section_headings("##### Remarks"@, rem_body, k);
    assert(tertiary_lines(t) == head2 + s_ops + s_conf + s_rem);
    lemma_heading_lines_concat(head2 + s_ops + s_conf, s_rem);
    lemma_heading_lines_concat(head2 + s_ops, s_conf);
    lemma_heading_lines_concat(head2, s_ops);
    lemma_count_at_level_concat(head2 + s_ops + s_conf, s_rem, k);
    lemma_count_at_level_concat(head2 + s_ops, s_conf, k);
    lemma_count_at_level_concat(head2, s_ops, k);
    let one_t = seq![title_line];
    assert(head2.drop_first() =~= one_t);
    assert(one_t.drop_first() =~= Seq::<Seq<char>>::empty());
    assert(heading_lines(Seq::<Seq<char>>::empty()) =~= Seq::<Seq<char>>::empty());
    assert(heading_lines(one_t) =~= one_t);
    assert(heading_lines(head2) =~= one_t);
    assert(count_at_level(Seq::<Seq<char>>::empty(), k) == 0);
    assert(count_at_level(one_t, k) == if k == 4 {
        1nat
    } else {
        0nat
    });
    assert(count_at_level(head2, k) == if k == 4 {
        1nat
    } else {
        0nat
    });
    assert(heading_lines(tertiary_lines(t)) =~= tertiary_headings(t));
}

/// The heading structure of a run of tertiary items.
proof fn lemma_tertiaries_heading_structure(ts: Seq<TertiaryItemView>, k: nat)
    requires
        1 <= k <= 4,
    ensures
        heading_lines(tertiaries_lines(ts)) == tertiaries_headings(ts),
        count_at_level(tertiaries_lines(ts), k) == if k == 4 {
            ts.len()
        } else {
            0nat
        },
    decreases ts.len(),
{
    if ts.len() == 0 {
        assert(heading_lines(tertiaries_lines(ts)) =~= tertiaries_headings(ts));
    } else {
        lemma_tertiary_heading_structure(ts.first(), k);
        lemma_tertiaries_heading_structure(ts.drop_first(), k);
        lemma_heading_lines_concat(tertiary_lines(ts.first()), tertiaries_lines(ts.drop_first()));
        lemma_count_at_level_concat(
            tertiary_lines(ts.first()),
            tertiaries_lines(ts.drop_first()),
            k,
        );
    }
}

/// The heading structure of one secondary item's lines.
proof fn lemma_secondary_heading_structure(s: SecondaryItemView, k: nat)
    requires
        1 <= k <= 4,
    ensures
        heading_lines(secondary_lines(s)) == secondary_headings(s),
        count_at_level(secondary_lines(s), k) == if k == 3 {
            1nat
        } else if k == 4 {
            s.children.len()
        } else {
            0nat
        },
{
    reveal_strlit("### ");
    let title_line = "### "@ + s.title;
    let head2 = seq![Seq::<char>::empty(), title_line];
    assert(forall|i: int| 0 <= i < 3 ==> title_line[i] == '#');
    assert(title_line[3] == ' ');
    lemma_level_of_marked_line(title_line, 3);
    lemma_tertiaries_heading_structure(s.children, k);
    lemma_heading_lines_concat(head2, tertiaries_lines(s.children));
    lemma_count_at_level_concat(head2, tertiaries_lines(s.children), k);
    let one_t = seq![title_line];
    assert(head2.drop_first() =~= one_t);
    assert(one_t.drop_first() =~= Seq::<Seq<char>>::empty());
    assert(heading_lines(Seq::<Seq<char>>::empty()) =~= Seq::<Seq<char>>::empty());
    assert(heading_lines(one_t) =~= one_t);
    assert(heading_lines(head2) =~= one_t);
    assert(count_at_level(Seq::<Seq<char>>::empty(), k) == 0);
    assert(count_at_level(one_t, k) == if k == 3 {
        1nat
    } else {
        0nat
    });
    assert(count_at_level(head2, k) == if k == 3 {
        1nat
    } else {
        0nat
    });
    assert(heading_lines(secondary_lines(s)) =~= secondary_headings(s));
}

/// The heading structure of a run of secondary items.
proof fn lemma_secondaries_heading_structure(ss: Seq<SecondaryItemView>, k: nat)
    requires
        1 <= k <= 4,
    ensures
        heading_lines(secondaries_lines(ss)) == secondaries_headings(ss),
        count_at_level(secondaries_lines(ss), k) == if k == 3 {
            ss.len()
        } else if k == 4 {
            tertiaries_in_secondaries(ss)
        } else {
            0nat
        },
    decreases ss.len(),
{
    if ss.len() == 0 {
        assert(heading_lines(secondaries_lines(ss)) =~= secondaries_headings(ss));
    } else {
        lemma_secondary_heading_structure(ss.first(), k);
        lemma_secondaries_heading_structure(ss.drop_first(), k);
        lemma_heading_lines_concat(
            secondary_lines(ss.first()),
            secondaries_lines(ss.drop_first()),
        );
        lemma_count_at_level_concat(
            secondary_lines(ss.first()),
            secondaries_lines(ss.drop_first()),
            k,
        );
    }
}

/// The heading structure of one primary item's lines.
proof fn lemma_primary_heading_structure(p: PrimaryItemView, k: nat)
    requires
        1 <= k <= 4,
    ensures
        heading_lines(primary_lines(p)) == primary_headings(p),
        count_at_level(primary_lines(p), k) == if k == 2 {
            1nat
        } else if k == 3 {
            p.children.len()
        } else if k == 4 {
            tertiaries_in_secondaries(p.children)
        } else {
            0nat
        },
{
    reveal_strlit("## ");
    let title_line = "## "@ + p.title;
    let head2 = seq![Seq::<char>::empty(), title_line];
    assert(forall|i: int| 0 <= i < 2 ==> title_line[i] == '#');
    assert(title_line[2] == ' ');
    lemma_level_of_marked_line(title_line, 2);
    lemma_secondaries_heading_structure(p.children, k);
    lemma_heading_lines_concat(head2, secondaries_lines(p.children));
    lemma_count_at_level_concat(head2, secondaries_lines(p.children), k);
    let one_t = seq![title_line];
    assert(head2.drop_first() =~= one_t);
    assert(one_t.drop_first() =~= Seq::<Seq<char>>::empty());
    assert(heading_lines(Seq::<Seq<char>>::empty()) =~= Seq::<Seq<char>>::empty());
    assert(heading_lines(one_t) =~= one_t);
    assert(heading_lines(head2) =~= one_t);
    assert(count_at_level(Seq::<Seq<char>>::empty(), k) == 0);
    assert(count_at_level(one_t, k) == if k == 2 {
        1nat
    } else {
        0nat
    });
    assert(count_at_level(head2, k) == if k == 2 {
        1nat
    } else {
        0nat
    });
    assert(heading_lines(primary_lines(p)) =~= primary_headings(p));
}

/// How many secondary items a run of primary items holds.
pub open spec fn secondaries_in_primaries(ps: Seq<PrimaryItemView>) -> nat
    decreases ps.len(),
{
    if ps.len() == 0 {
        0
    } else {
        ps.first().children.len() + secondaries_in_primaries(ps.drop_first())
    }
}

/// The heading structure of a run of primary items.
proof fn lemma_primaries_heading_structure(ps: Seq<PrimaryItemView>, k: nat)
    requires
        1 <= k <= 4,
    ensures
        heading_lines(primaries_lines(ps)) == primaries_headings(ps),
        count_at_level(primaries_lines(ps), k) == if k == 2 {
            ps.len()
        } else if k == 3 {
            secondaries_in_primaries(ps)
        } else if k == 4 {
            tertiaries_in_primaries(ps)
        } else {
            0nat
        },
    decreases ps.len(),
{
    if ps.len() == 0 {
        assert(heading_lines(primaries_lines(ps)) =~= primaries_headings(ps));
    } else {
        lemma_primary_heading_structure(ps.first(), k);
        lemma_primaries_heading_structure(ps.drop_first(), k);
        lemma_heading_lines_concat(primary_lines(ps.first()), primaries_lines(ps.drop_first()));
        lemma_count_at_level_concat(
            primary_lines(ps.first()),
            primaries_lines(ps.drop_first()),
            k,
        );
    }
}

/// Law: the heading lines of the rendered document are exactly the
/// title heading, then, in document order, one `##` heading per
/// primary item, one `###` per secondary item, one `####` per
/// tertiary item, and the subsection headings of the non-empty lists.
pub proof fn lemma_markdown_heading_sequence(s: TestSpecView)
    ensures
        heading_lines(markdown_lines(s)) == document_headings(s),
{
    reveal_strlit("# ");
    let title_line = "# "@ + s.title;
    let head1 = seq![title_line];
    assert(title_line[0] == '#');
    lemma_primaries_heading_structure(s.cases, 1);
    lemma_heading_lines_concat(head1, primaries_lines(s.cases));
    assert(head1.drop_first() =~= Seq::<Seq<char>>::empty());
    assert(heading_lines(Seq::<Seq<char>>::empty()) =~= Seq::<Seq<char>>::empty());
    assert(heading_lines(head1) =~= seq![title_line]);
    assert(heading_lines(markdown_lines(s)) =~= document_headings(s));
}

/// Law: the rendered document holds exactly one level-one heading,
/// one level-two heading per primary item, one level-three heading
/// per secondary item, and one level-four heading per tertiary item.
pub proof fn lemma_markdown_heading_counts(s: TestSpecView)
    ensures
        count_at_level(markdown_lines(s), 1) == 1,
        count_at_level(markdown_lines(s), 2) == s.cases.len(),
        count_at_level(markdown_lines(s), 3) == secondaries_in_primaries(s.cases),
        count_at_level(markdown_lines(s), 4) == tertiaries_in_primaries(s.cases),
{
    reveal_strlit("# ");
    let title_line = "# "@ + s.title;
    let head1 = seq![title_line];
    assert(title_line.len() > 1 && title_line[0] == '#' && title_line[1] == ' ');
    lemma_level_of_marked_line(title_line, 1);
    assert(head1.drop_first() =~= Seq::<Seq<char>>::empty());
    lemma_heading_lines_concat(head1, primaries_lines(s.cases));
    let ghost ks: Seq<nat> = seq![1nat, 2nat, 3nat, 4nat];
    assert forall|m: int| 0 <= m < 4 implies count_at_level(markdown_lines(s), ks[m])
        == count_at_level(head1, ks[m]) + count_at_level(primaries_lines(s.cases), ks[m]) by {
        lemma_count_at_level_concat(head1, primaries_lines(s.cases), ks[m]);
    }
    lemma_primaries_heading_structure(s.cases, 1);
    lemma_primaries_heading_structure(s.cases, 2);
    lemma_primaries_heading_structure(s.cases, 3);
    lemma_primaries_heading_structure(s.cases, 4);
    assert(count_at_level(Seq::<Seq<char>>::empty(), 1) == 0);
    assert(count_at_level(Seq::<Seq<char>>::empty(), 2) == 0);
    assert(count_at_level(Seq::<Seq<char>>::empty(), 3) == 0);
    assert(count_at_level(Seq::<Seq<char>>::empty(), 4) == 0);
    assert(count_at_level(head1, 1) == 1);
    assert(count_at_level(head1, 2) == 0);
    assert(count_at_level(head1, 3) == 0);
    assert(count_at_level(head1, 4) == 0);
}

} // verus!
