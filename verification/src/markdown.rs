use vstd::prelude::*;
use vstd::string::StringExecFns;

use crate::testspec::{
    PrimaryItem, PrimaryItemView, SecondaryItem, SecondaryItemView, TertiaryItem,
    TertiaryItemView, TestSpec, TestSpecView,
};
use crate::text::{
    join_terminated, lemma_join_terminated_concat, lemma_join_terminated_push,
    lemma_numbered_lines_len, lemma_numbered_lines_take_step, lemma_prefixed_lines_len,
    lemma_prefixed_lines_take_step, line_break, numbered_lines, prefixed_lines,
};

verus! {

/// A subsection: nothing at all for an empty list, otherwise a blank
/// line, the subsection heading, a blank line, and the body lines.
pub open spec fn section_lines(heading: Seq<char>, body: Seq<Seq<char>>) -> Seq<Seq<char>> {
    if body.len() == 0 {
        Seq::empty()
    } else {
        seq![Seq::<char>::empty(), heading, Seq::<char>::empty()] + body
    }
}

/// The lines of one tertiary test case: a blank line, its level-four
/// heading, then the three optional subsections.
pub open spec fn tertiary_lines(t: TertiaryItemView) -> Seq<Seq<char>> {
    seq![Seq::<char>::empty(), "#### "@ + t.title]
        + section_lines("##### Operations"@, numbered_lines(t.operations, 1))
        + section_lines("##### Confirmation"@, prefixed_lines("- [ ] "@, t.confirmations))
        + section_lines("##### Remarks"@, prefixed_lines("- "@, t.remarks))
}

/// The lines of a whole run of tertiary items, in order.
pub open spec fn tertiaries_lines(ts: Seq<TertiaryItemView>) -> Seq<Seq<char>>
    decreases ts.len(),
{
    if ts.len() == 0 {
        Seq::empty()
    } else {
        tertiary_lines(ts.first()) + tertiaries_lines(ts.drop_first())
    }
}

/// The lines of one secondary item: a blank line, its level-three
/// heading, then its tertiary children.
pub open spec fn secondary_lines(s: SecondaryItemView) -> Seq<Seq<char>> {
    seq![Seq::<char>::empty(), "### "@ + s.title] + tertiaries_lines(s.children)
}

/// The lines of a whole run of secondary items, in order.
pub open spec fn secondaries_lines(ss: Seq<SecondaryItemView>) -> Seq<Seq<char>>
    decreases ss.len(),
{
    if ss.len() == 0 {
        Seq::empty()
    } else {
        secondary_lines(ss.first()) + secondaries_lines(ss.drop_first())
    }
}

/// The lines of one primary item: a blank line, its level-two heading,
/// then its secondary children.
pub open spec fn primary_lines(p: PrimaryItemView) -> Seq<Seq<char>> {
    seq![Seq::<char>::empty(), "## "@ + p.title] + secondaries_lines(p.children)
}

/// The lines of a whole run of primary items, in order.
pub open spec fn primaries_lines(ps: Seq<PrimaryItemView>) -> Seq<Seq<char>>
    decreases ps.len(),
{
    if ps.len() == 0 {
        Seq::empty()
    } else {
        primary_lines(ps.first()) + primaries_lines(ps.drop_first())
    }
}

/// Every line of the rendered document, in order: the level-one title
/// heading, then the primary items.
pub open spec fn markdown_lines(s: TestSpecView) -> Seq<Seq<char>> {
    seq!["# "@ + s.title] + primaries_lines(s.cases)
}

/// The rendered document: each line followed by one line break.
pub open spec fn markdown_text(s: TestSpecView) -> Seq<char> {
    join_terminated(markdown_lines(s))
}

pub proof fn lemma_tertiaries_lines_take_step(ts: Seq<TertiaryItemView>, i: int)
    requires
        0 <= i < ts.len(),
    ensures
        tertiaries_lines(ts.take(i + 1)) == tertiaries_lines(ts.take(i)) + tertiary_lines(ts[i]),
    decreases i,
{
    if i == 0 {
        assert(ts.take(1).first() == ts[0]);
        assert(ts.take(1).drop_first() =~= Seq::<TertiaryItemView>::empty());
        assert(ts.take(0) =~= Seq::<TertiaryItemView>::empty());
        assert(tertiaries_lines(Seq::<TertiaryItemView>::empty()) == Seq::<Seq<char>>::empty());
        assert(tertiaries_lines(ts.take(1)) =~= tertiaries_lines(ts.take(0))
            + tertiary_lines(ts[0]));
    } else {
        let rest = ts.drop_first();
        lemma_tertiaries_lines_take_step(rest, i - 1);
        assert(ts.take(i + 1).drop_first() =~= rest.take(i));
        assert(ts.take(i).drop_first() =~= rest.take(i - 1));
        assert(ts.take(i + 1).first() == ts.first());
        assert(ts.take(i).first() == ts.first());
        assert(rest[i - 1] == ts[i]);
        assert(tertiaries_lines(ts.take(i + 1)) =~= tertiaries_lines(ts.take(i))
            + tertiary_lines(ts[i]));
    }
}

pub proof fn lemma_secondaries_lines_take_step(ss: Seq<SecondaryItemView>, i: int)
    requires
        0 <= i < ss.len(),
    ensures
        secondaries_lines(ss.take(i + 1)) == secondaries_lines(ss.take(i)) + secondary_lines(
            ss[i],
        ),
    decreases i,
{
    if i == 0 {
        assert(ss.take(1).first() == ss[0]);
        assert(ss.take(1).drop_first() =~= Seq::<SecondaryItemView>::empty());
        assert(ss.take(0) =~= Seq::<SecondaryItemView>::empty());
        assert(secondaries_lines(Seq::<SecondaryItemView>::empty()) == Seq::<Seq<char>>::empty());
        assert(secondaries_lines(ss.take(1)) =~= secondaries_lines(ss.take(0)) + secondary_lines(
            ss[0],
        ));
    } else {
        let rest = ss.drop_first();
        lemma_secondaries_lines_take_step(rest, i - 1);
        assert(ss.take(i + 1).drop_first() =~= rest.take(i));
        assert(ss.take(i).drop_first() =~= rest.take(i - 1));
        assert(ss.take(i + 1).first() == ss.first());
        assert(ss.take(i).first() == ss.first());
        assert(rest[i - 1] == ss[i]);
        assert(secondaries_lines(ss.take(i + 1)) =~= secondaries_lines(ss.take(i))
            + secondary_lines(ss[i]));
    }
}

pub proof fn lemma_primaries_lines_take_step(ps: Seq<PrimaryItemView>, i: int)
    requires
        0 <= i < ps.len(),
    ensures
        primaries_lines(ps.take(i + 1)) == primaries_lines(ps.take(i)) + primary_lines(ps[i]),
    decreases i,
{
    if i == 0 {
        assert(ps.take(1).first() == ps[0]);
        assert(ps.take(1).drop_first() =~= Seq::<PrimaryItemView>::empty());
        assert(ps.take(0) =~= Seq::<PrimaryItemView>::empty());
        assert(primaries_lines(Seq::<PrimaryItemView>::empty()) == Seq::<Seq<char>>::empty());
        assert(primaries_lines(ps.take(1)) =~= primaries_lines(ps.take(0)) + primary_lines(ps[0]));
    } else {
        let rest = ps.drop_first();
        lemma_primaries_lines_take_step(rest, i - 1);
        assert(ps.take(i + 1).drop_first() =~= rest.take(i));
        assert(ps.take(i).drop_first() =~= rest.take(i - 1));
        assert(ps.take(i + 1).first() == ps.first());
        assert(ps.take(i).first() == ps.first());
        assert(rest[i - 1] == ps[i]);
        assert(primaries_lines(ps.take(i + 1)) =~= primaries_lines(ps.take(i)) + primary_lines(
            ps[i],
        ));
    }
}

/// Appends one whole line: the text and a line break.
fn append_line(buf: &mut String, line: &str)
    ensures
        final(buf)@ == old(buf)@ + line@ + line_break(),
{
    buf.append(line);
    buf.append("\n");
    proof {
        reveal_strlit("\n");
        assert("\n"@ =~= line_break());
    }
}

/// Appends a blank line.
fn append_blank_line(buf: &mut String)
    ensures
        final(buf)@ == old(buf)@ + Seq::<char>::empty() + line_break(),
{
    buf.append("\n");
    proof {
        reveal_strlit("\n");
        assert("\n"@ =~= line_break());
        assert(buf@ =~= old(buf)@ + Seq::<char>::empty() + line_break());
    }
}

/// Appends one heading line: the marker, the title, a line break.
fn append_heading_line(buf: &mut String, marker: &str, title: &String)
    ensures
        final(buf)@ == old(buf)@ + (marker@ + title@) + line_break(),
{
    buf.append(marker);
    buf.append(title.as_str());
    buf.append("\n");
    proof {
        reveal_strlit("\n");
        assert("\n"@ =~= line_break());
        assert(buf@ =~= old(buf)@ + (marker@ + title@) + line_break());
    }
}

/// Renders one tertiary test case as Markdown.
fn tertiary_markdown(t: &TertiaryItem) -> (r: String)
    ensures
        r@ == join_terminated(tertiary_lines(t@)),
{
    let mut buf = String::new();
    let ghost mut lines: Seq<Seq<char>> = Seq::empty();
    append_blank_line(&mut buf);
    proof {
        lemma_join_terminated_push(lines, Seq::<char>::empty());
        lines = lines.push(Seq::<char>::empty());
        assert(buf@ =~= join_terminated(lines));
    }
    append_heading_line(&mut buf, "#### ", &t.title);
    proof {
        lemma_join_terminated_push(lines, "#### "@ + t@.title);
        lines = lines.push("#### "@ + t@.title);
        assert(buf@ =~= join_terminated(lines));
        assert(lines =~= seq![Seq::<char>::empty(), "#### "@ + t@.title]);
    }
    let ghost head = lines;

    let mut i: usize = 0;
    while i < t.operations.len()
        invariant
            i <= t.operations@.len(),
            t@.operations.len() == t.operations@.len(),
            buf@ == join_terminated(lines),
            i == 0 ==> lines == head,
            i > 0 ==> lines == head + seq![
                Seq::<char>::empty(),
                "##### Operations"@,
                Seq::<char>::empty(),
            ] + numbered_lines(t@.operations.take(i as int), 1),
        decreases t.operations@.len() - i,
    {
        if i == 0 {
            append_blank_line(&mut buf);
            proof {
                lemma_join_terminated_push(lines, Seq::<char>::empty());
                lines = lines.push(Seq::<char>::empty());
            }
            append_line(&mut buf, "##### Operations");
            proof {
                lemma_join_terminated_push(lines, "##### Operations"@);
                lines = lines.push("##### Operations"@);
            }
            append_blank_line(&mut buf);
            proof {
                lemma_join_terminated_push(lines, Seq::<char>::empty());
                lines = lines.push(Seq::<char>::empty());
                assert(buf@ =~= join_terminated(lines));
            }
        }
        let num = crate::text::decimal_string(i + 1);
        buf.append(num.as_str());
        buf.append(". ");
        buf.append(t.operations[i].as_str());
        buf.append("\n");
        proof {
            reveal_strlit("\n");
            assert("\n"@ =~= line_break());
            let l = crate::text::dec_digits((i + 1) as nat) + ". "@ + t@.operations[i as int];
            lemma_join_terminated_push(lines, l);
            let ghost prev = lines;
            lines = lines.push(l);
            assert(buf@ =~= join_terminated(lines));
            lemma_numbered_lines_take_step(t@.operations, 1, i as int);
            if i == 0 {
                assert(t@.operations.take(0int) =~= Seq::<Seq<char>>::empty());
                assert(numbered_lines(t@.operations.take(0int), 1) == Seq::<Seq<char>>::empty());
            }
            assert(lines =~= head + seq![
                Seq::<char>::empty(),
                "##### Operations"@,
                Seq::<char>::empty(),
            ] + numbered_lines(t@.operations.take(i as int + 1), 1));
        }
        i = i + 1;
    }
    proof {
        assert(t@.operations.take(t@.operations.len() as int) =~= t@.operations);
        lemma_numbered_lines_len(t@.operations, 1);
        assert(lines =~= head + section_lines(
            "##### Operations"@,
            numbered_lines(t@.operations, 1),
        ));
    }
    let ghost head_ops = lines;

    let mut i: usize = 0;
    while i < t.confirmations.len()
        invariant
            i <= t.confirmations@.len(),
            t@.confirmations.len() == t.confirmations@.len(),
            buf@ == join_terminated(lines),
            i == 0 ==> lines == head_ops,
            i > 0 ==> lines == head_ops + seq![
                Seq::<char>::empty(),
                "##### Confirmation"@,
                Seq::<char>::empty(),
            ] + prefixed_lines("- [ ] "@, t@.confirmations.take(i as int)),
        decreases t.confirmations@.len() - i,
    {
        if i == 0 {
            append_blank_line(&mut buf);
            proof {
                lemma_join_terminated_push(lines, Seq::<char>::empty());
                lines = lines.push(Seq::<char>::empty());
            }
            append_line(&mut buf, "##### Confirmation");
            proof {
                lemma_join_terminated_push(lines, "##### Confirmation"@);
                lines = lines.push("##### Confirmation"@);
            }
            append_blank_line(&mut buf);
            proof {
                lemma_join_terminated_push(lines, Seq::<char>::empty());
                lines = lines.push(Seq::<char>::empty());
                assert(buf@ =~= join_terminated(lines));
            }
        }
        buf.append("- [ ] ");
        buf.append(t.confirmations[i].as_str());
        buf.append("\n");
        proof {
            reveal_strlit("\n");
            assert("\n"@ =~= line_break());
            let l = "- [ ] "@ + t@.confirmations[i as int];
            lemma_join_terminated_push(lines, l);
            lines = lines.push(l);
            assert(buf@ =~= join_terminated(lines));
            lemma_prefixed_lines_take_step("- [ ] "@, t@.confirmations, i as int);
            if i == 0 {
                assert(t@.confirmations.take(0int) =~= Seq::<Seq<char>>::empty());
                assert(prefixed_lines("- [ ] "@, t@.confirmations.take(0int))
                    == Seq::<Seq<char>>::empty());
            }
            assert(lines =~= head_ops + seq![
                Seq::<char>::empty(),
                "##### Confirmation"@,
                Seq::<char>::empty(),
            ] + prefixed_lines("- [ ] "@, t@.confirmations.take(i as int + 1)));
        }
        i = i + 1;
    }
    proof {
        assert(t@.confirmations.take(t@.confirmations.len() as int) =~= t@.confirmations);
        lemma_prefixed_lines_len("- [ ] "@, t@.confirmations);
        assert(lines =~= head_ops + section_lines(
            "##### Confirmation"@,
            prefixed_lines("- [ ] "@, t@.confirmations),
        ));
    }
    let ghost head_confs = lines;

    let mut i: usize = 0;
    while i < t.remarks.len()
        invariant
            i <= t.remarks@.len(),
            t@.remarks.len() == t.remarks@.len(),
            buf@ == join_terminated(lines),
            i == 0 ==> lines == head_confs,
            i > 0 ==> lines == head_confs + seq![
                Seq::<char>::empty(),
                "##### Remarks"@,
                Seq::<char>::empty(),
            ] + prefixed_lines("- "@, t@.remarks.take(i as int)),
        decreases t.remarks@.len() - i,
    {
        if i == 0 {
            append_blank_line(&mut buf);
            proof {
                lemma_join_terminated_push(lines, Seq::<char>::empty());
                lines = lines.push(Seq::<char>::empty());
            }
            append_line(&mut buf, "##### Remarks");
            proof {
                lemma_join_terminated_push(lines, "##### Remarks"@);
                lines = lines.push("##### Remarks"@);
            }
            append_blank_line(&mut buf);
            proof {
                lemma_join_terminated_push(lines, Seq::<char>::empty());
                lines = lines.push(Seq::<char>::empty());
                assert(buf@ =~= join_terminated(lines));
            }
        }
        buf.append("- ");
        buf.append(t.remarks[i].as_str());
        buf.append("\n");
        proof {
            reveal_strlit("\n");
            assert("\n"@ =~= line_break());
            let l = "- "@ + t@.remarks[i as int];
            lemma_join_terminated_push(lines, l);
            lines = lines.push(l);
            assert(buf@ =~= join_terminated(lines));
            lemma_prefixed_lines_take_step("- "@, t@.remarks, i as int);
            if i == 0 {
                assert(t@.remarks.take(0int) =~= Seq::<Seq<char>>::empty());
                assert(prefixed_lines("- "@, t@.remarks.take(0int)) == Seq::<Seq<char>>::empty());
            }
            assert(lines =~= head_confs + seq![
                Seq::<char>::empty(),
                "##### Remarks"@,
                Seq::<char>::empty(),
            ] + prefixed_lines("- "@, t@.remarks.take(i as int + 1)));
        }
        i = i + 1;
    }
    proof {
        assert(t@.remarks.take(t@.remarks.len() as int) =~= t@.remarks);
        lemma_prefixed_lines_len("- "@, t@.remarks);
        assert(lines =~= head_confs + section_lines(
            "##### Remarks"@,
            prefixed_lines("- "@, t@.remarks),
        ));
        assert(lines =~= tertiary_lines(t@));
    }
    buf
}

/// Renders one secondary item as Markdown.
fn secondary_markdown(s: &SecondaryItem) -> (r: String)
    ensures
        r@ == join_terminated(secondary_lines(s@)),
{
    let mut buf = String::new();
    let ghost mut lines: Seq<Seq<char>> = Seq::empty();
    append_blank_line(&mut buf);
    proof {
        lemma_join_terminated_push(lines, Seq::<char>::empty());
        lines = lines.push(Seq::<char>::empty());
        assert(buf@ =~= join_terminated(lines));
    }
    append_heading_line(&mut buf, "### ", &s.title);
    proof {
        lemma_join_terminated_push(lines, "### "@ + s@.title);
        lines = lines.push("### "@ + s@.title);
        assert(buf@ =~= join_terminated(lines));
        assert(lines =~= seq![Seq::<char>::empty(), "### "@ + s@.title]);
    }
    let ghost head = lines;

    let mut i: usize = 0;
    while i < s.children.len()
        invariant
            i <= s.children@.len(),
            s@.children.len() == s.children@.len(),
            buf@ == join_terminated(lines),
            lines == head + tertiaries_lines(s@.children.take(i as int)),
        decreases s.children@.len() - i,
    {
        let block = tertiary_markdown(&s.children[i]);
        buf.append(block.as_str());
        proof {
            lemma_join_terminated_concat(lines, tertiary_lines(s@.children[i as int]));
            lemma_tertiaries_lines_take_step(s@.children, i as int);
            lines = lines + tertiary_lines(s@.children[i as int]);
            assert(buf@ =~= join_terminated(lines));
            assert(lines =~= head + tertiaries_lines(s@.children.take(i as int + 1)));
        }
        i = i + 1;
    }
    proof {
        assert(s@.children.take(s@.children.len() as int) =~= s@.children);
        assert(lines =~= secondary_lines(s@));
    }
    buf
}

/// Renders one primary item as Markdown.
fn primary_markdown(p: &PrimaryItem) -> (r: String)
    ensures
        r@ == join_terminated(primary_lines(p@)),
{
    let mut buf = String::new();
    let ghost mut lines: Seq<Seq<char>> = Seq::empty();
    append_blank_line(&mut buf);
    proof {
        lemma_join_terminated_push(lines, Seq::<char>::empty());
        lines = lines.push(Seq::<char>::empty());
        assert(buf@ =~= join_terminated(lines));
    }
    append_heading_line(&mut buf, "## ", &p.title);
    proof {
        lemma_join_terminated_push(lines, "## "@ + p@.title);
        lines = lines.push("## "@ + p@.title);
        assert(buf@ =~= join_terminated(lines));
        assert(lines =~= seq![Seq::<char>::empty(), "## "@ + p@.title]);
    }
    let ghost head = lines;

    let mut i: usize = 0;
    while i < p.children.len()
        invariant
            i <= p.children@.len(),
            p@.children.len() == p.children@.len(),
            buf@ == join_terminated(lines),
            lines == head + secondaries_lines(p@.children.take(i as int)),
        decreases p.children@.len() - i,
    {
        let block = secondary_markdown(&p.children[i]);
        buf.append(block.as_str());
        proof {
            lemma_join_terminated_concat(lines, secondary_lines(p@.children[i as int]));
            lemma_secondaries_lines_take_step(p@.children, i as int);
            lines = lines + secondary_lines(p@.children[i as int]);
            assert(buf@ =~= join_terminated(lines));
            assert(lines =~= head + secondaries_lines(p@.children.take(i as int + 1)));
        }
        i = i + 1;
    }
    proof {
        assert(p@.children.take(p@.children.len() as int) =~= p@.children);
        assert(lines =~= primary_lines(p@));
    }
    buf
}

/// Renders the whole specification as a Markdown document: one `#`
/// heading for the title, `##`/`###`/`####` headings for the three
/// tree levels in document order, and a conditional `#####` subsection
/// per non-empty tertiary list.
pub fn generate_markdown(spec: &TestSpec) -> (r: String)
    ensures
        r@ == markdown_text(spec@),
{
    let mut buf = String::new();
    let ghost mut lines: Seq<Seq<char>> = Seq::empty();
    append_heading_line(&mut buf, "# ", &spec.title);
    proof {
        lemma_join_terminated_push(lines, "# "@ + spec@.title);
        lines = lines.push("# "@ + spec@.title);
        assert(buf@ =~= join_terminated(lines));
        assert(lines =~= seq!["# "@ + spec@.title]);
    }
    let ghost head = lines;

    let mut i: usize = 0;
    while i < spec.cases.len()
        invariant
            i <= spec.cases@.len(),
            spec@.cases.len() == spec.cases@.len(),
            buf@ == join_terminated(lines),
            lines == head + primaries_lines(spec@.cases.take(i as int)),
        decreases spec.cases@.len() - i,
    {
        let block = primary_markdown(&spec.cases[i]);
        buf.append(block.as_str());
        proof {
            lemma_join_terminated_concat(lines, primary_lines(spec@.cases[i as int]));
            lemma_primaries_lines_take_step(spec@.cases, i as int);
            lines = lines + primary_lines(spec@.cases[i as int]);
            assert(buf@ =~= join_terminated(lines));
            assert(lines =~= head + primaries_lines(spec@.cases.take(i as int + 1)));
        }
        i = i + 1;
    }
    proof {
        assert(spec@.cases.take(spec@.cases.len() as int) =~= spec@.cases);
        assert(lines =~= markdown_lines(spec@));
    }
    buf
}

} // verus!
