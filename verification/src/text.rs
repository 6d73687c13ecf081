use vstd::prelude::*;
use vstd::string::StringExecFns;

verus! {

/// The character written after every line of generated text.
pub open spec fn line_break() -> Seq<char> {
    seq!['\n']
}

/// The decimal digit character for a value below ten.
pub open spec fn digit_char(d: nat) -> char
    recommends
        d < 10,
{
    if d == 0 {
        '0'
    } else if d == 1 {
        '1'
    } else if d == 2 {
        '2'
    } else if d == 3 {
        '3'
    } else if d == 4 {
        '4'
    } else if d == 5 {
        '5'
    } else if d == 6 {
        '6'
    } else if d == 7 {
        '7'
    } else if d == 8 {
        '8'
    } else {
        '9'
    }
}

/// The decimal digits of `n`, most significant first, with no leading
/// zeros (except for `n == 0`, which is the single digit `0`).
pub open spec fn dec_digits(n: nat) -> Seq<char>
    decreases n,
{
    if n < 10 {
        seq![digit_char(n)]
    } else {
        dec_digits(n / 10).push(digit_char(n % 10))
    }
}

/// Every line followed by a line break: the shape written by a
/// sequence of whole-line writes.
pub open spec fn join_terminated(ls: Seq<Seq<char>>) -> Seq<char>
    decreases ls.len(),
{
    if ls.len() == 0 {
        Seq::empty()
    } else {
        ls.first() + line_break() + join_terminated(ls.drop_first())
    }
}

/// Lines joined with a line break between them and none at the end:
/// the shape of a multi-line cell text.
pub open spec fn join_separated(ls: Seq<Seq<char>>) -> Seq<char>
    decreases ls.len(),
{
    if ls.len() == 0 {
        Seq::empty()
    } else if ls.len() == 1 {
        ls.first()
    } else {
        ls.first() + line_break() + join_separated(ls.drop_first())
    }
}

pub proof fn lemma_join_terminated_push(ls: Seq<Seq<char>>, l: Seq<char>)
    ensures
        join_terminated(ls.push(l)) == join_terminated(ls) + l + line_break(),
    decreases ls.len(),
{
    if ls.len() == 0 {
        assert(ls.push(l).first() == l);
        assert(ls.push(l).drop_first() =~= Seq::<Seq<char>>::empty());
        assert(join_terminated(Seq::<Seq<char>>::empty()) == Seq::<char>::empty());
        assert(join_terminated(ls.push(l)) =~= join_terminated(ls) + l + line_break());
    } else {
        assert(ls.push(l).drop_first() =~= ls.drop_first().push(l));
        lemma_join_terminated_push(ls.drop_first(), l);
        assert(ls.push(l).first() == ls.first());
        assert(join_terminated(ls.push(l)) =~= join_terminated(ls) + l + line_break());
    }
}

pub proof fn lemma_join_terminated_concat(a: Seq<Seq<char>>, b: Seq<Seq<char>>)
    ensures
        join_terminated(a + b) == join_terminated(a) + join_terminated(b),
    decreases a.len(),
{
    if a.len() == 0 {
        assert(a + b =~= b);
        assert(join_terminated(a + b) =~= join_terminated(a) + join_terminated(b));
    } else {
        assert((a + b).drop_first() =~= a.drop_first() + b);
        assert((a + b).first() == a.first());
        lemma_join_terminated_concat(a.drop_first(), b);
        assert(join_terminated(a + b) =~= join_terminated(a) + join_terminated(b));
    }
}

pub proof fn lemma_join_separated_push(ls: Seq<Seq<char>>, l: Seq<char>)
    ensures
        ls.len() == 0 ==> join_separated(ls.push(l)) == l,
        ls.len() > 0 ==> join_separated(ls.push(l)) == join_separated(ls) + line_break() + l,
    decreases ls.len(),
{
    if ls.len() == 0 {
        assert(ls.push(l).first() == l);
    } else if ls.len() == 1 {
        assert(ls.push(l).first() == ls.first());
        assert(ls.push(l).drop_first() =~= seq![l]);
        assert(join_separated(seq![l]) == l);
        assert(join_separated(ls.push(l)) =~= join_separated(ls) + line_break() + l);
    } else {
        assert(ls.push(l).drop_first() =~= ls.drop_first().push(l));
        assert(ls.push(l).first() == ls.first());
        lemma_join_separated_push(ls.drop_first(), l);
        assert(join_separated(ls.push(l)) =~= join_separated(ls) + line_break() + l);
    }
}

/// One line per item, numbered `k`, `k + 1`, ... : `"{n}. {item}"`.
pub open spec fn numbered_lines(items: Seq<Seq<char>>, k: nat) -> Seq<Seq<char>>
    decreases items.len(),
{
    if items.len() == 0 {
        Seq::empty()
    } else {
        seq![dec_digits(k) + ". "@ + items.first()] + numbered_lines(items.drop_first(), k + 1)
    }
}

/// One line per item, each opened by the same prefix: `"{prefix}{item}"`.
pub open spec fn prefixed_lines(prefix: Seq<char>, items: Seq<Seq<char>>) -> Seq<Seq<char>>
    decreases items.len(),
{
    if items.len() == 0 {
        Seq::empty()
    } else {
        seq![prefix + items.first()] + prefixed_lines(prefix, items.drop_first())
    }
}

pub proof fn lemma_numbered_lines_len(items: Seq<Seq<char>>, k: nat)
    ensures
        numbered_lines(items, k).len() == items.len(),
    decreases items.len(),
{
    if items.len() > 0 {
        lemma_numbered_lines_len(items.drop_first(), k + 1);
    }
}

pub proof fn lemma_prefixed_lines_len(prefix: Seq<char>, items: Seq<Seq<char>>)
    ensures
        prefixed_lines(prefix, items).len() == items.len(),
    decreases items.len(),
{
    if items.len() > 0 {
        lemma_prefixed_lines_len(prefix, items.drop_first());
    }
}

pub proof fn lemma_numbered_lines_take_step(items: Seq<Seq<char>>, k: nat, i: int)
    requires
        0 <= i < items.len(),
    ensures
        numbered_lines(items.take(i + 1), k) == numbered_lines(items.take(i), k) + seq![
            dec_digits((k + i) as nat) + ". "@ + items[i],
        ],
    decreases i,
{
    if i == 0 {
        assert(items.take(1).first() == items[0]);
        assert(items.take(1).drop_first() =~= Seq::<Seq<char>>::empty());
        assert(items.take(0) =~= Seq::<Seq<char>>::empty());
        assert(numbered_lines(Seq::<Seq<char>>::empty(), k) == Seq::<Seq<char>>::empty());
        assert(numbered_lines(Seq::<Seq<char>>::empty(), k + 1) == Seq::<Seq<char>>::empty());
        assert(numbered_lines(items.take(1), k) =~= numbered_lines(items.take(0), k) + seq![
            dec_digits((k + 0) as nat) + ". "@ + items[0],
        ]);
    } else {
        let rest = items.drop_first();
        lemma_numbered_lines_take_step(rest, k + 1, i - 1);
        assert(items.take(i + 1).drop_first() =~= rest.take(i));
        assert(items.take(i).drop_first() =~= rest.take(i - 1));
        assert(items.take(i + 1).first() == items.first());
        assert(items.take(i).first() == items.first());
        assert(rest[i - 1] == items[i]);
        assert((k + 1) + (i - 1) == k + i);
        assert(numbered_lines(items.take(i + 1), k) =~= numbered_lines(items.take(i), k) + seq![
            dec_digits((k + i) as nat) + ". "@ + items[i],
        ]);
    }
}

pub proof fn lemma_prefixed_lines_take_step(prefix: Seq<char>, items: Seq<Seq<char>>, i: int)
    requires
        0 <= i < items.len(),
    ensures
        prefixed_lines(prefix, items.take(i + 1)) == prefixed_lines(prefix, items.take(i)) + seq![
            prefix + items[i],
        ],
    decreases i,
{
    if i == 0 {
        assert(items.take(1).first() == items[0]);
        assert(items.take(1).drop_first() =~= Seq::<Seq<char>>::empty());
        assert(items.take(0) =~= Seq::<Seq<char>>::empty());
        assert(prefixed_lines(prefix, Seq::<Seq<char>>::empty()) == Seq::<Seq<char>>::empty());
        assert(prefixed_lines(prefix, items.take(1)) =~= prefixed_lines(prefix, items.take(0))
            + seq![prefix + items[0]]);
    } else {
        let rest = items.drop_first();
        lemma_prefixed_lines_take_step(prefix, rest, i - 1);
        assert(items.take(i + 1).drop_first() =~= rest.take(i));
        assert(items.take(i).drop_first() =~= rest.take(i - 1));
        assert(items.take(i + 1).first() == items.first());
        assert(items.take(i).first() == items.first());
        assert(rest[i - 1] == items[i]);
        assert(prefixed_lines(prefix, items.take(i + 1)) =~= prefixed_lines(prefix, items.take(i))
            + seq![prefix + items[i]]);
    }
}

/// The exact text of one decimal digit.
fn digit_str(d: usize) -> (r: &'static str)
    requires
        d < 10,
    ensures
        r@ == seq![digit_char(d as nat)],
{
    proof {
        reveal_strlit("0");
        reveal_strlit("1");
        reveal_strlit("2");
        reveal_strlit("3");
        reveal_strlit("4");
        reveal_strlit("5");
        reveal_strlit("6");
        reveal_strlit("7");
        reveal_strlit("8");
        reveal_strlit("9");
    }
    let r: &'static str = match d {
        0 => "0",
        1 => "1",
        2 => "2",
        3 => "3",
        4 => "4",
        5 => "5",
        6 => "6",
        7 => "7",
        8 => "8",
        _ => "9",
    };
    proof {
        assert(r@ =~= seq![digit_char(d as nat)]);
    }
    r
}

/// Renders `n` in decimal, most significant digit first.
pub fn decimal_string(n: usize) -> (s: String)
    ensures
        s@ == dec_digits(n as nat),
    decreases n,
{
    if n < 10 {
        String::from_str(digit_str(n))
    } else {
        let mut s = decimal_string(n / 10);
        s.append(digit_str(n % 10));
        proof {
            assert(s@ =~= dec_digits(n as nat));
        }
        s
    }
}

} // verus!
