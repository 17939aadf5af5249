//! Text primitives the query grammar and the response decoder are built on:
//! joining and splitting around separator characters, and decimal rendering
//! of integers, each exec function proved against a spec-level model.
use vstd::prelude::*;

verus! {

/// Joins a list of character sequences with a separator between neighbours.
pub open spec fn seq_join(parts: Seq<Seq<char>>, sep: Seq<char>) -> Seq<char>
    decreases parts.len(),
{
    if parts.len() == 0 {
        seq![]
    } else if parts.len() == 1 {
        parts[0]
    } else {
        seq_join(parts.drop_last(), sep) + sep + parts.last()
    }
}

/// Splits a character sequence at every occurrence of `sep`; the separator
/// belongs to no part, and `n` separators yield `n + 1` parts.
pub open spec fn split_on(s: Seq<char>, sep: char) -> Seq<Seq<char>>
    decreases s.len(),
{
    if s.len() == 0 {
        seq![Seq::<char>::empty()]
    } else if s[0] == sep {
        seq![Seq::<char>::empty()] + split_on(s.drop_first(), sep)
    } else {
        let rest = split_on(s.drop_first(), sep);
        seq![seq![s[0]] + rest[0]] + rest.drop_first()
    }
}

pub proof fn lemma_split_on_nonempty(s: Seq<char>, sep: char)
    ensures
        split_on(s, sep).len() >= 1,
    decreases s.len(),
{
    if s.len() > 0 {
        lemma_split_on_nonempty(s.drop_first(), sep);
    }
}

/// A sequence that holds no separator splits into itself alone.
pub proof fn lemma_split_on_no_sep(s: Seq<char>, sep: char)
    requires
        forall|j: int| 0 <= j < s.len() ==> s[j] != sep,
    ensures
        split_on(s, sep) =~~= seq![s],
    decreases s.len(),
{
    if s.len() > 0 {
        lemma_split_on_no_sep(s.drop_first(), sep);
        lemma_split_on_nonempty(s.drop_first(), sep);
        assert(seq![s[0]] + s.drop_first() =~= s);
        assert(split_on(s, sep) =~~= seq![s]);
    }
}

/// Splitting cuts at the first separator: the part before it, then the split
/// of what follows it.
pub proof fn lemma_split_on_first_sep(s: Seq<char>, sep: char, k: int)
    requires
        0 <= k < s.len(),
        s[k] == sep,
        forall|j: int| 0 <= j < k ==> s[j] != sep,
    ensures
        split_on(s, sep) =~~= seq![s.take(k)] + split_on(s.skip(k + 1), sep),
    decreases k,
{
    if k == 0 {
        assert(s.take(0) =~= Seq::<char>::empty());
        assert(s.skip(1) =~= s.drop_first());
    } else {
        lemma_split_on_first_sep(s.drop_first(), sep, k - 1);
        lemma_split_on_nonempty(s.drop_first(), sep);
        assert(s.drop_first().take(k - 1) =~= s.take(k).drop_first());
        assert(s.drop_first().skip(k) =~= s.skip(k + 1));
        assert(seq![s[0]] + s.take(k).drop_first() =~= s.take(k));
    }
}

/// Joins the strings of `list` with the separator `sep`.
pub fn join_strings(list: &Vec<String>, sep: &str) -> (res: String)
    ensures
        res@ == seq_join(list.deep_view(), sep@),
{
    let mut res = String::new();
    let ghost parts = list.deep_view();
    assert(res@ =~= seq_join(parts.take(0), sep@));
    for i in 0..list.len()
        invariant
            parts == list.deep_view(),
            parts.len() == list.len(),
            res@ == seq_join(parts.take(i as int), sep@),
    {
        if i > 0 {
            res.append(sep);
        }
        res.append(list[i].as_str());
        assert(parts.take(i + 1).drop_last() =~= parts.take(i as int));
        assert(parts.take(i + 1).last() == list[i as int]@);
    }
    assert(parts.take(list.len() as int) =~= parts);
    res
}

/// Splits `s` at every occurrence of `sep`.
pub fn split_str(s: &str, sep: char) -> (res: Vec<String>)
    ensures
        res.deep_view() == split_on(s@, sep),
{
    let n = s.unicode_len();
    let mut res: Vec<String> = Vec::new();
    let mut start: usize = 0;
    let mut i: usize = 0;
    proof {
        assert(s@.skip(0) =~= s@);
        assert(res.deep_view() =~= Seq::<Seq<char>>::empty());
        assert(res.deep_view() + split_on(s@, sep) =~= split_on(s@, sep));
    }
    while i < n
        invariant
            start <= i <= n,
            n == s@.len(),
            forall|j: int| start <= j < i ==> s@[j] != sep,
            split_on(s@, sep) =~~= res.deep_view() + split_on(s@.skip(start as int), sep),
        decreases n - i,
    {
        let c = s.get_char(i);
        if c == sep {
            let cell = s.substring_char(start, i);
            let ghost old_dv = res.deep_view();
            res.push(String::from_str(cell));
            proof {
                assert(res.deep_view() =~= old_dv + seq![cell@]);
                let tail = s@.skip(start as int);
                lemma_split_on_first_sep(tail, sep, i - start);
                assert(tail.take(i - start) =~= s@.subrange(start as int, i as int));
                assert(tail.skip(i - start + 1) =~= s@.skip(i + 1));
                assert(old_dv + (seq![cell@] + split_on(s@.skip(i + 1), sep)) =~= (old_dv
                    + seq![cell@]) + split_on(s@.skip(i + 1), sep));
            }
            start = i + 1;
        }
        i = i + 1;
    }
    let cell = s.substring_char(start, n);
    let ghost old_dv = res.deep_view();
    res.push(String::from_str(cell));
    proof {
        assert(res.deep_view() =~= old_dv + seq![cell@]);
        let tail = s@.skip(start as int);
        lemma_split_on_no_sep(tail, sep);
        assert(tail =~= s@.subrange(start as int, n as int));
    }
    res
}

/// The character for a single decimal digit.
pub open spec fn digit_char(d: int) -> char {
    if d == 0 {
        '0'
    } else if d == 1 {
        '1'
    } else if d == 2 {
        '2'
    } else if d == 3 {
        '3'
    } else if d == 4 {
        '4'
    } else if d == 5 {
        '5'
    } else if d == 6 {
        '6'
    } else if d == 7 {
        '7'
    } else if d == 8 {
        '8'
    } else {
        '9'
    }
}

/// Decimal rendering of a natural number, without leading zeros.
pub open spec fn dec_digits(n: nat) -> Seq<char>
    decreases n,
{
    if n < 10 {
        seq![digit_char(n as int)]
    } else {
        dec_digits(n / 10) + seq![digit_char((n % 10) as int)]
    }
}

/// Decimal rendering of an integer: a minus sign for negative values.
pub open spec fn int_dec(n: int) -> Seq<char> {
    if n < 0 {
        seq!['-'] + dec_digits((-n) as nat)
    } else {
        dec_digits(n as nat)
    }
}

fn digit_str(d: u64) -> (res: &'static str)
    requires
        d < 10,
    ensures
        res@ == seq![digit_char(d as int)],
{
    proof {
        reveal_strlit("0");
        reveal_strlit("1");
        reveal_strlit("2");
        reveal_strlit("3");
        reveal_strlit("4");
        reveal_strlit("5");
        reveal_strlit("6");
        reveal_strlit("7");
        reveal_strlit("8");
        reveal_strlit("9");
    }
    if d == 0 {
        "0"
    } else if d == 1 {
        "1"
    } else if d == 2 {
        "2"
    } else if d == 3 {
        "3"
    } else if d == 4 {
        "4"
    } else if d == 5 {
        "5"
    } else if d == 6 {
        "6"
    } else if d == 7 {
        "7"
    } else if d == 8 {
        "8"
    } else {
        "9"
    }
}

/// Renders `n` in decimal.
pub fn u64_to_dec(n: u64) -> (res: String)
    ensures
        res@ == dec_digits(n as nat),
    decreases n,
{
    if n < 10 {
        String::from_str(digit_str(n))
    } else {
        let mut res = u64_to_dec(n / 10);
        res.append(digit_str(n % 10));
        res
    }
}

/// Renders `n` in decimal with a leading minus sign when negative.
pub fn i64_to_dec(n: i64) -> (res: String)
    ensures
        res@ == int_dec(n as int),
{
    if n < 0 {
        let mut res = String::new();
        proof {
            reveal_strlit("-");
        }
        res.append("-");
        let mag: u64 = if n == i64::MIN {
            9223372036854775808u64
        } else {
            (-n) as u64
        };
        let digits = u64_to_dec(mag);
        res.append(digits.as_str());
        assert(res@ =~= seq!['-'] + dec_digits(mag as nat));
        res
    } else {
        u64_to_dec(n as u64)
    }
}

} // verus!
