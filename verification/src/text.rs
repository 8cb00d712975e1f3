//! Small text helpers shared by the wire encoders and the decoder: pushing a
//! character onto a `String`, rendering an unsigned number in decimal,
//! stripping literal newlines, and joining rendered list items with commas.

use vstd::prelude::*;

verus! {

/// Relies on std's `String::push`: appends exactly the given character.
#[verifier::external_body]
pub(crate) fn push_char(s: &mut String, c: char)
    ensures
        final(s)@ == old(s)@.push(c),
{
    s.push(c);
}

/// The character for one decimal digit.
pub open spec fn dec_digit(d: nat) -> char {
    if d == 0 {
        '0'
    } else if d == 1 {
        '1'
    } else if d == 2 {
        '2'
    } else if d == 3 {
        '3'
    } else if d == 4 {
        '4'
    } else if d == 5 {
        '5'
    } else if d == 6 {
        '6'
    } else if d == 7 {
        '7'
    } else if d == 8 {
        '8'
    } else {
        '9'
    }
}

/// The decimal representation of a number, most significant digit first.
pub open spec fn dec_rep(n: nat) -> Seq<char>
    decreases n,
{
    if n < 10 {
        seq![dec_digit(n)]
    } else {
        dec_rep(n / 10).push(dec_digit(n % 10))
    }
}

/// The digit character of `d`, which must be below ten.
fn dec_digit_exec(d: u64) -> (c: char)
    requires
        d < 10,
    ensures
        c == dec_digit(d as nat),
{
    match d {
        0 => '0',
        1 => '1',
        2 => '2',
        3 => '3',
        4 => '4',
        5 => '5',
        6 => '6',
        7 => '7',
        8 => '8',
        _ => '9',
    }
}

proof fn lemma_reverse_push(s: Seq<char>, c: char)
    ensures
        (s.push(c)).reverse() == seq![c] + s.reverse(),
{
    assert((s.push(c)).reverse() =~= seq![c] + s.reverse());
}

/// Render an unsigned number in decimal.
pub fn u64_to_string(n: u64) -> (r: String)
    ensures
        r@ == dec_rep(n as nat),
{
    let mut digits: Vec<char> = Vec::new();
    let mut m: u64 = n;
    proof {
        assert(digits@.reverse() =~= Seq::<char>::empty());
        assert(dec_rep(n as nat) =~= dec_rep(m as nat) + digits@.reverse());
    }
    while m >= 10
        invariant
            dec_rep(n as nat) == dec_rep(m as nat) + digits@.reverse(),
        decreases m,
    {
        let d = m % 10;
        let ghost pre = digits@;
        digits.push(dec_digit_exec(d));
        proof {
            lemma_reverse_push(pre, dec_digit(d as nat));
            assert(dec_rep(m as nat) =~= dec_rep((m / 10) as nat).push(dec_digit((m % 10) as nat)));
            assert(dec_rep((m / 10) as nat).push(dec_digit(d as nat)) + pre.reverse() =~= dec_rep(
                (m / 10) as nat,
            ) + (seq![dec_digit(d as nat)] + pre.reverse()));
        }
        m = m / 10;
    }
    let ghost pre = digits@;
    digits.push(dec_digit_exec(m));
    proof {
        lemma_reverse_push(pre, dec_digit(m as nat));
        assert(dec_rep(m as nat) =~= seq![dec_digit(m as nat)]);
        assert(dec_rep(n as nat) =~= digits@.reverse());
    }
    let k = digits.len();
    let mut out = String::new();
    let mut i: usize = 0;
    proof {
        assert(out@ =~= digits@.reverse().take(0int));
    }
    while i < k
        invariant
            k == digits@.len(),
            i <= k,
            out@ == digits@.reverse().take(i as int),
        decreases k - i,
    {
        push_char(&mut out, digits[k - 1 - i]);
        proof {
            assert(digits@.reverse().take(i + 1) =~= digits@.reverse().take(i as int).push(
                digits@[k - 1 - i],
            ));
        }
        i = i + 1;
    }
    proof {
        assert(digits@.reverse().take(k as int) =~= digits@.reverse());
    }
    out
}

/// A string with every literal newline character removed.
pub open spec fn strip_nl(s: Seq<char>) -> Seq<char>
    decreases s.len(),
{
    if s.len() == 0 {
        Seq::empty()
    } else {
        let pre = strip_nl(s.drop_last());
        if s.last() == '\n' {
            pre
        } else {
            pre.push(s.last())
        }
    }
}

/// Remove every literal newline character from a string.
pub fn strip_newlines(s: &str) -> (r: String)
    ensures
        r@ == strip_nl(s@),
{
    let n = s.unicode_len();
    let mut out = String::new();
    let mut i: usize = 0;
    proof {
        assert(out@ =~= strip_nl(s@.take(0int)));
    }
    while i < n
        invariant
            n == s@.len(),
            i <= n,
            out@ == strip_nl(s@.take(i as int)),
        decreases n - i,
    {
        let c = s.get_char(i);
        proof {
            assert(s@.take(i + 1).drop_last() =~= s@.take(i as int));
            assert(s@.take(i + 1).last() == c);
        }
        if c != '\n' {
            push_char(&mut out, c);
        }
        i = i + 1;
    }
    proof {
        assert(s@.take(n as int) =~= s@);
    }
    out
}

/// Rendered list items joined with commas between them.
pub open spec fn comma_join(items: Seq<Seq<char>>) -> Seq<char>
    decreases items.len(),
{
    if items.len() == 0 {
        Seq::empty()
    } else if items.len() == 1 {
        items[0]
    } else {
        items[0] + seq![','] + comma_join(items.drop_first())
    }
}

/// Each item wrapped in double quotes, ready to be joined.
pub open spec fn quoted_items(xs: Seq<Seq<char>>) -> Seq<Seq<char>> {
    xs.map_values(|x: Seq<char>| ("\"")@ + x + ("\"")@)
}

/// Append `"a","b",...` for the given strings onto `out`.
pub(crate) fn append_quoted_list(out: &mut String, xs: &Vec<String>)
    ensures
        final(out)@ == old(out)@ + comma_join(quoted_items(xs.deep_view())),
{
    let ghost pre = out@;
    let ghost items = quoted_items(xs.deep_view());
    let mut i: usize = 0;
    proof {
        assert(items.take(0int) =~= Seq::<Seq<char>>::empty());
        assert(out@ =~= pre + comma_join(items.take(0int)));
    }
    while i < xs.len()
        invariant
            i <= xs.len(),
            items == quoted_items(xs.deep_view()),
            items.len() == xs.len(),
            forall|j: int|
                0 <= j < xs.len() ==> items[j] == ("\"")@ + xs.deep_view()[j] + ("\"")@,
            out@ == pre + comma_join(items.take(i as int)),
        decreases xs.len() - i,
    {
        if i > 0 {
            out.append(",");
        }
        out.append("\"");
        out.append(xs[i].as_str());
        out.append("\"");
        proof {
            reveal_strlit(",");
            assert(items.take(i + 1) =~= items.take(i as int).push(items[i as int]));
            lemma_comma_join_push(items.take(i as int), items[i as int]);
            assert(out@ =~= pre + comma_join(items.take(i + 1)));
        }
        i = i + 1;
    }
    proof {
        assert(items.take(xs.len() as int) =~= items);
    }
}

/// Extending a joined list by one item appends a comma first, unless the
/// list was empty.
pub proof fn lemma_comma_join_push(items: Seq<Seq<char>>, x: Seq<char>)
    ensures
        items.len() == 0 ==> comma_join(items.push(x)) == x,
        items.len() > 0 ==> comma_join(items.push(x)) == comma_join(items) + seq![','] + x,
    decreases items.len(),
{
    if items.len() == 0 {
        assert(items.push(x)[0] == x);
    } else if items.len() == 1 {
        assert(items.push(x).drop_first() =~= seq![x]);
        assert(comma_join(seq![x]) == x);
        assert(items.push(x)[0] == items[0]);
    } else {
        lemma_comma_join_push(items.drop_first(), x);
        assert(items.push(x).drop_first() =~= items.drop_first().push(x));
        assert(items.push(x)[0] == items[0]);
        assert(items[0] + seq![','] + (comma_join(items.drop_first()) + seq![','] + x) =~= (
        items[0] + seq![','] + comma_join(items.drop_first())) + seq![','] + x);
    }
}

} // verus!
