//! Numbers written out in decimal, for the one-line summaries the renderer
//! and the film strip print.

use vstd::prelude::*;

verus! {

/// Whether `piece` stands in `text` as a run of consecutive characters.
pub open spec fn shows(text: Seq<char>, piece: Seq<char>) -> bool {
    exists|before: Seq<char>, after: Seq<char>| text == before + piece + after
}

/// The first `n` of `parts` written one after another.
pub open spec fn joined(parts: Seq<Seq<char>>, n: int) -> Seq<char>
    decreases n,
{
    if n <= 0 {
        Seq::empty()
    } else {
        joined(parts, n - 1) + parts[n - 1]
    }
}

/// Joining depends only on the parts joined.
proof fn lemma_joined_same(p: Seq<Seq<char>>, q: Seq<Seq<char>>, k: int)
    requires
        0 <= k <= p.len(),
        k <= q.len(),
        forall|i: int| 0 <= i < k ==> p[i] == q[i],
    ensures
        joined(p, k) == joined(q, k),
    decreases k,
{
    if k > 0 {
        lemma_joined_same(p, q, k - 1);
    }
}

/// Joining `n` parts is joining the first `a`, then the rest.
proof fn lemma_joined_prefix(parts: Seq<Seq<char>>, a: int, n: int)
    requires
        0 <= a <= n <= parts.len(),
    ensures
        joined(parts, n) == joined(parts, a) + joined(parts.subrange(a, n), n - a),
    decreases n,
{
    if n == a {
        assert(joined(parts, n) =~= joined(parts, a) + joined(parts.subrange(a, n), n - a));
    } else {
        lemma_joined_prefix(parts, a, n - 1);
        let q = parts.subrange(a, n);
        lemma_joined_same(parts.subrange(a, n - 1), q, n - 1 - a);
        assert(q[n - a - 1] == parts[n - 1]);
        assert(joined(parts, n) =~= joined(parts, a) + joined(q, n - a));
    }
}

/// Of the first `n` parts joined, parts `a..b` joined stand in the middle:
/// after those before `a` and before those from `b` on.
pub proof fn lemma_joined_window(parts: Seq<Seq<char>>, a: int, b: int, n: int)
    requires
        0 <= a <= b <= n <= parts.len(),
    ensures
        joined(parts, n) == joined(parts, a) + joined(parts.subrange(a, b), b - a) + joined(
            parts.subrange(b, n),
            n - b,
        ),
        shows(joined(parts, n), joined(parts.subrange(a, b), b - a)),
{
    lemma_joined_prefix(parts, a, n);
    let q = parts.subrange(a, n);
    lemma_joined_prefix(q, b - a, n - a);
    lemma_joined_same(q, parts.subrange(a, b), b - a);
    assert(q.subrange(b - a, n - a) =~= parts.subrange(b, n));
    let before = joined(parts, a);
    let piece = joined(parts.subrange(a, b), b - a);
    let after = joined(parts.subrange(b, n), n - b);
    assert(joined(parts, n) =~= before + piece + after);
}

/// The character of decimal digit `d`.
pub open spec fn digit_char(d: int) -> char {
    (48 + d) as char
}

/// `n` in decimal, most significant digit first, with no leading zeros.
pub open spec fn decimal(n: nat) -> Seq<char>
    decreases n,
{
    if n < 10 {
        seq![digit_char(n as int)]
    } else {
        decimal(n / 10).push(digit_char((n % 10) as int))
    }
}

/// The number the decimal digits `digits` write, most significant first.
pub open spec fn digits_value(digits: Seq<char>) -> int
    decreases digits.len(),
{
    if digits.len() == 0 {
        0
    } else {
        digits_value(digits.drop_last()) * 10 + (digits.last() as int - '0' as int)
    }
}

/// `decimal(n)` reads back as `n`: every character is a digit, the first is
/// not a zero unless `n` is, and the digits' value is `n`.
pub proof fn decimal_reads_back(n: nat)
    ensures
        decimal(n).len() >= 1,
        forall|i: int| 0 <= i < decimal(n).len() ==> '0' <= #[trigger] decimal(n)[i] <= '9',
        decimal(n)[0] == '0' ==> n == 0,
        digits_value(decimal(n)) == n,
    decreases n,
{
    assert('0' as int == 48);
    if n >= 10 {
        decimal_reads_back(n / 10);
        let head = decimal(n / 10);
        assert(decimal(n) == head.push(digit_char((n % 10) as int)));
        assert(decimal(n).drop_last() =~= head);
        assert(decimal(n)[0] == head[0]);
        let d = (n % 10) as int;
        assert(digit_char(d) as int == 48 + d);
        assert(decimal(n).last() == digit_char(d));
        assert(digits_value(decimal(n)) == digits_value(head) * 10 + d);
        assert(n == (n / 10) * 10 + d);
    } else {
        assert(decimal(n).drop_last() =~= Seq::<char>::empty());
        assert(digit_char(n as int) as int == 48 + n);
        assert(digits_value(decimal(n)) == digits_value(decimal(n).drop_last()) * 10 + (decimal(n).last() as int - '0' as int));
    }
}

fn digit_text(d: u64) -> (text: &'static str)
    requires
        d < 10,
    ensures
        text@ == seq![digit_char(d as int)],
{
    proof {
        reveal_strlit("0");
        reveal_strlit("1");
        reveal_strlit("2");
        reveal_strlit("3");
        reveal_strlit("4");
        reveal_strlit("5");
        reveal_strlit("6");
        reveal_strlit("7");
        reveal_strlit("8");
        reveal_strlit("9");
    }
    if d == 0 {
        "0"
    } else if d == 1 {
        "1"
    } else if d == 2 {
        "2"
    } else if d == 3 {
        "3"
    } else if d == 4 {
        "4"
    } else if d == 5 {
        "5"
    } else if d == 6 {
        "6"
    } else if d == 7 {
        "7"
    } else if d == 8 {
        "8"
    } else {
        "9"
    }
}

/// `n` written in decimal.
pub fn decimal_text(n: u64) -> (text: String)
    ensures
        text@ == decimal(n as nat),
    decreases n,
{
    if n < 10 {
        String::from_str(digit_text(n))
    } else {
        let mut text = decimal_text(n / 10);
        text.append(digit_text(n % 10));
        text
    }
}

/// `text` in the literal's characters.
pub fn literal(text: &'static str) -> (owned: String)
    ensures
        owned@ == text@,
{
    String::from_str(text)
}

} // verus!
