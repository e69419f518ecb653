//! Release version strings ("v1.10.2") read as number sequences, and their order.

use vstd::prelude::*;
use crate::text::chars_of;

verus! {

/// `s` without one leading `v`.
pub open spec fn strip_v(s: Seq<char>) -> Seq<char> {
    if s.len() > 0 && s[0] == 'v' {
        s.drop_first()
    } else {
        s
    }
}

/// Splitting `s` at each `.`: the finished pieces and the piece still being read.
pub open spec fn split_state(s: Seq<char>) -> (Seq<Seq<char>>, Seq<char>)
    decreases s.len(),
{
    if s.len() == 0 {
        (Seq::empty(), Seq::empty())
    } else {
        let (done, cur) = split_state(s.drop_last());
        if s.last() == '.' {
            (done.push(cur), Seq::empty())
        } else {
            (done, cur.push(s.last()))
        }
    }
}

/// The pieces of `s` between dots, empty pieces included (`str::split('.')`).
pub open spec fn split_dots(s: Seq<char>) -> Seq<Seq<char>> {
    split_state(s).0.push(split_state(s).1)
}

pub open spec fn is_digit(c: char) -> bool {
    '0' <= c && c <= '9'
}

pub open spec fn all_digits(s: Seq<char>) -> bool {
    forall|i: int| 0 <= i < s.len() ==> is_digit(#[trigger] s[i])
}

/// The number written by the decimal digits `s`.
pub open spec fn decimal_value(s: Seq<char>) -> nat
    decreases s.len(),
{
    if s.len() == 0 {
        0
    } else {
        decimal_value(s.drop_last()) * 10 + ((s.last() as nat) - ('0' as nat)) as nat
    }
}

/// What `str::parse::<u64>` makes of `seg`: an optional `+`, then one or more decimal
/// digits whose value fits in a `u64`.
pub open spec fn parse_u64_text(seg: Seq<char>) -> Option<u64> {
    let digits = if seg.len() > 0 && seg[0] == '+' { seg.drop_first() } else { seg };
    if digits.len() > 0 && all_digits(digits) && decimal_value(digits) <= u64::MAX {
        Some(decimal_value(digits) as u64)
    } else {
        None
    }
}

/// The numbers of the pieces that parse, in order; the others are skipped.
pub open spec fn parsed_numbers(segs: Seq<Seq<char>>) -> Seq<u64>
    decreases segs.len(),
{
    if segs.len() == 0 {
        Seq::empty()
    } else {
        let rest = parsed_numbers(segs.drop_last());
        match parse_u64_text(segs.last()) {
            Some(n) => rest.push(n),
            None => rest,
        }
    }
}

/// The number sequence that a version string stands for.
pub open spec fn version_numbers(s: Seq<char>) -> Seq<u64> {
    parsed_numbers(split_dots(strip_v(s)))
}

/// Whether version `a` comes after version `b`, comparing number by number from the left;
/// a version that extends another comes after it.
pub open spec fn newer(a: Seq<u64>, b: Seq<u64>) -> bool
    decreases a.len(),
{
    if a.len() == 0 {
        false
    } else if b.len() == 0 {
        true
    } else if a[0] != b[0] {
        a[0] > b[0]
    } else {
        newer(a.drop_first(), b.drop_first())
    }
}

proof fn lemma_decimal_prefix_grows(s: Seq<char>, i: int, j: int)
    requires
        all_digits(s),
        0 <= i <= j <= s.len(),
    ensures
        decimal_value(s.take(i)) <= decimal_value(s.take(j)),
    decreases j - i,
{
    if i < j {
        lemma_decimal_prefix_grows(s, i, j - 1);
        assert(s.take(j).drop_last() =~= s.take(j - 1));
        assert(is_digit(s[j - 1]));
    }
}

/// The number that `seg` writes in the sense of `str::parse::<u64>`, if any.
pub fn parse_segment(seg: &[char]) -> (r: Option<u64>)
    ensures
        r == parse_u64_text(seg@),
{
    let n = seg.len();
    let start: usize = if n > 0 && seg[0] == '+' { 1 } else { 0 };
    let ghost digits = seg@.subrange(start as int, n as int);
    assert(digits =~= (if seg@.len() > 0 && seg@[0] == '+' { seg@.drop_first() } else { seg@ }));
    if start == n {
        return None;
    }
    let mut acc: u64 = 0;
    let mut i: usize = start;
    while i < n
        invariant
            start <= i <= n,
            n == seg@.len(),
            digits == seg@.subrange(start as int, n as int),
            digits == (if seg@.len() > 0 && seg@[0] == '+' { seg@.drop_first() } else { seg@ }),
            start < n,
            all_digits(digits.take(i - start)),
            acc as nat == decimal_value(digits.take(i - start)),
        decreases n - i,
    {
        let c = seg[i];
        if !('0' <= c && c <= '9') {
            assert(digits[i - start] == c);
            return None;
        }
        let d = (c as u32 - '0' as u32) as u64;
        assert(digits.take(i - start + 1).drop_last() =~= digits.take(i - start));
        assert(digits.take(i - start + 1).last() == c);
        if acc > (u64::MAX - d) / 10 {
            proof {
                assert(acc * 10 + d > u64::MAX) by (nonlinear_arith)
                    requires
                        acc > (u64::MAX - d) / 10,
                        d <= 9,
                ;
                if all_digits(digits) {
                    lemma_decimal_prefix_grows(digits, i - start + 1, digits.len() as int);
                    assert(digits.take(digits.len() as int) =~= digits);
                }
            }
            return None;
        }
        proof {
            assert(acc * 10 + d <= u64::MAX) by (nonlinear_arith)
                requires
                    acc <= (u64::MAX - d) / 10,
                    d <= 9,
            ;
        }
        acc = acc * 10 + d;
        i = i + 1;
        assert(all_digits(digits.take(i - start)));
    }
    assert(digits.take(n - start) =~= digits);
    Some(acc)
}

/// The number sequence of a version string: one leading `v` dropped, the rest split at
/// dots, and each piece that parses as a `u64` kept, in order.
pub fn parse_version(v: &str) -> (r: Vec<u64>)
    ensures
        r@ == version_numbers(v@),
{
    let s = chars_of(v);
    let n = s.len();
    let start: usize = if n > 0 && s[0] == 'v' { 1 } else { 0 };
    let ghost body = s@.subrange(start as int, n as int);
    assert(body =~= strip_v(v@));
    let mut out: Vec<u64> = Vec::new();
    let mut cur: Vec<char> = Vec::new();
    let ghost mut done: Seq<Seq<char>> = Seq::empty();
    let mut i: usize = start;
    assert(body.take(0) =~= Seq::<char>::empty());
    while i < n
        invariant
            start <= i <= n,
            n == s@.len(),
            body == s@.subrange(start as int, n as int),
            split_state(body.take(i - start)) == (done, cur@),
            out@ == parsed_numbers(done),
        decreases n - i,
    {
        let c = s[i];
        assert(body.take(i - start + 1).drop_last() =~= body.take(i - start));
        assert(body.take(i - start + 1).last() == c);
        if c == '.' {
            let p = parse_segment(cur.as_slice());
            proof {
                assert(done.push(cur@).drop_last() =~= done);
            }
            match p {
                Some(x) => out.push(x),
                None => {},
            }
            proof {
                done = done.push(cur@);
            }
            cur = Vec::new();
        } else {
            cur.push(c);
        }
        i = i + 1;
    }
    assert(body.take(n - start) =~= body);
    let p = parse_segment(cur.as_slice());
    assert(done.push(cur@).drop_last() =~= done);
    match p {
        Some(x) => out.push(x),
        None => {},
    }
    out
}

/// Whether version `a` comes after version `b` (the order of `Vec<u64>`).
pub fn is_newer(a: &[u64], b: &[u64]) -> (r: bool)
    ensures
        r == newer(a@, b@),
{
    let mut i: usize = 0;
    assert(a@.skip(0) =~= a@);
    assert(b@.skip(0) =~= b@);
    while i < a.len() && i < b.len()
        invariant
            i <= a@.len(),
            i <= b@.len(),
            newer(a@, b@) == newer(a@.skip(i as int), b@.skip(i as int)),
        decreases a@.len() - i,
    {
        if a[i] != b[i] {
            return a[i] > b[i];
        }
        assert(a@.skip(i as int).drop_first() =~= a@.skip(i + 1));
        assert(b@.skip(i as int).drop_first() =~= b@.skip(i + 1));
        i = i + 1;
    }
    a.len() > b.len()
}

/// Order law: no version comes after itself.
pub proof fn lemma_newer_irreflexive(a: Seq<u64>)
    ensures
        !newer(a, a),
    decreases a.len(),
{
    if a.len() > 0 {
        lemma_newer_irreflexive(a.drop_first());
    }
}

/// Order law: of two versions, at most one comes after the other.
pub proof fn lemma_newer_asymmetric(a: Seq<u64>, b: Seq<u64>)
    ensures
        newer(a, b) ==> !newer(b, a),
    decreases a.len(),
{
    if a.len() > 0 && b.len() > 0 && a[0] == b[0] {
        lemma_newer_asymmetric(a.drop_first(), b.drop_first());
    }
}

/// Order law: coming after is transitive.
pub proof fn lemma_newer_transitive(a: Seq<u64>, b: Seq<u64>, c: Seq<u64>)
    requires
        newer(a, b),
        newer(b, c),
    ensures
        newer(a, c),
    decreases a.len(),
{
    if a.len() > 0 && b.len() > 0 && c.len() > 0 && a[0] == b[0] && b[0] == c[0] {
        lemma_newer_transitive(a.drop_first(), b.drop_first(), c.drop_first());
    }
}

/// Order law: of two different versions, one comes after the other.
pub proof fn lemma_newer_total(a: Seq<u64>, b: Seq<u64>)
    requires
        a != b,
    ensures
        newer(a, b) || newer(b, a),
    decreases a.len(),
{
    if a.len() == 0 {
        assert(b.len() > 0) by {
            if b.len() == 0 {
                assert(a =~= b);
            }
        }
    } else if b.len() > 0 && a[0] == b[0] {
        if a.drop_first() == b.drop_first() {
            assert(a =~= seq![a[0]] + a.drop_first());
            assert(b =~= seq![b[0]] + b.drop_first());
        }
        lemma_newer_total(a.drop_first(), b.drop_first());
    }
}


/// Reading law: a version written with a leading `v` reads as the same numbers as without.
pub proof fn lemma_leading_v_ignored(s: Seq<char>)
    requires
        !(s.len() > 0 && s[0] == 'v'),
    ensures
        version_numbers(seq!['v'] + s) == version_numbers(s),
{
    assert((seq!['v'] + s).drop_first() =~= s);
}


/// Order law: version `a` comes after version `b` exactly when, at the first position where
/// they differ, `a` has the greater number, or `b` is a proper prefix of `a` (the order of
/// `Vec<u64>`).
pub proof fn lemma_newer_is_first_difference(a: Seq<u64>, b: Seq<u64>)
    ensures
        newer(a, b) <==> exists|i: int|
            0 <= i < a.len() && i <= b.len() && #[trigger] a.take(i) == b.take(i) && (i == b.len()
                || a[i] > b[i]),
    decreases a.len(),
{
    if a.len() == 0 {
    } else if b.len() == 0 {
        assert(a.take(0) =~= b.take(0));
    } else if a[0] != b[0] {
        if a[0] > b[0] {
            assert(a.take(0) =~= b.take(0));
        }
        assert forall|i: int|
            0 <= i < a.len() && i <= b.len() && #[trigger] a.take(i) == b.take(i) && (i == b.len()
                || a[i] > b[i]) implies a[0] > b[0] by {
            if i > 0 {
                assert(a.take(i)[0] == b.take(i)[0]);
            }
        }
    } else {
        let a1 = a.drop_first();
        let b1 = b.drop_first();
        lemma_newer_is_first_difference(a1, b1);
        if newer(a1, b1) {
            let j = choose|j: int|
                0 <= j < a1.len() && j <= b1.len() && #[trigger] a1.take(j) == b1.take(j) && (j
                    == b1.len() || a1[j] > b1[j]);
            assert(a.take(j + 1) =~= seq![a[0]] + a1.take(j));
            assert(b.take(j + 1) =~= seq![b[0]] + b1.take(j));
            assert(a.take(j + 1) == b.take(j + 1));
        }
        assert forall|i: int|
            0 <= i < a.len() && i <= b.len() && #[trigger] a.take(i) == b.take(i) && (i == b.len()
                || a[i] > b[i]) implies newer(a1, b1) by {
            assert(i > 0);
            assert(a1.take(i - 1) =~= a.take(i).drop_first());
            assert(b1.take(i - 1) =~= b.take(i).drop_first());
            assert(a1.take(i - 1) == b1.take(i - 1));
        }
    }
}

} // verus!
