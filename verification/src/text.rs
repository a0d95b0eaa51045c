//! Text primitives on character sequences: replacing every occurrence of a
//! pattern, testing a prefix, and writing a number in decimal.

use vstd::prelude::*;

verus! {

/// `s` with every occurrence of `pat` replaced by `rep`, matching from left to
/// right without overlap (the behaviour of `str::replace`). The empty pattern
/// occurs before every character and at the end.
pub open spec fn replace_all(s: Seq<char>, pat: Seq<char>, rep: Seq<char>) -> Seq<char>
    decreases s.len(),
{
    if pat.len() == 0 {
        if s.len() == 0 {
            rep
        } else {
            rep + seq![s[0]] + replace_all(s.skip(1), pat, rep)
        }
    } else if s.len() == 0 {
        s
    } else if pat.is_prefix_of(s) {
        rep + replace_all(s.skip(pat.len() as int), pat, rep)
    } else {
        seq![s[0]] + replace_all(s.skip(1), pat, rep)
    }
}

/// Whether the character `c` does not occur in `s`.
pub open spec fn free_of(s: Seq<char>, c: char) -> bool {
    forall|k: int| 0 <= k < s.len() ==> s[k] != c
}

/// Text in which the pattern's first character does not occur passes through
/// a replacement unchanged, whatever follows it.
pub proof fn replace_all_passes_over(a: Seq<char>, b: Seq<char>, pat: Seq<char>, rep: Seq<char>)
    requires
        pat.len() > 0,
        free_of(a, pat[0]),
    ensures
        replace_all(a + b, pat, rep) == a + replace_all(b, pat, rep),
    decreases a.len(),
{
    let s = a + b;
    if a.len() == 0 {
        assert(s =~= b);
    } else {
        assert(s[0] == a[0]);
        if pat.is_prefix_of(s) {
            assert(pat[0] == s.subrange(0, pat.len() as int)[0]);
        }
        assert(s.skip(1) =~= a.skip(1) + b);
        replace_all_passes_over(a.skip(1), b, pat, rep);
        assert(a =~= seq![a[0]] + a.skip(1));
        assert(replace_all(s, pat, rep) =~= a + replace_all(b, pat, rep));
    }
}

/// Whether `pat` occurs somewhere in `s`.
pub open spec fn contains_text(s: Seq<char>, pat: Seq<char>) -> bool {
    exists|k: int| 0 <= k && k + pat.len() <= s.len() && #[trigger] s.subrange(k, k + pat.len()) == pat
}

/// Text at no position of which the pattern starts passes through a
/// replacement unchanged, whatever follows it.
pub proof fn replace_all_passes_over_unmatched(
    a: Seq<char>,
    b: Seq<char>,
    pat: Seq<char>,
    rep: Seq<char>,
)
    requires
        pat.len() > 0,
        forall|k: int| 0 <= k < a.len() ==> !pat.is_prefix_of(#[trigger] (a + b).skip(k)),
    ensures
        replace_all(a + b, pat, rep) == a + replace_all(b, pat, rep),
    decreases a.len(),
{
    let s = a + b;
    if a.len() == 0 {
        assert(s =~= b);
    } else {
        assert(s.skip(0) =~= s);
        assert(!pat.is_prefix_of(s.skip(0)));
        assert(s.skip(1) =~= a.skip(1) + b);
        assert forall|k: int| 0 <= k < a.skip(1).len() implies !pat.is_prefix_of(
            #[trigger] (a.skip(1) + b).skip(k),
        ) by {
            assert((a.skip(1) + b).skip(k) =~= s.skip(k + 1));
            assert(!pat.is_prefix_of(s.skip(k + 1)));
        }
        replace_all_passes_over_unmatched(a.skip(1), b, pat, rep);
        assert(a =~= seq![a[0]] + a.skip(1));
        assert(replace_all(s, pat, rep) =~= a + replace_all(b, pat, rep));
    }
}

/// When `a` does not contain the pattern and what follows `a` starts with a
/// character found nowhere in the pattern after its first character, the
/// pattern starts at no position of `a`.
pub proof fn no_match_within_or_across(a: Seq<char>, b: Seq<char>, pat: Seq<char>)
    requires
        pat.len() > 0,
        b.len() > 0,
        !contains_text(a, pat),
        forall|j: int| 1 <= j < pat.len() ==> pat[j] != b[0],
    ensures
        forall|k: int| 0 <= k < a.len() ==> !pat.is_prefix_of(#[trigger] (a + b).skip(k)),
{
    let s = a + b;
    assert forall|k: int| 0 <= k < a.len() implies !pat.is_prefix_of(#[trigger] (a + b).skip(k)) by {
        if pat.is_prefix_of(s.skip(k)) {
            if k + pat.len() <= a.len() {
                assert(a.subrange(k, k + pat.len()) =~= pat) by {
                    assert forall|i: int| 0 <= i < pat.len() implies a.subrange(k, k + pat.len())[i]
                        == pat[i] by {
                        assert(pat[i] == s.skip(k).subrange(0, pat.len() as int)[i]);
                    }
                }
                assert(contains_text(a, pat));
            } else {
                let j = a.len() - k;
                assert(pat[j] == s.skip(k).subrange(0, pat.len() as int)[j]);
                assert(s.skip(k)[j] == b[0]);
            }
        }
    }
}

/// An occurrence of the pattern at the start is replaced, and the replacement
/// goes on after it.
pub proof fn replace_all_at_pattern(pat: Seq<char>, b: Seq<char>, rep: Seq<char>)
    requires
        pat.len() > 0,
    ensures
        replace_all(pat + b, pat, rep) == rep + replace_all(b, pat, rep),
{
    let s = pat + b;
    assert(s.subrange(0, pat.len() as int) =~= pat);
    assert(s.skip(pat.len() as int) =~= b);
}

/// Text in which the pattern's first character does not occur is left as it is.
pub proof fn replace_all_identity(a: Seq<char>, pat: Seq<char>, rep: Seq<char>)
    requires
        pat.len() > 0,
        free_of(a, pat[0]),
    ensures
        replace_all(a, pat, rep) == a,
{
    replace_all_passes_over(a, Seq::empty(), pat, rep);
    assert(a + Seq::<char>::empty() =~= a);
}

/// The characters of `s`, one per element.
pub fn chars_of(s: &str) -> (v: Vec<char>)
    ensures
        v@ == s@,
{
    let n = s.unicode_len();
    let mut v: Vec<char> = Vec::new();
    let mut i: usize = 0;
    while i < n
        invariant
            n == s@.len(),
            i <= n,
            v@ == s@.subrange(0, i as int),
        decreases n - i,
    {
        let c = s.get_char(i);
        v.push(c);
        i = i + 1;
        assert(v@ =~= s@.subrange(0, i as int));
    }
    assert(v@ =~= s@);
    v
}

/// Whether `pat` occurs in `s` at position `at`.
pub fn occurs_at(s: &Vec<char>, pat: &Vec<char>, at: usize) -> (r: bool)
    requires
        at <= s@.len(),
    ensures
        r == pat@.is_prefix_of(s@.skip(at as int)),
{
    let n = s.len();
    let m = pat.len();
    if m > n - at {
        return false;
    }
    let mut j: usize = 0;
    while j < m
        invariant
            n == s@.len(),
            m == pat@.len(),
            at + m <= n,
            j <= m,
            forall|k: int| 0 <= k < j ==> pat@[k] == s@[at + k],
        decreases m - j,
    {
        if pat[j] != s[at + j] {
            assert(pat@[j as int] != s@.skip(at as int)[j as int]);
            return false;
        }
        j = j + 1;
    }
    assert(pat@ =~= s@.skip(at as int).subrange(0, m as int));
    true
}

/// Whether `s` begins with `prefix`.
pub fn starts_with(s: &str, prefix: &str) -> (r: bool)
    ensures
        r == prefix@.is_prefix_of(s@),
{
    let sc = chars_of(s);
    let pc = chars_of(prefix);
    assert(sc@.skip(0) =~= sc@);
    occurs_at(&sc, &pc, 0)
}

/// Whether `a` and `b` hold the same characters.
pub fn str_eq(a: &str, b: &str) -> (r: bool)
    ensures
        r == (a@ == b@),
{
    if a.unicode_len() != b.unicode_len() {
        return false;
    }
    let r = starts_with(a, b);
    assert(r ==> a@ =~= b@);
    r
}

/// `s` with the empty pattern replaced by `rep`: `rep` before every character
/// and at the end.
fn replace_empty(s: &str, rep: &str) -> (out: String)
    ensures
        out@ == replace_all(s@, Seq::empty(), rep@),
{
    let n = s.unicode_len();
    let mut out = String::new();
    let mut i: usize = 0;
    assert(s@.skip(0) =~= s@);
    while i < n
        invariant
            n == s@.len(),
            i <= n,
            out@ + replace_all(s@.skip(i as int), Seq::empty(), rep@) == replace_all(
                s@,
                Seq::empty(),
                rep@,
            ),
        decreases n - i,
    {
        let ghost rest = s@.skip(i as int);
        let one = s.substring_char(i, i + 1);
        out.append(rep);
        out.append(one);
        assert(rest.skip(1) =~= s@.skip(i + 1));
        assert(one@ =~= seq![rest[0]]);
        assert(out@ + replace_all(s@.skip(i + 1), Seq::empty(), rep@) =~= replace_all(
            s@,
            Seq::empty(),
            rep@,
        ));
        i = i + 1;
    }
    assert(s@.skip(n as int) =~= Seq::<char>::empty());
    out.append(rep);
    assert(out@ =~= replace_all(s@, Seq::empty(), rep@));
    out
}

/// `s` with every occurrence of `pat` replaced by `rep`.
pub fn replace(s: &str, pat: &str, rep: &str) -> (out: String)
    ensures
        out@ == replace_all(s@, pat@, rep@),
{
    let sc = chars_of(s);
    let pc = chars_of(pat);
    let n = sc.len();
    let m = pc.len();
    if m == 0 {
        assert(pat@ =~= Seq::<char>::empty());
        return replace_empty(s, rep);
    }
    let mut out = String::new();
    let mut i: usize = 0;
    assert(s@.skip(0) =~= s@);
    while i < n
        invariant
            n == s@.len(),
            m == pat@.len(),
            m > 0,
            sc@ == s@,
            pc@ == pat@,
            i <= n,
            out@ + replace_all(s@.skip(i as int), pat@, rep@) == replace_all(s@, pat@, rep@),
        decreases n - i,
    {
        let ghost rest = s@.skip(i as int);
        if occurs_at(&sc, &pc, i) {
            out.append(rep);
            assert(rest.skip(m as int) =~= s@.skip(i + m));
            assert(out@ + replace_all(s@.skip(i + m), pat@, rep@) =~= replace_all(s@, pat@, rep@));
            i = i + m;
        } else {
            let one = s.substring_char(i, i + 1);
            out.append(one);
            assert(rest.skip(1) =~= s@.skip(i + 1));
            assert(one@ =~= seq![rest[0]]);
            assert(out@ + replace_all(s@.skip(i + 1), pat@, rep@) =~= replace_all(s@, pat@, rep@));
            i = i + 1;
        }
    }
    assert(s@.skip(n as int) =~= Seq::<char>::empty());
    assert(out@ =~= replace_all(s@, pat@, rep@));
    out
}

/// The character of a decimal digit.
pub open spec fn digit_char(d: nat) -> char {
    if d == 0 { '0' } else if d == 1 { '1' } else if d == 2 { '2' } else if d == 3 { '3' }
    else if d == 4 { '4' } else if d == 5 { '5' } else if d == 6 { '6' } else if d == 7 { '7' }
    else if d == 8 { '8' } else { '9' }
}

/// The value of a decimal digit character (0 for any other character).
pub open spec fn digit_value(c: char) -> nat {
    if c == '1' { 1 } else if c == '2' { 2 } else if c == '3' { 3 } else if c == '4' { 4 }
    else if c == '5' { 5 } else if c == '6' { 6 } else if c == '7' { 7 } else if c == '8' { 8 }
    else if c == '9' { 9 } else { 0 }
}

/// `n` written in decimal, without leading zeros (the text `n.to_string()` gives).
pub open spec fn decimal_digits(n: nat) -> Seq<char>
    decreases n,
{
    if n < 10 {
        seq![digit_char(n)]
    } else {
        decimal_digits(n / 10).push(digit_char(n % 10))
    }
}

/// The number that a string of decimal digits denotes.
pub open spec fn decimal_value(s: Seq<char>) -> nat
    decreases s.len(),
{
    if s.len() == 0 {
        0
    } else {
        decimal_value(s.drop_last()) * 10 + digit_value(s.last())
    }
}

/// Reading back the decimal text of `n` gives `n`.
pub proof fn decimal_round_trip(n: nat)
    ensures
        decimal_value(decimal_digits(n)) == n,
        decimal_digits(n).len() > 0,
    decreases n,
{
    let d = decimal_digits(n);
    if n < 10 {
        assert(d.drop_last() =~= Seq::<char>::empty());
        assert(digit_value(digit_char(n)) == n);
        assert(decimal_value(d.drop_last()) == 0);
        assert(decimal_value(d) == n);
    } else {
        decimal_round_trip(n / 10);
        assert(d.drop_last() =~= decimal_digits(n / 10));
        assert(digit_value(digit_char(n % 10)) == n % 10);
        assert(n == (n / 10) * 10 + n % 10) by (nonlinear_arith);
        assert(decimal_value(d) == decimal_value(d.drop_last()) * 10 + digit_value(d.last()));
        assert(d.last() == digit_char(n % 10));
        assert(decimal_value(d) == n);
    }
}

/// Different numbers have different decimal texts.
pub proof fn decimal_injective(a: nat, b: nat)
    ensures
        decimal_digits(a) == decimal_digits(b) ==> a == b,
{
    decimal_round_trip(a);
    decimal_round_trip(b);
}

/// The one-character text of the digit `d`.
fn digit_str(d: u64) -> (r: &'static str)
    requires
        d < 10,
    ensures
        r@ == seq![digit_char(d as nat)],
{
    proof {
        reveal_strlit("0");
        reveal_strlit("1");
        reveal_strlit("2");
        reveal_strlit("3");
        reveal_strlit("4");
        reveal_strlit("5");
        reveal_strlit("6");
        reveal_strlit("7");
        reveal_strlit("8");
        reveal_strlit("9");
    }
    if d == 0 { "0" } else if d == 1 { "1" } else if d == 2 { "2" } else if d == 3 { "3" }
    else if d == 4 { "4" } else if d == 5 { "5" } else if d == 6 { "6" } else if d == 7 { "7" }
    else if d == 8 { "8" } else { "9" }
}

/// `n` written in decimal.
pub fn decimal(n: u64) -> (out: String)
    ensures
        out@ == decimal_digits(n as nat),
    decreases n,
{
    if n < 10 {
        String::from_str(digit_str(n))
    } else {
        let mut s = decimal(n / 10);
        s.append(digit_str(n % 10));
        s
    }
}

} // verus!
