//! Small verified building blocks for working with strings: equality,
//! splitting on a separator character, decimal parsing and formatting,
//! and ASCII lowercasing.

use vstd::prelude::*;
use vstd::string::*;

verus! {

/// Relies on std's `String::push`: appends one character to the string.
#[verifier::external_body]
pub fn push_char(s: &mut String, c: char)
    ensures
        final(s)@ == old(s)@ + seq![c],
{
    s.push(c);
}

/// Character-for-character equality of two string slices.
pub fn str_eq(a: &str, b: &str) -> (r: bool)
    ensures
        r == (a@ == b@),
{
    let x: String = a.to_owned();
    let y: String = b.to_owned();
    x == y
}

/// Splitting a character sequence at every occurrence of `sep`. The result
/// always has at least one piece; an empty input gives one empty piece.
pub open spec fn split_chars(s: Seq<char>, sep: char) -> Seq<Seq<char>>
    decreases s.len(),
{
    if s.len() == 0 {
        seq![Seq::<char>::empty()]
    } else if s[0] == sep {
        seq![Seq::<char>::empty()] + split_chars(s.drop_first(), sep)
    } else {
        let rest = split_chars(s.drop_first(), sep);
        seq![seq![s[0]] + rest[0]] + rest.drop_first()
    }
}

pub proof fn lemma_split_chars_len(s: Seq<char>, sep: char)
    ensures
        split_chars(s, sep).len() >= 1,
    decreases s.len(),
{
    if s.len() > 0 {
        lemma_split_chars_len(s.drop_first(), sep);
    }
}

/// Appending one character to the input extends the last piece, or starts a
/// fresh empty piece when the character is the separator.
proof fn lemma_split_chars_push(s: Seq<char>, sep: char, c: char)
    ensures
        c == sep ==> split_chars(s.push(c), sep) == split_chars(s, sep).push(
            Seq::<char>::empty(),
        ),
        c != sep ==> split_chars(s.push(c), sep) == split_chars(s, sep).update(
            split_chars(s, sep).len() - 1,
            split_chars(s, sep).last().push(c),
        ),
    decreases s.len(),
{
    lemma_split_chars_len(s, sep);
    let sc = s.push(c);
    assert(sc.len() == s.len() + 1);
    assert(sc[s.len() as int] == c);
    if s.len() == 0 {
        assert(sc[0] == c);
        assert(sc.drop_first() =~= Seq::<char>::empty());
        assert(s =~= Seq::<char>::empty());
        assert(split_chars(Seq::<char>::empty(), sep) == seq![Seq::<char>::empty()]);
        if c == sep {
            assert(split_chars(sc, sep) == seq![Seq::<char>::empty()] + split_chars(
                sc.drop_first(),
                sep,
            ));
            assert(split_chars(sc, sep) =~= split_chars(s, sep).push(Seq::<char>::empty()));
        } else {
            assert(split_chars(sc, sep) == seq![seq![sc[0]] + split_chars(sc.drop_first(), sep)[0]]
                + split_chars(sc.drop_first(), sep).drop_first());
            assert(seq![sc[0]] + split_chars(sc.drop_first(), sep)[0] =~= seq![c]);
            assert(seq![Seq::<char>::empty()].drop_first() =~= Seq::<Seq<char>>::empty());
            assert(split_chars(s, sep).last().push(c) =~= seq![c]);
            assert(split_chars(sc, sep) =~= split_chars(s, sep).update(
                0,
                split_chars(s, sep).last().push(c),
            ));
        }
    } else {
        let t = s.drop_first();
        lemma_split_chars_len(t, sep);
        lemma_split_chars_push(t, sep, c);
        assert(sc.drop_first() =~= t.push(c));
        assert(sc[0] == s[0]);
        let sp = split_chars(s, sep);
        let tp = split_chars(t, sep);
        let tpc = split_chars(t.push(c), sep);
        assert(split_chars(sc.drop_first(), sep) == tpc);
        if s[0] == sep {
            assert(sp == seq![Seq::<char>::empty()] + tp);
            assert(split_chars(sc, sep) == seq![Seq::<char>::empty()] + tpc);
            if c == sep {
                assert(split_chars(sc, sep) =~= sp.push(Seq::<char>::empty()));
            } else {
                assert(split_chars(sc, sep) =~= sp.update(sp.len() - 1, sp.last().push(c)));
            }
        } else {
            assert(sp == seq![seq![s[0]] + tp[0]] + tp.drop_first());
            assert(split_chars(sc, sep) == seq![seq![s[0]] + tpc[0]] + tpc.drop_first());
            if c == sep {
                assert(tpc == tp.push(Seq::<char>::empty()));
                assert(tpc[0] == tp[0]);
                assert(tpc.drop_first() =~= tp.drop_first().push(Seq::<char>::empty()));
                assert(split_chars(sc, sep) =~= sp.push(Seq::<char>::empty()));
            } else {
                assert(tpc == tp.update(tp.len() - 1, tp.last().push(c)));
                if tp.len() == 1 {
                    assert(tpc[0] == tp[0].push(c));
                    assert(tpc.drop_first() =~= tp.drop_first());
                    assert(sp.last() == seq![s[0]] + tp[0]);
                    assert((seq![s[0]] + tp[0]).push(c) =~= seq![s[0]] + tp[0].push(c));
                    assert(split_chars(sc, sep) =~= sp.update(sp.len() - 1, sp.last().push(c)));
                } else {
                    assert(tpc[0] == tp[0]);
                    assert(tpc.drop_first() =~= tp.drop_first().update(
                        tp.len() - 2,
                        tp.last().push(c),
                    ));
                    assert(sp.last() == tp.last());
                    assert(split_chars(sc, sep) =~= sp.update(sp.len() - 1, sp.last().push(c)));
                }
            }
        }
    }
}

/// Splits `s` at every occurrence of `sep`.
pub fn split_str(s: &str, sep: char) -> (r: Vec<String>)
    ensures
        r@.len() == split_chars(s@, sep).len(),
        forall|i: int| 0 <= i < r@.len() ==> r@[i]@ == split_chars(s@, sep)[i],
{
    let n = s.unicode_len();
    let mut r: Vec<String> = Vec::new();
    let mut cur: String = String::new();
    let mut i: usize = 0;
    while i < n
        invariant
            n == s@.len(),
            i <= n,
            r@.len() + 1 == split_chars(s@.subrange(0, i as int), sep).len(),
            forall|j: int|
                0 <= j < r@.len() ==> r@[j]@ == split_chars(s@.subrange(0, i as int), sep)[j],
            cur@ == split_chars(s@.subrange(0, i as int), sep).last(),
        decreases n - i,
    {
        let c = s.get_char(i);
        proof {
            lemma_split_chars_push(s@.subrange(0, i as int), sep, c);
            assert(s@.subrange(0, i + 1 as int) =~= s@.subrange(0, i as int).push(s@[i as int]));
        }
        if c == sep {
            r.push(cur);
            cur = String::new();
        } else {
            push_char(&mut cur, c);
        }
        i += 1;
    }
    proof {
        assert(s@.subrange(0, n as int) =~= s@);
    }
    r.push(cur);
    r
}

pub open spec fn is_digit(c: char) -> bool {
    '0' <= c && c <= '9'
}

pub open spec fn digit_of(c: char) -> nat {
    (c as u32 - 48) as nat
}

pub open spec fn all_digits(s: Seq<char>) -> bool {
    forall|i: int| 0 <= i < s.len() ==> is_digit(#[trigger] s[i])
}

/// The value of a digit string read in base ten.
pub open spec fn digits_val(s: Seq<char>) -> nat
    decreases s.len(),
{
    if s.len() == 0 {
        0
    } else {
        digits_val(s.drop_last()) * 10 + digit_of(s.last())
    }
}

/// What a count field parses to: the base-ten value of a non-empty all-digit
/// string when it fits in `usize`, and zero for anything else. Malformed or
/// missing fields in a listing default to zero rather than failing the line.
pub open spec fn parse_usize_spec(s: Seq<char>) -> usize {
    if s.len() > 0 && all_digits(s) && digits_val(s) <= usize::MAX {
        digits_val(s) as usize
    } else {
        0
    }
}

proof fn lemma_digits_val_prefix_le(s: Seq<char>, j: int)
    requires
        0 <= j <= s.len(),
    ensures
        digits_val(s.subrange(0, j)) <= digits_val(s),
    decreases s.len() - j,
{
    if j == s.len() {
        assert(s.subrange(0, j) =~= s);
    } else {
        lemma_digits_val_prefix_le(s, j + 1);
        assert(s.subrange(0, j + 1).drop_last() =~= s.subrange(0, j));
        assert(digits_val(s.subrange(0, j + 1)) == digits_val(s.subrange(0, j)) * 10 + digit_of(
            s.subrange(0, j + 1).last(),
        ));
    }
}

/// Parses a decimal count, defaulting to zero on anything malformed.
pub fn parse_usize(s: &str) -> (r: usize)
    ensures
        r == parse_usize_spec(s@),
{
    let n = s.unicode_len();
    if n == 0 {
        return 0;
    }
    let mut acc: u128 = 0;
    let mut i: usize = 0;
    let max: u128 = usize::MAX as u128;
    while i < n
        invariant
            n == s@.len(),
            0 < n,
            i <= n,
            acc == digits_val(s@.subrange(0, i as int)),
            acc <= max,
            max == usize::MAX as u128,
            all_digits(s@.subrange(0, i as int)),
        decreases n - i,
    {
        let c = s.get_char(i);
        proof {
            assert(s@.subrange(0, i + 1 as int) =~= s@.subrange(0, i as int).push(s@[i as int]));
            assert(s@.subrange(0, i + 1 as int).drop_last() =~= s@.subrange(0, i as int));
        }
        if c < '0' || c > '9' {
            assert(!all_digits(s@));
            return 0;
        }
        let d: u128 = (c as u32 - 48) as u128;
        assert(acc * 10 + d <= max * 10 + 9) by (nonlinear_arith)
            requires
                acc <= max,
                d <= 9,
        ;
        acc = acc * 10 + d;
        i += 1;
        if acc > max {
            proof {
                lemma_digits_val_prefix_le(s@, i as int);
                assert(s@.subrange(0, n as int) =~= s@);
            }
            return 0;
        }
    }
    proof {
        assert(s@.subrange(0, n as int) =~= s@);
    }
    acc as usize
}

/// The decimal digit characters of `n`, most significant first.
pub open spec fn dec_digit(d: nat) -> char {
    if d == 0 {
        '0'
    } else if d == 1 {
        '1'
    } else if d == 2 {
        '2'
    } else if d == 3 {
        '3'
    } else if d == 4 {
        '4'
    } else if d == 5 {
        '5'
    } else if d == 6 {
        '6'
    } else if d == 7 {
        '7'
    } else if d == 8 {
        '8'
    } else {
        '9'
    }
}

pub open spec fn dec_str(n: nat) -> Seq<char>
    decreases n,
{
    if n < 10 {
        seq![dec_digit(n)]
    } else {
        dec_str(n / 10).push(dec_digit(n % 10))
    }
}

fn digit_char(d: u64) -> (c: char)
    requires
        d < 10,
    ensures
        c == dec_digit(d as nat),
{
    match d {
        0 => '0',
        1 => '1',
        2 => '2',
        3 => '3',
        4 => '4',
        5 => '5',
        6 => '6',
        7 => '7',
        8 => '8',
        _ => '9',
    }
}

/// Writes `n` in decimal.
pub fn u64_to_string(n: u64) -> (r: String)
    ensures
        r@ == dec_str(n as nat),
    decreases n,
{
    if n < 10 {
        let mut s = String::new();
        push_char(&mut s, digit_char(n));
        proof {
            assert(Seq::<char>::empty() + seq![dec_digit(n as nat)] =~= seq![
                dec_digit(n as nat),
            ]);
        }
        s
    } else {
        let mut s = u64_to_string(n / 10);
        push_char(&mut s, digit_char(n % 10));
        proof {
            assert(dec_str((n / 10) as nat) + seq![dec_digit((n % 10) as nat)] =~= dec_str(
                (n / 10) as nat,
            ).push(dec_digit((n % 10) as nat)));
        }
        s
    }
}

/// The decimal form of a signed value: a minus sign before the digits of the
/// magnitude for negative values.
pub open spec fn int_str(n: int) -> Seq<char> {
    if n < 0 {
        seq!['-'] + dec_str((-n) as nat)
    } else {
        dec_str(n as nat)
    }
}

/// Writes `n` in decimal, with a leading minus sign when negative.
pub fn i64_to_string(n: i64) -> (r: String)
    requires
        n > i64::MIN,
    ensures
        r@ == int_str(n as int),
{
    if n < 0 {
        let mut s = String::new();
        push_char(&mut s, '-');
        let m = u64_to_string((-n) as u64);
        s.append(m.as_str());
        proof {
            assert(Seq::<char>::empty() + seq!['-'] + dec_str((-n) as nat) =~= seq!['-']
                + dec_str((-n) as nat));
        }
        s
    } else {
        u64_to_string(n as u64)
    }
}

/// ASCII lowercasing of one character; anything outside `A`..`Z` is kept.
pub open spec fn lower_char(c: char) -> char {
    if 'A' <= c && c <= 'Z' {
        ((c as u32 + 32) as u8) as char
    } else {
        c
    }
}

pub open spec fn lower_chars(s: Seq<char>) -> Seq<char> {
    s.map_values(|c: char| lower_char(c))
}

/// ASCII-lowercases a string.
pub fn to_ascii_lowercase(s: &str) -> (r: String)
    ensures
        r@ == lower_chars(s@),
{
    let n = s.unicode_len();
    let mut r = String::new();
    let mut i: usize = 0;
    while i < n
        invariant
            n == s@.len(),
            i <= n,
            r@ == lower_chars(s@.subrange(0, i as int)),
        decreases n - i,
    {
        let c = s.get_char(i);
        let lc: char = if c >= 'A' && c <= 'Z' {
            ((c as u32 + 32) as u8) as char
        } else {
            c
        };
        push_char(&mut r, lc);
        proof {
            assert(s@.subrange(0, i + 1 as int) =~= s@.subrange(0, i as int).push(s@[i as int]));
            assert(lower_chars(s@.subrange(0, i + 1 as int)) =~= lower_chars(
                s@.subrange(0, i as int),
            ).push(lower_char(s@[i as int])));
        }
        i += 1;
    }
    proof {
        assert(s@.subrange(0, n as int) =~= s@);
    }
    r
}

pub open spec fn is_ws(c: char) -> bool {
    c == ' ' || c == '\t' || c == '\n' || c == '\r'
}

pub open spec fn trim_front(s: Seq<char>) -> Seq<char>
    decreases s.len(),
{
    if s.len() > 0 && is_ws(s[0]) {
        trim_front(s.drop_first())
    } else {
        s
    }
}

pub open spec fn trim_back(s: Seq<char>) -> Seq<char>
    decreases s.len(),
{
    if s.len() > 0 && is_ws(s.last()) {
        trim_back(s.drop_last())
    } else {
        s
    }
}

/// `s` with leading and trailing ASCII whitespace removed.
pub open spec fn trim_spec(s: Seq<char>) -> Seq<char> {
    trim_back(trim_front(s))
}

/// Trims leading and trailing ASCII whitespace.
pub fn trim_str(s: &str) -> (r: String)
    ensures
        r@ == trim_spec(s@),
{
    let n = s.unicode_len();
    proof {
        assert(s@.subrange(0, n as int) =~= s@);
    }
    let mut lo: usize = 0;
    let mut stop = false;
    while lo < n && !stop
        invariant
            n == s@.len(),
            lo <= n,
            trim_front(s@) == trim_front(s@.subrange(lo as int, n as int)),
            stop ==> lo < n && !is_ws(s@[lo as int]),
        decreases n - lo, if stop { 0int } else { 1int },
    {
        let c = s.get_char(lo);
        if c == ' ' || c == '\t' || c == '\n' || c == '\r' {
            proof {
                assert(s@.subrange(lo as int, n as int).drop_first() =~= s@.subrange(
                    lo + 1 as int,
                    n as int,
                ));
            }
            lo += 1;
        } else {
            stop = true;
        }
    }
    proof {
        assert(trim_front(s@.subrange(lo as int, n as int)) == s@.subrange(lo as int, n as int));
    }
    let mut hi: usize = n;
    let mut stop_back = false;
    while hi > lo && !stop_back
        invariant
            n == s@.len(),
            lo <= hi <= n,
            trim_front(s@) == s@.subrange(lo as int, n as int),
            trim_back(s@.subrange(lo as int, n as int)) == trim_back(
                s@.subrange(lo as int, hi as int),
            ),
            stop_back ==> hi > lo && !is_ws(s@[hi - 1 as int]),
        decreases hi, if stop_back { 0int } else { 1int },
    {
        let c = s.get_char(hi - 1);
        if c == ' ' || c == '\t' || c == '\n' || c == '\r' {
            proof {
                assert(s@.subrange(lo as int, hi as int).drop_last() =~= s@.subrange(
                    lo as int,
                    hi - 1 as int,
                ));
            }
            hi -= 1;
        } else {
            stop_back = true;
        }
    }
    proof {
        assert(trim_back(s@.subrange(lo as int, hi as int)) == s@.subrange(lo as int, hi as int));
    }
    let piece = s.substring_char(lo, hi);
    piece.to_owned()
}

/// Concatenates two strings.
pub fn concat_str(a: &str, b: &str) -> (r: String)
    ensures
        r@ == a@ + b@,
{
    let mut r: String = a.to_owned();
    r.append(b);
    r
}

} // verus!
