//! Character-level helpers on strings: trimming, splitting and recognising
//! integer literals.
use vstd::prelude::*;
use vstd::string::*;

verus! {

/// Characters that `char::is_whitespace` accepts (Unicode White_Space).
pub open spec fn is_space(c: char) -> bool {
    ('\u{9}' <= c && c <= '\u{d}') || c == ' ' || c == '\u{85}' || c == '\u{a0}'
        || c == '\u{1680}' || ('\u{2000}' <= c && c <= '\u{200a}') || c == '\u{2028}'
        || c == '\u{2029}' || c == '\u{202f}' || c == '\u{205f}' || c == '\u{3000}'
}

/// The characters removed by a trim: whitespace, or single quotes when `quotes`.
pub open spec fn is_stripped(c: char, quotes: bool) -> bool {
    if quotes {
        c == '\''
    } else {
        is_space(c)
    }
}

pub open spec fn strip_start(s: Seq<char>, quotes: bool) -> Seq<char>
    decreases s.len(),
{
    if s.len() > 0 && is_stripped(s[0], quotes) {
        strip_start(s.drop_first(), quotes)
    } else {
        s
    }
}

pub open spec fn strip_end(s: Seq<char>, quotes: bool) -> Seq<char>
    decreases s.len(),
{
    if s.len() > 0 && is_stripped(s.last(), quotes) {
        strip_end(s.drop_last(), quotes)
    } else {
        s
    }
}

/// `s` without its leading and trailing stripped characters.
pub open spec fn strip(s: Seq<char>, quotes: bool) -> Seq<char> {
    strip_end(strip_start(s, quotes), quotes)
}

/// Removes leading and trailing whitespace (or single quotes, when `quotes`).
pub fn strip_str(s: &str, quotes: bool) -> (r: &str)
    ensures
        r@ == strip(s@, quotes),
{
    let n = s.unicode_len();
    let mut i: usize = 0;
    assert(s@.subrange(0, n as int) =~= s@);
    while i < n && is_stripped_char(s.get_char(i), quotes)
        invariant
            n == s@.len(),
            i <= n,
            strip_start(s@, quotes) == strip_start(s@.subrange(i as int, n as int), quotes),
        decreases n - i,
    {
        assert(s@.subrange(i as int, n as int).drop_first() =~= s@.subrange(i + 1, n as int));
        i = i + 1;
    }
    let ghost front = s@.subrange(i as int, n as int);
    assert(strip_start(s@, quotes) == front);
    let mut j: usize = n;
    while j > i && is_stripped_char(s.get_char(j - 1), quotes)
        invariant
            n == s@.len(),
            i <= j <= n,
            front == s@.subrange(i as int, n as int),
            strip_end(front, quotes) == strip_end(s@.subrange(i as int, j as int), quotes),
        decreases j,
    {
        assert(s@.subrange(i as int, j as int).drop_last() =~= s@.subrange(i as int, j - 1));
        j = j - 1;
    }
    s.substring_char(i, j)
}

/// The pieces of `s` between occurrences of `sep`, in order; always at least one.
pub open spec fn split_on(s: Seq<char>, sep: char) -> Seq<Seq<char>>
    decreases s.len(),
{
    if s.len() == 0 {
        seq![Seq::empty()]
    } else {
        let r = split_on(s.drop_last(), sep);
        if s.last() == sep {
            r.push(Seq::empty())
        } else {
            r.update(r.len() - 1, r.last().push(s.last()))
        }
    }
}

/// Splits `s` at every `sep`.
pub fn split_str<'a>(s: &'a str, sep: char) -> (r: Vec<&'a str>)
    ensures
        r@.map_values(|p: &str| p@) == split_on(s@, sep),
{
    let n = s.unicode_len();
    let mut pieces: Vec<&'a str> = Vec::new();
    let mut start: usize = 0;
    let mut i: usize = 0;
    assert(s@.subrange(0, 0) =~= Seq::<char>::empty());
    assert(split_on(Seq::<char>::empty(), sep) == seq![Seq::<char>::empty()]);
    assert(pieces@.map_values(|p: &str| p@).push(s@.subrange(0, 0)) =~= seq![Seq::<char>::empty()]);
    while i < n
        invariant
            n == s@.len(),
            start <= i <= n,
            split_on(s@.subrange(0, i as int), sep) == pieces@.map_values(|p: &str| p@).push(
                s@.subrange(start as int, i as int),
            ),
        decreases n - i,
    {
        let c = s.get_char(i);
        let ghost old_pieces = pieces@.map_values(|p: &str| p@);
        assert(s@.subrange(0, i + 1).drop_last() =~= s@.subrange(0, i as int));
        if c == sep {
            let piece = s.substring_char(start, i);
            pieces.push(piece);
            assert(pieces@.map_values(|p: &str| p@) =~= old_pieces.push(piece@));
            start = i + 1;
            assert(s@.subrange(start as int, i + 1) =~= Seq::<char>::empty());
        } else {
            assert(s@.subrange(start as int, i + 1) =~= s@.subrange(start as int, i as int).push(c));
            assert(old_pieces.push(s@.subrange(start as int, i as int)).update(
                old_pieces.len() as int, s@.subrange(start as int, i + 1)) =~= old_pieces.push(
                s@.subrange(start as int, i + 1)));
        }
        i = i + 1;
    }
    let last = s.substring_char(start, n);
    let ghost before = pieces@.map_values(|p: &str| p@);
    pieces.push(last);
    assert(pieces@.map_values(|p: &str| p@) =~= before.push(last@));
    assert(s@.subrange(0, n as int) =~= s@);
    pieces
}

/// The index of the first `c` in `s`, or -1 where there is none.
pub open spec fn index_of(s: Seq<char>, c: char) -> int
    decreases s.len(),
{
    if s.len() == 0 {
        -1
    } else {
        let k = index_of(s.drop_last(), c);
        if k >= 0 {
            k
        } else if s.last() == c {
            s.len() - 1
        } else {
            -1
        }
    }
}

/// `s` cut at its first `c` into what stands before and what stands after.
pub open spec fn split_once(s: Seq<char>, c: char) -> Option<(Seq<char>, Seq<char>)> {
    let k = index_of(s, c);
    if k < 0 {
        None
    } else {
        Some((s.subrange(0, k), s.subrange(k + 1, s.len() as int)))
    }
}

/// Cuts `s` at its first `c`.
pub fn split_once_str<'a>(s: &'a str, c: char) -> (r: Option<(&'a str, &'a str)>)
    ensures
        match (r, split_once(s@, c)) {
            (Some(p), Some(q)) => p.0@ == q.0 && p.1@ == q.1,
            (None, None) => true,
            _ => false,
        },
{
    let n = s.unicode_len();
    let mut i: usize = 0;
    assert(s@.subrange(0, 0) =~= Seq::<char>::empty());
    while i < n
        invariant
            n == s@.len(),
            i <= n,
            index_of(s@.subrange(0, i as int), c) == -1,
        decreases n - i,
    {
        assert(s@.subrange(0, i + 1).drop_last() =~= s@.subrange(0, i as int));
        if s.get_char(i) == c {
            assert(index_of(s@.subrange(0, i + 1), c) == i);
            proof { lemma_index_of_prefix(s@, c, i + 1); }
            return Some((s.substring_char(0, i), s.substring_char(i + 1, n)));
        }
        i = i + 1;
    }
    assert(s@.subrange(0, n as int) =~= s@);
    None
}

/// Once a prefix holds `c`, the first `c` of the whole is that of the prefix.
proof fn lemma_index_of_prefix(s: Seq<char>, c: char, m: int)
    requires
        0 <= m <= s.len(),
        index_of(s.subrange(0, m), c) >= 0,
    ensures
        index_of(s, c) == index_of(s.subrange(0, m), c),
    decreases s.len() - m,
{
    if m < s.len() {
        assert(s.subrange(0, m + 1).drop_last() =~= s.subrange(0, m));
        lemma_index_of_prefix(s, c, m + 1);
    } else {
        assert(s.subrange(0, m) =~= s);
    }
}

pub open spec fn is_digit(c: char) -> bool {
    '0' <= c && c <= '9'
}

/// The number that a run of decimal digits spells.
pub open spec fn digits_value(d: Seq<char>) -> int
    decreases d.len(),
{
    if d.len() == 0 {
        0
    } else {
        digits_value(d.drop_last()) * 10 + (d.last() as int - '0' as int)
    }
}

/// `s` read as an optional sign followed by at least one decimal digit:
/// (negative, digits).
pub open spec fn sign_and_digits(s: Seq<char>) -> (bool, Seq<char>) {
    if s.len() > 0 && (s[0] == '+' || s[0] == '-') {
        (s[0] == '-', s.drop_first())
    } else {
        (false, s)
    }
}

/// Whether `s` is a literal that `i32`'s `FromStr` accepts: an optional sign,
/// decimal digits, and a value within the range of `i32`.
pub open spec fn is_i32_literal(s: Seq<char>) -> bool {
    let (neg, d) = sign_and_digits(s);
    &&& d.len() > 0
    &&& forall|k: int| 0 <= k < d.len() ==> is_digit(#[trigger] d[k])
    &&& if neg {
        digits_value(d) <= 0x8000_0000
    } else {
        digits_value(d) <= 0x7fff_ffff
    }
}

proof fn lemma_digits_value_nonneg(d: Seq<char>)
    requires
        forall|k: int| 0 <= k < d.len() ==> is_digit(#[trigger] d[k]),
    ensures
        digits_value(d) >= 0,
    decreases d.len(),
{
    if d.len() > 0 {
        lemma_digits_value_nonneg(d.drop_last());
    }
}

/// Whether `s` is an integer literal that fits in an `i32`.
pub fn is_i32_literal_str(s: &str) -> (r: bool)
    ensures
        r == is_i32_literal(s@),
{
    let n = s.unicode_len();
    let mut start: usize = 0;
    let mut neg = false;
    if n > 0 && (s.get_char(0) == '+' || s.get_char(0) == '-') {
        neg = s.get_char(0) == '-';
        start = 1;
    }
    let ghost d = sign_and_digits(s@).1;
    assert(d =~= s@.subrange(start as int, n as int));
    if start == n {
        return false;
    }
    // the value read so far, held at `cap` once it reaches it
    let cap: u64 = 0x1_0000_0000;
    let mut acc: u64 = 0;
    let mut i: usize = start;
    assert(d.subrange(0, 0) =~= Seq::<char>::empty());
    while i < n
        invariant
            n == s@.len(),
            start < n,
            start <= i <= n,
            d == s@.subrange(start as int, n as int),
            d == sign_and_digits(s@).1,
            neg == sign_and_digits(s@).0,
            cap == 0x1_0000_0000,
            forall|k: int| 0 <= k < i - start ==> is_digit(#[trigger] d[k]),
            acc <= cap,
            acc < cap ==> acc == digits_value(d.subrange(0, i - start)),
            acc == cap ==> digits_value(d.subrange(0, i - start)) >= cap,
        decreases n - i,
    {
        let c = s.get_char(i);
        if !('0' <= c && c <= '9') {
            assert(!is_digit(d[i - start]));
            assert(!is_i32_literal(s@));
            return false;
        }
        let ghost pre = d.subrange(0, i - start);
        let ghost next = d.subrange(0, i + 1 - start);
        assert(next.drop_last() =~= pre);
        assert(next.last() == c);
        proof { lemma_digits_value_nonneg(pre); }
        let v = (c as u32 - '0' as u32) as u64;
        if acc < cap {
            if acc * 10 + v >= cap {
                acc = cap;
            } else {
                acc = acc * 10 + v;
            }
        } else {
            assert(digits_value(next) >= cap) by (nonlinear_arith)
                requires
                    digits_value(next) == digits_value(pre) * 10 + v,
                    digits_value(pre) >= cap,
                    v >= 0,
                    cap > 0,
            ;
        }
        i = i + 1;
    }
    assert(d.subrange(0, n - start) =~= d);
    if neg {
        acc <= 0x8000_0000
    } else {
        acc <= 0x7fff_ffff
    }
}

/// Whether a trim removes `c`.
pub fn is_stripped_char(c: char, quotes: bool) -> (r: bool)
    ensures
        r == is_stripped(c, quotes),
{
    if quotes {
        c == '\''
    } else {
        is_space_char(c)
    }
}

/// Whether `c` is whitespace in the sense of `is_space`.
pub fn is_space_char(c: char) -> (r: bool)
    ensures
        r == is_space(c),
{
    ('\u{9}' <= c && c <= '\u{d}') || c == ' ' || c == '\u{85}' || c == '\u{a0}'
        || c == '\u{1680}' || ('\u{2000}' <= c && c <= '\u{200a}') || c == '\u{2028}'
        || c == '\u{2029}' || c == '\u{202f}' || c == '\u{205f}' || c == '\u{3000}'
}

} // verus!
