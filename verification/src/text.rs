//! Character-level helpers: decimal rendering with zero padding, Unicode
//! whitespace, trimming, prefixes and line splitting.
use vstd::prelude::*;

verus! {

/// Appends one character to a `String` (`String::push`).
#[verifier::external_body]
pub(crate) fn push_char(s: &mut String, c: char)
    ensures
        final(s)@ == old(s)@.push(c),
{
    s.push(c);
}

/// Appends a string slice.
pub fn push_str(s: &mut String, t: &str)
    ensures
        final(s)@ == old(s)@ + t@,
{
    s.append(t);
}

/// The characters of a string slice, in order.
pub fn chars_of(s: &str) -> (r: Vec<char>)
    ensures
        r@ == s@,
{
    let mut out: Vec<char> = Vec::new();
    for c in iter: s.chars()
        invariant
            iter.seq() == s@,
            out@ == iter.seq().subrange(0, iter.index() as int),
    {
        out.push(c);
    }
    out
}

/// A `String` holding `v[lo..hi]`.
pub fn string_from_chars(v: &Vec<char>, lo: usize, hi: usize) -> (r: String)
    requires
        lo <= hi <= v@.len(),
    ensures
        r@ == v@.subrange(lo as int, hi as int),
{
    let mut out = String::new();
    let mut i = lo;
    while i < hi
        invariant
            lo <= i <= hi <= v@.len(),
            out@ == v@.subrange(lo as int, i as int),
        decreases hi - i,
    {
        push_char(&mut out, v[i]);
        assert(v@.subrange(lo as int, i + 1) == v@.subrange(lo as int, i as int).push(v@[i as int]));
        i = i + 1;
    }
    out
}

/// A copy of a string slice as an owned `String`.
pub fn to_owned_string(s: &str) -> (r: String)
    ensures
        r@ == s@,
{
    let mut out = String::new();
    push_str(&mut out, s);
    out
}

/// Character equality of two strings.
pub fn str_eq(a: &str, b: &str) -> (r: bool)
    ensures
        r == (a@ == b@),
{
    let av = chars_of(a);
    let bv = chars_of(b);
    if av.len() != bv.len() {
        return false;
    }
    let mut i: usize = 0;
    while i < av.len()
        invariant
            av@ == a@,
            bv@ == b@,
            av@.len() == bv@.len(),
            i <= av@.len(),
            forall|j: int| 0 <= j < i ==> av@[j] == bv@[j],
        decreases av@.len() - i,
    {
        if av[i] != bv[i] {
            return false;
        }
        i = i + 1;
    }
    assert(av@ =~= bv@);
    true
}

// ---------------------------------------------------------------------------
// Decimal rendering
// ---------------------------------------------------------------------------

/// The ASCII digit for `d` in 0..=9.
pub open spec fn digit_char(d: int) -> char {
    if d == 0 {
        '0'
    } else if d == 1 {
        '1'
    } else if d == 2 {
        '2'
    } else if d == 3 {
        '3'
    } else if d == 4 {
        '4'
    } else if d == 5 {
        '5'
    } else if d == 6 {
        '6'
    } else if d == 7 {
        '7'
    } else if d == 8 {
        '8'
    } else {
        '9'
    }
}

/// Decimal digits of `n`, most significant first, without leading zeros.
pub open spec fn dec_digits(n: nat) -> Seq<char>
    decreases n,
{
    if n < 10 {
        seq![digit_char(n as int)]
    } else {
        dec_digits(n / 10).push(digit_char((n % 10) as int))
    }
}

/// `k` zero characters (none when `k <= 0`).
pub open spec fn zeros(k: int) -> Seq<char> {
    Seq::new(if k > 0 { k as nat } else { 0 }, |i: int| '0')
}

/// `n` in decimal, left-padded with zeros to at least `width` characters
/// (what `{:0width}` renders for an unsigned integer).
pub open spec fn pad_unsigned(n: nat, width: nat) -> Seq<char> {
    zeros(width - dec_digits(n).len()) + dec_digits(n)
}

/// `n` in decimal with sign-aware zero padding to at least `width`
/// characters: the zeros stand after a leading `-` (what `{:0width}` renders
/// for a signed integer).
pub open spec fn pad_signed(n: int, width: nat) -> Seq<char> {
    if n >= 0 {
        pad_unsigned(n as nat, width)
    } else {
        seq!['-'] + zeros(width - 1 - dec_digits((-n) as nat).len()) + dec_digits((-n) as nat)
    }
}

/// `n` in decimal.
pub open spec fn decimal(n: int) -> Seq<char> {
    pad_signed(n, 0)
}

proof fn lemma_dec_digits_len(n: nat)
    ensures
        dec_digits(n).len() >= 1,
        n < 10_000_000_000_000_000_000 ==> dec_digits(n).len() <= 19,
        n < 100_000_000_000_000_000_000 ==> dec_digits(n).len() <= 20,
{
    reveal_with_fuel(pow10, 21);
    assert(pow10(19) == 10_000_000_000_000_000_000);
    assert(pow10(20) == 100_000_000_000_000_000_000);
    lemma_dec_digits_bound(n, 20);
    lemma_dec_digits_bound(n, 19);
}

pub open spec fn pow10(k: nat) -> nat
    decreases k,
{
    if k == 0 {
        1
    } else {
        10 * pow10((k - 1) as nat)
    }
}

proof fn lemma_dec_digits_bound(n: nat, k: nat)
    ensures
        dec_digits(n).len() >= 1,
        k >= 1 && n < pow10(k) ==> dec_digits(n).len() <= k,
    decreases n,
{
    if n >= 10 {
        if k >= 2 {
            lemma_dec_digits_bound(n / 10, (k - 1) as nat);
            let p = pow10((k - 1) as nat);
            assert(pow10(k) == 10 * p);
            assert(n < 10 * p ==> n / 10 < p) by (nonlinear_arith);
        } else {
            lemma_dec_digits_bound(n / 10, k);
            assert(pow10(1) == 10 * pow10(0));
        }
    }
}

fn digit(d: u64) -> (c: char)
    requires
        d < 10,
    ensures
        c == digit_char(d as int),
{
    if d == 0 {
        '0'
    } else if d == 1 {
        '1'
    } else if d == 2 {
        '2'
    } else if d == 3 {
        '3'
    } else if d == 4 {
        '4'
    } else if d == 5 {
        '5'
    } else if d == 6 {
        '6'
    } else if d == 7 {
        '7'
    } else if d == 8 {
        '8'
    } else {
        '9'
    }
}

/// Appends the decimal digits of `n`.
pub fn push_decimal(out: &mut String, n: u64)
    ensures
        final(out)@ == old(out)@ + dec_digits(n as nat),
    decreases n,
{
    if n >= 10 {
        push_decimal(out, n / 10);
    }
    push_char(out, digit(n % 10));
}

/// Number of decimal digits of `n`.
pub fn decimal_len(n: u64) -> (r: usize)
    ensures
        r == dec_digits(n as nat).len(),
    decreases n,
{
    proof {
        lemma_dec_digits_len(n as nat);
    }
    if n < 10 {
        1
    } else {
        let k = decimal_len(n / 10);
        proof {
            lemma_dec_digits_len(n as nat);
        }
        k + 1
    }
}

fn push_zeros(out: &mut String, k: usize)
    ensures
        final(out)@ == old(out)@ + zeros(k as int),
{
    let mut i: usize = 0;
    while i < k
        invariant
            i <= k,
            out@ == old(out)@ + zeros(i as int),
        decreases k - i,
    {
        push_char(out, '0');
        assert(zeros(i + 1) =~= zeros(i as int).push('0'));
        i = i + 1;
    }
}

/// Appends `n` with zero padding to `width` (see `pad_unsigned`).
pub fn push_padded_unsigned(out: &mut String, n: u64, width: usize)
    ensures
        final(out)@ == old(out)@ + pad_unsigned(n as nat, width as nat),
{
    let len = decimal_len(n);
    let pad = if width > len {
        width - len
    } else {
        0
    };
    push_zeros(out, pad);
    assert(zeros(pad as int) =~= zeros(width - dec_digits(n as nat).len()));
    push_decimal(out, n);
    assert(final(out)@ =~= old(out)@ + pad_unsigned(n as nat, width as nat)) by {
        assert(old(out)@ + zeros(pad as int) + dec_digits(n as nat) =~= old(out)@ + (zeros(
            pad as int,
        ) + dec_digits(n as nat)));
    }
}

/// Appends `n` with sign-aware zero padding to `width` (see `pad_signed`).
pub fn push_padded_signed(out: &mut String, n: i64, width: usize)
    ensures
        final(out)@ == old(out)@ + pad_signed(n as int, width as nat),
{
    if n >= 0 {
        push_padded_unsigned(out, n as u64, width);
    } else {
        let mag: u64 = ((-(n + 1)) as u64) + 1;
        assert(mag as int == -(n as int));
        push_char(out, '-');
        let len = decimal_len(mag);
        let pad = if len < width && width - len > 1 {
            width - len - 1
        } else {
            0
        };
        push_zeros(out, pad);
        assert(zeros(pad as int) =~= zeros(width - 1 - dec_digits(mag as nat).len()));
        push_decimal(out, mag);
        assert(final(out)@ =~= old(out)@ + pad_signed(n as int, width as nat));
    }
}

/// The decimal rendering of `n` as a new `String`.
pub fn u64_to_string(n: u64) -> (r: String)
    ensures
        r@ == decimal(n as int),
{
    let mut s = String::new();
    push_padded_unsigned(&mut s, n, 0);
    assert(s@ =~= decimal(n as int));
    s
}

// ---------------------------------------------------------------------------
// Whitespace, trimming, prefixes
// ---------------------------------------------------------------------------

/// Unicode `White_Space` characters (what `char::is_whitespace` tests).
pub open spec fn is_unicode_whitespace(c: char) -> bool {
    let u = c as u32;
    ||| 0x09 <= u <= 0x0D
    ||| u == 0x20
    ||| u == 0x85
    ||| u == 0xA0
    ||| u == 0x1680
    ||| 0x2000 <= u <= 0x200A
    ||| u == 0x2028
    ||| u == 0x2029
    ||| u == 0x202F
    ||| u == 0x205F
    ||| u == 0x3000
}

pub fn is_whitespace(c: char) -> (r: bool)
    ensures
        r == is_unicode_whitespace(c),
{
    let u = c as u32;
    (0x09 <= u && u <= 0x0D) || u == 0x20 || u == 0x85 || u == 0xA0 || u == 0x1680 || (0x2000
        <= u && u <= 0x200A) || u == 0x2028 || u == 0x2029 || u == 0x202F || u == 0x205F || u
        == 0x3000
}

/// `s` without its leading whitespace.
pub open spec fn trim_start(s: Seq<char>) -> Seq<char>
    decreases s.len(),
{
    if s.len() > 0 && is_unicode_whitespace(s[0]) {
        trim_start(s.drop_first())
    } else {
        s
    }
}

/// `s` without its trailing whitespace.
pub open spec fn trim_end(s: Seq<char>) -> Seq<char>
    decreases s.len(),
{
    if s.len() > 0 && is_unicode_whitespace(s.last()) {
        trim_end(s.drop_last())
    } else {
        s
    }
}

/// `s` without leading and trailing whitespace (what `str::trim` returns).
pub open spec fn trim(s: Seq<char>) -> Seq<char> {
    trim_end(trim_start(s))
}

proof fn lemma_trim_start_skip(s: Seq<char>, i: int)
    requires
        0 <= i <= s.len(),
        forall|j: int| 0 <= j < i ==> is_unicode_whitespace(#[trigger] s[j]),
    ensures
        trim_start(s) == trim_start(s.skip(i)),
    decreases i,
{
    if i > 0 {
        assert(s.drop_first().skip(i - 1) =~= s.skip(i));
        lemma_trim_start_skip(s.drop_first(), i - 1);
    } else {
        assert(s.skip(0) =~= s);
    }
}

proof fn lemma_trim_end_take(s: Seq<char>, k: int)
    requires
        0 <= k <= s.len(),
        forall|j: int| k <= j < s.len() ==> is_unicode_whitespace(#[trigger] s[j]),
    ensures
        trim_end(s) == trim_end(s.take(k)),
    decreases s.len() - k,
{
    if k < s.len() {
        assert(s.drop_last().take(k) =~= s.take(k));
        lemma_trim_end_take(s.drop_last(), k);
    } else {
        assert(s.take(k) =~= s);
    }
}

/// Bounds `[lo, hi)` of the trimmed part of `v[start..end]`.
pub fn trim_bounds(v: &Vec<char>, start: usize, end: usize) -> (r: (usize, usize))
    requires
        start <= end <= v@.len(),
    ensures
        start <= r.0 <= r.1 <= end,
        v@.subrange(r.0 as int, r.1 as int) == trim(v@.subrange(start as int, end as int)),
{
    let ghost s = v@.subrange(start as int, end as int);
    let mut lo = start;
    while lo < end && is_whitespace(v[lo])
        invariant
            start <= lo <= end <= v@.len(),
            s == v@.subrange(start as int, end as int),
            forall|j: int| start <= j < lo ==> is_unicode_whitespace(#[trigger] v@[j]),
        decreases end - lo,
    {
        lo = lo + 1;
    }
    proof {
        assert forall|j: int| 0 <= j < lo - start implies is_unicode_whitespace(#[trigger] s[j]) by {
            assert(s[j] == v@[start + j]);
        }
        lemma_trim_start_skip(s, lo - start);
        let t = s.skip(lo - start);
        assert(t =~= v@.subrange(lo as int, end as int));
        if lo < end {
            assert(!is_unicode_whitespace(t[0]));
        }
        assert(trim_start(t) == t);
    }
    let mut hi = end;
    while hi > lo && is_whitespace(v[hi - 1])
        invariant
            start <= lo <= hi <= end <= v@.len(),
            forall|j: int| hi <= j < end ==> is_unicode_whitespace(#[trigger] v@[j]),
        decreases hi - lo,
    {
        hi = hi - 1;
    }
    proof {
        let t = v@.subrange(lo as int, end as int);
        assert forall|j: int| hi - lo <= j < t.len() implies is_unicode_whitespace(#[trigger] t[j]) by {
            assert(t[j] == v@[lo + j]);
        }
        lemma_trim_end_take(t, hi - lo);
        let u = t.take(hi - lo);
        assert(u =~= v@.subrange(lo as int, hi as int));
        if hi > lo {
            assert(!is_unicode_whitespace(u.last()));
        }
        assert(trim_end(u) == u);
    }
    (lo, hi)
}

/// `p` is a prefix of `s`.
pub open spec fn has_prefix(s: Seq<char>, p: Seq<char>) -> bool {
    p.len() <= s.len() && s.take(p.len() as int) == p
}

/// Whether `v[lo..hi]` starts with `prefix`.
pub fn range_starts_with(v: &Vec<char>, lo: usize, hi: usize, prefix: &str) -> (r: bool)
    requires
        lo <= hi <= v@.len(),
    ensures
        r == has_prefix(v@.subrange(lo as int, hi as int), prefix@),
{
    let p = chars_of(prefix);
    if p.len() > hi - lo {
        return false;
    }
    let mut i: usize = 0;
    while i < p.len()
        invariant
            p@ == prefix@,
            lo <= hi <= v@.len(),
            p@.len() <= hi - lo,
            i <= p@.len(),
            forall|j: int| 0 <= j < i ==> v@[lo + j] == p@[j],
        decreases p@.len() - i,
    {
        if v[lo + i] != p[i] {
            assert(v@.subrange(lo as int, hi as int).take(p@.len() as int)[i as int] != p@[i as int]);
            return false;
        }
        i = i + 1;
    }
    assert(v@.subrange(lo as int, hi as int).take(p@.len() as int) =~= p@);
    true
}

// ---------------------------------------------------------------------------
// Lines
// ---------------------------------------------------------------------------

/// Index of the first `'\n'` in `s`, or `s.len()` when there is none.
pub open spec fn line_end(s: Seq<char>) -> int
    decreases s.len(),
{
    if s.len() == 0 {
        0
    } else if s[0] == '\n' {
        0
    } else {
        1 + line_end(s.drop_first())
    }
}

pub proof fn lemma_line_end(s: Seq<char>)
    ensures
        0 <= line_end(s) <= s.len(),
        line_end(s) < s.len() ==> s[line_end(s)] == '\n',
        forall|j: int| 0 <= j < line_end(s) ==> s[j] != '\n',
    decreases s.len(),
{
    if s.len() > 0 && s[0] != '\n' {
        lemma_line_end(s.drop_first());
        assert forall|j: int| 0 <= j < line_end(s) implies s[j] != '\n' by {
            if j > 0 {
                assert(s[j] == s.drop_first()[j - 1]);
            }
        }
    }
}

/// Position of the end of the line that starts at `start` in `v`.
pub fn find_line_end(v: &Vec<char>, start: usize) -> (r: usize)
    requires
        start <= v@.len(),
    ensures
        r == start + line_end(v@.skip(start as int)),
        start <= r <= v@.len(),
{
    let ghost s = v@.skip(start as int);
    proof {
        lemma_line_end(s);
    }
    let mut i = start;
    while i < v.len() && v[i] != '\n'
        invariant
            start <= i <= v@.len(),
            s == v@.skip(start as int),
            0 <= line_end(s) <= s.len(),
            line_end(s) < s.len() ==> s[line_end(s)] == '\n',
            forall|j: int| 0 <= j < line_end(s) ==> s[j] != '\n',
            i - start <= line_end(s),
        decreases v@.len() - i,
    {
        assert(s[i - start] == v@[i as int]);
        i = i + 1;
    }
    proof {
        if i < v@.len() {
            assert(s[i - start] == v@[i as int]);
        }
    }
    i
}

/// The lines of `s`: the pieces between `'\n'` characters, in order (a final
/// piece after the last newline included, even when empty).
pub open spec fn split_lines(s: Seq<char>) -> Seq<Seq<char>>
    decreases s.len(),
{
    let e = line_end(s);
    if e >= s.len() {
        seq![s]
    } else {
        proof {
            lemma_line_end(s);
        }
        seq![s.take(e)] + split_lines(s.skip(e + 1))
    }
}

/// The bounds `[lo, hi)` in `v` of each piece of `split_lines(v@)`.
pub fn line_bounds(v: &Vec<char>) -> (r: Vec<(usize, usize)>)
    ensures
        r@.len() == split_lines(v@).len(),
        forall|i: int|
            0 <= i < r@.len() ==> {
                &&& (#[trigger] r@[i]).0 <= r@[i].1 <= v@.len()
                &&& v@.subrange(r@[i].0 as int, r@[i].1 as int) == split_lines(v@)[i]
            },
{
    let mut out: Vec<(usize, usize)> = Vec::new();
    let mut start: usize = 0;
    proof {
        assert(v@.skip(0) =~= v@);
    }
    loop
        invariant
            start <= v@.len(),
            split_lines(v@) == out@.map_values(|b: (usize, usize)| v@.subrange(b.0 as int, b.1 as int))
                + split_lines(v@.skip(start as int)),
            forall|i: int| 0 <= i < out@.len() ==> (#[trigger] out@[i]).0 <= out@[i].1 <= v@.len(),
        decreases v@.len() - start,
    {
        let ghost s = v@.skip(start as int);
        let ghost prev = out@;
        let e = find_line_end(v, start);
        proof {
            lemma_line_end(s);
            assert(s.take(e - start) =~= v@.subrange(start as int, e as int));
        }
        out.push((start, e));
        if e >= v.len() {
            proof {
                assert(s =~= v@.subrange(start as int, e as int));
                assert(split_lines(s) == seq![s]);
                assert(out@.map_values(|b: (usize, usize)| v@.subrange(b.0 as int, b.1 as int))
                    =~= prev.map_values(|b: (usize, usize)| v@.subrange(b.0 as int, b.1 as int)) + seq![s]);
                let m = out@.map_values(|b: (usize, usize)| v@.subrange(b.0 as int, b.1 as int));
                assert(split_lines(v@) =~= m);
                assert forall|i: int| 0 <= i < out@.len() implies v@.subrange(out@[i].0 as int, out@[i].1 as int)
                    == split_lines(v@)[i] by {
                    assert(m[i] == v@.subrange(out@[i].0 as int, out@[i].1 as int));
                }
            }
            return out;
        }
        proof {
            assert(s.skip(e - start + 1) =~= v@.skip(e + 1));
            assert(out@.map_values(|b: (usize, usize)| v@.subrange(b.0 as int, b.1 as int))
                =~= prev.map_values(|b: (usize, usize)| v@.subrange(b.0 as int, b.1 as int)) + seq![v@.subrange(start as int, e as int)]);
        }
        start = e + 1;
    }
}

proof fn lemma_dec_digits_are_digits(n: nat)
    ensures
        forall|i: int| 0 <= i < dec_digits(n).len() ==> #[trigger] dec_digits(n)[i] != '\n' && dec_digits(n)[i] != '\r',
    decreases n,
{
    if n >= 10 {
        lemma_dec_digits_are_digits(n / 10);
        let p = dec_digits(n / 10);
        let c = digit_char((n % 10) as int);
        assert(c != '\n' && c != '\r');
        assert forall|i: int| 0 <= i < dec_digits(n).len() implies #[trigger] dec_digits(n)[i] != '\n' && dec_digits(n)[i] != '\r' by {
            if i < p.len() {
                assert(dec_digits(n)[i] == p[i]);
            } else {
                assert(dec_digits(n)[i] == c);
            }
        }
    } else {
        let c = digit_char(n as int);
        assert(c != '\n' && c != '\r');
    }
}

/// Decimal text is not empty and holds no line break.
pub proof fn lemma_decimal_no_newline(n: int)
    ensures
        decimal(n).len() >= 1,
        forall|i: int|
            0 <= i < decimal(n).len() ==> #[trigger] decimal(n)[i] != '\n' && decimal(n)[i] != '\r',
{
    lemma_dec_digits_len(if n >= 0 { n as nat } else { (-n) as nat });
    if n >= 0 {
        lemma_dec_digits_are_digits(n as nat);
        assert(zeros(0 - dec_digits(n as nat).len()) =~= Seq::<char>::empty());
        assert(decimal(n) =~= dec_digits(n as nat));
    } else {
        lemma_dec_digits_are_digits((-n) as nat);
        assert(zeros(0 - 1 - dec_digits((-n) as nat).len()) =~= Seq::<char>::empty());
        assert(decimal(n) =~= seq!['-'] + dec_digits((-n) as nat));
    }
}

// ---------------------------------------------------------------------------
// String order and fixed-width numbers
// ---------------------------------------------------------------------------

/// `a` sorts before `b` as strings do: at the first position where they
/// differ the character of `a` is smaller, or `a` is a proper prefix of `b`.
pub open spec fn text_lt(a: Seq<char>, b: Seq<char>) -> bool
    decreases a.len(),
{
    if a.len() == 0 {
        b.len() > 0
    } else if b.len() == 0 {
        false
    } else if a[0] != b[0] {
        (a[0] as u32) < (b[0] as u32)
    } else {
        text_lt(a.drop_first(), b.drop_first())
    }
}

/// A common prefix does not change the order.
pub proof fn lemma_text_lt_prefix(p: Seq<char>, a: Seq<char>, b: Seq<char>)
    ensures
        text_lt(p + a, p + b) == text_lt(a, b),
    decreases p.len(),
{
    if p.len() > 0 {
        lemma_text_lt_prefix(p.drop_first(), a, b);
        assert((p + a).drop_first() =~= p.drop_first() + a);
        assert((p + b).drop_first() =~= p.drop_first() + b);
    } else {
        assert(p + a =~= a);
        assert(p + b =~= b);
    }
}

/// Of two texts of equal length, the smaller stays smaller whatever follows.
pub proof fn lemma_text_lt_extend(a: Seq<char>, b: Seq<char>, x: Seq<char>, y: Seq<char>)
    requires
        a.len() == b.len(),
        text_lt(a, b),
    ensures
        text_lt(a + x, b + y),
    decreases a.len(),
{
    if a[0] == b[0] {
        lemma_text_lt_extend(a.drop_first(), b.drop_first(), x, y);
        assert((a + x).drop_first() =~= a.drop_first() + x);
        assert((b + y).drop_first() =~= b.drop_first() + y);
    }
}

/// The last `w` decimal digits of `n`, leading zeros included.
pub open spec fn fixed_digits(n: nat, w: nat) -> Seq<char>
    decreases w,
{
    if w == 0 {
        Seq::empty()
    } else {
        fixed_digits(n / 10, (w - 1) as nat).push(digit_char((n % 10) as int))
    }
}

pub proof fn lemma_fixed_digits_len(n: nat, w: nat)
    ensures
        fixed_digits(n, w).len() == w,
    decreases w,
{
    if w > 0 {
        lemma_fixed_digits_len(n / 10, (w - 1) as nat);
    }
}

proof fn lemma_fixed_digits_zero(w: nat)
    ensures
        fixed_digits(0, w) == zeros(w as int),
    decreases w,
{
    if w > 0 {
        lemma_fixed_digits_zero((w - 1) as nat);
        assert(zeros((w - 1) as int).push('0') =~= zeros(w as int));
    }
}

/// Zero padding to `w` characters of a number below `10^w` gives its `w`
/// last digits.
pub proof fn lemma_pad_is_fixed(n: nat, w: nat)
    requires
        w >= 1,
        n < pow10(w),
    ensures
        pad_unsigned(n, w) == fixed_digits(n, w),
        pad_unsigned(n, w).len() == w,
    decreases n,
{
    lemma_dec_digits_bound(n, w);
    lemma_fixed_digits_len(n, w);
    if n < 10 {
        lemma_fixed_digits_zero((w - 1) as nat);
        assert(fixed_digits(n / 10, (w - 1) as nat) == fixed_digits(0, (w - 1) as nat));
        assert(pad_unsigned(n, w) =~= fixed_digits(n, w));
    } else {
        let p = pow10((w - 1) as nat);
        assert(pow10(w) == 10 * p);
        assert(n / 10 < p) by (nonlinear_arith)
            requires
                n < 10 * p,
        ;
        if w == 1 {
            assert(pow10(1) == 10 * pow10(0));
        }
        assert(w >= 2);
        lemma_pad_is_fixed(n / 10, (w - 1) as nat);
        lemma_dec_digits_bound(n / 10, (w - 1) as nat);
        assert(pad_unsigned(n, w) =~= pad_unsigned(n / 10, (w - 1) as nat).push(
            digit_char((n % 10) as int),
        ));
    }
}

/// Fixed-width digits sort as the numbers do.
pub proof fn lemma_fixed_digits_order(n: nat, m: nat, w: nat)
    requires
        n < m < pow10(w),
    ensures
        text_lt(fixed_digits(n, w), fixed_digits(m, w)),
    decreases w,
{
    if w == 0 {
        assert(pow10(0) == 1);
    } else {
        let p = pow10((w - 1) as nat);
        assert(pow10(w) == 10 * p);
        assert(m / 10 < p) by (nonlinear_arith)
            requires
                m < 10 * p,
        ;
        lemma_fixed_digits_len(n / 10, (w - 1) as nat);
        lemma_fixed_digits_len(m / 10, (w - 1) as nat);
        let dn = seq![digit_char((n % 10) as int)];
        let dm = seq![digit_char((m % 10) as int)];
        assert(fixed_digits(n, w) =~= fixed_digits(n / 10, (w - 1) as nat) + dn);
        assert(fixed_digits(m, w) =~= fixed_digits(m / 10, (w - 1) as nat) + dm);
        if n / 10 < m / 10 {
            lemma_fixed_digits_order(n / 10, m / 10, (w - 1) as nat);
            lemma_text_lt_extend(
                fixed_digits(n / 10, (w - 1) as nat),
                fixed_digits(m / 10, (w - 1) as nat),
                dn,
                dm,
            );
        } else {
            assert(n / 10 == m / 10);
            assert(n % 10 < m % 10);
            lemma_text_lt_prefix(fixed_digits(n / 10, (w - 1) as nat), dn, dm);
            assert(dn.drop_first() =~= Seq::<char>::empty());
            assert(dm.drop_first() =~= Seq::<char>::empty());
        }
    }
}

} // verus!
