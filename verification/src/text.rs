//! Character-level text utilities shared by the attribute-file parsers and
//! the protocol encoders: ASCII-whitespace trimming, decimal parsing and
//! formatting, and string comparison, all specified over `Seq<char>` views.

use vstd::prelude::*;
use vstd::string::*;

verus! {

broadcast use vstd::string::group_string_axioms;

/// ASCII whitespace: the separator set recognised by the parsers in this
/// crate. (Exotic Unicode whitespace is deliberately not treated as blank;
/// attribute files are ASCII.)
pub open spec fn is_space_char(c: char) -> bool {
    c == ' ' || c == '\t' || c == '\n' || c == '\r' || c == '\u{b}' || c == '\u{c}'
}

pub open spec fn is_digit_char(c: char) -> bool {
    '0' <= c && c <= '9'
}

pub open spec fn digit_val(c: char) -> int {
    c as int - '0' as int
}

pub open spec fn all_digits(s: Seq<char>) -> bool {
    forall|i: int| 0 <= i < s.len() ==> is_digit_char(#[trigger] s[i])
}

/// Numeric value of a digit string, most significant digit first.
pub open spec fn dec_val(s: Seq<char>) -> int
    decreases s.len(),
{
    if s.len() == 0 {
        0
    } else {
        dec_val(s.drop_last()) * 10 + digit_val(s.last())
    }
}

/// The digit portion of a decimal literal: an optional leading `+` is
/// accepted, as `u8::from_str` and friends accept it.
pub open spec fn digits_of(s: Seq<char>) -> Seq<char> {
    if s.len() > 0 && s[0] == '+' {
        s.drop_first()
    } else {
        s
    }
}

/// A string parses as an unsigned decimal no greater than `max`.
pub open spec fn dec_parse_ok(s: Seq<char>, max: int) -> bool {
    let d = digits_of(s);
    d.len() > 0 && all_digits(d) && dec_val(d) <= max
}

/// Leading characters satisfying `p` removed.
pub open spec fn trim_front_by(s: Seq<char>, p: spec_fn(char) -> bool) -> Seq<char>
    decreases s.len(),
{
    if s.len() > 0 && p(s[0]) {
        trim_front_by(s.drop_first(), p)
    } else {
        s
    }
}

/// Trailing characters satisfying `p` removed.
pub open spec fn trim_back_by(s: Seq<char>, p: spec_fn(char) -> bool) -> Seq<char>
    decreases s.len(),
{
    if s.len() > 0 && p(s.last()) {
        trim_back_by(s.drop_last(), p)
    } else {
        s
    }
}

/// ASCII whitespace stripped from both ends.
pub open spec fn trimmed(s: Seq<char>) -> Seq<char> {
    trim_back_by(trim_front_by(s, |c: char| is_space_char(c)), |c: char| is_space_char(c))
}

pub proof fn lemma_trim_front_by_skip(s: Seq<char>, p: spec_fn(char) -> bool, i: int)
    requires
        0 <= i <= s.len(),
        forall|j: int| 0 <= j < i ==> p(#[trigger] s[j]),
    ensures
        trim_front_by(s, p) == trim_front_by(s.subrange(i, s.len() as int), p),
    decreases i,
{
    if i == 0 {
        assert(s.subrange(0, s.len() as int) =~= s);
    } else {
        assert(p(s[0]));
        assert(trim_front_by(s, p) == trim_front_by(s.drop_first(), p));
        let t = s.drop_first();
        assert(forall|j: int| 0 <= j < i - 1 ==> p(#[trigger] t[j]));
        lemma_trim_front_by_skip(t, p, i - 1);
        assert(t.subrange(i - 1, t.len() as int) =~= s.subrange(i, s.len() as int));
    }
}

pub proof fn lemma_trim_back_by_skip(s: Seq<char>, p: spec_fn(char) -> bool, i: int)
    requires
        0 <= i <= s.len(),
        forall|j: int| i <= j < s.len() ==> p(#[trigger] s[j]),
    ensures
        trim_back_by(s, p) == trim_back_by(s.subrange(0, i), p),
    decreases s.len() - i,
{
    if i == s.len() {
        assert(s.subrange(0, i) =~= s);
    } else {
        assert(p(s.last()));
        assert(trim_back_by(s, p) == trim_back_by(s.drop_last(), p));
        let t = s.drop_last();
        assert(forall|j: int| i <= j < t.len() ==> p(#[trigger] t[j]));
        lemma_trim_back_by_skip(t, p, i);
        assert(t.subrange(0, i) =~= s.subrange(0, i));
    }
}

/// Whether `c` is ASCII whitespace.
pub fn is_space(c: char) -> (b: bool)
    ensures
        b == is_space_char(c),
{
    c == ' ' || c == '\t' || c == '\n' || c == '\r' || c == '\u{b}' || c == '\u{c}'
}

/// ASCII-whitespace trim, the analogue of `str::trim` for the ASCII content
/// these parsers handle.
pub fn trim(s: &str) -> (r: &str)
    ensures
        r@ == trimmed(s@),
{
    let n = s.unicode_len();
    let mut start: usize = 0;
    while start < n && is_space(s.get_char(start))
        invariant
            0 <= start <= n,
            n == s@.len(),
            forall|j: int| 0 <= j < start ==> is_space_char(#[trigger] s@[j]),
        decreases n - start,
    {
        start = start + 1;
    }
    let mut end: usize = n;
    while end > start && is_space(s.get_char(end - 1))
        invariant
            start <= end <= n,
            n == s@.len(),
            forall|j: int| 0 <= j < start ==> is_space_char(#[trigger] s@[j]),
            forall|j: int| end <= j < n ==> is_space_char(#[trigger] s@[j]),
        decreases end,
    {
        end = end - 1;
    }
    let r = s.substring_char(start, end);
    proof {
        let p = |c: char| is_space_char(c);
        let whole = s@;
        lemma_trim_front_by_skip(whole, p, start as int);
        let tail = whole.subrange(start as int, whole.len() as int);
        // After the first loop, either everything was blank or the head of
        // `tail` is not, so the front trim stops exactly at `start`.
        assert(trim_front_by(whole, p) == tail);
        assert(forall|j: int| (end - start) <= j < tail.len() ==> p(#[trigger] tail[j]));
        lemma_trim_back_by_skip(tail, p, end - start);
        assert(tail.subrange(0, end - start) =~= whole.subrange(start as int, end as int));
        assert(trim_back_by(tail, p) == whole.subrange(start as int, end as int));
    }
    r
}

/// String equality over views, usable from verified code.
pub fn str_eq(a: &str, b: &str) -> (r: bool)
    ensures
        r == (a@ == b@),
{
    let ab = a.as_bytes();
    let bb = b.as_bytes();
    proof {
        vstd::utf8::encode_utf8_decode_utf8(a@);
        vstd::utf8::encode_utf8_decode_utf8(b@);
    }
    if ab.len() != bb.len() {
        return false;
    }
    let n = ab.len();
    let mut i: usize = 0;
    while i < n
        invariant
            0 <= i <= n,
            n == ab@.len() == bb@.len(),
            ab@ == a.spec_bytes(),
            bb@ == b.spec_bytes(),
            vstd::utf8::decode_utf8(a.spec_bytes()) == a@,
            vstd::utf8::decode_utf8(b.spec_bytes()) == b@,
            forall|j: int| 0 <= j < i ==> ab@[j] == bb@[j],
        decreases n - i,
    {
        if ab[i] != bb[i] {
            return false;
        }
        i = i + 1;
    }
    proof {
        assert(a.spec_bytes() =~= b.spec_bytes());
    }
    true
}

/// First occurrence of `c` in `s`, or -1.
pub open spec fn find_char(s: Seq<char>, c: char) -> int
    decreases s.len(),
{
    if s.len() == 0 {
        -1
    } else if s[0] == c {
        0
    } else {
        let r = find_char(s.drop_first(), c);
        if r == -1 {
            -1
        } else {
            r + 1
        }
    }
}

proof fn lemma_find_char_hit(s: Seq<char>, c: char, i: int)
    requires
        0 <= i < s.len(),
        s[i] == c,
        forall|j: int| 0 <= j < i ==> #[trigger] s[j] != c,
    ensures
        find_char(s, c) == i,
    decreases i,
{
    if i == 0 {
    } else {
        let t = s.drop_first();
        assert(forall|j: int| 0 <= j < i - 1 ==> #[trigger] t[j] != c);
        lemma_find_char_hit(t, c, i - 1);
    }
}

proof fn lemma_find_char_miss(s: Seq<char>, c: char)
    requires
        forall|j: int| 0 <= j < s.len() ==> #[trigger] s[j] != c,
    ensures
        find_char(s, c) == -1,
    decreases s.len(),
{
    if s.len() > 0 {
        let t = s.drop_first();
        assert(forall|j: int| 0 <= j < t.len() ==> #[trigger] t[j] != c);
        lemma_find_char_miss(t, c);
    }
}

/// Index of the first occurrence of `c`, if any.
pub fn find(s: &str, c: char) -> (r: Option<usize>)
    ensures
        match r {
            Some(i) => find_char(s@, c) == i as int && i < s@.len(),
            None => find_char(s@, c) == -1,
        },
{
    let n = s.unicode_len();
    let mut i: usize = 0;
    while i < n
        invariant
            0 <= i <= n,
            n == s@.len(),
            forall|j: int| 0 <= j < i ==> #[trigger] s@[j] != c,
        decreases n - i,
    {
        if s.get_char(i) == c {
            proof {
                lemma_find_char_hit(s@, c, i as int);
            }
            return Some(i);
        }
        i = i + 1;
    }
    proof {
        lemma_find_char_miss(s@, c);
    }
    None
}

proof fn lemma_dec_val_nonneg(s: Seq<char>)
    requires
        all_digits(s),
    ensures
        dec_val(s) >= 0,
    decreases s.len(),
{
    if s.len() > 0 {
        let t = s.drop_last();
        assert(forall|i: int| 0 <= i < t.len() ==> is_digit_char(#[trigger] t[i]));
        lemma_dec_val_nonneg(t);
        assert(is_digit_char(s.last()));
    }
}

proof fn lemma_dec_val_prefix(s: Seq<char>, i: int)
    requires
        all_digits(s),
        0 <= i <= s.len(),
    ensures
        dec_val(s.subrange(0, i)) <= dec_val(s),
    decreases s.len() - i,
{
    if i == s.len() {
        assert(s.subrange(0, i) =~= s);
    } else {
        let t = s.drop_last();
        assert(forall|j: int| 0 <= j < t.len() ==> is_digit_char(#[trigger] t[j]));
        lemma_dec_val_prefix(t, i);
        assert(t.subrange(0, i) =~= s.subrange(0, i));
        lemma_dec_val_nonneg(t);
        assert(is_digit_char(s.last()));
        assert(dec_val(t) <= dec_val(t) * 10 + digit_val(s.last()));
    }
}

/// Parse an unsigned decimal (optional leading `+`), refusing values above
/// `max`. Mirrors `str::parse` for unsigned integers up to the given bound.
pub fn parse_dec_bounded(s: &str, max: u64) -> (r: Option<u64>)
    ensures
        match r {
            Some(v) => dec_parse_ok(s@, max as int) && v as int == dec_val(digits_of(s@)),
            None => !dec_parse_ok(s@, max as int),
        },
{
    let n = s.unicode_len();
    if n == 0 {
        return None;
    }
    let start: usize = if s.get_char(0) == '+' {
        1
    } else {
        0
    };
    if start == n {
        return None;
    }
    let ghost d = digits_of(s@);
    proof {
        assert(d =~= s@.subrange(start as int, n as int));
    }
    let mut acc: u64 = 0;
    let mut i: usize = start;
    while i < n
        invariant
            start <= i <= n,
            n == s@.len(),
            start < n,
            max <= u64::MAX,
            d == digits_of(s@),
            d == s@.subrange(start as int, n as int),
            all_digits(s@.subrange(start as int, i as int)),
            acc as int == dec_val(s@.subrange(start as int, i as int)),
            acc <= max,
        decreases n - i,
    {
        let c = s.get_char(i);
        let u = c as u32;
        if u < 48 || u > 57 {
            proof {
                assert(!is_digit_char(s@[i as int]));
                assert(d[i - start] == s@[i as int]);
                assert(!all_digits(d));
            }
            return None;
        }
        let dv = (u - 48) as u64;
        proof {
            assert(is_digit_char(s@[i as int]));
            assert(dv as int == digit_val(s@[i as int]));
        }
        if acc > max / 10 || (acc == max / 10 && dv > max % 10) {
            proof {
                let pre = s@.subrange(start as int, (i + 1) as int);
                assert(pre.drop_last() =~= s@.subrange(start as int, i as int));
                assert(dec_val(pre) == acc * 10 + dv);
                assert(acc * 10 + dv > max) by (nonlinear_arith)
                    requires
                        acc >= 0,
                        dv >= 0,
                        max >= 0,
                        acc > max / 10 || (acc == max / 10 && dv > max % 10),
                        max == (max / 10) * 10 + max % 10,
                        0 <= max % 10 < 10,
                ;
                if all_digits(d) {
                    assert(forall|j: int| 0 <= j < pre.len() ==> is_digit_char(#[trigger] pre[j]));
                    lemma_dec_val_prefix(d, (i + 1 - start) as int);
                    assert(d.subrange(0, (i + 1 - start) as int) =~= pre);
                    assert(dec_val(d) > max);
                }
            }
            return None;
        }
        proof {
            let pre = s@.subrange(start as int, (i + 1) as int);
            assert(pre.drop_last() =~= s@.subrange(start as int, i as int));
            assert(acc * 10 + dv <= max) by (nonlinear_arith)
                requires
                    0 <= acc,
                    0 <= dv < 10,
                    max >= 0,
                    !(acc > max / 10 || (acc == max / 10 && dv > max % 10)),
                    max == (max / 10) * 10 + max % 10,
                    0 <= max % 10 < 10,
            ;
        }
        acc = acc * 10 + dv;
        i = i + 1;
        proof {
            assert(all_digits(s@.subrange(start as int, i as int)));
        }
    }
    proof {
        assert(s@.subrange(start as int, i as int) =~= d);
    }
    Some(acc)
}

/// Parse into a `u8`.
pub fn parse_u8_str(s: &str) -> (r: Option<u8>)
    ensures
        match r {
            Some(v) => dec_parse_ok(s@, 255) && v as int == dec_val(digits_of(s@)),
            None => !dec_parse_ok(s@, 255),
        },
{
    match parse_dec_bounded(s, 255) {
        Some(v) => Some(v as u8),
        None => None,
    }
}

/// Parse into a `u32`.
pub fn parse_u32_str(s: &str) -> (r: Option<u32>)
    ensures
        match r {
            Some(v) => dec_parse_ok(s@, u32::MAX as int) && v as int == dec_val(digits_of(s@)),
            None => !dec_parse_ok(s@, u32::MAX as int),
        },
{
    match parse_dec_bounded(s, 4294967295) {
        Some(v) => Some(v as u32),
        None => None,
    }
}

/// ASCII lowercase of one character; other characters pass through.
pub open spec fn lower_char(c: char) -> char {
    if 'A' <= c && c <= 'Z' {
        ((c as u8) + 32) as char
    } else {
        c
    }
}

/// ASCII lowercase of a character sequence.
pub open spec fn lower_seq(s: Seq<char>) -> Seq<char> {
    s.map_values(|c: char| lower_char(c))
}

/// A sequence without ASCII capitals is its own lowercase form.
pub proof fn lemma_lower_id(s: Seq<char>)
    requires
        forall|i: int| 0 <= i < s.len() ==> !('A' <= #[trigger] s[i] && s[i] <= 'Z'),
    ensures
        lower_seq(s) == s,
{
    assert(lower_seq(s) =~= s);
}

pub fn to_lower(c: char) -> (r: char)
    ensures
        r == lower_char(c),
{
    let u = c as u32;
    if 65 <= u && u <= 90 {
        ((c as u8) + 32) as char
    } else {
        c
    }
}

/// Case-insensitive (ASCII) string equality over views.
pub fn str_eq_ci(a: &str, b: &str) -> (r: bool)
    ensures
        r == (lower_seq(a@) == lower_seq(b@)),
{
    let n = a.unicode_len();
    let m = b.unicode_len();
    if n != m {
        proof {
            assert(lower_seq(a@).len() != lower_seq(b@).len());
        }
        return false;
    }
    let mut i: usize = 0;
    while i < n
        invariant
            0 <= i <= n,
            n == a@.len() == b@.len(),
            forall|j: int| 0 <= j < i ==> lower_char(#[trigger] a@[j]) == lower_char(b@[j]),
        decreases n - i,
    {
        if to_lower(a.get_char(i)) != to_lower(b.get_char(i)) {
            proof {
                assert(lower_seq(a@)[i as int] != lower_seq(b@)[i as int]);
            }
            return false;
        }
        i = i + 1;
    }
    proof {
        assert(lower_seq(a@) =~= lower_seq(b@));
    }
    true
}

/// The character for a single decimal digit.
pub open spec fn digit_char(d: int) -> char {
    ((d + 48) as u8) as char
}

/// Decimal rendering of a non-negative integer, no leading zeros.
pub open spec fn dec_chars(n: int) -> Seq<char>
    decreases n,
{
    if n < 10 {
        seq![digit_char(n)]
    } else {
        dec_chars(n / 10).push(digit_char(n % 10))
    }
}

fn digit_str(d: u8) -> (r: &'static str)
    requires
        d < 10,
    ensures
        r@ =~= seq![digit_char(d as int)],
{
    proof {
        reveal_strlit("0");
        reveal_strlit("1");
        reveal_strlit("2");
        reveal_strlit("3");
        reveal_strlit("4");
        reveal_strlit("5");
        reveal_strlit("6");
        reveal_strlit("7");
        reveal_strlit("8");
        reveal_strlit("9");
    }
    match d {
        0 => "0",
        1 => "1",
        2 => "2",
        3 => "3",
        4 => "4",
        5 => "5",
        6 => "6",
        7 => "7",
        8 => "8",
        _ => "9",
    }
}

/// Render a `u8` in decimal.
pub fn u8_to_dec(n: u8) -> (r: String)
    ensures
        r@ == dec_chars(n as int),
{
    let mut s = String::new();
    if n >= 100 {
        s.append(digit_str(n / 100));
    }
    if n >= 10 {
        s.append(digit_str((n / 10) % 10));
    }
    s.append(digit_str(n % 10));
    proof {
        let v = n as int;
        if v >= 100 {
            assert(dec_chars(v) == dec_chars(v / 10).push(digit_char(v % 10)));
            assert(dec_chars(v / 10) == dec_chars(v / 100).push(digit_char((v / 10) % 10)));
            assert(v / 100 < 10);
            assert((v / 10) / 10 == v / 100);
            assert((v / 10) % 10 == (v % 100) / 10);
            assert(s@ =~= dec_chars(v));
        } else if v >= 10 {
            assert(dec_chars(v) == dec_chars(v / 10).push(digit_char(v % 10)));
            assert(s@ =~= dec_chars(v));
        } else {
            assert(s@ =~= dec_chars(v));
        }
    }
    s
}

} // verus!
