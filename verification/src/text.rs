//! Character-level scanning and fixed-point decimal parsing.
//!
//! The diagnostic lines of the child process are free text; everything this
//! crate reads out of them (phase markers, a percentage before a `%` sign)
//! is found with the verified scanners in this module.

use vstd::prelude::*;
use vstd::string::*;

verus! {

/// `needle` occurs in `hay` starting at index `i`.
pub open spec fn matches_at(hay: Seq<char>, needle: Seq<char>, i: int) -> bool {
    &&& 0 <= i
    &&& i + needle.len() <= hay.len()
    &&& forall|j: int| 0 <= j < needle.len() ==> #[trigger] needle[j] == hay[i + j]
}

/// `needle` occurs somewhere in `hay`.
pub open spec fn contains_seq(hay: Seq<char>, needle: Seq<char>) -> bool {
    exists|i: int| matches_at(hay, needle, i)
}

/// The first occurrence of `c` in `s` is at index `i`.
pub open spec fn first_at(s: Seq<char>, c: char, i: int) -> bool {
    &&& 0 <= i < s.len()
    &&& s[i] == c
    &&& forall|k: int| 0 <= k < i ==> s[k] != c
}

/// The last occurrence of `c` in `s` strictly before index `end` is at `i`.
pub open spec fn last_before(s: Seq<char>, c: char, end: int, i: int) -> bool {
    &&& 0 <= i < end
    &&& s[i] == c
    &&& forall|k: int| i < k < end ==> s[k] != c
}

fn match_at_idx(hay: &str, needle: &str, i: usize, hlen: usize, nlen: usize) -> (b: bool)
    requires
        hlen == hay@.len(),
        nlen == needle@.len(),
        i + nlen <= hlen,
    ensures
        b == matches_at(hay@, needle@, i as int),
{
    let mut j: usize = 0;
    while j < nlen
        invariant
            j <= nlen,
            hlen == hay@.len(),
            nlen == needle@.len(),
            i + nlen <= hlen,
            forall|k: int| 0 <= k < j ==> #[trigger] needle@[k] == hay@[i + k],
        decreases nlen - j,
    {
        if hay.get_char(i + j) != needle.get_char(j) {
            return false;
        }
        j += 1;
    }
    true
}

/// Whether `needle` occurs as a contiguous substring of `hay`.
pub fn contains_sub(hay: &str, needle: &str) -> (b: bool)
    ensures
        b == contains_seq(hay@, needle@),
{
    let hlen = hay.unicode_len();
    let nlen = needle.unicode_len();
    if nlen > hlen {
        assert(forall|i: int| !matches_at(hay@, needle@, i));
        return false;
    }
    let mut i: usize = 0;
    loop
        invariant
            i <= hlen - nlen + 1,
            nlen <= hlen,
            hlen == hay@.len(),
            nlen == needle@.len(),
            forall|k: int| 0 <= k < i ==> !matches_at(hay@, needle@, k),
        decreases hlen - nlen - i + 1,
    {
        if i > hlen - nlen {
            assert(forall|k: int| !matches_at(hay@, needle@, k));
            return false;
        }
        if match_at_idx(hay, needle, i, hlen, nlen) {
            return true;
        }
        i += 1;
    }
}

/// Index of the first occurrence of `c` in `s`, if any.
pub fn find_char(s: &str, c: char) -> (r: Option<usize>)
    ensures
        match r {
            Some(i) => first_at(s@, c, i as int),
            None => forall|k: int| 0 <= k < s@.len() ==> s@[k] != c,
        },
{
    let len = s.unicode_len();
    let mut i: usize = 0;
    while i < len
        invariant
            i <= len,
            len == s@.len(),
            forall|k: int| 0 <= k < i ==> s@[k] != c,
        decreases len - i,
    {
        if s.get_char(i) == c {
            return Some(i);
        }
        i += 1;
    }
    None
}

/// Whitespace as far as trimming is concerned: the ASCII blanks that can
/// surround a number in a diagnostic line.
pub open spec fn is_space(c: char) -> bool {
    c == ' ' || c == '\t' || c == '\r' || c == '\n'
}

pub open spec fn trim_front_spec(s: Seq<char>) -> Seq<char>
    decreases s.len(),
{
    if s.len() > 0 && is_space(s[0]) {
        trim_front_spec(s.drop_first())
    } else {
        s
    }
}

pub open spec fn trim_back_spec(s: Seq<char>) -> Seq<char>
    decreases s.len(),
{
    if s.len() > 0 && is_space(s[s.len() - 1]) {
        trim_back_spec(s.drop_last())
    } else {
        s
    }
}

/// `s` with leading and trailing blanks removed.
pub open spec fn trim_spec(s: Seq<char>) -> Seq<char> {
    trim_back_spec(trim_front_spec(s))
}

fn is_space_exec(c: char) -> (b: bool)
    ensures
        b == is_space(c),
{
    c == ' ' || c == '\t' || c == '\r' || c == '\n'
}

/// The slice of `s` with leading and trailing blanks removed.
pub fn trim_str<'a>(s: &'a str) -> (r: &'a str)
    ensures
        r@ == trim_spec(s@),
{
    let len = s.unicode_len();
    let mut a: usize = 0;
    proof {
        assert(s@.subrange(0, len as int) =~= s@);
    }
    while a < len && is_space_exec(s.get_char(a))
        invariant
            a <= len,
            len == s@.len(),
            trim_front_spec(s@) == trim_front_spec(s@.subrange(a as int, len as int)),
        decreases len - a,
    {
        proof {
            assert(s@.subrange(a as int, len as int).drop_first() =~= s@.subrange(
                a as int + 1,
                len as int,
            ));
        }
        a += 1;
    }
    proof {
        assert(trim_front_spec(s@) == s@.subrange(a as int, len as int));
    }
    let mut b: usize = len;
    while b > a && is_space_exec(s.get_char(b - 1))
        invariant
            a <= b <= len,
            len == s@.len(),
            trim_front_spec(s@) == s@.subrange(a as int, len as int),
            trim_back_spec(s@.subrange(a as int, len as int)) == trim_back_spec(
                s@.subrange(a as int, b as int),
            ),
        decreases b,
    {
        proof {
            assert(s@.subrange(a as int, b as int).drop_last() =~= s@.subrange(
                a as int,
                b as int - 1,
            ));
        }
        b -= 1;
    }
    proof {
        assert(trim_spec(s@) == s@.subrange(a as int, b as int));
    }
    s.substring_char(a, b)
}

/// Saturation bound for folding decimal digits: large enough for every value
/// a progress line or a confidence field can sensibly hold.
pub const DIGIT_SAT: u64 = 1000000000;

pub open spec fn is_digit(c: char) -> bool {
    48 <= c as u32 && c as u32 <= 57
}

pub open spec fn digit_val(c: char) -> nat {
    (c as u32 - 48) as nat
}

pub open spec fn all_digits(s: Seq<char>) -> bool {
    forall|i: int| 0 <= i < s.len() ==> is_digit(#[trigger] s[i])
}

/// One step of the saturating left-to-right decimal fold.
pub open spec fn sat_step(acc: nat, d: nat) -> nat {
    if acc * 10 + d > DIGIT_SAT {
        DIGIT_SAT as nat
    } else {
        acc * 10 + d
    }
}

/// The value of a digit string, read left to right, saturating at
/// `DIGIT_SAT` instead of growing without bound.
pub open spec fn digits_val_sat(s: Seq<char>) -> nat
    decreases s.len(),
{
    if s.len() == 0 {
        0
    } else {
        sat_step(digits_val_sat(s.drop_last()), digit_val(s.last()))
    }
}

pub proof fn lemma_digits_val_bound(s: Seq<char>)
    ensures
        digits_val_sat(s) <= DIGIT_SAT,
    decreases s.len(),
{
    if s.len() == 0 {
    } else {
        lemma_digits_val_bound(s.drop_last());
    }
}

/// The value of a digit string, or `None` if any character is not a digit.
pub fn digits_val_exec(s: &str) -> (r: Option<u64>)
    ensures
        match r {
            Some(v) => all_digits(s@) && v == digits_val_sat(s@),
            None => !all_digits(s@),
        },
{
    let len = s.unicode_len();
    let mut acc: u64 = 0;
    let mut i: usize = 0;
    proof {
        assert(s@.subrange(0, 0) =~= Seq::<char>::empty());
    }
    while i < len
        invariant
            i <= len,
            len == s@.len(),
            all_digits(s@.subrange(0, i as int)),
            acc == digits_val_sat(s@.subrange(0, i as int)),
            acc <= DIGIT_SAT,
        decreases len - i,
    {
        let c = s.get_char(i);
        let cv = c as u32;
        if cv < 48 || cv > 57 {
            assert(!is_digit(s@[i as int]));
            return None;
        }
        let d = (cv - 48) as u64;
        let next = acc * 10 + d;
        let sat = if next > DIGIT_SAT {
            DIGIT_SAT
        } else {
            next
        };
        proof {
            let pre = s@.subrange(0, i as int);
            let post = s@.subrange(0, i as int + 1);
            assert(post.drop_last() =~= pre);
            assert(post.last() == s@[i as int]);
            assert(sat == digits_val_sat(post));
        }
        acc = sat;
        i += 1;
    }
    proof {
        assert(s@.subrange(0, len as int) =~= s@);
    }
    Some(acc)
}

/// The fractional digits `fp`, widened or cut to exactly `k` digits.
pub open spec fn pad_frac(fp: Seq<char>, k: nat) -> Seq<char> {
    if fp.len() >= k {
        fp.subrange(0, k as int)
    } else {
        fp + Seq::new((k - fp.len()) as nat, |i: int| '0')
    }
}

/// The value of the first `k` fractional digits of `fp`, zero-padded.
pub open spec fn frac_scaled(fp: Seq<char>, k: nat) -> nat {
    digits_val_sat(pad_frac(fp, k))
}

fn frac_scaled_exec(fp: &str, k: usize) -> (r: Option<u64>)
    requires
        k <= 3,
    ensures
        match r {
            Some(v) => all_digits(fp@) && v == frac_scaled(fp@, k as nat) && v < 1000,
            None => !all_digits(fp@),
        },
{
    let len = fp.unicode_len();
    let valid = digits_val_exec(fp);
    if valid.is_none() {
        return None;
    }
    let ghost padded = pad_frac(fp@, k as nat);
    assert(padded.len() == k);
    let mut acc: u64 = 0;
    let mut j: usize = 0;
    proof {
        assert(padded.subrange(0, 0) =~= Seq::<char>::empty());
        assert(pow10(0) == 1);
    }
    while j < k
        invariant
            j <= k <= 3,
            len == fp@.len(),
            all_digits(fp@),
            padded == pad_frac(fp@, k as nat),
            padded.len() == k,
            acc == digits_val_sat(padded.subrange(0, j as int)),
            acc < pow10(j as nat),
            pow10(j as nat) <= 1000,
        decreases k - j,
    {
        let d: u64 = if j < len {
            let cv = fp.get_char(j) as u32;
            assert(is_digit(fp@[j as int]));
            (cv - 48) as u64
        } else {
            proof {
                assert(padded[j as int] == '0');
            }
            0
        };
        proof {
            let pre = padded.subrange(0, j as int);
            let post = padded.subrange(0, j as int + 1);
            assert(post.drop_last() =~= pre);
            assert(post.last() == padded[j as int]);
            assert(digit_val(padded[j as int]) == d);
            assert(pow10(0) == 1);
            assert(pow10(1) == 10);
            assert(pow10(2) == 100);
            assert(pow10(3) == 1000);
            assert(acc * 10 + d < pow10(j as nat + 1));
        }
        acc = acc * 10 + d;
        j += 1;
    }
    proof {
        assert(padded.subrange(0, k as int) =~= padded);
    }
    Some(acc)
}

/// A decimal number with `k` kept fractional digits: `"45.07"` with `k == 2`
/// is `4507`.  The shape is plain digits with at most one `.`; at least one
/// digit must be present.  The integer part saturates at `DIGIT_SAT`.
pub open spec fn parse_scaled_spec(s: Seq<char>, k: nat) -> Option<nat> {
    if exists|i: int| first_at(s, '.', i) {
        let dot = choose|i: int| first_at(s, '.', i);
        let ip = s.subrange(0, dot);
        let fp = s.subrange(dot + 1, s.len() as int);
        if all_digits(ip) && all_digits(fp) && ip.len() + fp.len() > 0 {
            Some(digits_val_sat(ip) * pow10(k) + frac_scaled(fp, k))
        } else {
            None
        }
    } else {
        if all_digits(s) && s.len() > 0 {
            Some(digits_val_sat(s) * pow10(k))
        } else {
            None
        }
    }
}

pub open spec fn pow10(k: nat) -> nat
    decreases k,
{
    if k == 0 {
        1nat
    } else {
        10 * pow10((k - 1) as nat)
    }
}

pub proof fn lemma_first_at_unique(s: Seq<char>, c: char, i: int, j: int)
    requires
        first_at(s, c, i),
        first_at(s, c, j),
    ensures
        i == j,
{
    if i < j {
        assert(s[i] != c);
    } else if j < i {
        assert(s[j] != c);
    }
}

/// Parses `s` as a decimal number with `k` kept fractional digits.
pub fn parse_scaled(s: &str, k: usize) -> (r: Option<u64>)
    requires
        k == 2 || k == 3,
    ensures
        match r {
            Some(v) => parse_scaled_spec(s@, k as nat) == Some(v as nat) && v
                < 2000000000000,
            None => parse_scaled_spec(s@, k as nat) is None,
        },
{
    proof {
        assert(pow10(0) == 1);
        assert(pow10(1) == 10);
        assert(pow10(2) == 100);
        assert(pow10(3) == 1000);
    }
    let mult: u64 = if k == 2 {
        100
    } else {
        1000
    };
    assert(mult == pow10(k as nat));
    match find_char(s, '.') {
        Some(dot) => {
            proof {
                let d = choose|i: int| first_at(s@, '.', i);
                lemma_first_at_unique(s@, '.', d, dot as int);
            }
            let len = s.unicode_len();
            let ip = s.substring_char(0, dot);
            let fp = s.substring_char(dot + 1, len);
            if ip.unicode_len() == 0 && fp.unicode_len() == 0 {
                return None;
            }
            let ipv = match digits_val_exec(ip) {
                Some(v) => v,
                None => {
                    return None;
                },
            };
            let fpv = match frac_scaled_exec(fp, k) {
                Some(v) => v,
                None => {
                    return None;
                },
            };
            proof {
                lemma_digits_val_bound(ip@);
            }
            Some(ipv * mult + fpv)
        },
        None => {
            proof {
                assert(forall|i: int| !first_at(s@, '.', i));
            }
            if s.unicode_len() == 0 {
                return None;
            }
            let v = match digits_val_exec(s) {
                Some(v) => v,
                None => {
                    return None;
                },
            };
            proof {
                lemma_digits_val_bound(s@);
            }
            Some(v * mult)
        },
    }
}

/// A decimal number with an optional leading `-`, in thousandths: `"0.9"`
/// is `900`, `"-1.5"` is `-1500`.
pub open spec fn parse_signed_milli_spec(s: Seq<char>) -> Option<int> {
    if s.len() > 0 && s[0] == '-' {
        match parse_scaled_spec(s.subrange(1, s.len() as int), 3) {
            Some(v) => Some(-(v as int)),
            None => None,
        }
    } else {
        match parse_scaled_spec(s, 3) {
            Some(v) => Some(v as int),
            None => None,
        }
    }
}

/// Parses `s` as a signed decimal number in thousandths.
pub fn parse_signed_milli(s: &str) -> (r: Option<i64>)
    ensures
        match r {
            Some(v) => parse_signed_milli_spec(s@) == Some(v as int),
            None => parse_signed_milli_spec(s@) is None,
        },
{
    let len = s.unicode_len();
    if len > 0 && s.get_char(0) == '-' {
        let rest = s.substring_char(1, len);
        match parse_scaled(rest, 3) {
            Some(v) => Some(-(v as i64)),
            None => None,
        }
    } else {
        match parse_scaled(s, 3) {
            Some(v) => Some(v as i64),
            None => None,
        }
    }
}

/// The decimal digit characters of `n`, most significant first.
pub open spec fn dec_str(n: nat) -> Seq<char>
    decreases n,
{
    if n < 10 {
        seq![dec_digit_char(n)]
    } else {
        dec_str(n / 10).push(dec_digit_char(n % 10))
    }
}

pub open spec fn dec_digit_char(d: nat) -> char {
    ((48 + d) as u8) as char
}

fn digit_string(d: u64) -> (r: String)
    requires
        d < 10,
    ensures
        r@ =~= seq![dec_digit_char(d as nat)],
{
    let r = match d {
        0 => String::from_str("0"),
        1 => String::from_str("1"),
        2 => String::from_str("2"),
        3 => String::from_str("3"),
        4 => String::from_str("4"),
        5 => String::from_str("5"),
        6 => String::from_str("6"),
        7 => String::from_str("7"),
        8 => String::from_str("8"),
        _ => String::from_str("9"),
    };
    proof {
        reveal_strlit("0");
        reveal_strlit("1");
        reveal_strlit("2");
        reveal_strlit("3");
        reveal_strlit("4");
        reveal_strlit("5");
        reveal_strlit("6");
        reveal_strlit("7");
        reveal_strlit("8");
        reveal_strlit("9");
    }
    r
}

/// `n` written in decimal.
pub fn u64_to_dec(n: u64) -> (r: String)
    ensures
        r@ == dec_str(n as nat),
    decreases n,
{
    if n < 10 {
        digit_string(n)
    } else {
        let mut s = u64_to_dec(n / 10);
        let last = digit_string(n % 10);
        s.append(last.as_str());
        proof {
            assert(s@ =~= dec_str(n as nat));
        }
        s
    }
}

/// Index of the last occurrence of `c` in `s` strictly before `end`, if any.
pub fn rfind_char_before(s: &str, c: char, end: usize) -> (r: Option<usize>)
    requires
        end <= s@.len(),
    ensures
        match r {
            Some(i) => last_before(s@, c, end as int, i as int),
            None => forall|k: int| 0 <= k < end ==> s@[k] != c,
        },
{
    let mut i: usize = end;
    while i > 0
        invariant
            i <= end <= s@.len(),
            forall|k: int| i <= k < end ==> s@[k] != c,
        decreases i,
    {
        i -= 1;
        if s.get_char(i) == c {
            return Some(i);
        }
    }
    None
}

} // verus!
