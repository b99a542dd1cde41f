//! Small text operations that the client's logic uses: finding and replacing
//! a substring, ASCII case-insensitive comparisons, and decimal and
//! hexadecimal rendering of numbers.
use vstd::prelude::*;
use vstd::string::{StrSliceExecFns, StringExecFns, StringSliceAdditionalSpecFns};

verus! {

/// The first position at or after `i` where `pat` occurs in `s`.
pub open spec fn find_from(s: Seq<char>, pat: Seq<char>, i: nat) -> Option<nat>
    decreases s.len() + 1 - i,
{
    if i + pat.len() > s.len() {
        None
    } else if s.subrange(i as int, i + pat.len() as int) == pat {
        Some(i)
    } else {
        find_from(s, pat, i + 1)
    }
}

/// A position that `find_from` reports is one where `pat` occurs.
pub proof fn lemma_find_from_some(s: Seq<char>, pat: Seq<char>, i: nat)
    ensures
        find_from(s, pat, i) matches Some(j) ==> i <= j && j + pat.len() <= s.len()
            && s.subrange(j as int, j + pat.len() as int) == pat,
    decreases s.len() + 1 - i,
{
    if i + pat.len() <= s.len() && s.subrange(i as int, i + pat.len() as int) != pat {
        lemma_find_from_some(s, pat, i + 1);
    }
}

/// `s` with the first occurrence of `pat` replaced by `rep` (`s` itself when
/// `pat` does not occur): what `str::replacen(pat, rep, 1)` gives.
pub open spec fn replace_first(s: Seq<char>, pat: Seq<char>, rep: Seq<char>) -> Seq<char> {
    match find_from(s, pat, 0) {
        Some(i) => s.subrange(0, i as int) + rep + s.subrange(i + pat.len() as int, s.len() as int),
        None => s,
    }
}

/// Whether `pat` occurs in `s` at position `i`.
fn matches_at(s: &str, pat: &str, i: usize, slen: usize, plen: usize) -> (r: bool)
    requires
        slen == s@.len(),
        plen == pat@.len(),
        i + plen <= slen,
    ensures
        r == (s@.subrange(i as int, i + plen) == pat@),
{
    let mut j: usize = 0;
    while j < plen
        invariant
            j <= plen,
            slen == s@.len(),
            plen == pat@.len(),
            i + plen <= slen,
            forall|k: int| 0 <= k < j ==> s@[i + k] == pat@[k],
        decreases plen - j,
    {
        if s.get_char(i + j) != pat.get_char(j) {
            assert(s@.subrange(i as int, i + plen)[j as int] != pat@[j as int]);
            return false;
        }
        j += 1;
    }
    assert(s@.subrange(i as int, i + plen) =~= pat@);
    true
}

/// The character position of the first occurrence of `pat` in `s`.
pub fn find(s: &str, pat: &str) -> (r: Option<usize>)
    ensures
        match find_from(s@, pat@, 0) {
            Some(i) => r == Some(i as usize),
            None => r is None,
        },
{
    let slen = s.unicode_len();
    let plen = pat.unicode_len();
    if plen > slen {
        return None;
    }
    if plen == 0 {
        assert(s@.subrange(0, 0) =~= pat@);
        return Some(0);
    }
    let mut i: usize = 0;
    while i <= slen - plen
        invariant
            slen == s@.len(),
            plen == pat@.len(),
            1 <= plen <= slen,
            i <= slen - plen + 1,
            find_from(s@, pat@, 0) == find_from(s@, pat@, i as nat),
        decreases slen - plen + 1 - i,
    {
        if matches_at(s, pat, i, slen, plen) {
            return Some(i);
        }
        i += 1;
    }
    None
}

/// Whether `pat` occurs in `s`.
pub fn contains(s: &str, pat: &str) -> (r: bool)
    ensures
        r == find_from(s@, pat@, 0) is Some,
{
    find(s, pat).is_some()
}

/// `s` with the first occurrence of `pat` replaced by `rep`.
pub fn replace_first_str(s: &str, pat: &str, rep: &str) -> (r: String)
    ensures
        r@ == replace_first(s@, pat@, rep@),
{
    match find(s, pat) {
        Some(i) => {
            proof {
                lemma_find_from_some(s@, pat@, 0);
            }
            let n = s.unicode_len();
            let plen = pat.unicode_len();
            let mut out = s.substring_char(0, i).to_owned();
            out.append(rep);
            out.append(s.substring_char(i + plen, n));
            out
        },
        None => s.to_owned(),
    }
}

/// The ASCII lower-case of a byte: upper-case ASCII letters map to lower
/// case, every other byte to itself.
pub open spec fn ascii_lower(b: u8) -> u8 {
    if 65 <= b <= 90 {
        (b + 32) as u8
    } else {
        b
    }
}

fn to_ascii_lower(b: u8) -> (r: u8)
    ensures
        r == ascii_lower(b),
{
    if 65 <= b && b <= 90 {
        b + 32
    } else {
        b
    }
}

/// Two byte strings equal up to ASCII case.
pub open spec fn eq_ignore_ascii_case_spec(a: Seq<u8>, b: Seq<u8>) -> bool {
    &&& a.len() == b.len()
    &&& forall|i: int| 0 <= i < a.len() ==> ascii_lower(#[trigger] a[i]) == ascii_lower(b[i])
}

/// Whether two strings are equal up to ASCII case, compared byte by byte as
/// `str::eq_ignore_ascii_case` does.
pub fn eq_ignore_ascii_case(a: &str, b: &str) -> (r: bool)
    ensures
        r == eq_ignore_ascii_case_spec(a.spec_bytes(), b.spec_bytes()),
{
    let x = a.as_bytes();
    let y = b.as_bytes();
    if x.len() != y.len() {
        return false;
    }
    let mut i: usize = 0;
    while i < x.len()
        invariant
            x@ == a.spec_bytes(),
            y@ == b.spec_bytes(),
            x@.len() == y@.len(),
            i <= x@.len(),
            forall|k: int| 0 <= k < i ==> ascii_lower(#[trigger] x@[k]) == ascii_lower(y@[k]),
        decreases x.len() - i,
    {
        if to_ascii_lower(x[i]) != to_ascii_lower(y[i]) {
            return false;
        }
        i += 1;
    }
    true
}

/// The ASCII lower-case of `s` starts with `prefix`.
pub open spec fn lower_starts_with_spec(s: Seq<u8>, prefix: Seq<u8>) -> bool {
    &&& prefix.len() <= s.len()
    &&& forall|i: int| 0 <= i < prefix.len() ==> ascii_lower(#[trigger] s[i]) == prefix[i]
}

/// Whether the ASCII lower-case of `s` starts with `prefix`, byte by byte.
pub fn lower_starts_with(s: &str, prefix: &str) -> (r: bool)
    ensures
        r == lower_starts_with_spec(s.spec_bytes(), prefix.spec_bytes()),
{
    let x = s.as_bytes();
    let p = prefix.as_bytes();
    if p.len() > x.len() {
        return false;
    }
    let mut i: usize = 0;
    while i < p.len()
        invariant
            x@ == s.spec_bytes(),
            p@ == prefix.spec_bytes(),
            p@.len() <= x@.len(),
            i <= p@.len(),
            forall|k: int| 0 <= k < i ==> ascii_lower(#[trigger] x@[k]) == p@[k],
        decreases p.len() - i,
    {
        if to_ascii_lower(x[i]) != p[i] {
            return false;
        }
        i += 1;
    }
    true
}

/// The character of a digit: `'0'` to `'9'`, then `'a'` to `'f'`.
pub open spec fn digit_char(d: nat) -> char {
    if d < 10 {
        (48 + d) as char
    } else {
        (87 + d) as char
    }
}

/// One digit, as a one-character string.
fn digit_str(d: u32) -> (r: &'static str)
    requires
        d < 16,
    ensures
        r@ == seq![digit_char(d as nat)],
{
    proof {
        reveal_strlit("0");
        reveal_strlit("1");
        reveal_strlit("2");
        reveal_strlit("3");
        reveal_strlit("4");
        reveal_strlit("5");
        reveal_strlit("6");
        reveal_strlit("7");
        reveal_strlit("8");
        reveal_strlit("9");
        reveal_strlit("a");
        reveal_strlit("b");
        reveal_strlit("c");
        reveal_strlit("d");
        reveal_strlit("e");
        reveal_strlit("f");
    }
    let r = match d {
        0 => "0",
        1 => "1",
        2 => "2",
        3 => "3",
        4 => "4",
        5 => "5",
        6 => "6",
        7 => "7",
        8 => "8",
        9 => "9",
        10 => "a",
        11 => "b",
        12 => "c",
        13 => "d",
        14 => "e",
        _ => "f",
    };
    assert(r@ =~= seq![digit_char(d as nat)]);
    r
}

/// The decimal digits of `n`, without leading zeros (`"0"` for zero).
pub open spec fn decimal(n: nat) -> Seq<char>
    decreases n,
{
    if n < 10 {
        seq![digit_char(n)]
    } else {
        decimal(n / 10).push(digit_char(n % 10))
    }
}

/// `n` in decimal, as `format!("{n}")` writes it.
pub fn u32_to_decimal(n: u32) -> (r: String)
    ensures
        r@ == decimal(n as nat),
    decreases n,
{
    if n < 10 {
        digit_str(n).to_owned()
    } else {
        let mut s = u32_to_decimal(n / 10);
        s.append(digit_str(n % 10));
        s
    }
}

/// Two lower-case hexadecimal digits for each byte, high nibble first.
pub open spec fn hex(b: Seq<u8>) -> Seq<char>
    decreases b.len(),
{
    if b.len() == 0 {
        Seq::empty()
    } else {
        hex(b.drop_last()) + seq![digit_char((b.last() / 16) as nat), digit_char((b.last() % 16) as nat)]
    }
}

/// The bytes in lower-case hexadecimal, as `format!("{b:02x}")` writes each.
pub fn to_hex(b: &[u8]) -> (r: String)
    ensures
        r@ == hex(b@),
{
    let mut s = String::new();
    let mut i: usize = 0;
    while i < b.len()
        invariant
            i <= b@.len(),
            s@ == hex(b@.take(i as int)),
        decreases b.len() - i,
    {
        let x = b[i];
        s.append(digit_str((x / 16) as u32));
        s.append(digit_str((x % 16) as u32));
        assert(b@.take(i + 1).drop_last() =~= b@.take(i as int));
        i += 1;
    }
    assert(b@.take(b@.len() as int) =~= b@);
    s
}

} // verus!
