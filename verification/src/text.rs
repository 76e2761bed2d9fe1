//! Character-level string helpers: exact and ASCII-case-insensitive
//! comparison, suffix tests, and substring search. These back the file-name
//! filters and the server-message checks of the watcher and the pipeline.

use vstd::prelude::*;
use vstd::string::StrSliceExecFns;
use vstd::string::StringExecFns;

verus! {

/// ASCII-lowercased code point of a character: the letters 'A'..'Z' map to
/// their lowercase code, every other character keeps its own code.
pub open spec fn lower_code(c: char) -> u32 {
    if 65 <= c as u32 && c as u32 <= 90 {
        (c as u32 + 32) as u32
    } else {
        c as u32
    }
}

/// Two character sequences are equal up to ASCII case.
pub open spec fn seq_eq_ignore_case(a: Seq<char>, b: Seq<char>) -> bool {
    &&& a.len() == b.len()
    &&& forall|i: int| 0 <= i < a.len() ==> lower_code(a[i]) == lower_code(b[i])
}

/// `s` ends with the suffix `suf` (exact, case-sensitive).
pub open spec fn seq_ends_with(s: Seq<char>, suf: Seq<char>) -> bool {
    &&& s.len() >= suf.len()
    &&& s.subrange(s.len() - suf.len(), s.len() as int) == suf
}

/// `pat` occurs in `s` as a substring, up to ASCII case.
pub open spec fn seq_contains_ignore_case(s: Seq<char>, pat: Seq<char>) -> bool {
    exists|k: int|
        0 <= k && k + pat.len() <= s.len() && seq_eq_ignore_case(
            #[trigger] s.subrange(k, k + pat.len()),
            pat,
        )
}

/// ASCII-lowercased code point, computed.
pub fn char_lower_code(c: char) -> (r: u32)
    ensures
        r == lower_code(c),
{
    let code = c as u32;
    if 65 <= code && code <= 90 {
        code + 32
    } else {
        code
    }
}

/// Exact equality of two string slices, character by character.
pub fn str_eq(a: &str, b: &str) -> (r: bool)
    ensures
        r == (a@ == b@),
{
    let alen = a.unicode_len();
    let blen = b.unicode_len();
    if alen != blen {
        return false;
    }
    let mut i: usize = 0;
    while i < alen
        invariant
            i <= alen,
            alen == a@.len(),
            alen == b@.len(),
            forall|j: int| 0 <= j < i ==> a@[j] == b@[j],
        decreases alen - i,
    {
        if a.get_char(i) != b.get_char(i) {
            return false;
        }
        i = i + 1;
    }
    proof {
        assert(a@ =~= b@);
    }
    true
}

/// Equality of two string slices up to ASCII case.
pub fn str_eq_ignore_case(a: &str, b: &str) -> (r: bool)
    ensures
        r == seq_eq_ignore_case(a@, b@),
{
    let alen = a.unicode_len();
    let blen = b.unicode_len();
    if alen != blen {
        return false;
    }
    let mut i: usize = 0;
    while i < alen
        invariant
            i <= alen,
            alen == a@.len(),
            alen == b@.len(),
            forall|j: int| 0 <= j < i ==> lower_code(a@[j]) == lower_code(b@[j]),
        decreases alen - i,
    {
        if char_lower_code(a.get_char(i)) != char_lower_code(b.get_char(i)) {
            return false;
        }
        i = i + 1;
    }
    true
}

/// `s` ends with the suffix `suf` (exact, case-sensitive).
pub fn str_ends_with(s: &str, suf: &str) -> (r: bool)
    ensures
        r == seq_ends_with(s@, suf@),
{
    let slen = s.unicode_len();
    let plen = suf.unicode_len();
    if slen < plen {
        return false;
    }
    let base = slen - plen;
    let mut i: usize = 0;
    while i < plen
        invariant
            i <= plen,
            plen <= slen,
            base == slen - plen,
            slen == s@.len(),
            plen == suf@.len(),
            forall|j: int| 0 <= j < i ==> s@[base + j] == suf@[j],
        decreases plen - i,
    {
        if s.get_char(base + i) != suf.get_char(i) {
            proof {
                let j = i as int;
                assert(s@.subrange(s@.len() - suf@.len(), s@.len() as int)[j] == s@[base + j]);
            }
            return false;
        }
        i = i + 1;
    }
    proof {
        assert(s@.subrange(s@.len() - suf@.len(), s@.len() as int) =~= suf@);
    }
    true
}

/// The slice of `s` starting at `k` and as long as `pat` equals `pat` up to
/// ASCII case.
fn matches_ignore_case_at(s: &str, pat: &str, k: usize) -> (r: bool)
    requires
        k + pat@.len() <= s@.len(),
    ensures
        r == seq_eq_ignore_case(s@.subrange(k as int, k + pat@.len()), pat@),
{
    let slen = s.unicode_len();
    let plen = pat.unicode_len();
    let mut i: usize = 0;
    while i < plen
        invariant
            i <= plen,
            slen == s@.len(),
            plen == pat@.len(),
            k + plen <= slen,
            forall|j: int| 0 <= j < i ==> lower_code(s@[k + j]) == lower_code(pat@[j]),
        decreases plen - i,
    {
        if char_lower_code(s.get_char(k + i)) != char_lower_code(pat.get_char(i)) {
            proof {
                let j = i as int;
                assert(s@.subrange(k as int, k + pat@.len())[j] == s@[k + j]);
            }
            return false;
        }
        i = i + 1;
    }
    proof {
        let sub = s@.subrange(k as int, k + pat@.len());
        assert(forall|j: int|
            0 <= j < sub.len() ==> lower_code(#[trigger] sub[j]) == lower_code(pat@[j]));
    }
    true
}

/// `pat` occurs in `s` as a substring, up to ASCII case.
pub fn str_contains_ignore_case(s: &str, pat: &str) -> (r: bool)
    ensures
        r == seq_contains_ignore_case(s@, pat@),
{
    let slen = s.unicode_len();
    let plen = pat.unicode_len();
    if plen > slen {
        return false;
    }
    let last = slen - plen;
    let mut k: usize = 0;
    while k <= last
        invariant
            last == slen - plen,
            plen <= slen,
            slen == s@.len(),
            plen == pat@.len(),
            k <= last + 1,
            forall|m: int|
                0 <= m < k ==> !seq_eq_ignore_case(
                    #[trigger] s@.subrange(m, m + pat@.len()),
                    pat@,
                ),
        decreases last + 1 - k,
    {
        if matches_ignore_case_at(s, pat, k) {
            return true;
        }
        k = k + 1;
    }
    false
}

/// The character for one decimal digit.
pub open spec fn digit_char(d: int) -> char {
    if d == 0 {
        '0'
    } else if d == 1 {
        '1'
    } else if d == 2 {
        '2'
    } else if d == 3 {
        '3'
    } else if d == 4 {
        '4'
    } else if d == 5 {
        '5'
    } else if d == 6 {
        '6'
    } else if d == 7 {
        '7'
    } else if d == 8 {
        '8'
    } else {
        '9'
    }
}

/// Decimal representation of a non-negative integer, most significant digit
/// first, with no leading zeros (a single '0' for zero itself).
pub open spec fn dec_str(n: int) -> Seq<char>
    decreases n,
{
    if n < 10 {
        seq![digit_char(n)]
    } else {
        dec_str(n / 10) + seq![digit_char(n % 10)]
    }
}

/// A decimal representation has at least one character.
pub proof fn lemma_dec_str_len(n: int)
    ensures
        dec_str(n).len() >= 1,
    decreases n,
{
    if n >= 10 {
        lemma_dec_str_len(n / 10);
    }
}

/// The one-character string for a decimal digit.
fn digit_str(d: u64) -> (r: &'static str)
    requires
        d < 10,
    ensures
        r@ == seq![digit_char(d as int)],
{
    proof {
        reveal_strlit("0");
        reveal_strlit("1");
        reveal_strlit("2");
        reveal_strlit("3");
        reveal_strlit("4");
        reveal_strlit("5");
        reveal_strlit("6");
        reveal_strlit("7");
        reveal_strlit("8");
        reveal_strlit("9");
        assert("0"@ =~= seq!['0']);
        assert("1"@ =~= seq!['1']);
        assert("2"@ =~= seq!['2']);
        assert("3"@ =~= seq!['3']);
        assert("4"@ =~= seq!['4']);
        assert("5"@ =~= seq!['5']);
        assert("6"@ =~= seq!['6']);
        assert("7"@ =~= seq!['7']);
        assert("8"@ =~= seq!['8']);
        assert("9"@ =~= seq!['9']);
    }
    if d == 0 {
        "0"
    } else if d == 1 {
        "1"
    } else if d == 2 {
        "2"
    } else if d == 3 {
        "3"
    } else if d == 4 {
        "4"
    } else if d == 5 {
        "5"
    } else if d == 6 {
        "6"
    } else if d == 7 {
        "7"
    } else if d == 8 {
        "8"
    } else {
        "9"
    }
}

/// Decimal representation of an integer, with a leading '-' when negative.
pub open spec fn int_str(n: int) -> Seq<char> {
    if n < 0 {
        seq!['-'] + dec_str(-n)
    } else {
        dec_str(n)
    }
}

/// Decimal rendering of a signed 32-bit integer.
pub fn i32_to_string(n: i32) -> (r: String)
    ensures
        r@ == int_str(n as int),
{
    if n < 0 {
        let mag: u64 = (-(n as i64)) as u64;
        let mut s = String::from_str("-");
        proof {
            reveal_strlit("-");
            assert("-"@ =~= seq!['-']);
        }
        let digits = u64_to_string(mag);
        s.append(digits.as_str());
        s
    } else {
        u64_to_string(n as u64)
    }
}

/// Decimal rendering of an unsigned integer.
pub fn u64_to_string(n: u64) -> (r: String)
    ensures
        r@ == dec_str(n as int),
    decreases n,
{
    if n < 10 {
        String::from_str(digit_str(n))
    } else {
        let mut s = u64_to_string(n / 10);
        s.append(digit_str(n % 10));
        s
    }
}

} // verus!
