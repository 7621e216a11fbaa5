//! Byte-level text utilities shared by the rules.
//!
//! Source text is handled as its UTF-8 bytes: node ranges are byte ranges, and
//! comparing two encodings byte by byte is the same as comparing the strings.
use vstd::prelude::*;
use vstd::string::StringSliceAdditionalSpecFns;
use vstd::string::StringExecFns;
use vstd::string::StrSliceExecFns;
use vstd::utf8::*;

verus! {

broadcast use vstd::utf8::encode_utf8_decode_utf8;

/// `pat` occurs in `hay` starting at byte `i`.
pub open spec fn occurs_at(hay: Seq<u8>, pat: Seq<u8>, i: int) -> bool {
    &&& 0 <= i
    &&& i + pat.len() <= hay.len()
    &&& hay.subrange(i, i + pat.len()) == pat
}

/// `pat` occurs somewhere in `hay`.
pub open spec fn contains_seq(hay: Seq<u8>, pat: Seq<u8>) -> bool {
    exists|i: int| occurs_at(hay, pat, i)
}

/// `hay` begins with `pat`.
pub open spec fn starts_with_seq(hay: Seq<u8>, pat: Seq<u8>) -> bool {
    occurs_at(hay, pat, 0)
}

/// The first position at or after `from` where `pat` occurs in `hay`.
pub open spec fn first_occurrence_from(hay: Seq<u8>, pat: Seq<u8>, from: int) -> Option<int>
    decreases hay.len() + 1 - from,
{
    if from < 0 || from > hay.len() || from + pat.len() > hay.len() {
        None
    } else if occurs_at(hay, pat, from) {
        Some(from)
    } else {
        first_occurrence_from(hay, pat, from + 1)
    }
}

/// Number of bytes of `s` equal to `b`.
pub open spec fn count_byte(s: Seq<u8>, b: u8) -> nat
    decreases s.len(),
{
    if s.len() == 0 {
        0
    } else {
        count_byte(s.drop_last(), b) + if s.last() == b {
            1nat
        } else {
            0nat
        }
    }
}

/// The characters that a byte sequence holds: its UTF-8 decoding when it is
/// valid UTF-8, and nothing otherwise.
pub open spec fn text_chars(bytes: Seq<u8>) -> Seq<char> {
    if valid_utf8(bytes) {
        decode_utf8(bytes)
    } else {
        Seq::empty()
    }
}

/// The decimal digit for `d`, which is below ten.
pub open spec fn digit_char(d: nat) -> char {
    if d == 0 {
        '0'
    } else if d == 1 {
        '1'
    } else if d == 2 {
        '2'
    } else if d == 3 {
        '3'
    } else if d == 4 {
        '4'
    } else if d == 5 {
        '5'
    } else if d == 6 {
        '6'
    } else if d == 7 {
        '7'
    } else if d == 8 {
        '8'
    } else {
        '9'
    }
}

/// The decimal notation of `n`, without leading zeros.
pub open spec fn decimal(n: nat) -> Seq<char>
    decreases n,
{
    if n < 10 {
        seq![digit_char(n)]
    } else {
        decimal(n / 10).push(digit_char(n % 10))
    }
}

fn digit_str(d: usize) -> (r: &'static str)
    requires
        d < 10,
    ensures
        r@ == seq![digit_char(d as nat)],
{
    proof {
        reveal_strlit("0");
        reveal_strlit("1");
        reveal_strlit("2");
        reveal_strlit("3");
        reveal_strlit("4");
        reveal_strlit("5");
        reveal_strlit("6");
        reveal_strlit("7");
        reveal_strlit("8");
        reveal_strlit("9");
    }
    if d == 0 {
        "0"
    } else if d == 1 {
        "1"
    } else if d == 2 {
        "2"
    } else if d == 3 {
        "3"
    } else if d == 4 {
        "4"
    } else if d == 5 {
        "5"
    } else if d == 6 {
        "6"
    } else if d == 7 {
        "7"
    } else if d == 8 {
        "8"
    } else {
        "9"
    }
}

/// The decimal notation of `n`.
pub fn decimal_string(n: usize) -> (r: String)
    ensures
        r@ == decimal(n as nat),
    decreases n,
{
    if n < 10 {
        String::from_str(digit_str(n))
    } else {
        let mut s = decimal_string(n / 10);
        s.append(digit_str(n % 10));
        s
    }
}

/// The bytes of `a` followed by those of `b`.
pub fn concat_bytes(a: &[u8], b: &[u8]) -> (r: Vec<u8>)
    ensures
        r@ == a@ + b@,
{
    let mut out: Vec<u8> = Vec::new();
    let mut i: usize = 0;
    while i < a.len()
        invariant
            0 <= i <= a.len(),
            out@ == a@.subrange(0, i as int),
        decreases a.len() - i,
    {
        out.push(a[i]);
        i = i + 1;
        assert(out@ =~= a@.subrange(0, i as int));
    }
    let mut j: usize = 0;
    while j < b.len()
        invariant
            0 <= j <= b.len(),
            out@ == a@ + b@.subrange(0, j as int),
        decreases b.len() - j,
    {
        out.push(b[j]);
        j = j + 1;
        assert(out@ =~= a@ + b@.subrange(0, j as int));
    }
    assert(b@.subrange(0, b@.len() as int) =~= b@);
    out
}

/// The bytes of `s` in `[start, end)`, or nothing when the range is reversed.
pub open spec fn range_of(s: Seq<u8>, start: int, end: int) -> Seq<u8> {
    if start <= end {
        s.subrange(start, end)
    } else {
        Seq::empty()
    }
}

/// The bytes of `s` in `[start, end)`, or nothing when the range is reversed.
pub fn slice_range(s: &[u8], start: usize, end: usize) -> (r: &[u8])
    requires
        start <= s@.len(),
        end <= s@.len(),
    ensures
        r@ == range_of(s@, start as int, end as int),
{
    if start <= end {
        &s[start..end]
    } else {
        assert(s@.subrange(0, 0) =~= Seq::<u8>::empty());
        &s[0..0]
    }
}

/// Characters that Unicode counts as white space, as `char::is_whitespace`
/// does.
pub open spec fn white_space(c: char) -> bool {
    let u = c as u32;
    ||| 0x9 <= u <= 0xd
    ||| u == 0x20
    ||| u == 0x85
    ||| u == 0xa0
    ||| u == 0x1680
    ||| 0x2000 <= u <= 0x200a
    ||| u == 0x2028
    ||| u == 0x2029
    ||| u == 0x202f
    ||| u == 0x205f
    ||| u == 0x3000
}

pub fn is_white_space(c: char) -> (r: bool)
    ensures
        r == white_space(c),
{
    let u = c as u32;
    (0x9 <= u && u <= 0xd) || u == 0x20 || u == 0x85 || u == 0xa0 || u == 0x1680 || (0x2000 <= u
        && u <= 0x200a) || u == 0x2028 || u == 0x2029 || u == 0x202f || u == 0x205f || u == 0x3000
}

/// `s` without its leading white space.
pub open spec fn trim_start(s: Seq<char>) -> Seq<char>
    decreases s.len(),
{
    if s.len() > 0 && white_space(s[0]) {
        trim_start(s.drop_first())
    } else {
        s
    }
}

/// `s` without its trailing white space.
pub open spec fn trim_end(s: Seq<char>) -> Seq<char>
    decreases s.len(),
{
    if s.len() > 0 && white_space(s.last()) {
        trim_end(s.drop_last())
    } else {
        s
    }
}

/// `s` without leading and trailing white space.
pub open spec fn trim(s: Seq<char>) -> Seq<char> {
    trim_end(trim_start(s))
}

/// `s` without its trailing white space.
pub fn trim_end_str(s: &str) -> (r: &str)
    ensures
        r@ == trim_end(s@),
{
    let len = s.unicode_len();
    assert(s@.subrange(0, len as int) =~= s@);
    let mut j: usize = len;
    while j > 0 && is_white_space(s.get_char(j - 1))
        invariant
            len == s@.len(),
            0 <= j <= len,
            trim_end(s@) == trim_end(s@.subrange(0, j as int)),
        decreases j,
    {
        assert(s@.subrange(0, j as int).drop_last() =~= s@.subrange(0, j - 1));
        j = j - 1;
    }
    assert(trim_end(s@.subrange(0, j as int)) == s@.subrange(0, j as int));
    s.substring_char(0, j)
}

/// Whether `s`, without leading and trailing white space, is `word`.
pub fn trimmed_equals(s: &str, word: &str) -> (r: bool)
    ensures
        r == (trim(s@) == word@),
{
    let len = s.unicode_len();
    assert(s@.subrange(0, len as int) =~= s@);
    let mut i: usize = 0;
    while i < len && is_white_space(s.get_char(i))
        invariant
            len == s@.len(),
            0 <= i <= len,
            trim_start(s@) == trim_start(s@.subrange(i as int, len as int)),
        decreases len - i,
    {
        assert(s@.subrange(i as int, len as int).drop_first() =~= s@.subrange(i + 1, len as int));
        i = i + 1;
    }
    assert(trim_start(s@.subrange(i as int, len as int)) == s@.subrange(i as int, len as int));
    let mut j: usize = len;
    while j > i && is_white_space(s.get_char(j - 1))
        invariant
            len == s@.len(),
            0 <= i <= j <= len,
            trim(s@) == trim_end(s@.subrange(i as int, j as int)),
        decreases j,
    {
        assert(s@.subrange(i as int, j as int).drop_last() =~= s@.subrange(i as int, j - 1));
        j = j - 1;
    }
    assert(trim_end(s@.subrange(i as int, j as int)) == s@.subrange(i as int, j as int));
    let middle = s.substring_char(i, j);
    str_eq(middle, word)
}

/// Byte-wise equality of two slices.
pub fn bytes_eq(a: &[u8], b: &[u8]) -> (r: bool)
    ensures
        r == (a@ == b@),
{
    if a.len() != b.len() {
        return false;
    }
    let mut i: usize = 0;
    while i < a.len()
        invariant
            a.len() == b.len(),
            0 <= i <= a.len(),
            forall|j: int| 0 <= j < i ==> a@[j] == b@[j],
        decreases a.len() - i,
    {
        if a[i] != b[i] {
            return false;
        }
        i = i + 1;
    }
    assert(a@ =~= b@);
    true
}

/// Equality of two strings.
pub fn str_eq(a: &str, b: &str) -> (r: bool)
    ensures
        r == (a@ == b@),
{
    let r = bytes_eq(a.as_bytes(), b.as_bytes());
    proof {
        if r {
            assert(decode_utf8(encode_utf8(a@)) == a@);
            assert(decode_utf8(encode_utf8(b@)) == b@);
        }
    }
    r
}

/// Whether `pat` occurs in `hay` at byte `i`.
pub fn occurs_at_exec(hay: &[u8], pat: &[u8], i: usize) -> (r: bool)
    ensures
        r == occurs_at(hay@, pat@, i as int),
{
    if i > hay.len() || pat.len() > hay.len() - i {
        return false;
    }
    let mut k: usize = 0;
    while k < pat.len()
        invariant
            i + pat.len() <= hay.len(),
            0 <= k <= pat.len(),
            forall|j: int| 0 <= j < k ==> hay@[i + j] == pat@[j],
        decreases pat.len() - k,
    {
        if hay[i + k] != pat[k] {
            assert(hay@.subrange(i as int, i + pat.len())[k as int] != pat@[k as int]);
            return false;
        }
        k = k + 1;
    }
    assert(hay@.subrange(i as int, i + pat@.len()) =~= pat@);
    true
}

/// The first position at or after `from` where `pat` occurs in `hay`.
pub fn find_from(hay: &[u8], pat: &[u8], from: usize) -> (r: Option<usize>)
    ensures
        r matches Some(i) ==> first_occurrence_from(hay@, pat@, from as int) == Some(i as int)
            && i + pat@.len() <= hay@.len(),
        r is None ==> first_occurrence_from(hay@, pat@, from as int) is None,
{
    if from > hay.len() || pat.len() > hay.len() - from {
        return None;
    }
    let last = hay.len() - pat.len();
    let mut i = from;
    while i <= last
        invariant
            from <= i,
            last == hay.len() - pat.len(),
            pat.len() <= hay.len(),
            i <= last + 1,
            first_occurrence_from(hay@, pat@, from as int) == first_occurrence_from(
                hay@,
                pat@,
                i as int,
            ),
        decreases last + 1 - i,
    {
        if occurs_at_exec(hay, pat, i) {
            return Some(i);
        }
        if i == last {
            assert(first_occurrence_from(hay@, pat@, i + 1) is None);
            return None;
        }
        i = i + 1;
    }
    None
}

proof fn lemma_first_occurrence_contains(hay: Seq<u8>, pat: Seq<u8>, from: int)
    requires
        0 <= from,
    ensures
        first_occurrence_from(hay, pat, from) is Some ==> contains_seq(hay, pat),
        (exists|i: int| from <= i && occurs_at(hay, pat, i)) ==> first_occurrence_from(
            hay,
            pat,
            from,
        ) is Some,
    decreases hay.len() + 1 - from,
{
    if from > hay.len() || from + pat.len() > hay.len() {
    } else if occurs_at(hay, pat, from) {
    } else {
        lemma_first_occurrence_contains(hay, pat, from + 1);
        if exists|i: int| from <= i && occurs_at(hay, pat, i) {
            let i = choose|i: int| from <= i && occurs_at(hay, pat, i);
            assert(from + 1 <= i);
        }
    }
}

/// Whether `pat` occurs somewhere in `hay`.
pub fn bytes_contain(hay: &[u8], pat: &[u8]) -> (r: bool)
    ensures
        r == contains_seq(hay@, pat@),
{
    let found = find_from(hay, pat, 0);
    proof {
        lemma_first_occurrence_contains(hay@, pat@, 0);
    }
    found.is_some()
}

/// Whether `hay` begins with `pat`.
pub fn bytes_start_with(hay: &[u8], pat: &[u8]) -> (r: bool)
    ensures
        r == starts_with_seq(hay@, pat@),
{
    occurs_at_exec(hay, pat, 0)
}

/// Number of occurrences of byte `b` in `s`.
pub fn count_byte_exec(s: &[u8], b: u8) -> (r: usize)
    ensures
        r == count_byte(s@, b),
{
    let mut n: usize = 0;
    let mut i: usize = 0;
    while i < s.len()
        invariant
            0 <= i <= s.len(),
            n == count_byte(s@.subrange(0, i as int), b),
            n <= i,
        decreases s.len() - i,
    {
        proof {
            assert(s@.subrange(0, i + 1).drop_last() =~= s@.subrange(0, i as int));
        }
        if s[i] == b {
            n = n + 1;
        }
        i = i + 1;
    }
    assert(s@.subrange(0, s@.len() as int) =~= s@);
    n
}

/// Decodes UTF-8 bytes into a string.
///
/// Calls `core::str::from_utf8`, which (as its documentation says) succeeds
/// exactly on valid UTF-8 and then hands back a string slice over the same
/// bytes. The contract claims that, and that the owned copy has the same
/// characters.
#[verifier::external_body]
pub(crate) fn decode_bytes(bytes: &[u8]) -> (r: Option<String>)
    ensures
        r is Some <==> valid_utf8(bytes@),
        r matches Some(s) ==> encode_utf8(s@) == bytes@,
{
    match core::str::from_utf8(bytes) {
        Ok(s) => Some(s.to_string()),
        Err(_) => None,
    }
}

/// The characters of a byte sequence as an owned string: its UTF-8 decoding
/// when the bytes are valid UTF-8, the empty string otherwise.
pub fn bytes_to_string(bytes: &[u8]) -> (r: String)
    ensures
        r@ == text_chars(bytes@),
{
    match decode_bytes(bytes) {
        Some(s) => {
            proof {
                assert(decode_utf8(encode_utf8(s@)) == s@);
            }
            s
        },
        None => String::new(),
    }
}

} // verus!
