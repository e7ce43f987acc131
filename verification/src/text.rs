//! Character and string helpers shared by the library's name and path rules.
use vstd::prelude::*;

verus! {

/// `String::push` appends one character to the string.
pub assume_specification[ String::push ](string: &mut String, ch: char)
    ensures
        final(string)@ == old(string)@.push(ch),
;

/// ASCII decimal digit.
pub open spec fn spec_is_digit(c: char) -> bool {
    '0' <= c && c <= '9'
}

/// ASCII letter or digit.
pub open spec fn spec_is_alnum(c: char) -> bool {
    spec_is_digit(c) || ('a' <= c && c <= 'z') || ('A' <= c && c <= 'Z')
}

/// The ASCII upper-case form of a character; other characters are unchanged.
pub open spec fn spec_upper(c: char) -> char {
    if 'a' <= c && c <= 'z' {
        ((c as u32) - 32) as char
    } else {
        c
    }
}

/// The ASCII lower-case form of a character; other characters are unchanged.
pub open spec fn spec_lower(c: char) -> char {
    if 'A' <= c && c <= 'Z' {
        ((c as u32) + 32) as char
    } else {
        c
    }
}

/// Characters with the Unicode `White_Space` property.
pub open spec fn spec_is_whitespace(c: char) -> bool {
    let v = c as u32;
    (0x09 <= v && v <= 0x0D) || v == 0x20 || v == 0x85 || v == 0xA0 || v == 0x1680 || (0x2000
        <= v && v <= 0x200A) || v == 0x2028 || v == 0x2029 || v == 0x202F || v == 0x205F || v
        == 0x3000
}

/// Characters of the Unicode general category `Cc`.
pub open spec fn spec_is_control(c: char) -> bool {
    let v = c as u32;
    v <= 0x1F || (0x7F <= v && v <= 0x9F)
}

pub open spec fn upper_seq(s: Seq<char>) -> Seq<char> {
    s.map_values(|c: char| spec_upper(c))
}

pub open spec fn lower_seq(s: Seq<char>) -> Seq<char> {
    s.map_values(|c: char| spec_lower(c))
}

/// `s` without its leading white space.
pub open spec fn trim_start(s: Seq<char>) -> Seq<char>
    decreases s.len(),
{
    if s.len() > 0 && spec_is_whitespace(s[0]) {
        trim_start(s.drop_first())
    } else {
        s
    }
}

/// `s` without its trailing white space.
pub open spec fn trim_end(s: Seq<char>) -> Seq<char>
    decreases s.len(),
{
    if s.len() > 0 && spec_is_whitespace(s.last()) {
        trim_end(s.drop_last())
    } else {
        s
    }
}

/// `s` without leading and trailing white space, as `str::trim` gives it.
pub open spec fn trim(s: Seq<char>) -> Seq<char> {
    trim_end(trim_start(s))
}

/// The decimal digit character for `d < 10`.
pub open spec fn digit_char(d: nat) -> char {
    ((48 + d) as u32) as char
}

/// The shortest decimal spelling of `n`.
pub open spec fn decimal(n: nat) -> Seq<char>
    decreases n,
{
    if n < 10 {
        seq![digit_char(n)]
    } else {
        decimal(n / 10).push(digit_char(n % 10))
    }
}

/// `s` preceded by enough zeros to be at least `width` characters long.
pub open spec fn zero_pad(s: Seq<char>, width: nat) -> Seq<char> {
    if s.len() >= width {
        s
    } else {
        Seq::new((width - s.len()) as nat, |i: int| '0') + s
    }
}

pub fn is_digit(c: char) -> (b: bool)
    ensures
        b == spec_is_digit(c),
{
    '0' <= c && c <= '9'
}

pub fn is_alnum(c: char) -> (b: bool)
    ensures
        b == spec_is_alnum(c),
{
    ('0' <= c && c <= '9') || ('a' <= c && c <= 'z') || ('A' <= c && c <= 'Z')
}

pub fn is_whitespace(c: char) -> (b: bool)
    ensures
        b == spec_is_whitespace(c),
{
    let v = c as u32;
    (0x09 <= v && v <= 0x0D) || v == 0x20 || v == 0x85 || v == 0xA0 || v == 0x1680 || (0x2000
        <= v && v <= 0x200A) || v == 0x2028 || v == 0x2029 || v == 0x202F || v == 0x205F || v
        == 0x3000
}

pub fn is_control(c: char) -> (b: bool)
    ensures
        b == spec_is_control(c),
{
    let v = c as u32;
    v <= 0x1F || (0x7F <= v && v <= 0x9F)
}

pub fn to_upper(c: char) -> (u: char)
    ensures
        u == spec_upper(c),
{
    if 'a' <= c && c <= 'z' {
        let v = (c as u32) - 32;
        proof {
            assert(v < 0xD800);
        }
        char_from_ascii(v)
    } else {
        c
    }
}

pub fn to_lower(c: char) -> (u: char)
    ensures
        u == spec_lower(c),
{
    if 'A' <= c && c <= 'Z' {
        let v = (c as u32) + 32;
        char_from_ascii(v)
    } else {
        c
    }
}

/// The character with the given code below 128.
fn char_from_ascii(v: u32) -> (c: char)
    requires
        v < 128,
    ensures
        c == v as char,
        c as u32 == v,
{
    let b = v as u8;
    b as char
}

/// The characters of a string slice, in order.
pub fn chars_of(s: &str) -> (out: Vec<char>)
    ensures
        out@ == s@,
{
    let mut out: Vec<char> = Vec::new();
    for c in it: s.chars()
        invariant
            out@ == it.seq().take(it.index() as int),
            it.seq() == s@,
    {
        out.push(c);
    }
    out
}

/// Whether two character sequences are equal.
pub fn chars_eq(a: &[char], b: &[char]) -> (r: bool)
    ensures
        r == (a@ == b@),
{
    if a.len() != b.len() {
        return false;
    }
    let mut i: usize = 0;
    while i < a.len()
        invariant
            i <= a.len(),
            a.len() == b.len(),
            forall|k: int| 0 <= k < i ==> a@[k] == b@[k],
        decreases a.len() - i,
    {
        if a[i] != b[i] {
            return false;
        }
        i = i + 1;
    }
    proof {
        assert(a@ =~= b@);
    }
    true
}

/// The ASCII lower-case copy of `s`.
pub fn lowered(s: &[char]) -> (out: Vec<char>)
    ensures
        out@ == lower_seq(s@),
{
    let mut out: Vec<char> = Vec::new();
    let mut i: usize = 0;
    while i < s.len()
        invariant
            i <= s.len(),
            out@ == lower_seq(s@.take(i as int)),
        decreases s.len() - i,
    {
        out.push(to_lower(s[i]));
        i = i + 1;
        proof {
            assert(s@.take(i as int) == s@.take(i - 1).push(s@[i - 1]));
            assert(lower_seq(s@.take(i as int)) =~= lower_seq(s@.take(i - 1)).push(spec_lower(s@[i - 1])));
        }
    }
    proof {
        assert(s@.take(s.len() as int) == s@);
    }
    out
}

/// A copy of a byte slice.
pub fn copy_bytes(bytes: &[u8]) -> (out: Vec<u8>)
    ensures
        out@ == bytes@,
{
    let mut out: Vec<u8> = Vec::new();
    let mut i: usize = 0;
    while i < bytes.len()
        invariant
            i <= bytes.len(),
            out@ == bytes@.take(i as int),
        decreases bytes.len() - i,
    {
        out.push(bytes[i]);
        i = i + 1;
        proof {
            assert(bytes@.take(i as int) == bytes@.take(i - 1).push(bytes@[i - 1]));
        }
    }
    proof {
        assert(bytes@.take(bytes.len() as int) == bytes@);
    }
    out
}

/// A string holding the given characters.
pub fn string_from(chars: &[char]) -> (s: String)
    ensures
        s@ == chars@,
{
    let mut s = String::new();
    let mut i: usize = 0;
    while i < chars.len()
        invariant
            i <= chars.len(),
            s@ == chars@.take(i as int),
        decreases chars.len() - i,
    {
        s.push(chars[i]);
        i = i + 1;
        proof {
            assert(chars@.take(i as int) == chars@.take(i - 1).push(chars@[i - 1]));
        }
    }
    proof {
        assert(chars@.take(chars.len() as int) == chars@);
    }
    s
}


proof fn lemma_trim_start_skip(s: Seq<char>, i: int)
    requires
        0 <= i <= s.len(),
        forall|j: int| 0 <= j < i ==> spec_is_whitespace(#[trigger] s[j]),
    ensures
        trim_start(s) == trim_start(s.subrange(i, s.len() as int)),
    decreases i,
{
    if i > 0 {
        assert(s.drop_first() == s.subrange(1, s.len() as int));
        lemma_trim_start_skip(s.drop_first(), i - 1);
        assert(s.drop_first().subrange(i - 1, s.drop_first().len() as int) == s.subrange(
            i,
            s.len() as int,
        ));
    } else {
        assert(s.subrange(0, s.len() as int) == s);
    }
}

proof fn lemma_trim_end_cut(s: Seq<char>, e: int)
    requires
        0 <= e <= s.len(),
        forall|j: int| e <= j < s.len() ==> spec_is_whitespace(#[trigger] s[j]),
    ensures
        trim_end(s) == trim_end(s.subrange(0, e)),
    decreases s.len() - e,
{
    if e < s.len() {
        assert(s.drop_last() == s.subrange(0, s.len() - 1));
        lemma_trim_end_cut(s.drop_last(), e);
        assert(s.drop_last().subrange(0, e) == s.subrange(0, e));
    } else {
        assert(s.subrange(0, e) == s);
    }
}

/// Where the text of `s` starts and ends once white space is trimmed from both sides.
pub fn trim_bounds(s: &[char]) -> (r: (usize, usize))
    ensures
        r.0 <= r.1 <= s.len(),
        s@.subrange(r.0 as int, r.1 as int) == trim(s@),
{
    let mut start: usize = 0;
    while start < s.len() && is_whitespace(s[start])
        invariant
            start <= s.len(),
            forall|j: int| 0 <= j < start ==> spec_is_whitespace(#[trigger] s@[j]),
        decreases s.len() - start,
    {
        start = start + 1;
    }
    let ghost rest = s@.subrange(start as int, s.len() as int);
    proof {
        lemma_trim_start_skip(s@, start as int);
        if rest.len() > 0 {
            assert(rest[0] == s@[start as int]);
        }
    }
    let mut end: usize = s.len();
    while end > start && is_whitespace(s[end - 1])
        invariant
            start <= end <= s.len(),
            forall|j: int| end <= j < s.len() ==> spec_is_whitespace(#[trigger] s@[j]),
        decreases end,
    {
        end = end - 1;
    }
    proof {
        let r = rest;
        lemma_trim_end_cut(r, end - start);
        assert forall|j: int| end - start <= j < r.len() implies spec_is_whitespace(#[trigger] r[j]) by {
            assert(r[j] == s@[j + start]);
        }
        lemma_trim_end_cut(r, end - start);
        let cut = r.subrange(0, end - start);
        assert(cut == s@.subrange(start as int, end as int));
        if cut.len() > 0 {
            assert(cut.last() == s@[end - 1]);
        }
        assert(trim_end(cut) == cut);
    }
    (start, end)
}

/// The trimmed copy of `s`.
pub fn trimmed(s: &[char]) -> (out: Vec<char>)
    ensures
        out@ == trim(s@),
{
    let (start, end) = trim_bounds(s);
    let mut out: Vec<char> = Vec::new();
    let mut i = start;
    while i < end
        invariant
            start <= i <= end <= s.len(),
            out@ == s@.subrange(start as int, i as int),
        decreases end - i,
    {
        out.push(s[i]);
        i = i + 1;
    }
    out
}

/// The decimal spelling of `n`.
pub fn decimal_string(n: u64) -> (out: Vec<char>)
    ensures
        out@ == decimal(n as nat),
    decreases n,
{
    if n < 10 {
        let c = char_from_ascii(48 + n as u32);
        let mut v: Vec<char> = Vec::new();
        v.push(c);
        v
    } else {
        let mut v = decimal_string(n / 10);
        let c = char_from_ascii(48 + (n % 10) as u32);
        v.push(c);
        v
    }
}

/// The decimal spelling of `n`, zero-padded to at least `width` characters.
pub fn padded_decimal(n: u64, width: usize) -> (out: Vec<char>)
    ensures
        out@ == zero_pad(decimal(n as nat), width as nat),
{
    let digits = decimal_string(n);
    if digits.len() >= width {
        return digits;
    }
    let mut out: Vec<char> = Vec::new();
    let pad = width - digits.len();
    let mut i: usize = 0;
    while i < pad
        invariant
            i <= pad,
            pad == width - digits@.len(),
            out@ == Seq::new(i as nat, |k: int| '0'),
        decreases pad - i,
    {
        out.push('0');
        i = i + 1;
        proof {
            assert(out@ == Seq::new(i as nat, |k: int| '0'));
        }
    }
    let mut j: usize = 0;
    while j < digits.len()
        invariant
            j <= digits.len(),
            out@ == Seq::new(pad as nat, |k: int| '0') + digits@.take(j as int),
        decreases digits.len() - j,
    {
        out.push(digits[j]);
        j = j + 1;
        proof {
            assert(digits@.take(j as int) == digits@.take(j - 1).push(digits@[j - 1]));
        }
    }
    proof {
        assert(digits@.take(digits.len() as int) == digits@);
    }
    out
}

/// The rest of `s` after `prefix`, or `None` when `s` does not start with it.
pub fn strip_prefix(s: &str, prefix: &str) -> (r: Option<String>)
    ensures
        r is Some <==> (prefix@.len() <= s@.len() && s@.take(prefix@.len() as int) == prefix@),
        r matches Some(t) ==> t@ == s@.skip(prefix@.len() as int),
{
    let chars = chars_of(s);
    let head = chars_of(prefix);
    if head.len() > chars.len() {
        return None;
    }
    let n = head.len();
    let front = &chars.as_slice()[0..n];
    assert(front@ == s@.take(n as int));
    if !chars_eq(front, head.as_slice()) {
        return None;
    }
    let len = chars.len();
    let rest = &chars.as_slice()[n..len];
    assert(rest@ == s@.skip(n as int));
    Some(string_from(rest))
}

} // verus!
