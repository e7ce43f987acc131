//! File names the application derives from user text: exported page files,
//! translation packages and audit outputs.
use vstd::prelude::*;
use crate::project::is_forbidden_in_file_name;
use crate::text::{
    chars_of, decimal, digit_char, is_alnum, is_whitespace, padded_decimal, spec_is_alnum, spec_is_whitespace,
    string_from, trim, trimmed, zero_pad,
};

verus! {

/// Each character Windows forbids in file names replaced by `_`.
pub open spec fn replace_forbidden(s: Seq<char>) -> Seq<char> {
    s.map_values(|c: char| if is_forbidden_in_file_name(c) { '_' } else { c })
}

/// `s` without trailing dots and white space.
pub open spec fn trim_end_dots(s: Seq<char>) -> Seq<char>
    decreases s.len(),
{
    if s.len() > 0 && (s.last() == '.' || spec_is_whitespace(s.last())) {
        trim_end_dots(s.drop_last())
    } else {
        s
    }
}

/// The index of the last `.` in `s`, if any.
pub open spec fn last_dot(s: Seq<char>) -> Option<int>
    decreases s.len(),
{
    if s.len() == 0 {
        None
    } else if s.last() == '.' {
        Some(s.len() - 1)
    } else {
        last_dot(s.drop_last())
    }
}

/// `s` without its last extension: the text before its last `.`, or all of it.
pub open spec fn without_extension(s: Seq<char>) -> Seq<char> {
    match last_dot(s) {
        Some(i) => s.take(i),
        None => s,
    }
}

/// The cleaned label part of an exported page file name.
pub open spec fn export_label(label: Seq<char>) -> Seq<char> {
    replace_forbidden(without_extension(trim_end_dots(trim(label))))
}

/// The file stem of the page at `index`: its one-based number padded to four
/// digits, `_`, and its cleaned label, or `page` when nothing of the label remains.
pub open spec fn spec_export_stem(index: nat, label: Seq<char>) -> Seq<char> {
    let cleaned = export_label(label);
    zero_pad(decimal(index + 1), 4) + seq!['_'] + (if cleaned.len() == 0 {
        seq!['p', 'a', 'g', 'e']
    } else {
        cleaned
    })
}

/// The stem of a translation package file: the trimmed name with forbidden
/// characters replaced, or `koharu` when nothing remains.
pub open spec fn spec_safe_file_stem(value: Seq<char>) -> Seq<char> {
    let stem = replace_forbidden(trim(value));
    if stem.len() == 0 {
        seq!['k', 'o', 'h', 'a', 'r', 'u']
    } else {
        stem
    }
}

/// Characters an audit output component keeps.
pub open spec fn is_component_char(c: char) -> bool {
    spec_is_alnum(c) || c == '-' || c == '_' || c == '.'
}

/// An output path component that cannot leave its directory: every character
/// other than ASCII letters, digits, `-`, `_` and `.` becomes `_`, and an empty
/// result, `.` or `..` becomes `output`.
pub open spec fn spec_safe_component(value: Seq<char>) -> Seq<char> {
    let c = value.map_values(|ch: char| if is_component_char(ch) { ch } else { '_' });
    if c.len() == 0 || c == seq!['.'] || c == seq!['.', '.'] {
        seq!['o', 'u', 't', 'p', 'u', 't']
    } else {
        c
    }
}

fn replaced(s: &[char]) -> (out: Vec<char>)
    ensures
        out@ == replace_forbidden(s@),
{
    let mut out: Vec<char> = Vec::new();
    let mut i: usize = 0;
    while i < s.len()
        invariant
            i <= s.len(),
            out@ == replace_forbidden(s@.take(i as int)),
        decreases s.len() - i,
    {
        let c = s[i];
        let forbidden = c == '<' || c == '>' || c == ':' || c == '"' || c == '/' || c == '\\' || c
            == '|' || c == '?' || c == '*';
        out.push(if forbidden { '_' } else { c });
        i = i + 1;
        proof {
            assert(s@.take(i as int) == s@.take(i - 1).push(c));
            assert(replace_forbidden(s@.take(i as int)) =~= replace_forbidden(s@.take(i - 1)).push(
                if is_forbidden_in_file_name(c) { '_' } else { c },
            ));
        }
    }
    proof {
        assert(s@.take(s.len() as int) == s@);
    }
    out
}

fn literal(chars: &[char]) -> (out: Vec<char>)
    ensures
        out@ == chars@,
{
    let mut out: Vec<char> = Vec::new();
    let mut i: usize = 0;
    while i < chars.len()
        invariant
            i <= chars.len(),
            out@ == chars@.take(i as int),
        decreases chars.len() - i,
    {
        out.push(chars[i]);
        i = i + 1;
        proof {
            assert(chars@.take(i as int) == chars@.take(i - 1).push(chars@[i - 1]));
        }
    }
    proof {
        assert(chars@.take(chars.len() as int) == chars@);
    }
    out
}

fn append(out: &mut Vec<char>, tail: &[char])
    ensures
        final(out)@ == old(out)@ + tail@,
{
    let ghost start = out@;
    let mut i: usize = 0;
    while i < tail.len()
        invariant
            i <= tail.len(),
            out@ == start + tail@.take(i as int),
        decreases tail.len() - i,
    {
        out.push(tail[i]);
        i = i + 1;
        proof {
            assert(tail@.take(i as int) == tail@.take(i - 1).push(tail@[i - 1]));
            assert(start + tail@.take(i as int) =~= (start + tail@.take(i - 1)).push(tail@[i - 1]));
        }
    }
    proof {
        assert(tail@.take(tail.len() as int) == tail@);
    }
}

/// The stem of an exported page file, such as `0001_cover` for the first page.
pub fn export_stem(index: usize, label: &str) -> (stem: String)
    requires
        index < usize::MAX,
    ensures
        stem@ == spec_export_stem(index as nat, label@),
{
    let chars = chars_of(label);
    let t = trimmed(chars.as_slice());
    let mut end = t.len();
    proof {
        assert(t@.take(t@.len() as int) == t@);
    }
    while end > 0 && (t[end - 1] == '.' || is_whitespace(t[end - 1]))
        invariant
            end <= t.len(),
            trim_end_dots(t@) == trim_end_dots(t@.take(end as int)),
        decreases end,
    {
        proof {
            assert(t@.take(end as int).drop_last() == t@.take(end - 1));
        }
        end = end - 1;
    }
    let ghost cut = t@.take(end as int);
    proof {
        assert(trim_end_dots(cut) == cut);
        assert(cut.take(end as int) == cut);
    }
    let mut dot = end;
    let mut found = false;
    let mut k = end;
    while k > 0
        invariant
            k <= end <= t.len(),
            dot <= end,
            cut == t@.take(end as int),
            !found ==> last_dot(cut) == last_dot(cut.take(k as int)),
            found ==> last_dot(cut) == Some(dot as int),
            found ==> k == 0,
        decreases k,
    {
        proof {
            assert(cut.take(k as int).drop_last() == cut.take(k - 1));
            assert(cut.take(k as int).last() == t@[k - 1]);
        }
        if t[k - 1] == '.' {
            dot = k - 1;
            found = true;
            k = 0;
        } else {
            k = k - 1;
        }
    }
    proof {
        assert(cut.take(0) == Seq::<char>::empty());
    }
    let kept = if found {
        dot
    } else {
        end
    };
    let mut base: Vec<char> = Vec::new();
    let mut i: usize = 0;
    while i < kept
        invariant
            i <= kept <= end <= t.len(),
            base@ == t@.take(i as int),
        decreases kept - i,
    {
        base.push(t[i]);
        i = i + 1;
        proof {
            assert(t@.take(i as int) == t@.take(i - 1).push(t@[i - 1]));
        }
    }
    proof {
        assert(base@ == without_extension(cut));
    }
    let cleaned = replaced(base.as_slice());
    let mut out = padded_decimal((index + 1) as u64, 4);
    out.push('_');
    if cleaned.len() == 0 {
        let page = literal(&['p', 'a', 'g', 'e']);
        append(&mut out, page.as_slice());
    } else {
        append(&mut out, cleaned.as_slice());
    }
    string_from(out.as_slice())
}

/// The stem of a translation package file name.
pub fn safe_file_stem(value: &str) -> (stem: String)
    ensures
        stem@ == spec_safe_file_stem(value@),
{
    let chars = chars_of(value);
    let t = trimmed(chars.as_slice());
    let cleaned = replaced(t.as_slice());
    if cleaned.len() == 0 {
        let fallback = literal(&['k', 'o', 'h', 'a', 'r', 'u']);
        string_from(fallback.as_slice())
    } else {
        string_from(cleaned.as_slice())
    }
}

/// An output path component that cannot leave the audit directory.
pub fn safe_component(value: &str) -> (component: String)
    ensures
        component@ == spec_safe_component(value@),
{
    let chars = chars_of(value);
    let mut out: Vec<char> = Vec::new();
    let mut i: usize = 0;
    while i < chars.len()
        invariant
            i <= chars.len(),
            out@ == chars@.take(i as int).map_values(
                |ch: char| if is_component_char(ch) { ch } else { '_' },
            ),
        decreases chars.len() - i,
    {
        let c = chars[i];
        let keep = is_alnum(c) || c == '-' || c == '_' || c == '.';
        out.push(if keep { c } else { '_' });
        i = i + 1;
        proof {
            assert(chars@.take(i as int) == chars@.take(i - 1).push(c));
            assert(chars@.take(i as int).map_values(
                |ch: char| if is_component_char(ch) { ch } else { '_' },
            ) =~= chars@.take(i - 1).map_values(
                |ch: char| if is_component_char(ch) { ch } else { '_' },
            ).push(if is_component_char(c) { c } else { '_' }));
        }
    }
    proof {
        assert(chars@.take(chars.len() as int) == chars@);
    }
    let dots = (out.len() == 1 && out[0] == '.') || (out.len() == 2 && out[0] == '.' && out[1]
        == '.');
    proof {
        if out@.len() == 1 && out@[0] == '.' {
            assert(out@ == seq!['.']);
        }
        if out@.len() == 2 && out@[0] == '.' && out@[1] == '.' {
            assert(out@ == seq!['.', '.']);
        }
    }
    if out.len() == 0 || dots {
        let fallback = literal(&['o', 'u', 't', 'p', 'u', 't']);
        string_from(fallback.as_slice())
    } else {
        string_from(out.as_slice())
    }
}

/// Exported files sort in page order: for the first 9999 pages the stem begins
/// with the one-based page number in exactly four digits, thousands first, and
/// an underscore, so the page at `index` is numbered `index + 1`.
pub proof fn lemma_export_stem_numbers_pages(index: nat, label: Seq<char>)
    requires
        index < 9999,
    ensures
        ({
            let stem = spec_export_stem(index, label);
            let n = index + 1;
            &&& stem.len() > 5
            &&& stem[0] == digit_char(n / 1000)
            &&& stem[1] == digit_char((n / 100) % 10)
            &&& stem[2] == digit_char((n / 10) % 10)
            &&& stem[3] == digit_char(n % 10)
            &&& stem[4] == '_'
        }),
{
    let n = index + 1;
    reveal_with_fuel(decimal, 5);
    let d = decimal(n);
    let p = zero_pad(d, 4);
    if n < 10 {
        assert(d == seq![digit_char(n)]);
    } else if n < 100 {
        assert(d == seq![digit_char(n / 10), digit_char(n % 10)]);
    } else if n < 1000 {
        assert(decimal(n / 10) == seq![digit_char(n / 100), digit_char((n / 10) % 10)]);
        assert(d == seq![digit_char(n / 100), digit_char((n / 10) % 10), digit_char(n % 10)]);
    } else {
        assert(decimal(n / 100) == seq![digit_char(n / 1000), digit_char((n / 100) % 10)]);
        assert(decimal(n / 10) == seq![digit_char(n / 1000), digit_char((n / 100) % 10), digit_char((n / 10) % 10)]);
    }
    assert(p.len() == 4);
    assert(p[0] == digit_char(n / 1000));
    assert(p[1] == digit_char((n / 100) % 10));
    assert(p[2] == digit_char((n / 10) % 10));
    assert(p[3] == digit_char(n % 10));
}

/// An output component never leaves the directory it is joined to: it is not
/// empty, not `.` or `..`, and holds only ASCII letters, digits, `-`, `_` and
/// `.`, so no path separator.
pub proof fn lemma_safe_component_stays_inside(value: Seq<char>)
    ensures
        spec_safe_component(value).len() > 0,
        spec_safe_component(value) != seq!['.'],
        spec_safe_component(value) != seq!['.', '.'],
        forall|i: int|
            0 <= i < spec_safe_component(value).len() ==> is_component_char(
                #[trigger] spec_safe_component(value)[i],
            ),
{
    let output = seq!['o', 'u', 't', 'p', 'u', 't'];
    let c = value.map_values(|ch: char| if is_component_char(ch) { ch } else { '_' });
    if c.len() == 0 || c == seq!['.'] || c == seq!['.', '.'] {
        assert(spec_safe_component(value) == output);
        assert(output.len() == 6);
        assert(output != seq!['.']);
        assert(output != seq!['.', '.']);
    } else {
        assert forall|i: int| 0 <= i < c.len() implies is_component_char(#[trigger] c[i]) by {}
    }
}

} // verus!
