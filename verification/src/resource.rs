//! Files the browser UI requests from the bundled resource directory: which
//! relative path a request names, and the MIME type it is served with.
use vstd::prelude::*;
use vstd::utf8::{decode_utf8, encode_utf8, valid_utf8};
use crate::text::{chars_eq, chars_of, string_from};

verus! {

/// The value of an ASCII hexadecimal digit.
pub open spec fn hex_value(b: u8) -> Option<u8> {
    if 48 <= b && b <= 57 {
        Some((b - 48) as u8)
    } else if 97 <= b && b <= 102 {
        Some((b - 87) as u8)
    } else if 65 <= b && b <= 70 {
        Some((b - 55) as u8)
    } else {
        None
    }
}

/// Percent-decoding: every `%` followed by two hexadecimal digits becomes the
/// byte they spell; every other byte is kept.
pub open spec fn percent_decode(bytes: Seq<u8>) -> Seq<u8>
    decreases bytes.len(),
{
    if bytes.len() == 0 {
        Seq::empty()
    } else if bytes[0] == 37 && bytes.len() >= 3 && hex_value(bytes[1]) is Some && hex_value(
        bytes[2],
    ) is Some {
        seq![(hex_value(bytes[1])->0 * 16 + hex_value(bytes[2])->0) as u8] + percent_decode(
            bytes.skip(3),
        )
    } else {
        seq![bytes[0]] + percent_decode(bytes.drop_first())
    }
}

/// Percent-decodes `input` and reads the bytes as UTF-8.
///
/// Calls `percent_encoding::percent_decode_str(input).decode_utf8()`. Claimed:
/// the result is the UTF-8 text of the percent-decoded bytes of `input`, and
/// `None` exactly when those bytes are not valid UTF-8.
#[verifier::external_body]
fn percent_decode_utf8(input: &str) -> (r: Option<String>)
    ensures
        r is Some <==> valid_utf8(percent_decode(encode_utf8(input@))),
        r matches Some(s) ==> s@ == decode_utf8(percent_decode(encode_utf8(input@))),
{
    percent_encoding::percent_decode_str(input).decode_utf8().ok().map(|text| text.into_owned())
}

/// `s` without its leading `/` characters.
pub open spec fn trim_leading_slashes(s: Seq<char>) -> Seq<char>
    decreases s.len(),
{
    if s.len() > 0 && s[0] == '/' {
        trim_leading_slashes(s.drop_first())
    } else {
        s
    }
}

/// A path separator: `/`, and on Windows also `\`.
pub open spec fn is_separator(c: char, windows: bool) -> bool {
    c == '/' || (windows && c == '\\')
}

/// A `..` component: two dots between separators or the ends of the path.
pub open spec fn parent_component_at(s: Seq<char>, i: int, windows: bool) -> bool {
    &&& 0 <= i && i + 2 <= s.len()
    &&& s[i] == '.' && s[i + 1] == '.'
    &&& (i == 0 || is_separator(s[i - 1], windows))
    &&& (i + 2 == s.len() || is_separator(s[i + 2], windows))
}

/// An ASCII letter.
pub open spec fn is_ascii_letter(c: char) -> bool {
    ('a' <= c && c <= 'z') || ('A' <= c && c <= 'Z')
}

/// On Windows, a path that starts with a root (`\`, which also opens every
/// UNC and verbatim prefix) or with a drive prefix such as `C:`.
pub open spec fn rooted_or_prefixed(s: Seq<char>, windows: bool) -> bool {
    windows && s.len() > 0 && (s[0] == '\\' || (s.len() >= 2 && is_ascii_letter(s[0]) && s[1]
        == ':'))
}

/// The relative path a request names, as characters, as the file system path of
/// the host reads it (`windows` says whether it is Windows): leading slashes are
/// dropped, a path with a `..` component, a root or a drive prefix is refused,
/// and the empty path names `index.html`.
pub open spec fn request_relative_path(decoded: Seq<char>, windows: bool) -> Option<Seq<char>> {
    let relative = trim_leading_slashes(decoded);
    if rooted_or_prefixed(relative, windows) || exists|i: int|
        #[trigger] parent_component_at(relative, i, windows) {
        None
    } else if relative.len() == 0 {
        Some(seq!['i', 'n', 'd', 'e', 'x', '.', 'h', 't', 'm', 'l'])
    } else {
        Some(relative)
    }
}

fn separator(c: char, windows: bool) -> (b: bool)
    ensures
        b == is_separator(c, windows),
{
    c == '/' || (windows && c == '\\')
}

fn ascii_letter(c: char) -> (b: bool)
    ensures
        b == is_ascii_letter(c),
{
    ('a' <= c && c <= 'z') || ('A' <= c && c <= 'Z')
}

/// The file a UI request path names, relative to the resource root: the path is
/// percent-decoded (refused when that is not UTF-8), stripped of leading slashes,
/// refused when it holds a `..` component, a root or a drive prefix, and
/// `index.html` when empty. `windows` says whether the host is Windows, where `\`
/// separates components too.
pub fn resolve_request_path(request_path: &str, windows: bool) -> (r: Option<String>)
    ensures
        !valid_utf8(percent_decode(encode_utf8(request_path@))) ==> r is None,
        valid_utf8(percent_decode(encode_utf8(request_path@))) ==> match (
            r,
            request_relative_path(
                decode_utf8(percent_decode(encode_utf8(request_path@))),
                windows,
            ),
        ) {
            (Some(s), Some(t)) => s@ == t,
            (None, None) => true,
            _ => false,
        },
{
    let decoded = match percent_decode_utf8(request_path) {
        Some(text) => text,
        None => return None,
    };
    let chars = chars_of(decoded.as_str());
    assert(chars@ == decode_utf8(percent_decode(encode_utf8(request_path@))));
    let mut start: usize = 0;
    proof {
        assert(chars@.skip(0) == chars@);
    }
    while start < chars.len() && chars[start] == '/'
        invariant
            start <= chars.len(),
            trim_leading_slashes(chars@) == trim_leading_slashes(chars@.skip(start as int)),
        decreases chars.len() - start,
    {
        proof {
            assert(chars@.skip(start as int).drop_first() == chars@.skip(start + 1));
        }
        start = start + 1;
    }
    let ghost relative = chars@.skip(start as int);
    proof {
        assert(chars@.skip(0) == chars@) by {
        }
        assert(trim_leading_slashes(relative) == relative);
        assert(trim_leading_slashes(chars@) == relative);
    }
    let n = chars.len();
    if windows && start < n && (chars[start] == '\\' || (n - start >= 2 && ascii_letter(
        chars[start],
    ) && chars[start + 1] == ':')) {
        proof {
            assert(relative[0] == chars@[start as int]);
            assert(rooted_or_prefixed(relative, windows));
        }
        return None;
    }
    proof {
        if rooted_or_prefixed(relative, windows) {
            assert(relative[0] == chars@[start as int]);
            assert(relative[1] == chars@[start + 1]);
        }
        assert(!rooted_or_prefixed(relative, windows));
    }
    let mut i = start;
    while i < n
        invariant
            start <= i <= n == chars.len(),
            relative == chars@.skip(start as int),
            trim_leading_slashes(chars@) == relative,
            chars@ == decode_utf8(percent_decode(encode_utf8(request_path@))),
            !rooted_or_prefixed(relative, windows),
            forall|k: int| 0 <= k < i - start ==> !parent_component_at(relative, k, windows),
        decreases n - i,
    {
        let at_start = i == start || separator(chars[i - 1], windows);
        let at_end = n - i == 2 || (n - i > 2 && separator(chars[i + 2], windows));
        if n - i >= 2 && chars[i] == '.' && chars[i + 1] == '.' && at_start && at_end {
            proof {
                assert(parent_component_at(relative, i - start, windows));
                assert(trim_leading_slashes(chars@) == relative);
                assert(request_relative_path(chars@, windows) is None);
            }
            return None;
        }
        proof {
            assert(!parent_component_at(relative, i - start, windows));
        }
        i = i + 1;
    }
    proof {
        assert forall|k: int| !#[trigger] parent_component_at(relative, k, windows) by {
            if 0 <= k && k + 2 <= relative.len() {
                assert(k < n - start);
            }
        }
    }
    if start == n {
        let index = ['i', 'n', 'd', 'e', 'x', '.', 'h', 't', 'm', 'l'];
        return Some(string_from(&index));
    }
    let mut rel: Vec<char> = Vec::new();
    let mut j = start;
    while j < n
        invariant
            start <= j <= n == chars.len(),
            rel@ == chars@.subrange(start as int, j as int),
        decreases n - j,
    {
        rel.push(chars[j]);
        j = j + 1;
    }
    proof {
        assert(rel@ == relative);
    }
    Some(string_from(rel.as_slice()))
}

/// The MIME type a UI resource is served with, by its file extension (matched
/// exactly, so upper-case extensions fall back to `application/octet-stream`).
pub open spec fn spec_mime_type(extension: Option<Seq<char>>) -> Seq<char> {
    match extension {
        Some(e) => if e == "html"@ {
            "text/html"@
        } else if e == "css"@ {
            "text/css"@
        } else if e == "js"@ || e == "mjs"@ {
            "application/javascript"@
        } else if e == "json"@ {
            "application/json"@
        } else if e == "wasm"@ {
            "application/wasm"@
        } else if e == "png"@ {
            "image/png"@
        } else if e == "jpg"@ || e == "jpeg"@ {
            "image/jpeg"@
        } else if e == "webp"@ {
            "image/webp"@
        } else if e == "svg"@ {
            "image/svg+xml"@
        } else if e == "ico"@ {
            "image/x-icon"@
        } else if e == "woff"@ {
            "font/woff"@
        } else if e == "woff2"@ {
            "font/woff2"@
        } else if e == "ttf"@ {
            "font/ttf"@
        } else if e == "otf"@ {
            "font/otf"@
        } else {
            "application/octet-stream"@
        },
        None => "application/octet-stream"@,
    }
}

/// The UI's resources are served with the type their extension names: `js`
/// and `mjs` as JavaScript, and so on through the list; anything else, an
/// extension in another letter case or no extension at all, as
/// `application/octet-stream`. Scripts are served as JavaScript exactly when
/// their extension is `js` or `mjs`.
pub proof fn lemma_mime_types_by_extension(e: Seq<char>)
    ensures
        spec_mime_type(Some("html"@)) == "text/html"@,
        spec_mime_type(Some("css"@)) == "text/css"@,
        spec_mime_type(Some("js"@)) == "application/javascript"@,
        spec_mime_type(Some("mjs"@)) == "application/javascript"@,
        spec_mime_type(Some("json"@)) == "application/json"@,
        spec_mime_type(Some("wasm"@)) == "application/wasm"@,
        spec_mime_type(Some("png"@)) == "image/png"@,
        spec_mime_type(Some("jpg"@)) == "image/jpeg"@,
        spec_mime_type(Some("jpeg"@)) == "image/jpeg"@,
        spec_mime_type(Some("webp"@)) == "image/webp"@,
        spec_mime_type(Some("svg"@)) == "image/svg+xml"@,
        spec_mime_type(Some("ico"@)) == "image/x-icon"@,
        spec_mime_type(Some("woff"@)) == "font/woff"@,
        spec_mime_type(Some("woff2"@)) == "font/woff2"@,
        spec_mime_type(Some("ttf"@)) == "font/ttf"@,
        spec_mime_type(Some("otf"@)) == "font/otf"@,
        !(e == "html"@ || e == "css"@ || e == "js"@ || e == "mjs"@ || e == "json"@ || e == "wasm"@ || e == "png"@ || e == "jpg"@ || e == "jpeg"@ || e == "webp"@ || e == "svg"@ || e == "ico"@ || e == "woff"@ || e == "woff2"@ || e == "ttf"@ || e == "otf"@) ==> spec_mime_type(Some(e)) == "application/octet-stream"@,
        spec_mime_type(Some(e)) == "application/javascript"@ <==> (e == "js"@ || e == "mjs"@),
        spec_mime_type(None) == "application/octet-stream"@,
{
    reveal_strlit("application/javascript");
    reveal_strlit("application/json");
    reveal_strlit("application/octet-stream");
    reveal_strlit("application/wasm");
    reveal_strlit("css");
    reveal_strlit("font/otf");
    reveal_strlit("font/ttf");
    reveal_strlit("font/woff");
    reveal_strlit("font/woff2");
    reveal_strlit("html");
    reveal_strlit("ico");
    reveal_strlit("image/jpeg");
    reveal_strlit("image/png");
    reveal_strlit("image/svg+xml");
    reveal_strlit("image/webp");
    reveal_strlit("image/x-icon");
    reveal_strlit("jpeg");
    reveal_strlit("jpg");
    reveal_strlit("js");
    reveal_strlit("json");
    reveal_strlit("mjs");
    reveal_strlit("otf");
    reveal_strlit("png");
    reveal_strlit("svg");
    reveal_strlit("text/css");
    reveal_strlit("text/html");
    reveal_strlit("ttf");
    reveal_strlit("wasm");
    reveal_strlit("webp");
    reveal_strlit("woff");
    reveal_strlit("woff2");
    assert("application/json"@[12] != "application/wasm"@[12]);
    assert("css"@[0] != "ico"@[0]);
    assert("css"@[0] != "jpg"@[0]);
    assert("css"@[0] != "mjs"@[0]);
    assert("css"@[0] != "otf"@[0]);
    assert("css"@[0] != "png"@[0]);
    assert("css"@[0] != "svg"@[0]);
    assert("css"@[0] != "ttf"@[0]);
    assert("font/otf"@[5] != "font/ttf"@[5]);
    assert("font/otf"@[0] != "text/css"@[0]);
    assert("font/ttf"@[0] != "text/css"@[0]);
    assert("font/woff"@[0] != "image/png"@[0]);
    assert("font/woff"@[0] != "text/html"@[0]);
    assert("font/woff2"@[0] != "image/jpeg"@[0]);
    assert("font/woff2"@[0] != "image/webp"@[0]);
    assert("html"@[0] != "jpeg"@[0]);
    assert("html"@[0] != "json"@[0]);
    assert("html"@[0] != "wasm"@[0]);
    assert("html"@[0] != "webp"@[0]);
    assert("html"@[0] != "woff"@[0]);
    assert("ico"@[0] != "jpg"@[0]);
    assert("ico"@[0] != "mjs"@[0]);
    assert("ico"@[0] != "otf"@[0]);
    assert("ico"@[0] != "png"@[0]);
    assert("ico"@[0] != "svg"@[0]);
    assert("ico"@[0] != "ttf"@[0]);
    assert("image/jpeg"@[6] != "image/webp"@[6]);
    assert("image/png"@[0] != "text/html"@[0]);
    assert("jpeg"@[1] != "json"@[1]);
    assert("jpeg"@[0] != "wasm"@[0]);
    assert("jpeg"@[0] != "webp"@[0]);
    assert("jpeg"@[0] != "woff"@[0]);
    assert("jpg"@[0] != "mjs"@[0]);
    assert("jpg"@[0] != "otf"@[0]);
    assert("jpg"@[0] != "png"@[0]);
    assert("jpg"@[0] != "svg"@[0]);
    assert("jpg"@[0] != "ttf"@[0]);
    assert("json"@[0] != "wasm"@[0]);
    assert("json"@[0] != "webp"@[0]);
    assert("json"@[0] != "woff"@[0]);
    assert("mjs"@[0] != "otf"@[0]);
    assert("mjs"@[0] != "png"@[0]);
    assert("mjs"@[0] != "svg"@[0]);
    assert("mjs"@[0] != "ttf"@[0]);
    assert("otf"@[0] != "png"@[0]);
    assert("otf"@[0] != "svg"@[0]);
    assert("otf"@[0] != "ttf"@[0]);
    assert("png"@[0] != "svg"@[0]);
    assert("png"@[0] != "ttf"@[0]);
    assert("svg"@[0] != "ttf"@[0]);
    assert("wasm"@[1] != "webp"@[1]);
    assert("wasm"@[1] != "woff"@[1]);
    assert("webp"@[1] != "woff"@[1]);
    assert("application/javascript"@.len() == 22);
    assert("application/json"@.len() == 16);
    assert("application/octet-stream"@.len() == 24);
    assert("application/wasm"@.len() == 16);
    assert("css"@.len() == 3);
    assert("font/otf"@.len() == 8);
    assert("font/ttf"@.len() == 8);
    assert("font/woff"@.len() == 9);
    assert("font/woff2"@.len() == 10);
    assert("html"@.len() == 4);
    assert("ico"@.len() == 3);
    assert("image/jpeg"@.len() == 10);
    assert("image/png"@.len() == 9);
    assert("image/svg+xml"@.len() == 13);
    assert("image/webp"@.len() == 10);
    assert("image/x-icon"@.len() == 12);
    assert("jpeg"@.len() == 4);
    assert("jpg"@.len() == 3);
    assert("js"@.len() == 2);
    assert("json"@.len() == 4);
    assert("mjs"@.len() == 3);
    assert("otf"@.len() == 3);
    assert("png"@.len() == 3);
    assert("svg"@.len() == 3);
    assert("text/css"@.len() == 8);
    assert("text/html"@.len() == 9);
    assert("ttf"@.len() == 3);
    assert("wasm"@.len() == 4);
    assert("webp"@.len() == 4);
    assert("woff"@.len() == 4);
    assert("woff2"@.len() == 5);
}

fn is_word(e: &[char], word: &str) -> (b: bool)
    ensures
        b == (e@ == word@),
{
    let w = chars_of(word);
    chars_eq(e, w.as_slice())
}

/// The MIME type a UI resource is served with.
pub fn mime_type(extension: Option<&str>) -> (m: &'static str)
    ensures
        m@ == spec_mime_type(
            match extension {
                Some(e) => Some(e@),
                None => None,
            },
        ),
{
    let e = match extension {
        Some(e) => chars_of(e),
        None => return "application/octet-stream",
    };
    let e = e.as_slice();
    if is_word(e, "html") {
        "text/html"
    } else if is_word(e, "css") {
        "text/css"
    } else if is_word(e, "js") || is_word(e, "mjs") {
        "application/javascript"
    } else if is_word(e, "json") {
        "application/json"
    } else if is_word(e, "wasm") {
        "application/wasm"
    } else if is_word(e, "png") {
        "image/png"
    } else if is_word(e, "jpg") || is_word(e, "jpeg") {
        "image/jpeg"
    } else if is_word(e, "webp") {
        "image/webp"
    } else if is_word(e, "svg") {
        "image/svg+xml"
    } else if is_word(e, "ico") {
        "image/x-icon"
    } else if is_word(e, "woff") {
        "font/woff"
    } else if is_word(e, "woff2") {
        "font/woff2"
    } else if is_word(e, "ttf") {
        "font/ttf"
    } else if is_word(e, "otf") {
        "font/otf"
    } else {
        "application/octet-stream"
    }
}

/// A request path that is served never leaves the resource root: the relative
/// path it resolves to holds no `..` component, and on Windows no root and no
/// drive prefix.
pub proof fn lemma_served_paths_stay_inside(decoded: Seq<char>, windows: bool)
    ensures
        request_relative_path(decoded, windows) matches Some(path) ==> !rooted_or_prefixed(
            path,
            windows,
        ) && !exists|i: int| #[trigger] parent_component_at(path, i, windows),
{
    let relative = trim_leading_slashes(decoded);
    if !rooted_or_prefixed(relative, windows) && !(exists|i: int|
        #[trigger] parent_component_at(relative, i, windows)) && relative.len() == 0 {
        let index = seq!['i', 'n', 'd', 'e', 'x', '.', 'h', 't', 'm', 'l'];
        assert forall|i: int| !#[trigger] parent_component_at(index, i, windows) by {
            if 0 <= i && i + 2 <= index.len() && index[i] == '.' {
                assert(i == 5);
                assert(index[i + 1] == 'h');
            }
        }
        assert(!rooted_or_prefixed(index, windows));
    }
}

} // verus!
