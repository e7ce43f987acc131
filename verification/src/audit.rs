//! The typesetting audit: which input files it reads, the translation fixture it
//! fills in, and the checks that tie a fixture to the input pages and their text.
use vstd::prelude::*;
use crate::text::{chars_eq, chars_of, lower_seq, lowered, trim, trimmed};

verus! {

/// Format name of a translation fixture.
pub const FIXTURE_FORMAT: &'static str = "dev.koharu.typesetting-audit";

/// Translation fixture version.
pub const FIXTURE_VERSION: u32 = 1;

/// Format name of an audit report.
pub const REPORT_FORMAT: &'static str = "dev.koharu.typesetting-audit-report";

/// Audit report version.
pub const REPORT_VERSION: u32 = 1;

/// Translations for the audit: per language, per page, the text of each segment.
#[derive(Clone, Debug, PartialEq, Eq)]
pub struct TranslationFixture {
    pub format: String,
    pub format_version: u32,
    pub inputs: Vec<String>,
    /// Languages in ascending order, each with its pages of translations.
    pub translations: Vec<(String, Vec<Vec<String>>)>,
}

/// Why a fixture or template was refused.
#[derive(Clone, Debug, PartialEq, Eq)]
pub enum AuditError {
    Unsupported,
    InputsMismatch,
    NoLanguages,
    MissingPages { language: String },
    TranslationCount { language: String, page: usize },
    EmptyTranslation { language: String, page: usize },
    DuplicateLanguage,
    NoTemplateLanguage,
    NoImages,
    NoFileName { path: String },
    DuplicateInputName,
}

/// The fault of one language's pages against the expected segment counts, with
/// one-based page numbers.
#[derive(Clone, Copy, PartialEq, Eq, Structural)]
pub enum PagesFault {
    MissingPages,
    TranslationCount(nat),
    EmptyTranslation(nat),
}

/// What is wrong with one translated page, if anything.
pub open spec fn page_fault(expected: nat, page: Seq<String>, number: nat) -> Option<PagesFault> {
    if page.len() != expected {
        Some(PagesFault::TranslationCount(number))
    } else if exists|k: int| 0 <= k < page.len() && trim(#[trigger] page[k]@).len() == 0 {
        Some(PagesFault::EmptyTranslation(number))
    } else {
        None
    }
}

/// What is wrong with one language's pages, if anything: the first fault in page order.
pub open spec fn pages_fault(pages: Seq<Vec<String>>, counts: Seq<usize>) -> Option<PagesFault> {
    if pages.len() != counts.len() {
        Some(PagesFault::MissingPages)
    } else if exists|j: int|
        0 <= j < pages.len() && #[trigger] page_fault(counts[j] as nat, pages[j]@, (j + 1) as nat)
            is Some {
        let j = choose|j: int|
            0 <= j < pages.len() && page_fault(counts[j] as nat, pages[j]@, (j + 1) as nat) is Some
                && forall|k: int|
                0 <= k < j ==> page_fault(counts[k] as nat, pages[k]@, (k + 1) as nat) is None;
        page_fault(counts[j] as nat, pages[j]@, (j + 1) as nat)
    } else {
        None
    }
}

/// The error a language's fault is reported as.
pub open spec fn fault_error(language: Seq<char>, fault: PagesFault, e: AuditError) -> bool {
    match fault {
        PagesFault::MissingPages => e matches AuditError::MissingPages { language: l } && l@
            == language,
        PagesFault::TranslationCount(n) => e matches AuditError::TranslationCount {
            language: l,
            page: p,
        } && l@ == language && p == n,
        PagesFault::EmptyTranslation(n) => e matches AuditError::EmptyTranslation {
            language: l,
            page: p,
        } && l@ == language && p == n,
    }
}

fn is_blank(s: &String) -> (b: bool)
    ensures
        b == (trim(s@).len() == 0),
{
    let chars = chars_of(s.as_str());
    let t = trimmed(chars.as_slice());
    t.len() == 0
}

proof fn lemma_first_page_fault(pages: Seq<Vec<String>>, counts: Seq<usize>, j: int)
    requires
        pages.len() == counts.len(),
        0 <= j < pages.len(),
        page_fault(counts[j] as nat, pages[j]@, (j + 1) as nat) is Some,
        forall|k: int|
            0 <= k < j ==> #[trigger] page_fault(counts[k] as nat, pages[k]@, (k + 1) as nat) is None,
    ensures
        pages_fault(pages, counts) == page_fault(counts[j] as nat, pages[j]@, (j + 1) as nat),
{
    let c = choose|c: int|
        0 <= c < pages.len() && page_fault(counts[c] as nat, pages[c]@, (c + 1) as nat) is Some
            && forall|k: int|
            0 <= k < c ==> page_fault(counts[k] as nat, pages[k]@, (k + 1) as nat) is None;
    if c < j {
        assert(page_fault(counts[c] as nat, pages[c]@, (c + 1) as nat) is None);
    } else if c > j {
        assert(page_fault(counts[j] as nat, pages[j]@, (j + 1) as nat) is None);
    }
}

/// Checks one language's pages against the expected segment counts.
#[verifier::loop_isolation(false)]
fn check_pages(language: &String, pages: &Vec<Vec<String>>, counts: &[usize]) -> (r: Result<
    (),
    AuditError,
>)
    ensures
        pages_fault(pages@, counts@) is None ==> r is Ok,
        pages_fault(pages@, counts@) matches Some(f) ==> (r matches Err(e) && fault_error(
            language@,
            f,
            e,
        )),
{
    if pages.len() != counts.len() {
        return Err(AuditError::MissingPages { language: language.clone() });
    }
    let mut j: usize = 0;
    while j < pages.len()
        invariant
            j <= pages@.len(),
            pages@.len() == counts@.len(),
            forall|k: int|
                0 <= k < j ==> #[trigger] page_fault(counts@[k] as nat, pages@[k]@, (k + 1) as nat)
                    is None,
        decreases pages.len() - j,
    {
        let page = &pages[j];
        if page.len() != counts[j] {
            proof {
                lemma_first_page_fault(pages@, counts@, j as int);
            }
            return Err(AuditError::TranslationCount { language: language.clone(), page: j + 1 });
        }
        let mut k: usize = 0;
        while k < page.len()
            invariant
                k <= page@.len(),
                forall|m: int| 0 <= m < k ==> trim(#[trigger] page@[m]@).len() != 0,
            decreases page.len() - k,
        {
            if is_blank(&page[k]) {
                proof {
                    assert(page_fault(counts@[j as int] as nat, page@, (j + 1) as nat) is Some);
                    lemma_first_page_fault(pages@, counts@, j as int);
                }
                return Err(
                    AuditError::EmptyTranslation { language: language.clone(), page: j + 1 },
                );
            }
            k = k + 1;
        }
        proof {
            assert(page_fault(counts@[j as int] as nat, page@, (j + 1) as nat) is None);
        }
        j = j + 1;
    }
    Ok(())
}

/// The pages hold the same strings.
pub open spec fn same_pages(a: Seq<Vec<String>>, b: Seq<Vec<String>>) -> bool {
    a.len() == b.len() && forall|i: int|
        0 <= i < a.len() ==> #[trigger] a[i]@.len() == b[i]@.len() && forall|k: int|
            0 <= k < a[i]@.len() ==> #[trigger] a[i]@[k]@ == b[i]@[k]@
}

fn clone_strings(s: &Vec<String>) -> (out: Vec<String>)
    ensures
        out@.len() == s@.len(),
        forall|k: int| 0 <= k < s@.len() ==> #[trigger] out@[k]@ == s@[k]@,
{
    let mut out: Vec<String> = Vec::new();
    let mut i: usize = 0;
    while i < s.len()
        invariant
            i <= s@.len(),
            out@.len() == i,
            forall|k: int| 0 <= k < i ==> #[trigger] out@[k]@ == s@[k]@,
        decreases s.len() - i,
    {
        out.push(s[i].clone());
        i = i + 1;
    }
    out
}

fn clone_pages(pages: &[Vec<String>]) -> (out: Vec<Vec<String>>)
    ensures
        same_pages(out@, pages@),
{
    let mut out: Vec<Vec<String>> = Vec::new();
    let mut i: usize = 0;
    while i < pages.len()
        invariant
            i <= pages@.len(),
            out@.len() == i,
            forall|a: int|
                0 <= a < i ==> #[trigger] out@[a]@.len() == pages@[a]@.len() && forall|k: int|
                    0 <= k < out@[a]@.len() ==> #[trigger] out@[a]@[k]@ == pages@[a]@[k]@,
        decreases pages.len() - i,
    {
        out.push(clone_strings(&pages[i]));
        i = i + 1;
    }
    out
}

/// Whether two string lists are equal.
fn strings_eq(a: &Vec<String>, b: &[String]) -> (r: bool)
    ensures
        r == (a@.len() == b@.len() && forall|i: int| 0 <= i < a@.len() ==> #[trigger] a@[i]@
            == b@[i]@),
{
    if a.len() != b.len() {
        return false;
    }
    let mut i: usize = 0;
    while i < a.len()
        invariant
            i <= a@.len(),
            a@.len() == b@.len(),
            forall|k: int| 0 <= k < i ==> #[trigger] a@[k]@ == b@[k]@,
        decreases a.len() - i,
    {
        if a[i] != b[i] {
            return false;
        }
        i = i + 1;
    }
    true
}

/// The fixture's inputs name the sorted input pages one for one.
pub open spec fn inputs_match(inputs: Seq<String>, names: Seq<String>) -> bool {
    inputs.len() == names.len() && forall|i: int| 0 <= i < inputs.len() ==> #[trigger] inputs[i]@
        == names[i]@
}

/// Language `l` is the first one whose pages are faulty.
pub open spec fn first_faulty_language(
    translations: Seq<(String, Vec<Vec<String>>)>,
    counts: Seq<usize>,
    l: int,
) -> bool {
    &&& 0 <= l < translations.len()
    &&& pages_fault(translations[l].1@, counts) is Some
    &&& forall|m: int| 0 <= m < l ==> #[trigger] pages_fault(translations[m].1@, counts) is None
}

/// Checks a fixture against the sorted input page names and the number of text
/// segments on each page: the format and version, the input names, at least one
/// language, and for every language one page of non-blank translations per input
/// page with one translation per segment.
#[verifier::loop_isolation(false)]
pub fn validate_fixture(fixture: &TranslationFixture, names: &[String], counts: &[usize]) -> (r:
    Result<(), AuditError>)
    ensures
        (fixture.format@ != FIXTURE_FORMAT@ || fixture.format_version != FIXTURE_VERSION) ==> r
            == Err::<(), AuditError>(AuditError::Unsupported),
        (fixture.format@ == FIXTURE_FORMAT@ && fixture.format_version == FIXTURE_VERSION
            && !inputs_match(fixture.inputs@, names@)) ==> r == Err::<(), AuditError>(
            AuditError::InputsMismatch,
        ),
        (fixture.format@ == FIXTURE_FORMAT@ && fixture.format_version == FIXTURE_VERSION
            && inputs_match(fixture.inputs@, names@) && fixture.translations@.len() == 0) ==> r
            == Err::<(), AuditError>(AuditError::NoLanguages),
        (fixture.format@ == FIXTURE_FORMAT@ && fixture.format_version == FIXTURE_VERSION
            && inputs_match(fixture.inputs@, names@) && fixture.translations@.len() > 0) ==> match r {
            Ok(()) => forall|l: int|
                0 <= l < fixture.translations@.len() ==> #[trigger] pages_fault(
                    fixture.translations@[l].1@,
                    counts@,
                ) is None,
            Err(e) => exists|l: int|
                first_faulty_language(fixture.translations@, counts@, l) && fault_error(
                    fixture.translations@[l].0@,
                    pages_fault(fixture.translations@[l].1@, counts@)->0,
                    e,
                ),
        },
{
    let format = FIXTURE_FORMAT.to_owned();
    if fixture.format != format || fixture.format_version != FIXTURE_VERSION {
        return Err(AuditError::Unsupported);
    }
    if !strings_eq(&fixture.inputs, names) {
        return Err(AuditError::InputsMismatch);
    }
    if fixture.translations.len() == 0 {
        return Err(AuditError::NoLanguages);
    }
    let mut l: usize = 0;
    while l < fixture.translations.len()
        invariant
            l <= fixture.translations@.len(),
            forall|m: int|
                0 <= m < l ==> #[trigger] pages_fault(fixture.translations@[m].1@, counts@) is None,
        decreases fixture.translations.len() - l,
    {
        let (language, pages) = &fixture.translations[l];
        match check_pages(language, pages, counts) {
            Err(e) => {
                proof {
                    assert(first_faulty_language(fixture.translations@, counts@, l as int));
                }
                return Err(e);
            },
            Ok(()) => {},
        }
        l = l + 1;
    }
    Ok(())
}

/// Builds the fixture template: for every language, in the order given, the
/// source text of every segment, page by page. Languages must be distinct and
/// there must be at least one.
pub fn translation_template(languages: &[String], names: &[String], sources: &[Vec<String>]) -> (r:
    Result<TranslationFixture, AuditError>)
    ensures
        languages@.len() == 0 ==> r == Err::<TranslationFixture, AuditError>(
            AuditError::NoTemplateLanguage,
        ),
        (exists|i: int, j: int|
            0 <= i < j < languages@.len() && #[trigger] languages@[i]@ == #[trigger] languages@[j]@)
            ==> r == Err::<TranslationFixture, AuditError>(AuditError::DuplicateLanguage),
        r matches Ok(f) ==> f.format@ == FIXTURE_FORMAT@ && f.format_version == FIXTURE_VERSION
            && f.inputs@.len() == names@.len() && (forall|i: int|
            0 <= i < names@.len() ==> #[trigger] f.inputs@[i]@ == names@[i]@)
            && f.translations@.len() == languages@.len() && (forall|i: int|
            0 <= i < languages@.len() ==> #[trigger] f.translations@[i].0@ == languages@[i]@
                && same_pages(f.translations@[i].1@, sources@)),
        (languages@.len() > 0 && forall|i: int, j: int|
            0 <= i < j < languages@.len() ==> #[trigger] languages@[i]@ != #[trigger] languages@[j]@)
            ==> r is Ok,
{
    let mut translations: Vec<(String, Vec<Vec<String>>)> = Vec::new();
    let mut i: usize = 0;
    while i < languages.len()
        invariant
            i <= languages@.len(),
            forall|a: int, b: int| 0 <= a < b < i ==> #[trigger] languages@[a]@ != #[trigger] languages@[b]@,
            translations@.len() == i,
            forall|a: int|
                0 <= a < i ==> #[trigger] translations@[a].0@ == languages@[a]@
                    && same_pages(translations@[a].1@, sources@),
        decreases languages.len() - i,
    {
        let mut j: usize = 0;
        while j < i
            invariant
                j <= i < languages@.len(),
                forall|a: int| 0 <= a < j ==> languages@[a]@ != languages@[i as int]@,
            decreases i - j,
        {
            if languages[j] == languages[i] {
                proof {
                    assert(languages@[j as int]@ == languages@[i as int]@);
                }
                return Err(AuditError::DuplicateLanguage);
            }
            j = j + 1;
        }
        let pages = clone_pages(sources);
        translations.push((languages[i].clone(), pages));
        i = i + 1;
    }
    if translations.len() == 0 {
        return Err(AuditError::NoTemplateLanguage);
    }
    let mut inputs: Vec<String> = Vec::new();
    let mut n: usize = 0;
    while n < names.len()
        invariant
            n <= names@.len(),
            inputs@.len() == n,
            forall|a: int| 0 <= a < n ==> #[trigger] inputs@[a]@ == names@[a]@,
        decreases names.len() - n,
    {
        inputs.push(names[n].clone());
        n = n + 1;
    }
    Ok(
        TranslationFixture {
            format: FIXTURE_FORMAT.to_owned(),
            format_version: FIXTURE_VERSION,
            inputs,
            translations,
        },
    )
}

/// Whether a file extension names an image the application imports, in any
/// ASCII letter case.
pub open spec fn spec_is_supported_image(extension: Option<Seq<char>>) -> bool {
    match extension {
        Some(e) => {
            let l = lower_seq(e);
            l == "png"@ || l == "jpg"@ || l == "jpeg"@ || l == "webp"@
        },
        None => false,
    }
}

fn is_word(e: &[char], word: &str) -> (b: bool)
    ensures
        b == (e@ == word@),
{
    let w = chars_of(word);
    chars_eq(e, w.as_slice())
}

/// Whether a file extension names an image the application imports.
pub fn is_supported_image(extension: Option<&str>) -> (b: bool)
    ensures
        b == spec_is_supported_image(
            match extension {
                Some(e) => Some(e@),
                None => None,
            },
        ),
{
    match extension {
        None => false,
        Some(e) => {
            let chars = chars_of(e);
            let l = lowered(chars.as_slice());
            let l = l.as_slice();
            is_word(l, "png") || is_word(l, "jpg") || is_word(l, "jpeg") || is_word(l, "webp")
        },
    }
}

/// The media type an input image is described with: JPEG and WebP by extension
/// in any letter case, PNG otherwise.
pub open spec fn spec_image_media_type(extension: Option<Seq<char>>) -> Seq<char> {
    match extension {
        Some(e) => {
            let l = lower_seq(e);
            if l == "jpg"@ || l == "jpeg"@ {
                "image/jpeg"@
            } else if l == "webp"@ {
                "image/webp"@
            } else {
                "image/png"@
            }
        },
        None => "image/png"@,
    }
}

/// The media type an input image is described with.
pub fn image_media_type(extension: Option<&str>) -> (m: &'static str)
    ensures
        m@ == spec_image_media_type(
            match extension {
                Some(e) => Some(e@),
                None => None,
            },
        ),
{
    match extension {
        None => "image/png",
        Some(e) => {
            let chars = chars_of(e);
            let l = lowered(chars.as_slice());
            let l = l.as_slice();
            if is_word(l, "jpg") || is_word(l, "jpeg") {
                "image/jpeg"
            } else if is_word(l, "webp") {
                "image/webp"
            } else {
                "image/png"
            }
        },
    }
}

/// Every supported input image is described by its own media type, whatever
/// the letter case of its extension: `jpg` and `jpeg` as JPEG, `webp` as WebP and
/// `png` as PNG; a supported image is described as PNG exactly when its
/// extension is `png`. A file without an extension is described as PNG.
pub proof fn lemma_supported_images_have_their_own_media_type(e: Seq<char>)
    ensures
        lower_seq(e) == "jpg"@ ==> spec_image_media_type(Some(e)) == "image/jpeg"@,
        lower_seq(e) == "jpeg"@ ==> spec_image_media_type(Some(e)) == "image/jpeg"@,
        lower_seq(e) == "webp"@ ==> spec_image_media_type(Some(e)) == "image/webp"@,
        lower_seq(e) == "png"@ ==> spec_image_media_type(Some(e)) == "image/png"@,
        spec_is_supported_image(Some(e)) ==> (spec_image_media_type(Some(e)) == "image/png"@
            <==> lower_seq(e) == "png"@),
        spec_is_supported_image(Some(e)) ==> (spec_image_media_type(Some(e)) == "image/jpeg"@
            <==> (lower_seq(e) == "jpg"@ || lower_seq(e) == "jpeg"@)),
        spec_image_media_type(None) == "image/png"@,
        spec_is_supported_image(Some(e)) <==> (lower_seq(e) == "png"@ || lower_seq(e) == "jpg"@
            || lower_seq(e) == "jpeg"@ || lower_seq(e) == "webp"@),
        !spec_is_supported_image(None),
{
    reveal_strlit("jpg");
    reveal_strlit("jpeg");
    reveal_strlit("webp");
    reveal_strlit("png");
    reveal_strlit("image/jpeg");
    reveal_strlit("image/webp");
    reveal_strlit("image/png");
    assert("image/jpeg"@[6] != "image/webp"@[6]);
    assert("jpeg"@[0] != "webp"@[0]);
    assert("jpg"@[0] != "png"@[0]);
    assert("jpg"@.len() == 3);
    assert("jpeg"@.len() == 4);
    assert("webp"@.len() == 4);
    assert("png"@.len() == 3);
    assert("image/jpeg"@.len() == 10);
    assert("image/webp"@.len() == 10);
    assert("image/png"@.len() == 9);
}

/// The template's pages pass the fixture checks for the same pages when every
/// source text is non-blank: each language has one page per input page, one
/// string per segment, and no blank string.
pub proof fn lemma_template_pages_pass(pages: Seq<Vec<String>>, sources: Seq<Vec<String>>, counts: Seq<usize>)
    requires
        same_pages(pages, sources),
        counts.len() == sources.len(),
        forall|j: int| 0 <= j < sources.len() ==> #[trigger] counts[j] == sources[j]@.len(),
        forall|j: int, k: int|
            0 <= j < sources.len() && 0 <= k < sources[j]@.len() ==> trim(#[trigger] sources[j]@[k]@).len() > 0,
    ensures
        pages_fault(pages, counts) is None,
{
    assert forall|j: int| 0 <= j < pages.len() implies #[trigger] page_fault(
        counts[j] as nat,
        pages[j]@,
        (j + 1) as nat,
    ) is None by {
        assert(pages[j]@.len() == sources[j]@.len());
        assert forall|k: int| 0 <= k < pages[j]@.len() implies trim(#[trigger] pages[j]@[k]@).len() > 0 by {
            assert(pages[j]@[k]@ == sources[j]@[k]@);
        }
    }
}

/// A file the audit may read: its path and, as the file system path splits it,
/// its file name and extension.
#[derive(Clone, Debug, PartialEq, Eq)]
pub struct InputCandidate {
    pub path: String,
    pub file_name: Option<String>,
    pub extension: Option<String>,
}

/// The characters of an optional string.
pub open spec fn opt_chars(s: Option<String>) -> Option<Seq<char>> {
    match s {
        Some(t) => Some(t@),
        None => None,
    }
}

/// The candidate is an image the audit reads.
pub open spec fn candidate_supported(c: InputCandidate) -> bool {
    spec_is_supported_image(opt_chars(c.extension))
}

/// The supported candidates, in the order given.
pub open spec fn supported_inputs(cs: Seq<InputCandidate>) -> Seq<InputCandidate>
    decreases cs.len(),
{
    if cs.len() == 0 {
        cs
    } else if candidate_supported(cs.last()) {
        supported_inputs(cs.drop_last()).push(cs.last())
    } else {
        supported_inputs(cs.drop_last())
    }
}

/// What a candidate is sorted by: its file name, or its whole path without one.
pub open spec fn input_key(c: InputCandidate) -> Seq<char> {
    match c.file_name {
        Some(n) => n@,
        None => c.path@,
    }
}

/// Each candidate's sort key with its position.
pub open spec fn keyed_inputs(cs: Seq<InputCandidate>) -> Seq<(Seq<char>, usize)> {
    Seq::new(cs.len(), |i: int| (input_key(cs[i]), i as usize))
}

/// The keyed entries as `alphanumeric_sort` orders them by their keys.
pub uninterp spec fn natural_order(entries: Seq<(Seq<char>, usize)>) -> Seq<(Seq<char>, usize)>;

/// The entries as characters and positions.
pub open spec fn entries_view(e: Seq<(String, usize)>) -> Seq<(Seq<char>, usize)> {
    e.map_values(|x: (String, usize)| (x.0@, x.1))
}

/// Sorts entries by their keys with `alphanumeric_sort::sort_slice_by_str_key`:
/// digit runs compare by value, and entries with equal keys keep their order.
/// The result is named, is a rearrangement of the entries, and, the sort being
/// stable, keeps entries with equal keys in their order, which their positions
/// (the second components) record; the crate's comparison rules are not restated.
#[verifier::external_body]
pub(crate) fn sort_naturally(entries: Vec<(String, usize)>) -> (sorted: Vec<(String, usize)>)
    requires
        forall|i: int| 0 <= i < entries@.len() ==> #[trigger] entries@[i].1 == i,
    ensures
        entries_view(sorted@) == natural_order(entries_view(entries@)),
        entries_view(sorted@).to_multiset() == entries_view(entries@).to_multiset(),
        forall|a: int, b: int|
            0 <= a < b < sorted@.len() && (#[trigger] sorted@[a]).0@ == (#[trigger] sorted@[b]).0@
                ==> sorted@[a].1 < sorted@[b].1,
{
    let mut entries = entries;
    alphanumeric_sort::sort_slice_by_str_key(&mut entries, |entry| entry.0.as_str());
    entries
}

/// The candidates in natural order of their keys.
pub open spec fn naturally_ordered(s: Seq<InputCandidate>) -> Seq<InputCandidate> {
    let o = natural_order(keyed_inputs(s));
    Seq::new(o.len(), |k: int| s[o[k].1 as int])
}

/// The supported candidates in natural order of their keys.
pub open spec fn ordered_inputs(cs: Seq<InputCandidate>) -> Seq<InputCandidate> {
    naturally_ordered(supported_inputs(cs))
}

/// The candidate at `k` of the ordered list is refused: it has no file name, or
/// an earlier one has the same file name.
pub open spec fn input_fault(o: Seq<InputCandidate>, k: int) -> bool {
    o[k].file_name is None || exists|j: int|
        0 <= j < k && #[trigger] opt_chars(o[j].file_name) == opt_chars(o[k].file_name)
}

/// `k` is the first refused candidate of the ordered list.
pub open spec fn first_input_fault(o: Seq<InputCandidate>, k: int) -> bool {
    &&& 0 <= k < o.len()
    &&& input_fault(o, k)
    &&& forall|j: int| 0 <= j < k ==> !#[trigger] input_fault(o, j)
}

fn copy_opt(s: &Option<String>) -> (r: Option<String>)
    ensures
        opt_chars(r) == opt_chars(*s),
{
    match s {
        Some(t) => Some(t.clone()),
        None => None,
    }
}

pub(crate) fn copy_candidate(c: &InputCandidate) -> (r: InputCandidate)
    ensures
        r.path@ == c.path@,
        opt_chars(r.file_name) == opt_chars(c.file_name),
        opt_chars(r.extension) == opt_chars(c.extension),
{
    InputCandidate {
        path: c.path.clone(),
        file_name: copy_opt(&c.file_name),
        extension: copy_opt(&c.extension),
    }
}

/// The candidates agree on what the spec reads of them.
pub open spec fn same_candidates(a: Seq<InputCandidate>, b: Seq<InputCandidate>) -> bool {
    a.len() == b.len() && forall|i: int|
        0 <= i < a.len() ==> (#[trigger] a[i]).path@ == b[i].path@ && opt_chars(a[i].file_name)
            == opt_chars(b[i].file_name) && opt_chars(a[i].extension) == opt_chars(b[i].extension)
}

proof fn lemma_keyed_same(a: Seq<InputCandidate>, b: Seq<InputCandidate>)
    requires
        same_candidates(a, b),
    ensures
        keyed_inputs(a) == keyed_inputs(b),
{
    assert(keyed_inputs(a) =~= keyed_inputs(b));
}

/// Candidates that agree on what the spec reads of them are refused at the same
/// places.
proof fn lemma_input_faults_same(a: Seq<InputCandidate>, b: Seq<InputCandidate>)
    requires
        same_candidates(a, b),
    ensures
        forall|k: int| 0 <= k < a.len() ==> (#[trigger] input_fault(a, k) <==> input_fault(b, k)),
{
    assert forall|k: int| 0 <= k < a.len() implies (#[trigger] input_fault(a, k) <==> input_fault(b, k)) by {
        assert(opt_chars(a[k].file_name) == opt_chars(b[k].file_name));
        assert(a[k].file_name is None <==> b[k].file_name is None);
        if exists|j: int| 0 <= j < k && #[trigger] opt_chars(a[j].file_name) == opt_chars(a[k].file_name) {
            let j = choose|j: int| 0 <= j < k && #[trigger] opt_chars(a[j].file_name) == opt_chars(a[k].file_name);
            assert(opt_chars(a[j].file_name) == opt_chars(b[j].file_name));
        }
        if exists|j: int| 0 <= j < k && #[trigger] opt_chars(b[j].file_name) == opt_chars(b[k].file_name) {
            let j = choose|j: int| 0 <= j < k && #[trigger] opt_chars(b[j].file_name) == opt_chars(b[k].file_name);
            assert(opt_chars(a[j].file_name) == opt_chars(b[j].file_name));
        }
    }
}

/// Checks the file names of the ordered candidates: the first candidate without a
/// file name, or with the file name of an earlier one, refuses the list; otherwise
/// their paths come back in the same order.
#[verifier::loop_isolation(false)]
pub fn check_input_names(ordered: &Vec<InputCandidate>) -> (r: Result<Vec<String>, AuditError>)
    ensures
        match r {
            Ok(paths) => paths@.len() == ordered@.len() && (forall|k: int|
                0 <= k < paths@.len() ==> #[trigger] paths@[k]@ == ordered@[k].path@) && (forall|k: int|
                0 <= k < ordered@.len() ==> !#[trigger] input_fault(ordered@, k)),
            Err(e) => exists|k: int|
                #[trigger] first_input_fault(ordered@, k) && (if ordered@[k].file_name is None {
                    e matches AuditError::NoFileName { path } && path@ == ordered@[k].path@
                } else {
                    e == AuditError::DuplicateInputName
                }),
        },
{
    let ghost o = ordered@;
    let mut paths: Vec<String> = Vec::new();
    let mut names: Vec<String> = Vec::new();
    let mut k: usize = 0;
    while k < ordered.len()
        invariant
            o == ordered@,
            k <= o.len(),
            paths@.len() == k,
            names@.len() == k,
            forall|m: int| 0 <= m < k ==> #[trigger] paths@[m]@ == o[m].path@,
            forall|m: int| 0 <= m < k ==> opt_chars(o[m].file_name) == Some(#[trigger] names@[m]@),
            forall|m: int| 0 <= m < k ==> !#[trigger] input_fault(o, m),
        decreases o.len() - k,
    {
        let c = &ordered[k];
        let name = match &c.file_name {
            Some(name) => name.clone(),
            None => {
                let path = c.path.clone();
                proof {
                    assert(input_fault(o, k as int));
                    assert(first_input_fault(o, k as int));
                }
                return Err(AuditError::NoFileName { path });
            },
        };
        let mut j: usize = 0;
        while j < k
            invariant
                j <= k,
                k < o.len(),
                names@.len() == k,
                forall|m: int| 0 <= m < j ==> names@[m]@ != name@,
            decreases k - j,
        {
            if names[j] == name {
                proof {
                    assert(opt_chars(o[j as int].file_name) == opt_chars(o[k as int].file_name));
                    assert(input_fault(o, k as int));
                    assert(first_input_fault(o, k as int));
                }
                return Err(AuditError::DuplicateInputName);
            }
            j = j + 1;
        }
        proof {
            assert forall|m: int| 0 <= m < k implies #[trigger] opt_chars(o[m].file_name) != opt_chars(
                o[k as int].file_name,
            ) by {
                assert(names@[m]@ != name@);
            }
            assert(!input_fault(o, k as int));
        }
        paths.push(c.path.clone());
        names.push(name);
        k = k + 1;
    }
    Ok(paths)
}

/// Orders the audit's input images: keeps the candidates that are supported
/// images, sorts them naturally by file name, and refuses an empty list, a
/// candidate without a file name, and two candidates with the same file name,
/// whichever comes first in that order.
pub fn order_inputs(candidates: &Vec<InputCandidate>) -> (r: Result<Vec<String>, AuditError>)
    ensures
        supported_inputs(candidates@).len() == 0 ==> r == Err::<Vec<String>, AuditError>(
            AuditError::NoImages,
        ),
        supported_inputs(candidates@).len() > 0 ==> match r {
            Ok(paths) => paths@.len() == supported_inputs(candidates@).len() && paths@.len()
                == ordered_inputs(candidates@).len() && (forall|k: int|
                0 <= k < paths@.len() ==> #[trigger] paths@[k]@ == ordered_inputs(
                    candidates@,
                )[k].path@) && (forall|k: int|
                0 <= k < paths@.len() ==> !#[trigger] input_fault(ordered_inputs(candidates@), k)),
            Err(e) => exists|k: int|
                #[trigger] first_input_fault(ordered_inputs(candidates@), k) && (if ordered_inputs(
                    candidates@,
                )[k].file_name is None {
                    e matches AuditError::NoFileName { path } && path@ == ordered_inputs(
                        candidates@,
                    )[k].path@
                } else {
                    e == AuditError::DuplicateInputName
                }),
        },
{
    let mut supported: Vec<InputCandidate> = Vec::new();
    let mut i: usize = 0;
    while i < candidates.len()
        invariant
            i <= candidates@.len(),
            same_candidates(supported@, supported_inputs(candidates@.take(i as int))),
        decreases candidates.len() - i,
    {
        proof {
            assert(candidates@.take(i + 1).drop_last() =~= candidates@.take(i as int));
            assert(candidates@.take(i + 1).last() == candidates@[i as int]);
        }
        let ext = match &candidates[i].extension {
            Some(e) => Some(e.as_str()),
            None => None,
        };
        if is_supported_image(ext) {
            supported.push(copy_candidate(&candidates[i]));
        }
        i = i + 1;
    }
    proof {
        assert(candidates@.take(candidates@.len() as int) =~= candidates@);
    }
    let ghost s = supported_inputs(candidates@);
    if supported.len() == 0 {
        return Err(AuditError::NoImages);
    }
    let ordered = natural_candidates(&supported);
    let ghost o = ordered_inputs(candidates@);
    proof {
        lemma_naturally_ordered_same(supported@, s);
        lemma_same_candidates_transitive(ordered@, naturally_ordered(supported@), o);
        lemma_input_faults_same(ordered@, o);
    }
    let r = check_input_names(&ordered);
    let ghost rr = r;
    proof {
        match rr {
            Ok(paths) => {
                assert forall|k: int| 0 <= k < paths@.len() implies #[trigger] paths@[k]@ == o[k].path@ by {
                    assert(paths@[k]@ == ordered@[k].path@);
                }
                assert forall|k: int| 0 <= k < paths@.len() implies !#[trigger] input_fault(o, k) by {
                    assert(!input_fault(ordered@, k));
                }
            },
            Err(e) => {
                let k = choose|k: int| #[trigger] first_input_fault(ordered@, k) && (if ordered@[k].file_name is None {
                    e matches AuditError::NoFileName { path } && path@ == ordered@[k].path@
                } else {
                    e == AuditError::DuplicateInputName
                });
                assert forall|j: int| 0 <= j < k implies !#[trigger] input_fault(o, j) by {
                    assert(!input_fault(ordered@, j));
                }
                assert(input_fault(o, k));
                assert(first_input_fault(o, k));
                assert(opt_chars(ordered@[k].file_name) == opt_chars(o[k].file_name));
            },
        }
    }
    r
}

/// Equal views are equal in turn.
proof fn lemma_same_candidates_transitive(
    a: Seq<InputCandidate>,
    b: Seq<InputCandidate>,
    c: Seq<InputCandidate>,
)
    requires
        same_candidates(a, b),
        same_candidates(b, c),
    ensures
        same_candidates(a, c),
{
    assert forall|i: int| 0 <= i < a.len() implies (#[trigger] a[i]).path@ == c[i].path@ && opt_chars(a[i].file_name)
        == opt_chars(c[i].file_name) && opt_chars(a[i].extension) == opt_chars(c[i].extension) by {
        assert(b[i].path@ == c[i].path@);
    }
}

/// The candidates in natural order of their keys.
#[verifier::loop_isolation(false)]
fn natural_candidates(list: &Vec<InputCandidate>) -> (out: Vec<InputCandidate>)
    ensures
        out@.len() == list@.len(),
        same_candidates(out@, naturally_ordered(list@)),
        forall|k: int|
            0 <= k < natural_order(keyed_inputs(list@)).len() ==> #[trigger] natural_order(
                keyed_inputs(list@),
            )[k].1 < list@.len(),
{
    broadcast use vstd::seq_lib::group_to_multiset_ensures;

    let entries = keyed_entries(list);
    let sorted = sort_naturally(entries);
    let ghost o = naturally_ordered(list@);
    let mut out: Vec<InputCandidate> = Vec::new();
    let mut k: usize = 0;
    while k < sorted.len()
        invariant
            k <= sorted@.len(),
            o.len() == sorted@.len(),
            entries_view(sorted@) == natural_order(keyed_inputs(list@)),
            entries_view(sorted@).to_multiset() == keyed_inputs(list@).to_multiset(),
            out@.len() == k,
            forall|m: int| 0 <= m < k ==> (#[trigger] out@[m]).path@ == o[m].path@ && opt_chars(out@[m].file_name)
                == opt_chars(o[m].file_name) && opt_chars(out@[m].extension) == opt_chars(o[m].extension),
            forall|m: int| 0 <= m < k ==> #[trigger] natural_order(keyed_inputs(list@))[m].1 < list@.len(),
        decreases sorted.len() - k,
    {
        let idx = sorted[k].1;
        proof {
            let x = entries_view(sorted@)[k as int];
            assert(entries_view(sorted@).contains(x));
            assert(entries_view(sorted@).to_multiset().count(x) > 0);
            assert(keyed_inputs(list@).contains(x));
            assert(x.1 == idx);
            assert(idx < list@.len());
        }
        out.push(copy_candidate(&list[idx]));
        k = k + 1;
    }
    proof {
        vstd::seq_lib::to_multiset_len(entries_view(sorted@));
        vstd::seq_lib::to_multiset_len(keyed_inputs(list@));
    }
    out
}

/// Each candidate's sort key with its position, ready for the sort.
#[verifier::loop_isolation(false)]
fn keyed_entries(list: &Vec<InputCandidate>) -> (entries: Vec<(String, usize)>)
    ensures
        entries_view(entries@) == keyed_inputs(list@),
        forall|i: int| 0 <= i < entries@.len() ==> #[trigger] entries@[i].1 == i,
{
    let mut entries: Vec<(String, usize)> = Vec::new();
    let mut n: usize = 0;
    while n < list.len()
        invariant
            n <= list@.len(),
            entries_view(entries@) =~= keyed_inputs(list@).take(n as int),
            forall|i: int| 0 <= i < entries@.len() ==> #[trigger] entries@[i].1 == i,
        decreases list.len() - n,
    {
        let key = match &list[n].file_name {
            Some(name) => name.clone(),
            None => list[n].path.clone(),
        };
        entries.push((key, n));
        n = n + 1;
    }
    proof {
        assert(keyed_inputs(list@).take(list@.len() as int) =~= keyed_inputs(list@));
    }
    entries
}

/// The paths of the candidates in natural order of their keys.
#[verifier::loop_isolation(false)]
pub(crate) fn natural_paths(list: &Vec<InputCandidate>) -> (paths: Vec<String>)
    ensures
        paths@.len() == list@.len(),
        paths@.len() == naturally_ordered(list@).len(),
        forall|k: int| 0 <= k < paths@.len() ==> #[trigger] paths@[k]@ == naturally_ordered(list@)[k].path@,
        forall|k: int|
            0 <= k < natural_order(keyed_inputs(list@)).len() ==> #[trigger] natural_order(
                keyed_inputs(list@),
            )[k].1 < list@.len(),
{
    broadcast use vstd::seq_lib::group_to_multiset_ensures;

    let entries = keyed_entries(list);
    let sorted = sort_naturally(entries);
    let ghost o = naturally_ordered(list@);
    let mut paths: Vec<String> = Vec::new();
    let mut k: usize = 0;
    while k < sorted.len()
        invariant
            k <= sorted@.len(),
            o.len() == sorted@.len(),
            entries_view(sorted@) == natural_order(keyed_inputs(list@)),
            entries_view(sorted@).to_multiset() == keyed_inputs(list@).to_multiset(),
            paths@.len() == k,
            forall|m: int| 0 <= m < k ==> #[trigger] paths@[m]@ == o[m].path@,
            forall|m: int| 0 <= m < k ==> #[trigger] natural_order(keyed_inputs(list@))[m].1 < list@.len(),
        decreases sorted.len() - k,
    {
        let idx = sorted[k].1;
        proof {
            let x = entries_view(sorted@)[k as int];
            assert(entries_view(sorted@).contains(x));
            assert(entries_view(sorted@).to_multiset().count(x) > 0);
            assert(keyed_inputs(list@).contains(x));
            assert(x.1 == idx);
            assert(idx < list@.len());
        }
        paths.push(list[idx].path.clone());
        k = k + 1;
    }
    proof {
        vstd::seq_lib::to_multiset_len(entries_view(sorted@));
        vstd::seq_lib::to_multiset_len(keyed_inputs(list@));
    }
    paths
}

/// Candidates that agree on what the spec reads of them come out in the same
/// natural order, with the same paths.
pub proof fn lemma_naturally_ordered_same(a: Seq<InputCandidate>, b: Seq<InputCandidate>)
    requires
        same_candidates(a, b),
        forall|k: int|
            0 <= k < natural_order(keyed_inputs(a)).len() ==> #[trigger] natural_order(
                keyed_inputs(a),
            )[k].1 < a.len(),
    ensures
        same_candidates(naturally_ordered(a), naturally_ordered(b)),
{
    lemma_keyed_same(a, b);
    let na = naturally_ordered(a);
    let nb = naturally_ordered(b);
    assert forall|k: int| 0 <= k < na.len() implies (#[trigger] na[k]).path@ == nb[k].path@ && opt_chars(
        na[k].file_name,
    ) == opt_chars(nb[k].file_name) && opt_chars(na[k].extension) == opt_chars(nb[k].extension) by {
        let i = natural_order(keyed_inputs(a))[k].1 as int;
        assert(0 <= i < a.len());
    }
}

} // verus!
