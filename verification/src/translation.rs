//! Context translation packages: the ordered source strings of a project
//! exported for an outside translator, and the checks a returned package must
//! pass before its translations are applied in page and text order.
use vstd::prelude::*;
use crate::text::{chars_of, string_from, trim, trimmed};

verus! {

/// Format name written into every package.
pub const FORMAT: &'static str = "dev.koharu.context-translation";

/// Package format version.
pub const FORMAT_VERSION: u32 = 2;

/// Largest package file accepted for import, in bytes.
pub const MAX_PACKAGE_BYTES: u64 = 67108864;

/// The instruction's text before the target language.
pub const INSTRUCTION_HEAD: &'static str = "Read every page first. Replace only the strings in pages with ";

/// The instruction's text after the target language.
pub const INSTRUCTION_TAIL: &'static str = " translations, preserve the exact nested array shape and order, and return the complete JSON only.";

/// A package as exchanged with the translator.
#[derive(Clone, Debug, PartialEq, Eq)]
pub struct TranslationPackage {
    pub format: String,
    pub format_version: u32,
    pub target_language: String,
    pub instruction: String,
    pub pages: Vec<Vec<String>>,
}

/// What an export wrote.
#[derive(Clone, Copy, Debug, PartialEq, Eq, Structural)]
pub struct TranslationPackageSummary {
    pub page_count: u32,
    pub segment_count: u32,
}

/// What an import applied.
#[derive(Clone, Copy, Debug, PartialEq, Eq, Structural)]
pub struct TranslationImportResult {
    pub page_count: u32,
    pub translation_count: u32,
}

/// One translation to apply to a text layer.
#[derive(Clone, Debug, PartialEq, Eq)]
pub struct TranslationUpdate<L> {
    pub layer: L,
    pub text: String,
    pub language: String,
}

/// Why a package could not be built, read or applied.
#[derive(Clone, Debug, PartialEq, Eq)]
pub enum PackageError {
    NoText,
    FenceWithoutBody,
    FenceNotClosed,
    Unsupported,
    TargetMismatch { package: String, current: String },
    MissingPages,
    SegmentShape,
    EmptyTranslation,
    TooManyPages,
    TooManySegments,
    TooLarge,
}

impl PackageError {
    /// The message shown to the user.
    pub fn message(&self) -> (m: String)
        ensures
            self is NoText ==> m@
                == "the project has no OCR text; run detection and OCR before exporting"@,
            self is FenceWithoutBody ==> m@ == "the translation package Markdown fence has no body"@,
            self is FenceNotClosed ==> m@ == "the translation package Markdown fence is not closed"@,
            self is Unsupported ==> m@ == "unsupported Koharu translation package format or version"@,
            self matches PackageError::TargetMismatch { package, current } ==> m@
                == "translation package targets "@ + package@
                + ", but the current translation target is "@ + current@,
            self is MissingPages ==> m@ == "translation package does not contain every project page"@,
            self is SegmentShape ==> m@ == "translation package has missing or extra text segments"@,
            self is EmptyTranslation ==> m@ == "every text segment must have a translation"@,
            self is TooManyPages ==> m@ == "too many package pages"@,
            self is TooManySegments ==> m@ == "too many package segments"@,
            self is TooLarge ==> m@ == "translation package is larger than 64 MiB"@,
    {
        match self {
            PackageError::NoText =>
                "the project has no OCR text; run detection and OCR before exporting".to_owned(),
            PackageError::FenceWithoutBody =>
                "the translation package Markdown fence has no body".to_owned(),
            PackageError::FenceNotClosed =>
                "the translation package Markdown fence is not closed".to_owned(),
            PackageError::Unsupported =>
                "unsupported Koharu translation package format or version".to_owned(),
            PackageError::TargetMismatch { package, current } => {
                let mut m = "translation package targets ".to_owned();
                m.append(package.as_str());
                m.append(", but the current translation target is ");
                m.append(current.as_str());
                m
            },
            PackageError::MissingPages =>
                "translation package does not contain every project page".to_owned(),
            PackageError::SegmentShape =>
                "translation package has missing or extra text segments".to_owned(),
            PackageError::EmptyTranslation =>
                "every text segment must have a translation".to_owned(),
            PackageError::TooManyPages => "too many package pages".to_owned(),
            PackageError::TooManySegments => "too many package segments".to_owned(),
            PackageError::TooLarge => "translation package is larger than 64 MiB".to_owned(),
        }
    }
}

/// The characters of each string.
pub open spec fn page_view(page: Seq<String>) -> Seq<Seq<char>> {
    page.map_values(|s: String| s@)
}

/// The characters of every string, page by page.
pub open spec fn pages_view(pages: Seq<Vec<String>>) -> Seq<Seq<Seq<char>>> {
    pages.map_values(|p: Vec<String>| page_view(p@))
}

/// Whether some page holds a string.
pub open spec fn any_text(pages: Seq<Seq<Seq<char>>>) -> bool {
    exists|i: int| 0 <= i < pages.len() && #[trigger] pages[i].len() > 0
}

/// Builds the package for export from the project's source strings, page by page.
pub fn build_package(target_language: &str, pages: Vec<Vec<String>>) -> (r: Result<
    TranslationPackage,
    PackageError,
>)
    ensures
        !any_text(pages_view(pages@)) ==> r == Err::<TranslationPackage, PackageError>(
            PackageError::NoText,
        ),
        any_text(pages_view(pages@)) ==> (r matches Ok(p) && p.format@ == FORMAT@
            && p.format_version == FORMAT_VERSION && p.target_language@ == target_language@
            && p.instruction@ == INSTRUCTION_HEAD@ + target_language@ + INSTRUCTION_TAIL@
            && p.pages@ == pages@),
{
    let mut i: usize = 0;
    let mut found = false;
    while i < pages.len()
        invariant
            i <= pages.len(),
            found <==> exists|k: int| 0 <= k < i && #[trigger] pages@[k]@.len() > 0,
        decreases pages.len() - i,
    {
        if pages[i].len() > 0 {
            found = true;
        }
        i = i + 1;
    }
    proof {
        assert forall|k: int| 0 <= k < pages@.len() implies #[trigger] pages_view(pages@)[k].len()
            == pages@[k]@.len() by {}
        if found {
            let k = choose|k: int| 0 <= k < pages@.len() && #[trigger] pages@[k]@.len() > 0;
            assert(pages_view(pages@)[k].len() > 0);
        }
    }
    if !found {
        return Err(PackageError::NoText);
    }
    let mut instruction = INSTRUCTION_HEAD.to_owned();
    instruction.append(target_language);
    instruction.append(INSTRUCTION_TAIL);
    Ok(
        TranslationPackage {
            format: FORMAT.to_owned(),
            format_version: FORMAT_VERSION,
            target_language: target_language.to_owned(),
            instruction,
            pages,
        },
    )
}

/// Number of strings over all pages.
pub open spec fn segment_total(pages: Seq<Vec<String>>) -> int
    decreases pages.len(),
{
    if pages.len() == 0 {
        0
    } else {
        segment_total(pages.drop_last()) + pages.last()@.len()
    }
}

proof fn lemma_segment_total_grows(pages: Seq<Vec<String>>, i: int)
    requires
        0 <= i <= pages.len(),
    ensures
        segment_total(pages.take(i)) <= segment_total(pages),
    decreases pages.len() - i,
{
    if i < pages.len() {
        lemma_segment_total_grows(pages, i + 1);
        assert(pages.take(i + 1).drop_last() == pages.take(i));
    } else {
        assert(pages.take(i) == pages);
    }
}

/// Counts the pages and strings of a package; both must fit in `u32`.
pub fn package_summary(package: &TranslationPackage) -> (r: Result<
    TranslationPackageSummary,
    PackageError,
>)
    ensures
        package.pages@.len() > u32::MAX ==> r == Err::<TranslationPackageSummary, PackageError>(
            PackageError::TooManyPages,
        ),
        package.pages@.len() <= u32::MAX && segment_total(package.pages@) > u32::MAX ==> r
            == Err::<TranslationPackageSummary, PackageError>(PackageError::TooManySegments),
        package.pages@.len() <= u32::MAX && segment_total(package.pages@) <= u32::MAX ==> r
            == Ok::<TranslationPackageSummary, PackageError>(
            TranslationPackageSummary {
                page_count: package.pages@.len() as u32,
                segment_count: segment_total(package.pages@) as u32,
            },
        ),
{
    if package.pages.len() > 4294967295 {
        return Err(PackageError::TooManyPages);
    }
    let mut total: u64 = 0;
    let mut i: usize = 0;
    while i < package.pages.len()
        invariant
            i <= package.pages@.len(),
            package.pages@.len() <= u32::MAX,
            total == segment_total(package.pages@.take(i as int)),
            total <= u32::MAX,
        decreases package.pages.len() - i,
    {
        proof {
            assert(package.pages@.take(i + 1).drop_last() == package.pages@.take(i as int));
        }
        let len = package.pages[i].len() as u64;
        if len > 4294967295 - total {
            proof {
                lemma_segment_total_grows(package.pages@, i + 1);
            }
            return Err(PackageError::TooManySegments);
        }
        total = total + len;
        i = i + 1;
    }
    proof {
        assert(package.pages@.take(package.pages@.len() as int) == package.pages@);
    }
    Ok(
        TranslationPackageSummary {
            page_count: package.pages.len() as u32,
            segment_count: total as u32,
        },
    )
}

/// What an update says: the layer, the text and the language.
pub open spec fn update_view<L>(u: TranslationUpdate<L>) -> (L, Seq<char>, Seq<char>) {
    (u.layer, u.text@, u.language@)
}

/// The updates of one page: each expected layer with the string at its position.
pub open spec fn page_updates<L>(layers: Seq<L>, texts: Seq<String>, language: Seq<char>) -> Seq<
    (L, Seq<char>, Seq<char>),
> {
    Seq::new(layers.len(), |k: int| (layers[k], texts[k]@, language))
}

/// All updates of a package, page by page and in text order within a page.
pub open spec fn package_updates<L>(
    expected: Seq<Vec<L>>,
    pages: Seq<Vec<String>>,
    language: Seq<char>,
) -> Seq<(L, Seq<char>, Seq<char>)>
    decreases expected.len(),
{
    if expected.len() == 0 {
        Seq::empty()
    } else {
        package_updates(expected.drop_last(), pages.take(expected.len() - 1), language)
            + page_updates(expected.last()@, pages[expected.len() - 1]@, language)
    }
}

/// What is wrong with page `j` of a package, if anything: a different number of
/// strings than the project page has text segments, or a blank string.
pub open spec fn page_fault<L>(expected: Seq<L>, page: Seq<String>) -> Option<PackageError> {
    if page.len() != expected.len() {
        Some(PackageError::SegmentShape)
    } else if exists|k: int| 0 <= k < page.len() && trim(#[trigger] page[k]@).len() == 0 {
        Some(PackageError::EmptyTranslation)
    } else {
        None
    }
}

/// Page `j` is the first faulty page.
pub open spec fn first_fault<L>(expected: Seq<Vec<L>>, pages: Seq<Vec<String>>, j: int) -> bool {
    &&& 0 <= j < expected.len()
    &&& page_fault(expected[j]@, pages[j]@) is Some
    &&& forall|k: int| 0 <= k < j ==> #[trigger] page_fault(expected[k]@, pages[k]@) is None
}

fn is_blank(s: &String) -> (b: bool)
    ensures
        b == (trim(s@).len() == 0),
{
    let chars = chars_of(s.as_str());
    let t = trimmed(chars.as_slice());
    t.len() == 0
}

/// Checks a returned package and lists its translations, page by page in text
/// order, each paired with the text layer at the same position.
#[verifier::loop_isolation(false)]
pub fn validate_package<L: Copy>(
    package: &TranslationPackage,
    target_language: &str,
    expected: &[Vec<L>],
) -> (r: Result<Vec<TranslationUpdate<L>>, PackageError>)
    ensures
        (package.format@ != FORMAT@ || package.format_version != FORMAT_VERSION) ==> r
            == Err::<Vec<TranslationUpdate<L>>, PackageError>(PackageError::Unsupported),
        (package.format@ == FORMAT@ && package.format_version == FORMAT_VERSION
            && package.target_language@ != target_language@) ==> (r matches Err(
            PackageError::TargetMismatch { package: p, current: c },
        ) && p@ == package.target_language@ && c@ == target_language@),
        (package.format@ == FORMAT@ && package.format_version == FORMAT_VERSION
            && package.target_language@ == target_language@ && package.pages@.len()
            != expected@.len()) ==> r == Err::<Vec<TranslationUpdate<L>>, PackageError>(
            PackageError::MissingPages,
        ),
        (package.format@ == FORMAT@ && package.format_version == FORMAT_VERSION
            && package.target_language@ == target_language@ && package.pages@.len()
            == expected@.len()) ==> match r {
            Ok(updates) => (forall|j: int|
                0 <= j < expected@.len() ==> #[trigger] page_fault(
                    expected@[j]@,
                    package.pages@[j]@,
                ) is None) && updates@.map_values(|u: TranslationUpdate<L>| update_view(u))
                == package_updates(expected@, package.pages@, target_language@),
            Err(e) => exists|j: int|
                first_fault(expected@, package.pages@, j) && page_fault(
                    expected@[j]@,
                    package.pages@[j]@,
                ) == Some(e),
        },
{
    let format = FORMAT.to_owned();
    if package.format != format || package.format_version != FORMAT_VERSION {
        return Err(PackageError::Unsupported);
    }
    let target = target_language.to_owned();
    if package.target_language != target {
        return Err(
            PackageError::TargetMismatch {
                package: package.target_language.clone(),
                current: target,
            },
        );
    }
    if package.pages.len() != expected.len() {
        return Err(PackageError::MissingPages);
    }
    let mut updates: Vec<TranslationUpdate<L>> = Vec::new();
    let mut j: usize = 0;
    while j < expected.len()
        invariant
            j <= expected@.len(),
            package.pages@.len() == expected@.len(),
            forall|k: int| 0 <= k < j ==> #[trigger] page_fault(expected@[k]@, package.pages@[k]@) is None,
            updates@.map_values(|u: TranslationUpdate<L>| update_view(u)) == package_updates(
                expected@.take(j as int),
                package.pages@.take(j as int),
                target_language@,
            ),
        decreases expected.len() - j,
    {
        let layers = &expected[j];
        let texts = &package.pages[j];
        if texts.len() != layers.len() {
            proof {
                assert(first_fault(expected@, package.pages@, j as int));
            }
            return Err(PackageError::SegmentShape);
        }
        let mut k: usize = 0;
        while k < texts.len()
            invariant
                k <= texts@.len(),
                texts@.len() == layers@.len(),
                forall|m: int| 0 <= m < k ==> trim(#[trigger] texts@[m]@).len() != 0,
            decreases texts.len() - k,
        {
            if is_blank(&texts[k]) {
                proof {
                    assert(page_fault(layers@, texts@) == Some(PackageError::EmptyTranslation));
                    assert(first_fault(expected@, package.pages@, j as int));
                }
                return Err(PackageError::EmptyTranslation);
            }
            k = k + 1;
        }
        let ghost before = updates@;
        let mut m: usize = 0;
        while m < texts.len()
            invariant
                m <= texts@.len(),
                texts@.len() == layers@.len(),
                updates@.len() == before.len() + m,
                updates@.subrange(0, before.len() as int) == before,
                forall|q: int| 0 <= q < m ==> update_view(#[trigger] updates@[before.len() + q]) == (
                    layers@[q],
                    texts@[q]@,
                    target_language@,
                ),
            decreases texts.len() - m,
        {
            updates.push(
                TranslationUpdate {
                    layer: layers[m],
                    text: texts[m].clone(),
                    language: target_language.to_owned(),
                },
            );
            m = m + 1;
        }
        proof {
            assert(expected@.take(j + 1).drop_last() == expected@.take(j as int));
            assert(package.pages@.take(j + 1).take(j as int) == package.pages@.take(j as int));
            let now = updates@.map_values(|u: TranslationUpdate<L>| update_view(u));
            let was = before.map_values(|u: TranslationUpdate<L>| update_view(u));
            let page = page_updates(layers@, texts@, target_language@);
            assert(now.len() == was.len() + page.len());
            assert forall|q: int| 0 <= q < now.len() implies #[trigger] now[q] == (was + page)[q] by {
                if q < was.len() {
                    assert(updates@[q] == before[q]);
                } else {
                    let r = q - was.len();
                    assert(update_view(updates@[before.len() + r]) == (
                        layers@[r],
                        texts@[r]@,
                        target_language@,
                    ));
                }
            }
            assert(now =~= was + page);
        }
        j = j + 1;
    }
    proof {
        assert(expected@.take(expected@.len() as int) == expected@);
        assert(package.pages@.take(expected@.len() as int) == package.pages@);
    }
    Ok(updates)
}

/// The index of the first `c` in `s`, if any.
pub open spec fn first_index_of(s: Seq<char>, c: char) -> Option<int>
    decreases s.len(),
{
    if s.len() == 0 {
        None
    } else if s[0] == c {
        Some(0)
    } else {
        match first_index_of(s.drop_first(), c) {
            Some(i) => Some(i + 1),
            None => None,
        }
    }
}

/// The three backticks of a Markdown code fence.
pub open spec fn fence() -> Seq<char> {
    seq!['`', '`', '`']
}

/// The JSON text of a package as a translator may return it: trimmed, and taken
/// out of a Markdown code fence when it starts with one. The fence's first line
/// (its info string) is dropped and the text must end with the closing fence.
pub open spec fn fence_body(contents: Seq<char>) -> Result<Seq<char>, PackageError> {
    let t = trim(contents);
    if t.len() >= 3 && t.take(3) == fence() {
        let rest = t.skip(3);
        match first_index_of(rest, '\n') {
            Some(nl) => {
                let body = rest.skip(nl + 1);
                if body.len() >= 3 && body.skip(body.len() - 3) == fence() {
                    Ok(trim(body.take(body.len() - 3)))
                } else {
                    Err(PackageError::FenceNotClosed)
                }
            },
            None => Err(PackageError::FenceWithoutBody),
        }
    } else {
        Ok(t)
    }
}

proof fn lemma_first_index_of(s: Seq<char>, c: char, i: int)
    requires
        0 <= i <= s.len(),
        forall|k: int| 0 <= k < i ==> s[k] != c,
    ensures
        first_index_of(s, c) == match first_index_of(s.skip(i), c) {
            Some(j) => Some(j + i),
            None => None::<int>,
        },
    decreases i,
{
    if i > 0 {
        lemma_first_index_of(s.drop_first(), c, i - 1);
        assert(s.drop_first().skip(i - 1) == s.skip(i));
    } else {
        assert(s.skip(0) == s);
    }
}

fn copy_range(s: &[char], from: usize, to: usize) -> (out: Vec<char>)
    requires
        from <= to <= s.len(),
    ensures
        out@ == s@.subrange(from as int, to as int),
{
    let mut out: Vec<char> = Vec::new();
    let mut i = from;
    while i < to
        invariant
            from <= i <= to <= s.len(),
            out@ == s@.subrange(from as int, i as int),
        decreases to - i,
    {
        out.push(s[i]);
        i = i + 1;
    }
    out
}

/// Takes the package JSON out of what a translator returned.
pub fn strip_package_fence(contents: &str) -> (r: Result<String, PackageError>)
    ensures
        match (r, fence_body(contents@)) {
            (Ok(s), Ok(t)) => s@ == t,
            (Err(e), Err(f)) => e == f,
            _ => false,
        },
{
    let chars = chars_of(contents);
    let t = trimmed(chars.as_slice());
    if !(t.len() >= 3 && t[0] == '`' && t[1] == '`' && t[2] == '`') {
        proof {
            if t@.len() >= 3 && t@.take(3) == fence() {
                assert(t@.take(3)[0] == '`' && t@.take(3)[1] == '`' && t@.take(3)[2] == '`');
            }
        }
        return Ok(string_from(t.as_slice()));
    }
    proof {
        assert(t@.take(3) =~= fence());
    }
    let ghost rest = t@.skip(3);
    let mut i: usize = 3;
    while i < t.len() && t[i] != '\n'
        invariant
            3 <= i <= t.len(),
            rest == t@.skip(3),
            forall|k: int| 0 <= k < i - 3 ==> rest[k] != '\n',
        decreases t.len() - i,
    {
        i = i + 1;
    }
    proof {
        lemma_first_index_of(rest, '\n', i - 3);
        assert(rest.skip(i - 3) == t@.skip(i as int));
        if i < t.len() {
            assert(t@.skip(i as int)[0] == '\n');
        }
    }
    if i == t.len() {
        assert(t@.skip(i as int).len() == 0);
        return Err(PackageError::FenceWithoutBody);
    }
    let ghost body = rest.skip(i - 3 + 1);
    proof {
        assert(body == t@.skip(i + 1));
    }
    let n = t.len();
    if !(n - (i + 1) >= 3 && t[n - 3] == '`' && t[n - 2] == '`' && t[n - 1] == '`') {
        proof {
            if body.len() >= 3 && body.skip(body.len() - 3) == fence() {
                let tail = body.skip(body.len() - 3);
                assert(tail[0] == t@[n - 3] && tail[1] == t@[n - 2] && tail[2] == t@[n - 1]);
            }
        }
        return Err(PackageError::FenceNotClosed);
    }
    proof {
        assert(body.skip(body.len() - 3) =~= fence());
        assert(body.take(body.len() - 3) == t@.subrange(i + 1, n - 3));
    }
    let inner = copy_range(t.as_slice(), i + 1, n - 3);
    let json = trimmed(inner.as_slice());
    Ok(string_from(json.as_slice()))
}

/// A returned package whose pages have, page by page, as many strings as the
/// project pages have text segments, yields one update per segment: as many as
/// the package summary counts.
pub proof fn lemma_updates_cover_every_segment<L>(
    expected: Seq<Vec<L>>,
    pages: Seq<Vec<String>>,
    language: Seq<char>,
)
    requires
        expected.len() == pages.len(),
        forall|j: int| 0 <= j < pages.len() ==> #[trigger] pages[j]@.len() == expected[j]@.len(),
    ensures
        package_updates(expected, pages, language).len() == segment_total(pages),
    decreases expected.len(),
{
    if expected.len() > 0 {
        let n = expected.len() - 1;
        let rest = pages.take(n);
        assert(rest =~= pages.drop_last());
        assert forall|j: int| 0 <= j < rest.len() implies #[trigger] rest[j]@.len()
            == expected.drop_last()[j]@.len() by {
            assert(rest[j] == pages[j]);
        }
        lemma_updates_cover_every_segment(expected.drop_last(), rest, language);
        assert(pages[n]@.len() == expected[n]@.len());
    }
}

} // verus!
