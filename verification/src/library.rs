//! The library of projects in one root directory: the directory a project name
//! stands for, which directories hold a project, and the order projects are
//! listed in.
use vstd::prelude::*;
use crate::project::{check_project_name, validate_project_name, ProjectNameError};
use crate::protocol::ProjectSummary;
use crate::text::{chars_of, lower_seq, lowered};

verus! {

/// The extension of a project directory.
pub const PROJECT_EXTENSION: &'static str = "khrproj";

/// The projects under one root directory.
#[derive(Clone, Debug, PartialEq, Eq)]
pub struct ProjectLibrary {
    pub root: String,
}

/// The name of the directory that holds the project `name`.
pub open spec fn directory_name(name: Seq<char>) -> Seq<char> {
    name + seq!['.'] + PROJECT_EXTENSION@
}

impl ProjectLibrary {
    /// The validated name of a project and the name of its directory under the
    /// root: the name followed by `.khrproj`.
    pub fn resolve(&self, name: &str) -> (r: Result<(String, String), ProjectNameError>)
        ensures
            match (r, check_project_name(name@)) {
                (Ok((n, directory)), Ok(t)) => n@ == t && directory@ == directory_name(t),
                (Err(e), Err(f)) => e == f,
                _ => false,
            },
    {
        let name = validate_project_name(name)?;
        let mut directory = name.clone();
        directory.push('.');
        directory.append(PROJECT_EXTENSION);
        Ok((name, directory))
    }
}

/// A directory holds a project when its extension is `khrproj` in any ASCII
/// letter case and it has one of the two state files.
pub open spec fn spec_is_project_directory(extension: Option<Seq<char>>, has_state_file: bool) -> bool {
    has_state_file && match extension {
        Some(e) => lower_seq(e) == PROJECT_EXTENSION@,
        None => false,
    }
}

/// Whether a directory with this extension holds a project.
pub fn is_project_directory(extension: Option<&str>, has_state_file: bool) -> (b: bool)
    ensures
        b == spec_is_project_directory(
            match extension {
                Some(e) => Some(e@),
                None => None,
            },
            has_state_file,
        ),
{
    if !has_state_file {
        return false;
    }
    match extension {
        None => false,
        Some(e) => {
            let chars = chars_of(e);
            let low = lowered(chars.as_slice());
            let wanted = chars_of(PROJECT_EXTENSION);
            crate::text::chars_eq(low.as_slice(), wanted.as_slice())
        },
    }
}

/// `a` comes strictly before `b` in the order of `str`: character by character,
/// a proper prefix first.
pub open spec fn lex_lt(a: Seq<char>, b: Seq<char>) -> bool
    decreases a.len(),
{
    if a.len() == 0 {
        b.len() > 0
    } else if b.len() == 0 {
        false
    } else if a[0] != b[0] {
        a[0] < b[0]
    } else {
        lex_lt(a.drop_first(), b.drop_first())
    }
}

proof fn lemma_lex_asymmetric(a: Seq<char>, b: Seq<char>)
    ensures
        lex_lt(a, b) ==> !lex_lt(b, a),
    decreases a.len(),
{
    if a.len() > 0 && b.len() > 0 && a[0] == b[0] {
        lemma_lex_asymmetric(a.drop_first(), b.drop_first());
    }
}

proof fn lemma_lex_total(a: Seq<char>, b: Seq<char>)
    ensures
        a != b ==> lex_lt(a, b) || lex_lt(b, a),
    decreases a.len(),
{
    if a.len() == 0 {
        if b.len() == 0 {
            assert(a =~= b);
        }
    } else if b.len() > 0 && a[0] == b[0] {
        lemma_lex_total(a.drop_first(), b.drop_first());
        if a.drop_first() == b.drop_first() {
            assert(a =~= seq![a[0]] + a.drop_first());
            assert(b =~= seq![b[0]] + b.drop_first());
        }
    }
}

proof fn lemma_lex_transitive(a: Seq<char>, b: Seq<char>, c: Seq<char>)
    ensures
        lex_lt(a, b) && lex_lt(b, c) ==> lex_lt(a, c),
    decreases a.len(),
{
    if a.len() > 0 && b.len() > 0 && c.len() > 0 && a[0] == b[0] && b[0] == c[0] {
        lemma_lex_transitive(a.drop_first(), b.drop_first(), c.drop_first());
    }
}

/// Not after: `a` is before `b` or equal to it.
pub open spec fn lex_le(a: Seq<char>, b: Seq<char>) -> bool {
    !lex_lt(b, a)
}

proof fn lemma_lex_le_transitive(a: Seq<char>, b: Seq<char>, c: Seq<char>)
    requires
        lex_le(a, b),
        lex_le(b, c),
    ensures
        lex_le(a, c),
{
    if lex_lt(c, a) {
        lemma_lex_total(a, b);
        if a == b {
        } else if lex_lt(a, b) {
            lemma_lex_transitive(c, a, b);
        }
    }
}

/// Whether `a` comes strictly before `b`.
fn lex_less(a: &[char], b: &[char]) -> (r: bool)
    ensures
        r == lex_lt(a@, b@),
{
    let mut i: usize = 0;
    proof {
        assert(a@.skip(0) =~= a@);
        assert(b@.skip(0) =~= b@);
    }
    while i < a.len() && i < b.len() && a[i] == b[i]
        invariant
            i <= a.len(),
            i <= b.len(),
            lex_lt(a@, b@) == lex_lt(a@.skip(i as int), b@.skip(i as int)),
        decreases a.len() - i,
    {
        proof {
            assert(a@.skip(i as int).drop_first() =~= a@.skip(i + 1));
            assert(b@.skip(i as int).drop_first() =~= b@.skip(i + 1));
        }
        i = i + 1;
    }
    proof {
        assert(a@.skip(0) =~= a@);
        assert(b@.skip(0) =~= b@);
    }
    if i == a.len() {
        i < b.len()
    } else if i == b.len() {
        false
    } else {
        a[i] < b[i]
    }
}

/// What `str::to_lowercase` makes of a string.
pub uninterp spec fn unicode_lowercase(s: Seq<char>) -> Seq<char>;

/// The Unicode lower-case form of `s`, by `str::to_lowercase`. The contract only
/// names the result: the Unicode case tables are std's.
#[verifier::external_body]
fn lowercase(s: &str) -> (r: String)
    ensures
        r@ == unicode_lowercase(s@),
{
    s.to_lowercase()
}

/// The key projects are listed by: the lower-case name.
pub open spec fn listing_key(p: ProjectSummary) -> Seq<char> {
    unicode_lowercase(p.name@)
}

/// The projects are in listing order.
pub open spec fn listed_in_order(projects: Seq<ProjectSummary>) -> bool {
    forall|i: int, j: int|
        0 <= i < j < projects.len() ==> lex_le(listing_key(#[trigger] projects[i]), listing_key(
            #[trigger] projects[j],
        ))
}

/// Puts projects in listing order: by their lower-case names in the order of
/// `str`, projects whose lower-case names are equal in either order.
pub fn sort_projects(projects: Vec<ProjectSummary>) -> (sorted: Vec<ProjectSummary>)
    ensures
        sorted@.to_multiset() == projects@.to_multiset(),
        listed_in_order(sorted@),
{
    broadcast use vstd::seq_lib::group_to_multiset_ensures, vstd::multiset::group_multiset_axioms;

    let ghost input = projects@;
    let mut rest = projects;
    let mut out: Vec<ProjectSummary> = Vec::new();
    let mut keys: Vec<Vec<char>> = Vec::new();
    while rest.len() > 0
        invariant
            out@.len() == keys@.len(),
            forall|i: int| 0 <= i < keys@.len() ==> #[trigger] keys@[i]@ == listing_key(out@[i]),
            listed_in_order(out@),
            out@.to_multiset().add(rest@.to_multiset()) == input.to_multiset(),
        decreases rest.len(),
    {
        let ghost rest_before = rest@;
        let ghost out_before = out@;
        let p = rest.pop().unwrap();
        proof {
            assert(rest_before =~= rest@.push(p));
            vstd::seq_lib::to_multiset_build(rest@, p);
            assert(rest_before.to_multiset() =~= rest@.to_multiset().insert(p));
        }
        let low = lowercase(p.name.as_str());
        let key = chars_of(low.as_str());
        let mut j: usize = out.len();
        while j > 0 && lex_less(key.as_slice(), keys[j - 1].as_slice())
            invariant
                j <= out@.len(),
                out@ == out_before,
                out@.len() == keys@.len(),
                forall|i: int| 0 <= i < keys@.len() ==> #[trigger] keys@[i]@ == listing_key(out@[i]),
                forall|k: int| j <= k < out@.len() ==> lex_lt(key@, #[trigger] listing_key(out@[k])),
            decreases j,
        {
            j = j - 1;
        }
        proof {
            assert(key@ == listing_key(p));
            assert forall|i: int| 0 <= i < j implies lex_le(#[trigger] listing_key(out@[i]), key@) by {
                if j > 0 {
                    assert(lex_le(listing_key(out@[j - 1]), key@));
                    if i < j - 1 {
                        lemma_lex_le_transitive(listing_key(out@[i]), listing_key(out@[j - 1]), key@);
                    }
                }
            }
            assert forall|k: int| j <= k < out@.len() implies lex_le(key@, #[trigger] listing_key(out@[k])) by {
                lemma_lex_asymmetric(key@, listing_key(out@[k]));
            }
        }
        out.insert(j, p);
        keys.insert(j, key);
        proof {
            assert(out@ == out_before.insert(j as int, p));
            assert forall|a: int, b: int| 0 <= a < b < out@.len() implies lex_le(
                listing_key(#[trigger] out@[a]),
                listing_key(#[trigger] out@[b]),
            ) by {
                if a < j && b < j {
                    assert(out@[a] == out_before[a] && out@[b] == out_before[b]);
                } else if a < j && b == j {
                } else if a < j && b > j {
                    assert(out@[b] == out_before[b - 1]);
                    assert(out@[a] == out_before[a]);
                    lemma_lex_le_transitive(listing_key(out_before[a]), key@, listing_key(out_before[b - 1]));
                } else if a == j {
                    assert(out@[b] == out_before[b - 1]);
                } else {
                    assert(out@[a] == out_before[a - 1] && out@[b] == out_before[b - 1]);
                }
            }
            vstd::seq_lib::to_multiset_insert(out_before, j as int, p);
            assert(out@.to_multiset() =~= out_before.to_multiset().insert(p));
            assert(out@.to_multiset().add(rest@.to_multiset()) =~= out_before.to_multiset().add(
                rest_before.to_multiset(),
            ));
        }
    }
    proof {
        assert(rest@.to_multiset() =~= vstd::multiset::Multiset::empty());
        assert(out@.to_multiset().add(rest@.to_multiset()) =~= out@.to_multiset());
    }
    out
}

} // verus!
