//! Project names and file names, the undo/redo history of committed revisions,
//! and where a moved layer lands among its siblings.
use vstd::prelude::*;
use crate::text::{
    chars_of, is_control, spec_is_control, spec_upper, string_from, to_upper, trim, trimmed, upper_seq,
};

verus! {

/// Why a project name was refused.
#[derive(Clone, Copy, Debug, PartialEq, Eq, Structural)]
pub enum ProjectNameError {
    Empty,
    InvalidCharacters,
    Reserved,
}

impl ProjectNameError {
    /// The message shown to the user.
    pub fn message(&self) -> (m: String)
        ensures
            *self == ProjectNameError::Empty ==> m@ == "project name cannot be empty"@,
            *self == ProjectNameError::InvalidCharacters ==> m@
                == "project name contains characters that cannot be used in a file name"@,
            *self == ProjectNameError::Reserved ==> m@ == "project name is reserved by Windows"@,
    {
        match self {
            ProjectNameError::Empty => "project name cannot be empty".to_owned(),
            ProjectNameError::InvalidCharacters =>
                "project name contains characters that cannot be used in a file name".to_owned(),
            ProjectNameError::Reserved => "project name is reserved by Windows".to_owned(),
        }
    }
}

/// Characters that Windows forbids in file names.
pub open spec fn is_forbidden_in_file_name(c: char) -> bool {
    c == '<' || c == '>' || c == ':' || c == '"' || c == '/' || c == '\\' || c == '|' || c == '?'
        || c == '*'
}

/// Exactly the nine characters Windows reserves in file names are refused:
/// `<`, `>`, `:`, `"`, `/`, `\`, `|`, `?` and `*`; letters, digits, spaces,
/// dots and everything else are kept.
pub proof fn lemma_forbidden_file_name_characters(c: char)
    ensures
        is_forbidden_in_file_name(c) <==> seq!['<', '>', ':', '"', '/', '\\', '|', '?', '*'].contains(c),
{
    let s = seq!['<', '>', ':', '"', '/', '\\', '|', '?', '*'];
    if is_forbidden_in_file_name(c) {
        if c == '<' { assert(s[0] == c); }
        else if c == '>' { assert(s[1] == c); }
        else if c == ':' { assert(s[2] == c); }
        else if c == '"' { assert(s[3] == c); }
        else if c == '/' { assert(s[4] == c); }
        else if c == '\\' { assert(s[5] == c); }
        else if c == '|' { assert(s[6] == c); }
        else if c == '?' { assert(s[7] == c); }
        else { assert(s[8] == c); }
    }
}

/// The text before the first `.`, or all of it when there is none.
pub open spec fn before_first_dot(s: Seq<char>) -> Seq<char>
    decreases s.len(),
{
    if s.len() == 0 {
        s
    } else if s[0] == '.' {
        Seq::empty()
    } else {
        seq![s[0]] + before_first_dot(s.drop_first())
    }
}

/// Device names that Windows reserves whatever the extension.
pub open spec fn is_reserved_stem(stem: Seq<char>) -> bool {
    stem == seq!['C', 'O', 'N'] || stem == seq!['P', 'R', 'N'] || stem == seq!['A', 'U', 'X']
        || stem == seq!['N', 'U', 'L'] || (stem.len() == 4 && ((stem[0] == 'C' && stem[1] == 'O'
        && stem[2] == 'M') || (stem[0] == 'L' && stem[1] == 'P' && stem[2] == 'T')) && '1'
        <= stem[3] && stem[3] <= '9')
}

/// The outcome of checking a project name: the trimmed name, or why it is refused.
pub open spec fn check_project_name(name: Seq<char>) -> Result<Seq<char>, ProjectNameError> {
    let t = trim(name);
    if t.len() == 0 {
        Err(ProjectNameError::Empty)
    } else if t.last() == '.' || t.last() == ' ' || exists|i: int|
        0 <= i < t.len() && (spec_is_control(#[trigger] t[i]) || is_forbidden_in_file_name(t[i])) {
        Err(ProjectNameError::InvalidCharacters)
    } else if is_reserved_stem(upper_seq(before_first_dot(t))) {
        Err(ProjectNameError::Reserved)
    } else {
        Ok(t)
    }
}

fn is_forbidden(c: char) -> (b: bool)
    ensures
        b == is_forbidden_in_file_name(c),
{
    c == '<' || c == '>' || c == ':' || c == '"' || c == '/' || c == '\\' || c == '|' || c == '?'
        || c == '*'
}

/// The upper-cased text before the first `.`.
fn upper_stem(t: &[char]) -> (out: Vec<char>)
    ensures
        out@ == upper_seq(before_first_dot(t@)),
{
    let mut out: Vec<char> = Vec::new();
    let mut i: usize = 0;
    proof {
        lemma_before_first_dot_start(t@);
        assert(t@.take(0) =~= Seq::<char>::empty());
        assert(upper_seq(t@.take(0)) =~= Seq::<char>::empty());
    }
    while i < t.len() && t[i] != '.'
        invariant
            i <= t.len(),
            forall|k: int| 0 <= k < i ==> t@[k] != '.',
            before_first_dot(t@) == t@.take(i as int) + before_first_dot(t@.skip(i as int)),
            out@ == upper_seq(t@.take(i as int)),
        decreases t.len() - i,
    {
        proof {
            let rest = t@.skip(i as int);
            assert(rest[0] == t@[i as int]);
            assert(rest.drop_first() == t@.skip(i + 1));
            assert(t@.take(i + 1) == t@.take(i as int) + seq![t@[i as int]]);
            assert(before_first_dot(rest) == seq![t@[i as int]] + before_first_dot(t@.skip(i + 1)));
            assert(t@.take(i as int) + before_first_dot(rest) =~= t@.take(i + 1) + before_first_dot(
                t@.skip(i + 1),
            ));
        }
        out.push(to_upper(t[i]));
        i = i + 1;
        proof {
            assert(upper_seq(t@.take(i as int)) == upper_seq(t@.take(i - 1)).push(spec_upper(t@[i - 1])));
        }
    }
    proof {
        assert(t@.skip(0) == t@);
        assert(t@.take(0) == Seq::<char>::empty());
        let rest = t@.skip(i as int);
        if i < t.len() {
            assert(rest[0] == '.');
        }
        assert(before_first_dot(rest) == Seq::<char>::empty());
        assert(t@.take(i as int) + Seq::<char>::empty() == t@.take(i as int));
    }
    out
}

proof fn lemma_before_first_dot_start(t: Seq<char>)
    ensures
        before_first_dot(t) == Seq::<char>::empty() + before_first_dot(t.skip(0)),
{
    assert(t.skip(0) == t);
    assert(Seq::<char>::empty() + before_first_dot(t) == before_first_dot(t));
}

fn is_reserved(stem: &[char]) -> (b: bool)
    ensures
        b == is_reserved_stem(stem@),
{
    if stem.len() == 3 {
        let (a, b, c) = (stem[0], stem[1], stem[2]);
        let r = (a == 'C' && b == 'O' && c == 'N') || (a == 'P' && b == 'R' && c == 'N') || (a
            == 'A' && b == 'U' && c == 'X') || (a == 'N' && b == 'U' && c == 'L');
        proof {
            if r {
                if a == 'C' {
                    assert(stem@ == seq!['C', 'O', 'N']);
                } else if a == 'P' {
                    assert(stem@ == seq!['P', 'R', 'N']);
                } else if a == 'A' {
                    assert(stem@ == seq!['A', 'U', 'X']);
                } else {
                    assert(stem@ == seq!['N', 'U', 'L']);
                }
            }
        }
        r
    } else if stem.len() == 4 {
        let (a, b, c, d) = (stem[0], stem[1], stem[2], stem[3]);
        ((a == 'C' && b == 'O' && c == 'M') || (a == 'L' && b == 'P' && c == 'T')) && '1' <= d
            && d <= '9'
    } else {
        false
    }
}

/// Checks a name for a project directory: it is trimmed, must not be empty, must
/// not end in `.` or a space, must hold no control character nor any of
/// `<>:"/\|?*`, and its part before the first `.` must not be a reserved Windows
/// device name in any letter case.
pub fn validate_project_name(name: &str) -> (r: Result<String, ProjectNameError>)
    ensures
        match (r, check_project_name(name@)) {
            (Ok(s), Ok(t)) => s@ == t,
            (Err(e), Err(f)) => e == f,
            _ => false,
        },
{
    let chars = chars_of(name);
    let t = trimmed(chars.as_slice());
    if t.len() == 0 {
        return Err(ProjectNameError::Empty);
    }
    let last = t[t.len() - 1];
    if last == '.' || last == ' ' {
        return Err(ProjectNameError::InvalidCharacters);
    }
    let mut i: usize = 0;
    while i < t.len()
        invariant
            i <= t.len(),
            t@ == trim(name@),
            t@.len() > 0,
            t@.last() != '.' && t@.last() != ' ',
            forall|k: int|
                0 <= k < i ==> !(spec_is_control(#[trigger] t@[k]) || is_forbidden_in_file_name(
                    t@[k],
                )),
        decreases t.len() - i,
    {
        if is_control(t[i]) || is_forbidden(t[i]) {
            assert(spec_is_control(t@[i as int]) || is_forbidden_in_file_name(t@[i as int]));
            return Err(ProjectNameError::InvalidCharacters);
        }
        i = i + 1;
    }
    let stem = upper_stem(t.as_slice());
    if is_reserved(stem.as_slice()) {
        return Err(ProjectNameError::Reserved);
    }
    Ok(string_from(t.as_slice()))
}

/// The page that stays active after the project changed: the active page while
/// it still exists, otherwise the first page, or none in an empty project.
pub open spec fn spec_reconciled_page(active: Option<u128>, pages: Seq<u128>) -> Option<u128> {
    match active {
        Some(p) => if pages.contains(p) {
            Some(p)
        } else if pages.len() > 0 {
            Some(pages[0])
        } else {
            None
        },
        None => if pages.len() > 0 {
            Some(pages[0])
        } else {
            None
        },
    }
}

/// The active page after a change, given the project's pages in order.
pub fn reconcile_page(active: Option<u128>, pages: &[u128]) -> (r: Option<u128>)
    ensures
        r == spec_reconciled_page(active, pages@),
{
    if let Some(p) = active {
        let mut i: usize = 0;
        while i < pages.len()
            invariant
                i <= pages.len(),
                active == Some(p),
                forall|k: int| 0 <= k < i ==> pages@[k] != p,
            decreases pages.len() - i,
        {
            if pages[i] == p {
                assert(pages@.contains(p));
                return Some(p);
            }
            i = i + 1;
        }
    }
    if pages.len() > 0 {
        Some(pages[0])
    } else {
        None
    }
}

/// After a change the active page is a page of the project whenever the project
/// has pages, an existing active page is kept, and reconciling twice changes
/// nothing more.
pub proof fn lemma_reconciled_page_exists(active: Option<u128>, pages: Seq<u128>)
    ensures
        pages.len() > 0 ==> (spec_reconciled_page(active, pages) matches Some(q) && pages.contains(
            q,
        )),
        pages.len() == 0 ==> spec_reconciled_page(active, pages) is None,
        (active matches Some(p) && pages.contains(p)) ==> spec_reconciled_page(active, pages)
            == active,
        spec_reconciled_page(spec_reconciled_page(active, pages), pages) == spec_reconciled_page(
            active,
            pages,
        ),
{
    if pages.len() > 0 {
        assert(pages.contains(pages[0]));
    }
}

/// Where a layer is inserted among its siblings.
#[derive(Clone, Copy, Debug, PartialEq, Eq, Structural)]
pub enum At {
    Before(u128),
    End,
}

/// `siblings` without `moving`, in order.
pub open spec fn without(siblings: Seq<u128>, moving: u128) -> Seq<u128>
    decreases siblings.len(),
{
    if siblings.len() == 0 {
        siblings
    } else if siblings.last() == moving {
        without(siblings.drop_last(), moving)
    } else {
        without(siblings.drop_last(), moving).push(siblings.last())
    }
}

/// Where a layer moved to position `index` lands: before the sibling that holds
/// that position once the layer itself is set aside, or at the end when none does.
pub open spec fn spec_placement(siblings: Seq<u128>, moving: u128, index: nat) -> At {
    let rest = without(siblings, moving);
    if index < rest.len() {
        At::Before(rest[index as int])
    } else {
        At::End
    }
}

/// The siblings once the moved layer goes in at `at`: just before the sibling
/// `at` names, or last.
pub open spec fn insert_layer(rest: Seq<u128>, moving: u128, at: At) -> Seq<u128> {
    match at {
        At::End => rest.push(moving),
        At::Before(x) => if rest.contains(x) {
            rest.insert(rest.index_of(x), moving)
        } else {
            rest.push(moving)
        },
    }
}

/// A layer moved to `index` lands at `index` among its siblings, or last when
/// `index` is past them: inserting it where the placement says puts it at that
/// position, with the other siblings before and after it in their order.
pub proof fn lemma_moved_layer_lands_at_index(siblings: Seq<u128>, moving: u128, index: nat)
    requires
        without(siblings, moving).no_duplicates(),
    ensures
        ({
            let rest = without(siblings, moving);
            let pos = if index < rest.len() { index as int } else { rest.len() as int };
            let placed = insert_layer(rest, moving, spec_placement(siblings, moving, index));
            &&& placed.len() == rest.len() + 1
            &&& placed[pos] == moving
            &&& placed.subrange(0, pos) == rest.subrange(0, pos)
            &&& placed.subrange(pos + 1, placed.len() as int) == rest.subrange(pos, rest.len() as int)
        }),
{
    let rest = without(siblings, moving);
    let pos = if index < rest.len() { index as int } else { rest.len() as int };
    let placed = insert_layer(rest, moving, spec_placement(siblings, moving, index));
    if index < rest.len() {
        let x = rest[index as int];
        assert(rest.contains(x));
        let i = rest.index_of(x);
        assert(0 <= i < rest.len() && rest[i] == x);
        assert(i == index as int);
        assert(placed == rest.subrange(0, pos).push(moving) + rest.subrange(pos, rest.len() as int));
    } else {
        assert(placed == rest.push(moving));
    }
    assert(placed.subrange(0, pos) =~= rest.subrange(0, pos));
    assert(placed.subrange(pos + 1, placed.len() as int) =~= rest.subrange(pos, rest.len() as int));
}

/// Where a layer moved to position `index` among `siblings` is inserted.
pub fn placement(siblings: &[u128], moving: u128, index: usize) -> (at: At)
    ensures
        at == spec_placement(siblings@, moving, index as nat),
{
    let mut seen: usize = 0;
    let mut i: usize = 0;
    while i < siblings.len()
        invariant
            i <= siblings.len(),
            seen == without(siblings@.take(i as int), moving).len(),
            seen <= index,
            forall|k: int| 0 <= k < seen ==> without(siblings@.take(i as int), moving)[k] == without(siblings@, moving)[k],
            without(siblings@.take(i as int), moving).len() <= without(siblings@, moving).len(),
        decreases siblings.len() - i,
    {
        proof {
            lemma_without_prefix(siblings@, moving, i + 1);
            assert(siblings@.take(i + 1).drop_last() == siblings@.take(i as int));
            assert(siblings@.take(i + 1).last() == siblings@[i as int]);
        }
        if siblings[i] != moving {
            if seen == index {
                proof {
                    assert(without(siblings@.take(i + 1), moving) == without(siblings@.take(i as int), moving).push(siblings@[i as int]));
                    assert(without(siblings@.take(i + 1), moving)[seen as int] == siblings@[i as int]);
                }
                return At::Before(siblings[i]);
            }
            seen = seen + 1;
        }
        i = i + 1;
    }
    proof {
        assert(siblings@.take(siblings@.len() as int) == siblings@);
    }
    At::End
}

/// A prefix of the siblings keeps a prefix of the remaining ones.
proof fn lemma_without_prefix(siblings: Seq<u128>, moving: u128, i: int)
    requires
        0 <= i <= siblings.len(),
    ensures
        without(siblings.take(i), moving).len() <= without(siblings, moving).len(),
        forall|k: int|
            0 <= k < without(siblings.take(i), moving).len() ==> without(siblings.take(i), moving)[k]
                == without(siblings, moving)[k],
    decreases siblings.len() - i,
{
    if i < siblings.len() {
        lemma_without_prefix(siblings, moving, i + 1);
        assert(siblings.take(i + 1).drop_last() == siblings.take(i));
    } else {
        assert(siblings.take(i) == siblings);
    }
}

/// The undo and redo stacks of a project: each entry is the group of revisions
/// one user action committed, undone or redone together.
pub struct History<R> {
    undo: Vec<Vec<R>>,
    redo: Vec<Vec<R>>,
}

/// What a history holds: its undo and redo stacks, oldest entry first.
pub struct HistoryView<R> {
    pub undo: Seq<Seq<R>>,
    pub redo: Seq<Seq<R>>,
}

/// The stack entries as sequences.
pub open spec fn entries<R>(stack: Seq<Vec<R>>) -> Seq<Seq<R>> {
    stack.map_values(|e: Vec<R>| e@)
}

/// A user action recorded: a non-empty group becomes the newest undo entry and
/// the redo stack is forgotten; an empty group changes nothing.
pub open spec fn spec_record<R>(h: HistoryView<R>, revisions: Seq<R>) -> HistoryView<R> {
    if revisions.len() == 0 {
        h
    } else {
        HistoryView { undo: h.undo.push(revisions), redo: Seq::empty() }
    }
}

/// The history while an undo is under way: its newest undo entry taken off.
pub open spec fn spec_begin_undo<R>(h: HistoryView<R>) -> HistoryView<R> {
    if h.undo.len() == 0 {
        h
    } else {
        HistoryView { undo: h.undo.drop_last(), redo: h.redo }
    }
}

/// The history after an undo ends: the new revision becomes the newest redo
/// entry, or, when the session failed, the group goes back onto the undo stack.
pub open spec fn spec_finish_undo<R>(h: HistoryView<R>, group: Seq<R>, outcome: Option<R>) -> HistoryView<R> {
    match outcome {
        None => HistoryView { undo: h.undo.push(group), redo: h.redo },
        Some(revision) => HistoryView { undo: h.undo, redo: h.redo.push(seq![revision]) },
    }
}

/// The history while a redo is under way: its newest redo entry taken off.
pub open spec fn spec_begin_redo<R>(h: HistoryView<R>) -> HistoryView<R> {
    if h.redo.len() == 0 {
        h
    } else {
        HistoryView { undo: h.undo, redo: h.redo.drop_last() }
    }
}

/// The history after a redo ends: the new revision becomes the newest undo
/// entry, or, when the session failed, the group goes back onto the redo stack.
pub open spec fn spec_finish_redo<R>(h: HistoryView<R>, group: Seq<R>, outcome: Option<R>) -> HistoryView<R> {
    match outcome {
        None => HistoryView { undo: h.undo, redo: h.redo.push(group) },
        Some(revision) => HistoryView { undo: h.undo.push(seq![revision]), redo: h.redo },
    }
}

impl<R: Copy> History<R> {
    pub closed spec fn spec_view(&self) -> HistoryView<R> {
        HistoryView { undo: entries(self.undo@), redo: entries(self.redo@) }
    }

    /// A history with nothing to undo or redo.
    pub fn new() -> (h: Self)
        ensures
            h.spec_view().undo.len() == 0,
            h.spec_view().redo.len() == 0,
    {
        History { undo: Vec::new(), redo: Vec::new() }
    }

    /// Whether there is an action to undo.
    pub fn can_undo(&self) -> (b: bool)
        ensures
            b == (self.spec_view().undo.len() > 0),
    {
        self.undo.len() > 0
    }

    /// Whether there is an action to redo.
    pub fn can_redo(&self) -> (b: bool)
        ensures
            b == (self.spec_view().redo.len() > 0),
    {
        self.redo.len() > 0
    }

    /// Records the revisions of a new user action: they become the newest undo
    /// entry and the redo stack is forgotten. An empty group records nothing.
    pub fn record(&mut self, revisions: Vec<R>)
        ensures
            final(self).spec_view() == spec_record(old(self).spec_view(), revisions@),
    {
        if revisions.len() > 0 {
            let ghost before = self.undo@;
            self.undo.push(revisions);
            self.redo.clear();
            proof {
                assert(entries(self.undo@) =~= entries(before).push(self.undo@.last()@));
                assert(entries(self.redo@) =~= Seq::<Seq<R>>::empty());
            }
        }
    }

    /// Records a commit: its revision when it changed anything.
    pub fn record_commit(&mut self, revision: R, changed: bool)
        ensures
            !changed ==> final(self).spec_view() == old(self).spec_view(),
            changed ==> final(self).spec_view() == spec_record(old(self).spec_view(), seq![revision]),
    {
        if changed {
            let mut group: Vec<R> = Vec::new();
            group.push(revision);
            proof {
                assert(group@ =~= seq![revision]);
            }
            self.record(group);
        }
    }

    /// Takes the newest undo entry for the session to undo, or `None` when there
    /// is nothing to undo.
    pub fn begin_undo(&mut self) -> (group: Option<Vec<R>>)
        ensures
            final(self).spec_view() == spec_begin_undo(old(self).spec_view()),
            old(self).spec_view().undo.len() == 0 ==> group is None,
            old(self).spec_view().undo.len() > 0 ==> (group matches Some(g) && g@ == old(
                self,
            ).spec_view().undo.last()),
    {
        let ghost before = self.undo@;
        let group = self.undo.pop();
        proof {
            if before.len() > 0 {
                assert(entries(self.undo@) =~= entries(before).drop_last());
            }
        }
        group
    }

    /// Ends an undo: when the session undid the group (`outcome` holds the new
    /// revision) that revision becomes the newest redo entry; when it failed the
    /// group goes back onto the undo stack.
    pub fn finish_undo(&mut self, group: Vec<R>, outcome: Option<R>)
        ensures
            final(self).spec_view() == spec_finish_undo(old(self).spec_view(), group@, outcome),
    {
        let ghost undo_before = self.undo@;
        let ghost redo_before = self.redo@;
        match outcome {
            None => {
                self.undo.push(group);
                proof {
                    assert(entries(self.undo@) =~= entries(undo_before).push(group@));
                }
            },
            Some(revision) => {
                let mut next: Vec<R> = Vec::new();
                next.push(revision);
                self.redo.push(next);
                proof {
                    assert(entries(self.redo@) =~= entries(redo_before).push(seq![revision]));
                }
            },
        }
    }

    /// Takes the newest redo entry for the session to undo again, or `None` when
    /// there is nothing to redo.
    pub fn begin_redo(&mut self) -> (group: Option<Vec<R>>)
        ensures
            final(self).spec_view() == spec_begin_redo(old(self).spec_view()),
            old(self).spec_view().redo.len() == 0 ==> group is None,
            old(self).spec_view().redo.len() > 0 ==> (group matches Some(g) && g@ == old(
                self,
            ).spec_view().redo.last()),
    {
        let ghost before = self.redo@;
        let group = self.redo.pop();
        proof {
            if before.len() > 0 {
                assert(entries(self.redo@) =~= entries(before).drop_last());
            }
        }
        group
    }

    /// Ends a redo: on success the new revision becomes the newest undo entry;
    /// on failure the group goes back onto the redo stack.
    pub fn finish_redo(&mut self, group: Vec<R>, outcome: Option<R>)
        ensures
            final(self).spec_view() == spec_finish_redo(old(self).spec_view(), group@, outcome),
    {
        let ghost undo_before = self.undo@;
        let ghost redo_before = self.redo@;
        match outcome {
            None => {
                self.redo.push(group);
                proof {
                    assert(entries(self.redo@) =~= entries(redo_before).push(group@));
                }
            },
            Some(revision) => {
                let mut next: Vec<R> = Vec::new();
                next.push(revision);
                self.undo.push(next);
                proof {
                    assert(entries(self.undo@) =~= entries(undo_before).push(seq![revision]));
                }
            },
        }
    }
}

/// Starting an undo takes the newest undo entry and nothing else: the redo
/// stack is never touched, the older undo entries stay as they were, and with
/// nothing to undo the history is left exactly as it was. Starting a redo
/// likewise takes only the newest redo entry and never touches the undo stack.
pub proof fn lemma_begin_takes_only_the_newest_entry<R>(h: HistoryView<R>)
    ensures
        spec_begin_undo(h).redo == h.redo,
        h.undo.len() == 0 ==> spec_begin_undo(h) == h,
        h.undo.len() > 0 ==> spec_begin_undo(h).undo.len() + 1 == h.undo.len(),
        forall|i: int| 0 <= i < spec_begin_undo(h).undo.len() ==> #[trigger] spec_begin_undo(h).undo[i] == h.undo[i],
        spec_begin_redo(h).undo == h.undo,
        h.redo.len() == 0 ==> spec_begin_redo(h) == h,
        h.redo.len() > 0 ==> spec_begin_redo(h).redo.len() + 1 == h.redo.len(),
        forall|i: int| 0 <= i < spec_begin_redo(h).redo.len() ==> #[trigger] spec_begin_redo(h).redo[i] == h.redo[i],
{
}

/// A failed undo leaves the history as it was: the group taken off the undo
/// stack goes back on top of it.
pub proof fn lemma_failed_undo_restores<R>(h: HistoryView<R>)
    requires
        h.undo.len() > 0,
    ensures
        spec_finish_undo(spec_begin_undo(h), h.undo.last(), None) == h,
{
    assert(h.undo.drop_last().push(h.undo.last()) =~= h.undo);
}

/// A failed redo leaves the history as it was.
pub proof fn lemma_failed_redo_restores<R>(h: HistoryView<R>)
    requires
        h.redo.len() > 0,
    ensures
        spec_finish_redo(spec_begin_redo(h), h.redo.last(), None) == h,
{
    assert(h.redo.drop_last().push(h.redo.last()) =~= h.redo);
}

/// An undo followed by a redo, both carried out by the session, gives the redo
/// stack back as it was and leaves on the undo stack, in place of the undone
/// group, the revision that redid it.
pub proof fn lemma_undo_then_redo<R>(h: HistoryView<R>, undone: R, redone: R)
    requires
        h.undo.len() > 0,
    ensures
        ({
            let after_undo = spec_finish_undo(spec_begin_undo(h), h.undo.last(), Some(undone));
            let after_redo = spec_finish_redo(spec_begin_redo(after_undo), seq![undone], Some(redone));
            &&& after_undo.redo.last() == seq![undone]
            &&& after_redo.redo == h.redo
            &&& after_redo.undo == h.undo.drop_last().push(seq![redone])
        }),
{
    let after_undo = spec_finish_undo(spec_begin_undo(h), h.undo.last(), Some(undone));
    assert(after_undo.redo.drop_last() =~= h.redo);
}

/// Recording a new action forgets every redo entry and puts the action on top
/// of the undo stack, over the entries that were there.
pub proof fn lemma_record_forgets_redo<R>(h: HistoryView<R>, revisions: Seq<R>)
    requires
        revisions.len() > 0,
    ensures
        spec_record(h, revisions).redo.len() == 0,
        spec_record(h, revisions).undo.last() == revisions,
        spec_record(h, revisions).undo.drop_last() == h.undo,
{
    assert(h.undo.push(revisions).drop_last() =~= h.undo);
}

} // verus!
