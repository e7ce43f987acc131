//! Messages exchanged with the browser UI: a JSON envelope and binary attachments
//! that the JSON refers to by decimal ID.
use vstd::prelude::*;
use crate::text::{chars_of, copy_bytes, is_digit, spec_is_digit, string_from};

verus! {

/// Why an attachment or a message was refused.
#[derive(Clone, Debug, PartialEq, Eq)]
pub enum AttachmentError {
    InvalidId,
    DuplicateId(String),
}

impl AttachmentError {
    /// The message shown for the error.
    pub fn message(&self) -> (m: String)
        ensures
            self is InvalidId ==> m@ == "binary attachment IDs must be non-empty decimal strings"@,
            self matches AttachmentError::DuplicateId(id) ==> m@ == "binary attachment ID "@ + id@
                + " is duplicated"@,
    {
        match self {
            AttachmentError::InvalidId => "binary attachment IDs must be non-empty decimal strings".to_owned(),
            AttachmentError::DuplicateId(id) => {
                let mut m = "binary attachment ID ".to_owned();
                m.append(id.as_str());
                m.append(" is duplicated");
                m
            },
        }
    }
}

/// A valid attachment ID: a non-empty string of decimal digits.
pub open spec fn valid_attachment_id(id: Seq<char>) -> bool {
    id.len() > 0 && forall|i: int| 0 <= i < id.len() ==> spec_is_digit(#[trigger] id[i])
}

/// Bytes delivered to JavaScript under a decimal string ID.
#[derive(Clone, Debug, PartialEq, Eq)]
pub struct BinaryAttachment {
    id: String,
    bytes: Vec<u8>,
}

impl BinaryAttachment {
    pub closed spec fn spec_id(&self) -> Seq<char> {
        self.id@
    }

    pub closed spec fn spec_bytes(&self) -> Seq<u8> {
        self.bytes@
    }

    /// Builds an attachment; the ID must be a non-empty decimal string.
    pub fn new(id: &str, bytes: &[u8]) -> (r: Result<Self, AttachmentError>)
        ensures
            valid_attachment_id(id@) <==> r is Ok,
            r matches Ok(a) ==> a.spec_id() == id@ && a.spec_bytes() == bytes@,
            !valid_attachment_id(id@) ==> r == Err::<Self, AttachmentError>(
                AttachmentError::InvalidId,
            ),
    {
        let chars = chars_of(id);
        if chars.len() == 0 {
            return Err(AttachmentError::InvalidId);
        }
        let mut i: usize = 0;
        while i < chars.len()
            invariant
                i <= chars.len(),
                chars@ == id@,
                forall|k: int| 0 <= k < i ==> spec_is_digit(#[trigger] chars@[k]),
            decreases chars.len() - i,
        {
            if !is_digit(chars[i]) {
                return Err(AttachmentError::InvalidId);
            }
            i = i + 1;
        }
        Ok(BinaryAttachment { id: id.to_owned(), bytes: copy_bytes(bytes) })
    }

    /// The attachment's ID.
    pub fn id(&self) -> (r: &str)
        ensures
            r@ == self.spec_id(),
    {
        self.id.as_str()
    }

    /// The attachment's bytes.
    pub fn bytes(&self) -> (r: &[u8])
        ensures
            r@ == self.spec_bytes(),
    {
        self.bytes.as_slice()
    }
}

/// The attachment at `i` repeats the ID of an earlier one.
pub open spec fn repeats_earlier(attachments: Seq<BinaryAttachment>, i: int) -> bool {
    exists|j: int| 0 <= j < i && #[trigger] attachments[j].spec_id() == attachments[i].spec_id()
}

/// The attachment at `i` is the first one that repeats an earlier ID.
pub open spec fn first_repeat(attachments: Seq<BinaryAttachment>, i: int) -> bool {
    &&& repeats_earlier(attachments, i)
    &&& forall|k: int| 0 <= k < i ==> !repeats_earlier(attachments, k)
}

/// No two attachments share an ID.
pub open spec fn distinct_ids(attachments: Seq<BinaryAttachment>) -> bool {
    forall|i: int, j: int|
        0 <= i < attachments.len() && 0 <= j < attachments.len() && i != j
            ==> #[trigger] attachments[i].spec_id() != #[trigger] attachments[j].spec_id()
}

/// A serialized envelope for the browser UI, with the binary attachments it refers to.
#[derive(Clone, Debug, PartialEq, Eq)]
pub struct WebMessage {
    pub json: String,
    pub attachments: Vec<BinaryAttachment>,
}

impl WebMessage {
    /// A message without attachments.
    pub fn json(json: &str) -> (m: Self)
        ensures
            m.json@ == json@,
            m.attachments@.len() == 0,
    {
        WebMessage { json: json.to_owned(), attachments: Vec::new() }
    }

    /// A message with attachments; refused when two attachments share an ID, naming
    /// the first attachment whose ID repeats an earlier one.
    pub fn with_attachments(json: &str, attachments: Vec<BinaryAttachment>) -> (r: Result<
        Self,
        AttachmentError,
    >)
        ensures
            r is Ok <==> distinct_ids(attachments@),
            r matches Ok(m) ==> m.json@ == json@ && m.attachments@ == attachments@,
            r matches Err(e) ==> exists|i: int|
                0 <= i < attachments@.len() && first_repeat(attachments@, i) && (
                e matches AttachmentError::DuplicateId(d) && d@ == attachments@[i].spec_id()),
    {
        let mut index: usize = 0;
        while index < attachments.len()
            invariant
                index <= attachments.len(),
                forall|k: int| 0 <= k < index ==> !repeats_earlier(attachments@, k),
            decreases attachments.len() - index,
        {
            let mut j: usize = 0;
            while j < index
                invariant
                    j <= index < attachments.len(),
                    forall|k: int| 0 <= k < index ==> !repeats_earlier(attachments@, k),
                    forall|k: int|
                        0 <= k < j ==> attachments@[k].spec_id() != attachments@[index as int].spec_id(),
                decreases index - j,
            {
                if attachments[j].id == attachments[index].id {
                    let duplicate = attachments[index].id.clone();
                    proof {
                        assert(attachments@[j as int].spec_id() == attachments@[index as int].spec_id());
                        assert(repeats_earlier(attachments@, index as int));
                        assert(first_repeat(attachments@, index as int));
                    }
                    return Err(AttachmentError::DuplicateId(duplicate));
                }
                j = j + 1;
            }
            proof {
                if repeats_earlier(attachments@, index as int) {
                    let w = choose|w: int| 0 <= w < index && #[trigger] attachments@[w].spec_id() == attachments@[index as int].spec_id();
                    assert(attachments@[w].spec_id() != attachments@[index as int].spec_id());
                }
            }
            index = index + 1;
        }
        proof {
            assert forall|i: int, j: int|
                0 <= i < attachments@.len() && 0 <= j < attachments@.len() && i != j
                    implies #[trigger] attachments@[i].spec_id() != #[trigger] attachments@[j].spec_id() by {
                if i < j {
                    assert(!repeats_earlier(attachments@, j));
                } else {
                    assert(!repeats_earlier(attachments@, i));
                }
            }
        }
        Ok(WebMessage { json: json.to_owned(), attachments })
    }

    /// The IDs of the attachments joined into one list, in order, with the
    /// separator between neighbours: the list the browser process sends along
    /// with the JSON and the attachment bytes.
    pub fn attachment_id_list(&self) -> (list: String)
        ensures
            list@ == joined_ids(attachment_ids_of(self.attachments@)),
    {
        let mut list = String::new();
        let mut i: usize = 0;
        while i < self.attachments.len()
            invariant
                i <= self.attachments@.len(),
                list@ == joined_ids(attachment_ids_of(self.attachments@.take(i as int))),
            decreases self.attachments.len() - i,
        {
            let ghost before = attachment_ids_of(self.attachments@.take(i as int));
            let ghost after = attachment_ids_of(self.attachments@.take(i + 1));
            proof {
                assert(after.drop_last() =~= before);
                assert(after.last() == self.attachments@[i as int].spec_id());
            }
            if i > 0 {
                list.push(ATTACHMENT_ID_SEPARATOR);
            } else {
                proof {
                    assert(before.len() == 0);
                }
            }
            list.append(self.attachments[i].id());
            i = i + 1;
        }
        proof {
            assert(self.attachments@.take(self.attachments@.len() as int) =~= self.attachments@);
        }
        list
    }
}

/// The character that separates attachment IDs in the list the browser process
/// hands to the renderer process.
pub const ATTACHMENT_ID_SEPARATOR: char = '\u{1f}';

/// The attachment IDs of a message, in order.
pub open spec fn attachment_ids_of(attachments: Seq<BinaryAttachment>) -> Seq<Seq<char>> {
    attachments.map_values(|a: BinaryAttachment| a.spec_id())
}

/// The IDs joined into one string, with the separator between neighbours.
pub open spec fn joined_ids(ids: Seq<Seq<char>>) -> Seq<char>
    decreases ids.len(),
{
    if ids.len() == 0 {
        Seq::empty()
    } else if ids.len() == 1 {
        ids[0]
    } else {
        joined_ids(ids.drop_last()) + seq![ATTACHMENT_ID_SEPARATOR] + ids.last()
    }
}

/// The pieces of a string between separators, empty ones included.
pub open spec fn pieces(s: Seq<char>) -> Seq<Seq<char>>
    decreases s.len(),
{
    if s.len() == 0 {
        seq![Seq::<char>::empty()]
    } else if s.last() == ATTACHMENT_ID_SEPARATOR {
        pieces(s.drop_last()).push(Seq::empty())
    } else {
        let p = pieces(s.drop_last());
        p.update(p.len() - 1, p.last().push(s.last()))
    }
}

/// The non-empty pieces, in order.
pub open spec fn nonempty(p: Seq<Seq<char>>) -> Seq<Seq<char>>
    decreases p.len(),
{
    if p.len() == 0 {
        p
    } else if p.last().len() == 0 {
        nonempty(p.drop_last())
    } else {
        nonempty(p.drop_last()).push(p.last())
    }
}

/// The attachment IDs read back from the joined list: the non-empty pieces
/// between separators.
pub open spec fn split_ids(s: Seq<char>) -> Seq<Seq<char>> {
    nonempty(pieces(s))
}

proof fn lemma_pieces_nonempty(s: Seq<char>)
    ensures
        pieces(s).len() > 0,
    decreases s.len(),
{
    if s.len() > 0 {
        lemma_pieces_nonempty(s.drop_last());
    }
}

/// A string without separators is one piece.
proof fn lemma_pieces_plain(s: Seq<char>)
    requires
        forall|i: int| 0 <= i < s.len() ==> s[i] != ATTACHMENT_ID_SEPARATOR,
    ensures
        pieces(s) == seq![s],
    decreases s.len(),
{
    if s.len() > 0 {
        let rest = s.drop_last();
        assert forall|i: int| 0 <= i < rest.len() implies rest[i] != ATTACHMENT_ID_SEPARATOR by {
            assert(rest[i] == s[i]);
        }
        lemma_pieces_plain(rest);
        assert(s.last() == s[s.len() - 1]);
        assert(rest.push(s.last()) =~= s);
        let p = pieces(rest);
        assert(p.len() == 1 && p.last() == rest);
        assert(pieces(s) == p.update(0, rest.push(s.last())));
        assert(seq![rest].update(0, rest.push(s.last())) =~= seq![s]);
    } else {
        assert(s =~= Seq::<char>::empty());
    }
}

/// A separator followed by text without separators adds that text as a piece.
proof fn lemma_pieces_after_separator(a: Seq<char>, b: Seq<char>)
    requires
        forall|i: int| 0 <= i < b.len() ==> b[i] != ATTACHMENT_ID_SEPARATOR,
    ensures
        pieces(a + seq![ATTACHMENT_ID_SEPARATOR] + b) == pieces(a).push(b),
    decreases b.len(),
{
    let t = a + seq![ATTACHMENT_ID_SEPARATOR] + b;
    if b.len() == 0 {
        assert(t.drop_last() =~= a);
        assert(t.last() == ATTACHMENT_ID_SEPARATOR);
        assert(b =~= Seq::<char>::empty());
    } else {
        let b0 = b.drop_last();
        assert forall|i: int| 0 <= i < b0.len() implies b0[i] != ATTACHMENT_ID_SEPARATOR by {
            assert(b0[i] == b[i]);
        }
        lemma_pieces_after_separator(a, b0);
        assert(t.drop_last() =~= a + seq![ATTACHMENT_ID_SEPARATOR] + b0);
        assert(b.last() == b[b.len() - 1]);
        assert(t.last() == b.last());
        assert(b0.push(b.last()) =~= b);
        let p = pieces(a).push(b0);
        assert(p.update(p.len() - 1, b0.push(b.last())) =~= pieces(a).push(b));
    }
}

/// Pieces of the joined IDs are the IDs, when no ID holds the separator.
proof fn lemma_pieces_of_joined(ids: Seq<Seq<char>>)
    requires
        ids.len() > 0,
        forall|k: int, i: int|
            0 <= k < ids.len() && 0 <= i < ids[k].len() ==> #[trigger] ids[k][i]
                != ATTACHMENT_ID_SEPARATOR,
    ensures
        pieces(joined_ids(ids)) == ids,
    decreases ids.len(),
{
    if ids.len() == 1 {
        lemma_pieces_plain(ids[0]);
        assert(seq![ids[0]] =~= ids);
    } else {
        let rest = ids.drop_last();
        lemma_pieces_of_joined(rest);
        assert forall|i: int| 0 <= i < ids.last().len() implies ids.last()[i]
            != ATTACHMENT_ID_SEPARATOR by {
            assert(ids[ids.len() - 1][i] != ATTACHMENT_ID_SEPARATOR);
        }
        lemma_pieces_after_separator(joined_ids(rest), ids.last());
        assert(rest.push(ids.last()) =~= ids);
    }
}

/// Keeping the non-empty pieces of non-empty pieces keeps them all.
proof fn lemma_nonempty_keeps(p: Seq<Seq<char>>)
    requires
        forall|k: int| 0 <= k < p.len() ==> #[trigger] p[k].len() > 0,
    ensures
        nonempty(p) == p,
    decreases p.len(),
{
    if p.len() > 0 {
        lemma_nonempty_keeps(p.drop_last());
        assert(p.drop_last().push(p.last()) =~= p);
    }
}

/// The list of attachment IDs that the browser process joins is read back, ID
/// for ID and in order, by the renderer process: valid IDs are non-empty and
/// hold only digits, never the separator.
pub proof fn lemma_attachment_ids_round_trip(ids: Seq<Seq<char>>)
    requires
        forall|k: int| 0 <= k < ids.len() ==> valid_attachment_id(#[trigger] ids[k]),
    ensures
        split_ids(joined_ids(ids)) == ids,
{
    if ids.len() == 0 {
        let p = seq![Seq::<char>::empty()];
        assert(joined_ids(ids) =~= Seq::<char>::empty());
        assert(pieces(joined_ids(ids)) == p);
        assert(p.drop_last() =~= Seq::<Seq<char>>::empty());
        assert(nonempty(p.drop_last()) =~= Seq::<Seq<char>>::empty());
        assert(ids =~= Seq::<Seq<char>>::empty());
    } else {
        assert forall|k: int, i: int|
            0 <= k < ids.len() && 0 <= i < ids[k].len() implies #[trigger] ids[k][i]
                != ATTACHMENT_ID_SEPARATOR by {
            assert(valid_attachment_id(ids[k]));
            assert(spec_is_digit(ids[k][i]));
        }
        lemma_pieces_of_joined(ids);
        assert forall|k: int| 0 <= k < ids.len() implies #[trigger] ids[k].len() > 0 by {
            assert(valid_attachment_id(ids[k]));
        }
        lemma_nonempty_keeps(ids);
    }
}

/// The IDs of the attachments read back from a joined list, in order: the
/// non-empty pieces between separators.
pub fn attachment_ids(ids: &str) -> (out: Vec<String>)
    ensures
        out@.map_values(|s: String| s@) == split_ids(ids@),
{
    let chars = chars_of(ids);
    let mut out: Vec<String> = Vec::new();
    let mut current: Vec<char> = Vec::new();
    let mut i: usize = 0;
    while i < chars.len()
        invariant
            i <= chars.len(),
            chars@ == ids@,
            pieces(chars@.take(i as int)).len() > 0,
            current@ == pieces(chars@.take(i as int)).last(),
            out@.map_values(|s: String| s@) == nonempty(pieces(chars@.take(i as int)).drop_last()),
        decreases chars.len() - i,
    {
        let ghost before = chars@.take(i as int);
        let ghost next = chars@.take(i + 1);
        proof {
            assert(next.drop_last() =~= before);
            assert(next.last() == chars@[i as int]);
            lemma_pieces_nonempty(before);
        }
        if chars[i] == ATTACHMENT_ID_SEPARATOR {
            let ghost out_before = out@;
            if current.len() > 0 {
                out.push(string_from(current.as_slice()));
                proof {
                    assert(out@.map_values(|s: String| s@) =~= out_before.map_values(|s: String| s@).push(current@));
                }
            }
            proof {
                let p = pieces(before);
                assert(pieces(next) == p.push(Seq::<char>::empty()));
                assert(pieces(next).drop_last() =~= p);
                assert(p.drop_last().push(p.last()) =~= p);
            }
            current = Vec::new();
        } else {
            current.push(chars[i]);
            proof {
                let p = pieces(before);
                assert(pieces(next) == p.update(p.len() - 1, p.last().push(chars@[i as int])));
                assert(pieces(next).drop_last() =~= p.drop_last());
            }
        }
        i = i + 1;
    }
    proof {
        assert(chars@.take(chars@.len() as int) =~= chars@);
        let p = pieces(chars@);
        assert(p.drop_last().push(p.last()) =~= p);
    }
    if current.len() > 0 {
        let ghost out_before = out@;
        out.push(string_from(current.as_slice()));
        proof {
            assert(out@.map_values(|s: String| s@) =~= out_before.map_values(|s: String| s@).push(current@));
        }
    }
    out
}

} // verus!
