//! The note store: create/read/update/delete over persisted note records.
//! The store assigns each note a unique ascending id and both timestamps
//! at creation, applies partial updates that change only the supplied
//! fields, pages reads by offset and limit, and reports a missing id as
//! `NotFound`. The surrounding server maps backend faults to
//! `StoreUnavailable` and unparseable requests to `MalformedRequest`;
//! the store itself produces only the domain errors. The clock is the
//! caller's: mutations take the current time as an argument, since only
//! the environment around the store can read it.

use vstd::prelude::*;

verus! {

/// A persisted note record. `id` is assigned by the store at creation and
/// immutable afterwards; `created_at` is set once; `updated_at` moves
/// forward on every successful patch.
pub struct Note {
    pub id: u64,
    pub title: String,
    pub content: String,
    pub created_at: u64,
    pub updated_at: u64,
}

/// The mathematical image of a note: its fields as plain values.
pub ghost struct NoteModel {
    pub id: u64,
    pub title: Seq<char>,
    pub content: Seq<char>,
    pub created_at: u64,
    pub updated_at: u64,
}

impl View for Note {
    type V = NoteModel;

    open spec fn view(&self) -> NoteModel {
        NoteModel {
            id: self.id,
            title: self.title@,
            content: self.content@,
            created_at: self.created_at,
            updated_at: self.updated_at,
        }
    }
}

impl Note {
    /// A field-for-field copy.
    pub fn duplicate(&self) -> (r: Note)
        ensures
            r@ == self@,
    {
        Note {
            id: self.id,
            title: self.title.clone(),
            content: self.content.clone(),
            created_at: self.created_at,
            updated_at: self.updated_at,
        }
    }
}

/// A partial update: only the fields that are present change the note.
/// An absent field keeps its prior value, so an empty payload is a
/// timestamp-only refresh.
pub struct NotePatch {
    pub title: Option<String>,
    pub content: Option<String>,
}

/// The mathematical image of a patch payload.
pub ghost struct PatchModel {
    pub title: Option<Seq<char>>,
    pub content: Option<Seq<char>>,
}

impl View for NotePatch {
    type V = PatchModel;

    open spec fn view(&self) -> PatchModel {
        PatchModel {
            title: match self.title {
                Some(t) => Some(t@),
                None => None,
            },
            content: match self.content {
                Some(c) => Some(c@),
                None => None,
            },
        }
    }
}

/// The error taxonomy of the service. The store itself returns only
/// `ValidationError` and `NotFound`; the server wraps backend faults as
/// `StoreUnavailable` and unparseable paths or bodies as
/// `MalformedRequest` before they reach a client.
#[derive(Clone, Copy, Debug, PartialEq, Eq, Structural)]
pub enum NoteError {
    ValidationError,
    NotFound,
    StoreUnavailable,
    MalformedRequest,
}

/// The HTTP status each error maps to, one to one.
pub fn error_status(e: &NoteError) -> (r: u16)
    ensures
        e is ValidationError ==> r == 400,
        e is NotFound ==> r == 404,
        e is StoreUnavailable ==> r == 503,
        e is MalformedRequest ==> r == 400,
{
    match e {
        NoteError::ValidationError => 400,
        NoteError::NotFound => 404,
        NoteError::StoreUnavailable => 503,
        NoteError::MalformedRequest => 400,
    }
}

/// The index of the first note with the given id, or -1 if none has it.
pub open spec fn note_index(s: Seq<NoteModel>, id: u64) -> int
    decreases s.len(),
{
    if s.len() == 0 {
        -1
    } else if s[0].id == id {
        0
    } else if note_index(s.drop_first(), id) < 0 {
        -1
    } else {
        1 + note_index(s.drop_first(), id)
    }
}

/// The note with the given id, if one is there.
pub open spec fn find_note(s: Seq<NoteModel>, id: u64) -> Option<NoteModel> {
    if note_index(s, id) >= 0 {
        Some(s[note_index(s, id)])
    } else {
        None
    }
}

/// `note_index` points at a note with the id sought, and before it no
/// note has that id; -1 means no note at all has it.
pub proof fn lemma_note_index_bounds(s: Seq<NoteModel>, id: u64)
    ensures
        note_index(s, id) == -1 || (0 <= note_index(s, id) < s.len()),
        note_index(s, id) >= 0 ==> s[note_index(s, id)].id == id,
        note_index(s, id) >= 0 ==> forall|j: int|
            0 <= j < note_index(s, id) ==> s[j].id != id,
        note_index(s, id) == -1 ==> forall|j: int| 0 <= j < s.len() ==> s[j].id != id,
    decreases s.len(),
{
    if s.len() != 0 && s[0].id != id {
        lemma_note_index_bounds(s.drop_first(), id);
        assert forall|j: int| 0 <= j < s.len() && s[j].id == id implies j
            >= 1 && s.drop_first()[j - 1].id == id by {
            assert(s.drop_first()[j - 1] == s[j]);
        }
        if note_index(s.drop_first(), id) >= 0 {
            assert forall|j: int| 0 <= j < note_index(s, id) implies s[j].id != id by {
                if j >= 1 {
                    assert(s[j] == s.drop_first()[j - 1]);
                }
            }
        }
    }
}

/// If position `i` holds the id and no earlier position does, then `i`
/// is exactly what `note_index` returns.
pub proof fn lemma_note_index_first(s: Seq<NoteModel>, id: u64, i: int)
    requires
        0 <= i < s.len(),
        s[i].id == id,
        forall|j: int| 0 <= j < i ==> s[j].id != id,
    ensures
        note_index(s, id) == i,
    decreases s.len(),
{
    if i > 0 {
        assert(s.drop_first()[i - 1] == s[i]);
        assert forall|j: int| 0 <= j < i - 1 implies s.drop_first()[j].id != id by {
            assert(s.drop_first()[j] == s[j + 1]);
        }
        lemma_note_index_first(s.drop_first(), id, i - 1);
    }
}

/// The mathematical image of the store: the notes in id order, and the
/// id the next creation will take.
pub ghost struct StoreModel {
    pub notes: Seq<NoteModel>,
    pub next_id: u64,
}

/// Ids strictly ascend along the sequence, so each id appears once.
pub open spec fn ids_ascending(s: Seq<NoteModel>) -> bool {
    forall|i: int, j: int| 0 <= i < j < s.len() ==> s[i].id < s[j].id
}

impl StoreModel {
    /// The store's invariant: ids ascend, every id is below the next one
    /// to be assigned, ids start at 1, and no note was updated before it
    /// was created.
    pub open spec fn wf(self) -> bool {
        &&& ids_ascending(self.notes)
        &&& self.next_id >= 1
        &&& forall|i: int| 0 <= i < self.notes.len() ==> (#[trigger] self.notes[i]).id
            < self.next_id
        &&& forall|i: int| 0 <= i < self.notes.len() ==> (#[trigger] self.notes[i]).updated_at
            >= self.notes[i].created_at
    }
}

/// The note a creation inserts: the assigned id, the given fields, and
/// both timestamps set to the creation instant.
pub open spec fn fresh_note(id: u64, title: Seq<char>, content: Seq<char>, now: u64) -> NoteModel {
    NoteModel { id, title, content, created_at: now, updated_at: now }
}

/// The note a patch leaves behind: supplied fields replaced, absent
/// fields kept, `created_at` and `id` untouched, and `updated_at`
/// refreshed to `now` — never moved backwards, so it stays at or above
/// its prior value even under a clock that stepped back.
pub open spec fn patched_note(n: NoteModel, p: PatchModel, now: u64) -> NoteModel {
    NoteModel {
        id: n.id,
        title: match p.title {
            Some(t) => t,
            None => n.title,
        },
        content: match p.content {
            Some(c) => c,
            None => n.content,
        },
        created_at: n.created_at,
        updated_at: if now >= n.updated_at {
            now
        } else {
            n.updated_at
        },
    }
}

/// The in-memory image of the persisted note table, with the store's
/// id counter. It realises the CRUD contract; the server around it only
/// moves rows between this structure and the relational backend.
pub struct NoteStore {
    notes: Vec<Note>,
    next_id: u64,
}

impl View for NoteStore {
    type V = StoreModel;

    closed spec fn view(&self) -> StoreModel {
        StoreModel { notes: self.notes@.map_values(|n: Note| n@), next_id: self.next_id }
    }
}

impl NoteStore {
    /// A store starts empty; the first note will take id 1.
    pub fn new() -> (r: NoteStore)
        ensures
            r@.wf(),
            r@.notes == Seq::<NoteModel>::empty(),
            r@.next_id == 1,
    {
        let r = NoteStore { notes: Vec::new(), next_id: 1 };
        proof {
            assert(r@.notes =~= Seq::<NoteModel>::empty());
        }
        r
    }

    /// The position of the note with this id, if the store holds one.
    fn position_of(&self, id: u64) -> (r: Option<usize>)
        ensures
            match r {
                Some(i) => i == note_index(self@.notes, id) && i < self.notes@.len(),
                None => note_index(self@.notes, id) == -1,
            },
    {
        let mut i: usize = 0;
        while i < self.notes.len()
            invariant
                i <= self.notes.len(),
                forall|j: int| 0 <= j < i ==> (#[trigger] self@.notes[j]).id != id,
            decreases self.notes.len() - i,
        {
            if self.notes[i].id == id {
                proof {
                    lemma_note_index_first(self@.notes, id, i as int);
                }
                return Some(i);
            }
            i = i + 1;
        }
        proof {
            lemma_note_index_bounds(self@.notes, id);
        }
        None
    }

    /// Read a single note. Returns the note whose id matches, and
    /// `NotFound` exactly when no note has that id.
    pub fn get_by_id(&self, id: u64) -> (r: Result<Note, NoteError>)
        ensures
            match r {
                Ok(n) => find_note(self@.notes, id) == Some(n@),
                Err(e) => e == NoteError::NotFound && find_note(self@.notes, id) is None,
            },
    {
        match self.position_of(id) {
            Some(i) => Ok(self.notes[i].duplicate()),
            None => Err(NoteError::NotFound),
        }
    }

    /// Whether another id can still be assigned, which `create` needs.
    /// Only a store that has taken every id there is says no.
    pub fn can_assign_id(&self) -> (r: bool)
        ensures
            r == (self@.next_id < u64::MAX),
    {
        self.next_id < u64::MAX
    }

    /// Create a note. The store assigns the next id and sets both
    /// timestamps to `now`; an empty title or content is rejected as
    /// `ValidationError` and leaves the store unchanged.
    pub fn create(&mut self, title: String, content: String, now: u64) -> (r: Result<
        Note,
        NoteError,
    >)
        requires
            old(self)@.wf(),
            old(self)@.next_id < u64::MAX,
        ensures
            final(self)@.wf(),
            ({
                if title@.len() == 0 || content@.len() == 0 {
                    &&& r matches Err(e) && e == NoteError::ValidationError
                    &&& final(self)@ == old(self)@
                } else {
                    &&& r matches Ok(n) && n@ == fresh_note(
                        old(self)@.next_id,
                        title@,
                        content@,
                        now,
                    )
                    &&& final(self)@.notes == old(self)@.notes.push(
                        fresh_note(old(self)@.next_id, title@, content@, now),
                    )
                    &&& final(self)@.next_id == old(self)@.next_id + 1
                }
            }),
    {
        if title.as_str().unicode_len() == 0 || content.as_str().unicode_len() == 0 {
            return Err(NoteError::ValidationError);
        }
        let note = Note { id: self.next_id, title, content, created_at: now, updated_at: now };
        let copy = note.duplicate();
        self.notes.push(note);
        self.next_id = self.next_id + 1;
        proof {
            assert(final(self)@.notes =~= old(self)@.notes.push(copy@));
        }
        Ok(copy)
    }

    /// Remove a note for good. `NotFound` exactly when no note has the
    /// id — so a second delete of the same id fails the same way, and
    /// nothing else changes.
    pub fn delete(&mut self, id: u64) -> (r: Result<(), NoteError>)
        requires
            old(self)@.wf(),
        ensures
            final(self)@.wf(),
            match r {
                Ok(_) => note_index(old(self)@.notes, id) >= 0 && final(self)@.notes == old(
                    self,
                )@.notes.remove(note_index(old(self)@.notes, id)) && final(self)@.next_id == old(
                    self,
                )@.next_id,
                Err(e) => e == NoteError::NotFound && note_index(old(self)@.notes, id) == -1
                    && final(self)@ == old(self)@,
            },
    {
        match self.position_of(id) {
            Some(i) => {
                self.notes.remove(i);
                proof {
                    assert(final(self)@.notes =~= old(self)@.notes.remove(i as int));
                    assert forall|a: int, b: int|
                        0 <= a < b < final(self)@.notes.len() implies (
                    #[trigger] final(self)@.notes[a]).id < (#[trigger] final(self)@.notes[b]).id by {
                        let s = old(self)@.notes;
                        let a0 = if a < i as int { a } else { a + 1 };
                        let b0 = if b < i as int { b } else { b + 1 };
                        assert(final(self)@.notes[a] == s[a0]);
                        assert(final(self)@.notes[b] == s[b0]);
                    }
                }
                Ok(())
            },
            None => Err(NoteError::NotFound),
        }
    }

    /// Apply a partial update. Only the supplied fields change; the id
    /// and `created_at` never do; `updated_at` is refreshed to `now` and
    /// never moves backwards. `NotFound` exactly when no note has the id,
    /// and then nothing changes.
    pub fn patch(&mut self, id: u64, p: &NotePatch, now: u64) -> (r: Result<Note, NoteError>)
        requires
            old(self)@.wf(),
        ensures
            final(self)@.wf(),
            match r {
                Ok(n) => {
                    let i = note_index(old(self)@.notes, id);
                    &&& i >= 0
                    &&& n@ == patched_note(old(self)@.notes[i], p@, now)
                    &&& final(self)@.notes == old(self)@.notes.update(i, n@)
                    &&& final(self)@.next_id == old(self)@.next_id
                },
                Err(e) => e == NoteError::NotFound && note_index(old(self)@.notes, id) == -1
                    && final(self)@ == old(self)@,
            },
    {
        match self.position_of(id) {
            Some(i) => {
                let prior = &self.notes[i];
                let new_title = match &p.title {
                    Some(t) => t.clone(),
                    None => prior.title.clone(),
                };
                let new_content = match &p.content {
                    Some(c) => c.clone(),
                    None => prior.content.clone(),
                };
                let updated = Note {
                    id: prior.id,
                    title: new_title,
                    content: new_content,
                    created_at: prior.created_at,
                    updated_at: if now >= prior.updated_at {
                        now
                    } else {
                        prior.updated_at
                    },
                };
                let result = updated.duplicate();
                self.notes.remove(i);
                self.notes.insert(i, updated);
                proof {
                    assert(final(self)@.notes =~= old(self)@.notes.update(i as int, result@));
                    assert forall|a: int, b: int|
                        0 <= a < b < final(self)@.notes.len() implies (
                    #[trigger] final(self)@.notes[a]).id < (#[trigger] final(self)@.notes[b]).id by {
                        assert(old(self)@.notes[a].id < old(self)@.notes[b].id);
                    }
                    assert forall|k: int| 0 <= k < final(self)@.notes.len() implies (
                    #[trigger] final(self)@.notes[k]).id < final(self)@.next_id
                        && final(self)@.notes[k].updated_at >= final(self)@.notes[k].created_at by {
                        assert(old(self)@.notes[k].id < old(self)@.next_id);
                        assert(old(self)@.notes[k].updated_at >= old(self)@.notes[k].created_at);
                    }
                }
                Ok(result)
            },
            None => Err(NoteError::NotFound),
        }
    }
}

/// A created note is found again under the id the store assigned it,
/// with the very title and content that were given, and with
/// `created_at` equal to `updated_at`: what `create` pushes is exactly
/// what a following `get_by_id` with the new id answers.
pub proof fn lemma_create_then_get(m: StoreModel, title: Seq<char>, content: Seq<char>, now: u64)
    requires
        m.wf(),
    ensures
        ({
            let nv = fresh_note(m.next_id, title, content, now);
            &&& find_note(m.notes.push(nv), m.next_id) == Some(nv)
            &&& nv.title == title
            &&& nv.content == content
            &&& nv.created_at == nv.updated_at
        }),
{
    let nv = fresh_note(m.next_id, title, content, now);
    let s = m.notes.push(nv);
    assert forall|j: int| 0 <= j < m.notes.len() implies (#[trigger] s[j]).id != m.next_id by {
        assert(s[j] == m.notes[j]);
        assert(m.notes[j].id < m.next_id);
    }
    lemma_note_index_first(s, m.next_id, m.notes.len() as int);
}

/// A patch that supplies only a title changes only the title: the
/// content, id and `created_at` of the patched note are those it had,
/// `updated_at` does not go below its prior value, every other note is
/// untouched, and the patched note is what a following read returns.
pub proof fn lemma_patch_changes_only_title(
    m: StoreModel,
    id: u64,
    new_title: Seq<char>,
    now: u64,
)
    requires
        m.wf(),
        note_index(m.notes, id) >= 0,
    ensures
        ({
            let i = note_index(m.notes, id);
            let n = m.notes[i];
            let pn = patched_note(n, PatchModel { title: Some(new_title), content: None }, now);
            &&& pn.title == new_title
            &&& pn.content == n.content
            &&& pn.id == n.id
            &&& pn.created_at == n.created_at
            &&& pn.updated_at >= n.updated_at
            &&& forall|j: int|
                0 <= j < m.notes.len() && j != i ==> #[trigger] m.notes.update(i, pn)[j]
                    == m.notes[j]
            &&& find_note(m.notes.update(i, pn), id) == Some(pn)
        }),
{
    let i = note_index(m.notes, id);
    let n = m.notes[i];
    let pn = patched_note(n, PatchModel { title: Some(new_title), content: None }, now);
    let t = m.notes.update(i, pn);
    lemma_note_index_bounds(m.notes, id);
    assert forall|j: int| 0 <= j < i implies (#[trigger] t[j]).id != id by {
        assert(t[j] == m.notes[j]);
    }
    lemma_note_index_first(t, id, i);
}

/// After a delete, the id is gone: a following `get_by_id` answers
/// `NotFound`, and a second delete of the same id answers `NotFound` as
/// well, since no note with the id remains.
pub proof fn lemma_delete_then_get(m: StoreModel, id: u64)
    requires
        m.wf(),
        note_index(m.notes, id) >= 0,
    ensures
        note_index(m.notes.remove(note_index(m.notes, id)), id) == -1,
        find_note(m.notes.remove(note_index(m.notes, id)), id) is None,
{
    let i = note_index(m.notes, id);
    let t = m.notes.remove(i);
    lemma_note_index_bounds(m.notes, id);
    assert forall|j: int| 0 <= j < t.len() implies (#[trigger] t[j]).id != id by {
        let j0 = if j < i {
            j
        } else {
            j + 1
        };
        assert(t[j] == m.notes[j0]);
        if j0 < i {
            assert(m.notes[j0].id < m.notes[i].id);
        } else {
            assert(m.notes[i].id < m.notes[j0].id);
        }
    }
    lemma_note_index_bounds(t, id);
}

/// The page of the sequence that `List` answers with: offset
/// `(page - 1) * page_size` (a page number of zero reads as the first
/// page), truncated at the end of the sequence. A page past the end is
/// empty, never an error.
pub open spec fn page_slice(s: Seq<NoteModel>, page: usize, page_size: usize) -> Seq<NoteModel> {
    let off = if page >= 1 {
        (page - 1) * page_size
    } else {
        0
    };
    if off >= s.len() {
        Seq::<NoteModel>::empty()
    } else if off + page_size <= s.len() {
        s.subrange(off, off + page_size)
    } else {
        s.subrange(off, s.len() as int)
    }
}

impl NoteStore {
    /// Read a page of notes in id order: the `page`-th group of
    /// `page_size` notes, pages counted from 1. A page beyond the end
    /// yields an empty sequence, not an error.
    pub fn list(&self, page: usize, page_size: usize) -> (r: Vec<Note>)
        ensures
            r@.map_values(|n: Note| n@) == page_slice(self@.notes, page, page_size),
    {
        let len = self.notes.len();
        let start_opt: Option<usize> = if page >= 1 {
            (page - 1).checked_mul(page_size)
        } else {
            Some(0)
        };
        let start: usize = match start_opt {
            Some(s0) => s0,
            None => {
                let empty: Vec<Note> = Vec::new();
                proof {
                    assert(empty@.map_values(|n: Note| n@) =~= page_slice(
                        self@.notes,
                        page,
                        page_size,
                    ));
                }
                return empty;
            },
        };
        let mut out: Vec<Note> = Vec::new();
        if start >= len {
            proof {
                assert(out@.map_values(|n: Note| n@) =~= page_slice(self@.notes, page, page_size));
            }
            return out;
        }
        let end: usize = if page_size > len - start {
            len
        } else {
            start + page_size
        };
        let mut i: usize = start;
        while i < end
            invariant
                start <= i <= end <= len,
                len == self@.notes.len(),
                out@.map_values(|n: Note| n@) =~= self@.notes.subrange(start as int, i as int),
            decreases end - i,
        {
            out.push(self.notes[i].duplicate());
            proof {
                broadcast use vstd::prelude::Seq::lemma_push_map_commute;

                assert(out@.map_values(|n: Note| n@) =~= self@.notes.subrange(
                    start as int,
                    (i + 1) as int,
                ));
            }
            i = i + 1;
        }
        proof {
            assert(out@.map_values(|n: Note| n@) =~= page_slice(self@.notes, page, page_size));
        }
        out
    }
}

} // verus!
