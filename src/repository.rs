use vstd::prelude::*;
use crate::note::{NoteModel, NoteView};

verus! {

/// No two notes of `s` share an identifier.
pub open spec fn ids_unique(s: Seq<NoteView>) -> bool {
    forall|i: int, j: int|
        0 <= i < s.len() && 0 <= j < s.len() && i != j ==> #[trigger] s[i].id != #[trigger] s[j].id
}

/// The invariant of a stored sequence of notes: identifiers are unique and
/// no note was modified before it was created.
pub open spec fn notes_wf(s: Seq<NoteView>) -> bool {
    &&& ids_unique(s)
    &&& forall|i: int| 0 <= i < s.len() ==> (#[trigger] s[i]).well_formed()
}

/// Some note of `s` has identifier `id`.
pub open spec fn has_id(s: Seq<NoteView>, id: u128) -> bool {
    exists|i: int| 0 <= i < s.len() && (#[trigger] s[i]).id == id
}

/// The position of the note with identifier `id` in `s`, where there is one.
pub open spec fn index_of(s: Seq<NoteView>, id: u128) -> int {
    choose|i: int| 0 <= i < s.len() && (#[trigger] s[i]).id == id
}

/// The note of `s` with identifier `id`, or `None`.
pub open spec fn lookup(s: Seq<NoteView>, id: u128) -> Option<NoteView> {
    if has_id(s, id) {
        Some(s[index_of(s, id)])
    } else {
        None
    }
}

/// The note `n` with a new title and content; its modification time moves
/// to `now`, and never backwards.
pub open spec fn revise(n: NoteView, title: Seq<char>, content: Seq<char>, now: int) -> NoteView {
    NoteView {
        title,
        content,
        updated_at: if now > n.updated_at { now } else { n.updated_at },
        ..n
    }
}

/// `s` after the note with identifier `id`, if any, was revised.
pub open spec fn revised(s: Seq<NoteView>, id: u128, title: Seq<char>, content: Seq<char>, now: int) -> Seq<
    NoteView,
> {
    s.map_values(|n: NoteView| if n.id == id { revise(n, title, content, now) } else { n })
}

/// `s` after the note with identifier `id`, if any, was removed.
pub open spec fn removed(s: Seq<NoteView>, id: u128) -> Seq<NoteView> {
    if has_id(s, id) {
        s.remove(index_of(s, id))
    } else {
        s
    }
}

/// A freshly created note: both timestamps are the creation time.
pub open spec fn fresh_note(id: u128, title: Seq<char>, content: Seq<char>, now: int) -> NoteView {
    NoteView { id, title, content, created_at: now, updated_at: now }
}

/// The note at position `i` is the one that `lookup` finds by its identifier.
pub proof fn lemma_lookup_at(s: Seq<NoteView>, i: int)
    requires
        ids_unique(s),
        0 <= i < s.len(),
    ensures
        has_id(s, s[i].id),
        index_of(s, s[i].id) == i,
        lookup(s, s[i].id) == Some(s[i]),
{
    assert(has_id(s, s[i].id));
    let j = index_of(s, s[i].id);
    assert(s[j].id == s[i].id);
}

/// Removing one note keeps the others where `lookup` finds them.
pub proof fn lemma_lookup_removed(s: Seq<NoteView>, id: u128, k: u128)
    requires
        notes_wf(s),
    ensures
        notes_wf(removed(s, id)),
        lookup(removed(s, id), id) is None,
        k != id ==> lookup(removed(s, id), k) == lookup(s, k),
{
    if has_id(s, id) {
        let i = index_of(s, id);
        let r = s.remove(i);
        assert forall|a: int, b: int| 0 <= a < r.len() && 0 <= b < r.len() && a != b implies #[trigger] r[a].id != #[trigger] r[b].id by {
            let a0 = if a < i { a } else { a + 1 };
            let b0 = if b < i { b } else { b + 1 };
            assert(r[a] == s[a0] && r[b] == s[b0]);
        }
        assert forall|a: int| 0 <= a < r.len() implies (#[trigger] r[a]).well_formed() by {
            let a0 = if a < i { a } else { a + 1 };
            assert(r[a] == s[a0]);
        }
        if has_id(r, id) {
            let a = index_of(r, id);
            let a0 = if a < i { a } else { a + 1 };
            assert(r[a] == s[a0]);
        }
        if k != id {
            if has_id(s, k) {
                let j = index_of(s, k);
                let j1 = if j < i { j } else { j - 1 };
                assert(r[j1] == s[j]);
                lemma_lookup_at(r, j1);
            } else if has_id(r, k) {
                let a = index_of(r, k);
                let a0 = if a < i { a } else { a + 1 };
                assert(r[a] == s[a0]);
            }
        }
    }
}

/// Revising one note changes only that note, and keeps the invariant.
pub proof fn lemma_lookup_revised(
    s: Seq<NoteView>,
    id: u128,
    title: Seq<char>,
    content: Seq<char>,
    now: int,
    k: u128,
)
    requires
        notes_wf(s),
    ensures
        notes_wf(revised(s, id, title, content, now)),
        lookup(revised(s, id, title, content, now), k) == if k == id {
            match lookup(s, id) {
                Some(n) => Some(revise(n, title, content, now)),
                None => None,
            }
        } else {
            lookup(s, k)
        },
{
    let r = revised(s, id, title, content, now);
    assert forall|a: int| 0 <= a < r.len() implies (#[trigger] r[a]).id == s[a].id by {}
    assert forall|a: int| 0 <= a < r.len() implies (#[trigger] r[a]).well_formed() by {
        assert(s[a].well_formed());
    }
    assert forall|a: int, b: int| 0 <= a < r.len() && 0 <= b < r.len() && a != b implies #[trigger] r[a].id != #[trigger] r[b].id by {
        assert(s[a].id != s[b].id);
    }
    if has_id(s, k) {
        let j = index_of(s, k);
        lemma_lookup_at(r, j);
    } else if has_id(r, k) {
        let a = index_of(r, k);
        assert(r[a].id == s[a].id);
    }
}

/// Appending a note with a new identifier keeps the others where `lookup`
/// finds them, and finds the new one.
pub proof fn lemma_lookup_pushed(s: Seq<NoteView>, n: NoteView, k: u128)
    requires
        notes_wf(s),
        !has_id(s, n.id),
        n.well_formed(),
    ensures
        notes_wf(s.push(n)),
        lookup(s.push(n), n.id) == Some(n),
        k != n.id ==> lookup(s.push(n), k) == lookup(s, k),
{
    let r = s.push(n);
    assert forall|a: int, b: int| 0 <= a < r.len() && 0 <= b < r.len() && a != b implies #[trigger] r[a].id != #[trigger] r[b].id by {
        if a < s.len() && b < s.len() {
            assert(s[a].id != s[b].id);
        } else if a < s.len() {
            assert(r[a] == s[a]);
        } else {
            assert(r[b] == s[b]);
        }
    }
    assert forall|a: int| 0 <= a < r.len() implies (#[trigger] r[a]).well_formed() by {
        if a < s.len() {
            assert(r[a] == s[a]);
        }
    }
    lemma_lookup_at(r, s.len() as int);
    if k != n.id {
        if has_id(s, k) {
            let j = index_of(s, k);
            assert(r[j] == s[j]);
            lemma_lookup_at(r, j);
        } else if has_id(r, k) {
            let a = index_of(r, k);
            assert(r[a] == s[a]);
        }
    }
}

/// A note just created under a new identifier is found by that identifier,
/// with the title and content it was given and equal creation and
/// modification times.
pub proof fn lemma_round_trip(s: Seq<NoteView>, id: u128, title: Seq<char>, content: Seq<char>, now: int)
    requires
        notes_wf(s),
        !has_id(s, id),
    ensures
        lookup(s.push(fresh_note(id, title, content, now)), id) matches Some(n) && n.title == title
            && n.content == content && n.created_at == n.updated_at,
{
    lemma_lookup_pushed(s, fresh_note(id, title, content, now), id);
}

/// Updating a note never moves its modification time backwards and keeps
/// its creation time.
pub proof fn lemma_update_monotone(
    s: Seq<NoteView>,
    id: u128,
    title: Seq<char>,
    content: Seq<char>,
    now: int,
)
    requires
        notes_wf(s),
        has_id(s, id),
    ensures
        lookup(revised(s, id, title, content, now), id) matches Some(n) && n.updated_at >= lookup(
            s,
            id,
        )->Some_0.updated_at && n.created_at == lookup(s, id)->Some_0.created_at && n.title == title
            && n.content == content,
{
    lemma_lookup_revised(s, id, title, content, now, id);
}

/// After a note is deleted, looking it up finds nothing.
pub proof fn lemma_delete_final(s: Seq<NoteView>, id: u128)
    requires
        notes_wf(s),
    ensures
        lookup(removed(s, id), id) is None,
{
    lemma_lookup_removed(s, id, id);
}

/// Deleting a note twice is deleting it once: the second finds no note and
/// changes nothing.
pub proof fn lemma_delete_idempotent(s: Seq<NoteView>, id: u128)
    requires
        notes_wf(s),
    ensures
        !has_id(removed(s, id), id),
        removed(removed(s, id), id) == removed(s, id),
{
    lemma_lookup_removed(s, id, id);
}

/// A stored note stays visible, unchanged, to every later request that
/// creates, updates or deletes another note.
pub proof fn lemma_isolation(
    s: Seq<NoteView>,
    id: u128,
    other: u128,
    title: Seq<char>,
    content: Seq<char>,
    now: int,
)
    requires
        notes_wf(s),
        has_id(s, id),
        other != id,
    ensures
        lookup(s, id) is Some,
        !has_id(s, other) ==> lookup(s.push(fresh_note(other, title, content, now)), id) == lookup(s, id),
        lookup(revised(s, other, title, content, now), id) == lookup(s, id),
        lookup(removed(s, other), id) == lookup(s, id),
{
    if !has_id(s, other) {
        lemma_lookup_pushed(s, fresh_note(other, title, content, now), id);
    }
    lemma_lookup_revised(s, other, title, content, now, id);
    lemma_lookup_removed(s, other, id);
}

/// Updating an identifier that no note has changes nothing and finds nothing.
pub proof fn lemma_update_unknown(
    s: Seq<NoteView>,
    id: u128,
    title: Seq<char>,
    content: Seq<char>,
    now: int,
)
    requires
        notes_wf(s),
        !has_id(s, id),
    ensures
        revised(s, id, title, content, now) == s,
        lookup(revised(s, id, title, content, now), id) is None,
{
    assert(revised(s, id, title, content, now) =~= s);
}

/// What a request does to the stored notes, as the handlers' contracts state
/// it: a read, or a create that failed, leaves them as they were; a create
/// appends a fresh note; an update revises one note; a delete removes one.
pub ghost enum NoteRequest {
    Unchanged,
    Create(NoteView),
    Update(u128, Seq<char>, Seq<char>, int),
    Delete(u128),
}

/// The notes after request `q` on `s`. A create under an identifier that a
/// stored note has changes nothing.
pub open spec fn apply(s: Seq<NoteView>, q: NoteRequest) -> Seq<NoteView> {
    match q {
        NoteRequest::Unchanged => s,
        NoteRequest::Create(n) => if has_id(s, n.id) || !n.well_formed() {
            s
        } else {
            s.push(n)
        },
        NoteRequest::Update(k, title, content, now) => revised(s, k, title, content, now),
        NoteRequest::Delete(k) => removed(s, k),
    }
}

/// The notes after the requests `qs` on `s`, in order.
pub open spec fn apply_all(s: Seq<NoteView>, qs: Seq<NoteRequest>) -> Seq<NoteView>
    decreases qs.len(),
{
    if qs.len() == 0 {
        s
    } else {
        apply(apply_all(s, qs.drop_last()), qs.last())
    }
}

/// Request `q` updates or deletes the note with identifier `id`.
pub open spec fn touches(q: NoteRequest, id: u128) -> bool {
    match q {
        NoteRequest::Update(k, _, _, _) => k == id,
        NoteRequest::Delete(k) => k == id,
        _ => false,
    }
}

/// A stored note is found, unchanged, after any run of requests that neither
/// updates nor deletes it, whoever made them.
pub proof fn lemma_untouched(s: Seq<NoteView>, qs: Seq<NoteRequest>, id: u128)
    requires
        notes_wf(s),
        has_id(s, id),
        forall|i: int| 0 <= i < qs.len() ==> !touches(#[trigger] qs[i], id),
    ensures
        notes_wf(apply_all(s, qs)),
        lookup(apply_all(s, qs), id) == lookup(s, id),
    decreases qs.len(),
{
    if qs.len() > 0 {
        let prefix = qs.drop_last();
        assert forall|i: int| 0 <= i < prefix.len() implies !touches(#[trigger] prefix[i], id) by {
            assert(prefix[i] == qs[i]);
        }
        lemma_untouched(s, prefix, id);
        let t = apply_all(s, prefix);
        assert(!touches(qs[qs.len() - 1], id));
        match qs.last() {
            NoteRequest::Unchanged => {},
            NoteRequest::Create(n) => {
                if !(has_id(t, n.id) || !n.well_formed()) {
                    lemma_lookup_pushed(t, n, id);
                }
            },
            NoteRequest::Update(k, title, content, now) => {
                lemma_lookup_revised(t, k, title, content, now, id);
            },
            NoteRequest::Delete(k) => {
                lemma_lookup_removed(t, k, id);
            },
        }
    }
}

/// A note created under a new identifier is found by that identifier, with
/// the title and content it was given and equal timestamps, and is listed,
/// after any later run of requests that neither updates nor deletes it.
pub proof fn lemma_round_trip_later(
    s: Seq<NoteView>,
    id: u128,
    title: Seq<char>,
    content: Seq<char>,
    now: int,
    qs: Seq<NoteRequest>,
)
    requires
        notes_wf(s),
        !has_id(s, id),
        forall|i: int| 0 <= i < qs.len() ==> !touches(#[trigger] qs[i], id),
    ensures
        lookup(apply_all(s.push(fresh_note(id, title, content, now)), qs), id) == Some(
            fresh_note(id, title, content, now),
        ),
        apply_all(s.push(fresh_note(id, title, content, now)), qs).contains(
            fresh_note(id, title, content, now),
        ),
        fresh_note(id, title, content, now).created_at == fresh_note(id, title, content, now).updated_at,
{
    let n = fresh_note(id, title, content, now);
    lemma_lookup_pushed(s, n, id);
    lemma_untouched(s.push(n), qs, id);
    lemma_listed(apply_all(s.push(n), qs), id);
}

/// A note created by one request is seen, unchanged, by every later request
/// until one updates or deletes it: both by its identifier and in the list.
pub proof fn lemma_visible_later(s: Seq<NoteView>, n: NoteView, qs: Seq<NoteRequest>)
    requires
        notes_wf(s),
        !has_id(s, n.id),
        n.well_formed(),
        forall|i: int| 0 <= i < qs.len() ==> !touches(#[trigger] qs[i], n.id),
    ensures
        lookup(apply_all(apply(s, NoteRequest::Create(n)), qs), n.id) == Some(n),
        apply_all(apply(s, NoteRequest::Create(n)), qs).contains(n),
{
    lemma_lookup_pushed(s, n, n.id);
    lemma_untouched(s.push(n), qs, n.id);
    lemma_listed(apply_all(s.push(n), qs), n.id);
}

/// A note that `lookup` finds is among the listed notes.
pub proof fn lemma_listed(s: Seq<NoteView>, id: u128)
    requires
        lookup(s, id) is Some,
    ensures
        s.contains(lookup(s, id)->Some_0),
{
    assert(s[index_of(s, id)] == lookup(s, id)->Some_0);
}

/// Why the repository refused an operation.
#[derive(Debug)]
pub enum RepositoryError {
    /// The identifier asked for was issued before.
    DuplicateId,
}

/// The note repository: every note, in the order of creation, and every
/// identifier it ever handed out, in the order of issue.
pub struct NoteRepository {
    notes: Vec<NoteModel>,
    issued: Vec<u128>,
}

impl View for NoteRepository {
    type V = Seq<NoteView>;

    closed spec fn view(&self) -> Seq<NoteView> {
        self.notes@.map_values(|n: NoteModel| n@)
    }
}

/// The notes that an optional note shows.
pub open spec fn option_view(o: Option<NoteModel>) -> Option<NoteView> {
    match o {
        Some(n) => Some(n@),
        None => None,
    }
}

/// The invariant of a store: its notes are well formed, and every stored
/// identifier is among those issued.
pub open spec fn store_wf(s: Seq<NoteView>, issued: Seq<u128>) -> bool {
    &&& notes_wf(s)
    &&& forall|i: int| 0 <= i < s.len() ==> issued.contains(#[trigger] s[i].id)
}

impl NoteRepository {
    /// Every identifier this repository ever stored a note under, deleted
    /// notes included.
    pub closed spec fn issued_ids(&self) -> Seq<u128> {
        self.issued@
    }

    /// The repository's invariant.
    pub open spec fn wf(&self) -> bool {
        store_wf(self@, self.issued_ids())
    }

    /// An empty repository that has issued no identifier.
    pub fn new() -> (r: NoteRepository)
        ensures
            r.wf(),
            r@ == Seq::<NoteView>::empty(),
            r.issued_ids() == Seq::<u128>::empty(),
    {
        let r = NoteRepository { notes: Vec::new(), issued: Vec::new() };
        assert(r@ =~= Seq::<NoteView>::empty());
        r
    }

    /// Whether `id` was ever issued.
    fn was_issued(&self, id: u128) -> (r: bool)
        ensures
            r == self.issued_ids().contains(id),
    {
        let mut i: usize = 0;
        while i < self.issued.len()
            invariant
                i <= self.issued@.len(),
                forall|j: int| 0 <= j < i ==> self.issued@[j] != id,
            decreases self.issued@.len() - i,
        {
            if self.issued[i] == id {
                assert(self.issued@[i as int] == id);
                return true;
            }
            i = i + 1;
        }
        false
    }

    /// The position of the note with identifier `id`, if there is one.
    fn find(&self, id: u128) -> (r: Option<usize>)
        requires
            self.wf(),
        ensures
            r is None <==> !has_id(self@, id),
            r matches Some(i) ==> i < self@.len() && index_of(self@, id) == i && self@[i as int].id == id,
    {
        let mut i: usize = 0;
        while i < self.notes.len()
            invariant
                self.wf(),
                i <= self.notes@.len(),
                self@.len() == self.notes@.len(),
                forall|j: int| 0 <= j < i ==> (#[trigger] self@[j]).id != id,
            decreases self.notes@.len() - i,
        {
            if self.notes[i].id == id {
                assert(self@[i as int] == self.notes@[i as int]@);
                proof {
                    lemma_lookup_at(self@, i as int);
                }
                return Some(i);
            }
            assert(self@[i as int] == self.notes@[i as int]@);
            i = i + 1;
        }
        None
    }

    /// Every note, in the order of creation.
    pub fn get_notes(&self) -> (r: Vec<NoteModel>)
        requires
            self.wf(),
        ensures
            r@.map_values(|n: NoteModel| n@) == self@,
    {
        let mut out: Vec<NoteModel> = Vec::new();
        let mut i: usize = 0;
        while i < self.notes.len()
            invariant
                i <= self.notes@.len(),
                out@.len() == i,
                forall|j: int| 0 <= j < i ==> (#[trigger] out@[j])@ == self.notes@[j]@,
            decreases self.notes@.len() - i,
        {
            out.push(self.notes[i].duplicate());
            i = i + 1;
        }
        assert(out@.map_values(|n: NoteModel| n@) =~= self@);
        out
    }

    /// The note with identifier `id`, or `None` where there is none.
    pub fn get_note_id(&self, id: u128) -> (r: Option<NoteModel>)
        requires
            self.wf(),
        ensures
            option_view(r) == lookup(self@, id),
    {
        match self.find(id) {
            Some(i) => {
                assert(self@[i as int] == self.notes@[i as int]@);
                Some(self.notes[i].duplicate())
            },
            None => None,
        }
    }

    /// Stores a new note under `id`, created and last modified at `now`.
    /// Fails, changing nothing, where `id` was ever issued before, so that
    /// no identifier is used twice, not even after a delete.
    pub fn create_note(&mut self, id: u128, title: String, content: String, now: i64) -> (r: Result<
        NoteModel,
        RepositoryError,
    >)
        requires
            old(self).wf(),
        ensures
            final(self).wf(),
            old(self).issued_ids().contains(id) ==> r is Err && final(self)@ == old(self)@
                && final(self).issued_ids() == old(self).issued_ids(),
            !old(self).issued_ids().contains(id) ==> (r matches Ok(n) && n@ == fresh_note(id, title@, content@, now as int)
                && !has_id(old(self)@, id) && final(self)@ == old(self)@.push(n@)
                && final(self).issued_ids() == old(self).issued_ids().push(id)),
    {
        if self.was_issued(id) {
            return Err(RepositoryError::DuplicateId);
        }
        let ghost before = self@;
        let ghost issued_before = self.issued_ids();
        assert(!has_id(before, id)) by {
            if has_id(before, id) {
                let j = index_of(before, id);
                assert(issued_before.contains(before[j].id));
            }
        }
        let n = NoteModel { id, title, content, created_at: now, updated_at: now };
        let out = n.duplicate();
        proof {
            lemma_lookup_pushed(before, n@, id);
        }
        self.notes.push(n);
        self.issued.push(id);
        assert(self@ =~= before.push(out@));
        assert forall|i: int| 0 <= i < self@.len() implies self.issued_ids().contains(#[trigger] self@[i].id) by {
            if i < before.len() {
                assert(self@[i] == before[i]);
                assert(issued_before.contains(before[i].id));
                let k = choose|k: int| 0 <= k < issued_before.len() && issued_before[k] == before[i].id;
                assert(self.issued_ids()[k] == issued_before[k]);
            } else {
                assert(self.issued_ids()[issued_before.len() as int] == id);
            }
        }
        Ok(out)
    }

    /// Replaces the title and content of the note with identifier `id` and
    /// moves its modification time to `now` (never backwards). Returns the
    /// note as it now stands, or `None`, changing nothing, where there is no
    /// such note.
    pub fn update_note(&mut self, id: u128, title: String, content: String, now: i64) -> (r: Option<
        NoteModel,
    >)
        requires
            old(self).wf(),
        ensures
            final(self).wf(),
            final(self)@ == revised(old(self)@, id, title@, content@, now as int),
            final(self).issued_ids() == old(self).issued_ids(),
            option_view(r) == lookup(final(self)@, id),
            r is None <==> !has_id(old(self)@, id),
    {
        let ghost before = self@;
        proof {
            lemma_lookup_revised(before, id, title@, content@, now as int, id);
        }
        let r = match self.find(id) {
            Some(i) => {
                let created_at = self.notes[i].created_at;
                let prior = self.notes[i].updated_at;
                let updated_at = if now > prior { now } else { prior };
                let n = NoteModel { id, title, content, created_at, updated_at };
                let out = n.duplicate();
                assert(before[i as int] == self.notes@[i as int]@);
                self.notes.set(i, n);
                assert(self@ =~= revised(before, id, title@, content@, now as int)) by {
                    assert forall|j: int| 0 <= j < before.len() && j != i implies before[j].id != id by {
                        assert(before[j].id != before[i as int].id);
                    }
                }
                proof {
                    lemma_lookup_at(self@, i as int);
                }
                Some(out)
            },
            None => {
                assert(before =~= revised(before, id, title@, content@, now as int));
                None
            },
        };
        assert forall|i: int| 0 <= i < self@.len() implies self.issued_ids().contains(#[trigger] self@[i].id) by {
            assert(self@[i].id == before[i].id);
            assert(self.issued_ids().contains(before[i].id));
        }
        r
    }

    /// Removes the note with identifier `id`; where there is none, nothing
    /// changes and that is no error. The identifier stays issued.
    pub fn delete(&mut self, id: u128)
        requires
            old(self).wf(),
        ensures
            final(self).wf(),
            final(self)@ == removed(old(self)@, id),
            final(self).issued_ids() == old(self).issued_ids(),
            !has_id(final(self)@, id),
    {
        let ghost before = self@;
        proof {
            lemma_lookup_removed(before, id, id);
        }
        match self.find(id) {
            Some(i) => {
                self.notes.remove(i);
                assert(self@ =~= before.remove(i as int));
                assert forall|a: int| 0 <= a < self@.len() implies self.issued_ids().contains(#[trigger] self@[a].id) by {
                    let a0 = if a < i { a } else { a + 1 };
                    assert(self@[a] == before[a0]);
                    assert(self.issued_ids().contains(before[a0].id));
                }
            },
            None => {},
        }
    }
}

} // verus!
