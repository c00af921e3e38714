use vstd::prelude::*;

use crate::http::NoteError;
use crate::note::{merge_update, merged_view, Note, NoteView, UpdateFields};

verus! {

// --- what a stored sequence of records can be said to hold ---

pub open spec fn contains_id(s: Seq<NoteView>, id: u128) -> bool {
    exists|i: int| 0 <= i < s.len() && (#[trigger] s[i]).id == id
}

pub open spec fn contains_title(s: Seq<NoteView>, title: Seq<char>) -> bool {
    exists|i: int| 0 <= i < s.len() && (#[trigger] s[i]).title == title
}

/// A record other than the one carrying `id` already carries `title`.
pub open spec fn title_taken_by_other(s: Seq<NoteView>, id: u128, title: Seq<char>) -> bool {
    exists|i: int| 0 <= i < s.len() && (#[trigger] s[i]).id != id && s[i].title == title
}

pub open spec fn contains_note(s: Seq<NoteView>, n: NoteView) -> bool {
    exists|i: int| 0 <= i < s.len() && (#[trigger] s[i]) == n
}

pub open spec fn sorted_by_id(s: Seq<NoteView>) -> bool {
    forall|i: int, j: int|
        0 <= i < j < s.len() ==> (#[trigger] s[i]).id < (#[trigger] s[j]).id
}

pub open spec fn titles_distinct(s: Seq<NoteView>) -> bool {
    forall|i: int, j: int|
        0 <= i < j < s.len() ==> (#[trigger] s[i]).title != (#[trigger] s[j]).title
}

pub open spec fn all_wf(s: Seq<NoteView>) -> bool {
    forall|i: int| 0 <= i < s.len() ==> (#[trigger] s[i]).wf()
}

pub open spec fn store_wf(s: Seq<NoteView>) -> bool {
    sorted_by_id(s) && titles_distinct(s) && all_wf(s)
}

/// The category a create stores: the given one, or empty when absent.
pub open spec fn category_or_default(category: Option<String>) -> Seq<char> {
    match category {
        Option::Some(c) => c@,
        Option::None => Seq::<char>::empty(),
    }
}

/// The record a create inserts: both timestamps at `now`, not yet published.
pub open spec fn created_view(
    id: u128,
    title: Seq<char>,
    content: Seq<char>,
    category: Option<String>,
    now: i64,
) -> NoteView {
    NoteView {
        id,
        title,
        content,
        category: category_or_default(category),
        published: false,
        created_at: now,
        updated_at: now,
    }
}

/// The second sequence is the first with `nv` inserted at some position.
pub open spec fn inserted(s: Seq<NoteView>, s2: Seq<NoteView>, nv: NoteView) -> bool {
    exists|pos: int| 0 <= pos <= s.len() && s2 == #[trigger] s.insert(pos, nv)
}

/// How long the page starting at `offset`, at most `limit` long, is in a
/// store of `len` records.
pub open spec fn page_len(len: int, limit: int, offset: int) -> int {
    if offset >= len {
        0
    } else if offset + limit <= len {
        limit
    } else {
        len - offset
    }
}

// --- the calls into outside crates that the store draws on ---

/// Relies on `chrono::Utc::now` for the current instant, carried as
/// microseconds since the Unix epoch. The value depends on the machine's
/// clock, so nothing is promised of it; callers handle every value.
#[verifier::external_body]
fn now_micros() -> i64 {
    chrono::Utc::now().timestamp_micros()
}

/// Relies on `uuid::Uuid::new_v4` for a fresh identifier, carried as the
/// uuid's 128-bit value. The draw is random, so nothing is promised of it;
/// callers handle every value, a colliding one included.
#[verifier::external_body]
fn fresh_id() -> u128 {
    uuid::Uuid::new_v4().as_u128()
}

// --- the store ---

/// An in-memory image of the notes table: the records in ascending id order,
/// with pairwise distinct titles.
pub struct NoteStore {
    notes: Vec<Note>,
}

impl View for NoteStore {
    type V = Seq<NoteView>;

    closed spec fn view(&self) -> Seq<NoteView> {
        Seq::new(self.notes@.len(), |i: int| self.notes@[i]@)
    }
}

impl NoteStore {
    /// The store's invariant: ids strictly ascend (so each id occurs once),
    /// titles are pairwise distinct, and every record is well formed.
    pub open spec fn wf(&self) -> bool {
        store_wf(self@)
    }

    /// An empty store.
    pub fn new() -> (r: NoteStore)
        ensures
            r.wf(),
            r@ == Seq::<NoteView>::empty(),
    {
        let r = NoteStore { notes: Vec::new() };
        proof {
            assert(r@ =~= Seq::<NoteView>::empty());
        }
        r
    }

    /// How many records the store holds.
    pub fn len(&self) -> (r: usize)
        ensures
            r == self@.len(),
    {
        self.notes.len()
    }

    /// The position of the record carrying `id`, when one does.
    fn find_by_id(&self, id: u128) -> (r: Option<usize>)
        ensures
            r matches Some(i) ==> i < self@.len() && self@[i as int].id == id,
            r is Some <==> contains_id(self@, id),
    {
        let n = self.notes.len();
        let mut i: usize = 0;
        while i < n
            invariant
                n == self@.len(),
                n == self.notes.len(),
                0 <= i <= n,
                forall|k: int| 0 <= k < i ==> (#[trigger] self@[k]).id != id,
            decreases n - i,
        {
            if self.notes[i].id == id {
                proof {
                    assert(self@[i as int].id == id);
                }
                return Some(i);
            }
            i += 1;
        }
        None
    }

    /// The position of the record carrying `title`, when one does.
    fn find_by_title(&self, title: &String) -> (r: Option<usize>)
        ensures
            r matches Some(i) ==> i < self@.len() && self@[i as int].title == title@,
            r is Some <==> contains_title(self@, title@),
    {
        let n = self.notes.len();
        let mut i: usize = 0;
        while i < n
            invariant
                n == self@.len(),
                n == self.notes.len(),
                0 <= i <= n,
                forall|k: int| 0 <= k < i ==> (#[trigger] self@[k]).title != title@,
            decreases n - i,
        {
            if self.notes[i].title == *title {
                proof {
                    assert(self@[i as int].title == title@);
                }
                return Some(i);
            }
            i += 1;
        }
        None
    }

    /// The insertion point of `id`: the first position whose record's id is
    /// at least `id`.
    fn lower_bound(&self, id: u128) -> (r: usize)
        requires
            sorted_by_id(self@),
        ensures
            r <= self@.len(),
            forall|k: int| 0 <= k < r ==> (#[trigger] self@[k]).id < id,
            r < self@.len() ==> self@[r as int].id >= id,
    {
        let n = self.notes.len();
        let mut i: usize = 0;
        while i < n
            invariant
                n == self@.len(),
                n == self.notes.len(),
                0 <= i <= n,
                forall|k: int| 0 <= k < i ==> (#[trigger] self@[k]).id < id,
            decreases n - i,
        {
            if self.notes[i].id >= id {
                return i;
            }
            i += 1;
        }
        n
    }

    /// Fetches the record carrying `id`; fails with `NotFoundError` exactly
    /// when no record does. In a well-formed store the id pins the record:
    /// what comes back is the one stored record carrying it.
    pub fn get_by_id(&self, id: u128) -> (r: Result<Note, NoteError>)
        requires
            self.wf(),
        ensures
            r is Ok <==> contains_id(self@, id),
            r matches Ok(n) ==> n@.id == id && contains_note(self@, n@),
            r matches Err(e) ==> e == NoteError::NotFound,
    {
        match self.find_by_id(id) {
            Some(i) => {
                let n = self.notes[i].clone();
                proof {
                    assert(self@[i as int] == n@);
                }
                Ok(n)
            },
            None => Err(NoteError::NotFound),
        }
    }

    /// The page of records `offset` from the front, at most `limit` long, in
    /// storage order. The page holds at most `limit` records and their ids
    /// strictly ascend.
    pub fn list(&self, limit: usize, offset: usize) -> (r: Vec<Note>)
        requires
            self.wf(),
        ensures
            r@.len() <= limit,
            r@.len() == page_len(self@.len() as int, limit as int, offset as int),
            forall|k: int| 0 <= k < r@.len() ==> (#[trigger] r@[k])@ == self@[offset + k],
            forall|k: int, l: int|
                0 <= k < l < r@.len() ==> (#[trigger] r@[k])@.id < (#[trigger] r@[l])@.id,
    {
        let n = self.notes.len();
        let start = if offset > n {
            n
        } else {
            offset
        };
        let end = if limit > n - start {
            n
        } else {
            start + limit
        };
        let mut page: Vec<Note> = Vec::new();
        let mut i: usize = start;
        while i < end
            invariant
                n == self@.len(),
                n == self.notes.len(),
                start <= i <= end <= n,
                start == if offset > n { n as int } else { offset as int },
                end == if limit > n - start { n as int } else { start + limit },
                page@.len() == i - start,
                forall|k: int| 0 <= k < page@.len() ==> (#[trigger] page@[k])@ == self@[start + k],
            decreases end - i,
        {
            let next = self.notes[i].clone();
            proof {
                assert(self@[i as int] == next@);
            }
            page.push(next);
            i += 1;
        }
        proof {
            assert forall|k: int, l: int|
                0 <= k < l < page@.len() implies (#[trigger] page@[k])@.id < (
            #[trigger] page@[l])@.id by {
                assert(page@[k]@ == self@[start + k]);
                assert(page@[l]@ == self@[start + l]);
            }
        }
        page
    }

    /// Inserts a new record with the given id at the given instant; the
    /// record keeps its place in the ascending id order. Fails with
    /// `DuplicateKeyError` exactly when the title is already taken, and with
    /// `StoreError` exactly when the id is (the image of a key collision at
    /// the data store); a failed create leaves the store as it was.
    pub fn create_at(
        &mut self,
        title: String,
        content: String,
        category: Option<String>,
        id: u128,
        now: i64,
    ) -> (r: Result<Note, NoteError>)
        requires
            old(self).wf(),
        ensures
            final(self).wf(),
            r matches Err(e) ==> final(self)@ == old(self)@ && (e == NoteError::DuplicateKey
                || e == NoteError::Store),
            (r matches Err(e) && e == NoteError::DuplicateKey) <==> contains_title(
                old(self)@,
                title@,
            ),
            (r matches Err(e) && e == NoteError::Store) <==> (!contains_title(old(self)@, title@)
                && contains_id(old(self)@, id)),
            r matches Ok(n) ==> n@ == created_view(id, title@, content@, category, now),
            r matches Ok(n) ==> inserted(old(self)@, final(self)@, n@),
            r is Ok <==> (!contains_title(old(self)@, title@) && !contains_id(old(self)@, id)),
    {
        if self.find_by_title(&title).is_some() {
            return Err(NoteError::DuplicateKey);
        }
        if self.find_by_id(id).is_some() {
            return Err(NoteError::Store);
        }
        let pos = self.lower_bound(id);
        let category_text = match category {
            Some(c) => c,
            None => String::new(),
        };
        let note = Note {
            id,
            title,
            content,
            category: category_text,
            published: false,
            created_at: now,
            updated_at: now,
        };
        let created = note.clone();
        let ghost before = self@;
        self.notes.insert(pos, note);
        proof {
            assert(self@ =~= before.insert(pos as int, created@));
            self.lemma_wf_after_insert(before, created@, pos as int, id);
            assert(inserted(before, self@, created@)) by {
                assert(0 <= pos as int <= before.len() && self@ == before.insert(
                    pos as int,
                    created@,
                ));
            }
        }
        Ok(created)
    }

    /// The inserted sequence keeps the store invariant when the new record's
    /// id and title are fresh and the insertion point respects the order.
    proof fn lemma_wf_after_insert(&self, before: Seq<NoteView>, nv: NoteView, pos: int, id: u128)
        requires
            store_wf(before),
            nv.id == id,
            nv.wf(),
            !contains_title(before, nv.title),
            !contains_id(before, id),
            0 <= pos <= before.len(),
            forall|k: int| 0 <= k < pos ==> (#[trigger] before[k]).id < id,
            pos < before.len() ==> before[pos].id >= id,
            self@ == before.insert(pos, nv),
        ensures
            self.wf(),
    {
        let s = self@;
        assert forall|k: int| 0 <= k < s.len() implies (#[trigger] s[k]) == (if k < pos {
            before[k]
        } else if k == pos {
            nv
        } else {
            before[k - 1]
        }) by {}
        assert forall|k: int| 0 <= k < before.len() implies (#[trigger] before[k]).id != id by {}
        assert forall|k: int| 0 <= k < before.len() implies (#[trigger] before[k]).title
            != nv.title by {}
        assert forall|i: int, j: int| 0 <= i < j < s.len() implies (#[trigger] s[i]).id < (
        #[trigger] s[j]).id by {
            if pos < before.len() {
                assert(before[pos].id > id);
            }
        }
        assert forall|i: int, j: int| 0 <= i < j < s.len() implies (#[trigger] s[i]).title != (
        #[trigger] s[j]).title by {}
        assert forall|i: int| 0 <= i < s.len() implies (#[trigger] s[i]).wf() by {}
    }

    /// Inserts a new record, drawing the identifier from the platform's
    /// random uuid generator and the instant from its clock. The title
    /// decides duplication whatever id was drawn; a drawn id that collides
    /// with a stored one surfaces as `StoreError`.
    pub fn create(&mut self, title: String, content: String, category: Option<String>) -> (r:
        Result<Note, NoteError>)
        requires
            old(self).wf(),
        ensures
            final(self).wf(),
            r matches Err(e) ==> final(self)@ == old(self)@ && (e == NoteError::DuplicateKey
                || e == NoteError::Store),
            (r matches Err(e) && e == NoteError::DuplicateKey) <==> contains_title(
                old(self)@,
                title@,
            ),
            (r matches Err(e) && e == NoteError::Store) ==> old(self)@.len() > 0,
            old(self)@.len() == 0 ==> r is Ok,
            r matches Ok(n) ==> ({
                &&& n@ == created_view(n@.id, title@, content@, category, n@.created_at)
                &&& !contains_id(old(self)@, n@.id)
                &&& inserted(old(self)@, final(self)@, n@)
            }),
    {
        let id = fresh_id();
        let now = now_micros();
        let ghost title_text = title@;
        let r = self.create_at(title, content, category, id, now);
        proof {
            if contains_id(old(self)@, id) {
                let i = choose|i: int| 0 <= i < old(self)@.len() && (#[trigger] old(
                    self,
                )@[i]).id == id;
                assert(old(self)@.len() > 0);
            }
            if contains_title(old(self)@, title_text) {
                let i = choose|i: int| 0 <= i < old(self)@.len() && (#[trigger] old(
                    self,
                )@[i]).title == title_text;
                assert(old(self)@.len() > 0);
            }
        }
        r
    }

    /// Applies a partial update to the record carrying `id` at the given
    /// instant. Fails with `NotFoundError` exactly when no record carries the
    /// id, and with `StoreError` exactly when the update supplies a title
    /// that another record already carries (the image of a uniqueness
    /// violation at the data store); a failed update leaves the store as it
    /// was. On success the one record is replaced by its merge and comes
    /// back.
    pub fn update_at(&mut self, id: u128, fields: &UpdateFields, now: i64) -> (r: Result<
        Note,
        NoteError,
    >)
        requires
            old(self).wf(),
        ensures
            final(self).wf(),
            r matches Err(e) ==> final(self)@ == old(self)@ && (e == NoteError::NotFound || e
                == NoteError::Store),
            (r matches Err(e) && e == NoteError::NotFound) <==> !contains_id(old(self)@, id),
            (r matches Err(e) && e == NoteError::Store) <==> (contains_id(old(self)@, id) && (
            fields@.title matches Some(t) && title_taken_by_other(old(self)@, id, t))),
            r matches Ok(m) ==> exists|i: int|
                0 <= i < old(self)@.len() && (#[trigger] old(self)@[i]).id == id && m@
                    == merged_view(old(self)@[i], fields@, now) && final(self)@ == old(
                    self,
                )@.update(i, m@),
    {
        let idx = match self.find_by_id(id) {
            Some(i) => i,
            None => {
                return Err(NoteError::NotFound);
            },
        };
        if let Some(t) = &fields.title {
            if let Some(j) = self.find_by_title(t) {
                if self.notes[j].id != id {
                    proof {
                        assert(title_taken_by_other(self@, id, t@)) by {
                            assert(self@[j as int].id != id && self@[j as int].title == t@);
                        }
                    }
                    return Err(NoteError::Store);
                }
                proof {
                    self.lemma_title_not_taken(id, t@, j as int, idx as int);
                }
            }
        }
        let merged = merge_update(&self.notes[idx], fields, now);
        let m = merged.clone();
        let ghost before = self@;
        self.notes.remove(idx);
        self.notes.insert(idx, merged);
        proof {
            assert(self@ =~= before.update(idx as int, m@));
            self.lemma_wf_after_update(before, m@, idx as int, fields@, now);
        }
        Ok(m)
    }

    /// When the record found under a title is the record being updated, the
    /// title is taken by no other record.
    proof fn lemma_title_not_taken(&self, id: u128, t: Seq<char>, j: int, idx: int)
        requires
            self.wf(),
            0 <= j < self@.len(),
            0 <= idx < self@.len(),
            self@[j].title == t,
            self@[j].id == id,
            self@[idx].id == id,
        ensures
            !title_taken_by_other(self@, id, t),
    {
        assert forall|k: int|
            0 <= k < self@.len() && (#[trigger] self@[k]).id != id implies self@[k].title
            != t by {
            if self@[k].title == t {
                assert(k != j);
                if k < j {
                    assert(self@[k].title != self@[j].title);
                } else {
                    assert(self@[j].title != self@[k].title);
                }
            }
        }
    }

    /// The updated sequence keeps the store invariant: the merge keeps the
    /// id, keeps or freshly takes the title, and stays well formed.
    proof fn lemma_wf_after_update(
        &self,
        before: Seq<NoteView>,
        m: NoteView,
        idx: int,
        u: crate::note::UpdateView,
        now: i64,
    )
        requires
            store_wf(before),
            0 <= idx < before.len(),
            m == merged_view(before[idx], u, now),
            u.title matches Some(t) ==> !title_taken_by_other(before, before[idx].id, t),
            self@ == before.update(idx, m),
        ensures
            self.wf(),
    {
        let s = self@;
        assert(m.id == before[idx].id);
        assert(m.wf());
        assert forall|k: int| 0 <= k < s.len() implies (#[trigger] s[k]).id == before[k].id by {}
        assert forall|i: int, j: int| 0 <= i < j < s.len() implies (#[trigger] s[i]).id < (
        #[trigger] s[j]).id by {}
        assert forall|i: int, j: int| 0 <= i < j < s.len() implies (#[trigger] s[i]).title != (
        #[trigger] s[j]).title by {
            if i == idx {
                assert(before[j].id != before[idx].id);
            } else if j == idx {
                assert(before[i].id != before[idx].id);
            }
        }
        assert forall|i: int| 0 <= i < s.len() implies (#[trigger] s[i]).wf() by {}
    }

    /// Applies a partial update at the instant the platform clock gives.
    pub fn update(&mut self, id: u128, fields: &UpdateFields) -> (r: Result<Note, NoteError>)
        requires
            old(self).wf(),
        ensures
            final(self).wf(),
            r matches Err(e) ==> final(self)@ == old(self)@ && (e == NoteError::NotFound || e
                == NoteError::Store),
            (r matches Err(e) && e == NoteError::NotFound) <==> !contains_id(old(self)@, id),
            (r matches Err(e) && e == NoteError::Store) <==> (contains_id(old(self)@, id) && (
            fields@.title matches Some(t) && title_taken_by_other(old(self)@, id, t))),
            r matches Ok(m) ==> exists|i: int, now: i64|
                0 <= i < old(self)@.len() && old(self)@[i].id == id && m@ == #[trigger] merged_view(
                    old(self)@[i],
                    fields@,
                    now,
                ) && final(self)@ == old(self)@.update(i, m@),
    {
        let now = now_micros();
        self.update_at(id, fields, now)
    }

    /// Removes the record carrying `id`; fails with `NotFoundError` exactly
    /// when no record carries it, and then leaves the store as it was.
    pub fn delete(&mut self, id: u128) -> (r: Result<(), NoteError>)
        requires
            old(self).wf(),
        ensures
            final(self).wf(),
            r is Ok <==> contains_id(old(self)@, id),
            r matches Err(e) ==> e == NoteError::NotFound && final(self)@ == old(self)@,
            r is Ok ==> exists|i: int|
                0 <= i < old(self)@.len() && (#[trigger] old(self)@[i]).id == id && final(self)@
                    == old(self)@.remove(i),
    {
        match self.find_by_id(id) {
            Some(i) => {
                let ghost before = self@;
                self.notes.remove(i);
                proof {
                    assert(self@ =~= before.remove(i as int));
                    self.lemma_wf_after_remove(before, i as int);
                }
                Ok(())
            },
            None => Err(NoteError::NotFound),
        }
    }

    /// Removing a record keeps the store invariant.
    proof fn lemma_wf_after_remove(&self, before: Seq<NoteView>, idx: int)
        requires
            store_wf(before),
            0 <= idx < before.len(),
            self@ == before.remove(idx),
        ensures
            self.wf(),
    {
        let s = self@;
        assert forall|k: int| 0 <= k < s.len() implies (#[trigger] s[k]) == (if k < idx {
            before[k]
        } else {
            before[k + 1]
        }) by {}
        assert forall|i: int, j: int| 0 <= i < j < s.len() implies (#[trigger] s[i]).id < (
        #[trigger] s[j]).id by {}
        assert forall|i: int, j: int| 0 <= i < j < s.len() implies (#[trigger] s[i]).title != (
        #[trigger] s[j]).title by {}
        assert forall|i: int| 0 <= i < s.len() implies (#[trigger] s[i]).wf() by {}
    }
}

// --- the laws that relate the operations ---

/// Creating a record and then fetching the returned id finds exactly the
/// created record: in a store that did not hold the id, the store after the
/// insertion holds the new record, and every record carrying its id is it.
/// A fetch of that id therefore returns the created record, every field
/// equal.
pub proof fn create_then_get_law(s: Seq<NoteView>, s2: Seq<NoteView>, nv: NoteView, pos: int)
    requires
        !contains_id(s, nv.id),
        0 <= pos <= s.len(),
        s2 == s.insert(pos, nv),
    ensures
        contains_note(s2, nv),
        contains_id(s2, nv.id),
        forall|j: int| 0 <= j < s2.len() && (#[trigger] s2[j]).id == nv.id ==> s2[j] == nv,
{
    assert(s2[pos] == nv);
    assert forall|j: int| 0 <= j < s2.len() && (#[trigger] s2[j]).id == nv.id implies s2[j]
        == nv by {
        if j < pos {
            assert(s[j].id != nv.id);
        } else if j > pos {
            assert(s[j - 1].id != nv.id);
        }
    }
}

/// Deleting an id removes it for good: after a successful delete no record
/// carries the id, so a fetch of it fails with `NotFoundError`.
pub proof fn delete_then_get_law(s: Seq<NoteView>, s2: Seq<NoteView>, id: u128, i: int)
    requires
        sorted_by_id(s),
        0 <= i < s.len(),
        s[i].id == id,
        s2 == s.remove(i),
    ensures
        !contains_id(s2, id),
{
    assert forall|k: int| 0 <= k < s2.len() implies (#[trigger] s2[k]).id != id by {
        if k < i {
            assert(s2[k] == s[k]);
            assert(s[k].id < s[i].id);
        } else {
            assert(s2[k] == s[k + 1]);
            assert(s[i].id < s[k + 1].id);
        }
    }
}

} // verus!
