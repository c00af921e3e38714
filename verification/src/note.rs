use vstd::prelude::*;

verus! {

/// A single note record, the one entity this library manages.
///
/// The identifier is carried as the 128-bit value of a uuid; the two
/// timestamps are microseconds since the Unix epoch.
#[derive(Debug)]
pub struct Note {
    pub id: u128,
    pub title: String,
    pub content: String,
    pub category: String,
    pub published: bool,
    pub created_at: i64,
    pub updated_at: i64,
}

/// The mathematical image of a `Note`: text fields as character sequences.
pub ghost struct NoteView {
    pub id: u128,
    pub title: Seq<char>,
    pub content: Seq<char>,
    pub category: Seq<char>,
    pub published: bool,
    pub created_at: i64,
    pub updated_at: i64,
}

impl View for Note {
    type V = NoteView;

    open spec fn view(&self) -> NoteView {
        NoteView {
            id: self.id,
            title: self.title@,
            content: self.content@,
            category: self.category@,
            published: self.published,
            created_at: self.created_at,
            updated_at: self.updated_at,
        }
    }
}

impl NoteView {
    /// A record is well formed when it was not updated before it was created.
    pub open spec fn wf(self) -> bool {
        self.created_at <= self.updated_at
    }

    /// Equality on every field except `updated_at`.
    pub open spec fn same_data(self, other: NoteView) -> bool {
        &&& self.id == other.id
        &&& self.title == other.title
        &&& self.content == other.content
        &&& self.category == other.category
        &&& self.published == other.published
        &&& self.created_at == other.created_at
    }
}

impl Clone for Note {
    fn clone(&self) -> (r: Self)
        ensures
            r == *self,
    {
        Note {
            id: self.id,
            title: self.title.clone(),
            content: self.content.clone(),
            category: self.category.clone(),
            published: self.published,
            created_at: self.created_at,
            updated_at: self.updated_at,
        }
    }
}

/// The body of a partial update: a field that is `None` keeps its current
/// value, a field that is `Some` replaces it.
pub struct UpdateFields {
    pub title: Option<String>,
    pub content: Option<String>,
    pub category: Option<String>,
    pub published: Option<bool>,
}

/// The mathematical image of `UpdateFields`.
pub ghost struct UpdateView {
    pub title: Option<Seq<char>>,
    pub content: Option<Seq<char>>,
    pub category: Option<Seq<char>>,
    pub published: Option<bool>,
}

impl View for UpdateFields {
    type V = UpdateView;

    open spec fn view(&self) -> UpdateView {
        UpdateView {
            title: match self.title {
                Option::Some(t) => Option::Some(t@),
                Option::None => Option::None,
            },
            content: match self.content {
                Option::Some(c) => Option::Some(c@),
                Option::None => Option::None,
            },
            category: match self.category {
                Option::Some(c) => Option::Some(c@),
                Option::None => Option::None,
            },
            published: self.published,
        }
    }
}

impl UpdateFields {
    /// An update that supplies nothing.
    pub fn empty() -> (r: UpdateFields)
        ensures
            r@.title is None,
            r@.content is None,
            r@.category is None,
            r@.published is None,
    {
        UpdateFields { title: None, content: None, category: None, published: None }
    }
}

/// What a partial update makes of a record: each supplied field replaces the
/// stored one, the identifier and the creation time stay, and `updated_at` is
/// refreshed to `now` — never below `created_at`, so that a clock that jumped
/// backwards cannot leave the record ill-formed.
pub open spec fn merged_view(n: NoteView, u: UpdateView, now: i64) -> NoteView {
    NoteView {
        id: n.id,
        title: match u.title {
            Option::Some(t) => t,
            Option::None => n.title,
        },
        content: match u.content {
            Option::Some(c) => c,
            Option::None => n.content,
        },
        category: match u.category {
            Option::Some(c) => c,
            Option::None => n.category,
        },
        published: match u.published {
            Option::Some(p) => p,
            Option::None => n.published,
        },
        created_at: n.created_at,
        updated_at: if now >= n.created_at {
            now
        } else {
            n.created_at
        },
    }
}

/// Applies a partial update to a record at the instant `now`.
pub fn merge_update(n: &Note, u: &UpdateFields, now: i64) -> (r: Note)
    ensures
        r@ == merged_view(n@, u@, now),
{
    let title = match &u.title {
        Some(t) => t.clone(),
        None => n.title.clone(),
    };
    let content = match &u.content {
        Some(c) => c.clone(),
        None => n.content.clone(),
    };
    let category = match &u.category {
        Some(c) => c.clone(),
        None => n.category.clone(),
    };
    let published = match u.published {
        Some(p) => p,
        None => n.published,
    };
    let updated_at = if now >= n.created_at {
        now
    } else {
        n.created_at
    };
    Note {
        id: n.id,
        title,
        content,
        category,
        published,
        created_at: n.created_at,
        updated_at,
    }
}

/// An update that supplies no fields leaves every data field as it was and
/// refreshes `updated_at`: at any later instant the record's data is
/// unchanged while its update time has advanced to that instant.
pub proof fn empty_update_law(n: NoteView, u: UpdateView, now: i64)
    requires
        n.wf(),
        u.title is None,
        u.content is None,
        u.category is None,
        u.published is None,
        now > n.updated_at,
    ensures
        merged_view(n, u, now).same_data(n),
        merged_view(n, u, now).updated_at == now,
        merged_view(n, u, now).updated_at > n.updated_at,
        merged_view(n, u, now).wf(),
{
}

} // verus!
