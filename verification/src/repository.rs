//! The repository layer: an in-memory model of the templates table and the
//! five operations the service performs on it.
//!
//! The table is a sequence of rows in insertion (rowid) order together with
//! the next id the auto-increment mechanism will assign and the clock text
//! stamped on inserted rows. Ids are assigned from 1 upward, are unique, and
//! are never reused, so the rows are strictly increasing by id.

use vstd::prelude::*;
use crate::models::NewTemplate;
use crate::models::Template;
use crate::models::TemplateView;

verus! {

/// Mathematical value of the whole table.
#[verifier::ext_equal]
pub ghost struct StoreView {
    pub rows: Seq<TemplateView>,
    pub next_id: int,
    pub clock: Seq<char>,
}

/// In-memory model of the templates table.
pub struct Store {
    rows: Vec<Template>,
    next_id: i32,
    clock: String,
}

impl View for Store {
    type V = StoreView;

    closed spec fn view(&self) -> StoreView {
        StoreView {
            rows: self.rows@.map_values(|t: Template| t@),
            next_id: self.next_id as int,
            clock: self.clock@,
        }
    }
}

/// The errors a repository operation can report: a read that matched no row,
/// or an insert for which no id is left to assign.
#[derive(Clone, Copy, PartialEq, Eq, Structural, Debug)]
pub enum StoreError {
    NotFound,
    Full,
}

impl StoreError {
    /// The message the service reports for this error.
    pub open spec fn spec_message(self) -> Seq<char> {
        match self {
            StoreError::NotFound => "record not found"@,
            StoreError::Full => "id space exhausted"@,
        }
    }

    /// The message the service reports for this error.
    pub fn message(&self) -> (r: String)
        ensures
            r@ == self.spec_message(),
    {
        match self {
            StoreError::NotFound => String::from_str("record not found"),
            StoreError::Full => String::from_str("id space exhausted"),
        }
    }
}

/// Well-formedness of a table value: the next id is in range, the clock text
/// is non-empty, every row's id is at least 1 and below the next id, and ids
/// strictly increase along the rows (hence are unique).
pub open spec fn store_wf(s: StoreView) -> bool {
    &&& 1 <= s.next_id <= i32::MAX
    &&& s.clock.len() > 0
    &&& forall|i: int| 0 <= i < s.rows.len() ==> 1 <= (#[trigger] s.rows[i]).id < s.next_id
    &&& forall|i: int, j: int|
        0 <= i < j < s.rows.len() ==> (#[trigger] s.rows[i]).id < (#[trigger] s.rows[j]).id
}

/// Whether some row of `rows` carries the id.
pub open spec fn contains_id(rows: Seq<TemplateView>, id: int) -> bool {
    exists|i: int| 0 <= i < rows.len() && (#[trigger] rows[i]).id == id
}

/// The first row of `rows` carrying the id, if any: what a find-by-id query
/// returns.
pub open spec fn spec_find(rows: Seq<TemplateView>, id: int) -> Option<TemplateView>
    decreases rows.len(),
{
    if rows.len() == 0 {
        None
    } else if rows[0].id == id {
        Some(rows[0])
    } else {
        spec_find(rows.drop_first(), id)
    }
}

/// If the id first occurs at position `i`, the find resolves to that row.
pub proof fn lemma_find_match(rows: Seq<TemplateView>, id: int, i: int)
    requires
        0 <= i < rows.len(),
        rows[i].id == id,
        forall|j: int| 0 <= j < i ==> (#[trigger] rows[j]).id != id,
    ensures
        spec_find(rows, id) == Some(rows[i]),
    decreases i,
{
    if i == 0 {
    } else {
        assert(rows[0].id != id);
        assert forall|j: int| 0 <= j < i - 1 implies (#[trigger] rows.drop_first()[j]).id != id by {
            assert(rows.drop_first()[j] == rows[j + 1]);
        }
        assert(rows.drop_first()[i - 1] == rows[i]);
        lemma_find_match(rows.drop_first(), id, i - 1);
    }
}

/// If no row carries the id, the find resolves to nothing.
pub proof fn lemma_find_none(rows: Seq<TemplateView>, id: int)
    requires
        forall|j: int| 0 <= j < rows.len() ==> (#[trigger] rows[j]).id != id,
    ensures
        spec_find(rows, id) is None,
    decreases rows.len(),
{
    if rows.len() == 0 {
    } else {
        assert forall|j: int| 0 <= j < rows.len() - 1 implies (#[trigger] rows.drop_first()[j]).id
            != id by {
            assert(rows.drop_first()[j] == rows[j + 1]);
        }
        lemma_find_none(rows.drop_first(), id);
    }
}

/// The find succeeds exactly when some row carries the id, and what it
/// returns is such a row.
pub proof fn lemma_find_contains(rows: Seq<TemplateView>, id: int)
    ensures
        spec_find(rows, id) is Some <==> contains_id(rows, id),
        spec_find(rows, id) is Some ==> {
            &&& spec_find(rows, id)->Some_0.id == id
            &&& exists|i: int|
                0 <= i < rows.len() && #[trigger] rows[i] == spec_find(rows, id)->Some_0
        },
    decreases rows.len(),
{
    if rows.len() == 0 {
    } else if rows[0].id == id {
        assert(rows[0] == rows[0]);
    } else {
        lemma_find_contains(rows.drop_first(), id);
        if contains_id(rows, id) {
            let i = choose|i: int| 0 <= i < rows.len() && (#[trigger] rows[i]).id == id;
            assert(rows.drop_first()[i - 1] == rows[i]);
            assert(contains_id(rows.drop_first(), id));
        }
        if spec_find(rows.drop_first(), id) is Some {
            let t = spec_find(rows.drop_first(), id)->Some_0;
            let i = choose|i: int|
                0 <= i < rows.drop_first().len() && #[trigger] rows.drop_first()[i] == t;
            assert(rows[i + 1] == t);
        }
        if contains_id(rows.drop_first(), id) {
            let i = choose|i: int|
                0 <= i < rows.drop_first().len() && (#[trigger] rows.drop_first()[i]).id == id;
            assert(rows[i + 1].id == id);
        }
    }
}

/// Law: a record just created is found again under its returned id, with
/// the name and content that were sent, an id of at least 1, and a non-empty
/// creation timestamp. In particular each create resolves to precisely the
/// row it inserted.
pub proof fn lemma_create_then_find(s: StoreView, name: Seq<char>, content: Seq<char>)
    requires
        store_wf(s),
        s.next_id < i32::MAX,
    ensures
        ({
            let row = TemplateView { id: s.next_id, name, content, created_at: s.clock };
            &&& spec_find(s.rows.push(row), row.id) == Some(row)
            &&& row.id >= 1
            &&& row.created_at.len() > 0
        }),
{
    let row = TemplateView { id: s.next_id, name, content, created_at: s.clock };
    let rows2 = s.rows.push(row);
    assert forall|j: int| 0 <= j < rows2.len() - 1 implies (#[trigger] rows2[j]).id != row.id by {
        assert(rows2[j] == s.rows[j]);
    }
    assert(rows2[rows2.len() - 1] == row);
    lemma_find_match(rows2, row.id, rows2.len() - 1);
}

/// Law: after an update rewrites the row at `i`, a read of that row's id
/// yields the new name and content with the creation timestamp unchanged.
pub proof fn lemma_save_then_find(s: StoreView, i: int, name: Seq<char>, content: Seq<char>)
    requires
        store_wf(s),
        0 <= i < s.rows.len(),
    ensures
        ({
            let row = TemplateView {
                id: s.rows[i].id,
                name,
                content,
                created_at: s.rows[i].created_at,
            };
            &&& spec_find(s.rows.update(i, row), row.id) == Some(row)
            &&& row.created_at == s.rows[i].created_at
        }),
{
    let row = TemplateView { id: s.rows[i].id, name, content, created_at: s.rows[i].created_at };
    let rows2 = s.rows.update(i, row);
    assert forall|j: int| 0 <= j < i implies (#[trigger] rows2[j]).id != row.id by {
        assert(rows2[j] == s.rows[j]);
        assert(s.rows[j].id < s.rows[i].id);
    }
    lemma_find_match(rows2, row.id, i);
}

/// Law: after a delete removes the row at `i`, a read of its id finds
/// nothing.
pub proof fn lemma_delete_then_find(s: StoreView, i: int)
    requires
        store_wf(s),
        0 <= i < s.rows.len(),
    ensures
        spec_find(s.rows.remove(i), s.rows[i].id) is None,
{
    let id = s.rows[i].id;
    let rows2 = s.rows.remove(i);
    assert forall|j: int| 0 <= j < rows2.len() implies (#[trigger] rows2[j]).id != id by {
        if j < i {
            assert(rows2[j] == s.rows[j]);
            assert(s.rows[j].id < s.rows[i].id);
        } else {
            assert(rows2[j] == s.rows[j + 1]);
            assert(s.rows[i].id < s.rows[j + 1].id);
        }
    }
    lemma_find_none(rows2, id);
}

impl Store {
    /// The table is well formed.
    pub open spec fn wf(&self) -> bool {
        store_wf(self@)
    }

    /// An empty, freshly migrated table: no rows, ids start at 1, and the
    /// clock reads a fixed epoch text until it is set.
    pub fn new() -> (s: Store)
        ensures
            s.wf(),
            s@.rows.len() == 0,
            s@.next_id == 1,
            s@.clock == "1970-01-01 00:00:00"@,
    {
        let s = Store {
            rows: Vec::new(),
            next_id: 1,
            clock: String::from_str("1970-01-01 00:00:00"),
        };
        proof {
            reveal_strlit("1970-01-01 00:00:00");
            assert(s@.rows =~= Seq::<TemplateView>::empty());
        }
        s
    }

    /// Set the clock text that the store will stamp on rows inserted from now
    /// on. The store's clock is never empty, so an empty text is not accepted.
    pub fn set_clock(&mut self, now: String)
        requires
            old(self).wf(),
            now@.len() > 0,
        ensures
            final(self).wf(),
            final(self)@ == (StoreView { clock: now@, ..old(self)@ }),
    {
        self.clock = now;
    }
}

/// The five operations of the service's data-access layer.
pub struct TemplateRepository;

impl TemplateRepository {
    /// The first 100 rows of the table, in rowid order: what a limit-100
    /// query with no explicit ordering returns.
    pub fn load_all(s: &Store) -> (r: Vec<Template>)
        requires
            s.wf(),
        ensures
            r@.len() == if s@.rows.len() <= 100 {
                s@.rows.len()
            } else {
                100nat
            },
            forall|i: int| 0 <= i < r@.len() ==> (#[trigger] r@[i])@ == s@.rows[i],
    {
        let n = s.rows.len();
        let limit = if n <= 100 { n } else { 100 };
        let mut out: Vec<Template> = Vec::new();
        let mut i: usize = 0;
        while i < limit
            invariant
                s.wf(),
                limit == if s@.rows.len() <= 100 { s@.rows.len() } else { 100nat },
                i <= limit,
                limit <= s.rows.len(),
                out@.len() == i,
                forall|j: int| 0 <= j < i ==> (#[trigger] out@[j])@ == s@.rows[j],
            decreases limit - i,
        {
            out.push(s.rows[i].clone());
            i += 1;
        }
        out
    }

    /// Find-by-id: the row carrying `id`, or `NotFound` if no row does.
    pub fn find_one(s: &Store, id: i32) -> (r: Result<Template, StoreError>)
        requires
            s.wf(),
        ensures
            r is Ok <==> contains_id(s@.rows, id as int),
            match r {
                Ok(t) => spec_find(s@.rows, id as int) == Some(t@),
                Err(e) => spec_find(s@.rows, id as int) is None && e == StoreError::NotFound,
            },
    {
        let mut i: usize = 0;
        while i < s.rows.len()
            invariant
                s.wf(),
                i <= s.rows.len(),
                forall|j: int| 0 <= j < i ==> (#[trigger] s@.rows[j]).id != id as int,
            decreases s.rows.len() - i,
        {
            if s.rows[i].id == id {
                let t = s.rows[i].clone();
                proof {
                    lemma_find_match(s@.rows, id as int, i as int);
                }
                return Ok(t);
            }
            i += 1;
        }
        proof {
            lemma_find_none(s@.rows, id as int);
            lemma_find_contains(s@.rows, id as int);
        }
        Err(StoreError::NotFound)
    }

    /// The id a row inserted now would be re-read by: the highest id in the
    /// table, found as the last row in rowid order; `NotFound` on an empty
    /// table.
    fn last_id(s: &Store) -> (r: Result<i32, StoreError>)
        requires
            s.wf(),
        ensures
            match r {
                Ok(id) => s@.rows.len() > 0 && id as int == s@.rows.last().id,
                Err(e) => s@.rows.len() == 0 && e == StoreError::NotFound,
            },
    {
        let n = s.rows.len();
        if n == 0 {
            Err(StoreError::NotFound)
        } else {
            Ok(s.rows[n - 1].id)
        }
    }

    /// Insert a new row, then re-read it by the highest id in the table. The
    /// store assigns the next id and stamps its clock text as `created_at`.
    /// Fails with `Full` only when no id is left to assign, and then leaves
    /// the table unchanged. The returned record is precisely the row this
    /// call inserted.
    pub fn create(s: &mut Store, new_template: NewTemplate) -> (r: Result<Template, StoreError>)
        requires
            old(s).wf(),
        ensures
            final(s).wf(),
            final(s)@.clock == old(s)@.clock,
            match r {
                Ok(t) => {
                    &&& old(s)@.next_id < i32::MAX
                    &&& t@ == (TemplateView {
                        id: old(s)@.next_id,
                        name: new_template@.name,
                        content: new_template@.content,
                        created_at: old(s)@.clock,
                    })
                    &&& final(s)@.rows == old(s)@.rows.push(t@)
                    &&& final(s)@.next_id == old(s)@.next_id + 1
                },
                Err(e) => {
                    &&& old(s)@.next_id == i32::MAX
                    &&& e == StoreError::Full
                    &&& final(s)@ == old(s)@
                },
            },
    {
        if s.next_id == i32::MAX {
            return Err(StoreError::Full);
        }
        let id = s.next_id;
        let row = Template {
            id,
            name: new_template.name,
            content: new_template.content,
            created_at: s.clock.clone(),
        };
        let ghost row_view = row@;
        s.rows.push(row);
        s.next_id = id + 1;
        proof {
            assert(s@.rows =~= old(s)@.rows.push(row_view));
        }
        let last = match Self::last_id(s) {
            Ok(last) => last,
            Err(_) => {
                return Err(StoreError::NotFound);
            },
        };
        proof {
            assert(s@.rows.last() == row_view);
            assert forall|j: int| 0 <= j < s@.rows.len() - 1 implies (#[trigger] s@.rows[j]).id
                != id as int by {
                assert(s@.rows[j] == old(s)@.rows[j]);
            }
            lemma_find_match(s@.rows, id as int, s@.rows.len() - 1);
            lemma_find_contains(s@.rows, id as int);
        }
        Self::find_one(s, last)
    }

    /// Update-by-id: rewrite `name` and `content` of the row whose id is the
    /// record's own id (path ids play no part), leaving its id and
    /// `created_at` as they were, then re-read it. When no row carries the
    /// id, the update matches nothing, the re-read fails with `NotFound`, and
    /// the table is unchanged.
    pub fn save(s: &mut Store, template: Template) -> (r: Result<Template, StoreError>)
        requires
            old(s).wf(),
        ensures
            final(s).wf(),
            final(s)@.next_id == old(s)@.next_id,
            final(s)@.clock == old(s)@.clock,
            final(s)@.rows.len() == old(s)@.rows.len(),
            match r {
                Ok(t) => exists|i: int|
                    {
                        &&& 0 <= i < old(s)@.rows.len()
                        &&& (#[trigger] old(s)@.rows[i]).id == template@.id
                        &&& t@ == (TemplateView {
                            id: old(s)@.rows[i].id,
                            name: template@.name,
                            content: template@.content,
                            created_at: old(s)@.rows[i].created_at,
                        })
                        &&& final(s)@.rows == old(s)@.rows.update(i, t@)
                        &&& spec_find(final(s)@.rows, template@.id) == Some(t@)
                    },
                Err(e) => {
                    &&& !contains_id(old(s)@.rows, template@.id)
                    &&& e == StoreError::NotFound
                    &&& final(s)@ == old(s)@
                },
            },
    {
        let mut i: usize = 0;
        while i < s.rows.len()
            invariant
                s.wf(),
                s@ == old(s)@,
                i <= s.rows.len(),
                forall|j: int| 0 <= j < i ==> (#[trigger] s@.rows[j]).id != template@.id,
            decreases s.rows.len() - i,
        {
            if s.rows[i].id == template.id {
                let tid = template.id;
                let updated = Template {
                    id: s.rows[i].id,
                    name: template.name,
                    content: template.content,
                    created_at: s.rows[i].created_at.clone(),
                };
                let ghost updated_view = updated@;
                let ghost idx = i as int;
                proof {
                    assert(old(s)@.rows[idx].id == tid as int);
                    assert(updated_view == (TemplateView {
                        id: old(s)@.rows[idx].id,
                        name: template@.name,
                        content: template@.content,
                        created_at: old(s)@.rows[idx].created_at,
                    }));
                }
                s.rows[i] = updated;
                proof {
                    assert(s@.rows =~= old(s)@.rows.update(idx, updated_view));
                    assert forall|j: int| 0 <= j < s@.rows.len() implies (#[trigger] s@.rows[j]).id
                        == old(s)@.rows[j].id by {
                        if j != idx {
                            assert(s@.rows[j] == old(s)@.rows[j]);
                        }
                    }
                    assert forall|a: int, b: int| 0 <= a < b < s@.rows.len() implies (
                    #[trigger] s@.rows[a]).id < (#[trigger] s@.rows[b]).id by {
                        assert(old(s)@.rows[a].id < old(s)@.rows[b].id);
                    }
                    assert(s.wf());
                    assert forall|j: int| 0 <= j < idx implies (#[trigger] s@.rows[j]).id
                        != template@.id by {
                        assert(s@.rows[j] == old(s)@.rows[j]);
                    }
                    lemma_find_match(s@.rows, template@.id, idx);
                    lemma_find_contains(s@.rows, template@.id);
                }
                return Self::find_one(s, tid);
            }
            i += 1;
        }
        proof {
            lemma_find_contains(s@.rows, template@.id);
        }
        Err(StoreError::NotFound)
    }

    /// Delete-by-id: report whether a row carried the id; if one did, remove
    /// it and leave every other row, the id counter and the clock as they
    /// were; if none did, change nothing.
    pub fn delete(s: &mut Store, id: i32) -> (r: bool)
        requires
            old(s).wf(),
        ensures
            final(s).wf(),
            final(s)@.next_id == old(s)@.next_id,
            final(s)@.clock == old(s)@.clock,
            r == contains_id(old(s)@.rows, id as int),
            r ==> exists|i: int|
                {
                    &&& 0 <= i < old(s)@.rows.len()
                    &&& (#[trigger] old(s)@.rows[i]).id == id as int
                    &&& final(s)@.rows == old(s)@.rows.remove(i)
                },
            !r ==> final(s)@ == old(s)@,
            !contains_id(final(s)@.rows, id as int),
    {
        let mut i: usize = 0;
        while i < s.rows.len()
            invariant
                s.wf(),
                s@ == old(s)@,
                i <= s.rows.len(),
                forall|j: int| 0 <= j < i ==> (#[trigger] s@.rows[j]).id != id as int,
            decreases s.rows.len() - i,
        {
            if s.rows[i].id == id {
                let ghost idx = i as int;
                proof {
                    assert(old(s)@.rows[idx].id == id as int);
                    assert(contains_id(old(s)@.rows, id as int));
                }
                s.rows.remove(i);
                proof {
                    assert(s@.rows =~= old(s)@.rows.remove(idx));
                    assert forall|j: int| 0 <= j < s@.rows.len() implies (#[trigger] s@.rows[j]).id
                        != id as int by {
                        if j < idx {
                            assert(s@.rows[j] == old(s)@.rows[j]);
                            assert(old(s)@.rows[j].id < old(s)@.rows[idx].id);
                        } else {
                            assert(s@.rows[j] == old(s)@.rows[j + 1]);
                            assert(old(s)@.rows[idx].id < old(s)@.rows[j + 1].id);
                        }
                    }
                    assert forall|a: int, b: int| 0 <= a < b < s@.rows.len() implies (
                    #[trigger] s@.rows[a]).id < (#[trigger] s@.rows[b]).id by {
                        if b < idx {
                            assert(s@.rows[a] == old(s)@.rows[a]);
                            assert(s@.rows[b] == old(s)@.rows[b]);
                        } else if a < idx {
                            assert(s@.rows[a] == old(s)@.rows[a]);
                            assert(s@.rows[b] == old(s)@.rows[b + 1]);
                        } else {
                            assert(s@.rows[a] == old(s)@.rows[a + 1]);
                            assert(s@.rows[b] == old(s)@.rows[b + 1]);
                        }
                    }
                    assert forall|j: int| 0 <= j < s@.rows.len() implies 1 <= (
                    #[trigger] s@.rows[j]).id < s@.next_id by {
                        if j < idx {
                            assert(s@.rows[j] == old(s)@.rows[j]);
                        } else {
                            assert(s@.rows[j] == old(s)@.rows[j + 1]);
                        }
                    }
                    assert(s.wf());
                }
                return true;
            }
            i += 1;
        }
        false
    }
}

} // verus!
