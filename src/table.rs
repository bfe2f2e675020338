use vstd::prelude::*;

use crate::todo::{Todo, TodoStatus, TodoView};

verus! {

/// The largest identifier an item can have.
pub const MAX_ID: u16 = 65535;

/// Whether some row of `rows` has identifier `id`.
pub open spec fn has_id(rows: Seq<TodoView>, id: u16) -> bool {
    exists|i: int| 0 <= i < rows.len() && #[trigger] rows[i].id == id
}

/// The rows after inserting `description` under identifier `id`.
pub open spec fn created(rows: Seq<TodoView>, id: u16, description: Seq<char>) -> Seq<TodoView> {
    rows.push(TodoView { id, description, status: TodoStatus::Incomplete })
}

/// One row after an update by `todo`: overwritten if its identifier matches.
pub open spec fn updated_row(row: TodoView, todo: TodoView) -> TodoView {
    if row.id == todo.id {
        todo
    } else {
        row
    }
}

/// The rows after overwriting the one whose identifier is `todo.id`.
pub open spec fn updated(rows: Seq<TodoView>, todo: TodoView) -> Seq<TodoView> {
    rows.map_values(|row: TodoView| updated_row(row, todo))
}

/// The rows after removing the one whose identifier is `id`.
pub open spec fn deleted(rows: Seq<TodoView>, id: u16) -> Seq<TodoView> {
    rows.filter(|row: TodoView| row.id != id)
}

/// The rows after deleting, one after the other, each identifier of `ids`.
pub open spec fn deleted_each(rows: Seq<TodoView>, ids: Seq<u16>) -> Seq<TodoView>
    decreases ids.len(),
{
    if ids.len() == 0 {
        rows
    } else {
        deleted_each(deleted(rows, ids[0]), ids.drop_first())
    }
}

/// Identifiers are positive, below `next_id`, and strictly increasing along
/// the rows, hence unique.
pub open spec fn rows_ordered(rows: Seq<TodoView>, next_id: nat) -> bool {
    &&& forall|i: int| 0 <= i < rows.len() ==> 1 <= #[trigger] rows[i].id < next_id
    &&& forall|i: int, j: int| 0 <= i < j < rows.len() ==> rows[i].id < rows[j].id
}

/// The table of to-do items. Rows are kept in the order of their identifiers,
/// which the store assigns in increasing order and never reuses.
pub struct TodoTable {
    rows: Vec<Todo>,
    next_id: u32,
}

impl View for TodoTable {
    type V = Seq<TodoView>;

    closed spec fn view(&self) -> Seq<TodoView> {
        self.rows@.map_values(|t: Todo| t@)
    }
}

impl TodoTable {
    /// The identifier that the next created item receives.
    pub closed spec fn next_id(&self) -> nat {
        self.next_id as nat
    }

    /// The table's invariant.
    pub closed spec fn wf(&self) -> bool {
        &&& 1 <= self.next_id <= MAX_ID as u32 + 1
        &&& rows_ordered(self@, self.next_id as nat)
    }

    /// Whether an identifier is left for a new item.
    pub open spec fn can_create(&self) -> bool {
        self.next_id() <= MAX_ID as nat
    }

    /// An empty table.
    pub fn new() -> (r: TodoTable)
        ensures
            r.wf(),
            r@.len() == 0,
            r.next_id() == 1,
    {
        let r = TodoTable { rows: Vec::new(), next_id: 1 };
        assert(r@ =~= Seq::<TodoView>::empty());
        r
    }

    /// Inserts a new item with status `Incomplete` under the next identifier.
    /// Fails, leaving the table as it was, when no identifier is left.
    pub fn create(&mut self, description: String) -> (r: Result<(), String>)
        requires
            old(self).wf(),
        ensures
            final(self).wf(),
            r is Ok <==> old(self).can_create(),
            r is Ok ==> final(self)@ == created(old(self)@, old(self).next_id() as u16, description@)
                && final(self).next_id() == old(self).next_id() + 1,
            r matches Err(e) ==> e@ == crate::command::add_failure_text(
                crate::command::ids_exhausted_text(),
            ) && *final(self) == *old(self),
    {
        if self.next_id > MAX_ID as u32 {
            let detail = crate::command::ids_exhausted();
            return Err(crate::command::add_failure(detail.as_str()));
        }
        let id = self.next_id as u16;
        let ghost before = self@;
        self.rows.push(Todo { id, description, status: TodoStatus::Incomplete });
        self.next_id = self.next_id + 1;
        assert(self@ =~= created(before, id, description@));
        Ok(())
    }

    /// All rows, in the order of their identifiers.
    pub fn list(&self) -> (r: Vec<Todo>)
        requires
            self.wf(),
        ensures
            r@.map_values(|t: Todo| t@) == self@,
    {
        let mut out: Vec<Todo> = Vec::new();
        let mut i: usize = 0;
        while i < self.rows.len()
            invariant
                i <= self.rows@.len(),
                out@.map_values(|t: Todo| t@) =~= self@.subrange(0, i as int),
            decreases self.rows@.len() - i,
        {
            let ghost prev = out@;
            out.push(self.rows[i].duplicate());
            assert(out@.map_values(|t: Todo| t@) =~= prev.map_values(|t: Todo| t@).push(self@[i as int]));
            assert(self@.subrange(0, i + 1) =~= self@.subrange(0, i as int).push(self@[i as int]));
            i = i + 1;
        }
        assert(self@.subrange(0, self.rows@.len() as int) =~= self@);
        out
    }

    /// Overwrites description and status of the row whose identifier is
    /// `todo.id`; leaves the table unchanged when there is none.
    pub fn update(&mut self, todo: Todo)
        requires
            old(self).wf(),
        ensures
            final(self).wf(),
            final(self)@ == updated(old(self)@, todo@),
            final(self).next_id() == old(self).next_id(),
    {
        let ghost before = self@;
        let mut i: usize = 0;
        assert(forall|j: int| 0 <= j < self.rows@.len() ==> #[trigger] self.rows@[j]@ == before[j]);
        while i < self.rows.len()
            invariant
                self.next_id == old(self).next_id,
                self.rows@.len() == before.len(),
                i <= self.rows@.len(),
                forall|j: int| 0 <= j < i ==> #[trigger] self.rows@[j]@ == updated_row(before[j], todo@),
                forall|j: int| i <= j < self.rows@.len() ==> #[trigger] self.rows@[j]@ == before[j],
            decreases self.rows@.len() - i,
        {
            assert(self.rows@[i as int]@ == before[i as int]);
            if self.rows[i].id == todo.id {
                self.rows.set(i, todo.duplicate());
            }
            assert(self.rows@[i as int]@ == updated_row(before[i as int], todo@));
            i = i + 1;
        }
        assert(self@ =~= updated(before, todo@));
    }

    /// Removes the row whose identifier is `id`, if there is one.
    pub fn delete(&mut self, id: u16)
        requires
            old(self).wf(),
        ensures
            final(self).wf(),
            final(self)@ == deleted(old(self)@, id),
            final(self).next_id() == old(self).next_id(),
    {
        let ghost before = self@;
        let mut kept: Vec<Todo> = Vec::new();
        let mut i: usize = 0;
        while i < self.rows.len()
            invariant
                self@ == before,
                self.wf(),
                i <= self.rows@.len(),
                kept@.map_values(|t: Todo| t@) == deleted(before.subrange(0, i as int), id),
                forall|k: int| 0 <= k < kept@.len() ==> 1 <= #[trigger] kept@[k].id < self.next_id,
                forall|k: int, l: int| 0 <= k < l < kept@.len() ==> kept@[k].id < kept@[l].id,
                forall|k: int|
                    0 <= k < kept@.len() && i < self.rows@.len() ==> #[trigger] kept@[k].id
                        < self.rows@[i as int].id,
            decreases self.rows@.len() - i,
        {
            let ghost prefix = before.subrange(0, i as int);
            assert(before.subrange(0, i + 1) =~= prefix.push(before[i as int]));
            proof {
                prefix.lemma_filter_push(before[i as int], |row: TodoView| row.id != id);
            }
            if self.rows[i].id != id {
                let ghost kept_before = kept@;
                kept.push(self.rows[i].duplicate());
                assert(kept@.map_values(|t: Todo| t@) =~= kept_before.map_values(|t: Todo| t@).push(
                    before[i as int],
                ));
            }
            assert(self@[i as int] == self.rows@[i as int]@);
            if i + 1 < self.rows.len() {
                assert(self@[i as int].id < self@[i + 1].id);
            }
            i = i + 1;
        }
        assert(before.subrange(0, before.len() as int) =~= before);
        self.rows = kept;
    }
}

/// Filtering by a predicate that every element meets changes nothing.
proof fn lemma_filter_keeps_all(rows: Seq<TodoView>, pred: spec_fn(TodoView) -> bool)
    requires
        forall|i: int| 0 <= i < rows.len() ==> pred(#[trigger] rows[i]),
    ensures
        rows.filter(pred) == rows,
    decreases rows.len(),
{
    reveal(Seq::filter);
    if rows.len() > 0 {
        lemma_filter_keeps_all(rows.drop_last(), pred);
        assert(rows.drop_last().push(rows.last()) =~= rows);
    }
}

/// Filtering by a predicate that no element meets leaves nothing.
proof fn lemma_filter_drops_all(rows: Seq<TodoView>, pred: spec_fn(TodoView) -> bool)
    requires
        forall|i: int| 0 <= i < rows.len() ==> !pred(#[trigger] rows[i]),
    ensures
        rows.filter(pred).len() == 0,
    decreases rows.len(),
{
    reveal(Seq::filter);
    if rows.len() > 0 {
        lemma_filter_drops_all(rows.drop_last(), pred);
    }
}

/// After `create(d)` on a table with an identifier left, the listing holds
/// the earlier rows unchanged and exactly one new row, which has description
/// `d`, status `Incomplete` and an identifier that no earlier row has.
pub proof fn law_create_adds_one_row(table: TodoTable, description: Seq<char>)
    requires
        table.wf(),
        table.can_create(),
    ensures
        ({
            let after = created(table@, table.next_id() as u16, description);
            &&& after.len() == table@.len() + 1
            &&& after.subrange(0, table@.len() as int) == table@
            &&& after.filter(|row: TodoView| !table@.contains(row)) == seq![
                TodoView {
                    id: table.next_id() as u16,
                    description,
                    status: TodoStatus::Incomplete,
                },
            ]
            &&& !has_id(table@, table.next_id() as u16)
        }),
{
    let rows = table@;
    let id = table.next_id() as u16;
    let row = TodoView { id, description, status: TodoStatus::Incomplete };
    let after = created(rows, id, description);
    let pred = |r: TodoView| !rows.contains(r);
    assert(after.subrange(0, rows.len() as int) =~= rows);
    assert(!rows.contains(row)) by {
        if rows.contains(row) {
            let i = choose|i: int| 0 <= i < rows.len() && rows[i] == row;
            assert(rows[i].id < table.next_id());
        }
    }
    assert(!has_id(rows, id)) by {
        if has_id(rows, id) {
            let i = choose|i: int| 0 <= i < rows.len() && #[trigger] rows[i].id == id;
            assert(rows[i].id < table.next_id());
        }
    }
    assert(rows.filter(pred).len() == 0) by {
        assert forall|i: int| 0 <= i < rows.len() implies !pred(#[trigger] rows[i]) by {
            assert(rows.contains(rows[i]));
        }
        lemma_filter_drops_all(rows, pred);
    }
    rows.lemma_filter_push(row, pred);
    assert(after.filter(pred) =~= seq![row]);
}

/// An update whose identifier matches no row leaves the table unchanged.
pub proof fn law_update_missing_id_keeps_table(rows: Seq<TodoView>, todo: TodoView)
    requires
        !has_id(rows, todo.id),
    ensures
        updated(rows, todo) == rows,
{
    assert forall|i: int| 0 <= i < rows.len() implies #[trigger] updated(rows, todo)[i]
        == rows[i] by {
        assert(rows[i].id != todo.id);
    }
    assert(updated(rows, todo) =~= rows);
}

/// `delete(id)` removes exactly the row with identifier `id`: that row is the
/// only one gone, the others keep their order, and with no such row the
/// table is unchanged.
pub proof fn law_delete_removes_exactly_that_row(table: TodoTable, id: u16)
    requires
        table.wf(),
    ensures
        ({
            let rows = table@;
            let after = deleted(rows, id);
            &&& !has_id(after, id)
            &&& forall|row: TodoView| #[trigger]
                after.contains(row) <==> rows.contains(row) && row.id != id
            &&& has_id(rows, id) ==> exists|i: int|
                0 <= i < rows.len() && rows[i].id == id && after == rows.remove(i)
            &&& !has_id(rows, id) ==> after == rows
        }),
{
    let rows = table@;
    let pred = |row: TodoView| row.id != id;
    let after = deleted(rows, id);
    assert(!has_id(after, id)) by {
        if has_id(after, id) {
            let k = choose|k: int| 0 <= k < after.len() && #[trigger] after[k].id == id;
            rows.lemma_filter_pred(pred, k);
        }
    }
    assert forall|row: TodoView| #[trigger] after.contains(row) implies rows.contains(row)
        && row.id != id by {
        let k = choose|k: int| 0 <= k < after.len() && after[k] == row;
        rows.lemma_filter_pred(pred, k);
        rows.lemma_filter_contains_rev(pred, row);
    }
    assert forall|row: TodoView| rows.contains(row) && row.id != id implies #[trigger] after.contains(
        row,
    ) by {
        rows.lemma_filter_contains_rev(pred, row);
    }
    if has_id(rows, id) {
        let i = choose|i: int| 0 <= i < rows.len() && #[trigger] rows[i].id == id;
        let front = rows.subrange(0, i);
        let back = rows.subrange(i + 1, rows.len() as int);
        assert(rows =~= front + seq![rows[i]] + back);
        assert forall|j: int| 0 <= j < front.len() implies pred(#[trigger] front[j]) by {
            assert(rows[j].id < rows[i].id);
        }
        assert forall|j: int| 0 <= j < back.len() implies pred(#[trigger] back[j]) by {
            assert(rows[i].id < rows[i + 1 + j].id);
        }
        lemma_filter_keeps_all(front, pred);
        lemma_filter_keeps_all(back, pred);
        Seq::filter_distributes_over_add(front + seq![rows[i]], back, pred);
        Seq::filter_distributes_over_add(front, seq![rows[i]], pred);
        Seq::<TodoView>::empty().lemma_filter_push(rows[i], pred);
        assert(seq![rows[i]] =~= Seq::<TodoView>::empty().push(rows[i]));
        reveal(Seq::filter);
        assert(Seq::<TodoView>::empty().filter(pred) =~= Seq::<TodoView>::empty());
        assert(after =~= rows.remove(i));
    } else {
        assert forall|j: int| 0 <= j < rows.len() implies pred(#[trigger] rows[j]) by {
            assert(rows[j].id != id);
        }
        lemma_filter_keeps_all(rows, pred);
    }
}

/// Deleting, one after the other, every identifier that occurs in the table
/// (in any order, with repeats or extra identifiers allowed) leaves the
/// table empty, so that a listing afterwards is empty.
pub proof fn law_delete_all_empties(rows: Seq<TodoView>, ids: Seq<u16>)
    requires
        forall|i: int| 0 <= i < rows.len() ==> ids.contains(#[trigger] rows[i].id),
    ensures
        deleted_each(rows, ids).len() == 0,
    decreases ids.len(),
{
    if ids.len() == 0 {
        if rows.len() > 0 {
            assert(ids.contains(rows[0].id));
        }
    } else {
        let pred = |row: TodoView| row.id != ids[0];
        let rest = deleted(rows, ids[0]);
        assert forall|k: int| 0 <= k < rest.len() implies ids.drop_first().contains(
            #[trigger] rest[k].id,
        ) by {
            rows.lemma_filter_pred(pred, k);
            assert(rest.contains(rest[k]));
            rows.lemma_filter_contains_rev(pred, rest[k]);
            let i = choose|i: int| 0 <= i < rows.len() && rows[i] == rest[k];
            assert(ids.contains(rows[i].id));
            let j = choose|j: int| 0 <= j < ids.len() && ids[j] == rows[i].id;
            assert(j > 0);
            assert(ids.drop_first()[j - 1] == rest[k].id);
        }
        law_delete_all_empties(rest, ids.drop_first());
    }
}

} // verus!
