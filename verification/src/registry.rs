//! An ordered table from task ids to the handles of running tasks.
//!
//! A session keeps two of these: one for its subscriptions and one for the
//! crawls it has detached. Ids are handed out by the table itself, so that a
//! live id is never handed out twice.

use indexmap::IndexMap;
use spider::tokio::task::JoinError;
use spider::tokio::task::JoinHandle;
use vstd::prelude::*;

verus! {

/// Every id is smaller than the ids that were registered after it.
pub open spec fn ascending(ids: Seq<u32>) -> bool {
    forall|i: int, j: int| 0 <= i < j < ids.len() ==> ids[i] < ids[j]
}

/// The id that a table holding `ids` hands out next: 0 when it is empty,
/// else one more than the id registered last.
pub open spec fn next_id(ids: Seq<u32>) -> int {
    if ids.len() == 0 {
        0
    } else {
        ids.last() + 1
    }
}

/// `ids` with the entry for `id` taken out and the others left in order.
pub open spec fn without(ids: Seq<u32>, id: u32) -> Seq<u32> {
    if ids.contains(id) {
        ids.remove(ids.index_of(id))
    } else {
        ids
    }
}

/// `tasks` with the task taken out that stands where `id` stands in `ids`,
/// and the others left in order.
pub open spec fn tasks_without(ids: Seq<u32>, tasks: Seq<JoinHandle<()>>, id: u32) -> Seq<
    JoinHandle<()>,
> {
    if ids.contains(id) {
        tasks.remove(ids.index_of(id))
    } else {
        tasks
    }
}

/// `indexmap::IndexMap`, the insertion-ordered hash table that holds the
/// entries. Verus sees nothing inside it.
#[verifier::external_type_specification]
#[verifier::external_body]
#[verifier::reject_recursive_types(K)]
#[verifier::reject_recursive_types(V)]
#[verifier::reject_recursive_types(S)]
pub struct ExIndexMap<K, V, S>(IndexMap<K, V, S>);

/// `tokio::task::JoinHandle`, the owner's grip on a spawned task.
#[verifier::external_type_specification]
#[verifier::external_body]
#[verifier::reject_recursive_types(T)]
pub struct ExJoinHandle<T>(JoinHandle<T>);

/// `tokio::task::JoinError`, which a `JoinHandle` yields when it is awaited.
/// Nothing here names it; Verus asks for it with the handle.
#[verifier::external_type_specification]
#[verifier::external_body]
pub struct ExJoinError(JoinError);

/// The keys of an `IndexMap`, in the order in which the map iterates.
pub uninterp spec fn table_ids(table: IndexMap<u32, JoinHandle<()>>) -> Seq<u32>;

/// The values of an `IndexMap`, in the order in which the map iterates:
/// each stands where its key stands among the keys.
pub uninterp spec fn table_tasks(table: IndexMap<u32, JoinHandle<()>>) -> Seq<JoinHandle<()>>;

/// `IndexMap::new`: a map without entries.
#[verifier::external_body]
fn table_new() -> (table: IndexMap<u32, JoinHandle<()>>)
    ensures
        table_ids(table) == Seq::<u32>::empty(),
        table_tasks(table) == Seq::<JoinHandle<()>>::empty(),
{
    IndexMap::new()
}

/// `IndexMap::len`: the number of entries.
#[verifier::external_body]
fn table_len(table: &IndexMap<u32, JoinHandle<()>>) -> (len: usize)
    ensures
        len == table_ids(*table).len(),
{
    table.len()
}

/// `IndexMap::last`: the key of the entry that comes last in the map's
/// order, `None` for an empty map.
#[verifier::external_body]
fn table_last(table: &IndexMap<u32, JoinHandle<()>>) -> (last: Option<u32>)
    ensures
        table_ids(*table).len() == 0 ==> last is None,
        table_ids(*table).len() > 0 ==> last == Some(table_ids(*table).last()),
{
    table.last().map(|entry| *entry.0)
}

/// `IndexMap::keys`: the keys in the map's order.
#[verifier::external_body]
fn table_keys(table: &IndexMap<u32, JoinHandle<()>>) -> (keys: Vec<u32>)
    ensures
        keys@ == table_ids(*table),
{
    table.keys().copied().collect()
}

/// `IndexMap::insert`: a key that the map does not hold yet goes last in
/// the order, and its value with it; for a key that it holds, the value is
/// replaced where it stands and the keys stay as they are.
#[verifier::external_body]
fn table_insert(table: &mut IndexMap<u32, JoinHandle<()>>, id: u32, handle: JoinHandle<()>)
    ensures
        table_ids(*old(table)).contains(id) ==> table_ids(*final(table)) == table_ids(*old(table))
            && exists|i: int|
            0 <= i < table_ids(*old(table)).len() && #[trigger] table_ids(*old(table))[i] == id
                && table_tasks(*final(table)) == table_tasks(*old(table)).update(i, handle),
        !table_ids(*old(table)).contains(id) ==> table_ids(*final(table)) == table_ids(
            *old(table),
        ).push(id) && table_tasks(*final(table)) == table_tasks(*old(table)).push(handle),
{
    table.insert(id, handle);
}

/// `IndexMap::shift_remove`: the entry for the key leaves the map and its
/// value is handed out, and the entries behind it move up without changing
/// their order; a map that does not hold the key is left as it is.
#[verifier::external_body]
fn table_shift_remove(table: &mut IndexMap<u32, JoinHandle<()>>, id: u32) -> (removed: Option<
    JoinHandle<()>,
>)
    ensures
        removed is Some ==> exists|i: int|
            0 <= i < table_ids(*old(table)).len() && #[trigger] table_ids(*old(table))[i] == id
                && table_ids(*final(table)) == table_ids(*old(table)).remove(i)
                && removed == Some(table_tasks(*old(table))[i]) && table_tasks(*final(table))
                == table_tasks(*old(table)).remove(i),
        removed is None ==> !table_ids(*old(table)).contains(id) && table_ids(*final(table))
            == table_ids(*old(table)) && table_tasks(*final(table)) == table_tasks(*old(table)),
{
    table.shift_remove(&id)
}

/// `IndexMap::drain` over the full range: the map is left empty and its
/// entries are handed out in the map's order.
#[verifier::external_body]
fn table_drain(table: &mut IndexMap<u32, JoinHandle<()>>) -> (drained: Vec<(u32, JoinHandle<()>)>)
    ensures
        table_ids(*final(table)) == Seq::<u32>::empty(),
        table_tasks(*final(table)) == Seq::<JoinHandle<()>>::empty(),
        drained@.len() == table_ids(*old(table)).len(),
        forall|i: int|
            0 <= i < drained@.len() ==> (#[trigger] drained@[i]) == (
                table_ids(*old(table))[i],
                table_tasks(*old(table))[i],
            ),
{
    table.drain(..).collect()
}

/// `JoinHandle::abort`: asks the runtime to cancel the task. The call
/// returns at once and tells nothing about the task.
#[verifier::external_body]
pub(crate) fn abort_task(handle: &JoinHandle<()>) {
    handle.abort();
}

/// An ordered id-to-handle table.
pub struct Registry {
    table: IndexMap<u32, JoinHandle<()>>,
}

impl View for Registry {
    type V = Seq<u32>;

    /// The live ids, oldest first.
    closed spec fn view(&self) -> Seq<u32> {
        table_ids(self.table)
    }
}

impl Registry {
    /// The tasks of the live entries, oldest first: the task at a place is
    /// the one registered under the id at that place.
    pub closed spec fn tasks(&self) -> Seq<JoinHandle<()>> {
        table_tasks(self.table)
    }

    /// The table's invariant: ids ascend in the order of registration, and
    /// each id has its task.
    pub open spec fn wf(&self) -> bool {
        ascending(self@) && self.tasks().len() == self@.len()
    }

    /// An empty table.
    pub fn new() -> (registry: Registry)
        ensures
            registry.wf(),
            registry@ == Seq::<u32>::empty(),
            registry.tasks() == Seq::<JoinHandle<()>>::empty(),
    {
        Registry { table: table_new() }
    }

    /// The number of live entries.
    pub fn len(&self) -> (len: usize)
        ensures
            len == self@.len(),
    {
        table_len(&self.table)
    }

    /// Whether no entry is live.
    pub fn is_empty(&self) -> (empty: bool)
        ensures
            empty == (self@.len() == 0),
    {
        table_len(&self.table) == 0
    }

    /// The live ids, oldest first.
    pub fn ids(&self) -> (ids: Vec<u32>)
        ensures
            ids@ == self@,
    {
        table_keys(&self.table)
    }

    /// Whether another id can be handed out: ids end at `u32::MAX`.
    pub fn has_room(&self) -> (room: bool)
        ensures
            room == (next_id(self@) <= u32::MAX),
    {
        match table_last(&self.table) {
            Some(last) => last < u32::MAX,
            None => true,
        }
    }

    /// The id for the next entry: 0 for an empty table, else one more than
    /// the id registered last. It is above every live id.
    pub fn allocate_next(&self) -> (id: u32)
        requires
            self.wf(),
            next_id(self@) <= u32::MAX,
        ensures
            id == next_id(self@),
            forall|i: int| 0 <= i < self@.len() ==> self@[i] < id,
    {
        match table_last(&self.table) {
            Some(last) => last + 1,
            None => 0,
        }
    }

    /// Records `handle` under `id`, which must not be below the id that
    /// `allocate_next` gives.
    pub fn insert(&mut self, id: u32, handle: JoinHandle<()>)
        requires
            old(self).wf(),
            next_id(old(self)@) <= id,
        ensures
            final(self).wf(),
            final(self)@ == old(self)@.push(id),
            final(self).tasks() == old(self).tasks().push(handle),
    {
        proof {
            lemma_below_next(self@);
        }
        table_insert(&mut self.table, id, handle);
    }

    /// Asks the task registered under `id` to stop and forgets it. Tells
    /// whether there was such an entry.
    pub fn cancel_one(&mut self, id: u32) -> (existed: bool)
        requires
            old(self).wf(),
        ensures
            final(self).wf(),
            existed == old(self)@.contains(id),
            final(self)@ == without(old(self)@, id),
            final(self).tasks() == tasks_without(old(self)@, old(self).tasks(), id),
    {
        proof {
            lemma_without_keeps_ascending(self@, id);
        }
        match table_shift_remove(&mut self.table, id) {
            Some(handle) => {
                abort_task(&handle);
                true
            },
            None => false,
        }
    }

    /// Asks every registered task to stop and empties the table. Tells
    /// whether anything was registered.
    pub fn cancel_all(&mut self) -> (existed: bool)
        ensures
            final(self).wf(),
            existed == (old(self)@.len() > 0),
            final(self)@ == Seq::<u32>::empty(),
            final(self).tasks() == Seq::<JoinHandle<()>>::empty(),
    {
        let drained = table_drain(&mut self.table);
        let mut i: usize = 0;
        while i < drained.len()
            invariant
                i <= drained.len(),
            decreases drained.len() - i,
        {
            abort_task(&drained[i].1);
            i = i + 1;
        }
        drained.len() > 0
    }
}

/// In an ascending sequence every id is below the id that comes next.
pub proof fn lemma_below_next(ids: Seq<u32>)
    requires
        ascending(ids),
    ensures
        forall|i: int| 0 <= i < ids.len() ==> ids[i] < next_id(ids),
        forall|id: u32| next_id(ids) <= id ==> !ids.contains(id),
{
}

/// In an ascending sequence an id stands at one place only, and taking it
/// out leaves an ascending sequence.
pub proof fn lemma_without_keeps_ascending(ids: Seq<u32>, id: u32)
    requires
        ascending(ids),
    ensures
        ascending(without(ids, id)),
        !without(ids, id).contains(id),
        forall|i: int|
            0 <= i < ids.len() && ids[i] == id ==> without(ids, id) == ids.remove(i) && ids.index_of(
                id,
            ) == i,
        forall|k: u32| k != id ==> (without(ids, id).contains(k) <==> ids.contains(k)),
{
    if ids.contains(id) {
        let at = ids.index_of(id);
        let rest = ids.remove(at);
        assert forall|i: int, j: int| 0 <= i < j < rest.len() implies rest[i] < rest[j] by {
            let si = if i < at { i } else { i + 1 };
            let sj = if j < at { j } else { j + 1 };
            assert(rest[i] == ids[si]);
            assert(rest[j] == ids[sj]);
        }
        assert forall|i: int| 0 <= i < rest.len() implies rest[i] != id by {
            let si = if i < at { i } else { i + 1 };
            assert(rest[i] == ids[si]);
        }
        assert forall|k: u32| k != id implies (rest.contains(k) <==> ids.contains(k)) by {
            if rest.contains(k) {
                let i = rest.index_of(k);
                let si = if i < at { i } else { i + 1 };
                assert(rest[i] == ids[si]);
            }
            if ids.contains(k) {
                let si = ids.index_of(k);
                let i = if si < at { si } else { si - 1 };
                assert(rest[i] == ids[si]);
            }
        }
    }
}

/// One call on a table, as far as its ids go.
pub enum TableOp {
    /// A handle is registered under the id that the table hands out.
    Register,
    /// The entry under one id is cancelled.
    CancelOne(u32),
    /// Every entry is cancelled.
    CancelAll,
}

/// The ids after one call.
pub open spec fn apply(ids: Seq<u32>, op: TableOp) -> Seq<u32> {
    match op {
        TableOp::Register => ids.push(next_id(ids) as u32),
        TableOp::CancelOne(id) => without(ids, id),
        TableOp::CancelAll => Seq::empty(),
    }
}

/// The ids after a run of calls, starting from `ids`.
pub open spec fn replay(ids: Seq<u32>, ops: Seq<TableOp>) -> Seq<u32>
    decreases ops.len(),
{
    if ops.len() == 0 {
        ids
    } else {
        apply(replay(ids, ops.drop_last()), ops.last())
    }
}

/// No `Register` of the run meets a table whose ids have reached `u32::MAX`.
pub open spec fn in_range(start: Seq<u32>, ops: Seq<TableOp>) -> bool {
    forall|k: int|
        0 <= k < ops.len() && ops[k] is Register ==> next_id(#[trigger] replay(start, ops.take(k)))
            <= u32::MAX
}

/// No `CancelOne` of the run takes out the newest id while older ones stay.
pub open spec fn keeps_newest(start: Seq<u32>, ops: Seq<TableOp>) -> bool {
    forall|k: int|
        0 <= k < ops.len() ==> match ops[k] {
            TableOp::CancelOne(id) => {
                let ids = #[trigger] replay(start, ops.take(k));
                ids.len() > 1 ==> id != ids.last()
            },
            _ => true,
        }
}

/// The ids before call `k + 1` of a run are those before call `k` with that
/// call applied.
pub proof fn lemma_replay_step(start: Seq<u32>, ops: Seq<TableOp>, k: int)
    requires
        0 <= k < ops.len(),
    ensures
        replay(start, ops.take(k + 1)) == apply(replay(start, ops.take(k)), ops[k]),
{
    assert(ops.take(k + 1).drop_last() =~= ops.take(k));
}

/// A run that starts from ascending ids and stays in range leaves ascending
/// ids after each of its calls.
pub proof fn lemma_replay_ascending(start: Seq<u32>, ops: Seq<TableOp>, k: int)
    requires
        ascending(start),
        in_range(start, ops),
        0 <= k <= ops.len(),
    ensures
        ascending(replay(start, ops.take(k))),
    decreases k,
{
    if k == 0 {
        assert(ops.take(0) =~= Seq::<TableOp>::empty());
    } else {
        lemma_replay_ascending(start, ops, k - 1);
        lemma_replay_step(start, ops, k - 1);
        let before = replay(start, ops.take(k - 1));
        match ops[k - 1] {
            TableOp::Register => {
                lemma_below_next(before);
            },
            TableOp::CancelOne(id) => {
                lemma_without_keeps_ascending(before, id);
            },
            TableOp::CancelAll => {},
        }
    }
}

/// After a `Register`, and for as long as the table does not run empty and
/// keeps its newest id, the id registered last is not below the one that
/// this `Register` handed out.
proof fn lemma_newest_stays(start: Seq<u32>, ops: Seq<TableOp>, i: int, k: int)
    requires
        ascending(start),
        in_range(start, ops),
        keeps_newest(start, ops),
        0 <= i < k <= ops.len(),
        ops[i] is Register,
        forall|m: int| i < m <= k ==> (#[trigger] replay(start, ops.take(m))).len() > 0,
    ensures
        replay(start, ops.take(k)).len() > 0,
        replay(start, ops.take(k)).last() >= next_id(replay(start, ops.take(i))),
    decreases k - i,
{
    lemma_replay_step(start, ops, k - 1);
    lemma_replay_ascending(start, ops, k - 1);
    let before = replay(start, ops.take(k - 1));
    let after = replay(start, ops.take(k));
    assert(after.len() > 0);
    if k == i + 1 {
    } else {
        lemma_newest_stays(start, ops, i, k - 1);
        match ops[k - 1] {
            TableOp::Register => {},
            TableOp::CancelOne(id) => {
                lemma_without_keeps_ascending(before, id);
                if before.contains(id) {
                    let at = before.index_of(id);
                    assert(after == before.remove(at));
                    if at == before.len() - 1 {
                        assert(before.len() > 1);
                        assert(false);
                    } else {
                        assert(after.last() == before.last());
                    }
                }
            },
            TableOp::CancelAll => {},
        }
    }
}

/// Between two registrations ids only grow, for as long as the table does
/// not run empty and no call in between cancels the newest id while older
/// ones stay: of two `Register` calls of such a run, the later hands out the
/// greater id.
pub proof fn lemma_ids_increase_while_live(start: Seq<u32>, ops: Seq<TableOp>, i: int, j: int)
    requires
        ascending(start),
        in_range(start, ops),
        keeps_newest(start, ops),
        0 <= i < j < ops.len(),
        ops[i] is Register,
        ops[j] is Register,
        forall|m: int| i < m <= j ==> (#[trigger] replay(start, ops.take(m))).len() > 0,
    ensures
        next_id(replay(start, ops.take(i))) < next_id(replay(start, ops.take(j))),
{
    lemma_newest_stays(start, ops, i, j);
}

/// Once a table has run empty, the next registration starts again at 0.
pub proof fn lemma_ids_restart_when_drained(start: Seq<u32>, ops: Seq<TableOp>, j: int)
    requires
        0 <= j < ops.len(),
        ops[j] is Register,
        replay(start, ops.take(j)).len() == 0,
    ensures
        next_id(replay(start, ops.take(j))) == 0,
        replay(start, ops.take(j + 1)) == seq![0u32],
{
    lemma_replay_step(start, ops, j);
    assert(replay(start, ops.take(j)).push(0u32) =~= seq![0u32]);
}

/// A table never hands out an id that is live: the id of a registration is
/// above every id that the table holds at that time.
pub proof fn lemma_issued_id_is_fresh(start: Seq<u32>, ops: Seq<TableOp>, j: int)
    requires
        ascending(start),
        in_range(start, ops),
        0 <= j < ops.len(),
        ops[j] is Register,
    ensures
        forall|id: u32|
            replay(start, ops.take(j)).contains(id) ==> id < next_id(replay(start, ops.take(j))),
{
    lemma_replay_ascending(start, ops, j);
    lemma_below_next(replay(start, ops.take(j)));
}

/// An id is handed out again when it was the newest and is cancelled while
/// older entries stay: the table then goes on from the newest id left.
pub proof fn lemma_cancelled_newest_is_reissued(ids: Seq<u32>)
    requires
        ascending(ids),
        ids.len() > 0,
        next_id(ids) <= u32::MAX,
    ensures
        ({
            let issued = next_id(ids) as u32;
            next_id(without(ids.push(issued), issued)) == issued
        }),
{
    let issued = next_id(ids) as u32;
    let grown = ids.push(issued);
    lemma_below_next(ids);
    assert(grown[ids.len() as int] == issued);
    lemma_without_keeps_ascending(grown, issued);
    assert(grown.remove(ids.len() as int) =~= ids);
}

} // verus!
