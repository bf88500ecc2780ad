//! The central engine instance: the name-keyed catalog of registered
//! ping types and the store of counter values, together with the
//! mathematical model both are specified against.

use vstd::prelude::*;
use vstd::string::StringExecFns;

use crate::common::str_eq;
use crate::ping_type::PingType;

verus! {

/// One stored counter: the value of the counter named `id` inside the
/// ping storage named `ping`.
#[derive(Clone, Debug)]
pub struct StoreCell {
    /// The ping storage this cell belongs to.
    pub ping: String,
    /// The full identifier of the counter.
    pub id: String,
    /// The current count.
    pub value: i32,
}

/// Whether a cell carries the given (ping, identifier) key.
pub open spec fn cell_matches(cell: StoreCell, ping: Seq<char>, id: Seq<char>) -> bool {
    cell.ping@ == ping && cell.id@ == id
}

/// Looks a counter up in a sequence of cells: the value of the first
/// cell carrying the key, if any.
pub open spec fn find_cell(cells: Seq<StoreCell>, ping: Seq<char>, id: Seq<char>) -> Option<i32>
    decreases cells.len(),
{
    if cells.len() == 0 {
        None
    } else if cell_matches(cells[0], ping, id) {
        Some(cells[0].value)
    } else {
        find_cell(cells.drop_first(), ping, id)
    }
}

/// The count stored under a key, with an absent counter standing for 0.
pub open spec fn counter_count(cells: Seq<StoreCell>, ping: Seq<char>, id: Seq<char>) -> int {
    match find_cell(cells, ping, id) {
        Some(v) => v as int,
        None => 0,
    }
}

/// Saturation of a mathematical integer into the `i32` range.
pub open spec fn sat_i32(v: int) -> i32 {
    if v > i32::MAX {
        i32::MAX
    } else if v < i32::MIN {
        i32::MIN
    } else {
        v as i32
    }
}

/// How one saturating addition of `amount` to the counter under
/// (`ping`, `id`) relates an old store to a new one: that key holds the
/// bumped count and every other key is untouched.
pub open spec fn bumps_counter(
    old_cells: Seq<StoreCell>,
    new_cells: Seq<StoreCell>,
    ping: Seq<char>,
    id: Seq<char>,
    amount: int,
) -> bool {
    forall|p: Seq<char>, d: Seq<char>|
        #[trigger] find_cell(new_cells, p, d) == if p == ping && d == id {
            Some(sat_i32(counter_count(old_cells, ping, id) + amount))
        } else {
            find_cell(old_cells, p, d)
        }
}

/// How one saturating addition of `amount` under the identifier `id` in
/// every ping of `pings` relates an old store to a new one.
pub open spec fn adds_counter(
    old_cells: Seq<StoreCell>,
    new_cells: Seq<StoreCell>,
    pings: Seq<Seq<char>>,
    id: Seq<char>,
    amount: int,
) -> bool {
    forall|p: Seq<char>, d: Seq<char>|
        #[trigger] find_cell(new_cells, p, d) == if pings.contains(p) && d == id {
            Some(sat_i32(counter_count(old_cells, p, d) + amount))
        } else {
            find_cell(old_cells, p, d)
        }
}

/// Extending an addition over the pings `pings.take(i)` by one further
/// addition in `pings[i]` yields the addition over `pings.take(i + 1)`:
/// the inductive step behind adding a counter ping by ping.
pub proof fn lemma_adds_counter_step(
    s0: Seq<StoreCell>,
    s1: Seq<StoreCell>,
    s2: Seq<StoreCell>,
    pings: Seq<Seq<char>>,
    i: int,
    id: Seq<char>,
    amount: int,
)
    requires
        0 <= i < pings.len(),
        pings.no_duplicates(),
        adds_counter(s0, s1, pings.take(i), id, amount),
        bumps_counter(s1, s2, pings[i], id, amount),
    ensures
        adds_counter(s0, s2, pings.take(i + 1), id, amount),
{
    let t = pings.take(i);
    let t1 = pings.take(i + 1);
    assert(t1 =~= t.push(pings[i]));
    assert(!t.contains(pings[i])) by {
        if t.contains(pings[i]) {
            let j = choose|j: int| 0 <= j < t.len() && t[j] == pings[i];
            assert(pings[j] == pings[i]);
        }
    }
    assert forall|p: Seq<char>, d: Seq<char>|
        #[trigger] find_cell(s2, p, d) == if t1.contains(p) && d == id {
            Some(sat_i32(counter_count(s0, p, d) + amount))
        } else {
            find_cell(s0, p, d)
        } by {
        assert(t1.contains(p) <==> t.contains(p) || p == pings[i]) by {
            if t1.contains(p) {
                let j = choose|j: int| 0 <= j < t1.len() && t1[j] == p;
                if j < t.len() {
                    assert(t[j] == p);
                } else {
                    assert(p == pings[i]);
                }
            }
            if t.contains(p) {
                let j = choose|j: int| 0 <= j < t.len() && t[j] == p;
                assert(t1[j] == p);
            }
            if p == pings[i] {
                assert(t1[t.len() as int] == p);
            }
        }
        if p == pings[i] && d == id {
            assert(find_cell(s1, p, d) == find_cell(s0, p, d));
        }
    }
}

/// A lookup lands on the first cell carrying the key.
proof fn lemma_find_cell_at(cells: Seq<StoreCell>, j: int, ping: Seq<char>, id: Seq<char>)
    requires
        0 <= j < cells.len(),
        cell_matches(cells[j], ping, id),
        forall|i: int| 0 <= i < j ==> !cell_matches(cells[i], ping, id),
    ensures
        find_cell(cells, ping, id) == Some(cells[j].value),
    decreases j,
{
    if j > 0 {
        assert(cells.drop_first()[j - 1] == cells[j]);
        assert forall|i: int| 0 <= i < j - 1 implies !cell_matches(
            cells.drop_first()[i],
            ping,
            id,
        ) by {
            assert(cells.drop_first()[i] == cells[i + 1]);
        }
        lemma_find_cell_at(cells.drop_first(), j - 1, ping, id);
    }
}

/// A lookup fails when no cell carries the key.
proof fn lemma_find_cell_absent(cells: Seq<StoreCell>, ping: Seq<char>, id: Seq<char>)
    requires
        forall|i: int| 0 <= i < cells.len() ==> !cell_matches(cells[i], ping, id),
    ensures
        find_cell(cells, ping, id) is None,
    decreases cells.len(),
{
    if cells.len() > 0 {
        assert forall|i: int| 0 <= i < cells.drop_first().len() implies !cell_matches(
            cells.drop_first()[i],
            ping,
            id,
        ) by {
            assert(cells.drop_first()[i] == cells[i + 1]);
        }
        lemma_find_cell_absent(cells.drop_first(), ping, id);
    }
}

/// Overwriting the first cell that carries a key changes the lookup of
/// that key alone.
proof fn lemma_find_cell_update(
    cells: Seq<StoreCell>,
    j: int,
    cell: StoreCell,
    ping: Seq<char>,
    id: Seq<char>,
)
    requires
        0 <= j < cells.len(),
        cell_matches(cells[j], ping, id),
        cell_matches(cell, ping, id),
        forall|i: int| 0 <= i < j ==> !cell_matches(cells[i], ping, id),
    ensures
        forall|p: Seq<char>, d: Seq<char>|
            #[trigger] find_cell(cells.update(j, cell), p, d) == if p == ping && d == id {
                Some(cell.value)
            } else {
                find_cell(cells, p, d)
            },
    decreases j,
{
    let upd = cells.update(j, cell);
    if j == 0 {
        assert(upd.drop_first() =~= cells.drop_first());
        assert forall|p: Seq<char>, d: Seq<char>|
            #[trigger] find_cell(upd, p, d) == if p == ping && d == id {
                Some(cell.value)
            } else {
                find_cell(cells, p, d)
            } by {
            assert(upd[0] == cell);
        }
    } else {
        assert forall|i: int| 0 <= i < j - 1 implies !cell_matches(
            cells.drop_first()[i],
            ping,
            id,
        ) by {
            assert(cells.drop_first()[i] == cells[i + 1]);
        }
        assert(cells.drop_first()[j - 1] == cells[j]);
        lemma_find_cell_update(cells.drop_first(), j - 1, cell, ping, id);
        assert(upd.drop_first() =~= cells.drop_first().update(j - 1, cell));
        assert forall|p: Seq<char>, d: Seq<char>|
            #[trigger] find_cell(upd, p, d) == if p == ping && d == id {
                Some(cell.value)
            } else {
                find_cell(cells, p, d)
            } by {
            assert(upd[0] == cells[0]);
            assert(find_cell(cells.drop_first().update(j - 1, cell), p, d) == if p == ping && d
                == id {
                Some(cell.value)
            } else {
                find_cell(cells.drop_first(), p, d)
            });
        }
    }
}

/// Appending a cell for a key that no cell carries yet changes the
/// lookup of that key alone.
proof fn lemma_find_cell_push(cells: Seq<StoreCell>, cell: StoreCell)
    requires
        forall|i: int| 0 <= i < cells.len() ==> !cell_matches(cells[i], cell.ping@, cell.id@),
    ensures
        forall|p: Seq<char>, d: Seq<char>|
            #[trigger] find_cell(cells.push(cell), p, d) == if p == cell.ping@ && d == cell.id@ {
                Some(cell.value)
            } else {
                find_cell(cells, p, d)
            },
    decreases cells.len(),
{
    let pushed = cells.push(cell);
    if cells.len() == 0 {
        assert forall|p: Seq<char>, d: Seq<char>|
            #[trigger] find_cell(pushed, p, d) == if p == cell.ping@ && d == cell.id@ {
                Some(cell.value)
            } else {
                find_cell(cells, p, d)
            } by {
            assert(pushed[0] == cell);
            assert(pushed.drop_first() =~= Seq::<StoreCell>::empty());
            if p == cell.ping@ && d == cell.id@ {
                assert(cell_matches(pushed[0], p, d));
            } else {
                assert(!cell_matches(pushed[0], p, d));
                assert(find_cell(pushed, p, d) == find_cell(pushed.drop_first(), p, d));
                assert(find_cell(pushed.drop_first(), p, d) is None);
            }
        }
    } else {
        assert forall|i: int| 0 <= i < cells.drop_first().len() implies !cell_matches(
            cells.drop_first()[i],
            cell.ping@,
            cell.id@,
        ) by {
            assert(cells.drop_first()[i] == cells[i + 1]);
        }
        lemma_find_cell_push(cells.drop_first(), cell);
        assert(pushed.drop_first() =~= cells.drop_first().push(cell));
        assert forall|p: Seq<char>, d: Seq<char>|
            #[trigger] find_cell(pushed, p, d) == if p == cell.ping@ && d == cell.id@ {
                Some(cell.value)
            } else {
                find_cell(cells, p, d)
            } by {
            assert(pushed[0] == cells[0]);
            assert(find_cell(cells.drop_first().push(cell), p, d) == if p == cell.ping@ && d
                == cell.id@ {
                Some(cell.value)
            } else {
                find_cell(cells.drop_first(), p, d)
            });
        }
    }
}

/// Whether a ping definition carries the given name.
pub open spec fn ping_matches(ping: PingType, name: Seq<char>) -> bool {
    ping.name@ == name
}

/// Looks a ping type up in the catalog by name: the first definition
/// carrying the name, if any.
pub open spec fn find_ping(pings: Seq<PingType>, name: Seq<char>) -> Option<PingType>
    decreases pings.len(),
{
    if pings.len() == 0 {
        None
    } else if ping_matches(pings[0], name) {
        Some(pings[0])
    } else {
        find_ping(pings.drop_first(), name)
    }
}

/// A catalog lookup lands on the first definition carrying the name.
proof fn lemma_find_ping_at(pings: Seq<PingType>, j: int, name: Seq<char>)
    requires
        0 <= j < pings.len(),
        ping_matches(pings[j], name),
        forall|i: int| 0 <= i < j ==> !ping_matches(pings[i], name),
    ensures
        find_ping(pings, name) == Some(pings[j]),
    decreases j,
{
    if j > 0 {
        assert(pings.drop_first()[j - 1] == pings[j]);
        assert forall|i: int| 0 <= i < j - 1 implies !ping_matches(pings.drop_first()[i], name) by {
            assert(pings.drop_first()[i] == pings[i + 1]);
        }
        lemma_find_ping_at(pings.drop_first(), j - 1, name);
    }
}

/// A catalog lookup fails when no definition carries the name.
proof fn lemma_find_ping_absent(pings: Seq<PingType>, name: Seq<char>)
    requires
        forall|i: int| 0 <= i < pings.len() ==> !ping_matches(pings[i], name),
    ensures
        find_ping(pings, name) is None,
    decreases pings.len(),
{
    if pings.len() > 0 {
        assert forall|i: int| 0 <= i < pings.drop_first().len() implies !ping_matches(
            pings.drop_first()[i],
            name,
        ) by {
            assert(pings.drop_first()[i] == pings[i + 1]);
        }
        lemma_find_ping_absent(pings.drop_first(), name);
    }
}

/// Replacing the first definition that carries a name changes the
/// lookup of that name alone.
proof fn lemma_find_ping_update(pings: Seq<PingType>, j: int, ping: PingType, name: Seq<char>)
    requires
        0 <= j < pings.len(),
        ping_matches(pings[j], name),
        ping_matches(ping, name),
        forall|i: int| 0 <= i < j ==> !ping_matches(pings[i], name),
    ensures
        forall|n: Seq<char>|
            #[trigger] find_ping(pings.update(j, ping), n) == if n == name {
                Some(ping)
            } else {
                find_ping(pings, n)
            },
    decreases j,
{
    let upd = pings.update(j, ping);
    if j == 0 {
        assert(upd.drop_first() =~= pings.drop_first());
        assert forall|n: Seq<char>|
            #[trigger] find_ping(upd, n) == if n == name {
                Some(ping)
            } else {
                find_ping(pings, n)
            } by {
            assert(upd[0] == ping);
        }
    } else {
        assert forall|i: int| 0 <= i < j - 1 implies !ping_matches(pings.drop_first()[i], name) by {
            assert(pings.drop_first()[i] == pings[i + 1]);
        }
        assert(pings.drop_first()[j - 1] == pings[j]);
        lemma_find_ping_update(pings.drop_first(), j - 1, ping, name);
        assert(upd.drop_first() =~= pings.drop_first().update(j - 1, ping));
        assert forall|n: Seq<char>|
            #[trigger] find_ping(upd, n) == if n == name {
                Some(ping)
            } else {
                find_ping(pings, n)
            } by {
            assert(upd[0] == pings[0]);
            assert(find_ping(pings.drop_first().update(j - 1, ping), n) == if n == name {
                Some(ping)
            } else {
                find_ping(pings.drop_first(), n)
            });
        }
    }
}

/// Appending a definition whose name no definition carries yet changes
/// the lookup of that name alone.
proof fn lemma_find_ping_push(pings: Seq<PingType>, ping: PingType)
    requires
        forall|i: int| 0 <= i < pings.len() ==> !ping_matches(pings[i], ping.name@),
    ensures
        forall|n: Seq<char>|
            #[trigger] find_ping(pings.push(ping), n) == if n == ping.name@ {
                Some(ping)
            } else {
                find_ping(pings, n)
            },
    decreases pings.len(),
{
    let pushed = pings.push(ping);
    if pings.len() == 0 {
        assert forall|n: Seq<char>|
            #[trigger] find_ping(pushed, n) == if n == ping.name@ {
                Some(ping)
            } else {
                find_ping(pings, n)
            } by {
            assert(pushed[0] == ping);
            assert(pushed.drop_first() =~= Seq::<PingType>::empty());
            if n == ping.name@ {
                assert(ping_matches(pushed[0], n));
            } else {
                assert(!ping_matches(pushed[0], n));
                assert(find_ping(pushed, n) == find_ping(pushed.drop_first(), n));
                assert(find_ping(pushed.drop_first(), n) is None);
            }
        }
    } else {
        assert forall|i: int| 0 <= i < pings.drop_first().len() implies !ping_matches(
            pings.drop_first()[i],
            ping.name@,
        ) by {
            assert(pings.drop_first()[i] == pings[i + 1]);
        }
        lemma_find_ping_push(pings.drop_first(), ping);
        assert(pushed.drop_first() =~= pings.drop_first().push(ping));
        assert forall|n: Seq<char>|
            #[trigger] find_ping(pushed, n) == if n == ping.name@ {
                Some(ping)
            } else {
                find_ping(pings, n)
            } by {
            assert(pushed[0] == pings[0]);
            assert(find_ping(pings.drop_first().push(ping), n) == if n == ping.name@ {
                Some(ping)
            } else {
                find_ping(pings.drop_first(), n)
            });
        }
    }
}

/// The central engine instance: the catalog of registered ping types
/// and the durable counter store, here held as plain in-memory data so
/// that every operation on them is verified.
#[derive(Clone, Debug)]
pub struct Glean {
    /// The registered ping definitions, looked up by name.
    pub ping_types: Vec<PingType>,
    /// The counter cells, looked up by (ping storage, identifier).
    pub store: Vec<StoreCell>,
}

impl Glean {
    /// Creates an engine with an empty catalog and an empty store.
    pub fn new() -> (glean: Glean)
        ensures
            glean.ping_types@ == Seq::<PingType>::empty(),
            glean.store@ == Seq::<StoreCell>::empty(),
    {
        Glean { ping_types: Vec::new(), store: Vec::new() }
    }

    /// Registers a ping type under its name.  Re-registration under an
    /// already-present name deterministically replaces the earlier
    /// definition, mirroring a plain keyed insert.
    pub fn register_ping_type(&mut self, ping: &PingType)
        ensures
            final(self).store == old(self).store,
            forall|n: Seq<char>|
                #[trigger] find_ping(final(self).ping_types@, n) == if n == ping.name@ {
                    Some(*ping)
                } else {
                    find_ping(old(self).ping_types@, n)
                },
    {
        let n = self.ping_types.len();
        let mut i: usize = 0;
        while i < n
            invariant
                i <= n,
                n == self.ping_types@.len(),
                *self == *old(self),
                forall|j: int| 0 <= j < i ==> !ping_matches(self.ping_types@[j], ping.name@),
            decreases n - i,
        {
            if str_eq(self.ping_types[i].name.as_str(), ping.name.as_str()) {
                self.ping_types[i] = ping.clone();
                proof {
                    assert(self.ping_types@ == old(self).ping_types@.update(
                        i as int,
                        self.ping_types@[i as int],
                    ));
                    assert(ping_matches(self.ping_types@[i as int], ping.name@));
                    lemma_find_ping_update(
                        old(self).ping_types@,
                        i as int,
                        self.ping_types@[i as int],
                        ping.name@,
                    );
                }
                return ;
            }
            i += 1;
        }
        self.ping_types.push(ping.clone());
        proof {
            assert(self.ping_types@ == old(self).ping_types@.push(
                self.ping_types@[n as int],
            ));
            assert(ping_matches(self.ping_types@[n as int], ping.name@));
            lemma_find_ping_push(old(self).ping_types@, self.ping_types@[n as int]);
        }
    }

    /// Looks a registered ping type up by name.
    pub fn get_ping_by_name(&self, name: &str) -> (result: Option<&PingType>)
        ensures
            match result {
                Some(ping) => find_ping(self.ping_types@, name@) == Some(*ping),
                None => find_ping(self.ping_types@, name@) is None,
            },
    {
        let n = self.ping_types.len();
        let mut i: usize = 0;
        while i < n
            invariant
                i <= n,
                n == self.ping_types@.len(),
                forall|j: int| 0 <= j < i ==> !ping_matches(self.ping_types@[j], name@),
            decreases n - i,
        {
            if str_eq(self.ping_types[i].name.as_str(), name) {
                proof {
                    lemma_find_ping_at(self.ping_types@, i as int, name@);
                }
                return Some(&self.ping_types[i]);
            }
            i += 1;
        }
        proof {
            lemma_find_ping_absent(self.ping_types@, name@);
        }
        None
    }

    /// Adds `amount` to the counter stored under (`ping`, `id`),
    /// saturating at the `i32` bounds; an absent counter counts from 0.
    /// No other key of the store is touched.
    pub fn add_counter(&mut self, ping: &str, id: &str, amount: i32)
        ensures
            final(self).ping_types == old(self).ping_types,
            bumps_counter(old(self).store@, final(self).store@, ping@, id@, amount as int),
    {
        let n = self.store.len();
        let mut i: usize = 0;
        while i < n
            invariant
                i <= n,
                n == self.store@.len(),
                *self == *old(self),
                forall|j: int| 0 <= j < i ==> !cell_matches(self.store@[j], ping@, id@),
            decreases n - i,
        {
            if str_eq(self.store[i].ping.as_str(), ping) && str_eq(
                self.store[i].id.as_str(),
                id,
            ) {
                let v = self.store[i].value;
                let sum: i64 = v as i64 + amount as i64;
                let bumped: i32 = if sum > i32::MAX as i64 {
                    i32::MAX
                } else if sum < i32::MIN as i64 {
                    i32::MIN
                } else {
                    sum as i32
                };
                proof {
                    lemma_find_cell_at(old(self).store@, i as int, ping@, id@);
                    assert(bumped == sat_i32(counter_count(old(self).store@, ping@, id@) + amount));
                }
                self.store[i].value = bumped;
                proof {
                    assert(self.store@ == old(self).store@.update(
                        i as int,
                        self.store@[i as int],
                    ));
                    assert(cell_matches(self.store@[i as int], ping@, id@));
                    assert(self.store@[i as int].value == bumped);
                    lemma_find_cell_update(
                        old(self).store@,
                        i as int,
                        self.store@[i as int],
                        ping@,
                        id@,
                    );
                }
                return ;
            }
            i += 1;
        }
        proof {
            lemma_find_cell_absent(self.store@, ping@, id@);
            assert(counter_count(old(self).store@, ping@, id@) == 0);
            assert(amount == sat_i32(0 + amount));
        }
        self.store.push(
            StoreCell { ping: String::from_str(ping), id: String::from_str(id), value: amount },
        );
        proof {
            assert(self.store@ == old(self).store@.push(self.store@[n as int]));
            assert(cell_matches(self.store@[n as int], ping@, id@));
            lemma_find_cell_push(old(self).store@, self.store@[n as int]);
        }
    }

    /// Reads the counter stored under (`ping`, `id`), or nothing when
    /// no such counter was ever written.
    pub fn counter_value(&self, ping: &str, id: &str) -> (value: Option<i32>)
        ensures
            value == find_cell(self.store@, ping@, id@),
    {
        let n = self.store.len();
        let mut i: usize = 0;
        while i < n
            invariant
                i <= n,
                n == self.store@.len(),
                forall|j: int| 0 <= j < i ==> !cell_matches(self.store@[j], ping@, id@),
            decreases n - i,
        {
            if str_eq(self.store[i].ping.as_str(), ping) && str_eq(
                self.store[i].id.as_str(),
                id,
            ) {
                proof {
                    lemma_find_cell_at(self.store@, i as int, ping@, id@);
                }
                return Some(self.store[i].value);
            }
            i += 1;
        }
        proof {
            lemma_find_cell_absent(self.store@, ping@, id@);
        }
        None
    }
}

} // verus!
