//! Request-scoped loaders: block identifiers asked for by many resolvers are
//! gathered, fetched from storage in one call per entity kind, and grouped
//! by block.
use crate::entities::{BlockScoped, Call, Event, Extrinsic};
use crate::error::StorageError;
use crate::grouping::{block_records, distinct_keys, group_by_block, groups_match, BlockGroup};
use crate::selection::{CallSelection, EventSelection};
use vstd::prelude::*;

verus! {

/// `pending` after a resolver asks for `key`: keys already waiting, in
/// flight or fetched (`known`) are not added again.
pub open spec fn register(pending: Seq<Seq<char>>, known: Set<Seq<char>>, key: Seq<char>) -> Seq<
    Seq<char>,
> {
    if pending.contains(key) || known.contains(key) {
        pending
    } else {
        pending.push(key)
    }
}

/// `pending` after resolvers ask for each of `keys` in turn.
pub open spec fn register_all(
    pending: Seq<Seq<char>>,
    known: Set<Seq<char>>,
    keys: Seq<Seq<char>>,
) -> Seq<Seq<char>>
    decreases keys.len(),
{
    if keys.len() == 0 {
        pending
    } else {
        register(register_all(pending, known, keys.drop_last()), known, keys.last())
    }
}

/// The request-scoped collection window of one loader: keys waiting for the
/// next storage call, keys of the storage call under way, and the groups of
/// keys already fetched.
pub struct KeyBatcher<T> {
    pub pending: Vec<String>,
    pub in_flight: Vec<String>,
    pub resolved: Vec<BlockGroup<T>>,
}

/// Whether some key of `keys` is `key`.
fn holds_key(keys: &Vec<String>, key: &String) -> (r: bool)
    ensures
        r == keys@.map_values(|k: String| k@).contains(key@),
{
    let ghost ks = keys@.map_values(|k: String| k@);
    let mut i: usize = 0;
    while i < keys.len()
        invariant
            i <= keys.len(),
            ks == keys@.map_values(|k: String| k@),
            forall|j: int| 0 <= j < i ==> (#[trigger] keys@[j])@ != key@,
        decreases keys.len() - i,
    {
        if keys[i] == *key {
            assert(ks[i as int] == key@);
            return true;
        }
        i = i + 1;
    }
    proof {
        if ks.contains(key@) {
            let j = choose|j: int| 0 <= j < ks.len() && ks[j] == key@;
            assert(keys@[j]@ == key@);
        }
    }
    false
}

impl<T: BlockScoped> KeyBatcher<T> {
    pub open spec fn pending_keys(&self) -> Seq<Seq<char>> {
        self.pending@.map_values(|k: String| k@)
    }

    pub open spec fn in_flight_keys(&self) -> Set<Seq<char>> {
        self.in_flight@.map_values(|k: String| k@).to_set()
    }

    pub open spec fn resolved_keys(&self) -> Set<Seq<char>> {
        self.resolved@.map_values(|g: BlockGroup<T>| g.block_id@).to_set()
    }

    /// Keys that a new request does not ask of storage again.
    pub open spec fn known_keys(&self) -> Set<Seq<char>> {
        self.in_flight_keys() + self.resolved_keys()
    }

    pub open spec fn wf(&self) -> bool {
        &&& distinct_keys(self.pending@)
        &&& distinct_keys(self.in_flight@)
        &&& forall|i: int|
            0 <= i < self.pending@.len() ==> !self.known_keys().contains(
                (#[trigger] self.pending@[i])@,
            )
        &&& forall|i: int|
            0 <= i < self.in_flight@.len() ==> !self.resolved_keys().contains(
                (#[trigger] self.in_flight@[i])@,
            )
    }

    /// An empty window: nothing waiting, nothing under way, nothing fetched.
    pub fn new() -> (r: Self)
        ensures
            r.wf(),
            r.pending@.len() == 0,
            r.in_flight@.len() == 0,
            r.resolved@.len() == 0,
            r.pending_keys() == Seq::<Seq<char>>::empty(),
            r.known_keys() == Set::<Seq<char>>::empty(),
    {
        let r = KeyBatcher { pending: Vec::new(), in_flight: Vec::new(), resolved: Vec::new() };
        assert(r.in_flight_keys() =~= Set::<Seq<char>>::empty());
        assert(r.resolved_keys() =~= Set::<Seq<char>>::empty());
        assert(r.pending_keys() =~= Seq::<Seq<char>>::empty());
        assert(r.known_keys() =~= Set::<Seq<char>>::empty());
        r
    }

    /// Records that a resolver needs `key`; a key already waiting, under
    /// way or fetched is not asked for again.
    pub fn request(&mut self, key: &String)
        requires
            old(self).wf(),
        ensures
            final(self).wf(),
            final(self).pending_keys() == register(
                old(self).pending_keys(),
                old(self).known_keys(),
                key@,
            ),
            final(self).in_flight@ == old(self).in_flight@,
            final(self).resolved@ == old(self).resolved@,
    {
        let ghost pk = self.pending_keys();
        let waiting = holds_key(&self.pending, key);
        let flying = holds_key(&self.in_flight, key);
        let mut fetched = false;
        let mut g: usize = 0;
        while g < self.resolved.len()
            invariant
                g <= self.resolved.len(),
                fetched == exists|j: int|
                    0 <= j < g && (#[trigger] self.resolved@[j]).block_id@ == key@,
            decreases self.resolved.len() - g,
        {
            if self.resolved[g].block_id == *key {
                fetched = true;
            }
            g = g + 1;
        }
        let ghost rk = self.resolved@.map_values(|g: BlockGroup<T>| g.block_id@);
        let ghost fk = self.in_flight@.map_values(|k: String| k@);
        proof {
            if rk.contains(key@) {
                let j = choose|j: int| 0 <= j < rk.len() && rk[j] == key@;
                assert(self.resolved@[j].block_id@ == key@);
            }
            if fetched {
                let j = choose|j: int|
                    0 <= j < self.resolved@.len() && (#[trigger] self.resolved@[j]).block_id@ == key@;
                assert(rk[j] == key@);
            }
            assert(rk.to_set().contains(key@) == rk.contains(key@));
            assert(fk.to_set().contains(key@) == fk.contains(key@));
        }
        if !waiting && !flying && !fetched {
            self.pending.push(key.clone());
            assert(self.pending_keys() =~= pk.push(key@));
            assert forall|i: int| 0 <= i < self.pending@.len() implies !self.known_keys().contains(
                (#[trigger] self.pending@[i])@,
            ) by {
                if i < pk.len() {
                    assert(self.pending@[i] == old(self).pending@[i]);
                }
            }
            assert forall|i: int, j: int| 0 <= i < j < self.pending@.len() implies self.pending@[i]@
                != self.pending@[j]@ by {
                assert(pk[i] == self.pending@[i]@);
                if j < pk.len() {
                    assert(pk[j] == self.pending@[j]@);
                }
            }
        }
    }

    /// Hands out every waiting key, for one storage call, and marks them as
    /// under way.
    pub fn take_pending(&mut self) -> (keys: Vec<String>)
        requires
            old(self).wf(),
            old(self).in_flight@.len() == 0,
        ensures
            final(self).wf(),
            keys@ == old(self).pending@,
            distinct_keys(keys@),
            final(self).pending@ == Seq::<String>::empty(),
            final(self).in_flight@ == old(self).pending@,
            final(self).resolved@ == old(self).resolved@,
    {
        let keys = self.pending.clone();
        assert(keys@ =~= self.pending@);
        self.in_flight = keys;
        self.pending = Vec::new();
        assert forall|i: int| 0 <= i < self.in_flight@.len() implies !self.resolved_keys().contains(
            (#[trigger] self.in_flight@[i])@,
        ) by {
            assert(self.in_flight@[i] == old(self).pending@[i]);
        }
        self.in_flight.clone()
    }

    /// Stores the outcome of the storage call under way: on success one
    /// group per key is added, on failure nothing is added and the error is
    /// handed back for every key of the call. Either way the call is over.
    pub fn resolve(&mut self, fetched: Result<Vec<T>, StorageError>) -> (r: Result<(), StorageError>)
        requires
            old(self).wf(),
        ensures
            final(self).wf(),
            final(self).pending@ == old(self).pending@,
            final(self).in_flight@ == Seq::<String>::empty(),
            final(self).pending_keys() == old(self).pending_keys(),
            r is Ok <==> fetched is Ok,
            r is Ok ==> final(self).known_keys() == old(self).known_keys(),
            match fetched {
                Ok(records) => {
                    &&& final(self).resolved@.len() == old(self).resolved@.len()
                        + old(self).in_flight@.len()
                    &&& final(self).resolved@.take(old(self).resolved@.len() as int)
                        == old(self).resolved@
                    &&& groups_match(
                        final(self).resolved@.skip(old(self).resolved@.len() as int),
                        old(self).in_flight@,
                        records@,
                    )
                },
                Err(e) => r == Err::<(), StorageError>(e) && final(self).resolved@
                    == old(self).resolved@,
            },
    {
        let mut keys: Vec<String> = Vec::new();
        std::mem::swap(&mut keys, &mut self.in_flight);
        let ghost pk = self.pending_keys();
        let ghost before = self.resolved@;
        assert(self.in_flight_keys() =~= Set::<Seq<char>>::empty());
        match fetched {
            Ok(records) => {
                let mut groups = group_by_block(&keys, records);
                let ghost added = groups@;
                self.resolved.append(&mut groups);
                assert(self.resolved@.take(before.len() as int) =~= before);
                assert(self.resolved@.skip(before.len() as int) =~= added);
                let ghost rk = self.resolved@.map_values(|g: BlockGroup<T>| g.block_id@);
                let ghost bk = before.map_values(|g: BlockGroup<T>| g.block_id@);
                let ghost fk = old(self).in_flight@.map_values(|k: String| k@);
                assert(rk =~= bk + fk);
                assert(rk.to_set() =~= bk.to_set() + fk.to_set()) by {
                    assert forall|k: Seq<char>| rk.to_set().contains(k) implies (bk.to_set()
                        + fk.to_set()).contains(k) by {
                        let j = choose|j: int| 0 <= j < rk.len() && rk[j] == k;
                        if j < bk.len() {
                            assert(bk[j] == k);
                        } else {
                            assert(fk[j - bk.len()] == k);
                        }
                    }
                    assert forall|k: Seq<char>| (bk.to_set() + fk.to_set()).contains(k) implies rk.to_set().contains(k) by {
                        if bk.to_set().contains(k) {
                            let j = choose|j: int| 0 <= j < bk.len() && bk[j] == k;
                            assert(rk[j] == k);
                        } else {
                            let j = choose|j: int| 0 <= j < fk.len() && fk[j] == k;
                            assert(rk[j + bk.len()] == k);
                        }
                    }
                }
                assert(self.known_keys() =~= old(self).known_keys());
                assert forall|i: int| 0 <= i < self.pending@.len() implies !self.known_keys().contains(
                    (#[trigger] self.pending@[i])@,
                ) by {
                    let k = self.pending@[i]@;
                    let rk = self.resolved@.map_values(|g: BlockGroup<T>| g.block_id@);
                    if rk.contains(k) {
                        let j = choose|j: int| 0 <= j < rk.len() && rk[j] == k;
                        if j < before.len() {
                            assert(before.map_values(|g: BlockGroup<T>| g.block_id@)[j] == k);
                            assert(old(self).resolved_keys().contains(k));
                        } else {
                            assert(added[j - before.len()].block_id@ == keys@[j - before.len()]@);
                            assert(old(self).in_flight@.map_values(|k: String| k@)[j - before.len()]
                                == k);
                            assert(old(self).in_flight_keys().contains(k));
                        }
                        assert(false);
                    }
                    assert(!rk.to_set().contains(k));
                }
                Ok(())
            },
            Err(e) => {
                assert forall|i: int| 0 <= i < self.pending@.len() implies !self.known_keys().contains(
                    (#[trigger] self.pending@[i])@,
                ) by {
                    assert(!old(self).known_keys().contains(self.pending@[i]@));
                }
                Err(e)
            },
        }
    }

    /// The fetched records of block `key`, if it was fetched.
    pub fn get(&self, key: &String) -> (r: Option<&Vec<T>>)
        ensures
            r is Some <==> self.resolved_keys().contains(key@),
            match r {
                Some(v) => exists|i: int|
                    0 <= i < self.resolved@.len() && (#[trigger] self.resolved@[i]).block_id@
                        == key@ && self.resolved@[i].records == *v,
                None => true,
            },
    {
        let ghost rk = self.resolved@.map_values(|g: BlockGroup<T>| g.block_id@);
        let mut g: usize = 0;
        while g < self.resolved.len()
            invariant
                g <= self.resolved.len(),
                rk == self.resolved@.map_values(|g: BlockGroup<T>| g.block_id@),
                forall|j: int| 0 <= j < g ==> (#[trigger] self.resolved@[j]).block_id@ != key@,
            decreases self.resolved.len() - g,
        {
            if self.resolved[g].block_id == *key {
                assert(rk[g as int] == key@);
                assert(rk.to_set().contains(key@));
                return Some(&self.resolved[g].records);
            }
            g = g + 1;
        }
        proof {
            if rk.to_set().contains(key@) {
                let j = choose|j: int| 0 <= j < rk.len() && rk[j] == key@;
                assert(self.resolved@[j].block_id@ == key@);
            }
        }
        None
    }
}

/// A set of keys asked for in any order and any number of times waits as
/// one storage call: each key that is not yet known appears once, and
/// nothing else does.
pub proof fn lemma_one_call_per_batch(resolved: Set<Seq<char>>, keys: Seq<Seq<char>>)
    ensures
        register_all(Seq::empty(), resolved, keys).no_duplicates(),
        forall|k: Seq<char>|
            register_all(Seq::empty(), resolved, keys).contains(k) <==> (keys.contains(k)
                && !resolved.contains(k)),
    decreases keys.len(),
{
    if keys.len() > 0 {
        let prev = keys.drop_last();
        lemma_one_call_per_batch(resolved, prev);
        let p = register_all(Seq::empty(), resolved, prev);
        let k = keys.last();
        assert forall|x: Seq<char>| keys.contains(x) <==> (prev.contains(x) || x == k) by {
            if keys.contains(x) {
                let i = choose|i: int| 0 <= i < keys.len() && keys[i] == x;
                if i < keys.len() - 1 {
                    assert(prev[i] == x);
                }
            }
            if prev.contains(x) {
                let i = choose|i: int| 0 <= i < prev.len() && prev[i] == x;
                assert(keys[i] == x);
            }
            assert(keys[keys.len() - 1] == k);
        }
        if !(p.contains(k) || resolved.contains(k)) {
            assert forall|x: Seq<char>| p.push(k).contains(x) <==> (p.contains(x) || x == k) by {
                if p.push(k).contains(x) {
                    let i = choose|i: int| 0 <= i < p.push(k).len() && p.push(k)[i] == x;
                    if i < p.len() {
                        assert(p[i] == x);
                    }
                }
                if p.contains(x) {
                    let i = choose|i: int| 0 <= i < p.len() && p[i] == x;
                    assert(p.push(k)[i] == x);
                }
                assert(p.push(k)[p.len() as int] == k);
            }
        }
    }
}

/// Keys that were already fetched, or are being fetched, in this request
/// are never asked of storage again.
pub proof fn lemma_fetched_keys_not_refetched(resolved: Set<Seq<char>>, keys: Seq<Seq<char>>)
    requires
        forall|i: int| 0 <= i < keys.len() ==> resolved.contains(#[trigger] keys[i]),
    ensures
        register_all(Seq::empty(), resolved, keys) == Seq::<Seq<char>>::empty(),
    decreases keys.len(),
{
    if keys.len() > 0 {
        lemma_fetched_keys_not_refetched(resolved, keys.drop_last());
        assert(resolved.contains(keys[keys.len() - 1]));
    }
}

/// Every key asked of a load comes back, each once, and no other: a key
/// with no records in storage gets an empty group.
pub proof fn lemma_load_key_set<T: BlockScoped>(
    groups: Seq<BlockGroup<T>>,
    keys: Seq<String>,
    storage: Seq<T>,
)
    requires
        groups_match(groups, keys, storage),
        distinct_keys(keys),
    ensures
        groups.map_values(|g: BlockGroup<T>| g.block_id@) == keys.map_values(|s: String| s@),
        forall|i: int, j: int|
            0 <= i < j < groups.len() ==> groups[i].block_id@ != groups[j].block_id@,
        forall|i: int|
            0 <= i < groups.len() && (forall|r: int|
                0 <= r < storage.len() ==> (#[trigger] storage[r]).block_key() != keys[i]@)
                ==> groups[i].records@.len() == 0,
{
    broadcast use vstd::seq_lib::group_filter_ensures;

    let gk = groups.map_values(|g: BlockGroup<T>| g.block_id@);
    let kk = keys.map_values(|s: String| s@);
    assert(gk =~= kk);
    assert forall|i: int|
        0 <= i < groups.len() && (forall|r: int|
            0 <= r < storage.len() ==> (#[trigger] storage[r]).block_key() != keys[i]@)
        implies groups[i].records@.len() == 0 by {
        let p = |r: T| r.block_key() == keys[i]@;
        #[allow(deprecated)]
        storage.filter_lemma(p);
        if storage.filter(p).len() > 0 {
            let x = storage.filter(p)[0];
            lemma_filter_from_source(storage, p, 0);
            let r = choose|r: int| 0 <= r < storage.len() && storage[r] == x;
            assert(storage[r].block_key() != keys[i]@);
        }
    }
}

proof fn lemma_filter_from_source<A>(s: Seq<A>, p: spec_fn(A) -> bool, a: int)
    requires
        0 <= a < s.filter(p).len(),
    ensures
        exists|x: int| 0 <= x < s.len() && s[x] == s.filter(p)[a],
    decreases s.len(),
{
    broadcast use vstd::seq_lib::group_filter_ensures;

    reveal(Seq::filter);
    let prev = s.drop_last();
    if a < prev.filter(p).len() {
        lemma_filter_from_source(prev, p, a);
        let x = choose|x: int| 0 <= x < prev.len() && prev[x] == prev.filter(p)[a];
        assert(s[x] == prev[x]);
    } else {
        assert(s[s.len() - 1] == s.filter(p)[a]);
    }
}

proof fn lemma_filter_order<A>(s: Seq<A>, p: spec_fn(A) -> bool, a: int, b: int)
    requires
        0 <= a < b < s.filter(p).len(),
    ensures
        exists|x: int, y: int|
            0 <= x < y < s.len() && s[x] == s.filter(p)[a] && s[y] == s.filter(p)[b],
    decreases s.len(),
{
    broadcast use vstd::seq_lib::group_filter_ensures;

    reveal(Seq::filter);
    let prev = s.drop_last();
    let f = prev.filter(p);
    #[allow(deprecated)]
    prev.filter_lemma(p);
    if b < f.len() {
        lemma_filter_order(prev, p, a, b);
        let (x, y) = choose|x: int, y: int|
            0 <= x < y < prev.len() && prev[x] == f[a] && prev[y] == f[b];
        assert(s[x] == prev[x] && s[y] == prev[y]);
    } else {
        assert(s.filter(p) == f.push(s.last()));
        lemma_filter_from_source(prev, p, a);
        let x = choose|x: int| 0 <= x < prev.len() && prev[x] == f[a];
        assert(s[x] == prev[x]);
        assert(s[s.len() - 1] == s.filter(p)[b]);
    }
}

/// Within a block's group, records keep the order in which storage returned
/// them: of two records of the group, the earlier one came first.
pub proof fn lemma_load_keeps_order<T: BlockScoped>(
    groups: Seq<BlockGroup<T>>,
    keys: Seq<String>,
    storage: Seq<T>,
    i: int,
    a: int,
    b: int,
)
    requires
        groups_match(groups, keys, storage),
        0 <= i < groups.len(),
        0 <= a < b < groups[i].records@.len(),
    ensures
        exists|x: int, y: int|
            0 <= x < y < storage.len() && storage[x] == groups[i].records@[a] && storage[y]
                == groups[i].records@[b],
{
    lemma_filter_order(storage, |r: T| r.block_key() == keys[i]@, a, b);
}

/// Loads the extrinsics of blocks. The storage call it stands for takes the
/// call and event selections too: an extrinsic is wanted when it holds a
/// matching call or event.
pub struct ExtrinsicLoader {
    pub call_selections: Option<Vec<CallSelection>>,
    pub event_selections: Option<Vec<EventSelection>>,
    pub batcher: KeyBatcher<Extrinsic>,
}

impl ExtrinsicLoader {
    pub fn new(
        call_selections: Option<Vec<CallSelection>>,
        event_selections: Option<Vec<EventSelection>>,
    ) -> (r: Self)
        ensures
            r.call_selections == call_selections,
            r.event_selections == event_selections,
            r.batcher.wf(),
            r.batcher.pending@.len() == 0,
            r.batcher.resolved@.len() == 0,
    {
        ExtrinsicLoader { call_selections, event_selections, batcher: KeyBatcher::new() }
    }

    /// Groups what storage returned for `keys` by block, or hands back its
    /// error.
    pub fn load(&self, keys: &Vec<String>, fetched: Result<Vec<Extrinsic>, StorageError>) -> (r:
        Result<Vec<BlockGroup<Extrinsic>>, StorageError>)
        requires
            distinct_keys(keys@),
        ensures
            match fetched {
                Ok(records) => r matches Ok(groups) && groups_match(groups@, keys@, records@),
                Err(e) => r == Err::<Vec<BlockGroup<Extrinsic>>, StorageError>(e),
            },
    {
        match fetched {
            Ok(records) => Ok(group_by_block(keys, records)),
            Err(e) => Err(e),
        }
    }
}

/// Loads the calls of blocks. The storage call it stands for takes the call
/// and event selections: a call is wanted when it matches, or when it
/// emitted a matching event.
pub struct CallLoader {
    pub call_selections: Option<Vec<CallSelection>>,
    pub event_selections: Option<Vec<EventSelection>>,
    pub batcher: KeyBatcher<Call>,
}

impl CallLoader {
    pub fn new(
        call_selections: Option<Vec<CallSelection>>,
        event_selections: Option<Vec<EventSelection>>,
    ) -> (r: Self)
        ensures
            r.call_selections == call_selections,
            r.event_selections == event_selections,
            r.batcher.wf(),
            r.batcher.pending@.len() == 0,
            r.batcher.resolved@.len() == 0,
    {
        CallLoader { call_selections, event_selections, batcher: KeyBatcher::new() }
    }

    /// Groups what storage returned for `keys` by block, or hands back its
    /// error.
    pub fn load(&self, keys: &Vec<String>, fetched: Result<Vec<Call>, StorageError>) -> (r: Result<
        Vec<BlockGroup<Call>>,
        StorageError,
    >)
        requires
            distinct_keys(keys@),
        ensures
            match fetched {
                Ok(records) => r matches Ok(groups) && groups_match(groups@, keys@, records@),
                Err(e) => r == Err::<Vec<BlockGroup<Call>>, StorageError>(e),
            },
    {
        match fetched {
            Ok(records) => Ok(group_by_block(keys, records)),
            Err(e) => Err(e),
        }
    }
}

/// Loads the events of blocks, as the event selections ask.
pub struct EventLoader {
    pub event_selections: Option<Vec<EventSelection>>,
    pub batcher: KeyBatcher<Event>,
}

impl EventLoader {
    pub fn new(event_selections: Option<Vec<EventSelection>>) -> (r: Self)
        ensures
            r.event_selections == event_selections,
            r.batcher.wf(),
            r.batcher.pending@.len() == 0,
            r.batcher.resolved@.len() == 0,
    {
        EventLoader { event_selections, batcher: KeyBatcher::new() }
    }

    /// Groups what storage returned for `keys` by block, or hands back its
    /// error.
    pub fn load(&self, keys: &Vec<String>, fetched: Result<Vec<Event>, StorageError>) -> (r:
        Result<Vec<BlockGroup<Event>>, StorageError>)
        requires
            distinct_keys(keys@),
        ensures
            match fetched {
                Ok(records) => r matches Ok(groups) && groups_match(groups@, keys@, records@),
                Err(e) => r == Err::<Vec<BlockGroup<Event>>, StorageError>(e),
            },
    {
        match fetched {
            Ok(records) => Ok(group_by_block(keys, records)),
            Err(e) => Err(e),
        }
    }
}

} // verus!
