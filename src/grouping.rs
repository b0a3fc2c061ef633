//! Grouping of one storage response by block identifier.
use crate::entities::BlockScoped;
use vstd::prelude::*;

verus! {

/// The records of one block, in the order storage returned them.
pub struct BlockGroup<T> {
    pub block_id: String,
    pub records: Vec<T>,
}

/// The records of `s` that belong to block `key`, in the order of `s`.
pub open spec fn block_records<T: BlockScoped>(s: Seq<T>, key: Seq<char>) -> Seq<T> {
    s.filter(|r: T| r.block_key() == key)
}

pub open spec fn distinct_keys(keys: Seq<String>) -> bool {
    forall|i: int, j: int| 0 <= i < j < keys.len() ==> keys[i]@ != keys[j]@
}

/// Key `key` of a grouping result: the index of its group, or -1.
pub open spec fn group_index<T>(groups: Seq<BlockGroup<T>>, key: Seq<char>) -> int
    decreases groups.len(),
{
    if groups.len() == 0 {
        -1
    } else if groups.last().block_id@ == key {
        groups.len() - 1
    } else {
        group_index(groups.drop_last(), key)
    }
}

/// `groups` holds one group for each of `keys`, in the same order, and each
/// group holds exactly the records of `storage` for its block.
pub open spec fn groups_match<T: BlockScoped>(
    groups: Seq<BlockGroup<T>>,
    keys: Seq<String>,
    storage: Seq<T>,
) -> bool {
    &&& groups.len() == keys.len()
    &&& forall|i: int|
        0 <= i < keys.len() ==> {
            &&& groups[i].block_id@ == keys[i]@
            &&& groups[i].records@ == block_records(storage, keys[i]@)
        }
}

proof fn lemma_block_records_step<T: BlockScoped>(s: Seq<T>, n: int, key: Seq<char>)
    requires
        0 <= n < s.len(),
    ensures
        block_records(s.take(n + 1), key) == if s[n].block_key() == key {
            block_records(s.take(n), key).push(s[n])
        } else {
            block_records(s.take(n), key)
        },
{
    reveal(Seq::filter);
    let p = |r: T| r.block_key() == key;
    let t = s.take(n + 1);
    assert(t.drop_last() =~= s.take(n));
    assert(t.last() == s[n]);
    assert(t.filter(p) == if p(t.last()) {
        t.drop_last().filter(p).push(t.last())
    } else {
        t.drop_last().filter(p)
    });
}

/// Index of the group for `key` among `groups`, if any.
fn find_group<T>(groups: &Vec<BlockGroup<T>>, key: &String) -> (r: Option<usize>)
    ensures
        match r {
            Some(i) => i < groups.len() && groups@[i as int].block_id@ == key@,
            None => forall|i: int| 0 <= i < groups.len() ==> groups@[i].block_id@ != key@,
        },
{
    let mut i: usize = 0;
    while i < groups.len()
        invariant
            i <= groups.len(),
            forall|j: int| 0 <= j < i ==> groups@[j].block_id@ != key@,
        decreases groups.len() - i,
    {
        if groups[i].block_id == *key {
            return Some(i);
        }
        i = i + 1;
    }
    None
}

/// Groups the records that storage returned for `keys` by block: one group
/// per key, in the order of `keys`, each holding that block's records in
/// storage order; a key with no records gets an empty group, and records of
/// blocks outside `keys` are dropped.
pub fn group_by_block<T: BlockScoped>(keys: &Vec<String>, records: Vec<T>) -> (groups: Vec<
    BlockGroup<T>,
>)
    requires
        distinct_keys(keys@),
    ensures
        groups_match(groups@, keys@, records@),
{
    let ghost storage = records@;
    let mut groups: Vec<BlockGroup<T>> = Vec::new();
    let mut k: usize = 0;
    while k < keys.len()
        invariant
            k <= keys.len(),
            groups.len() == k,
            forall|i: int|
                0 <= i < k ==> {
                    &&& groups@[i].block_id@ == keys@[i]@
                    &&& groups@[i].records@ == Seq::<T>::empty()
                },
        decreases keys.len() - k,
    {
        groups.push(BlockGroup { block_id: keys[k].clone(), records: Vec::new() });
        k = k + 1;
    }
    let n: usize = records.len();
    let mut rest = records;
    assert(storage.take(0) =~= Seq::<T>::empty());
    proof {
        reveal(Seq::filter);
    }
    assert(storage.skip(0) =~= storage);
    let mut done: usize = 0;
    while rest.len() > 0
        invariant
            done + rest.len() == storage.len(),
            storage.len() == n,
            rest@ == storage.skip(done as int),
            distinct_keys(keys@),
            groups.len() == keys.len(),
            forall|i: int|
                0 <= i < keys.len() ==> {
                    &&& groups@[i].block_id@ == keys@[i]@
                    &&& groups@[i].records@ == block_records(storage.take(done as int), keys@[i]@)
                },
        decreases rest.len(),
    {
        let ghost rest_before = rest@;
        let ghost groups_before = groups@;
        let record = rest.remove(0);
        assert(rest@ =~= storage.skip(done + 1));
        assert(storage[done as int] == record);
        let found = find_group(&groups, record.block_id());
        match found {
            Some(j) => {
                let mut group = groups.remove(j);
                group.records.push(record);
                groups.insert(j, group);
                assert(groups@ =~= groups_before.update(j as int, groups@[j as int]));
                assert forall|i: int| 0 <= i < keys.len() implies {
                    &&& groups@[i].block_id@ == keys@[i]@
                    &&& groups@[i].records@ == block_records(storage.take(done + 1), keys@[i]@)
                } by {
                    lemma_block_records_step(storage, done as int, keys@[i]@);
                    assert(groups_before[i].block_id@ == keys@[i]@);
                    assert(groups_before[j as int].block_id@ == keys@[j as int]@);
                    if i != j {
                        assert(keys@[i]@ != keys@[j as int]@);
                    }
                }
            },
            None => {
                assert forall|i: int| 0 <= i < keys.len() implies {
                    &&& groups@[i].block_id@ == keys@[i]@
                    &&& groups@[i].records@ == block_records(storage.take(done + 1), keys@[i]@)
                } by {
                    lemma_block_records_step(storage, done as int, keys@[i]@);
                    assert(groups@[i].block_id@ == keys@[i]@);
                }
            },
        }
        done = done + 1;
    }
    assert(storage.take(storage.len() as int) =~= storage);
    groups
}

} // verus!
