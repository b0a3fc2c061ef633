//! Assembly of per-block batches from loaded groups, and the normalization
//! of their payload keys.
use crate::entities::{BlockHeader, Call, Event, Extrinsic};
use crate::error::StorageError;
use crate::grouping::BlockGroup;
use crate::payload::{camel_fields, keys_to_camel_case};
use vstd::prelude::*;

verus! {

/// One block with its extrinsics, calls and events.
pub struct Batch {
    pub header: BlockHeader,
    pub extrinsics: Vec<Extrinsic>,
    pub calls: Vec<Call>,
    pub events: Vec<Event>,
}

/// What a batch holds, as values.
pub struct BatchView {
    pub header: BlockHeader,
    pub extrinsics: Seq<Extrinsic>,
    pub calls: Seq<Call>,
    pub events: Seq<Event>,
}

impl Batch {
    pub open spec fn view(&self) -> BatchView {
        BatchView {
            header: self.header,
            extrinsics: self.extrinsics@,
            calls: self.calls@,
            events: self.events@,
        }
    }
}

pub open spec fn extrinsic_camel(old: Extrinsic, new: Extrinsic) -> bool {
    &&& new.id == old.id
    &&& new.block_id == old.block_id
    &&& new.payload@ == camel_fields(old.payload@)
}

pub open spec fn call_camel(old: Call, new: Call) -> bool {
    &&& new.id == old.id
    &&& new.block_id == old.block_id
    &&& new.extrinsic_id == old.extrinsic_id
    &&& new.name == old.name
    &&& new.payload@ == camel_fields(old.payload@)
}

pub open spec fn event_camel(old: Event, new: Event) -> bool {
    &&& new.id == old.id
    &&& new.block_id == old.block_id
    &&& new.extrinsic_id == old.extrinsic_id
    &&& new.call_id == old.call_id
    &&& new.name == old.name
    &&& new.payload@ == camel_fields(old.payload@)
}

/// `new` is `old` with the payload keys of every record in camel case and
/// everything else, the structural fields used for joins included, kept.
pub open spec fn batch_camel(old: Batch, new: Batch) -> bool {
    &&& new.header == old.header
    &&& new.extrinsics@.len() == old.extrinsics@.len()
    &&& new.calls@.len() == old.calls@.len()
    &&& new.events@.len() == old.events@.len()
    &&& forall|i: int|
        0 <= i < old.extrinsics@.len() ==> extrinsic_camel(
            old.extrinsics@[i],
            #[trigger] new.extrinsics@[i],
        )
    &&& forall|i: int|
        0 <= i < old.calls@.len() ==> call_camel(old.calls@[i], #[trigger] new.calls@[i])
    &&& forall|i: int|
        0 <= i < old.events@.len() ==> event_camel(old.events@[i], #[trigger] new.events@[i])
}

pub open spec fn batches_camel(old: Seq<Batch>, new: Seq<Batch>) -> bool {
    &&& new.len() == old.len()
    &&& forall|i: int| 0 <= i < old.len() ==> batch_camel(old[i], #[trigger] new[i])
}

fn extrinsics_to_camel_case(records: Vec<Extrinsic>) -> (r: Vec<Extrinsic>)
    ensures
        r@.len() == records@.len(),
        forall|i: int| 0 <= i < records@.len() ==> extrinsic_camel(records@[i], #[trigger] r@[i]),
{
    let ghost orig = records@;
    let mut rest = records;
    let mut out: Vec<Extrinsic> = Vec::new();
    while rest.len() > 0
        invariant
            out@.len() + rest@.len() == orig.len(),
            rest@ == orig.skip(out@.len() as int),
            forall|i: int| 0 <= i < out@.len() ==> extrinsic_camel(orig[i], #[trigger] out@[i]),
        decreases rest.len(),
    {
        let ghost k = out@.len() as int;
        let mut e = rest.remove(0);
        assert(rest@ =~= orig.skip(k + 1));
        keys_to_camel_case(&mut e.payload);
        out.push(e);
    }
    out
}

fn calls_to_camel_case(records: Vec<Call>) -> (r: Vec<Call>)
    ensures
        r@.len() == records@.len(),
        forall|i: int| 0 <= i < records@.len() ==> call_camel(records@[i], #[trigger] r@[i]),
{
    let ghost orig = records@;
    let mut rest = records;
    let mut out: Vec<Call> = Vec::new();
    while rest.len() > 0
        invariant
            out@.len() + rest@.len() == orig.len(),
            rest@ == orig.skip(out@.len() as int),
            forall|i: int| 0 <= i < out@.len() ==> call_camel(orig[i], #[trigger] out@[i]),
        decreases rest.len(),
    {
        let ghost k = out@.len() as int;
        let mut c = rest.remove(0);
        assert(rest@ =~= orig.skip(k + 1));
        keys_to_camel_case(&mut c.payload);
        out.push(c);
    }
    out
}

fn events_to_camel_case(records: Vec<Event>) -> (r: Vec<Event>)
    ensures
        r@.len() == records@.len(),
        forall|i: int| 0 <= i < records@.len() ==> event_camel(records@[i], #[trigger] r@[i]),
{
    let ghost orig = records@;
    let mut rest = records;
    let mut out: Vec<Event> = Vec::new();
    while rest.len() > 0
        invariant
            out@.len() + rest@.len() == orig.len(),
            rest@ == orig.skip(out@.len() as int),
            forall|i: int| 0 <= i < out@.len() ==> event_camel(orig[i], #[trigger] out@[i]),
        decreases rest.len(),
    {
        let ghost k = out@.len() as int;
        let mut e = rest.remove(0);
        assert(rest@ =~= orig.skip(k + 1));
        keys_to_camel_case(&mut e.payload);
        out.push(e);
    }
    out
}

/// Turns the payload keys of every call, event and extrinsic of every batch
/// to camel case, in place.
pub fn batch_to_camel_case(batch: &mut Vec<Batch>)
    ensures
        batches_camel(old(batch)@, final(batch)@),
{
    let ghost orig = batch@;
    let mut rest: Vec<Batch> = Vec::new();
    std::mem::swap(&mut rest, batch);
    let mut out: Vec<Batch> = Vec::new();
    while rest.len() > 0
        invariant
            out@.len() + rest@.len() == orig.len(),
            rest@ == orig.skip(out@.len() as int),
            forall|i: int| 0 <= i < out@.len() ==> batch_camel(orig[i], #[trigger] out@[i]),
        decreases rest.len(),
    {
        let ghost k = out@.len() as int;
        let item = rest.remove(0);
        assert(rest@ =~= orig.skip(k + 1));
        assert(item == orig[k]);
        let Batch { header, extrinsics, calls, events } = item;
        let calls = calls_to_camel_case(calls);
        let events = events_to_camel_case(events);
        let extrinsics = extrinsics_to_camel_case(extrinsics);
        out.push(Batch { header, extrinsics, calls, events });
    }
    *batch = out;
}

/// `a` and `b` hold the same blocks with the same records, payloads
/// included, in the same order.
pub open spec fn same_batches(a: Seq<Batch>, b: Seq<Batch>) -> bool {
    &&& a.len() == b.len()
    &&& forall|i: int|
        0 <= i < a.len() ==> {
            &&& (#[trigger] a[i]).header == b[i].header
            &&& a[i].extrinsics@.len() == b[i].extrinsics@.len()
            &&& a[i].calls@.len() == b[i].calls@.len()
            &&& a[i].events@.len() == b[i].events@.len()
            &&& forall|j: int|
                0 <= j < a[i].extrinsics@.len() ==> {
                    &&& (#[trigger] a[i].extrinsics@[j]).id == b[i].extrinsics@[j].id
                    &&& a[i].extrinsics@[j].block_id == b[i].extrinsics@[j].block_id
                    &&& a[i].extrinsics@[j].payload@ == b[i].extrinsics@[j].payload@
                }
            &&& forall|j: int|
                0 <= j < a[i].calls@.len() ==> {
                    &&& (#[trigger] a[i].calls@[j]).id == b[i].calls@[j].id
                    &&& a[i].calls@[j].block_id == b[i].calls@[j].block_id
                    &&& a[i].calls@[j].extrinsic_id == b[i].calls@[j].extrinsic_id
                    &&& a[i].calls@[j].name == b[i].calls@[j].name
                    &&& a[i].calls@[j].payload@ == b[i].calls@[j].payload@
                }
            &&& forall|j: int|
                0 <= j < a[i].events@.len() ==> {
                    &&& (#[trigger] a[i].events@[j]).id == b[i].events@[j].id
                    &&& a[i].events@[j].block_id == b[i].events@[j].block_id
                    &&& a[i].events@[j].extrinsic_id == b[i].events@[j].extrinsic_id
                    &&& a[i].events@[j].call_id == b[i].events@[j].call_id
                    &&& a[i].events@[j].name == b[i].events@[j].name
                    &&& a[i].events@[j].payload@ == b[i].events@[j].payload@
                }
        }
}

/// Normalizing the same stored batches twice gives the same response, key
/// casing included.
pub proof fn lemma_camel_case_deterministic(stored: Seq<Batch>, first: Seq<Batch>, second: Seq<Batch>)
    requires
        batches_camel(stored, first),
        batches_camel(stored, second),
    ensures
        same_batches(first, second),
{
    assert forall|i: int| 0 <= i < first.len() implies {
        &&& #[trigger] batch_camel(stored[i], first[i])
        &&& batch_camel(stored[i], second[i])
    } by {}
}

/// The groups of each kind stand in the order of `headers`, one per block.
pub open spec fn groups_aligned(
    headers: Seq<BlockHeader>,
    extrinsics: Seq<BlockGroup<Extrinsic>>,
    calls: Seq<BlockGroup<Call>>,
    events: Seq<BlockGroup<Event>>,
) -> bool {
    &&& extrinsics.len() == headers.len()
    &&& calls.len() == headers.len()
    &&& events.len() == headers.len()
    &&& forall|i: int|
        0 <= i < headers.len() ==> {
            &&& (#[trigger] headers[i]).id@ == extrinsics[i].block_id@
            &&& headers[i].id@ == calls[i].block_id@
            &&& headers[i].id@ == events[i].block_id@
        }
}

/// Whether block `i` goes into the response: always when all blocks are
/// asked for, else only when it has a record of some kind.
pub open spec fn block_kept(
    extrinsics: Seq<BlockGroup<Extrinsic>>,
    calls: Seq<BlockGroup<Call>>,
    events: Seq<BlockGroup<Event>>,
    include_all_blocks: bool,
    i: int,
) -> bool {
    include_all_blocks || extrinsics[i].records@.len() > 0 || calls[i].records@.len() > 0
        || events[i].records@.len() > 0
}

/// The batches of the first `n` blocks, in block order.
pub open spec fn assembled(
    headers: Seq<BlockHeader>,
    extrinsics: Seq<BlockGroup<Extrinsic>>,
    calls: Seq<BlockGroup<Call>>,
    events: Seq<BlockGroup<Event>>,
    include_all_blocks: bool,
    n: int,
) -> Seq<BatchView>
    decreases n,
{
    if n <= 0 {
        Seq::empty()
    } else {
        let prev = assembled(headers, extrinsics, calls, events, include_all_blocks, n - 1);
        if block_kept(extrinsics, calls, events, include_all_blocks, n - 1) {
            prev.push(
                BatchView {
                    header: headers[n - 1],
                    extrinsics: extrinsics[n - 1].records@,
                    calls: calls[n - 1].records@,
                    events: events[n - 1].records@,
                },
            )
        } else {
            prev
        }
    }
}

pub open spec fn views(batches: Seq<Batch>) -> Seq<BatchView> {
    batches.map_values(|b: Batch| b@)
}

/// Builds one batch per block of `headers`, in order, from the groups that
/// the three loaders returned for those blocks; without
/// `include_all_blocks`, blocks with no record are left out.
pub fn assemble_batches(
    headers: Vec<BlockHeader>,
    extrinsics: Vec<BlockGroup<Extrinsic>>,
    calls: Vec<BlockGroup<Call>>,
    events: Vec<BlockGroup<Event>>,
    include_all_blocks: bool,
) -> (r: Vec<Batch>)
    requires
        groups_aligned(headers@, extrinsics@, calls@, events@),
    ensures
        views(r@) == assembled(
            headers@,
            extrinsics@,
            calls@,
            events@,
            include_all_blocks,
            headers@.len() as int,
        ),
{
    let ghost (h0, e0, c0, v0) = (headers@, extrinsics@, calls@, events@);
    let mut headers = headers;
    let mut extrinsics = extrinsics;
    let mut calls = calls;
    let mut events = events;
    let mut out: Vec<Batch> = Vec::new();
    let ghost mut k: int = 0;
    while headers.len() > 0
        invariant
            0 <= k <= h0.len(),
            groups_aligned(h0, e0, c0, v0),
            headers@ == h0.skip(k),
            extrinsics@ == e0.skip(k),
            calls@ == c0.skip(k),
            events@ == v0.skip(k),
            views(out@) == assembled(h0, e0, c0, v0, include_all_blocks, k),
        decreases headers.len(),
    {
        let header = headers.remove(0);
        let e = extrinsics.remove(0);
        let c = calls.remove(0);
        let v = events.remove(0);
        assert(header == h0[k] && e == e0[k] && c == c0[k] && v == v0[k]);
        assert(headers@ =~= h0.skip(k + 1));
        assert(extrinsics@ =~= e0.skip(k + 1));
        assert(calls@ =~= c0.skip(k + 1));
        assert(events@ =~= v0.skip(k + 1));
        let ghost before = out@;
        if include_all_blocks || e.records.len() > 0 || c.records.len() > 0 || v.records.len() > 0 {
            out.push(Batch { header, extrinsics: e.records, calls: c.records, events: v.records });
            assert(views(out@) =~= views(before).push(out@[before.len() as int]@));
        }
        proof {
            k = k + 1;
        }
    }
    out
}

/// Joins the outcomes of the three loaders into batches: the first storage
/// error among them fails the whole request, also where the other loads
/// succeeded.
pub fn assemble(
    headers: Vec<BlockHeader>,
    extrinsics: Result<Vec<BlockGroup<Extrinsic>>, StorageError>,
    calls: Result<Vec<BlockGroup<Call>>, StorageError>,
    events: Result<Vec<BlockGroup<Event>>, StorageError>,
    include_all_blocks: bool,
) -> (r: Result<Vec<Batch>, StorageError>)
    requires
        match (extrinsics, calls, events) {
            (Ok(e), Ok(c), Ok(v)) => groups_aligned(headers@, e@, c@, v@),
            _ => true,
        },
    ensures
        match (extrinsics, calls, events) {
            (Ok(e), Ok(c), Ok(v)) => r matches Ok(b) && views(b@) == assembled(
                headers@,
                e@,
                c@,
                v@,
                include_all_blocks,
                headers@.len() as int,
            ),
            (Err(x), _, _) => r == Err::<Vec<Batch>, StorageError>(x),
            (Ok(_), Err(x), _) => r == Err::<Vec<Batch>, StorageError>(x),
            (Ok(_), Ok(_), Err(x)) => r == Err::<Vec<Batch>, StorageError>(x),
        },
{
    match extrinsics {
        Err(x) => Err(x),
        Ok(e) => match calls {
            Err(x) => Err(x),
            Ok(c) => match events {
                Err(x) => Err(x),
                Ok(v) => Ok(assemble_batches(headers, e, c, v, include_all_blocks)),
            },
        },
    }
}

} // verus!
