//! A dataset: the records of one source, keyed by identifier, with a
//! creation timestamp that staleness is judged from; and the cache-merge
//! rules that carry user annotations across a refresh.

use vstd::prelude::*;
use vstd::string::StringExecFns;
use crate::record::Roadwork;
use crate::sync::{Status, SyncData};

verus! {

/// A named collection of records. The identifier is the join key: it is
/// unique within one dataset.
#[derive(Debug, Clone, PartialEq, Eq)]
pub struct RoadworkData {
    /// The open-data source the records came from.
    pub source: String,
    pub roadworks: Vec<Roadwork>,
    /// Creation time, milliseconds since epoch.
    pub created: i64,
}

/// No two records carry the same identifier.
pub open spec fn ids_unique(rs: Seq<Roadwork>) -> bool {
    forall|i: int, j: int|
        0 <= i < j < rs.len() ==> (#[trigger] rs[i].id@) != (#[trigger] rs[j].id@)
}

/// The record with the given identifier, by first position.
pub open spec fn find_rec(rs: Seq<Roadwork>, id: Seq<char>) -> Option<Roadwork>
    decreases rs.len(),
{
    if rs.len() == 0 {
        None
    } else if rs[0].id@ == id {
        Some(rs[0])
    } else {
        find_rec(rs.drop_first(), id)
    }
}

/// No record holds the identifier exactly when no position does.
proof fn lemma_find_none_iff(rs: Seq<Roadwork>, id: Seq<char>)
    ensures
        (find_rec(rs, id) is None) <==> (forall|l: int|
            0 <= l < rs.len() ==> (#[trigger] rs[l].id@) != id),
    decreases rs.len(),
{
    if rs.len() > 0 {
        lemma_find_none_iff(rs.drop_first(), id);
        if find_rec(rs, id) is None {
            assert(find_rec(rs.drop_first(), id) is None);
            assert forall|l: int| 0 <= l < rs.len() implies (#[trigger] rs[l].id@) != id by {
                if l > 0 {
                    assert(rs.drop_first()[l - 1] == rs[l]);
                }
            }
        } else {
            if rs[0].id@ != id {
                assert(find_rec(rs.drop_first(), id) is Some);
                assert(exists|l: int|
                    0 <= l < rs.drop_first().len() && (#[trigger] rs.drop_first()[l].id@) == id);
                let l = choose|l: int|
                    0 <= l < rs.drop_first().len() && (#[trigger] rs.drop_first()[l].id@) == id;
                assert(rs[l + 1].id@ == id);
            }
        }
    }
}

/// In a dataset without duplicate identifiers, each record is found under
/// its own identifier.
pub proof fn lemma_find_self(rs: Seq<Roadwork>, i: int)
    requires
        ids_unique(rs),
        0 <= i < rs.len(),
    ensures
        find_rec(rs, rs[i].id@) == Some(rs[i]),
    decreases rs.len(),
{
    if i > 0 {
        assert(rs[0].id@ != rs[i].id@);
        assert(forall|l: int|
            0 <= l < rs.drop_first().len() ==> #[trigger] rs.drop_first()[l] == rs[l + 1]);
        lemma_find_self(rs.drop_first(), i - 1);
    }
}

/// Insert one record as a keyed map would: replace the record with the same
/// identifier in place, else append.
pub open spec fn upsert(rs: Seq<Roadwork>, r: Roadwork) -> Seq<Roadwork>
    decreases rs.len(),
{
    if rs.len() == 0 {
        seq![r]
    } else if rs[0].id@ == r.id@ {
        seq![r] + rs.drop_first()
    } else {
        seq![rs[0]] + upsert(rs.drop_first(), r)
    }
}

/// All records inserted in order, a later record replacing an earlier one
/// with the same identifier.
pub open spec fn insert_all(rs: Seq<Roadwork>) -> Seq<Roadwork>
    decreases rs.len(),
{
    if rs.len() == 0 {
        Seq::empty()
    } else {
        upsert(insert_all(rs.drop_last()), rs.last())
    }
}

/// The record that keyed insertion keeps for an identifier: the last one
/// carrying it.
pub open spec fn last_insert(rs: Seq<Roadwork>, id: Seq<char>) -> Option<Roadwork>
    decreases rs.len(),
{
    if rs.len() == 0 {
        None
    } else if rs.last().id@ == id {
        Some(rs.last())
    } else {
        last_insert(rs.drop_last(), id)
    }
}

proof fn lemma_upsert_find(rs: Seq<Roadwork>, r: Roadwork, id: Seq<char>)
    ensures
        find_rec(upsert(rs, r), id) == if id == r.id@ {
            Some(r)
        } else {
            find_rec(rs, id)
        },
    decreases rs.len(),
{
    if rs.len() == 0 {
        let u = seq![r];
        assert(u.drop_first() =~= Seq::<Roadwork>::empty());
        assert(u[0] == r);
        assert(upsert(rs, r) == u);
        if id == r.id@ {
            assert(find_rec(u, id) == Some(r));
        } else {
            assert(find_rec(u, id) == find_rec(Seq::<Roadwork>::empty(), id));
        }
    } else if rs[0].id@ == r.id@ {
        let u = seq![r] + rs.drop_first();
        assert(upsert(rs, r) == u);
        assert(u.drop_first() =~= rs.drop_first());
        assert(u[0] == r);
        if id == r.id@ {
            assert(find_rec(u, id) == Some(r));
        } else {
            assert(find_rec(u, id) == find_rec(rs.drop_first(), id));
            assert(find_rec(rs, id) == find_rec(rs.drop_first(), id));
        }
    } else {
        let u = seq![rs[0]] + upsert(rs.drop_first(), r);
        assert(upsert(rs, r) == u);
        assert(u[0] == rs[0]);
        assert(u.len() > 0);
        assert(u.drop_first() =~= upsert(rs.drop_first(), r));
        lemma_upsert_find(rs.drop_first(), r, id);
        if id == rs[0].id@ {
            assert(find_rec(u, id) == Some(rs[0]));
            assert(find_rec(rs, id) == Some(rs[0]));
        } else {
            assert(find_rec(u, id) == find_rec(upsert(rs.drop_first(), r), id));
            assert(find_rec(rs, id) == find_rec(rs.drop_first(), id));
        }
    }
}

proof fn lemma_upsert_unique(rs: Seq<Roadwork>, r: Roadwork)
    requires
        ids_unique(rs),
    ensures
        ids_unique(upsert(rs, r)),
    decreases rs.len(),
{
    if rs.len() == 0 {
    } else if rs[0].id@ == r.id@ {
        let u = seq![r] + rs.drop_first();
        assert(forall|l: int|
            0 <= l < rs.drop_first().len() ==> #[trigger] rs.drop_first()[l] == rs[l + 1]);
        assert forall|i: int, j: int| 0 <= i < j < u.len() implies (#[trigger] u[i].id@)
            != (#[trigger] u[j].id@) by {
            assert(u[j] == rs[j]);
            if i > 0 {
                assert(u[i] == rs[i]);
            } else {
                assert(u[0].id@ == rs[0].id@);
            }
        }
    } else {
        assert(forall|l: int|
            0 <= l < rs.drop_first().len() ==> #[trigger] rs.drop_first()[l] == rs[l + 1]);
        lemma_upsert_unique(rs.drop_first(), r);
        lemma_upsert_find(rs.drop_first(), r, rs[0].id@);
        lemma_find_none_iff(rs.drop_first(), rs[0].id@);
        lemma_find_none_iff(upsert(rs.drop_first(), r), rs[0].id@);
        let u = seq![rs[0]] + upsert(rs.drop_first(), r);
        assert forall|i: int, j: int| 0 <= i < j < u.len() implies (#[trigger] u[i].id@)
            != (#[trigger] u[j].id@) by {
            assert(u[j] == upsert(rs.drop_first(), r)[j - 1]);
            if i > 0 {
                assert(u[i] == upsert(rs.drop_first(), r)[i - 1]);
            } else {
                assert(u[0] == rs[0]);
            }
        }
    }
}

proof fn lemma_insert_all_unique(rs: Seq<Roadwork>)
    ensures
        ids_unique(insert_all(rs)),
    decreases rs.len(),
{
    if rs.len() > 0 {
        lemma_insert_all_unique(rs.drop_last());
        lemma_upsert_unique(insert_all(rs.drop_last()), rs.last());
    }
}

/// Keyed insertion keeps, for each identifier, exactly the last record that
/// carried it.
pub proof fn lemma_insert_all_find(rs: Seq<Roadwork>, id: Seq<char>)
    ensures
        find_rec(insert_all(rs), id) == last_insert(rs, id),
    decreases rs.len(),
{
    if rs.len() > 0 {
        lemma_insert_all_find(rs.drop_last(), id);
        lemma_upsert_find(insert_all(rs.drop_last()), rs.last(), id);
    }
}

/// What keyed insertion keeps for an identifier is a record of the input.
pub proof fn lemma_last_insert_member(rs: Seq<Roadwork>, id: Seq<char>)
    requires
        last_insert(rs, id) is Some,
    ensures
        rs.contains(last_insert(rs, id)->Some_0),
    decreases rs.len(),
{
    if rs.len() > 0 && rs.last().id@ != id {
        lemma_last_insert_member(rs.drop_last(), id);
        let x = last_insert(rs, id)->Some_0;
        let k = choose|k: int| 0 <= k < rs.drop_last().len() && rs.drop_last()[k] == x;
        assert(rs[k] == x);
    }
}

proof fn lemma_upsert_at(rs: Seq<Roadwork>, r: Roadwork, j: int)
    requires
        0 <= j < rs.len(),
        rs[j].id@ == r.id@,
        forall|l: int| 0 <= l < j ==> (#[trigger] rs[l].id@) != r.id@,
    ensures
        upsert(rs, r) == rs.update(j, r),
    decreases rs.len(),
{
    if j == 0 {
        assert(seq![r] + rs.drop_first() =~= rs.update(0, r));
    } else {
        assert(forall|l: int|
            0 <= l < rs.drop_first().len() ==> #[trigger] rs.drop_first()[l] == rs[l + 1]);
        lemma_upsert_at(rs.drop_first(), r, j - 1);
        assert(seq![rs[0]] + rs.drop_first().update(j - 1, r) =~= rs.update(j, r));
    }
}

proof fn lemma_upsert_append(rs: Seq<Roadwork>, r: Roadwork)
    requires
        forall|l: int| 0 <= l < rs.len() ==> (#[trigger] rs[l].id@) != r.id@,
    ensures
        upsert(rs, r) == rs.push(r),
    decreases rs.len(),
{
    if rs.len() == 0 {
        assert(seq![r] =~= rs.push(r));
    } else {
        assert(forall|l: int|
            0 <= l < rs.drop_first().len() ==> #[trigger] rs.drop_first()[l] == rs[l + 1]);
        lemma_upsert_append(rs.drop_first(), r);
        assert(seq![rs[0]] + rs.drop_first().push(r) =~= rs.push(r));
    }
}

/// Index of the first record with the identifier, where one exists.
fn find_index(rs: &Vec<Roadwork>, id: &String) -> (r: Option<usize>)
    ensures
        match r {
            Some(j) => j < rs@.len() && rs@[j as int].id@ == id@ && (forall|l: int|
                0 <= l < j ==> (#[trigger] rs@[l].id@) != id@),
            None => forall|l: int| 0 <= l < rs@.len() ==> (#[trigger] rs@[l].id@) != id@,
        },
{
    let mut j: usize = 0;
    while j < rs.len()
        invariant
            0 <= j <= rs@.len(),
            forall|l: int| 0 <= l < j ==> (#[trigger] rs@[l].id@) != id@,
        decreases rs.len() - j,
    {
        let rec = &rs[j];
        if rec.id == *id {
            return Some(j);
        }
        j = j + 1;
    }
    None
}

impl RoadworkData {
    /// Every identifier names exactly one record.
    pub open spec fn wf(&self) -> bool {
        ids_unique(self.roadworks@)
    }

    /// A dataset from freshly built records, keyed by identifier: a later
    /// record replaces an earlier one with the same identifier.
    pub fn new(source: &str, roadworks: Vec<Roadwork>, created: i64) -> (r: RoadworkData)
        ensures
            r.wf(),
            r.source@ == source@,
            r.created == created,
            r.roadworks@ == insert_all(roadworks@),
    {
        let ghost input = roadworks@;
        let mut rest = roadworks;
        let mut out: Vec<Roadwork> = Vec::new();
        proof {
            assert(input.subrange(0, 0) =~= Seq::<Roadwork>::empty());
            assert(rest@ =~= input.subrange(0, input.len() as int));
        }
        let ghost k: int = 0;
        while rest.len() > 0
            invariant
                0 <= k <= input.len(),
                rest@ == input.subrange(k, input.len() as int),
                out@ == insert_all(input.subrange(0, k)),
                ids_unique(out@),
            decreases rest.len(),
        {
            let rec = rest.remove(0);
            let ghost prefix = input.subrange(0, k);
            let ghost prefix1 = input.subrange(0, k + 1);
            proof {
                assert(rec == input[k]);
                assert(rest@ =~= input.subrange(k + 1, input.len() as int));
                assert(prefix1.drop_last() =~= prefix);
                assert(prefix1.last() == rec);
            }
            match find_index(&out, &rec.id) {
                Option::Some(j) => {
                    proof {
                        lemma_upsert_at(out@, rec, j as int);
                        lemma_upsert_unique(out@, rec);
                    }
                    out.set(j, rec);
                },
                Option::None => {
                    proof {
                        lemma_upsert_append(out@, rec);
                        lemma_upsert_unique(out@, rec);
                    }
                    out.push(rec);
                },
            }
            proof {
                k = k + 1;
            }
        }
        proof {
            assert(input.subrange(0, input.len() as int) =~= input);
            assert(rest@.len() == 0);
            assert(k == input.len());
        }
        RoadworkData { source: <String as StringExecFns>::from_str(source), roadworks: out, created }
    }
}

/// One fresh record after the merge: where a cached record carries the same
/// identifier, its annotation is carried forward with the dirty flag
/// cleared; else the record is as fetched.
pub open spec fn spec_merged_rec(cached: Seq<Roadwork>, r: Roadwork) -> Roadwork {
    match find_rec(cached, r.id@) {
        Some(c) => Roadwork {
            sync_data: SyncData {
                local_update_time: c.sync_data.local_update_time,
                server_update_time: c.sync_data.server_update_time,
                status: c.sync_data.status,
                dirty: false,
            },
            ..r
        },
        None => r,
    }
}

/// The merged record list: exactly the fresh records, annotations joined in
/// by identifier.
pub open spec fn spec_merge(cached: Seq<Roadwork>, fresh: Seq<Roadwork>) -> Seq<Roadwork> {
    fresh.map_values(|r: Roadwork| spec_merged_rec(cached, r))
}

/// Merge the user-owned annotations of a cached dataset into a freshly
/// fetched one, by identifier join: annotations survive the refresh; a
/// record absent from the fresh fetch disappears.
pub fn merge_datasets(cached: &RoadworkData, fresh: RoadworkData) -> (r: RoadworkData)
    ensures
        r.source == fresh.source,
        r.created == fresh.created,
        r.roadworks@ == spec_merge(cached.roadworks@, fresh.roadworks@),
        fresh.wf() ==> r.wf(),
{
    let ghost input = fresh.roadworks@;
    let mut rest = fresh.roadworks;
    let mut out: Vec<Roadwork> = Vec::new();
    proof {
        assert(rest@ =~= input.subrange(0, input.len() as int));
        assert(out@ =~= input.subrange(0, 0).map_values(
            |x: Roadwork| spec_merged_rec(cached.roadworks@, x),
        ));
    }
    let ghost k: int = 0;
    while rest.len() > 0
        invariant
            0 <= k <= input.len(),
            rest@ == input.subrange(k, input.len() as int),
            out@ == input.subrange(0, k).map_values(
                |x: Roadwork| spec_merged_rec(cached.roadworks@, x),
            ),
        decreases rest.len(),
    {
        let mut rec = rest.remove(0);
        let ghost prefix = input.subrange(0, k);
        let ghost prefix1 = input.subrange(0, k + 1);
        proof {
            assert(rec == input[k]);
            assert(rest@ =~= input.subrange(k + 1, input.len() as int));
            assert(prefix1.drop_last() =~= prefix);
        }
        match find_index(&cached.roadworks, &rec.id) {
            Option::Some(j) => {
                proof {
                    lemma_find_none_iff(cached.roadworks@, rec.id@);
                    lemma_first_index_find(cached.roadworks@, rec.id@, j as int);
                }
                let c = &cached.roadworks[j];
                rec.sync_data = SyncData::new_from(&c.sync_data);
            },
            Option::None => {
                proof {
                    lemma_find_none_iff(cached.roadworks@, rec.id@);
                }
            },
        }
        out.push(rec);
        proof {
            assert(prefix1.map_values(|x: Roadwork| spec_merged_rec(cached.roadworks@, x))
                =~= prefix.map_values(|x: Roadwork| spec_merged_rec(cached.roadworks@, x)).push(
                spec_merged_rec(cached.roadworks@, prefix1.last()),
            ));
            k = k + 1;
        }
    }
    proof {
        assert(input.subrange(0, input.len() as int) =~= input);
        assert(k == input.len());
        if ids_unique(input) {
            assert forall|i: int, j: int| 0 <= i < j < spec_merge(cached.roadworks@, input).len()
                implies (#[trigger] spec_merge(cached.roadworks@, input)[i].id@) != (
            #[trigger] spec_merge(cached.roadworks@, input)[j].id@) by {
                assert(spec_merge(cached.roadworks@, input)[i] == spec_merged_rec(
                    cached.roadworks@,
                    input[i],
                ));
                assert(spec_merge(cached.roadworks@, input)[j] == spec_merged_rec(
                    cached.roadworks@,
                    input[j],
                ));
            }
        }
    }
    RoadworkData { source: fresh.source, roadworks: out, created: fresh.created }
}

/// The first index holding an identifier finds that record.
proof fn lemma_first_index_find(rs: Seq<Roadwork>, id: Seq<char>, j: int)
    requires
        0 <= j < rs.len(),
        rs[j].id@ == id,
        forall|l: int| 0 <= l < j ==> (#[trigger] rs[l].id@) != id,
    ensures
        find_rec(rs, id) == Some(rs[j]),
    decreases j,
{
    if j > 0 {
        assert(forall|l: int|
            0 <= l < rs.drop_first().len() ==> #[trigger] rs.drop_first()[l] == rs[l + 1]);
        lemma_first_index_find(rs.drop_first(), id, j - 1);
    }
}

/// A record after the automatic finished promotion at a given instant.
pub open spec fn spec_promoted(r: Roadwork, now: int) -> Roadwork {
    if r.end < now {
        Roadwork { sync_data: SyncData { status: Status::Finished, ..r.sync_data }, ..r }
    } else {
        r
    }
}

/// Force status Finished on every record whose end time has passed,
/// unconditionally overwriting any prior status. This runs on every load, so
/// a record manually reopened after expiry is re-forced on the next load.
pub fn apply_finished_status(data: RoadworkData, now: i64) -> (r: RoadworkData)
    ensures
        r.source == data.source,
        r.created == data.created,
        r.roadworks@ == data.roadworks@.map_values(|x: Roadwork| spec_promoted(x, now as int)),
        data.wf() ==> r.wf(),
{
    let ghost input = data.roadworks@;
    let mut rest = data.roadworks;
    let mut out: Vec<Roadwork> = Vec::new();
    proof {
        assert(rest@ =~= input.subrange(0, input.len() as int));
        assert(out@ =~= input.subrange(0, 0).map_values(
            |x: Roadwork| spec_promoted(x, now as int),
        ));
    }
    let ghost k: int = 0;
    while rest.len() > 0
        invariant
            0 <= k <= input.len(),
            rest@ == input.subrange(k, input.len() as int),
            out@ == input.subrange(0, k).map_values(|x: Roadwork| spec_promoted(x, now as int)),
        decreases rest.len(),
    {
        let mut rec = rest.remove(0);
        let ghost prefix = input.subrange(0, k);
        let ghost prefix1 = input.subrange(0, k + 1);
        proof {
            assert(rec == input[k]);
            assert(rest@ =~= input.subrange(k + 1, input.len() as int));
            assert(prefix1.drop_last() =~= prefix);
        }
        if rec.end < now {
            rec.sync_data.status = Status::Finished;
        }
        out.push(rec);
        proof {
            assert(prefix1.map_values(|x: Roadwork| spec_promoted(x, now as int))
                =~= prefix.map_values(|x: Roadwork| spec_promoted(x, now as int)).push(
                spec_promoted(prefix1.last(), now as int),
            ));
            k = k + 1;
        }
    }
    proof {
        assert(input.subrange(0, input.len() as int) =~= input);
        assert(k == input.len());
        if ids_unique(input) {
            let mapped = input.map_values(|x: Roadwork| spec_promoted(x, now as int));
            assert forall|i: int, j: int| 0 <= i < j < mapped.len() implies (
            #[trigger] mapped[i].id@) != (#[trigger] mapped[j].id@) by {
                assert(mapped[i] == spec_promoted(input[i], now as int));
                assert(mapped[j] == spec_promoted(input[j], now as int));
            }
        }
    }
    RoadworkData { source: data.source, roadworks: out, created: data.created }
}

/// The versioned cache file name of a source. The version is baked into the
/// name: bumping it in a release invalidates every existing cache file at
/// once, which is how incompatible record-schema changes roll out.
pub fn cache_file_name(source: &str) -> (r: String)
    ensures
        r@ == source@ + ".3.json"@,
{
    let mut name = <String as StringExecFns>::from_str(source);
    name.append(".3.json");
    name
}

/// A dataset is stale once 24 hours have passed since its creation.
pub open spec fn spec_stale(created: int, now: int) -> bool {
    created + 86400000 <= now
}

/// Whether a cached dataset must be refetched.
pub fn is_stale(created: i64, now: i64) -> (r: bool)
    ensures
        r == spec_stale(created as int, now as int),
{
    (created as i128) + 86400000i128 <= (now as i128)
}

/// What the cache manager does for one load.
#[derive(Debug, Clone, Copy, PartialEq, Eq, Structural)]
pub enum CachePlan {
    /// No usable cache: fetch fresh and persist.
    FetchFresh,
    /// A fresh cache: return it as-is, no fetch.
    UseCached,
    /// A stale cache: delete it, fetch fresh, merge the annotations in, and
    /// persist.
    RefreshAndMerge,
}

/// Decide between the cached and a freshly fetched dataset.
pub fn plan_load(cached: &Option<RoadworkData>, now: i64) -> (r: CachePlan)
    ensures
        match cached {
            Option::None => r == CachePlan::FetchFresh,
            Option::Some(c) => r == if spec_stale(c.created as int, now as int) {
                CachePlan::RefreshAndMerge
            } else {
                CachePlan::UseCached
            },
        },
{
    match cached {
        Option::None => CachePlan::FetchFresh,
        Option::Some(c) => {
            if is_stale(c.created, now) {
                CachePlan::RefreshAndMerge
            } else {
                CachePlan::UseCached
            }
        },
    }
}

impl RoadworkData {
    /// Record a user's status change on one record: the new label, the
    /// local-update time, and the dirty flag raised for the next
    /// synchronization. Returns false where no record holds the identifier.
    pub fn update_status(&mut self, id: &String, status: Status, local_time: u64) -> (r: bool)
        ensures
            final(self).source == old(self).source,
            final(self).created == old(self).created,
            final(self).roadworks@.len() == old(self).roadworks@.len(),
            r <==> (exists|l: int|
                0 <= l < old(self).roadworks@.len() && (#[trigger] old(
                    self,
                ).roadworks@[l].id@) == id@),
            !r ==> final(self).roadworks@ == old(self).roadworks@,
            r ==> exists|j: int|
                {
                    &&& 0 <= j < old(self).roadworks@.len()
                    &&& (#[trigger] old(self).roadworks@[j].id@) == id@
                    &&& final(self).roadworks@ == old(self).roadworks@.update(
                        j,
                        Roadwork {
                            sync_data: SyncData {
                                local_update_time: local_time,
                                server_update_time: old(
                                    self,
                                ).roadworks@[j].sync_data.server_update_time,
                                status,
                                dirty: true,
                            },
                            ..old(self).roadworks@[j]
                        },
                    )
                },
    {
        match find_index(&self.roadworks, id) {
            Option::Some(j) => {
                let ghost j_g = j as int;
                let mut rec = self.roadworks.remove(j);
                rec.sync_data = SyncData {
                    local_update_time: local_time,
                    server_update_time: rec.sync_data.server_update_time,
                    status,
                    dirty: true,
                };
                self.roadworks.insert(j, rec);
                proof {
                    assert(final(self).roadworks@ =~= old(self).roadworks@.update(j_g, rec));
                }
                true
            },
            Option::None => false,
        }
    }
}

/// Identifier uniqueness: within one well-formed dataset, two distinct
/// positions never carry the same identifier, so the identifier mapping
/// names each contained record exactly once.
pub proof fn lemma_identifier_uniqueness(d: RoadworkData, i: int, j: int)
    requires
        d.wf(),
        0 <= i < j < d.roadworks@.len(),
    ensures
        d.roadworks@[i].id@ != d.roadworks@[j].id@,
{
}

/// Merge preserves annotation: a record present in both datasets keeps the
/// cached record's status and timestamps, with the dirty flag cleared.
pub proof fn lemma_merge_preserves_annotation(
    cached: Seq<Roadwork>,
    fresh: Seq<Roadwork>,
    i: int,
)
    requires
        0 <= i < fresh.len(),
        find_rec(cached, fresh[i].id@) is Some,
    ensures
        spec_merge(cached, fresh).len() == fresh.len(),
        spec_merge(cached, fresh)[i].id@ == fresh[i].id@,
        spec_merge(cached, fresh)[i].sync_data.status == find_rec(
            cached,
            fresh[i].id@,
        )->Some_0.sync_data.status,
        !spec_merge(cached, fresh)[i].sync_data.dirty,
{
    assert(spec_merge(cached, fresh)[i] == spec_merged_rec(cached, fresh[i]));
}

/// Merge drops vanished records: the merged dataset holds exactly the fresh
/// identifiers, so an identifier absent from the fresh fetch is absent from
/// the merged dataset.
pub proof fn lemma_merge_drops_vanished(cached: Seq<Roadwork>, fresh: Seq<Roadwork>, id: Seq<char>)
    requires
        forall|i: int| 0 <= i < fresh.len() ==> (#[trigger] fresh[i].id@) != id,
    ensures
        forall|i: int|
            0 <= i < spec_merge(cached, fresh).len() ==> (#[trigger] spec_merge(
                cached,
                fresh,
            )[i].id@) != id,
{
    assert forall|i: int| 0 <= i < spec_merge(cached, fresh).len() implies (#[trigger] spec_merge(
        cached,
        fresh,
    )[i].id@) != id by {
        assert(spec_merge(cached, fresh)[i] == spec_merged_rec(cached, fresh[i]));
    }
}

/// The staleness boundary: a creation instant one second over the 24-hour
/// window is stale; one within the window is fresh.
pub proof fn lemma_staleness_boundary(created: int, now: int)
    ensures
        created == now - 86401000 ==> spec_stale(created, now),
        created == now - 86399000 ==> !spec_stale(created, now),
{
}

/// Finished promotion: after the promotion at an instant, a record whose end
/// has passed reports status Finished whatever its stored status was, and an
/// unexpired record is untouched.
pub proof fn lemma_finished_promotion(r: Roadwork, now: int)
    ensures
        r.end < now ==> spec_promoted(r, now).sync_data.status == Status::Finished,
        r.end >= now ==> spec_promoted(r, now) == r,
        spec_promoted(r, now).id == r.id,
        spec_promoted(r, now).end == r.end,
{
}

} // verus!
