//! Occlusion queries: which objects a pass measures, what a read-back says
//! about them, and what becomes of a context's query set at the start of a
//! pass. The GPU side (the query set itself, resolving and mapping buffers)
//! is the renderer's; what it decides is here.

use vstd::prelude::*;

verus! {

/// Whether draw `i` of `draws` begins a query: its object differs from the
/// previous draw's, it has an occlusion test, and it is an application
/// object.
pub open spec fn opens_query(draws: Seq<(Option<u32>, bool)>, i: int) -> bool {
    &&& i == 0 || draws[i - 1].0 != draws[i].0
    &&& draws[i].1
    &&& draws[i].0 is Some
}

/// The objects measured by the first `n` draws, one per run of consecutive
/// draws of a tested object, in draw order.
pub open spec fn queried(draws: Seq<(Option<u32>, bool)>, n: int) -> Seq<u32>
    decreases n,
{
    if n <= 0 {
        Seq::empty()
    } else if opens_query(draws, n - 1) {
        queried(draws, n - 1).push(draws[n - 1].0->0)
    } else {
        queried(draws, n - 1)
    }
}

/// The query runs over a pass's draws, each given as its object (`None` for
/// the renderer's own) and whether it has an occlusion test: a new query
/// begins wherever the object changes to one with a test. Returns the object
/// of each query, in index order.
pub fn query_objects(draws: &[(Option<u32>, bool)]) -> (objects: Vec<u32>)
    ensures
        objects@ == queried(draws@, draws@.len() as int),
{
    let mut objects: Vec<u32> = Vec::new();
    let mut last: Option<Option<u32>> = None;
    let n = draws.len();
    let mut i: usize = 0;
    while i < n
        invariant
            n == draws@.len(),
            0 <= i <= n,
            objects@ == queried(draws@, i as int),
            i == 0 ==> last is None,
            i > 0 ==> last == Some(draws@[i - 1].0),
        decreases n - i,
    {
        let (object, test) = draws[i];
        if last != Some(object) {
            if test {
                if let Some(id) = object {
                    objects.push(id);
                }
            }
            last = Some(object);
        }
        i = i + 1;
    }
    objects
}

/// Whether one of the first `n` draws is a tested draw of object `id`.
pub open spec fn tested_among(draws: Seq<(Option<u32>, bool)>, n: int, id: u32) -> bool {
    exists|i: int| 0 <= i < n && draws[i].1 && draws[i].0 == Some(id)
}

/// Every query measures a tested application object, and there are never
/// more queries than draws.
pub proof fn queries_come_from_tested_draws(draws: Seq<(Option<u32>, bool)>, n: int)
    requires
        0 <= n <= draws.len(),
    ensures
        queried(draws, n).len() <= n,
        forall|k: int| 0 <= k < queried(draws, n).len() ==> tested_among(draws, n, #[trigger] queried(draws, n)[k]),
    decreases n,
{
    if n > 0 {
        queries_come_from_tested_draws(draws, n - 1);
        let q = queried(draws, n);
        let p = queried(draws, n - 1);
        assert forall|k: int| 0 <= k < q.len() implies tested_among(draws, n, #[trigger] q[k]) by {
            if k < p.len() {
                assert(q[k] == p[k]);
                assert(tested_among(draws, n - 1, p[k]));
                let i = choose|i: int| 0 <= i < n - 1 && draws[i].1 && draws[i].0 == Some(p[k]);
                assert(0 <= i < n && draws[i].1 && draws[i].0 == Some(q[k]));
            } else {
                assert(draws[n - 1].1 && draws[n - 1].0 == Some(q[k]));
            }
        }
    }
}

/// A pass with no tested object asks no query.
pub proof fn no_tested_object_no_query(draws: Seq<(Option<u32>, bool)>, n: int)
    requires
        0 <= n <= draws.len(),
        forall|i: int| 0 <= i < draws.len() ==> !(#[trigger] draws[i]).1,
    ensures
        queried(draws, n).len() == 0,
    decreases n,
{
    if n > 0 {
        no_tested_object_no_query(draws, n - 1);
        assert(!draws[n - 1].1);
    }
}

/// Whether the samples of query `i` are all zero bytes in `bytes`, the
/// query's eight bytes cut short where the read-back ends.
pub open spec fn counted_no_samples(bytes: Seq<u8>, i: int) -> bool {
    forall|j: int| 8 * i <= j < 8 * i + 8 && j < bytes.len() ==> bytes[j] == 0u8
}

/// The number of eight-byte results `len` bytes make, a short last one
/// included.
pub open spec fn result_count(len: int) -> int {
    if len % 8 == 0 {
        len / 8
    } else {
        len / 8 + 1
    }
}

/// `bytemuck::pod_collect_to_vec::<u8, u64>`: the read-back's bytes as
/// 64-bit sample counts, a short tail zero-filled. Claimed: one count per
/// started eight bytes, and a count is zero exactly when all its bytes are.
/// The byte order of the counts is the machine's and is not stated.
#[verifier::external_body]
fn sample_counts(bytes: &[u8]) -> (counts: Vec<u64>)
    ensures
        counts@.len() == result_count(bytes@.len() as int),
        forall|i: int|
            0 <= i < counts@.len() ==> (#[trigger] counts@[i] == 0 <==> counted_no_samples(bytes@, i)),
{
    bytemuck::pod_collect_to_vec::<u8, u64>(bytes)
}

/// The objects among the first `n` of `objects` whose query counted no
/// samples, in query order.
pub open spec fn occluded_among(objects: Seq<u32>, bytes: Seq<u8>, n: int) -> Seq<u32>
    decreases n,
{
    if n <= 0 {
        Seq::empty()
    } else if counted_no_samples(bytes, n - 1) {
        occluded_among(objects, bytes, n - 1).push(objects[n - 1])
    } else {
        occluded_among(objects, bytes, n - 1)
    }
}

/// How many objects have a result in a read-back of `len` bytes.
pub open spec fn answered(objects_len: int, len: int) -> int {
    if objects_len <= result_count(len) {
        objects_len
    } else {
        result_count(len)
    }
}

/// A mapped read-back, as the queries' objects and the bytes the map holds:
/// the objects whose query counted zero samples. Objects past the end of the
/// read-back have no answer and are left out.
pub fn occluded_objects(objects: &[u32], bytes: &[u8]) -> (occluded: Vec<u32>)
    ensures
        occluded@ == occluded_among(objects@, bytes@, answered(objects@.len() as int, bytes@.len() as int)),
{
    let counts = sample_counts(bytes);
    let n = if objects.len() <= counts.len() { objects.len() } else { counts.len() };
    let mut occluded: Vec<u32> = Vec::new();
    let mut i: usize = 0;
    while i < n
        invariant
            n <= objects@.len(),
            n <= counts@.len(),
            n == answered(objects@.len() as int, bytes@.len() as int),
            counts@.len() == result_count(bytes@.len() as int),
            forall|k: int|
                0 <= k < counts@.len() ==> (#[trigger] counts@[k] == 0 <==> counted_no_samples(bytes@, k)),
            0 <= i <= n,
            occluded@ == occluded_among(objects@, bytes@, i as int),
        decreases n - i,
    {
        if counts[i] == 0 {
            occluded.push(objects[i]);
        }
        i = i + 1;
    }
    occluded
}

/// Whether one of the first `n` queries measured object `id` and counted no
/// samples.
pub open spec fn unseen_among(objects: Seq<u32>, bytes: Seq<u8>, n: int, id: u32) -> bool {
    exists|i: int| 0 <= i < n && counted_no_samples(bytes, i) && objects[i] == id
}

/// Every object reported occluded was queried and its query saw nothing.
pub proof fn occluded_objects_counted_nothing(objects: Seq<u32>, bytes: Seq<u8>, n: int)
    requires
        0 <= n <= objects.len(),
    ensures
        forall|k: int| 0 <= k < occluded_among(objects, bytes, n).len() ==> unseen_among(
            objects,
            bytes,
            n,
            #[trigger] occluded_among(objects, bytes, n)[k],
        ),
    decreases n,
{
    if n > 0 {
        occluded_objects_counted_nothing(objects, bytes, n - 1);
        let o = occluded_among(objects, bytes, n);
        let p = occluded_among(objects, bytes, n - 1);
        assert forall|k: int| 0 <= k < o.len() implies unseen_among(objects, bytes, n, #[trigger] o[k]) by {
            if k < p.len() {
                assert(o[k] == p[k]);
                assert(unseen_among(objects, bytes, n - 1, p[k]));
                let i = choose|i: int| 0 <= i < n - 1 && counted_no_samples(bytes, i) && objects[i] == p[k];
                assert(0 <= i < n && counted_no_samples(bytes, i) && objects[i] == o[k]);
            } else {
                assert(counted_no_samples(bytes, n - 1) && objects[n - 1] == o[k]);
            }
        }
    }
}

/// What becomes of a render context's query set when a pass begins.
#[derive(Clone, Copy, Debug, PartialEq, Eq, Structural)]
pub enum QuerySetPlan {
    /// The pass has no occlusion test: drop the context's set, record none.
    Drop,
    /// The set the context has is large enough: record into it again.
    Reuse,
    /// Create a set of this many queries and keep it for the context.
    Create(u32),
}

/// The plan for a pass that runs `count` queries in a context whose set
/// holds `capacity` queries (`None` when it has none).
pub open spec fn query_set_plan(capacity: Option<u32>, count: u32) -> QuerySetPlan {
    if count == 0 {
        QuerySetPlan::Drop
    } else if capacity is Some && capacity->0 >= count {
        QuerySetPlan::Reuse
    } else {
        QuerySetPlan::Create(count)
    }
}

/// The occlusion branch of beginning a pass: drop the set when nothing is
/// tested, reuse it while the count fits, otherwise make a set of exactly
/// `count` queries.
pub fn plan_query_set(capacity: Option<u32>, count: u32) -> (plan: QuerySetPlan)
    ensures
        plan == query_set_plan(capacity, count),
{
    if count == 0 {
        return QuerySetPlan::Drop;
    }
    match capacity {
        Some(held) if held >= count => QuerySetPlan::Reuse,
        _ => QuerySetPlan::Create(count),
    }
}

/// A set is only ever recorded into when it holds every query the pass
/// runs: reused only when large enough, created at exactly the size asked.
pub proof fn a_query_set_never_overruns(capacity: Option<u32>, count: u32)
    ensures
        query_set_plan(capacity, count) is Reuse ==> capacity->0 >= count && count > 0,
        query_set_plan(capacity, count) is Create ==> query_set_plan(capacity, count)->0 == count && count > 0,
        query_set_plan(capacity, count) is Drop <==> count == 0,
{
}

/// Where a read-back's map stands.
#[derive(Clone, Copy, Debug, PartialEq, Eq, Structural)]
pub enum MapState {
    /// Still waiting on the map.
    Waiting,
    /// Mapped: the bytes can be read.
    Mapped,
    /// The map failed: the read-back is dropped, the context keeps its
    /// previous answer.
    Failed,
}

/// How many of a context's in-flight read-backs, oldest first, can be
/// retired now: every one up to the first still waiting. Read-backs are
/// retired in order, so a newer answer never lands before an older one.
pub fn settled(states: &[MapState]) -> (count: usize)
    ensures
        count <= states@.len(),
        forall|i: int| 0 <= i < count ==> !(#[trigger] states@[i] is Waiting),
        count < states@.len() ==> states@[count as int] is Waiting,
{
    let mut i: usize = 0;
    while i < states.len()
        invariant
            0 <= i <= states@.len(),
            forall|j: int| 0 <= j < i ==> !(#[trigger] states@[j] is Waiting),
        decreases states@.len() - i,
    {
        match states[i] {
            MapState::Waiting => return i,
            _ => {},
        }
        i = i + 1;
    }
    i
}

} // verus!
