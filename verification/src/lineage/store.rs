//! The [`ManifestStore`] trait and an in-memory implementation.

use vstd::prelude::*;
use crate::error::LineageError;
use crate::model::Manifest;
use crate::text::str_eq;

verus! {

/// Read-only access to the set of materialized manifests.
pub trait ManifestStore {
    /// The manifest `latest_for_schema` reports for `schema_id`.
    spec fn latest_spec(&self, schema_id: Seq<char>) -> Option<Manifest>;

    /// The manifests `history_for_schema` reports for `schema_id`, newest first.
    spec fn history_spec(&self, schema_id: Seq<char>, limit: nat) -> Seq<Manifest>;

    /// The error `latest_for_schema` reports for `schema_id`, if it fails.
    spec fn latest_error(&self, schema_id: Seq<char>) -> Option<LineageError>;

    /// The store never reports an error.
    spec fn reliable(&self) -> bool;

    /// The most recent manifest matching `schema_id`, or `None`. The caller
    /// applies the freshness window.
    fn latest_for_schema(&self, schema_id: &str) -> (r: Result<Option<Manifest>, LineageError>)
        ensures
            r matches Ok(o) ==> o == self.latest_spec(schema_id@),
            r matches Err(e) ==> self.latest_error(schema_id@) == Some(e),
            r is Ok ==> self.latest_error(schema_id@) is None,
            self.reliable() ==> r is Ok,
            self.latest_spec(schema_id@) matches Some(m) ==> m.schema_id@ == schema_id@,
    ;

    /// All manifests matching `schema_id` (newest first), up to `limit`.
    fn history_for_schema(&self, schema_id: &str, limit: usize) -> (r: Result<Vec<Manifest>, LineageError>)
        ensures
            r matches Ok(v) ==> v@ == self.history_spec(schema_id@, limit as nat),
            self.reliable() ==> r is Ok,
            self.history_spec(schema_id@, limit as nat).len() <= limit,
    ;
}

/// The manifests of one schema, newest first.
#[derive(Debug, Clone)]
pub struct Bucket {
    pub schema_id: String,
    pub manifests: Vec<Manifest>,
}

/// An in-memory [`ManifestStore`] for tests and the demo server.
#[derive(Debug)]
pub struct InMemoryManifestStore {
    buckets: Vec<Bucket>,
}

/// The manifests stored under `k`: the first bucket keyed `k`.
pub open spec fn lookup(bs: Seq<Bucket>, k: Seq<char>) -> Seq<Manifest>
    decreases bs.len(),
{
    if bs.len() == 0 {
        seq![]
    } else if bs[0].schema_id@ == k {
        bs[0].manifests@
    } else {
        lookup(bs.drop_first(), k)
    }
}

/// `x` placed after the leading run of entries at least as new as it
/// (the step of a stable sort, newest first).
pub open spec fn insert_desc(t: Seq<Manifest>, x: Manifest) -> Seq<Manifest>
    decreases t.len(),
{
    if t.len() == 0 {
        seq![x]
    } else if t[0].materialized_at >= x.materialized_at {
        seq![t[0]] + insert_desc(t.drop_first(), x)
    } else {
        seq![x] + t
    }
}

/// Stable sort by `materialized_at`, newest first.
pub open spec fn sort_desc(s: Seq<Manifest>) -> Seq<Manifest>
    decreases s.len(),
{
    if s.len() == 0 {
        s
    } else {
        insert_desc(sort_desc(s.drop_last()), s.last())
    }
}

/// Index of the first manifest with id `id`.
pub open spec fn first_with_id(b: Seq<Manifest>, id: Seq<char>) -> Option<int> {
    if exists|i: int| 0 <= i < b.len() && b[i].manifest_id@ == id {
        Some(choose|i: int| 0 <= i < b.len() && b[i].manifest_id@ == id
            && forall|j: int| 0 <= j < i ==> (#[trigger] b[j]).manifest_id@ != id)
    } else {
        None
    }
}

/// A bucket after `put(m)`: the first manifest with `m`'s id replaced by `m`
/// (or `m` appended), then stably re-sorted newest first.
pub open spec fn put_bucket(b: Seq<Manifest>, m: Manifest) -> Seq<Manifest> {
    match first_with_id(b, m.manifest_id@) {
        Some(i) => sort_desc(b.update(i, m)),
        None => sort_desc(b.push(m)),
    }
}

proof fn lemma_min_id_witness(b: Seq<Manifest>, id: Seq<char>, w: int)
    requires
        0 <= w < b.len(),
        b[w].manifest_id@ == id,
    ensures
        exists|i: int| 0 <= i < b.len() && b[i].manifest_id@ == id
            && forall|j: int| 0 <= j < i ==> (#[trigger] b[j]).manifest_id@ != id,
    decreases w,
{
    if exists|j: int| 0 <= j < w && b[j].manifest_id@ == id {
        let j = choose|j: int| 0 <= j < w && b[j].manifest_id@ == id;
        lemma_min_id_witness(b, id, j);
    } else {
        assert(forall|j: int| 0 <= j < w ==> (#[trigger] b[j]).manifest_id@ != id);
    }
}

proof fn lemma_first_with_id(b: Seq<Manifest>, id: Seq<char>)
    ensures
        first_with_id(b, id) matches Some(i) ==> 0 <= i < b.len() && b[i].manifest_id@ == id
            && forall|j: int| 0 <= j < i ==> (#[trigger] b[j]).manifest_id@ != id,
        first_with_id(b, id) is None ==> forall|j: int| 0 <= j < b.len() ==> (#[trigger] b[j]).manifest_id@ != id,
{
    if exists|i: int| 0 <= i < b.len() && b[i].manifest_id@ == id {
        let w = choose|i: int| 0 <= i < b.len() && b[i].manifest_id@ == id;
        lemma_min_id_witness(b, id, w);
    }
}

proof fn lemma_lookup_update(bs: Seq<Bucket>, i: int, nb: Bucket, k: Seq<char>)
    requires
        0 <= i < bs.len(),
        nb.schema_id@ == bs[i].schema_id@,
        forall|j: int| 0 <= j < i ==> (#[trigger] bs[j]).schema_id@ != bs[i].schema_id@,
    ensures
        lookup(bs.update(i, nb), k) == (if k == bs[i].schema_id@ { nb.manifests@ } else { lookup(bs, k) }),
    decreases i,
{
    if i > 0 {
        assert(bs.update(i, nb).drop_first() =~= bs.drop_first().update(i - 1, nb));
        assert(bs.update(i, nb)[0] == bs[0]);
        assert(bs[0].schema_id@ != bs[i].schema_id@);
        lemma_lookup_update(bs.drop_first(), i - 1, nb, k);
    } else {
        assert(bs.update(0, nb).drop_first() =~= bs.drop_first());
        assert(bs.update(0, nb)[0] == nb);
    }
}

proof fn lemma_lookup_push(bs: Seq<Bucket>, nb: Bucket, k: Seq<char>)
    requires
        forall|j: int| 0 <= j < bs.len() ==> (#[trigger] bs[j]).schema_id@ != nb.schema_id@,
    ensures
        lookup(bs.push(nb), k) == (if k == nb.schema_id@ { nb.manifests@ } else { lookup(bs, k) }),
    decreases bs.len(),
{
    if bs.len() > 0 {
        assert(bs.push(nb).drop_first() =~= bs.drop_first().push(nb));
        assert(bs.push(nb)[0] == bs[0]);
        lemma_lookup_push(bs.drop_first(), nb, k);
    } else {
        assert(bs.push(nb).drop_first() =~= Seq::<Bucket>::empty());
        assert(bs.push(nb)[0] == nb);
        assert(lookup(Seq::<Bucket>::empty(), k) == Seq::<Manifest>::empty());
        assert(bs =~= Seq::<Bucket>::empty());
    }
}

proof fn lemma_lookup_missing(bs: Seq<Bucket>, k: Seq<char>)
    requires
        forall|j: int| 0 <= j < bs.len() ==> (#[trigger] bs[j]).schema_id@ != k,
    ensures
        lookup(bs, k) == Seq::<Manifest>::empty(),
    decreases bs.len(),
{
    if bs.len() > 0 {
        lemma_lookup_missing(bs.drop_first(), k);
    }
}

proof fn lemma_lookup_schema(bs: Seq<Bucket>, k: Seq<char>)
    requires
        forall|i: int, m: int| 0 <= i < bs.len() && 0 <= m < bs[i].manifests@.len()
            ==> (#[trigger] bs[i].manifests@[m]).schema_id@ == bs[i].schema_id@,
    ensures
        forall|m: int| 0 <= m < lookup(bs, k).len() ==> (#[trigger] lookup(bs, k)[m]).schema_id@ == k,
    decreases bs.len(),
{
    if bs.len() > 0 && bs[0].schema_id@ != k {
        assert forall|i: int, m: int| 0 <= i < bs.drop_first().len() && 0 <= m < bs.drop_first()[i].manifests@.len()
            implies (#[trigger] bs.drop_first()[i].manifests@[m]).schema_id@ == bs.drop_first()[i].schema_id@ by {
            assert(bs.drop_first()[i] == bs[i + 1]);
        }
        lemma_lookup_schema(bs.drop_first(), k);
    }
}

proof fn lemma_lookup_found(bs: Seq<Bucket>, i: int)
    requires
        0 <= i < bs.len(),
        forall|j: int| 0 <= j < i ==> (#[trigger] bs[j]).schema_id@ != bs[i].schema_id@,
    ensures
        lookup(bs, bs[i].schema_id@) == bs[i].manifests@,
    decreases i,
{
    if i > 0 {
        lemma_lookup_found(bs.drop_first(), i - 1);
    }
}

proof fn lemma_insert_desc_at(t: Seq<Manifest>, x: Manifest, p: int)
    requires
        0 <= p <= t.len(),
        forall|j: int| 0 <= j < p ==> (#[trigger] t[j]).materialized_at >= x.materialized_at,
        p < t.len() ==> t[p].materialized_at < x.materialized_at,
    ensures
        insert_desc(t, x) == t.insert(p, x),
    decreases t.len(),
{
    if t.len() > 0 && p > 0 {
        lemma_insert_desc_at(t.drop_first(), x, p - 1);
        assert(t.insert(p, x) =~= seq![t[0]] + t.drop_first().insert(p - 1, x));
    } else if t.len() > 0 {
        assert(t.insert(0, x) =~= seq![x] + t);
    } else {
        assert(t.insert(0, x) =~= seq![x]);
    }
}

/// Newest first: `materialized_at` never increases along the sequence.
pub open spec fn newest_first(b: Seq<Manifest>) -> bool {
    forall|i: int, j: int| 0 <= i < j < b.len() ==> (#[trigger] b[i]).materialized_at >= (#[trigger] b[j]).materialized_at
}

/// Where `x` goes in a newest-first sequence: after every entry at least as
/// new as it.
proof fn insertion_point(t: Seq<Manifest>, x: Manifest) -> (p: int)
    ensures
        0 <= p <= t.len(),
        forall|j: int| 0 <= j < p ==> (#[trigger] t[j]).materialized_at >= x.materialized_at,
        p < t.len() ==> t[p].materialized_at < x.materialized_at,
    decreases t.len(),
{
    if t.len() == 0 || t[0].materialized_at < x.materialized_at {
        0
    } else {
        let q = insertion_point(t.drop_first(), x);
        assert forall|j: int| 0 <= j < q + 1 implies (#[trigger] t[j]).materialized_at >= x.materialized_at by {
            if j > 0 {
                assert(t[j] == t.drop_first()[j - 1]);
            }
        }
        if q + 1 < t.len() {
            assert(t[q + 1] == t.drop_first()[q]);
        }
        q + 1
    }
}

/// The stable sort orders newest first and keeps exactly the elements it
/// was given.
pub proof fn lemma_sort_desc(s: Seq<Manifest>)
    ensures
        newest_first(sort_desc(s)),
        sort_desc(s).to_multiset() == s.to_multiset(),
    decreases s.len(),
{
    broadcast use vstd::seq_lib::group_to_multiset_ensures;
    if s.len() > 0 {
        let rest = s.drop_last();
        let x = s.last();
        lemma_sort_desc(rest);
        let t = sort_desc(rest);
        let p = insertion_point(t, x);
        lemma_insert_desc_at(t, x, p);
        let u = t.insert(p, x);
        assert(sort_desc(s) == u);
        assert forall|a: int, b: int| 0 <= a < b < u.len() implies (#[trigger] u[a]).materialized_at >= (#[trigger] u[b]).materialized_at by {
            if b == p {
                assert(u[a] == t[a]);
            } else if a == p {
                assert(u[b] == t[b - 1]);
                if b - 1 > p {
                    assert(t[p].materialized_at >= t[b - 1].materialized_at);
                }
            } else if a < p && b > p {
                assert(u[b] == t[b - 1]);
                assert(u[a] == t[a]);
            } else if a > p {
                assert(u[b] == t[b - 1]);
                assert(u[a] == t[a - 1]);
            } else {
                assert(u[b] == t[b]);
                assert(u[a] == t[a]);
            }
        }
        assert(s == rest.push(x));
    } else {
        assert(sort_desc(s) == s);
    }
}

/// Putting a manifest leaves its bucket newest first (so the latest of a
/// schema is its newest manifest), holds the manifest, keeps every manifest
/// of another id, and replaces the one of the same id (last write wins).
pub proof fn put_law(b: Seq<Manifest>, m: Manifest)
    ensures
        newest_first(put_bucket(b, m)),
        put_bucket(b, m).contains(m),
        forall|x: Manifest| x.manifest_id@ != m.manifest_id@ ==> (#[trigger] put_bucket(b, m).contains(x) <==> b.contains(x)),
        put_bucket(b, m).len() == (if first_with_id(b, m.manifest_id@) is Some { b.len() } else { b.len() + 1 }),
{
    broadcast use vstd::seq_lib::group_to_multiset_ensures;
    lemma_first_with_id(b, m.manifest_id@);
    let s = match first_with_id(b, m.manifest_id@) {
        Some(i) => b.update(i, m),
        None => b.push(m),
    };
    lemma_sort_desc(s);
    let r = put_bucket(b, m);
    assert(r == sort_desc(s));
    assert(r.to_multiset() == s.to_multiset());
    assert(s.contains(m)) by {
        match first_with_id(b, m.manifest_id@) {
            Some(i) => {
                assert(s[i] == m);
            },
            None => {
                assert(s[b.len() as int] == m);
            },
        }
    }
    assert(r.to_multiset().count(m) > 0);
    assert forall|x: Manifest| x.manifest_id@ != m.manifest_id@ implies (#[trigger] r.contains(x) <==> b.contains(x)) by {
        assert(r.contains(x) <==> s.contains(x)) by {
            assert(r.to_multiset().count(x) == s.to_multiset().count(x));
        }
        match first_with_id(b, m.manifest_id@) {
            Some(i) => {
                if s.contains(x) {
                    let k = choose|k: int| 0 <= k < s.len() && s[k] == x;
                    assert(k != i);
                    assert(b[k] == x);
                }
                if b.contains(x) {
                    let k = choose|k: int| 0 <= k < b.len() && b[k] == x;
                    assert(k != i);
                    assert(s[k] == x);
                }
            },
            None => {
                if s.contains(x) {
                    let k = choose|k: int| 0 <= k < s.len() && s[k] == x;
                    assert(k < b.len());
                    assert(b[k] == x);
                }
                if b.contains(x) {
                    let k = choose|k: int| 0 <= k < b.len() && b[k] == x;
                    assert(s[k] == x);
                }
            },
        }
    }
    assert(r.len() == s.len()) by {
        assert(r.to_multiset().len() == s.to_multiset().len());
    }
}

fn find_bucket(bs: &Vec<Bucket>, schema_id: &str) -> (r: Option<usize>)
    ensures
        r matches Some(i) ==> i < bs@.len() && bs@[i as int].schema_id@ == schema_id@
            && forall|j: int| 0 <= j < i ==> (#[trigger] bs@[j]).schema_id@ != schema_id@,
        r is None ==> forall|j: int| 0 <= j < bs@.len() ==> (#[trigger] bs@[j]).schema_id@ != schema_id@,
{
    let mut i: usize = 0;
    while i < bs.len()
        invariant
            i <= bs@.len(),
            forall|j: int| 0 <= j < i ==> (#[trigger] bs@[j]).schema_id@ != schema_id@,
        decreases bs@.len() - i,
    {
        if str_eq(bs[i].schema_id.as_str(), schema_id) {
            return Some(i);
        }
        i = i + 1;
    }
    None
}

/// Stable sort, newest first (see [`sort_desc`]).
fn sorted_desc(s: Vec<Manifest>) -> (r: Vec<Manifest>)
    ensures
        r@ == sort_desc(s@),
{
    let mut r: Vec<Manifest> = Vec::new();
    let mut i: usize = 0;
    while i < s.len()
        invariant
            i <= s@.len(),
            r@ == sort_desc(s@.take(i as int)),
        decreases s@.len() - i,
    {
        let x = s[i].duplicate();
        let mut p: usize = 0;
        while p < r.len() && r[p].materialized_at >= x.materialized_at
            invariant
                p <= r@.len(),
                forall|j: int| 0 <= j < p ==> (#[trigger] r@[j]).materialized_at >= x.materialized_at,
            decreases r@.len() - p,
        {
            p = p + 1;
        }
        proof {
            lemma_insert_desc_at(r@, x, p as int);
            assert(s@.take(i + 1).drop_last() =~= s@.take(i as int));
        }
        r.insert(p, x);
        i = i + 1;
    }
    assert(s@.take(s@.len() as int) =~= s@);
    r
}

impl InMemoryManifestStore {
    /// The manifests stored for `schema_id`, newest first.
    pub closed spec fn manifests_for(&self, schema_id: Seq<char>) -> Seq<Manifest> {
        lookup(self.buckets@, schema_id)
    }

    /// Buckets have distinct keys, each holds only manifests of its schema,
    /// and no two manifests of a bucket share an id.
    #[verifier::type_invariant]
    pub closed spec fn wf(&self) -> bool {
        &&& forall|i: int, j: int| 0 <= i < j < self.buckets@.len() ==> (#[trigger] self.buckets@[i]).schema_id@
            != (#[trigger] self.buckets@[j]).schema_id@
        &&& forall|i: int, k: int| 0 <= i < self.buckets@.len() && 0 <= k < self.buckets@[i].manifests@.len()
            ==> (#[trigger] self.buckets@[i].manifests@[k]).schema_id@ == self.buckets@[i].schema_id@
        &&& forall|i: int| 0 <= i < self.buckets@.len() ==> ids_distinct(#[trigger] self.buckets@[i].manifests@)
    }

    /// An empty store.
    pub fn new() -> (s: Self)
        ensures
            forall|k: Seq<char>| #[trigger] s.manifests_for(k) == Seq::<Manifest>::empty(),
    {
        let s = InMemoryManifestStore { buckets: Vec::new() };
        assert forall|k: Seq<char>| #[trigger] s.manifests_for(k) == Seq::<Manifest>::empty() by {
            lemma_lookup_missing(s.buckets@, k);
        }
        s
    }

    proof fn lemma_wf_schema(&self, k: Seq<char>)
        requires
            self.wf(),
        ensures
            forall|i: int| 0 <= i < self.manifests_for(k).len() ==> (#[trigger] self.manifests_for(k)[i]).schema_id@ == k,
    {
        lemma_lookup_schema(self.buckets@, k);
    }

    /// Insert a manifest into its schema's bucket: a manifest with the same
    /// id is replaced (last write wins), otherwise it is appended; the bucket
    /// is then stably re-sorted newest first. Other schemas are untouched.
    pub fn put(&mut self, manifest: Manifest)
        ensures
            forall|k: Seq<char>| #[trigger] final(self).manifests_for(k) == (if k == manifest.schema_id@ {
                put_bucket(old(self).manifests_for(k), manifest)
            } else {
                old(self).manifests_for(k)
            }),
            forall|k: Seq<char>| ids_distinct(#[trigger] final(self).manifests_for(k)),
    {
        proof {
            use_type_invariant(&*self);
        }
        let ghost key = manifest.schema_id@;
        let ghost before = self.buckets@;
        let mut bs: Vec<Bucket> = Vec::new();
        std::mem::swap(&mut bs, &mut self.buckets);
        assert(bs@ == before);
        match find_bucket(&bs, manifest.schema_id.as_str()) {
            Some(bi) => {
                let ghost old_bs = bs@;
                let mut bucket: Vec<Manifest> = Vec::new();
                let mut k: usize = 0;
                let n = bs[bi].manifests.len();
                let mut slot: Option<usize> = None;
                while k < n
                    invariant
                        n == bs@[bi as int].manifests@.len(),
                        bs@ == old_bs,
                        bi < old_bs.len(),
                        k <= n,
                        bucket@ == old_bs[bi as int].manifests@.take(k as int),
                        slot is None ==> forall|j: int| 0 <= j < k ==> (#[trigger] bucket@[j]).manifest_id@ != manifest.manifest_id@,
                        slot matches Some(q) ==> q < k && bucket@[q as int].manifest_id@ == manifest.manifest_id@
                            && forall|j: int| 0 <= j < q ==> (#[trigger] bucket@[j]).manifest_id@ != manifest.manifest_id@,
                    decreases n - k,
                {
                    let m = bs[bi].manifests[k].duplicate();
                    if slot.is_none() && str_eq(m.manifest_id.as_str(), manifest.manifest_id.as_str()) {
                        slot = Some(k);
                    }
                    bucket.push(m);
                    assert(bucket@ =~= old_bs[bi as int].manifests@.take(k + 1));
                    k = k + 1;
                }
                let ghost ob = old_bs[bi as int].manifests@;
                assert(bucket@ =~= ob);
                proof {
                    lemma_lookup_found(old_bs, bi as int);
                    match slot {
                        Some(q) => {
                            assert(first_with_id(ob, manifest.manifest_id@) == Some(q as int)) by {
                                let c = choose|i: int| 0 <= i < ob.len() && ob[i].manifest_id@ == manifest.manifest_id@
                                    && forall|j: int| 0 <= j < i ==> (#[trigger] ob[j]).manifest_id@ != manifest.manifest_id@;
                                if c < q {
                                    assert(ob[c].manifest_id@ != manifest.manifest_id@);
                                } else if c > q {
                                    assert(ob[q as int].manifest_id@ != manifest.manifest_id@);
                                }
                            }
                        },
                        None => {
                            assert(first_with_id(ob, manifest.manifest_id@) is None);
                        },
                    }
                }
                match slot {
                    Some(q) => {
                        bucket.set(q, manifest);
                    },
                    None => {
                        bucket.push(manifest);
                    },
                }
                let sorted = sorted_desc(bucket);
                let schema = bs[bi].schema_id.clone();
                let nb = Bucket { schema_id: schema, manifests: sorted };
                proof {
                    lemma_insert_preserves_schema(ob, key, manifest);
                    put_keeps_ids_distinct(ob, manifest);
                }
                bs.set(bi, nb);
                proof {
                    assert(bs@ == old_bs.update(bi as int, nb));
                    assert forall|k2: Seq<char>| #[trigger] lookup(bs@, k2) == (if k2 == key {
                        put_bucket(lookup(old_bs, k2), manifest)
                    } else {
                        lookup(old_bs, k2)
                    }) by {
                        lemma_lookup_update(old_bs, bi as int, nb, k2);
                    }
                }
            },
            None => {
                let ghost old_bs = bs@;
                let schema = manifest.schema_id.clone();
                let mut v: Vec<Manifest> = Vec::new();
                v.push(manifest);
                let ghost mv = v@;
                let sorted = sorted_desc(v);
                assert(sort_desc(mv) =~= seq![manifest]) by {
                    assert(mv.drop_last() =~= Seq::<Manifest>::empty());
                    assert(sort_desc(mv.drop_last()) =~= Seq::<Manifest>::empty());
                    assert(insert_desc(Seq::<Manifest>::empty(), manifest) =~= seq![manifest]);
                }
                let nb = Bucket { schema_id: schema, manifests: sorted };
                bs.push(nb);
                proof {
                    lemma_lookup_missing(old_bs, key);
                    assert(first_with_id(Seq::<Manifest>::empty(), manifest.manifest_id@) is None);
                    assert(Seq::<Manifest>::empty().push(manifest) =~= mv);
                    assert forall|k2: Seq<char>| #[trigger] lookup(bs@, k2) == (if k2 == key {
                        put_bucket(lookup(old_bs, k2), manifest)
                    } else {
                        lookup(old_bs, k2)
                    }) by {
                        lemma_lookup_push(old_bs, nb, k2);
                    }
                }
            },
        }
        proof {
            assert forall|k2: Seq<char>| #[trigger] lookup(bs@, k2) == (if k2 == key {
                put_bucket(lookup(before, k2), manifest)
            } else {
                lookup(before, k2)
            }) by {}
        }
        self.buckets = bs;
        proof {
            use_type_invariant(&*self);
            assert forall|k: Seq<char>| ids_distinct(#[trigger] self.manifests_for(k)) by {
                lemma_lookup_distinct(self.buckets@, k);
            }
        }
    }
}

impl InMemoryManifestStore {
    fn bucket_for(&self, schema_id: &str) -> (r: Option<&Vec<Manifest>>)
        ensures
            r matches Some(v) ==> v@ == self.manifests_for(schema_id@),
            r is None ==> self.manifests_for(schema_id@) == Seq::<Manifest>::empty(),
    {
        match find_bucket(&self.buckets, schema_id) {
            Some(i) => {
                proof {
                    lemma_lookup_found(self.buckets@, i as int);
                }
                Some(&self.buckets[i].manifests)
            },
            None => {
                proof {
                    lemma_lookup_missing(self.buckets@, schema_id@);
                }
                None
            },
        }
    }

    /// Insert every manifest, in order (see [`InMemoryManifestStore::put`]).
    pub fn extend(&mut self, manifests: Vec<Manifest>)
        ensures
            forall|k: Seq<char>| #[trigger] final(self).manifests_for(k) == put_all(old(self).manifests_for(k), manifests@, k),
    {
        let ghost start = *self;
        let mut i: usize = 0;
        while i < manifests.len()
            invariant
                i <= manifests@.len(),
                forall|k: Seq<char>| #[trigger] self.manifests_for(k) == put_all(start.manifests_for(k), manifests@.take(i as int), k),
            decreases manifests@.len() - i,
        {
            let m = manifests[i].duplicate();
            self.put(m);
            assert forall|k: Seq<char>| #[trigger] self.manifests_for(k) == put_all(start.manifests_for(k), manifests@.take(i + 1), k) by {
                assert(manifests@.take(i + 1).drop_last() =~= manifests@.take(i as int));
            }
            i = i + 1;
        }
        assert(manifests@.take(manifests@.len() as int) =~= manifests@);
    }
}

/// The bucket for `k` after putting each of `ms` in turn.
pub open spec fn put_all(b: Seq<Manifest>, ms: Seq<Manifest>, k: Seq<char>) -> Seq<Manifest>
    decreases ms.len(),
{
    if ms.len() == 0 {
        b
    } else {
        let prev = put_all(b, ms.drop_last(), k);
        if ms.last().schema_id@ == k {
            put_bucket(prev, ms.last())
        } else {
            prev
        }
    }
}

impl ManifestStore for InMemoryManifestStore {
    open spec fn latest_spec(&self, schema_id: Seq<char>) -> Option<Manifest> {
        if self.manifests_for(schema_id).len() > 0 {
            Some(self.manifests_for(schema_id)[0])
        } else {
            None
        }
    }

    open spec fn history_spec(&self, schema_id: Seq<char>, limit: nat) -> Seq<Manifest> {
        if limit < self.manifests_for(schema_id).len() {
            self.manifests_for(schema_id).take(limit as int)
        } else {
            self.manifests_for(schema_id)
        }
    }

    open spec fn latest_error(&self, schema_id: Seq<char>) -> Option<LineageError> {
        None
    }

    open spec fn reliable(&self) -> bool {
        true
    }

    fn latest_for_schema(&self, schema_id: &str) -> (r: Result<Option<Manifest>, LineageError>) {
        proof {
            use_type_invariant(self);
            self.lemma_wf_schema(schema_id@);
        }
        match self.bucket_for(schema_id) {
            Some(v) => {
                if v.len() > 0 {
                    Ok(Some(v[0].duplicate()))
                } else {
                    Ok(None)
                }
            },
            None => Ok(None),
        }
    }

    fn history_for_schema(&self, schema_id: &str, limit: usize) -> (r: Result<Vec<Manifest>, LineageError>) {
        let mut out: Vec<Manifest> = Vec::new();
        match self.bucket_for(schema_id) {
            Some(v) => {
                let mut i: usize = 0;
                while i < v.len() && i < limit
                    invariant
                        i <= v@.len(),
                        i <= limit,
                        out@ == v@.take(i as int),
                    decreases v@.len() - i,
                {
                    out.push(v[i].duplicate());
                    assert(out@ =~= v@.take(i + 1));
                    i = i + 1;
                }
                assert(i == v@.len() ==> v@.take(i as int) =~= v@);
            },
            None => {},
        }
        Ok(out)
    }
}

/// Sorting keeps each element's schema (every element of the sorted bucket
/// comes from the input or is the inserted manifest).
proof fn lemma_insert_preserves_schema(b: Seq<Manifest>, key: Seq<char>, m: Manifest)
    requires
        m.schema_id@ == key,
        forall|k: int| 0 <= k < b.len() ==> (#[trigger] b[k]).schema_id@ == key,
    ensures
        forall|k: int| 0 <= k < put_bucket(b, m).len() ==> (#[trigger] put_bucket(b, m)[k]).schema_id@ == key,
{
    match first_with_id(b, m.manifest_id@) {
        Some(i) => {
            lemma_first_with_id(b, m.manifest_id@);
            assert(0 <= i < b.len());
            assert forall|k: int| 0 <= k < b.update(i, m).len() implies (#[trigger] b.update(i, m)[k]).schema_id@ == key by {
                if k != i {
                    assert(b.update(i, m)[k] == b[k]);
                }
            }
            lemma_sort_schema(b.update(i, m), key)
        },
        None => {
            assert forall|k: int| 0 <= k < b.push(m).len() implies (#[trigger] b.push(m)[k]).schema_id@ == key by {
                if k < b.len() {
                    assert(b.push(m)[k] == b[k]);
                }
            }
            lemma_sort_schema(b.push(m), key)
        },
    }
}

proof fn lemma_insert_desc_schema(t: Seq<Manifest>, x: Manifest, key: Seq<char>)
    requires
        x.schema_id@ == key,
        forall|k: int| 0 <= k < t.len() ==> (#[trigger] t[k]).schema_id@ == key,
    ensures
        insert_desc(t, x).len() == t.len() + 1,
        forall|k: int| 0 <= k < insert_desc(t, x).len() ==> (#[trigger] insert_desc(t, x)[k]).schema_id@ == key,
    decreases t.len(),
{
    if t.len() > 0 && t[0].materialized_at >= x.materialized_at {
        lemma_insert_desc_schema(t.drop_first(), x, key);
    }
}

proof fn lemma_sort_schema(s: Seq<Manifest>, key: Seq<char>)
    requires
        forall|k: int| 0 <= k < s.len() ==> (#[trigger] s[k]).schema_id@ == key,
    ensures
        sort_desc(s).len() == s.len(),
        forall|k: int| 0 <= k < sort_desc(s).len() ==> (#[trigger] sort_desc(s)[k]).schema_id@ == key,
    decreases s.len(),
{
    if s.len() > 0 {
        lemma_sort_schema(s.drop_last(), key);
        lemma_insert_desc_schema(sort_desc(s.drop_last()), s.last(), key);
    }
}

/// No two manifests of a bucket share an id.
pub open spec fn ids_distinct(b: Seq<Manifest>) -> bool {
    forall|i: int, j: int| 0 <= i < j < b.len() ==> (#[trigger] b[i]).manifest_id@ != (#[trigger] b[j]).manifest_id@
}

/// Some manifest of `b` has id `id`.
pub open spec fn has_id(b: Seq<Manifest>, id: Seq<char>) -> bool {
    exists|i: int| 0 <= i < b.len() && (#[trigger] b[i]).manifest_id@ == id
}

proof fn lemma_sort_desc_distinct(s: Seq<Manifest>)
    requires
        ids_distinct(s),
    ensures
        ids_distinct(sort_desc(s)),
        forall|id: Seq<char>| has_id(sort_desc(s), id) ==> has_id(s, id),
    decreases s.len(),
{
    broadcast use vstd::seq_lib::group_to_multiset_ensures;
    if s.len() > 0 {
        let rest = s.drop_last();
        let x = s.last();
        assert(ids_distinct(rest)) by {
            assert forall|i: int, j: int| 0 <= i < j < rest.len() implies (#[trigger] rest[i]).manifest_id@ != (#[trigger] rest[j]).manifest_id@ by {
                assert(rest[i] == s[i] && rest[j] == s[j]);
            }
        }
        lemma_sort_desc_distinct(rest);
        let t = sort_desc(rest);
        let p = insertion_point(t, x);
        lemma_insert_desc_at(t, x, p);
        let u = t.insert(p, x);
        assert(sort_desc(s) == u);
        assert(!has_id(t, x.manifest_id@)) by {
            if has_id(t, x.manifest_id@) {
                assert(has_id(rest, x.manifest_id@));
                let i = choose|i: int| 0 <= i < rest.len() && (#[trigger] rest[i]).manifest_id@ == x.manifest_id@;
                assert(s[i] == rest[i]);
                assert(s[s.len() - 1] == x);
            }
        }
        assert forall|a: int, b: int| 0 <= a < b < u.len() implies (#[trigger] u[a]).manifest_id@ != (#[trigger] u[b]).manifest_id@ by {
            if a == p {
                assert(u[b] == t[b - 1]);
            } else if b == p {
                assert(u[a] == t[a]);
            } else {
                let a2 = if a < p { a } else { a - 1 };
                let b2 = if b < p { b } else { b - 1 };
                assert(u[a] == t[a2]);
                assert(u[b] == t[b2]);
            }
        }
        assert forall|id: Seq<char>| has_id(u, id) implies has_id(s, id) by {
            let k = choose|k: int| 0 <= k < u.len() && (#[trigger] u[k]).manifest_id@ == id;
            if k == p {
                assert(s[s.len() - 1] == x);
                assert(s[s.len() - 1].manifest_id@ == id);
            } else {
                let k2 = if k < p { k } else { k - 1 };
                assert(u[k] == t[k2]);
                assert(has_id(t, id));
                assert(has_id(rest, id));
                let i = choose|i: int| 0 <= i < rest.len() && (#[trigger] rest[i]).manifest_id@ == id;
                assert(s[i] == rest[i]);
            }
        }
    }
}

proof fn lemma_lookup_distinct(bs: Seq<Bucket>, k: Seq<char>)
    requires
        forall|i: int| 0 <= i < bs.len() ==> ids_distinct(#[trigger] bs[i].manifests@),
    ensures
        ids_distinct(lookup(bs, k)),
    decreases bs.len(),
{
    if bs.len() > 0 {
        assert(ids_distinct(bs[0].manifests@));
        if bs[0].schema_id@ != k {
            assert forall|i: int| 0 <= i < bs.drop_first().len() implies ids_distinct(#[trigger] bs.drop_first()[i].manifests@) by {
                assert(bs.drop_first()[i] == bs[i + 1]);
            }
            lemma_lookup_distinct(bs.drop_first(), k);
        }
    }
}

/// Putting a manifest keeps a bucket's ids distinct: one manifest per id.
pub proof fn put_keeps_ids_distinct(b: Seq<Manifest>, m: Manifest)
    requires
        ids_distinct(b),
    ensures
        ids_distinct(put_bucket(b, m)),
{
    lemma_first_with_id(b, m.manifest_id@);
    match first_with_id(b, m.manifest_id@) {
        Some(i) => {
            let s = b.update(i, m);
            assert forall|a: int, c: int| 0 <= a < c < s.len() implies (#[trigger] s[a]).manifest_id@ != (#[trigger] s[c]).manifest_id@ by {
                if a == i {
                    assert(s[c] == b[c]);
                } else if c == i {
                    assert(s[a] == b[a]);
                } else {
                    assert(s[a] == b[a] && s[c] == b[c]);
                }
            }
            lemma_sort_desc_distinct(s);
        },
        None => {
            let s = b.push(m);
            assert forall|a: int, c: int| 0 <= a < c < s.len() implies (#[trigger] s[a]).manifest_id@ != (#[trigger] s[c]).manifest_id@ by {
                assert(s[a] == b[a]);
                if c < b.len() {
                    assert(s[c] == b[c]);
                }
            }
            lemma_sort_desc_distinct(s);
        },
    }
}

} // verus!
