//! Consumer -> producer edges derived from contracts.

use vstd::prelude::*;
use crate::model::{Contract, ContractRole, Schedule};
use crate::text::{chars_eq, chars_of, lex_lt, seq_lt, lemma_lt_irreflexive, lemma_lt_transitive, lemma_lt_total, str_eq};

verus! {

broadcast use vstd::seq_lib::group_to_multiset_ensures;

/// A directed edge: `consumer` schedule depends on `producer` schedule for `schema_id`.
#[derive(Debug, Clone, PartialEq, Eq)]
pub struct Edge {
    pub consumer: String,
    pub producer: String,
    pub schema_id: String,
}

/// An edge as `(schema_id, consumer, producer)`, the order edges sort by.
pub type EdgeKey = (Seq<char>, Seq<char>, Seq<char>);

impl Edge {
    pub open spec fn key(&self) -> EdgeKey {
        (self.schema_id@, self.consumer@, self.producer@)
    }
}

/// Lexicographic order on edge keys.
pub open spec fn key_lt(a: EdgeKey, b: EdgeKey) -> bool {
    seq_lt(a.0, b.0) || (a.0 == b.0 && (seq_lt(a.1, b.1) || (a.1 == b.1 && seq_lt(a.2, b.2))))
}

pub open spec fn key_le(a: EdgeKey, b: EdgeKey) -> bool {
    a == b || key_lt(a, b)
}

/// The schedule ids of the producing contracts for `schema`, in order.
pub open spec fn producers_for(cs: Seq<Contract>, schema: Seq<char>) -> Seq<Seq<char>>
    decreases cs.len(),
{
    if cs.len() == 0 {
        seq![]
    } else if cs.last().role == ContractRole::Produce && cs.last().schema_id@ == schema {
        producers_for(cs.drop_last(), schema).push(cs.last().schedule_id@)
    } else {
        producers_for(cs.drop_last(), schema)
    }
}

/// One edge per (consuming contract, producing contract) pair on the same
/// schema, consumers in order, then producers in order.
pub open spec fn raw_edges(consumers: Seq<Contract>, all: Seq<Contract>) -> Seq<EdgeKey>
    decreases consumers.len(),
{
    if consumers.len() == 0 {
        seq![]
    } else {
        let c = consumers.last();
        let prev = raw_edges(consumers.drop_last(), all);
        if c.role == ContractRole::Consume {
            prev + producers_for(all, c.schema_id@).map_values(|p: Seq<char>| (c.schema_id@, c.schedule_id@, p))
        } else {
            prev
        }
    }
}

pub open spec fn sorted_keys(s: Seq<EdgeKey>) -> bool {
    forall|i: int, j: int| 0 <= i < j < s.len() ==> key_le(s[i], s[j])
}

proof fn lemma_key_total(a: EdgeKey, b: EdgeKey)
    ensures
        a == b || key_lt(a, b) || key_lt(b, a),
{
    lemma_lt_total(a.0, b.0);
    lemma_lt_total(a.1, b.1);
    lemma_lt_total(a.2, b.2);
}

proof fn lemma_key_lt_trans(a: EdgeKey, b: EdgeKey, c: EdgeKey)
    requires
        key_lt(a, b),
        key_lt(b, c),
    ensures
        key_lt(a, c),
{
    if seq_lt(a.0, b.0) && seq_lt(b.0, c.0) {
        lemma_lt_transitive(a.0, b.0, c.0);
    }
    if a.0 == b.0 && b.0 == c.0 {
        if seq_lt(a.1, b.1) && seq_lt(b.1, c.1) {
            lemma_lt_transitive(a.1, b.1, c.1);
        }
        if a.1 == b.1 && b.1 == c.1 && seq_lt(a.2, b.2) && seq_lt(b.2, c.2) {
            lemma_lt_transitive(a.2, b.2, c.2);
        }
    }
}

proof fn lemma_key_lt_le(a: EdgeKey, b: EdgeKey, c: EdgeKey)
    requires
        key_lt(a, b),
        key_le(b, c),
    ensures
        key_lt(a, c),
{
    if b != c {
        lemma_key_lt_trans(a, b, c);
    }
}

fn key_less(a: &Edge, b: &Edge) -> (r: bool)
    ensures
        r == key_lt(a.key(), b.key()),
{
    let a0 = chars_of(a.schema_id.as_str());
    let b0 = chars_of(b.schema_id.as_str());
    if lex_lt(a0.as_slice(), b0.as_slice()) {
        return true;
    }
    if !chars_eq(a0.as_slice(), b0.as_slice()) {
        return false;
    }
    let a1 = chars_of(a.consumer.as_str());
    let b1 = chars_of(b.consumer.as_str());
    if lex_lt(a1.as_slice(), b1.as_slice()) {
        return true;
    }
    if !chars_eq(a1.as_slice(), b1.as_slice()) {
        return false;
    }
    let a2 = chars_of(a.producer.as_str());
    let b2 = chars_of(b.producer.as_str());
    lex_lt(a2.as_slice(), b2.as_slice())
}

pub open spec fn keys_of(s: Seq<Edge>) -> Seq<EdgeKey> {
    s.map_values(|e: Edge| e.key())
}

fn sort_edges(raw: Vec<Edge>) -> (r: Vec<Edge>)
    ensures
        sorted_keys(keys_of(r@)),
        keys_of(r@).to_multiset() == keys_of(raw@).to_multiset(),
{
    let mut r: Vec<Edge> = Vec::new();
    let mut i: usize = 0;
    while i < raw.len()
        invariant
            i <= raw@.len(),
            sorted_keys(keys_of(r@)),
            keys_of(r@).to_multiset() == keys_of(raw@.take(i as int)).to_multiset(),
        decreases raw@.len() - i,
    {
        let x = Edge {
            consumer: raw[i].consumer.clone(),
            producer: raw[i].producer.clone(),
            schema_id: raw[i].schema_id.clone(),
        };
        let mut p: usize = 0;
        while p < r.len() && !key_less(&x, &r[p])
            invariant
                p <= r@.len(),
                forall|j: int| 0 <= j < p ==> !key_lt(x.key(), (#[trigger] r@[j]).key()),
            decreases r@.len() - p,
        {
            p = p + 1;
        }
        let ghost rk = keys_of(r@);
        let ghost xk = x.key();
        proof {
            assert(keys_of(raw@.take(i + 1)) =~= keys_of(raw@.take(i as int)).push(xk));
        }
        r.insert(p, x);
        proof {
            let nk = keys_of(r@);
            assert(nk =~= rk.insert(p as int, xk));
            assert forall|a: int, b: int| 0 <= a < b < nk.len() implies key_le(nk[a], nk[b]) by {
                if b == p {
                    assert(rk[a] == nk[a]);
                    assert(!key_lt(xk, rk[a]));
                    lemma_key_total(xk, rk[a]);
                } else if a == p {
                    assert(nk[b] == rk[b - 1]);
                    if b - 1 > p {
                        assert(key_le(rk[p as int], rk[b - 1]));
                        lemma_key_lt_le(xk, rk[p as int], rk[b - 1]);
                    }
                } else if a < p && b > p {
                    assert(nk[b] == rk[b - 1]);
                    assert(nk[a] == rk[a]);
                } else if a > p {
                    assert(nk[b] == rk[b - 1]);
                    assert(nk[a] == rk[a - 1]);
                } else {
                    assert(nk[b] == rk[b]);
                    assert(nk[a] == rk[a]);
                }
            }
        }
        i = i + 1;
    }
    assert(raw@.take(raw@.len() as int) =~= raw@);
    r
}

fn producers_of(contracts: &[Contract], schema: &str) -> (ps: Vec<String>)
    ensures
        ps@.map_values(|p: String| p@) == producers_for(contracts@, schema@),
{
    let mut ps: Vec<String> = Vec::new();
    let mut j: usize = 0;
    while j < contracts.len()
        invariant
            j <= contracts@.len(),
            ps@.map_values(|p: String| p@) == producers_for(contracts@.take(j as int), schema@),
        decreases contracts@.len() - j,
    {
        assert(contracts@.take(j + 1).drop_last() =~= contracts@.take(j as int));
        let c = &contracts[j];
        if c.role == ContractRole::Produce && str_eq(c.schema_id.as_str(), schema) {
            ps.push(c.schedule_id.clone());
        }
        assert(ps@.map_values(|p: String| p@) =~= producers_for(contracts@.take(j + 1), schema@));
        j = j + 1;
    }
    assert(contracts@.take(contracts@.len() as int) =~= contracts@);
    ps
}

/// The producer <-> consumer edges of a set of contracts: every consuming
/// contract is connected to every producing contract of the same schema,
/// sorted by `(schema_id, consumer, producer)`. Schedules are context only.
pub fn derive_edges(schedules: &[Schedule], contracts: &[Contract]) -> (edges: Vec<Edge>)
    ensures
        sorted_keys(keys_of(edges@)),
        keys_of(edges@).to_multiset() == raw_edges(contracts@, contracts@).to_multiset(),
        forall|k: EdgeKey|
            #[trigger] keys_of(edges@).contains(k) <==> exists|i: int, j: int|
                0 <= i < contracts@.len() && 0 <= j < contracts@.len() && pair_edge(
                    #[trigger] contracts@[i],
                    #[trigger] contracts@[j],
                    k,
                ),
{
    let mut raw: Vec<Edge> = Vec::new();
    let mut i: usize = 0;
    while i < contracts.len()
        invariant
            i <= contracts@.len(),
            keys_of(raw@) == raw_edges(contracts@.take(i as int), contracts@),
        decreases contracts@.len() - i,
    {
        let c = &contracts[i];
        assert(contracts@.take(i + 1).drop_last() =~= contracts@.take(i as int));
        if c.role == ContractRole::Consume {
            let ps = producers_of(contracts, c.schema_id.as_str());
            let ghost pv = producers_for(contracts@, c.schema_id@);
            let ghost base = keys_of(raw@);
            let mut k: usize = 0;
            while k < ps.len()
                invariant
                    k <= ps@.len(),
                    ps@.map_values(|p: String| p@) == pv,
                    keys_of(raw@) == base + pv.take(k as int).map_values(|p: Seq<char>| (c.schema_id@, c.schedule_id@, p)),
                decreases ps@.len() - k,
            {
                let ghost old_raw = raw@;
                let e = Edge { consumer: c.schedule_id.clone(), producer: ps[k].clone(), schema_id: c.schema_id.clone() };
                raw.push(e);
                assert(pv[k as int] == ps@[k as int]@);
                assert(raw@ == old_raw.push(e));
                assert(keys_of(raw@) =~= keys_of(old_raw).push(e.key()));
                assert(pv.take(k + 1) =~= pv.take(k as int).push(pv[k as int]));
                assert(pv.take(k + 1).map_values(|p: Seq<char>| (c.schema_id@, c.schedule_id@, p)) =~= pv.take(k as int).map_values(|p: Seq<char>| (c.schema_id@, c.schedule_id@, p)).push((c.schema_id@, c.schedule_id@, pv[k as int])));
                assert(keys_of(raw@) =~= base + pv.take(k + 1).map_values(|p: Seq<char>| (c.schema_id@, c.schedule_id@, p)));
                k = k + 1;
            }
            assert(pv.take(ps@.len() as int) =~= pv);
        }
        assert(keys_of(raw@) =~= raw_edges(contracts@.take(i + 1), contracts@));
        i = i + 1;
    }
    assert(contracts@.take(contracts@.len() as int) =~= contracts@);
    let edges = sort_edges(raw);
    proof {
        assert forall|k: EdgeKey| #[trigger] keys_of(edges@).contains(k) <==> raw_edges(contracts@, contracts@).contains(k) by {
            assert(keys_of(edges@).to_multiset().count(k) == raw_edges(contracts@, contracts@).to_multiset().count(k));
        }
        assert forall|k: EdgeKey| #[trigger] keys_of(edges@).contains(k) <==> exists|i: int, j: int|
            0 <= i < contracts@.len() && 0 <= j < contracts@.len() && pair_edge(
                #[trigger] contracts@[i],
                #[trigger] contracts@[j],
                k,
            ) by {
            derive_edges_law(contracts@, k);
        }
    }
    edges
}

/// Contract `p` produces `schema` and is scheduled as `pid`.
pub open spec fn produces(p: Contract, schema: Seq<char>, pid: Seq<char>) -> bool {
    p.role == ContractRole::Produce && p.schema_id@ == schema && p.schedule_id@ == pid
}

/// `k` is the edge from consuming contract `c` to producing contract `p` of
/// the same schema.
pub open spec fn pair_edge(c: Contract, p: Contract, k: EdgeKey) -> bool {
    &&& c.role == ContractRole::Consume
    &&& p.role == ContractRole::Produce
    &&& c.schema_id@ == p.schema_id@
    &&& k == (c.schema_id@, c.schedule_id@, p.schedule_id@)
}

proof fn lemma_producers_for(all: Seq<Contract>, schema: Seq<char>, pid: Seq<char>)
    ensures
        producers_for(all, schema).contains(pid) <==> exists|j: int|
            0 <= j < all.len() && produces(#[trigger] all[j], schema, pid),
    decreases all.len(),
{
    if all.len() > 0 {
        let rest = all.drop_last();
        lemma_producers_for(rest, schema, pid);
        let prev = producers_for(rest, schema);
        if producers_for(all, schema).contains(pid) {
            if prev.contains(pid) {
                let j = choose|j: int| 0 <= j < rest.len() && produces(#[trigger] rest[j], schema, pid);
                assert(all[j] == rest[j]);
            } else {
                let k = choose|k: int| 0 <= k < producers_for(all, schema).len() && producers_for(all, schema)[k] == pid;
                assert(k == prev.len());
                assert(produces(all[all.len() - 1], schema, pid));
            }
        }
        if exists|j: int| 0 <= j < all.len() && produces(#[trigger] all[j], schema, pid) {
            let j = choose|j: int| 0 <= j < all.len() && produces(#[trigger] all[j], schema, pid);
            if j < rest.len() {
                assert(rest[j] == all[j]);
                let k = choose|k: int| 0 <= k < prev.len() && prev[k] == pid;
                assert(producers_for(all, schema)[k] == pid);
            } else {
                assert(producers_for(all, schema) == prev.push(pid));
                assert(producers_for(all, schema)[prev.len() as int] == pid);
            }
        }
    }
}

proof fn lemma_raw_edges(consumers: Seq<Contract>, all: Seq<Contract>, k: EdgeKey)
    ensures
        raw_edges(consumers, all).contains(k) <==> exists|i: int, j: int|
            0 <= i < consumers.len() && 0 <= j < all.len() && pair_edge(
                #[trigger] consumers[i],
                #[trigger] all[j],
                k,
            ),
    decreases consumers.len(),
{
    if consumers.len() > 0 {
        let rest = consumers.drop_last();
        let c = consumers.last();
        lemma_raw_edges(rest, all, k);
        let prev = raw_edges(rest, all);
        let ps = producers_for(all, c.schema_id@);
        let f = |p: Seq<char>| (c.schema_id@, c.schedule_id@, p);
        let cur = raw_edges(consumers, all);
        if cur.contains(k) {
            let n = choose|n: int| 0 <= n < cur.len() && cur[n] == k;
            if n < prev.len() {
                assert(cur[n] == prev[n]);
                let (i, j) = choose|i: int, j: int|
                    0 <= i < rest.len() && 0 <= j < all.len() && pair_edge(#[trigger] rest[i], #[trigger] all[j], k);
                assert(consumers[i] == rest[i]);
            } else {
                assert(c.role == ContractRole::Consume);
                let m = n - prev.len();
                assert(cur[n] == ps.map_values(f)[m]);
                lemma_producers_for(all, c.schema_id@, ps[m]);
                assert(ps.contains(ps[m]));
                let j = choose|j: int| 0 <= j < all.len() && produces(#[trigger] all[j], c.schema_id@, ps[m]);
                assert(pair_edge(consumers[consumers.len() - 1], all[j], k));
            }
        }
        if exists|i: int, j: int|
            0 <= i < consumers.len() && 0 <= j < all.len() && pair_edge(#[trigger] consumers[i], #[trigger] all[j], k) {
            let (i, j) = choose|i: int, j: int|
                0 <= i < consumers.len() && 0 <= j < all.len() && pair_edge(#[trigger] consumers[i], #[trigger] all[j], k);
            if i < rest.len() {
                assert(rest[i] == consumers[i]);
                assert(pair_edge(rest[i], all[j], k));
                let n = choose|n: int| 0 <= n < prev.len() && prev[n] == k;
                assert(cur[n] == k);
            } else {
                assert(produces(all[j], c.schema_id@, k.2));
                lemma_producers_for(all, c.schema_id@, k.2);
                let m = choose|m: int| 0 <= m < ps.len() && ps[m] == k.2;
                assert(cur == prev + ps.map_values(f));
                assert(cur[prev.len() + m] == f(ps[m]));
                assert(cur[prev.len() + m] == k);
            }
        }
    }
}

/// The edges are exactly the consumer/producer pairs: an edge
/// `(schema, consumer, producer)` is derived if and only if some consuming
/// contract of `consumer` and some producing contract of `producer` share
/// `schema`. (`derive_edges` returns these edges sorted, each as often as
/// its pairs occur, and reads no schedule.)
pub proof fn derive_edges_law(contracts: Seq<Contract>, k: EdgeKey)
    ensures
        raw_edges(contracts, contracts).contains(k) <==> exists|i: int, j: int|
            0 <= i < contracts.len() && 0 <= j < contracts.len() && pair_edge(
                #[trigger] contracts[i],
                #[trigger] contracts[j],
                k,
            ),
{
    lemma_raw_edges(contracts, contracts, k);
}

proof fn lemma_key_le_antisym(a: EdgeKey, b: EdgeKey)
    requires
        key_le(a, b),
        key_le(b, a),
    ensures
        a == b,
{
    if a != b {
        lemma_key_lt_trans(a, b, a);
        lemma_lt_irreflexive(a.0);
        lemma_lt_irreflexive(a.1);
        lemma_lt_irreflexive(a.2);
    }
}

proof fn lemma_sorted_prefix(s: Seq<EdgeKey>)
    requires
        s.len() > 0,
        sorted_keys(s),
    ensures
        sorted_keys(s.drop_last()),
{
    assert forall|i: int, j: int| 0 <= i < j < s.drop_last().len() implies key_le(s.drop_last()[i], s.drop_last()[j]) by {
        assert(s.drop_last()[i] == s[i] && s.drop_last()[j] == s[j]);
    }
}

/// Two sorted edge lists holding the same edges, each as often, are the
/// same list.
pub proof fn lemma_sorted_unique(a: Seq<EdgeKey>, b: Seq<EdgeKey>)
    requires
        sorted_keys(a),
        sorted_keys(b),
        a.to_multiset() == b.to_multiset(),
    ensures
        a == b,
    decreases a.len(),
{
    a.to_multiset_ensures();
    b.to_multiset_ensures();
    assert(a.len() == b.len());
    if a.len() > 0 {
        let x = a.last();
        let y = b.last();
        assert(a.to_multiset().count(x) > 0);
        assert(b.contains(x));
        let j = choose|j: int| 0 <= j < b.len() && b[j] == x;
        if j < b.len() - 1 {
            assert(key_le(b[j], b[b.len() - 1]));
        }
        assert(key_le(x, y));
        assert(b.to_multiset().count(y) > 0);
        assert(a.contains(y));
        let i = choose|i: int| 0 <= i < a.len() && a[i] == y;
        if i < a.len() - 1 {
            assert(key_le(a[i], a[a.len() - 1]));
        }
        assert(key_le(y, x));
        lemma_key_le_antisym(x, y);
        let ar = a.drop_last();
        let br = b.drop_last();
        assert(a =~= ar.push(x));
        assert(b =~= br.push(x));
        ar.to_multiset_ensures();
        br.to_multiset_ensures();
        assert(ar.push(x).to_multiset() =~= ar.to_multiset().insert(x));
        assert(br.push(x).to_multiset() =~= br.to_multiset().insert(x));
        assert(ar.to_multiset() =~= br.to_multiset()) by {
            assert forall|k: EdgeKey| ar.to_multiset().count(k) == br.to_multiset().count(k) by {
                assert(a.to_multiset() == ar.to_multiset().insert(x));
                assert(b.to_multiset() == br.to_multiset().insert(x));
                assert(a.to_multiset().count(k) == b.to_multiset().count(k));
                if k == x {
                    vstd::multiset::lemma_insert_increases_count_by_1(ar.to_multiset(), x);
                    vstd::multiset::lemma_insert_increases_count_by_1(br.to_multiset(), x);
                } else {
                    vstd::multiset::lemma_insert_other_elements_unchanged(ar.to_multiset(), x, k);
                    vstd::multiset::lemma_insert_other_elements_unchanged(br.to_multiset(), x, k);
                }
            }
        }
        lemma_sorted_prefix(a);
        lemma_sorted_prefix(b);
        lemma_sorted_unique(ar, br);
    } else {
        assert(a =~= b);
    }
}

/// The edges are determined by the contracts alone: any two results of
/// `derive_edges` on the same contracts (whatever schedules are passed)
/// are the same sorted list.
pub proof fn derive_edges_unique(contracts: Seq<Contract>, e1: Seq<EdgeKey>, e2: Seq<EdgeKey>)
    requires
        sorted_keys(e1),
        e1.to_multiset() == raw_edges(contracts, contracts).to_multiset(),
        sorted_keys(e2),
        e2.to_multiset() == raw_edges(contracts, contracts).to_multiset(),
    ensures
        e1 == e2,
{
    lemma_sorted_unique(e1, e2);
}

} // verus!
