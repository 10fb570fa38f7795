//! In-memory Almanac state: the schedules, runs, contracts, manifests,
//! calendars and agents Almanac has observed, keyed by community.
//!
//! Schedules are keyed by `(community_id, schedule_id)` and runs by
//! `schedule_id` (the latest run of a schedule wins); agents are keyed by
//! `(community_id, agent_id)`. Contracts and calendars accumulate.

use vstd::prelude::*;
use crate::ical::feed::lookup;
use crate::lineage::store::InMemoryManifestStore;
use crate::model::{Agent, Calendar, Contract, Manifest, Run, Schedule};
use crate::text::{chars_of, lemma_lt_irreflexive, lemma_lt_total, lemma_lt_transitive, lex_lt, seq_lt, str_eq};

verus! {

broadcast use vstd::string::group_string_axioms;

// ---------------------------------------------------------------------------
// Keyed lists
// ---------------------------------------------------------------------------

/// Two schedules share a key: the same community and the same id.
pub open spec fn same_schedule_key(a: Schedule, b: Schedule) -> bool {
    a.community_id@ == b.community_id@ && a.schedule_id@ == b.schedule_id@
}

/// No two schedules share a key.
pub open spec fn schedule_keys_distinct(ss: Seq<Schedule>) -> bool {
    forall|i: int, j: int| 0 <= i < j < ss.len() ==> !same_schedule_key(#[trigger] ss[i], #[trigger] ss[j])
}

/// Whether `s` wins over `t`, a schedule of the same key, under
/// last-write-wins: it was updated no earlier.
pub open spec fn supersedes(s: Schedule, t: Schedule) -> bool {
    s.updated_at >= t.updated_at
}

/// `ss` with `s` in place of the schedule of the same key where `s` was
/// updated no earlier than it (last write wins by `updated_at`), or `s`
/// appended where there is none.
pub open spec fn upsert_schedule_spec(ss: Seq<Schedule>, s: Schedule) -> Seq<Schedule> {
    if exists|i: int| 0 <= i < ss.len() && same_schedule_key(#[trigger] ss[i], s) {
        Seq::new(
            ss.len(),
            |i: int| if same_schedule_key(ss[i], s) && supersedes(s, ss[i]) { s } else { ss[i] },
        )
    } else {
        ss.push(s)
    }
}

/// No two runs belong to the same schedule.
pub open spec fn run_keys_distinct(rs: Seq<Run>) -> bool {
    forall|i: int, j: int| 0 <= i < j < rs.len() ==> (#[trigger] rs[i]).schedule_id@ != (#[trigger] rs[j]).schedule_id@
}

/// `rs` with `r` in place of the run of the same schedule, or `r` appended.
pub open spec fn upsert_run_spec(rs: Seq<Run>, r: Run) -> Seq<Run> {
    if exists|i: int| 0 <= i < rs.len() && (#[trigger] rs[i]).schedule_id@ == r.schedule_id@ {
        Seq::new(rs.len(), |i: int| if rs[i].schedule_id@ == r.schedule_id@ { r } else { rs[i] })
    } else {
        rs.push(r)
    }
}

/// The run of schedule `sid`, if any (the first, and with distinct keys the
/// only one).
pub open spec fn run_of(rs: Seq<Run>, sid: Seq<char>) -> Option<Run>
    decreases rs.len(),
{
    if rs.len() == 0 {
        None
    } else if rs[0].schedule_id@ == sid {
        Some(rs[0])
    } else {
        run_of(rs.drop_first(), sid)
    }
}

/// Two agents share a key: the same community and the same id.
pub open spec fn same_agent_key(a: Agent, b: Agent) -> bool {
    a.community_id@ == b.community_id@ && a.agent_id@ == b.agent_id@
}

/// No two agents share a key.
pub open spec fn agent_keys_distinct(s: Seq<Agent>) -> bool {
    forall|i: int, j: int| 0 <= i < j < s.len() ==> !same_agent_key(#[trigger] s[i], #[trigger] s[j])
}

/// `s` with `a` in place of the agent of the same key, or `a` appended.
pub open spec fn upsert_agent_spec(s: Seq<Agent>, a: Agent) -> Seq<Agent> {
    if exists|i: int| 0 <= i < s.len() && same_agent_key(#[trigger] s[i], a) {
        Seq::new(s.len(), |i: int| if same_agent_key(s[i], a) { a } else { s[i] })
    } else {
        s.push(a)
    }
}

/// The agents of community `c`, in registration order.
pub open spec fn agents_in(s: Seq<Agent>, c: Seq<char>) -> Seq<Agent>
    decreases s.len(),
{
    if s.len() == 0 {
        seq![]
    } else if s.last().community_id@ == c {
        agents_in(s.drop_last(), c).push(s.last())
    } else {
        agents_in(s.drop_last(), c)
    }
}

/// The contracts of community `c`, in the order they were added.
pub open spec fn contracts_in(log: Seq<(String, Contract)>, c: Seq<char>) -> Seq<Contract>
    decreases log.len(),
{
    if log.len() == 0 {
        seq![]
    } else if log.last().0@ == c {
        contracts_in(log.drop_last(), c).push(log.last().1)
    } else {
        contracts_in(log.drop_last(), c)
    }
}

/// The calendars of community `c`, in the order they were added.
pub open spec fn calendars_in(log: Seq<Calendar>, c: Seq<char>) -> Seq<Calendar>
    decreases log.len(),
{
    if log.len() == 0 {
        seq![]
    } else if log.last().community_id@ == c {
        calendars_in(log.drop_last(), c).push(log.last())
    } else {
        calendars_in(log.drop_last(), c)
    }
}

/// Two calendars hold the same values.
pub open spec fn same_calendar(a: Calendar, b: Calendar) -> bool {
    &&& a.calendar_id == b.calendar_id
    &&& a.community_id == b.community_id
    &&& a.name == b.name
    &&& a.description == b.description
    &&& a.color == b.color
    &&& a.schedule_ids@ == b.schedule_ids@
}

/// Schedule ids strictly ascending.
pub open spec fn ids_ascending(ss: Seq<Schedule>) -> bool {
    forall|i: int, j: int| 0 <= i < j < ss.len() ==> seq_lt((#[trigger] ss[i]).schedule_id@, (#[trigger] ss[j]).schedule_id@)
}

/// Community `c` has a schedule with id `sid`.
pub open spec fn has_schedule(ss: Seq<Schedule>, c: Seq<char>, sid: Seq<char>) -> bool {
    exists|i: int| 0 <= i < ss.len() && (#[trigger] ss[i]).community_id@ == c && ss[i].schedule_id@ == sid
}

/// The schedules of community `c` by ascending id: the one sequence with
/// ascending ids that holds exactly the community's schedules.
pub open spec fn sorted_schedules(ss: Seq<Schedule>, c: Seq<char>) -> Seq<Schedule> {
    choose|r: Seq<Schedule>| ids_ascending(r) && forall|x: Schedule| #[trigger] r.contains(x) <==> (ss.contains(x)
        && x.community_id@ == c)
}

/// The latest run of each schedule of community `c`, keyed by schedule id,
/// in ascending id order.
pub open spec fn community_runs(ss: Seq<Schedule>, rs: Seq<Run>, c: Seq<char>) -> Seq<(String, Run)> {
    sorted_schedules(ss, c).filter_map(
        |s: Schedule| match run_of(rs, s.schedule_id@) {
            Some(r) => Some((s.schedule_id, r)),
            None => None,
        },
    )
}

/// Two sequences with ascending ids and the same elements are equal.
pub proof fn lemma_ascending_unique(a: Seq<Schedule>, b: Seq<Schedule>)
    requires
        ids_ascending(a),
        ids_ascending(b),
        forall|x: Schedule| #[trigger] a.contains(x) <==> b.contains(x),
    ensures
        a == b,
    decreases a.len(),
{
    if a.len() == 0 {
        if b.len() > 0 {
            assert(b.contains(b[0]));
            assert(a.contains(b[0]));
            assert(false);
        }
        assert(a =~= b);
    } else {
        assert(a.contains(a[0]));
        assert(b.contains(a[0]));
        let j = choose|j: int| 0 <= j < b.len() && b[j] == a[0];
        assert(b.contains(b[0]));
        assert(a.contains(b[0]));
        let k = choose|k: int| 0 <= k < a.len() && a[k] == b[0];
        if j > 0 {
            assert(seq_lt(b[0].schedule_id@, b[j].schedule_id@));
            if k > 0 {
                assert(seq_lt(a[0].schedule_id@, a[k].schedule_id@));
                lemma_lt_transitive(a[0].schedule_id@, b[0].schedule_id@, a[0].schedule_id@);
                lemma_lt_irreflexive(a[0].schedule_id@);
            } else {
                lemma_lt_irreflexive(a[0].schedule_id@);
            }
        }
        assert(b[0] == a[0]);
        let a1 = a.drop_first();
        let b1 = b.drop_first();
        assert forall|x: Schedule| #[trigger] a1.contains(x) <==> b1.contains(x) by {
            if a1.contains(x) {
                let i = choose|i: int| 0 <= i < a1.len() && a1[i] == x;
                assert(a[i + 1] == x);
                assert(seq_lt(a[0].schedule_id@, a[i + 1].schedule_id@));
                assert(a.contains(x));
                assert(b.contains(x));
                let m = choose|m: int| 0 <= m < b.len() && b[m] == x;
                if m == 0 {
                    lemma_lt_irreflexive(a[0].schedule_id@);
                }
                assert(b1[m - 1] == x);
            }
            if b1.contains(x) {
                let i = choose|i: int| 0 <= i < b1.len() && b1[i] == x;
                assert(b[i + 1] == x);
                assert(seq_lt(b[0].schedule_id@, b[i + 1].schedule_id@));
                assert(b.contains(x));
                assert(a.contains(x));
                let m = choose|m: int| 0 <= m < a.len() && a[m] == x;
                if m == 0 {
                    lemma_lt_irreflexive(b[0].schedule_id@);
                }
                assert(a1[m - 1] == x);
            }
        }
        lemma_ascending_unique(a1, b1);
        assert(a =~= b) by {
            assert forall|i: int| 0 <= i < a.len() implies a[i] == b[i] by {
                if i > 0 {
                    assert(a[i] == a1[i - 1]);
                    assert(b[i] == b1[i - 1]);
                }
            }
        }
    }
}

// ---------------------------------------------------------------------------
// Laws of the keyed lists
// ---------------------------------------------------------------------------

/// Upserting a schedule keeps keys distinct; under its key it keeps the
/// newer of the stored and the new schedule by `updated_at` (the new one on
/// a tie), adds it where the key is new, and leaves every other schedule
/// as it was.
pub proof fn upsert_schedule_law(ss: Seq<Schedule>, s: Schedule)
    requires
        schedule_keys_distinct(ss),
    ensures
        schedule_keys_distinct(upsert_schedule_spec(ss, s)),
        forall|i: int|
            0 <= i < ss.len() && same_schedule_key(#[trigger] ss[i], s) ==> {
                &&& upsert_schedule_spec(ss, s).len() == ss.len()
                &&& s.updated_at >= ss[i].updated_at ==> upsert_schedule_spec(ss, s)[i] == s
                &&& s.updated_at < ss[i].updated_at ==> upsert_schedule_spec(ss, s)[i] == ss[i]
            },
        (forall|i: int| 0 <= i < ss.len() ==> !same_schedule_key(#[trigger] ss[i], s))
            ==> upsert_schedule_spec(ss, s) == ss.push(s),
        forall|x: Schedule|
            upsert_schedule_spec(ss, s).contains(x) && same_schedule_key(x, s) ==> (x == s || ss.contains(x)),
        forall|x: Schedule|
            !same_schedule_key(x, s) ==> (upsert_schedule_spec(ss, s).contains(x) <==> ss.contains(x)),
{
    let u = upsert_schedule_spec(ss, s);
    if exists|i: int| 0 <= i < ss.len() && same_schedule_key(#[trigger] ss[i], s) {
        assert forall|x: Schedule| !same_schedule_key(x, s) implies (u.contains(x) <==> ss.contains(x)) by {
            if u.contains(x) {
                let i = choose|i: int| 0 <= i < u.len() && u[i] == x;
                assert(ss[i] == x);
            }
            if ss.contains(x) {
                let i = choose|i: int| 0 <= i < ss.len() && ss[i] == x;
                assert(u[i] == x);
            }
        }
        assert forall|x: Schedule| u.contains(x) && same_schedule_key(x, s) implies (x == s || ss.contains(x)) by {
            let i = choose|i: int| 0 <= i < u.len() && u[i] == x;
            if x != s {
                assert(ss[i] == x);
            }
        }
        assert(schedule_keys_distinct(u)) by {
            assert forall|i: int, j: int| 0 <= i < j < u.len() implies !same_schedule_key(#[trigger] u[i], #[trigger] u[j]) by {
                assert(!same_schedule_key(ss[i], ss[j]));
            }
        }
    } else {
        assert(u.last() == s);
        assert forall|x: Schedule| !same_schedule_key(x, s) implies (u.contains(x) <==> ss.contains(x)) by {
            if u.contains(x) {
                let i = choose|i: int| 0 <= i < u.len() && u[i] == x;
                assert(i < ss.len());
                assert(ss[i] == x);
            }
            if ss.contains(x) {
                let i = choose|i: int| 0 <= i < ss.len() && ss[i] == x;
                assert(u[i] == x);
            }
        }
        assert forall|x: Schedule| u.contains(x) && same_schedule_key(x, s) implies (x == s || ss.contains(x)) by {
            let i = choose|i: int| 0 <= i < u.len() && u[i] == x;
            if i < ss.len() {
                assert(ss[i] == x);
            }
        }
    }
}

/// Upserting a run makes it the run of its schedule and leaves the runs of
/// every other schedule as they were (the latest run wins).
pub proof fn upsert_run_law(rs: Seq<Run>, r: Run)
    requires
        run_keys_distinct(rs),
    ensures
        run_keys_distinct(upsert_run_spec(rs, r)),
        run_of(upsert_run_spec(rs, r), r.schedule_id@) == Some(r),
        forall|k: Seq<char>| k != r.schedule_id@ ==> run_of(upsert_run_spec(rs, r), k) == run_of(rs, k),
{
    let u = upsert_run_spec(rs, r);
    assert(run_keys_distinct(u));
    lemma_run_of_distinct(u, r.schedule_id@);
    if exists|i: int| 0 <= i < rs.len() && (#[trigger] rs[i]).schedule_id@ == r.schedule_id@ {
        let k = choose|i: int| 0 <= i < rs.len() && (#[trigger] rs[i]).schedule_id@ == r.schedule_id@;
        assert(u[k] == r);
    } else {
        assert(u[rs.len() as int] == r);
    }
    assert forall|k: Seq<char>| k != r.schedule_id@ implies run_of(u, k) == run_of(rs, k) by {
        lemma_run_of_distinct(u, k);
        lemma_run_of_distinct(rs, k);
        if exists|i: int| 0 <= i < rs.len() && (#[trigger] rs[i]).schedule_id@ == k {
            let i = choose|i: int| 0 <= i < rs.len() && (#[trigger] rs[i]).schedule_id@ == k;
            assert(u[i] == rs[i]);
        }
        if exists|i: int| 0 <= i < u.len() && (#[trigger] u[i]).schedule_id@ == k {
            let i = choose|i: int| 0 <= i < u.len() && (#[trigger] u[i]).schedule_id@ == k;
            assert(i < rs.len() && u[i] == rs[i]);
        }
    }
}

/// With distinct keys, the run of `sid` is the one entry with that key.
pub proof fn lemma_run_of_distinct(rs: Seq<Run>, sid: Seq<char>)
    requires
        run_keys_distinct(rs),
    ensures
        (exists|i: int| 0 <= i < rs.len() && (#[trigger] rs[i]).schedule_id@ == sid) ==> {
            let i = choose|i: int| 0 <= i < rs.len() && (#[trigger] rs[i]).schedule_id@ == sid;
            run_of(rs, sid) == Some(rs[i])
        },
        !(exists|i: int| 0 <= i < rs.len() && (#[trigger] rs[i]).schedule_id@ == sid) ==> run_of(rs, sid) is None,
    decreases rs.len(),
{
    if rs.len() > 0 {
        let t = rs.drop_first();
        assert(run_keys_distinct(t)) by {
            assert forall|i: int, j: int| 0 <= i < j < t.len() implies (#[trigger] t[i]).schedule_id@ != (#[trigger] t[j]).schedule_id@ by {
                assert(t[i] == rs[i + 1] && t[j] == rs[j + 1]);
            }
        }
        lemma_run_of_distinct(t, sid);
        if exists|i: int| 0 <= i < rs.len() && (#[trigger] rs[i]).schedule_id@ == sid {
            let i = choose|i: int| 0 <= i < rs.len() && (#[trigger] rs[i]).schedule_id@ == sid;
            if i > 0 {
                assert(t[i - 1] == rs[i]);
                assert(rs[0].schedule_id@ != sid);
                let j = choose|j: int| 0 <= j < t.len() && (#[trigger] t[j]).schedule_id@ == sid;
                assert(t[j] == rs[j + 1]);
                if j != i - 1 {
                    assert(rs[j + 1].schedule_id@ != rs[i].schedule_id@);
                }
            }
        } else {
            assert(rs[0].schedule_id@ != sid);
            assert forall|j: int| 0 <= j < t.len() implies (#[trigger] t[j]).schedule_id@ != sid by {
                assert(t[j] == rs[j + 1]);
            }
        }
    }
}

/// `lookup` on an association list with one more entry.
pub proof fn lemma_lookup_push<V>(m: Seq<(String, V)>, e: (String, V), k: Seq<char>)
    ensures
        lookup(m.push(e), k) == match lookup(m, k) {
            Some(v) => Some(v),
            None => if e.0@ == k {
                Some(e.1)
            } else {
                None
            },
        },
    decreases m.len(),
{
    if m.len() > 0 {
        assert(m.push(e)[0] == m[0]);
        assert(m.push(e).drop_first() =~= m.drop_first().push(e));
        lemma_lookup_push(m.drop_first(), e, k);
    } else {
        assert(m.push(e)[0] == e);
        assert(m.push(e).drop_first() =~= m);
    }
}

// ---------------------------------------------------------------------------
// The state
// ---------------------------------------------------------------------------

/// The full Almanac state.
pub struct State {
    schedules: Vec<Schedule>,
    runs: Vec<Run>,
    contracts: Vec<(String, Contract)>,
    calendars: Vec<Calendar>,
    agents: Vec<Agent>,
    manifests: InMemoryManifestStore,
    default_community: String,
}

impl State {
    /// Schedule, run and agent keys are distinct.
    #[verifier::type_invariant]
    closed spec fn inv(&self) -> bool {
        &&& schedule_keys_distinct(self.schedules@)
        &&& run_keys_distinct(self.runs@)
        &&& agent_keys_distinct(self.agents@)
    }

    /// Every schedule held, in no particular order.
    pub closed spec fn schedule_list(&self) -> Seq<Schedule> {
        self.schedules@
    }

    /// Every latest run held, one per schedule.
    pub closed spec fn run_list(&self) -> Seq<Run> {
        self.runs@
    }

    /// Every contract added, with its community, in order.
    pub closed spec fn contract_log(&self) -> Seq<(String, Contract)> {
        self.contracts@
    }

    /// Every calendar added, in order.
    pub closed spec fn calendar_log(&self) -> Seq<Calendar> {
        self.calendars@
    }

    /// Every agent registered, in registration order.
    pub closed spec fn agent_list(&self) -> Seq<Agent> {
        self.agents@
    }

    /// The manifest store shared with the lineage engine.
    pub closed spec fn store(&self) -> InMemoryManifestStore {
        self.manifests
    }

    /// The community served when none is named.
    pub closed spec fn default_community_spec(&self) -> Seq<char> {
        self.default_community@
    }

    /// An empty state serving `community` by default.
    pub fn with_default_community(community: String) -> (s: Self)
        ensures
            s.schedule_list().len() == 0,
            s.run_list().len() == 0,
            s.contract_log().len() == 0,
            s.calendar_log().len() == 0,
            s.agent_list().len() == 0,
            forall|k: Seq<char>| #[trigger] s.store().manifests_for(k) == Seq::<Manifest>::empty(),
            s.default_community_spec() == community@,
    {
        State {
            schedules: Vec::new(),
            runs: Vec::new(),
            contracts: Vec::new(),
            calendars: Vec::new(),
            agents: Vec::new(),
            manifests: InMemoryManifestStore::new(),
            default_community: community,
        }
    }

    /// An empty state serving the `demo` community by default.
    pub fn new() -> (s: Self)
        ensures
            s.schedule_list().len() == 0,
            s.run_list().len() == 0,
            s.contract_log().len() == 0,
            s.calendar_log().len() == 0,
            s.agent_list().len() == 0,
            forall|k: Seq<char>| #[trigger] s.store().manifests_for(k) == Seq::<Manifest>::empty(),
            s.default_community_spec() == "demo"@,
    {
        State::with_default_community("demo".to_owned())
    }

    /// The community served when none is named.
    pub fn default_community(&self) -> (c: String)
        ensures
            c@ == self.default_community_spec(),
    {
        self.default_community.clone()
    }

    /// The manifest store shared with the lineage engine.
    pub fn manifest_store(&self) -> (m: &InMemoryManifestStore)
        ensures
            *m == self.store(),
    {
        &self.manifests
    }

    /// Insert or update a schedule, keyed by community and id: last write
    /// wins by `updated_at`, so an older write does not replace a newer one.
    pub fn upsert_schedule(&mut self, schedule: Schedule)
        ensures
            final(self).schedule_list() == upsert_schedule_spec(old(self).schedule_list(), schedule),
            final(self).run_list() == old(self).run_list(),
            final(self).contract_log() == old(self).contract_log(),
            final(self).calendar_log() == old(self).calendar_log(),
            final(self).agent_list() == old(self).agent_list(),
            final(self).store() == old(self).store(),
            final(self).default_community_spec() == old(self).default_community_spec(),
    {
        proof {
            use_type_invariant(&*self);
            upsert_schedule_law(self.schedules@, schedule);
        }
        let mut list: Vec<Schedule> = Vec::new();
        std::mem::swap(&mut list, &mut self.schedules);
        let ghost before = list@;
        let mut found = false;
        let mut i: usize = 0;
        while i < list.len()
            invariant
                i <= list@.len(),
                list@.len() == before.len(),
                found == exists|j: int| 0 <= j < i && same_schedule_key(#[trigger] before[j], schedule),
                forall|j: int| 0 <= j < i ==> #[trigger] list@[j] == (if same_schedule_key(before[j], schedule) && supersedes(schedule, before[j]) { schedule } else { before[j] }),
                forall|j: int| i <= j < list@.len() ==> #[trigger] list@[j] == before[j],
            decreases list@.len() - i,
        {
            if str_eq(list[i].community_id.as_str(), schedule.community_id.as_str())
                && str_eq(list[i].schedule_id.as_str(), schedule.schedule_id.as_str()) {
                if schedule.updated_at >= list[i].updated_at {
                    list.set(i, schedule.duplicate());
                }
                found = true;
            }
            i = i + 1;
        }
        if !found {
            list.push(schedule);
        }
        proof {
            if found {
                assert(list@ =~= upsert_schedule_spec(before, schedule));
            } else {
                assert(list@ =~= upsert_schedule_spec(before, schedule));
            }
        }
        self.schedules = list;
    }

    /// Insert or replace a run: the latest run of a schedule wins.
    pub fn upsert_run(&mut self, run: Run)
        ensures
            final(self).run_list() == upsert_run_spec(old(self).run_list(), run),
            final(self).schedule_list() == old(self).schedule_list(),
            final(self).contract_log() == old(self).contract_log(),
            final(self).calendar_log() == old(self).calendar_log(),
            final(self).agent_list() == old(self).agent_list(),
            final(self).store() == old(self).store(),
            final(self).default_community_spec() == old(self).default_community_spec(),
    {
        proof {
            use_type_invariant(&*self);
            upsert_run_law(self.runs@, run);
        }
        let mut list: Vec<Run> = Vec::new();
        std::mem::swap(&mut list, &mut self.runs);
        let ghost before = list@;
        let mut found = false;
        let mut i: usize = 0;
        while i < list.len()
            invariant
                i <= list@.len(),
                list@.len() == before.len(),
                found == exists|j: int| 0 <= j < i && (#[trigger] before[j]).schedule_id@ == run.schedule_id@,
                forall|j: int| 0 <= j < i ==> #[trigger] list@[j] == (if before[j].schedule_id@ == run.schedule_id@ { run } else { before[j] }),
                forall|j: int| i <= j < list@.len() ==> #[trigger] list@[j] == before[j],
            decreases list@.len() - i,
        {
            if str_eq(list[i].schedule_id.as_str(), run.schedule_id.as_str()) {
                list.set(i, run.duplicate());
                found = true;
            }
            i = i + 1;
        }
        if !found {
            list.push(run);
        }
        assert(list@ =~= upsert_run_spec(before, run));
        self.runs = list;
    }

    /// Insert or replace an agent, keyed by community and id.
    pub fn upsert_agent(&mut self, agent: Agent)
        ensures
            final(self).agent_list() == upsert_agent_spec(old(self).agent_list(), agent),
            final(self).schedule_list() == old(self).schedule_list(),
            final(self).run_list() == old(self).run_list(),
            final(self).contract_log() == old(self).contract_log(),
            final(self).calendar_log() == old(self).calendar_log(),
            final(self).store() == old(self).store(),
            final(self).default_community_spec() == old(self).default_community_spec(),
    {
        proof {
            use_type_invariant(&*self);
        }
        let mut list: Vec<Agent> = Vec::new();
        std::mem::swap(&mut list, &mut self.agents);
        let ghost before = list@;
        let mut found = false;
        let mut i: usize = 0;
        while i < list.len()
            invariant
                i <= list@.len(),
                list@.len() == before.len(),
                found == exists|j: int| 0 <= j < i && same_agent_key(#[trigger] before[j], agent),
                forall|j: int| 0 <= j < i ==> #[trigger] list@[j] == (if same_agent_key(before[j], agent) { agent } else { before[j] }),
                forall|j: int| i <= j < list@.len() ==> #[trigger] list@[j] == before[j],
            decreases list@.len() - i,
        {
            if str_eq(list[i].community_id.as_str(), agent.community_id.as_str())
                && str_eq(list[i].agent_id.as_str(), agent.agent_id.as_str()) {
                list.set(i, agent.duplicate());
                found = true;
            }
            i = i + 1;
        }
        if !found {
            list.push(agent);
        }
        let ghost after = list@;
        assert(after =~= upsert_agent_spec(before, agent));
        proof {
            assert forall|i: int, j: int| 0 <= i < j < after.len() implies !same_agent_key(#[trigger] after[i], #[trigger] after[j]) by {
                if !found && j == before.len() {
                    assert(after[i] == before[i]);
                }
            }
        }
        self.agents = list;
    }

    /// Add a contract to a community.
    pub fn add_contract(&mut self, community_id: &str, contract: Contract)
        ensures
            final(self).contract_log().len() == old(self).contract_log().len() + 1,
            final(self).contract_log().drop_last() == old(self).contract_log(),
            final(self).contract_log().last().0@ == community_id@,
            final(self).contract_log().last().1 == contract,
            final(self).schedule_list() == old(self).schedule_list(),
            final(self).run_list() == old(self).run_list(),
            final(self).calendar_log() == old(self).calendar_log(),
            final(self).agent_list() == old(self).agent_list(),
            final(self).store() == old(self).store(),
            final(self).default_community_spec() == old(self).default_community_spec(),
    {
        proof {
            use_type_invariant(&*self);
        }
        let ghost before = self.contracts@;
        let mut list: Vec<(String, Contract)> = Vec::new();
        std::mem::swap(&mut list, &mut self.contracts);
        list.push((community_id.to_owned(), contract));
        assert(list@.drop_last() =~= before);
        self.contracts = list;
    }

    /// Add a calendar to its community.
    pub fn add_calendar(&mut self, calendar: Calendar)
        ensures
            final(self).calendar_log() == old(self).calendar_log().push(calendar),
            final(self).schedule_list() == old(self).schedule_list(),
            final(self).run_list() == old(self).run_list(),
            final(self).contract_log() == old(self).contract_log(),
            final(self).agent_list() == old(self).agent_list(),
            final(self).store() == old(self).store(),
            final(self).default_community_spec() == old(self).default_community_spec(),
    {
        proof {
            use_type_invariant(&*self);
        }
        let mut list: Vec<Calendar> = Vec::new();
        std::mem::swap(&mut list, &mut self.calendars);
        list.push(calendar);
        self.calendars = list;
    }

    /// Record a manifest in the shared store (last write wins per id).
    pub fn put_manifest(&mut self, manifest: Manifest)
        ensures
            forall|k: Seq<char>| #[trigger] final(self).store().manifests_for(k) == (if k == manifest.schema_id@ {
                crate::lineage::store::put_bucket(old(self).store().manifests_for(k), manifest)
            } else {
                old(self).store().manifests_for(k)
            }),
            final(self).schedule_list() == old(self).schedule_list(),
            final(self).run_list() == old(self).run_list(),
            final(self).contract_log() == old(self).contract_log(),
            final(self).calendar_log() == old(self).calendar_log(),
            final(self).agent_list() == old(self).agent_list(),
            final(self).default_community_spec() == old(self).default_community_spec(),
    {
        proof {
            use_type_invariant(&*self);
        }
        let mut store = InMemoryManifestStore::new();
        std::mem::swap(&mut store, &mut self.manifests);
        store.put(manifest);
        self.manifests = store;
    }
    /// The schedules of a community, by ascending id.
    pub fn schedules_for(&self, community: &str) -> (r: Vec<Schedule>)
        ensures
            r@ == sorted_schedules(self.schedule_list(), community@),
            ids_ascending(r@),
            forall|x: Schedule| #[trigger] r@.contains(x) <==> (self.schedule_list().contains(x)
                && x.community_id@ == community@),
    {
        proof {
            use_type_invariant(self);
        }
        let ghost all = self.schedules@;
        let mut r: Vec<Schedule> = Vec::new();
        let mut i: usize = 0;
        while i < self.schedules.len()
            invariant
                i <= all.len(),
                all == self.schedules@,
                schedule_keys_distinct(all),
                ids_ascending(r@),
                forall|x: Schedule| #[trigger] r@.contains(x) <==> (all.take(i as int).contains(x)
                    && x.community_id@ == community@),
            decreases all.len() - i,
        {
            let s = &self.schedules[i];
            proof {
                let t0 = all.take(i as int);
                let t1 = all.take(i + 1);
                assert forall|x: Schedule| #[trigger] t1.contains(x) <==> (t0.contains(x) || x == all[i as int]) by {
                    if t1.contains(x) {
                        let k = choose|k: int| 0 <= k < t1.len() && t1[k] == x;
                        if k < i {
                            assert(t0[k] == x);
                        }
                    }
                    if t0.contains(x) {
                        let k = choose|k: int| 0 <= k < t0.len() && t0[k] == x;
                        assert(t1[k] == x);
                    }
                    if x == all[i as int] {
                        assert(t1[i as int] == x);
                    }
                }
            }
            if str_eq(s.community_id.as_str(), community) {
                let sid = chars_of(s.schedule_id.as_str());
                let mut p: usize = 0;
                while p < r.len() && lex_lt(chars_of(r[p].schedule_id.as_str()).as_slice(), sid.as_slice())
                    invariant
                        p <= r@.len(),
                        sid@ == s.schedule_id@,
                        forall|j: int| 0 <= j < p ==> seq_lt((#[trigger] r@[j]).schedule_id@, sid@),
                    decreases r@.len() - p,
                {
                    p = p + 1;
                }
                let ghost old_r = r@;
                let x = s.duplicate();
                proof {
                    if p < old_r.len() {
                        let y = old_r[p as int];
                        assert(old_r.contains(y));
                        let t0 = all.take(i as int);
                        let k = choose|k: int| 0 <= k < t0.len() && t0[k] == y;
                        assert(all[k] == y);
                        assert(!same_schedule_key(all[k], all[i as int]));
                        lemma_lt_total(y.schedule_id@, sid@);
                        assert(seq_lt(sid@, y.schedule_id@));
                    }
                }
                r.insert(p, x);
                proof {
                    let nr = r@;
                    assert(nr =~= old_r.insert(p as int, x));
                    assert forall|a: int, b: int| 0 <= a < b < nr.len() implies seq_lt(
                        (#[trigger] nr[a]).schedule_id@,
                        (#[trigger] nr[b]).schedule_id@,
                    ) by {
                        if b == p {
                            assert(nr[a] == old_r[a]);
                        } else if a == p {
                            assert(nr[b] == old_r[b - 1]);
                            if b - 1 > p {
                                assert(seq_lt(old_r[p as int].schedule_id@, old_r[b - 1].schedule_id@));
                                lemma_lt_transitive(sid@, old_r[p as int].schedule_id@, old_r[b - 1].schedule_id@);
                            }
                        } else if a < p && b > p {
                            assert(nr[b] == old_r[b - 1]);
                            assert(nr[a] == old_r[a]);
                            if b - 1 > p {
                                assert(seq_lt(old_r[p as int].schedule_id@, old_r[b - 1].schedule_id@));
                                lemma_lt_transitive(sid@, old_r[p as int].schedule_id@, old_r[b - 1].schedule_id@);
                            }
                            lemma_lt_transitive(old_r[a].schedule_id@, sid@, old_r[b - 1].schedule_id@);
                        } else if a > p {
                            assert(nr[b] == old_r[b - 1]);
                            assert(nr[a] == old_r[a - 1]);
                        } else {
                            assert(nr[b] == old_r[b]);
                            assert(nr[a] == old_r[a]);
                        }
                    }
                    assert forall|y: Schedule| #[trigger] nr.contains(y) <==> (old_r.contains(y) || y == x) by {
                        if nr.contains(y) {
                            let k = choose|k: int| 0 <= k < nr.len() && nr[k] == y;
                            if k < p {
                                assert(old_r[k] == y);
                            } else if k > p {
                                assert(old_r[k - 1] == y);
                            }
                        }
                        if old_r.contains(y) {
                            let k = choose|k: int| 0 <= k < old_r.len() && old_r[k] == y;
                            if k < p {
                                assert(nr[k] == y);
                            } else {
                                assert(nr[k + 1] == y);
                            }
                        }
                        if y == x {
                            assert(nr[p as int] == y);
                        }
                    }
                }
            }
            i = i + 1;
        }
        assert(all.take(all.len() as int) =~= all);
        proof {
            let c = sorted_schedules(all, community@);
            assert(ids_ascending(r@) && forall|x: Schedule| #[trigger] r@.contains(x) <==> (all.contains(x)
                && x.community_id@ == community@));
            lemma_ascending_unique(r@, c);
        }
        r
    }

    fn run_index(&self, sid: &str) -> (r: Option<usize>)
        ensures
            match r {
                Some(j) => j < self.run_list().len() && run_of(self.run_list(), sid@) == Some(self.run_list()[j as int]),
                None => run_of(self.run_list(), sid@) is None,
            },
    {
        let ghost rs = self.runs@;
        let mut i: usize = 0;
        assert(rs.skip(0) =~= rs);
        while i < self.runs.len()
            invariant
                i <= rs.len(),
                rs == self.runs@,
                run_of(rs, sid@) == run_of(rs.skip(i as int), sid@),
            decreases rs.len() - i,
        {
            if str_eq(self.runs[i].schedule_id.as_str(), sid) {
                assert(rs.skip(i as int)[0] == rs[i as int]);
                return Some(i);
            }
            assert(rs.skip(i as int).drop_first() =~= rs.skip(i + 1));
            i = i + 1;
        }
        None
    }

    /// The latest run of each schedule of a community, keyed by schedule id
    /// (in ascending id order).
    pub fn runs_for(&self, community: &str) -> (r: Vec<(String, Run)>)
        ensures
            r@ == community_runs(self.schedule_list(), self.run_list(), community@),
            forall|k: Seq<char>| #[trigger] lookup(r@, k) == (if has_schedule(self.schedule_list(), community@, k) {
                run_of(self.run_list(), k)
            } else {
                None
            }),
    {
        let ss = self.schedules_for(community);
        let mut r: Vec<(String, Run)> = Vec::new();
        let mut i: usize = 0;
        while i < ss.len()
            invariant
                i <= ss@.len(),
                ss@ == sorted_schedules(self.schedule_list(), community@),
                r@ == ss@.take(i as int).filter_map(
                    |s: Schedule| match run_of(self.run_list(), s.schedule_id@) {
                        Some(r) => Some((s.schedule_id, r)),
                        None => None,
                    },
                ),
                forall|k: Seq<char>| #[trigger] lookup(r@, k) == (if exists|j: int| 0 <= j < i && (#[trigger] ss@[j]).schedule_id@ == k {
                    run_of(self.run_list(), k)
                } else {
                    None
                }),
            decreases ss@.len() - i,
        {
            let sid = &ss[i].schedule_id;
            assert(ss@.take(i + 1).drop_last() =~= ss@.take(i as int));
            match self.run_index(sid.as_str()) {
                Some(j) => {
                    let e = (sid.clone(), self.runs[j].duplicate());
                    let ghost old_r = r@;
                    r.push(e);
                    proof {
                        assert forall|k: Seq<char>| #[trigger] lookup(r@, k) == (if exists|j: int| 0 <= j < i + 1 && (#[trigger] ss@[j]).schedule_id@ == k {
                            run_of(self.run_list(), k)
                        } else {
                            None
                        }) by {
                            lemma_lookup_push(old_r, e, k);
                            if k == ss@[i as int].schedule_id@ {
                                assert(ss@[i as int].schedule_id@ == k);
                            }
                            if exists|j: int| 0 <= j < i + 1 && (#[trigger] ss@[j]).schedule_id@ == k {
                                if !(exists|j: int| 0 <= j < i && (#[trigger] ss@[j]).schedule_id@ == k) {
                                    let j = choose|j: int| 0 <= j < i + 1 && (#[trigger] ss@[j]).schedule_id@ == k;
                                    assert(j == i);
                                }
                            }
                        }
                    }
                },
                None => {
                    proof {
                        assert forall|k: Seq<char>| #[trigger] lookup(r@, k) == (if exists|j: int| 0 <= j < i + 1 && (#[trigger] ss@[j]).schedule_id@ == k {
                            run_of(self.run_list(), k)
                        } else {
                            None
                        }) by {
                            if exists|j: int| 0 <= j < i + 1 && (#[trigger] ss@[j]).schedule_id@ == k {
                                if !(exists|j: int| 0 <= j < i && (#[trigger] ss@[j]).schedule_id@ == k) {
                                    let j = choose|j: int| 0 <= j < i + 1 && (#[trigger] ss@[j]).schedule_id@ == k;
                                    assert(j == i);
                                }
                            }
                        }
                    }
                },
            }
            i = i + 1;
        }
        assert(ss@.take(ss@.len() as int) =~= ss@);
        proof {
            assert forall|k: Seq<char>| (exists|j: int| 0 <= j < ss@.len() && (#[trigger] ss@[j]).schedule_id@ == k)
                == has_schedule(self.schedule_list(), community@, k) by {
                if exists|j: int| 0 <= j < ss@.len() && (#[trigger] ss@[j]).schedule_id@ == k {
                    let j = choose|j: int| 0 <= j < ss@.len() && (#[trigger] ss@[j]).schedule_id@ == k;
                    assert(ss@.contains(ss@[j]));
                    let l = self.schedule_list();
                    let m = choose|m: int| 0 <= m < l.len() && l[m] == ss@[j];
                    assert(l[m].community_id@ == community@ && l[m].schedule_id@ == k);
                }
                if has_schedule(self.schedule_list(), community@, k) {
                    let l = self.schedule_list();
                    let m = choose|m: int| 0 <= m < l.len() && (#[trigger] l[m]).community_id@ == community@ && l[m].schedule_id@ == k;
                    assert(l.contains(l[m]));
                    assert(ss@.contains(l[m]));
                    let j = choose|j: int| 0 <= j < ss@.len() && ss@[j] == l[m];
                    assert(ss@[j].schedule_id@ == k);
                }
            }
        }
        r
    }

    /// The contracts of a community, in the order they were added.
    pub fn contracts_for(&self, community: &str) -> (r: Vec<Contract>)
        ensures
            r@ == contracts_in(self.contract_log(), community@),
    {
        let ghost log = self.contracts@;
        let mut r: Vec<Contract> = Vec::new();
        let mut i: usize = 0;
        while i < self.contracts.len()
            invariant
                i <= log.len(),
                log == self.contracts@,
                r@ == contracts_in(log.take(i as int), community@),
            decreases log.len() - i,
        {
            assert(log.take(i + 1).drop_last() =~= log.take(i as int));
            if str_eq(self.contracts[i].0.as_str(), community) {
                r.push(self.contracts[i].1.duplicate());
            }
            i = i + 1;
        }
        assert(log.take(log.len() as int) =~= log);
        r
    }

    /// The calendars of a community, in the order they were added.
    pub fn calendars_for(&self, community: &str) -> (r: Vec<Calendar>)
        ensures
            r@.len() == calendars_in(self.calendar_log(), community@).len(),
            forall|i: int| 0 <= i < r@.len() ==> same_calendar(#[trigger] r@[i], calendars_in(self.calendar_log(), community@)[i]),
    {
        let ghost log = self.calendars@;
        let mut r: Vec<Calendar> = Vec::new();
        let mut i: usize = 0;
        while i < self.calendars.len()
            invariant
                i <= log.len(),
                log == self.calendars@,
                r@.len() == calendars_in(log.take(i as int), community@).len(),
                forall|j: int| 0 <= j < r@.len() ==> same_calendar(#[trigger] r@[j], calendars_in(log.take(i as int), community@)[j]),
            decreases log.len() - i,
        {
            assert(log.take(i + 1).drop_last() =~= log.take(i as int));
            if str_eq(self.calendars[i].community_id.as_str(), community) {
                let c = self.calendars[i].duplicate();
                r.push(c);
            }
            i = i + 1;
        }
        assert(log.take(log.len() as int) =~= log);
        r
    }

    /// The agents of a community, in registration order.
    pub fn agents_for(&self, community: &str) -> (r: Vec<Agent>)
        ensures
            r@ == agents_in(self.agent_list(), community@),
    {
        let ghost log = self.agents@;
        let mut r: Vec<Agent> = Vec::new();
        let mut i: usize = 0;
        while i < self.agents.len()
            invariant
                i <= log.len(),
                log == self.agents@,
                r@ == agents_in(log.take(i as int), community@),
            decreases log.len() - i,
        {
            assert(log.take(i + 1).drop_last() =~= log.take(i as int));
            if str_eq(self.agents[i].community_id.as_str(), community) {
                r.push(self.agents[i].duplicate());
            }
            i = i + 1;
        }
        assert(log.take(log.len() as int) =~= log);
        r
    }
}

} // verus!
