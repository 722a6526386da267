//! Database seeds as data: what a seed declares (name, priority,
//! dependencies), the seeder that collects them, and the reports a seeding run
//! produces.

use vstd::prelude::*;
use crate::error::Error;
use crate::text::{chars_of, push_joined, push_str, push_u64, seq_join, string_of, views};

verus! {

/// What a seed declares about itself. Implementations carry the work of
/// inserting and removing their data beside this.
pub trait Seed {
    /// The unique name the seed is tracked under.
    fn name(&self) -> &str;

    /// Ordering priority; lower runs first. 100 unless overridden.
    fn priority(&self) -> u32 {
        100
    }

    /// Names of the seeds that must run before this one. None unless
    /// overridden.
    fn depends_on(&self) -> Vec<&str> {
        Vec::new()
    }
}

/// The declaration of one seed, as the seeder orders it.
#[derive(Clone, Debug)]
pub struct SeedEntry {
    /// The seed's name.
    pub name: String,
    /// Its priority; lower runs first.
    pub priority: u32,
    /// The names of the seeds it depends on, in declaration order.
    pub depends_on: Vec<String>,
}

impl SeedEntry {
    /// A seed named `name` with `priority` and no dependencies.
    pub fn new(name: &str, priority: u32) -> (r: Self)
        ensures
            r.name@ == name@,
            r.priority == priority,
            r.depends_on@.len() == 0,
    {
        SeedEntry { name: name.to_string(), priority, depends_on: Vec::new() }
    }

    /// Adds a dependency.
    pub fn depends_on(self, name: &str) -> (r: Self)
        ensures
            r.name == self.name,
            r.priority == self.priority,
            r.depends_on@.len() == self.depends_on@.len() + 1,
            r.depends_on@.drop_last() == self.depends_on@,
            r.depends_on@.last()@ == name@,
    {
        let mut r = self;
        r.depends_on.push(name.to_string());
        assert(r.depends_on@.drop_last() =~= self.depends_on@);
        r
    }
}

/// Collects seeds in the order they were added.
#[derive(Clone, Debug)]
pub struct Seeder {
    /// The seeds' declarations, in the order added.
    pub seeds: Vec<SeedEntry>,
}

impl Seeder {
    /// A seeder without seeds.
    pub fn new() -> (s: Self)
        ensures
            s.seeds@.len() == 0,
    {
        Seeder { seeds: Vec::new() }
    }

    /// Adds a seed: its name, priority and dependencies are recorded.
    pub fn add<S: Seed>(self, seed: &S) -> (s: Self)
        ensures
            s.seeds@.len() == self.seeds@.len() + 1,
            s.seeds@.drop_last() == self.seeds@,
    {
        let name = seed.name().to_string();
        let priority = seed.priority();
        let deps = seed.depends_on();
        let mut depends_on: Vec<String> = Vec::new();
        let mut i: usize = 0;
        while i < deps.len()
            invariant
                i <= deps@.len(),
                depends_on@.len() == i,
            decreases deps.len() - i,
        {
            depends_on.push(deps[i].to_string());
            i = i + 1;
        }
        self.add_boxed(SeedEntry { name, priority, depends_on })
    }

    /// Adds an already extracted seed declaration.
    pub fn add_boxed(self, seed: SeedEntry) -> (s: Self)
        ensures
            s.seeds@ == self.seeds@.push(seed),
    {
        let mut s = self;
        s.seeds.push(seed);
        s
    }
}

/// A seed named in a report.
#[derive(Clone, Debug)]
pub struct SeedInfo {
    /// The seed's name.
    pub name: String,
}

/// Whether one seed has run, with its priority.
#[derive(Clone, Debug)]
pub struct SeedStatus {
    /// The seed's name.
    pub name: String,
    /// Whether it has been executed.
    pub executed: bool,
    /// Its priority.
    pub priority: u32,
}

/// `[✓] name (priority: N)` for an executed seed, `[○] …` otherwise.
pub open spec fn status_line(s: SeedStatus) -> Seq<char> {
    "["@ + (if s.executed {
        "✓"@
    } else {
        "○"@
    }) + "] "@ + s.name@ + " (priority: "@ + crate::text::decimal(s.priority as nat) + ")"@
}

impl SeedStatus {
    /// The one-line rendering of the status (see `status_line`).
    pub fn to_string(&self) -> (s: String)
        ensures
            s@ == status_line(*self),
    {
        let mut out: Vec<char> = Vec::new();
        push_str(&mut out, "[");
        if self.executed {
            push_str(&mut out, "✓");
        } else {
            push_str(&mut out, "○");
        }
        push_str(&mut out, "] ");
        push_str(&mut out, self.name.as_str());
        push_str(&mut out, " (priority: ");
        push_u64(&mut out, self.priority as u64);
        push_str(&mut out, ")");
        string_of(&out)
    }
}

/// What a seeding operation did.
#[derive(Clone, Debug)]
pub struct SeedResult {
    /// Seeds that ran.
    pub executed: Vec<SeedInfo>,
    /// Seeds skipped because they had run before.
    pub skipped: Vec<SeedInfo>,
    /// Seeds rolled back.
    pub rolled_back: Vec<SeedInfo>,
}

/// One report section: a heading line, then one line per seed.
pub open spec fn report_section(heading: Seq<char>, mark: Seq<char>, seeds: Seq<SeedInfo>) -> Seq<char>
    decreases seeds.len(),
{
    if seeds.len() == 0 {
        Seq::empty()
    } else if seeds.len() == 1 {
        heading + "\n"@ + "  "@ + mark + " "@ + seeds[0].name@ + "\n"@
    } else {
        report_section(heading, mark, seeds.drop_last()) + "  "@ + mark + " "@ + seeds.last().name@ + "\n"@
    }
}

/// The report of a result: its executed, skipped and rolled-back sections,
/// empty sections left out.
pub open spec fn result_report(r: SeedResult) -> Seq<char> {
    report_section("Executed seeds:"@, "✓"@, r.executed@) + report_section(
        "Skipped seeds (already executed):"@,
        "-"@,
        r.skipped@,
    ) + report_section("Rolled back seeds:"@, "↩"@, r.rolled_back@)
}

fn push_section(out: &mut Vec<char>, heading: &str, mark: &str, seeds: &Vec<SeedInfo>)
    ensures
        final(out)@ == old(out)@ + report_section(heading@, mark@, seeds@),
{
    let ghost base = out@;
    let mut i: usize = 0;
    while i < seeds.len()
        invariant
            i <= seeds@.len(),
            out@ == base + report_section(heading@, mark@, seeds@.take(i as int)),
        decreases seeds.len() - i,
    {
        proof {
            assert(seeds@.take(i + 1).drop_last() == seeds@.take(i as int));
            assert(seeds@.take(i + 1).last() == seeds@[i as int]);
        }
        if i == 0 {
            push_str(out, heading);
            push_str(out, "\n");
        }
        push_str(out, "  ");
        push_str(out, mark);
        push_str(out, " ");
        push_str(out, seeds[i].name.as_str());
        push_str(out, "\n");
        assert(out@ =~= base + report_section(heading@, mark@, seeds@.take(i + 1)));
        i = i + 1;
    }
    assert(seeds@.take(seeds@.len() as int) =~= seeds@);
}

impl SeedResult {
    /// A result in which nothing happened.
    pub fn new() -> (r: Self)
        ensures
            r.executed@.len() == 0,
            r.skipped@.len() == 0,
            r.rolled_back@.len() == 0,
    {
        SeedResult { executed: Vec::new(), skipped: Vec::new(), rolled_back: Vec::new() }
    }

    /// Whether any seed ran.
    pub fn has_executed(&self) -> (b: bool)
        ensures
            b == (self.executed@.len() > 0),
    {
        self.executed.len() > 0
    }

    /// Whether any seed was rolled back.
    pub fn has_rolled_back(&self) -> (b: bool)
        ensures
            b == (self.rolled_back@.len() > 0),
    {
        self.rolled_back.len() > 0
    }

    /// The number of seeds the operation touched.
    pub fn total(&self) -> (n: usize)
        requires
            self.executed@.len() + self.skipped@.len() + self.rolled_back@.len() <= usize::MAX,
        ensures
            n == self.executed@.len() + self.skipped@.len() + self.rolled_back@.len(),
    {
        self.executed.len() + self.skipped.len() + self.rolled_back.len()
    }

    /// The multi-line report of the result (see `result_report`).
    pub fn to_string(&self) -> (s: String)
        ensures
            s@ == result_report(*self),
    {
        let mut out: Vec<char> = Vec::new();
        push_section(&mut out, "Executed seeds:", "✓", &self.executed);
        push_section(&mut out, "Skipped seeds (already executed):", "-", &self.skipped);
        push_section(&mut out, "Rolled back seeds:", "↩", &self.rolled_back);
        string_of(&out)
    }
}

/// The seed a dependency name refers to: the last seed with that name.
pub open spec fn last_named(seeds: Seq<SeedEntry>, d: Seq<char>) -> Option<int>
    decreases seeds.len(),
{
    if seeds.len() == 0 {
        None
    } else if seeds.last().name@ == d {
        Some(seeds.len() - 1)
    } else {
        last_named(seeds.drop_last(), d)
    }
}

/// The dependency names of seed `i`.
pub open spec fn deps_of(seeds: Seq<SeedEntry>, i: int) -> Seq<Seq<char>> {
    views(seeds[i].depends_on@)
}

/// Seed `i` depends on seed `j`: one of its dependency names refers to `j`.
pub open spec fn depends(seeds: Seq<SeedEntry>, i: int, j: int) -> bool {
    exists|k: int| 0 <= k < deps_of(seeds, i).len() && #[trigger] last_named(seeds, deps_of(seeds, i)[k]) == Some(j)
}

/// The number of dependency names of `deps` that refer to a seed outside
/// `done`, counted with repetition.
pub open spec fn count_pending(seeds: Seq<SeedEntry>, deps: Seq<Seq<char>>, done: Set<int>) -> nat
    decreases deps.len(),
{
    if deps.len() == 0 {
        0
    } else {
        count_pending(seeds, deps.drop_last(), done) + match last_named(seeds, deps.last()) {
            Some(j) => if done.contains(j) {
                0nat
            } else {
                1nat
            },
            None => 0nat,
        }
    }
}

/// The number of dependency names of `deps` that refer to seed `p`.
pub open spec fn count_target(seeds: Seq<SeedEntry>, deps: Seq<Seq<char>>, p: int) -> nat
    decreases deps.len(),
{
    if deps.len() == 0 {
        0
    } else {
        count_target(seeds, deps.drop_last(), p) + if last_named(seeds, deps.last()) == Some(p) {
            1nat
        } else {
            0nat
        }
    }
}

/// A set of seeds in which every seed depends on another seed of the set: no
/// order can run them all after their dependencies.
pub open spec fn closed_cycle(seeds: Seq<SeedEntry>, s: Set<int>) -> bool {
    &&& exists|x: int| s.contains(x)
    &&& forall|i: int| #[trigger] s.contains(i) ==> 0 <= i < seeds.len() && exists|j: int| s.contains(j)
        && depends(seeds, i, j)
}

/// The seeds' dependencies contain a cycle.
pub open spec fn has_dependency_cycle(seeds: Seq<SeedEntry>) -> bool {
    exists|s: Set<int>| closed_cycle(seeds, s)
}

/// `order` runs every seed once, each after every seed it depends on.
pub open spec fn is_seed_order(seeds: Seq<SeedEntry>, order: Seq<usize>) -> bool {
    &&& order.len() == seeds.len()
    &&& order.no_duplicates()
    &&& forall|t: int| 0 <= t < order.len() ==> #[trigger] order[t] < seeds.len()
    &&& forall|t: int, j: int| 0 <= t < order.len() && #[trigger] depends(seeds, order[t] as int, j) ==> exists|u: int|
        0 <= u < t && order[u] == j
}

/// Seed `i` depends on no seed: none of its dependency names refers to one.
pub open spec fn independent(seeds: Seq<SeedEntry>, i: int) -> bool {
    forall|j: int| !depends(seeds, i, j)
}

/// The seeds that depend on no seed come first in `order`, lower priorities
/// first and ties in the order the seeds were added.
pub open spec fn independent_first(seeds: Seq<SeedEntry>, order: Seq<usize>) -> bool {
    exists|k: int|
        0 <= k <= order.len() && by_priority(seeds, order.take(k)) && (forall|t: int|
            0 <= t < k ==> independent(seeds, (#[trigger] order[t]) as int)) && (forall|t: int|
            k <= t < order.len() ==> !independent(seeds, (#[trigger] order[t]) as int))
}

/// A seed depends on no seed exactly when none of its dependency names is
/// pending against the empty set.
proof fn lemma_independent_iff_no_pending(seeds: Seq<SeedEntry>, i: int)
    ensures
        independent(seeds, i) <==> count_pending(seeds, deps_of(seeds, i), Set::empty()) == 0,
{
    let deps = deps_of(seeds, i);
    if count_pending(seeds, deps, Set::empty()) == 0 {
        lemma_pending_zero(seeds, deps, Set::empty());
        assert forall|j: int| !depends(seeds, i, j) by {
            if depends(seeds, i, j) {
                let k = choose|k: int| 0 <= k < deps.len() && #[trigger] last_named(seeds, deps[k]) == Some(j);
                assert(last_named(seeds, deps[k]) matches Some(jj) ==> Set::<int>::empty().contains(jj));
            }
        }
    } else {
        lemma_pending_positive(seeds, deps, Set::empty());
        let k = choose|k: int| 0 <= k < deps.len() && #[trigger] pending_name(seeds, deps[k], Set::empty());
        let j = last_named(seeds, deps[k])->Some_0;
        assert(depends(seeds, i, j));
    }
}

proof fn lemma_independent_first(
    ss: Seq<SeedEntry>,
    indeg0: Seq<usize>,
    roots: Seq<usize>,
    first: Seq<usize>,
    order: Seq<usize>,
)
    requires
        indeg0.len() == ss.len(),
        forall|m: int| 0 <= m < ss.len() ==> #[trigger] indeg0[m] == count_pending(ss, deps_of(ss, m), Set::empty()),
        forall|x: usize| #[trigger] roots.contains(x) <==> (x < indeg0.len() && indeg0[x as int] == 0),
        first.to_multiset() == roots.to_multiset(),
        by_priority(ss, first),
        first.len() <= order.len(),
        order.take(first.len() as int) == first,
        order.no_duplicates(),
        forall|t: int| 0 <= t < order.len() ==> #[trigger] order[t] < ss.len(),
    ensures
        independent_first(ss, order),
{
    broadcast use vstd::seq_lib::group_to_multiset_ensures;
    let k = first.len() as int;
    assert(order.take(k) == first);
    assert forall|t: int| 0 <= t < k implies independent(ss, (#[trigger] order[t]) as int) by {
        assert(order[t] == first[t]);
        assert(first.contains(first[t]));
        vstd::seq_lib::to_multiset_contains(first, first[t]);
        vstd::seq_lib::to_multiset_contains(roots, first[t]);
        assert(roots.contains(first[t]));
        lemma_independent_iff_no_pending(ss, order[t] as int);
    }
    assert forall|t: int| k <= t < order.len() implies !independent(ss, (#[trigger] order[t]) as int) by {
        lemma_independent_iff_no_pending(ss, order[t] as int);
        if independent(ss, order[t] as int) {
            assert(roots.contains(order[t]));
            vstd::seq_lib::to_multiset_contains(first, order[t]);
            vstd::seq_lib::to_multiset_contains(roots, order[t]);
            assert(first.contains(order[t]));
            let a = choose|a: int| 0 <= a < first.len() && first[a] == order[t];
            assert(order[a] == first[a]);
        }
    }
}

/// The prefix of the cycle report.
pub open spec fn cycle_prefix() -> Seq<char> {
    "Circular seed dependency detected involving: "@
}

proof fn lemma_last_named_bounds(seeds: Seq<SeedEntry>, d: Seq<char>)
    ensures
        last_named(seeds, d) matches Some(j) ==> 0 <= j < seeds.len() && seeds[j].name@ == d,
    decreases seeds.len(),
{
    if seeds.len() > 0 {
        lemma_last_named_bounds(seeds.drop_last(), d);
    }
}

proof fn lemma_pending_zero(seeds: Seq<SeedEntry>, deps: Seq<Seq<char>>, done: Set<int>)
    requires
        count_pending(seeds, deps, done) == 0,
    ensures
        forall|k: int| 0 <= k < deps.len() ==> (#[trigger] last_named(seeds, deps[k]) matches Some(j) ==> done.contains(j)),
    decreases deps.len(),
{
    if deps.len() > 0 {
        lemma_pending_zero(seeds, deps.drop_last(), done);
        assert forall|k: int| 0 <= k < deps.len() implies (#[trigger] last_named(seeds, deps[k]) matches Some(j) ==> done.contains(j)) by {
            if k < deps.len() - 1 {
                assert(deps[k] == deps.drop_last()[k]);
            }
        }
    }
}

/// The dependency name refers to a seed outside `done`.
pub open spec fn pending_name(seeds: Seq<SeedEntry>, d: Seq<char>, done: Set<int>) -> bool {
    last_named(seeds, d) matches Some(j) && !done.contains(j)
}

proof fn lemma_pending_positive(seeds: Seq<SeedEntry>, deps: Seq<Seq<char>>, done: Set<int>)
    requires
        count_pending(seeds, deps, done) > 0,
    ensures
        exists|k: int| 0 <= k < deps.len() && #[trigger] pending_name(seeds, deps[k], done),
    decreases deps.len(),
{
    if count_pending(seeds, deps.drop_last(), done) > 0 {
        lemma_pending_positive(seeds, deps.drop_last(), done);
        let k = choose|k: int| 0 <= k < deps.drop_last().len() && #[trigger] pending_name(seeds, deps.drop_last()[k], done);
        assert(deps[k] == deps.drop_last()[k]);
    } else {
        let k = deps.len() - 1;
        assert(deps[k] == deps.last());
        assert(pending_name(seeds, deps[k], done));
    }
}

proof fn lemma_pending_step(seeds: Seq<SeedEntry>, deps: Seq<Seq<char>>, done: Set<int>, p: int)
    requires
        !done.contains(p),
    ensures
        count_pending(seeds, deps, done.insert(p)) + count_target(seeds, deps, p) == count_pending(seeds, deps, done),
    decreases deps.len(),
{
    if deps.len() > 0 {
        lemma_pending_step(seeds, deps.drop_last(), done, p);
    }
}

proof fn lemma_distinct_bounded(s: Seq<usize>, n: nat)
    requires
        s.no_duplicates(),
        forall|t: int| 0 <= t < s.len() ==> #[trigger] s[t] < n,
    ensures
        s.len() <= n,
        s.len() == n ==> forall|i: int| 0 <= i < n ==> #[trigger] s.contains(i as usize),
{
    let si = s.map_values(|x: usize| x as int);
    assert forall|a: int, b: int| 0 <= a < si.len() && 0 <= b < si.len() && a != b implies si[a] != si[b] by {
        assert(s[a] != s[b]);
    }
    assert(si.no_duplicates());
    si.unique_seq_to_set();
    let range = vstd::set_lib::set_int_range(0, n as int);
    vstd::set_lib::lemma_int_range(0, n as int);
    assert(si.to_set().subset_of(range)) by {
        assert forall|x: int| si.to_set().contains(x) implies range.contains(x) by {
            let t = choose|t: int| 0 <= t < si.len() && si[t] == x;
            assert(s[t] < n);
        }
    }
    vstd::set_lib::lemma_len_subset(si.to_set(), range);
    if s.len() == n {
        assert forall|i: int| 0 <= i < n implies #[trigger] s.contains(i as usize) by {
            if !s.contains(i as usize) {
                assert(si.to_set().subset_of(range.remove(i))) by {
                    assert forall|x: int| si.to_set().contains(x) implies range.remove(i).contains(x) by {
                        let t = choose|t: int| 0 <= t < si.len() && si[t] == x;
                        assert(s[t] < n);
                        if x == i {
                            assert(s[t] == i as usize);
                        }
                    }
                }
                vstd::set_lib::lemma_len_subset(si.to_set(), range.remove(i));
            }
        }
    }
}

/// An order that runs every seed after its dependencies exists only without
/// a dependency cycle.
pub proof fn lemma_order_excludes_cycle(seeds: Seq<SeedEntry>, order: Seq<usize>)
    requires
        is_seed_order(seeds, order),
        seeds.len() <= usize::MAX,
    ensures
        !has_dependency_cycle(seeds),
{
    if has_dependency_cycle(seeds) {
        let s = choose|s: Set<int>| closed_cycle(seeds, s);
        lemma_distinct_bounded(order, seeds.len());
        let x = choose|x: int| s.contains(x);
        assert(0 <= x < seeds.len());
        assert(order.contains(x as usize));
        let t0 = choose|t: int| 0 <= t < order.len() && order[t] == x as usize;
        assert(order[t0] as int == x);
        let tmin = min_position(order, s, t0);
        let i = order[tmin] as int;
        let j = choose|j: int| s.contains(j) && depends(seeds, i, j);
        let u = choose|u: int| 0 <= u < tmin && order[u] == j;
        assert(s.contains(order[u] as int));
    }
}

proof fn min_position(order: Seq<usize>, s: Set<int>, t0: int) -> (t: int)
    requires
        0 <= t0 < order.len(),
        s.contains(order[t0] as int),
    ensures
        0 <= t <= t0,
        s.contains(order[t] as int),
        forall|u: int| 0 <= u < t ==> !s.contains(#[trigger] order[u] as int),
    decreases t0,
{
    if exists|u: int| 0 <= u < t0 && s.contains(#[trigger] order[u] as int) {
        let u = choose|u: int| 0 <= u < t0 && s.contains(#[trigger] order[u] as int);
        min_position(order, s, u)
    } else {
        t0
    }
}

fn find_last_named(seeds: &Vec<SeedEntry>, d: &String) -> (r: Option<usize>)
    ensures
        match r {
            Some(j) => last_named(seeds@, d@) == Some(j as int),
            None => last_named(seeds@, d@) is None,
        },
{
    let mut i: usize = seeds.len();
    proof {
        lemma_take_all_seeds(seeds@);
    }
    while i > 0
        invariant
            i <= seeds@.len(),
            last_named(seeds@, d@) == last_named(seeds@.take(i as int), d@),
        decreases i,
    {
        let ghost t = seeds@.take(i as int);
        assert(t.last() == seeds@[i - 1]);
        assert(t.drop_last() =~= seeds@.take(i - 1));
        if seeds[i - 1].name == *d {
            return Some(i - 1);
        }
        i = i - 1;
    }
    assert(seeds@.take(0) =~= Seq::<SeedEntry>::empty());
    None
}

proof fn lemma_take_all_seeds(seeds: Seq<SeedEntry>)
    ensures
        seeds.take(seeds.len() as int) == seeds,
{
    assert(seeds.take(seeds.len() as int) =~= seeds);
}

fn count_resolving(seeds: &Vec<SeedEntry>, deps: &Vec<String>) -> (c: usize)
    ensures
        c == count_pending(seeds@, views(deps@), Set::empty()),
{
    let ghost dv = views(deps@);
    let mut c: usize = 0;
    let mut k: usize = 0;
    while k < deps.len()
        invariant
            k <= deps@.len(),
            dv == views(deps@),
            c <= k,
            c == count_pending(seeds@, dv.take(k as int), Set::empty()),
        decreases deps.len() - k,
    {
        proof {
            assert(dv.take(k + 1).drop_last() =~= dv.take(k as int));
            assert(dv.take(k + 1).last() == deps@[k as int]@);
        }
        if find_last_named(seeds, &deps[k]).is_some() {
            c = c + 1;
        }
        k = k + 1;
    }
    assert(dv.take(deps@.len() as int) =~= dv);
    c
}

fn count_targeting(seeds: &Vec<SeedEntry>, deps: &Vec<String>, p: usize) -> (c: usize)
    ensures
        c == count_target(seeds@, views(deps@), p as int),
{
    let ghost dv = views(deps@);
    let mut c: usize = 0;
    let mut k: usize = 0;
    while k < deps.len()
        invariant
            k <= deps@.len(),
            dv == views(deps@),
            c <= k,
            c == count_target(seeds@, dv.take(k as int), p as int),
        decreases deps.len() - k,
    {
        proof {
            assert(dv.take(k + 1).drop_last() =~= dv.take(k as int));
            assert(dv.take(k + 1).last() == deps@[k as int]@);
        }
        match find_last_named(seeds, &deps[k]) {
            Some(j) => {
                if j == p {
                    c = c + 1;
                }
            },
            None => {},
        }
        k = k + 1;
    }
    assert(dv.take(deps@.len() as int) =~= dv);
    c
}

/// Orders indices by seed priority, keeping the given order among equal
/// priorities.
fn sort_by_priority(seeds: &Vec<SeedEntry>, v: Vec<usize>) -> (r: Vec<usize>)
    requires
        forall|t: int| 0 <= t < v@.len() ==> #[trigger] v@[t] < seeds@.len(),
    ensures
        r@.to_multiset() == v@.to_multiset(),
        increasing(v@) ==> by_priority(seeds@, r@),
{
    broadcast use vstd::seq_lib::group_to_multiset_ensures;
    reveal(by_priority);
    let ghost orig = v@;
    let ghost inc = increasing(v@);
    let mut rest = v;
    let mut r: Vec<usize> = Vec::new();
    assert(r@.to_multiset().add(rest@.to_multiset()) =~= orig.to_multiset());
    while rest.len() > 0
        invariant
            r@.to_multiset().add(rest@.to_multiset()) == orig.to_multiset(),
            forall|t: int| 0 <= t < rest@.len() ==> #[trigger] rest@[t] < seeds@.len(),
            forall|t: int| 0 <= t < r@.len() ==> #[trigger] r@[t] < seeds@.len(),
            inc ==> increasing(rest@),
            inc ==> by_priority(seeds@, r@),
            inc ==> forall|a: int, t: int|
                0 <= a < r@.len() && 0 <= t < rest@.len() ==> ranks_before(seeds@, #[trigger] r@[a], #[trigger] rest@[t]),
        decreases rest@.len(),
    {
        let mut best: usize = 0;
        let mut k: usize = 1;
        while k < rest.len()
            invariant
                1 <= k <= rest@.len(),
                best < k,
                forall|t: int| 0 <= t < rest@.len() ==> #[trigger] rest@[t] < seeds@.len(),
                forall|t: int|
                    0 <= t < k ==> seeds@[rest@[best as int] as int].priority <= seeds@[(#[trigger] rest@[t]) as int].priority
                        && (seeds@[rest@[best as int] as int].priority == seeds@[rest@[t] as int].priority ==> best <= t),
            decreases rest@.len() - k,
        {
            if seeds[rest[k]].priority < seeds[rest[best]].priority {
                best = k;
            }
            k = k + 1;
        }
        let ghost rest_before = rest@;
        let ghost r_before = r@;
        let x = rest.remove(best);
        r.push(x);
        proof {
            reveal(by_priority);
            assert(x == rest_before[best as int]);
            assert(rest_before.contains(x));
            vstd::seq_lib::to_multiset_contains(rest_before, x);
            assert(rest_before.to_multiset().count(x) > 0);
            assert(r@ == r_before.push(x));
            vstd::seq_lib::to_multiset_build(r_before, x);
            assert(rest@ == rest_before.remove(best as int));
            vstd::seq_lib::to_multiset_remove(rest_before, best as int);
            broadcast use vstd::multiset::group_multiset_axioms;
            assert(r@.to_multiset().add(rest@.to_multiset()) =~= r_before.to_multiset().add(rest_before.to_multiset()));
            assert forall|t: int| 0 <= t < rest@.len() implies #[trigger] rest@[t] < seeds@.len() && rest@[t] == (if t < best { rest_before[t] } else { rest_before[t + 1] }) by {
                if t < best {
                    assert(rest@[t] == rest_before[t]);
                } else {
                    assert(rest@[t] == rest_before[t + 1]);
                }
            }
            if inc {
                assert forall|a: int, b: int| 0 <= a < b < rest@.len() implies rest@[a] < rest@[b] by {
                    let ua = if a < best { a } else { a + 1 };
                    let ub = if b < best { b } else { b + 1 };
                    assert(rest@[a] == rest_before[ua] && rest@[b] == rest_before[ub]);
                }
                assert forall|t: int| 0 <= t < rest_before.len() implies ranks_before(seeds@, x, #[trigger] rest_before[t]) || t == best by {
                    if t != best {
                        if t > best {
                            assert(rest_before[best as int] < rest_before[t]);
                        }
                    }
                }
                assert forall|a: int, b: int| 0 <= a < b < r@.len() implies ranks_before(seeds@, #[trigger] r@[a], #[trigger] r@[b]) by {
                    if b == r@.len() - 1 {
                        assert(r@[a] == r_before[a]);
                        assert(r@[b] == rest_before[best as int]);
                    } else {
                        assert(r@[a] == r_before[a] && r@[b] == r_before[b]);
                    }
                }
                assert forall|a: int, t: int| 0 <= a < r@.len() && 0 <= t < rest@.len() implies ranks_before(
                    seeds@,
                    #[trigger] r@[a],
                    #[trigger] rest@[t],
                ) by {
                    let u = if t < best { t } else { t + 1 };
                    assert(rest@[t] == rest_before[u]);
                    if a == r@.len() - 1 {
                        assert(r@[a] == x);
                    } else {
                        assert(r@[a] == r_before[a]);
                    }
                }
            }
        }
    }
    assert(rest@.to_multiset() =~= vstd::multiset::Multiset::<usize>::empty());
    assert(r@.to_multiset() =~= r@.to_multiset().add(rest@.to_multiset()));
    r
}

/// The indices strictly increase along `s`.
pub open spec fn increasing(s: Seq<usize>) -> bool {
    forall|a: int, b: int| 0 <= a < b < s.len() ==> s[a] < s[b]
}

/// Seed `a` runs before seed `b` when both are ready: lower priority first,
/// ties in the order the seeds were added.
pub open spec fn ranks_before(seeds: Seq<SeedEntry>, a: usize, b: usize) -> bool {
    seeds[a as int].priority < seeds[b as int].priority || (seeds[a as int].priority == seeds[b as int].priority && a < b)
}

/// `order` runs lower priorities first, ties in the order the seeds were
/// added.
#[verifier::opaque]
pub open spec fn by_priority(seeds: Seq<SeedEntry>, order: Seq<usize>) -> bool {
    forall|a: int, b: int| 0 <= a < b < order.len() ==> ranks_before(seeds, #[trigger] order[a], #[trigger] order[b])
}

/// The seeds listed in `l`, as a set of indices.
pub open spec fn index_set(l: Seq<usize>) -> Set<int> {
    Set::new(|i: int| exists|t: int| 0 <= t < l.len() && l[t] as int == i)
}

/// The names of the seeds listed in `l`.
pub open spec fn listed_names(seeds: Seq<SeedEntry>, l: Seq<usize>) -> Seq<Seq<char>> {
    l.map_values(|x: usize| seeds[x as int].name@)
}

/// `m` reports a cycle: the prefix, then the names of seeds that form a
/// closed cycle, each once, joined by `, `.
pub open spec fn cycle_reported(seeds: Seq<SeedEntry>, m: Seq<char>) -> bool {
    exists|l: Seq<usize>|
        l.no_duplicates() && closed_cycle(seeds, index_set(l)) && m == cycle_prefix() + seq_join(
            listed_names(seeds, l),
            ", "@,
        )
}

proof fn lemma_covering_is_long(s: Seq<usize>, n: nat)
    requires
        forall|i: int| 0 <= i < n ==> #[trigger] s.contains(i as usize),
        n <= usize::MAX + 1,
    ensures
        s.len() >= n,
{
    let si = s.map_values(|x: usize| x as int);
    let range = vstd::set_lib::set_int_range(0, n as int);
    vstd::set_lib::lemma_int_range(0, n as int);
    assert(range.subset_of(si.to_set())) by {
        assert forall|x: int| range.contains(x) implies si.to_set().contains(x) by {
            assert(s.contains(x as usize));
            let t = choose|t: int| 0 <= t < s.len() && s[t] == x as usize;
            assert(si[t] == x);
        }
    }
    vstd::seq_lib::seq_to_set_is_finite(si);
    vstd::set_lib::lemma_len_subset(range, si.to_set());
    si.lemma_cardinality_of_set();
}

proof fn lemma_multiset_no_dups(a: Seq<usize>, b: Seq<usize>)
    requires
        a.to_multiset() == b.to_multiset(),
        a.no_duplicates(),
    ensures
        b.no_duplicates(),
        forall|x: usize| #[trigger] b.contains(x) <==> a.contains(x),
{
    broadcast use vstd::seq_lib::group_to_multiset_ensures;
    a.lemma_multiset_has_no_duplicates();
    b.lemma_multiset_has_no_duplicates_conv();
    assert forall|x: usize| #[trigger] b.contains(x) <==> a.contains(x) by {
        vstd::seq_lib::to_multiset_contains(a, x);
        vstd::seq_lib::to_multiset_contains(b, x);
    }
}

fn initial_indegrees(seeds: &Vec<SeedEntry>) -> (indeg: Vec<usize>)
    ensures
        indeg@.len() == seeds@.len(),
        forall|m: int| 0 <= m < seeds@.len() ==> #[trigger] indeg@[m] == count_pending(seeds@, deps_of(seeds@, m), Set::empty()),
{
    let n = seeds.len();
    let mut indeg: Vec<usize> = Vec::new();
    let mut i: usize = 0;
    while i < n
        invariant
            n == seeds@.len(),
            i <= n,
            indeg@.len() == i,
            forall|m: int| 0 <= m < i ==> #[trigger] indeg@[m] == count_pending(seeds@, deps_of(seeds@, m), Set::empty()),
        decreases n - i,
    {
        let c = count_resolving(seeds, &seeds[i].depends_on);
        let ghost before = indeg@;
        indeg.push(c);
        assert forall|m: int| 0 <= m < i + 1 implies #[trigger] indeg@[m] == count_pending(seeds@, deps_of(seeds@, m), Set::empty()) by {
            if m < i {
                assert(indeg@[m] == before[m]);
            }
        }
        i = i + 1;
    }
    indeg
}

/// The indices whose in-degree is zero (`zero`) or positive (`!zero`), ascending.
fn nodes_where(indeg: &Vec<usize>, zero: bool) -> (r: Vec<usize>)
    ensures
        r@.no_duplicates(),
        increasing(r@),
        forall|t: int| 0 <= t < r@.len() ==> #[trigger] r@[t] < indeg@.len(),
        forall|x: usize| #[trigger] r@.contains(x) <==> (x < indeg@.len() && (indeg@[x as int] == 0) == zero),
{
    let n = indeg.len();
    let mut r: Vec<usize> = Vec::new();
    let mut i: usize = 0;
    assert(r@ =~= Seq::<usize>::empty());
    while i < n
        invariant
            n == indeg@.len(),
            i <= n,
            r@.no_duplicates(),
            increasing(r@),
            forall|t: int| 0 <= t < r@.len() ==> #[trigger] r@[t] < i,
            forall|x: usize| #[trigger] r@.contains(x) <==> (x < i && (indeg@[x as int] == 0) == zero),
        decreases n - i,
    {
        let ghost before = r@;
        if (indeg[i] == 0) == zero {
            r.push(i);
            assert forall|x: usize| #[trigger] r@.contains(x) <==> (x < i + 1 && (indeg@[x as int] == 0) == zero) by {
                if r@.contains(x) {
                    let t = choose|t: int| 0 <= t < r@.len() && r@[t] == x;
                    if t < before.len() {
                        assert(before[t] == x);
                        assert(before.contains(x));
                    }
                }
                if x < i && (indeg@[x as int] == 0) == zero {
                    assert(before.contains(x));
                    let t = choose|t: int| 0 <= t < before.len() && before[t] == x;
                    assert(r@[t] == x);
                }
                if x == i && (indeg@[x as int] == 0) == zero {
                    assert(r@[before.len() as int] == x);
                }
            }
            assert forall|a: int, b: int| 0 <= a < r@.len() && 0 <= b < r@.len() && a != b implies r@[a] != r@[b] by {
                if a < before.len() && b < before.len() {
                    assert(before[a] != before[b]);
                } else if a < before.len() {
                    assert(before[a] < i);
                } else if b < before.len() {
                    assert(before[b] < i);
                }
            }
        } else {
            assert forall|x: usize| #[trigger] r@.contains(x) <==> (x < i + 1 && (indeg@[x as int] == 0) == zero) by {
                if r@.contains(x) {
                    let t = choose|t: int| 0 <= t < r@.len() && r@[t] == x;
                    assert(r@[t] < i);
                }
            }
        }
        i = i + 1;
    }
    r
}

fn relax(seeds: &Vec<SeedEntry>, indeg: &mut Vec<usize>, p: usize, Ghost(done): Ghost<Set<int>>) -> (next: Vec<usize>)
    requires
        old(indeg)@.len() == seeds@.len(),
        p < seeds@.len(),
        !done.contains(p as int),
        forall|m: int| 0 <= m < seeds@.len() ==> #[trigger] old(indeg)@[m] == count_pending(seeds@, deps_of(seeds@, m), done),
    ensures
        final(indeg)@.len() == seeds@.len(),
        forall|m: int| 0 <= m < seeds@.len() ==> #[trigger] final(indeg)@[m] == count_pending(seeds@, deps_of(seeds@, m), done.insert(p as int)),
        next@.no_duplicates(),
        forall|t: int| 0 <= t < next@.len() ==> #[trigger] next@[t] < seeds@.len(),
        forall|x: usize| #[trigger] next@.contains(x) <==> (x < seeds@.len() && old(indeg)@[x as int] > 0 && final(indeg)@[x as int] == 0),
{
    let n = seeds.len();
    let ghost ss = seeds@;
    let ghost done2 = done.insert(p as int);
    let ghost before = indeg@;
    let mut next: Vec<usize> = Vec::new();
    let mut i: usize = 0;
    assert(next@ =~= Seq::<usize>::empty());
    while i < n
        invariant
            n == ss.len(),
            ss == seeds@,
            indeg@.len() == n,
            before.len() == n,
            i <= n,
            p < n,
            !done.contains(p as int),
            done2 == done.insert(p as int),
            forall|m: int| 0 <= m < n ==> #[trigger] before[m] == count_pending(ss, deps_of(ss, m), done),
            forall|m: int| 0 <= m < i ==> #[trigger] indeg@[m] == count_pending(ss, deps_of(ss, m), done2),
            forall|m: int| i <= m < n ==> #[trigger] indeg@[m] == before[m],
            next@.no_duplicates(),
            forall|t: int| 0 <= t < next@.len() ==> #[trigger] next@[t] < i,
            forall|x: usize| #[trigger] next@.contains(x) <==> (x < i && before[x as int] > 0 && indeg@[x as int] == 0),
        decreases n - i,
    {
        let c = count_targeting(seeds, &seeds[i].depends_on, p);
        proof {
            lemma_pending_step(ss, deps_of(ss, i as int), done, p as int);
        }
        let ghost ind_before = indeg@;
        let ghost next_before = next@;
        if c > 0 {
            let v = indeg[i] - c;
            indeg.set(i, v);
            if v == 0 {
                next.push(i);
            }
        }
        proof {
            assert forall|m: int| 0 <= m < i + 1 implies #[trigger] indeg@[m] == count_pending(ss, deps_of(ss, m), done2) by {
                if m < i {
                    assert(indeg@[m] == ind_before[m]);
                }
            }
            assert forall|m: int| i + 1 <= m < n implies #[trigger] indeg@[m] == before[m] by {
                assert(indeg@[m] == ind_before[m]);
            }
            assert forall|x: usize| #[trigger] next@.contains(x) <==> (x < i + 1 && before[x as int] > 0 && indeg@[x as int] == 0) by {
                if next@.contains(x) {
                    let t = choose|t: int| 0 <= t < next@.len() && next@[t] == x;
                    if t < next_before.len() {
                        assert(next_before[t] == x);
                        assert(next_before.contains(x));
                        assert(indeg@[x as int] == ind_before[x as int]);
                    }
                }
                if x < i && before[x as int] > 0 && indeg@[x as int] == 0 {
                    assert(indeg@[x as int] == ind_before[x as int]);
                    assert(next_before.contains(x));
                    let t = choose|t: int| 0 <= t < next_before.len() && next_before[t] == x;
                    assert(next@[t] == x);
                }
                if x == i && before[x as int] > 0 && indeg@[x as int] == 0 {
                    assert(next@[next_before.len() as int] == x);
                }
            }
        }
        i = i + 1;
    }
    next
}

/// The state of the ordering loop: `order` lists the seeds placed so far,
/// `done` those of its first `h` entries that were processed.
pub open spec fn kahn_state(ss: Seq<SeedEntry>, indeg: Seq<usize>, order: Seq<usize>, h: int, done: Set<int>) -> bool {
    &&& indeg.len() == ss.len()
    &&& 0 <= h <= order.len()
    &&& order.no_duplicates()
    &&& forall|t: int| 0 <= t < order.len() ==> #[trigger] order[t] < ss.len()
    &&& forall|x: int| #[trigger] done.contains(x) <==> exists|t: int| 0 <= t < h && order[t] as int == x
    &&& forall|m: int| 0 <= m < ss.len() ==> #[trigger] indeg[m] == count_pending(ss, deps_of(ss, m), done)
    &&& forall|x: usize| x < ss.len() ==> (#[trigger] order.contains(x) <==> indeg[x as int] == 0)
    &&& forall|t: int, j: int| 0 <= t < order.len() && #[trigger] depends(ss, order[t] as int, j) ==> exists|u: int|
        0 <= u < t && order[u] == j
}

proof fn lemma_kahn_step(
    ss: Seq<SeedEntry>,
    indeg: Seq<usize>,
    order: Seq<usize>,
    h: int,
    done: Set<int>,
    indeg2: Seq<usize>,
    next: Seq<usize>,
    sorted: Seq<usize>,
)
    requires
        kahn_state(ss, indeg, order, h, done),
        h < order.len(),
        indeg2.len() == ss.len(),
        forall|m: int| 0 <= m < ss.len() ==> #[trigger] indeg2[m] == count_pending(ss, deps_of(ss, m), done.insert(order[h] as int)),
        forall|x: usize| #[trigger] next.contains(x) <==> (x < ss.len() && indeg[x as int] > 0 && indeg2[x as int] == 0),
        sorted.no_duplicates(),
        forall|x: usize| #[trigger] sorted.contains(x) <==> next.contains(x),
    ensures
        kahn_state(ss, indeg2, order + sorted, h + 1, done.insert(order[h] as int)),
{
    let p = order[h];
    let done2 = done.insert(p as int);
    let o2 = order + sorted;
    assert(!done.contains(p as int)) by {
        if done.contains(p as int) {
            let t = choose|t: int| 0 <= t < h && order[t] as int == p as int;
            assert(order[t] == order[h]);
        }
    }
    assert forall|a: int, b: int| 0 <= a < o2.len() && 0 <= b < o2.len() && a != b implies o2[a] != o2[b] by {
        if a < order.len() && b < order.len() {
        } else if a >= order.len() && b >= order.len() {
            assert(o2[a] == sorted[a - order.len()]);
            assert(o2[b] == sorted[b - order.len()]);
        } else if a < order.len() {
            let x = o2[b];
            assert(x == sorted[b - order.len()]);
            assert(sorted.contains(x));
            assert(next.contains(x));
            assert(!order.contains(x));
            assert(o2[a] == order[a]);
            assert(order.contains(order[a]));
        } else {
            let x = o2[a];
            assert(x == sorted[a - order.len()]);
            assert(sorted.contains(x));
            assert(next.contains(x));
            assert(!order.contains(x));
            assert(o2[b] == order[b]);
            assert(order.contains(order[b]));
        }
    }
    assert forall|t: int| 0 <= t < o2.len() implies #[trigger] o2[t] < ss.len() by {
        if t >= order.len() {
            assert(sorted.contains(sorted[t - order.len()]));
        }
    }
    assert forall|x: int| #[trigger] done2.contains(x) <==> exists|t: int| 0 <= t < h + 1 && o2[t] as int == x by {
        if done2.contains(x) {
            if x == p as int {
                assert(o2[h] == p);
            } else {
                let t = choose|t: int| 0 <= t < h && order[t] as int == x;
                assert(o2[t] == order[t]);
            }
        }
        if exists|t: int| 0 <= t < h + 1 && o2[t] as int == x {
            let t = choose|t: int| 0 <= t < h + 1 && o2[t] as int == x;
            assert(o2[t] == order[t]);
            if t < h {
                assert(done.contains(x));
            }
        }
    }
    assert forall|x: usize| x < ss.len() implies (#[trigger] o2.contains(x) <==> indeg2[x as int] == 0) by {
        lemma_pending_step(ss, deps_of(ss, x as int), done, p as int);
        if o2.contains(x) {
            let t = choose|t: int| 0 <= t < o2.len() && o2[t] == x;
            if t < order.len() {
                assert(order.contains(x));
            } else {
                assert(sorted[t - order.len()] == x);
                assert(sorted.contains(x));
            }
        }
        if indeg2[x as int] == 0 {
            if indeg[x as int] == 0 {
                assert(order.contains(x));
                let t = choose|t: int| 0 <= t < order.len() && order[t] == x;
                assert(o2[t] == x);
            } else {
                assert(next.contains(x));
                assert(sorted.contains(x));
                let t = choose|t: int| 0 <= t < sorted.len() && sorted[t] == x;
                assert(o2[order.len() + t] == x);
            }
        }
    }
    assert forall|t: int, j: int| 0 <= t < o2.len() && #[trigger] depends(ss, o2[t] as int, j) implies exists|u: int|
        0 <= u < t && o2[u] == j by {
        if t < order.len() {
            assert(o2[t] == order[t]);
            let u = choose|u: int| 0 <= u < t && order[u] == j;
            assert(o2[u] == j);
        } else {
            let x = o2[t];
            assert(x == sorted[t - order.len()]);
            assert(sorted.contains(x));
            assert(next.contains(x));
            let kk = choose|kk: int| 0 <= kk < deps_of(ss, x as int).len() && #[trigger] last_named(ss, deps_of(ss, x as int)[kk]) == Some(j);
            lemma_pending_zero(ss, deps_of(ss, x as int), done2);
            assert(done2.contains(j));
            let u = choose|u: int| 0 <= u < h + 1 && o2[u] as int == j;
        }
    }
}

fn append_all(order: &mut Vec<usize>, more: &Vec<usize>)
    ensures
        final(order)@ == old(order)@ + more@,
{
    let mut k: usize = 0;
    while k < more.len()
        invariant
            k <= more@.len(),
            order@ == old(order)@ + more@.take(k as int),
        decreases more@.len() - k,
    {
        order.push(more[k]);
        assert(order@ =~= old(order)@ + more@.take(k + 1));
        k = k + 1;
    }
    assert(more@.take(more@.len() as int) =~= more@);
}

fn cycle_message(seeds: &Vec<SeedEntry>, l: &Vec<usize>) -> (m: String)
    requires
        forall|t: int| 0 <= t < l@.len() ==> #[trigger] l@[t] < seeds@.len(),
    ensures
        m@ == cycle_prefix() + seq_join(listed_names(seeds@, l@), ", "@),
{
    let mut names: Vec<String> = Vec::new();
    let mut k: usize = 0;
    while k < l.len()
        invariant
            k <= l@.len(),
            forall|t: int| 0 <= t < l@.len() ==> #[trigger] l@[t] < seeds@.len(),
            views(names@) == listed_names(seeds@, l@.take(k as int)),
        decreases l@.len() - k,
    {
        let nm = seeds[l[k]].name.clone();
        let ghost old_names = names@;
        proof {
            assert(views(names@).len() == names@.len());
        }
        names.push(nm);
        proof {
            let target = listed_names(seeds@, l@.take(k + 1));
            assert forall|m: int| 0 <= m < k + 1 implies views(names@)[m] == target[m] by {
                if m < k {
                    assert(names@[m] == old_names[m]);
                    assert(views(old_names)[m] == listed_names(seeds@, l@.take(k as int))[m]);
                }
            }
            assert(views(names@) =~= target);
        }
        k = k + 1;
    }
    assert(l@.take(l@.len() as int) =~= l@);
    let mut msg: Vec<char> = Vec::new();
    push_str(&mut msg, "Circular seed dependency detected involving: ");
    push_joined(&mut msg, &names, ", ");
    string_of(&msg)
}

#[verifier::spinoff_prover]
#[verifier::rlimit(50)]
proof fn lemma_stuck_is_cycle(ss: Seq<SeedEntry>, indeg: Seq<usize>, order: Seq<usize>, done: Set<int>, l: Seq<usize>)
    requires
        kahn_state(ss, indeg, order, order.len() as int, done),
        order.len() < ss.len(),
        ss.len() <= usize::MAX,
        forall|x: usize| #[trigger] l.contains(x) <==> (x < ss.len() && indeg[x as int] > 0),
    ensures
        closed_cycle(ss, index_set(l)),
{
    let sset = index_set(l);
    let n = ss.len();
    assert forall|x: int| #[trigger] sset.contains(x) <==> (0 <= x < n && !order.contains(x as usize)) by {
        if sset.contains(x) {
            let t = choose|t: int| 0 <= t < l.len() && l[t] as int == x;
            assert(l.contains(l[t]));
        }
        if 0 <= x < n && !order.contains(x as usize) {
            assert(l.contains(x as usize));
            let t = choose|t: int| 0 <= t < l.len() && l[t] == x as usize;
            assert(l[t] as int == x);
        }
    }
    assert(exists|x: int| sset.contains(x)) by {
        if forall|i: int| 0 <= i < n ==> #[trigger] order.contains(i as usize) {
            lemma_covering_is_long(order, n);
        }
        let i0 = choose|i: int| 0 <= i < n && !#[trigger] order.contains(i as usize);
        assert(sset.contains(i0));
    }
    assert forall|i: int| #[trigger] sset.contains(i) implies 0 <= i < ss.len() && exists|j: int| sset.contains(j)
        && depends(ss, i, j) by {
        assert(indeg[i] > 0);
        lemma_pending_positive(ss, deps_of(ss, i), done);
        let kk = choose|kk: int| 0 <= kk < deps_of(ss, i).len() && #[trigger] pending_name(ss, deps_of(ss, i)[kk], done);
        let j = last_named(ss, deps_of(ss, i)[kk])->0;
        lemma_last_named_bounds(ss, deps_of(ss, i)[kk]);
        assert(!done.contains(j));
        assert(!order.contains(j as usize)) by {
            if order.contains(j as usize) {
                let t = choose|t: int| 0 <= t < order.len() && order[t] == j as usize;
                assert(done.contains(j));
            }
        }
        assert(sset.contains(j));
        assert(depends(ss, i, j));
    }
}

impl Seeder {
    /// Orders the seeds so that each runs after every seed it depends on:
    /// seeds without dependencies first, by priority, then every seed as soon
    /// as its last dependency has run, each batch by priority. Fails when the
    /// dependencies contain a cycle, naming the seeds that cannot be ordered.
    #[verifier::spinoff_prover]
    #[verifier::rlimit(50)]
    pub fn sort_seeds_by_priority_and_deps(&self) -> (r: Result<Vec<usize>, Error>)
        ensures
            r is Ok <==> !has_dependency_cycle(self.seeds@),
            match r {
                Ok(order) => is_seed_order(self.seeds@, order@) && independent_first(self.seeds@, order@),
                Err(e) => e matches Error::Configuration(m) && cycle_reported(self.seeds@, m@),
            },
    {
        let seeds = &self.seeds;
        let n = seeds.len();
        let ghost ss = seeds@;
        let mut indeg = initial_indegrees(seeds);
        let roots = nodes_where(&indeg, true);
        let ghost roots_v = roots@;
        let ghost indeg0 = indeg@;
        let mut order = sort_by_priority(seeds, roots);
        let ghost first = order@;
        proof {
            lemma_multiset_no_dups(roots_v, order@);
            assert forall|t: int| 0 <= t < order@.len() implies #[trigger] order@[t] < n by {
                assert(order@.contains(order@[t]));
            }
            let e = Set::<int>::empty();
            assert(e =~= Set::<int>::empty());
            assert forall|t: int, j: int| 0 <= t < order@.len() && #[trigger] depends(ss, order@[t] as int, j) implies exists|u: int|
                0 <= u < t && order@[u] == j by {
                let x = order@[t];
                assert(order@.contains(x));
                assert(roots_v.contains(x));
                let kk = choose|kk: int| 0 <= kk < deps_of(ss, x as int).len() && #[trigger] last_named(ss, deps_of(ss, x as int)[kk]) == Some(j);
                lemma_pending_zero(ss, deps_of(ss, x as int), Set::empty());
            }
            assert(kahn_state(ss, indeg@, order@, 0, Set::empty()));
        }
        let ghost mut done: Set<int> = Set::empty();
        let mut h: usize = 0;
        while h < order.len()
            invariant
                n == ss.len(),
                ss == seeds@,
                kahn_state(ss, indeg@, order@, h as int, done),
                first.len() <= order@.len(),
                order@.take(first.len() as int) == first,
            decreases n - h,
        {
            proof {
                lemma_distinct_bounded(order@, n as nat);
            }
            let p = order[h];
            assert(!done.contains(p as int)) by {
                if done.contains(p as int) {
                    let t = choose|t: int| 0 <= t < h && order@[t] as int == p as int;
                    assert(order@[t] == order@[h as int]);
                }
            }
            let ghost indeg_before = indeg@;
            let next = relax(seeds, &mut indeg, p, Ghost(done));
            let ghost next_v = next@;
            let sorted = sort_by_priority(seeds, next);
            proof {
                lemma_multiset_no_dups(next_v, sorted@);
                lemma_kahn_step(ss, indeg_before, order@, h as int, done, indeg@, next_v, sorted@);
            }
            let ghost before_append = order@;
            append_all(&mut order, &sorted);
            proof {
                done = done.insert(p as int);
                assert(order@.take(first.len() as int) =~= before_append.take(first.len() as int));
            }
            h = h + 1;
        }
        proof {
            lemma_distinct_bounded(order@, n as nat);
        }
        if order.len() < n {
            let remaining = nodes_where(&indeg, false);
            let ghost rem_v = remaining@;
            let sorted = sort_by_priority(seeds, remaining);
            proof {
                lemma_multiset_no_dups(rem_v, sorted@);
                assert forall|x: usize| #[trigger] sorted@.contains(x) <==> (x < ss.len() && indeg@[x as int] > 0) by {
                    assert(sorted@.contains(x) <==> rem_v.contains(x));
                }
                assert forall|t: int| 0 <= t < sorted@.len() implies #[trigger] sorted@[t] < seeds@.len() by {
                    assert(sorted@.contains(sorted@[t]));
                }
                lemma_stuck_is_cycle(ss, indeg@, order@, done, sorted@);
            }
            let m = cycle_message(seeds, &sorted);
            assert(has_dependency_cycle(ss)) by {
                assert(closed_cycle(ss, index_set(sorted@)));
            }
            Err(Error::Configuration(m))
        } else {
            proof {
                assert(is_seed_order(ss, order@));
                lemma_order_excludes_cycle(ss, order@);
                lemma_independent_first(ss, indeg0, roots_v, first, order@);
            }
            Ok(order)
        }
    }
}

/// What a run does with one seed of its order.
#[derive(Clone, Copy, Debug, PartialEq, Eq)]
pub enum SeedStep {
    /// The seed ran before; it is reported as skipped.
    Skip(usize),
    /// The seed runs now and is recorded as executed.
    Run(usize),
}

/// The names of the seeds `steps` runs, in order.
pub open spec fn ran_names(seeds: Seq<SeedEntry>, steps: Seq<SeedStep>) -> Seq<Seq<char>>
    decreases steps.len(),
{
    if steps.len() == 0 {
        Seq::empty()
    } else {
        let prev = ran_names(seeds, steps.drop_last());
        match steps.last() {
            SeedStep::Run(i) => prev.push(seeds[i as int].name@),
            SeedStep::Skip(_) => prev,
        }
    }
}

/// The first of `deps` that is neither among the executed names nor among
/// the names run so far.
pub open spec fn first_missing_dep(deps: Seq<Seq<char>>, executed: Seq<Seq<char>>, ran: Seq<Seq<char>>) -> Option<
    Seq<char>,
>
    decreases deps.len(),
{
    if deps.len() == 0 {
        None
    } else if !executed.contains(deps[0]) && !ran.contains(deps[0]) {
        Some(deps[0])
    } else {
        first_missing_dep(deps.skip(1), executed, ran)
    }
}

/// The message of a seed whose dependency has not run.
pub open spec fn missing_dep_message(name: Seq<char>, dep: Seq<char>) -> Seq<char> {
    "Seed '"@ + name + "' depends on '"@ + dep + "' which has not been executed"@
}

/// What a run does, seed by seed along `order`: a seed among the executed
/// names is skipped; otherwise it runs when each of its dependencies was
/// executed before or ran earlier in this run, and the run stops with the
/// message naming its first missing dependency when one was not.
pub open spec fn run_outcome(seeds: Seq<SeedEntry>, order: Seq<usize>, executed: Seq<Seq<char>>) -> (
    Seq<SeedStep>,
    Option<Seq<char>>,
)
    decreases order.len(),
{
    if order.len() == 0 {
        (Seq::empty(), None)
    } else {
        let (steps, failure) = run_outcome(seeds, order.drop_last(), executed);
        let i = order.last();
        if failure is Some {
            (steps, failure)
        } else if executed.contains(seeds[i as int].name@) {
            (steps.push(SeedStep::Skip(i)), None)
        } else {
            match first_missing_dep(deps_of(seeds, i as int), executed, ran_names(seeds, steps)) {
                Some(d) => (steps, Some(missing_dep_message(seeds[i as int].name@, d))),
                None => (steps.push(SeedStep::Run(i)), None),
            }
        }
    }
}

/// The plan of a seeding run: the order the seeds are taken in, what is done
/// with each, and the failure that stops the run after those steps, if any.
pub struct SeedRunPlan {
    /// The seeds' order (see `is_seed_order`).
    pub order: Vec<usize>,
    /// The steps, in order.
    pub steps: Vec<SeedStep>,
    /// The error the run ends with once the steps are done.
    pub failure: Option<Error>,
}

fn contains_name(names: &Vec<String>, name: &String) -> (b: bool)
    ensures
        b == views(names@).contains(name@),
{
    let mut i: usize = 0;
    while i < names.len()
        invariant
            i <= names@.len(),
            forall|j: int| 0 <= j < i ==> names@[j]@ != name@,
        decreases names.len() - i,
    {
        if names[i] == *name {
            assert(views(names@)[i as int] == name@);
            return true;
        }
        i = i + 1;
    }
    proof {
        if views(names@).contains(name@) {
            let v = views(names@);
            let j = choose|j: int| 0 <= j < v.len() && #[trigger] v[j] == name@;
            assert(names@[j]@ == name@);
        }
    }
    false
}

fn find_missing_dep(deps: &Vec<String>, executed: &Vec<String>, ran: &Vec<String>) -> (r: Option<usize>)
    ensures
        match first_missing_dep(views(deps@), views(executed@), views(ran@)) {
            Some(d) => r is Some && r.unwrap() < deps@.len() && deps@[r.unwrap() as int]@ == d,
            None => r is None,
        },
{
    let mut i: usize = 0;
    assert(views(deps@).skip(0) =~= views(deps@));
    while i < deps.len()
        invariant
            i <= deps@.len(),
            first_missing_dep(views(deps@), views(executed@), views(ran@)) == first_missing_dep(
                views(deps@).skip(i as int),
                views(executed@),
                views(ran@),
            ),
        decreases deps.len() - i,
    {
        let ghost rest = views(deps@).skip(i as int);
        assert(rest[0] == deps@[i as int]@);
        assert(rest.skip(1) =~= views(deps@).skip(i + 1));
        if !contains_name(executed, &deps[i]) && !contains_name(ran, &deps[i]) {
            return Some(i);
        }
        i = i + 1;
    }
    assert(views(deps@).skip(i as int).len() == 0);
    None
}

/// `statuses` report the seeds in `order`, each marked executed when its
/// name is among `executed`.
pub open spec fn statuses_follow(
    seeds: Seq<SeedEntry>,
    order: Seq<usize>,
    executed: Seq<Seq<char>>,
    statuses: Seq<SeedStatus>,
) -> bool {
    &&& statuses.len() == order.len()
    &&& forall|i: int| 0 <= i < order.len() ==> {
        let seed = #[trigger] seeds[order[i] as int];
        &&& statuses[i].name@ == seed.name@
        &&& statuses[i].executed == executed.contains(seed.name@)
        &&& statuses[i].priority == seed.priority
    }
}

impl Seeder {
    /// The status of every seed, in the order a run takes them, given the
    /// names already executed. Fails as `sort_seeds_by_priority_and_deps`
    /// does on a dependency cycle.
    pub fn status_report(&self, executed: &Vec<String>) -> (r: Result<Vec<SeedStatus>, Error>)
        ensures
            r is Ok <==> !has_dependency_cycle(self.seeds@),
            match r {
                Ok(st) => exists|o: Seq<usize>| #[trigger] is_seed_order(self.seeds@, o) && independent_first(
                    self.seeds@,
                    o,
                ) && statuses_follow(self.seeds@, o, views(executed@), st@),
                Err(e) => e matches Error::Configuration(m) && cycle_reported(self.seeds@, m@),
            },
    {
        let order = match self.sort_seeds_by_priority_and_deps() {
            Err(e) => return Err(e),
            Ok(o) => o,
        };
        let mut out: Vec<SeedStatus> = Vec::new();
        let mut k: usize = 0;
        while k < order.len()
            invariant
                k <= order@.len(),
                is_seed_order(self.seeds@, order@),
                out@.len() == k,
                forall|i: int| 0 <= i < k ==> {
                    let seed = #[trigger] self.seeds@[order@[i] as int];
                    &&& out@[i].name@ == seed.name@
                    &&& out@[i].executed == views(executed@).contains(seed.name@)
                    &&& out@[i].priority == seed.priority
                },
            decreases order.len() - k,
        {
            let idx = order[k];
            assert(idx < self.seeds@.len());
            let seed = &self.seeds[idx];
            let status = SeedStatus {
                name: seed.name.clone(),
                executed: contains_name(executed, &seed.name),
                priority: seed.priority,
            };
            out.push(status);
            k = k + 1;
        }
        assert(statuses_follow(self.seeds@, order@, views(executed@), out@));
        Ok(out)
    }
}

impl Seeder {
    /// The plan of a run given the names already executed (see
    /// `run_outcome`), over the seeds in priority and dependency order. Fails
    /// as `sort_seeds_by_priority_and_deps` does on a dependency cycle.
    pub fn run_plan(&self, executed: &Vec<String>) -> (r: Result<SeedRunPlan, Error>)
        ensures
            r is Ok <==> !has_dependency_cycle(self.seeds@),
            match r {
                Ok(plan) => {
                    &&& is_seed_order(self.seeds@, plan.order@)
                    &&& run_outcome(self.seeds@, plan.order@, views(executed@)).0 == plan.steps@
                    &&& match run_outcome(self.seeds@, plan.order@, views(executed@)).1 {
                        None => plan.failure is None,
                        Some(m) => plan.failure is Some && (plan.failure.unwrap() matches Error::Configuration(s)
                            && s@ == m),
                    }
                },
                Err(e) => e matches Error::Configuration(m) && cycle_reported(self.seeds@, m@),
            },
    {
        let order = match self.sort_seeds_by_priority_and_deps() {
            Err(e) => return Err(e),
            Ok(o) => o,
        };
        let ghost ss = self.seeds@;
        let ghost ex = views(executed@);
        let mut steps: Vec<SeedStep> = Vec::new();
        let mut ran: Vec<String> = Vec::new();
        let mut k: usize = 0;
        while k < order.len()
            invariant
                k <= order@.len(),
                is_seed_order(ss, order@),
                !has_dependency_cycle(ss),
                ss == self.seeds@,
                ex == views(executed@),
                run_outcome(ss, order@.take(k as int), ex) == (steps@, None::<Seq<char>>),
                views(ran@) == ran_names(ss, steps@),
            decreases order@.len() - k,
        {
            let i = order[k];
            proof {
                assert(order@.take(k + 1).drop_last() =~= order@.take(k as int));
                assert(order@.take(k + 1).last() == order@[k as int]);
                assert(order@.contains(order@[k as int]));
            }
            let seed = &self.seeds[i];
            if contains_name(executed, &seed.name) {
                steps.push(SeedStep::Skip(i));
                proof {
                    assert(steps@.drop_last() =~= run_outcome(ss, order@.take(k as int), ex).0);
                }
            } else {
                match find_missing_dep(&seed.depends_on, executed, &ran) {
                    Some(d) => {
                        let mut m: Vec<char> = Vec::new();
                        push_str(&mut m, "Seed '");
                        push_str(&mut m, seed.name.as_str());
                        push_str(&mut m, "' depends on '");
                        push_str(&mut m, seed.depends_on[d].as_str());
                        push_str(&mut m, "' which has not been executed");
                        let ghost msg = m@;
                        proof {
                            assert(msg =~= missing_dep_message(ss[i as int].name@, seed.depends_on@[d as int]@));
                            lemma_run_outcome_stops(ss, order@, ex, k as int + 1);
                        }
                        return Ok(
                            SeedRunPlan { order, steps, failure: Some(Error::Configuration(string_of(&m))) },
                        );
                    },
                    None => {
                        let ghost old_ran = ran@;
                        steps.push(SeedStep::Run(i));
                        ran.push(seed.name.clone());
                        proof {
                            assert(steps@.drop_last() =~= run_outcome(ss, order@.take(k as int), ex).0);
                            assert(views(ran@) =~= views(old_ran).push(ss[i as int].name@));
                        }
                    },
                }
            }
            k = k + 1;
        }
        assert(order@.take(order@.len() as int) =~= order@);
        Ok(SeedRunPlan { order, steps, failure: None })
    }
}

/// Once the run along a prefix of `order` fails, the run along all of it
/// fails the same way with the same steps.
pub proof fn lemma_run_outcome_stops(seeds: Seq<SeedEntry>, order: Seq<usize>, executed: Seq<Seq<char>>, k: int)
    requires
        0 <= k <= order.len(),
        run_outcome(seeds, order.take(k), executed).1 is Some,
    ensures
        run_outcome(seeds, order, executed) == run_outcome(seeds, order.take(k), executed),
    decreases order.len() - k,
{
    if k < order.len() {
        let next = order.take(k + 1);
        assert(next.drop_last() =~= order.take(k));
        lemma_run_outcome_stops(seeds, order, executed, k + 1);
    } else {
        assert(order.take(k) =~= order);
    }
}

impl Seeder {
    /// The seed `run_seed` and `rollback_seed` act on: the first seed named
    /// `seed_name`, or the not-found error.
    pub fn seed_index(&self, seed_name: &str) -> (r: Result<usize, Error>)
        ensures
            match r {
                Ok(i) => i < self.seeds@.len() && self.seeds@[i as int].name@ == seed_name@ && forall|j: int|
                    0 <= j < i ==> (#[trigger] self.seeds@[j]).name@ != seed_name@,
                Err(e) => (forall|j: int| 0 <= j < self.seeds@.len() ==> (#[trigger] self.seeds@[j]).name@ != seed_name@)
                    && (e matches Error::NotFound(m) && m@ == "Seed '"@ + seed_name@ + "' not found"@),
            },
    {
        let mut i: usize = 0;
        while i < self.seeds.len()
            invariant
                i <= self.seeds@.len(),
                forall|j: int| 0 <= j < i ==> (#[trigger] self.seeds@[j]).name@ != seed_name@,
            decreases self.seeds@.len() - i,
        {
            let a = chars_of(self.seeds[i].name.as_str());
            let b = chars_of(seed_name);
            if crate::text::chars_eq(&a, &b) {
                return Ok(i);
            }
            i = i + 1;
        }
        let mut m: Vec<char> = Vec::new();
        push_str(&mut m, "Seed '");
        push_str(&mut m, seed_name);
        push_str(&mut m, "' not found");
        Err(Error::NotFound(string_of(&m)))
    }

    /// The seed `rollback` undoes: the first seed named like the last
    /// executed name; `None` when nothing was executed or no seed has that
    /// name.
    pub fn rollback_index(&self, executed: &Vec<String>) -> (r: Option<usize>)
        ensures
            executed@.len() == 0 ==> r is None,
            executed@.len() > 0 ==> match r {
                Some(i) => i < self.seeds@.len() && self.seeds@[i as int].name@ == executed@.last()@ && forall|j: int|
                    0 <= j < i ==> (#[trigger] self.seeds@[j]).name@ != executed@.last()@,
                None => forall|j: int| 0 <= j < self.seeds@.len() ==> (#[trigger] self.seeds@[j]).name@ != executed@.last()@,
            },
    {
        if executed.len() == 0 {
            return None;
        }
        let last = &executed[executed.len() - 1];
        match self.seed_index(last.as_str()) {
            Ok(i) => Some(i),
            Err(_) => None,
        }
    }
}

} // verus!
