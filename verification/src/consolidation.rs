//! Regrouping the flat rows of a JOIN into the nested shape they describe:
//! `(parent, child)` rows become `(parent, children)` groups.
//!
//! Rows of one parent need not be adjacent: grouping is by key. Groups come
//! out in the order their key first appears, each group keeps its children in
//! input order, and the first parent value seen for a key is the one kept.

use vstd::prelude::*;

verus! {

/// The key a deterministic key function gives `a`.
pub open spec fn key_of<A, F: Fn(&A) -> u64>(f: F, a: A) -> u64 {
    choose|k: u64| f.ensures((&a,), k)
}

/// `f` can be called on every value and gives one key per value.
pub open spec fn deterministic_key<A, F: Fn(&A) -> u64>(f: F) -> bool {
    &&& forall|a: &A| #[trigger] f.requires((a,))
    &&& forall|a: &A, k1: u64, k2: u64| #[trigger] f.ensures((a,), k1) && #[trigger] f.ensures((a,), k2)
        ==> k1 == k2
}

/// The index of the first group whose parent has key `k`.
pub open spec fn group_index<A, V, F: Fn(&A) -> u64>(gs: Seq<(A, V)>, f: F, k: u64) -> Option<int>
    decreases gs.len(),
{
    if gs.len() == 0 {
        None
    } else {
        match group_index(gs.drop_last(), f, k) {
            Some(j) => Some(j),
            None => if key_of(f, gs.last().0) == k {
                Some(gs.len() - 1)
            } else {
                None
            },
        }
    }
}

/// Adds `add` to the group of `a`'s key, creating the group (with `a` as its
/// parent) at the end when the key is new.
pub open spec fn add_child<A, C, F: Fn(&A) -> u64>(gs: Seq<(A, Seq<C>)>, f: F, a: A, add: Seq<C>) -> Seq<(A, Seq<C>)> {
    match group_index(gs, f, key_of(f, a)) {
        Some(j) => gs.update(j, (gs[j].0, gs[j].1 + add)),
        None => gs.push((a, add)),
    }
}

/// `(parent, child)` rows grouped by the parent's key.
pub open spec fn grouped_two<A, B, F: Fn(&A) -> u64>(items: Seq<(A, B)>, f: F) -> Seq<(A, Seq<B>)>
    decreases items.len(),
{
    if items.len() == 0 {
        Seq::empty()
    } else {
        add_child(grouped_two(items.drop_last(), f), f, items.last().0, seq![items.last().1])
    }
}

/// The children an optional child contributes.
pub open spec fn opt_seq<C>(o: Option<C>) -> Seq<C> {
    match o {
        Some(c) => seq![c],
        None => Seq::empty(),
    }
}

/// LEFT JOIN rows grouped by the parent's key; a missing child adds nothing
/// but still creates its parent's group.
pub open spec fn grouped_two_optional<A, B, F: Fn(&A) -> u64>(items: Seq<(A, Option<B>)>, f: F) -> Seq<(A, Seq<B>)>
    decreases items.len(),
{
    if items.len() == 0 {
        Seq::empty()
    } else {
        add_child(grouped_two_optional(items.drop_last(), f), f, items.last().0, opt_seq(items.last().1))
    }
}

/// Adds `(b, add)` under the group of `a`'s key: into `b`'s key group inside
/// it, each group created at the end when its key is new.
pub open spec fn add_nested<A, B, C, FA: Fn(&A) -> u64, FB: Fn(&B) -> u64>(
    gs: Seq<(A, Seq<(B, Seq<C>)>)>,
    fa: FA,
    fb: FB,
    a: A,
    b: B,
    add: Seq<C>,
) -> Seq<(A, Seq<(B, Seq<C>)>)> {
    match group_index(gs, fa, key_of(fa, a)) {
        Some(j) => gs.update(j, (gs[j].0, add_child(gs[j].1, fb, b, add))),
        None => gs.push((a, seq![(b, add)])),
    }
}

/// Three-level rows grouped by the outer key, then by the middle key within
/// each outer group.
pub open spec fn grouped_three<A, B, C, FA: Fn(&A) -> u64, FB: Fn(&B) -> u64>(
    items: Seq<(A, B, C)>,
    fa: FA,
    fb: FB,
) -> Seq<(A, Seq<(B, Seq<C>)>)>
    decreases items.len(),
{
    if items.len() == 0 {
        Seq::empty()
    } else {
        let (a, b, c) = items.last();
        add_nested(grouped_three(items.drop_last(), fa, fb), fa, fb, a, b, seq![c])
    }
}

/// Three-level rows with an optional innermost level, grouped as
/// `grouped_three`; a missing innermost value adds nothing but still creates
/// its groups.
pub open spec fn grouped_three_optional<A, B, C, FA: Fn(&A) -> u64, FB: Fn(&B) -> u64>(
    items: Seq<(A, B, Option<C>)>,
    fa: FA,
    fb: FB,
) -> Seq<(A, Seq<(B, Seq<C>)>)>
    decreases items.len(),
{
    if items.len() == 0 {
        Seq::empty()
    } else {
        let (a, b, c) = items.last();
        add_nested(grouped_three_optional(items.drop_last(), fa, fb), fa, fb, a, b, opt_seq(c))
    }
}

/// The views of nested grouped rows.
pub open spec fn nested_views<A, B, C>(gs: Seq<(A, Vec<(B, Vec<C>)>)>) -> Seq<(A, Seq<(B, Seq<C>)>)> {
    gs.map_values(|g: (A, Vec<(B, Vec<C>)>)| (g.0, group_views(g.1@)))
}

/// The views of grouped rows.
pub open spec fn group_views<A, B>(gs: Seq<(A, Vec<B>)>) -> Seq<(A, Seq<B>)> {
    gs.map_values(|g: (A, Vec<B>)| (g.0, g.1@))
}

proof fn lemma_group_index_bounds<A, V, F: Fn(&A) -> u64>(gs: Seq<(A, V)>, f: F, k: u64)
    ensures
        match group_index(gs, f, k) {
            Some(j) => 0 <= j < gs.len() && key_of(f, gs[j].0) == k && forall|m: int|
                0 <= m < j ==> key_of(f, #[trigger] gs[m].0) != k,
            None => forall|m: int| 0 <= m < gs.len() ==> key_of(f, #[trigger] gs[m].0) != k,
        },
    decreases gs.len(),
{
    if gs.len() > 0 {
        lemma_group_index_bounds(gs.drop_last(), f, k);
        match group_index(gs.drop_last(), f, k) {
            Some(j) => {
                assert forall|m: int| 0 <= m < j implies key_of(f, #[trigger] gs[m].0) != k by {
                    assert(gs[m] == gs.drop_last()[m]);
                }
                assert(gs[j] == gs.drop_last()[j]);
            },
            None => {
                assert forall|m: int| 0 <= m < gs.len() - 1 implies key_of(f, #[trigger] gs[m].0) != k by {
                    assert(gs[m] == gs.drop_last()[m]);
                }
            },
        }
    }
}

proof fn lemma_group_index_unique<A, V, F: Fn(&A) -> u64>(gs: Seq<(A, V)>, f: F, k: u64, j: int)
    requires
        0 <= j < gs.len(),
        key_of(f, gs[j].0) == k,
        forall|m: int| 0 <= m < j ==> key_of(f, #[trigger] gs[m].0) != k,
    ensures
        group_index(gs, f, k) == Some(j),
{
    lemma_group_index_bounds(gs, f, k);
    match group_index(gs, f, k) {
        Some(i) => {
            if i < j {
                assert(key_of(f, gs[i].0) != k);
            }
            if j < i {
                assert(key_of(f, gs[j].0) != k);
            }
        },
        None => {
            assert(key_of(f, gs[j].0) != k);
        },
    }
}

fn find_key(keys: &Vec<u64>, k: u64) -> (r: Option<usize>)
    ensures
        match r {
            Some(j) => j < keys@.len() && keys@[j as int] == k && forall|m: int| 0 <= m < j ==> keys@[m] != k,
            None => forall|m: int| 0 <= m < keys@.len() ==> keys@[m] != k,
        },
{
    let mut i: usize = 0;
    while i < keys.len()
        invariant
            i <= keys@.len(),
            forall|m: int| 0 <= m < i ==> keys@[m] != k,
        decreases keys.len() - i,
    {
        if keys[i] == k {
            return Some(i);
        }
        i = i + 1;
    }
    None
}

fn call_key<A, F: Fn(&A) -> u64>(f: &F, a: &A) -> (k: u64)
    requires
        deterministic_key(*f),
    ensures
        k == key_of(*f, *a),
{
    let k = f(a);
    assert(f.ensures((a,), k));
    assert(f.ensures((a,), key_of(*f, *a)));
    k
}

/// The keys a key list records are those of its groups' parents.
pub open spec fn keys_match<A, V, F: Fn(&A) -> u64>(keys: Seq<u64>, gs: Seq<(A, V)>, f: F) -> bool {
    keys.len() == gs.len() && forall|m: int| 0 <= m < keys.len() ==> keys[m] == key_of(f, #[trigger] gs[m].0)
}

fn add_child_exec<A, C, F: Fn(&A) -> u64>(
    groups: &mut Vec<(A, Vec<C>)>,
    keys: &mut Vec<u64>,
    a: A,
    add: Vec<C>,
    f: &F,
)
    requires
        deterministic_key(*f),
        keys_match(old(keys)@, old(groups)@, *f),
    ensures
        group_views(final(groups)@) == add_child(group_views(old(groups)@), *f, a, add@),
        keys_match(final(keys)@, final(groups)@, *f),
{
    let ghost before = group_views(groups@);
    let ghost gbefore = groups@;
    let k = call_key(f, &a);
    assert forall|m: int| 0 <= m < before.len() implies key_of(*f, #[trigger] before[m].0) == keys@[m] by {
        assert(before[m].0 == gbefore[m].0);
    }
    match find_key(keys, k) {
        Some(j) => {
            proof {
                lemma_group_index_unique(before, *f, k, j as int);
            }
            let (ga, mut gb) = groups.remove(j);
            let ghost gbv = gb@;
            let mut more = add;
            let ghost addv = more@;
            gb.append(&mut more);
            groups.insert(j, (ga, gb));
            proof {
                assert(gb@ == gbv + addv);
                assert(group_views(groups@) =~= before.update(j as int, (before[j as int].0, before[j as int].1 + addv)));
                assert forall|m: int| 0 <= m < keys@.len() implies keys@[m] == key_of(*f, #[trigger] groups@[m].0) by {
                    if m != j {
                        assert(groups@[m] == gbefore[m]);
                    }
                }
            }
        },
        None => {
            proof {
                lemma_group_index_bounds(before, *f, k);
                if group_index(before, *f, k) is Some {
                    let j = group_index(before, *f, k)->0;
                    assert(keys@[j] == k);
                }
            }
            let ghost av = a;
            let ghost addv = add@;
            groups.push((a, add));
            keys.push(k);
            proof {
                assert(group_views(groups@) =~= before.push((av, addv)));
            }
        },
    }
}

fn add_nested_exec<A, B, C, FA: Fn(&A) -> u64, FB: Fn(&B) -> u64>(
    groups: &mut Vec<(A, Vec<(B, Vec<C>)>)>,
    keys: &mut Vec<u64>,
    inner_keys: &mut Vec<Vec<u64>>,
    a: A,
    b: B,
    add: Vec<C>,
    fa: &FA,
    fb: &FB,
)
    requires
        deterministic_key(*fa),
        deterministic_key(*fb),
        keys_match(old(keys)@, old(groups)@, *fa),
        old(inner_keys)@.len() == old(groups)@.len(),
        forall|m: int| 0 <= m < old(groups)@.len() ==> keys_match(
            (#[trigger] old(inner_keys)@[m])@,
            old(groups)@[m].1@,
            *fb,
        ),
    ensures
        nested_views(final(groups)@) == add_nested(nested_views(old(groups)@), *fa, *fb, a, b, add@),
        keys_match(final(keys)@, final(groups)@, *fa),
        final(inner_keys)@.len() == final(groups)@.len(),
        forall|m: int| 0 <= m < final(groups)@.len() ==> keys_match(
            (#[trigger] final(inner_keys)@[m])@,
            final(groups)@[m].1@,
            *fb,
        ),
{
    let ghost before = nested_views(groups@);
    let ghost gbefore = groups@;
    let ghost ibefore = inner_keys@;
    let k = call_key(fa, &a);
    assert forall|m: int| 0 <= m < before.len() implies key_of(*fa, #[trigger] before[m].0) == keys@[m] by {
        assert(before[m].0 == gbefore[m].0);
    }
    match find_key(keys, k) {
        Some(j) => {
            proof {
                lemma_group_index_unique(before, *fa, k, j as int);
            }
            let (ga, mut inner) = groups.remove(j);
            let mut ik = inner_keys.remove(j);
            assert(keys_match(ik@, inner@, *fb)) by {
                assert(ik == ibefore[j as int]);
                assert(inner == gbefore[j as int].1);
            }
            let ghost innerv = group_views(inner@);
            add_child_exec(&mut inner, &mut ik, b, add, fb);
            groups.insert(j, (ga, inner));
            inner_keys.insert(j, ik);
            proof {
                assert(before[j as int].1 == innerv);
                assert(nested_views(groups@) =~= before.update(j as int, (before[j as int].0, add_child(innerv, *fb, b, add@))));
                assert forall|m: int| 0 <= m < keys@.len() implies keys@[m] == key_of(*fa, #[trigger] groups@[m].0) by {
                    if m != j {
                        assert(groups@[m] == gbefore[m]);
                    }
                }
                assert forall|m: int| 0 <= m < groups@.len() implies keys_match(
                    (#[trigger] inner_keys@[m])@,
                    groups@[m].1@,
                    *fb,
                ) by {
                    if m != j {
                        assert(groups@[m] == gbefore[m]);
                        assert(inner_keys@[m] == ibefore[m]);
                    }
                }
            }
        },
        None => {
            proof {
                lemma_group_index_bounds(before, *fa, k);
                if group_index(before, *fa, k) is Some {
                    let j = group_index(before, *fa, k)->0;
                    assert(keys@[j] == k);
                }
            }
            let kb = call_key(fb, &b);
            let ghost av = a;
            let ghost bv = b;
            let ghost addv = add@;
            let mut inner: Vec<(B, Vec<C>)> = Vec::new();
            inner.push((b, add));
            let mut ik: Vec<u64> = Vec::new();
            ik.push(kb);
            groups.push((a, inner));
            keys.push(k);
            inner_keys.push(ik);
            proof {
                assert(group_views(inner@) =~= seq![(bv, addv)]);
                assert(nested_views(groups@) =~= before.push((av, seq![(bv, addv)])));
                assert forall|m: int| 0 <= m < groups@.len() implies keys_match(
                    (#[trigger] inner_keys@[m])@,
                    groups@[m].1@,
                    *fb,
                ) by {
                    if m < gbefore.len() {
                        assert(groups@[m] == gbefore[m]);
                        assert(inner_keys@[m] == ibefore[m]);
                    }
                }
            }
        },
    }
}

/// The join-result regrouping helpers.
pub struct JoinResultConsolidator;

impl JoinResultConsolidator {
    /// Groups INNER JOIN `(parent, child)` rows by the parent's key (see
    /// `grouped_two`).
    pub fn consolidate_two<A, B, F: Fn(&A) -> u64>(items: Vec<(A, B)>, key_fn: F) -> (r: Vec<(A, Vec<B>)>)
        requires
            deterministic_key(key_fn),
        ensures
            group_views(r@) == grouped_two(items@, key_fn),
    {
        let ghost all = items@;
        let mut groups: Vec<(A, Vec<B>)> = Vec::new();
        let mut keys: Vec<u64> = Vec::new();
        let mut rest = items;
        let mut i: usize = 0;
        let n = rest.len();
        assert(all.skip(0) =~= all);
        assert(group_views(groups@) =~= Seq::<(A, Seq<B>)>::empty());
        while rest.len() > 0
            invariant
                deterministic_key(key_fn),
                n == all.len(),
                i + rest@.len() == n,
                rest@ == all.skip(i as int),
                group_views(groups@) == grouped_two(all.take(i as int), key_fn),
                keys_match(keys@, groups@, key_fn),
            decreases rest@.len(),
        {
            let (a, b) = rest.remove(0);
            proof {
                assert((a, b) == all[i as int]);
                assert(rest@ =~= all.skip(i + 1));
                assert(all.take(i + 1).drop_last() =~= all.take(i as int));
                assert(all.take(i + 1).last() == all[i as int]);
            }
            let ghost bv = b;
            let mut add: Vec<B> = Vec::new();
            add.push(b);
            assert(add@ =~= seq![bv]);
            add_child_exec(&mut groups, &mut keys, a, add, &key_fn);
            i = i + 1;
        }
        assert(all.take(n as int) =~= all);
        groups
    }

    /// Groups LEFT JOIN `(parent, optional child)` rows by the parent's key;
    /// a parent without children keeps an empty group (see
    /// `grouped_two_optional`).
    pub fn consolidate_two_optional<A, B, F: Fn(&A) -> u64>(items: Vec<(A, Option<B>)>, key_fn: F) -> (r: Vec<(A, Vec<B>)>)
        requires
            deterministic_key(key_fn),
        ensures
            group_views(r@) == grouped_two_optional(items@, key_fn),
    {
        let ghost all = items@;
        let mut groups: Vec<(A, Vec<B>)> = Vec::new();
        let mut keys: Vec<u64> = Vec::new();
        let mut rest = items;
        let mut i: usize = 0;
        let n = rest.len();
        assert(all.skip(0) =~= all);
        assert(group_views(groups@) =~= Seq::<(A, Seq<B>)>::empty());
        while rest.len() > 0
            invariant
                deterministic_key(key_fn),
                n == all.len(),
                i + rest@.len() == n,
                rest@ == all.skip(i as int),
                group_views(groups@) == grouped_two_optional(all.take(i as int), key_fn),
                keys_match(keys@, groups@, key_fn),
            decreases rest@.len(),
        {
            let (a, mb) = rest.remove(0);
            proof {
                assert((a, mb) == all[i as int]);
                assert(rest@ =~= all.skip(i + 1));
                assert(all.take(i + 1).drop_last() =~= all.take(i as int));
                assert(all.take(i + 1).last() == all[i as int]);
            }
            let ghost mbv = mb;
            let mut add: Vec<B> = Vec::new();
            match mb {
                Some(b) => add.push(b),
                None => {},
            }
            assert(add@ =~= opt_seq(mbv));
            add_child_exec(&mut groups, &mut keys, a, add, &key_fn);
            i = i + 1;
        }
        assert(all.take(n as int) =~= all);
        groups
    }

    /// Nests three-level join rows two levels deep: by the outer key, then by
    /// the middle key within each outer group (see `grouped_three`).
    pub fn consolidate_three<A, B, C, FA: Fn(&A) -> u64, FB: Fn(&B) -> u64>(
        items: Vec<(A, B, C)>,
        key_a: FA,
        key_b: FB,
    ) -> (r: Vec<(A, Vec<(B, Vec<C>)>)>)
        requires
            deterministic_key(key_a),
            deterministic_key(key_b),
        ensures
            nested_views(r@) == grouped_three(items@, key_a, key_b),
    {
        let ghost all = items@;
        let mut groups: Vec<(A, Vec<(B, Vec<C>)>)> = Vec::new();
        let mut keys: Vec<u64> = Vec::new();
        let mut inner_keys: Vec<Vec<u64>> = Vec::new();
        let mut rest = items;
        let mut i: usize = 0;
        let n = rest.len();
        assert(all.skip(0) =~= all);
        assert(nested_views(groups@) =~= Seq::<(A, Seq<(B, Seq<C>)>)>::empty());
        while rest.len() > 0
            invariant
                deterministic_key(key_a),
                deterministic_key(key_b),
                n == all.len(),
                i + rest@.len() == n,
                rest@ == all.skip(i as int),
                nested_views(groups@) == grouped_three(all.take(i as int), key_a, key_b),
                keys_match(keys@, groups@, key_a),
                inner_keys@.len() == groups@.len(),
                forall|m: int| 0 <= m < groups@.len() ==> keys_match(
                    (#[trigger] inner_keys@[m])@,
                    groups@[m].1@,
                    key_b,
                ),
            decreases rest@.len(),
        {
            let (a, b, c) = rest.remove(0);
            proof {
                assert((a, b, c) == all[i as int]);
                assert(rest@ =~= all.skip(i + 1));
                assert(all.take(i + 1).drop_last() =~= all.take(i as int));
                assert(all.take(i + 1).last() == all[i as int]);
            }
            let ghost cv = c;
            let mut add: Vec<C> = Vec::new();
            add.push(c);
            assert(add@ =~= seq![cv]);
            add_nested_exec(&mut groups, &mut keys, &mut inner_keys, a, b, add, &key_a, &key_b);
            i = i + 1;
        }
        assert(all.take(n as int) =~= all);
        groups
    }

    /// Like `consolidate_three`, for an innermost LEFT JOIN: a missing
    /// innermost value adds nothing and its middle row keeps an empty group
    /// (see `grouped_three_optional`).
    pub fn consolidate_three_optional<A, B, C, FA: Fn(&A) -> u64, FB: Fn(&B) -> u64>(
        items: Vec<(A, B, Option<C>)>,
        key_a: FA,
        key_b: FB,
    ) -> (r: Vec<(A, Vec<(B, Vec<C>)>)>)
        requires
            deterministic_key(key_a),
            deterministic_key(key_b),
        ensures
            nested_views(r@) == grouped_three_optional(items@, key_a, key_b),
    {
        let ghost all = items@;
        let mut groups: Vec<(A, Vec<(B, Vec<C>)>)> = Vec::new();
        let mut keys: Vec<u64> = Vec::new();
        let mut inner_keys: Vec<Vec<u64>> = Vec::new();
        let mut rest = items;
        let mut i: usize = 0;
        let n = rest.len();
        assert(all.skip(0) =~= all);
        assert(nested_views(groups@) =~= Seq::<(A, Seq<(B, Seq<C>)>)>::empty());
        while rest.len() > 0
            invariant
                deterministic_key(key_a),
                deterministic_key(key_b),
                n == all.len(),
                i + rest@.len() == n,
                rest@ == all.skip(i as int),
                nested_views(groups@) == grouped_three_optional(all.take(i as int), key_a, key_b),
                keys_match(keys@, groups@, key_a),
                inner_keys@.len() == groups@.len(),
                forall|m: int| 0 <= m < groups@.len() ==> keys_match(
                    (#[trigger] inner_keys@[m])@,
                    groups@[m].1@,
                    key_b,
                ),
            decreases rest@.len(),
        {
            let (a, b, mc) = rest.remove(0);
            proof {
                assert((a, b, mc) == all[i as int]);
                assert(rest@ =~= all.skip(i + 1));
                assert(all.take(i + 1).drop_last() =~= all.take(i as int));
                assert(all.take(i + 1).last() == all[i as int]);
            }
            let ghost mcv = mc;
            let mut add: Vec<C> = Vec::new();
            match mc {
                Some(c) => add.push(c),
                None => {},
            }
            assert(add@ =~= opt_seq(mcv));
            add_nested_exec(&mut groups, &mut keys, &mut inner_keys, a, b, add, &key_a, &key_b);
            i = i + 1;
        }
        assert(all.take(n as int) =~= all);
        groups
    }
}

/// The distinct keys of the parents of `items`, in order of first appearance.
pub open spec fn keys_in_first_order<A, B, F: Fn(&A) -> u64>(items: Seq<(A, B)>, f: F) -> Seq<u64>
    decreases items.len(),
{
    if items.len() == 0 {
        Seq::empty()
    } else {
        let prev = keys_in_first_order(items.drop_last(), f);
        let k = key_of(f, items.last().0);
        if prev.contains(k) {
            prev
        } else {
            prev.push(k)
        }
    }
}

/// The children of the rows whose parent has key `k`, in input order.
pub open spec fn children_for<A, B, F: Fn(&A) -> u64>(items: Seq<(A, B)>, f: F, k: u64) -> Seq<B>
    decreases items.len(),
{
    if items.len() == 0 {
        Seq::empty()
    } else {
        children_for(items.drop_last(), f, k) + if key_of(f, items.last().0) == k {
            seq![items.last().1]
        } else {
            Seq::empty()
        }
    }
}

/// The parent of the first row whose parent has key `k`.
pub open spec fn first_parent<A, B, F: Fn(&A) -> u64>(items: Seq<(A, B)>, f: F, k: u64) -> Option<A>
    decreases items.len(),
{
    if items.len() == 0 {
        None
    } else {
        match first_parent(items.drop_last(), f, k) {
            Some(a) => Some(a),
            None => if key_of(f, items.last().0) == k {
                Some(items.last().0)
            } else {
                None
            },
        }
    }
}

/// The keys of the groups' parents, in group order.
pub open spec fn group_keys<A, V, F: Fn(&A) -> u64>(gs: Seq<(A, V)>, f: F) -> Seq<u64> {
    gs.map_values(|g: (A, V)| key_of(f, g.0))
}

proof fn lemma_absent_key<A, B, F: Fn(&A) -> u64>(items: Seq<(A, B)>, f: F, k: u64)
    requires
        !keys_in_first_order(items, f).contains(k),
    ensures
        children_for(items, f, k) == Seq::<B>::empty(),
        first_parent(items, f, k) is None,
    decreases items.len(),
{
    if items.len() > 0 {
        let prev = keys_in_first_order(items.drop_last(), f);
        let kl = key_of(f, items.last().0);
        if prev.contains(k) {
            if prev.contains(kl) {
            } else {
                assert(prev.push(kl).contains(k)) by {
                    let w = choose|i: int| 0 <= i < prev.len() && prev[i] == k;
                    assert(prev.push(kl)[w] == k);
                }
            }
        }
        assert(!prev.contains(k));
        lemma_absent_key(items.drop_last(), f, k);
        if kl == k {
            if prev.contains(kl) {
            } else {
                assert(prev.push(kl)[prev.len() as int] == k);
            }
        }
        assert(children_for(items, f, k) =~= Seq::<B>::empty());
    }
}

proof fn lemma_keys_distinct<A, B, F: Fn(&A) -> u64>(items: Seq<(A, B)>, f: F)
    ensures
        keys_in_first_order(items, f).no_duplicates(),
    decreases items.len(),
{
    if items.len() > 0 {
        lemma_keys_distinct(items.drop_last(), f);
    }
}

/// What grouping promises: one group per distinct parent key, in order of
/// the key's first appearance; each group holds the children of all rows with
/// its key, in input order; and its parent is the first parent seen with that
/// key.
pub proof fn lemma_grouping_laws<A, B, F: Fn(&A) -> u64>(items: Seq<(A, B)>, f: F)
    ensures
        group_keys(grouped_two(items, f), f) == keys_in_first_order(items, f),
        forall|j: int| 0 <= j < grouped_two(items, f).len() ==> {
            let g = #[trigger] grouped_two(items, f)[j];
            &&& g.1 == children_for(items, f, key_of(f, g.0))
            &&& first_parent(items, f, key_of(f, g.0)) == Some(g.0)
        },
    decreases items.len(),
{
    if items.len() > 0 {
        let pitems = items.drop_last();
        lemma_grouping_laws(pitems, f);
        lemma_keys_distinct(pitems, f);
        let g = grouped_two(pitems, f);
        let (a, b) = items.last();
        let k = key_of(f, a);
        let prev_keys = keys_in_first_order(pitems, f);
        lemma_group_index_bounds(g, f, k);
        let g2 = grouped_two(items, f);
        assert(g2 == add_child(g, f, a, seq![b]));
        match group_index(g, f, k) {
            Some(j) => {
                assert(group_keys(g, f)[j] == k);
                assert(prev_keys.contains(k));
                assert(g2 == g.update(j, (g[j].0, g[j].1 + seq![b])));
                assert(group_keys(g2, f) =~= group_keys(g, f));
                assert forall|m: int| 0 <= m < g2.len() implies {
                    let gm = #[trigger] g2[m];
                    &&& gm.1 == children_for(items, f, key_of(f, gm.0))
                    &&& first_parent(items, f, key_of(f, gm.0)) == Some(gm.0)
                } by {
                    let km = key_of(f, g[m].0);
                    assert(g2[m].0 == g[m].0);
                    assert(group_keys(g, f)[m] == km);
                    if m == j {
                        assert(g2[m].1 =~= children_for(items, f, km));
                    } else {
                        assert(km != k) by {
                            assert(prev_keys[m] == km);
                            assert(prev_keys[j] == k);
                        }
                        assert(g2[m] == g[m]);
                        assert(children_for(items, f, km) =~= children_for(pitems, f, km));
                    }
                }
            },
            None => {
                assert(!prev_keys.contains(k)) by {
                    if prev_keys.contains(k) {
                        let w = choose|i: int| 0 <= i < prev_keys.len() && prev_keys[i] == k;
                        assert(group_keys(g, f)[w] == key_of(f, g[w].0));
                    }
                }
                lemma_absent_key(pitems, f, k);
                assert(g2 == g.push((a, seq![b])));
                assert(group_keys(g2, f) =~= prev_keys.push(k));
                assert forall|m: int| 0 <= m < g2.len() implies {
                    let gm = #[trigger] g2[m];
                    &&& gm.1 == children_for(items, f, key_of(f, gm.0))
                    &&& first_parent(items, f, key_of(f, gm.0)) == Some(gm.0)
                } by {
                    if m < g.len() {
                        let km = key_of(f, g[m].0);
                        assert(g2[m] == g[m]);
                        assert(group_keys(g, f)[m] == km);
                        assert(prev_keys[m] == km);
                        assert(km != k);
                        assert(children_for(items, f, km) =~= children_for(pitems, f, km));
                    } else {
                        assert(g2[m] == (a, seq![b]));
                        assert(children_for(items, f, k) =~= seq![b]);
                    }
                }
            },
        }
    }
}

/// The number of children over all groups.
pub open spec fn total_children<A, B>(gs: Seq<(A, Seq<B>)>) -> nat
    decreases gs.len(),
{
    if gs.len() == 0 {
        0
    } else {
        total_children(gs.drop_last()) + gs.last().1.len()
    }
}

proof fn lemma_total_update<A, B>(gs: Seq<(A, Seq<B>)>, j: int, g: (A, Seq<B>))
    requires
        0 <= j < gs.len(),
    ensures
        total_children(gs.update(j, g)) == total_children(gs) - gs[j].1.len() + g.1.len(),
    decreases gs.len(),
{
    if j < gs.len() - 1 {
        assert(gs.update(j, g).drop_last() =~= gs.drop_last().update(j, g));
        lemma_total_update(gs.drop_last(), j, g);
    } else {
        assert(gs.update(j, g).drop_last() =~= gs.drop_last());
    }
}

/// Grouping loses and invents no row: every group has at least one child,
/// and the groups hold as many children as there were rows.
pub proof fn lemma_groups_nonempty_and_complete<A, B, F: Fn(&A) -> u64>(items: Seq<(A, B)>, f: F)
    ensures
        forall|j: int| 0 <= j < grouped_two(items, f).len() ==> (#[trigger] grouped_two(items, f)[j]).1.len() > 0,
        total_children(grouped_two(items, f)) == items.len(),
    decreases items.len(),
{
    if items.len() > 0 {
        let pitems = items.drop_last();
        lemma_groups_nonempty_and_complete(pitems, f);
        let g = grouped_two(pitems, f);
        let (a, b) = items.last();
        let k = key_of(f, a);
        lemma_group_index_bounds(g, f, k);
        match group_index(g, f, k) {
            Some(j) => {
                lemma_total_update(g, j, (g[j].0, g[j].1 + seq![b]));
            },
            None => {
                assert(g.push((a, seq![b])).drop_last() =~= g);
            },
        }
    }
}

/// The children of the rows whose parent has key `k`, in input order.
pub open spec fn children_with_key<A, B, F: Fn(&A) -> u64>(items: Seq<(A, B)>, f: F, k: u64) -> Seq<B>
    decreases items.len(),
{
    if items.len() == 0 {
        Seq::empty()
    } else {
        children_with_key(items.drop_last(), f, k) + if key_of(f, items.last().0) == k {
            seq![items.last().1]
        } else {
            Seq::<B>::empty()
        }
    }
}

/// `g` groups `items` by first appearance: each group's parent is the first
/// row's parent with that key and its children are those of every row with
/// that key, in input order; groups come in the order their keys first
/// appear (so no key has two groups); and every row's key has a group.
pub open spec fn by_first_appearance<A, B, F: Fn(&A) -> u64>(items: Seq<(A, B)>, f: F, g: Seq<(A, Seq<B>)>) -> bool {
    &&& forall|j: int|
        0 <= j < g.len() ==> {
            &&& group_index(items, f, key_of(f, (#[trigger] g[j]).0)) is Some
            &&& items[group_index(items, f, key_of(f, g[j].0))->0].0 == g[j].0
            &&& g[j].1 == children_with_key(items, f, key_of(f, g[j].0))
        }
    &&& forall|j1: int, j2: int|
        0 <= j1 < j2 < g.len() ==> group_index(items, f, key_of(f, (#[trigger] g[j1]).0))->0 < group_index(
            items,
            f,
            key_of(f, (#[trigger] g[j2]).0),
        )->0
    &&& forall|i: int| 0 <= i < items.len() ==> group_index(g, f, key_of(f, (#[trigger] items[i]).0)) is Some
}

proof fn lemma_no_children<A, B, F: Fn(&A) -> u64>(items: Seq<(A, B)>, f: F, k: u64)
    requires
        forall|m: int| 0 <= m < items.len() ==> key_of(f, #[trigger] items[m].0) != k,
    ensures
        children_with_key(items, f, k) == Seq::<B>::empty(),
    decreases items.len(),
{
    if items.len() > 0 {
        let p = items.drop_last();
        assert forall|m: int| 0 <= m < p.len() implies key_of(f, #[trigger] p[m].0) != k by {
            assert(p[m] == items[m]);
        }
        lemma_no_children(p, f, k);
        assert(key_of(f, items[items.len() - 1].0) != k);
    }
}

proof fn lemma_same_parents_same_index<A, V, W, F: Fn(&A) -> u64>(g: Seq<(A, V)>, h: Seq<(A, W)>, f: F, k: u64)
    requires
        g.len() <= h.len(),
        forall|m: int| 0 <= m < g.len() ==> (#[trigger] g[m]).0 == h[m].0,
        group_index(g, f, k) is Some,
    ensures
        group_index(h, f, k) == group_index(g, f, k),
{
    lemma_group_index_bounds(g, f, k);
    let j = group_index(g, f, k)->0;
    assert(g[j].0 == h[j].0);
    assert forall|m: int| 0 <= m < j implies key_of(f, #[trigger] h[m].0) != k by {
        assert(g[m].0 == h[m].0);
        assert(key_of(f, g[m].0) != k);
    }
    lemma_group_index_unique(h, f, k, j);
}

/// Two-way grouping keeps the rows' first-appearance order: see
/// `by_first_appearance`.
#[verifier::rlimit(60)]
pub proof fn lemma_grouped_by_first_appearance<A, B, F: Fn(&A) -> u64>(items: Seq<(A, B)>, f: F)
    ensures
        by_first_appearance(items, f, grouped_two(items, f)),
    decreases items.len(),
{
    if items.len() > 0 {
        let p = items.drop_last();
        lemma_grouped_by_first_appearance(p, f);
        let g = grouped_two(p, f);
        let a = items.last().0;
        let b = items.last().1;
        let k = key_of(f, a);
        let n = items.len() - 1;
        assert forall|i: int| 0 <= i < n implies #[trigger] items[i] == p[i] by {}
        lemma_group_index_bounds(g, f, k);
        let g2 = grouped_two(items, f);
        match group_index(g, f, k) {
            Some(j0) => {
                assert(g2 == g.update(j0, (g[j0].0, g[j0].1 + seq![b])));
                assert forall|j: int| 0 <= j < g2.len() implies {
                    &&& group_index(items, f, key_of(f, (#[trigger] g2[j]).0)) is Some
                    &&& items[group_index(items, f, key_of(f, g2[j].0))->0].0 == g2[j].0
                    &&& g2[j].1 == children_with_key(items, f, key_of(f, g2[j].0))
                } by {
                    let kk = key_of(f, g[j].0);
                    assert(g2[j].0 == g[j].0);
                    assert(group_index(p, f, kk) is Some);
                    let i = group_index(p, f, kk)->0;
                    lemma_group_index_bounds(p, f, kk);
                    assert(group_index(items, f, kk) == Some(i));
                    assert(items[i] == p[i]);
                    if j == j0 {
                        assert(kk == k);
                    } else {
                        if kk == k {
                            if j < j0 {
                                assert(group_index(p, f, key_of(f, g[j].0))->0 < group_index(p, f, key_of(f, g[j0].0))->0);
                            } else {
                                assert(group_index(p, f, key_of(f, g[j0].0))->0 < group_index(p, f, key_of(f, g[j].0))->0);
                            }
                        }
                        assert(children_with_key(items, f, kk) == children_with_key(p, f, kk) + Seq::<B>::empty());
                        assert(children_with_key(p, f, kk) + Seq::<B>::empty() =~= children_with_key(p, f, kk));
                    }
                }
                assert forall|j1: int, j2: int| 0 <= j1 < j2 < g2.len() implies group_index(
                    items,
                    f,
                    key_of(f, (#[trigger] g2[j1]).0),
                )->0 < group_index(items, f, key_of(f, (#[trigger] g2[j2]).0))->0 by {
                    assert(g2[j1].0 == g[j1].0 && g2[j2].0 == g[j2].0);
                    assert(group_index(p, f, key_of(f, g[j1].0)) is Some);
                    assert(group_index(p, f, key_of(f, g[j2].0)) is Some);
                    assert(group_index(p, f, key_of(f, g[j1].0))->0 < group_index(p, f, key_of(f, g[j2].0))->0);
                }
                assert forall|i: int| 0 <= i < items.len() implies group_index(
                    g2,
                    f,
                    key_of(f, (#[trigger] items[i]).0),
                ) is Some by {
                    let kk = key_of(f, items[i].0);
                    if i < n {
                        assert(items[i] == p[i]);
                        assert(group_index(g, f, key_of(f, p[i].0)) is Some);
                    }
                    assert(group_index(g, f, kk) is Some);
                    assert forall|m: int| 0 <= m < g.len() implies (#[trigger] g[m]).0 == g2[m].0 by {}
                    lemma_same_parents_same_index(g, g2, f, kk);
                }
            },
            None => {
                assert(g2 == g.push((a, seq![b])));
                lemma_group_index_bounds(p, f, k);
                if group_index(p, f, k) is Some {
                    let i = group_index(p, f, k)->0;
                    assert(group_index(g, f, key_of(f, p[i].0)) is Some);
                }
                assert(group_index(items, f, k) == Some(n));
                lemma_no_children(p, f, k);
                assert(children_with_key(items, f, k) =~= seq![b]);
                assert forall|j: int| 0 <= j < g2.len() implies {
                    &&& group_index(items, f, key_of(f, (#[trigger] g2[j]).0)) is Some
                    &&& items[group_index(items, f, key_of(f, g2[j].0))->0].0 == g2[j].0
                    &&& g2[j].1 == children_with_key(items, f, key_of(f, g2[j].0))
                } by {
                    if j < g.len() {
                        let kk = key_of(f, g[j].0);
                        assert(g2[j] == g[j]);
                        assert(kk != k);
                        assert(group_index(p, f, kk) is Some);
                        let i = group_index(p, f, kk)->0;
                        lemma_group_index_bounds(p, f, kk);
                        assert(group_index(items, f, kk) == Some(i));
                        assert(items[i] == p[i]);
                        assert(children_with_key(items, f, kk) == children_with_key(p, f, kk) + Seq::<B>::empty());
                        assert(children_with_key(p, f, kk) + Seq::<B>::empty() =~= children_with_key(p, f, kk));
                    } else {
                        assert(g2[j] == (a, seq![b]));
                    }
                }
                assert forall|j1: int, j2: int| 0 <= j1 < j2 < g2.len() implies group_index(
                    items,
                    f,
                    key_of(f, (#[trigger] g2[j1]).0),
                )->0 < group_index(items, f, key_of(f, (#[trigger] g2[j2]).0))->0 by {
                    assert(g2[j1] == g[j1]);
                    let k1 = key_of(f, g[j1].0);
                    assert(group_index(p, f, k1) is Some);
                    lemma_group_index_bounds(p, f, k1);
                    assert(k1 != k);
                    if j2 < g.len() {
                        assert(g2[j2] == g[j2]);
                        let k2 = key_of(f, g[j2].0);
                        assert(k2 != k);
                        assert(group_index(p, f, k2) is Some);
                        assert(group_index(p, f, k1)->0 < group_index(p, f, k2)->0);
                    } else {
                        assert(g2[j2].0 == a);
                    }
                }
                assert forall|i: int| 0 <= i < items.len() implies group_index(
                    g2,
                    f,
                    key_of(f, (#[trigger] items[i]).0),
                ) is Some by {
                    let kk = key_of(f, items[i].0);
                    if i < n {
                        assert(items[i] == p[i]);
                        assert(group_index(g, f, key_of(f, p[i].0)) is Some);
                        assert forall|m: int| 0 <= m < g.len() implies (#[trigger] g[m]).0 == g2[m].0 by {}
                        lemma_same_parents_same_index(g, g2, f, kk);
                    } else {
                        assert forall|m: int| 0 <= m < g.len() implies key_of(f, #[trigger] g2[m].0) != k by {
                            assert(g2[m] == g[m]);
                        }
                        lemma_group_index_unique(g2, f, k, g.len() as int);
                    }
                }
            },
        }
    }
}

} // verus!
