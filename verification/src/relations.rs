//! Relations as data: descriptors of declared relations, dotted relation
//! paths, the trie of relations an eager load resolves, the builder that pairs
//! it with a root query, and the reusable bundle of relation constraints.

use vstd::prelude::*;
use crate::builder::QueryBuilder;
use crate::condition::{ConditionValue, Operator};
use crate::dialect::Order;
use crate::json::JsonValue;
use crate::model::ModelMeta;
use crate::text::{
    SepKind, chars_of, lemma_split_nonempty, push_joined, seq_join, split_by, split_pieces, string_of,
    views, vviews,
};

verus! {

/// The kind of a declared relation.
#[derive(Clone, Copy, PartialEq, Eq, Debug)]
pub enum RelationType {
    /// Inverse side; the foreign key lives on the declaring model.
    BelongsTo,
    /// One related row keyed by a foreign key on the related table.
    HasOne,
    /// Many related rows keyed by a foreign key on the related table.
    HasMany,
    /// Many related rows reached through a pivot table.
    HasManyThrough,
    /// Polymorphic inverse side.
    MorphTo,
    /// One related row keyed by a `(type, id)` pair.
    MorphOne,
    /// Many related rows keyed by a `(type, id)` pair.
    MorphMany,
}

/// The snake_case spelling of a relation kind, as the model attributes write it.
pub open spec fn relation_type_name(t: RelationType) -> Seq<char> {
    match t {
        RelationType::BelongsTo => "belongs_to"@,
        RelationType::HasOne => "has_one"@,
        RelationType::HasMany => "has_many"@,
        RelationType::HasManyThrough => "has_many_through"@,
        RelationType::MorphTo => "morph_to"@,
        RelationType::MorphOne => "morph_one"@,
        RelationType::MorphMany => "morph_many"@,
    }
}

impl RelationType {
    /// The snake_case spelling of the kind.
    pub fn as_str(&self) -> (s: &'static str)
        ensures
            s@ == relation_type_name(*self),
    {
        match self {
            RelationType::BelongsTo => "belongs_to",
            RelationType::HasOne => "has_one",
            RelationType::HasMany => "has_many",
            RelationType::HasManyThrough => "has_many_through",
            RelationType::MorphTo => "morph_to",
            RelationType::MorphOne => "morph_one",
            RelationType::MorphMany => "morph_many",
        }
    }

    /// The snake_case spelling of the kind, owned.
    pub fn to_string(&self) -> (s: String)
        ensures
            s@ == relation_type_name(*self),
    {
        let cs = chars_of(self.as_str());
        string_of(&cs)
    }
}

/// A description of one relation declared on a model.
#[derive(Clone, Debug)]
pub struct RelationInfo {
    /// The declaring field's name.
    pub name: String,
    /// The kind of relation; it decides which other fields are set.
    pub relation_type: RelationType,
    /// The table on the far side.
    pub related_table: String,
    /// The linking column (empty for the morph kinds).
    pub foreign_key: String,
    /// The column the foreign key is compared against.
    pub local_key: String,
    /// The join table of a through-relation.
    pub pivot_table: Option<String>,
    /// The pivot column pointing at the related table.
    pub related_key: Option<String>,
    /// The discriminator column of a morph relation.
    pub morph_type_column: Option<String>,
    /// The owner-key column of a morph relation.
    pub morph_id_column: Option<String>,
}

/// The fields every plain (non-pivot, non-morph) descriptor shares.
pub open spec fn plain_relation(
    r: RelationInfo,
    t: RelationType,
    name: Seq<char>,
    related_table: Seq<char>,
    foreign_key: Seq<char>,
    local_key: Seq<char>,
) -> bool {
    &&& r.name@ == name
    &&& r.relation_type == t
    &&& r.related_table@ == related_table
    &&& r.foreign_key@ == foreign_key
    &&& r.local_key@ == local_key
    &&& r.pivot_table is None
    &&& r.related_key is None
    &&& r.morph_type_column is None
    &&& r.morph_id_column is None
}

/// The fields of a morph descriptor.
pub open spec fn morph_relation(
    r: RelationInfo,
    t: RelationType,
    name: Seq<char>,
    related_table: Seq<char>,
    type_column: Seq<char>,
    id_column: Seq<char>,
    local_key: Seq<char>,
) -> bool {
    &&& r.name@ == name
    &&& r.relation_type == t
    &&& r.related_table@ == related_table
    &&& r.foreign_key@.len() == 0
    &&& r.local_key@ == local_key
    &&& r.pivot_table is None
    &&& r.related_key is None
    &&& r.morph_type_column matches Some(c) && c@ == type_column
    &&& r.morph_id_column matches Some(c) && c@ == id_column
}

fn plain(t: RelationType, name: &str, related_table: &str, foreign_key: &str, local_key: &str) -> (r:
    RelationInfo)
    ensures
        plain_relation(r, t, name@, related_table@, foreign_key@, local_key@),
{
    RelationInfo {
        name: name.to_string(),
        relation_type: t,
        related_table: related_table.to_string(),
        foreign_key: foreign_key.to_string(),
        local_key: local_key.to_string(),
        pivot_table: None,
        related_key: None,
        morph_type_column: None,
        morph_id_column: None,
    }
}

fn morph(t: RelationType, name: &str, related_table: &str, type_column: &str, id_column: &str, local_key: &str) -> (r: RelationInfo)
    ensures
        morph_relation(r, t, name@, related_table@, type_column@, id_column@, local_key@),
{
    RelationInfo {
        name: name.to_string(),
        relation_type: t,
        related_table: related_table.to_string(),
        foreign_key: String::new(),
        local_key: local_key.to_string(),
        pivot_table: None,
        related_key: None,
        morph_type_column: Some(type_column.to_string()),
        morph_id_column: Some(id_column.to_string()),
    }
}

impl RelationInfo {
    /// An inverse relation: `foreign_key` on the declaring table points at
    /// `local_key` on `related_table`.
    pub fn belongs_to(name: &str, related_table: &str, foreign_key: &str, local_key: &str) -> (r: Self)
        ensures
            plain_relation(r, RelationType::BelongsTo, name@, related_table@, foreign_key@, local_key@),
    {
        plain(RelationType::BelongsTo, name, related_table, foreign_key, local_key)
    }

    /// A one-to-one relation: `foreign_key` on `related_table` points back at
    /// `local_key`.
    pub fn has_one(name: &str, related_table: &str, foreign_key: &str, local_key: &str) -> (r: Self)
        ensures
            plain_relation(r, RelationType::HasOne, name@, related_table@, foreign_key@, local_key@),
    {
        plain(RelationType::HasOne, name, related_table, foreign_key, local_key)
    }

    /// A one-to-many relation: `foreign_key` on `related_table` points back at
    /// `local_key`.
    pub fn has_many(name: &str, related_table: &str, foreign_key: &str, local_key: &str) -> (r: Self)
        ensures
            plain_relation(r, RelationType::HasMany, name@, related_table@, foreign_key@, local_key@),
    {
        plain(RelationType::HasMany, name, related_table, foreign_key, local_key)
    }

    /// A many-to-many relation through `pivot_table`, whose `foreign_key`
    /// points back at the owner and whose `related_key` points at
    /// `related_table`.
    pub fn has_many_through(
        name: &str,
        related_table: &str,
        pivot_table: &str,
        foreign_key: &str,
        related_key: &str,
        local_key: &str,
    ) -> (r: Self)
        ensures
            r.name@ == name@,
            r.relation_type == RelationType::HasManyThrough,
            r.related_table@ == related_table@,
            r.foreign_key@ == foreign_key@,
            r.local_key@ == local_key@,
            r.pivot_table matches Some(p) && p@ == pivot_table@,
            r.related_key matches Some(k) && k@ == related_key@,
            r.morph_type_column is None,
            r.morph_id_column is None,
    {
        RelationInfo {
            name: name.to_string(),
            relation_type: RelationType::HasManyThrough,
            related_table: related_table.to_string(),
            foreign_key: foreign_key.to_string(),
            local_key: local_key.to_string(),
            pivot_table: Some(pivot_table.to_string()),
            related_key: Some(related_key.to_string()),
            morph_type_column: None,
            morph_id_column: None,
        }
    }

    /// A polymorphic one-to-one relation keyed by `(type_column, id_column)`
    /// on `related_table`.
    pub fn morph_one(name: &str, related_table: &str, type_column: &str, id_column: &str, local_key: &str) -> (r: Self)
        ensures
            morph_relation(r, RelationType::MorphOne, name@, related_table@, type_column@, id_column@, local_key@),
    {
        morph(RelationType::MorphOne, name, related_table, type_column, id_column, local_key)
    }

    /// A polymorphic one-to-many relation keyed by `(type_column, id_column)`
    /// on `related_table`.
    pub fn morph_many(name: &str, related_table: &str, type_column: &str, id_column: &str, local_key: &str) -> (r: Self)
        ensures
            morph_relation(r, RelationType::MorphMany, name@, related_table@, type_column@, id_column@, local_key@),
    {
        morph(RelationType::MorphMany, name, related_table, type_column, id_column, local_key)
    }
}

/// A related model paired with the data of the pivot row that linked it.
#[derive(Clone, Debug)]
pub struct WithPivot<M, P> {
    /// The related model.
    pub model: M,
    /// The pivot row's own data.
    pub pivot: P,
}

impl<M, P> WithPivot<M, P> {
    /// Pairs a related model with its pivot data.
    pub fn new(model: M, pivot: P) -> (r: Self)
        ensures
            r.model == model,
            r.pivot == pivot,
    {
        WithPivot { model, pivot }
    }

    /// The model, without the pivot data.
    pub fn into_model(self) -> (m: M)
        ensures
            m == self.model,
    {
        self.model
    }

    /// The pivot data.
    pub fn pivot(&self) -> (p: &P)
        ensures
            *p == self.pivot,
    {
        &self.pivot
    }

    /// The model and the pivot data.
    pub fn into_parts(self) -> (r: (M, P))
        ensures
            r.0 == self.model,
            r.1 == self.pivot,
    {
        (self.model, self.pivot)
    }
}

/// The hops of a dotted relation path: the pieces between its dots, empty
/// pieces included.
pub open spec fn path_segments(path: Seq<char>) -> Seq<Seq<char>> {
    split_pieces(path, SepKind::Dot)
}

/// A dotted relation path such as `posts.comments.author`.
#[derive(Clone, Debug)]
pub struct RelationPath {
    /// The path as written.
    pub full_path: String,
    /// Its hops, outermost first.
    pub segments: Vec<String>,
}

fn strings_of(parts: &Vec<Vec<char>>) -> (r: Vec<String>)
    ensures
        views(r@) == vviews(parts@),
{
    let mut r: Vec<String> = Vec::new();
    let mut i: usize = 0;
    while i < parts.len()
        invariant
            i <= parts@.len(),
            views(r@) == vviews(parts@).take(i as int),
        decreases parts.len() - i,
    {
        let s = string_of(&parts[i]);
        proof {
            assert(views(r@).len() == i);
            assert(r@.len() == i);
        }
        r.push(s);
        assert(views(r@) =~= vviews(parts@).take(i + 1));
        i = i + 1;
    }
    assert(vviews(parts@).take(parts@.len() as int) =~= vviews(parts@));
    r
}

impl RelationPath {
    /// Splits a dotted path into its hops. Splitting is unconditional: an
    /// empty string is one empty hop.
    pub fn parse(path: &str) -> (r: Self)
        ensures
            r.full_path@ == path@,
            views(r.segments@) == path_segments(path@),
    {
        let cs = chars_of(path);
        let pieces = split_by(&cs, SepKind::Dot);
        RelationPath { full_path: path.to_string(), segments: strings_of(&pieces) }
    }

    /// The first hop, or `""` for a path without hops.
    pub fn root(&self) -> (s: &str)
        ensures
            s@ == if self.segments@.len() > 0 {
                self.segments@[0]@
            } else {
                Seq::empty()
            },
    {
        if self.segments.len() > 0 {
            self.segments[0].as_str()
        } else {
            proof {
                reveal_strlit("");
            }
            ""
        }
    }

    /// The path without its first hop, or `None` once one hop is left.
    pub fn nested(&self) -> (r: Option<RelationPath>)
        ensures
            match r {
                Some(p) => self.segments@.len() > 1 && views(p.segments@) == views(self.segments@).skip(1)
                    && p.full_path@ == seq_join(views(self.segments@).skip(1), "."@),
                None => self.segments@.len() <= 1,
            },
    {
        if self.segments.len() > 1 {
            let mut rest: Vec<String> = Vec::new();
            let mut i: usize = 1;
            while i < self.segments.len()
                invariant
                    1 <= i <= self.segments@.len(),
                    views(rest@) == views(self.segments@).skip(1).take(i - 1),
                decreases self.segments.len() - i,
            {
                let seg = self.segments[i].clone();
                proof {
                    assert(views(rest@).len() == i - 1);
                    assert(rest@.len() == i - 1);
                }
                rest.push(seg);
                assert(views(rest@) =~= views(self.segments@).skip(1).take(i as int));
                i = i + 1;
            }
            assert(views(self.segments@).skip(1).take(self.segments@.len() - 1) =~= views(self.segments@).skip(1));
            let mut full: Vec<char> = Vec::new();
            push_joined(&mut full, &rest, ".");
            Some(RelationPath { full_path: string_of(&full), segments: rest })
        } else {
            None
        }
    }

    /// Whether more than one hop is left.
    pub fn is_nested(&self) -> (b: bool)
        ensures
            b == (self.segments@.len() > 1),
    {
        self.segments.len() > 1
    }

    /// The number of hops.
    pub fn depth(&self) -> (n: usize)
        ensures
            n == self.segments@.len(),
    {
        self.segments.len()
    }
}

proof fn lemma_join_grow_last(ps: Seq<Seq<char>>, sep: Seq<char>, c: char)
    requires
        ps.len() >= 1,
    ensures
        seq_join(ps.update(ps.len() - 1, ps.last().push(c)), sep) == seq_join(ps, sep).push(c),
{
    let qs = ps.update(ps.len() - 1, ps.last().push(c));
    if ps.len() == 1 {
        assert(qs[0] == ps[0].push(c));
    } else {
        assert(qs.drop_last() =~= ps.drop_last());
        assert(qs.last() == ps.last().push(c));
        assert(seq_join(qs, sep) == seq_join(qs.drop_last(), sep) + sep + qs.last());
        assert(seq_join(qs, sep) =~= seq_join(ps, sep).push(c));
    }
}

/// Joining the hops of a dotted path back with dots gives the path itself.
pub proof fn lemma_segments_rejoin(path: Seq<char>)
    ensures
        seq_join(path_segments(path), "."@) == path,
    decreases path.len(),
{
    reveal_strlit(".");
    if path.len() == 0 {
        assert(path_segments(path) =~= seq![Seq::<char>::empty()]);
        assert(path =~= Seq::<char>::empty());
    } else {
        let prev = path_segments(path.drop_last());
        lemma_segments_rejoin(path.drop_last());
        lemma_split_nonempty(path.drop_last(), SepKind::Dot);
        if path.last() == '.' {
            let ps = prev.push(Seq::<char>::empty());
            assert(ps.drop_last() =~= prev);
            assert(seq_join(ps, "."@) == seq_join(prev, "."@) + "."@ + Seq::<char>::empty());
            assert(path =~= path.drop_last() + "."@);
        } else {
            lemma_join_grow_last(prev, "."@, path.last());
            assert(path =~= path.drop_last().push(path.last()));
        }
    }
}

/// Parsing a path keeps it as written, and its hops joined back with dots are
/// that same path.
pub proof fn lemma_parse_round_trip(path: Seq<char>)
    ensures
        seq_join(path_segments(path), "."@) == path,
        path_segments(path).len() >= 1,
{
    lemma_segments_rejoin(path);
    lemma_split_nonempty(path, SepKind::Dot);
}

/// The merged set of relation paths an eager load resolves: a trie whose
/// children are keyed by hop name, in the order they were first added.
#[derive(Debug)]
pub struct RelationTree {
    /// `(hop name, subtree)` pairs.
    pub children: Vec<(String, RelationTree)>,
}

/// `j` is the first child named `name`.
pub open spec fn is_first_named(cs: Seq<(String, RelationTree)>, name: Seq<char>, j: int) -> bool {
    0 <= j < cs.len() && cs[j].0@ == name && forall|k: int| 0 <= k < j ==> (#[trigger] cs[k]).0@ != name
}

/// The subtree under `name`, if `name` is a child.
pub open spec fn child_of(cs: Seq<(String, RelationTree)>, name: Seq<char>) -> Option<RelationTree> {
    if exists|j: int| is_first_named(cs, name, j) {
        Some(cs[choose|j: int| is_first_named(cs, name, j)].1)
    } else {
        None
    }
}

/// Whether the hops `segs` form a path from the root of `t`.
pub open spec fn has_path(t: RelationTree, segs: Seq<Seq<char>>) -> bool
    decreases segs.len(),
{
    if segs.len() == 0 {
        true
    } else {
        match child_of(t.children@, segs[0]) {
            Some(c) => has_path(c, segs.skip(1)),
            None => false,
        }
    }
}

/// The names of the children, in order.
pub open spec fn root_names(t: RelationTree) -> Seq<Seq<char>> {
    t.children@.map_values(|c: (String, RelationTree)| c.0@)
}

/// `a` is a leading part of `b`.
pub open spec fn is_path_prefix(a: Seq<Seq<char>>, b: Seq<Seq<char>>) -> bool {
    a.len() <= b.len() && b.take(a.len() as int) == a
}

proof fn lemma_first_named_unique(cs: Seq<(String, RelationTree)>, name: Seq<char>, j: int)
    requires
        is_first_named(cs, name, j),
    ensures
        child_of(cs, name) == Some(cs[j].1),
{
    let k = choose|k: int| is_first_named(cs, name, k);
    assert(is_first_named(cs, name, k));
    if k < j {
        assert(cs[k].0@ != name);
    }
    if j < k {
        assert(cs[j].0@ != name);
    }
}

proof fn lemma_no_child(cs: Seq<(String, RelationTree)>, name: Seq<char>)
    requires
        forall|k: int| 0 <= k < cs.len() ==> (#[trigger] cs[k]).0@ != name,
    ensures
        child_of(cs, name) is None,
{
}

/// Replacing the subtree of one child leaves every other name's lookup alone.
proof fn lemma_child_of_replaced(cs: Seq<(String, RelationTree)>, j: int, t: RelationTree, other: Seq<char>)
    requires
        0 <= j < cs.len(),
        other != cs[j].0@,
    ensures
        child_of(cs.update(j, (cs[j].0, t)), other) == child_of(cs, other),
{
    let ds = cs.update(j, (cs[j].0, t));
    assert forall|k: int| is_first_named(ds, other, k) <==> is_first_named(cs, other, k) by {
        assert forall|m: int| 0 <= m < cs.len() implies ds[m].0@ == cs[m].0@ by {}
    }
    if exists|k: int| is_first_named(cs, other, k) {
        let k = choose|k: int| is_first_named(cs, other, k);
        lemma_first_named_unique(cs, other, k);
        lemma_first_named_unique(ds, other, k);
    }
}

/// Appending a child leaves the lookup of every name it does not carry alone.
proof fn lemma_child_of_pushed(cs: Seq<(String, RelationTree)>, e: (String, RelationTree), other: Seq<char>)
    requires
        other != e.0@,
    ensures
        child_of(cs.push(e), other) == child_of(cs, other),
{
    let ds = cs.push(e);
    assert forall|k: int| is_first_named(ds, other, k) <==> is_first_named(cs, other, k) by {
        assert forall|m: int| 0 <= m < cs.len() implies ds[m] == cs[m] by {}
    }
    if exists|k: int| is_first_named(cs, other, k) {
        let k = choose|k: int| is_first_named(cs, other, k);
        lemma_first_named_unique(cs, other, k);
        lemma_first_named_unique(ds, other, k);
    }
}

proof fn lemma_empty_tree_paths(t: RelationTree, segs: Seq<Seq<char>>)
    requires
        t.children@.len() == 0,
    ensures
        has_path(t, segs) <==> segs.len() == 0,
{
    if segs.len() > 0 {
        lemma_no_child(t.children@, segs[0]);
    }
}

proof fn lemma_prefix_step(segs: Seq<Seq<char>>, target: Seq<Seq<char>>)
    requires
        segs.len() > 0,
        target.len() > 0,
        segs[0] == target[0],
    ensures
        is_path_prefix(segs, target) <==> is_path_prefix(segs.skip(1), target.skip(1)),
{
    if is_path_prefix(segs, target) {
        assert(target.skip(1).take(segs.len() - 1) =~= segs.skip(1));
    }
    if is_path_prefix(segs.skip(1), target.skip(1)) {
        assert forall|m: int| 0 <= m < segs.len() implies target.take(segs.len() as int)[m] == segs[m] by {
            if m > 0 {
                assert(target.skip(1).take(segs.len() - 1)[m - 1] == segs.skip(1)[m - 1]);
            }
        }
        assert(target.take(segs.len() as int) =~= segs);
    }
}

proof fn lemma_prefix_first(segs: Seq<Seq<char>>, target: Seq<Seq<char>>)
    requires
        segs.len() > 0,
        is_path_prefix(segs, target),
    ensures
        segs[0] == target[0],
{
    assert(target.take(segs.len() as int)[0] == segs[0]);
}

fn find_child(cs: &Vec<(String, RelationTree)>, name: &String) -> (r: Option<usize>)
    ensures
        match r {
            Some(j) => is_first_named(cs@, name@, j as int),
            None => forall|k: int| 0 <= k < cs@.len() ==> (#[trigger] cs@[k]).0@ != name@,
        },
{
    let mut i: usize = 0;
    while i < cs.len()
        invariant
            i <= cs@.len(),
            forall|k: int| 0 <= k < i ==> (#[trigger] cs@[k]).0@ != name@,
        decreases cs.len() - i,
    {
        if cs[i].0 == *name {
            return Some(i);
        }
        i = i + 1;
    }
    None
}

/// The path parsed from an empty string: a single empty hop.
pub open spec fn blank_path(segs: Seq<Seq<char>>) -> bool {
    segs.len() == 1 && segs[0].len() == 0
}

/// Adding `segs` makes `p` a path of the tree: `p` leads `segs`, which is not
/// the blank path (that one is ignored).
pub open spec fn adds_path(p: Seq<Seq<char>>, segs: Seq<Seq<char>>) -> bool {
    !blank_path(segs) && is_path_prefix(p, segs)
}

/// `after` holds exactly the paths of `before` and every leading part of
/// `segs`, unless `segs` is blank: what `add_path` makes of a tree.
pub open spec fn path_added(before: RelationTree, after: RelationTree, segs: Seq<Seq<char>>) -> bool {
    forall|p: Seq<Seq<char>>| #[trigger] has_path(after, p) <==> has_path(before, p) || adds_path(p, segs)
}

/// Adding a path that was just added changes no path of the tree.
pub proof fn lemma_add_path_idempotent(t0: RelationTree, t1: RelationTree, t2: RelationTree, a: Seq<Seq<char>>)
    requires
        path_added(t0, t1, a),
        path_added(t1, t2, a),
    ensures
        forall|p: Seq<Seq<char>>| #[trigger] has_path(t2, p) <==> has_path(t1, p),
{
    assert forall|p: Seq<Seq<char>>| #[trigger] has_path(t2, p) <==> has_path(t1, p) by {
        assert(has_path(t2, p) <==> has_path(t1, p) || adds_path(p, a));
        assert(has_path(t1, p) <==> has_path(t0, p) || adds_path(p, a));
    }
}

/// Adding paths one after another gives the tree holding the first tree's
/// paths and every path each step adds: what `with_many` states, as a fold
/// of `with`.
pub proof fn lemma_adding_paths_in_turn(trees: Seq<RelationTree>, adds: Seq<Seq<Seq<char>>>)
    requires
        trees.len() == adds.len() + 1,
        forall|i: int| 0 <= i < adds.len() ==> path_added(#[trigger] trees[i], trees[i + 1], adds[i]),
    ensures
        forall|p: Seq<Seq<char>>| #[trigger] has_path(trees.last(), p) <==> has_path(trees[0], p) || exists|k: int|
            0 <= k < adds.len() && adds_path(p, #[trigger] adds[k]),
    decreases adds.len(),
{
    if adds.len() > 0 {
        let t2 = trees.drop_last();
        let a2 = adds.drop_last();
        assert forall|i: int| 0 <= i < a2.len() implies path_added(#[trigger] t2[i], t2[i + 1], a2[i]) by {
            assert(path_added(trees[i], trees[i + 1], adds[i]));
        }
        lemma_adding_paths_in_turn(t2, a2);
        let n = adds.len() - 1;
        assert(path_added(trees[n], trees[n + 1], adds[n]));
        assert forall|p: Seq<Seq<char>>| #[trigger] has_path(trees.last(), p) <==> has_path(trees[0], p) || exists|k: int|
            0 <= k < adds.len() && adds_path(p, #[trigger] adds[k]) by {
            assert(has_path(trees[n + 1], p) <==> has_path(trees[n], p) || adds_path(p, adds[n]));
            assert(has_path(t2.last(), p) <==> has_path(t2[0], p) || exists|k: int|
                0 <= k < a2.len() && adds_path(p, #[trigger] a2[k]));
            if exists|k: int| 0 <= k < adds.len() && adds_path(p, #[trigger] adds[k]) {
                let k = choose|k: int| 0 <= k < adds.len() && adds_path(p, #[trigger] adds[k]);
                if k < n {
                    assert(adds_path(p, a2[k]));
                }
            }
            if exists|k: int| 0 <= k < a2.len() && adds_path(p, #[trigger] a2[k]) {
                let k = choose|k: int| 0 <= k < a2.len() && adds_path(p, #[trigger] a2[k]);
                assert(adds_path(p, adds[k]));
            }
        }
    }
}

/// `with_many` over the relations `rs` and one `with` per entry, in turn,
/// give trees holding the same relation paths: `many` is a tree `with_many`
/// can give from `trees[0]`, and `trees[i + 1]` one that `with(rs[i])` can give
/// from `trees[i]`.
pub proof fn lemma_with_many_is_with_in_turn(trees: Seq<RelationTree>, many: RelationTree, rs: Seq<Seq<char>>)
    requires
        trees.len() == rs.len() + 1,
        forall|i: int| 0 <= i < rs.len() ==> path_added(#[trigger] trees[i], trees[i + 1], path_segments(rs[i])),
        forall|p: Seq<Seq<char>>| #[trigger] has_path(many, p) <==> has_path(trees[0], p) || exists|k: int|
            0 <= k < rs.len() && adds_path(p, path_segments(#[trigger] rs[k])),
    ensures
        forall|p: Seq<Seq<char>>| #[trigger] has_path(many, p) <==> has_path(trees.last(), p),
{
    let adds = rs.map_values(|r: Seq<char>| path_segments(r));
    assert forall|i: int| 0 <= i < adds.len() implies path_added(#[trigger] trees[i], trees[i + 1], adds[i]) by {
        assert(path_added(trees[i], trees[i + 1], path_segments(rs[i])));
    }
    lemma_adding_paths_in_turn(trees, adds);
    assert forall|p: Seq<Seq<char>>| #[trigger] has_path(many, p) <==> has_path(trees.last(), p) by {
        if exists|k: int| 0 <= k < rs.len() && adds_path(p, path_segments(#[trigger] rs[k])) {
            let k = choose|k: int| 0 <= k < rs.len() && adds_path(p, path_segments(#[trigger] rs[k]));
            assert(adds_path(p, adds[k]));
        }
        if exists|k: int| 0 <= k < adds.len() && adds_path(p, #[trigger] adds[k]) {
            let k = choose|k: int| 0 <= k < adds.len() && adds_path(p, #[trigger] adds[k]);
            assert(adds_path(p, path_segments(rs[k])));
        }
    }
}

/// Adding two paths in either order gives trees with the same paths.
pub proof fn lemma_add_path_commutative(
    t0: RelationTree,
    t1: RelationTree,
    t2: RelationTree,
    u1: RelationTree,
    u2: RelationTree,
    a: Seq<Seq<char>>,
    b: Seq<Seq<char>>,
)
    requires
        path_added(t0, t1, a),
        path_added(t1, t2, b),
        path_added(t0, u1, b),
        path_added(u1, u2, a),
    ensures
        forall|p: Seq<Seq<char>>| #[trigger] has_path(t2, p) <==> has_path(u2, p),
{
    assert forall|p: Seq<Seq<char>>| #[trigger] has_path(t2, p) <==> has_path(u2, p) by {
        assert(has_path(t2, p) <==> has_path(t1, p) || adds_path(p, b));
        assert(has_path(t1, p) <==> has_path(t0, p) || adds_path(p, a));
        assert(has_path(u2, p) <==> has_path(u1, p) || adds_path(p, a));
        assert(has_path(u1, p) <==> has_path(t0, p) || adds_path(p, b));
    }
}

impl RelationTree {
    /// An empty tree.
    pub fn new() -> (t: Self)
        ensures
            t.children@.len() == 0,
            forall|segs: Seq<Seq<char>>| #[trigger] has_path(t, segs) <==> segs.len() == 0,
    {
        let t = RelationTree { children: Vec::new() };
        assert forall|segs: Seq<Seq<char>>| #[trigger] has_path(t, segs) <==> segs.len() == 0 by {
            lemma_empty_tree_paths(t, segs);
        }
        t
    }

    fn insert_segments(&mut self, segs: &Vec<String>, i: usize)
        requires
            i <= segs@.len(),
        ensures
            forall|p: Seq<Seq<char>>| #[trigger] has_path(*final(self), p) <==> has_path(*old(self), p)
                || is_path_prefix(p, views(segs@).skip(i as int)),
            root_names(*old(self)).no_duplicates() ==> root_names(*final(self)).no_duplicates(),
        decreases segs@.len() - i,
    {
        let ghost old_t = *self;
        let ghost target = views(segs@).skip(i as int);
        if i == segs.len() {
            assert forall|p: Seq<Seq<char>>| #[trigger] has_path(*self, p) <==> has_path(old_t, p)
                || is_path_prefix(p, target) by {
                if is_path_prefix(p, target) {
                    assert(p.len() == 0);
                }
            }
            return;
        }
        let name = &segs[i];
        assert(target[0] == name@);
        match find_child(&self.children, name) {
            Some(j) => {
                let (n, mut c) = self.children.remove(j);
                let ghost old_c = c;
                c.insert_segments(segs, i + 1);
                self.children.insert(j, (n, c));
                proof {
                    let cs = old_t.children@;
                    assert(self.children@ =~= cs.update(j as int, (cs[j as int].0, c)));
                    lemma_first_named_unique(cs, name@, j as int);
                    assert(is_first_named(self.children@, name@, j as int));
                    lemma_first_named_unique(self.children@, name@, j as int);
                    assert forall|p: Seq<Seq<char>>| #[trigger] has_path(*self, p) <==> has_path(old_t, p)
                        || is_path_prefix(p, target) by {
                        if p.len() > 0 {
                            if p[0] == name@ {
                                assert(views(segs@).skip(i + 1) =~= target.skip(1));
                                lemma_prefix_step(p, target);
                                assert(has_path(c, p.skip(1)) <==> has_path(old_c, p.skip(1))
                                    || is_path_prefix(p.skip(1), target.skip(1)));
                            } else {
                                lemma_child_of_replaced(cs, j as int, c, p[0]);
                                if is_path_prefix(p, target) {
                                    lemma_prefix_first(p, target);
                                }
                            }
                        }
                    }
                    assert(root_names(*self) =~= root_names(old_t));
                }
            },
            None => {
                let mut c = RelationTree::new();
                let ghost old_c = c;
                c.insert_segments(segs, i + 1);
                let n = name.clone();
                self.children.push((n, c));
                proof {
                    let cs = old_t.children@;
                    lemma_no_child(cs, name@);
                    assert(is_first_named(self.children@, name@, cs.len() as int));
                    lemma_first_named_unique(self.children@, name@, cs.len() as int);
                    assert forall|p: Seq<Seq<char>>| #[trigger] has_path(*self, p) <==> has_path(old_t, p)
                        || is_path_prefix(p, target) by {
                        if p.len() > 0 {
                            if p[0] == name@ {
                                assert(views(segs@).skip(i + 1) =~= target.skip(1));
                                lemma_prefix_step(p, target);
                                lemma_empty_tree_paths(old_c, p.skip(1));
                                assert(has_path(c, p.skip(1)) <==> has_path(old_c, p.skip(1))
                                    || is_path_prefix(p.skip(1), target.skip(1)));
                                if p.skip(1).len() == 0 {
                                    assert(target.take(1) =~= p);
                                }
                            } else {
                                lemma_child_of_pushed(cs, (n, c), p[0]);
                                if is_path_prefix(p, target) {
                                    lemma_prefix_first(p, target);
                                }
                            }
                        }
                    }
                    assert(root_names(*self) =~= root_names(old_t).push(name@));
                    if root_names(old_t).no_duplicates() {
                        assert forall|k: int| 0 <= k < root_names(old_t).len() implies root_names(old_t)[k]
                            != name@ by {
                            assert(cs[k].0@ != name@);
                        }
                    }
                }
            },
        }
    }

    /// Merges a path into the tree, sharing every prefix it has in common with
    /// the paths already there. Afterwards the tree holds exactly the paths it
    /// held before and every leading part of `path`; re-adding a path changes
    /// nothing. The path parsed from an empty string (one empty hop) is
    /// ignored and leaves the tree as it was.
    pub fn add_path(&mut self, path: &RelationPath)
        ensures
            blank_path(views(path.segments@)) ==> *final(self) == *old(self),
            forall|p: Seq<Seq<char>>| #[trigger] has_path(*final(self), p) <==> has_path(*old(self), p)
                || adds_path(p, views(path.segments@)),
            root_names(*old(self)).no_duplicates() ==> root_names(*final(self)).no_duplicates(),
    {
        if path.segments.len() == 1 && chars_of(path.segments[0].as_str()).len() == 0 {
            return;
        }
        self.insert_segments(&path.segments, 0);
        assert(views(path.segments@).skip(0) =~= views(path.segments@));
    }

    /// The hop names at this level, in the order they were first added.
    pub fn roots(&self) -> (r: Vec<String>)
        ensures
            views(r@) == root_names(*self),
    {
        let mut r: Vec<String> = Vec::new();
        let mut i: usize = 0;
        while i < self.children.len()
            invariant
                i <= self.children@.len(),
                views(r@) == root_names(*self).take(i as int),
            decreases self.children.len() - i,
        {
            let n = self.children[i].0.clone();
            proof {
                assert(views(r@).len() == i);
                assert(r@.len() == i);
            }
            r.push(n);
            assert(views(r@) =~= root_names(*self).take(i + 1));
            i = i + 1;
        }
        assert(root_names(*self).take(self.children@.len() as int) =~= root_names(*self));
        r
    }

    /// The subtree to resolve under `name`; `None` when `name` is not at this
    /// level. A leaf gives an empty subtree.
    pub fn get_nested(&self, name: &str) -> (r: Option<&RelationTree>)
        ensures
            match r {
                Some(t) => child_of(self.children@, name@) == Some(*t),
                None => child_of(self.children@, name@) is None,
            },
    {
        let n = name.to_string();
        match find_child(&self.children, &n) {
            Some(j) => {
                proof {
                    lemma_first_named_unique(self.children@, name@, j as int);
                }
                Some(&self.children[j].1)
            },
            None => {
                proof {
                    lemma_no_child(self.children@, name@);
                }
                None
            },
        }
    }

    /// Whether this level has nothing to resolve.
    pub fn is_empty(&self) -> (b: bool)
        ensures
            b == (self.children@.len() == 0),
    {
        self.children.len() == 0
    }

    /// Whether `name` has a further level below it: false for an unknown name
    /// and for a leaf.
    pub fn has_nested(&self, name: &str) -> (b: bool)
        ensures
            b == (child_of(self.children@, name@) matches Some(t) && t.children@.len() > 0),
    {
        match self.get_nested(name) {
            Some(t) => t.children.len() > 0,
            None => false,
        }
    }
}

/// A root query paired with the relations to resolve once it has run.
#[derive(Debug)]
pub struct EagerQueryBuilder {
    /// The root query.
    pub query: QueryBuilder,
    /// The merged relation paths.
    pub relation_tree: RelationTree,
}

impl EagerQueryBuilder {
    /// An unfiltered query over the model described by `meta`, with no
    /// relations requested yet.
    pub fn new(meta: ModelMeta) -> (r: Self)
        ensures
            r.query.meta == meta,
            r.query.conditions@.len() == 0,
            r.query.or_groups@.len() == 0,
            r.query.order_by@.len() == 0,
            r.query.limit_value is None,
            r.query.offset_value is None,
            r.relation_tree.children@.len() == 0,
    {
        EagerQueryBuilder { query: QueryBuilder::new(meta), relation_tree: RelationTree::new() }
    }

    /// Requests a relation, dotted for nested ones: the tree then holds its
    /// former paths and every leading part of the parsed path.
    pub fn with(self, relation: &str) -> (r: Self)
        ensures
            r.query == self.query,
            forall|p: Seq<Seq<char>>| #[trigger] has_path(r.relation_tree, p) <==> has_path(self.relation_tree, p)
                || adds_path(p, path_segments(relation@)),
    {
        let path = RelationPath::parse(relation);
        let mut r = self;
        r.relation_tree.add_path(&path);
        r
    }

    /// Requests several relations; the same as one `with` per entry.
    pub fn with_many(self, relations: &[&str]) -> (r: Self)
        ensures
            r.query == self.query,
            forall|p: Seq<Seq<char>>| #[trigger] has_path(r.relation_tree, p) <==> has_path(self.relation_tree, p)
                || exists|k: int| 0 <= k < relations@.len() && adds_path(p, path_segments(#[trigger] relations@[k]@)),
    {
        let mut r = self;
        let ghost first = r.relation_tree;
        let mut i: usize = 0;
        while i < relations.len()
            invariant
                i <= relations@.len(),
                r.query == self.query,
                first == self.relation_tree,
                forall|p: Seq<Seq<char>>| #[trigger] has_path(r.relation_tree, p) <==> has_path(first, p)
                    || exists|k: int| 0 <= k < i && adds_path(p, path_segments(#[trigger] relations@[k]@)),
            decreases relations.len() - i,
        {
            let ghost before = r.relation_tree;
            r = r.with(relations[i]);
            proof {
                assert forall|p: Seq<Seq<char>>| #[trigger] has_path(r.relation_tree, p) <==> has_path(first, p)
                    || exists|k: int| 0 <= k < i + 1 && adds_path(p, path_segments(#[trigger] relations@[k]@)) by {
                    assert(has_path(r.relation_tree, p) <==> has_path(before, p) || adds_path(p, path_segments(relations@[i as int]@)));
                    if adds_path(p, path_segments(relations@[i as int]@)) {
                        assert(0 <= i < i + 1 && adds_path(p, path_segments(relations@[i as int]@)));
                    }
                    if exists|k: int| 0 <= k < i + 1 && adds_path(p, path_segments(#[trigger] relations@[k]@)) {
                        let k = choose|k: int| 0 <= k < i + 1 && adds_path(p, path_segments(#[trigger] relations@[k]@));
                        if k < i {
                            assert(exists|k2: int| 0 <= k2 < i && adds_path(p, path_segments(#[trigger] relations@[k2]@)));
                        }
                    }
                }
            }
            i = i + 1;
        }
        r
    }

    /// Adds `column = value` to the root query.
    pub fn where_eq(self, column: &str, value: JsonValue) -> (r: Self)
        ensures
            r.relation_tree == self.relation_tree,
            r.query.conditions@.len() == self.query.conditions@.len() + 1,
            r.query.conditions@.drop_last() == self.query.conditions@,
            r.query.conditions@.last().column@ == column@,
            r.query.conditions@.last().operator == Operator::Eq,
            r.query.conditions@.last().value == ConditionValue::Single(value),
            r.query.or_groups == self.query.or_groups,
    {
        EagerQueryBuilder { query: self.query.where_eq(column, value), relation_tree: self.relation_tree }
    }

    /// Restricts the root query to rows whose `column` is one of `values`.
    pub fn where_in(self, column: &str, values: Vec<JsonValue>) -> (r: Self)
        ensures
            r.relation_tree == self.relation_tree,
            r.query.conditions@.len() == self.query.conditions@.len() + 1,
            r.query.conditions@.drop_last() == self.query.conditions@,
            r.query.conditions@.last().column@ == column@,
            r.query.conditions@.last().operator == Operator::In,
            r.query.conditions@.last().value == ConditionValue::List(values),
            r.query.or_groups == self.query.or_groups,
    {
        EagerQueryBuilder { query: self.query.where_in(column, values), relation_tree: self.relation_tree }
    }

    /// Adds a trusted raw predicate to the root query.
    pub fn where_raw(self, sql: &str) -> (r: Self)
        ensures
            r.relation_tree == self.relation_tree,
            r.query.conditions@.len() == self.query.conditions@.len() + 1,
            r.query.conditions@.drop_last() == self.query.conditions@,
            r.query.conditions@.last().operator == Operator::Raw,
            r.query.conditions@.last().value is RawExpr,
            r.query.conditions@.last().value->RawExpr_0@ == sql@,
            r.query.or_groups == self.query.or_groups,
    {
        EagerQueryBuilder { query: self.query.where_raw(sql), relation_tree: self.relation_tree }
    }

    /// Orders the root query.
    pub fn order_by(self, column: &str, order: Order) -> (r: Self)
        ensures
            r.relation_tree == self.relation_tree,
            r.query.order_by@.len() == self.query.order_by@.len() + 1,
            r.query.order_by@.drop_last() == self.query.order_by@,
            r.query.order_by@.last().0@ == column@,
            r.query.order_by@.last().1 == order,
            r.query.conditions == self.query.conditions,
    {
        EagerQueryBuilder { query: self.query.order_by(column, order), relation_tree: self.relation_tree }
    }

    /// Caps the number of root rows.
    pub fn limit(self, n: u64) -> (r: Self)
        ensures
            r.relation_tree == self.relation_tree,
            r.query.limit_value == Some(n),
            r.query.offset_value == self.query.offset_value,
            r.query.order_by == self.query.order_by,
            r.query.conditions == self.query.conditions,
    {
        EagerQueryBuilder { query: self.query.limit(n), relation_tree: self.relation_tree }
    }

    /// Skips `n` root rows.
    pub fn offset(self, n: u64) -> (r: Self)
        ensures
            r.relation_tree == self.relation_tree,
            r.query.offset_value == Some(n),
            r.query.limit_value == self.query.limit_value,
            r.query.order_by == self.query.order_by,
            r.query.conditions == self.query.conditions,
    {
        EagerQueryBuilder { query: self.query.offset(n), relation_tree: self.relation_tree }
    }

    /// The merged set of relations this builder will resolve.
    pub fn get_relation_tree(&self) -> (t: &RelationTree)
        ensures
            *t == self.relation_tree,
    {
        &self.relation_tree
    }
}

/// Entry points that start an eager load from a model rather than from a
/// query.
pub trait EagerLoadExt: Sized {
    /// An eager query with no relations requested yet.
    fn eager(self) -> EagerQueryBuilder;

    /// An eager query for one relation, nested paths included.
    fn with_relation(self, relation_name: &str) -> EagerQueryBuilder;

    /// An eager query for several relations at once.
    fn with_relations(self, relations: &[&str]) -> EagerQueryBuilder;
}

impl EagerLoadExt for ModelMeta {
    fn eager(self) -> (r: EagerQueryBuilder)
        ensures
            r.query.meta == self,
            r.query.conditions@.len() == 0,
            r.relation_tree.children@.len() == 0,
    {
        EagerQueryBuilder::new(self)
    }

    fn with_relation(self, relation_name: &str) -> (r: EagerQueryBuilder)
        ensures
            r.query.meta == self,
            r.query.conditions@.len() == 0,
            forall|p: Seq<Seq<char>>| #[trigger] has_path(r.relation_tree, p) <==> p.len() == 0 || adds_path(
                p,
                path_segments(relation_name@),
            ),
    {
        let e = EagerQueryBuilder::new(self);
        proof {
            assert forall|p: Seq<Seq<char>>| #[trigger] has_path(e.relation_tree, p) <==> p.len() == 0 by {
                lemma_empty_tree_paths(e.relation_tree, p);
            }
        }
        e.with(relation_name)
    }

    fn with_relations(self, relations: &[&str]) -> (r: EagerQueryBuilder)
        ensures
            r.query.meta == self,
            r.query.conditions@.len() == 0,
            forall|p: Seq<Seq<char>>| #[trigger] has_path(r.relation_tree, p) <==> p.len() == 0 || exists|k: int|
                0 <= k < relations@.len() && adds_path(p, path_segments(#[trigger] relations@[k]@)),
    {
        let e = EagerQueryBuilder::new(self);
        proof {
            assert forall|p: Seq<Seq<char>>| #[trigger] has_path(e.relation_tree, p) <==> p.len() == 0 by {
                lemma_empty_tree_paths(e.relation_tree, p);
            }
        }
        e.with_many(relations)
    }
}

/// A stored bundle of constraints to narrow a relation query with.
#[derive(Clone, Debug)]
pub struct RelationConstraints {
    /// `column = value` filters, in insertion order.
    pub conditions: Vec<(String, JsonValue)>,
    /// The single ordering; the last call wins.
    pub order_by: Option<(String, Order)>,
    /// Maximum rows.
    pub limit: Option<u64>,
    /// Rows to skip.
    pub offset: Option<u64>,
    /// Include soft-deleted rows.
    pub with_trashed: bool,
    /// Only soft-deleted rows.
    pub only_trashed: bool,
}

impl RelationConstraints {
    /// An empty bundle that leaves a query as it is.
    pub fn new() -> (r: Self)
        ensures
            r.conditions@.len() == 0,
            r.order_by is None,
            r.limit is None,
            r.offset is None,
            !r.with_trashed,
            !r.only_trashed,
    {
        RelationConstraints {
            conditions: Vec::new(),
            order_by: None,
            limit: None,
            offset: None,
            with_trashed: false,
            only_trashed: false,
        }
    }

    /// Adds an equality filter; filters accumulate.
    pub fn where_eq(self, column: &str, value: JsonValue) -> (r: Self)
        ensures
            r.conditions@.len() == self.conditions@.len() + 1,
            r.conditions@.drop_last() == self.conditions@,
            r.conditions@.last().0@ == column@,
            r.conditions@.last().1 == value,
            r.order_by == self.order_by,
            r.limit == self.limit,
            r.offset == self.offset,
            r.with_trashed == self.with_trashed,
            r.only_trashed == self.only_trashed,
    {
        let mut r = self;
        r.conditions.push((column.to_string(), value));
        assert(r.conditions@.drop_last() =~= self.conditions@);
        r
    }

    /// Sets the ordering; the last call wins.
    pub fn order_by(self, column: &str, order: Order) -> (r: Self)
        ensures
            r.order_by matches Some(o) && o.0@ == column@ && o.1 == order,
            r.conditions == self.conditions,
            r.limit == self.limit,
            r.offset == self.offset,
            r.with_trashed == self.with_trashed,
            r.only_trashed == self.only_trashed,
    {
        let mut r = self;
        r.order_by = Some((column.to_string(), order));
        r
    }

    /// Caps the number of related rows.
    pub fn limit(self, n: u64) -> (r: Self)
        ensures
            r.limit == Some(n),
            r.conditions == self.conditions,
            r.order_by == self.order_by,
            r.offset == self.offset,
            r.with_trashed == self.with_trashed,
            r.only_trashed == self.only_trashed,
    {
        let mut r = self;
        r.limit = Some(n);
        r
    }

    /// Skips `n` related rows.
    pub fn offset(self, n: u64) -> (r: Self)
        ensures
            r.offset == Some(n),
            r.conditions == self.conditions,
            r.order_by == self.order_by,
            r.limit == self.limit,
            r.with_trashed == self.with_trashed,
            r.only_trashed == self.only_trashed,
    {
        let mut r = self;
        r.offset = Some(n);
        r
    }

    /// Includes soft-deleted rows.
    pub fn with_trashed(self) -> (r: Self)
        ensures
            r.with_trashed,
            r.conditions == self.conditions,
            r.order_by == self.order_by,
            r.limit == self.limit,
            r.offset == self.offset,
            r.only_trashed == self.only_trashed,
    {
        let mut r = self;
        r.with_trashed = true;
        r
    }

    /// Returns only soft-deleted rows.
    pub fn only_trashed(self) -> (r: Self)
        ensures
            r.only_trashed,
            r.conditions == self.conditions,
            r.order_by == self.order_by,
            r.limit == self.limit,
            r.offset == self.offset,
            r.with_trashed == self.with_trashed,
    {
        let mut r = self;
        r.only_trashed = true;
        r
    }

    /// Folds the bundle into `query`: the filters in order, then the
    /// ordering, the limit, the offset and the soft-delete scope, whatever
    /// order the setters were called in.
    pub fn apply(self, query: QueryBuilder) -> (q: QueryBuilder)
        ensures
            q.conditions@.len() == query.conditions@.len() + self.conditions@.len(),
            q.conditions@.take(query.conditions@.len() as int) == query.conditions@,
            forall|k: int| 0 <= k < self.conditions@.len() ==> {
                let c = #[trigger] q.conditions@[query.conditions@.len() + k];
                &&& c.column@ == self.conditions@[k].0@
                &&& c.operator == Operator::Eq
                &&& c.value == ConditionValue::Single(self.conditions@[k].1)
            },
            match self.order_by {
                Some(o) => q.order_by@.len() == query.order_by@.len() + 1 && q.order_by@.drop_last()
                    == query.order_by@ && q.order_by@.last().0@ == o.0@ && q.order_by@.last().1 == o.1,
                None => q.order_by == query.order_by,
            },
            q.limit_value == match self.limit {
                Some(n) => Some(n),
                None => query.limit_value,
            },
            q.offset_value == match self.offset {
                Some(n) => Some(n),
                None => query.offset_value,
            },
            q.meta == query.meta,
    {
        let base: usize = query.conditions.len();
        let mut q = query;
        let ghost orig = q;
        let cs = &self.conditions;
        let mut i: usize = 0;
        while i < cs.len()
            invariant
                i <= cs@.len(),
                cs@ == self.conditions@,
                base == orig.conditions@.len(),
                q.conditions@.len() == base + i,
                q.conditions@.take(base as int) == orig.conditions@,
                forall|k: int| 0 <= k < i ==> {
                    let c = #[trigger] q.conditions@[base + k];
                    &&& c.column@ == cs@[k].0@
                    &&& c.operator == Operator::Eq
                    &&& c.value == ConditionValue::Single(cs@[k].1)
                },
                q.order_by == orig.order_by,
                q.limit_value == orig.limit_value,
                q.offset_value == orig.offset_value,
                q.meta == orig.meta,
            decreases cs.len() - i,
        {
            let ghost before = q.conditions@;
            q = q.where_eq(cs[i].0.as_str(), cs[i].1.duplicate());
            proof {
                assert(q.conditions@.drop_last() == before);
                assert(q.conditions@.take(base as int) =~= before.take(base as int));
                assert forall|k: int| 0 <= k < i + 1 implies {
                    let c = #[trigger] q.conditions@[base + k];
                    &&& c.column@ == cs@[k].0@
                    &&& c.operator == Operator::Eq
                    &&& c.value == ConditionValue::Single(cs@[k].1)
                } by {
                    if k < i {
                        assert(q.conditions@[base + k] == before[base + k]);
                    }
                }
            }
            i = i + 1;
        }
        match &self.order_by {
            Some(o) => {
                q = q.order_by(o.0.as_str(), o.1);
            },
            None => {},
        }
        match self.limit {
            Some(n) => {
                q = q.limit(n);
            },
            None => {},
        }
        match self.offset {
            Some(n) => {
                q = q.offset(n);
            },
            None => {},
        }
        if self.with_trashed {
            q = q.with_trashed();
        }
        if self.only_trashed {
            q = q.only_trashed();
        }
        q
    }
}

} // verus!
