//! Array filters in each dialect: PostgreSQL's array operators, MySQL's
//! `JSON_CONTAINS` over `JSON_ARRAY`, and SQLite's `json_each` subqueries.
//! Every value of the filter is bound on its own, in order; the preview shows
//! the value's literal where the bound form has its placeholder.

use vstd::prelude::*;
use crate::classify::ArrayOperator;
use crate::condition::Operator;
use crate::dialect::{DatabaseType, push_chars};
use crate::json::JsonValue;
use crate::relation_sql::{placeholder, push_param};
use crate::render_where::{preview_value, push_preview_value};
use crate::text::push_str;

verus! {

/// The array comparison an array operator performs.
pub open spec fn array_kind(op: Operator) -> ArrayOperator {
    match op {
        Operator::ArrayContainedBy => ArrayOperator::ContainedBy,
        Operator::ArrayOverlaps | Operator::ArrayContainsAny => ArrayOperator::Overlaps,
        _ => ArrayOperator::Contains,
    }
}

/// The array comparison of `op` (see `array_kind`).
pub fn array_operator(op: Operator) -> (r: ArrayOperator)
    ensures
        r == array_kind(op),
{
    match op {
        Operator::ArrayContainedBy => ArrayOperator::ContainedBy,
        Operator::ArrayOverlaps | Operator::ArrayContainsAny => ArrayOperator::Overlaps,
        _ => ArrayOperator::Contains,
    }
}

/// `n` pieces joined by `sep`, the piece for value `i` (from 0) being
/// `pre + slot(i) + post`.
pub open spec fn slot_join(
    pre: Seq<char>,
    post: Seq<char>,
    sep: Seq<char>,
    n: nat,
    slot: spec_fn(nat) -> Seq<char>,
) -> Seq<char>
    decreases n,
{
    if n == 0 {
        Seq::empty()
    } else if n == 1 {
        pre + slot(0) + post
    } else {
        slot_join(pre, post, sep, (n - 1) as nat, slot) + sep + pre + slot((n - 1) as nat) + post
    }
}

/// An array filter on the column SQL `col` over `n` values, the value `i`
/// (from 0) written as `slot(i)`. An empty list makes "contains" true and
/// "overlaps" false where the dialect has no empty array to compare with.
pub open spec fn array_sql(
    db: DatabaseType,
    col: Seq<char>,
    op: ArrayOperator,
    n: nat,
    slot: spec_fn(nat) -> Seq<char>,
) -> Seq<char> {
    let none = Seq::<char>::empty();
    match db {
        DatabaseType::Postgres => col + match op {
            ArrayOperator::Contains => " @> ARRAY["@,
            ArrayOperator::ContainedBy => " <@ ARRAY["@,
            ArrayOperator::Overlaps => " && ARRAY["@,
        } + slot_join(none, none, ","@, n, slot) + "]"@,
        DatabaseType::SQLite => match op {
            ArrayOperator::Contains => if n == 0 {
                "1 = 1"@
            } else {
                "("@ + slot_join(
                    "EXISTS (SELECT 1 FROM json_each("@ + col + ") WHERE value = "@,
                    ")"@,
                    " AND "@,
                    n,
                    slot,
                ) + ")"@
            },
            ArrayOperator::ContainedBy => if n == 0 {
                "NOT EXISTS (SELECT 1 FROM json_each("@ + col + "))"@
            } else {
                "NOT EXISTS (SELECT 1 FROM json_each("@ + col + ") WHERE value NOT IN ("@ + slot_join(
                    none,
                    none,
                    ", "@,
                    n,
                    slot,
                ) + "))"@
            },
            ArrayOperator::Overlaps => if n == 0 {
                "0 = 1"@
            } else {
                "("@ + slot_join(
                    "EXISTS (SELECT 1 FROM json_each("@ + col + ") WHERE value = "@,
                    ")"@,
                    " OR "@,
                    n,
                    slot,
                ) + ")"@
            },
        },
        _ => match op {
            ArrayOperator::Contains => "JSON_CONTAINS("@ + col + ", JSON_ARRAY("@ + slot_join(
                none,
                none,
                ", "@,
                n,
                slot,
            ) + "))"@,
            ArrayOperator::ContainedBy => "JSON_CONTAINS(JSON_ARRAY("@ + slot_join(none, none, ", "@, n, slot)
                + "), "@ + col + ")"@,
            ArrayOperator::Overlaps => if n == 0 {
                "0 = 1"@
            } else {
                "("@ + slot_join("JSON_CONTAINS("@ + col + ", JSON_ARRAY("@, "))"@, " OR "@, n, slot) + ")"@
            },
        },
    }
}

/// Value `i` written as the placeholder `k + i + 1`.
pub open spec fn bound_slot(db: DatabaseType, k: nat) -> spec_fn(nat) -> Seq<char> {
    |i: nat| placeholder(db, k + i + 1)
}

/// Value `i` written as its preview literal.
pub open spec fn preview_slot(vs: Seq<JsonValue>) -> spec_fn(nat) -> Seq<char> {
    |i: nat| preview_value(vs[i as int])
}

/// How value `i` is written: bound from placeholder `k + 1` on, or as its
/// preview literal.
pub open spec fn value_slot(bind: bool, db: DatabaseType, k: nat, vs: Seq<JsonValue>) -> spec_fn(nat) -> Seq<
    char,
> {
    if bind {
        bound_slot(db, k)
    } else {
        preview_slot(vs)
    }
}

/// The values a rendering binds: all of them when bound, none in a preview.
pub open spec fn slot_params(bind: bool, vs: Seq<JsonValue>) -> Seq<JsonValue> {
    if bind {
        vs
    } else {
        Seq::empty()
    }
}

fn push_slots(
    out: &mut Vec<char>,
    params: &mut Vec<JsonValue>,
    bind: bool,
    db: DatabaseType,
    pre: &Vec<char>,
    post: &Vec<char>,
    sep: &str,
    vs: &Vec<JsonValue>,
)
    requires
        bind ==> old(params)@.len() + vs@.len() < u64::MAX,
    ensures
        final(params)@ == old(params)@ + slot_params(bind, vs@),
        final(out)@ == old(out)@ + slot_join(
            pre@,
            post@,
            sep@,
            vs@.len(),
            value_slot(bind, db, old(params)@.len() as nat, vs@),
        ),
{
    let ghost k = params@.len() as nat;
    let ghost base = out@;
    let ghost slot = value_slot(bind, db, k, vs@);
    let mut i: usize = 0;
    while i < vs.len()
        invariant
            i <= vs@.len(),
            bind ==> k + vs@.len() < u64::MAX,
            k == old(params)@.len(),
            slot == value_slot(bind, db, k, vs@),
            params@ == old(params)@ + slot_params(bind, vs@.take(i as int)),
            out@ == base + slot_join(pre@, post@, sep@, i as nat, slot),
        decreases vs.len() - i,
    {
        let ghost before = out@;
        if i > 0 {
            push_str(out, sep);
        }
        push_chars(out, pre);
        if bind {
            let p = push_param(db, params, vs[i].duplicate());
            push_str(out, p.as_str());
            assert(params@ =~= old(params)@ + slot_params(bind, vs@.take(i + 1)));
        } else {
            push_preview_value(out, &vs[i]);
            assert(params@ =~= old(params)@ + slot_params(bind, vs@.take(i + 1)));
        }
        push_chars(out, post);
        if i == 0 {
            assert(out@ =~= base + slot_join(pre@, post@, sep@, (i + 1) as nat, slot));
        } else {
            assert(out@ =~= before + sep@ + pre@ + slot(i as nat) + post@);
            assert(out@ =~= base + slot_join(pre@, post@, sep@, (i + 1) as nat, slot));
        }
        i = i + 1;
    }
    assert(vs@.take(vs@.len() as int) =~= vs@);
}

/// Appends an array filter on the column SQL `col`: with its values bound
/// (`bind`), or as a preview with their literals.
#[verifier::spinoff_prover]
#[verifier::rlimit(50)]
pub fn push_array_sql(
    out: &mut Vec<char>,
    params: &mut Vec<JsonValue>,
    bind: bool,
    db: DatabaseType,
    col: &Vec<char>,
    op: ArrayOperator,
    vs: &Vec<JsonValue>,
)
    requires
        bind ==> old(params)@.len() + vs@.len() < u64::MAX,
    ensures
        final(params)@ == old(params)@ + slot_params(bind, vs@),
        final(out)@ == old(out)@ + array_sql(
            db,
            col@,
            op,
            vs@.len(),
            value_slot(bind, db, old(params)@.len() as nat, vs@),
        ),
{
    let ghost base = out@;
    let ghost k = params@.len() as nat;
    let none: Vec<char> = Vec::new();
    let n = vs.len();
    match db {
        DatabaseType::Postgres => {
            push_chars(out, col);
            match op {
                ArrayOperator::Contains => push_str(out, " @> ARRAY["),
                ArrayOperator::ContainedBy => push_str(out, " <@ ARRAY["),
                ArrayOperator::Overlaps => push_str(out, " && ARRAY["),
            }
            push_slots(out, params, bind, db, &none, &none, ",", vs);
            push_str(out, "]");
        },
        DatabaseType::SQLite => {
            let mut pre: Vec<char> = Vec::new();
            push_str(&mut pre, "EXISTS (SELECT 1 FROM json_each(");
            push_chars(&mut pre, col);
            push_str(&mut pre, ") WHERE value = ");
            let mut post: Vec<char> = Vec::new();
            push_str(&mut post, ")");
            match op {
                ArrayOperator::Contains => {
                    if n == 0 {
                        push_str(out, "1 = 1");
                    } else {
                        push_str(out, "(");
                        push_slots(out, params, bind, db, &pre, &post, " AND ", vs);
                        push_str(out, ")");
                    }
                },
                ArrayOperator::ContainedBy => {
                    push_str(out, "NOT EXISTS (SELECT 1 FROM json_each(");
                    push_chars(out, col);
                    if n == 0 {
                        push_str(out, "))");
                    } else {
                        push_str(out, ") WHERE value NOT IN (");
                        push_slots(out, params, bind, db, &none, &none, ", ", vs);
                        push_str(out, "))");
                    }
                },
                ArrayOperator::Overlaps => {
                    if n == 0 {
                        push_str(out, "0 = 1");
                    } else {
                        push_str(out, "(");
                        push_slots(out, params, bind, db, &pre, &post, " OR ", vs);
                        push_str(out, ")");
                    }
                },
            }
        },
        _ => {
            match op {
                ArrayOperator::Contains => {
                    push_str(out, "JSON_CONTAINS(");
                    push_chars(out, col);
                    push_str(out, ", JSON_ARRAY(");
                    push_slots(out, params, bind, db, &none, &none, ", ", vs);
                    push_str(out, "))");
                },
                ArrayOperator::ContainedBy => {
                    push_str(out, "JSON_CONTAINS(JSON_ARRAY(");
                    push_slots(out, params, bind, db, &none, &none, ", ", vs);
                    push_str(out, "), ");
                    push_chars(out, col);
                    push_str(out, ")");
                },
                ArrayOperator::Overlaps => {
                    if n == 0 {
                        push_str(out, "0 = 1");
                    } else {
                        let mut pre: Vec<char> = Vec::new();
                        push_str(&mut pre, "JSON_CONTAINS(");
                        push_chars(&mut pre, col);
                        push_str(&mut pre, ", JSON_ARRAY(");
                        let mut post: Vec<char> = Vec::new();
                        push_str(&mut post, "))");
                        push_str(out, "(");
                        push_slots(out, params, bind, db, &pre, &post, " OR ", vs);
                        push_str(out, ")");
                    }
                },
            }
        },
    }
    if n == 0 {
        assert(params@ =~= old(params)@ + slot_params(bind, vs@));
    }
    assert(out@ =~= base + array_sql(db, col@, op, vs@.len(), value_slot(bind, db, k, vs@)));
}

} // verus!
