//! Recovering the tables a query reads, for tagging its cache entry.

use vstd::prelude::*;
use crate::condition::{ConditionValue, OrGroup, WhereCondition};
use crate::text::{
    SepKind, chars_of, chars_eq_ignore_case, eq_ignore_case, lemma_take_all, slice_chars,
    split_by, split_pieces, string_of, views, vviews,
};

verus! {

/// Whether `c` is alphabetic or numeric in the Unicode sense (named after
/// `char::is_alphanumeric`).
pub uninterp spec fn unicode_alnum(c: char) -> bool;

/// `char::is_alphanumeric`: whether `c` is alphabetic or numeric. The contract
/// names the result and claims nothing about which characters qualify.
#[verifier::external_body]
pub(crate) fn is_alnum(c: char) -> (b: bool)
    ensures
        b == unicode_alnum(c),
{
    c.is_alphanumeric()
}

/// A quote character of any supported backend.
pub open spec fn is_quote(c: char) -> bool {
    c == '"' || c == '`' || c == '[' || c == ']'
}

/// Number of leading characters of `s` satisfying `quote_or_semi`-trimming.
pub open spec fn lead_in(s: Seq<char>, semi: bool) -> nat
    decreases s.len(),
{
    if s.len() > 0 && (is_quote(s[0]) || (semi && s[0] == ';')) {
        1 + lead_in(s.drop_first(), semi)
    } else {
        0
    }
}

/// Number of trailing characters of `s` satisfying the same test.
pub open spec fn trail_in(s: Seq<char>, semi: bool) -> nat
    decreases s.len(),
{
    if s.len() > 0 && (is_quote(s.last()) || (semi && s.last() == ';')) {
        1 + trail_in(s.drop_last(), semi)
    } else {
        0
    }
}

/// `s` with quote characters (and `;` when `semi`) trimmed from both ends.
pub open spec fn trim_quotes(s: Seq<char>, semi: bool) -> Seq<char> {
    let rest = s.skip(lead_in(s, semi) as int);
    rest.take(rest.len() - trail_in(rest, semi))
}

proof fn lemma_lead_in_is(s: Seq<char>, semi: bool, k: int)
    requires
        0 <= k <= s.len(),
        forall|j: int| 0 <= j < k ==> (is_quote(#[trigger] s[j]) || (semi && s[j] == ';')),
        k < s.len() ==> !(is_quote(s[k]) || (semi && s[k] == ';')),
    ensures
        lead_in(s, semi) == k,
    decreases s.len(),
{
    if k > 0 {
        assert(is_quote(s[0]) || (semi && s[0] == ';'));
        assert forall|j: int| 0 <= j < k - 1 implies (is_quote(#[trigger] s.drop_first()[j]) || (semi
            && s.drop_first()[j] == ';')) by {
            assert(s.drop_first()[j] == s[j + 1]);
        }
        lemma_lead_in_is(s.drop_first(), semi, k - 1);
    }
}

proof fn lemma_trail_in_is(s: Seq<char>, semi: bool, k: int)
    requires
        0 <= k <= s.len(),
        forall|j: int| s.len() - k <= j < s.len() ==> (is_quote(#[trigger] s[j]) || (semi && s[j]
            == ';')),
        k < s.len() ==> !(is_quote(s[s.len() - 1 - k]) || (semi && s[s.len() - 1 - k] == ';')),
    ensures
        trail_in(s, semi) == k,
    decreases s.len(),
{
    if k > 0 {
        assert(is_quote(s[s.len() - 1]) || (semi && s[s.len() - 1] == ';'));
        assert forall|j: int| s.drop_last().len() - (k - 1) <= j < s.drop_last().len() implies (
        is_quote(#[trigger] s.drop_last()[j]) || (semi && s.drop_last()[j] == ';')) by {
            assert(s.drop_last()[j] == s[j]);
        }
        lemma_trail_in_is(s.drop_last(), semi, k - 1);
    }
}

fn trimmable(c: char, semi: bool) -> (b: bool)
    ensures
        b == (is_quote(c) || (semi && c == ';')),
{
    c == '"' || c == '`' || c == '[' || c == ']' || (semi && c == ';')
}

fn trim_quote_chars(s: &Vec<char>, semi: bool) -> (r: Vec<char>)
    ensures
        r@ == trim_quotes(s@, semi),
{
    let mut lo: usize = 0;
    while lo < s.len() && trimmable(s[lo], semi)
        invariant
            lo <= s@.len(),
            forall|j: int| 0 <= j < lo ==> (is_quote(#[trigger] s@[j]) || (semi && s@[j] == ';')),
        decreases s.len() - lo,
    {
        lo = lo + 1;
    }
    proof {
        lemma_lead_in_is(s@, semi, lo as int);
    }
    let mut hi: usize = s.len();
    while hi > lo && trimmable(s[hi - 1], semi)
        invariant
            lo <= hi <= s@.len(),
            forall|j: int| hi <= j < s@.len() ==> (is_quote(#[trigger] s@[j]) || (semi && s@[j]
                == ';')),
        decreases hi,
    {
        hi = hi - 1;
    }
    proof {
        let rest = s@.skip(lo as int);
        let k = (s@.len() - hi) as int;
        assert forall|j: int| rest.len() - k <= j < rest.len() implies (is_quote(#[trigger] rest[j])
            || (semi && rest[j] == ';')) by {
            assert(rest[j] == s@[j + lo]);
        }
        if k < rest.len() {
            assert(rest[rest.len() - 1 - k] == s@[hi - 1]);
        }
        lemma_trail_in_is(rest, semi, k);
        assert(rest.take(rest.len() - k) =~= s@.subrange(lo as int, hi as int));
    }
    slice_chars(s, lo, hi)
}

/// The index of the last `c` in `s`, or `-1`.
pub open spec fn last_pos(s: Seq<char>, c: char) -> int
    decreases s.len(),
{
    if s.len() == 0 {
        -1
    } else if s.last() == c {
        s.len() - 1
    } else {
        last_pos(s.drop_last(), c)
    }
}

proof fn lemma_last_pos_bound(s: Seq<char>, c: char)
    ensures
        -1 <= last_pos(s, c) < s.len(),
    decreases s.len(),
{
    if s.len() > 0 && s.last() != c {
        lemma_last_pos_bound(s.drop_last(), c);
    }
}

fn find_last(s: &Vec<char>, c: char) -> (r: Option<usize>)
    ensures
        match r {
            Some(i) => i == last_pos(s@, c),
            None => last_pos(s@, c) == -1,
        },
{
    let mut i: usize = s.len();
    proof {
        lemma_take_all(s@);
    }
    while i > 0
        invariant
            i <= s@.len(),
            last_pos(s@, c) == last_pos(s@.take(i as int), c),
        decreases i,
    {
        proof {
            let t = s@.take(i as int);
            assert(t.drop_last() == s@.take(i - 1));
        }
        if s[i - 1] == c {
            return Some(i - 1);
        }
        i = i - 1;
    }
    None
}

/// The part of a dotted reference after its last dot (all of it when there is
/// no dot).
pub open spec fn after_last_dot(s: Seq<char>) -> Seq<char> {
    s.skip(last_pos(s, '.') + 1)
}

/// Every character is alphanumeric or `_`.
pub open spec fn tag_chars_ok(s: Seq<char>) -> bool {
    forall|i: int| 0 <= i < s.len() ==> (unicode_alnum(#[trigger] s[i]) || s[i] == '_')
}

/// The bare table name a rendered table reference stands for: quotes and `;`
/// trimmed, any schema qualifier dropped, and `None` unless what is left is a
/// non-empty run of alphanumerics and underscores.
pub open spec fn normalized_table(token: Seq<char>) -> Option<Seq<char>> {
    let qualified = trim_quotes(token, true);
    let name = trim_quotes(after_last_dot(qualified), false);
    if name.len() > 0 && tag_chars_ok(name) {
        Some(name)
    } else {
        None
    }
}

fn normalize_chars(token: &Vec<char>) -> (r: Option<Vec<char>>)
    ensures
        match r {
            Some(v) => normalized_table(token@) == Some(v@),
            None => normalized_table(token@).is_none(),
        },
{
    let qualified = trim_quote_chars(token, true);
    proof {
        lemma_last_pos_bound(qualified@, '.');
    }
    let start: usize = match find_last(&qualified, '.') {
        Some(p) => p + 1,
        None => 0,
    };
    let after = slice_chars(&qualified, start, qualified.len());
    assert(after@ == after_last_dot(qualified@));
    let name = trim_quote_chars(&after, false);
    assert(name@ == trim_quotes(after_last_dot(trim_quotes(token@, true)), false));
    if name.len() == 0 {
        return None;
    }
    let mut i: usize = 0;
    while i < name.len()
        invariant
            i <= name@.len(),
            forall|j: int| 0 <= j < i ==> (unicode_alnum(#[trigger] name@[j]) || name@[j] == '_'),
            name@ == trim_quotes(after_last_dot(trim_quotes(token@, true)), false),
            name@.len() > 0,
        decreases name.len() - i,
    {
        if !(is_alnum(name[i]) || name[i] == '_') {
            assert(!(unicode_alnum(name@[i as int]) || name@[i as int] == '_'));
            assert(!tag_chars_ok(name@));
            return None;
        }
        i = i + 1;
    }
    Some(name)
}

/// Reduces a rendered table reference to the bare name used as a cache tag.
pub fn normalize_table_name(token: &str) -> (r: Option<String>)
    ensures
        match r {
            Some(v) => normalized_table(token@) == Some(v@),
            None => normalized_table(token@).is_none(),
        },
{
    let cs = chars_of(token);
    match normalize_chars(&cs) {
        Some(v) => Some(string_of(&v)),
        None => None,
    }
}

/// `tables` with the tag for `table` added, unless it is unusable or present.
pub open spec fn pushed_tag(tables: Seq<Seq<char>>, table: Seq<char>) -> Seq<Seq<char>> {
    match normalized_table(table) {
        Some(n) => if tables.contains(n) {
            tables
        } else {
            tables.push(n)
        },
        None => tables,
    }
}

fn contains_string(tables: &Vec<String>, v: &Vec<char>) -> (b: bool)
    ensures
        b == views(tables@).contains(v@),
{
    let s = string_of(v);
    let mut i: usize = 0;
    while i < tables.len()
        invariant
            i <= tables@.len(),
            s@ == v@,
            forall|j: int| 0 <= j < i ==> tables@[j]@ != v@,
        decreases tables.len() - i,
    {
        if tables[i] == s {
            assert(views(tables@)[i as int] == v@);
            return true;
        }
        i = i + 1;
    }
    proof {
        if views(tables@).contains(v@) {
            let k = choose|k: int| 0 <= k < views(tables@).len() && views(tables@)[k] == v@;
            assert(tables@[k]@ == v@);
        }
    }
    false
}

fn push_tag_chars(tables: &mut Vec<String>, token: &Vec<char>)
    ensures
        views(final(tables)@) == pushed_tag(views(old(tables)@), token@),
{
    match normalize_chars(token) {
        Some(n) => {
            if !contains_string(tables, &n) {
                tables.push(string_of(&n));
                assert(views(tables@) =~= views(old(tables)@).push(n@));
            }
        },
        None => {},
    }
}

/// Records `table` as a cache tag, ignoring duplicates and unusable names.
pub fn push_table_tag(tables: &mut Vec<String>, table: &str)
    ensures
        views(final(tables)@) == pushed_tag(views(old(tables)@), table@),
{
    let cs = chars_of(table);
    push_tag_chars(tables, &cs);
}

/// A keyword that can follow FROM/JOIN without naming a table.
pub open spec fn not_a_table(tok: Seq<char>) -> bool {
    ||| eq_ignore_case(tok, "select"@)
    ||| eq_ignore_case(tok, "lateral"@)
    ||| eq_ignore_case(tok, "only"@)
    ||| eq_ignore_case(tok, "unnest"@)
    ||| eq_ignore_case(tok, "values"@)
}

/// The scan of `collect_tables_from_sql` over `tokens`, from a starting tag
/// list: whether the next token is expected to be a table, and the tags so far.
pub open spec fn scan_tables(tokens: Seq<Seq<char>>, tables: Seq<Seq<char>>) -> (bool, Seq<Seq<char>>)
    decreases tokens.len(),
{
    if tokens.len() == 0 {
        (false, tables)
    } else {
        let prev = scan_tables(tokens.drop_last(), tables);
        let tok = tokens.last();
        if tok.len() == 0 {
            prev
        } else if eq_ignore_case(tok, "from"@) || eq_ignore_case(tok, "join"@) {
            (true, prev.1)
        } else if !prev.0 {
            prev
        } else if not_a_table(tok) {
            (false, prev.1)
        } else {
            (false, pushed_tag(prev.1, tok))
        }
    }
}

/// The tags after reading the identifier that follows each FROM/JOIN in `sql`.
pub open spec fn tables_from_sql(sql: Seq<char>, tables: Seq<Seq<char>>) -> Seq<Seq<char>> {
    scan_tables(split_pieces(sql, SepKind::WhitespaceOrListPunct), tables).1
}

fn eq_word(tok: &Vec<char>, w: &str) -> (b: bool)
    ensures
        b == eq_ignore_case(tok@, w@),
{
    let wc = chars_of(w);
    chars_eq_ignore_case(tok, &wc)
}

/// Pulls table names out of rendered SQL by reading the identifier that follows
/// each FROM/JOIN keyword, skipping keywords that open a derived table.
pub fn collect_tables_from_sql(sql: &str, tables: &mut Vec<String>)
    ensures
        views(final(tables)@) == tables_from_sql(sql@, views(old(tables)@)),
{
    let cs = chars_of(sql);
    let tokens = split_by(&cs, SepKind::WhitespaceOrListPunct);
    let ghost toks = vviews(tokens@);
    let ghost init = views(tables@);
    let mut expect_table = false;
    let mut i: usize = 0;
    while i < tokens.len()
        invariant
            i <= tokens@.len(),
            toks == vviews(tokens@),
            toks == split_pieces(cs@, SepKind::WhitespaceOrListPunct),
            scan_tables(toks.take(i as int), init) == (expect_table, views(tables@)),
        decreases tokens.len() - i,
    {
        let tok = &tokens[i];
        proof {
            assert(toks.take(i + 1).drop_last() == toks.take(i as int));
            assert(toks.take(i + 1).last() == tok@);
        }
        if tok.len() == 0 {
        } else if eq_word(tok, "from") || eq_word(tok, "join") {
            expect_table = true;
        } else if !expect_table {
        } else if eq_word(tok, "select") || eq_word(tok, "lateral") || eq_word(tok, "only")
            || eq_word(tok, "unnest") || eq_word(tok, "values") {
            expect_table = false;
        } else {
            expect_table = false;
            push_tag_chars(tables, tok);
        }
        i = i + 1;
    }
    proof {
        lemma_take_all(toks);
    }
}

/// The tags after reading the SQL a condition carries, if any.
pub open spec fn condition_tables(c: WhereCondition, tables: Seq<Seq<char>>) -> Seq<Seq<char>> {
    match c.value {
        ConditionValue::Subquery(q) => tables_from_sql(q@, tables),
        ConditionValue::RawExpr(q) => tables_from_sql(q@, tables),
        _ => tables,
    }
}

/// Collects the tables named inside a condition's SQL-carrying operand.
pub fn collect_condition_tables(condition: &WhereCondition, tables: &mut Vec<String>)
    ensures
        views(final(tables)@) == condition_tables(*condition, views(old(tables)@)),
{
    match &condition.value {
        ConditionValue::Subquery(q) => collect_tables_from_sql(q.as_str(), tables),
        ConditionValue::RawExpr(q) => collect_tables_from_sql(q.as_str(), tables),
        _ => {},
    }
}

} // verus!
