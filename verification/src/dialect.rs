//! Backend identification and identifier quoting.

use vstd::prelude::*;
use crate::text::{chars_of, string_of, slice_chars};

verus! {

/// The SQL backend a statement is rendered for.
#[derive(Clone, Copy, PartialEq, Eq, Debug)]
pub enum DatabaseType {
    /// PostgreSQL.
    Postgres,
    /// MySQL.
    MySQL,
    /// MariaDB.
    MariaDB,
    /// SQLite.
    SQLite,
}

/// Sort direction of an ORDER BY term.
#[derive(Clone, Copy, PartialEq, Eq, Debug)]
pub enum Order {
    /// Ascending.
    Asc,
    /// Descending.
    Desc,
}

/// The keyword of a sort direction.
pub open spec fn order_keyword(o: Order) -> Seq<char> {
    match o {
        Order::Asc => seq!['A', 'S', 'C'],
        Order::Desc => seq!['D', 'E', 'S', 'C'],
    }
}

impl Order {
    /// The keyword emitted after an ORDER BY column.
    pub fn as_str(&self) -> (s: &'static str)
        ensures
            s@ == order_keyword(*self),
    {
        proof {
            reveal_strlit("ASC");
            reveal_strlit("DESC");
        }
        match self {
            Order::Asc => "ASC",
            Order::Desc => "DESC",
        }
    }
}

/// The identifier quote character of a backend.
pub open spec fn quote_mark(db: DatabaseType) -> char {
    match db {
        DatabaseType::MySQL | DatabaseType::MariaDB => '`',
        _ => '"',
    }
}

/// `s` with every occurrence of `q` doubled.
pub open spec fn escape_with(s: Seq<char>, q: char) -> Seq<char>
    decreases s.len(),
{
    if s.len() == 0 {
        Seq::empty()
    } else if s.last() == q {
        escape_with(s.drop_last(), q) + seq![q, q]
    } else {
        escape_with(s.drop_last(), q).push(s.last())
    }
}

/// `s` quoted as one identifier for `db`.
pub open spec fn quoted(db: DatabaseType, s: Seq<char>) -> Seq<char> {
    seq![quote_mark(db)] + escape_with(s, quote_mark(db)) + seq![quote_mark(db)]
}

fn quote_mark_of(db: DatabaseType) -> (c: char)
    ensures
        c == quote_mark(db),
{
    match db {
        DatabaseType::MySQL | DatabaseType::MariaDB => '`',
        _ => '"',
    }
}

/// Appends `s` quoted as one identifier for `db`.
pub fn push_quoted(out: &mut Vec<char>, db: DatabaseType, s: &Vec<char>)
    ensures
        final(out)@ == old(out)@ + quoted(db, s@),
{
    let q = quote_mark_of(db);
    let ghost base = out@;
    out.push(q);
    let mut i: usize = 0;
    while i < s.len()
        invariant
            i <= s@.len(),
            q == quote_mark(db),
            out@ == base + seq![q] + escape_with(s@.take(i as int), q),
        decreases s.len() - i,
    {
        proof {
            assert(s@.take(i + 1).drop_last() == s@.take(i as int));
            assert(s@.take(i + 1).last() == s@[i as int]);
        }
        if s[i] == q {
            out.push(q);
            out.push(q);
        } else {
            out.push(s[i]);
        }
        i = i + 1;
    }
    out.push(q);
    assert(s@.take(s@.len() as int) == s@);
}

/// `name` quoted as one identifier for `db`, with embedded quote characters doubled.
pub fn quote_ident(db: DatabaseType, name: &str) -> (r: String)
    ensures
        r@ == quoted(db, name@),
{
    let cs = chars_of(name);
    let mut out: Vec<char> = Vec::new();
    push_quoted(&mut out, db, &cs);
    string_of(&out)
}

/// A character that may start an identifier.
pub open spec fn is_ident_start(c: char) -> bool {
    ('a' <= c && c <= 'z') || ('A' <= c && c <= 'Z') || c == '_'
}

/// A character that may continue an identifier.
pub open spec fn is_ident_char(c: char) -> bool {
    is_ident_start(c) || ('0' <= c && c <= '9')
}

/// A plain SQL identifier: a letter or underscore followed by letters, digits or
/// underscores.
pub open spec fn is_ident(s: Seq<char>) -> bool {
    &&& s.len() > 0
    &&& is_ident_start(s[0])
    &&& forall|i: int| 1 <= i < s.len() ==> is_ident_char(#[trigger] s[i])
}

/// Whether `s` is a plain identifier.
pub fn check_ident(s: &Vec<char>) -> (b: bool)
    ensures
        b == is_ident(s@),
{
    if s.len() == 0 {
        return false;
    }
    let c0 = s[0];
    if !(('a' <= c0 && c0 <= 'z') || ('A' <= c0 && c0 <= 'Z') || c0 == '_') {
        return false;
    }
    let mut i: usize = 1;
    while i < s.len()
        invariant
            1 <= i <= s@.len(),
            forall|j: int| 1 <= j < i ==> is_ident_char(#[trigger] s@[j]),
        decreases s.len() - i,
    {
        let c = s[i];
        if !(('a' <= c && c <= 'z') || ('A' <= c && c <= 'Z') || c == '_' || ('0' <= c && c <= '9')) {
            return false;
        }
        i = i + 1;
    }
    true
}

/// The index of the first `c` in `s`, or `-1`.
pub open spec fn first_pos(s: Seq<char>, c: char) -> int
    decreases s.len(),
{
    if s.len() == 0 {
        -1
    } else {
        let p = first_pos(s.drop_last(), c);
        if p >= 0 {
            p
        } else if s.last() == c {
            s.len() - 1
        } else {
            -1
        }
    }
}

/// `first_pos` is the first occurrence, or `-1` when there is none.
pub proof fn lemma_first_pos(s: Seq<char>, c: char)
    ensures
        -1 <= first_pos(s, c) < s.len(),
        first_pos(s, c) >= 0 ==> s[first_pos(s, c)] == c,
        forall|j: int| 0 <= j < s.len() && (first_pos(s, c) < 0 || j < first_pos(s, c)) ==> s[j] != c,
    decreases s.len(),
{
    if s.len() > 0 {
        lemma_first_pos(s.drop_last(), c);
        assert forall|j: int| 0 <= j < s.len() && (first_pos(s, c) < 0 || j < first_pos(s, c)) implies s[j] != c by {
            if j < s.len() - 1 {
                assert(s[j] == s.drop_last()[j]);
            }
        }
    }
}

proof fn lemma_first_pos_is(s: Seq<char>, c: char, k: int)
    requires
        -1 <= k < s.len(),
        k >= 0 ==> s[k] == c,
        forall|j: int| 0 <= j < s.len() && (k < 0 || j < k) ==> s[j] != c,
    ensures
        first_pos(s, c) == k,
    decreases s.len(),
{
    if s.len() > 0 {
        if k == s.len() - 1 {
            lemma_first_pos_is(s.drop_last(), c, -1);
        } else {
            lemma_first_pos_is(s.drop_last(), c, k);
        }
    }
}

/// The index of the first `c` in `s`.
pub fn find_char(s: &Vec<char>, c: char) -> (r: Option<usize>)
    ensures
        match r {
            Some(i) => i as int == first_pos(s@, c),
            None => first_pos(s@, c) == -1,
        },
{
    let mut i: usize = 0;
    while i < s.len()
        invariant
            i <= s@.len(),
            forall|j: int| 0 <= j < i ==> s@[j] != c,
        decreases s.len() - i,
    {
        if s[i] == c {
            proof {
                lemma_first_pos_is(s@, c, i as int);
            }
            return Some(i);
        }
        i = i + 1;
    }
    proof {
        lemma_first_pos_is(s@, c, -1);
    }
    None
}

/// `s` read as `identifier` or `qualifier.identifier`, quoted part by part for
/// `db`; `None` when `s` is neither.
pub open spec fn formatted_reference(db: DatabaseType, s: Seq<char>) -> Option<Seq<char>> {
    let p = first_pos(s, '.');
    if p < 0 {
        if is_ident(s) {
            Some(quoted(db, s))
        } else {
            None
        }
    } else if is_ident(s.take(p)) && is_ident(s.skip(p + 1)) {
        Some(quoted(db, s.take(p)) + seq!['.'] + quoted(db, s.skip(p + 1)))
    } else {
        None
    }
}

/// Quotes `s` as an `identifier` or `qualifier.identifier` reference.
pub fn format_reference_chars(db: DatabaseType, s: &Vec<char>) -> (r: Option<Vec<char>>)
    ensures
        match r {
            Some(v) => formatted_reference(db, s@) == Some(v@),
            None => formatted_reference(db, s@).is_none(),
        },
{
    match find_char(s, '.') {
        None => {
            if check_ident(s) {
                let mut out: Vec<char> = Vec::new();
                push_quoted(&mut out, db, s);
                Some(out)
            } else {
                None
            }
        },
        Some(p) => {
            proof {
                lemma_first_pos(s@, '.');
                assert(p < s@.len());
            }
            let head = slice_chars(s, 0, p);
            let n = s.len();
            assert(p < n);
            let tail = slice_chars(s, p + 1, n);
            assert(head@ == s@.take(p as int));
            assert(tail@ == s@.skip(p + 1));
            if check_ident(&head) && check_ident(&tail) {
                let mut out: Vec<char> = Vec::new();
                push_quoted(&mut out, db, &head);
                out.push('.');
                push_quoted(&mut out, db, &tail);
                Some(out)
            } else {
                None
            }
        },
    }
}

/// Quotes `s` as an identifier reference, or `None` when it is not one.
pub fn format_identifier_reference(db: DatabaseType, s: &str) -> (r: Option<String>)
    ensures
        match r {
            Some(v) => formatted_reference(db, s@) == Some(v@),
            None => formatted_reference(db, s@).is_none(),
        },
{
    let cs = chars_of(s);
    match format_reference_chars(db, &cs) {
        Some(v) => Some(string_of(&v)),
        None => None,
    }
}

/// A column reference quoted strictly: a reference is quoted part by part, and
/// anything else is quoted whole as one identifier.
pub open spec fn strict_column(db: DatabaseType, s: Seq<char>) -> Seq<char> {
    match formatted_reference(db, s) {
        Some(r) => r,
        None => quoted(db, s),
    }
}

/// A column reference quoted part by part, or anything else passed through as a
/// trusted expression.
pub open spec fn column_or_expression(db: DatabaseType, s: Seq<char>) -> Seq<char> {
    match formatted_reference(db, s) {
        Some(r) => r,
        None => s,
    }
}

/// Appends the strict quoting of `s`.
pub fn push_strict_column(out: &mut Vec<char>, db: DatabaseType, s: &Vec<char>)
    ensures
        final(out)@ == old(out)@ + strict_column(db, s@),
{
    match format_reference_chars(db, s) {
        Some(v) => {
            let mut i: usize = 0;
            let ghost base = out@;
            while i < v.len()
                invariant
                    i <= v@.len(),
                    out@ == base + v@.take(i as int),
                decreases v.len() - i,
            {
                out.push(v[i]);
                i = i + 1;
                assert(v@.take(i as int) == v@.take(i - 1).push(v@[i - 1]));
            }
            assert(v@.take(v@.len() as int) == v@);
        },
        None => push_quoted(out, db, s),
    }
}

/// Appends every character of `v`.
pub fn push_chars(out: &mut Vec<char>, v: &Vec<char>)
    ensures
        final(out)@ == old(out)@ + v@,
{
    let mut i: usize = 0;
    let ghost base = out@;
    while i < v.len()
        invariant
            i <= v@.len(),
            out@ == base + v@.take(i as int),
            base == old(out)@,
        decreases v.len() - i,
    {
        out.push(v[i]);
        i = i + 1;
        assert(v@.take(i as int) == v@.take(i - 1).push(v@[i - 1]));
    }
    assert(v@.take(v@.len() as int) == v@);
}

/// Appends `s` as a column reference, or verbatim when it is not one.
pub fn push_column_or_expression(out: &mut Vec<char>, db: DatabaseType, s: &Vec<char>)
    ensures
        final(out)@ == old(out)@ + column_or_expression(db, s@),
{
    match format_reference_chars(db, s) {
        Some(v) => push_chars(out, &v),
        None => push_chars(out, s),
    }
}

/// A column strictly quoted for `db` (see `strict_column`).
pub fn format_column(db: DatabaseType, column: &str) -> (r: String)
    ensures
        r@ == strict_column(db, column@),
{
    let cs = chars_of(column);
    let mut out: Vec<char> = Vec::new();
    push_strict_column(&mut out, db, &cs);
    string_of(&out)
}

} // verus!
