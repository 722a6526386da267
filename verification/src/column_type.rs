//! The logical column type a Rust type spelling maps to.

use vstd::prelude::*;
use crate::tables::{is_alnum, unicode_alnum};
use crate::text::{chars_eq, chars_of, is_whitespace, is_ws, push_joined_chars, seq_join, slice_chars, vviews};

verus! {

/// What a `lifetime` scan has produced so far: the kept characters, and
/// whether the scan is inside a lifetime's name.
pub open spec fn clean_scan(s: Seq<char>) -> (Seq<char>, bool)
    decreases s.len(),
{
    if s.len() == 0 {
        (Seq::empty(), false)
    } else {
        let (out, in_lifetime) = clean_scan(s.drop_last());
        let c = s.last();
        if in_lifetime && (unicode_alnum(c) || c == '_') {
            (out, true)
        } else if c == '&' || is_ws(c) {
            (out, false)
        } else if c == '\'' {
            (out, true)
        } else {
            (out.push(c), false)
        }
    }
}

/// A type spelling without references, white space and lifetimes (`'a`,
/// `'static`: the quote and the name after it).
pub open spec fn clean_spelling(s: Seq<char>) -> Seq<char> {
    clean_scan(s).0
}

fn clean_chars(s: &Vec<char>) -> (r: Vec<char>)
    ensures
        r@ == clean_spelling(s@),
{
    let mut out: Vec<char> = Vec::new();
    let mut in_lifetime = false;
    let mut i: usize = 0;
    while i < s.len()
        invariant
            i <= s@.len(),
            (out@, in_lifetime) == clean_scan(s@.take(i as int)),
        decreases s.len() - i,
    {
        let c = s[i];
        proof {
            assert(s@.take(i + 1).drop_last() == s@.take(i as int));
            assert(s@.take(i + 1).last() == c);
        }
        if in_lifetime && (is_alnum(c) || c == '_') {
        } else if c == '&' || is_whitespace(c) {
            in_lifetime = false;
        } else if c == '\'' {
            in_lifetime = true;
        } else {
            out.push(c);
            in_lifetime = false;
        }
        i = i + 1;
    }
    assert(s@.take(s@.len() as int) == s@);
    out
}

/// The text after the last `::` of `s`; all of `s` when it has none.
pub open spec fn last_segment(s: Seq<char>) -> Seq<char>
    decreases s.len(),
{
    if s.len() < 2 {
        s
    } else if s[s.len() - 2] == ':' && s[s.len() - 1] == ':' {
        Seq::empty()
    } else {
        last_segment(s.drop_last()).push(s.last())
    }
}

fn last_segment_chars(s: &Vec<char>) -> (r: Vec<char>)
    ensures
        r@ == last_segment(s@),
{
    let n = s.len();
    let mut k: usize = n;
    assert(s@.take(n as int) =~= s@);
    assert(s@.subrange(n as int, n as int) =~= Seq::<char>::empty());
    while k >= 2 && !(s[k - 2] == ':' && s[k - 1] == ':')
        invariant
            k <= n == s@.len(),
            last_segment(s@) == last_segment(s@.take(k as int)) + s@.subrange(k as int, n as int),
        decreases k,
    {
        let ghost t = s@.take(k as int);
        assert(t.drop_last() == s@.take(k - 1));
        assert(s@.subrange(k - 1, n as int) == seq![t.last()] + s@.subrange(k as int, n as int));
        k = k - 1;
    }
    let ghost t = s@.take(k as int);
    if k >= 2 {
        assert(last_segment(t) == Seq::<char>::empty());
        slice_chars(s, k, n)
    } else {
        assert(last_segment(t) == t);
        assert(t + s@.subrange(k as int, n as int) =~= s@.subrange(0, n as int));
        slice_chars(s, 0, n)
    }
}

/// `Option<..>` wrappers peeled off, as many as there are.
pub open spec fn peel_option(s: Seq<char>) -> Seq<char>
    decreases s.len(),
{
    if s.len() >= 8 && s.take(7) == "Option<"@ && s.last() == '>' {
        peel_option(s.subrange(7, s.len() - 1))
    } else {
        s
    }
}

fn peel_option_chars(s: &Vec<char>) -> (r: Vec<char>)
    ensures
        r@ == peel_option(s@),
{
    let prefix = chars_of("Option<");
    proof {
        reveal_strlit("Option<");
    }
    let mut cur = slice_chars(s, 0, s.len());
    assert(cur@ =~= s@);
    loop
        invariant
            prefix@ == "Option<"@,
            peel_option(cur@) == peel_option(s@),
        decreases cur@.len(),
    {
        let n = cur.len();
        if n >= 8 && cur[n - 1] == '>' {
            let head = slice_chars(&cur, 0, 7);
            if chars_eq(&head, &prefix) {
                let next = slice_chars(&cur, 7, n - 1);
                cur = next;
                continue;
            }
        }
        return cur;
    }
}

/// The scan of a generic argument list: the finished arguments, the one
/// being read, and how deeply nested in `<..>` the scan is.
pub open spec fn split_scan(s: Seq<char>) -> (Seq<Seq<char>>, Seq<char>, nat)
    decreases s.len(),
{
    if s.len() == 0 {
        (Seq::empty(), Seq::empty(), 0)
    } else {
        let (parts, cur, depth) = split_scan(s.drop_last());
        let c = s.last();
        if c == '<' {
            (parts, cur.push(c), depth + 1)
        } else if c == '>' {
            (parts, cur.push(c), if depth > 0 { (depth - 1) as nat } else { 0 })
        } else if c == ',' && depth == 0 {
            (parts.push(cur), Seq::empty(), 0)
        } else {
            (parts, cur.push(c), depth)
        }
    }
}

/// `s` split on the commas that are not nested inside `<..>`.
pub open spec fn split_top(s: Seq<char>) -> Seq<Seq<char>> {
    let (parts, cur, _) = split_scan(s);
    parts.push(cur)
}

/// No argument of a split is longer than the list it came from.
pub proof fn lemma_split_scan_bounded(s: Seq<char>)
    ensures
        forall|i: int| 0 <= i < split_scan(s).0.len() ==> #[trigger] split_scan(s).0[i].len() <= s.len(),
        split_scan(s).1.len() <= s.len(),
    decreases s.len(),
{
    if s.len() > 0 {
        lemma_split_scan_bounded(s.drop_last());
    }
}

fn split_top_chars(s: &Vec<char>) -> (r: Vec<Vec<char>>)
    ensures
        vviews(r@) == split_top(s@),
{
    let mut parts: Vec<Vec<char>> = Vec::new();
    let mut cur: Vec<char> = Vec::new();
    let mut depth: usize = 0;
    let mut i: usize = 0;
    while i < s.len()
        invariant
            i <= s@.len(),
            depth <= i,
            (vviews(parts@), cur@, depth as nat) == split_scan(s@.take(i as int)),
        decreases s.len() - i,
    {
        let c = s[i];
        proof {
            assert(s@.take(i + 1).drop_last() == s@.take(i as int));
            assert(s@.take(i + 1).last() == c);
        }
        if c == '<' {
            cur.push(c);
            depth = depth + 1;
        } else if c == '>' {
            cur.push(c);
            if depth > 0 {
                depth = depth - 1;
            }
        } else if c == ',' && depth == 0 {
            let done = cur;
            parts.push(done);
            cur = Vec::new();
            assert(vviews(parts@) =~= split_scan(s@.take(i as int)).0.push(done@));
        } else {
            cur.push(c);
        }
        i = i + 1;
    }
    assert(s@.take(s@.len() as int) == s@);
    let last = cur;
    parts.push(last);
    assert(vviews(parts@) =~= split_top(s@));
    parts
}

/// The index of the first `c` in `s`; `s.len()` when there is none.
pub open spec fn first_index(s: Seq<char>, c: char) -> nat
    decreases s.len(),
{
    if s.len() == 0 {
        0
    } else if s[0] == c {
        0
    } else {
        1 + first_index(s.skip(1), c)
    }
}

proof fn lemma_first_index(s: Seq<char>, c: char)
    ensures
        first_index(s, c) <= s.len(),
        first_index(s, c) < s.len() ==> s[first_index(s, c) as int] == c,
        forall|j: int| 0 <= j < first_index(s, c) ==> s[j] != c,
    decreases s.len(),
{
    if s.len() > 0 && s[0] != c {
        lemma_first_index(s.skip(1), c);
        assert forall|j: int| 0 <= j < first_index(s, c) implies s[j] != c by {
            if j > 0 {
                assert(s[j] == s.skip(1)[j - 1]);
            }
        }
    }
}

fn first_index_of(s: &Vec<char>, c: char) -> (r: usize)
    ensures
        r == first_index(s@, c),
{
    let mut i: usize = 0;
    assert(s@.skip(0) =~= s@);
    while i < s.len()
        invariant
            i <= s@.len(),
            first_index(s@, c) == i + first_index(s@.skip(i as int), c),
        decreases s.len() - i,
    {
        assert(s@.skip(i as int)[0] == s@[i as int]);
        if s[i] == c {
            return i;
        }
        assert(s@.skip(i as int).skip(1) =~= s@.skip(i + 1));
        i = i + 1;
    }
    assert(s@.skip(i as int).len() == 0);
    i
}

/// A type spelling with the module paths dropped from the type and, one by
/// one, from its generic arguments: `chrono::DateTime<chrono::Utc>` becomes
/// `DateTime<Utc>`. Only a spelling that ends in `>` is taken apart at its
/// first `<`.
pub open spec fn strip_paths(s: Seq<char>) -> Seq<char>
    decreases s.len(), 0nat,
{
    let open = first_index(s, '<');
    if open < s.len() && s.len() > 0 && s.last() == '>' {
        let args = s.subrange(open + 1int, s.len() - 1int);
        last_segment(s.take(open as int)) + seq!['<'] + seq_join(
            strip_each(split_top(args), (s.len() - 1) as nat),
            seq![','],
        ) + seq!['>']
    } else {
        last_segment(s)
    }
}

/// `strip_paths` of each argument no longer than `bound` (every argument of
/// a list shorter than the spelling it came from is).
pub open spec fn strip_each(parts: Seq<Seq<char>>, bound: nat) -> Seq<Seq<char>>
    decreases bound, parts.len(),
{
    if parts.len() == 0 {
        Seq::empty()
    } else {
        let last = parts.last();
        strip_each(parts.drop_last(), bound).push(
            if last.len() <= bound {
                strip_paths(last)
            } else {
                last
            },
        )
    }
}

fn strip_paths_chars(s: &Vec<char>) -> (r: Vec<char>)
    ensures
        r@ == strip_paths(s@),
    decreases s@.len(),
{
    let n = s.len();
    let open = first_index_of(s, '<');
    proof {
        lemma_first_index(s@, '<');
    }
    if open < n && n > 0 && s[n - 1] == '>' {
        let args = slice_chars(s, open + 1, n - 1);
        let parts = split_top_chars(&args);
        proof {
            lemma_split_scan_bounded(args@);
            assert forall|j: int| 0 <= j < parts@.len() implies #[trigger] parts@[j]@.len() <= args@.len() by {
                assert(parts@[j]@ == vviews(parts@)[j]);
                let sc = split_scan(args@);
                assert(split_top(args@) == sc.0.push(sc.1));
                assert(vviews(parts@).len() == parts@.len());
                if j < sc.0.len() {
                    assert(split_top(args@)[j] == sc.0[j]);
                } else {
                    assert(j == sc.0.len());
                    assert(split_top(args@)[j] == sc.1);
                }
            }
        }
        let ghost bound = (n - 1) as nat;
        let mut stripped: Vec<Vec<char>> = Vec::new();
        let mut k: usize = 0;
        while k < parts.len()
            invariant
                k <= parts@.len(),
                vviews(parts@) == split_top(args@),
                args@.len() + 2 <= n,
                n == s@.len(),
                bound == n - 1,
                forall|j: int| 0 <= j < parts@.len() ==> #[trigger] parts@[j]@.len() <= args@.len(),
                vviews(stripped@) == strip_each(vviews(parts@).take(k as int), bound),
            decreases parts.len() - k,
        {
            assert(parts@[k as int]@.len() <= args@.len());
            let one = strip_paths_chars(&parts[k]);
            stripped.push(one);
            proof {
                let t = vviews(parts@).take(k + 1);
                assert(t.drop_last() =~= vviews(parts@).take(k as int));
                assert(t.last() == parts@[k as int]@);
                assert(vviews(stripped@) =~= strip_each(t, bound));
            }
            k = k + 1;
        }
        assert(vviews(parts@).take(parts@.len() as int) =~= vviews(parts@));
        let head = slice_chars(s, 0, open);
        let mut out = last_segment_chars(&head);
        out.push('<');
        push_joined_chars(&mut out, &stripped, ",");
        out.push('>');
        proof {
            reveal_strlit(",");
            assert(","@ =~= seq![',']);
            assert(args@ =~= s@.subrange(open + 1int, n - 1int));
            assert(head@ =~= s@.take(open as int));
            assert(s@.last() == '>');
            assert(vviews(stripped@) == strip_each(split_top(s@.subrange(open + 1int, n - 1int)), (n - 1) as nat));
        }
        assert(out@ =~= strip_paths(s@));
        out
    } else {
        last_segment_chars(s)
    }
}

/// The key a Rust type spelling is looked up by: references, white space
/// and lifetimes dropped, then module paths, then every `Option<..>` wrapper
/// (nullability is a column property, not a type).
pub open spec fn lookup_key(s: Seq<char>) -> Seq<char> {
    peel_option(strip_paths(clean_spelling(s)))
}

fn lookup_key_chars(s: &str) -> (r: Vec<char>)
    ensures
        r@ == lookup_key(s@),
{
    let cs = chars_of(s);
    let cleaned = clean_chars(&cs);
    let stripped = strip_paths_chars(&cleaned);
    peel_option_chars(&stripped)
}

/// The logical type of a column, which each backend renders in its own SQL.
#[derive(Clone, Copy, PartialEq, Eq, Debug)]
pub enum ColumnType {
    /// 16-bit signed integer.
    SmallInteger,
    /// 32-bit signed integer.
    Integer,
    /// 64-bit signed integer.
    BigInteger,
    /// 8-bit unsigned integer.
    TinyUnsigned,
    /// 16-bit unsigned integer.
    SmallUnsigned,
    /// 32-bit unsigned integer.
    Unsigned,
    /// 64-bit unsigned integer.
    BigUnsigned,
    /// Fixed-point number with the given precision and scale.
    Decimal { precision: u32, scale: u32 },
    /// Single-precision float.
    Float,
    /// Double-precision float.
    Double,
    /// Boolean.
    Boolean,
    /// Text of any length.
    Text,
    /// UUID.
    Uuid,
    /// Arbitrary-precision number.
    Numeric,
    /// Calendar date.
    Date,
    /// Time of day.
    Time,
    /// Date and time without an offset.
    DateTime,
    /// Date and time with an offset.
    TimestampTz,
    /// JSON document.
    Jsonb,
    /// Byte string.
    Binary,
    /// Array of 32-bit integers.
    IntegerArray,
    /// Array of 64-bit integers.
    BigIntegerArray,
    /// Array of texts.
    TextArray,
    /// Array of booleans.
    BooleanArray,
    /// Array of doubles.
    DoubleArray,
    /// Array of JSON documents.
    JsonArray,
}

/// `pat` occurs somewhere in `s`.
pub open spec fn has_infix(s: Seq<char>, pat: Seq<char>) -> bool {
    exists|i: int| 0 <= i && i + pat.len() <= s.len() && #[trigger] s.subrange(i, i + pat.len()) == pat
}

fn has_infix_chars(s: &Vec<char>, pat: &Vec<char>) -> (b: bool)
    ensures
        b == has_infix(s@, pat@),
{
    if pat.len() > s.len() {
        return false;
    }
    let last = s.len() - pat.len();
    let mut i: usize = 0;
    loop
        invariant
            pat@.len() <= s@.len(),
            last == s@.len() - pat@.len(),
            i <= last,
            forall|j: int| 0 <= j < i ==> #[trigger] s@.subrange(j, j + pat@.len()) != pat@,
        decreases last - i,
    {
        let plen = pat.len();
        assert(plen == pat@.len());
        assert(i + plen <= s.len());
        let end = i + plen;
        let piece = slice_chars(s, i, end);
        if chars_eq(&piece, pat) {
            return true;
        }
        if i == last {
            return false;
        }
        i = i + 1;
    }
}

/// The column type of a lookup key; `None` for a type the mapping does not
/// know. Offset-aware date-times are every other spelling that mentions
/// `DateTime`.
pub open spec fn column_type_for(k: Seq<char>) -> Option<ColumnType> {
    if k == "i8"@ || k == "i16"@ {
        Some(ColumnType::SmallInteger)
    } else if k == "i32"@ {
        Some(ColumnType::Integer)
    } else if k == "i64"@ || k == "isize"@ || k == "usize"@ {
        Some(ColumnType::BigInteger)
    } else if k == "u8"@ {
        Some(ColumnType::TinyUnsigned)
    } else if k == "u16"@ {
        Some(ColumnType::SmallUnsigned)
    } else if k == "u32"@ {
        Some(ColumnType::Unsigned)
    } else if k == "u64"@ {
        Some(ColumnType::BigUnsigned)
    } else if k == "i128"@ || k == "u128"@ {
        Some(ColumnType::Decimal { precision: 39, scale: 0 })
    } else if k == "f32"@ {
        Some(ColumnType::Float)
    } else if k == "f64"@ {
        Some(ColumnType::Double)
    } else if k == "bool"@ {
        Some(ColumnType::Boolean)
    } else if k == "String"@ || k == "str"@ || k == "Text"@ {
        Some(ColumnType::Text)
    } else if k == "Uuid"@ {
        Some(ColumnType::Uuid)
    } else if k == "Decimal"@ || k == "BigDecimal"@ {
        Some(ColumnType::Numeric)
    } else if k == "NaiveDate"@ || k == "Date"@ {
        Some(ColumnType::Date)
    } else if k == "NaiveTime"@ || k == "Time"@ {
        Some(ColumnType::Time)
    } else if k == "NaiveDateTime"@ {
        Some(ColumnType::DateTime)
    } else if k == "Json"@ || k == "JsonValue"@ || k == "Jsonb"@ || k == "Value"@ {
        Some(ColumnType::Jsonb)
    } else if k == "Vec<u8>"@ || k == "Bytes"@ {
        Some(ColumnType::Binary)
    } else if k == "Vec<i32>"@ || k == "IntArray"@ {
        Some(ColumnType::IntegerArray)
    } else if k == "Vec<i64>"@ || k == "BigIntArray"@ {
        Some(ColumnType::BigIntegerArray)
    } else if k == "Vec<String>"@ || k == "Vec<str>"@ || k == "TextArray"@ {
        Some(ColumnType::TextArray)
    } else if k == "Vec<bool>"@ || k == "BoolArray"@ {
        Some(ColumnType::BooleanArray)
    } else if k == "Vec<f64>"@ || k == "FloatArray"@ {
        Some(ColumnType::DoubleArray)
    } else if k == "Vec<Value>"@ || k == "Vec<JsonValue>"@ || k == "JsonArray"@ {
        Some(ColumnType::JsonArray)
    } else if has_infix(k, "DateTime"@) {
        Some(ColumnType::TimestampTz)
    } else {
        None
    }
}

fn is_key(k: &Vec<char>, s: &str) -> (b: bool)
    ensures
        b == (k@ == s@),
{
    let cs = chars_of(s);
    chars_eq(k, &cs)
}

/// The logical column type of a Rust type spelling (see `lookup_key` and
/// `column_type_for`); `None` for a type the mapping does not know.
pub fn rust_type_to_column_type(rust_type: &str) -> (r: Option<ColumnType>)
    ensures
        r == column_type_for(lookup_key(rust_type@)),
{
    let k = lookup_key_chars(rust_type);
    if is_key(&k, "i8") || is_key(&k, "i16") {
        Some(ColumnType::SmallInteger)
    } else if is_key(&k, "i32") {
        Some(ColumnType::Integer)
    } else if is_key(&k, "i64") || is_key(&k, "isize") || is_key(&k, "usize") {
        Some(ColumnType::BigInteger)
    } else if is_key(&k, "u8") {
        Some(ColumnType::TinyUnsigned)
    } else if is_key(&k, "u16") {
        Some(ColumnType::SmallUnsigned)
    } else if is_key(&k, "u32") {
        Some(ColumnType::Unsigned)
    } else if is_key(&k, "u64") {
        Some(ColumnType::BigUnsigned)
    } else if is_key(&k, "i128") || is_key(&k, "u128") {
        Some(ColumnType::Decimal { precision: 39, scale: 0 })
    } else if is_key(&k, "f32") {
        Some(ColumnType::Float)
    } else if is_key(&k, "f64") {
        Some(ColumnType::Double)
    } else if is_key(&k, "bool") {
        Some(ColumnType::Boolean)
    } else if is_key(&k, "String") || is_key(&k, "str") || is_key(&k, "Text") {
        Some(ColumnType::Text)
    } else if is_key(&k, "Uuid") {
        Some(ColumnType::Uuid)
    } else if is_key(&k, "Decimal") || is_key(&k, "BigDecimal") {
        Some(ColumnType::Numeric)
    } else if is_key(&k, "NaiveDate") || is_key(&k, "Date") {
        Some(ColumnType::Date)
    } else if is_key(&k, "NaiveTime") || is_key(&k, "Time") {
        Some(ColumnType::Time)
    } else if is_key(&k, "NaiveDateTime") {
        Some(ColumnType::DateTime)
    } else if is_key(&k, "Json") || is_key(&k, "JsonValue") || is_key(&k, "Jsonb") || is_key(&k, "Value") {
        Some(ColumnType::Jsonb)
    } else if is_key(&k, "Vec<u8>") || is_key(&k, "Bytes") {
        Some(ColumnType::Binary)
    } else if is_key(&k, "Vec<i32>") || is_key(&k, "IntArray") {
        Some(ColumnType::IntegerArray)
    } else if is_key(&k, "Vec<i64>") || is_key(&k, "BigIntArray") {
        Some(ColumnType::BigIntegerArray)
    } else if is_key(&k, "Vec<String>") || is_key(&k, "Vec<str>") || is_key(&k, "TextArray") {
        Some(ColumnType::TextArray)
    } else if is_key(&k, "Vec<bool>") || is_key(&k, "BoolArray") {
        Some(ColumnType::BooleanArray)
    } else if is_key(&k, "Vec<f64>") || is_key(&k, "FloatArray") {
        Some(ColumnType::DoubleArray)
    } else if is_key(&k, "Vec<Value>") || is_key(&k, "Vec<JsonValue>") || is_key(&k, "JsonArray") {
        Some(ColumnType::JsonArray)
    } else if has_infix_chars(&k, &chars_of("DateTime")) {
        Some(ColumnType::TimestampTz)
    } else {
        None
    }
}

proof fn lemma_clean_scan_append(p: Seq<char>, b: Seq<char>)
    requires
        !clean_scan(p).1,
    ensures
        clean_scan(p + b) == (clean_scan(p).0 + clean_scan(b).0, clean_scan(b).1),
    decreases b.len(),
{
    if b.len() == 0 {
        assert(p + b =~= p);
        assert(clean_scan(p).0 + Seq::<char>::empty() =~= clean_scan(p).0);
    } else {
        lemma_clean_scan_append(p, b.drop_last());
        assert((p + b).drop_last() =~= p + b.drop_last());
        assert((p + b).last() == b.last());
        let (o, _) = clean_scan(b.drop_last());
        assert((clean_scan(p).0 + o).push(b.last()) =~= clean_scan(p).0 + o.push(b.last()));
    }
}

proof fn lemma_split_without_comma(s: Seq<char>)
    requires
        split_scan(s).0.len() == 0,
    ensures
        split_scan(s).1 == s,
    decreases s.len(),
{
    if s.len() > 0 {
        let (parts, cur, depth) = split_scan(s.drop_last());
        assert(parts.len() == 0) by {
            if parts.len() > 0 {
                assert(split_scan(s).0.len() >= parts.len());
            }
        }
        lemma_split_without_comma(s.drop_last());
        assert(s.drop_last().push(s.last()) =~= s);
    }
}

proof fn lemma_clean_wrap(t: Seq<char>)
    requires
        !clean_scan(t).1,
    ensures
        clean_spelling("Option<"@ + t + ">"@) == "Option<"@ + clean_spelling(t) + ">"@,
{
    reveal_strlit("Option<");
    reveal_strlit(">");
    let pre: Seq<char> = "Option<"@;
    let gt: Seq<char> = ">"@;
    reveal_with_fuel(clean_scan, 8);
    assert(clean_scan(pre) == (pre, false));
    assert(clean_scan(gt) == (gt, false));
    lemma_clean_scan_append(t, gt);
    lemma_clean_scan_append(pre, t + gt);
    assert(pre + (t + gt) =~= pre + t + gt);
    assert(clean_spelling(pre + t + gt) =~= pre + clean_spelling(t) + gt);
}

proof fn lemma_strip_wrap(c: Seq<char>)
    requires
        split_scan(c).0.len() == 0,
    ensures
        strip_paths("Option<"@ + c + ">"@) == "Option<"@ + strip_paths(c) + ">"@,
{
    reveal_strlit("Option<");
    reveal_strlit(">");
    reveal_strlit("Option");
    let pre: Seq<char> = "Option<"@;
    let gt: Seq<char> = ">"@;
    let w = pre + c + gt;
    assert(first_index(w, '<') == 6) by {
        reveal_with_fuel(first_index, 8);
        assert(w.skip(1).skip(1).skip(1).skip(1).skip(1).skip(1)[0] == '<');
    }
    assert(w.subrange(7, w.len() - 1) =~= c);
    assert(w.take(6) =~= "Option"@);
    assert(last_segment(w.take(6)) == w.take(6)) by {
        reveal_with_fuel(last_segment, 7);
    }
    lemma_split_without_comma(c);
    assert(split_top(c) =~= seq![c]);
    let b = (w.len() - 1) as nat;
    assert(strip_each(seq![c], b) =~= seq![strip_paths(c)]) by {
        assert(c.len() <= b);
        assert(seq![c].drop_last() =~= Seq::<Seq<char>>::empty());
        assert(strip_each(Seq::<Seq<char>>::empty(), b) == Seq::<Seq<char>>::empty());
        assert(seq![c].last() == c);
    }
    assert(seq_join(seq![strip_paths(c)], seq![',']) == strip_paths(c));
    assert(strip_paths(w) =~= pre + strip_paths(c) + gt);
}

proof fn lemma_peel_wrap(x: Seq<char>)
    ensures
        peel_option("Option<"@ + x + ">"@) == peel_option(x),
{
    reveal_strlit("Option<");
    reveal_strlit(">");
    let v = "Option<"@ + x + ">"@;
    assert(v.take(7) =~= "Option<"@);
    assert(v.subrange(7, v.len() - 1) =~= x);
}

/// `Option<..>` around a spelling maps to the same key as the spelling
/// itself, for a spelling without a top-level comma that does not end in a
/// lifetime's name.
pub proof fn lemma_option_is_transparent(t: Seq<char>)
    requires
        split_scan(clean_spelling(t)).0.len() == 0,
        !clean_scan(t).1,
    ensures
        lookup_key("Option<"@ + t + ">"@) == lookup_key(t),
{
    lemma_clean_wrap(t);
    lemma_strip_wrap(clean_spelling(t));
    lemma_peel_wrap(strip_paths(clean_spelling(t)));
}

/// The native integer width an auto-increment column needs.
#[derive(Clone, Copy, PartialEq, Eq, Debug)]
pub enum AutoIncrementWidth {
    /// A small integer.
    Small,
    /// A regular integer.
    Regular,
    /// A big integer.
    Big,
}

/// The auto-increment width of a column type: the width its plain column
/// has, so a key column is never wider than a plain column of the same Rust
/// type; `None` for a type that cannot auto-increment.
pub open spec fn width_of(t: ColumnType) -> Option<AutoIncrementWidth> {
    match t {
        ColumnType::SmallInteger | ColumnType::TinyUnsigned => Some(AutoIncrementWidth::Small),
        ColumnType::Integer | ColumnType::SmallUnsigned | ColumnType::Unsigned => Some(AutoIncrementWidth::Regular),
        ColumnType::BigInteger => Some(AutoIncrementWidth::Big),
        _ => None,
    }
}

/// The auto-increment width of `mapped` (see `width_of`).
pub fn auto_increment_width(mapped: &ColumnType) -> (r: Option<AutoIncrementWidth>)
    ensures
        r == width_of(*mapped),
{
    match mapped {
        ColumnType::SmallInteger | ColumnType::TinyUnsigned => Some(AutoIncrementWidth::Small),
        ColumnType::Integer | ColumnType::SmallUnsigned | ColumnType::Unsigned => Some(AutoIncrementWidth::Regular),
        ColumnType::BigInteger => Some(AutoIncrementWidth::Big),
        _ => None,
    }
}

/// The least and greatest value of a fixed-width Rust integer type, by its
/// spelling; `None` for any other spelling.
pub open spec fn rust_int_range(key: Seq<char>) -> Option<(int, int)> {
    if key == "i8"@ {
        Some((i8::MIN as int, i8::MAX as int))
    } else if key == "i16"@ {
        Some((i16::MIN as int, i16::MAX as int))
    } else if key == "i32"@ {
        Some((i32::MIN as int, i32::MAX as int))
    } else if key == "i64"@ {
        Some((i64::MIN as int, i64::MAX as int))
    } else if key == "u8"@ {
        Some((0, u8::MAX as int))
    } else if key == "u16"@ {
        Some((0, u16::MAX as int))
    } else if key == "u32"@ {
        Some((0, u32::MAX as int))
    } else if key == "u64"@ {
        Some((0, u64::MAX as int))
    } else {
        None
    }
}

/// Every value of `inner` lies in `outer`.
pub open spec fn range_within(inner: (int, int), outer: (int, int)) -> bool {
    outer.0 <= inner.0 && inner.1 <= outer.1
}

/// The number of values of a range.
pub open spec fn range_size(r: (int, int)) -> int {
    r.1 - r.0 + 1
}

/// The least and greatest value an integer column type holds: 16, 32 and 64
/// bits signed, and 8, 16, 32 and 64 bits unsigned; `None` for a type that is
/// not an integer type.
pub open spec fn column_int_range(c: ColumnType) -> Option<(int, int)> {
    match c {
        ColumnType::SmallInteger => Some((i16::MIN as int, i16::MAX as int)),
        ColumnType::Integer => Some((i32::MIN as int, i32::MAX as int)),
        ColumnType::BigInteger => Some((i64::MIN as int, i64::MAX as int)),
        ColumnType::TinyUnsigned => Some((0, u8::MAX as int)),
        ColumnType::SmallUnsigned => Some((0, u16::MAX as int)),
        ColumnType::Unsigned => Some((0, u32::MAX as int)),
        ColumnType::BigUnsigned => Some((0, u64::MAX as int)),
        _ => None,
    }
}

/// The integer spellings are told apart by their characters.
pub(crate) proof fn lemma_integer_spellings_differ()
    ensures
        "i8"@ != "i16"@, "i8"@ != "i32"@, "i8"@ != "i64"@, "i8"@ != "u8"@, "i8"@ != "u16"@,
        "i8"@ != "u32"@, "i8"@ != "u64"@, "i16"@ != "i32"@, "i16"@ != "i64"@, "i16"@ != "u8"@,
        "i16"@ != "u16"@, "i16"@ != "u32"@, "i16"@ != "u64"@, "i32"@ != "i64"@, "i32"@ != "u8"@,
        "i32"@ != "u16"@, "i32"@ != "u32"@, "i32"@ != "u64"@, "i64"@ != "u8"@, "i64"@ != "u16"@,
        "i64"@ != "u32"@, "i64"@ != "u64"@, "u8"@ != "u16"@, "u8"@ != "u32"@, "u8"@ != "u64"@,
        "u16"@ != "u32"@, "u16"@ != "u64"@, "u32"@ != "u64"@, "i8"@ != "isize"@, "i16"@ != "isize"@,
        "i32"@ != "isize"@, "i64"@ != "isize"@, "i8"@ != "usize"@, "i16"@ != "usize"@,
        "i32"@ != "usize"@, "i64"@ != "usize"@, "u8"@ != "isize"@, "u16"@ != "isize"@,
        "u32"@ != "isize"@, "u64"@ != "isize"@, "u8"@ != "usize"@, "u16"@ != "usize"@,
        "u32"@ != "usize"@, "u64"@ != "usize"@,
{
    reveal_strlit("i8");
    reveal_strlit("i16");
    reveal_strlit("i32");
    reveal_strlit("i64");
    reveal_strlit("u8");
    reveal_strlit("u16");
    reveal_strlit("u32");
    reveal_strlit("u64");
    reveal_strlit("isize");
    reveal_strlit("usize");
    assert("i8"@[1] != "i16"@[1] || "i8"@.len() != "i16"@.len());
    assert("i16"@[1] != "i32"@[1]);
    assert("i16"@[1] != "i64"@[1]);
    assert("i32"@[1] != "i64"@[1]);
    assert("u16"@[1] != "u32"@[1]);
    assert("u16"@[1] != "u64"@[1]);
    assert("u32"@[1] != "u64"@[1]);
    assert("i8"@[0] != "u8"@[0]);
    assert("i16"@[0] != "u16"@[0]);
    assert("i32"@[0] != "u32"@[0]);
    assert("i64"@[0] != "u64"@[0]);
    assert("i16"@[0] != "u32"@[0]);
    assert("i16"@[0] != "u64"@[0]);
    assert("i32"@[0] != "u16"@[0]);
    assert("i32"@[0] != "u64"@[0]);
    assert("i64"@[0] != "u16"@[0]);
    assert("i64"@[0] != "u32"@[0]);
    assert("i8"@[0] != "u16"@[0]);
    assert("i8"@[0] != "u32"@[0]);
    assert("i8"@[0] != "u64"@[0]);
    assert("u8"@[0] != "i16"@[0]);
    assert("u8"@[0] != "i32"@[0]);
    assert("u8"@[0] != "i64"@[0]);
    assert("u8"@.len() != "usize"@.len() && "u8"@.len() != "isize"@.len());
    assert("i8"@.len() != "usize"@.len() && "i8"@.len() != "isize"@.len());
}

/// A fixed-width Rust integer type maps to an integer column type that holds
/// every one of its values, and to the narrowest such type: no integer
/// column type that also holds them all has fewer values.
pub proof fn lemma_integer_column_holds_the_rust_range(rust_type: Seq<char>)
    ensures
        rust_int_range(lookup_key(rust_type)) matches Some(r) ==> {
            &&& column_type_for(lookup_key(rust_type)) matches Some(c)
            &&& column_int_range(c) matches Some(cr)
            &&& range_within(r, cr)
            &&& forall|other: ColumnType| #[trigger] column_int_range(other) is Some && range_within(
                r,
                column_int_range(other)->0,
            ) ==> range_size(cr) <= range_size(column_int_range(other)->0)
        },
{
    lemma_integer_spellings_differ();
}

} // verus!
