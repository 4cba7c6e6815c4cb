//! Identifier synthesis (a path of segments is joined with `_` and cased),
//! and the quoting of string literals.

use vstd::prelude::*;

verus! {

/// What `to_pascal_case` of the Inflector crate makes of a string.
pub uninterp spec fn pascal_of(s: Seq<char>) -> Seq<char>;

/// What `to_snake_case` of the Inflector crate makes of a string.
pub uninterp spec fn snake_of(s: Seq<char>) -> Seq<char>;

/// Relies on inflector's `to_pascal_case`: the result depends on the text alone.
#[verifier::external_body]
pub(crate) fn to_pascal(s: &str) -> (r: String)
    ensures
        r@ == pascal_of(s@),
{
    inflector::cases::pascalcase::to_pascal_case(s)
}

/// Relies on inflector's `to_snake_case`: the result depends on the text alone.
#[verifier::external_body]
pub(crate) fn to_snake(s: &str) -> (r: String)
    ensures
        r@ == snake_of(s@),
{
    inflector::cases::snakecase::to_snake_case(s)
}

/// The segments of a path joined with `_` between each two.
pub open spec fn joined(path: Seq<String>) -> Seq<char>
    decreases path.len(),
{
    if path.len() == 0 {
        Seq::empty()
    } else if path.len() == 1 {
        path[0]@
    } else {
        joined(path.drop_last()) + "_"@ + path.last()@
    }
}

/// The identifier that a path names.
pub open spec fn name_of(path: Seq<String>) -> Seq<char> {
    pascal_of(joined(path))
}

/// The text of `s` before its first `.`, or all of it when it has none.
pub open spec fn stem(s: Seq<char>) -> Seq<char>
    decreases s.len(),
{
    if s.len() == 0 {
        s
    } else if s[0] == '.' {
        Seq::empty()
    } else {
        seq![s[0]] + stem(s.drop_first())
    }
}

/// Joins the segments of a path with `_`.
pub fn join_path(path: &Vec<String>) -> (r: String)
    ensures
        r@ == joined(path@),
{
    let mut out = String::new();
    let mut i: usize = 0;
    while i < path.len()
        invariant
            i <= path@.len(),
            out@ == joined(path@.take(i as int)),
        decreases path@.len() - i,
    {
        assert(path@.take(i as int + 1).drop_last() =~= path@.take(i as int));
        if i > 0 {
            out.append("_");
        }
        out.append(path[i].as_str());
        i = i + 1;
    }
    assert(path@.take(i as int) =~= path@);
    out
}

/// The identifier for a path: its segments joined with `_`, then pascal-cased.
pub fn name(path: &Vec<String>) -> (r: String)
    ensures
        r@ == name_of(path@),
{
    let joined = join_path(path);
    to_pascal(joined.as_str())
}

/// The path that extends `path` by one segment.
pub fn extend(path: &Vec<String>, seg: &String) -> (r: Vec<String>)
    ensures
        r@ == path@.push(*seg),
{
    let mut r: Vec<String> = Vec::new();
    let mut i: usize = 0;
    while i < path.len()
        invariant
            i <= path@.len(),
            r@ == path@.take(i as int),
        decreases path@.len() - i,
    {
        r.push(path[i].clone());
        assert(r@ =~= path@.take(i as int + 1));
        i = i + 1;
    }
    assert(path@.take(i as int) =~= path@);
    r.push(seg.clone());
    r
}

/// The path of one segment.
pub fn single(seg: &String) -> (r: Vec<String>)
    ensures
        r@ == seq![*seg],
{
    let mut r: Vec<String> = Vec::new();
    r.push(seg.clone());
    assert(r@ =~= seq![*seg]);
    r
}

/// The part of a file name before its first `.`.
pub fn file_stem(s: &str) -> (r: &str)
    ensures
        r@ == stem(s@),
{
    let n = s.unicode_len();
    let mut i: usize = 0;
    while i < n && s.get_char(i) != '.'
        invariant
            n == s@.len(),
            i <= n,
            forall|j: int| 0 <= j < i ==> s@[j] != '.',
        decreases n - i,
    {
        i = i + 1;
    }
    proof {
        lemma_stem_at(s@, i as int);
    }
    s.substring_char(0, i)
}

/// `stem` stops at the first `.`.
proof fn lemma_stem_at(s: Seq<char>, i: int)
    requires
        0 <= i <= s.len(),
        forall|j: int| 0 <= j < i ==> s[j] != '.',
        i == s.len() || s[i] == '.',
    ensures
        stem(s) == s.subrange(0, i),
    decreases i,
{
    if i == 0 {
        if s.len() > 0 {
            assert(s[0] == '.');
        }
        assert(s.subrange(0, 0) =~= Seq::<char>::empty());
    } else {
        let t = s.drop_first();
        assert forall|j: int| 0 <= j < i - 1 implies t[j] != '.' by {
            assert(t[j] == s[j + 1]);
        }
        lemma_stem_at(t, i - 1);
        assert(s.subrange(0, i) =~= seq![s[0]] + t.subrange(0, i - 1));
    }
}

/// What `format!("{:?}", s)` writes for a string: std's debug form, quoted and escaped.
pub uninterp spec fn debug_quoted(s: Seq<char>) -> Seq<char>;

/// Relies on std's `Debug` for `str`: the text depends on the string alone.
#[verifier::external_body]
pub(crate) fn quoted(s: &str) -> (r: String)
    ensures
        r@ == debug_quoted(s@),
{
    format!("{:?}", s)
}

} // verus!
