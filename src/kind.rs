use vstd::prelude::*;
use crate::common::{
    close_at, commas, open_at, spec_close, spec_open, spec_punct, verbar,
};
use crate::table::{spec_tables, tables_at, Table};
use crate::text::{
    has_at_ci, is_digit, lemma_run_end, run_end, string_of, tag_no_case, take_run, to_chars,
    CharClass, ParseError,
};

verus! {

broadcast use vstd::std_specs::vec::group_vec_axioms;

/// The type of a parameter or value.
#[derive(Debug, PartialEq, Eq)]
pub enum Kind {
    Any,
    Bool,
    Bytes,
    Datetime,
    Decimal,
    Duration,
    Float,
    Int,
    Number,
    Object,
    Point,
    String,
    Uuid,
    /// A geometry of one of the given sub-types, by their lower-case names.
    Geometry(Vec<String>),
    /// A reference to a record of one of the given tables.
    Record(Vec<Table>),
    /// A value that may be absent.
    Option(Box<Kind>),
    /// A value of one of the given kinds.
    Either(Vec<Kind>),
    /// A collection of distinct values, with an optional bound on its length.
    SetOf(Box<Kind>, Option<u64>),
    /// A list of values, with an optional bound on its length.
    Array(Box<Kind>, Option<u64>),
}

/// What a `Kind` denotes, with names as character sequences.
pub enum KindView {
    Any,
    Bool,
    Bytes,
    Datetime,
    Decimal,
    Duration,
    Float,
    Int,
    Number,
    Object,
    Point,
    String,
    Uuid,
    Geometry(Seq<Seq<char>>),
    Record(Seq<Seq<char>>),
    Option(Box<KindView>),
    Either(Seq<KindView>),
    SetOf(Box<KindView>, Option<u64>),
    Array(Box<KindView>, Option<u64>),
}

/// What the kind `k` denotes.
pub open spec fn kind_view(k: Kind) -> KindView
    decreases k,
{
    match k {
        Kind::Any => KindView::Any,
        Kind::Bool => KindView::Bool,
        Kind::Bytes => KindView::Bytes,
        Kind::Datetime => KindView::Datetime,
        Kind::Decimal => KindView::Decimal,
        Kind::Duration => KindView::Duration,
        Kind::Float => KindView::Float,
        Kind::Int => KindView::Int,
        Kind::Number => KindView::Number,
        Kind::Object => KindView::Object,
        Kind::Point => KindView::Point,
        Kind::String => KindView::String,
        Kind::Uuid => KindView::Uuid,
        Kind::Geometry(v) => KindView::Geometry(v@.map_values(|g: String| g@)),
        Kind::Record(v) => KindView::Record(v@.map_values(|t: Table| t@)),
        Kind::Option(b) => KindView::Option(Box::new(kind_view(*b))),
        Kind::Either(v) => KindView::Either(
            Seq::new(
                v.len() as nat,
                |i: int|
                    if 0 <= i < v.len() {
                        kind_view(v[i])
                    } else {
                        KindView::Any
                    },
            ),
        ),
        Kind::SetOf(b, n) => KindView::SetOf(Box::new(kind_view(*b)), n),
        Kind::Array(b, n) => KindView::Array(Box::new(kind_view(*b)), n),
    }
}

impl View for Kind {
    type V = KindView;

    open spec fn view(&self) -> KindView {
        kind_view(*self)
    }
}

/// The views of the kinds in `v`.
pub open spec fn kinds_view(v: Seq<Kind>) -> Seq<KindView> {
    v.map_values(|k: Kind| k@)
}

pub proof fn lemma_either_view(v: Vec<Kind>)
    ensures
        Kind::Either(v)@ == KindView::Either(kinds_view(v@)),
{
    let w = kind_view(Kind::Either(v))->Either_0;
    assert(w.len() == v@.len());
    assert forall|i: int| 0 <= i < v@.len() implies kinds_view(v@)[i] == w[i] by {
        assert(v[i] == v@[i]);
    }
    assert(kinds_view(v@) =~= w);
}

/// A kind named by a keyword alone, matched in any case.
#[verifier::opaque]
pub open spec fn spec_prim(s: Seq<char>, i: int) -> Option<(KindView, int)> {
    if has_at_ci(s, i, seq!['a', 'n', 'y']) {
        Some((KindView::Any, i + 3))
    } else if has_at_ci(s, i, seq!['b', 'o', 'o', 'l']) {
        Some((KindView::Bool, i + 4))
    } else if has_at_ci(s, i, seq!['b', 'y', 't', 'e', 's']) {
        Some((KindView::Bytes, i + 5))
    } else if has_at_ci(s, i, seq!['d', 'a', 't', 'e', 't', 'i', 'm', 'e']) {
        Some((KindView::Datetime, i + 8))
    } else if has_at_ci(s, i, seq!['d', 'e', 'c', 'i', 'm', 'a', 'l']) {
        Some((KindView::Decimal, i + 7))
    } else if has_at_ci(s, i, seq!['d', 'u', 'r', 'a', 't', 'i', 'o', 'n']) {
        Some((KindView::Duration, i + 8))
    } else if has_at_ci(s, i, seq!['f', 'l', 'o', 'a', 't']) {
        Some((KindView::Float, i + 5))
    } else if has_at_ci(s, i, seq!['i', 'n', 't']) {
        Some((KindView::Int, i + 3))
    } else if has_at_ci(s, i, seq!['n', 'u', 'm', 'b', 'e', 'r']) {
        Some((KindView::Number, i + 6))
    } else if has_at_ci(s, i, seq!['o', 'b', 'j', 'e', 'c', 't']) {
        Some((KindView::Object, i + 6))
    } else if has_at_ci(s, i, seq!['p', 'o', 'i', 'n', 't']) {
        Some((KindView::Point, i + 5))
    } else if has_at_ci(s, i, seq!['s', 't', 'r', 'i', 'n', 'g']) {
        Some((KindView::String, i + 6))
    } else if has_at_ci(s, i, seq!['u', 'u', 'i', 'd']) {
        Some((KindView::Uuid, i + 4))
    } else {
        None
    }
}

/// A geometry sub-type name, matched in any case; its lower-case name.
#[verifier::opaque]
pub open spec fn spec_geo(s: Seq<char>, i: int) -> Option<(Seq<char>, int)> {
    if has_at_ci(s, i, seq!['f', 'e', 'a', 't', 'u', 'r', 'e']) {
        Some((seq!['f', 'e', 'a', 't', 'u', 'r', 'e'], i + 7))
    } else if has_at_ci(s, i, seq!['p', 'o', 'i', 'n', 't']) {
        Some((seq!['p', 'o', 'i', 'n', 't'], i + 5))
    } else if has_at_ci(s, i, seq!['l', 'i', 'n', 'e']) {
        Some((seq!['l', 'i', 'n', 'e'], i + 4))
    } else if has_at_ci(s, i, seq!['p', 'o', 'l', 'y', 'g', 'o', 'n']) {
        Some((seq!['p', 'o', 'l', 'y', 'g', 'o', 'n'], i + 7))
    } else if has_at_ci(s, i, seq!['m', 'u', 'l', 't', 'i', 'p', 'o', 'i', 'n', 't']) {
        Some((seq!['m', 'u', 'l', 't', 'i', 'p', 'o', 'i', 'n', 't'], i + 10))
    } else if has_at_ci(s, i, seq!['m', 'u', 'l', 't', 'i', 'l', 'i', 'n', 'e']) {
        Some((seq!['m', 'u', 'l', 't', 'i', 'l', 'i', 'n', 'e'], i + 9))
    } else if has_at_ci(s, i, seq!['m', 'u', 'l', 't', 'i', 'p', 'o', 'l', 'y', 'g', 'o', 'n']) {
        Some((seq!['m', 'u', 'l', 't', 'i', 'p', 'o', 'l', 'y', 'g', 'o', 'n'], i + 12))
    } else if has_at_ci(s, i, seq!['c', 'o', 'l', 'l', 'e', 'c', 't', 'i', 'o', 'n']) {
        Some((seq!['c', 'o', 'l', 'l', 'e', 'c', 't', 'i', 'o', 'n'], i + 10))
    } else {
        None
    }
}

/// The sub-type names after the first, each preceded by `|`, from `e`.
pub open spec fn geos_rest(s: Seq<char>, e: int) -> (Seq<Seq<char>>, int)
    decreases s.len() - e,
{
    match spec_punct(s, e, '|') {
        Some(j) => match spec_geo(s, j) {
            Some((g, f)) => if e < f <= s.len() {
                let (r, h) = geos_rest(s, f);
                (seq![g] + r, h)
            } else {
                (seq![], e)
            },
            None => (seq![], e),
        },
        None => (seq![], e),
    }
}

/// The value of a sequence of decimal digits.
pub open spec fn digits_value(x: Seq<char>) -> int
    decreases x.len(),
{
    if x.len() == 0 {
        0
    } else {
        digits_value(x.drop_last()) * 10 + ((x.last() as u32) - 48)
    }
}

/// One or more decimal digits whose value fits in a `u64`.
pub open spec fn spec_u64(s: Seq<char>, i: int) -> Option<(u64, int)> {
    let q = run_end(s, i, CharClass::Digit);
    if 0 <= i < q && digits_value(s.subrange(i, q)) <= u64::MAX {
        Some((digits_value(s.subrange(i, q)) as u64, q))
    } else {
        None
    }
}

/// A kind at `i`, the first alternative that matches: a keyword alone, or one of
/// `option<K>`, `array<K>`, `array<K, N>`, `set<K>`, `set<K, N>`, `record<T | ..>`,
/// `either<K | K | ..>` and `geometry<G | ..>`, keywords in any case.
pub open spec fn spec_kind(s: Seq<char>, i: int) -> Option<(KindView, int)>
    decreases s.len() - i, 1int,
{
    if !(0 <= i <= s.len()) {
        None
    } else {
        match spec_prim(s, i) {
            Some(r) => Some(r),
            None => spec_composite(s, i),
        }
    }
}

/// A kind with parameters at `i`.
pub open spec fn spec_composite(s: Seq<char>, i: int) -> Option<(KindView, int)>
    decreases s.len() - i, 0int,
{
    if !(0 <= i <= s.len()) {
        None
    } else if has_at_ci(s, i, seq!['o', 'p', 't', 'i', 'o', 'n']) {
        spec_option_kind(s, i + 6)
    } else if has_at_ci(s, i, seq!['a', 'r', 'r', 'a', 'y']) {
        spec_array_kind(s, i + 5)
    } else if has_at_ci(s, i, seq!['s', 'e', 't']) {
        spec_set_kind(s, i + 3)
    } else if has_at_ci(s, i, seq!['r', 'e', 'c', 'o', 'r', 'd']) {
        spec_record_kind(s, i + 6)
    } else if has_at_ci(s, i, seq!['e', 'i', 't', 'h', 'e', 'r']) {
        spec_either_kind(s, i + 6)
    } else if has_at_ci(s, i, seq!['g', 'e', 'o', 'm', 'e', 't', 'r', 'y']) {
        spec_geometry_kind(s, i + 8)
    } else {
        None
    }
}

/// `option<K>` after its keyword.
pub open spec fn spec_option_kind(s: Seq<char>, p: int) -> Option<(KindView, int)>
    decreases s.len() - p, 3int,
{
    match spec_option_body(s, p) {
        Some((k, e)) => Some((KindView::Option(Box::new(k)), e)),
        None => None,
    }
}

/// `array<K>` or `array<K, N>` after its keyword.
pub open spec fn spec_array_kind(s: Seq<char>, p: int) -> Option<(KindView, int)>
    decreases s.len() - p, 3int,
{
    match spec_sized_body(s, p) {
        Some((k, n, e)) => Some((KindView::Array(Box::new(k), n), e)),
        None => None,
    }
}

/// `set<K>` or `set<K, N>` after its keyword.
pub open spec fn spec_set_kind(s: Seq<char>, p: int) -> Option<(KindView, int)>
    decreases s.len() - p, 3int,
{
    match spec_sized_body(s, p) {
        Some((k, n, e)) => Some((KindView::SetOf(Box::new(k), n), e)),
        None => None,
    }
}

/// `record<T | ..>` after its keyword.
pub open spec fn spec_record_kind(s: Seq<char>, p: int) -> Option<(KindView, int)> {
    match spec_record_body(s, p) {
        Some((ts, e)) => Some((KindView::Record(ts), e)),
        None => None,
    }
}

/// `either<K | K | ..>` after its keyword.
pub open spec fn spec_either_kind(s: Seq<char>, p: int) -> Option<(KindView, int)>
    decreases s.len() - p, 3int,
{
    match spec_either_body(s, p) {
        Some((ks, e)) => Some((KindView::Either(ks), e)),
        None => None,
    }
}

/// `geometry<G | ..>` after its keyword.
pub open spec fn spec_geometry_kind(s: Seq<char>, p: int) -> Option<(KindView, int)> {
    match spec_geometry_body(s, p) {
        Some((gs, e)) => Some((KindView::Geometry(gs), e)),
        None => None,
    }
}

/// `<T | T | ..>` at `p`: one or more tables.
#[verifier::opaque]
pub open spec fn spec_record_body(s: Seq<char>, p: int) -> Option<(Seq<Seq<char>>, int)> {
    match spec_open(s, p, '<') {
        Some(j) => match spec_tables(s, j, '|') {
            Some((ts, f)) => match spec_close(s, f, '>') {
                Some(g) => Some((ts, g)),
                None => None,
            },
            None => None,
        },
        None => None,
    }
}

/// `<G | G | ..>` at `p`: one or more geometry sub-types.
#[verifier::opaque]
pub open spec fn spec_geometry_body(s: Seq<char>, p: int) -> Option<(Seq<Seq<char>>, int)> {
    match spec_open(s, p, '<') {
        Some(j) => match spec_geo(s, j) {
            Some((g, f)) => {
                let (r, h) = geos_rest(s, f);
                match spec_close(s, h, '>') {
                    Some(e) => Some((seq![g] + r, e)),
                    None => None,
                }
            },
            None => None,
        },
        None => None,
    }
}

/// `<K>` at `p`.
pub open spec fn spec_option_body(s: Seq<char>, p: int) -> Option<(KindView, int)>
    decreases s.len() - p, 2int,
{
    match spec_open(s, p, '<') {
        Some(j) => if p < j <= s.len() {
            match spec_kind(s, j) {
                Some((k, f)) => match spec_close(s, f, '>') {
                    Some(e) => Some((k, e)),
                    None => None,
                },
                None => None,
            }
        } else {
            None
        },
        None => None,
    }
}

/// An optional `, N` at `f`: the bound, if there is one, and the position after it.
pub open spec fn spec_bound(s: Seq<char>, f: int) -> (Option<u64>, int) {
    match spec_punct(s, f, ',') {
        Some(a) => match spec_u64(s, a) {
            Some((n, b)) => (Some(n), b),
            None => (None, f),
        },
        None => (None, f),
    }
}

/// `<K>` or `<K, N>` at `p`.
pub open spec fn spec_sized_body(s: Seq<char>, p: int) -> Option<(KindView, Option<u64>, int)>
    decreases s.len() - p, 2int,
{
    match spec_open(s, p, '<') {
        Some(j) => if p < j <= s.len() {
            match spec_kind(s, j) {
                Some((k, f)) => match spec_close(s, spec_bound(s, f).1, '>') {
                    Some(e) => Some((k, spec_bound(s, f).0, e)),
                    None => None,
                },
                None => None,
            }
        } else {
            None
        },
        None => None,
    }
}

/// The kinds after the first, each preceded by `|`, from `e`.
pub open spec fn kinds_rest(s: Seq<char>, e: int) -> (Seq<KindView>, int)
    decreases s.len() - e, 2int,
{
    match spec_punct(s, e, '|') {
        Some(j) => if e < j <= s.len() {
            match spec_kind(s, j) {
                Some((k, f)) => if j < f <= s.len() {
                    (seq![k] + kinds_rest(s, f).0, kinds_rest(s, f).1)
                } else {
                    (seq![], e)
                },
                None => (seq![], e),
            }
        } else {
            (seq![], e)
        },
        None => (seq![], e),
    }
}

/// `<K | K | ..>` with two kinds or more, at `p`.
pub open spec fn spec_either_body(s: Seq<char>, p: int) -> Option<(Seq<KindView>, int)>
    decreases s.len() - p, 2int,
{
    match spec_open(s, p, '<') {
        Some(j) => if p < j <= s.len() {
            match spec_kind(s, j) {
                Some((k, f)) => if j < f <= s.len() {
                    match spec_close(s, kinds_rest(s, f).1, '>') {
                        Some(e) => if kinds_rest(s, f).0.len() >= 1 {
                            Some((seq![k] + kinds_rest(s, f).0, e))
                        } else {
                            None
                        },
                        None => None,
                    }
                } else {
                    None
                },
                None => None,
            }
        } else {
            None
        },
        None => None,
    }
}

/// A kind named by a keyword alone.
fn prim_at(s: &Vec<char>, i: usize) -> (r: Option<(Kind, usize)>)
    requires
        i <= s@.len(),
    ensures
        match r {
            Some((k, e)) => spec_prim(s@, i as int) == Some((k@, e as int)) && i < e <= s@.len(),
            None => spec_prim(s@, i as int) is None,
        },
{
    reveal(spec_prim);
    proof {
        assert(s@.len() == s.len());
    }
    let w: &[char] = &['a', 'n', 'y'];
    assert(w@ =~= seq!['a', 'n', 'y']);
    if tag_no_case(s, i, w) {
        return Some((Kind::Any, i + 3));
    }
    let w: &[char] = &['b', 'o', 'o', 'l'];
    assert(w@ =~= seq!['b', 'o', 'o', 'l']);
    if tag_no_case(s, i, w) {
        return Some((Kind::Bool, i + 4));
    }
    let w: &[char] = &['b', 'y', 't', 'e', 's'];
    assert(w@ =~= seq!['b', 'y', 't', 'e', 's']);
    if tag_no_case(s, i, w) {
        return Some((Kind::Bytes, i + 5));
    }
    let w: &[char] = &['d', 'a', 't', 'e', 't', 'i', 'm', 'e'];
    assert(w@ =~= seq!['d', 'a', 't', 'e', 't', 'i', 'm', 'e']);
    if tag_no_case(s, i, w) {
        return Some((Kind::Datetime, i + 8));
    }
    let w: &[char] = &['d', 'e', 'c', 'i', 'm', 'a', 'l'];
    assert(w@ =~= seq!['d', 'e', 'c', 'i', 'm', 'a', 'l']);
    if tag_no_case(s, i, w) {
        return Some((Kind::Decimal, i + 7));
    }
    let w: &[char] = &['d', 'u', 'r', 'a', 't', 'i', 'o', 'n'];
    assert(w@ =~= seq!['d', 'u', 'r', 'a', 't', 'i', 'o', 'n']);
    if tag_no_case(s, i, w) {
        return Some((Kind::Duration, i + 8));
    }
    let w: &[char] = &['f', 'l', 'o', 'a', 't'];
    assert(w@ =~= seq!['f', 'l', 'o', 'a', 't']);
    if tag_no_case(s, i, w) {
        return Some((Kind::Float, i + 5));
    }
    let w: &[char] = &['i', 'n', 't'];
    assert(w@ =~= seq!['i', 'n', 't']);
    if tag_no_case(s, i, w) {
        return Some((Kind::Int, i + 3));
    }
    let w: &[char] = &['n', 'u', 'm', 'b', 'e', 'r'];
    assert(w@ =~= seq!['n', 'u', 'm', 'b', 'e', 'r']);
    if tag_no_case(s, i, w) {
        return Some((Kind::Number, i + 6));
    }
    let w: &[char] = &['o', 'b', 'j', 'e', 'c', 't'];
    assert(w@ =~= seq!['o', 'b', 'j', 'e', 'c', 't']);
    if tag_no_case(s, i, w) {
        return Some((Kind::Object, i + 6));
    }
    let w: &[char] = &['p', 'o', 'i', 'n', 't'];
    assert(w@ =~= seq!['p', 'o', 'i', 'n', 't']);
    if tag_no_case(s, i, w) {
        return Some((Kind::Point, i + 5));
    }
    let w: &[char] = &['s', 't', 'r', 'i', 'n', 'g'];
    assert(w@ =~= seq!['s', 't', 'r', 'i', 'n', 'g']);
    if tag_no_case(s, i, w) {
        return Some((Kind::String, i + 6));
    }
    let w: &[char] = &['u', 'u', 'i', 'd'];
    assert(w@ =~= seq!['u', 'u', 'i', 'd']);
    if tag_no_case(s, i, w) {
        return Some((Kind::Uuid, i + 4));
    }
    None
}

/// A geometry sub-type name, as its lower-case name.
fn geo_at(s: &Vec<char>, i: usize) -> (r: Option<(String, usize)>)
    requires
        i <= s@.len(),
    ensures
        match r {
            Some((g, e)) => spec_geo(s@, i as int) == Some((g@, e as int)) && i < e <= s@.len(),
            None => spec_geo(s@, i as int) is None,
        },
{
    reveal(spec_geo);
    proof {
        assert(s@.len() == s.len());
    }
    let w: &[char] = &['f', 'e', 'a', 't', 'u', 'r', 'e'];
    assert(w@ =~= seq!['f', 'e', 'a', 't', 'u', 'r', 'e']);
    if tag_no_case(s, i, w) {
        return Some((string_of(w), i + 7));
    }
    let w: &[char] = &['p', 'o', 'i', 'n', 't'];
    assert(w@ =~= seq!['p', 'o', 'i', 'n', 't']);
    if tag_no_case(s, i, w) {
        return Some((string_of(w), i + 5));
    }
    let w: &[char] = &['l', 'i', 'n', 'e'];
    assert(w@ =~= seq!['l', 'i', 'n', 'e']);
    if tag_no_case(s, i, w) {
        return Some((string_of(w), i + 4));
    }
    let w: &[char] = &['p', 'o', 'l', 'y', 'g', 'o', 'n'];
    assert(w@ =~= seq!['p', 'o', 'l', 'y', 'g', 'o', 'n']);
    if tag_no_case(s, i, w) {
        return Some((string_of(w), i + 7));
    }
    let w: &[char] = &['m', 'u', 'l', 't', 'i', 'p', 'o', 'i', 'n', 't'];
    assert(w@ =~= seq!['m', 'u', 'l', 't', 'i', 'p', 'o', 'i', 'n', 't']);
    if tag_no_case(s, i, w) {
        return Some((string_of(w), i + 10));
    }
    let w: &[char] = &['m', 'u', 'l', 't', 'i', 'l', 'i', 'n', 'e'];
    assert(w@ =~= seq!['m', 'u', 'l', 't', 'i', 'l', 'i', 'n', 'e']);
    if tag_no_case(s, i, w) {
        return Some((string_of(w), i + 9));
    }
    let w: &[char] = &['m', 'u', 'l', 't', 'i', 'p', 'o', 'l', 'y', 'g', 'o', 'n'];
    assert(w@ =~= seq!['m', 'u', 'l', 't', 'i', 'p', 'o', 'l', 'y', 'g', 'o', 'n']);
    if tag_no_case(s, i, w) {
        return Some((string_of(w), i + 12));
    }
    let w: &[char] = &['c', 'o', 'l', 'l', 'e', 'c', 't', 'i', 'o', 'n'];
    assert(w@ =~= seq!['c', 'o', 'l', 'l', 'e', 'c', 't', 'i', 'o', 'n']);
    if tag_no_case(s, i, w) {
        return Some((string_of(w), i + 10));
    }
    None
}

pub proof fn lemma_digits_grow(x: Seq<char>, k: int, m: int)
    requires
        0 <= k <= m <= x.len(),
        forall|j: int| 0 <= j < x.len() ==> is_digit(#[trigger] x[j]),
    ensures
        0 <= digits_value(x.subrange(0, k)) <= digits_value(x.subrange(0, m)),
    decreases m,
{
    if m > k {
        lemma_digits_grow(x, k, m - 1);
        assert(x.subrange(0, m).drop_last() =~= x.subrange(0, m - 1));
        let v = digits_value(x.subrange(0, m - 1));
        let d = (x[m - 1] as u32) - 48;
        assert(0 <= d);
        assert(v <= v * 10 + d) by (nonlinear_arith)
            requires
                v >= 0,
                d >= 0,
        ;
    } else if k > 0 {
        lemma_digits_grow(x, k - 1, k - 1);
        assert(x.subrange(0, k).drop_last() =~= x.subrange(0, k - 1));
        let v = digits_value(x.subrange(0, k - 1));
        assert(0 <= v * 10) by (nonlinear_arith)
            requires
                v >= 0,
        ;
    } else {
        assert(x.subrange(0, k).len() == 0);
    }
}

/// One or more decimal digits at `i` whose value fits in a `u64`.
pub fn take_u64(s: &Vec<char>, i: usize) -> (r: Option<(u64, usize)>)
    requires
        i <= s@.len(),
    ensures
        match r {
            Some((n, e)) => spec_u64(s@, i as int) == Some((n, e as int)) && i < e <= s@.len(),
            None => spec_u64(s@, i as int) is None,
        },
{
    let q = take_run(s, i, CharClass::Digit);
    if q == i {
        return None;
    }
    proof {
        lemma_run_end(s@, i as int, CharClass::Digit);
    }
    let ghost x = s@.subrange(i as int, q as int);
    assert(forall|j: int| 0 <= j < x.len() ==> is_digit(#[trigger] x[j]));
    let mut v: u64 = 0;
    let mut k = i;
    while k < q
        invariant
            i <= k <= q <= s@.len(),
            q == run_end(s@, i as int, CharClass::Digit),
            x == s@.subrange(i as int, q as int),
            forall|j: int| 0 <= j < x.len() ==> is_digit(#[trigger] x[j]),
            v as int == digits_value(x.subrange(0, k - i)),
        decreases q - k,
    {
        assert(is_digit(x[k - i]));
        assert(x[k - i] == s@[k as int]);
        let d = (s[k] as u32 - 48) as u64;
        assert(x.subrange(0, k - i + 1).drop_last() =~= x.subrange(0, k - i));
        assert(digits_value(x.subrange(0, k - i + 1)) == v * 10 + d);
        if v > (u64::MAX - d) / 10 {
            proof {
                assert(v * 10 + d > u64::MAX) by (nonlinear_arith)
                    requires
                        v > (u64::MAX - d) / 10,
                        d <= 9,
                ;
                lemma_digits_grow(x, k - i + 1, x.len() as int);
                assert(x.subrange(0, x.len() as int) =~= x);
            }
            return None;
        }
        assert(v * 10 + d <= u64::MAX) by (nonlinear_arith)
            requires
                v <= (u64::MAX - d) / 10,
                d <= 9,
        ;
        v = v * 10 + d;
        k += 1;
    }
    assert(x.subrange(0, q - i) =~= x);
    Some((v, q))
}

/// The sub-type names after the first, each preceded by `|`.
fn geos_rest_at(s: &Vec<char>, e0: usize, out: &mut Vec<String>) -> (r: usize)
    requires
        e0 <= s@.len(),
    ensures
        final(out)@.map_values(|g: String| g@) == old(out)@.map_values(|g: String| g@)
            + geos_rest(s@, e0 as int).0,
        r == geos_rest(s@, e0 as int).1,
        e0 <= r <= s@.len(),
{
    let mut e = e0;
    loop
        invariant
            e0 <= e <= s@.len(),
            old(out)@.map_values(|g: String| g@) + geos_rest(s@, e0 as int).0 == out@.map_values(
                |g: String| g@,
            ) + geos_rest(s@, e as int).0,
            geos_rest(s@, e0 as int).1 == geos_rest(s@, e as int).1,
        decreases s@.len() - e,
    {
        let j = match verbar(s, e) {
            Some(j) => j,
            None => {
                assert(out@.map_values(|g: String| g@) + seq![] =~= out@.map_values(
                    |g: String| g@,
                ));
                return e;
            },
        };
        match geo_at(s, j) {
            Some((g, f)) => {
                let ghost before = out@.map_values(|g: String| g@);
                let ghost tail = geos_rest(s@, f as int).0;
                out.push(g);
                assert(out@.map_values(|g: String| g@) =~= before.push(g@));
                assert(before + (seq![g@] + tail) =~= before.push(g@) + tail);
                e = f;
            },
            None => {
                assert(out@.map_values(|g: String| g@) + seq![] =~= out@.map_values(
                    |g: String| g@,
                ));
                return e;
            },
        }
    }
}

/// A kind at `i`.
pub fn kind_at(s: &Vec<char>, i: usize) -> (r: Option<(Kind, usize)>)
    requires
        i <= s@.len(),
    ensures
        match r {
            Some((k, e)) => spec_kind(s@, i as int) == Some((k@, e as int)) && i < e <= s@.len(),
            None => spec_kind(s@, i as int) is None,
        },
    decreases s@.len() - i, 1int,
{
    match prim_at(s, i) {
        Some(r) => Some(r),
        None => composite_at(s, i),
    }
}

/// A kind with parameters at `i`.
fn composite_at(s: &Vec<char>, i: usize) -> (r: Option<(Kind, usize)>)
    requires
        i <= s@.len(),
    ensures
        match r {
            Some((k, e)) => spec_composite(s@, i as int) == Some((k@, e as int)) && i < e
                <= s@.len(),
            None => spec_composite(s@, i as int) is None,
        },
    decreases s@.len() - i, 0int,
{
    proof {
        assert(s@.len() == s.len());
    }
    let w: &[char] = &['o', 'p', 't', 'i', 'o', 'n'];
    assert(w@ =~= seq!['o', 'p', 't', 'i', 'o', 'n']);
    if tag_no_case(s, i, w) {
        return option_kind_at(s, i + 6);
    }
    let w: &[char] = &['a', 'r', 'r', 'a', 'y'];
    assert(w@ =~= seq!['a', 'r', 'r', 'a', 'y']);
    if tag_no_case(s, i, w) {
        return array_kind_at(s, i + 5);
    }
    let w: &[char] = &['s', 'e', 't'];
    assert(w@ =~= seq!['s', 'e', 't']);
    if tag_no_case(s, i, w) {
        return set_kind_at(s, i + 3);
    }
    let w: &[char] = &['r', 'e', 'c', 'o', 'r', 'd'];
    assert(w@ =~= seq!['r', 'e', 'c', 'o', 'r', 'd']);
    if tag_no_case(s, i, w) {
        return record_kind_at(s, i + 6);
    }
    let w: &[char] = &['e', 'i', 't', 'h', 'e', 'r'];
    assert(w@ =~= seq!['e', 'i', 't', 'h', 'e', 'r']);
    if tag_no_case(s, i, w) {
        return either_kind_at(s, i + 6);
    }
    let w: &[char] = &['g', 'e', 'o', 'm', 'e', 't', 'r', 'y'];
    assert(w@ =~= seq!['g', 'e', 'o', 'm', 'e', 't', 'r', 'y']);
    if tag_no_case(s, i, w) {
        return geometry_kind_at(s, i + 8);
    }
    None
}

/// `option<K>` after its keyword.
fn option_kind_at(s: &Vec<char>, p: usize) -> (r: Option<(Kind, usize)>)
    requires
        p <= s@.len(),
    ensures
        match r {
            Some((k, e)) => spec_option_kind(s@, p as int) == Some((k@, e as int)) && p < e <= s@.len(),
            None => spec_option_kind(s@, p as int) is None,
        },
    decreases s@.len() - p, 3int,
{
    match option_body_at(s, p) {
        Some((k, e)) => Some((Kind::Option(Box::new(k)), e)),
        None => None,
    }
}

/// `array<K>` or `array<K, N>` after its keyword.
fn array_kind_at(s: &Vec<char>, p: usize) -> (r: Option<(Kind, usize)>)
    requires
        p <= s@.len(),
    ensures
        match r {
            Some((k, e)) => spec_array_kind(s@, p as int) == Some((k@, e as int)) && p < e <= s@.len(),
            None => spec_array_kind(s@, p as int) is None,
        },
    decreases s@.len() - p, 3int,
{
    match sized_body_at(s, p) {
        Some((k, n, e)) => Some((Kind::Array(Box::new(k), n), e)),
        None => None,
    }
}

/// `set<K>` or `set<K, N>` after its keyword.
fn set_kind_at(s: &Vec<char>, p: usize) -> (r: Option<(Kind, usize)>)
    requires
        p <= s@.len(),
    ensures
        match r {
            Some((k, e)) => spec_set_kind(s@, p as int) == Some((k@, e as int)) && p < e <= s@.len(),
            None => spec_set_kind(s@, p as int) is None,
        },
    decreases s@.len() - p, 3int,
{
    match sized_body_at(s, p) {
        Some((k, n, e)) => Some((Kind::SetOf(Box::new(k), n), e)),
        None => None,
    }
}

/// `record<T | ..>` after its keyword.
fn record_kind_at(s: &Vec<char>, p: usize) -> (r: Option<(Kind, usize)>)
    requires
        p <= s@.len(),
    ensures
        match r {
            Some((k, e)) => spec_record_kind(s@, p as int) == Some((k@, e as int)) && p < e <= s@.len(),
            None => spec_record_kind(s@, p as int) is None,
        },
{
    match record_body_at(s, p) {
        Some((ts, e)) => Some((Kind::Record(ts), e)),
        None => None,
    }
}

/// `either<K | K | ..>` after its keyword.
fn either_kind_at(s: &Vec<char>, p: usize) -> (r: Option<(Kind, usize)>)
    requires
        p <= s@.len(),
    ensures
        match r {
            Some((k, e)) => spec_either_kind(s@, p as int) == Some((k@, e as int)) && p < e <= s@.len(),
            None => spec_either_kind(s@, p as int) is None,
        },
    decreases s@.len() - p, 3int,
{
    match either_body_at(s, p) {
        Some((ks, e)) => {
            proof {
                lemma_either_view(ks);
            }
            Some((Kind::Either(ks), e))
        },
        None => None,
    }
}

/// `geometry<G | ..>` after its keyword.
fn geometry_kind_at(s: &Vec<char>, p: usize) -> (r: Option<(Kind, usize)>)
    requires
        p <= s@.len(),
    ensures
        match r {
            Some((k, e)) => spec_geometry_kind(s@, p as int) == Some((k@, e as int)) && p < e <= s@.len(),
            None => spec_geometry_kind(s@, p as int) is None,
        },
{
    match geometry_body_at(s, p) {
        Some((gs, e)) => Some((Kind::Geometry(gs), e)),
        None => None,
    }
}

/// `<T | T | ..>` at `p`.
fn record_body_at(s: &Vec<char>, p: usize) -> (r: Option<(Vec<Table>, usize)>)
    requires
        p <= s@.len(),
    ensures
        match r {
            Some((ts, e)) => spec_record_body(s@, p as int) == Some((
                ts@.map_values(|t: Table| t@),
                e as int,
            )) && p < e <= s@.len(),
            None => spec_record_body(s@, p as int) is None,
        },
{
    reveal(spec_record_body);
    let j = match open_at(s, p, '<') {
        Some(j) => j,
        None => {
            return None;
        },
    };
    let (ts, f) = match tables_at(s, j, '|') {
        Some(r) => r,
        None => {
            return None;
        },
    };
    match close_at(s, f, '>') {
        Some(g) => Some((ts, g)),
        None => None,
    }
}

/// `<G | G | ..>` at `p`.
fn geometry_body_at(s: &Vec<char>, p: usize) -> (r: Option<(Vec<String>, usize)>)
    requires
        p <= s@.len(),
    ensures
        match r {
            Some((gs, e)) => spec_geometry_body(s@, p as int) == Some((
                gs@.map_values(|g: String| g@),
                e as int,
            )) && p < e <= s@.len(),
            None => spec_geometry_body(s@, p as int) is None,
        },
{
    reveal(spec_geometry_body);
    let j = match open_at(s, p, '<') {
        Some(j) => j,
        None => {
            return None;
        },
    };
    let (g, f) = match geo_at(s, j) {
        Some(r) => r,
        None => {
            return None;
        },
    };
    let mut gs: Vec<String> = Vec::new();
    gs.push(g);
    let h = geos_rest_at(s, f, &mut gs);
    assert(gs@.map_values(|g: String| g@) =~= seq![g@] + geos_rest(s@, f as int).0);
    match close_at(s, h, '>') {
        Some(e) => Some((gs, e)),
        None => None,
    }
}

/// The kinds after the first, each preceded by `|`.
fn kinds_rest_at(s: &Vec<char>, e0: usize, out: &mut Vec<Kind>) -> (r: usize)
    requires
        e0 <= s@.len(),
    ensures
        kinds_view(final(out)@) == kinds_view(old(out)@) + kinds_rest(s@, e0 as int).0,
        r == kinds_rest(s@, e0 as int).1,
        e0 <= r <= s@.len(),
    decreases s@.len() - e0, 2int,
{
    let j = match verbar(s, e0) {
        Some(j) => j,
        None => {
            assert(kinds_view(out@) + seq![] =~= kinds_view(out@));
            return e0;
        },
    };
    match kind_at(s, j) {
        Some((k, f)) => {
            let ghost before = kinds_view(out@);
            out.push(k);
            assert(kinds_view(out@) =~= before.push(k@));
            let r = kinds_rest_at(s, f, out);
            assert(before + (seq![k@] + kinds_rest(s@, f as int).0) =~= before.push(k@)
                + kinds_rest(s@, f as int).0);
            r
        },
        None => {
            assert(kinds_view(out@) + seq![] =~= kinds_view(out@));
            e0
        },
    }
}

/// `<K>` at `p`.
fn option_body_at(s: &Vec<char>, p: usize) -> (r: Option<(Kind, usize)>)
    requires
        p <= s@.len(),
    ensures
        match r {
            Some((k, e)) => spec_option_body(s@, p as int) == Some((k@, e as int)) && p < e
                <= s@.len(),
            None => spec_option_body(s@, p as int) is None,
        },
    decreases s@.len() - p, 2int,
{
    let j = match open_at(s, p, '<') {
        Some(j) => j,
        None => {
            return None;
        },
    };
    let (k, f) = match kind_at(s, j) {
        Some(r) => r,
        None => {
            return None;
        },
    };
    match close_at(s, f, '>') {
        Some(e) => Some((k, e)),
        None => None,
    }
}

/// `<K>` or `<K, N>` at `p`.
fn sized_body_at(s: &Vec<char>, p: usize) -> (r: Option<(Kind, Option<u64>, usize)>)
    requires
        p <= s@.len(),
    ensures
        match r {
            Some((k, n, e)) => spec_sized_body(s@, p as int) == Some((k@, n, e as int)) && p < e
                <= s@.len(),
            None => spec_sized_body(s@, p as int) is None,
        },
    decreases s@.len() - p, 2int,
{
    let j = match open_at(s, p, '<') {
        Some(j) => j,
        None => {
            return None;
        },
    };
    let (k, f) = match kind_at(s, j) {
        Some(r) => r,
        None => {
            return None;
        },
    };
    let (n, g) = match commas(s, f) {
        Some(a) => match take_u64(s, a) {
            Some((n, b)) => (Some(n), b),
            None => (None, f),
        },
        None => (None, f),
    };
    match close_at(s, g, '>') {
        Some(e) => Some((k, n, e)),
        None => None,
    }
}

/// `<K | K | ..>` with two kinds or more, at `p`.
fn either_body_at(s: &Vec<char>, p: usize) -> (r: Option<(Vec<Kind>, usize)>)
    requires
        p <= s@.len(),
    ensures
        match r {
            Some((ks, e)) => spec_either_body(s@, p as int) == Some((kinds_view(ks@), e as int))
                && p < e <= s@.len(),
            None => spec_either_body(s@, p as int) is None,
        },
    decreases s@.len() - p, 2int,
{
    let j = match open_at(s, p, '<') {
        Some(j) => j,
        None => {
            return None;
        },
    };
    let (k, f) = match kind_at(s, j) {
        Some(r) => r,
        None => {
            return None;
        },
    };
    let mut out: Vec<Kind> = Vec::new();
    out.push(k);
    assert(kinds_view(out@) =~= seq![k@]);
    let g = kinds_rest_at(s, f, &mut out);
    assert(kinds_view(out@) == seq![k@] + kinds_rest(s@, f as int).0);
    assert(kinds_view(out@).len() == out@.len());
    match close_at(s, g, '>') {
        Some(e) => if out.len() >= 2 {
            Some((out, e))
        } else {
            None
        },
        None => None,
    }
}

/// Parses a kind at the start of `i`.
pub fn kind(i: &str) -> (r: Result<(&str, Kind), ParseError>)
    ensures
        match spec_kind(i@, 0) {
            Some((v, e)) => r matches Ok((rest, x)) && x@ == v && rest@ == i@.subrange(
                e,
                i@.len() as int,
            ),
            None => r matches Err(err) && err.pos == 0,
        },
{
    let s = to_chars(i);
    match kind_at(&s, 0) {
        Some((v, e)) => Ok((i.substring_char(e, s.len()), v)),
        None => Err(ParseError { pos: 0 }),
    }
}

} // verus!
