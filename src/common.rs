use vstd::prelude::*;
use crate::comment::{filler_end, mightbespace};
use crate::text::{has_at, run_end, take_run, CharClass};

verus! {

broadcast use vstd::std_specs::vec::group_vec_axioms;

/// The character `c` with optional white space and comments on either side.
pub open spec fn spec_punct(s: Seq<char>, i: int, c: char) -> Option<int> {
    let a = filler_end(s, i);
    if 0 <= a < s.len() && s[a] == c {
        Some(filler_end(s, a + 1))
    } else {
        None
    }
}

/// One or more `;` after optional white space and comments; the position after them.
pub open spec fn spec_semicolons(s: Seq<char>, i: int) -> Option<int> {
    let a = filler_end(s, i);
    let q = run_end(s, a, CharClass::Semicolon);
    if a < q {
        Some(q)
    } else {
        None
    }
}

/// A statement terminator: one or more `;`, with white space and comments on either side.
pub open spec fn spec_colons(s: Seq<char>, i: int) -> Option<int> {
    match spec_semicolons(s, i) {
        Some(q) => Some(filler_end(s, q)),
        None => None,
    }
}

/// An opening character `c` followed by optional white space and comments.
pub open spec fn spec_open(s: Seq<char>, i: int, c: char) -> Option<int> {
    if 0 <= i < s.len() && s[i] == c {
        Some(filler_end(s, i + 1))
    } else {
        None
    }
}

/// Optional white space and comments followed by a closing character `c`.
pub open spec fn spec_close(s: Seq<char>, i: int, c: char) -> Option<int> {
    let a = filler_end(s, i);
    if 0 <= a < s.len() && s[a] == c {
        Some(a + 1)
    } else {
        None
    }
}

/// The character `c` with optional white space and comments on either side.
pub fn punct_at(s: &Vec<char>, i: usize, c: char) -> (r: Option<usize>)
    requires
        i <= s@.len(),
    ensures
        match r {
            Some(e) => spec_punct(s@, i as int, c) == Some(e as int) && i < e <= s@.len(),
            None => spec_punct(s@, i as int, c) is None,
        },
{
    let a = mightbespace(s, i);
    if a < s.len() && s[a] == c {
        Some(mightbespace(s, a + 1))
    } else {
        None
    }
}

/// A `,` with optional white space and comments on either side.
pub fn commas(s: &Vec<char>, i: usize) -> (r: Option<usize>)
    requires
        i <= s@.len(),
    ensures
        match r {
            Some(e) => spec_punct(s@, i as int, ',') == Some(e as int) && i < e <= s@.len(),
            None => spec_punct(s@, i as int, ',') is None,
        },
{
    punct_at(s, i, ',')
}

/// A `|` with optional white space and comments on either side.
pub fn verbar(s: &Vec<char>, i: usize) -> (r: Option<usize>)
    requires
        i <= s@.len(),
    ensures
        match r {
            Some(e) => spec_punct(s@, i as int, '|') == Some(e as int) && i < e <= s@.len(),
            None => spec_punct(s@, i as int, '|') is None,
        },
{
    punct_at(s, i, '|')
}

/// One or more `;` after optional white space and comments.
pub fn semicolons_at(s: &Vec<char>, i: usize) -> (r: Option<usize>)
    requires
        i <= s@.len(),
    ensures
        match r {
            Some(e) => spec_semicolons(s@, i as int) == Some(e as int) && i < e <= s@.len(),
            None => spec_semicolons(s@, i as int) is None,
        },
{
    let a = mightbespace(s, i);
    let q = take_run(s, a, CharClass::Semicolon);
    if a < q {
        Some(q)
    } else {
        None
    }
}

/// A statement terminator: one or more `;`, with white space and comments on either side.
pub fn colons(s: &Vec<char>, i: usize) -> (r: Option<usize>)
    requires
        i <= s@.len(),
    ensures
        match r {
            Some(e) => spec_colons(s@, i as int) == Some(e as int) && i < e <= s@.len(),
            None => spec_colons(s@, i as int) is None,
        },
{
    match semicolons_at(s, i) {
        Some(q) => Some(mightbespace(s, q)),
        None => None,
    }
}

/// An opening character `c` followed by optional white space and comments.
pub fn open_at(s: &Vec<char>, i: usize, c: char) -> (r: Option<usize>)
    requires
        i <= s@.len(),
    ensures
        match r {
            Some(e) => spec_open(s@, i as int, c) == Some(e as int) && i < e <= s@.len(),
            None => spec_open(s@, i as int, c) is None,
        },
{
    if i < s.len() && s[i] == c {
        Some(mightbespace(s, i + 1))
    } else {
        None
    }
}

/// Optional white space and comments followed by a closing character `c`.
pub fn close_at(s: &Vec<char>, i: usize, c: char) -> (r: Option<usize>)
    requires
        i <= s@.len(),
    ensures
        match r {
            Some(e) => spec_close(s@, i as int, c) == Some(e as int) && i < e <= s@.len(),
            None => spec_close(s@, i as int, c) is None,
        },
{
    let a = mightbespace(s, i);
    if a < s.len() && s[a] == c {
        Some(a + 1)
    } else {
        None
    }
}

} // verus!
