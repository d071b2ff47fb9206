use vstd::prelude::*;
use crate::text::{
    has_at, run_end, take_run, tag, trim, trimmed, CharClass,
};

verus! {

broadcast use vstd::std_specs::vec::group_vec_axioms;

/// The first position `j >= p` where `*/` starts.
pub open spec fn block_close(s: Seq<char>, p: int) -> Option<int>
    decreases s.len() - p,
{
    if 0 <= p && p + 1 < s.len() {
        if s[p] == '*' && s[p + 1] == '/' {
            Some(p)
        } else {
            block_close(s, p + 1)
        }
    } else {
        None
    }
}

/// A line comment whose text starts at `p`: it runs to the end of the line, and a
/// carriage return that no line feed follows does not end it.
pub open spec fn line_comment(s: Seq<char>, p: int) -> Option<(Seq<char>, int)> {
    let q = run_end(s, p, CharClass::NotLineEnd);
    if q < s.len() && s[q] == '\r' && !(q + 1 < s.len() && s[q + 1] == '\n') {
        None
    } else {
        Some((trim(s.subrange(p, q)), q))
    }
}

/// The comment that starts exactly at `i`, in one of the forms `/* .. */`, `// ..`,
/// `-- ..` and `# ..`: its trimmed text and the position just after it.
pub open spec fn spec_comment(s: Seq<char>, i: int) -> Option<(Seq<char>, int)> {
    if has_at(s, i, seq!['/', '*']) {
        match block_close(s, i + 2) {
            Some(j) => Some((trim(s.subrange(i + 2, j)), j + 2)),
            None => None,
        }
    } else if has_at(s, i, seq!['/', '/']) || has_at(s, i, seq!['-', '-']) {
        line_comment(s, i + 2)
    } else if has_at(s, i, seq!['#']) {
        line_comment(s, i + 1)
    } else {
        None
    }
}

/// The end of the longest run of white space and comments that starts at `i`.
pub open spec fn filler_end(s: Seq<char>, i: int) -> int
    decreases s.len() - i,
{
    let j = run_end(s, i, CharClass::Space);
    match spec_comment(s, j) {
        Some((_, k)) => if i <= j < k <= s.len() {
            filler_end(s, k)
        } else {
            j
        },
        None => j,
    }
}

/// The texts of the comments in the run of white space and comments that starts at
/// `i`, in order, and the end of that run.
pub open spec fn spec_comments(s: Seq<char>, i: int) -> (Seq<Seq<char>>, int)
    decreases s.len() - i,
{
    let j = run_end(s, i, CharClass::Space);
    match spec_comment(s, j) {
        Some((c, k)) => if i <= j < k <= s.len() {
            let (r, e) = spec_comments(s, k);
            (seq![c] + r, e)
        } else {
            (seq![], j)
        },
        None => (seq![], j),
    }
}

/// A separation that must be there: white space or comments, at least one character.
pub open spec fn separation_end(s: Seq<char>, i: int) -> Option<int> {
    let e = filler_end(s, i);
    if e > i {
        Some(e)
    } else {
        None
    }
}

/// Where a comment that starts at `i` ends: the bounds of its untrimmed text and its end.
fn comment_span(s: &Vec<char>, i: usize) -> (r: Option<(usize, usize, usize)>)
    requires
        i <= s@.len(),
    ensures
        match r {
            Some((a, b, e)) => {
                &&& spec_comment(s@, i as int) == Some((trim(s@.subrange(a as int, b as int)), e as int))
                &&& i < a <= b <= e <= s@.len()
            },
            None => spec_comment(s@, i as int) is None,
        },
{
    let n = s.len();
    let open_block: &[char] = &['/', '*'];
    let slashes: &[char] = &['/', '/'];
    let dashes: &[char] = &['-', '-'];
    let hash: &[char] = &['#'];
    assert(open_block@ =~= seq!['/', '*']);
    assert(slashes@ =~= seq!['/', '/']);
    assert(dashes@ =~= seq!['-', '-']);
    assert(hash@ =~= seq!['#']);
    if tag(s, i, open_block) {
        let mut p = i + 2;
        while n - p > 1 && !(s[p] == '*' && s[p + 1] == '/')
            invariant
                i + 2 <= p <= s@.len(),
                n == s@.len(),
                block_close(s@, p as int) == block_close(s@, i + 2),
            decreases s@.len() - p,
        {
            p += 1;
        }
        if n - p > 1 {
            Some((i + 2, p, p + 2))
        } else {
            None
        }
    } else {
        let p = if tag(s, i, slashes) || tag(s, i, dashes) {
            i + 2
        } else if tag(s, i, hash) {
            i + 1
        } else {
            return None;
        };
        let q = take_run(s, p, CharClass::NotLineEnd);
        if q < s.len() && s[q] == '\r' && !(q + 1 < s.len() && s[q + 1] == '\n') {
            None
        } else {
            Some((p, q, q))
        }
    }
}

/// Skips white space and comments, if there are any.
pub fn mightbespace(s: &Vec<char>, i: usize) -> (r: usize)
    requires
        i <= s@.len(),
    ensures
        r == filler_end(s@, i as int),
        i <= r <= s@.len(),
{
    let mut k = i;
    loop
        invariant
            i <= k <= s@.len(),
            filler_end(s@, k as int) == filler_end(s@, i as int),
        decreases s@.len() - k,
    {
        let j = take_run(s, k, CharClass::Space);
        match comment_span(s, j) {
            Some((_, _, e)) => {
                k = e;
            },
            None => {
                return j;
            },
        }
    }
}

/// Skips white space and comments, of which there must be at least one character.
pub fn shouldbespace(s: &Vec<char>, i: usize) -> (r: Option<usize>)
    requires
        i <= s@.len(),
    ensures
        match r {
            Some(e) => separation_end(s@, i as int) == Some(e as int) && i < e <= s@.len(),
            None => separation_end(s@, i as int) is None,
        },
{
    let e = mightbespace(s, i);
    if e > i {
        Some(e)
    } else {
        None
    }
}

/// Skips white space and comments, of which there must be at least one comment.
pub fn comment(s: &Vec<char>, i: usize) -> (r: Option<usize>)
    requires
        i <= s@.len(),
    ensures
        match r {
            Some(e) => spec_comments(s@, i as int).0.len() > 0 && e == filler_end(s@, i as int),
            None => spec_comments(s@, i as int).0.len() == 0,
        },
{
    let (found, e) = mightbecomment(s, i);
    proof {
        lemma_comments_end(s@, i as int);
    }
    if found.len() > 0 {
        Some(e)
    } else {
        None
    }
}

/// Skips white space and comments and collects the text of each comment, trimmed.
pub fn mightbecomment(s: &Vec<char>, i: usize) -> (r: (Vec<String>, usize))
    requires
        i <= s@.len(),
    ensures
        r.0@.map_values(|c: String| c@) == spec_comments(s@, i as int).0,
        r.1 == spec_comments(s@, i as int).1,
        i <= r.1 <= s@.len(),
{
    let mut out: Vec<String> = Vec::new();
    let mut k = i;
    loop
        invariant
            i <= k <= s@.len(),
            spec_comments(s@, i as int) == (out@.map_values(|c: String| c@) + spec_comments(
                s@,
                k as int,
            ).0, spec_comments(s@, k as int).1),
        decreases s@.len() - k,
    {
        let j = take_run(s, k, CharClass::Space);
        match comment_span(s, j) {
            Some((a, b, e)) => {
                let text = trimmed(s, a, b);
                let ghost before = out@.map_values(|c: String| c@);
                let ghost tail = spec_comments(s@, e as int).0;
                out.push(text);
                assert(out@.map_values(|c: String| c@) =~= before.push(text@));
                assert(before + (seq![text@] + tail) =~= before.push(text@) + tail);
                k = e;
            },
            None => {
                assert(out@.map_values(|c: String| c@) + seq![] =~= out@.map_values(
                    |c: String| c@,
                ));
                return (out, j);
            },
        }
    }
}

/// The run of comments ends where the run of filler does.
pub proof fn lemma_comments_end(s: Seq<char>, i: int)
    ensures
        spec_comments(s, i).1 == filler_end(s, i),
    decreases s.len() - i,
{
    let j = run_end(s, i, CharClass::Space);
    match spec_comment(s, j) {
        Some((_, k)) => if i <= j < k <= s.len() {
            lemma_comments_end(s, k);
        },
        None => {},
    }
}

} // verus!
