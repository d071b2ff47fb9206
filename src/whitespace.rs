use vstd::prelude::*;
use crate::comment::{block_close, filler_end, line_comment, spec_comment, spec_comments};
use crate::text::{has_at, in_class, is_space, lemma_run_end, run_end, CharClass};

verus! {

/// Whether `u` from `p` on is the same text as `t` from `q` on.
pub open spec fn same_from(u: Seq<char>, p: int, t: Seq<char>, q: int) -> bool {
    0 <= p <= u.len() && 0 <= q <= t.len() && u.subrange(p, u.len() as int) == t.subrange(
        q,
        t.len() as int,
    )
}

proof fn lemma_same_from_at(u: Seq<char>, p: int, t: Seq<char>, q: int, k: int)
    requires
        same_from(u, p, t, q),
        0 <= k,
    ensures
        u.len() - p == t.len() - q,
        (p + k < u.len()) == (q + k < t.len()),
        p + k < u.len() ==> u[p + k] == t[q + k],
        p + k <= u.len() ==> same_from(u, p + k, t, q + k),
{
    assert(u.len() - p == t.len() - q) by {
        assert(u.subrange(p, u.len() as int).len() == t.subrange(q, t.len() as int).len());
    }
    if p + k < u.len() {
        assert(u.subrange(p, u.len() as int)[k] == t.subrange(q, t.len() as int)[k]);
    }
    if p + k <= u.len() {
        assert(u.subrange(p + k, u.len() as int) =~= u.subrange(p, u.len() as int).subrange(
            k,
            u.len() - p,
        ));
        assert(t.subrange(q + k, t.len() as int) =~= t.subrange(q, t.len() as int).subrange(
            k,
            t.len() - q,
        ));
    }
}

proof fn lemma_run_end_suffix(u: Seq<char>, p: int, t: Seq<char>, q: int, cls: CharClass)
    requires
        same_from(u, p, t, q),
    ensures
        run_end(u, p, cls) - p == run_end(t, q, cls) - q,
    decreases u.len() - p,
{
    lemma_same_from_at(u, p, t, q, 0);
    lemma_same_from_at(u, p, t, q, 1);
    if p < u.len() && in_class(cls, u[p]) {
        lemma_run_end_suffix(u, p + 1, t, q + 1, cls);
    }
}

proof fn lemma_has_at_suffix(u: Seq<char>, p: int, t: Seq<char>, q: int, w: Seq<char>)
    requires
        same_from(u, p, t, q),
    ensures
        has_at(u, p, w) == has_at(t, q, w),
{
    lemma_same_from_at(u, p, t, q, 0);
    if p + w.len() <= u.len() {
        lemma_text_suffix(u, p, t, q, w.len() as int);
    }
}

proof fn lemma_block_close_suffix(u: Seq<char>, p: int, t: Seq<char>, q: int)
    requires
        same_from(u, p, t, q),
    ensures
        block_close(u, p) == match block_close(t, q) {
            Some(j) => Some(j - q + p),
            None => None::<int>,
        },
    decreases u.len() - p,
{
    lemma_same_from_at(u, p, t, q, 0);
    lemma_same_from_at(u, p, t, q, 1);
    if p + 1 < u.len() {
        if !(u[p] == '*' && u[p + 1] == '/') {
            lemma_block_close_suffix(u, p + 1, t, q + 1);
        }
    }
}

proof fn lemma_text_suffix(u: Seq<char>, p: int, t: Seq<char>, q: int, n: int)
    requires
        same_from(u, p, t, q),
        0 <= n,
        p + n <= u.len(),
    ensures
        u.subrange(p, p + n) == t.subrange(q, q + n),
{
    lemma_same_from_at(u, p, t, q, n);
    assert forall|k: int| 0 <= k < n implies #[trigger] u.subrange(p, p + n)[k] == t.subrange(
        q,
        q + n,
    )[k] by {
        lemma_same_from_at(u, p, t, q, k);
    }
    assert(u.subrange(p, p + n) =~= t.subrange(q, q + n));
}

proof fn lemma_line_comment_suffix(u: Seq<char>, p: int, t: Seq<char>, q: int)
    requires
        same_from(u, p, t, q),
    ensures
        line_comment(u, p) == match line_comment(t, q) {
            Some((c, j)) => Some((c, j - q + p)),
            None => None::<(Seq<char>, int)>,
        },
{
    lemma_run_end_suffix(u, p, t, q, CharClass::NotLineEnd);
    let eu = run_end(u, p, CharClass::NotLineEnd);
    lemma_run_end(u, p, CharClass::NotLineEnd);
    lemma_same_from_at(u, p, t, q, eu - p);
    lemma_same_from_at(u, p, t, q, eu - p + 1);
    lemma_text_suffix(u, p, t, q, eu - p);
}

proof fn lemma_comment_suffix(u: Seq<char>, p: int, t: Seq<char>, q: int)
    requires
        same_from(u, p, t, q),
    ensures
        spec_comment(u, p) == match spec_comment(t, q) {
            Some((c, j)) => Some((c, j - q + p)),
            None => None::<(Seq<char>, int)>,
        },
{
    lemma_has_at_suffix(u, p, t, q, seq!['/', '*']);
    lemma_has_at_suffix(u, p, t, q, seq!['/', '/']);
    lemma_has_at_suffix(u, p, t, q, seq!['-', '-']);
    lemma_has_at_suffix(u, p, t, q, seq!['#']);
    if has_at(u, p, seq!['/', '*']) {
        lemma_same_from_at(u, p, t, q, 2);
        lemma_block_close_suffix(u, p + 2, t, q + 2);
        lemma_block_close_bound(u, p + 2);
        match block_close(u, p + 2) {
            Some(j) => {
                lemma_text_suffix(u, p + 2, t, q + 2, j - (p + 2));
            },
            None => {},
        }
    } else if has_at(u, p, seq!['/', '/']) || has_at(u, p, seq!['-', '-']) {
        lemma_same_from_at(u, p, t, q, 2);
        lemma_line_comment_suffix(u, p + 2, t, q + 2);
    } else if has_at(u, p, seq!['#']) {
        lemma_same_from_at(u, p, t, q, 1);
        lemma_line_comment_suffix(u, p + 1, t, q + 1);
    }
}

proof fn lemma_block_close_bound(s: Seq<char>, p: int)
    ensures
        block_close(s, p) matches Some(j) ==> p <= j && j + 1 < s.len(),
    decreases s.len() - p,
{
    if 0 <= p && p + 1 < s.len() && !(s[p] == '*' && s[p + 1] == '/') {
        lemma_block_close_bound(s, p + 1);
    }
}

proof fn lemma_comment_bound(s: Seq<char>, i: int)
    ensures
        spec_comment(s, i) matches Some((_, k)) ==> i < k <= s.len(),
{
    if has_at(s, i, seq!['/', '*']) {
        lemma_block_close_bound(s, i + 2);
    } else if has_at(s, i, seq!['/', '/']) || has_at(s, i, seq!['-', '-']) {
        lemma_run_end(s, i + 2, CharClass::NotLineEnd);
    } else if has_at(s, i, seq!['#']) {
        lemma_run_end(s, i + 1, CharClass::NotLineEnd);
    }
}

/// Skipping white space and comments depends only on the text from where it starts.
proof fn lemma_filler_suffix(u: Seq<char>, p: int, t: Seq<char>, q: int)
    requires
        same_from(u, p, t, q),
    ensures
        filler_end(u, p) - p == filler_end(t, q) - q,
        spec_comments(u, p).0 == spec_comments(t, q).0,
        spec_comments(u, p).1 - p == spec_comments(t, q).1 - q,
    decreases u.len() - p,
{
    lemma_run_end_suffix(u, p, t, q, CharClass::Space);
    lemma_run_end(u, p, CharClass::Space);
    lemma_run_end(t, q, CharClass::Space);
    let ju = run_end(u, p, CharClass::Space);
    let jt = run_end(t, q, CharClass::Space);
    lemma_same_from_at(u, p, t, q, ju - p);
    lemma_comment_suffix(u, ju, t, jt);
    lemma_comment_bound(u, ju);
    lemma_comment_bound(t, jt);
    match spec_comment(u, ju) {
        Some((_, k)) => {
            lemma_same_from_at(u, ju, t, jt, k - ju);
            lemma_filler_suffix(u, k, t, k - ju + jt);
        },
        None => {},
    }
}

proof fn lemma_spaces_skip(s: Seq<char>, i: int, j: int)
    requires
        0 <= i <= j <= s.len(),
        forall|m: int| i <= m < j ==> is_space(#[trigger] s[m]),
    ensures
        run_end(s, i, CharClass::Space) == run_end(s, j, CharClass::Space),
    decreases j - i,
{
    if i < j {
        lemma_spaces_skip(s, i + 1, j);
    }
}

/// White space inserted where white space and comments are skipped is skipped with
/// them: the same comments are read, and the skip ends at the same text, later by the
/// length of what was inserted.
pub proof fn lemma_filler_absorbs_whitespace(t: Seq<char>, i: int, w: Seq<char>)
    requires
        0 <= i <= t.len(),
        forall|k: int| 0 <= k < w.len() ==> is_space(#[trigger] w[k]),
    ensures
        ({
            let u = t.subrange(0, i) + w + t.subrange(i, t.len() as int);
            &&& filler_end(u, i) == filler_end(t, i) + w.len()
            &&& spec_comments(u, i).0 == spec_comments(t, i).0
            &&& spec_comments(u, i).1 == spec_comments(t, i).1 + w.len()
        }),
{
    let u = t.subrange(0, i) + w + t.subrange(i, t.len() as int);
    let m = i + w.len();
    assert forall|k: int| i <= k < m implies is_space(#[trigger] u[k]) by {
        assert(u[k] == w[k - i]);
    }
    lemma_spaces_skip(u, i, m);
    assert(u.subrange(m, u.len() as int) =~= t.subrange(i, t.len() as int));
    lemma_filler_suffix(u, m, t, i);
    lemma_run_end(u, m, CharClass::Space);
    let j = run_end(u, m, CharClass::Space);
    lemma_comment_bound(u, j);
    assert(filler_end(u, i) == filler_end(u, m));
    assert(spec_comments(u, i) == spec_comments(u, m));
}

} // verus!
