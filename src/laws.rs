use vstd::prelude::*;
use crate::comment::{filler_end, spec_comment};
use crate::common::spec_semicolons;
use crate::ident::{
    backtick_body, encoded, escape_all, escape_piece, is_bare, spec_backtick, spec_ident,
    spec_plain, unescaped, Ident,
};
use crate::statement::{spec_function, spec_functions, statements_rest};
use crate::table::Table;
use crate::text::{
    has_at, in_class, is_digit, is_ident_char, lemma_run_end, lemma_run_end_at, run_end,
    CharClass,
};

verus! {

/// Whether `x` holds no backslash.
pub open spec fn no_backslash(x: Seq<char>) -> bool {
    forall|k: int| 0 <= k < x.len() ==> #[trigger] x[k] != '\\'
}

/// Escaped text followed by a closing backtick decodes to the text it was made from.
proof fn lemma_backtick_body_escaped(e: Seq<char>, p: int, y: Seq<char>)
    requires
        no_backslash(y),
        0 <= p,
        p + escape_all(y, '`', '\\').len() < e.len(),
        e.subrange(p, p + escape_all(y, '`', '\\').len()) == escape_all(y, '`', '\\'),
        e[p + escape_all(y, '`', '\\').len()] == '`',
    ensures
        backtick_body(e, p) == Some((y, p + escape_all(y, '`', '\\').len())),
    decreases y.len(),
{
    let z = escape_all(y, '`', '\\');
    if y.len() == 0 {
        assert(y =~= seq![]);
    } else {
        let y1 = y.drop_first();
        let z1 = escape_all(y1, '`', '\\');
        let piece = escape_piece(y[0], '`', '\\');
        assert(z == piece + z1);
        assert(no_backslash(y1)) by {
            assert forall|k: int| 0 <= k < y1.len() implies #[trigger] y1[k] != '\\' by {
                assert(y1[k] == y[k + 1]);
            }
        }
        let l = piece.len() as int;
        assert(e.subrange(p + l, p + l + z1.len()) =~= z1) by {
            assert forall|k: int| 0 <= k < z1.len() implies e.subrange(p + l, p + l + z1.len())[k]
                == z1[k] by {
                assert(e.subrange(p, p + z.len())[l + k] == z[l + k]);
            }
        }
        assert(e[p] == z[0]) by {
            assert(e.subrange(p, p + z.len())[0] == z[0]);
        }
        lemma_backtick_body_escaped(e, p + l, y1);
        if y[0] == '`' {
            assert(e[p + 1] == z[1]) by {
                assert(e.subrange(p, p + z.len())[1] == z[1]);
            }
            assert(unescaped(e[p + 1]) == Some('`'));
            assert(seq!['`'] + y1 =~= y);
        } else {
            assert(y[0] != '\\');
            assert(seq![y[0]] + y1 =~= y);
        }
    }
}

/// Text that cannot be written bare, that is not empty and has no backslash, is written
/// between backticks and reads back as itself.
proof fn lemma_quoted_round_trip(x: Seq<char>)
    requires
        !is_bare(x),
        x.len() > 0,
        no_backslash(x),
    ensures
        encoded(x) == seq!['`'] + escape_all(x, '`', '\\') + seq!['`'],
        spec_ident(encoded(x), 0) == Some((x, encoded(x).len() as int)),
{
    let z = escape_all(x, '`', '\\');
    let e = encoded(x);
    assert(e == seq!['`'] + z + seq!['`']);
    assert(z == escape_piece(x[0], '`', '\\') + escape_all(x.drop_first(), '`', '\\'));
    assert(e[0] == '`');
    assert(!is_ident_char(e[0]));
    assert(run_end(e, 0, CharClass::IdentChar) == 0);
    assert(spec_plain(e, 0) is None);
    assert(e.subrange(0, 1) =~= seq!['`']);
    assert(e[1] == z[0]);
    assert(e.subrange(1, 1 + z.len() as int) =~= z);
    assert(e[1 + z.len() as int] == '`');
    lemma_backtick_body_escaped(e, 1, x);
    assert(spec_backtick(e, 0) == Some((x, e.len() as int)));
}

/// A bare identifier (identifier characters only, not only digits) is written as it is,
/// and reads back as itself.
pub proof fn lemma_bare_round_trip(s: Seq<char>)
    requires
        forall|k: int| 0 <= k < s.len() ==> is_ident_char(#[trigger] s[k]),
        exists|k: int| 0 <= k < s.len() && !is_digit(#[trigger] s[k]),
    ensures
        encoded(s) == s,
        spec_ident(encoded(s), 0) == Some((s, s.len() as int)),
{
    assert(is_bare(s));
    assert forall|m: int| 0 <= m < s.len() implies in_class(CharClass::IdentChar, #[trigger] s[m]) by {
    }
    lemma_run_end_at(s, 0, s.len() as int, CharClass::IdentChar);
    assert(s.len() > 0);
    assert(s.subrange(0, s.len() as int) =~= s);
}

/// Text with a character that no bare identifier may hold, and no backslash, is written
/// between backticks with each backtick escaped, and reads back as itself.
pub proof fn lemma_special_round_trip(s: Seq<char>)
    requires
        exists|k: int| 0 <= k < s.len() && !is_ident_char(#[trigger] s[k]),
        no_backslash(s),
    ensures
        encoded(s) == seq!['`'] + escape_all(s, '`', '\\') + seq!['`'],
        spec_ident(encoded(s), 0) == Some((s, encoded(s).len() as int)),
{
    assert(!is_bare(s));
    lemma_quoted_round_trip(s);
}

/// Reading back the written form of any non-empty identifier without a backslash gives
/// the same identifier.
pub proof fn lemma_ident_round_trip(id: Ident)
    requires
        id@.len() > 0,
        no_backslash(id@),
    ensures
        spec_ident(encoded(id@), 0) == Some((id@, encoded(id@).len() as int)),
{
    let s = id@;
    if is_bare(s) {
        lemma_bare_round_trip(s);
    } else {
        lemma_quoted_round_trip(s);
    }
}

/// Reading back the written form of any non-empty table name without a backslash gives
/// the same table.
pub proof fn lemma_table_round_trip(t: Table)
    requires
        t@.len() > 0,
        no_backslash(t@),
    ensures
        spec_ident(encoded(t@), 0) == Some((t@, encoded(t@).len() as int)),
{
    lemma_ident_round_trip(Ident(t.0));
}

/// White space and comments end at the same place when skipped a second time.
pub proof fn lemma_filler_idempotent(s: Seq<char>, i: int)
    ensures
        filler_end(s, filler_end(s, i)) == filler_end(s, i),
    decreases s.len() - i,
{
    let j = run_end(s, i, CharClass::Space);
    if 0 <= i <= s.len() {
        lemma_run_end(s, i, CharClass::Space);
        match spec_comment(s, j) {
            Some((_, k)) => if i <= j < k <= s.len() {
                lemma_filler_idempotent(s, k);
            } else {
                lemma_run_end_at(s, j, j, CharClass::Space);
            },
            None => {
                lemma_run_end_at(s, j, j, CharClass::Space);
            },
        }
    } else {
        assert(j == i);
        assert(spec_comment(s, i) is None);
    }
}

/// What a statement list leaves unread starts with neither white space nor a comment:
/// trailing white space and comments are always read, so a parse of the whole text
/// fails exactly when other text follows the last terminator.
pub proof fn lemma_statements_leave_no_filler(s: Seq<char>)
    requires
        spec_functions(s, 0) is Some,
    ensures
        filler_end(s, (spec_functions(s, 0)->0).1) == (spec_functions(s, 0)->0).1,
{
    let a = run_end(s, 0, CharClass::Space);
    let b = (spec_function(s, a)->0).1;
    let c = statements_rest(s, b).1;
    let q = spec_semicolons(s, c)->0;
    assert((spec_functions(s, 0)->0).1 == filler_end(s, q));
    lemma_filler_idempotent(s, q);
}

} // verus!
