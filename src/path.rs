use vstd::prelude::*;
use crate::text::{
    is_ident_char, lemma_run_end, lemma_run_end_at, run_end, string_from, take_run, to_chars,
    val_char, CharClass,
};

verus! {

broadcast use vstd::std_specs::vec::group_vec_axioms;

/// Why a path template could not be resolved.
#[derive(Debug, PartialEq, Eq)]
pub enum ResolveError {
    /// The lookup gave no value for this variable.
    MissingVariable { variable: String },
    /// A `$` that no variable name follows; `rest` is the text from that `$` on.
    UnableToParseVariable { rest: String },
}

/// What a `ResolveError` denotes.
pub enum ResolveErrorView {
    MissingVariable(Seq<char>),
    UnableToParseVariable(Seq<char>),
}

pub open spec fn result_view(r: Result<String, ResolveError>) -> Result<Seq<char>, ResolveErrorView> {
    match r {
        Ok(p) => Ok(p@),
        Err(ResolveError::MissingVariable { variable }) => Err(
            ResolveErrorView::MissingVariable(variable@),
        ),
        Err(ResolveError::UnableToParseVariable { rest }) => Err(
            ResolveErrorView::UnableToParseVariable(rest@),
        ),
    }
}

/// Whether `c` may start a variable name.
pub open spec fn is_var_start(c: char) -> bool {
    ('a' <= c && c <= 'z') || ('A' <= c && c <= 'Z') || c == '_'
}

/// The end of the variable name that starts at `p`: a letter or `_`, then letters,
/// digits and `_`. It is `p` where no name starts there.
pub open spec fn var_end(x: Seq<char>, p: int) -> int {
    if 0 <= p < x.len() && is_var_start(x[p]) {
        run_end(x, p + 1, CharClass::IdentChar)
    } else {
        p
    }
}

/// The text `x` from `p` on with each `$NAME` replaced by the value `env` gives for
/// `NAME`, in one pass from left to right: a value is never scanned again. It fails on
/// the first name that `env` has no value for, or on the first `$` that no name
/// follows, whichever comes first.
pub open spec fn resolve(
    x: Seq<char>,
    p: int,
    env: spec_fn(Seq<char>) -> Option<Seq<char>>,
) -> Result<Seq<char>, ResolveErrorView>
    decreases x.len() - p,
{
    let d = run_end(x, p, CharClass::NotDollar);
    if !(0 <= p <= d < x.len()) {
        Ok(x.subrange(p, x.len() as int))
    } else {
        let e = var_end(x, d + 1);
        if !(d + 1 < e <= x.len()) {
            Err(ResolveErrorView::UnableToParseVariable(x.subrange(d, x.len() as int)))
        } else {
            match env(x.subrange(d + 1, e)) {
                None => Err(ResolveErrorView::MissingVariable(x.subrange(d + 1, e))),
                Some(v) => match resolve(x, e, env) {
                    Ok(rest) => Ok(x.subrange(p, d) + v + rest),
                    Err(err) => Err(err),
                },
            }
        }
    }
}

/// Whether every value that `get_env` may return for a name is the one `env` gives.
pub open spec fn agrees<F: Fn(&str) -> Option<String>>(
    get_env: F,
    env: spec_fn(Seq<char>) -> Option<Seq<char>>,
) -> bool {
    forall|a: &str, o: Option<String>|
        #[trigger] get_env.ensures((a,), o) ==> env(a@) == match o {
            Some(v) => Some(v@),
            None => None,
        }
}

pub open spec fn after(done: Seq<char>, r: Result<Seq<char>, ResolveErrorView>) -> Result<
    Seq<char>,
    ResolveErrorView,
> {
    match r {
        Ok(rest) => Ok(done + rest),
        Err(e) => Err(e),
    }
}

/// Resolves each `$NAME` in `raw` through `get_env`, in one pass from left to right; a
/// value is inserted as it is and never scanned again.
pub fn resolve_path<F: Fn(&str) -> Option<String>>(raw: &str, get_env: F) -> (r: Result<
    String,
    ResolveError,
>)
    requires
        forall|a: &str| get_env.requires((a,)),
    ensures
        forall|env: spec_fn(Seq<char>) -> Option<Seq<char>>|
            #[trigger] agrees(get_env, env) ==> result_view(r) == resolve(raw@, 0, env),
{
    let v = to_chars(raw);
    let n = v.len();
    let mut out = String::new();
    let mut p: usize = 0;
    loop
        invariant
            v@ == raw@,
            n == v@.len(),
            p <= n,
            forall|a: &str| get_env.requires((a,)),
            forall|env: spec_fn(Seq<char>) -> Option<Seq<char>>|
                #[trigger] agrees(get_env, env) ==> resolve(raw@, 0, env) == after(
                    out@,
                    resolve(raw@, p as int, env),
                ),
        decreases n - p,
    {
        let d = take_run(&v, p, CharClass::NotDollar);
        if d >= n {
            let tail = string_from(&v, p, n);
            out.append(tail.as_str());
            return Ok(out);
        }
        let e = if d + 1 < n && (('a' <= v[d + 1] && v[d + 1] <= 'z') || ('A' <= v[d + 1] && v[d
            + 1] <= 'Z') || v[d + 1] == '_') {
            take_run(&v, d + 2, CharClass::IdentChar)
        } else {
            d + 1
        };
        assert(e == var_end(raw@, d + 1));
        if e == d + 1 {
            return Err(ResolveError::UnableToParseVariable { rest: string_from(&v, d, n) });
        }
        let name = string_from(&v, d + 1, e);
        let head = string_from(&v, p, d);
        match get_env(name.as_str()) {
            Some(value) => {
                let ghost before = out@;
                out.append(head.as_str());
                out.append(value.as_str());
                proof {
                    assert forall|env: spec_fn(Seq<char>) -> Option<Seq<char>>|
                        #[trigger] agrees(get_env, env) implies resolve(raw@, 0, env) == after(
                        out@,
                        resolve(raw@, e as int, env),
                    ) by {
                        assert(env(name@) == Some(value@));
                        match resolve(raw@, e as int, env) {
                            Ok(rest) => {
                                assert(before + (head@ + value@ + rest) =~= out@ + rest);
                            },
                            Err(_) => {},
                        }
                    }
                }
                p = e;
            },
            None => {
                proof {
                    assert forall|env: spec_fn(Seq<char>) -> Option<Seq<char>>|
                        #[trigger] agrees(get_env, env) implies result_view(
                        Err(ResolveError::MissingVariable { variable: name }),
                    ) == resolve(raw@, 0, env) by {
                        assert(env(name@) == None::<Seq<char>>);
                    }
                }
                return Err(ResolveError::MissingVariable { variable: name });
            },
        }
    }
}

/// A variable name at the start of `text`: a letter or `_`, then letters, digits and
/// `_`. Returns the name and the text after it.
pub fn parse_identifier(text: &str) -> (r: Option<(&str, &str)>)
    ensures
        match r {
            Some((name, rest)) => var_end(text@, 0) > 0 && name@ == text@.subrange(
                0,
                var_end(text@, 0),
            ) && rest@ == text@.subrange(var_end(text@, 0), text@.len() as int),
            None => var_end(text@, 0) == 0,
        },
{
    let n = text.unicode_len();
    if n == 0 {
        return None;
    }
    let c = text.get_char(0);
    if !(('a' <= c && c <= 'z') || ('A' <= c && c <= 'Z') || c == '_') {
        return None;
    }
    let rest = text.substring_char(1, n);
    let (head, tail) = take_while(rest, val_char);
    let k = head.unicode_len();
    assert(rest@ == text@.subrange(1, n as int));
    assert(head@.len() + tail@.len() == rest@.len());
    assert(head@ =~= rest@.subrange(0, k as int));
    assert(tail@ =~= rest@.subrange(k as int, rest@.len() as int));
    proof {
        assert forall|m: int| 1 <= m < 1 + k implies is_ident_char(#[trigger] text@[m]) by {
            assert(text@[m] == rest@[m - 1]);
            assert(val_char.ensures((rest@[m - 1],), true));
        }
        if 1 + k < text@.len() {
            assert(text@[1 + k] == rest@[k as int]);
            assert(val_char.ensures((rest@[k as int],), false));
        }
        lemma_run_end_at(text@, 1, 1 + k, CharClass::IdentChar);
    }
    assert(tail@ =~= text@.subrange(1 + k, text@.len() as int));
    Some((text.substring_char(0, 1 + k), tail))
}

/// Splits `s` before the first character for which `predicate` is false.
pub fn take_while<F: Fn(char) -> bool>(s: &str, predicate: F) -> (r: (&str, &str))
    requires
        forall|c: char| predicate.requires((c,)),
    ensures
        r.0@ + r.1@ == s@,
        forall|k: int| 0 <= k < r.0@.len() ==> predicate.ensures((#[trigger] s@[k],), true),
        r.1@.len() > 0 ==> predicate.ensures((s@[r.0@.len() as int],), false),
{
    let v = to_chars(s);
    let mut k: usize = 0;
    while k < v.len()
        invariant
            v@ == s@,
            k <= v@.len(),
            forall|c: char| predicate.requires((c,)),
            forall|m: int| 0 <= m < k ==> predicate.ensures((#[trigger] s@[m],), true),
        ensures
            k <= v@.len(),
            forall|m: int| 0 <= m < k ==> predicate.ensures((#[trigger] s@[m],), true),
            k < v@.len() ==> predicate.ensures((s@[k as int],), false),
        decreases v@.len() - k,
    {
        if predicate(v[k]) {
            k += 1;
        } else {
            break;
        }
    }
    let head = s.substring_char(0, k);
    let tail = s.substring_char(k, v.len());
    assert(head@ + tail@ =~= s@);
    (head, tail)
}

} // verus!
