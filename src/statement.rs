use vstd::prelude::*;
use crate::comment::{
    filler_end, mightbecomment, mightbespace, separation_end, shouldbespace,
    spec_comments,
};
use crate::common::{
    colons, commas, punct_at, semicolons_at, spec_colons, spec_punct, spec_semicolons,
};
use crate::ident::{encoded, escape_ident, ident_at, multikeep_at, spec_ident, spec_path, Ident};
use crate::kind::{kind_at, spec_kind, Kind, KindView};
use crate::text::{
    has_at, has_at_ci, run_end, tag, tag_no_case, take_run, to_chars, CharClass, ParseError,
};

verus! {

broadcast use vstd::std_specs::vec::group_vec_axioms;

/// One function definition: the comments above it, the segments of its path and its
/// parameters in order. Its body is not kept.
#[derive(Debug, Default, Eq, PartialEq)]
pub struct DefineFunctionStatement {
    pub comments: Vec<String>,
    pub name: Vec<String>,
    pub args: Vec<(Ident, Kind)>,
}

/// What a statement denotes, with text as character sequences.
pub struct FunctionView {
    pub comments: Seq<Seq<char>>,
    pub name: Seq<Seq<char>>,
    pub args: Seq<(Seq<char>, KindView)>,
}

pub open spec fn strings_view(v: Seq<String>) -> Seq<Seq<char>> {
    v.map_values(|x: String| x@)
}

pub open spec fn args_view(v: Seq<(Ident, Kind)>) -> Seq<(Seq<char>, KindView)> {
    v.map_values(|a: (Ident, Kind)| (a.0@, a.1@))
}

impl View for DefineFunctionStatement {
    type V = FunctionView;

    open spec fn view(&self) -> FunctionView {
        FunctionView {
            comments: strings_view(self.comments@),
            name: strings_view(self.name@),
            args: args_view(self.args@),
        }
    }
}

pub open spec fn statements_view(v: Seq<DefineFunctionStatement>) -> Seq<FunctionView> {
    v.map_values(|x: DefineFunctionStatement| x@)
}

/// A parameter `$name: kind` at `i`.
pub open spec fn spec_param(s: Seq<char>, i: int) -> Option<((Seq<char>, KindView), int)> {
    if has_at(s, i, seq!['$']) {
        match spec_ident(s, i + 1) {
            Some((n, a)) => match spec_punct(s, a, ':') {
                Some(b) => match spec_kind(s, b) {
                    Some((k, e)) => Some(((n, k), e)),
                    None => None,
                },
                None => None,
            },
            None => None,
        }
    } else {
        None
    }
}

/// The parameters after the first, each preceded by `,`, from `e`.
pub open spec fn params_rest(s: Seq<char>, e: int) -> (Seq<(Seq<char>, KindView)>, int)
    decreases s.len() - e,
{
    match spec_punct(s, e, ',') {
        Some(j) => match spec_param(s, j) {
            Some((p, f)) => if e < f <= s.len() {
                (seq![p] + params_rest(s, f).0, params_rest(s, f).1)
            } else {
                (seq![], e)
            },
            None => (seq![], e),
        },
        None => (seq![], e),
    }
}

/// Zero or more parameters separated by `,`.
pub open spec fn spec_params(s: Seq<char>, i: int) -> (Seq<(Seq<char>, KindView)>, int) {
    match spec_param(s, i) {
        Some((p, e)) => (seq![p] + params_rest(s, e).0, params_rest(s, e).1),
        None => (seq![], i),
    }
}

/// A body `{ .. }` at `i`, which ends at the first `}`.
pub open spec fn spec_block(s: Seq<char>, i: int) -> Option<int> {
    if has_at(s, i, seq!['{']) {
        let q = run_end(s, i + 1, CharClass::NotCloseBrace);
        if q < s.len() {
            Some(q + 1)
        } else {
            None
        }
    } else {
        None
    }
}

/// `DEFINE`, a separation, `FUNCTION`, optional separation and `fn::`, at `b`, keywords in
/// any case; the position after `fn::`.
pub open spec fn spec_head(s: Seq<char>, b: int) -> Option<int> {
    if !has_at_ci(s, b, seq!['d', 'e', 'f', 'i', 'n', 'e']) {
        None
    } else {
        match separation_end(s, b + 6) {
            None => None,
            Some(c) => if !has_at_ci(s, c, seq!['f', 'u', 'n', 'c', 't', 'i', 'o', 'n']) {
                None
            } else {
                let d = filler_end(s, c + 8);
                if has_at(s, d, seq!['f', 'n', ':', ':']) {
                    Some(d + 4)
                } else {
                    None
                }
            },
        }
    }
}

/// A path, the parameters in parentheses and a body, at `p`.
pub open spec fn spec_signature(s: Seq<char>, p: int) -> Option<
    (Seq<Seq<char>>, Seq<(Seq<char>, KindView)>, int),
> {
    match spec_path(s, p) {
        None => None,
        Some((path, e)) => match spec_punct(s, e, '(') {
            None => None,
            Some(g) => match spec_punct(s, spec_params(s, g).1, ')') {
                None => None,
                Some(k) => match spec_block(s, k) {
                    None => None,
                    Some(l) => Some((path, spec_params(s, g).0, l)),
                },
            },
        },
    }
}

/// One statement at `i`: leading comments, which it keeps; `DEFINE`, a separation,
/// `FUNCTION`, optional separation, `fn::` and a path; the parameters in parentheses;
/// a body. Keywords in any case.
#[verifier::opaque]
pub open spec fn spec_function(s: Seq<char>, i: int) -> Option<(FunctionView, int)> {
    match spec_head(s, filler_end(s, spec_comments(s, i).1)) {
        None => None,
        Some(p) => match spec_signature(s, p) {
            None => None,
            Some((path, args, l)) => Some(
                (FunctionView { comments: spec_comments(s, i).0, name: path, args }, l),
            ),
        },
    }
}

/// The statements after the first, each preceded by one or more `;`, from `e`.
pub open spec fn statements_rest(s: Seq<char>, e: int) -> (Seq<FunctionView>, int)
    decreases s.len() - e,
{
    match spec_semicolons(s, e) {
        Some(j) => match spec_function(s, j) {
            Some((f, g)) => if e < g <= s.len() {
                (seq![f] + statements_rest(s, g).0, statements_rest(s, g).1)
            } else {
                (seq![], e)
            },
            None => (seq![], e),
        },
        None => (seq![], e),
    }
}

/// One or more statements at `i`, after optional white space, each ended by `;`.
pub open spec fn spec_functions(s: Seq<char>, i: int) -> Option<(Seq<FunctionView>, int)> {
    let a = run_end(s, i, CharClass::Space);
    match spec_function(s, a) {
        Some((f, b)) => match spec_colons(s, statements_rest(s, b).1) {
            Some(c) => Some((seq![f] + statements_rest(s, b).0, c)),
            None => None,
        },
        None => None,
    }
}

/// Where a statement list at `i` that does not parse stops: at its first statement
/// where that does not parse, else where the terminator after the last statement
/// should be.
pub open spec fn functions_error_pos(s: Seq<char>, i: int) -> int {
    let a = run_end(s, i, CharClass::Space);
    match spec_function(s, a) {
        Some((_, b)) => statements_rest(s, b).1,
        None => a,
    }
}

/// A parameter `$name: kind` at `i`.
fn param_at(s: &Vec<char>, i: usize) -> (r: Option<((Ident, Kind), usize)>)
    requires
        i <= s@.len(),
    ensures
        match r {
            Some((p, e)) => spec_param(s@, i as int) == Some(((p.0@, p.1@), e as int)) && i < e
                <= s@.len(),
            None => spec_param(s@, i as int) is None,
        },
{
    proof {
        assert(s@.len() == s.len());
    }
    let dollar: &[char] = &['$'];
    assert(dollar@ =~= seq!['$']);
    if !tag(s, i, dollar) {
        return None;
    }
    let (n, a) = match ident_at(s, i + 1) {
        Some(r) => r,
        None => {
            return None;
        },
    };
    let b = match punct_at(s, a, ':') {
        Some(b) => b,
        None => {
            return None;
        },
    };
    match kind_at(s, b) {
        Some((k, e)) => Some(((n, k), e)),
        None => None,
    }
}

/// Zero or more parameters at `i`, separated by `,`.
fn params_at(s: &Vec<char>, i: usize) -> (r: (Vec<(Ident, Kind)>, usize))
    requires
        i <= s@.len(),
    ensures
        spec_params(s@, i as int) == (args_view(r.0@), r.1 as int),
        i <= r.1 <= s@.len(),
{
    let mut out: Vec<(Ident, Kind)> = Vec::new();
    let mut e = match param_at(s, i) {
        Some((p, e)) => {
            out.push(p);
            e
        },
        None => {
            assert(args_view(out@) =~= seq![]);
            return (out, i);
        },
    };
    assert(args_view(out@) =~= seq![(spec_param(s@, i as int)->0).0]);
    loop
        invariant
            i < e <= s@.len(),
            spec_params(s@, i as int) == (args_view(out@) + params_rest(s@, e as int).0,
            params_rest(s@, e as int).1),
        decreases s@.len() - e,
    {
        let j = match commas(s, e) {
            Some(j) => j,
            None => {
                assert(args_view(out@) + seq![] =~= args_view(out@));
                return (out, e);
            },
        };
        match param_at(s, j) {
            Some((p, f)) => {
                let ghost before = args_view(out@);
                let ghost pv = (p.0@, p.1@);
                let ghost tail = params_rest(s@, f as int).0;
                out.push(p);
                assert(args_view(out@) =~= before.push(pv));
                assert(before + (seq![pv] + tail) =~= before.push(pv) + tail);
                e = f;
            },
            None => {
                assert(args_view(out@) + seq![] =~= args_view(out@));
                return (out, e);
            },
        }
    }
}

/// A body `{ .. }` at `i`, up to the first `}`; its text is not kept.
pub fn ignored_block(s: &Vec<char>, i: usize) -> (r: Option<usize>)
    requires
        i <= s@.len(),
    ensures
        match r {
            Some(e) => spec_block(s@, i as int) == Some(e as int) && i < e <= s@.len(),
            None => spec_block(s@, i as int) is None,
        },
{
    proof {
        assert(s@.len() == s.len());
    }
    let open: &[char] = &['{'];
    assert(open@ =~= seq!['{']);
    if !tag(s, i, open) {
        return None;
    }
    let q = take_run(s, i + 1, CharClass::NotCloseBrace);
    if q < s.len() {
        Some(q + 1)
    } else {
        None
    }
}

/// `DEFINE`, a separation, `FUNCTION`, optional separation and `fn::` at `b`.
fn head_at(s: &Vec<char>, b: usize) -> (r: Option<usize>)
    requires
        b <= s@.len(),
    ensures
        match r {
            Some(e) => spec_head(s@, b as int) == Some(e as int) && b < e <= s@.len(),
            None => spec_head(s@, b as int) is None,
        },
{
    proof {
        assert(s@.len() == s.len());
    }
    let w: &[char] = &['d', 'e', 'f', 'i', 'n', 'e'];
    assert(w@ =~= seq!['d', 'e', 'f', 'i', 'n', 'e']);
    if !tag_no_case(s, b, w) {
        return None;
    }
    let c = match shouldbespace(s, b + 6) {
        Some(c) => c,
        None => {
            return None;
        },
    };
    let w: &[char] = &['f', 'u', 'n', 'c', 't', 'i', 'o', 'n'];
    assert(w@ =~= seq!['f', 'u', 'n', 'c', 't', 'i', 'o', 'n']);
    if !tag_no_case(s, c, w) {
        return None;
    }
    let d = mightbespace(s, c + 8);
    let w: &[char] = &['f', 'n', ':', ':'];
    assert(w@ =~= seq!['f', 'n', ':', ':']);
    if tag(s, d, w) {
        Some(d + 4)
    } else {
        None
    }
}

/// A path, the parameters in parentheses and a body, at `p`.
fn signature_at(s: &Vec<char>, p: usize) -> (r: Option<(Vec<String>, Vec<(Ident, Kind)>, usize)>)
    requires
        p <= s@.len(),
    ensures
        match r {
            Some((path, args, e)) => spec_signature(s@, p as int) == Some((
                strings_view(path@),
                args_view(args@),
                e as int,
            )) && p < e <= s@.len(),
            None => spec_signature(s@, p as int) is None,
        },
{
    let (name, e) = match multikeep_at(s, p) {
        Some(r) => r,
        None => {
            return None;
        },
    };
    let g = match punct_at(s, e, '(') {
        Some(g) => g,
        None => {
            return None;
        },
    };
    let (args, h) = params_at(s, g);
    let k = match punct_at(s, h, ')') {
        Some(k) => k,
        None => {
            return None;
        },
    };
    match ignored_block(s, k) {
        Some(l) => Some((name, args, l)),
        None => None,
    }
}

/// One statement at `i`.
pub fn function_at(s: &Vec<char>, i: usize) -> (r: Option<(DefineFunctionStatement, usize)>)
    requires
        i <= s@.len(),
    ensures
        match r {
            Some((f, e)) => spec_function(s@, i as int) == Some((f@, e as int)) && i < e
                <= s@.len(),
            None => spec_function(s@, i as int) is None,
        },
{
    reveal(spec_function);
    let (comments, a) = mightbecomment(s, i);
    let b = mightbespace(s, a);
    let p = match head_at(s, b) {
        Some(p) => p,
        None => {
            return None;
        },
    };
    match signature_at(s, p) {
        Some((name, args, l)) => Some((DefineFunctionStatement { comments, name, args }, l)),
        None => None,
    }
}

/// One or more statements at `i`, each ended by `;`.
pub fn functions_at(s: &Vec<char>, i: usize) -> (r: Result<(Vec<DefineFunctionStatement>, usize), usize>)
    requires
        i <= s@.len(),
    ensures
        match r {
            Ok((v, e)) => spec_functions(s@, i as int) == Some((statements_view(v@), e as int))
                && i < e <= s@.len(),
            Err(p) => spec_functions(s@, i as int) is None && p == functions_error_pos(
                s@,
                i as int,
            ),
        },
{
    let a = take_run(s, i, CharClass::Space);
    let (first, mut e) = match function_at(s, a) {
        Some(r) => r,
        None => {
            return Err(a);
        },
    };
    let ghost fv = first@;
    let mut out: Vec<DefineFunctionStatement> = Vec::new();
    out.push(first);
    assert(statements_view(out@) =~= seq![fv]);
    let ghost b = e as int;
    loop
        invariant
            i <= a < b <= e <= s@.len(),
            b == (spec_function(s@, a as int)->0).1,
            spec_function(s@, a as int) is Some,
            a == run_end(s@, i as int, CharClass::Space),
            seq![(spec_function(s@, a as int)->0).0] + statements_rest(s@, b).0 == statements_view(
                out@,
            ) + statements_rest(s@, e as int).0,
            statements_rest(s@, b).1 == statements_rest(s@, e as int).1,
        ensures
            statements_rest(s@, e as int) == (Seq::<FunctionView>::empty(), e as int),
        decreases s@.len() - e,
    {
        let j = match semicolons_at(s, e) {
            Some(j) => j,
            None => {
                break;
            },
        };
        match function_at(s, j) {
            Some((f, g)) => {
                let ghost before = statements_view(out@);
                let ghost v = f@;
                let ghost tail = statements_rest(s@, g as int).0;
                out.push(f);
                assert(statements_view(out@) =~= before.push(v));
                assert(before + (seq![v] + tail) =~= before.push(v) + tail);
                e = g;
            },
            None => {
                break;
            },
        }
    }
    assert(statements_rest(s@, e as int) == (Seq::<FunctionView>::empty(), e as int));
    assert(statements_view(out@) + seq![] =~= statements_view(out@));
    match colons(s, e) {
        Some(c) => Ok((out, c)),
        None => Err(e),
    }
}

/// Parses one statement at the start of `i`; returns the rest of the input and the
/// statement.
pub fn function(i: &str) -> (r: Result<(&str, DefineFunctionStatement), ParseError>)
    ensures
        match spec_function(i@, 0) {
            Some((v, e)) => r matches Ok((rest, x)) && x@ == v && rest@ == i@.subrange(
                e,
                i@.len() as int,
            ),
            None => r matches Err(err) && err.pos == 0,
        },
{
    let s = to_chars(i);
    match function_at(&s, 0) {
        Some((v, e)) => Ok((i.substring_char(e, s.len()), v)),
        None => Err(ParseError { pos: 0 }),
    }
}

/// Parses one or more statements, each ended by `;`, at the start of `i`; returns the
/// rest of the input and the statements in source order. Comments after a terminator
/// belong to the statement that follows it.
pub fn functions(i: &str) -> (r: Result<(&str, Vec<DefineFunctionStatement>), ParseError>)
    ensures
        match spec_functions(i@, 0) {
            Some((v, e)) => r matches Ok((rest, x)) && statements_view(x@) == v && rest@
                == i@.subrange(e, i@.len() as int),
            None => r matches Err(err) && err.pos == functions_error_pos(i@, 0),
        },
{
    let s = to_chars(i);
    match functions_at(&s, 0) {
        Ok((v, e)) => Ok((i.substring_char(e, s.len()), v)),
        Err(p) => Err(ParseError { pos: p }),
    }
}

/// Parses a whole source text: one or more statements, each ended by `;`, and nothing
/// after the last terminator but white space and comments.
pub fn parse_functions(src: &str) -> (r: Result<Vec<DefineFunctionStatement>, ParseError>)
    ensures
        match spec_functions(src@, 0) {
            Some((v, e)) => if e == src@.len() {
                r matches Ok(x) && statements_view(x@) == v
            } else {
                r matches Err(err) && err.pos == e
            },
            None => r matches Err(err) && err.pos == functions_error_pos(src@, 0),
        },
{
    let s = to_chars(src);
    match functions_at(&s, 0) {
        Ok((v, e)) => if e == s.len() {
            Ok(v)
        } else {
            Err(ParseError { pos: e })
        },
        Err(p) => Err(ParseError { pos: p }),
    }
}

/// The text of the query that calls the function `f`: `RETURN fn::a::b($x, $y)`.
pub open spec fn query_of(f: FunctionView) -> Seq<char> {
    seq!['R', 'E', 'T', 'U', 'R', 'N', ' ', 'f', 'n'] + path_text(f.name) + seq!['('] + args_text(
        f.args,
    ) + seq![')']
}

/// Each segment preceded by `::`.
pub open spec fn path_text(segs: Seq<Seq<char>>) -> Seq<char>
    decreases segs.len(),
{
    if segs.len() == 0 {
        seq![]
    } else {
        path_text(segs.drop_last()) + seq![':', ':'] + segs.last()
    }
}

/// Each parameter as `$name`, joined by `, `.
pub open spec fn args_text(args: Seq<(Seq<char>, KindView)>) -> Seq<char>
    decreases args.len(),
{
    if args.len() == 0 {
        seq![]
    } else {
        args_text(args.drop_last()) + (if args.len() > 1 {
            seq![',', ' ']
        } else {
            seq![]
        }) + seq!['$'] + encoded(args.last().0)
    }
}

impl DefineFunctionStatement {
    /// The query that calls this function with its parameters bound by name:
    /// `RETURN fn::a::b($x, $y)`.
    pub fn custom_function_query(&self) -> (r: String)
        ensures
            r@ == query_of(self@),
    {
        let mut out = String::new();
        out.append("RETURN fn");
        proof {
            reveal_strlit("RETURN fn");
            assert(out@ =~= seq!['R', 'E', 'T', 'U', 'R', 'N', ' ', 'f', 'n']);
        }
        let ghost head = out@;
        let mut k: usize = 0;
        while k < self.name.len()
            invariant
                k <= self.name@.len(),
                out@ == head + path_text(strings_view(self.name@).subrange(0, k as int)),
            decreases self.name@.len() - k,
        {
            let ghost segs = strings_view(self.name@).subrange(0, k + 1);
            out.append("::");
            out.append(self.name[k].as_str());
            proof {
                reveal_strlit("::");
                assert(segs.drop_last() =~= strings_view(self.name@).subrange(0, k as int));
                assert(out@ =~= head + path_text(segs));
            }
            k += 1;
        }
        assert(strings_view(self.name@).subrange(0, k as int) =~= strings_view(self.name@));
        out.append("(");
        proof {
            reveal_strlit("(");
        }
        let ghost mid = out@;
        assert(mid == head + path_text(strings_view(self.name@)) + seq!['(']);
        let mut k: usize = 0;
        while k < self.args.len()
            invariant
                k <= self.args@.len(),
                out@ == mid + args_text(args_view(self.args@).subrange(0, k as int)),
            decreases self.args@.len() - k,
        {
            let ghost part = args_view(self.args@).subrange(0, k + 1);
            if k > 0 {
                out.append(", ");
            }
            out.append("$");
            let id = &self.args[k].0;
            let name = escape_ident(id.0.as_str());
            out.append(name.as_str());
            proof {
                reveal_strlit(", ");
                reveal_strlit("$");
                assert(part.drop_last() =~= args_view(self.args@).subrange(0, k as int));
                assert(part.last().0 == self.args@[k as int].0@);
                assert(out@ =~= mid + args_text(part));
            }
            k += 1;
        }
        assert(args_view(self.args@).subrange(0, k as int) =~= args_view(self.args@));
        out.append(")");
        proof {
            reveal_strlit(")");
        }
        assert(out@ =~= query_of(self@));
        out
    }
}

} // verus!
