use vstd::prelude::*;
use crate::text::{
    has_at, is_digit, is_ident_char, run_end, string_from, take_run, tag, to_chars, val_char,
    CharClass, ParseError,
};

verus! {

broadcast use vstd::std_specs::vec::group_vec_axioms;

/// A name, held as its decoded text, whichever quoting it was written with.
#[derive(Clone, Debug, Default, Eq, Ord, PartialEq, PartialOrd, Hash)]
pub struct Ident(pub String);

impl View for Ident {
    type V = Seq<char>;

    open spec fn view(&self) -> Seq<char> {
        self.0@
    }
}

impl From<String> for Ident {
    fn from(v: String) -> (r: Self) {
        Ident(v)
    }
}

impl vstd::std_specs::convert::FromSpecImpl<String> for Ident {
    open spec fn obeys_from_spec() -> bool {
        true
    }

    open spec fn from_spec(v: String) -> Self {
        Ident(v)
    }
}

impl From<&str> for Ident {
    fn from(v: &str) -> (r: Self) {
        Ident::new(v)
    }
}

impl vstd::std_specs::convert::FromSpecImpl<&str> for Ident {
    open spec fn obeys_from_spec() -> bool {
        false
    }

    open spec fn from_spec(v: &str) -> Self {
        arbitrary()
    }
}

impl Ident {
    /// The identifier with the text `v`.
    pub fn new(v: &str) -> (r: Self)
        ensures
            r@ == v@,
    {
        Ident(v.to_string())
    }

    /// The decoded text, without quoting.
    pub fn to_raw(&self) -> (r: String)
        ensures
            r@ == self@,
    {
        self.0.clone()
    }

    /// The text as it is written in source: bare where it can be, else quoted.
    pub fn encode(&self) -> (r: String)
        ensures
            r@ == encoded(self@),
    {
        escape_ident(self.0.as_str())
    }
}

/// Text that can be written without quotes: identifier characters only, and not only
/// digits.
pub open spec fn is_bare(x: Seq<char>) -> bool {
    &&& forall|k: int| 0 <= k < x.len() ==> is_ident_char(#[trigger] x[k])
    &&& exists|k: int| 0 <= k < x.len() && !is_digit(#[trigger] x[k])
}

/// The character `c`, with the escape character `e` before it where it is `r`.
pub open spec fn escape_piece(c: char, r: char, e: char) -> Seq<char> {
    if c == r {
        seq![e, r]
    } else {
        seq![c]
    }
}

/// `x` with the escape character `e` before each `r`.
pub open spec fn escape_all(x: Seq<char>, r: char, e: char) -> Seq<char>
    decreases x.len(),
{
    if x.len() == 0 {
        seq![]
    } else {
        escape_piece(x[0], r, e) + escape_all(x.drop_first(), r, e)
    }
}

/// How the text `x` is written: as it is where it is bare, else between `l` and `r`
/// with `e` before each `r`.
pub open spec fn quoted(x: Seq<char>, l: char, r: char, e: char) -> Seq<char> {
    if is_bare(x) {
        x
    } else {
        seq![l] + escape_all(x, r, e) + seq![r]
    }
}

/// How the text `x` of an identifier is written: as it is where it is bare, else
/// between backticks with each backtick escaped by a backslash.
pub open spec fn encoded(x: Seq<char>) -> Seq<char> {
    quoted(x, '`', '`', '\\')
}

/// What the escape `\c` stands for inside backticks.
pub open spec fn unescaped(c: char) -> Option<char> {
    if c == '\\' {
        Some('\\')
    } else if c == '`' {
        Some('`')
    } else if c == '/' {
        Some('/')
    } else if c == 'b' {
        Some('\u{8}')
    } else if c == 'f' {
        Some('\u{c}')
    } else if c == 'n' {
        Some('\n')
    } else if c == 'r' {
        Some('\r')
    } else if c == 't' {
        Some('\t')
    } else {
        None
    }
}

/// The decoded text from `p` up to the closing backtick, and that backtick's position.
pub open spec fn backtick_body(s: Seq<char>, p: int) -> Option<(Seq<char>, int)>
    decreases s.len() - p,
{
    if p < 0 || p >= s.len() {
        None
    } else if s[p] == '`' {
        Some((seq![], p))
    } else if s[p] == '\\' {
        if p + 1 < s.len() && unescaped(s[p + 1]) is Some {
            match backtick_body(s, p + 2) {
                Some((t, e)) => Some((seq![unescaped(s[p + 1])->0] + t, e)),
                None => None,
            }
        } else {
            None
        }
    } else {
        match backtick_body(s, p + 1) {
            Some((t, e)) => Some((seq![s[p]] + t, e)),
            None => None,
        }
    }
}

/// A bare identifier at `i`: one or more identifier characters.
pub open spec fn spec_plain(s: Seq<char>, i: int) -> Option<(Seq<char>, int)> {
    let e = run_end(s, i, CharClass::IdentChar);
    if 0 <= i < e {
        Some((s.subrange(i, e), e))
    } else {
        None
    }
}

/// A non-empty identifier between backticks.
pub open spec fn spec_backtick(s: Seq<char>, i: int) -> Option<(Seq<char>, int)> {
    if has_at(s, i, seq!['`']) && i + 1 < s.len() && s[i + 1] != '`' {
        match backtick_body(s, i + 1) {
            Some((t, e)) => Some((t, e + 1)),
            None => None,
        }
    } else {
        None
    }
}

/// A non-empty identifier between `⟨` and `⟩`, taken as it stands.
pub open spec fn spec_brackets(s: Seq<char>, i: int) -> Option<(Seq<char>, int)> {
    if has_at(s, i, seq!['⟨']) {
        let q = run_end(s, i + 1, CharClass::NotCloseBracket);
        if i + 1 < q < s.len() {
            Some((s.subrange(i + 1, q), q + 1))
        } else {
            None
        }
    } else {
        None
    }
}

/// An identifier at `i` in the first of the three forms that matches: bare, between
/// backticks, between brackets. The decoded text and the position after it.
pub open spec fn spec_ident(s: Seq<char>, i: int) -> Option<(Seq<char>, int)> {
    match spec_plain(s, i) {
        Some(r) => Some(r),
        None => match spec_backtick(s, i) {
            Some(r) => Some(r),
            None => spec_brackets(s, i),
        },
    }
}

/// The segments after the first of a path `a::b::c`, from `e`.
pub open spec fn path_rest(s: Seq<char>, e: int) -> (Seq<Seq<char>>, int)
    decreases s.len() - e,
{
    if has_at(s, e, seq![':', ':']) {
        match spec_plain(s, e + 2) {
            Some((seg, f)) => if e < f <= s.len() {
                let (r, g) = path_rest(s, f);
                (seq![seg] + r, g)
            } else {
                (seq![], e)
            },
            None => (seq![], e),
        }
    } else {
        (seq![], e)
    }
}

/// A path of bare segments joined by `::`.
pub open spec fn spec_path(s: Seq<char>, i: int) -> Option<(Seq<Seq<char>>, int)> {
    match spec_plain(s, i) {
        Some((seg, e)) => {
            let (r, f) = path_rest(s, e);
            Some((seq![seg] + r, f))
        },
        None => None,
    }
}

pub proof fn lemma_escape_push(x: Seq<char>, c: char, r: char, e: char)
    ensures
        escape_all(x.push(c), r, e) == escape_all(x, r, e) + escape_piece(c, r, e),
    decreases x.len(),
{
    if x.len() == 0 {
        assert(x.push(c).drop_first() =~= seq![]);
        assert(x.push(c)[0] == c);
        assert(escape_all(x.push(c).drop_first(), r, e) =~= seq![]);
        assert(escape_all(x.push(c), r, e) =~= escape_piece(c, r, e) + seq![]);
        assert(escape_all(x, r, e) + escape_piece(c, r, e) =~= escape_piece(c, r, e));
    } else {
        assert(x.push(c).drop_first() =~= x.drop_first().push(c));
        lemma_escape_push(x.drop_first(), c, r, e);
        assert(escape_all(x.push(c), r, e) =~= escape_all(x, r, e) + escape_piece(c, r, e));
    }
}

/// The way an identifier with the text `s` is written: bare where it can be, else
/// between backticks with each backtick escaped.
pub fn escape_ident(s: &str) -> (r: String)
    ensures
        r@ == encoded(s@),
{
    let v = to_chars(s);
    escape_numeric(&v, '`', '`', '\\')
}

/// The way the text `v` is written: as it is where it is bare; otherwise between `l`
/// and `r`, with the escape character `e` before each `r`.
pub fn escape_numeric(v: &Vec<char>, l: char, r: char, e: char) -> (out: String)
    ensures
        out@ == quoted(v@, l, r, e),
{
    let mut all_ident = true;
    let mut numeric = true;
    let mut k: usize = 0;
    while k < v.len()
        invariant
            k <= v@.len(),
            all_ident == (forall|m: int| 0 <= m < k ==> is_ident_char(#[trigger] v@[m])),
            numeric == (forall|m: int| 0 <= m < k ==> is_digit(#[trigger] v@[m])),
        decreases v@.len() - k,
    {
        if !val_char(v[k]) {
            all_ident = false;
        }
        if !('0' <= v[k] && v[k] <= '9') {
            numeric = false;
        }
        k += 1;
    }
    if all_ident && !numeric {
        assert(!forall|m: int| 0 <= m < v@.len() ==> is_digit(#[trigger] v@[m]));
        return string_from(v, 0, v.len());
    }
    assert(!is_bare(v@));
    let mut out = String::new();
    out.push(l);
    let mut k: usize = 0;
    while k < v.len()
        invariant
            k <= v@.len(),
            out@ == seq![l] + escape_all(v@.subrange(0, k as int), r, e),
        decreases v@.len() - k,
    {
        let c = v[k];
        proof {
            lemma_escape_push(v@.subrange(0, k as int), c, r, e);
            assert(v@.subrange(0, k + 1) =~= v@.subrange(0, k as int).push(c));
        }
        if c == r {
            out.push(e);
        }
        out.push(c);
        assert(out@ =~= seq![l] + escape_all(v@.subrange(0, k + 1), r, e));
        k += 1;
    }
    out.push(r);
    assert(v@.subrange(0, v@.len() as int) =~= v@);
    out
}

/// A bare identifier at `i`.
pub fn plain_at(s: &Vec<char>, i: usize) -> (r: Option<(String, usize)>)
    requires
        i <= s@.len(),
    ensures
        match r {
            Some((v, e)) => spec_plain(s@, i as int) == Some((v@, e as int)) && i < e <= s@.len(),
            None => spec_plain(s@, i as int) is None,
        },
{
    let e = take_run(s, i, CharClass::IdentChar);
    if i < e {
        Some((string_from(s, i, e), e))
    } else {
        None
    }
}

fn unescape(c: char) -> (r: Option<char>)
    ensures
        r == unescaped(c),
{
    if c == '\\' {
        Some('\\')
    } else if c == '`' {
        Some('`')
    } else if c == '/' {
        Some('/')
    } else if c == 'b' {
        Some('\u{8}')
    } else if c == 'f' {
        Some('\u{c}')
    } else if c == 'n' {
        Some('\n')
    } else if c == 'r' {
        Some('\r')
    } else if c == 't' {
        Some('\t')
    } else {
        None
    }
}

/// An identifier between backticks at `i`, with its escapes decoded.
pub fn backtick_at(s: &Vec<char>, i: usize) -> (r: Option<(String, usize)>)
    requires
        i <= s@.len(),
    ensures
        match r {
            Some((v, e)) => spec_backtick(s@, i as int) == Some((v@, e as int)) && i < e <= s@.len(),
            None => spec_backtick(s@, i as int) is None,
        },
{
    let n = s.len();
    let quote: &[char] = &['`'];
    assert(quote@ =~= seq!['`']);
    if !(tag(s, i, quote) && n - i > 1 && s[i + 1] != '`') {
        return None;
    }
    let mut out = String::new();
    let mut p = i + 1;
    loop
        invariant
            n == s@.len(),
            has_at(s@, i as int, seq!['`']),
            i + 1 < s@.len(),
            s@[i + 1] != '`',
            i + 1 <= p,
            p <= n,
            backtick_body(s@, i + 1) == match backtick_body(s@, p as int) {
                Some((t, e)) => Some((out@ + t, e)),
                None => None,
            },
        decreases n - p,
    {
        if p >= n {
            return None;
        }
        let c = s[p];
        if c == '`' {
            assert(out@ + seq![] =~= out@);
            return Some((out, p + 1));
        }
        let ghost before = out@;
        if c == '\\' {
            if n - p > 1 {
                match unescape(s[p + 1]) {
                    Some(u) => {
                        out.push(u);
                        assert(forall|t: Seq<char>| before + (seq![u] + t) =~= out@ + t);
                        p += 2;
                    },
                    None => {
                        return None;
                    },
                }
            } else {
                return None;
            }
        } else {
            out.push(c);
            assert(forall|t: Seq<char>| before + (seq![c] + t) =~= out@ + t);
            p += 1;
        }
    }
}

/// An identifier between `⟨` and `⟩` at `i`.
pub fn brackets_at(s: &Vec<char>, i: usize) -> (r: Option<(String, usize)>)
    requires
        i <= s@.len(),
    ensures
        match r {
            Some((v, e)) => spec_brackets(s@, i as int) == Some((v@, e as int)) && i < e <= s@.len(),
            None => spec_brackets(s@, i as int) is None,
        },
{
    let n = s.len();
    let open: &[char] = &['⟨'];
    assert(open@ =~= seq!['⟨']);
    if !tag(s, i, open) {
        return None;
    }
    let q = take_run(s, i + 1, CharClass::NotCloseBracket);
    if i + 1 < q && q < n {
        Some((string_from(s, i + 1, q), q + 1))
    } else {
        None
    }
}

/// An identifier at `i` in any of its three forms, decoded.
pub fn ident_raw_at(s: &Vec<char>, i: usize) -> (r: Option<(String, usize)>)
    requires
        i <= s@.len(),
    ensures
        match r {
            Some((v, e)) => spec_ident(s@, i as int) == Some((v@, e as int)) && i < e <= s@.len(),
            None => spec_ident(s@, i as int) is None,
        },
{
    match plain_at(s, i) {
        Some(r) => Some(r),
        None => match backtick_at(s, i) {
            Some(r) => Some(r),
            None => brackets_at(s, i),
        },
    }
}

/// An identifier at `i` in any of its three forms.
pub fn ident_at(s: &Vec<char>, i: usize) -> (r: Option<(Ident, usize)>)
    requires
        i <= s@.len(),
    ensures
        match r {
            Some((v, e)) => spec_ident(s@, i as int) == Some((v@, e as int)) && i < e <= s@.len(),
            None => spec_ident(s@, i as int) is None,
        },
{
    match ident_raw_at(s, i) {
        Some((v, e)) => Some((Ident(v), e)),
        None => None,
    }
}

/// A path of bare segments joined by `::`, as its segments.
pub fn multikeep_at(s: &Vec<char>, i: usize) -> (r: Option<(Vec<String>, usize)>)
    requires
        i <= s@.len(),
    ensures
        match r {
            Some((v, e)) => spec_path(s@, i as int) == Some((
                v@.map_values(|x: String| x@),
                e as int,
            )) && i < e <= s@.len(),
            None => spec_path(s@, i as int) is None,
        },
{
    let (first, mut e) = match plain_at(s, i) {
        Some(r) => r,
        None => {
            return None;
        },
    };
    let mut out: Vec<String> = Vec::new();
    out.push(first);
    let sep: &[char] = &[':', ':'];
    assert(sep@ =~= seq![':', ':']);
    let n = s.len();
    loop
        invariant
            i < e <= s@.len(),
            n == s@.len(),
            sep@ == seq![':', ':'],
            out@.len() >= 1,
            spec_path(s@, i as int) == Some((
                out@.map_values(|x: String| x@) + path_rest(s@, e as int).0,
                path_rest(s@, e as int).1,
            )),
        decreases s@.len() - e,
    {
        if !tag(s, e, sep) {
            assert(out@.map_values(|x: String| x@) + seq![] =~= out@.map_values(|x: String| x@));
            return Some((out, e));
        }
        match plain_at(s, e + 2) {
            Some((seg, f)) => {
                let ghost before = out@.map_values(|x: String| x@);
                let ghost tail = path_rest(s@, f as int).0;
                out.push(seg);
                assert(out@.map_values(|x: String| x@) =~= before.push(seg@));
                assert(before + (seq![seg@] + tail) =~= before.push(seg@) + tail);
                e = f;
            },
            None => {
                assert(out@.map_values(|x: String| x@) + seq![] =~= out@.map_values(
                    |x: String| x@,
                ));
                return Some((out, e));
            },
        }
    }
}

/// A path of bare segments joined by `::`, as the text it spans.
pub fn multi_at(s: &Vec<char>, i: usize) -> (r: Option<(Ident, usize)>)
    requires
        i <= s@.len(),
    ensures
        match r {
            Some((v, e)) => spec_path(s@, i as int) matches Some((_, f)) && f == e && v@
                == s@.subrange(i as int, e as int) && i < e <= s@.len(),
            None => spec_path(s@, i as int) is None,
        },
{
    match multikeep_at(s, i) {
        Some((_, e)) => Some((Ident(string_from(s, i, e)), e)),
        None => None,
    }
}

/// Parses an identifier at the start of `i`, in any of its three forms; returns the
/// rest of the input and the identifier.
pub fn ident(i: &str) -> (r: Result<(&str, Ident), ParseError>)
    ensures
        match spec_ident(i@, 0) {
            Some((v, e)) => r matches Ok((rest, x)) && x@ == v && rest@ == i@.subrange(
                e,
                i@.len() as int,
            ),
            None => r matches Err(err) && err.pos == 0,
        },
{
    let s = to_chars(i);
    match ident_at(&s, 0) {
        Some((v, e)) => Ok((i.substring_char(e, s.len()), v)),
        None => Err(ParseError { pos: 0 }),
    }
}

/// Parses an identifier at the start of `i` to its decoded text.
pub fn ident_raw(i: &str) -> (r: Result<(&str, String), ParseError>)
    ensures
        match spec_ident(i@, 0) {
            Some((v, e)) => r matches Ok((rest, x)) && x@ == v && rest@ == i@.subrange(
                e,
                i@.len() as int,
            ),
            None => r matches Err(err) && err.pos == 0,
        },
{
    let s = to_chars(i);
    match ident_raw_at(&s, 0) {
        Some((v, e)) => Ok((i.substring_char(e, s.len()), v)),
        None => Err(ParseError { pos: 0 }),
    }
}

/// Parses a bare identifier at the start of `i`.
pub fn plain(i: &str) -> (r: Result<(&str, Ident), ParseError>)
    ensures
        match spec_plain(i@, 0) {
            Some((v, e)) => r matches Ok((rest, x)) && x@ == v && rest@ == i@.subrange(
                e,
                i@.len() as int,
            ),
            None => r matches Err(err) && err.pos == 0,
        },
{
    let s = to_chars(i);
    match plain_at(&s, 0) {
        Some((v, e)) => Ok((i.substring_char(e, s.len()), Ident(v))),
        None => Err(ParseError { pos: 0 }),
    }
}

/// Parses a path `a::b::c` of bare segments at the start of `i`, as the text it spans.
pub fn multi(i: &str) -> (r: Result<(&str, Ident), ParseError>)
    ensures
        match spec_path(i@, 0) {
            Some((_, e)) => r matches Ok((rest, x)) && x@ == i@.subrange(0, e) && rest@
                == i@.subrange(e, i@.len() as int),
            None => r matches Err(err) && err.pos == 0,
        },
{
    let s = to_chars(i);
    match multi_at(&s, 0) {
        Some((v, e)) => Ok((i.substring_char(e, s.len()), v)),
        None => Err(ParseError { pos: 0 }),
    }
}

/// Parses a path `a::b::c` of bare segments at the start of `i`, as its segments.
pub fn multikeep(i: &str) -> (r: Result<(&str, Vec<String>), ParseError>)
    ensures
        match spec_path(i@, 0) {
            Some((v, e)) => r matches Ok((rest, x)) && x@.map_values(|x: String| x@) == v
                && rest@ == i@.subrange(e, i@.len() as int),
            None => r matches Err(err) && err.pos == 0,
        },
{
    let s = to_chars(i);
    match multikeep_at(&s, 0) {
        Some((v, e)) => Ok((i.substring_char(e, s.len()), v)),
        None => Err(ParseError { pos: 0 }),
    }
}

} // verus!
