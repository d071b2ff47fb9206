use vstd::prelude::*;
use crate::common::{punct_at, spec_punct};
use crate::ident::{escape_ident, encoded, ident_raw_at, spec_ident, Ident};
use crate::text::{to_chars, ParseError};

verus! {

broadcast use vstd::std_specs::vec::group_vec_axioms;

/// The name of a database table, decoded as an identifier is.
#[derive(Clone, Debug, Default, Eq, PartialEq, PartialOrd, Hash)]
pub struct Table(pub String);

impl View for Table {
    type V = Seq<char>;

    open spec fn view(&self) -> Seq<char> {
        self.0@
    }
}

impl From<String> for Table {
    fn from(v: String) -> (r: Self) {
        Table(v)
    }
}

impl vstd::std_specs::convert::FromSpecImpl<String> for Table {
    open spec fn obeys_from_spec() -> bool {
        true
    }

    open spec fn from_spec(v: String) -> Self {
        Table(v)
    }
}

impl From<Ident> for Table {
    fn from(v: Ident) -> (r: Self) {
        Table(v.0)
    }
}

impl vstd::std_specs::convert::FromSpecImpl<Ident> for Table {
    open spec fn obeys_from_spec() -> bool {
        true
    }

    open spec fn from_spec(v: Ident) -> Self {
        Table(v.0)
    }
}

impl Table {
    /// The table with the name `v`.
    pub fn new(v: &str) -> (r: Self)
        ensures
            r@ == v@,
    {
        Table(v.to_string())
    }

    /// The name as it is written in source: bare where it can be, else quoted.
    pub fn encode(&self) -> (r: String)
        ensures
            r@ == encoded(self@),
    {
        escape_ident(self.0.as_str())
    }
}

/// One or more tables.
#[derive(Clone, Debug, Default, Eq, PartialEq, PartialOrd, Hash)]
pub struct Tables(pub Vec<Table>);

impl View for Tables {
    type V = Seq<Seq<char>>;

    open spec fn view(&self) -> Seq<Seq<char>> {
        self.0@.map_values(|t: Table| t@)
    }
}

impl Tables {
    /// The names, each as it is written in source, joined by `, `.
    pub fn encode(&self) -> (r: String)
        ensures
            r@ == joined(self@.map_values(|t: Seq<char>| encoded(t)), 0),
    {
        let mut out = String::new();
        let mut k: usize = 0;
        while k < self.0.len()
            invariant
                k <= self.0@.len(),
                out@ + joined(self@.map_values(|t: Seq<char>| encoded(t)), k as int) == joined(
                    self@.map_values(|t: Seq<char>| encoded(t)),
                    0,
                ),
            decreases self.0@.len() - k,
        {
            let ghost parts = self@.map_values(|t: Seq<char>| encoded(t));
            let ghost before = out@;
            if k > 0 {
                out.append(", ");
            }
            let piece = self.0[k].encode();
            out.append(piece.as_str());
            proof {
                reveal_strlit(", ");
                assert(parts[k as int] == piece@);
                if k > 0 {
                    assert(joined(parts, k as int) == seq![',', ' '] + piece@ + joined(parts, k + 1));
                    assert(out@ == before + seq![',', ' '] + piece@);
                } else {
                    assert(joined(parts, k as int) == piece@ + joined(parts, k + 1));
                }
                assert(out@ + joined(parts, k + 1) =~= before + joined(parts, k as int));
            }
            k += 1;
        }
        assert(out@ + seq![] =~= out@);
        out
    }
}

/// The parts from index `k` on, each but the first preceded by `, `.
pub open spec fn joined(parts: Seq<Seq<char>>, k: int) -> Seq<char>
    decreases parts.len() - k,
{
    if 0 <= k < parts.len() {
        (if k > 0 {
            seq![',', ' ']
        } else {
            seq![]
        }) + parts[k] + joined(parts, k + 1)
    } else {
        seq![]
    }
}

/// The tables after the first, each preceded by the separator `sep`, from `e`.
pub open spec fn tables_rest(s: Seq<char>, e: int, sep: char) -> (Seq<Seq<char>>, int)
    decreases s.len() - e,
{
    match spec_punct(s, e, sep) {
        Some(j) => match spec_ident(s, j) {
            Some((t, f)) => if e < f <= s.len() {
                let (r, g) = tables_rest(s, f, sep);
                (seq![t] + r, g)
            } else {
                (seq![], e)
            },
            None => (seq![], e),
        },
        None => (seq![], e),
    }
}

/// One or more tables separated by `sep`.
pub open spec fn spec_tables(s: Seq<char>, i: int, sep: char) -> Option<(Seq<Seq<char>>, int)> {
    match spec_ident(s, i) {
        Some((t, e)) => {
            let (r, f) = tables_rest(s, e, sep);
            Some((seq![t] + r, f))
        },
        None => None,
    }
}

/// A table name at `i`, in any of the three identifier forms.
pub fn table_at(s: &Vec<char>, i: usize) -> (r: Option<(Table, usize)>)
    requires
        i <= s@.len(),
    ensures
        match r {
            Some((v, e)) => spec_ident(s@, i as int) == Some((v@, e as int)) && i < e <= s@.len(),
            None => spec_ident(s@, i as int) is None,
        },
{
    match ident_raw_at(s, i) {
        Some((v, e)) => Some((Table(v), e)),
        None => None,
    }
}

/// One or more table names at `i`, separated by `sep` with optional white space and
/// comments around it.
pub fn tables_at(s: &Vec<char>, i: usize, sep: char) -> (r: Option<(Vec<Table>, usize)>)
    requires
        i <= s@.len(),
    ensures
        match r {
            Some((v, e)) => spec_tables(s@, i as int, sep) == Some((
                v@.map_values(|t: Table| t@),
                e as int,
            )) && i < e <= s@.len(),
            None => spec_tables(s@, i as int, sep) is None,
        },
{
    let (first, mut e) = match table_at(s, i) {
        Some(r) => r,
        None => {
            return None;
        },
    };
    let mut out: Vec<Table> = Vec::new();
    out.push(first);
    loop
        invariant
            i < e <= s@.len(),
            spec_tables(s@, i as int, sep) == Some((
                out@.map_values(|t: Table| t@) + tables_rest(s@, e as int, sep).0,
                tables_rest(s@, e as int, sep).1,
            )),
        decreases s@.len() - e,
    {
        let j = match punct_at(s, e, sep) {
            Some(j) => j,
            None => {
                assert(out@.map_values(|t: Table| t@) + seq![] =~= out@.map_values(
                    |t: Table| t@,
                ));
                return Some((out, e));
            },
        };
        match table_at(s, j) {
            Some((t, f)) => {
                let ghost before = out@.map_values(|t: Table| t@);
                let ghost tail = tables_rest(s@, f as int, sep).0;
                out.push(t);
                assert(out@.map_values(|t: Table| t@) =~= before.push(t@));
                assert(before + (seq![t@] + tail) =~= before.push(t@) + tail);
                e = f;
            },
            None => {
                assert(out@.map_values(|t: Table| t@) + seq![] =~= out@.map_values(
                    |t: Table| t@,
                ));
                return Some((out, e));
            },
        }
    }
}

/// Parses a table name at the start of `i`.
pub fn table(i: &str) -> (r: Result<(&str, Table), ParseError>)
    ensures
        match spec_ident(i@, 0) {
            Some((v, e)) => r matches Ok((rest, x)) && x@ == v && rest@ == i@.subrange(
                e,
                i@.len() as int,
            ),
            None => r matches Err(err) && err.pos == 0,
        },
{
    let s = to_chars(i);
    match table_at(&s, 0) {
        Some((v, e)) => Ok((i.substring_char(e, s.len()), v)),
        None => Err(ParseError { pos: 0 }),
    }
}

/// Parses one or more comma-separated table names at the start of `i`.
pub fn tables(i: &str) -> (r: Result<(&str, Tables), ParseError>)
    ensures
        match spec_tables(i@, 0, ',') {
            Some((v, e)) => r matches Ok((rest, x)) && x@ == v && rest@ == i@.subrange(
                e,
                i@.len() as int,
            ),
            None => r matches Err(err) && err.pos == 0,
        },
{
    let s = to_chars(i);
    match tables_at(&s, 0, ',') {
        Some((v, e)) => Ok((i.substring_char(e, s.len()), Tables(v))),
        None => Err(ParseError { pos: 0 }),
    }
}

} // verus!
