use vstd::prelude::*;
use vstd::std_specs::iter::IteratorSpec;

verus! {

broadcast use vstd::std_specs::vec::group_vec_axioms;

/// Relies on `String::push`: the character is appended at the end.
pub assume_specification[ std::string::String::push ](s: &mut std::string::String, ch: char)
    ensures
        final(s)@ == old(s)@.push(ch),
;

/// The classes of characters that the grammar reads in runs.
#[derive(Clone, Copy, PartialEq, Eq, Debug)]
pub enum CharClass {
    /// Space, tab, carriage return or line feed.
    Space,
    /// ASCII letters, ASCII digits and `_`.
    IdentChar,
    /// ASCII digits.
    Digit,
    /// `;`.
    Semicolon,
    /// Anything but `}`.
    NotCloseBrace,
    /// Anything but `⟩`.
    NotCloseBracket,
    /// Anything but carriage return and line feed.
    NotLineEnd,
    /// Anything but `$`.
    NotDollar,
}

pub open spec fn is_space(c: char) -> bool {
    c == ' ' || c == '\t' || c == '\r' || c == '\n'
}

pub open spec fn is_digit(c: char) -> bool {
    '0' <= c && c <= '9'
}

/// Whether `c` may appear in an unquoted identifier.
pub open spec fn is_ident_char(c: char) -> bool {
    ('a' <= c && c <= 'z') || ('A' <= c && c <= 'Z') || is_digit(c) || c == '_'
}

pub open spec fn in_class(cls: CharClass, c: char) -> bool {
    match cls {
        CharClass::Space => is_space(c),
        CharClass::IdentChar => is_ident_char(c),
        CharClass::Digit => is_digit(c),
        CharClass::Semicolon => c == ';',
        CharClass::NotCloseBrace => c != '}',
        CharClass::NotCloseBracket => c != '⟩',
        CharClass::NotLineEnd => c != '\r' && c != '\n',
        CharClass::NotDollar => c != '$',
    }
}

/// The end of the longest run of characters of `cls` that starts at `i`.
pub open spec fn run_end(s: Seq<char>, i: int, cls: CharClass) -> int
    decreases s.len() - i,
{
    if 0 <= i < s.len() && in_class(cls, s[i]) {
        run_end(s, i + 1, cls)
    } else {
        i
    }
}

/// Whether `s` holds `w` at position `i`.
pub open spec fn has_at(s: Seq<char>, i: int, w: Seq<char>) -> bool {
    0 <= i && i + w.len() <= s.len() && s.subrange(i, i + w.len()) == w
}

/// Whether `c` is the lower-case ASCII letter `k`, or its upper-case form.
pub open spec fn same_letter_ci(c: char, k: char) -> bool {
    c == k || ('a' <= k && k <= 'z' && (c as u32) == (k as u32) - 32)
}

/// Whether the letters of `s` from `i` on are those of the lower-case `w`, in any case.
#[verifier::opaque]
pub open spec fn letters_match_ci(s: Seq<char>, i: int, w: Seq<char>) -> bool {
    forall|k: int| 0 <= k < w.len() ==> #[trigger] same_letter_ci(s[i + k], w[k])
}

/// Whether `s` holds the lower-case keyword `w` at `i`, in any case.
pub open spec fn has_at_ci(s: Seq<char>, i: int, w: Seq<char>) -> bool {
    0 <= i && i + w.len() <= s.len() && letters_match_ci(s, i, w)
}

/// White space as the Unicode property White_Space defines it.
pub open spec fn is_white_space(c: char) -> bool {
    ('\u{9}' <= c && c <= '\u{d}') || c == ' ' || c == '\u{85}' || c == '\u{a0}' || c == '\u{1680}'
        || ('\u{2000}' <= c && c <= '\u{200a}') || c == '\u{2028}' || c == '\u{2029}' || c
        == '\u{202f}' || c == '\u{205f}' || c == '\u{3000}'
}

pub open spec fn trim_start(x: Seq<char>) -> Seq<char>
    decreases x.len(),
{
    if x.len() > 0 && is_white_space(x[0]) {
        trim_start(x.drop_first())
    } else {
        x
    }
}

pub open spec fn trim_end(x: Seq<char>) -> Seq<char>
    decreases x.len(),
{
    if x.len() > 0 && is_white_space(x.last()) {
        trim_end(x.drop_last())
    } else {
        x
    }
}

/// `x` without its leading and trailing white space.
pub open spec fn trim(x: Seq<char>) -> Seq<char> {
    trim_end(trim_start(x))
}

pub fn char_in_class(cls: CharClass, c: char) -> (r: bool)
    ensures
        r == in_class(cls, c),
{
    match cls {
        CharClass::Space => c == ' ' || c == '\t' || c == '\r' || c == '\n',
        CharClass::IdentChar => val_char(c),
        CharClass::Digit => '0' <= c && c <= '9',
        CharClass::Semicolon => c == ';',
        CharClass::NotCloseBrace => c != '}',
        CharClass::NotCloseBracket => c != '⟩',
        CharClass::NotLineEnd => c != '\r' && c != '\n',
        CharClass::NotDollar => c != '$',
    }
}

/// Whether `c` may appear in an unquoted identifier.
pub fn val_char(c: char) -> (r: bool)
    ensures
        r == is_ident_char(c),
{
    ('a' <= c && c <= 'z') || ('A' <= c && c <= 'Z') || ('0' <= c && c <= '9') || c == '_'
}

/// Whether `c` is an ASCII digit.
pub fn is_ascii_digit(c: char) -> (r: bool)
    ensures
        r == is_digit(c),
{
    '0' <= c && c <= '9'
}

/// The end of the run of characters of `cls` that starts at `i`.
pub fn take_run(s: &Vec<char>, i: usize, cls: CharClass) -> (r: usize)
    requires
        i <= s@.len(),
    ensures
        r == run_end(s@, i as int, cls),
        i <= r <= s@.len(),
{
    let mut k = i;
    while k < s.len() && char_in_class(cls, s[k])
        invariant
            i <= k <= s@.len(),
            run_end(s@, k as int, cls) == run_end(s@, i as int, cls),
        decreases s@.len() - k,
    {
        k += 1;
    }
    k
}

/// Whether `s` holds `w` at position `i`.
pub fn tag(s: &Vec<char>, i: usize, w: &[char]) -> (r: bool)
    requires
        i <= s@.len(),
    ensures
        r == has_at(s@, i as int, w@),
{
    if w.len() > s.len() - i {
        return false;
    }
    let mut k: usize = 0;
    while k < w.len()
        invariant
            k <= w@.len(),
            i + w.len() <= s.len(),
            s@.subrange(i as int, i + k) == w@.subrange(0, k as int),
        decreases w@.len() - k,
    {
        if s[i + k] != w[k] {
            assert(s@.subrange(i as int, i + w@.len())[k as int] != w@[k as int]);
            return false;
        }
        assert(s@.subrange(i as int, i + k + 1) =~= w@.subrange(0, k + 1));
        k += 1;
    }
    assert(w@.subrange(0, k as int) =~= w@);
    true
}

/// Whether `s` holds the lower-case keyword `w` at `i`, in any case.
pub fn tag_no_case(s: &Vec<char>, i: usize, w: &[char]) -> (r: bool)
    requires
        i <= s@.len(),
    ensures
        r == has_at_ci(s@, i as int, w@),
{
    reveal(letters_match_ci);
    if w.len() > s.len() - i {
        return false;
    }
    let mut k: usize = 0;
    while k < w.len()
        invariant
            k <= w@.len(),
            i + w.len() <= s.len(),
            forall|m: int| 0 <= m < k ==> #[trigger] same_letter_ci(s@[i + m], w@[m]),
        decreases w@.len() - k,
    {
        let c = s[i + k];
        let l = w[k];
        if !(c == l || ('a' <= l && l <= 'z' && (c as u32) == (l as u32) - 32)) {
            proof {
                reveal(letters_match_ci);
                assert(!same_letter_ci(s@[i + k], w@[k as int]));
            }
            return false;
        }
        k += 1;
    }
    true
}

/// The characters of `s`, in order.
pub fn to_chars(s: &str) -> (r: Vec<char>)
    ensures
        r@ == s@,
{
    broadcast use vstd::string::group_string_axioms;

    let mut out: Vec<char> = Vec::new();
    let mut it = s.chars();
    loop
        invariant
            it.obeys_prophetic_iter_laws(),
            out@ + it.remaining() == s@,
            it.decrease() is Some,
        ensures
            out@ == s@,
        decreases it.decrease()->0,
    {
        match it.next() {
            Some(c) => out.push(c),
            None => {
                assert(out@ + it.remaining() =~= out@);
                break;
            },
        }
    }
    out
}

/// The string made of the characters `v[from..to]`.
pub fn string_from(v: &Vec<char>, from: usize, to: usize) -> (r: String)
    requires
        from <= to <= v@.len(),
    ensures
        r@ == v@.subrange(from as int, to as int),
{
    let mut out = String::new();
    let mut k = from;
    while k < to
        invariant
            from <= k <= to <= v@.len(),
            out@ == v@.subrange(from as int, k as int),
        decreases to - k,
    {
        out.push(v[k]);
        assert(v@.subrange(from as int, k + 1) == v@.subrange(from as int, k as int).push(
            v@[k as int],
        ));
        k += 1;
    }
    out
}

pub fn white_space(c: char) -> (r: bool)
    ensures
        r == is_white_space(c),
{
    ('\u{9}' <= c && c <= '\u{d}') || c == ' ' || c == '\u{85}' || c == '\u{a0}' || c == '\u{1680}'
        || ('\u{2000}' <= c && c <= '\u{200a}') || c == '\u{2028}' || c == '\u{2029}' || c
        == '\u{202f}' || c == '\u{205f}' || c == '\u{3000}'
}

/// The characters `v[from..to]` without leading and trailing white space.
pub fn trimmed(v: &Vec<char>, from: usize, to: usize) -> (r: String)
    requires
        from <= to <= v@.len(),
    ensures
        r@ == trim(v@.subrange(from as int, to as int)),
{
    let ghost x = v@.subrange(from as int, to as int);
    let mut a = from;
    while a < to && white_space(v[a])
        invariant
            from <= a <= to <= v@.len(),
            trim_start(x) == trim_start(v@.subrange(a as int, to as int)),
        decreases to - a,
    {
        assert(v@.subrange(a as int, to as int).drop_first() =~= v@.subrange(a + 1, to as int));
        a += 1;
    }
    assert(trim_start(x) == v@.subrange(a as int, to as int));
    let mut b = to;
    while b > a && white_space(v[b - 1])
        invariant
            from <= a <= b <= to <= v@.len(),
            trim(x) == trim_end(v@.subrange(a as int, b as int)),
        decreases b - a,
    {
        assert(v@.subrange(a as int, b as int).drop_last() =~= v@.subrange(a as int, b - 1));
        b -= 1;
    }
    string_from(v, a, b)
}

} // verus!

verus! {

/// A failed parse. `pos` counts characters from the start of the input: where the
/// production that failed starts, or where the text that could not be read begins.
#[derive(Clone, Copy, Debug, PartialEq, Eq)]
pub struct ParseError {
    pub pos: usize,
}

} // verus!

verus! {

/// The run that `run_end` finds: its bounds, its characters and what stops it.
pub proof fn lemma_run_end(s: Seq<char>, i: int, cls: CharClass)
    requires
        0 <= i <= s.len(),
    ensures
        i <= run_end(s, i, cls) <= s.len(),
        forall|m: int| i <= m < run_end(s, i, cls) ==> in_class(cls, #[trigger] s[m]),
        run_end(s, i, cls) < s.len() ==> !in_class(cls, s[run_end(s, i, cls)]),
    decreases s.len() - i,
{
    if i < s.len() && in_class(cls, s[i]) {
        lemma_run_end(s, i + 1, cls);
    }
}

/// A run of characters of `cls` from `i` that stops at `j` ends there.
pub proof fn lemma_run_end_at(s: Seq<char>, i: int, j: int, cls: CharClass)
    requires
        0 <= i <= j <= s.len(),
        forall|m: int| i <= m < j ==> in_class(cls, #[trigger] s[m]),
        j == s.len() || !in_class(cls, s[j]),
    ensures
        run_end(s, i, cls) == j,
    decreases j - i,
{
    if i < j {
        lemma_run_end_at(s, i + 1, j, cls);
    }
}

/// The string made of the characters of `w`.
pub fn string_of(w: &[char]) -> (r: String)
    ensures
        r@ == w@,
{
    let mut out = String::new();
    let mut k: usize = 0;
    while k < w.len()
        invariant
            k <= w@.len(),
            out@ == w@.subrange(0, k as int),
        decreases w@.len() - k,
    {
        out.push(w[k]);
        assert(w@.subrange(0, k + 1) =~= w@.subrange(0, k as int).push(w@[k as int]));
        k += 1;
    }
    assert(w@.subrange(0, k as int) =~= w@);
    out
}

} // verus!
