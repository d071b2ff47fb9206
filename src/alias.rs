use vstd::prelude::*;

verus! {

/// How the name of a generated function is derived from the name of a stored one.
#[derive(Debug, PartialEq, Eq)]
pub enum Alias {
    /// The name as it is.
    AsIs,
    /// The name after this prefix.
    Prefix(String),
    /// The name before this suffix.
    Suffix(String),
}

impl Alias {
    /// The name that this alias derives from `name`.
    pub fn transform(&self, name: &str) -> (r: String)
        ensures
            r@ == match self {
                Alias::AsIs => name@,
                Alias::Prefix(p) => p@ + name@,
                Alias::Suffix(s) => name@ + s@,
            },
    {
        match self {
            Alias::AsIs => name.to_string(),
            Alias::Prefix(prefix) => {
                let mut out = prefix.clone();
                out.append(name);
                out
            },
            Alias::Suffix(suffix) => {
                let mut out = name.to_string();
                out.append(suffix.as_str());
                out
            },
        }
    }
}

} // verus!
