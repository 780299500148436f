//! Identifiers: the names of types, fields and variants.

use vstd::prelude::*;
use vstd::string::StringExecFns;

verus! {

/// Why a text is no identifier.
#[derive(PartialEq, Eq, Copy, Clone, Debug, Structural)]
pub enum InvalidIdent {
    /// The text is empty.
    Empty,
    /// The text starts with this character, which is neither a letter nor an
    /// underscore.
    NonAlphabetic(char),
    /// The text holds this character, which is no letter, digit or underscore.
    InvalidChar(char),
}

/// Whether an identifier may start with `c`: an ASCII letter or an underscore.
pub open spec fn is_ident_start(c: char) -> bool {
    ('a' <= c && c <= 'z') || ('A' <= c && c <= 'Z') || c == '_'
}

/// Whether an identifier may hold `c`: an ASCII letter or digit, or an underscore.
pub open spec fn is_ident_char(c: char) -> bool {
    is_ident_start(c) || ('0' <= c && c <= '9')
}

/// The first character of `text` at or after `from` that an identifier may not hold.
pub open spec fn first_invalid_char(text: Seq<char>, from: nat) -> Option<char>
    decreases text.len() - from,
{
    if from >= text.len() {
        None
    } else if !is_ident_char(text[from as int]) {
        Some(text[from as int])
    } else {
        first_invalid_char(text, from + 1)
    }
}

/// What keeps `text` from being an identifier, if anything does.
pub open spec fn ident_failure(text: Seq<char>) -> Option<InvalidIdent> {
    if text.len() == 0 {
        Some(InvalidIdent::Empty)
    } else if !is_ident_start(text[0]) {
        Some(InvalidIdent::NonAlphabetic(text[0]))
    } else {
        match first_invalid_char(text, 1) {
            Some(c) => Some(InvalidIdent::InvalidChar(c)),
            None => None,
        }
    }
}

/// Whether `text` is an identifier: not empty, made of ASCII letters, digits
/// and underscores, and not starting with a digit.
pub open spec fn is_ident(text: Seq<char>) -> bool {
    ident_failure(text) is None
}

/// A name of a type, a field or a variant.
#[derive(PartialEq, Eq, Clone, Debug, Hash)]
pub struct Ident {
    name: String,
}

/// The name of a field or of a variant.
pub type FieldName = Ident;

/// The name of a type.
pub type TypeName = Ident;

fn ident_start(c: char) -> (b: bool)
    ensures
        b == is_ident_start(c),
{
    (c >= 'a' && c <= 'z') || (c >= 'A' && c <= 'Z') || c == '_'
}

fn ident_char(c: char) -> (b: bool)
    ensures
        b == is_ident_char(c),
{
    ident_start(c) || (c >= '0' && c <= '9')
}

impl Ident {
    /// The characters of the name.
    pub closed spec fn view(&self) -> Seq<char> {
        self.name@
    }

    /// Takes a name written in the program as it stands.
    pub fn from_static(name: &'static str) -> (id: Ident)
        ensures
            id@ == name@,
    {
        Ident { name: String::from_str(name) }
    }

    /// Checks that `name` is an identifier and takes it.
    pub fn try_from(name: String) -> (r: Result<Ident, InvalidIdent>)
        ensures
            is_ident(name@) ==> r is Ok && r->Ok_0@ == name@,
            !is_ident(name@) ==> r is Err && Some(r->Err_0) == ident_failure(name@),
    {
        let len = name.as_str().unicode_len();
        if len == 0 {
            return Err(InvalidIdent::Empty);
        }
        let first = name.as_str().get_char(0);
        if !ident_start(first) {
            return Err(InvalidIdent::NonAlphabetic(first));
        }
        let mut i: usize = 1;
        while i < len
            invariant
                1 <= i <= len,
                len == name@.len(),
                is_ident_start(name@[0]),
                first_invalid_char(name@, 1) == first_invalid_char(name@, i as nat),
            decreases len - i,
        {
            let c = name.as_str().get_char(i);
            assert(first_invalid_char(name@, i as nat) == if is_ident_char(c) {
                first_invalid_char(name@, (i + 1) as nat)
            } else {
                Some(c)
            });
            if !ident_char(c) {
                return Err(InvalidIdent::InvalidChar(c));
            }
            i = i + 1;
        }
        assert(first_invalid_char(name@, len as nat) is None);
        Ok(Ident { name })
    }

    /// The name as text.
    pub fn as_str(&self) -> (s: &str)
        ensures
            s@ == self@,
    {
        self.name.as_str()
    }

    /// A copy of the name.
    pub fn to_string(&self) -> (s: String)
        ensures
            s@ == self@,
    {
        self.name.clone()
    }

    /// A copy of the identifier.
    pub fn duplicate(&self) -> (id: Ident)
        ensures
            id@ == self@,
    {
        Ident { name: self.name.clone() }
    }

    /// Whether two identifiers are the same name.
    pub fn same(&self, other: &Ident) -> (b: bool)
        ensures
            b == (self@ == other@),
    {
        self.name == other.name
    }
}

} // verus!
