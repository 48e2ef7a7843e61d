use crate::error::plain;
use crate::error::Error;
use crate::error::ErrorKind;
use crate::parser::Pair;
use crate::parser::Rule;
use vstd::prelude::*;

verus! {

/// The types of Micro-C.
#[derive(Debug, PartialEq, Eq)]
pub enum CType {
    Int,
    Float,
    Str,
    Ptr(Box<CType>),
    Void,
}

impl Clone for CType {
    fn clone(&self) -> (res: Self)
        ensures
            res == *self,
        decreases *self,
    {
        match self {
            CType::Int => CType::Int,
            CType::Float => CType::Float,
            CType::Str => CType::Str,
            CType::Ptr(t) => CType::Ptr(Box::new((**t).clone())),
            CType::Void => CType::Void,
        }
    }
}

impl View for CType {
    type V = CType;

    open spec fn view(&self) -> CType {
        *self
    }
}

/// The type that a base type becomes under the pointer marks from `pos` on;
/// anything but a pointer mark there cannot stand.
pub open spec fn pointers(base: CType, tokens: Seq<Pair>, pos: int) -> Result<CType, ErrorKind>
    decreases tokens.len() - pos,
{
    if pos < 0 || pos >= tokens.len() {
        Ok(base)
    } else if tokens[pos].rule is Ptr {
        pointers(CType::Ptr(Box::new(base)), tokens, pos + 1)
    } else {
        Err(ErrorKind::Other)
    }
}

/// The type that the tokens of a type write: `int`, `float` or `void`, then
/// one pointer mark for each level of pointer.
pub open spec fn base_type(tokens: Seq<Pair>) -> Result<CType, ErrorKind> {
    if tokens.len() == 0 {
        Err(ErrorKind::PairsNext)
    } else {
        match tokens[0].rule {
            Rule::Int => pointers(CType::Int, tokens, 1),
            Rule::Float => pointers(CType::Float, tokens, 1),
            Rule::Void => pointers(CType::Void, tokens, 1),
            _ => Err(ErrorKind::Other),
        }
    }
}

impl CType {
    /// Reads a type from its tokens.
    pub fn from_base_type(pairs: &Vec<Pair>) -> (r: Result<CType, Error>)
        ensures
            plain(r) == base_type(pairs@),
    {
        if pairs.len() == 0 {
            return Err(Error::PairsNext);
        }
        let mut ty = match pairs[0].rule {
            Rule::Int => CType::Int,
            Rule::Float => CType::Float,
            Rule::Void => CType::Void,
            _ => {
                return Err(
                    Error::Other(String::from_str("from_base_type: expected base_type, found other")),
                );
            },
        };
        let mut pos: usize = 1;
        while pos < pairs.len()
            invariant
                1 <= pos <= pairs@.len(),
                base_type(pairs@) == pointers(ty, pairs@, pos as int),
            decreases pairs@.len() - pos,
        {
            match pairs[pos].rule {
                Rule::Ptr => {
                    ty = CType::Ptr(Box::new(ty));
                },
                _ => {
                    return Err(
                        Error::Other(String::from_str("from_base_type: expected ptr, found other")),
                    );
                },
            }
            pos += 1;
        }
        Ok(ty)
    }

    /// The type that a pointer of this type points to; a type error for any
    /// type but a pointer.
    pub open spec fn pointee(self) -> Result<CType, ErrorKind> {
        match self {
            CType::Ptr(t) => Ok(*t),
            _ => Err(ErrorKind::Type),
        }
    }

    /// The type that a pointer of this type points to.
    pub fn dereference(self) -> (r: Result<CType, Error>)
        ensures
            crate::error::plain(r) == self.pointee(),
    {
        match self {
            CType::Ptr(t) => Ok(*t),
            _ => Err(Error::Type),
        }
    }

    /// Whether a value of this type may take part in arithmetic conversion.
    pub open spec fn mutable(&self) -> bool {
        self is Int || self is Float || self is Ptr
    }

    /// Whether a value of this type may take part in arithmetic conversion.
    #[verifier::when_used_as_spec(mutable)]
    pub fn is_mutable(&self) -> (b: bool)
        ensures
            b == self.mutable(),
    {
        match self {
            CType::Int | CType::Float | CType::Ptr(_) => true,
            _ => false,
        }
    }

    /// Structural equality of two types.
    pub fn same(&self, other: &CType) -> (b: bool)
        ensures
            b == (*self == *other),
        decreases *self,
    {
        match (self, other) {
            (CType::Int, CType::Int) => true,
            (CType::Float, CType::Float) => true,
            (CType::Str, CType::Str) => true,
            (CType::Void, CType::Void) => true,
            (CType::Ptr(a), CType::Ptr(b)) => a.same(b),
            _ => false,
        }
    }
}

} // verus!
