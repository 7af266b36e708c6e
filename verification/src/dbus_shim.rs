//! The few D-Bus argument types that the gatherer's types name where there
//! is no D-Bus.
use vstd::prelude::*;

verus! {

/// The kind of a D-Bus argument.
#[derive(Clone, Copy, Debug, PartialEq, Eq, Structural)]
pub enum ArgType {
    Struct,
    Array,
    Variant,
    DictEntry,
    String,
    ObjectPath,
    Signature,
    Unix,
    Boolean,
    Byte,
    Int16,
    UInt16,
    Int32,
    UInt32,
    Int64,
    UInt64,
    Double,
    Invalid,
}

/// A D-Bus type signature; it carries nothing where there is no D-Bus.
#[derive(Clone, Copy, Debug, PartialEq, Eq, Structural)]
pub struct Signature;

impl Signature {
    /// The signature of a signature text; every text gives the same
    /// (empty) signature.
    pub fn from(s: &str) -> (r: Signature)
        ensures
            r == Signature,
    {
        Signature
    }
}

/// Where arguments are appended; it holds nothing where there is no D-Bus.
pub struct IterAppend;

/// A D-Bus argument of any type.
pub trait RefArg {
}

} // verus!
