//! Encoding types a client may advertise, and their wire codes.

use vstd::prelude::*;

verus! {

/// A way of packing a rectangle, or a pseudo-encoding that carries other data.
#[derive(Debug, Clone, Copy, PartialEq, Eq, Structural, Hash)]
pub enum Encoding {
    Raw,
    Zrle,
    Cursor,
    Other(i32),
}

impl Encoding {
    /// The signed 32-bit code that stands for this encoding on the wire.
    pub open spec fn spec_code(self) -> i32 {
        match self {
            Encoding::Raw => 0,
            Encoding::Zrle => 16,
            Encoding::Cursor => -239i32,
            Encoding::Other(value) => value,
        }
    }

    /// The encoding that a wire code stands for; a code without a name is kept as it is.
    pub open spec fn spec_from_code(value: i32) -> Encoding {
        if value == 0 {
            Encoding::Raw
        } else if value == 16 {
            Encoding::Zrle
        } else if value == -239 {
            Encoding::Cursor
        } else {
            Encoding::Other(value)
        }
    }

    /// True unless the value is `Other` around a code that has a name of its own.
    pub open spec fn canonical(self) -> bool {
        match self {
            Encoding::Other(value) => value != 0 && value != 16 && value != -239,
            _ => true,
        }
    }

    #[verifier::when_used_as_spec(spec_code)]
    pub fn code(self) -> (value: i32)
        ensures
            value == self.spec_code(),
    {
        match self {
            Encoding::Raw => 0,
            Encoding::Zrle => 16,
            Encoding::Cursor => -239,
            Encoding::Other(value) => value,
        }
    }

    #[verifier::when_used_as_spec(spec_from_code)]
    pub fn from_code(value: i32) -> (encoding: Encoding)
        ensures
            encoding == Encoding::spec_from_code(value),
    {
        match value {
            0 => Encoding::Raw,
            16 => Encoding::Zrle,
            -239 => Encoding::Cursor,
            n => Encoding::Other(n),
        }
    }
}

impl From<i32> for Encoding {
    fn from(value: i32) -> (encoding: Encoding) {
        Encoding::from_code(value)
    }
}

impl vstd::std_specs::convert::FromSpecImpl<i32> for Encoding {
    open spec fn obeys_from_spec() -> bool {
        true
    }

    open spec fn from_spec(value: i32) -> Encoding {
        Encoding::spec_from_code(value)
    }
}

impl From<Encoding> for i32 {
    fn from(encoding: Encoding) -> (value: i32) {
        encoding.code()
    }
}

impl vstd::std_specs::convert::FromSpecImpl<Encoding> for i32 {
    open spec fn obeys_from_spec() -> bool {
        true
    }

    open spec fn from_spec(encoding: Encoding) -> i32 {
        encoding.spec_code()
    }
}

/// Every code comes back from the encoding it stands for, and the three
/// named encodings have the codes 0, 16 and -239.
pub proof fn lemma_code_round_trip(code: i32)
    ensures
        Encoding::spec_from_code(code).spec_code() == code,
        Encoding::spec_from_code(code).canonical(),
        Encoding::Raw.spec_code() == 0,
        Encoding::Zrle.spec_code() == 16,
        Encoding::Cursor.spec_code() == -239,
{
}

/// Every encoding comes back from its code, but for `Other` around the code
/// of a named encoding, which comes back as that encoding.
pub proof fn lemma_encoding_round_trip(encoding: Encoding)
    ensures
        encoding.canonical() ==> Encoding::spec_from_code(encoding.spec_code()) == encoding,
        Encoding::spec_from_code(encoding.spec_code()).spec_code() == encoding.spec_code(),
{
}

} // verus!
