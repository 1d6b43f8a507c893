//! The ciphertext envelope: opaque engine ciphertext bytes plus a width tag.

use vstd::prelude::*;

verus! {

/// Lane width of the unsigned integer a ciphertext encrypts. A closed
/// enumeration; its wire ordinal and symbolic name are fixed by the schema.
#[derive(Clone, Copy, PartialEq, Eq, Structural, Debug)]
pub enum EncryptedType {
    Uint8,
    Uint16,
    Uint32,
    Uint64,
    Uint128,
    Uint256,
}

impl EncryptedType {
    /// Ordinal assigned to this width by the binary wire schema.
    pub open spec fn spec_ordinal(self) -> int {
        match self {
            EncryptedType::Uint8 => 0,
            EncryptedType::Uint16 => 1,
            EncryptedType::Uint32 => 2,
            EncryptedType::Uint64 => 3,
            EncryptedType::Uint128 => 4,
            EncryptedType::Uint256 => 5,
        }
    }

    /// The width decoded from a wire ordinal; unknown ordinals are rejected.
    pub open spec fn spec_from_ordinal(n: int) -> Option<EncryptedType> {
        if n == 0 {
            Some(EncryptedType::Uint8)
        } else if n == 1 {
            Some(EncryptedType::Uint16)
        } else if n == 2 {
            Some(EncryptedType::Uint32)
        } else if n == 3 {
            Some(EncryptedType::Uint64)
        } else if n == 4 {
            Some(EncryptedType::Uint128)
        } else if n == 5 {
            Some(EncryptedType::Uint256)
        } else {
            None
        }
    }

    /// Number of plaintext bytes a value of this width occupies.
    pub open spec fn spec_byte_len(self) -> int {
        match self {
            EncryptedType::Uint8 => 1,
            EncryptedType::Uint16 => 2,
            EncryptedType::Uint32 => 4,
            EncryptedType::Uint64 => 8,
            EncryptedType::Uint128 => 16,
            EncryptedType::Uint256 => 32,
        }
    }

    /// Symbolic name of the width, as the schema spells it.
    pub open spec fn spec_str_name(self) -> Seq<char> {
        match self {
            EncryptedType::Uint8 => "Uint8"@,
            EncryptedType::Uint16 => "Uint16"@,
            EncryptedType::Uint32 => "Uint32"@,
            EncryptedType::Uint64 => "Uint64"@,
            EncryptedType::Uint128 => "Uint128"@,
            EncryptedType::Uint256 => "Uint256"@,
        }
    }

    /// The width whose symbolic name is `s`, if any.
    pub open spec fn spec_from_str_name(s: Seq<char>) -> Option<EncryptedType> {
        if s == "Uint8"@ {
            Some(EncryptedType::Uint8)
        } else if s == "Uint16"@ {
            Some(EncryptedType::Uint16)
        } else if s == "Uint32"@ {
            Some(EncryptedType::Uint32)
        } else if s == "Uint64"@ {
            Some(EncryptedType::Uint64)
        } else if s == "Uint128"@ {
            Some(EncryptedType::Uint128)
        } else if s == "Uint256"@ {
            Some(EncryptedType::Uint256)
        } else {
            None
        }
    }

    pub fn ordinal(&self) -> (r: u64)
        ensures
            r == self.spec_ordinal(),
    {
        match self {
            EncryptedType::Uint8 => 0,
            EncryptedType::Uint16 => 1,
            EncryptedType::Uint32 => 2,
            EncryptedType::Uint64 => 3,
            EncryptedType::Uint128 => 4,
            EncryptedType::Uint256 => 5,
        }
    }

    pub fn from_ordinal(n: u64) -> (r: Option<EncryptedType>)
        ensures
            r == Self::spec_from_ordinal(n as int),
    {
        if n == 0 {
            Some(EncryptedType::Uint8)
        } else if n == 1 {
            Some(EncryptedType::Uint16)
        } else if n == 2 {
            Some(EncryptedType::Uint32)
        } else if n == 3 {
            Some(EncryptedType::Uint64)
        } else if n == 4 {
            Some(EncryptedType::Uint128)
        } else if n == 5 {
            Some(EncryptedType::Uint256)
        } else {
            None
        }
    }

    pub fn byte_len(&self) -> (r: usize)
        ensures
            r == self.spec_byte_len(),
    {
        match self {
            EncryptedType::Uint8 => 1,
            EncryptedType::Uint16 => 2,
            EncryptedType::Uint32 => 4,
            EncryptedType::Uint64 => 8,
            EncryptedType::Uint128 => 16,
            EncryptedType::Uint256 => 32,
        }
    }

    /// String value of the enum field names used in the wire schema.
    pub fn as_str_name(&self) -> (r: &'static str)
        ensures
            r@ == self.spec_str_name(),
    {
        match self {
            EncryptedType::Uint8 => "Uint8",
            EncryptedType::Uint16 => "Uint16",
            EncryptedType::Uint32 => "Uint32",
            EncryptedType::Uint64 => "Uint64",
            EncryptedType::Uint128 => "Uint128",
            EncryptedType::Uint256 => "Uint256",
        }
    }

    /// Creates an enum value from the field names used in the wire schema.
    pub fn from_str_name(value: &str) -> (r: Option<EncryptedType>)
        ensures
            r == Self::spec_from_str_name(value@),
    {
        if crate::textutil::str_eq(value, "Uint8") {
            Some(EncryptedType::Uint8)
        } else if crate::textutil::str_eq(value, "Uint16") {
            Some(EncryptedType::Uint16)
        } else if crate::textutil::str_eq(value, "Uint32") {
            Some(EncryptedType::Uint32)
        } else if crate::textutil::str_eq(value, "Uint64") {
            Some(EncryptedType::Uint64)
        } else if crate::textutil::str_eq(value, "Uint128") {
            Some(EncryptedType::Uint128)
        } else if crate::textutil::str_eq(value, "Uint256") {
            Some(EncryptedType::Uint256)
        } else {
            None
        }
    }
}

/// Name and ordinal round-trips: each width is recovered from its own
/// symbolic name and from its own wire ordinal.
pub proof fn lemma_width_name_roundtrip(w: EncryptedType)
    ensures
        EncryptedType::spec_from_str_name(w.spec_str_name()) == Some(w),
        EncryptedType::spec_from_ordinal(w.spec_ordinal()) == Some(w),
{
    reveal_strlit("Uint8");
    reveal_strlit("Uint16");
    reveal_strlit("Uint32");
    reveal_strlit("Uint64");
    reveal_strlit("Uint128");
    reveal_strlit("Uint256");
    assert("Uint8"@.len() == 5);
    assert("Uint16"@.len() == 6);
    assert("Uint128"@.len() == 7);
    assert("Uint16"@[4] == '1');
    assert("Uint32"@[4] == '3');
    assert("Uint64"@[4] == '6');
    assert("Uint128"@[4] == '1');
    assert("Uint256"@[4] == '2');
}

/// Wire representation of an encrypted value: opaque payload bytes produced
/// by the engine, tagged with the width of the plaintext they encrypt.
#[derive(Debug)]
pub struct FheEncrypted {
    pub data: Vec<u8>,
    pub width: EncryptedType,
}

/// Mathematical model of an envelope: the payload as a byte sequence plus
/// the width tag.
pub struct EnvelopeModel {
    pub data: Seq<u8>,
    pub width: EncryptedType,
}

impl View for FheEncrypted {
    type V = EnvelopeModel;

    open spec fn view(&self) -> EnvelopeModel {
        EnvelopeModel { data: self.data@, width: self.width }
    }
}

impl Clone for FheEncrypted {
    fn clone(&self) -> (r: Self)
        ensures
            r@ == self@,
    {
        FheEncrypted { data: self.data.clone(), width: self.width }
    }
}

impl EnvelopeModel {
    /// An envelope is shaped for the engine when its payload length matches
    /// the declared width.
    pub open spec fn well_sized(self) -> bool {
        self.data.len() == self.width.spec_byte_len()
    }
}

} // verus!
