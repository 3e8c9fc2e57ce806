//! Small SDK-level types: hex-string block identifiers and configuration
//! defaults.

use vstd::prelude::*;
use crate::ProofError;
use crate::encoding::{
    base64_encode, base64_encoding, bytes_of_hex, hex_encode, hex_seq_of, valid_hex_seq,
};

verus! {

/// The workchain id of the masterchain.
pub const MASTERCHAIN_ID: i32 = -1;

/// The workchain messages go to unless configured otherwise.
pub fn default_workchain() -> (r: i32)
    ensures
        r == 0,
{
    0
}

/// The default message expiration timeout, in milliseconds.
pub fn default_message_expiration_timeout() -> (r: u32)
    ensures
        r == 40000,
{
    40000
}

/// An entity identifier kept as a hex string, e.g. a block id.
#[derive(Clone, Debug)]
pub struct StringId(String);

/// A block is identified by its root hash rendered in hex.
pub type BlockId = StringId;

impl View for StringId {
    type V = Seq<char>;

    closed spec fn view(&self) -> Seq<char> {
        self.0@
    }
}

impl Default for StringId {
    fn default() -> (r: StringId)
        ensures
            r@ == Seq::<char>::empty(),
    {
        StringId(String::new())
    }
}

impl PartialEq for StringId {
    fn eq(&self, other: &StringId) -> (r: bool) {
        self.0 == other.0
    }
}

impl vstd::std_specs::cmp::PartialEqSpecImpl for StringId {
    open spec fn obeys_eq_spec() -> bool {
        true
    }

    open spec fn eq_spec(&self, other: &StringId) -> bool {
        self@ == other@
    }
}

impl From<String> for StringId {
    fn from(id: String) -> (r: StringId) {
        StringId(id)
    }
}

impl vstd::std_specs::convert::FromSpecImpl<String> for StringId {
    open spec fn obeys_from_spec() -> bool {
        true
    }

    closed spec fn from_spec(id: String) -> StringId {
        StringId(id)
    }
}

impl From<&str> for StringId {
    fn from(id: &str) -> (r: StringId) {
        StringId(String::from_str(id))
    }
}

impl vstd::std_specs::convert::FromSpecImpl<&str> for StringId {
    open spec fn obeys_from_spec() -> bool {
        false
    }

    closed spec fn from_spec(id: &str) -> StringId {
        arbitrary()
    }
}

impl From<Vec<u8>> for StringId {
    fn from(id: Vec<u8>) -> (r: StringId) {
        StringId::from_hex_of(id.as_slice())
    }
}

impl vstd::std_specs::convert::FromSpecImpl<Vec<u8>> for StringId {
    open spec fn obeys_from_spec() -> bool {
        false
    }

    closed spec fn from_spec(id: Vec<u8>) -> StringId {
        arbitrary()
    }
}

impl From<&[u8]> for StringId {
    fn from(id: &[u8]) -> (r: StringId) {
        StringId::from_hex_of(id)
    }
}

impl vstd::std_specs::convert::FromSpecImpl<&[u8]> for StringId {
    open spec fn obeys_from_spec() -> bool {
        false
    }

    closed spec fn from_spec(id: &[u8]) -> StringId {
        arbitrary()
    }
}

impl StringId {
    /// The identifier of a raw byte string: its lowercase hex rendering.
    pub fn from_hex_of(bytes: &[u8]) -> (r: StringId)
        ensures
            r@ == hex_seq_of(bytes@),
    {
        StringId(hex_encode(bytes))
    }

    /// The identifier as a plain string.
    pub fn to_string(&self) -> (r: String)
        ensures
            r@ == self@,
    {
        self.0.clone()
    }

    /// The identified bytes, re-encoded in base64.  Fails exactly when the
    /// identifier is not a valid hex string.
    pub fn to_base64(&self) -> (r: Result<String, ProofError>)
        ensures
            r is Ok <==> valid_hex_seq(self@),
            r matches Ok(s) ==> s@ == base64_encoding(bytes_of_hex(self@)),
            r matches Err(e) ==> e == ProofError::InvalidData,
    {
        let bytes = self.to_bytes()?;
        Ok(base64_encode(bytes.as_slice()))
    }

    /// The bytes the hex identifier denotes.  Fails exactly when the
    /// identifier is not a valid hex string.
    pub fn to_bytes(&self) -> (r: Result<Vec<u8>, ProofError>)
        ensures
            r is Ok <==> valid_hex_seq(self@),
            r matches Ok(b) ==> b@ == bytes_of_hex(self@),
            r matches Err(e) ==> e == ProofError::InvalidData,
    {
        match crate::encoding::hex_decode(self.0.as_str()) {
            Ok(b) => Ok(b),
            Err(_) => Err(ProofError::InvalidData),
        }
    }
}

/// Converts an amount of grams to a plain `u64`, failing exactly when the
/// amount does not fit.
pub fn grams_to_u64(grams: u128) -> (r: Result<u64, ProofError>)
    ensures
        grams <= u64::MAX ==> (r matches Ok(v) && v == grams),
        grams > u64::MAX ==> (r matches Err(e) && e == ProofError::InvalidData),
{
    if grams <= 0xffff_ffff_ffff_ffffu128 {
        Ok(grams as u64)
    } else {
        Err(ProofError::InvalidData)
    }
}

} // verus!
