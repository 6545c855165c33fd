//! The immutable descriptor record of the token: set once at
//! initialization, read thereafter, never mutated.

use vstd::prelude::*;

verus! {

/// The token's descriptor: format tag, display names, optional icon, and an
/// optional off-ledger reference with its content hash.
pub struct Metadata {
    pub spec_version: String,
    pub name: String,
    pub symbol: String,
    pub icon: Option<String>,
    pub reference: Option<String>,
    pub reference_hash: Option<Vec<u8>>,
    pub decimals: u8,
}

impl Metadata {
    /// A well-formed descriptor: the format tag matches, and an off-ledger
    /// reference comes together with its 32-byte hash or not at all.
    pub open spec fn valid(self) -> bool {
        &&& self.spec_version@ == "ft-1.0.0"@
        &&& self.reference is Some == self.reference_hash is Some
        &&& (self.reference_hash matches Some(h) ==> h@.len() == 32)
    }

    pub fn is_valid(&self) -> (r: bool)
        ensures
            r == self.valid(),
    {
        let tag_ok = self.spec_version == "ft-1.0.0".to_owned();
        let ref_ok = match (&self.reference, &self.reference_hash) {
            (Some(_), Some(h)) => h.len() == 32,
            (None, None) => true,
            _ => false,
        };
        tag_ok && ref_ok
    }

    /// The descriptor installed by the convenience constructor.
    pub fn new_default() -> (m: Metadata)
        ensures
            m.valid(),
            m.spec_version@ == "ft-1.0.0"@,
            m.name@ == "D fungible token"@,
            m.symbol@ == "D"@,
            m.icon is None,
            m.reference is None,
            m.reference_hash is None,
            m.decimals == 24,
    {
        Metadata {
            spec_version: "ft-1.0.0".to_owned(),
            name: "D fungible token".to_owned(),
            symbol: "D".to_owned(),
            icon: None,
            reference: None,
            reference_hash: None,
            decimals: 24,
        }
    }
}

} // verus!
