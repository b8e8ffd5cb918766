//! Email addresses.

use crate::outside::parse_address;
use vstd::prelude::*;

verus! {

/// An email address that the mail system accepts, kept as it was written.
#[derive(Debug)]
pub struct Address {
    text: String,
}

impl View for Address {
    type V = Seq<char>;

    closed spec fn view(&self) -> Seq<char> {
        self.text@
    }
}

impl Address {
    #[verifier::type_invariant]
    spec fn accepted(self) -> bool {
        crate::outside::address_fault(self@) is None
    }

    /// Reads an address from `text`, which has to have an `@`.
    pub fn parse(text: &str) -> (parsed: Result<Self, lettre::address::AddressError>)
        ensures
            parsed matches Ok(address) ==> crate::outside::address_fault(text@) is None && address@
                == text@,
            parsed matches Err(fault) ==> crate::outside::address_fault(text@) == Some(fault),
            parsed is Ok ==> text@.contains('@'),
    {
        match parse_address(text) {
            Ok(text) => Ok(Address { text }),
            Err(fault) => Err(fault),
        }
    }

    /// The address as it was written, which the parser accepts.
    pub fn as_str(&self) -> (text: &str)
        ensures
            text@ == self@,
            crate::outside::address_fault(self@) is None,
    {
        proof {
            use_type_invariant(self);
        }
        self.text.as_str()
    }

    /// Whether two addresses are the same.
    pub fn same(&self, other: &Self) -> (same: bool)
        ensures
            same == (self@ == other@),
    {
        self.text == other.text
    }
}

impl Clone for Address {
    fn clone(&self) -> (copy: Self)
        ensures
            copy == *self,
    {
        proof {
            use_type_invariant(self);
        }
        Address { text: self.text.clone() }
    }
}

/// An address reads as the text it was parsed from, two of them are the same
/// exactly if their texts are, and only a text with an `@` is one.
pub proof fn law_address_is_its_text(
    text: &str,
    parsed: Result<Address, lettre::address::AddressError>,
    written: &str,
    other: Address,
    same: bool,
)
    requires
        call_ensures(Address::parse, (text,), parsed),
        parsed is Ok ==> call_ensures(Address::as_str, (&parsed->Ok_0,), written),
        parsed is Ok ==> call_ensures(Address::same, (&parsed->Ok_0, &other), same),
    ensures
        parsed is Ok ==> written@ == text@ && (same <==> other@ == text@) && text@.contains('@'),
        parsed is Err ==> crate::outside::address_fault(text@) == Some(parsed->Err_0),
        parsed is Ok <==> crate::outside::address_fault(text@) is None,
{
}

} // verus!
