//! Identities: the names under which parties own deposits.

use crate::store::key_fits;
use vstd::prelude::*;
use vstd::string::*;

verus! {

/// The name of a party, short enough to be part of a key of the ledger.
#[derive(Debug, PartialEq, Eq)]
pub struct Identity {
    name: String,
}

impl View for Identity {
    type V = Seq<char>;

    closed spec fn view(&self) -> Seq<char> {
        self.name@
    }
}

impl Identity {
    #[verifier::type_invariant]
    spec fn short_enough(&self) -> bool {
        key_fits(self.name@)
    }

    /// The identity with the given name, unless the name is too long.
    pub fn new(name: &str) -> (made: Option<Identity>)
        ensures
            made is Some <==> key_fits(name@),
            made is Some ==> made->0@ == name@,
    {
        if name.as_bytes().len() <= 0xFFFF {
            Some(Identity { name: name.to_owned() })
        } else {
            None
        }
    }

    /// The name.
    pub fn as_str(&self) -> (name: &str)
        ensures
            name@ == self@,
            key_fits(name@),
    {
        proof {
            use_type_invariant(self);
        }
        self.name.as_str()
    }

    /// The name, as a text of its own.
    pub fn to_text(&self) -> (name: String)
        ensures
            name@ == self@,
            key_fits(name@),
    {
        proof {
            use_type_invariant(self);
        }
        self.name.clone()
    }
}

impl Clone for Identity {
    fn clone(&self) -> (copy: Self)
        ensures
            copy@ == self@,
    {
        proof {
            use_type_invariant(self);
        }
        Identity { name: self.name.clone() }
    }
}

} // verus!
