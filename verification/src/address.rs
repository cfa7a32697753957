//! Addresses on the internal message bus.

use crate::text::{decimal, push_decimal};
use vstd::prelude::*;
use vstd::string::StringExecFns;
use vstd::string::StringSliceAdditionalSpecFns;

verus! {

broadcast use vstd::string::group_string_axioms;

/// Who sends or receives on the bus.
#[derive(Debug, PartialEq, Eq, Structural, Copy, Clone, Hash)]
pub enum Address {
    /// The chat session.
    Chat,
    /// The event session.
    ChannelPoints,
    /// The listener that accepts outside clients.
    Server,
    /// One accepted client, by its number.
    Connection(usize),
}

/// The address that a name on the wire stands for. Only the two sessions
/// can be addressed by name.
pub open spec fn address_of(bytes: Seq<u8>) -> Option<Address> {
    if bytes == "chat".spec_bytes() {
        Some(Address::Chat)
    } else if bytes == "cpoints".spec_bytes() {
        Some(Address::ChannelPoints)
    } else {
        None
    }
}

/// The two names, byte for byte.
pub proof fn lemma_name_bytes()
    ensures
        "chat".spec_bytes() == seq![99u8, 104, 97, 116],
        "cpoints".spec_bytes() == seq![99u8, 112, 111, 105, 110, 116, 115],
{
    reveal_strlit("chat");
    reveal_strlit("cpoints");
    assert(vstd::string::is_ascii("chat"));
    assert(vstd::string::is_ascii("cpoints"));
    assert("chat".spec_bytes() =~= seq![99u8, 104, 97, 116]);
    assert("cpoints".spec_bytes() =~= seq![99u8, 112, 111, 105, 110, 116, 115]);
}

/// Whether two byte strings are the same.
pub fn same_bytes(a: &[u8], b: &[u8]) -> (r: bool)
    ensures
        r == (a@ == b@),
{
    if a.len() != b.len() {
        return false;
    }
    let mut i: usize = 0;
    while i < a.len()
        invariant
            a@.len() == b@.len(),
            i <= a@.len(),
            forall|j: int| 0 <= j < i ==> a@[j] == b@[j],
        decreases a@.len() - i,
    {
        if a[i] != b[i] {
            return false;
        }
        i += 1;
    }
    assert(a@ =~= b@);
    true
}

impl Address {
    /// How the address is written in log lines.
    pub open spec fn name(self) -> Seq<char> {
        match self {
            Address::Chat => "Chat"@,
            Address::ChannelPoints => "ChannelPoints"@,
            Address::Server => "Server"@,
            Address::Connection(id) => "Connection("@ + decimal(id as nat) + ")"@,
        }
    }

    /// Reads an address from its name on the wire.
    pub fn from_bytes(bytes: &[u8]) -> (r: Option<Address>)
        ensures
            r == address_of(bytes@),
    {
        if same_bytes(bytes, "chat".as_bytes()) {
            Some(Address::Chat)
        } else if same_bytes(bytes, "cpoints".as_bytes()) {
            Some(Address::ChannelPoints)
        } else {
            None
        }
    }

    /// The address as text.
    pub fn to_string(&self) -> (s: String)
        ensures
            s@ == self.name(),
    {
        match self {
            Address::Chat => "Chat".to_owned(),
            Address::ChannelPoints => "ChannelPoints".to_owned(),
            Address::Server => "Server".to_owned(),
            Address::Connection(id) => {
                let mut s = "Connection(".to_owned();
                push_decimal(&mut s, *id);
                s.append(")");
                s
            },
        }
    }
}

} // verus!
