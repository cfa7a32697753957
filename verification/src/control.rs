//! What a session does with the messages that the bus delivers to it.

use crate::address::{same_bytes, Address};
use crate::registry::{
    lemma_members_stay_distinct, lemma_unsubscribe_prunes, subscribed, unsubscribed, Registry,
};
use vstd::prelude::*;
use vstd::string::StringSliceAdditionalSpecFns;

verus! {

broadcast use vstd::string::group_string_axioms;

/// The commands that a payload can be.
#[derive(Debug, PartialEq, Eq, Structural, Clone, Copy)]
pub enum Command {
    /// `shutdown`: end the whole relay.
    Shutdown,
    /// `sub`: make the sender a subscriber.
    Subscribe,
    /// Anything else: data that may be an event to inject.
    Payload,
}

/// A message delivered by the bus.
#[derive(Debug)]
pub enum BusMessage {
    /// Bytes sent by another address.
    Remote { sender: Address, payload: Vec<u8> },
    /// An address has left the bus.
    Removed(Address),
    /// The bus is shutting down.
    Shutdown,
    /// Any other notice.
    Other,
}

/// What the session does after a message from the bus.
#[derive(Debug, PartialEq, Eq, Structural, Clone, Copy)]
pub enum BusAction {
    /// Tell the bus to shut down, which ends every session.
    ShutdownRelay,
    /// Ask the bus to report when this new subscriber leaves.
    Track(Address),
    /// Relay the payload as if it had come from the feed.
    Inject,
    /// Leave the session loop.
    Exit,
    /// Nothing to do.
    Nothing,
}

/// The command that a payload is.
pub open spec fn command_of(payload: Seq<u8>) -> Command {
    if payload == "shutdown".spec_bytes() {
        Command::Shutdown
    } else if payload == "sub".spec_bytes() {
        Command::Subscribe
    } else {
        Command::Payload
    }
}

/// The session's rule for the bus: the members after `message`, and what
/// to do. `is_event` says whether the payload of a remote message decodes
/// as an event of the session's feed; it matters only for a payload that
/// is no command.
pub open spec fn bus_rule(members: Seq<Address>, message: BusMessage, is_event: bool) -> (
    Seq<Address>,
    BusAction,
) {
    match message {
        BusMessage::Remote { sender, payload } => match command_of(payload@) {
            Command::Shutdown => (members, BusAction::ShutdownRelay),
            Command::Subscribe => (
                subscribed(members, sender),
                if members.contains(sender) {
                    BusAction::Nothing
                } else {
                    BusAction::Track(sender)
                },
            ),
            Command::Payload => (
                members,
                if is_event {
                    BusAction::Inject
                } else {
                    BusAction::Nothing
                },
            ),
        },
        BusMessage::Removed(gone) => (unsubscribed(members, gone), BusAction::Nothing),
        BusMessage::Shutdown => (members, BusAction::Exit),
        BusMessage::Other => (members, BusAction::Nothing),
    }
}

/// The two commands, byte for byte.
pub proof fn lemma_command_bytes()
    ensures
        "shutdown".spec_bytes() == seq![115u8, 104, 117, 116, 100, 111, 119, 110],
        "sub".spec_bytes() == seq![115u8, 117, 98],
{
    reveal_strlit("shutdown");
    reveal_strlit("sub");
    assert(vstd::string::is_ascii("shutdown"));
    assert(vstd::string::is_ascii("sub"));
    assert("shutdown".spec_bytes() =~= seq![115u8, 104, 117, 116, 100, 111, 119, 110]);
    assert("sub".spec_bytes() =~= seq![115u8, 117, 98]);
}

/// No message from the bus makes the registry hold an address twice.
pub proof fn lemma_bus_keeps_distinct(members: Seq<Address>, message: BusMessage, is_event: bool)
    requires
        members.no_duplicates(),
    ensures
        bus_rule(members, message, is_event).0.no_duplicates(),
{
    match message {
        BusMessage::Remote { sender, payload } => {
            lemma_members_stay_distinct(members, sender);
        },
        BusMessage::Removed(gone) => {
            lemma_members_stay_distinct(members, gone);
        },
        _ => {},
    }
}

/// An address that the bus reports as gone is no subscriber afterwards.
pub proof fn lemma_gone_is_pruned(members: Seq<Address>, gone: Address, is_event: bool)
    ensures
        !bus_rule(members, BusMessage::Removed(gone), is_event).0.contains(gone),
{
    lemma_unsubscribe_prunes(members, gone);
}

/// Which command a payload is.
pub fn classify(payload: &[u8]) -> (command: Command)
    ensures
        command == command_of(payload@),
{
    if same_bytes(payload, "shutdown".as_bytes()) {
        Command::Shutdown
    } else if same_bytes(payload, "sub".as_bytes()) {
        Command::Subscribe
    } else {
        Command::Payload
    }
}

/// Takes in a message from the bus, keeps the registry up to date and says
/// what to do.
pub fn on_message(registry: &mut Registry, message: &BusMessage, is_event: bool) -> (action:
    BusAction)
    ensures
        (final(registry)@, action) == bus_rule(old(registry)@, *message, is_event),
{
    match message {
        BusMessage::Remote { sender, payload } => match classify(payload.as_slice()) {
            Command::Shutdown => {
                BusAction::ShutdownRelay
            },
            Command::Subscribe => {
                if registry.subscribe(*sender) {
                    BusAction::Track(*sender)
                } else {
                    BusAction::Nothing
                }
            },
            Command::Payload => {
                if is_event {
                    BusAction::Inject
                } else {
                    BusAction::Nothing
                }
            },
        },
        BusMessage::Removed(gone) => {
            registry.unsubscribe(*gone);
            BusAction::Nothing
        },
        BusMessage::Shutdown => {
            BusAction::Exit
        },
        BusMessage::Other => {
            BusAction::Nothing
        },
    }
}

} // verus!
