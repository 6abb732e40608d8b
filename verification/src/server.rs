//! Attribute-server request handling: each peer event is turned into
//! a log line, an optional reply, and a change to the shared value
//! store, with exact message texts.

use vstd::prelude::*;
use vstd::string::StringExecFns;
use crate::hex::hex_str;
use crate::hex::bytes_to_hex;
use crate::decimal::dec_str;
use crate::decimal::u64_to_dec;
use crate::log::LogDirection;
use crate::store::ValueStore;
use crate::store::RequestStatus;
use crate::store::read_at_spec;
use crate::store::write_at_spec;
use crate::store::write_in_bounds;
use crate::uuid_id::UuidVal;
use crate::uuid_id::uuid_chars;

verus! {

/// How many short power polls the server startup makes before it
/// gives up on the adapter.
pub const POWER_WAIT_RETRIES: u32 = 50;

/// Whether server startup should stop waiting for the adapter.
pub fn power_wait_exhausted(retries: u32) -> (r: bool)
    ensures
        r == (retries > POWER_WAIT_RETRIES),
{
    retries > POWER_WAIT_RETRIES
}

/// A typed event from the peer-facing request handler.
pub enum ServerEvent {
    StateUpdate { is_powered: bool },
    SubscriptionUpdate { char_id: UuidVal, subscribed: bool },
    ReadRequest { char_id: UuidVal, offset: u64 },
    WriteRequest { char_id: UuidVal, offset: u64, value: Vec<u8> },
}

/// The answer owed to the peer, when the event asks for one.
pub enum ServerReply {
    Read { value: Vec<u8>, status: RequestStatus },
    Write { status: RequestStatus },
}

/// What handling one event produced.
pub struct ServerOutcome {
    pub log: Option<(LogDirection, String)>,
    pub reply: Option<ServerReply>,
}

pub open spec fn powered_msg(is_powered: bool) -> Seq<char> {
    if is_powered {
        "Bluetooth adapter powered on"@
    } else {
        "Bluetooth adapter powered off"@
    }
}

pub open spec fn subscription_msg(id: u128, subscribed: bool) -> Seq<char> {
    if subscribed {
        "Client subscribed to "@ + uuid_chars(id)
    } else {
        "Client unsubscribed from "@ + uuid_chars(id)
    }
}

/// Hex pairs, or a placeholder so an empty payload stays legible.
pub open spec fn hex_or_empty_chars(v: Seq<u8>) -> Seq<char> {
    if v.len() == 0 {
        "(empty)"@
    } else {
        hex_str(v)
    }
}

pub open spec fn read_request_msg(id: u128, offset: u64, value: Seq<u8>) -> Seq<char> {
    "Read request on "@ + uuid_chars(id) + " (offset: "@ + dec_str(offset as nat)
        + "), responding: "@ + hex_or_empty_chars(value)
}

pub open spec fn write_request_msg(id: u128, offset: u64, value: Seq<u8>) -> Seq<char> {
    "Write request on "@ + uuid_chars(id) + " (offset: "@ + dec_str(offset as nat) + "): "@
        + hex_or_empty_chars(value)
}

/// Renders bytes as hex pairs, or the placeholder when empty.
pub fn hex_or_empty(v: &Vec<u8>) -> (r: String)
    ensures
        r@ == hex_or_empty_chars(v@),
{
    if v.len() == 0 {
        String::from_str("(empty)")
    } else {
        bytes_to_hex(v)
    }
}

fn read_request_text(id: &UuidVal, offset: u64, value: &Vec<u8>) -> (r: String)
    ensures
        r@ == read_request_msg(id.bits, offset, value@),
{
    let mut r = String::from_str("Read request on ");
    let u = id.to_text();
    r.append(u.as_str());
    r.append(" (offset: ");
    let o = u64_to_dec(offset);
    r.append(o.as_str());
    r.append("), responding: ");
    let h = hex_or_empty(value);
    r.append(h.as_str());
    proof {
        assert(r@ =~= read_request_msg(id.bits, offset, value@));
    }
    r
}

fn write_request_text(id: &UuidVal, offset: u64, value: &Vec<u8>) -> (r: String)
    ensures
        r@ == write_request_msg(id.bits, offset, value@),
{
    let mut r = String::from_str("Write request on ");
    let u = id.to_text();
    r.append(u.as_str());
    r.append(" (offset: ");
    let o = u64_to_dec(offset);
    r.append(o.as_str());
    r.append("): ");
    let h = hex_or_empty(value);
    r.append(h.as_str());
    proof {
        assert(r@ =~= write_request_msg(id.bits, offset, value@));
    }
    r
}

/// Applies one peer event to the shared value store.
///
/// Reads never fail: past the end they answer with an empty slice.
/// Writes are applied with splice semantics and answered `Success`
/// exactly when they fit the capacity; a rejected write is answered
/// `InvalidOffset` and changes nothing. Every request is logged with
/// its numeric offset, rejected writes included.
pub fn handle_server_event(event: ServerEvent, store: &mut ValueStore) -> (r: ServerOutcome)
    requires
        old(store).well_formed(),
    ensures
        final(store).well_formed(),
        match event {
            ServerEvent::StateUpdate { is_powered } => {
                &&& final(store)@ == old(store)@
                &&& r.reply is None
                &&& r.log matches Some(l) && l.0 == LogDirection::Info && l.1@ == powered_msg(
                    is_powered,
                )
            },
            ServerEvent::SubscriptionUpdate { char_id, subscribed } => {
                &&& final(store)@ == old(store)@
                &&& r.reply is None
                &&& r.log matches Some(l) && l.0 == LogDirection::Info && l.1@ == subscription_msg(
                    char_id.bits,
                    subscribed,
                )
            },
            ServerEvent::ReadRequest { char_id, offset } => {
                &&& final(store)@ == old(store)@
                &&& r.reply matches Some(ServerReply::Read { value, status }) && value@
                    == read_at_spec(old(store)@, offset) && status == RequestStatus::Success
                &&& r.log matches Some(l) && l.0 == LogDirection::Received && l.1@
                    == read_request_msg(char_id.bits, offset, read_at_spec(old(store)@, offset))
            },
            ServerEvent::WriteRequest { char_id, offset, value } => {
                if write_in_bounds(offset, value@) {
                    &&& final(store)@ == write_at_spec(old(store)@, offset, value@)
                    &&& r.reply matches Some(ServerReply::Write { status }) && status
                        == RequestStatus::Success
                    &&& r.log matches Some(l) && l.0 == LogDirection::Received && l.1@
                        == write_request_msg(char_id.bits, offset, value@)
                } else {
                    &&& final(store)@ == old(store)@
                    &&& r.reply matches Some(ServerReply::Write { status }) && status
                        == RequestStatus::InvalidOffset
                    &&& r.log matches Some(l) && l.0 == LogDirection::Received && l.1@
                        == write_request_msg(char_id.bits, offset, value@)
                }
            },
        },
{
    match event {
        ServerEvent::StateUpdate { is_powered } => {
            let msg = if is_powered {
                String::from_str("Bluetooth adapter powered on")
            } else {
                String::from_str("Bluetooth adapter powered off")
            };
            ServerOutcome { log: Some((LogDirection::Info, msg)), reply: None }
        },
        ServerEvent::SubscriptionUpdate { char_id, subscribed } => {
            let mut msg = if subscribed {
                String::from_str("Client subscribed to ")
            } else {
                String::from_str("Client unsubscribed from ")
            };
            let u = char_id.to_text();
            msg.append(u.as_str());
            ServerOutcome { log: Some((LogDirection::Info, msg)), reply: None }
        },
        ServerEvent::ReadRequest { char_id, offset } => {
            let value = store.read_at(offset);
            let msg = read_request_text(&char_id, offset, &value);
            ServerOutcome {
                log: Some((LogDirection::Received, msg)),
                reply: Some(ServerReply::Read { value, status: RequestStatus::Success }),
            }
        },
        ServerEvent::WriteRequest { char_id, offset, value } => {
            let status = store.write_at(offset, &value);
            let msg = write_request_text(&char_id, offset, &value);
            ServerOutcome {
                log: Some((LogDirection::Received, msg)),
                reply: Some(ServerReply::Write { status }),
            }
        },
    }
}

} // verus!
