//! The update protocol: the messages that connect the build side to every
//! running subscriber, the wire framing of one message, and the decisions a
//! subscriber makes over the incoming stream.
//!
//! A message travels either in process or as one length-delimited binary
//! blob over a persistent connection upgraded from an HTTP-style URL to the
//! corresponding streaming-socket scheme. Serializing a message body is the
//! transport edge's affair; the framing, the scheme upgrade and the
//! subscriber's decisions are pure and verified here.

use vstd::prelude::*;

use crate::resolver::HashedFileRecord;
use crate::text::eq_str;

verus! {

/// One protocol event: a build started, a build ended with its dependency
/// closure and designated root library, an asset changed, or a liveness
/// probe that changes no state.
pub enum ProtocolMessage {
    BuildStarted { id: u32 },
    BuildEnded { id: u32, root_library: String, libraries: Vec<HashedFileRecord> },
    AssetUpdated { name: String, local_path: String },
    KeepAlive,
}

/// What a subscriber's connection thread hands the update loop.
pub enum DylibRunnerMessage {
    ConnectionClosed,
    LoadRootLib { build_id: u32, local_path: String },
    AssetUpdated { local_path: String, name: String },
}

/// The streaming-socket scheme a server URL upgrades to: plain HTTP to the
/// plain socket scheme, secure to secure, socket schemes unchanged, and
/// nothing for any other scheme.
pub open spec fn spec_socket_scheme(scheme: Seq<char>) -> Option<Seq<char>> {
    if scheme == "http"@ || scheme == "ws"@ {
        Some("ws"@)
    } else if scheme == "https"@ || scheme == "wss"@ {
        Some("wss"@)
    } else {
        None
    }
}

/// Upgrade a URL scheme to its streaming-socket counterpart.
pub fn socket_scheme(scheme: &str) -> (r: Option<&'static str>)
    ensures
        match r {
            Some(v) => spec_socket_scheme(scheme@) == Some(v@),
            None => spec_socket_scheme(scheme@) is None,
        },
{
    if eq_str(scheme, "http") || eq_str(scheme, "ws") {
        Some("ws")
    } else if eq_str(scheme, "https") || eq_str(scheme, "wss") {
        Some("wss")
    } else {
        None
    }
}

/// One wire blob: the payload length as four little-endian bytes, then the
/// payload.
pub open spec fn spec_frame(payload: Seq<u8>) -> Seq<u8> {
    vstd::bytes::spec_u32_to_le_bytes(payload.len() as u32) + payload
}

/// Frame one serialized message for the wire.
pub fn frame(payload: &Vec<u8>) -> (r: Vec<u8>)
    requires
        payload@.len() <= u32::MAX,
    ensures
        r@ == spec_frame(payload@),
{
    proof {
        vstd::bytes::lemma_auto_spec_u32_to_from_le_bytes();
    }
    let mut out = vstd::bytes::u32_to_le_bytes(payload.len() as u32);
    let mut body = payload.clone();
    proof {
        assert(body@ =~= payload@);
    }
    out.append(&mut body);
    proof {
        assert(out@ =~= spec_frame(payload@));
    }
    out
}

/// Read one framed blob off the front of a buffer: the payload and how many
/// bytes the frame took. Nothing if the buffer does not yet hold the length
/// prefix and the full payload it announces — the reader then waits for
/// more bytes.
pub fn unframe(bytes: &Vec<u8>) -> (r: Option<(Vec<u8>, usize)>)
    ensures
        match r {
            Some(p) => p.1 == 4 + p.0@.len() && p.1 <= bytes@.len() && bytes@.subrange(
                0,
                p.1 as int,
            ) == spec_frame(p.0@),
            None => bytes@.len() < 4 || 4 + vstd::bytes::spec_u32_from_le_bytes(
                bytes@.subrange(0, 4),
            ) > bytes@.len(),
        },
{
    if bytes.len() < 4 {
        return None;
    }
    let mut prefix: Vec<u8> = Vec::new();
    prefix.push(bytes[0]);
    prefix.push(bytes[1]);
    prefix.push(bytes[2]);
    prefix.push(bytes[3]);
    proof {
        assert(prefix@ =~= bytes@.subrange(0, 4));
    }
    let len = vstd::bytes::u32_from_le_bytes(prefix.as_slice());
    if (len as usize) > bytes.len() - 4 {
        return None;
    }
    let total = bytes.len();
    let mut payload: Vec<u8> = Vec::new();
    let mut i: usize = 0;
    while i < (len as usize)
        invariant
            i <= len,
            total == bytes@.len(),
            4 + len <= total,
            payload@ == bytes@.subrange(4, 4 + i as int),
        decreases len as int - i,
    {
        let ghost pre = payload@;
        payload.push(bytes[4 + i]);
        proof {
            assert(payload@ =~= bytes@.subrange(4, 4 + i as int + 1));
        }
        i = i + 1;
    }
    proof {
        vstd::bytes::lemma_auto_spec_u32_to_from_le_bytes();
        assert(bytes@.subrange(0, 4 + len as int) =~= vstd::bytes::spec_u32_to_le_bytes(len)
            + bytes@.subrange(4, 4 + len as int));
    }
    Some((payload, 4 + (len as usize)))
}

/// A frame reads back as it was written: unframing a framed payload, with
/// anything after it in the buffer, yields the payload and consumes exactly
/// the frame.
pub proof fn lemma_frame_round_trip(payload: Seq<u8>, rest: Seq<u8>)
    requires
        payload.len() <= u32::MAX,
    ensures
        (spec_frame(payload) + rest).subrange(0, 4 + payload.len() as int) == spec_frame(payload),
        vstd::bytes::spec_u32_from_le_bytes(
            (spec_frame(payload) + rest).subrange(0, 4),
        ) == payload.len(),
{
    vstd::bytes::lemma_auto_spec_u32_to_from_le_bytes();
    assert((spec_frame(payload) + rest).subrange(0, 4 + payload.len() as int) =~= spec_frame(
        payload,
    ));
    assert((spec_frame(payload) + rest).subrange(0, 4) =~= vstd::bytes::spec_u32_to_le_bytes(
        payload.len() as u32,
    ));
}

/// What a subscriber waiting for its first library concludes from the
/// stream so far: the first message that is not an asset update decides —
/// a delivered root library connects it, a closed connection ends it, and
/// a stream of nothing but asset updates leaves it waiting.
#[derive(Debug, PartialEq, Eq)]
pub enum InitialOutcome {
    Connected { build_id: u32, local_path: String },
    Closed,
    StillWaiting,
}

/// The decision over a message prefix.
pub open spec fn spec_initial_outcome(msgs: Seq<DylibRunnerMessage>) -> InitialOutcome
    decreases msgs.len(),
{
    if msgs.len() == 0 {
        InitialOutcome::StillWaiting
    } else {
        match msgs[0] {
            DylibRunnerMessage::ConnectionClosed => InitialOutcome::Closed,
            DylibRunnerMessage::LoadRootLib { build_id, local_path } => InitialOutcome::Connected {
                build_id,
                local_path,
            },
            DylibRunnerMessage::AssetUpdated { .. } => spec_initial_outcome(msgs.skip(1)),
        }
    }
}

/// Scan the messages received so far for the initial root library.
pub fn initial_library(msgs: &Vec<DylibRunnerMessage>) -> (r: InitialOutcome)
    ensures
        r == spec_initial_outcome(msgs@),
{
    let mut i: usize = 0;
    proof {
        assert(msgs@.skip(0) =~= msgs@);
    }
    while i < msgs.len()
        invariant
            i <= msgs@.len(),
            spec_initial_outcome(msgs@.skip(i as int)) == spec_initial_outcome(msgs@),
        decreases msgs@.len() - i,
    {
        proof {
            assert(msgs@.skip(i as int)[0] == msgs@[i as int]);
            assert(msgs@.skip(i as int).skip(1) =~= msgs@.skip(i as int + 1));
        }
        match &msgs[i] {
            DylibRunnerMessage::ConnectionClosed => {
                return InitialOutcome::Closed;
            },
            DylibRunnerMessage::LoadRootLib { build_id, local_path } => {
                return InitialOutcome::Connected {
                    build_id: *build_id,
                    local_path: local_path.clone(),
                };
            },
            DylibRunnerMessage::AssetUpdated { .. } => {},
        }
        i = i + 1;
    }
    InitialOutcome::StillWaiting
}

/// What the update loop does with one incoming message: load and deliver a
/// new library version, notify the asset channel without touching the
/// version state, or stop with the connection.
#[derive(Debug, PartialEq, Eq)]
pub enum LoopDirective {
    LoadThenDeliver { build_id: u32, local_path: String },
    AssetNotify { name: String, local_path: String },
    Stop,
}

/// Classify one incoming message for the update loop. Asset updates never
/// touch the code-version state; only a delivered root library does, and
/// only through the hot-swap runtime's delivery operation.
pub fn update_loop_directive(msg: &DylibRunnerMessage) -> (r: LoopDirective)
    ensures
        match msg {
            DylibRunnerMessage::ConnectionClosed => r is Stop,
            DylibRunnerMessage::LoadRootLib { build_id, local_path } => r matches
                LoopDirective::LoadThenDeliver { build_id: b, local_path: p } && b == *build_id
                && p@ == local_path@,
            DylibRunnerMessage::AssetUpdated { local_path, name } => r matches
                LoopDirective::AssetNotify { name: n, local_path: p } && n@ == name@ && p@
                == local_path@,
        },
{
    match msg {
        DylibRunnerMessage::ConnectionClosed => LoopDirective::Stop,
        DylibRunnerMessage::LoadRootLib { build_id, local_path } => LoopDirective::LoadThenDeliver {
            build_id: *build_id,
            local_path: local_path.clone(),
        },
        DylibRunnerMessage::AssetUpdated { local_path, name } => LoopDirective::AssetNotify {
            name: name.clone(),
            local_path: local_path.clone(),
        },
    }
}

} // verus!
