//! The opening exchange of a connection: protocol version, security type,
//! and the two initialisation messages.
//!
//! The exchange is a state machine. The caller sends [`greeting`], then reads
//! as many bytes as the state expects, hands them to [`handshake`], sends the
//! reply and goes on from the state that comes back.

use crate::error::RfbError;
use crate::pixel::PixelFormat;
use crate::wire::{be16, be32, counted, push_all, push_be16, push_be32, push_counted, same_bytes};
use vstd::prelude::*;
use vstd::string::StringSliceAdditionalSpecFns;

verus! {

/// The protocol versions the server speaks.
#[derive(Debug, Clone, Copy, PartialEq, Eq, Structural)]
pub enum RfpVersion {
    V3_3,
    V3_7,
    V3_8,
}

/// Where the exchange stands.
#[derive(Debug, Clone, Copy, PartialEq, Eq, Structural)]
pub enum HandshakeState {
    /// The server's version line is out; the client's is awaited.
    ProtocolVersion,
    /// The security types are out; the client's choice is awaited.
    Security(RfpVersion),
    /// The client's shared flag is awaited.
    ClientInit,
    /// Both sides are initialised.
    Done,
    /// The exchange failed: the connection is to be dropped.
    Failed,
}

/// What the server does at one step: the bytes to send, then the new state.
#[derive(Debug)]
pub struct HandshakeStep {
    pub send: Vec<u8>,
    pub next: HandshakeState,
}

/// The only security type on offer: no authentication.
pub const SECURITY_TYPE_NO_AUTHENTICATION: u8 = 1;

/// The security result that lets the client in.
pub const SECURITY_RESULT_OK: u32 = 0;

/// The security result that turns the client away.
pub const SECURITY_RESULT_FAILED: u32 = 1;

/// The 12-byte line that announces a version.
pub open spec fn version_line(version: RfpVersion) -> Seq<u8> {
    match version {
        RfpVersion::V3_3 => "RFB 003.003\n".spec_bytes(),
        RfpVersion::V3_7 => "RFB 003.007\n".spec_bytes(),
        RfpVersion::V3_8 => "RFB 003.008\n".spec_bytes(),
    }
}

/// The version that a client's line asks for, if it is one the server speaks.
pub open spec fn parse_version(line: Seq<u8>) -> Option<RfpVersion> {
    if line == version_line(RfpVersion::V3_8) {
        Some(RfpVersion::V3_8)
    } else if line == version_line(RfpVersion::V3_7) {
        Some(RfpVersion::V3_7)
    } else if line == version_line(RfpVersion::V3_3) {
        Some(RfpVersion::V3_3)
    } else {
        None
    }
}

/// The reason given to a client whose version line is not recognised.
pub open spec fn version_refusal() -> Seq<u8> {
    "Unsupported protocol version".spec_bytes()
}

/// The reason given to a 3.8 client that picks another security type.
pub open spec fn security_refusal() -> Seq<u8> {
    "Unsupported security type".spec_bytes()
}

/// The ServerInit message: width, height, the RGB888 pixel format, and the
/// desktop name behind its length.
pub open spec fn server_init(dimensions: (u16, u16), name: Seq<u8>) -> Seq<u8> {
    be16(dimensions.0) + be16(dimensions.1) + PixelFormat::spec_rgb888().wire() + counted(name)
}

/// The bytes the server sends, and the state it moves to, when `input`
/// arrives in `state`.
pub open spec fn handshake_reply(
    state: HandshakeState,
    input: Seq<u8>,
    dimensions: (u16, u16),
    name: Seq<u8>,
) -> (Seq<u8>, HandshakeState) {
    match state {
        HandshakeState::ProtocolVersion => if input.len() != 12 {
            (Seq::empty(), HandshakeState::Failed)
        } else {
            match parse_version(input) {
                Some(RfpVersion::V3_3) => (
                    be32(SECURITY_TYPE_NO_AUTHENTICATION as u32),
                    HandshakeState::ClientInit,
                ),
                Some(version) => (
                    seq![1u8, SECURITY_TYPE_NO_AUTHENTICATION],
                    HandshakeState::Security(version),
                ),
                None => (seq![0u8] + counted(version_refusal()), HandshakeState::Failed),
            }
        },
        HandshakeState::Security(version) => if input.len() != 1 {
            (Seq::empty(), HandshakeState::Failed)
        } else if input[0] == SECURITY_TYPE_NO_AUTHENTICATION {
            if version == RfpVersion::V3_8 {
                (be32(SECURITY_RESULT_OK), HandshakeState::ClientInit)
            } else {
                (Seq::empty(), HandshakeState::ClientInit)
            }
        } else {
            if version == RfpVersion::V3_8 {
                (be32(SECURITY_RESULT_FAILED) + counted(security_refusal()), HandshakeState::Failed)
            } else {
                (be32(SECURITY_RESULT_FAILED), HandshakeState::Failed)
            }
        },
        HandshakeState::ClientInit => if input.len() != 1 {
            (Seq::empty(), HandshakeState::Failed)
        } else {
            (server_init(dimensions, name), HandshakeState::Done)
        },
        HandshakeState::Done => (Seq::empty(), HandshakeState::Done),
        HandshakeState::Failed => (Seq::empty(), HandshakeState::Failed),
    }
}

impl HandshakeState {
    /// How many bytes the server reads from the client before its next step.
    pub open spec fn spec_expected(&self) -> usize {
        match self {
            HandshakeState::ProtocolVersion => 12,
            HandshakeState::Security(_) => 1,
            HandshakeState::ClientInit => 1,
            HandshakeState::Done => 0,
            HandshakeState::Failed => 0,
        }
    }

    /// How many bytes the server reads from the client before its next step;
    /// none once the exchange is over.
    #[verifier::when_used_as_spec(spec_expected)]
    pub fn expected(&self) -> (n: usize)
        ensures
            n == self.spec_expected(),
    {
        match self {
            HandshakeState::ProtocolVersion => 12,
            HandshakeState::Security(_) => 1,
            HandshakeState::ClientInit => 1,
            HandshakeState::Done => 0,
            HandshakeState::Failed => 0,
        }
    }

    /// How the exchange ended, if it is over.
    pub open spec fn spec_outcome(&self) -> Option<Result<(), RfbError>> {
        match self {
            HandshakeState::Done => Some(Ok(())),
            HandshakeState::Failed => Some(Err(RfbError::HandshakeFailed)),
            _ => None,
        }
    }

    /// How the exchange ended, if it is over: well, or with a client turned
    /// away, whose connection is to be dropped once the reply is sent.
    #[verifier::when_used_as_spec(spec_outcome)]
    pub fn outcome(&self) -> (outcome: Option<Result<(), RfbError>>)
        ensures
            outcome == self.spec_outcome(),
            outcome is None <==> self.spec_expected() > 0,
    {
        match self {
            HandshakeState::Done => Some(Ok(())),
            HandshakeState::Failed => Some(Err(RfbError::HandshakeFailed)),
            _ => None,
        }
    }
}

/// The first move: the server announces version 3.8 and awaits the client's line.
pub fn greeting() -> (step: HandshakeStep)
    ensures
        step.send@ == version_line(RfpVersion::V3_8),
        step.next == HandshakeState::ProtocolVersion,
{
    let mut send: Vec<u8> = Vec::new();
    push_all(&mut send, "RFB 003.008\n".as_bytes());
    HandshakeStep { send, next: HandshakeState::ProtocolVersion }
}

/// Tells which version a line asks for.
fn read_version(line: &[u8]) -> (version: Option<RfpVersion>)
    ensures
        version == parse_version(line@),
{
    if same_bytes(line, "RFB 003.008\n".as_bytes()) {
        Some(RfpVersion::V3_8)
    } else if same_bytes(line, "RFB 003.007\n".as_bytes()) {
        Some(RfpVersion::V3_7)
    } else if same_bytes(line, "RFB 003.003\n".as_bytes()) {
        Some(RfpVersion::V3_3)
    } else {
        None
    }
}

/// One step of the exchange: takes what the client sent in `state` and gives
/// the server's reply and the state that follows.
///
/// Input of another length than the state expects counts as a failed read:
/// nothing is sent and the exchange has failed. A version line that is not
/// recognised is answered with a refusal and its reason. A 3.3 client is
/// told the security type and not asked; a 3.7 or 3.8 client picks one. A
/// client that picks the type on offer is let in, with a security result
/// only under 3.8. One that picks another is turned away with a security
/// result, followed by the reason only under 3.8. The shared flag is read
/// and ignored.
pub fn handshake(
    state: HandshakeState,
    input: &[u8],
    screen_dimensions: (u16, u16),
    name: &str,
) -> (step: HandshakeStep)
    ensures
        (step.send@, step.next) == handshake_reply(
            state,
            input@,
            screen_dimensions,
            name.spec_bytes(),
        ),
{
    let mut send: Vec<u8> = Vec::new();
    let next = match state {
        HandshakeState::ProtocolVersion => {
            if input.len() != 12 {
                HandshakeState::Failed
            } else {
                match read_version(input) {
                    Some(RfpVersion::V3_3) => {
                        push_be32(&mut send, SECURITY_TYPE_NO_AUTHENTICATION as u32);
                        HandshakeState::ClientInit
                    },
                    Some(version) => {
                        send.push(1);
                        send.push(SECURITY_TYPE_NO_AUTHENTICATION);
                        HandshakeState::Security(version)
                    },
                    None => {
                        send.push(0);
                        push_counted(&mut send, "Unsupported protocol version".as_bytes());
                        HandshakeState::Failed
                    },
                }
            }
        },
        HandshakeState::Security(version) => {
            if input.len() != 1 {
                HandshakeState::Failed
            } else if input[0] == SECURITY_TYPE_NO_AUTHENTICATION {
                match version {
                    RfpVersion::V3_8 => push_be32(&mut send, SECURITY_RESULT_OK),
                    _ => {},
                }
                HandshakeState::ClientInit
            } else {
                push_be32(&mut send, SECURITY_RESULT_FAILED);
                match version {
                    RfpVersion::V3_8 => {
                        push_counted(&mut send, "Unsupported security type".as_bytes());
                    },
                    _ => {},
                }
                HandshakeState::Failed
            }
        },
        HandshakeState::ClientInit => {
            if input.len() != 1 {
                HandshakeState::Failed
            } else {
                push_be16(&mut send, screen_dimensions.0);
                push_be16(&mut send, screen_dimensions.1);
                let format = PixelFormat::rgb888().encode();
                push_all(&mut send, format.as_slice());
                push_counted(&mut send, name.as_bytes());
                HandshakeState::Done
            }
        },
        HandshakeState::Done => HandshakeState::Done,
        HandshakeState::Failed => HandshakeState::Failed,
    };
    HandshakeStep { send, next }
}

/// The texts of the exchange as bytes: the three version lines are 12 bytes
/// of ASCII that differ in the last digit, and the two refusals are 28 and
/// 25 bytes long.
pub proof fn lemma_handshake_texts()
    ensures
        version_line(RfpVersion::V3_3) == seq![
            0x52u8, 0x46, 0x42, 0x20, 0x30, 0x30, 0x33, 0x2e, 0x30, 0x30, 0x33, 0x0a,
        ],
        version_line(RfpVersion::V3_7) == seq![
            0x52u8, 0x46, 0x42, 0x20, 0x30, 0x30, 0x33, 0x2e, 0x30, 0x30, 0x37, 0x0a,
        ],
        version_line(RfpVersion::V3_8) == seq![
            0x52u8, 0x46, 0x42, 0x20, 0x30, 0x30, 0x33, 0x2e, 0x30, 0x30, 0x38, 0x0a,
        ],
        version_refusal().len() == 28,
        security_refusal().len() == 25,
{
    reveal_strlit("RFB 003.003\n");
    reveal_strlit("RFB 003.007\n");
    reveal_strlit("RFB 003.008\n");
    reveal_strlit("Unsupported protocol version");
    reveal_strlit("Unsupported security type");
    vstd::string::is_ascii_spec_bytes("RFB 003.003\n");
    vstd::string::is_ascii_spec_bytes("RFB 003.007\n");
    vstd::string::is_ascii_spec_bytes("RFB 003.008\n");
    vstd::string::is_ascii_spec_bytes("Unsupported protocol version");
    vstd::string::is_ascii_spec_bytes("Unsupported security type");
}

} // verus!
