//! The serial protocol between the orchestrator (master) and the boards
//! (slaves): every message travels in a `serialmessage` packet that carries the
//! message id, and the master numbers its requests so that it can tell the reply
//! to its last request from stale replies.

use vstd::prelude::*;

verus! {

/// The largest payload a packet can carry.
pub const MAX_PAYLOAD: usize = 254;

/// The bytes of the packet that `serialmessage` builds for `payload` with id
/// `id`.
pub uninterp spec fn sermsg_packet(payload: Seq<u8>, id: u8) -> Seq<u8>;

/// `SerMsg::create_msg_arr(payload, id)`, keeping only the bytes of the packet.
///
/// Trusted, from the crate's source: it refuses payloads longer than 254 bytes;
/// otherwise the packet is the payload plus six bytes: start byte 126, the id,
/// the COBS overhead byte, the payload length, the (stuffed) payload, the CRC and
/// stop byte 129. The stuffed payload, the overhead byte and the CRC are not
/// stated.
#[verifier::external_body]
fn create_packet(payload: &[u8], id: u8) -> (r: Option<Vec<u8>>)
    ensures
        payload@.len() > 254 ==> r.is_none(),
        payload@.len() <= 254 ==> r.is_some() && r.unwrap()@ == sermsg_packet(payload@, id),
        r.is_some() ==> r.unwrap()@.len() == payload@.len() + 6,
        r.is_some() ==> r.unwrap()@[0] == 126 && r.unwrap()@[1] == id,
        r.is_some() ==> r.unwrap()@[3] == payload@.len(),
        r.is_some() ==> r.unwrap()@[payload@.len() as int + 5] == 129,
{
    serialmessage::SerMsg::create_msg_arr(payload, id).map(|(buf, len)| buf[..len].to_vec())
}

/// Why a message could not be put in a packet.
#[derive(PartialEq, Eq, Structural, Clone, Copy, Debug)]
pub enum FrameError {
    /// The encoded message is longer than a packet can carry.
    PayloadTooLong,
}

/// The bytes to write on the serial line to send the encoded message `payload`
/// with id `id`.
pub fn frame_message(payload: &[u8], id: u8) -> (r: Result<Vec<u8>, FrameError>)
    ensures
        payload@.len() > MAX_PAYLOAD ==> r == Err::<Vec<u8>, FrameError>(FrameError::PayloadTooLong),
        payload@.len() <= MAX_PAYLOAD ==> (r matches Ok(v) && v@ == sermsg_packet(payload@, id)
            && v@.len() == payload@.len() + 6 && v@[0] == 126 && v@[1] == id && v@[3]
            == payload@.len() && v@[v@.len() - 1] == 129),
{
    match create_packet(payload, id) {
        Some(bytes) => Ok(bytes),
        None => Err(FrameError::PayloadTooLong),
    }
}

/// What a fresh `serialmessage` parser reports after reading `bytes`: `None`
/// while it waits for more bytes, `Some(None)` once it rejected a packet (bad
/// length, CRC, stop byte or stuffing), and `Some(Some((id, payload)))` once a
/// packet is complete.
pub uninterp spec fn sermsg_unframe(bytes: Seq<u8>) -> Option<Option<(u8, Seq<u8>)>>;

/// What the parser made of the bytes read so far.
pub enum Unframed {
    /// More bytes are needed.
    Waiting,
    /// The packet was malformed; the parser starts over.
    Rejected,
    /// A complete packet: its id and payload.
    Packet(u8, Vec<u8>),
}

pub open spec fn unframed_view(u: Unframed) -> Option<Option<(u8, Seq<u8>)>> {
    match u {
        Unframed::Waiting => None,
        Unframed::Rejected => Some(None),
        Unframed::Packet(id, payload) => Some(Some((id, payload@))),
    }
}

/// Feeds `bytes` to a fresh `SerMsg` with `parse_read_bytes`, and on
/// `DataReady` reads back `return_msg_id` and `return_read_data`.
///
/// Trusted, from the crate's source: the outcome is named `sermsg_unframe` of
/// the bytes. A whole packet built by `create_msg_arr` for a payload of at most
/// 254 bytes is read back with its id and payload, and every proper prefix of it
/// leaves the parser waiting (the parser checks the start byte, reads id,
/// overhead byte and length, the stuffed payload, then checks the CRC and the
/// stop byte and undoes the stuffing). Which malformed inputs are rejected is
/// not stated.
#[verifier::external_body]
fn unframe(bytes: &[u8]) -> (r: Unframed)
    ensures
        unframed_view(r) == sermsg_unframe(bytes@),
        forall|p: Seq<u8>, id: u8|
            #![trigger sermsg_packet(p, id)]
            p.len() <= 254 && bytes@ == sermsg_packet(p, id) ==> unframed_view(r) == Some(
                Some((id, p)),
            ),
        forall|p: Seq<u8>, id: u8, k: int|
            #![trigger sermsg_packet(p, id).take(k)]
            p.len() <= 254 && 0 <= k < p.len() + 6 && bytes@ == sermsg_packet(p, id).take(k)
                ==> unframed_view(r) is None,
{
    let mut parser = serialmessage::SerMsg::new();
    match parser.parse_read_bytes(bytes).0 {
        serialmessage::ParseState::Continue => Unframed::Waiting,
        serialmessage::ParseState::DataReady => {
            Unframed::Packet(parser.return_msg_id(), parser.return_read_data().to_vec())
        },
        serialmessage::ParseState::CrcError => Unframed::Rejected,
        serialmessage::ParseState::HighPayloadError => Unframed::Rejected,
        serialmessage::ParseState::StopByteError => Unframed::Rejected,
        serialmessage::ParseState::COBSError => Unframed::Rejected,
    }
}

/// Reads one more byte `b` of the serial line. `pending` holds the bytes read
/// since the parser last finished a packet or rejected one. Returns the id and
/// payload of a packet once it is complete; after a complete or a rejected
/// packet, the parser starts over.
pub fn read_packet(pending: &mut Vec<u8>, b: u8) -> (r: Option<(u8, Vec<u8>)>)
    ensures
        match sermsg_unframe(old(pending)@.push(b)) {
            None => r is None && final(pending)@ == old(pending)@.push(b),
            Some(None) => r is None && final(pending)@.len() == 0,
            Some(Some((id, payload))) => r matches Some((i, v)) && i == id && v@ == payload
                && final(pending)@.len() == 0,
        },
        forall|p: Seq<u8>, id: u8|
            #![trigger sermsg_packet(p, id)]
            p.len() <= 254 && old(pending)@.push(b) == sermsg_packet(p, id) ==> (r matches Some(
                (i, v),
            ) && i == id && v@ == p),
        forall|p: Seq<u8>, id: u8, k: int|
            #![trigger sermsg_packet(p, id).take(k)]
            p.len() <= 254 && 0 <= k < p.len() + 6 && old(pending)@.push(b) == sermsg_packet(
                p,
                id,
            ).take(k) ==> r is None && final(pending)@ == old(pending)@.push(b),
{
    pending.push(b);
    match unframe(pending.as_slice()) {
        Unframed::Waiting => None,
        Unframed::Rejected => {
            pending.clear();
            None
        },
        Unframed::Packet(id, payload) => {
            pending.clear();
            Some((id, payload))
        },
    }
}

/// The numbering of the master's requests: each request gets the id after the
/// previous one, wrapping around after 255.
pub struct InnerMaster {
    pub id: u8,
}

impl InnerMaster {
    /// No request sent yet.
    pub fn new() -> (r: Self)
        ensures
            r.id == 0,
    {
        InnerMaster { id: 0 }
    }

    /// The id of the next request; it becomes the last sent id.
    pub fn next_id(&mut self) -> (r: u8)
        ensures
            r == final(self).id,
            final(self).id == (if old(self).id == 255 {
                0
            } else {
                old(self).id + 1
            }),
    {
        self.id = self.id.wrapping_add(1);
        self.id
    }

    /// Whether a reply with id `id_read` answers the last request; other replies
    /// are stale and skipped.
    pub fn is_reply(&self, id_read: u8) -> (r: bool)
        ensures
            r == (id_read == self.id),
    {
        id_read == self.id
    }
}

/// What the master does after an attempt to exchange a request and its reply.
#[derive(PartialEq, Eq, Structural, Clone, Copy, Debug)]
pub enum AttemptDecision {
    /// Send the request again.
    Retry,
    /// Stop: every allowed attempt failed.
    GiveUp,
}

/// The resending of a request: it is sent at most `resend_times` times, until a
/// reply to it arrives.
pub struct Resend {
    pub resend_times: u8,
    pub attempts: u8,
}

impl Resend {
    /// No attempt made yet.
    pub fn new(resend_times: u8) -> (r: Self)
        ensures
            r.resend_times == resend_times,
            r.attempts == 0,
    {
        Resend { resend_times, attempts: 0 }
    }

    /// Whether another attempt is allowed.
    pub fn may_attempt(&self) -> (r: bool)
        ensures
            r == (self.attempts < self.resend_times),
    {
        self.attempts < self.resend_times
    }

    /// An attempt failed (no reply in time, or the request could not be sent):
    /// count it and decide whether to try again.
    pub fn attempt_failed(&mut self) -> (r: AttemptDecision)
        requires
            old(self).attempts < old(self).resend_times,
        ensures
            final(self).resend_times == old(self).resend_times,
            final(self).attempts == old(self).attempts + 1,
            r == (if final(self).attempts < final(self).resend_times {
                AttemptDecision::Retry
            } else {
                AttemptDecision::GiveUp
            }),
    {
        self.attempts = self.attempts + 1;
        if self.attempts < self.resend_times {
            AttemptDecision::Retry
        } else {
            AttemptDecision::GiveUp
        }
    }
}

/// The decay mode of a DRV8843 driver during current chopping.
#[derive(PartialEq, Eq, Structural, Clone, Copy, Debug)]
pub enum DecayType {
    Fast,
    Mixed,
    Slow,
}

impl DecayType {
    /// The level of the DECAY pin that selects this mode: high for fast decay,
    /// low for slow decay. Mixed decay needs the pin floating, which the driver
    /// does not support.
    pub fn pin_high(&self) -> (r: bool)
        requires
            *self != DecayType::Mixed,
        ensures
            r == (*self == DecayType::Fast),
    {
        match self {
            DecayType::Fast => true,
            DecayType::Slow => false,
            DecayType::Mixed => false,
        }
    }
}

/// The tuning rule used after a relay-feedback calibration of a PID controller.
#[derive(PartialEq, Eq, Structural, Clone, Copy, Debug)]
pub enum CalibrationMode {
    P,
    PI,
    PID,
    Pessen,
    ModerateOvershoot,
    NoOvershoot,
}

/// Errors of the on-chip flash storage.
#[derive(PartialEq, Eq, Structural, Clone, Copy, Debug)]
pub enum FlashErrors {
    FlashAdrRangeError,
    NotAligned,
    Other,
}

} // verus!
