//! Sending pictures to the camera extension: the packet that a picture travels in, and the
//! connection that is made anew after it broke.
use crate::bytes;
use vstd::prelude::*;
use vstd::string::*;

verus! {

/// The word that every packet begins with.
pub const PACKET_MAGIC: u32 = 0x5644_4652;

/// The version of the packets.
pub const PACKET_VERSION: u32 = 1;

/// The bytes in front of the picture.
pub const PACKET_HEADER: usize = 36;

/// How often connecting is tried.
pub const CONNECT_TRIES: u32 = 30;

/// How long one try may take, in milliseconds.
pub const CONNECT_TIMEOUT_MS: u32 = 500;

/// The pause after a try that failed, in milliseconds.
pub const CONNECT_PAUSE_MS: u32 = 1000;

/// A picture could not be sent.
#[derive(Clone, Copy, Debug, PartialEq, Eq, Structural)]
pub struct SendError {}

/// The packet of a picture.
pub open spec fn packet(data: Seq<u8>, width: u32, height: u32, stride: u32, pts_ns: u64) -> Seq<
    u8,
> {
    bytes::le32(PACKET_MAGIC) + bytes::le32(PACKET_VERSION) + bytes::le32(width) + bytes::le32(
        height,
    ) + bytes::le32(stride) + bytes::le64(pts_ns) + bytes::le64(data.len() as u64) + data
}

/// The packet of a picture: 36 bytes that say what it is, and its bytes.
pub fn encode_frame(data: &[u8], width: u32, height: u32, stride: u32, pts_ns: u64) -> (out: Vec<
    u8,
>)
    ensures
        out@ == packet(data@, width, height, stride, pts_ns),
{
    let mut out: Vec<u8> = Vec::new();
    bytes::push_u32(&mut out, PACKET_MAGIC);
    assert(out@ =~= bytes::le32(PACKET_MAGIC));
    bytes::push_u32(&mut out, PACKET_VERSION);
    bytes::push_u32(&mut out, width);
    bytes::push_u32(&mut out, height);
    bytes::push_u32(&mut out, stride);
    bytes::push_u64(&mut out, pts_ns);
    bytes::push_u64(&mut out, data.len() as u64);
    bytes::push_bytes(&mut out, data);
    out
}

/// Eight bytes read inside a longer sequence are those of the part that stands there.
proof fn lemma_qword_of_part(s: Seq<u8>, off: int, part: Seq<u8>)
    requires
        0 <= off,
        part.len() == 8,
        off + 8 <= s.len(),
        s.subrange(off, off + 8) =~= part,
    ensures
        bytes::qword_at(s, off) == bytes::qword_at(part, 0),
{
    assert forall|i: int| 0 <= i < 8 implies s[off + i] == part[i] by {
        assert(s.subrange(off, off + 8)[i] == part[i]);
    }
}

/// Whoever reads a packet finds what was sent: every number in its place, and behind the 36 bytes
/// the picture, byte for byte.
pub proof fn law_packet_reads_back(
    data: Seq<u8>,
    width: u32,
    height: u32,
    stride: u32,
    pts_ns: u64,
)
    requires
        data.len() <= u64::MAX,
    ensures
        ({
            let p = packet(data, width, height, stride, pts_ns);
            &&& p.len() == PACKET_HEADER + data.len()
            &&& bytes::dword_at(p, 0) == PACKET_MAGIC
            &&& bytes::dword_at(p, 4) == PACKET_VERSION
            &&& bytes::dword_at(p, 8) == width
            &&& bytes::dword_at(p, 12) == height
            &&& bytes::dword_at(p, 16) == stride
            &&& bytes::qword_at(p, 20) == pts_ns
            &&& bytes::qword_at(p, 28) == data.len()
            &&& p.skip(PACKET_HEADER as int) == data
        }),
{
    let p = packet(data, width, height, stride, pts_ns);
    bytes::lemma_le32_read_back(PACKET_MAGIC);
    bytes::lemma_le32_read_back(PACKET_VERSION);
    bytes::lemma_le32_read_back(width);
    bytes::lemma_le32_read_back(height);
    bytes::lemma_le32_read_back(stride);
    bytes::lemma_le64_read_back(pts_ns);
    bytes::lemma_le64_read_back(data.len() as u64);
    bytes::lemma_dword_of_part(p, 0, bytes::le32(PACKET_MAGIC));
    bytes::lemma_dword_of_part(p, 4, bytes::le32(PACKET_VERSION));
    bytes::lemma_dword_of_part(p, 8, bytes::le32(width));
    bytes::lemma_dword_of_part(p, 12, bytes::le32(height));
    bytes::lemma_dword_of_part(p, 16, bytes::le32(stride));
    lemma_qword_of_part(p, 20, bytes::le64(pts_ns));
    lemma_qword_of_part(p, 28, bytes::le64(data.len() as u64));
    assert(p.skip(36) =~= data);
}

// ---- connecting ----

/// What to do after a try to connect.
#[derive(Clone, Copy, Debug, PartialEq, Eq, Structural)]
pub enum ConnectStep {
    /// The connection is there.
    Connected,
    /// Wait so many milliseconds, and try again.
    Again(u32),
    /// Wait so many milliseconds, and give up.
    GiveUp(u32),
}

/// What to do after the try number `n`.
pub open spec fn connect_next(n: u32, ok: bool) -> ConnectStep {
    if ok {
        ConnectStep::Connected
    } else if n < CONNECT_TRIES {
        ConnectStep::Again(CONNECT_PAUSE_MS)
    } else {
        ConnectStep::GiveUp(CONNECT_PAUSE_MS)
    }
}

/// Connecting is tried thirty times, a second apart, and given up only then; a try that succeeds
/// connects, whichever it is.
pub proof fn law_connecting_is_tried_thirty_times(n: u32)
    ensures
        connect_next(n, true) == ConnectStep::Connected,
        connect_next(n, false) == if n < 30 {
            ConnectStep::Again(1000)
        } else {
            ConnectStep::GiveUp(1000)
        },
{
}

/// What to do after the try number `n`, the first being 1.
pub fn connect_step(n: u32, ok: bool) -> (step: ConnectStep)
    ensures
        step == if ok {
            ConnectStep::Connected
        } else if n < CONNECT_TRIES {
            ConnectStep::Again(CONNECT_PAUSE_MS)
        } else {
            ConnectStep::GiveUp(CONNECT_PAUSE_MS)
        },
        step == connect_next(n, ok),
{
    if ok {
        ConnectStep::Connected
    } else if n < CONNECT_TRIES {
        ConnectStep::Again(CONNECT_PAUSE_MS)
    } else {
        ConnectStep::GiveUp(CONNECT_PAUSE_MS)
    }
}

/// The error where no try succeeded.
pub fn connect_error() -> (s: &'static str)
    ensures
        s@ == "连接扩展 FrameChannel 失败（扩展未运行？）"@,
{
    "连接扩展 FrameChannel 失败（扩展未运行？）"
}

// ---- sending ----

/// Something that pictures can be sent to. Nothing is promised of whether sending succeeds.
pub trait FrameSender: Sized {
    /// Sends a picture.
    fn send_frame(
        &mut self,
        data: &[u8],
        width: u32,
        height: u32,
        stride: u32,
        pts_ns: u64,
    ) -> Result<(), SendError>;
}

/// What became of a picture and of the connection.
#[derive(Clone, Copy, Debug, PartialEq, Eq, Structural)]
pub struct Sent {
    /// The picture was sent.
    pub ok: bool,
    /// The connection is kept for the next one.
    pub keep: bool,
}

/// What became of a picture, by what sending it gave; `None` where there was no connection. A
/// connection over which sending failed is given up.
pub open spec fn outcome(result: Option<Result<(), SendError>>) -> Sent {
    match result {
        Some(Ok(_)) => Sent { ok: true, keep: true },
        Some(Err(_)) => Sent { ok: false, keep: false },
        None => Sent { ok: false, keep: false },
    }
}

/// What became of a picture, by what sending it gave.
pub fn after_send(result: Option<Result<(), SendError>>) -> (s: Sent)
    ensures
        s == outcome(result),
{
    match result {
        Some(Ok(_)) => Sent { ok: true, keep: true },
        Some(Err(_)) => Sent { ok: false, keep: false },
        None => Sent { ok: false, keep: false },
    }
}

/// Whether a connection is made before sending: only where there is none.
pub open spec fn connects_first(has_client: bool) -> bool {
    !has_client
}

/// Whether a connection is made before sending.
pub fn must_connect(has_client: bool) -> (yes: bool)
    ensures
        yes == connects_first(has_client),
{
    !has_client
}

/// Sends a picture over the connection that there is, or over a new one where there is none. The
/// picture is handed to that connection, and what sending it gives decides: where it succeeds, the
/// picture was sent and that connection is kept; where it fails, none is, so that the next picture
/// begins with connecting. Where there was no connection and none could be made, nothing is sent.
/// While there is one, `connect` is not called, also where sending over it fails.
pub fn send_or_reconnect<C: FrameSender, F: FnOnce() -> Option<C>>(
    client: &mut Option<C>,
    connect: F,
    buf: &[u8],
    w: u32,
    h: u32,
    stride: u32,
    pts_ns: u64,
) -> (sent: bool)
    requires
        (*old(client)) is None ==> connect.requires(()),
    ensures
        match *old(client) {
            Some(c) => exists|m: &mut C, r: Result<(), SendError>|
                {
                    &&& *m == c
                    &&& #[trigger] call_ensures(C::send_frame, (m, buf, w, h, stride, pts_ns), r)
                    &&& sent == outcome(Some(r)).ok
                    &&& *final(client) == if outcome(Some(r)).keep {
                        Some(*final(m))
                    } else {
                        None
                    }
                },
            None => exists|made: Option<C>|
                {
                    &&& #[trigger] connect.ensures((), made)
                    &&& match made {
                        Some(c) => exists|m: &mut C, r: Result<(), SendError>|
                            {
                                &&& *m == c
                                &&& #[trigger] call_ensures(C::send_frame, (m, buf, w, h, stride, pts_ns), r)
                                &&& sent == outcome(Some(r)).ok
                                &&& *final(client) == if outcome(Some(r)).keep {
                                    Some(*final(m))
                                } else {
                                    None
                                }
                            },
                        None => !sent && (*final(client)) is None,
                    }
                },
        },
{
    let mut current: Option<C> = client.take();
    if must_connect(current.is_some()) {
        current = connect();
    }
    let mut result: Option<Result<(), SendError>> = None;
    match current.take() {
        Some(c) => {
            let mut c: C = c;
            result = Some(c.send_frame(buf, w, h, stride, pts_ns));
            current = Some(c);
        },
        None => {},
    }
    let s: Sent = after_send(result);
    if s.keep {
        *client = current;
    } else {
        *client = None;
    }
    s.ok
}

/// The connection over a row of pictures: for each, whether connecting would succeed and whether
/// sending would. Gives which pictures were sent, and whether there is a connection at the end.
pub open spec fn sent_over(has: bool, worlds: Seq<(bool, bool)>) -> (Seq<bool>, bool)
    decreases worlds.len(),
{
    if worlds.len() == 0 {
        (Seq::empty(), has)
    } else {
        let before = sent_over(has, worlds.drop_last());
        let (connects, sends) = worlds.last();
        let connected = if connects_first(before.1) {
            connects
        } else {
            true
        };
        let now = outcome(
            if !connected {
                None
            } else if sends {
                Some(Ok(()))
            } else {
                Some(Err(SendError {  }))
            },
        );
        (before.0.push(now.ok), now.keep)
    }
}

/// The camera never stays frozen: whatever happened to the pictures before, the next one is sent
/// as soon as connecting and sending are possible again.
pub proof fn law_next_picture_reconnects(has: bool, worlds: Seq<(bool, bool)>)
    ensures
        sent_over(has, worlds.push((true, true))).0.last(),
        sent_over(has, worlds.push((true, true))).1,
{
    assert(worlds.push((true, true)).drop_last() =~= worlds);
}

/// Each picture is sent over the connection that there is, and is then sent exactly if sending
/// succeeds; without a connection one is made first, and both have to succeed. A connection is
/// there afterwards exactly if the picture was sent: one that failed is never used again.
pub proof fn law_failed_connection_is_given_up(
    has: bool,
    worlds: Seq<(bool, bool)>,
    connects: bool,
    sends: bool,
)
    ensures
        ({
            let before = sent_over(has, worlds);
            let after = sent_over(has, worlds.push((connects, sends)));
            &&& after.0 == before.0.push(sends && (before.1 || connects))
            &&& after.1 == after.0.last()
        }),
{
    assert(worlds.push((connects, sends)).drop_last() =~= worlds);
}

} // verus!
