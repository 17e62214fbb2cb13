use vstd::prelude::*;

use crate::errors::ParseError;
use crate::utils::{
    fletcher16, fletcher16_spec, get_u16_from_byte_array, get_u32_from_byte_array,
    get_u64_from_byte_array, lemma_fletcher16_detects_single_flip, u16_le_at, u32_le_at, u64_le_at,
};

verus! {

// Wire format of one board frame, at sync position `i` of the stream:
//   i      1  sync byte 0x5E ('^')
//   i+1    1  variant byte 'B' (0x42, no board timestamp) or 'C' (0x43, with)
//   i+2    2  declared body length L (little-endian unsigned 16)
//   i+4    1  port id
//   i+5    1  protocol version
//   i+6    2  header Fletcher-16 over bytes [i..i+6], variant normalized to 'B'
//   i+8    8  (variant 'C' only) board timestamp, little-endian float64 bits
//   then  12  time of validity / arrival / transport (little-endian unsigned 32)
//   ...  L-12 sensor payload
//   end    2  body Fletcher-16 over the bytes from i+8 up to the checksum

/// One validated packet delivered by the framer.  `onboard_timestamp` holds
/// the raw little-endian bit pattern of the board's float64 seconds, present
/// exactly for variant 'C' frames.
#[derive(Debug, Clone)]
pub struct SentiboardMessage {
    pub sensor_id: u8,
    pub protocol_version: u8,
    pub time_of_validity: u32,
    pub time_of_arrival: u32,
    pub time_of_transport: u32,
    pub onboard_timestamp: Option<u64>,
    pub sensor_data: Vec<u8>,
}

/// A two-byte sync window: 0x5E followed by 'B' or 'C'.
pub open spec fn is_sync_at(s: Seq<u8>, i: int) -> bool {
    s[i] == 0x5E && (s[i + 1] == 0x42 || s[i + 1] == 0x43)
}

pub open spec fn has_onboard_ts(s: Seq<u8>, i: int) -> bool {
    s[i + 1] == 0x43
}

/// The first six header bytes with the variant byte normalized to 'B', the
/// form the header checksum is computed over.
pub open spec fn header_prefix(s: Seq<u8>, i: int) -> Seq<u8> {
    s.subrange(i, i + 6).update(1, 0x42u8)
}

pub open spec fn header_ok(s: Seq<u8>, i: int) -> bool {
    fletcher16_spec(header_prefix(s, i)) == u16_le_at(s, i + 6)
}

/// The declared body length of the frame at `i`.
pub open spec fn body_len_at(s: Seq<u8>, i: int) -> int {
    u16_le_at(s, i + 2)
}

/// Where the three timestamp words start: after the header, and after the
/// board timestamp when the variant carries one.
pub open spec fn ts_off(s: Seq<u8>, i: int) -> int {
    i + 8 + if has_onboard_ts(s, i) {
        8int
    } else {
        0
    }
}

/// One past the frame's last byte (the trailing body checksum included).
pub open spec fn frame_end(s: Seq<u8>, i: int) -> int {
    ts_off(s, i) + body_len_at(s, i) + 2
}

/// The region the body checksum covers: from i+8 (the board timestamp
/// included, when present) through the end of the payload.
pub open spec fn body_region(s: Seq<u8>, i: int) -> Seq<u8> {
    s.subrange(i + 8, ts_off(s, i) + body_len_at(s, i))
}

pub open spec fn body_ok(s: Seq<u8>, i: int) -> bool {
    fletcher16_spec(body_region(s, i)) == u16_le_at(s, ts_off(s, i) + body_len_at(s, i))
}

/// A complete, checksummed frame starts at `i`: sync window, header checksum,
/// a body length that covers the three timestamp words, and body checksum.
pub open spec fn valid_frame_at(s: Seq<u8>, i: int) -> bool {
    &&& 0 <= i
    &&& frame_end(s, i) <= s.len()
    &&& is_sync_at(s, i)
    &&& header_ok(s, i)
    &&& body_len_at(s, i) >= 12
    &&& body_ok(s, i)
}

/// The sensor payload: the body bytes after the three timestamp words.
pub open spec fn payload_at(s: Seq<u8>, i: int) -> Seq<u8> {
    s.subrange(ts_off(s, i) + 12, ts_off(s, i) + body_len_at(s, i))
}

/// `msg` holds exactly the fields of the frame at sync position `i`.
pub open spec fn frame_msg_at(msg: SentiboardMessage, s: Seq<u8>, i: int) -> bool {
    &&& msg.sensor_id == s[i + 4]
    &&& msg.protocol_version == s[i + 5]
    &&& msg.time_of_validity == u32_le_at(s, ts_off(s, i))
    &&& msg.time_of_arrival == u32_le_at(s, ts_off(s, i) + 4)
    &&& msg.time_of_transport == u32_le_at(s, ts_off(s, i) + 8)
    &&& msg.onboard_timestamp == (if has_onboard_ts(s, i) {
        Some(u64_le_at(s, i + 8) as u64)
    } else {
        None::<u64>
    })
    &&& msg.sensor_data@ == payload_at(s, i)
}

/// Outcome of scanning for a sync window from a cursor, sliding one byte at
/// a time, giving up after 512 windows.
pub enum SyncScan {
    Found(int),
    NeedMore,
    Exhausted,
}

pub open spec fn scan_sync(s: Seq<u8>, start: int, k: int) -> SyncScan
    decreases 512 - k,
{
    if k < 0 || k >= 512 {
        SyncScan::Exhausted
    } else if start + k + 2 > s.len() {
        SyncScan::NeedMore
    } else if is_sync_at(s, start + k) {
        SyncScan::Found(start + k)
    } else {
        scan_sync(s, start, k + 1)
    }
}

/// What one framer call does from a cursor: emit the frame at the first sync
/// window (`Good(sync, next)`), fail and move the cursor past what was
/// consumed (`Fail`), or ask for more bytes leaving the cursor in place
/// (`NeedMore`).
pub enum FrameStep {
    NeedMore,
    Fail(ParseError, int),
    Good(int, int),
}

pub open spec fn frame_step(s: Seq<u8>, start: int) -> FrameStep {
    match scan_sync(s, start, 0) {
        SyncScan::NeedMore => FrameStep::NeedMore,
        SyncScan::Exhausted => FrameStep::Fail(ParseError::ResyncExhausted, start + 512),
        SyncScan::Found(p) => {
            if p + 8 > s.len() {
                FrameStep::NeedMore
            } else if !header_ok(s, p) {
                FrameStep::Fail(ParseError::HeaderChecksum, p + 8)
            } else if frame_end(s, p) > s.len() {
                FrameStep::NeedMore
            } else if !body_ok(s, p) {
                FrameStep::Fail(ParseError::BodyChecksum, frame_end(s, p))
            } else if body_len_at(s, p) < 12 {
                FrameStep::Fail(ParseError::TruncatedPayload, frame_end(s, p))
            } else {
                FrameStep::Good(p, frame_end(s, p))
            }
        },
    }
}

/// What `parse_frame` must return: the outcome and new cursor that
/// `frame_step` prescribes, with the emitted message's fields pinned to the
/// frame's bytes.
pub open spec fn parse_frame_post(
    r: (Result<SentiboardMessage, ParseError>, usize),
    s: Seq<u8>,
    start: int,
) -> bool {
    match frame_step(s, start) {
        FrameStep::NeedMore => r.0 == Err::<SentiboardMessage, ParseError>(
            ParseError::TruncatedStream,
        ) && r.1 == start,
        FrameStep::Fail(e, np) => r.0 == Err::<SentiboardMessage, ParseError>(e) && r.1 == np,
        FrameStep::Good(p, np) => r.1 == np && (r.0 matches Ok(msg) && frame_msg_at(msg, s, p)),
    }
}

fn copy_range(data: &Vec<u8>, a: usize, b: usize) -> (r: Vec<u8>)
    requires
        a <= b <= data@.len(),
    ensures
        r@ == data@.subrange(a as int, b as int),
{
    let mut r: Vec<u8> = Vec::new();
    let mut i: usize = a;
    while i < b
        invariant
            a <= i <= b <= data@.len(),
            r@ =~= data@.subrange(a as int, i as int),
        decreases b - i,
    {
        r.push(data[i]);
        i = i + 1;
    }
    proof {
        assert(r@ =~= data@.subrange(a as int, b as int));
    }
    r
}

/// Recovers one frame from `stream` starting at cursor `start`: skips up to
/// 511 junk bytes to the first sync window, validates the header and body
/// checksums, and returns the frame with the cursor one past its last byte.
/// On failure the cursor is one past the last byte consumed, so the next
/// call resyncs from the following byte; `TruncatedStream` leaves the cursor
/// unchanged so the caller can supply more bytes and retry.
pub fn parse_frame(stream: &Vec<u8>, start: usize) -> (r: (
    Result<SentiboardMessage, ParseError>,
    usize,
))
    requires
        start <= stream@.len(),
    ensures
        parse_frame_post(r, stream@, start as int),
{
    let n = stream.len();
    let ghost s = stream@;
    // Resync: slide a two-byte window to the first sync pair.
    let mut k: usize = 0;
    loop
        invariant
            0 <= k <= 512,
            s == stream@,
            start <= n == s.len(),
            k > 0 ==> start + k + 1 <= n,
            scan_sync(s, start as int, 0) == scan_sync(s, start as int, k as int),
        ensures
            k <= 512,
            scan_sync(s, start as int, 0) == scan_sync(s, start as int, k as int),
            k < 512 ==> start + k + 2 <= n && is_sync_at(s, start as int + k),
            k == 512 ==> scan_sync(s, start as int, 0) == SyncScan::Exhausted,
        decreases 512 - k,
    {
        if k >= 512 {
            proof {
                assert(scan_sync(s, start as int, 512) == SyncScan::Exhausted);
            }
            break;
        }
        if n - start < k + 2 {
            proof {
                assert(scan_sync(s, start as int, k as int) == SyncScan::NeedMore);
            }
            return (Err(ParseError::TruncatedStream), start);
        }
        if stream[start + k] == 0x5E && (stream[start + k + 1] == 0x42 || stream[start + k + 1]
            == 0x43) {
            proof {
                assert(is_sync_at(s, start as int + k));
                assert(scan_sync(s, start as int, k as int) == SyncScan::Found(start as int + k));
            }
            break;
        }
        proof {
            assert(scan_sync(s, start as int, k as int) == scan_sync(s, start as int, k + 1));
        }
        k = k + 1;
    }
    if k == 512 {
        return (Err(ParseError::ResyncExhausted), start + 512);
    }
    let p = start + k;
    proof {
        assert(scan_sync(s, start as int, 0) == SyncScan::Found(p as int));
    }
    // Header: eight bytes from the sync position, variant normalized to 'B'
    // before the checksum.
    if n - p < 8 {
        proof {
            assert(frame_step(s, start as int) == FrameStep::NeedMore);
        }
        return (Err(ParseError::TruncatedStream), start);
    }
    let has_ts = stream[p + 1] == 0x43;
    let mut hdr: Vec<u8> = Vec::new();
    hdr.push(stream[p]);
    hdr.push(0x42);
    hdr.push(stream[p + 2]);
    hdr.push(stream[p + 3]);
    hdr.push(stream[p + 4]);
    hdr.push(stream[p + 5]);
    proof {
        assert(hdr@ =~= header_prefix(s, p as int));
    }
    let computed = fletcher16(hdr.as_slice());
    let received = get_u16_from_byte_array(stream.as_slice(), p + 6);
    if computed != received {
        proof {
            assert(!header_ok(s, p as int));
        }
        return (Err(ParseError::HeaderChecksum), p + 8);
    }
    proof {
        assert(header_ok(s, p as int));
    }
    // Body: the declared length plus the trailing checksum, preceded by the
    // board timestamp for variant 'C'.
    let body_len = get_u16_from_byte_array(stream.as_slice(), p + 2) as usize;
    let ts_offset_rel: usize = if has_ts {
        16
    } else {
        8
    };
    let need: usize = ts_offset_rel + body_len + 2;
    proof {
        assert(ts_off(s, p as int) == p + ts_offset_rel);
        assert(frame_end(s, p as int) == p + need);
    }
    if n - p < need {
        proof {
            assert(frame_step(s, start as int) == FrameStep::NeedMore);
        }
        return (Err(ParseError::TruncatedStream), start);
    }
    let body_end = p + ts_offset_rel + body_len;
    let computed_body = fletcher16(&stream.as_slice()[p + 8..body_end]);
    let received_body = get_u16_from_byte_array(stream.as_slice(), body_end);
    if computed_body != received_body {
        proof {
            assert(stream@.subrange(p + 8, body_end as int) == body_region(s, p as int));
            assert(!body_ok(s, p as int));
        }
        return (Err(ParseError::BodyChecksum), p + need);
    }
    proof {
        assert(stream@.subrange(p + 8, body_end as int) == body_region(s, p as int));
        assert(body_ok(s, p as int));
    }
    if body_len < 12 {
        return (Err(ParseError::TruncatedPayload), p + need);
    }
    let ts_pos = p + ts_offset_rel;
    let msg = SentiboardMessage {
        sensor_id: stream[p + 4],
        protocol_version: stream[p + 5],
        time_of_validity: get_u32_from_byte_array(stream.as_slice(), ts_pos),
        time_of_arrival: get_u32_from_byte_array(stream.as_slice(), ts_pos + 4),
        time_of_transport: get_u32_from_byte_array(stream.as_slice(), ts_pos + 8),
        onboard_timestamp: if has_ts {
            Some(get_u64_from_byte_array(stream.as_slice(), p + 8))
        } else {
            None
        },
        sensor_data: copy_range(stream, ts_pos + 12, body_end),
    };
    proof {
        assert(frame_step(s, start as int) == FrameStep::Good(p as int, p + need));
        assert(frame_msg_at(msg, s, p as int));
    }
    (Ok(msg), p + need)
}

/// The stream framer: it accumulates the raw bytes the caller feeds it and
/// delivers one validated frame per `read_package` call, discarding junk
/// bytes that precede a frame.
pub struct SentiReader {
    stream: Vec<u8>,
    pos: usize,
}

impl SentiReader {
    /// All bytes fed so far.
    pub closed spec fn buffered(&self) -> Seq<u8> {
        self.stream@
    }

    /// The read cursor: everything before it has been consumed.
    pub closed spec fn cursor(&self) -> int {
        self.pos as int
    }

    pub closed spec fn wf(&self) -> bool {
        self.pos <= self.stream@.len()
    }

    pub fn new() -> (r: SentiReader)
        ensures
            r.wf(),
            r.buffered() == Seq::<u8>::empty(),
            r.cursor() == 0,
    {
        SentiReader { stream: Vec::new(), pos: 0 }
    }

    /// Appends bytes read from the serial link to the framer's buffer.
    pub fn feed(&mut self, bytes: &Vec<u8>)
        requires
            old(self).wf(),
        ensures
            final(self).wf(),
            final(self).buffered() == old(self).buffered() + bytes@,
            final(self).cursor() == old(self).cursor(),
    {
        let mut i: usize = 0;
        while i < bytes.len()
            invariant
                0 <= i <= bytes@.len(),
                self.stream@ =~= old(self).stream@ + bytes@.take(i as int),
                self.pos == old(self).pos,
            decreases bytes@.len() - i,
        {
            self.stream.push(bytes[i]);
            i = i + 1;
        }
        proof {
            assert(self.stream@ =~= old(self).stream@ + bytes@);
        }
    }

    /// Delivers the next validated frame from the buffered stream, moving
    /// the cursor as `frame_step` prescribes; on `TruncatedStream` the
    /// cursor stays so the caller can `feed` more bytes and call again.
    pub fn read_package(&mut self) -> (r: Result<SentiboardMessage, ParseError>)
        requires
            old(self).wf(),
        ensures
            final(self).wf(),
            final(self).buffered() == old(self).buffered(),
            ({
                let step = frame_step(old(self).buffered(), old(self).cursor());
                match step {
                    FrameStep::NeedMore => r == Err::<SentiboardMessage, ParseError>(
                        ParseError::TruncatedStream,
                    ) && final(self).cursor() == old(self).cursor(),
                    FrameStep::Fail(e, np) => r == Err::<SentiboardMessage, ParseError>(e)
                        && final(self).cursor() == np,
                    FrameStep::Good(p, np) => final(self).cursor() == np && (r matches Ok(msg)
                        && frame_msg_at(msg, old(self).buffered(), p)),
                }
            }),
    {
        let (r, new_pos) = parse_frame(&self.stream, self.pos);
        proof {
            match frame_step(self.stream@, self.pos as int) {
                FrameStep::NeedMore => {},
                FrameStep::Fail(e, np) => {
                    lemma_step_cursor_bounds(self.stream@, self.pos as int);
                },
                FrameStep::Good(p, np) => {
                    lemma_step_cursor_bounds(self.stream@, self.pos as int);
                },
            }
        }
        self.pos = new_pos;
        r
    }
}

/// The cursor a framer step leaves behind never runs past the stream.
proof fn lemma_step_cursor_bounds(s: Seq<u8>, start: int)
    requires
        0 <= start <= s.len(),
    ensures
        frame_step(s, start) matches FrameStep::Fail(e, np) ==> np <= s.len(),
        frame_step(s, start) matches FrameStep::Good(p, np) ==> np <= s.len(),
{
    lemma_scan_sync_in_range(s, start, 0);
    if scan_sync(s, start, 0) == SyncScan::Exhausted {
        lemma_scan_exhausted_len(s, start, 0);
    }
}

/// Resync exhaustion means all 512 windows were examined, so the stream
/// holds at least 513 bytes past the cursor.
proof fn lemma_scan_exhausted_len(s: Seq<u8>, start: int, k: int)
    requires
        0 <= k < 512,
        scan_sync(s, start, k) == SyncScan::Exhausted,
    ensures
        start + 513 <= s.len(),
    decreases 512 - k,
{
    if k == 511 {
    } else {
        lemma_scan_exhausted_len(s, start, k + 1);
    }
}

/// Soundness: whatever the framer emits is a complete frame whose header
/// and body checksums verified, with the cursor one past its end; a frame is
/// observable only after both checks.
pub proof fn lemma_emitted_frames_are_valid(s: Seq<u8>, start: int)
    requires
        0 <= start,
    ensures
        frame_step(s, start) matches FrameStep::Good(p, np) ==> valid_frame_at(s, p) && np
            == frame_end(s, p) && payload_at(s, p).len() == body_len_at(s, p) - 12,
{
    if scan_sync(s, start, 0) matches SyncScan::Found(p) {
        lemma_scan_found_is_sync(s, start, 0);
    }
}

proof fn lemma_scan_found_is_sync(s: Seq<u8>, start: int, k: int)
    requires
        0 <= k,
    ensures
        scan_sync(s, start, k) matches SyncScan::Found(p) ==> is_sync_at(s, p) && p + 2 <= s.len()
            && start + k <= p,
    decreases 512 - k,
{
    if k < 0 || k >= 512 {
    } else if start + k + 2 > s.len() {
    } else if is_sync_at(s, start + k) {
    } else {
        lemma_scan_found_is_sync(s, start, k + 1);
    }
}

proof fn lemma_scan_sync_finds(s: Seq<u8>, start: int, k: int, g: int)
    requires
        0 <= start,
        0 <= k <= g <= 511,
        start + g + 2 <= s.len(),
        forall|j: int| start + k <= j < start + g ==> !(#[trigger] is_sync_at(s, j)),
        is_sync_at(s, start + g),
    ensures
        scan_sync(s, start, k) == SyncScan::Found(start + g),
    decreases g - k,
{
    if k < g {
        lemma_scan_sync_finds(s, start, k + 1, g);
    }
}

/// Junk tolerance: a valid frame preceded by up to 511 bytes of junk that
/// holds no sync window is recovered whole: the framer emits exactly that
/// frame and leaves the cursor one past its end.
pub proof fn lemma_framer_recovers_frame(s: Seq<u8>, start: int, g: int)
    requires
        0 <= start,
        0 <= g <= 511,
        forall|j: int| start <= j < start + g ==> !(#[trigger] is_sync_at(s, j)),
        valid_frame_at(s, start + g),
    ensures
        frame_step(s, start) == FrameStep::Good(start + g, frame_end(s, start + g)),
{
    let p = start + g;
    assert(frame_end(s, p) >= p + 22);
    lemma_scan_sync_finds(s, start, 0, g);
}

/// A stream laid out as frames at `positions`, each preceded by a gap of at
/// most 511 bytes holding no sync window.
pub open spec fn frames_with_gaps(s: Seq<u8>, start: int, positions: Seq<int>) -> bool
    decreases positions.len(),
{
    if positions.len() == 0 {
        true
    } else {
        let p = positions[0];
        &&& start <= p <= start + 511
        &&& forall|j: int| start <= j < p ==> !is_sync_at(s, j)
        &&& valid_frame_at(s, p)
        &&& frames_with_gaps(s, frame_end(s, p), positions.drop_first())
    }
}

/// The cursor one framer call leaves behind.
pub open spec fn step_next(s: Seq<u8>, c: int) -> int {
    match frame_step(s, c) {
        FrameStep::NeedMore => c,
        FrameStep::Fail(e, np) => np,
        FrameStep::Good(p, np) => np,
    }
}

/// The cursor after `j` framer calls from `start`.
pub open spec fn nth_cursor(s: Seq<u8>, start: int, j: nat) -> int
    decreases j,
{
    if j == 0 {
        start
    } else {
        step_next(s, nth_cursor(s, start, (j - 1) as nat))
    }
}

proof fn lemma_nth_cursor_shift(s: Seq<u8>, start: int, j: nat)
    requires
        j >= 1,
    ensures
        nth_cursor(s, start, j) == nth_cursor(s, step_next(s, start), (j - 1) as nat),
    decreases j,
{
    if j == 1 {
        assert(nth_cursor(s, start, 1) == step_next(s, nth_cursor(s, start, 0)));
        assert(nth_cursor(s, step_next(s, start), 0) == step_next(s, start));
    } else {
        lemma_nth_cursor_shift(s, start, (j - 1) as nat);
        assert(nth_cursor(s, start, j) == step_next(s, nth_cursor(s, start, (j - 1) as nat)));
        assert(nth_cursor(s, step_next(s, start), (j - 1) as nat) == step_next(
            s,
            nth_cursor(s, step_next(s, start), (j - 2) as nat),
        ));
    }
}

/// Frame-sequence recovery: on a stream of valid frames with arbitrary junk
/// interposed (at most 511 bytes per gap, holding no sync window), successive
/// framer calls emit exactly the original frame sequence: the call after `j`
/// frames emits the frame at `positions[j]` and consumes through its end.
pub proof fn lemma_framer_emits_sequence(s: Seq<u8>, start: int, positions: Seq<int>)
    requires
        0 <= start,
        frames_with_gaps(s, start, positions),
    ensures
        forall|j: int|
            0 <= j < positions.len() ==> frame_step(s, nth_cursor(s, start, j as nat))
                == FrameStep::Good(positions[j], frame_end(s, positions[j])),
    decreases positions.len(),
{
    if positions.len() > 0 {
        let p = positions[0];
        lemma_framer_recovers_frame(s, start, p - start);
        let next = frame_end(s, p);
        assert(step_next(s, start) == next);
        lemma_framer_emits_sequence(s, next, positions.drop_first());
        assert forall|j: int|
            0 <= j < positions.len() implies frame_step(s, nth_cursor(s, start, j as nat))
            == FrameStep::Good(positions[j], frame_end(s, positions[j])) by {
            if j == 0 {
                assert(nth_cursor(s, start, 0) == start);
            } else {
                lemma_nth_cursor_shift(s, start, j as nat);
                assert(nth_cursor(s, start, j as nat) == nth_cursor(s, next, (j - 1) as nat));
                assert(positions.drop_first()[j - 1] == positions[j]);
            }
        }
    }
}

/// Corruption detection: flip any single byte of a valid frame past its
/// two sync bytes (header, length, checksums, timestamps or payload) and the
/// framer emits no frame there: the call fails on the header or the body
/// checksum.  The cursor then sits inside or at the end of the broken frame,
/// so at most the bytes of this frame are at stake before resync.
pub proof fn lemma_framer_rejects_corrupted_frame(s: Seq<u8>, t: Seq<u8>, p: int, q: int)
    requires
        valid_frame_at(s, p),
        t.len() == s.len(),
        p + 2 <= q < frame_end(s, p),
        t[q] != s[q],
        forall|j: int| 0 <= j < s.len() && j != q ==> t[j] == s[j],
    ensures
        q < p + 8 ==> frame_step(t, p) == FrameStep::Fail(ParseError::HeaderChecksum, p + 8),
        q >= p + 8 ==> frame_step(t, p) == FrameStep::Fail(ParseError::BodyChecksum, frame_end(s, p)),
{
    assert(frame_end(s, p) >= p + 22);
    assert(is_sync_at(t, p));
    assert(scan_sync(t, p, 0) == SyncScan::Found(p));
    if q < p + 8 {
        if q < p + 6 {
            let ha = header_prefix(s, p);
            let hb = header_prefix(t, p);
            assert(ha.len() == 6 && hb.len() == 6);
            assert(ha[q - p] == s[q] && hb[q - p] == t[q]);
            assert(forall|j: int| 0 <= j < 6 && j != q - p ==> ha[j] == hb[j]);
            lemma_fletcher16_detects_single_flip(ha, hb, q - p);
            assert(u16_le_at(t, p + 6) == u16_le_at(s, p + 6));
            assert(!header_ok(t, p));
        } else {
            assert(header_prefix(t, p) =~= header_prefix(s, p));
            assert(u16_le_at(t, p + 6) != u16_le_at(s, p + 6));
            assert(!header_ok(t, p));
        }
        assert(frame_step(t, p) == FrameStep::Fail(ParseError::HeaderChecksum, p + 8));
    } else {
        assert(header_prefix(t, p) =~= header_prefix(s, p));
        assert(u16_le_at(t, p + 6) == u16_le_at(s, p + 6));
        assert(header_ok(t, p));
        assert(has_onboard_ts(t, p) == has_onboard_ts(s, p));
        assert(body_len_at(t, p) == body_len_at(s, p));
        assert(frame_end(t, p) == frame_end(s, p));
        let e = ts_off(s, p) + body_len_at(s, p);
        if q < e {
            let ba = body_region(s, p);
            let bb = body_region(t, p);
            assert(ba.len() == bb.len());
            assert(ba[q - (p + 8)] == s[q] && bb[q - (p + 8)] == t[q]);
            assert(forall|j: int| 0 <= j < ba.len() && j != q - (p + 8) ==> ba[j] == bb[j]);
            lemma_fletcher16_detects_single_flip(ba, bb, q - (p + 8));
            assert(u16_le_at(t, e) == u16_le_at(s, e));
            assert(!body_ok(t, p));
        } else {
            assert(body_region(t, p) =~= body_region(s, p));
            assert(u16_le_at(t, e) != u16_le_at(s, e));
            assert(!body_ok(t, p));
        }
        assert(frame_step(t, p) == FrameStep::Fail(ParseError::BodyChecksum, frame_end(s, p)));
    }
}

/// A flip in the body region loses no subsequent frame at all: the failing
/// call stops exactly at the corrupted frame's end, and the next call
/// recovers the following frame as usual.
pub proof fn lemma_no_frame_lost_on_body_flip(s: Seq<u8>, t: Seq<u8>, p: int, q: int, g: int)
    requires
        valid_frame_at(s, p),
        t.len() == s.len(),
        p + 8 <= q < frame_end(s, p),
        t[q] != s[q],
        forall|j: int| 0 <= j < s.len() && j != q ==> t[j] == s[j],
        0 <= g <= 511,
        forall|j: int|
            frame_end(s, p) <= j < frame_end(s, p) + g ==> !(#[trigger] is_sync_at(t, j)),
        valid_frame_at(t, frame_end(s, p) + g),
    ensures
        frame_step(t, p) == FrameStep::Fail(ParseError::BodyChecksum, frame_end(s, p)),
        frame_step(t, frame_end(s, p)) == FrameStep::Good(
            frame_end(s, p) + g,
            frame_end(t, frame_end(s, p) + g),
        ),
{
    lemma_framer_rejects_corrupted_frame(s, t, p, q);
    lemma_framer_recovers_frame(t, frame_end(s, p), g);
}

proof fn lemma_scan_sync_in_range(s: Seq<u8>, start: int, k: int)
    requires
        0 <= start,
        0 <= k,
        start + k <= s.len(),
    ensures
        scan_sync(s, start, k) matches SyncScan::Found(p) ==> start + k <= p && p + 2 <= s.len(),
    decreases 512 - k,
{
    if k < 0 || k >= 512 {
    } else if start + k + 2 > s.len() {
    } else if is_sync_at(s, start + k) {
    } else {
        lemma_scan_sync_in_range(s, start, k + 1);
    }
}

} // verus!
