//! The Perceptual Delta exchange snapshot format: a forward-only cursor over a byte slice that
//! yields fixed-width little-endian integers and refuses to read past the end, the layout of a
//! snapshot (header and frames), its decoder and encoder, and the law that decoding an
//! encoded snapshot gives it back. Measured values travel as raw `f64` bit patterns.
use vstd::prelude::*;

use crate::perceptual::SpectrumChannelMode;

verus! {

/// `256^n`.
pub open spec fn pow256(n: nat) -> nat
    decreases n,
{
    if n == 0 {
        1
    } else {
        256 * pow256((n - 1) as nat)
    }
}

/// The unsigned value of little-endian bytes (least significant byte first).
pub open spec fn le_uint(s: Seq<u8>) -> nat
    decreases s.len(),
{
    if s.len() == 0 {
        0
    } else {
        s[0] as nat + 256 * le_uint(s.drop_first())
    }
}

/// The two's-complement value of 8 little-endian bytes.
pub open spec fn le_i64(s: Seq<u8>) -> int {
    if le_uint(s) < 0x8000_0000_0000_0000 {
        le_uint(s) as int
    } else {
        le_uint(s) - 0x1_0000_0000_0000_0000
    }
}

pub proof fn lemma_le_uint_bound(s: Seq<u8>)
    ensures
        le_uint(s) < pow256(s.len()),
    decreases s.len(),
{
    if s.len() > 0 {
        lemma_le_uint_bound(s.drop_first());
        let a = s[0] as nat;
        let r = le_uint(s.drop_first());
        let p = pow256(s.drop_first().len());
        assert(a + 256 * r < 256 * p) by (nonlinear_arith)
            requires
                a < 256,
                r < p,
        ;
    }
}

proof fn lemma_le_uint_split(s: Seq<u8>, j: int)
    requires
        0 <= j < s.len(),
    ensures
        le_uint(s.subrange(j, s.len() as int)) == s[j] as nat + 256 * le_uint(
            s.subrange(j + 1, s.len() as int),
        ),
{
    let t = s.subrange(j, s.len() as int);
    assert(t.drop_first() == s.subrange(j + 1, s.len() as int));
}

/// Little-endian value of at most 8 bytes.
fn le_bytes_to_u64(s: &[u8]) -> (r: u64)
    requires
        s@.len() <= 8,
    ensures
        r as nat == le_uint(s@),
{
    let n = s.len();
    let mut acc: u64 = 0;
    let mut j: usize = n;
    proof {
        assert(s@.subrange(n as int, n as int) =~= Seq::<u8>::empty());
    }
    while j > 0
        invariant
            n == s@.len(),
            n <= 8,
            j <= n,
            acc as nat == le_uint(s@.subrange(j as int, n as int)),
        decreases j,
    {
        proof {
            lemma_le_uint_split(s@, j - 1);
            lemma_le_uint_bound(s@.subrange(j as int, n as int));
            assert(pow256((n - j) as nat) <= pow256(7)) by {
                lemma_pow256_mono((n - j) as nat, 7);
            }
            reveal_with_fuel(pow256, 8);
            assert(pow256(7) == 0x0100_0000_0000_0000);
            assert(acc as nat * 256 + s@[j - 1] as nat <= 0xFFFF_FFFF_FFFF_FFFF) by (nonlinear_arith)
                requires
                    (acc as nat) < 0x0100_0000_0000_0000,
                    (s@[j - 1] as nat) < 256,
            ;
        }
        acc = acc * 256 + s[j - 1] as u64;
        j = j - 1;
    }
    proof {
        assert(s@.subrange(0, n as int) == s@);
    }
    acc
}

proof fn lemma_pow256_mono(a: nat, b: nat)
    requires
        a <= b,
    ensures
        pow256(a) <= pow256(b),
    decreases b,
{
    if a < b {
        lemma_pow256_mono(a, (b - 1) as nat);
    }
}

/// A forward-only reader over a byte slice.
pub struct Cursor<'a> {
    bytes: &'a [u8],
    offset: usize,
}

impl<'a> Cursor<'a> {
    /// The bytes being read.
    pub closed spec fn data(&self) -> Seq<u8> {
        self.bytes@
    }

    /// How many bytes have been consumed.
    pub closed spec fn pos(&self) -> nat {
        self.offset as nat
    }

    /// The cursor never stands past the end of its bytes.
    #[verifier::type_invariant]
    closed spec fn inv(&self) -> bool {
        self.offset <= self.bytes@.len()
    }

    /// The bytes not yet consumed.
    pub open spec fn rest(&self) -> Seq<u8> {
        self.data().subrange(self.pos() as int, self.data().len() as int)
    }

    /// A cursor at the start of `bytes`.
    pub fn new(bytes: &'a [u8]) -> (c: Cursor<'a>)
        ensures
            c.data() == bytes@,
            c.pos() == 0,
    {
        Cursor { bytes, offset: 0 }
    }

    /// The next `count` bytes, or `None` (consuming nothing) when fewer remain.
    pub fn take(&mut self, count: usize) -> (r: Option<&'a [u8]>)
        ensures
            final(self).data() == old(self).data(),
            match r {
                Some(s) => old(self).pos() + count <= old(self).data().len() && s@
                    == old(self).data().subrange(
                    old(self).pos() as int,
                    (old(self).pos() + count) as int,
                ) && final(self).pos() == old(self).pos() + count,
                None => old(self).pos() + count > old(self).data().len() && final(self).pos()
                    == old(self).pos(),
            },
    {
        proof {
            use_type_invariant(&*self);
        }
        let len = self.bytes.len();
        let end = match self.offset.checked_add(count) {
            Some(end) => end,
            None => {
                return None;
            },
        };
        if end > len {
            return None;
        }
        let value = vstd::slice::slice_subrange(self.bytes, self.offset, end);
        self.offset = end;
        Some(value)
    }

    /// Next byte.
    pub fn u8(&mut self) -> (r: Option<u8>)
        ensures
            final(self).data() == old(self).data(),
            read_le(old(self).data(), old(self).pos(), 1, opt_u8_nat(r), final(self).pos()),
    {
        match self.take(1) {
            Some(s) => {
                proof {
                    assert(s@.drop_first() =~= Seq::<u8>::empty());
                    assert(le_uint(s@.drop_first()) == 0);
                    assert(le_uint(s@) == s@[0] as nat);
                }
                Some(s[0])
            },
            None => None,
        }
    }

    /// Next little-endian `u16`.
    pub fn u16(&mut self) -> (r: Option<u16>)
        ensures
            final(self).data() == old(self).data(),
            read_le(old(self).data(), old(self).pos(), 2, opt_u16_nat(r), final(self).pos()),
    {
        match self.take(2) {
            Some(s) => {
                let v = le_bytes_to_u64(s);
                proof {
                    lemma_le_uint_bound(s@);
                    reveal_with_fuel(pow256, 3);
                    assert(pow256(2) == 65536);
                }
                Some(v as u16)
            },
            None => None,
        }
    }

    /// Next little-endian `u32`.
    pub fn u32(&mut self) -> (r: Option<u32>)
        ensures
            final(self).data() == old(self).data(),
            read_le(old(self).data(), old(self).pos(), 4, opt_u32_nat(r), final(self).pos()),
    {
        match self.take(4) {
            Some(s) => {
                let v = le_bytes_to_u64(s);
                proof {
                    lemma_le_uint_bound(s@);
                    reveal_with_fuel(pow256, 5);
                    assert(pow256(4) == 0x1_0000_0000);
                }
                Some(v as u32)
            },
            None => None,
        }
    }

    /// Next little-endian `u64`.
    pub fn u64(&mut self) -> (r: Option<u64>)
        ensures
            final(self).data() == old(self).data(),
            read_le(old(self).data(), old(self).pos(), 8, opt_u64_nat(r), final(self).pos()),
    {
        match self.take(8) {
            Some(s) => Some(le_bytes_to_u64(s)),
            None => None,
        }
    }

    /// Next little-endian two's-complement `i64`.
    pub fn i64(&mut self) -> (r: Option<i64>)
        ensures
            final(self).data() == old(self).data(),
            match r {
                Some(v) => old(self).pos() + 8 <= old(self).data().len() && v as int == le_i64(
                    old(self).data().subrange(old(self).pos() as int, (old(self).pos() + 8) as int),
                ) && final(self).pos() == old(self).pos() + 8,
                None => old(self).pos() + 8 > old(self).data().len() && final(self).pos()
                    == old(self).pos(),
            },
    {
        match self.take(8) {
            Some(s) => {
                let u = le_bytes_to_u64(s);
                if u < 0x8000_0000_0000_0000 {
                    Some(u as i64)
                } else {
                    let low = (u - 0x8000_0000_0000_0000) as i64;
                    Some(low - 0x7FFF_FFFF_FFFF_FFFF - 1)
                }
            },
            None => None,
        }
    }

    /// Bytes left to read.
    pub fn remaining(&self) -> (n: usize)
        ensures
            n == self.data().len() - self.pos(),
    {
        proof {
            use_type_invariant(self);
        }
        self.bytes.len() - self.offset
    }
}

pub open spec fn opt_u8_nat(r: Option<u8>) -> Option<nat> {
    match r {
        Some(v) => Some(v as nat),
        None => None,
    }
}

pub open spec fn opt_u16_nat(r: Option<u16>) -> Option<nat> {
    match r {
        Some(v) => Some(v as nat),
        None => None,
    }
}

pub open spec fn opt_u32_nat(r: Option<u32>) -> Option<nat> {
    match r {
        Some(v) => Some(v as nat),
        None => None,
    }
}

pub open spec fn opt_u64_nat(r: Option<u64>) -> Option<nat> {
    match r {
        Some(v) => Some(v as nat),
        None => None,
    }
}

/// Reading `width` bytes at `pos` either yields their little-endian value and advances by
/// `width`, or, when fewer than `width` bytes remain, yields nothing and does not move.
pub open spec fn read_le(data: Seq<u8>, pos: nat, width: nat, r: Option<nat>, new_pos: nat) -> bool {
    match r {
        Some(v) => pos + width <= data.len() && v == le_uint(data.subrange(pos as int, (pos + width) as int))
            && new_pos == pos + width,
        None => pos + width > data.len() && new_pos == pos,
    }
}

} // verus!

verus! {

/// Largest snapshot accepted, in bytes.
pub const PERCEPTUAL_SNAPSHOT_MAX_BYTES: u64 = 4_096;

/// Most frames a snapshot carries: one sixteen-frame exchange window.
pub const PERCEPTUAL_HISTORY_CAPACITY: usize = 16;

/// Bytes before the first frame: magic, version, frame count, sample rate, request id.
pub const SNAPSHOT_HEADER_LEN: usize = 32;

/// Bytes of one frame.
pub const SNAPSHOT_FRAME_LEN: usize = 201;

/// Perceptual band shares carried by each frame.
pub const PSB_SHARE_COUNT: usize = 20;

/// The magic that opens a snapshot: `KHPERC03`.
pub open spec fn snapshot_magic() -> Seq<u8> {
    seq![0x4Bu8, 0x48u8, 0x50u8, 0x45u8, 0x52u8, 0x43u8, 0x30u8, 0x33u8]
}

/// The unsigned little-endian field of `w` bytes at `o`.
pub open spec fn field(b: Seq<u8>, o: int, w: int) -> nat {
    le_uint(b.subrange(o, o + w))
}

/// The two's-complement little-endian `i64` at `o`.
pub open spec fn ifield(b: Seq<u8>, o: int) -> int {
    le_i64(b.subrange(o, o + 8))
}

/// The channel mode a byte stands for: 0 LR, 1 MID, 2 SIDE.
pub open spec fn mode_of_code(c: u8) -> Option<SpectrumChannelMode> {
    if c == 0 {
        Some(SpectrumChannelMode::Lr)
    } else if c == 1 {
        Some(SpectrumChannelMode::Mid)
    } else if c == 2 {
        Some(SpectrumChannelMode::Side)
    } else {
        None
    }
}

/// The byte of a channel mode.
pub open spec fn code_of_mode(m: SpectrumChannelMode) -> u8 {
    match m {
        SpectrumChannelMode::Lr => 0u8,
        SpectrumChannelMode::Mid => 1u8,
        SpectrumChannelMode::Side => 2u8,
    }
}

/// Where frame `k` starts.
pub open spec fn frame_off(k: int) -> int {
    SNAPSHOT_HEADER_LEN + SNAPSHOT_FRAME_LEN * k
}

/// One decoded frame, its measured values as raw `f64` bit patterns.
pub struct FrameView {
    pub presentation_end_samples: i64,
    pub state_epoch_samples: i64,
    pub generation: u64,
    pub channel_mode: SpectrumChannelMode,
    pub channels: u8,
    pub aperture_samples: u32,
    pub sharpness_bits: u64,
    pub has_psb: bool,
    pub share_bits: Seq<u64>,
}

/// A decoded snapshot.
pub struct SnapshotView {
    pub request_id: Seq<u8>,
    pub sample_rate: u32,
    pub frames: Seq<FrameView>,
}

/// The frame whose bytes start at `o`.
pub open spec fn frame_at(b: Seq<u8>, o: int) -> FrameView {
    FrameView {
        presentation_end_samples: ifield(b, o) as i64,
        state_epoch_samples: ifield(b, o + 8) as i64,
        generation: field(b, o + 16, 8) as u64,
        channel_mode: match mode_of_code(b[o + 24]) {
            Some(m) => m,
            None => SpectrumChannelMode::Lr,
        },
        channels: b[o + 25],
        aperture_samples: field(b, o + 28, 4) as u32,
        sharpness_bits: field(b, o + 32, 8) as u64,
        has_psb: b[o + 40] == 1,
        share_bits: Seq::new(PSB_SHARE_COUNT as nat, |k: int| field(b, o + 41 + 8 * k, 8) as u64),
    }
}

/// The integer rules of the frame at `o` of a snapshot at `sample_rate`: a generation, a known
/// channel mode with one or two channels (two for SIDE), a zero pad, the aperture of the rate,
/// epoch and end on the aperture grid with the end after the epoch, and a PSB flag of 0 or 1.
pub open spec fn frame_ok(b: Seq<u8>, o: int, sample_rate: nat) -> bool {
    let ap = field(b, o + 28, 4);
    &&& field(b, o + 16, 8) != 0
    &&& mode_of_code(b[o + 24]) is Some
    &&& (b[o + 25] == 1 || b[o + 25] == 2)
    &&& (mode_of_code(b[o + 24]) == Some(SpectrumChannelMode::Side) ==> b[o + 25] == 2)
    &&& field(b, o + 26, 2) == 0
    &&& ap == sample_rate / 10
    &&& ifield(b, o + 8) % (ap as int) == 0
    &&& ifield(b, o) > ifield(b, o + 8)
    &&& ifield(b, o) % (ap as int) == 0
    &&& (b[o + 40] == 0 || b[o + 40] == 1)
}

/// The header rules: size, magic, version, frame count, sample rate, and a length of exactly
/// the header and the counted frames.
pub open spec fn header_ok(b: Seq<u8>) -> bool {
    let count = field(b, 10, 2);
    let sr = field(b, 12, 4);
    &&& b.len() <= PERCEPTUAL_SNAPSHOT_MAX_BYTES
    &&& b.len() >= SNAPSHOT_HEADER_LEN
    &&& b.subrange(0, 8) == snapshot_magic()
    &&& field(b, 8, 2) == crate::perceptual::PERCEPTUAL_SCHEMA_VERSION
    &&& count <= PERCEPTUAL_HISTORY_CAPACITY
    &&& 8_000 <= sr <= 384_000
    &&& sr % 10 == 0
    &&& b.len() == frame_off(count as int)
}

/// The snapshot format: the decoded snapshot when the header and every frame follow the rules
/// and the aperture ends strictly increase, `None` otherwise.
pub open spec fn snapshot_layout(b: Seq<u8>) -> Option<SnapshotView> {
    let count = field(b, 10, 2) as int;
    let sr = field(b, 12, 4);
    if header_ok(b) && (forall|k: int| 0 <= k < count ==> #[trigger] frame_ok(b, frame_off(k), sr)) && (
    forall|k: int| 1 <= k < count ==> ifield(b, frame_off(k - 1)) < #[trigger] ifield(b, frame_off(k))) {
        Some(
            SnapshotView {
                request_id: b.subrange(16, 32),
                sample_rate: sr as u32,
                frames: Seq::new(count as nat, |k: int| frame_at(b, frame_off(k))),
            },
        )
    } else {
        None
    }
}


/// One frame of a snapshot as its bytes hold it; `sharpness_bits` and `share_bits` are the raw
/// bit patterns of the `f64` values.
#[derive(Debug, Clone, PartialEq)]
pub struct SnapshotFrameBits {
    pub presentation_end_samples: i64,
    pub state_epoch_samples: i64,
    pub generation: u64,
    pub channel_mode: SpectrumChannelMode,
    pub channels: u8,
    pub aperture_samples: u32,
    pub sharpness_bits: u64,
    pub has_psb: bool,
    pub share_bits: Vec<u64>,
}

impl View for SnapshotFrameBits {
    type V = FrameView;

    open spec fn view(&self) -> FrameView {
        FrameView {
            presentation_end_samples: self.presentation_end_samples,
            state_epoch_samples: self.state_epoch_samples,
            generation: self.generation,
            channel_mode: self.channel_mode,
            channels: self.channels,
            aperture_samples: self.aperture_samples,
            sharpness_bits: self.sharpness_bits,
            has_psb: self.has_psb,
            share_bits: self.share_bits@,
        }
    }
}

/// A snapshot as its bytes hold it: the 16 bytes of the request id, the sample rate and the
/// frames, oldest first.
#[derive(Debug, Clone, PartialEq)]
pub struct SnapshotBits {
    pub request_id: Vec<u8>,
    pub sample_rate: u32,
    pub frames: Vec<SnapshotFrameBits>,
}

impl View for SnapshotBits {
    type V = SnapshotView;

    open spec fn view(&self) -> SnapshotView {
        SnapshotView {
            request_id: self.request_id@,
            sample_rate: self.sample_rate,
            frames: self.frames@.map_values(|f: SnapshotFrameBits| f@),
        }
    }
}

pub open spec fn opt_snapshot_view(r: Option<SnapshotBits>) -> Option<SnapshotView> {
    match r {
        Some(s) => Some(s@),
        None => None,
    }
}

proof fn lemma_le_uint_one(s: Seq<u8>)
    requires
        s.len() == 1,
    ensures
        le_uint(s) == s[0] as nat,
{
    assert(s.drop_first().len() == 0);
    assert(le_uint(s.drop_first()) == 0);
}

fn byte_field(c: &mut Cursor) -> (r: Option<u8>)
    ensures
        final(c).data() == old(c).data(),
        match r {
            Some(v) => old(c).pos() + 1 <= old(c).data().len() && v == old(c).data()[old(c).pos() as int]
                && final(c).pos() == old(c).pos() + 1,
            None => old(c).pos() + 1 > old(c).data().len() && final(c).pos() == old(c).pos(),
        },
{
    let ghost d = c.data();
    let ghost p = c.pos() as int;
    let r = c.u8();
    proof {
        if r is Some {
            lemma_le_uint_one(d.subrange(p, p + 1));
        }
    }
    r
}

/// Reads one frame of a snapshot at `sample_rate` and checks its integer rules.
#[verifier::loop_isolation(false)]
fn decode_frame(c: &mut Cursor, sample_rate: u32) -> (r: Option<SnapshotFrameBits>)
    requires
        sample_rate >= 10,
    ensures
        final(c).data() == old(c).data(),
        match r {
            Some(f) => old(c).pos() + SNAPSHOT_FRAME_LEN <= old(c).data().len() && frame_ok(
                old(c).data(),
                old(c).pos() as int,
                sample_rate as nat,
            ) && f@ == frame_at(old(c).data(), old(c).pos() as int) && final(c).pos() == old(c).pos()
                + SNAPSHOT_FRAME_LEN,
            None => !(old(c).pos() + SNAPSHOT_FRAME_LEN <= old(c).data().len() && frame_ok(
                old(c).data(),
                old(c).pos() as int,
                sample_rate as nat,
            )),
        },
{
    let ghost d = c.data();
    let ghost o = c.pos() as int;
    let end = match c.i64() {
        Some(v) => v,
        None => return None,
    };
    let epoch = match c.i64() {
        Some(v) => v,
        None => return None,
    };
    let generation = match c.u64() {
        Some(v) => v,
        None => return None,
    };
    if generation == 0 {
        return None;
    }
    let mode_code = match byte_field(c) {
        Some(v) => v,
        None => return None,
    };
    let channel_mode = if mode_code == 0 {
        SpectrumChannelMode::Lr
    } else if mode_code == 1 {
        SpectrumChannelMode::Mid
    } else if mode_code == 2 {
        SpectrumChannelMode::Side
    } else {
        return None;
    };
    let channels = match byte_field(c) {
        Some(v) => v,
        None => return None,
    };
    if !(channels == 1 || channels == 2) {
        return None;
    }
    if mode_code == 2 && channels != 2 {
        return None;
    }
    let pad = match c.u16() {
        Some(v) => v,
        None => return None,
    };
    if pad != 0 {
        return None;
    }
    let aperture_samples = match c.u32() {
        Some(v) => v,
        None => return None,
    };
    if aperture_samples != sample_rate / 10 {
        return None;
    }
    let ap = aperture_samples as i64;
    if epoch.checked_rem_euclid(ap) != Some(0i64) || end <= epoch || end.checked_rem_euclid(ap) != Some(0i64) {
        return None;
    }
    let sharpness_bits = match c.u64() {
        Some(v) => v,
        None => return None,
    };
    let flag = match byte_field(c) {
        Some(v) => v,
        None => return None,
    };
    if flag > 1 {
        return None;
    }
    assert(frame_ok(d, o, sample_rate as nat));
    let mut share_bits: Vec<u64> = Vec::new();
    let mut k: usize = 0;
    while k < PSB_SHARE_COUNT
        invariant
            c.data() == d,
            c.pos() == o + 41 + 8 * k,
            c.pos() <= d.len(),
            k <= PSB_SHARE_COUNT,
            share_bits@.len() == k,
            forall|j: int| 0 <= j < k ==> share_bits@[j] == field(d, o + 41 + 8 * j, 8) as u64,
        decreases PSB_SHARE_COUNT - k,
    {
        let v = match c.u64() {
            Some(v) => v,
            None => return None,
        };
        share_bits.push(v);
        k = k + 1;
    }
    let f = SnapshotFrameBits {
        presentation_end_samples: end,
        state_epoch_samples: epoch,
        generation,
        channel_mode,
        channels,
        aperture_samples,
        sharpness_bits,
        has_psb: flag == 1,
        share_bits,
    };
    assert(f@.share_bits =~= frame_at(d, o).share_bits);
    Some(f)
}

/// `uuid::Uuid::from_slice` followed by `as_bytes`: the crate accepts exactly 16 bytes and
/// keeps them as they are, so the result is those bytes, or `None` for any other length.
#[verifier::external_body]
fn uuid_bytes_from_slice(b: &[u8]) -> (r: Option<Vec<u8>>)
    ensures
        r is Some <==> b@.len() == 16,
        r matches Some(v) ==> v@ == b@,
{
    uuid::Uuid::from_slice(b).ok().map(|u| u.as_bytes().to_vec())
}

proof fn lemma_ifield_range(b: Seq<u8>, o: int)
    requires
        0 <= o,
        o + 8 <= b.len(),
    ensures
        i64::MIN <= ifield(b, o) <= i64::MAX,
{
    lemma_le_uint_bound(b.subrange(o, o + 8));
    reveal_with_fuel(pow256, 9);
    assert(pow256(8) == 0x1_0000_0000_0000_0000);
}

fn is_snapshot_magic(m: &[u8]) -> (r: bool)
    ensures
        r == (m@ == snapshot_magic()),
{
    if m.len() != 8 {
        assert(m@.len() != snapshot_magic().len());
        return false;
    }
    let r = m[0] == 0x4B && m[1] == 0x48 && m[2] == 0x50 && m[3] == 0x45 && m[4] == 0x52 && m[5] == 0x43
        && m[6] == 0x30 && m[7] == 0x33;
    proof {
        if r {
            assert(m@ =~= snapshot_magic());
        } else if m@ == snapshot_magic() {
            assert(m@[0] == 0x4B && m@[1] == 0x48 && m@[2] == 0x50 && m@[3] == 0x45);
            assert(m@[4] == 0x52 && m@[5] == 0x43 && m@[6] == 0x30 && m@[7] == 0x33);
        }
    }
    r
}

/// Decodes a Perceptual Delta exchange snapshot: the snapshot the bytes hold when they follow
/// the format ([`snapshot_layout`]), `None` otherwise. The measured values come back as raw
/// bit patterns; whether they are valid numbers is for the caller to judge.
pub fn decode_perceptual_snapshot(bytes: &[u8]) -> (r: Option<SnapshotBits>)
    ensures
        opt_snapshot_view(r) == snapshot_layout(bytes@),
{
    let ghost b = bytes@;
    if bytes.len() > 4096 {
        return None;
    }
    let mut c = Cursor::new(bytes);
    let magic = match c.take(8) {
        Some(m) => m,
        None => return None,
    };
    if !is_snapshot_magic(magic) {
        return None;
    }
    let version = match c.u16() {
        Some(v) => v,
        None => return None,
    };
    if version != crate::perceptual::PERCEPTUAL_SCHEMA_VERSION {
        return None;
    }
    let count = match c.u16() {
        Some(v) => v,
        None => return None,
    };
    if count as usize > PERCEPTUAL_HISTORY_CAPACITY {
        return None;
    }
    let sample_rate = match c.u32() {
        Some(v) => v,
        None => return None,
    };
    if !(8_000 <= sample_rate && sample_rate <= 384_000 && sample_rate % 10 == 0) {
        return None;
    }
    let id = match c.take(16) {
        Some(s) => s,
        None => return None,
    };
    let request_id = match uuid_bytes_from_slice(id) {
        Some(v) => v,
        None => return None,
    };
    let n = count as usize;
    assert(field(b, 10, 2) == n);
    assert(field(b, 12, 4) == sample_rate);
    let mut frames: Vec<SnapshotFrameBits> = Vec::new();
    let mut last_end: i64 = 0;
    let mut k: usize = 0;
    while k < n
        invariant
            b == bytes@,
            c.data() == b,
            c.pos() == frame_off(k as int),
            k <= n,
            n <= PERCEPTUAL_HISTORY_CAPACITY,
            n == field(b, 10, 2),
            sample_rate == field(b, 12, 4),
            8_000 <= sample_rate <= 384_000,
            frames@.len() == k,
            forall|j: int| 0 <= j < k ==> #[trigger] frames@[j]@ == frame_at(b, frame_off(j)),
            forall|j: int| 0 <= j < k ==> #[trigger] frame_ok(b, frame_off(j), sample_rate as nat),
            forall|j: int| 1 <= j < k ==> ifield(b, frame_off(j - 1)) < #[trigger] ifield(b, frame_off(j)),
            k > 0 ==> last_end == ifield(b, frame_off(k - 1)),
        decreases n - k,
    {
        let f = match decode_frame(&mut c, sample_rate) {
            Some(f) => f,
            None => {
                assert(frame_off(k + 1) <= frame_off(n as int));
                assert(!frame_ok(b, frame_off(k as int), sample_rate as nat) || b.len() != frame_off(n as int));
                return None;
            },
        };
        proof {
            lemma_ifield_range(b, frame_off(k as int));
        }
        assert(f.presentation_end_samples == ifield(b, frame_off(k as int)));
        if k > 0 && f.presentation_end_samples <= last_end {
            assert(!(ifield(b, frame_off(k - 1)) < ifield(b, frame_off(k as int))));
            return None;
        }
        last_end = f.presentation_end_samples;
        frames.push(f);
        k = k + 1;
    }
    if c.remaining() != 0 {
        return None;
    }
    let r = SnapshotBits { request_id, sample_rate, frames };
    assert(r@.frames =~= Seq::new(n as nat, |j: int| frame_at(b, frame_off(j))));
    Some(r)
}

/// `v` as `n` little-endian bytes (its low `n` bytes).
pub open spec fn le_bytes(v: nat, n: nat) -> Seq<u8>
    decreases n,
{
    if n == 0 {
        Seq::empty()
    } else {
        seq![(v % 256) as u8] + le_bytes(v / 256, (n - 1) as nat)
    }
}

/// The two's-complement pattern of an `i64` value, as an unsigned number.
pub open spec fn twos(v: int) -> nat {
    if v >= 0 {
        v as nat
    } else {
        (v + 0x1_0000_0000_0000_0000) as nat
    }
}

/// The shares, eight little-endian bytes each.
pub open spec fn shares_bytes(s: Seq<u64>) -> Seq<u8>
    decreases s.len(),
{
    if s.len() == 0 {
        Seq::empty()
    } else {
        shares_bytes(s.drop_last()) + le_bytes(s.last() as nat, 8)
    }
}

/// The bytes of one frame.
pub open spec fn frame_bytes(f: FrameView) -> Seq<u8> {
    le_bytes(twos(f.presentation_end_samples as int), 8) + le_bytes(twos(f.state_epoch_samples as int), 8)
        + le_bytes(f.generation as nat, 8) + seq![code_of_mode(f.channel_mode), f.channels, 0u8, 0u8]
        + le_bytes(f.aperture_samples as nat, 4) + le_bytes(f.sharpness_bits as nat, 8) + seq![
        if f.has_psb {
            1u8
        } else {
            0u8
        },
    ] + shares_bytes(f.share_bits)
}

/// The bytes of the frames, oldest first.
pub open spec fn frames_bytes(fs: Seq<FrameView>) -> Seq<u8>
    decreases fs.len(),
{
    if fs.len() == 0 {
        Seq::empty()
    } else {
        frames_bytes(fs.drop_last()) + frame_bytes(fs.last())
    }
}

/// The frame count a header records: the number of frames, at most `u16::MAX`.
pub open spec fn counted(n: nat) -> nat {
    if n <= 0xFFFF {
        n
    } else {
        0xFFFF
    }
}

/// The bytes of a snapshot: magic, schema version, frame count, sample rate, request id, then
/// every frame.
pub open spec fn snapshot_bytes(s: SnapshotView) -> Seq<u8> {
    snapshot_magic() + le_bytes(crate::perceptual::PERCEPTUAL_SCHEMA_VERSION as nat, 2) + le_bytes(
        counted(s.frames.len()),
        2,
    ) + le_bytes(s.sample_rate as nat, 4) + s.request_id + frames_bytes(s.frames)
}

fn push_le(out: &mut Vec<u8>, v: u64, n: usize)
    requires
        n <= 8,
    ensures
        final(out)@ == old(out)@ + le_bytes(v as nat, n as nat),
    decreases n,
{
    if n == 0 {
        assert(old(out)@ + le_bytes(v as nat, 0) =~= old(out)@);
        return;
    }
    let ghost before = out@;
    out.push((v % 256) as u8);
    push_le(out, v / 256, n - 1);
    assert(before + le_bytes(v as nat, n as nat) =~= before.push((v % 256) as u8) + le_bytes(
        (v / 256) as nat,
        (n - 1) as nat,
    ));
}

fn twos_u64(v: i64) -> (r: u64)
    ensures
        r as nat == twos(v as int),
{
    let t: i128 = if v >= 0 {
        v as i128
    } else {
        v as i128 + 0x1_0000_0000_0000_0000i128
    };
    t as u64
}

fn push_frame(out: &mut Vec<u8>, f: &SnapshotFrameBits)
    ensures
        final(out)@ == old(out)@ + frame_bytes(f@),
{
    let ghost before = out@;
    push_le(out, twos_u64(f.presentation_end_samples), 8);
    push_le(out, twos_u64(f.state_epoch_samples), 8);
    push_le(out, f.generation, 8);
    let code: u8 = match f.channel_mode {
        SpectrumChannelMode::Lr => 0,
        SpectrumChannelMode::Mid => 1,
        SpectrumChannelMode::Side => 2,
    };
    out.push(code);
    out.push(f.channels);
    out.push(0);
    out.push(0);
    push_le(out, f.aperture_samples as u64, 4);
    push_le(out, f.sharpness_bits, 8);
    out.push(if f.has_psb { 1u8 } else { 0u8 });
    let ghost head = out@;
    let mut k: usize = 0;
    while k < f.share_bits.len()
        invariant
            k <= f.share_bits@.len(),
            out@ == head + shares_bytes(f.share_bits@.take(k as int)),
        decreases f.share_bits@.len() - k,
    {
        push_le(out, f.share_bits[k], 8);
        assert(f.share_bits@.take(k + 1).drop_last() =~= f.share_bits@.take(k as int));
        k = k + 1;
    }
    assert(f.share_bits@.take(k as int) =~= f.share_bits@);
    assert(out@ =~= before + frame_bytes(f@));
}

/// Encodes a snapshot: the magic, the schema version, the frame count (at most `u16::MAX`),
/// the sample rate, the request id and every frame.
pub fn encode_perceptual_snapshot(s: &SnapshotBits) -> (r: Vec<u8>)
    ensures
        r@ == snapshot_bytes(s@),
{
    let mut out: Vec<u8> = Vec::new();
    out.push(0x4B);
    out.push(0x48);
    out.push(0x50);
    out.push(0x45);
    out.push(0x52);
    out.push(0x43);
    out.push(0x30);
    out.push(0x33);
    assert(out@ =~= snapshot_magic());
    push_le(&mut out, crate::perceptual::PERCEPTUAL_SCHEMA_VERSION as u64, 2);
    let count: u64 = if s.frames.len() <= 0xFFFF {
        s.frames.len() as u64
    } else {
        0xFFFF
    };
    push_le(&mut out, count, 2);
    push_le(&mut out, s.sample_rate as u64, 4);
    let mut i: usize = 0;
    let ghost h0 = out@;
    while i < s.request_id.len()
        invariant
            i <= s.request_id@.len(),
            out@ == h0 + s.request_id@.take(i as int),
        decreases s.request_id@.len() - i,
    {
        out.push(s.request_id[i]);
        assert(h0 + s.request_id@.take(i + 1) =~= (h0 + s.request_id@.take(i as int)).push(s.request_id@[i as int]));
        i = i + 1;
    }
    assert(s.request_id@.take(i as int) =~= s.request_id@);
    let ghost head = out@;
    let ghost fs = s@.frames;
    let mut k: usize = 0;
    while k < s.frames.len()
        invariant
            k <= s.frames@.len(),
            fs == s@.frames,
            out@ == head + frames_bytes(fs.take(k as int)),
        decreases s.frames@.len() - k,
    {
        push_frame(&mut out, &s.frames[k]);
        assert(fs.take(k + 1).drop_last() =~= fs.take(k as int));
        assert(fs.take(k + 1).last() == s.frames@[k as int]@);
        k = k + 1;
    }
    assert(fs.take(k as int) =~= fs);
    assert(out@ =~= snapshot_bytes(s@));
    out
}

/// The integer rules a frame of a snapshot at `sample_rate` keeps, with its twenty shares.
pub open spec fn frame_valid(f: FrameView, sample_rate: nat) -> bool {
    let ap = f.aperture_samples as int;
    &&& f.generation != 0
    &&& (f.channels == 1 || f.channels == 2)
    &&& (f.channel_mode == SpectrumChannelMode::Side ==> f.channels == 2)
    &&& f.aperture_samples == sample_rate / 10
    &&& (f.state_epoch_samples as int) % ap == 0
    &&& f.presentation_end_samples > f.state_epoch_samples
    &&& (f.presentation_end_samples as int) % ap == 0
    &&& f.share_bits.len() == PSB_SHARE_COUNT
}

/// A snapshot the format can carry: a 16-byte request id, a sample rate in 8 kHz ..= 384 kHz
/// on whole 100 ms apertures, at most [`PERCEPTUAL_HISTORY_CAPACITY`] valid frames, and
/// strictly increasing aperture ends.
pub open spec fn snapshot_valid(s: SnapshotView) -> bool {
    &&& s.request_id.len() == 16
    &&& 8_000 <= s.sample_rate <= 384_000
    &&& s.sample_rate % 10 == 0
    &&& s.frames.len() <= PERCEPTUAL_HISTORY_CAPACITY
    &&& forall|k: int| 0 <= k < s.frames.len() ==> frame_valid(#[trigger] s.frames[k], s.sample_rate as nat)
    &&& forall|k: int|
        1 <= k < s.frames.len() ==> s.frames[k - 1].presentation_end_samples
            < #[trigger] s.frames[k].presentation_end_samples
}

proof fn lemma_le_bytes_len(v: nat, n: nat)
    ensures
        le_bytes(v, n).len() == n,
    decreases n,
{
    if n > 0 {
        lemma_le_bytes_len(v / 256, (n - 1) as nat);
    }
}

proof fn lemma_le_bytes_value(v: nat, n: nat)
    requires
        v < pow256(n),
    ensures
        le_uint(le_bytes(v, n)) == v,
    decreases n,
{
    if n > 0 {
        let p = pow256((n - 1) as nat);
        assert(v / 256 < p) by (nonlinear_arith)
            requires
                v < 256 * p,
        ;
        lemma_le_bytes_value(v / 256, (n - 1) as nat);
        let s = le_bytes(v, n);
        assert(s.drop_first() =~= le_bytes(v / 256, (n - 1) as nat));
        assert(v == (v % 256) + 256 * (v / 256)) by (nonlinear_arith);
    }
}

proof fn lemma_le_i64_twos(v: i64)
    ensures
        le_i64(le_bytes(twos(v as int), 8)) == v,
{
    reveal_with_fuel(pow256, 9);
    assert(pow256(8) == 0x1_0000_0000_0000_0000);
    lemma_le_bytes_value(twos(v as int), 8);
}

proof fn lemma_shares_bytes(s: Seq<u64>)
    ensures
        shares_bytes(s).len() == 8 * s.len(),
        forall|k: int| 0 <= k < s.len() ==> #[trigger] shares_bytes(s).subrange(8 * k, 8 * k + 8) == le_bytes(s[k] as nat, 8),
    decreases s.len(),
{
    if s.len() > 0 {
        let t = s.drop_last();
        lemma_shares_bytes(t);
        lemma_le_bytes_len(s.last() as nat, 8);
        let b = shares_bytes(s);
        assert forall|k: int| 0 <= k < s.len() implies #[trigger] b.subrange(8 * k, 8 * k + 8) == le_bytes(s[k] as nat, 8) by {
            if k < t.len() {
                assert(b.subrange(8 * k, 8 * k + 8) =~= shares_bytes(t).subrange(8 * k, 8 * k + 8));
                assert(t[k] == s[k]);
            } else {
                assert(b.subrange(8 * k, 8 * k + 8) =~= le_bytes(s.last() as nat, 8));
            }
        }
    }
}

proof fn lemma_frame_bytes_len(f: FrameView)
    requires
        f.share_bits.len() == PSB_SHARE_COUNT,
    ensures
        frame_bytes(f).len() == SNAPSHOT_FRAME_LEN,
{
    lemma_le_bytes_len(twos(f.presentation_end_samples as int), 8);
    lemma_le_bytes_len(twos(f.state_epoch_samples as int), 8);
    lemma_le_bytes_len(f.generation as nat, 8);
    lemma_le_bytes_len(f.aperture_samples as nat, 4);
    lemma_le_bytes_len(f.sharpness_bits as nat, 8);
    lemma_shares_bytes(f.share_bits);
}

proof fn lemma_frames_bytes(fs: Seq<FrameView>)
    requires
        forall|k: int| 0 <= k < fs.len() ==> (#[trigger] fs[k]).share_bits.len() == PSB_SHARE_COUNT,
    ensures
        frames_bytes(fs).len() == SNAPSHOT_FRAME_LEN * fs.len(),
        forall|k: int|
            0 <= k < fs.len() ==> #[trigger] frames_bytes(fs).subrange(
                SNAPSHOT_FRAME_LEN * k,
                SNAPSHOT_FRAME_LEN * k + SNAPSHOT_FRAME_LEN,
            ) == frame_bytes(fs[k]),
    decreases fs.len(),
{
    if fs.len() > 0 {
        let t = fs.drop_last();
        assert forall|k: int| 0 <= k < t.len() implies (#[trigger] t[k]).share_bits.len() == PSB_SHARE_COUNT by {
            assert(t[k] == fs[k]);
        }
        lemma_frames_bytes(t);
        lemma_frame_bytes_len(fs.last());
        let b = frames_bytes(fs);
        assert forall|k: int| 0 <= k < fs.len() implies #[trigger] b.subrange(
            SNAPSHOT_FRAME_LEN * k,
            SNAPSHOT_FRAME_LEN * k + SNAPSHOT_FRAME_LEN,
        ) == frame_bytes(fs[k]) by {
            if k < t.len() {
                assert(b.subrange(SNAPSHOT_FRAME_LEN * k, SNAPSHOT_FRAME_LEN * k + SNAPSHOT_FRAME_LEN)
                    =~= frames_bytes(t).subrange(SNAPSHOT_FRAME_LEN * k, SNAPSHOT_FRAME_LEN * k + SNAPSHOT_FRAME_LEN));
                assert(t[k] == fs[k]);
            } else {
                assert(b.subrange(SNAPSHOT_FRAME_LEN * k, SNAPSHOT_FRAME_LEN * k + SNAPSHOT_FRAME_LEN)
                    =~= frame_bytes(fs.last()));
            }
        }
    }
}

#[verifier::rlimit(40)]
proof fn lemma_frame_read_back(b: Seq<u8>, o: int, f: FrameView, sample_rate: nat)
    requires
        0 <= o,
        o + SNAPSHOT_FRAME_LEN <= b.len(),
        b.subrange(o, o + SNAPSHOT_FRAME_LEN) == frame_bytes(f),
        frame_valid(f, sample_rate),
    ensures
        frame_ok(b, o, sample_rate),
        frame_at(b, o) == f,
{
    let fb = frame_bytes(f);
    lemma_le_bytes_len(twos(f.presentation_end_samples as int), 8);
    lemma_le_bytes_len(twos(f.state_epoch_samples as int), 8);
    lemma_le_bytes_len(f.generation as nat, 8);
    lemma_le_bytes_len(f.aperture_samples as nat, 4);
    lemma_le_bytes_len(f.sharpness_bits as nat, 8);
    lemma_shares_bytes(f.share_bits);
    reveal_with_fuel(pow256, 9);
    assert(pow256(8) == 0x1_0000_0000_0000_0000);
    assert(pow256(4) == 0x1_0000_0000);
    assert(pow256(2) == 0x1_0000);
    let a1 = le_bytes(twos(f.presentation_end_samples as int), 8);
    let a2 = le_bytes(twos(f.state_epoch_samples as int), 8);
    let a3 = le_bytes(f.generation as nat, 8);
    let a4 = seq![code_of_mode(f.channel_mode), f.channels, 0u8, 0u8];
    let a5 = le_bytes(f.aperture_samples as nat, 4);
    let a6 = le_bytes(f.sharpness_bits as nat, 8);
    let a7 = seq![if f.has_psb { 1u8 } else { 0u8 }];
    let a8 = shares_bytes(f.share_bits);
    let q2 = a1 + a2;
    let q3 = q2 + a3;
    let q4 = q3 + a4;
    let q5 = q4 + a5;
    let q6 = q5 + a6;
    let q7 = q6 + a7;
    assert(fb == q7 + a8);
    assert(fb.subrange(0, 41) =~= q7);
    assert(q7.subrange(0, 40) =~= q6);
    assert(q6.subrange(32, 40) =~= a6);
    assert(q6.subrange(0, 32) =~= q5);
    assert(q5.subrange(28, 32) =~= a5);
    assert(q5.subrange(0, 28) =~= q4);
    assert(q4.subrange(24, 28) =~= a4);
    assert(q4.subrange(0, 24) =~= q3);
    assert(q3.subrange(16, 24) =~= a3);
    assert(q3.subrange(0, 16) =~= q2);
    assert(q2.subrange(8, 16) =~= a2);
    assert(q2.subrange(0, 8) =~= a1);
    assert(fb.subrange(41, 201) =~= a8);
    assert(b.subrange(o, o + 8) =~= fb.subrange(0, 41).subrange(0, 40).subrange(0, 32).subrange(0, 28).subrange(
        0,
        24,
    ).subrange(0, 16).subrange(0, 8));
    assert(b.subrange(o + 8, o + 16) =~= fb.subrange(0, 41).subrange(0, 40).subrange(0, 32).subrange(0, 28).subrange(
        0,
        24,
    ).subrange(0, 16).subrange(8, 16));
    assert(b.subrange(o + 16, o + 24) =~= fb.subrange(0, 41).subrange(0, 40).subrange(0, 32).subrange(0, 28).subrange(
        0,
        24,
    ).subrange(16, 24));
    assert(b.subrange(o + 24, o + 28) =~= fb.subrange(0, 41).subrange(0, 40).subrange(0, 32).subrange(0, 28).subrange(
        24,
        28,
    ));
    assert(b.subrange(o + 28, o + 32) =~= fb.subrange(0, 41).subrange(0, 40).subrange(0, 32).subrange(28, 32));
    assert(b.subrange(o + 32, o + 40) =~= fb.subrange(0, 41).subrange(0, 40).subrange(32, 40));
    assert(b[o + 40] == fb.subrange(0, 41)[40]);
    assert(b.subrange(o + 41, o + 201) =~= fb.subrange(41, 201));
    assert(b.subrange(o + 26, o + 28) =~= seq![0u8, 0u8]);
    assert(b[o + 24] == a4[0] && b[o + 25] == a4[1]);
    assert(b[o + 40] == a7[0]);
    lemma_le_i64_twos(f.presentation_end_samples);
    lemma_le_i64_twos(f.state_epoch_samples);
    lemma_le_bytes_value(f.generation as nat, 8);
    lemma_le_bytes_value(f.aperture_samples as nat, 4);
    lemma_le_bytes_value(f.sharpness_bits as nat, 8);
    reveal_with_fuel(le_uint, 3);
    let shares = Seq::new(PSB_SHARE_COUNT as nat, |k: int| field(b, o + 41 + 8 * k, 8) as u64);
    assert forall|k: int| 0 <= k < PSB_SHARE_COUNT implies shares[k] == f.share_bits[k] by {
        assert(b.subrange(o + 41 + 8 * k, o + 41 + 8 * k + 8) =~= b.subrange(o + 41, o + 201).subrange(8 * k, 8 * k + 8));
        assert(a8.subrange(8 * k, 8 * k + 8) == le_bytes(f.share_bits[k] as nat, 8));
        lemma_le_bytes_value(f.share_bits[k] as nat, 8);
    }
    assert(shares =~= f.share_bits);
}

proof fn lemma_snapshot_frame(s: SnapshotView, k: int)
    requires
        snapshot_valid(s),
        0 <= k < s.frames.len(),
    ensures
        frame_ok(snapshot_bytes(s), frame_off(k), s.sample_rate as nat),
        frame_at(snapshot_bytes(s), frame_off(k)) == s.frames[k],
        ifield(snapshot_bytes(s), frame_off(k)) == s.frames[k].presentation_end_samples,
{
    let b = snapshot_bytes(s);
    lemma_frames_bytes(s.frames);
    lemma_le_bytes_len(crate::perceptual::PERCEPTUAL_SCHEMA_VERSION as nat, 2);
    lemma_le_bytes_len(counted(s.frames.len()), 2);
    lemma_le_bytes_len(s.sample_rate as nat, 4);
    assert(b.subrange(frame_off(k), frame_off(k) + SNAPSHOT_FRAME_LEN) =~= frames_bytes(s.frames).subrange(
        SNAPSHOT_FRAME_LEN * k,
        SNAPSHOT_FRAME_LEN * k + SNAPSHOT_FRAME_LEN,
    ));
    lemma_frame_read_back(b, frame_off(k), s.frames[k], s.sample_rate as nat);
    lemma_ifield_range(b, frame_off(k));
}

/// Decoding what was encoded gives the snapshot back: every snapshot the format can carry
/// ([`snapshot_valid`]) is read back whole from its encoding.
#[verifier::rlimit(40)]
pub proof fn lemma_decode_of_encode(s: SnapshotView)
    requires
        snapshot_valid(s),
    ensures
        snapshot_layout(snapshot_bytes(s)) == Some(s),
{
    let b = snapshot_bytes(s);
    let n = s.frames.len();
    lemma_frames_bytes(s.frames);
    lemma_le_bytes_len(crate::perceptual::PERCEPTUAL_SCHEMA_VERSION as nat, 2);
    lemma_le_bytes_len(counted(n), 2);
    lemma_le_bytes_len(s.sample_rate as nat, 4);
    reveal_with_fuel(pow256, 5);
    assert(b.subrange(0, 8) =~= snapshot_magic());
    assert(b.subrange(8, 10) =~= le_bytes(crate::perceptual::PERCEPTUAL_SCHEMA_VERSION as nat, 2));
    assert(b.subrange(10, 12) =~= le_bytes(counted(n), 2));
    assert(b.subrange(12, 16) =~= le_bytes(s.sample_rate as nat, 4));
    assert(b.subrange(16, 32) =~= s.request_id);
    lemma_le_bytes_value(crate::perceptual::PERCEPTUAL_SCHEMA_VERSION as nat, 2);
    lemma_le_bytes_value(counted(n), 2);
    lemma_le_bytes_value(s.sample_rate as nat, 4);
    assert forall|k: int| 0 <= k < n implies #[trigger] frame_ok(b, frame_off(k), s.sample_rate as nat) by {
        lemma_snapshot_frame(s, k);
    }
    assert forall|k: int| 1 <= k < n implies ifield(b, frame_off(k - 1)) < #[trigger] ifield(b, frame_off(k)) by {
        lemma_snapshot_frame(s, k - 1);
        lemma_snapshot_frame(s, k);
    }
    let v = snapshot_layout(b)->0;
    assert forall|k: int| 0 <= k < n implies v.frames[k] == s.frames[k] by {
        lemma_snapshot_frame(s, k);
    }
    assert(v.frames =~= s.frames);
}

proof fn lemma_le_uint_bytes(x: Seq<u8>)
    ensures
        le_bytes(le_uint(x), x.len()) == x,
    decreases x.len(),
{
    if x.len() > 0 {
        let t = x.drop_first();
        lemma_le_uint_bytes(t);
        let v = le_uint(x);
        assert(v == x[0] as nat + 256 * le_uint(t));
        assert(v % 256 == x[0] as nat && v / 256 == le_uint(t)) by (nonlinear_arith)
            requires
                v == x[0] as nat + 256 * le_uint(t),
                x[0] < 256,
        ;
        assert(le_bytes(v, x.len()) =~= seq![x[0]] + le_bytes(le_uint(t), t.len()));
        assert(x =~= seq![x[0]] + t);
    }
}

proof fn lemma_field_bytes(b: Seq<u8>, o: int, w: nat)
    requires
        0 <= o,
        o + w <= b.len(),
    ensures
        le_bytes(field(b, o, w as int), w) == b.subrange(o, o + w),
        field(b, o, w as int) < pow256(w),
{
    lemma_le_uint_bytes(b.subrange(o, o + w));
    lemma_le_uint_bound(b.subrange(o, o + w));
}

proof fn lemma_ifield_bytes(b: Seq<u8>, o: int)
    requires
        0 <= o,
        o + 8 <= b.len(),
    ensures
        le_bytes(twos(ifield(b, o)), 8) == b.subrange(o, o + 8),
{
    lemma_field_bytes(b, o, 8);
    reveal_with_fuel(pow256, 9);
    assert(pow256(8) == 0x1_0000_0000_0000_0000);
}

#[verifier::rlimit(40)]
proof fn lemma_frame_bytes_back(b: Seq<u8>, o: int, sample_rate: nat)
    requires
        0 <= o,
        o + SNAPSHOT_FRAME_LEN <= b.len(),
        frame_ok(b, o, sample_rate),
    ensures
        frame_bytes(frame_at(b, o)) == b.subrange(o, o + SNAPSHOT_FRAME_LEN),
        frame_valid(frame_at(b, o), sample_rate),
{
    let f = frame_at(b, o);
    reveal_with_fuel(pow256, 9);
    assert(pow256(8) == 0x1_0000_0000_0000_0000);
    assert(pow256(4) == 0x1_0000_0000);
    lemma_ifield_bytes(b, o);
    lemma_ifield_bytes(b, o + 8);
    lemma_ifield_range(b, o);
    lemma_ifield_range(b, o + 8);
    lemma_field_bytes(b, o + 16, 8);
    lemma_field_bytes(b, o + 28, 4);
    lemma_field_bytes(b, o + 32, 8);
    let sh = f.share_bits;
    assert forall|j: int| 0 <= j < PSB_SHARE_COUNT implies le_bytes(#[trigger] sh[j] as nat, 8) == b.subrange(
        o + 41 + 8 * j,
        o + 41 + 8 * j + 8,
    ) by {
        lemma_field_bytes(b, o + 41 + 8 * j, 8);
    }
    lemma_shares_bytes(sh);
    lemma_le_bytes_len(twos(f.presentation_end_samples as int), 8);
    lemma_le_bytes_len(twos(f.state_epoch_samples as int), 8);
    lemma_le_bytes_len(f.generation as nat, 8);
    lemma_le_bytes_len(f.aperture_samples as nat, 4);
    lemma_le_bytes_len(f.sharpness_bits as nat, 8);
    assert(shares_bytes(sh) =~= b.subrange(o + 41, o + 201)) by {
        assert forall|i: int| 0 <= i < 160 implies shares_bytes(sh)[i] == b[o + 41 + i] by {
            let j = i / 8;
            assert(0 <= j < 20 && 8 * j <= i < 8 * j + 8) by (nonlinear_arith)
                requires
                    0 <= i < 160,
                    j == i / 8,
            ;
            assert(shares_bytes(sh).subrange(8 * j, 8 * j + 8)[i - 8 * j] == shares_bytes(sh)[i]);
            assert(b.subrange(o + 41 + 8 * j, o + 41 + 8 * j + 8)[i - 8 * j] == b[o + 41 + i]);
        }
    }
    reveal_with_fuel(le_uint, 3);
    assert(b[o + 26] == 0 && b[o + 27] == 0) by {
        assert(field(b, o + 26, 2) == b[o + 26] as nat + 256 * (b[o + 27] as nat));
        assert(b.subrange(o + 26, o + 28)[0] == b[o + 26]);
        assert(b.subrange(o + 26, o + 28)[1] == b[o + 27]);
    }
    assert(code_of_mode(f.channel_mode) == b[o + 24]);
    assert((if f.has_psb { 1u8 } else { 0u8 }) == b[o + 40]);
    assert(frame_bytes(f) =~= b.subrange(o, o + SNAPSHOT_FRAME_LEN));
}

proof fn lemma_frames_bytes_back(b: Seq<u8>, n: nat, sample_rate: nat)
    requires
        frame_off(n as int) <= b.len(),
        forall|k: int| 0 <= k < n ==> #[trigger] frame_ok(b, frame_off(k), sample_rate),
    ensures
        frames_bytes(Seq::new(n, |k: int| frame_at(b, frame_off(k)))) == b.subrange(
            SNAPSHOT_HEADER_LEN as int,
            frame_off(n as int),
        ),
    decreases n,
{
    let fs = Seq::new(n, |k: int| frame_at(b, frame_off(k)));
    if n > 0 {
        let m = (n - 1) as nat;
        lemma_frames_bytes_back(b, m, sample_rate);
        assert(fs.drop_last() =~= Seq::new(m, |k: int| frame_at(b, frame_off(k))));
        assert(frame_ok(b, frame_off(m as int), sample_rate));
        lemma_frame_bytes_back(b, frame_off(m as int), sample_rate);
        assert(b.subrange(SNAPSHOT_HEADER_LEN as int, frame_off(n as int)) =~= b.subrange(
            SNAPSHOT_HEADER_LEN as int,
            frame_off(m as int),
        ) + b.subrange(frame_off(m as int), frame_off(n as int)));
    } else {
        assert(fs =~= Seq::<FrameView>::empty());
        assert(b.subrange(SNAPSHOT_HEADER_LEN as int, frame_off(0)) =~= Seq::<u8>::empty());
    }
}

/// Encoding what was decoded gives the bytes back: a snapshot that decodes is one the format
/// can carry, and its encoding is exactly the bytes it was decoded from.
#[verifier::rlimit(40)]
pub proof fn lemma_encode_of_decode(b: Seq<u8>)
    requires
        snapshot_layout(b) is Some,
    ensures
        snapshot_valid(snapshot_layout(b)->0),
        snapshot_bytes(snapshot_layout(b)->0) == b,
{
    let v = snapshot_layout(b)->0;
    let n = field(b, 10, 2);
    let sr = field(b, 12, 4);
    lemma_field_bytes(b, 8, 2);
    lemma_field_bytes(b, 10, 2);
    lemma_field_bytes(b, 12, 4);
    reveal_with_fuel(pow256, 5);
    assert forall|k: int| 0 <= k < v.frames.len() implies frame_valid(#[trigger] v.frames[k], v.sample_rate as nat) by {
        assert(frame_ok(b, frame_off(k), sr));
        lemma_frame_bytes_back(b, frame_off(k), sr);
    }
    assert forall|k: int| 1 <= k < v.frames.len() implies v.frames[k - 1].presentation_end_samples
        < #[trigger] v.frames[k].presentation_end_samples by {
        assert(ifield(b, frame_off(k - 1)) < ifield(b, frame_off(k)));
        lemma_ifield_range(b, frame_off(k - 1));
        lemma_ifield_range(b, frame_off(k));
    }
    lemma_frames_bytes_back(b, n, sr);
    assert(counted(v.frames.len()) == n);
    assert(b =~= b.subrange(0, 8) + b.subrange(8, 10) + b.subrange(10, 12) + b.subrange(12, 16) + b.subrange(
        16,
        32,
    ) + b.subrange(32, frame_off(n as int)));
}

} // verus!
