//! The streaming pipeline: staging buffer, cursor state and page draining.

use vstd::prelude::*;
use vstd::slice::slice_subrange;

use crate::engine::inflate_step;
use crate::engine::Inflater;
use crate::engine::window_holds;
use crate::engine::zlib_inflate;
use crate::engine::STATUS_DONE;
use crate::engine::STATUS_NEEDS_MORE_INPUT;

verus! {

/// Bytes the staging buffer holds; also the decoder's dictionary window.
pub const OUT_BUFFER_CAPACITY: usize = 32768;

/// Fixed-capacity staging area for decoded bytes that are not yet written.
///
/// The whole buffer doubles as the decoder's circular window, so bytes past
/// the valid prefix are kept (never cleared) between extractions.
pub struct OutBuffer {
    buffer: [u8; OUT_BUFFER_CAPACITY],
    len: usize,
}

impl View for OutBuffer {
    type V = Seq<u8>;

    /// The staged bytes: the valid prefix of the buffer.
    closed spec fn view(&self) -> Seq<u8> {
        self.buffer@.subrange(0, self.len as int)
    }
}

impl OutBuffer {
    /// The whole buffer, staged bytes and decoder window alike.
    pub closed spec fn window(&self) -> Seq<u8> {
        self.buffer@
    }

    /// The buffer has its fixed capacity and the valid length fits in it.
    pub closed spec fn wf(&self) -> bool {
        &&& self.buffer@.len() == OUT_BUFFER_CAPACITY
        &&& self.len <= OUT_BUFFER_CAPACITY
    }

    /// An empty staging buffer, all zero.
    pub fn new() -> (r: Self)
        ensures
            r.wf(),
            r@ == Seq::<u8>::empty(),
            forall|i: int| 0 <= i < OUT_BUFFER_CAPACITY ==> #[trigger] r.window()[i] == 0u8,
    {
        let mut r = OutBuffer { buffer: [0u8; OUT_BUFFER_CAPACITY], len: 0 };
        r.clear();
        r
    }

    /// Free bytes left after the staged ones.
    fn space(&self) -> (r: usize)
        requires
            self.wf(),
        ensures
            r == OUT_BUFFER_CAPACITY - self@.len(),
    {
        OUT_BUFFER_CAPACITY - self.len
    }

    /// Whether no free byte is left.
    pub fn full(&self) -> (r: bool)
        requires
            self.wf(),
        ensures
            r == (self@.len() == OUT_BUFFER_CAPACITY),
    {
        self.space() == 0
    }

    /// Clears the staged bytes and zeroes the whole buffer, so that a new
    /// stream's decoder starts on an all-zero window.
    fn clear(&mut self)
        requires
            old(self).wf(),
        ensures
            final(self).wf(),
            final(self)@ == Seq::<u8>::empty(),
            forall|i: int| 0 <= i < OUT_BUFFER_CAPACITY ==> #[trigger] final(self).window()[i] == 0u8,
    {
        self.len = 0;
        let mut i: usize = 0;
        while i < OUT_BUFFER_CAPACITY
            invariant
                self.len == 0,
                i <= OUT_BUFFER_CAPACITY,
                self.buffer@.len() == OUT_BUFFER_CAPACITY,
                forall|j: int| 0 <= j < i ==> #[trigger] self.buffer@[j] == 0u8,
            decreases OUT_BUFFER_CAPACITY - i,
        {
            self.buffer[i] = 0;
            i += 1;
        }
        assert(self@ =~= Seq::<u8>::empty());
    }

    /// Hands the staged bytes to `out`, then clears them; returns what `out`
    /// returned. The buffer's contents stay in place as the decoder's window.
    pub fn take<R, F: FnOnce(&[u8]) -> R>(&mut self, out: F) -> (r: R)
        requires
            old(self).wf(),
            forall|d: &[u8]| d@ == old(self)@ ==> #[trigger] out.requires((d,)),
        ensures
            final(self).wf(),
            final(self)@ == Seq::<u8>::empty(),
            final(self).window() == old(self).window(),
            exists|d: &[u8]| d@ == old(self)@ && #[trigger] out.ensures((d,), r),
    {
        let n = self.len;
        self.len = 0;
        let data = slice_subrange(self.buffer.as_slice(), 0, n);
        let r = out(data);
        assert(self@ =~= Seq::<u8>::empty());
        r
    }
}

/// Bytes the storage accepts per write call.
pub const PAGE_SIZE: usize = 256;

/// Where the flash device is mapped: image addresses minus this are device addresses.
pub const FLASH_BASE: u32 = 0x6000_0000;

/// Device addresses wrap at 32 bits.
pub open spec fn modulus() -> int {
    0x1_0000_0000
}

/// The device address of byte `k` of the image that starts at `image_start`.
pub open spec fn device_address(image_start: u32, k: int) -> int {
    (image_start as int + k - FLASH_BASE as int) % modulus()
}

/// The little-endian unsigned number in the first four bytes of `b`.
pub open spec fn le_u32(b: Seq<u8>) -> int {
    b[0] as int + 0x100 * b[1] as int + 0x1_0000 * b[2] as int + 0x100_0000 * b[3] as int
}

/// Why a call into the pipeline failed.
#[derive(Clone, Copy, Debug, PartialEq, Eq, Structural)]
pub enum DecompressorError {
    /// The decoder stopped with this terminal status code (below zero).
    MinizError(i8),
    /// A page write returned this non-zero device status.
    ProgramError(u32),
    /// Data arrived for an image whose declared compressed length is used up.
    Overrun,
    /// A new image started with fewer than four bytes, so no length header.
    Underrun,
}

pub type DecompressorResult<T> = Result<T, DecompressorError>;

impl DecompressorError {
    /// The flat status number the host protocol reports: device statuses as
    /// they are, decoder codes from 10000 up, 20000 for an overrun and 20001
    /// for an underrun.
    pub open spec fn spec_code(self) -> int {
        match self {
            DecompressorError::ProgramError(status) => status as int,
            DecompressorError::MinizError(status) => 10004 + status as int,
            DecompressorError::Overrun => 20000,
            DecompressorError::Underrun => 20001,
        }
    }

    /// The flat status number of this error.
    pub fn code(&self) -> (r: u32)
        ensures
            r as int == self.spec_code(),
    {
        match self {
            DecompressorError::ProgramError(status) => *status,
            DecompressorError::MinizError(status) => (10004i32 + *status as i32) as u32,
            DecompressorError::Overrun => 20000,
            DecompressorError::Underrun => 20001,
        }
    }
}

/// What the caller must do next.
#[derive(Clone, Copy, Debug, PartialEq, Eq)]
pub enum Step {
    /// Program the bytes of `Decompressor::page` at this device address,
    /// then report the device status with `Decompressor::page_done`.
    WritePage(u32),
    /// The call is over, with this outcome.
    Done(DecompressorResult<()>),
}

/// What a drain goes on with once its last page is written.
#[derive(Clone, Copy)]
enum AfterDrain {
    /// Report success: the drain was an explicit flush.
    Return,
    /// Go on decoding the current chunk.
    Decode,
    /// Start the image at this address from the pending chunk.
    Open(u32),
}

/// Staged bytes taken out of the buffer and being written page by page.
#[derive(Clone, Copy)]
struct Drain {
    /// Bytes taken; they sit at the start of the buffer.
    len: usize,
    /// Bytes of them already handed out.
    pos: usize,
    /// Device address of the next page.
    address: u32,
    after: AfterDrain,
}

/// Mod-2^32 facts used for wrapping address arithmetic.
proof fn lemma_wrap_add(x: int, y: int)
    ensures
        ((x % modulus()) + y) % modulus() == (x + y) % modulus(),
{
    vstd::arithmetic::div_mod::lemma_add_mod_noop(x % modulus(), y, modulus());
    vstd::arithmetic::div_mod::lemma_mod_twice(x, modulus());
    vstd::arithmetic::div_mod::lemma_add_mod_noop(x, y, modulus());
}

/// Appending two adjacent slices of `s` appends the slice they make up.
proof fn lemma_append_adjacent(pre: Seq<u8>, s: Seq<u8>, a: int, b: int, c: int)
    requires
        0 <= a <= b <= c <= s.len(),
    ensures
        pre + s.subrange(a, b) + s.subrange(b, c) == pre + s.subrange(a, c),
{
    assert(s.subrange(a, b) + s.subrange(b, c) =~= s.subrange(a, c));
    assert(pre + s.subrange(a, b) + s.subrange(b, c) =~= pre + (s.subrange(a, b) + s.subrange(
        b,
        c,
    )));
}

/// A decode step that writes `made` bytes at `out_pos` of a window holding
/// the output so far, and leaves the rest of the window alone, leaves a
/// window holding the output with those bytes appended.
proof fn lemma_window_step(p: Seq<u8>, w0: Seq<u8>, w1: Seq<u8>, out_pos: int, made: int)
    requires
        w0.len() == OUT_BUFFER_CAPACITY,
        w1.len() == OUT_BUFFER_CAPACITY,
        window_holds(p, w0, out_pos),
        0 <= made,
        out_pos + made <= OUT_BUFFER_CAPACITY,
        forall|i: int| 0 <= i < out_pos ==> w1[i] == w0[i],
        forall|i: int| out_pos + made <= i < OUT_BUFFER_CAPACITY ==> w1[i] == w0[i],
    ensures
        (out_pos + made) % (OUT_BUFFER_CAPACITY as int) == (p.len() + made) % (
        OUT_BUFFER_CAPACITY as int),
        forall|j: int|
            0 <= j && p.len() + made - OUT_BUFFER_CAPACITY <= j < p.len() + made ==> #[trigger] (p
                + w1.subrange(out_pos, out_pos + made))[j] == w1[j % (OUT_BUFFER_CAPACITY as int)],
        forall|i: int| p.len() + made <= i < OUT_BUFFER_CAPACITY ==> #[trigger] w1[i] == 0u8,
{
    if p.len() < OUT_BUFFER_CAPACITY {
        vstd::arithmetic::div_mod::lemma_small_mod(p.len(), OUT_BUFFER_CAPACITY as nat);
        assert forall|i: int| p.len() + made <= i < OUT_BUFFER_CAPACITY implies #[trigger] w1[i]
            == 0u8 by {
            assert(w1[i] == w0[i]);
        }
    }
    let w = OUT_BUFFER_CAPACITY as int;
    let n = p.len() as int;
    let qd = n / w;
    vstd::arithmetic::div_mod::lemma_fundamental_div_mod(n, w);
    assert(n == qd * w + out_pos);
    let q = p + w1.subrange(out_pos, out_pos + made);
    if out_pos + made < w {
        vstd::arithmetic::div_mod::lemma_fundamental_div_mod_converse(n + made, w, qd, out_pos + made);
        vstd::arithmetic::div_mod::lemma_small_mod((out_pos + made) as nat, w as nat);
    } else {
        assert(n + made == (qd + 1) * w + 0) by (nonlinear_arith)
            requires
                n == qd * w + out_pos,
                out_pos + made == w,
        ;
        vstd::arithmetic::div_mod::lemma_fundamental_div_mod_converse(n + made, w, qd + 1, 0);
        vstd::arithmetic::div_mod::lemma_mod_self_0(w);
    }
    assert forall|j: int| 0 <= j && n + made - w <= j < n + made implies #[trigger] q[j] == w1[j
        % w] by {
        if j >= n {
            vstd::arithmetic::div_mod::lemma_fundamental_div_mod_converse(
                j,
                w,
                qd,
                out_pos + (j - n),
            );
        } else {
            let t = n - j;
            if t <= out_pos {
                vstd::arithmetic::div_mod::lemma_fundamental_div_mod_converse(
                    j,
                    w,
                    qd,
                    out_pos - t,
                );
            } else {
                assert(j == (qd - 1) * w + (w + out_pos - t)) by (nonlinear_arith)
                    requires
                        n == qd * w + out_pos,
                        t == n - j,
                ;
                vstd::arithmetic::div_mod::lemma_fundamental_div_mod_converse(
                    j,
                    w,
                    qd - 1,
                    w + out_pos - t,
                );
            }
            assert(q[j] == p[j]);
            assert(p[j] == w0[j % w]);
        }
    }
}

/// Wrapping 32-bit addition and subtraction, as arithmetic mod 2^32.
proof fn lemma_wrapping(x: u32, y: u32)
    ensures
        x.wrapping_add(y) as int == (x + y) % modulus(),
        x.wrapping_sub(y) as int == (x - y) % modulus(),
{
    if x + y > u32::MAX {
        vstd::arithmetic::div_mod::lemma_mod_add_multiples_vanish(x + y - modulus(), modulus());
        vstd::arithmetic::div_mod::lemma_small_mod((x + y - modulus()) as nat, modulus() as nat);
    } else {
        vstd::arithmetic::div_mod::lemma_small_mod((x + y) as nat, modulus() as nat);
    }
    if x - y < 0 {
        vstd::arithmetic::div_mod::lemma_mod_sub_multiples_vanish(x - y + modulus(), modulus());
        vstd::arithmetic::div_mod::lemma_small_mod((x - y + modulus()) as nat, modulus() as nat);
    } else {
        vstd::arithmetic::div_mod::lemma_small_mod((x - y) as nat, modulus() as nat);
    }
}

/// The streaming pipeline: one decoder, one staging buffer and the cursor of
/// the image being reconstructed.
///
/// Storage writes are done by the caller: each call returns a [`Step`], and a
/// `WritePage` step is answered with [`Decompressor::page_done`].
pub struct Decompressor {
    decompressor: Inflater,
    output: OutBuffer,
    image_start: u32,
    offset: u32,
    remaining_compressed: usize,
    /// The chunk of the call in progress.
    input: Vec<u8>,
    /// Next byte of `input` to decode, and the end of its declared part.
    input_pos: usize,
    input_end: usize,
    /// Whether the chunk in progress ends the image's compressed data.
    last: bool,
    /// Status of the latest decode step.
    status: i8,
    drain: Option<Drain>,
    /// Every byte the decoder produced for the current image.
    produced: Ghost<Seq<u8>>,
    /// The bytes of every page whose write succeeded, for the current image.
    acked: Ghost<Seq<u8>>,
    /// No page write has failed for the current image.
    intact: Ghost<bool>,
    /// The window holds the current image's output in circular order.
    aligned: Ghost<bool>,
}

impl Decompressor {
    /// Address of the image being reconstructed.
    pub closed spec fn spec_image_start(&self) -> u32 {
        self.image_start
    }

    /// Bytes of the image handed to the storage writer so far, mod 2^32.
    pub closed spec fn spec_offset(&self) -> u32 {
        self.offset
    }

    /// Compressed bytes of the image not yet received.
    pub closed spec fn spec_remaining(&self) -> usize {
        self.remaining_compressed
    }

    /// Bytes decoded and waiting in the staging buffer.
    pub closed spec fn staged(&self) -> Seq<u8> {
        self.output@
    }

    /// Every byte the decoder produced for the current image, in order.
    pub closed spec fn produced(&self) -> Seq<u8> {
        self.produced@
    }

    /// The bytes of every successfully written page of the current image, in order.
    pub closed spec fn acked(&self) -> Seq<u8> {
        self.acked@
    }

    /// No page write of the current image has failed.
    pub closed spec fn intact(&self) -> bool {
        self.intact@
    }

    /// Bytes of the image that have left the staging buffer.
    pub closed spec fn flushed(&self) -> int {
        self.produced@.len() - self.output@.len()
    }

    /// No page is waiting to be written: a new call may start.
    pub closed spec fn idle(&self) -> bool {
        self.drain is None
    }

    /// A page is waiting to be written.
    pub closed spec fn page_pending(&self) -> bool {
        self.drain is Some
    }

    /// The waiting page belongs to an explicit flush.
    pub closed spec fn flushing(&self) -> bool {
        self.drain is Some && self.drain->0.after is Return
    }

    /// The waiting page belongs to a drain that interrupted the decode loop.
    pub closed spec fn resuming(&self) -> bool {
        self.drain is Some && self.drain->0.after is Decode
    }

    /// The address of the image that starts once the waiting drain is over, if any.
    pub closed spec fn opening_at(&self) -> Option<u32> {
        match self.drain {
            Some(d) => match d.after {
                AfterDrain::Open(a) => Some(a),
                _ => None,
            },
            None => None,
        }
    }

    /// The decoder's state for the current image.
    pub closed spec fn decoder_state(&self) -> Inflater {
        self.decompressor
    }

    /// Compressed bytes of the current image the decoder has consumed.
    pub closed spec fn decoder_fed(&self) -> Seq<u8> {
        self.decompressor.fed()
    }

    /// Status of the decoder's latest step for the current image.
    pub closed spec fn decoder_status(&self) -> i8 {
        self.decompressor.last_status()
    }

    /// For each decoder step of the current image: whether it was told to
    /// parse the zlib header, and whether it was told that more input follows.
    pub closed spec fn decoder_flags(&self) -> Seq<(bool, bool)> {
        self.decompressor.flags()
    }

    /// Every decoder step from the `from`-th on parsed the zlib header and was
    /// told that more input follows exactly when compressed bytes of the
    /// image are still owed.
    pub open spec fn flagged_since(&self, from: int) -> bool {
        forall|k: int|
            0 <= from <= k < self.decoder_flags().len() ==> #[trigger] self.decoder_flags()[k] == (
                true,
                self.spec_remaining() > 0,
            )
    }

    /// Every decode step of the current image was given a window holding the
    /// output so far, so the decoder's output is the decompressed stream.
    pub closed spec fn decoder_sound(&self) -> bool {
        self.decompressor.sound()
    }

    /// The staging buffer, as the decoder's window, holds the current image's
    /// output in circular order, so the next decode step keeps the decoder sound.
    pub closed spec fn window_aligned(&self) -> bool {
        self.aligned@
    }

    /// The decoder is sound, and the window stays aligned unless the stream has
    /// ended: the next decode step keeps it sound.
    pub open spec fn sound_so_far(&self) -> bool {
        &&& self.decoder_sound()
        &&& self.decoder_status() != STATUS_DONE ==> self.window_aligned()
    }

    /// Bytes of the current chunk, within the declared length, not yet decoded.
    pub closed spec fn pending_input(&self) -> Seq<u8> {
        self.input@.subrange(self.input_pos as int, self.input_end as int)
    }

    /// How a decode over `chunk`, begun with `before` already consumed, ended in `r`:
    /// success means the decoder consumed the whole chunk or finished the
    /// stream, and, if the chunk was not empty, that its latest step did not
    /// fail; a decoder failure carries the decoder's status; a page write
    /// leaves the rest of the chunk pending.
    pub open spec fn decode_went(&self, before: Seq<u8>, chunk: Seq<u8>, r: Step) -> bool {
        match r {
            Step::Done(Ok(())) => {
                &&& self.decoder_fed() == before + chunk || self.decoder_status() == STATUS_DONE
                &&& chunk.len() > 0 ==> self.decoder_status() >= STATUS_DONE
            },
            Step::Done(Err(DecompressorError::MinizError(c))) => c < STATUS_DONE
                && self.decoder_status() == c,
            Step::Done(Err(_)) => false,
            Step::WritePage(_) => self.decoder_fed() + self.pending_input() == before + chunk,
        }
    }

    /// `self`, reached by returning `r`, has begun draining the bytes staged in
    /// `before`: the first page goes to the device address of `before`'s
    /// offset and holds the first staged bytes, the offset moves past all the
    /// staged bytes, and the cursor and decoder are otherwise as they were.
    pub open spec fn drains_from(&self, before: Decompressor, r: Step) -> bool {
        &&& r is WritePage
        &&& r->WritePage_0 as int == (before.spec_image_start() + before.spec_offset()
            - FLASH_BASE) % modulus()
        &&& self.page_bytes() == before.staged().subrange(
            0,
            if before.staged().len() > PAGE_SIZE {
                PAGE_SIZE as int
            } else {
                before.staged().len() as int
            },
        )
        &&& self.spec_offset() as int == (before.spec_offset() + before.staged().len())
            % modulus()
        &&& self.page_offset() == before.flushed()
        &&& self.staged() == Seq::<u8>::empty()
        &&& self.spec_image_start() == before.spec_image_start()
        &&& self.spec_remaining() == before.spec_remaining()
        &&& self.produced() == before.produced()
        &&& self.decoder_state() == before.decoder_state()
        &&& self.acked() == before.acked()
        &&& self.intact() == before.intact()
    }

    /// The chunk of the call in progress.
    pub closed spec fn chunk(&self) -> Seq<u8> {
        self.input@
    }

    /// Offset in the image of the waiting page's first byte.
    pub closed spec fn page_offset(&self) -> int {
        self.produced@.len() - self.drain->0.len + self.drain->0.pos
    }

    /// Length of the waiting page: a full page or what is left of the drain.
    pub closed spec fn page_len(&self) -> int {
        let d = self.drain->0;
        if d.len - d.pos > PAGE_SIZE { PAGE_SIZE as int } else { d.len - d.pos }
    }

    /// The bytes of the waiting page.
    pub closed spec fn page_bytes(&self) -> Seq<u8> {
        self.produced@.subrange(self.page_offset(), self.page_offset() + self.page_len())
    }

    /// What a returned step says of the state it leaves: a page write names the
    /// device address of the waiting page; an outcome leaves the pipeline idle.
    pub open spec fn steps_to(&self, s: Step) -> bool {
        match s {
            Step::WritePage(a) => self.page_pending() && a as int == device_address(
                self.spec_image_start(),
                self.page_offset(),
            ),
            Step::Done(_) => self.idle(),
        }
    }

    /// The pipeline's invariant: `inv`, and the staging buffer is never left
    /// full between calls, so the decoder always has room to write into.
    /// Once the decoder reports the end of the stream, nothing stays staged.
    pub closed spec fn wf(&self) -> bool {
        &&& self.inv()
        &&& self.drain is None ==> self.output.len < OUT_BUFFER_CAPACITY
        &&& self.decompressor.last_status() == STATUS_DONE ==> self.output.len == 0
    }

    /// The staged and draining bytes are the newest ones the decoder produced,
    /// the offset counts every byte that left the buffer, the waiting page's
    /// address is that of its offset, and while no write has failed the
    /// acknowledged bytes are exactly the ones before the next page.
    pub closed spec fn inv(&self) -> bool {
        let p = self.produced@;
        let held: int = match self.drain {
            Some(d) => d.len as int,
            None => self.output.len as int,
        };
        &&& self.output.wf()
        &&& p == self.decompressor.output()
        &&& self.decompressor.sound() && self.decompressor.last_status() == STATUS_DONE ==> p
            == zlib_inflate(self.decompressor.fed())
        &&& self.aligned@ ==> {
            &&& (self.output.len as int) % (OUT_BUFFER_CAPACITY as int) == (p.len() as int) % (
            OUT_BUFFER_CAPACITY as int)
            &&& forall|j: int|
                0 <= j && p.len() - OUT_BUFFER_CAPACITY <= j < p.len() ==> #[trigger] p[j]
                    == self.output.window()[j % (OUT_BUFFER_CAPACITY as int)]
            &&& forall|i: int|
                p.len() <= i < OUT_BUFFER_CAPACITY ==> #[trigger] self.output.window()[i] == 0u8
        }
        &&& (self.status == self.decompressor.last_status() || self.status
            == STATUS_NEEDS_MORE_INPUT)
        &&& (self.drain is Some && self.drain->0.after is Decode) ==> self.last == (
        self.remaining_compressed == 0)
        &&& self.input_pos <= self.input_end <= self.input@.len()
        &&& 0 <= held <= p.len()
        &&& self.output.window().subrange(0, held) == p.subrange(p.len() - held, p.len() as int)
        &&& self.offset as int == self.flushed() % modulus()
        &&& match self.drain {
            None => true,
            Some(d) => {
                &&& self.output.len == 0
                &&& d.pos < d.len <= OUT_BUFFER_CAPACITY
                &&& d.address as int == device_address(self.image_start, self.page_offset())
            },
        }
        &&& self.intact@ ==> {
            &&& self.acked@ == p.subrange(0, self.acked@.len() as int)
            &&& self.acked@.len() == if self.drain is Some {
                self.page_offset()
            } else {
                self.flushed()
            }
        }
    }

    /// A pipeline with no image yet: the first `program` call starts one.
    pub fn new() -> (r: Self)
        ensures
            r.wf(),
            r.idle(),
            r.spec_image_start() == 0xFFFF_FFFF,
            r.spec_offset() == 0,
            r.spec_remaining() == 0,
            r.staged() == Seq::<u8>::empty(),
            r.produced() == Seq::<u8>::empty(),
            r.intact(),
            r.decoder_fed() == Seq::<u8>::empty(),
            r.decoder_status() == STATUS_NEEDS_MORE_INPUT,
            r.decoder_flags() == Seq::<(bool, bool)>::empty(),
            r.decoder_sound(),
            r.window_aligned(),
    {
        let r = Decompressor {
            image_start: 0xFFFF_FFFF,
            offset: 0,
            output: OutBuffer::new(),
            remaining_compressed: 0,
            decompressor: Inflater::new(),
            input: Vec::new(),
            input_pos: 0,
            input_end: 0,
            last: false,
            status: STATUS_NEEDS_MORE_INPUT,
            drain: None,
            produced: Ghost(Seq::empty()),
            acked: Ghost(Seq::empty()),
            intact: Ghost(true),
            aligned: Ghost(true),
        };
        assert(r.output.window().subrange(0, 0) =~= r.produced@.subrange(0, 0));
        assert(r.acked@ =~= r.produced@.subrange(0, 0));
        r
    }
}

impl Decompressor {
    /// Starts a new image at `address` whose compressed data is `compressed` bytes long.
    fn reinit(&mut self, address: u32, compressed: u32)
        requires
            old(self).wf(),
            old(self).idle(),
        ensures
            final(self).wf(),
            final(self).idle(),
            final(self).spec_image_start() == address,
            final(self).spec_offset() == 0,
            final(self).spec_remaining() == compressed,
            final(self).staged() == Seq::<u8>::empty(),
            final(self).produced() == Seq::<u8>::empty(),
            final(self).acked() == Seq::<u8>::empty(),
            final(self).intact(),
            final(self).decoder_fed() == Seq::<u8>::empty(),
            final(self).decoder_status() == STATUS_NEEDS_MORE_INPUT,
            final(self).decoder_flags() == Seq::<(bool, bool)>::empty(),
            final(self).decoder_sound(),
            final(self).window_aligned(),
            final(self).input@ == old(self).input@,
            final(self).input_pos == old(self).input_pos,
            final(self).input_end == old(self).input_end,
    {
        self.image_start = address;
        self.offset = 0;
        self.remaining_compressed = compressed as usize;
        self.decompressor = Inflater::new();
        self.status = STATUS_NEEDS_MORE_INPUT;
        self.output.clear();
        self.produced = Ghost(Seq::empty());
        self.acked = Ghost(Seq::empty());
        self.intact = Ghost(true);
        self.aligned = Ghost(true);
        assert(self.output.window().subrange(0, 0) =~= self.produced@.subrange(0, 0));
        assert(self.acked@ =~= self.produced@.subrange(0, 0));
    }

    /// Takes the staged bytes out, advances the offset past them, and hands
    /// out their first page.
    fn begin_drain(&mut self, after: AfterDrain) -> (r: Step)
        requires
            old(self).inv(),
            old(self).idle(),
            old(self).staged().len() > 0,
            after is Decode ==> old(self).last == (old(self).remaining_compressed == 0),
        ensures
            final(self).decompressor == old(self).decompressor,
            final(self).wf(),
            final(self).steps_to(r),
            final(self).drains_from(*old(self), r),
            final(self).aligned@ == (old(self).aligned@ && old(self).output.len
                == OUT_BUFFER_CAPACITY),
            r is WritePage,
            r->WritePage_0 as int == (old(self).spec_image_start() + old(self).spec_offset()
                - FLASH_BASE) % modulus(),
            final(self).page_bytes() == old(self).staged().subrange(
                0,
                if old(self).staged().len() > PAGE_SIZE {
                    PAGE_SIZE as int
                } else {
                    old(self).staged().len() as int
                },
            ),
            final(self).spec_offset() as int == (old(self).spec_offset() + old(self).staged().len())
                % modulus(),
            final(self).page_offset() == old(self).flushed(),
            final(self).drain->0.after == after,
            final(self).staged() == Seq::<u8>::empty(),
            final(self).spec_offset() as int == (old(self).flushed() + old(self).staged().len())
                % modulus(),
            final(self).spec_image_start() == old(self).spec_image_start(),
            final(self).spec_remaining() == old(self).spec_remaining(),
            final(self).produced() == old(self).produced(),
            final(self).acked() == old(self).acked(),
            final(self).intact() == old(self).intact(),
            final(self).input@ == old(self).input@,
            final(self).input_pos == old(self).input_pos,
            final(self).input_end == old(self).input_end,
            final(self).last == old(self).last,
            final(self).status == old(self).status,
    {
        let ghost f = self.flushed();
        let ghost staged = self.output@;
        let start = self.image_start;
        let offset = self.offset;
        let image_address = start.wrapping_add(offset);
        let address = image_address.wrapping_sub(FLASH_BASE);
        proof {
            lemma_wrapping(start, offset);
            lemma_wrapping(image_address, FLASH_BASE);
            lemma_wrap_add(f, start as int);
            lemma_wrap_add(start + f, -(FLASH_BASE as int));
        }
        let n = self.output.take(|data: &[u8]| -> (n: usize) ensures n == data@.len() { data.len() });
        assert(n == staged.len());
        proof {
            lemma_wrapping(offset, n as u32);
            lemma_wrap_add(f, n as int);
        }
        self.offset = offset.wrapping_add(n as u32);
        let ghost keeps_alignment: bool = self.aligned@ && n == OUT_BUFFER_CAPACITY;
        self.aligned = Ghost(keeps_alignment);
        self.drain = Some(Drain { len: n, pos: 0, address, after });
        proof {
            lemma_wrap_add(start + f, -(FLASH_BASE as int));
            let p = self.produced@;
            assert(self.output.window().subrange(0, n as int) == p.subrange(
                p.len() - n,
                p.len() as int,
            ));
            assert(staged == self.output.window().subrange(0, n as int));
            assert(self.page_bytes() =~= staged.subrange(0, self.page_len()));
        }
        assert(self.output@.len() == self.output.len);
        assert(self.output.len == 0);
        Step::WritePage(address)
    }

    /// The outcome of a finished decode loop: the decoder's failure, if any.
    fn decode_result(&self) -> (r: Step)
        ensures
            r == self.decode_result_spec(),
    {
        if self.status < STATUS_DONE {
            Step::Done(Err(DecompressorError::MinizError(self.status)))
        } else {
            Step::Done(Ok(()))
        }
    }
}

impl Decompressor {
    /// The waiting page is not the last one of its drain.
    pub closed spec fn more_pages(&self) -> bool {
        self.page_offset() + self.page_len() < self.produced@.len()
    }

    /// The decode loop over the pending chunk: decode while input remains and
    /// the decoder asks to go on; drain the staged bytes whenever the decoder
    /// finishes the image or the staging buffer fills up.
    fn decode(&mut self) -> (r: Step)
        requires
            old(self).wf(),
            old(self).idle(),
            old(self).last == (old(self).remaining_compressed == 0),
        ensures
            final(self).wf(),
            final(self).steps_to(r),
            final(self).spec_image_start() == old(self).spec_image_start(),
            final(self).spec_remaining() == old(self).spec_remaining(),
            final(self).acked() == old(self).acked(),
            final(self).intact() == old(self).intact(),
            final(self).produced().len() >= old(self).produced().len(),
            final(self).produced().subrange(0, old(self).produced().len() as int)
                == old(self).produced(),
            r is WritePage ==> final(self).drain->0.after is Decode,
            final(self).decode_went(old(self).decoder_fed(), old(self).pending_input(), r),
            final(self).flagged_since(old(self).decoder_flags().len() as int),
            final(self).input@ == old(self).input@,
            old(self).window_aligned() && old(self).decoder_sound() ==> final(self).sound_so_far(),
    {
        assert(self.produced@.subrange(0, self.produced@.len() as int) =~= self.produced@);
        let ghost fed0 = self.decompressor.fed();
        let ghost pos0 = self.input_pos as int;
        let ghost fl0 = self.decompressor.flags().len() as int;
        assert(self.input@.subrange(pos0, pos0) =~= Seq::<u8>::empty());
        assert(fed0 + Seq::<u8>::empty() =~= fed0);
        while self.input_pos < self.input_end && self.status > STATUS_DONE
            invariant
                self.wf(),
                self.idle(),
                self.image_start == old(self).image_start,
                self.remaining_compressed == old(self).remaining_compressed,
                self.acked@ == old(self).acked@,
                self.intact@ == old(self).intact@,
                self.produced@.len() >= old(self).produced@.len(),
                self.produced@.subrange(0, old(self).produced@.len() as int) == old(
                    self,
                ).produced@,
                self.input@ == old(self).input@,
                self.input_end == old(self).input_end,
                pos0 == old(self).input_pos,
                fl0 == old(self).decompressor.flags().len(),
                fed0 == old(self).decompressor.fed(),
                old(self).input_pos <= self.input_pos,
                self.last == old(self).last,
                self.last == (self.remaining_compressed == 0),
                old(self).aligned@ ==> self.aligned@ && self.decompressor.sound() == old(
                    self,
                ).decompressor.sound(),
                self.decompressor.fed() == fed0 + self.input@.subrange(pos0, self.input_pos as int),
                fl0 <= self.decompressor.flags().len(),
                self.decompressor.flags().len() > fl0 ==> self.status
                    == self.decompressor.last_status(),
                self.decompressor.flags().len() == fl0 ==> self.input_pos == pos0 && self.status
                    == old(self).status && self.decompressor == old(self).decompressor,
                forall|k: int|
                    fl0 <= k < self.decompressor.flags().len() ==> #[trigger] self.decompressor.flags()[k]
                        == (true, !self.last),
            decreases self.input_end - self.input_pos, if self.status > STATUS_DONE {
                1int
            } else {
                0int
            },
        {
            let ghost p = self.produced@;
            let ghost window = self.output.window();
            let out_pos = self.output.len;
            proof {
                if self.aligned@ {
                    vstd::arithmetic::div_mod::lemma_small_mod(
                        out_pos as nat,
                        OUT_BUFFER_CAPACITY as nat,
                    );
                    assert(window_holds(p, window, out_pos as int));
                }
            }
            let chunk = slice_subrange(self.input.as_slice(), self.input_pos, self.input_end);
            let (status, consumed, made) = inflate_step(
                &mut self.decompressor,
                chunk,
                &mut self.output.buffer,
                out_pos,
                true,
                !self.last,
            );
            proof {
                assert(chunk@.subrange(0, consumed as int) =~= self.input@.subrange(
                    self.input_pos as int,
                    self.input_pos + consumed,
                ));
                lemma_append_adjacent(
                    fed0,
                    self.input@,
                    pos0,
                    self.input_pos as int,
                    self.input_pos + consumed,
                );
            }
            assert(consumed <= self.input_end - self.input_pos);
            self.status = status;
            self.input_pos = self.input_pos + consumed;
            self.output.len = out_pos + made;
            self.produced = Ghost(
                p + self.output.window().subrange(out_pos as int, (out_pos + made) as int),
            );
            proof {
                if self.aligned@ {
                    lemma_window_step(
                        p,
                        window,
                        self.output.window(),
                        out_pos as int,
                        made as int,
                    );
                }
                let q = self.produced@;
                let len = self.output.len as int;
                assert forall|i: int| 0 <= i < len implies #[trigger] self.output.window()[i]
                    == q[q.len() - len + i] by {
                    if i < out_pos {
                        assert(window.subrange(0, out_pos as int)[i] == p.subrange(
                            p.len() - out_pos,
                            p.len() as int,
                        )[i]);
                    }
                }
                assert(self.output.window().subrange(0, len) =~= q.subrange(
                    q.len() - len,
                    q.len() as int,
                ));
                assert(q.subrange(0, p.len() as int) =~= p);
                assert(q.subrange(0, old(self).produced@.len() as int) =~= old(self).produced@) by {
                    assert(p.subrange(0, old(self).produced@.len() as int) == old(self).produced@);
                }
                if self.intact@ {
                    assert(self.acked@ =~= q.subrange(0, self.acked@.len() as int)) by {
                        assert(self.acked@ == p.subrange(0, self.acked@.len() as int));
                    }
                }
            }
            if status == STATUS_DONE || self.output.full() {
                if self.output.len > 0 {
                    let r = self.begin_drain(AfterDrain::Decode);
                    proof {
                        lemma_append_adjacent(
                            fed0,
                            self.input@,
                            pos0,
                            self.input_pos as int,
                            self.input_end as int,
                        );
                    }
                    return r;
                }
            }
        }
        self.decode_result()
    }

    /// The outcome of a finished decode loop: the decoder's failure, if any.
    pub closed spec fn decode_result_spec(&self) -> Step {
        if self.status < STATUS_DONE {
            Step::Done(Err(DecompressorError::MinizError(self.status)))
        } else {
            Step::Done(Ok(()))
        }
    }
}

impl Decompressor {
    /// Clips the pending chunk to the image's remaining compressed length and
    /// decodes it; fails with `Overrun` when nothing of the image remains.
    fn decompress(&mut self) -> (r: Step)
        requires
            old(self).wf(),
            old(self).idle(),
        ensures
            final(self).wf(),
            final(self).steps_to(r),
            old(self).remaining_compressed == 0 ==> r == Step::Done(
                Err(DecompressorError::Overrun),
            ) && *final(self) == *old(self),
            old(self).remaining_compressed > 0 ==> {
                let avail = old(self).input@.len() - old(self).input_pos;
                &&& final(self).spec_remaining() == old(self).spec_remaining() - if avail
                    < old(self).spec_remaining() {
                    avail
                } else {
                    old(self).spec_remaining() as int
                }
                &&& final(self).spec_image_start() == old(self).spec_image_start()
                &&& final(self).acked() == old(self).acked()
                &&& final(self).intact() == old(self).intact()
                &&& final(self).produced().len() >= old(self).produced().len()
                &&& final(self).produced().subrange(0, old(self).produced().len() as int)
                    == old(self).produced()
                &&& r is WritePage ==> final(self).drain->0.after is Decode
                &&& final(self).decode_went(
                    old(self).decoder_fed(),
                    old(self).input@.subrange(
                        old(self).input_pos as int,
                        old(self).input_pos + if avail < old(self).spec_remaining() {
                            avail
                        } else {
                            old(self).spec_remaining() as int
                        },
                    ),
                    r,
                )
                &&& final(self).flagged_since(old(self).decoder_flags().len() as int)
                &&& old(self).sound_so_far() && old(self).decoder_status() != STATUS_DONE ==> final(self).sound_so_far()
            },
    {
        if self.remaining_compressed == 0 {
            return Step::Done(Err(DecompressorError::Overrun));
        }
        // Bytes past the declared length are padding and are dropped.
        let avail = self.input.len() - self.input_pos;
        let chunk_len = if self.remaining_compressed < avail {
            self.remaining_compressed
        } else {
            avail
        };
        self.remaining_compressed = self.remaining_compressed - chunk_len;
        self.last = self.remaining_compressed == 0;
        self.input_end = self.input_pos + chunk_len;
        self.status = STATUS_NEEDS_MORE_INPUT;
        self.decode()
    }

    /// Starts the image at `address` from the pending chunk: its first four
    /// bytes give the compressed length, the rest is decoded.
    fn open_image(&mut self, address: u32) -> (r: Step)
        requires
            old(self).wf(),
            old(self).idle(),
        ensures
            final(self).wf(),
            final(self).steps_to(r),
            old(self).input@.len() < 4 ==> r == Step::Done(Err(DecompressorError::Underrun))
                && *final(self) == *old(self),
            old(self).input@.len() >= 4 ==> {
                let declared = le_u32(old(self).input@);
                let avail = old(self).input@.len() - 4;
                &&& final(self).spec_image_start() == address
                &&& final(self).intact()
                &&& declared == 0 ==> r == Step::Done(Err(DecompressorError::Overrun))
                    && final(self).produced() == Seq::<u8>::empty()
                &&& declared > 0 ==> final(self).spec_remaining() == declared - if avail
                    < declared {
                    avail
                } else {
                    declared
                }
                &&& final(self).acked() == Seq::<u8>::empty()
                &&& r is WritePage ==> final(self).drain->0.after is Decode
                &&& declared == 0 ==> final(self).spec_offset() == 0 && final(self).spec_remaining()
                    == 0 && final(self).staged() == Seq::<u8>::empty()
                &&& declared > 0 ==> final(self).decode_went(
                    Seq::<u8>::empty(),
                    old(self).input@.subrange(4, 4 + if avail < declared {
                        avail
                    } else {
                        declared
                    }),
                    r,
                )
                &&& final(self).flagged_since(0)
                &&& declared > 0 ==> final(self).sound_so_far()
            },
    {
        if self.input.len() < 4 {
            return Step::Done(Err(DecompressorError::Underrun));
        }
        let compressed = self.input[0] as u32 + 0x100 * self.input[1] as u32 + 0x1_0000
            * self.input[2] as u32 + 0x100_0000 * self.input[3] as u32;
        self.reinit(address, compressed);
        self.input_pos = 4;
        self.input_end = 4;
        self.decompress()
    }

    /// Feeds one chunk of a compressed image bound for `address`.
    ///
    /// A new address starts a new image: the previous image's staged bytes are
    /// drained first, then the chunk's first four bytes give the new image's
    /// compressed length (little-endian) and the rest is decoded. For the
    /// current address the chunk continues the image. Bytes past the declared
    /// compressed length are dropped. A zero declared length is an overrun as
    /// soon as it is declared: such an image has no data to decode.
    pub fn program(&mut self, address: u32, data: &[u8]) -> (r: Step)
        requires
            old(self).wf(),
            old(self).idle(),
        ensures
            final(self).wf(),
            final(self).steps_to(r),
            // A new image while bytes of the previous one are staged: those
            // bytes are drained first, to the previous image's addresses.
            address != old(self).spec_image_start() && old(self).staged().len() > 0 ==> {
                &&& final(self).drains_from(*old(self), r)
                &&& final(self).opening_at() == Some(address)
                &&& final(self).chunk() == data@
                &&& final(self).spec_image_start() == old(self).spec_image_start()
                &&& final(self).page_offset() == old(self).flushed()
                &&& final(self).produced() == old(self).produced()
                &&& final(self).staged() == Seq::<u8>::empty()
                &&& final(self).spec_remaining() == old(self).spec_remaining()
            },
            // A new image with nothing staged and no room for the header.
            address != old(self).spec_image_start() && old(self).staged().len() == 0
                && data@.len() < 4 ==> {
                &&& r == Step::Done(Err(DecompressorError::Underrun))
                &&& final(self).spec_image_start() == old(self).spec_image_start()
                &&& final(self).spec_offset() == old(self).spec_offset()
                &&& final(self).spec_remaining() == old(self).spec_remaining()
                &&& final(self).decoder_state() == old(self).decoder_state()
                &&& final(self).produced() == old(self).produced()
                &&& final(self).staged() == old(self).staged()
                &&& final(self).acked() == old(self).acked()
            },
            // A new image with nothing staged and its header present.
            address != old(self).spec_image_start() && old(self).staged().len() == 0
                && data@.len() >= 4 ==> {
                let declared = le_u32(data@);
                let avail = data@.len() - 4;
                &&& final(self).spec_image_start() == address
                &&& declared == 0 ==> r == Step::Done(Err(DecompressorError::Overrun))
                &&& declared > 0 ==> final(self).spec_remaining() == declared - if avail
                    < declared {
                    avail
                } else {
                    declared
                }
                &&& declared == 0 ==> final(self).spec_offset() == 0 && final(self).spec_remaining()
                    == 0 && final(self).staged() == Seq::<u8>::empty()
                &&& declared > 0 ==> final(self).decode_went(
                    Seq::<u8>::empty(),
                    data@.subrange(4, 4 + if avail < declared {
                        avail
                    } else {
                        declared
                    }),
                    r,
                )
                &&& final(self).flagged_since(0)
                &&& declared > 0 ==> final(self).sound_so_far()
            },
            // More of the current image, none of which is still owed.
            address == old(self).spec_image_start() && old(self).spec_remaining() == 0 ==> {
                &&& r == Step::Done(Err(DecompressorError::Overrun))
                &&& final(self).spec_image_start() == old(self).spec_image_start()
                &&& final(self).spec_offset() == old(self).spec_offset()
                &&& final(self).decoder_state() == old(self).decoder_state()
                &&& final(self).produced() == old(self).produced()
                &&& final(self).staged() == old(self).staged()
                &&& final(self).acked() == old(self).acked()
            },
            // More of the current image.
            address == old(self).spec_image_start() && old(self).spec_remaining() > 0 ==> {
                &&& final(self).spec_remaining() == old(self).spec_remaining() - if data@.len()
                    < old(self).spec_remaining() {
                    data@.len() as int
                } else {
                    old(self).spec_remaining() as int
                }
                &&& final(self).spec_image_start() == old(self).spec_image_start()
                &&& final(self).acked() == old(self).acked()
                &&& final(self).produced().subrange(0, old(self).produced().len() as int)
                    == old(self).produced()
                &&& final(self).decode_went(
                    old(self).decoder_fed(),
                    data@.subrange(0, if data@.len() < old(self).spec_remaining() {
                        data@.len() as int
                    } else {
                        old(self).spec_remaining() as int
                    }),
                    r,
                )
                &&& final(self).flagged_since(old(self).decoder_flags().len() as int)
                &&& old(self).sound_so_far() && old(self).decoder_status() != STATUS_DONE ==> final(self).sound_so_far()
            },
    {
        self.input = vstd::slice::slice_to_vec(data);
        self.input_pos = 0;
        self.input_end = 0;
        if self.image_start != address {
            if self.output.len > 0 {
                return self.begin_drain(AfterDrain::Open(address));
            }
            self.open_image(address)
        } else {
            self.decompress()
        }
    }
}

impl Decompressor {
    /// Writes out whatever is staged: the staged bytes leave the buffer, the
    /// offset moves past them, and their pages are handed out in order. With
    /// nothing staged there is nothing to write.
    pub fn flush(&mut self) -> (r: Step)
        requires
            old(self).wf(),
            old(self).idle(),
        ensures
            final(self).wf(),
            final(self).steps_to(r),
            old(self).staged().len() == 0 ==> r == Step::Done(Ok(())) && *final(self) == *old(
                self,
            ),
            old(self).staged().len() > 0 ==> {
                &&& final(self).drains_from(*old(self), r)
                &&& final(self).flushing()
                &&& final(self).page_offset() == old(self).flushed()
                &&& final(self).staged() == Seq::<u8>::empty()
                &&& final(self).spec_offset() as int == (old(self).flushed() + old(
                    self,
                ).staged().len()) % modulus()
                &&& final(self).spec_image_start() == old(self).spec_image_start()
                &&& final(self).spec_remaining() == old(self).spec_remaining()
                &&& final(self).produced() == old(self).produced()
                &&& final(self).acked() == old(self).acked()
                &&& final(self).intact() == old(self).intact()
            },
    {
        if self.output.len > 0 {
            self.begin_drain(AfterDrain::Return)
        } else {
            Step::Done(Ok(()))
        }
    }

    /// The bytes of the page waiting to be written.
    pub fn page(&self) -> (r: &[u8])
        requires
            self.wf(),
            self.page_pending(),
        ensures
            r@ == self.page_bytes(),
            1 <= r@.len() <= PAGE_SIZE,
    {
        match &self.drain {
            Some(d) => {
                let end = if d.len - d.pos > PAGE_SIZE {
                    d.pos + PAGE_SIZE
                } else {
                    d.len
                };
                proof {
                    let p = self.produced@;
                    let w = self.output.window();
                    assert forall|i: int| d.pos <= i < end implies #[trigger] w[i] == p[p.len()
                        - d.len + i] by {
                        assert(w.subrange(0, d.len as int)[i] == p.subrange(
                            p.len() - d.len,
                            p.len() as int,
                        )[i]);
                    }
                    assert(w.subrange(d.pos as int, end as int) =~= self.page_bytes());
                }
                slice_subrange(self.output.buffer.as_slice(), d.pos, end)
            },
            None => slice_subrange(self.output.buffer.as_slice(), 0, 0),
        }
    }

    /// Takes the device status of the waiting page's write. A non-zero status
    /// ends the call with `ProgramError` and drops the rest of the drain; the
    /// offset stays past the dropped bytes. Otherwise the next page is handed
    /// out, or, after the last one, the interrupted work goes on: a flush
    /// reports success, a decode loop resumes, a new image starts.
    pub fn page_done(&mut self, status: u32) -> (r: Step)
        requires
            old(self).wf(),
            old(self).page_pending(),
        ensures
            final(self).wf(),
            final(self).steps_to(r),
            status != 0 ==> {
                &&& r == Step::Done(Err(DecompressorError::ProgramError(status)))
                &&& !final(self).intact()
                &&& final(self).decoder_state() == old(self).decoder_state()
                &&& final(self).spec_image_start() == old(self).spec_image_start()
                &&& final(self).spec_offset() == old(self).spec_offset()
                &&& final(self).spec_remaining() == old(self).spec_remaining()
                &&& final(self).produced() == old(self).produced()
                &&& final(self).staged() == Seq::<u8>::empty()
            },
            status == 0 && old(self).more_pages() ==> {
                &&& r is WritePage
                &&& final(self).page_offset() == old(self).page_offset() + old(self).page_len()
                &&& final(self).window_aligned() == old(self).window_aligned()
                &&& final(self).opening_at() == old(self).opening_at()
                &&& final(self).resuming() == old(self).resuming()
                &&& final(self).chunk() == old(self).chunk()
                &&& final(self).pending_input() == old(self).pending_input()
                &&& final(self).decoder_state() == old(self).decoder_state()
                &&& final(self).flushing() == old(self).flushing()
                &&& final(self).spec_image_start() == old(self).spec_image_start()
                &&& final(self).spec_offset() == old(self).spec_offset()
                &&& final(self).spec_remaining() == old(self).spec_remaining()
                &&& final(self).produced() == old(self).produced()
                &&& final(self).intact() == old(self).intact()
                &&& final(self).acked() == if old(self).intact() {
                    old(self).acked() + old(self).page_bytes()
                } else {
                    old(self).acked()
                }
            },
            // The drain made room in the decode loop, which goes on.
            status == 0 && !old(self).more_pages() && old(self).resuming() ==> {
                &&& final(self).spec_image_start() == old(self).spec_image_start()
                &&& final(self).spec_remaining() == old(self).spec_remaining()
                &&& final(self).intact() == old(self).intact()
                &&& final(self).produced().subrange(0, old(self).produced().len() as int)
                    == old(self).produced()
                &&& final(self).decode_went(old(self).decoder_fed(), old(self).pending_input(), r)
                &&& final(self).flagged_since(old(self).decoder_flags().len() as int)
                &&& old(self).sound_so_far() && old(self).decoder_status() != STATUS_DONE ==> final(self).sound_so_far()
            },
            // The drain finished the previous image; the pending chunk starts
            // the new one.
            status == 0 && !old(self).more_pages() && old(self).opening_at() is Some ==> {
                let address = old(self).opening_at()->0;
                let declared = le_u32(old(self).chunk());
                let avail = old(self).chunk().len() - 4;
                &&& old(self).chunk().len() < 4 ==> {
                    &&& r == Step::Done(Err(DecompressorError::Underrun))
                    &&& final(self).spec_image_start() == old(self).spec_image_start()
                    &&& final(self).decoder_state() == old(self).decoder_state()
                    &&& final(self).spec_offset() == old(self).spec_offset()
                    &&& final(self).spec_remaining() == old(self).spec_remaining()
                    &&& final(self).produced() == old(self).produced()
                    &&& final(self).staged() == Seq::<u8>::empty()
                }
                &&& old(self).chunk().len() >= 4 ==> {
                    &&& final(self).spec_image_start() == address
                    &&& declared == 0 ==> r == Step::Done(Err(DecompressorError::Overrun))
                    &&& declared > 0 ==> final(self).spec_remaining() == declared - if avail
                        < declared {
                        avail
                    } else {
                        declared
                    }
                    &&& declared == 0 ==> final(self).spec_offset() == 0
                        && final(self).spec_remaining() == 0 && final(self).staged()
                        == Seq::<u8>::empty()
                    &&& declared > 0 ==> final(self).decode_went(
                        Seq::<u8>::empty(),
                        old(self).chunk().subrange(4, 4 + if avail < declared {
                            avail
                        } else {
                            declared
                        }),
                        r,
                    )
                    &&& final(self).flagged_since(0)
                    &&& declared > 0 ==> final(self).sound_so_far()
                }
            },
            status == 0 && !old(self).more_pages() && old(self).flushing() ==> {
                &&& r == Step::Done(Ok(()))
                &&& final(self).decoder_state() == old(self).decoder_state()
                &&& final(self).spec_image_start() == old(self).spec_image_start()
                &&& final(self).spec_offset() == old(self).spec_offset()
                &&& final(self).spec_remaining() == old(self).spec_remaining()
                &&& final(self).produced() == old(self).produced()
                &&& final(self).staged() == Seq::<u8>::empty()
                &&& final(self).intact() == old(self).intact()
                &&& final(self).acked() == if old(self).intact() {
                    old(self).acked() + old(self).page_bytes()
                } else {
                    old(self).acked()
                }
            },
    {
        let d = match self.drain {
            Some(d) => d,
            None => return Step::Done(Ok(())),
        };
        let page_len = if d.len - d.pos > PAGE_SIZE {
            PAGE_SIZE
        } else {
            d.len - d.pos
        };
        if status != 0 {
            self.drain = None;
            self.intact = Ghost(false);
            assert(self.output.window().subrange(0, 0) =~= self.produced@.subrange(
                self.produced@.len() as int,
                self.produced@.len() as int,
            ));
            return Step::Done(Err(DecompressorError::ProgramError(status)));
        }
        let ghost page = self.page_bytes();
        let ghost page_offset = self.page_offset();
        proof {
            if self.intact@ {
                let p = self.produced@;
                assert(self.acked@ + page =~= p.subrange(0, page_offset + page_len));
            }
        }
        self.acked = Ghost(
            if self.intact@ {
                self.acked@ + page
            } else {
                self.acked@
            },
        );
        let pos = d.pos + page_len;
        if pos < d.len {
            let address = d.address.wrapping_add(page_len as u32);
            proof {
                lemma_wrapping(d.address, page_len as u32);
                lemma_wrap_add(self.image_start + page_offset - FLASH_BASE, page_len as int);
            }
            self.drain = Some(Drain { len: d.len, pos, address, after: d.after });
            return Step::WritePage(address);
        }
        self.drain = None;
        assert(self.output.window().subrange(0, 0) =~= self.produced@.subrange(
            self.produced@.len() as int,
            self.produced@.len() as int,
        ));
        match d.after {
            AfterDrain::Return => Step::Done(Ok(())),
            AfterDrain::Decode => self.decode(),
            AfterDrain::Open(address) => self.open_image(address),
        }
    }
}

impl Decompressor {
    /// Whether no page is waiting, so that `program` or `flush` may be called.
    pub fn is_idle(&self) -> (r: bool)
        ensures
            r == self.idle(),
    {
        self.drain.is_none()
    }

    /// Address of the image being reconstructed.
    pub fn image_start(&self) -> (r: u32)
        ensures
            r == self.spec_image_start(),
    {
        self.image_start
    }

    /// Bytes of the current image handed to the storage writer so far.
    pub fn offset(&self) -> (r: u32)
        ensures
            r == self.spec_offset(),
    {
        self.offset
    }

    /// Compressed bytes of the current image still owed by the host.
    pub fn remaining_compressed(&self) -> (r: usize)
        ensures
            r == self.spec_remaining(),
    {
        self.remaining_compressed
    }

    /// Number of decoded bytes waiting in the staging buffer.
    pub fn staged_len(&self) -> (r: usize)
        requires
            self.wf(),
        ensures
            r == self.staged().len(),
    {
        self.output.len
    }
}

/// No byte is lost or written twice: as long as no page write of the current
/// image has failed, the bytes of the successfully written pages followed by
/// the staged bytes are exactly the bytes the decoder produced, in order; the
/// written ones are all that left the staging buffer, and a waiting page
/// starts right after them.
pub proof fn lemma_written_then_staged_is_produced(d: &Decompressor)
    requires
        d.wf(),
        d.intact(),
    ensures
        d.idle() ==> d.acked() + d.staged() == d.produced(),
        d.idle() ==> d.acked().len() == d.flushed(),
        d.page_pending() ==> d.page_offset() == d.acked().len(),
        d.page_pending() ==> d.acked() + d.page_bytes() == d.produced().subrange(
            0,
            d.acked().len() + d.page_len(),
        ),
{
    let p = d.produced@;
    if d.idle() {
        let n = d.output.len as int;
        assert(d.output@ == d.output.window().subrange(0, n));
        assert(d.acked() + d.staged() =~= d.produced());
    } else {
        assert(d.acked() + d.page_bytes() =~= p.subrange(0, d.acked().len() + d.page_len()));
    }
}

/// The cursor between and during calls: exactly one of idle and page-pending
/// holds; the staged bytes are the newest bytes the decoder produced; the
/// offset counts, mod 2^32, every produced byte that left the staging
/// buffer, so offset plus staged length is the number of bytes produced; a
/// waiting page lies within the produced bytes, with nothing staged; and
/// once the decoder reports the end of the stream nothing stays staged.
pub proof fn lemma_cursor(d: &Decompressor)
    requires
        d.wf(),
    ensures
        d.idle() == !d.page_pending(),
        d.flushed() == d.produced().len() - d.staged().len(),
        0 <= d.flushed(),
        d.staged() == d.produced().subrange(d.flushed(), d.produced().len() as int),
        d.spec_offset() as int == d.flushed() % modulus(),
        (d.spec_offset() + d.staged().len()) % modulus() == (d.produced().len() as int) % modulus(),
        d.idle() ==> d.staged().len() < OUT_BUFFER_CAPACITY,
        d.page_pending() ==> {
            &&& d.staged().len() == 0
            &&& 0 <= d.page_offset()
            &&& 1 <= d.page_len() <= PAGE_SIZE
            &&& d.page_offset() + d.page_len() <= d.produced().len()
        },
        d.decoder_status() == STATUS_DONE ==> d.staged().len() == 0,
{
    let n = d.output.len as int;
    assert(d.output@ == d.output.window().subrange(0, n));
    lemma_wrap_add(d.flushed(), n);
}

/// What is written is the decompressed stream, however the image was chunked:
/// once the decoder reports the end of the stream, if every decode step had
/// the image's output in its window and no page write failed, the bytes of
/// the written pages are exactly the decompression of the compressed bytes
/// the decoder consumed, nothing is left staged, and the offset is their
/// count (mod 2^32). The contracts of `program` and `page_done` keep the
/// decoder sound from a new image's first chunk on, for any chunk sizes.
pub proof fn lemma_written_is_inflated(d: &Decompressor)
    requires
        d.wf(),
        d.idle(),
        d.intact(),
        d.decoder_sound(),
        d.decoder_status() == STATUS_DONE,
    ensures
        d.acked() == zlib_inflate(d.decoder_fed()),
        d.staged().len() == 0,
        d.spec_offset() as int == (zlib_inflate(d.decoder_fed()).len() as int) % modulus(),
{
    lemma_cursor(d);
    lemma_written_then_staged_is_produced(d);
    assert(d.acked() + d.staged() =~= d.acked());
}

/// Each page goes to the device address of its own offset in the image:
/// the image's start address plus the offset, moved into the device's
/// address space.
pub proof fn lemma_page_address(d: &Decompressor, s: Step)
    requires
        d.wf(),
        d.steps_to(s),
        s is WritePage,
    ensures
        s->WritePage_0 as int == (d.spec_image_start() + d.page_offset() - FLASH_BASE) % modulus(),
{
}

/// Between calls the staging buffer always has room: a decode step that
/// fills it is followed by a drain before the decoder runs again.
pub proof fn lemma_room_between_calls(d: &Decompressor)
    requires
        d.wf(),
        d.idle(),
    ensures
        d.staged().len() < OUT_BUFFER_CAPACITY,
{
}

} // verus!
