//! The incremental zlib decoder, provided by `miniz_oxide`.

use vstd::prelude::*;

verus! {

/// The decoder's state: window bookkeeping and bit-level parse position.
#[verifier::external_type_specification]
#[verifier::external_body]
pub struct ExDecompressorOxide(miniz_oxide::inflate::core::DecompressorOxide);

/// Relies on `DecompressorOxide::new`: a decoder at the start of a stream.
pub assume_specification[ miniz_oxide::inflate::core::DecompressorOxide::new ]() -> miniz_oxide::inflate::core::DecompressorOxide;

/// Decode status codes, numbered as `miniz_oxide::inflate::TINFLStatus` numbers them.
/// Codes below `STATUS_DONE` are terminal failures.
pub const STATUS_DONE: i8 = 0;
pub const STATUS_NEEDS_MORE_INPUT: i8 = 1;
pub const STATUS_HAS_MORE_OUTPUT: i8 = 2;

/// The bytes the decoder produces for the compressed bytes `z` when it starts
/// on an all-zero window. For a valid zlib stream, which never refers back
/// past its own start, this is the stream's decompression.
pub uninterp spec fn zlib_inflate(z: Seq<u8>) -> Seq<u8>;

/// `window` holds the latest output in circular order: output byte `j`, for
/// the last window-length of them, sits at index `j` mod the window's
/// length, and the next byte goes to `out_pos`. Until a window-length of
/// output exists, the bytes not yet written are zero.
pub open spec fn window_holds(output: Seq<u8>, window: Seq<u8>, out_pos: int) -> bool {
    &&& window.len() > 0
    &&& out_pos == (output.len() as int) % (window.len() as int)
    &&& forall|j: int|
        0 <= j && output.len() - window.len() <= j < output.len() ==> #[trigger] output[j]
            == window[j % (window.len() as int)]
    &&& forall|i: int| output.len() <= i < window.len() ==> #[trigger] window[i] == 0u8
}

/// A decoder together with its history: every compressed byte it consumed
/// and every byte it produced since it was made, and how its latest step went.
/// Only `new` and `inflate_step` change the history.
pub struct Inflater {
    state: miniz_oxide::inflate::core::DecompressorOxide,
    fed: Ghost<Seq<u8>>,
    output: Ghost<Seq<u8>>,
    last_status: Ghost<i8>,
    flags: Ghost<Seq<(bool, bool)>>,
    sound: Ghost<bool>,
}

impl Inflater {
    /// Compressed bytes consumed so far, in order.
    pub closed spec fn fed(&self) -> Seq<u8> {
        self.fed@
    }

    /// Bytes produced so far, in order.
    pub closed spec fn output(&self) -> Seq<u8> {
        self.output@
    }

    /// Status of the latest step; `STATUS_NEEDS_MORE_INPUT` before the first.
    pub closed spec fn last_status(&self) -> i8 {
        self.last_status@
    }

    /// For each step so far, in order: whether it was told to parse the zlib
    /// header, and whether it was told that more input follows.
    pub closed spec fn flags(&self) -> Seq<(bool, bool)> {
        self.flags@
    }

    /// Every step so far was given a window holding the latest output.
    pub closed spec fn sound(&self) -> bool {
        self.sound@
    }

    /// A decoder at the start of a stream, with an empty history.
    pub fn new() -> (r: Self)
        ensures
            r.fed() == Seq::<u8>::empty(),
            r.output() == Seq::<u8>::empty(),
            r.last_status() == STATUS_NEEDS_MORE_INPUT,
            r.flags() == Seq::<(bool, bool)>::empty(),
            r.sound(),
    {
        Inflater {
            state: miniz_oxide::inflate::core::DecompressorOxide::new(),
            fed: Ghost(Seq::empty()),
            output: Ghost(Seq::empty()),
            last_status: Ghost(STATUS_NEEDS_MORE_INPUT),
            flags: Ghost(Seq::empty()),
            sound: Ghost(true),
        }
    }
}

/// One step of the decoder over `input`, writing into `window` from `out_pos`.
///
/// Relies on `miniz_oxide::inflate::core::decompress` used without the
/// non-wrapping flag: `window` is the decoder's circular dictionary, so bytes
/// before `out_pos` are only read, and output is written forward from
/// `out_pos`, never past the end of `window`, and nowhere else. Returns the
/// status as its `TINFLStatus` code (from -4 to 2 without the
/// `block-boundary` feature), the input bytes consumed and the output bytes
/// produced. `NeedsMoreInput` comes only once all input is consumed, and
/// `HasMoreOutput` only once the window is filled to its end.
/// `zlib_header` sets the flag that says the stream starts with a zlib
/// header (and ends with its Adler-32 checksum); `more_input` sets the flag
/// that says more input follows this call.
///
/// The history records the consumed input, the produced output, the status
/// and the two flags of the step. A decoder whose every step parsed the zlib
/// header and was given a window holding its output so far, zero where no
/// output is yet (the dictionary that back-references read), decodes
/// deterministically: when it reports the end of the stream, its output is
/// `zlib_inflate` of what it consumed.
#[verifier::external_body]
pub(crate) fn inflate_step(
    inflater: &mut Inflater,
    input: &[u8],
    window: &mut [u8; crate::inflate::OUT_BUFFER_CAPACITY],
    out_pos: usize,
    zlib_header: bool,
    more_input: bool,
) -> (r: (i8, usize, usize))
    requires
        out_pos <= old(window)@.len(),
    ensures
        -4 <= r.0 <= 2,
        r.1 <= input@.len(),
        out_pos + r.2 <= old(window)@.len(),
        final(window)@.len() == old(window)@.len(),
        forall|i: int| 0 <= i < out_pos ==> final(window)@[i] == old(window)@[i],
        forall|i: int|
            out_pos + r.2 <= i < old(window)@.len() ==> final(window)@[i] == old(window)@[i],
        final(inflater).fed() == old(inflater).fed() + input@.subrange(0, r.1 as int),
        final(inflater).output() == old(inflater).output() + final(window)@.subrange(
            out_pos as int,
            out_pos + r.2,
        ),
        final(inflater).last_status() == r.0,
        final(inflater).flags() == old(inflater).flags().push((zlib_header, more_input)),
        final(inflater).sound() == (old(inflater).sound() && zlib_header && window_holds(
            old(inflater).output(),
            old(window)@,
            out_pos as int,
        )),
        final(inflater).sound() && r.0 == STATUS_DONE ==> final(inflater).output()
            == zlib_inflate(final(inflater).fed()),
        r.0 == STATUS_NEEDS_MORE_INPUT ==> r.1 == input@.len(),
        r.0 == STATUS_HAS_MORE_OUTPUT ==> out_pos + r.2 == old(window)@.len(),
{
    let header = if zlib_header { miniz_oxide::inflate::core::inflate_flags::TINFL_FLAG_PARSE_ZLIB_HEADER } else { 0 };
    let more = if more_input { miniz_oxide::inflate::core::inflate_flags::TINFL_FLAG_HAS_MORE_INPUT } else { 0 };
    let (status, consumed, produced) = miniz_oxide::inflate::core::decompress(
        &mut inflater.state,
        input,
        &mut window[..],
        out_pos,
        header | more,
    );
    (status as i8, consumed, produced)
}

} // verus!
