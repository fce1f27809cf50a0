//! Sensor registers, the I2C byte layout of their words, and the checks and
//! assembly of one measured frame.

use vstd::prelude::*;
use crate::types::Error;

verus! {

/// First EEPROM address.
pub const EEPROM_START: u16 = 0x2400;

/// First pixel RAM address.
pub const PIXEL_DATA_START: u16 = 0x0400;

/// First auxiliary RAM address.
pub const AUX_DATA_START: u16 = 0x0700;

/// Status register address.
pub const STATUS_REG: u16 = 0x8000;

/// Control register address.
pub const CTRL_REG: u16 = 0x800D;

/// Status written back after a frame was taken: clears "new data", keeps
/// overwrite and data-hold enabled.
pub const INIT_STATUS: u16 = 0x0030;

/// How many times the status is polled for a new frame before giving up.
pub const MAX_WAIT_ITERATIONS: u32 = 2000;

/// Number of pixel words in RAM.
pub const PIXEL_WORDS: usize = 768;

/// Number of auxiliary words in RAM.
pub const AUX_WORDS: usize = 64;

/// Words of one assembled frame: pixels, auxiliary words, control register, subpage.
pub const FRAME_WORDS: usize = 834;

/// Marker of a word the sensor has not measured.
pub const NOT_MEASURED: u16 = 0x7FFF;

/// Big-endian bytes of a 16-bit word, as it goes over I2C.
pub open spec fn be_bytes(w: u16) -> Seq<u8> {
    seq![(w / 256) as u8, (w % 256) as u8]
}

/// The word whose big-endian bytes are `hi`, `lo`.
pub open spec fn be_word(hi: u8, lo: u8) -> u16 {
    (hi * 256 + lo) as u16
}

/// Big-endian bytes of a register address or value.
pub fn word_to_be_bytes(w: u16) -> (r: [u8; 2])
    ensures
        r@ == be_bytes(w),
{
    assert((w >> 8) as u8 == (w / 256) as u8 && (w & 0xFF) as u8 == (w % 256) as u8) by (bit_vector);
    [(w >> 8) as u8, (w & 0xFF) as u8]
}

/// The word of two big-endian bytes.
pub fn word_from_be_bytes(hi: u8, lo: u8) -> (r: u16)
    ensures
        r == be_word(hi, lo),
{
    assert(((hi as u16) << 8) | (lo as u16) == hi * 256 + lo) by (bit_vector);
    ((hi as u16) << 8) | (lo as u16)
}

/// Bytes and words convert back and forth without loss.
pub proof fn lemma_be_round_trip(w: u16, hi: u8, lo: u8)
    ensures
        be_word(be_bytes(w)[0], be_bytes(w)[1]) == w,
        be_bytes(be_word(hi, lo)) == seq![hi, lo],
{
    assert(be_bytes(be_word(hi, lo)) =~= seq![hi, lo]);
}

/// The four bytes of a register write: address then value, both big-endian.
pub fn register_write_payload(reg: u16, value: u16) -> (r: [u8; 4])
    ensures
        r@ == be_bytes(reg) + be_bytes(value),
{
    let a = word_to_be_bytes(reg);
    let v = word_to_be_bytes(value);
    let r = [a[0], a[1], v[0], v[1]];
    assert(r@ =~= be_bytes(reg) + be_bytes(value));
    r
}

/// The words of a big-endian byte buffer, two bytes each (a last odd byte is ignored).
pub open spec fn be_words(buf: Seq<u8>) -> Seq<u16> {
    Seq::new(buf.len() / 2, |i: int| be_word(buf[2 * i], buf[2 * i + 1]))
}

/// Reads the words of a big-endian byte buffer, as the sensor sends its memory.
pub fn words_from_be_bytes(buf: &[u8]) -> (r: Vec<u16>)
    ensures
        r@ == be_words(buf@),
{
    let len = buf.len();
    let n = len / 2;
    let mut out: Vec<u16> = Vec::new();
    let mut i: usize = 0;
    while i < n
        invariant
            len == buf@.len(),
            n == len / 2,
            2 * n <= len,
            i <= n,
            out@.len() == i,
            forall|k: int| 0 <= k < i ==> #[trigger] out@[k] == be_word(buf@[2 * k], buf@[2 * k + 1]),
        decreases n - i,
    {
        out.push(word_from_be_bytes(buf[2 * i], buf[2 * i + 1]));
        i += 1;
    }
    assert(out@ =~= be_words(buf@));
    out
}

/// Refresh-rate code held in bits 7..10 of the control register.
pub open spec fn refresh_rate_field(ctrl: u16) -> u16 {
    (ctrl / 128) % 8
}

/// The control register with its refresh-rate bits replaced by `rate_raw`
/// (its low three bits); every other bit is kept.
pub open spec fn spec_refresh_rate_control(ctrl: u16, rate_raw: u16) -> u16 {
    ((ctrl & 0xFC7F) | (((rate_raw % 8) * 128) as u16)) as u16
}

/// New control register value that selects refresh-rate code `rate_raw`.
pub fn refresh_rate_control(ctrl: u16, rate_raw: u16) -> (r: u16)
    ensures
        r == spec_refresh_rate_control(ctrl, rate_raw),
{
    let mask: u16 = !(0b111u16 << 7u16);
    assert(mask == 0xFC7F) by (bit_vector)
        requires
            mask == !(0b111u16 << 7u16),
    ;
    assert((rate_raw << 7u16) & !0xFC7Fu16 == ((rate_raw % 8) * 128) as u16) by (bit_vector);
    (ctrl & mask) | ((rate_raw << 7) & !mask)
}

/// Reading the rate back after writing it gives the rate written, and the
/// other bits of the control register stay as they were.
pub proof fn lemma_refresh_rate_read_back(ctrl: u16, rate_raw: u16)
    ensures
        refresh_rate_field(spec_refresh_rate_control(ctrl, rate_raw)) == rate_raw % 8,
        spec_refresh_rate_control(ctrl, rate_raw) & 0xFC7F == ctrl & 0xFC7F,
{
    let r = spec_refresh_rate_control(ctrl, rate_raw);
    let k = (rate_raw % 8) as u16;
    assert(k < 8);
    assert(((ctrl & 0xFC7F) | ((k * 128) as u16)) / 128 % 8 == k) by (bit_vector)
        requires
            k < 8,
    ;
    assert(((ctrl & 0xFC7F) | ((k * 128) as u16)) & 0xFC7F == ctrl & 0xFC7F) by (bit_vector)
        requires
            k < 8,
    ;
}

/// The status register reports a new frame (bit 3).
pub open spec fn spec_new_data_ready(status: u16) -> bool {
    (status / 8) % 2 == 1
}

/// Whether the status register reports a new frame.
pub fn new_data_ready(status: u16) -> (r: bool)
    ensures
        r == spec_new_data_ready(status),
{
    assert((status & 0x0008 != 0) == ((status / 8) % 2 == 1)) by (bit_vector);
    status & 0x0008 != 0
}

/// A new frame is reported exactly when bit 3 of the status register is set.
pub proof fn lemma_new_data_bit(status: u16)
    ensures
        spec_new_data_ready(status) <==> status & 0x0008 == 0x0008,
{
    assert(((status / 8) % 2 == 1) <==> (status & 0x0008 == 0x0008)) by (bit_vector);
}

/// What waiting for a frame does after one poll of the status register.
#[derive(Clone, Copy, Debug, PartialEq, Eq, Structural)]
pub enum PollStep {
    /// No frame yet and polls are left: read the status again.
    PollAgain,
    /// A frame is reported, or the polls are used up: read the status once
    /// more and judge it with `check_frame_ready`.
    FinalCheck,
}

/// The decision after poll number `polls_done` (counted from 0) read `status`.
pub open spec fn spec_poll_step(polls_done: u32, status: u16) -> PollStep {
    if spec_new_data_ready(status) || polls_done + 1 >= MAX_WAIT_ITERATIONS {
        PollStep::FinalCheck
    } else {
        PollStep::PollAgain
    }
}

/// One step of waiting for a new frame: stop polling as soon as the status
/// reports a frame, and at the latest after `MAX_WAIT_ITERATIONS` polls.
pub fn poll_step(polls_done: u32, status: u16) -> (r: PollStep)
    requires
        polls_done < MAX_WAIT_ITERATIONS,
    ensures
        r == spec_poll_step(polls_done, status),
{
    if new_data_ready(status) || polls_done + 1 >= MAX_WAIT_ITERATIONS {
        PollStep::FinalCheck
    } else {
        PollStep::PollAgain
    }
}

/// Waiting for a frame is bounded: polling again is decided only while fewer
/// than `MAX_WAIT_ITERATIONS` polls have been made, and never once a frame is
/// reported.
pub proof fn lemma_polling_bounded(polls_done: u32, status: u16)
    requires
        polls_done < MAX_WAIT_ITERATIONS,
    ensures
        spec_poll_step(polls_done, status) == PollStep::PollAgain ==> polls_done + 1
            < MAX_WAIT_ITERATIONS && !spec_new_data_ready(status),
        polls_done + 1 == MAX_WAIT_ITERATIONS ==> spec_poll_step(polls_done, status)
            == PollStep::FinalCheck,
{
}

/// Verdict on the status read after polling: a frame is there, or the wait timed out.
pub fn check_frame_ready(status: u16) -> (r: Result<(), Error>)
    ensures
        r is Ok <==> spec_new_data_ready(status),
        r is Err ==> r == Err::<(), Error>(Error::Timeout),
{
    if !new_data_ready(status) {
        return Err(Error::Timeout);
    }
    Ok(())
}

/// Subpage the last measurement filled (bit 0 of the status register).
pub fn subpage_of_status(status: u16) -> (r: u16)
    ensures
        r == status % 2,
{
    assert(status & 0x0001 == status % 2) by (bit_vector);
    status & 0x0001
}

/// Readout pattern bit of the control register (bit 12): 0 interleaved, 1 chess.
pub fn readout_mode(ctrl: u16) -> (r: u16)
    ensures
        r == (ctrl / 4096) % 2,
{
    assert((ctrl >> 12) & 0x01 == (ctrl / 4096) % 2) by (bit_vector);
    (ctrl >> 12) & 0x01
}

/// Readout pattern of the control register in the encoding of the calibration
/// mode: 0 interleaved, 0x80 chess.
pub fn readout_mode_code(ctrl: u16) -> (r: u16)
    ensures
        r == ((ctrl / 4096) % 2) * 0x80,
{
    assert((ctrl & 0x1000) >> 5 == ((ctrl / 4096) % 2) * 0x80) by (bit_vector);
    (ctrl & 0x1000) >> 5
}

/// ADC resolution code of the control register (bits 10..12).
pub fn resolution_code(ctrl: u16) -> (r: u16)
    ensures
        r == (ctrl / 1024) % 4,
{
    assert((ctrl >> 10) & 0x03 == (ctrl / 1024) % 4) by (bit_vector);
    (ctrl >> 10) & 0x03
}

/// Auxiliary word `i` is one the sensor must have measured.
pub open spec fn aux_index_checked(i: int) -> bool {
    i == 0 || 8 <= i < 19 || 20 <= i < 23 || 24 <= i < 33 || 40 <= i < 51 || 52 <= i < 55 || 56
        <= i < 64
}

/// None of the measured auxiliary words holds the "not measured" marker.
pub open spec fn aux_data_valid(aux: Seq<u16>) -> bool {
    forall|i: int| 0 <= i < 64 && aux_index_checked(i) ==> #[trigger] aux[i] != NOT_MEASURED
}

/// Checks that the measured auxiliary words were all measured.
pub fn validate_aux_data(aux_data: &[u16]) -> (r: Result<(), Error>)
    requires
        aux_data@.len() >= 64,
    ensures
        r is Ok <==> aux_data_valid(aux_data@),
        r is Err ==> r == Err::<(), Error>(Error::FrameDataError),
{
    if aux_data[0] == NOT_MEASURED {
        assert(aux_index_checked(0) && aux_data@[0] == NOT_MEASURED);
        return Err(Error::FrameDataError);
    }
    let ranges: [(usize, usize); 6] = [(8, 19), (20, 23), (24, 33), (40, 51), (52, 55), (56, 64)];
    assert(ranges@ == seq![(8usize, 19usize), (20usize, 23usize), (24usize, 33usize), (40usize, 51usize), (52usize, 55usize), (56usize, 64usize)]);
    let mut k: usize = 0;
    while k < 6
        invariant
            k <= 6,
            aux_data@.len() >= 64,
            ranges@ == seq![(8usize, 19usize), (20usize, 23usize), (24usize, 33usize), (40usize, 51usize), (52usize, 55usize), (56usize, 64usize)],
            aux_data@[0] != NOT_MEASURED,
            forall|i: int|
                0 <= i < 64 && aux_index_checked(i) && (k == 6 || i < ranges@[k as int].0)
                    ==> aux_data@[i] != NOT_MEASURED,
        decreases 6 - k,
    {
        let (lo, hi) = ranges[k];
        let mut i: usize = lo;
        while i < hi
            invariant
                k < 6,
                aux_data@.len() >= 64,
                ranges@ == seq![(8usize, 19usize), (20usize, 23usize), (24usize, 33usize), (40usize, 51usize), (52usize, 55usize), (56usize, 64usize)],
                lo == ranges@[k as int].0,
                hi == ranges@[k as int].1,
                lo <= i <= hi,
                aux_data@[0] != NOT_MEASURED,
                forall|j: int|
                    0 <= j < 64 && aux_index_checked(j) && (j < lo || (lo <= j < i))
                        ==> aux_data@[j] != NOT_MEASURED,
            decreases hi - i,
        {
            if aux_data[i] == NOT_MEASURED {
                assert(aux_index_checked(i as int) && aux_data@[i as int] == NOT_MEASURED);
                return Err(Error::FrameDataError);
            }
            i += 1;
        }
        k += 1;
    }
    Ok(())
}

/// No line of the given subpage starts with the "not measured" marker; the
/// subpage of line `l` is `l % 2`.
pub open spec fn frame_data_valid(frame: Seq<u16>, subpage: u16) -> bool {
    forall|line: int|
        0 <= line < 24 ==> !(#[trigger] line_head(frame, line) == NOT_MEASURED && line % 2 == subpage)
}

/// First pixel word of line `line`.
pub open spec fn line_head(frame: Seq<u16>, line: int) -> u16 {
    frame[32 * line]
}

/// Checks that each line of the measured subpage was measured (its first pixel
/// does not hold the "not measured" marker).
pub fn validate_frame_data(frame_data: &[u16], subpage: u16) -> (r: Result<(), Error>)
    requires
        frame_data@.len() > 736,
    ensures
        r is Ok <==> frame_data_valid(frame_data@, subpage),
        r is Err ==> r == Err::<(), Error>(Error::FrameDataError),
{
    let mut line: usize = 0;
    while line < 24
        invariant
            line <= 24,
            frame_data@.len() > 736,
            forall|l: int|
                0 <= l < line ==> !(#[trigger] line_head(frame_data@, l) == NOT_MEASURED && l % 2
                    == subpage),
        decreases 24 - line,
    {
        if frame_data[32 * line] == NOT_MEASURED && (line % 2) as u16 == subpage {
            assert(line_head(frame_data@, line as int) == NOT_MEASURED);
            return Err(Error::FrameDataError);
        }
        line += 1;
    }
    Ok(())
}

/// The frame the sensor's memory gives: pixel words, auxiliary words, the
/// control register and the measured subpage.
pub open spec fn frame_of(pixels: Seq<u16>, aux: Seq<u16>, ctrl: u16, status: u16) -> Seq<u16> {
    pixels + aux + seq![ctrl, status % 2]
}

/// Puts one measured frame together and checks its measured subpage.
///
/// Fails with `FrameDataError` exactly when a line of the subpage the status
/// names was not measured.
pub fn assemble_frame_data(pixel_data: &[u16], aux_data: &[u16], ctrl: u16, status: u16) -> (r:
    Result<Vec<u16>, Error>)
    requires
        pixel_data@.len() == PIXEL_WORDS,
        aux_data@.len() == AUX_WORDS,
    ensures
        r is Ok <==> frame_data_valid(frame_of(pixel_data@, aux_data@, ctrl, status), status % 2),
        r is Err ==> r == Err::<Vec<u16>, Error>(Error::FrameDataError),
        r matches Ok(f) ==> f@ == frame_of(pixel_data@, aux_data@, ctrl, status),
{
    let mut frame: Vec<u16> = Vec::new();
    let mut i: usize = 0;
    while i < PIXEL_WORDS
        invariant
            pixel_data@.len() == PIXEL_WORDS,
            i <= PIXEL_WORDS,
            frame@ == pixel_data@.take(i as int),
        decreases PIXEL_WORDS - i,
    {
        frame.push(pixel_data[i]);
        i += 1;
    }
    let mut j: usize = 0;
    while j < AUX_WORDS
        invariant
            pixel_data@.len() == PIXEL_WORDS,
            aux_data@.len() == AUX_WORDS,
            j <= AUX_WORDS,
            frame@ == pixel_data@ + aux_data@.take(j as int),
        decreases AUX_WORDS - j,
    {
        frame.push(aux_data[j]);
        j += 1;
    }
    assert(pixel_data@.take(PIXEL_WORDS as int) =~= pixel_data@);
    assert(aux_data@.take(AUX_WORDS as int) =~= aux_data@);
    frame.push(ctrl);
    let sub = subpage_of_status(status);
    frame.push(sub);
    assert(frame@ =~= frame_of(pixel_data@, aux_data@, ctrl, status));
    validate_frame_data(frame.as_slice(), frame[833])?;
    Ok(frame)
}

/// The auxiliary words that are not checked are exactly words 1 to 7, 19, 23,
/// 33 to 39, 51 and 55; a marker in one of them never fails the check, and a
/// marker in any other word always does.
pub proof fn lemma_aux_checked_words(aux: Seq<u16>, i: int, x: u16)
    requires
        aux.len() >= 64,
        0 <= i < 64,
    ensures
        aux_index_checked(i) <==> !(1 <= i < 8 || i == 19 || i == 23 || 33 <= i < 40 || i == 51
            || i == 55),
        !aux_index_checked(i) ==> (aux_data_valid(aux.update(i, x)) <==> aux_data_valid(aux)),
        aux_index_checked(i) ==> !aux_data_valid(aux.update(i, NOT_MEASURED)),
{
    let a2 = aux.update(i, x);
    if !aux_index_checked(i) {
        if aux_data_valid(aux) {
            assert forall|j: int| 0 <= j < 64 && aux_index_checked(j) implies #[trigger] a2[j]
                != NOT_MEASURED by {
                assert(a2[j] == aux[j]);
            }
        }
        if aux_data_valid(a2) {
            assert forall|j: int| 0 <= j < 64 && aux_index_checked(j) implies #[trigger] aux[j]
                != NOT_MEASURED by {
                assert(a2[j] == aux[j]);
            }
        }
    }
    if aux_index_checked(i) {
        assert(aux.update(i, NOT_MEASURED)[i] == NOT_MEASURED);
    }
}

/// Only the first word of each line of the measured subpage is checked: a
/// marker there fails the check, and a change of any other word, including
/// the first word of a line of the other subpage, leaves the verdict as it was.
pub proof fn lemma_frame_checked_words(frame: Seq<u16>, subpage: u16, j: int, x: u16)
    requires
        frame.len() > 736,
        0 <= j < frame.len(),
    ensures
        j < 768 && j % 32 == 0 && (j / 32) % 2 == subpage ==> !frame_data_valid(
            frame.update(j, NOT_MEASURED),
            subpage,
        ),
        !(j < 768 && j % 32 == 0 && (j / 32) % 2 == subpage) ==> (frame_data_valid(
            frame.update(j, x),
            subpage,
        ) <==> frame_data_valid(frame, subpage)),
{
    if j < 768 && j % 32 == 0 && (j / 32) % 2 == subpage {
        let l: int = j / 32;
        assert(line_head(frame.update(j, NOT_MEASURED), l) == NOT_MEASURED);
    } else {
        let f2 = frame.update(j, x);
        assert forall|l: int| 0 <= l < 24 && l % 2 == subpage implies #[trigger] line_head(f2, l)
            == line_head(frame, l) by {
            assert(32 * l != j);
        }
        if frame_data_valid(frame, subpage) {
            assert forall|l: int| 0 <= l < 24 implies !(#[trigger] line_head(f2, l) == NOT_MEASURED
                && l % 2 == subpage) by {
                if l % 2 == subpage {
                    assert(line_head(f2, l) == line_head(frame, l));
                }
            }
        }
        if frame_data_valid(f2, subpage) {
            assert forall|l: int| 0 <= l < 24 implies !(#[trigger] line_head(frame, l) == NOT_MEASURED
                && l % 2 == subpage) by {
                if l % 2 == subpage {
                    assert(line_head(f2, l) == line_head(frame, l));
                }
            }
        }
    }
}

} // verus!
