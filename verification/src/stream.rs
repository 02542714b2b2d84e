//! The flow of sample buffers from the device to its readers.
use crate::dsp;
use crate::error::{Error, Result, UsbError};
use vstd::prelude::*;

verus! {

/// The USB endpoint that samples come from.
pub const BULK_ENDPOINT: u8 = 0x81;

/// How long one read of samples may take, in milliseconds.
pub const READ_TIMEOUT_MS: u64 = 100;

/// How many buffers are in flight, and how many bytes each holds.
#[derive(Debug, Clone, Copy, PartialEq, Eq, Structural)]
pub struct StreamConfig {
    pub num_buffers: usize,
    pub buffer_size: usize,
}

impl Default for StreamConfig {
    fn default() -> (config: Self)
        ensures
            config == (StreamConfig { num_buffers: 16, buffer_size: 262_144 }),
    {
        StreamConfig { num_buffers: 16, buffer_size: 262_144 }
    }
}

// ── Reading ─────────────────────────────────────────────────────────────────
/// What becomes of the buffer that a read was made into, and of the reader.
#[derive(Debug, Clone, Copy, PartialEq, Eq, Structural)]
pub enum ReadAction {
    /// Hand the buffer to the stream's consumer.
    Deliver,
    /// Nothing was read: put the buffer back, and read again.
    Recycle,
    /// Tell the consumer about the error, and stop.
    Report(Error),
}

/// What a read means. That no samples came in time is no error.
pub open spec fn action_after(res: Result<usize>) -> ReadAction {
    match res {
        Ok(n) => if n > 0 {
            ReadAction::Deliver
        } else {
            ReadAction::Recycle
        },
        Err(e) => if e == Error::Usb(UsbError::Timeout) {
            ReadAction::Recycle
        } else {
            ReadAction::Report(e)
        },
    }
}

/// Decides what becomes of the buffer after a read.
pub fn after_read(res: Result<usize>) -> (action: ReadAction)
    ensures
        action == action_after(res),
{
    match res {
        Ok(n) => if n > 0 {
            ReadAction::Deliver
        } else {
            ReadAction::Recycle
        },
        Err(Error::Usb(UsbError::Timeout)) => ReadAction::Recycle,
        Err(e) => ReadAction::Report(e),
    }
}

/// Whether a stream drops what it received. After the receiver has been tuned it drops the
/// samples that it holds, but no error, nor the end.
pub fn drops(samples: bool, flush_due: bool) -> (b: bool)
    ensures
        b == (samples && flush_due),
{
    samples && flush_due
}

// ── Filtered streams ────────────────────────────────────────────────────────
/// A step that a block of a filtered stream goes through.
#[derive(Debug, Clone, Copy, PartialEq, Eq, Structural)]
pub enum Stage {
    Convert,
    RemoveDc,
    Agc,
    Decimate,
}

/// The steps of a filtered stream, in order.
pub open spec fn stages_of(dc_removal: bool, agc: bool, factor: usize) -> Seq<Stage> {
    seq![Stage::Convert] + (if dc_removal {
        seq![Stage::RemoveDc]
    } else {
        Seq::empty()
    }) + (if agc {
        seq![Stage::Agc]
    } else {
        Seq::empty()
    }) + (if factor > 1 {
        seq![Stage::Decimate]
    } else {
        Seq::empty()
    })
}

/// Lists the steps of a filtered stream. A factor of at most 1 means no decimation.
pub fn stages(dc_removal: bool, agc: bool, factor: usize) -> (list: Vec<Stage>)
    ensures
        list@ == stages_of(dc_removal, agc, factor),
{
    let mut list: Vec<Stage> = Vec::new();
    list.push(Stage::Convert);
    if dc_removal {
        list.push(Stage::RemoveDc);
    }
    if agc {
        list.push(Stage::Agc);
    }
    if factor > 1 {
        list.push(Stage::Decimate);
    }
    assert(list@ =~= stages_of(dc_removal, agc, factor));
    list
}

/// The length of a buffer for the decimated samples of a block.
pub fn decimated_len(buffer_size: usize, factor: usize) -> (len: usize)
    requires
        factor > 1,
    ensures
        len == buffer_size as int / factor as int + 16,
{
    proof {
        assert(buffer_size as int / factor as int <= buffer_size as int / 2) by (nonlinear_arith)
            requires
                factor >= 2,
                buffer_size >= 0,
        ;
    }
    buffer_size / factor + 16
}

/// A buffer for decimated samples has room for all that a block can give, whatever the
/// phases of I and Q.
pub proof fn lemma_decimated_block_fits(buffer_size: int, factor: int, i_phase: int, q_phase: int)
    requires
        0 <= buffer_size,
        0 < factor,
        0 <= i_phase,
        0 <= q_phase,
    ensures
        dsp::count_below(i_phase, factor, buffer_size / 2) + dsp::count_below(
            q_phase,
            factor,
            buffer_size / 2,
        ) <= buffer_size / factor + 16,
{
    lemma_count_at_most(i_phase, factor, buffer_size / 2);
    lemma_count_at_most(q_phase, factor, buffer_size / 2);
    assert(2 * ((buffer_size / 2) / factor) <= buffer_size / factor) by (nonlinear_arith)
        requires
            0 <= buffer_size,
            0 < factor,
    ;
}

proof fn lemma_count_at_most(phase: int, factor: int, len: int)
    requires
        0 <= phase,
        0 < factor,
        0 <= len,
    ensures
        dsp::count_below(phase, factor, len) <= len / factor + 1,
{
    if phase < len {
        assert((len - phase - 1) / factor <= len / factor) by (nonlinear_arith)
            requires
                0 <= phase,
                phase < len,
                0 < factor,
        ;
    } else {
        vstd::arithmetic::div_mod::lemma_div_pos_is_pos(len, factor);
    }
}

/// Only a read that brought samples is handed on. One that brought none, or whose time ran
/// out, is made again, and every other error is reported as it is.
pub proof fn lemma_reads_handled(res: Result<usize>)
    ensures
        ({
            let action = action_after(res);
            &&& action == ReadAction::Deliver <==> (res matches Ok(n) && n > 0)
            &&& action == ReadAction::Recycle <==> res == Result::<usize>::Ok(0) || res == Result::<
                usize,
            >::Err(Error::Usb(UsbError::Timeout))
            &&& res matches Err(e) ==> e == Error::Usb(UsbError::Timeout) || action
                == ReadAction::Report(e)
        }),
{
}

/// A stream converts first and decimates last. It removes the DC offset and controls the
/// gain where it is to, in this order, and decimates by a factor of at least 2.
pub proof fn lemma_stages_in_order(dc_removal: bool, agc: bool, factor: usize)
    ensures
        ({
            let list = stages_of(dc_removal, agc, factor);
            let dc = if dc_removal {
                1int
            } else {
                0
            };
            let gain = if agc {
                1int
            } else {
                0
            };
            &&& list.len() == 1 + dc + gain + if factor >= 2 {
                1int
            } else {
                0
            }
            &&& list[0] == Stage::Convert
            &&& dc_removal ==> list[1] == Stage::RemoveDc
            &&& agc ==> list[1 + dc] == Stage::Agc
            &&& factor >= 2 ==> list[1 + dc + gain] == Stage::Decimate
        }),
{
}

} // verus!
