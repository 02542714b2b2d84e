//! The rtl_tcp protocol: the handshake, the commands and what they do.
use crate::config::THIRTY_BITS;
use crate::daemon::HardwareBand;
use crate::device::{BusOp, HardwareInterface};
use crate::driver::{self, Driver};
use crate::record::{self, Place};
use crate::tuner::{self, Decibels, Gain, GainSetting, Tuner};
use byteorder::{BigEndian, ByteOrder};
use vstd::prelude::*;

verus! {

// ── Numbers on the wire ─────────────────────────────────────────────────────
/// The four bytes of `n`, the highest first.
pub open spec fn be_bytes(n: int) -> Seq<u8> {
    seq![
        (n / 0x100_0000 % 256) as u8,
        (n / 0x1_0000 % 256) as u8,
        (n / 0x100 % 256) as u8,
        (n % 256) as u8,
    ]
}

/// The number that four bytes stand for, the highest first.
pub open spec fn be_value(b: Seq<u8>) -> int {
    b[0] * 0x100_0000 + b[1] * 0x1_0000 + b[2] * 0x100 + b[3]
}

/// The bits of a signed number as an unsigned one.
pub open spec fn unsigned(n: i32) -> int {
    if n < 0 {
        n + 0x1_0000_0000
    } else {
        n as int
    }
}

/// Reading what was written gives the number back.
pub proof fn lemma_be_round_trip(n: u32)
    ensures
        be_value(be_bytes(n as int)) == n,
{
}

/// `BigEndian::write_u32` of the byteorder crate: it writes the four bytes of the
/// number, the highest first.
#[verifier::external_body]
fn write_u32(n: u32) -> (b: [u8; 4])
    ensures
        b@ == be_bytes(n as int),
{
    let mut b: [u8; 4] = [0u8; 4];
    BigEndian::write_u32(&mut b, n);
    b
}

/// `BigEndian::write_i32` of the byteorder crate: it writes the four bytes of the
/// number in two's complement, the highest first.
#[verifier::external_body]
fn write_i32(n: i32) -> (b: [u8; 4])
    ensures
        b@ == be_bytes(unsigned(n)),
{
    let mut b: [u8; 4] = [0u8; 4];
    BigEndian::write_i32(&mut b, n);
    b
}

/// `BigEndian::read_u32` of the byteorder crate: it reads the number that the first
/// four bytes stand for, the highest first.
#[verifier::external_body]
fn read_u32(b: &[u8]) -> (n: u32)
    requires
        b@.len() >= 4,
    ensures
        n == be_value(b@),
{
    BigEndian::read_u32(b)
}

// ── Handshake ───────────────────────────────────────────────────────────────
/// The bytes of "RTL0".
pub const RTL_TCP_MAGIC: [u8; 4] = [0x52, 0x54, 0x4c, 0x30];

/// What the server sends first: the magic, the tuner's number and how many gain
/// steps it has.
pub open spec fn header_bytes(tuner_id: u32, gain_count: int) -> Seq<u8> {
    RTL_TCP_MAGIC@ + be_bytes(tuner_id as int) + be_bytes(gain_count)
}

/// The gain steps on the wire, four bytes each.
pub open spec fn gain_bytes(gains: Seq<i32>) -> Seq<u8>
    decreases gains.len(),
{
    if gains.len() == 0 {
        Seq::empty()
    } else {
        gain_bytes(gains.drop_last()) + be_bytes(unsigned(gains.last()))
    }
}

/// Every gain step stands at four times its position.
pub proof fn lemma_gain_position(gains: Seq<i32>, i: int)
    requires
        0 <= i < gains.len(),
    ensures
        gain_bytes(gains).len() == 4 * gains.len(),
        gain_bytes(gains).subrange(4 * i, 4 * i + 4) == be_bytes(unsigned(gains[i])),
    decreases gains.len(),
{
    lemma_gain_bytes_len(gains);
    lemma_gain_bytes_len(gains.drop_last());
    if i == gains.len() - 1 {
        assert(gain_bytes(gains).subrange(4 * i, 4 * i + 4) =~= be_bytes(unsigned(gains[i])));
    } else {
        lemma_gain_position(gains.drop_last(), i);
        assert(gain_bytes(gains).subrange(4 * i, 4 * i + 4) =~= gain_bytes(
            gains.drop_last(),
        ).subrange(4 * i, 4 * i + 4));
    }
}

proof fn lemma_gain_bytes_len(gains: Seq<i32>)
    ensures
        gain_bytes(gains).len() == 4 * gains.len(),
    decreases gains.len(),
{
    if gains.len() > 0 {
        lemma_gain_bytes_len(gains.drop_last());
    }
}

/// Builds the header, followed by the gain steps, which clients rely on to stay in
/// step with the protocol.
pub fn handshake(tuner_id: u32, gains: &[i32]) -> (bytes: Vec<u8>)
    requires
        gains@.len() <= u32::MAX,
    ensures
        bytes@ == header_bytes(tuner_id, gains@.len() as int) + gain_bytes(gains@),
{
    let mut bytes: Vec<u8> = Vec::new();
    let magic: [u8; 4] = RTL_TCP_MAGIC;
    let id: [u8; 4] = write_u32(tuner_id);
    let count: [u8; 4] = write_u32(gains.len() as u32);
    bytes.extend_from_slice(&magic);
    bytes.extend_from_slice(&id);
    bytes.extend_from_slice(&count);
    let ghost header = bytes@;
    assert(header =~= header_bytes(tuner_id, gains@.len() as int));
    let mut i: usize = 0;
    assert(gains@.take(0) =~= Seq::empty());
    while i < gains.len()
        invariant
            i <= gains@.len(),
            bytes@ == header + gain_bytes(gains@.take(i as int)),
        decreases gains@.len() - i,
    {
        let gain: [u8; 4] = write_i32(gains[i]);
        bytes.extend_from_slice(&gain);
        proof {
            let next = gains@.take(i + 1);
            assert(next.drop_last() =~= gains@.take(i as int));
            assert(bytes@ =~= header + gain_bytes(next));
        }
        i = i + 1;
    }
    assert(gains@.take(i as int) =~= gains@);
    bytes
}

// ── Commands ────────────────────────────────────────────────────────────────
/// The length of a command on the wire.
pub const COMMAND_LEN: usize = 5;

/// What a client asks for.
#[derive(Debug, Clone, Copy, PartialEq, Eq, Structural)]
pub enum TcpCommand {
    Frequency { hz: u64 },
    SampleRate { rate_hz: u32 },
    /// Gain chosen by hand, or by the chip.
    GainMode { manual: bool },
    /// A gain in tenths of a decibel.
    Gain { tenths: u32 },
    Ppm { ppm: i32 },
    Agc { on: bool },
    BiasT { on: bool },
    GainIndex { index: u32 },
    /// A command that is accepted and changes nothing.
    Accepted { code: u8 },
    Unsupported { code: u8 },
}

/// The command with a code and an argument.
pub open spec fn command_of(code: u8, arg: u32) -> TcpCommand {
    if code == 0x01 {
        TcpCommand::Frequency { hz: arg as u64 }
    } else if code == 0x02 {
        TcpCommand::SampleRate { rate_hz: arg }
    } else if code == 0x03 {
        TcpCommand::GainMode { manual: arg != 0 }
    } else if code == 0x04 {
        TcpCommand::Gain { tenths: arg }
    } else if code == 0x05 {
        TcpCommand::Ppm { ppm: arg as i32 }
    } else if code == 0x08 {
        TcpCommand::Agc { on: arg != 0 }
    } else if code == 0x09 || code == 0x0a || code == 0x0d {
        TcpCommand::Accepted { code }
    } else if code == 0x0e {
        TcpCommand::BiasT { on: arg != 0 }
    } else if code == 0x13 {
        TcpCommand::GainIndex { index: arg }
    } else {
        TcpCommand::Unsupported { code }
    }
}

/// Decodes a command: its code, then its argument in four bytes.
pub fn decode(frame: &[u8; 5]) -> (command: TcpCommand)
    ensures
        command == command_of(frame@[0], be_value(frame@.subrange(1, 5)) as u32),
{
    let arg: u32 = read_u32(&frame[1..5]);
    let code: u8 = frame[0];
    assert(arg == be_value(frame@.subrange(1, 5)));
    match code {
        0x01 => TcpCommand::Frequency { hz: arg as u64 },
        0x02 => TcpCommand::SampleRate { rate_hz: arg },
        0x03 => TcpCommand::GainMode { manual: arg != 0 },
        0x04 => TcpCommand::Gain { tenths: arg },
        0x05 => TcpCommand::Ppm { ppm: arg as i32 },
        0x08 => TcpCommand::Agc { on: arg != 0 },
        0x09 | 0x0a | 0x0d => TcpCommand::Accepted { code },
        0x0e => TcpCommand::BiasT { on: arg != 0 },
        0x13 => TcpCommand::GainIndex { index: arg },
        _ => TcpCommand::Unsupported { code },
    }
}

/// A command that a client has put together from a code and an argument is decoded
/// as that command.
pub proof fn lemma_command_round_trip(code: u8, arg: u32)
    ensures
        ({
            let frame = seq![code] + be_bytes(arg as int);
            command_of(frame[0], be_value(frame.subrange(1, 5)) as u32) == command_of(code, arg)
        }),
{
    let frame = seq![code] + be_bytes(arg as int);
    assert(frame.subrange(1, 5) =~= be_bytes(arg as int));
    lemma_be_round_trip(arg);
}

/// The gain that is set when a client switches to manual gain before it has set one:
/// 30 dB.
pub open spec fn default_gain() -> GainSetting {
    GainSetting { db: Decibels { bits: THIRTY_BITS }, tenths: 300 }
}

/// Whether a gain is below one decibel.
pub open spec fn is_below_one(gain: Gain) -> bool {
    match gain {
        Gain::Tenths(t) => t < 10,
        Gain::Exact(db) => db.is_number() && (db.is_negative() || db.magnitude()
            < tuner::ONE_BITS),
    }
}

/// The receiver with manual gain, at the default gain if none was set before.
pub open spec fn manual_gain_set<H: HardwareInterface, T: Tuner<H>>(driver: Driver<H, T>) -> Driver<
    H,
    T,
> {
    let manual = driver.agc_switched(false).driver;
    if is_below_one(manual.tuner.gain()) {
        manual.gained_if_possible(default_gain()).driver
    } else {
        manual
    }
}

/// The receiver once a command has been performed. `shared` says that others use the
/// receiver too; `level` is the argument of a gain command as a gain to be set.
/// Failures do not matter to the client.
pub open spec fn performed<H: HardwareInterface, T: Tuner<H>>(
    driver: Driver<H, T>,
    command: TcpCommand,
    shared: bool,
    level: GainSetting,
) -> Driver<H, T> {
    match command {
        TcpCommand::Frequency { hz } => driver.tuned_if_possible(hz).driver,
        TcpCommand::SampleRate { rate_hz } => if shared {
            driver
        } else {
            driver.rate_set_if_possible(rate_hz).driver
        },
        TcpCommand::GainMode { manual } => if manual {
            manual_gain_set(driver)
        } else {
            driver.agc_switched(true).driver
        },
        TcpCommand::Gain { .. } => driver.agc_switched(false).driver.gained_if_possible(
            level,
        ).driver,
        TcpCommand::Ppm { ppm } => driver.corrected_if_possible(ppm).driver,
        TcpCommand::Agc { on } => driver.agc_switched(on).driver,
        TcpCommand::BiasT { on } => driver.bias_switched(on).driver,
        TcpCommand::GainIndex { index } => {
            let manual = driver.agc_switched(false).driver;
            manual.at(manual.tuner.gained_by_index(manual.hw, index as usize))
        },
        TcpCommand::Accepted { .. } => driver,
        TcpCommand::Unsupported { .. } => driver,
    }
}

fn set_manual_gain<H: HardwareInterface, T: Tuner<H>>(driver: &mut Driver<H, T>)
    ensures
        *final(driver) == manual_gain_set(*old(driver)),
{
    let _ = driver.set_agc(false);
    let low = match driver.tuner.get_gain() {
        Ok(Gain::Tenths(t)) => t < 10,
        Ok(Gain::Exact(db)) => db.below_one(),
        Err(_) => true,
    };
    if low {
        let _ = driver.try_set_gain(
            GainSetting { db: Decibels { bits: THIRTY_BITS }, tenths: 300 },
        );
    }
}

/// Performs a command.
pub fn perform<H: HardwareInterface, T: Tuner<H>>(
    driver: &mut Driver<H, T>,
    command: TcpCommand,
    shared: bool,
    level: GainSetting,
)
    ensures
        *final(driver) == performed(*old(driver), command, shared, level),
{
    match command {
        TcpCommand::Frequency { hz } => {
            let _ = driver.try_set_frequency(hz);
        },
        TcpCommand::SampleRate { rate_hz } => {
            if !shared {
                let _ = driver.try_set_sample_rate(rate_hz);
            }
        },
        TcpCommand::GainMode { manual } => {
            if manual {
                set_manual_gain(driver);
            } else {
                let _ = driver.set_agc(true);
            }
        },
        TcpCommand::Gain { .. } => {
            let _ = driver.set_agc(false);
            let _ = driver.try_set_gain(level);
        },
        TcpCommand::Ppm { ppm } => {
            let _ = driver.try_set_ppm(ppm);
        },
        TcpCommand::Agc { on } => {
            let _ = driver.set_agc(on);
        },
        TcpCommand::BiasT { on } => {
            let _ = driver.set_bias_t(on);
        },
        TcpCommand::GainIndex { index } => {
            let _ = driver.set_agc(false);
            let _ = driver.set_gain_by_index(index as usize);
        },
        TcpCommand::Accepted { .. } => {},
        TcpCommand::Unsupported { .. } => {},
    }
}

/// A client of a shared receiver does not change its sample rate.
pub proof fn lemma_shared_rate_stays<H: HardwareInterface, T: Tuner<H>>(
    driver: Driver<H, T>,
    rate_hz: u32,
    level: GainSetting,
)
    ensures
        performed(driver, TcpCommand::SampleRate { rate_hz }, true, level) == driver,
{
}

/// The numbers by which clients ask for things: a frequency in Hertz by 1, a sample rate by
/// 2, manual (not 0) or automatic (0) gain by 3, a gain in tenths of a decibel by 4, a
/// correction in millionths, which may be negative, by 5, the demodulator's AGC by 8, the
/// bias tee by 14, and a step of the gain table by 19.
pub proof fn lemma_command_numbers(arg: u32)
    ensures
        command_of(1, arg) matches TcpCommand::Frequency { hz } && hz == arg,
        command_of(2, arg) matches TcpCommand::SampleRate { rate_hz } && rate_hz == arg,
        command_of(3, arg) matches TcpCommand::GainMode { manual } && (manual <==> arg > 0),
        command_of(4, arg) matches TcpCommand::Gain { tenths } && tenths == arg,
        command_of(5, arg) matches TcpCommand::Ppm { ppm } && (ppm - arg == 0 || arg - ppm
            == 0x1_0000_0000),
        command_of(8, arg) matches TcpCommand::Agc { on } && (on <==> arg > 0),
        command_of(9, arg) is Accepted,
        command_of(10, arg) is Accepted,
        command_of(13, arg) is Accepted,
        command_of(14, arg) matches TcpCommand::BiasT { on } && (on <==> arg > 0),
        command_of(19, arg) matches TcpCommand::GainIndex { index } && index == arg,
        forall|code: u8|
            #![trigger command_of(code, arg)]
            code == 0 || code == 6 || code == 7 || code == 11 || code == 12 || 15 <= code <= 18
                || code >= 20 ==> command_of(code, arg) is Unsupported,
{
    assert(arg as i32 == arg || arg as i32 == arg - 0x1_0000_0000) by (bit_vector);
}

/// A client that asks for automatic gain gets the demodulator's AGC switched on, by the
/// write of 0x25 to register 0x19 of page 0, and nothing else. One that asks for manual
/// gain, or for a gain, gets it switched off first, by the write of 0x05.
pub proof fn lemma_gain_mode_switches_agc<H: HardwareInterface, T: Tuner<H>>(
    driver: Driver<H, T>,
    level: GainSetting,
    shared: bool,
    command: TcpCommand,
)
    requires
        command is GainMode || command is Gain || command is GainIndex || command is Agc,
    ensures
        ({
            let on = BusOp::DemodWriteReg { page: 0, addr: 0x19, val: 0x25 };
            let off = BusOp::DemodWriteReg { page: 0, addr: 0x19, val: 0x05 };
            let after = performed(driver, command, shared, level);
            let muted = Driver { hw: driver.hw.after(off), ..driver };
            match command {
                TcpCommand::GainMode { manual: false } => after == (Driver {
                    hw: driver.hw.after(on),
                    ..driver
                }),
                TcpCommand::Agc { on: true } => after == (Driver {
                    hw: driver.hw.after(on),
                    ..driver
                }),
                TcpCommand::Agc { on: false } => after == muted,
                TcpCommand::GainMode { manual: true } => if is_below_one(driver.tuner.gain()) {
                    after == muted.gained_if_possible(
                        GainSetting { db: Decibels { bits: 0x41f0_0000 }, tenths: 300 },
                    ).driver
                } else {
                    after == muted
                },
                TcpCommand::Gain { .. } => after == muted.gained_if_possible(level).driver,
                TcpCommand::GainIndex { index } => {
                    let s = driver.tuner.gained_by_index(driver.hw.after(off), index as usize);
                    after.tuner == s.chip && after.hw == s.hw
                },
                _ => true,
            }
        }),
{
}

/// What a client asks for is what the receiver remembers, where it can be had: the
/// frequency, the sample rate of a receiver that it has for itself, the correction.
pub proof fn lemma_requests_remembered<H: HardwareInterface, T: Tuner<H>>(
    driver: Driver<H, T>,
    level: GainSetting,
    shared: bool,
    hz: u64,
    rate_hz: u32,
    ppm: i32,
)
    ensures
        ({
            let tuned = performed(driver, TcpCommand::Frequency { hz }, shared, level);
            let rated = performed(driver, TcpCommand::SampleRate { rate_hz }, false, level);
            let corrected = performed(driver, TcpCommand::Ppm { ppm }, shared, level);
            &&& tuned.frequency == if driver.tuned_if_possible(hz).res is Ok {
                hz
            } else {
                driver.frequency
            }
            &&& rated.sample_rate == if driver.rate_set_if_possible(rate_hz).res is Ok {
                rate_hz
            } else {
                driver.sample_rate
            }
            &&& corrected.ppm == if driver.tuner.can_set_ppm(ppm) {
                ppm
            } else {
                driver.ppm
            }
        }),
{
    driver::lemma_ppm_remembered(driver, ppm);
}

/// The bias tee is GPIO pin 0: switching it on or off drives that pin, and no other, high
/// or low.
pub proof fn lemma_bias_tee_drives_pin<H: HardwareInterface, T: Tuner<H>>(
    driver: Driver<H, T>,
    level: GainSetting,
    shared: bool,
    on: bool,
    held: spec_fn(H, Place) -> int,
)
    requires
        record::is_memory(held),
        record::reads_back(held),
        forall|h: H, op: BusOp| (#[trigger] h.ack(op)) is Ok,
        0 <= held(driver.hw, Place::Block { blk: 2, addr: 0x3001 }) <= 255,
    ensures
        ({
            let gpo = Place::Block { blk: 2, addr: 0x3001 };
            let before = held(driver.hw, gpo);
            let after = held(
                performed(driver, TcpCommand::BiasT { on }, shared, level).hw,
                gpo,
            );
            &&& after % 2 == if on {
                1int
            } else {
                0
            }
            &&& after / 2 == before / 2
        }),
{
    let gpo = Place::Block { blk: 2, addr: 0x3001 };
    let val = held(driver.hw, gpo) as u8;
    assert((val | (1u8 << 0u8)) % 2 == 1 && (val | (1u8 << 0u8)) / 2 == val / 2 && (val & !(1u8
        << 0u8)) % 2 == 0 && (val & !(1u8 << 0u8)) / 2 == val / 2) by (bit_vector);
}

// ── Samples ─────────────────────────────────────────────────────────────────
/// What happens to the sample stream of a receiver that serves rtl_tcp alone.
#[derive(Debug, Clone, Copy, PartialEq, Eq, Structural)]
pub enum SourceEvent {
    Cancelled,
    Samples,
    Failed,
    Ended,
}

/// What is done about it.
#[derive(Debug, Clone, Copy, PartialEq, Eq, Structural)]
pub enum SourceAction {
    Stop,
    /// Hand the samples to all clients.
    Forward,
    /// Open the stream anew, after a pause.
    Reopen,
}

/// How long to wait before the stream is opened anew, in milliseconds.
pub const REOPEN_PAUSE_MS: u64 = 1000;

/// Decides what is done with the sample stream: it is kept open until the server is
/// cancelled.
pub fn source_action(event: SourceEvent) -> (action: SourceAction)
    ensures
        action == match event {
            SourceEvent::Cancelled => SourceAction::Stop,
            SourceEvent::Samples => SourceAction::Forward,
            SourceEvent::Failed => SourceAction::Reopen,
            SourceEvent::Ended => SourceAction::Reopen,
        },
{
    match event {
        SourceEvent::Cancelled => SourceAction::Stop,
        SourceEvent::Samples => SourceAction::Forward,
        SourceEvent::Failed => SourceAction::Reopen,
        SourceEvent::Ended => SourceAction::Reopen,
    }
}

/// What a client's copy of the sample stream does.
#[derive(Debug, Clone, Copy, PartialEq, Eq, Structural)]
pub enum FeedEvent {
    Block,
    /// The client was too slow, and blocks were lost.
    Lagged,
    Closed,
}

/// What became of a block that was offered to a client's queue.
#[derive(Debug, Clone, Copy, PartialEq, Eq, Structural)]
pub enum Offer {
    Taken,
    /// The queue is full: the block is dropped, so that the others do not wait.
    Full,
    Closed,
}

/// Whether a client goes on being fed. `offer` is what became of a block.
pub fn keeps_feeding(event: FeedEvent, offer: Offer) -> (b: bool)
    ensures
        b == match event {
            FeedEvent::Block => offer != Offer::Closed,
            FeedEvent::Lagged => true,
            FeedEvent::Closed => false,
        },
{
    match event {
        FeedEvent::Block => offer != Offer::Closed,
        FeedEvent::Lagged => true,
        FeedEvent::Closed => false,
    }
}

/// The window of a receiver that serves rtl_tcp alone.
pub fn standalone_band(frequency: u64) -> (band: HardwareBand)
    ensures
        band == (HardwareBand { center_hz: frequency, span_hz: 2_048_000, spectral_inv: false }),
{
    HardwareBand { center_hz: frequency, span_hz: 2_048_000, spectral_inv: false }
}

// ── Layout ──────────────────────────────────────────────────────────────────
/// What the server sends first starts with the letters `RTL0`. Then come three kinds of
/// numbers of four bytes, the highest first: the tuner's number, how many gain steps there
/// are, and the steps, of which a negative one counts down from 2^32.
pub proof fn lemma_handshake_layout(tuner_id: u32, gains: Seq<i32>, i: int)
    requires
        gains.len() <= u32::MAX,
        0 <= i < gains.len(),
    ensures
        ({
            let sent = header_bytes(tuner_id, gains.len() as int) + gain_bytes(gains);
            let number = |at: int|
                0x100_0000 * sent[at] + 0x1_0000 * sent[at + 1] + 0x100 * sent[at + 2] + sent[at
                    + 3];
            &&& sent.len() == 12 + 4 * gains.len()
            &&& sent[0] == 'R' as u8 && sent[1] == 'T' as u8 && sent[2] == 'L' as u8 && sent[3]
                == '0' as u8
            &&& number(4) == tuner_id
            &&& number(8) == gains.len()
            &&& number(12 + 4 * i) == if gains[i] >= 0 {
                gains[i] as int
            } else {
                0x1_0000_0000 + gains[i]
            }
        }),
{
    lemma_gain_position(gains, i);
    let header = header_bytes(tuner_id, gains.len() as int);
    let steps = gain_bytes(gains);
    let sent = header + steps;
    assert(RTL_TCP_MAGIC@ =~= seq![0x52u8, 0x54, 0x4c, 0x30]);
    assert(sent.subrange(4, 8) =~= be_bytes(tuner_id as int));
    assert(sent.subrange(8, 12) =~= be_bytes(gains.len() as int));
    assert(sent.subrange(12 + 4 * i, 16 + 4 * i) =~= steps.subrange(4 * i, 4 * i + 4));
    lemma_number_read(sent, 4, tuner_id);
    lemma_number_read(sent, 8, gains.len() as u32);
    lemma_number_read(sent, 12 + 4 * i, unsigned(gains[i]) as u32);
}

proof fn lemma_number_read(sent: Seq<u8>, at: int, n: u32)
    requires
        0 <= at <= sent.len() - 4,
        sent.subrange(at, at + 4) == be_bytes(n as int),
    ensures
        0x100_0000 * sent[at] + 0x1_0000 * sent[at + 1] + 0x100 * sent[at + 2] + sent[at + 3] == n,
{
    let four = sent.subrange(at, at + 4);
    assert(four[0] == sent[at] && four[1] == sent[at + 1] && four[2] == sent[at + 2] && four[3]
        == sent[at + 3]);
    lemma_be_round_trip(n);
}

/// Whether manual gain falls back on its default goes by one decibel: ten tenths, or the
/// level whose bits are 0x3f800000.
pub proof fn lemma_fallback_below_one(gain: Gain)
    ensures
        is_below_one(gain) <==> match gain {
            Gain::Tenths(t) => t < 10,
            Gain::Exact(db) => db.is_below(Decibels { bits: 0x3f80_0000 }),
        },
{
}


/// A command is the receiver's own operation of that name, and the client gets no answer. A
/// command that is only accepted, or not known, changes nothing.
pub proof fn lemma_commands_are_operations<H: HardwareInterface, T: Tuner<H>>(
    driver: Driver<H, T>,
    command: TcpCommand,
    shared: bool,
    level: GainSetting,
)
    ensures
        ({
            let after = performed(driver, command, shared, level);
            match command {
                TcpCommand::Frequency { hz } => after == driver.tuned_if_possible(hz).driver,
                TcpCommand::SampleRate { rate_hz } => !shared ==> after
                    == driver.rate_set_if_possible(rate_hz).driver,
                TcpCommand::Ppm { ppm } => after == driver.corrected_if_possible(ppm).driver,
                TcpCommand::BiasT { on } => after == driver.bias_switched(on).driver,
                TcpCommand::Accepted { .. } => after == driver,
                TcpCommand::Unsupported { .. } => after == driver,
                _ => true,
            }
        }),
{
}

} // verus!
