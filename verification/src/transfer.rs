//! How register accesses are laid out as USB control transfers, and which USB
//! devices are receivers.
use crate::registers::block;
use vstd::prelude::*;

verus! {

/// The request types of a write to and a read from the device.
pub const REQUEST_TYPE_OUT: u8 = 0x40;

pub const REQUEST_TYPE_IN: u8 = 0xc0;

/// How long a control transfer may take, in milliseconds.
pub const CONTROL_TIMEOUT_MS: u64 = 1000;

/// A control transfer that writes `data`.
pub struct ControlOut {
    pub value: u16,
    pub index: u16,
    pub data: Vec<u8>,
}

/// A control transfer that reads `len` bytes.
#[derive(Debug, Clone, Copy, PartialEq, Eq, Structural)]
pub struct ControlIn {
    pub value: u16,
    pub index: u16,
    pub len: usize,
}

/// The index of an access to `blk`: the block in the upper byte.
pub open spec fn block_index(blk: u16, write: bool) -> int {
    blk as int % 256 * 256 + if write {
        0x10int
    } else {
        0
    }
}

/// The value of an access to a demodulator register: the register in the upper
/// byte.
pub open spec fn demod_value(addr: u16) -> int {
    addr as int % 256 * 256 + 0x20
}

fn upper_byte(n: u16, low: u8) -> (r: u16)
    ensures
        r == n as int % 256 * 256 + low,
{
    proof {
        assert(n % 256 <= 255 && (n % 256) * 256 <= 65280);
    }
    n % 256 * 256 + low as u16
}

fn one_byte(val: u8) -> (data: Vec<u8>)
    ensures
        data@ == seq![val],
{
    let mut data: Vec<u8> = Vec::new();
    data.push(val);
    data
}

/// The two bytes of `val`, the upper one first.
fn two_bytes(val: u16) -> (data: Vec<u8>)
    ensures
        data@ == seq![(val / 256) as u8, (val % 256) as u8],
{
    let mut data: Vec<u8> = Vec::new();
    data.push((val / 256) as u8);
    data.push((val % 256) as u8);
    assert(data@ =~= seq![(val / 256) as u8, (val % 256) as u8]);
    data
}

/// A write of one byte to a register.
pub fn register_write(blk: u16, addr: u16, val: u8) -> (t: ControlOut)
    ensures
        t.value == addr,
        t.index == block_index(blk, true),
        t.data@ == seq![val],
{
    ControlOut { value: addr, index: upper_byte(blk, 0x10), data: one_byte(val) }
}

/// A write of two bytes to a register, the upper one first.
pub fn register_write16(blk: u16, addr: u16, val: u16) -> (t: ControlOut)
    ensures
        t.value == addr,
        t.index == block_index(blk, true),
        t.data@ == seq![(val / 256) as u8, (val % 256) as u8],
{
    ControlOut { value: addr, index: upper_byte(blk, 0x10), data: two_bytes(val) }
}

/// A read of one byte from a register.
pub fn register_read(blk: u16, addr: u16) -> (t: ControlIn)
    ensures
        t.value == addr,
        t.index == block_index(blk, false),
        t.len == 1,
{
    ControlIn { value: addr, index: upper_byte(blk, 0x00), len: 1 }
}

/// A write of one byte to a demodulator register.
pub fn demod_write(page: u8, addr: u16, val: u8) -> (t: ControlOut)
    ensures
        t.value == demod_value(addr),
        t.index == 0x10u16 | page as u16,
        t.data@ == seq![val],
{
    ControlOut { value: upper_byte(addr, 0x20), index: 0x10 | page as u16, data: one_byte(val) }
}

/// A write of two bytes to a demodulator register, the upper one first.
pub fn demod_write16(page: u8, addr: u16, val: u16) -> (t: ControlOut)
    ensures
        t.value == demod_value(addr),
        t.index == 0x10u16 | page as u16,
        t.data@ == seq![(val / 256) as u8, (val % 256) as u8],
{
    ControlOut { value: upper_byte(addr, 0x20), index: 0x10 | page as u16, data: two_bytes(val) }
}

/// A read of one byte from a demodulator register.
pub fn demod_read(page: u8, addr: u16) -> (t: ControlIn)
    ensures
        t.value == demod_value(addr),
        t.index == page,
        t.len == 1,
{
    ControlIn { value: upper_byte(addr, 0x20), index: page as u16, len: 1 }
}

/// The read that follows every write to a demodulator register; what it answers
/// does not matter.
pub fn demod_sync() -> (t: ControlIn)
    ensures
        t.value == demod_value(0x01),
        t.index == 0x0a,
        t.len == 1,
{
    demod_read(0x0a, 0x01)
}

/// A write to the chip at I2C address `addr`.
pub fn i2c_write(addr: u8, data: &[u8]) -> (t: ControlOut)
    ensures
        t.value == addr,
        t.index == block_index(block::I2C, true),
        t.data@ == data@,
{
    let mut copy: Vec<u8> = Vec::new();
    copy.extend_from_slice(data);
    assert(copy@ =~= data@);
    ControlOut { value: addr as u16, index: upper_byte(block::I2C, 0x10), data: copy }
}

/// A read of `len` bytes from the chip at I2C address `addr`.
pub fn i2c_read(addr: u8, len: usize) -> (t: ControlIn)
    ensures
        t.value == addr,
        t.index == block_index(block::I2C, false),
        t.len == len,
{
    ControlIn { value: addr as u16, index: upper_byte(block::I2C, 0x00), len }
}

// ── Devices ─────────────────────────────────────────────────────────────────
/// Whether a vendor and a product number are those of a receiver that the library can
/// drive.
pub open spec fn supported(ids: (u16, u16)) -> bool {
    ids.0 == 0x0bda && (ids.1 == 0x2838 || ids.1 == 0x2832)
}

/// Whether a USB device is a receiver.
pub fn is_supported(vendor_id: u16, product_id: u16) -> (b: bool)
    ensures
        b == supported((vendor_id, product_id)),
{
    vendor_id == 0x0bda && (product_id == 0x2838 || product_id == 0x2832)
}

/// How many of some devices are receivers.
pub open spec fn receivers(devices: Seq<(u16, u16)>) -> nat
    decreases devices.len(),
{
    if devices.len() == 0 {
        0
    } else {
        receivers(devices.drop_last()) + if supported(devices.last()) {
            1nat
        } else {
            0
        }
    }
}

/// Finds the receiver with number `index` among the attached devices, given by their
/// vendor and product numbers.
pub fn select_device(devices: &[(u16, u16)], index: u32) -> (pos: Option<usize>)
    ensures
        match pos {
            Some(i) => i < devices@.len() && supported(devices@[i as int]) && receivers(
                devices@.take(i as int),
            ) == index,
            None => receivers(devices@) <= index,
        },
{
    let mut seen: u32 = 0;
    let mut i: usize = 0;
    assert(devices@.take(0) =~= Seq::empty());
    while i < devices.len()
        invariant
            i <= devices@.len(),
            seen <= index,
            seen == receivers(devices@.take(i as int)),
        decreases devices@.len() - i,
    {
        let (vendor_id, product_id) = devices[i];
        assert(devices@.take(i + 1).drop_last() =~= devices@.take(i as int));
        if is_supported(vendor_id, product_id) {
            if seen == index {
                return Some(i);
            }
            seen = seen + 1;
        }
        i = i + 1;
    }
    assert(devices@.take(i as int) =~= devices@);
    None
}

/// Whether `pat` occurs in `s`.
pub open spec fn has_substring(s: Seq<char>, pat: Seq<char>) -> bool {
    exists|i: int|
        0 <= i <= s.len() - pat.len() && #[trigger] s.subrange(i, i + pat.len()) == pat
}

/// `str::contains` of the standard library with a string pattern: it returns
/// whether the pattern occurs in the string.
#[verifier::external_body]
fn contains(s: &str, pat: &str) -> (b: bool)
    ensures
        b == has_substring(s@, pat@),
{
    s.contains(pat)
}

/// What a device says of itself.
#[derive(Debug, Clone)]
pub struct DeviceInfo {
    pub manufacturer: String,
    pub product: String,
    /// Whether the device is an RTL-SDR Blog V4.
    pub is_v4: bool,
}

/// A string that could be read, or else the empty string.
pub open spec fn read_or_empty(s: Option<String>) -> Seq<char> {
    match s {
        Some(s) => s@,
        None => Seq::empty(),
    }
}

impl DeviceInfo {
    /// Takes the manufacturer's and the product's name, as far as they could be
    /// read. An RTL-SDR Blog V4 is known by both.
    pub fn from_strings(manufacturer: Option<String>, product: Option<String>) -> (info: Self)
        ensures
            info.manufacturer@ == read_or_empty(manufacturer),
            info.product@ == read_or_empty(product),
            info.is_v4 == (has_substring(info.manufacturer@, "RTLSDRBlog"@) && has_substring(
                info.product@,
                "V4"@,
            )),
    {
        let manufacturer = match manufacturer {
            Some(m) => m,
            None => String::new(),
        };
        let product = match product {
            Some(p) => p,
            None => String::new(),
        };
        let is_v4 = contains(manufacturer.as_str(), "RTLSDRBlog") && contains(
            product.as_str(),
            "V4",
        );
        DeviceInfo { manufacturer, product, is_v4 }
    }
}

// ── Laws ────────────────────────────────────────────────────────────────────
/// In the index of an access the block stands in the upper byte, and 0x10 in the lower one
/// says that it is a write. In the value of an access to the demodulator the register
/// stands in the upper byte, above 0x20.
pub proof fn lemma_access_layout(blk: u16, addr: u16, write: bool)
    requires
        blk < 256,
        addr < 256,
    ensures
        block_index(blk, write) / 256 == blk,
        block_index(blk, write) % 256 == if write {
            0x10int
        } else {
            0
        },
        demod_value(addr) / 256 == addr,
        demod_value(addr) % 256 == 0x20,
        block_index(block::I2C, write) / 256 == 6,
{
}

/// The receivers among some devices are those of vendor 0x0bda with product 0x2832 or
/// 0x2838, and they are counted.
pub proof fn lemma_receivers_counted(devices: Seq<(u16, u16)>)
    ensures
        receivers(devices) == devices.filter(
            |d: (u16, u16)| d == (0x0bdau16, 0x2832u16) || d == (0x0bdau16, 0x2838u16),
        ).len(),
    decreases devices.len(),
{
    let known = |d: (u16, u16)| d == (0x0bdau16, 0x2832u16) || d == (0x0bdau16, 0x2838u16);
    reveal(Seq::filter);
    if devices.len() > 0 {
        lemma_receivers_counted(devices.drop_last());
        assert(known(devices.last()) == supported(devices.last()));
    }
}

} // verus!
