//! Membership tests over join EUIs and device addresses.
//!
//! Both kinds of filter arrive from the control plane as blobs. A filter is
//! rebuilt from its blob once and then only asked whether it holds a key.

use crate::error::{Error, FilterKind};
use vstd::prelude::*;

verus! {

/// The pair of identifiers that a join request carries.
#[derive(Clone, Copy, Debug, PartialEq, Eq, Structural)]
pub struct Eui {
    pub app_eui: u64,
    pub dev_eui: u64,
}

/// Whether bit `pos` of `bits` is set; bit 0 is the lowest bit of byte 0.
pub open spec fn bit_at(bits: Seq<u8>, pos: int) -> bool
    recommends
        0 <= pos < 8 * bits.len(),
{
    (bits[pos / 8] >> ((pos % 8) as u8)) & 1u8 == 1u8
}

/// Membership in the filter that `bits` encodes: both identifiers, reduced
/// modulo the number of bits, must land on a set bit. An empty blob holds
/// nothing.
pub open spec fn eui_member(bits: Seq<u8>, eui: Eui) -> bool {
    &&& bits.len() > 0
    &&& bit_at(bits, eui.app_eui as int % (8 * bits.len()) as int)
    &&& bit_at(bits, eui.dev_eui as int % (8 * bits.len()) as int)
}

/// The number that four bytes spell, most significant byte first.
pub open spec fn be32(s: Seq<u8>) -> int
    recommends
        s.len() == 4,
{
    s[0] * 0x100_0000 + s[1] * 0x1_0000 + s[2] * 0x100 + s[3]
}

/// A compact membership test over EUI pairs, as the control plane sent it.
///
/// The blob is a bit array, and a pair is held where both of its
/// identifiers land on a set bit. A filter in which the bits of every
/// subscribed pair are set holds all of them, and may hold others.
#[derive(Debug, PartialEq, Eq)]
pub struct EuiFilter {
    bits: Vec<u8>,
}

impl View for EuiFilter {
    type V = Seq<u8>;

    closed spec fn view(&self) -> Seq<u8> {
        self.bits@
    }
}

/// A range of device addresses: those that agree with `base` on every bit
/// of `mask`.
#[derive(Clone, Copy, Debug, PartialEq, Eq, Structural)]
pub struct DevAddrFilter {
    pub base: u32,
    pub mask: u32,
}

/// Length in bytes of a device address filter's blob.
pub const DEV_ADDR_FILTER_BYTES: usize = 8;

fn test_bit(bits: &Vec<u8>, pos: u128) -> (set: bool)
    requires
        pos < 8 * bits@.len(),
    ensures
        set == bit_at(bits@, pos as int),
{
    let len: usize = bits.len();
    assert(pos / 8 < len);
    let index: usize = (pos / 8) as usize;
    let shift: u8 = (pos % 8) as u8;
    (bits[index] >> shift) & 1u8 == 1u8
}

fn read_be32(data: &[u8], at: usize) -> (n: u32)
    requires
        at + 4 <= data@.len(),
    ensures
        n == be32(data@.subrange(at as int, at + 4)),
{
    let b0: u32 = data[at] as u32;
    let b1: u32 = data[at + 1] as u32;
    let b2: u32 = data[at + 2] as u32;
    let b3: u32 = data[at + 3] as u32;
    b0 * 0x100_0000 + b1 * 0x1_0000 + b2 * 0x100 + b3
}

/// A copy of `data`.
pub fn copy_bytes(data: &[u8]) -> (out: Vec<u8>)
    ensures
        out@ == data@,
{
    let mut out: Vec<u8> = Vec::new();
    let mut i: usize = 0;
    while i < data.len()
        invariant
            i <= data@.len(),
            out@ == data@.subrange(0, i as int),
        decreases data@.len() - i,
    {
        out.push(data[i]);
        i += 1;
    }
    assert(out@ == data@);
    out
}

impl EuiFilter {
    /// Rebuilds a filter from its blob, which is kept as it came. Only the
    /// empty blob is turned down.
    pub fn from_bin(data: &[u8]) -> (r: Result<EuiFilter, Error>)
        ensures
            match r {
                Ok(f) => data@.len() > 0 && f@ == data@,
                Err(e) => e == Error::FilterError(FilterKind::Eui) && data@.len() == 0,
            },
    {
        if data.len() == 0 {
            return Err(Error::FilterError(FilterKind::Eui));
        }
        Ok(EuiFilter { bits: copy_bytes(data) })
    }

    /// Whether the filter holds `eui`.
    pub fn contains(&self, eui: &Eui) -> (b: bool)
        ensures
            b == eui_member(self@, *eui),
    {
        if self.bits.len() == 0 {
            return false;
        }
        let n: u128 = (self.bits.len() as u128) * 8;
        test_bit(&self.bits, eui.app_eui as u128 % n) && test_bit(
            &self.bits,
            eui.dev_eui as u128 % n,
        )
    }

    /// The blob that the filter was rebuilt from.
    pub fn to_bin(&self) -> (data: Vec<u8>)
        ensures
            data@ == self@,
    {
        copy_bytes(self.bits.as_slice())
    }
}

impl DevAddrFilter {
    /// Whether `dev_addr` lies in the range.
    pub open spec fn member(self, dev_addr: u32) -> bool {
        dev_addr & self.mask == self.base & self.mask
    }

    /// Rebuilds a filter from its blob: the base, then the mask, each as
    /// four bytes, most significant first. Any other length is turned down.
    pub fn from_bin(data: &[u8]) -> (r: Result<DevAddrFilter, Error>)
        ensures
            match r {
                Ok(f) => {
                    &&& data@.len() == DEV_ADDR_FILTER_BYTES
                    &&& f.base == be32(data@.subrange(0, 4))
                    &&& f.mask == be32(data@.subrange(4, 8))
                },
                Err(e) => e == Error::FilterError(FilterKind::DevAddr) && data@.len()
                    != DEV_ADDR_FILTER_BYTES,
            },
    {
        if data.len() != DEV_ADDR_FILTER_BYTES {
            return Err(Error::FilterError(FilterKind::DevAddr));
        }
        Ok(DevAddrFilter { base: read_be32(data, 0), mask: read_be32(data, 4) })
    }

    /// Whether the filter holds `dev_addr`.
    pub fn contains(&self, dev_addr: u32) -> (b: bool)
        ensures
            b == self.member(dev_addr),
    {
        dev_addr & self.mask == self.base & self.mask
    }
}

} // verus!
