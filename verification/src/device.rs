//! The device handle: its configuration, the bus address it resolves for a
//! memory address, and the single transactions of the read and write paths.

use vstd::prelude::*;
use vstd::arithmetic::power2::{pow2, lemma2_to64, lemma_pow2_strictly_increases};
use vstd::bits::lemma_u32_shl_is_mul;
use crate::address::Address;
use crate::bounds::{check_read, PAGE_SIZE};
use crate::error::Error;

verus! {

/// Probes made by [`Completion::standard`] before a write is given up.
pub const POLL_MAX_RETRIES: usize = 60;

/// Microseconds that [`Completion::standard`] waits after a refused probe.
pub const POLL_DELAY_US: u32 = 100;

/// Milliseconds that [`Completion::conservative`] waits after a page write.
pub const WRITE_CYCLE_MS: u32 = 5;

/// Largest number of address bits: sixteen travel in the in-page address
/// field and one in the bus address.
pub const MAX_ADDRESS_BITS: usize = 17;

/// How the end of the chip's internal write cycle is awaited after a page
/// write.
#[derive(Debug, Clone, Copy, PartialEq, Eq, Structural)]
pub enum Completion {
    /// Probe the device until it acknowledges its bus address: at most
    /// `max_retries` probes, with `delay_us` microseconds after each one
    /// that was refused.
    AckPolling { max_retries: usize, delay_us: u32 },
    /// Pause for `delay_ms` milliseconds, with no bus traffic.
    FixedDelay { delay_ms: u32 },
}

impl Completion {
    /// Acknowledge polling with the usual budget.
    pub fn standard() -> (c: Completion)
        ensures
            c == (Completion::AckPolling {
                max_retries: POLL_MAX_RETRIES,
                delay_us: POLL_DELAY_US,
            }),
    {
        Completion::AckPolling { max_retries: POLL_MAX_RETRIES, delay_us: POLL_DELAY_US }
    }

    /// A fixed pause that exceeds the chip's worst-case write cycle.
    pub fn conservative() -> (c: Completion)
        ensures
            c == (Completion::FixedDelay { delay_ms: WRITE_CYCLE_MS }),
    {
        Completion::FixedDelay { delay_ms: WRITE_CYCLE_MS }
    }
}

/// One bus write: `payload` goes to bus address `device`.
pub struct BusWrite {
    pub device: u8,
    pub payload: Vec<u8>,
}

/// One combined bus transaction: `address` is written to bus address
/// `device`, then `length` bytes are read without releasing the bus.
pub struct BusRead {
    pub device: u8,
    pub address: [u8; 2],
    pub length: usize,
}

/// The bank that a memory address lies in: bit 16 of the address, the first
/// bit that the in-page address field cannot carry.
pub open spec fn bank(memory_address: u32) -> u8 {
    if memory_address & 0x1_0000 == 0 {
        0
    } else {
        1
    }
}

/// The in-page address field of a memory address: its low sixteen bits, the
/// high byte first.
pub open spec fn address_field(memory_address: u32) -> Seq<u8> {
    seq![((memory_address / 256) % 256) as u8, (memory_address % 256) as u8]
}

/// The bank is the memory address divided by 65536, modulo 2.
pub proof fn lemma_bank_is_quotient(memory_address: u32)
    ensures
        bank(memory_address) == (memory_address / 65536) % 2,
{
    assert((memory_address & 0x1_0000 == 0) <==> ((memory_address / 65536) % 2 == 0))
        by (bit_vector);
}

/// The two bytes of the in-page address field of `memory_address`.
pub fn address_bytes(memory_address: u32) -> (a: [u8; 2])
    ensures
        a@ == address_field(memory_address),
{
    let hi: u32 = (memory_address >> 8) & 0xff;
    let lo: u32 = memory_address & 0xff;
    assert(hi == (memory_address / 256) % 256) by (bit_vector)
        requires
            hi == (memory_address >> 8) & 0xff,
    ;
    assert(lo == memory_address % 256) by (bit_vector)
        requires
            lo == memory_address & 0xff,
    ;
    let a: [u8; 2] = [hi as u8, lo as u8];
    assert(a@ =~= address_field(memory_address));
    a
}

/// The on-wire payload of a page write: the in-page address field, then
/// `data[from..to]`.
pub fn frame(memory_address: u32, data: &[u8], from: usize, to: usize) -> (payload: Vec<u8>)
    requires
        from <= to <= data@.len(),
    ensures
        payload@ == address_field(memory_address) + data@.subrange(from as int, to as int),
{
    let field = address_bytes(memory_address);
    let mut payload: Vec<u8> = Vec::new();
    payload.push(field[0]);
    payload.push(field[1]);
    assert(payload@ =~= address_field(memory_address));
    let mut i: usize = from;
    while i < to
        invariant
            from <= i <= to <= data@.len(),
            payload@ == address_field(memory_address) + data@.subrange(from as int, i as int),
        decreases to - i,
    {
        payload.push(data[i]);
        assert(data@.subrange(from as int, i as int + 1) =~= data@.subrange(
            from as int,
            i as int,
        ).push(data@[i as int]));
        i = i + 1;
    }
    payload
}

/// An AT24Cx EEPROM on a two-wire bus.
///
/// The handle owns the bus transport `i2c` and the delay provider `delay`.
/// Its configuration is fixed when it is made.
pub struct At24Cx<I2C, D> {
    address_bits: usize,
    base_address: u8,
    completion: Completion,
    /// The delay provider.
    pub delay: D,
    /// The bus transport.
    pub i2c: I2C,
}

impl<I2C, D> At24Cx<I2C, D> {
    /// Number of bits of a memory address.
    pub closed spec fn address_bits(&self) -> nat {
        self.address_bits as nat
    }

    /// The bus address of bank 0.
    pub closed spec fn base_address(&self) -> u8 {
        self.base_address
    }

    /// How the end of a write cycle is awaited.
    pub closed spec fn completion(&self) -> Completion {
        self.completion
    }

    /// The bus transport that the handle owns.
    pub closed spec fn bus(&self) -> I2C {
        self.i2c
    }

    /// The delay provider that the handle owns.
    pub closed spec fn timer(&self) -> D {
        self.delay
    }

    /// The configuration is one that the chip family has: between one and
    /// seventeen address bits, and a base address whose bank bit is clear.
    pub open spec fn wf(&self) -> bool {
        &&& 0 < self.address_bits() <= MAX_ADDRESS_BITS
        &&& self.base_address() & 1 == 0
    }

    /// Total number of addressable bytes.
    pub open spec fn capacity_spec(&self) -> int {
        pow2(self.address_bits()) as int
    }

    /// The bus address that serves `memory_address`: the base address with
    /// the bank in bit 0.
    pub open spec fn bus_address(&self, memory_address: u32) -> u8 {
        self.base_address() | bank(memory_address)
    }

    /// A device has at least two bytes and at most 128 KiB.
    pub proof fn lemma_capacity_bounds(&self)
        requires
            self.wf(),
        ensures
            2 <= self.capacity_spec() <= 0x2_0000,
    {
        lemma2_to64();
        if self.address_bits() < 17 {
            lemma_pow2_strictly_increases(self.address_bits(), 17);
        }
        if 1 < self.address_bits() {
            lemma_pow2_strictly_increases(1, self.address_bits());
        }
    }

    /// A device with the given chip-select pins and `address_bits` bits of
    /// memory address, which awaits the end of a write cycle by acknowledge
    /// polling with the usual budget.
    pub fn new(i2c: I2C, address: Address, address_bits: usize, delay: D) -> (dev: Self)
        requires
            0 < address_bits <= MAX_ADDRESS_BITS,
        ensures
            dev.wf(),
            dev.address_bits() == address_bits,
            dev.base_address() == address.bus_address(),
            dev.completion() == (Completion::AckPolling {
                max_retries: POLL_MAX_RETRIES,
                delay_us: POLL_DELAY_US,
            }),
            dev.bus() == i2c,
            dev.timer() == delay,
    {
        proof {
            address.lemma_bank_bit_clear();
        }
        Self {
            address_bits,
            base_address: u8::from(address),
            completion: Completion::standard(),
            delay,
            i2c,
        }
    }

    /// The same device with another way of awaiting the end of a write
    /// cycle.
    pub fn with_completion(self, completion: Completion) -> (dev: Self)
        ensures
            dev.address_bits() == self.address_bits(),
            dev.base_address() == self.base_address(),
            dev.completion() == completion,
            dev.bus() == self.bus(),
            dev.timer() == self.timer(),
            dev.wf() == self.wf(),
    {
        Self {
            address_bits: self.address_bits,
            base_address: self.base_address,
            completion,
            delay: self.delay,
            i2c: self.i2c,
        }
    }

    /// How the end of a write cycle is awaited.
    pub fn completion_strategy(&self) -> (c: Completion)
        ensures
            c == self.completion(),
    {
        self.completion
    }

    /// Total number of addressable bytes, two to the power of the number of
    /// address bits.
    pub fn capacity(&self) -> (c: usize)
        requires
            self.wf(),
        ensures
            c == self.capacity_spec(),
            c == pow2(self.address_bits()),
    {
        proof {
            self.lemma_capacity_bounds();
            lemma_u32_shl_is_mul(1u32, self.address_bits as u32);
        }
        let c: u32 = 1u32 << (self.address_bits as u32);
        c as usize
    }

    /// Resolves the bus address to target for `memory_address`.
    ///
    /// An address outside the device is refused. Otherwise bit 16 of the
    /// address selects bit 0 of the bus address, and no other bit of the
    /// address has a part in it.
    pub fn get_device_address<E>(&self, memory_address: u32) -> (r: Result<u8, Error<E>>)
        requires
            self.wf(),
        ensures
            memory_address >= self.capacity_spec() ==> r == Err::<u8, Error<E>>(
                Error::OutOfBounds,
            ),
            memory_address < self.capacity_spec() ==> r == Ok::<u8, Error<E>>(
                self.bus_address(memory_address),
            ),
    {
        if memory_address as usize >= self.capacity() {
            return Err(Error::OutOfBounds);
        }
        let selector: u8 = if memory_address & (1 << 16) == 0 {
            0
        } else {
            1
        };
        assert(1u32 << 16 == 0x1_0000u32) by (bit_vector);
        Ok(self.base_address | selector)
    }

    /// Erasing is not needed on this medium: every range is accepted and
    /// nothing is done.
    pub fn erase<E>(&self, from: u32, to: u32) -> (r: Result<(), Error<E>>)
        ensures
            r == Ok::<(), Error<E>>(()),
    {
        Ok(())
    }

    /// Whether `length` bytes at `offset` may be read: the range lies in
    /// the device and starts at one of its addresses.
    pub open spec fn readable(&self, offset: u32, length: usize) -> bool {
        &&& offset < self.capacity_spec()
        &&& offset + length <= self.capacity_spec()
    }

    /// The bus transaction that reads `length` bytes at `offset`.
    ///
    /// A range that starts or ends outside the device is refused with
    /// `OutOfBounds`, an empty one too. Otherwise the transaction targets the bus address of
    /// `offset` and carries the in-page address field of `offset`.
    pub fn read<E>(&self, offset: u32, length: usize) -> (r: Result<BusRead, Error<E>>)
        requires
            self.wf(),
        ensures
            !self.readable(offset, length) ==> r == Err::<BusRead, Error<E>>(Error::OutOfBounds),
            self.readable(offset, length) ==> r is Ok && r->Ok_0.device == self.bus_address(offset)
                && r->Ok_0.address@ == address_field(offset) && r->Ok_0.length == length,
    {
        match check_read(self.capacity(), offset, length) {
            Err(k) => {
                return Err(Error::from_kind(k));
            },
            Ok(_) => {},
        }
        proof {
            self.lemma_capacity_bounds();
        }
        let device = match self.get_device_address::<E>(offset) {
            Ok(device) => device,
            Err(e) => {
                return Err(e);
            },
        };
        Ok(BusRead { device, address: address_bytes(offset), length })
    }

    /// Whether a single page write of `length` bytes at `address` is
    /// accepted: it is no longer than a page, stays within the page that
    /// `address` lies in, and starts inside the device.
    pub open spec fn page_writable(&self, address: u32, length: usize) -> bool {
        &&& length <= PAGE_SIZE
        &&& address % (PAGE_SIZE as u32) + length <= PAGE_SIZE
        &&& address < self.capacity_spec()
    }

    /// The bus transaction that writes `data` at `address` within one page.
    ///
    /// Empty data needs no transaction. Data that would leave the page or
    /// the device is refused with `OutOfBounds`. Otherwise the transaction
    /// targets the bus address of `address`, and its payload is the in-page
    /// address field followed by the data.
    pub fn page_write<E>(&self, address: u32, data: &[u8]) -> (r: Result<
        Option<BusWrite>,
        Error<E>,
    >)
        requires
            self.wf(),
        ensures
            data@.len() == 0 ==> r is Ok && r->Ok_0 is None,
            data@.len() > 0 && !self.page_writable(address, data.len()) ==> r == Err::<
                Option<BusWrite>,
                Error<E>,
            >(Error::OutOfBounds),
            data@.len() > 0 && self.page_writable(address, data.len()) ==> r is Ok && r->Ok_0 is Some
                && r->Ok_0->Some_0.device == self.bus_address(address)
                && r->Ok_0->Some_0.payload@ == address_field(address) + data@,
    {
        if data.len() == 0 {
            return Ok(None);
        }
        if data.len() > PAGE_SIZE {
            return Err(Error::OutOfBounds);
        }
        let page_boundary: u32 = address | (PAGE_SIZE as u32 - 1);
        assert(page_boundary == address - address % 256 + 255) by (bit_vector)
            requires
                page_boundary == address | 255u32,
        ;
        if address as u64 + data.len() as u64 > page_boundary as u64 + 1 {
            return Err(Error::OutOfBounds);
        }
        let device = match self.get_device_address::<E>(address) {
            Ok(device) => device,
            Err(e) => {
                return Err(e);
            },
        };
        let payload = frame(address, data, 0, data.len());
        assert(data@.subrange(0, data@.len() as int) =~= data@);
        Ok(Some(BusWrite { device, payload }))
    }

    /// Bit 16 of the memory address toggles bit 0 of the bus address, and
    /// no other bit of the memory address has any influence on it.
    pub proof fn lemma_bank_select(&self, a: u32, b: u32)
        requires
            self.wf(),
        ensures
            self.bus_address(a | 0x1_0000) == self.bus_address(a & !0x1_0000u32) ^ 1,
            self.bus_address(a & !0x1_0000u32) == self.base_address(),
            self.bus_address(a | 0x1_0000) == self.base_address() | 1,
            self.bus_address(a | 0x1_0000) != self.bus_address(a & !0x1_0000u32),
            a & 0x1_0000 == b & 0x1_0000 ==> self.bus_address(a) == self.bus_address(b),
    {
        let base = self.base_address();
        assert((a | 0x1_0000) & 0x1_0000 != 0) by (bit_vector);
        assert((a & !0x1_0000u32) & 0x1_0000 == 0) by (bit_vector);
        assert(base | 0 == base) by (bit_vector);
        assert(base | 1 == base ^ 1 && base | 1 != base) by (bit_vector)
            requires
                base & 1 == 0,
        ;
    }
}

} // verus!
