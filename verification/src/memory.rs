//! Linear memory: a byte buffer that grows by pages and holds values in
//! big-endian byte order.

use vstd::prelude::*;
use crate::fault::FaultKind;
use crate::value::{TypeDeclaration, ValueType};

verus! {

/// The number of bytes in one page of linear memory.
pub const PAGE_SIZE: usize = 65536;

/// The largest number of bytes that a linear memory may hold: the largest
/// 32-bit signed integer.
pub const MAX_MEMORY_BYTES: usize = 0x7fff_ffff;

/// A sequence of bytes that a linear memory can hold: whole pages only, and
/// no more bytes than a 32-bit signed integer can count.
pub open spec fn valid_memory(bytes: Seq<u8>) -> bool {
    &&& bytes.len() % (PAGE_SIZE as nat) == 0
    &&& bytes.len() <= MAX_MEMORY_BYTES
}

/// The size of a memory in whole pages.
pub open spec fn page_count(bytes: Seq<u8>) -> int {
    bytes.len() as int / PAGE_SIZE as int
}

/// Whether a memory of `bytes` can grow by `pages` pages.
pub open spec fn can_grow(bytes: Seq<u8>, pages: int) -> bool {
    &&& 0 <= pages
    &&& bytes.len() + pages * PAGE_SIZE <= MAX_MEMORY_BYTES
}

/// The memory `bytes` followed by `pages` pages of zero bytes.
pub open spec fn grown(bytes: Seq<u8>, pages: int) -> Seq<u8> {
    bytes + Seq::new((pages * PAGE_SIZE) as nat, |i: int| 0u8)
}

/// The unsigned 32-bit number with the same bits as `value` in two's
/// complement.
pub open spec fn bits_of(value: i32) -> int {
    if value < 0 {
        value + 0x1_0000_0000
    } else {
        value as int
    }
}

/// The signed number whose two's complement bits are those of `bits`, for
/// `0 <= bits < 2^32`.
pub open spec fn value_of_bits(bits: int) -> i32 {
    if bits >= 0x8000_0000 {
        (bits - 0x1_0000_0000) as i32
    } else {
        bits as i32
    }
}

/// The four bytes of `value`, most significant first.
pub open spec fn be_bytes(value: i32) -> Seq<u8> {
    let bits = bits_of(value);
    seq![
        (bits / 0x100_0000) as u8,
        (bits / 0x1_0000 % 0x100) as u8,
        (bits / 0x100 % 0x100) as u8,
        (bits % 0x100) as u8,
    ]
}

/// The number whose big-endian bytes are the first four of `bytes`.
pub open spec fn be_value(bytes: Seq<u8>) -> i32 {
    value_of_bits(bytes[0] * 0x100_0000 + bytes[1] * 0x1_0000 + bytes[2] * 0x100 + bytes[3])
}

/// The bytes that represent `value` in memory.
pub open spec fn encode(value: ValueType) -> Seq<u8> {
    match value {
        ValueType::I32(v) => be_bytes(v),
    }
}

/// The value of type `t` that the bytes at the start of `bytes` represent.
pub open spec fn decode(t: TypeDeclaration, bytes: Seq<u8>) -> ValueType {
    match t {
        TypeDeclaration::I32 => ValueType::I32(be_value(bytes)),
    }
}

/// Whether a value of type `t` at `address` lies within `bytes`.
pub open spec fn in_bounds(bytes: Seq<u8>, t: TypeDeclaration, address: int) -> bool {
    0 <= address && address + t.spec_size() <= bytes.len()
}

/// The value of type `t` stored at `address`.
pub open spec fn loaded(bytes: Seq<u8>, t: TypeDeclaration, address: int) -> ValueType {
    decode(t, bytes.subrange(address, address + t.spec_size()))
}

/// The memory `bytes` with the representation of `value` written at `address`.
pub open spec fn stored(bytes: Seq<u8>, address: int, value: ValueType) -> Seq<u8> {
    let image = encode(value);
    Seq::new(
        bytes.len(),
        |i: int|
            if address <= i < address + image.len() {
                image[i - address]
            } else {
                bytes[i]
            },
    )
}

/// Decoding the big-endian bytes of a number gives the number back.
pub proof fn lemma_be_round_trip(value: i32)
    ensures
        be_bytes(value).len() == 4,
        be_value(be_bytes(value)) == value,
{
}

/// Encodes `value` in four bytes, most significant first.
pub fn to_be_bytes(value: i32) -> (bytes: [u8; 4])
    ensures
        bytes@ == be_bytes(value),
{
    let bits: u32 = if value < 0 {
        (value as i64 + 0x1_0000_0000) as u32
    } else {
        value as u32
    };
    let bytes = [
        (bits / 0x100_0000) as u8,
        (bits / 0x1_0000 % 0x100) as u8,
        (bits / 0x100 % 0x100) as u8,
        (bits % 0x100) as u8,
    ];
    assert(bytes@ =~= be_bytes(value));
    bytes
}

/// Decodes the number that four bytes encode, most significant first.
pub fn from_be_bytes(bytes: [u8; 4]) -> (value: i32)
    ensures
        value == be_value(bytes@),
{
    let bits: u32 = bytes[0] as u32 * 0x100_0000 + bytes[1] as u32 * 0x1_0000 + bytes[2] as u32
        * 0x100 + bytes[3] as u32;
    if bits >= 0x8000_0000 {
        (bits as i64 - 0x1_0000_0000) as i32
    } else {
        bits as i32
    }
}

/// A growable, byte-addressed buffer that is always a whole number of pages
/// long.
#[derive(Debug)]
pub struct LinearMemory {
    bytes: Vec<u8>,
}

impl View for LinearMemory {
    type V = Seq<u8>;

    closed spec fn view(&self) -> Seq<u8> {
        self.bytes@
    }
}

impl LinearMemory {
    #[verifier::type_invariant]
    spec fn well_formed(self) -> bool {
        valid_memory(self.bytes@)
    }

    /// Creates a memory of zero pages.
    pub fn new() -> (memory: Self)
        ensures
            memory@ == Seq::<u8>::empty(),
    {
        LinearMemory { bytes: Vec::new() }
    }

    /// Returns the current length in whole pages.
    pub fn size(&self) -> (pages: i32)
        ensures
            pages == page_count(self@),
            valid_memory(self@),
    {
        proof {
            use_type_invariant(self);
        }
        (self.bytes.len() / PAGE_SIZE) as i32
    }

    /// Appends `pages` pages of zero bytes.
    ///
    /// Fails with [`FaultKind::Overflow`], leaving the memory as it was, when
    /// `pages` is negative or the new length would not fit in a 32-bit signed
    /// integer.
    pub fn grow(&mut self, pages: i32) -> (result: Result<(), FaultKind>)
        ensures
            can_grow(old(self)@, pages as int) ==> result == Ok::<(), FaultKind>(()) && final(self)@ == grown(
                old(self)@,
                pages as int,
            ),
            !can_grow(old(self)@, pages as int) ==> result == Err::<(), FaultKind>(FaultKind::Overflow)
                && final(self)@ == old(self)@,
    {
        proof {
            use_type_invariant(&*self);
        }
        if pages < 0 {
            return Err(FaultKind::Overflow);
        }
        let length = self.bytes.len();
        let wanted: u64 = length as u64 + pages as u64 * PAGE_SIZE as u64;
        if wanted > MAX_MEMORY_BYTES as u64 {
            return Err(FaultKind::Overflow);
        }
        // The bytes leave the memory while they grow, so that the memory is
        // whole pages long at every moment, even if growing is cut short.
        let mut bytes: Vec<u8> = Vec::new();
        core::mem::swap(&mut self.bytes, &mut bytes);
        bytes.resize(wanted as usize, 0u8);
        core::mem::swap(&mut self.bytes, &mut bytes);
        assert(self.bytes@ =~= grown(old(self)@, pages as int));
        Ok(())
    }

    /// Reads the value of type `t` at `address`, in big-endian byte order.
    ///
    /// Fails with [`FaultKind::Bounds`] when `address` is negative or the
    /// value would reach past the end of the memory.
    pub fn load(&self, t: TypeDeclaration, address: i32) -> (result: Result<ValueType, FaultKind>)
        ensures
            in_bounds(self@, t, address as int) ==> result == Ok::<ValueType, FaultKind>(
                loaded(self@, t, address as int),
            ),
            !in_bounds(self@, t, address as int) ==> result == Err::<ValueType, FaultKind>(
                FaultKind::Bounds { address, length: self@.len() as usize },
            ),
    {
        let length = self.bytes.len();
        let width = t.size();
        if address < 0 || length < width || address as usize > length - width {
            return Err(FaultKind::Bounds { address, length });
        }
        let at = address as usize;
        match t {
            TypeDeclaration::I32 => {
                let image = [
                    self.bytes[at],
                    self.bytes[at + 1],
                    self.bytes[at + 2],
                    self.bytes[at + 3],
                ];
                Ok(ValueType::I32(from_be_bytes(image)))
            },
        }
    }

    /// Writes the big-endian representation of `value` at `address`,
    /// overwriting what was there.
    ///
    /// Fails with [`FaultKind::Bounds`], leaving the memory as it was, when
    /// `address` is negative or a value of type `t` would reach past the end
    /// of the memory.
    pub fn store(&mut self, t: TypeDeclaration, address: i32, value: ValueType) -> (result: Result<
        (),
        FaultKind,
    >)
        ensures
            in_bounds(old(self)@, t, address as int) ==> result == Ok::<(), FaultKind>(()) && final(self)@
                == stored(old(self)@, address as int, value),
            !in_bounds(old(self)@, t, address as int) ==> result == Err::<(), FaultKind>(
                FaultKind::Bounds { address, length: old(self)@.len() as usize },
            ) && final(self)@ == old(self)@,
    {
        proof {
            use_type_invariant(&*self);
        }
        let length = self.bytes.len();
        let width = t.size();
        if address < 0 || length < width || address as usize > length - width {
            return Err(FaultKind::Bounds { address, length });
        }
        let at = address as usize;
        match value {
            ValueType::I32(v) => {
                let image = to_be_bytes(v);
                self.bytes[at] = image[0];
                self.bytes[at + 1] = image[1];
                self.bytes[at + 2] = image[2];
                self.bytes[at + 3] = image[3];
            },
        }
        assert(self.bytes@ =~= stored(old(self)@, address as int, value));
        Ok(())
    }
}

} // verus!
