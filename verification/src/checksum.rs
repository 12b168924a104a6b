//! A rolling checksum over the fields of a message. Both ends feed it the
//! same values in the same order; a message that was tampered with gives
//! another sum.

use crate::math::{lemma_ror32_by_31, ror32, spec_ror32};
use vstd::prelude::*;

verus! {

/// `x` reduced to 32 bits.
pub open spec fn wrap32(x: int) -> u32 {
    (x % 0x1_0000_0000) as u32
}

/// The checksum `c` after a value went in whose tagged form is `addend`: the
/// sum is rotated to the right by 31 bits, then the addend is added.
pub open spec fn mixed(c: u32, addend: int) -> u32 {
    wrap32(spec_ror32(c, 31) + addend)
}

/// One value that goes into a checksum.
pub enum ChecksumOp {
    Boolean(bool),
    Byte(u8),
    Int(i32),
    VInt(i32),
    VLong(i32, i32),
}

/// The checksum `c` after `op` went in. Each kind of value has a tag of its
/// own, so that equal numbers of different kinds change the sum differently;
/// a two-part value goes in as its high part, tagged 65, and then its low
/// part, tagged 88.
pub open spec fn apply(c: u32, op: ChecksumOp) -> u32 {
    match op {
        ChecksumOp::Boolean(value) => mixed(c, if value { 13 } else { 7 }),
        ChecksumOp::Byte(value) => mixed(c, value + 11),
        ChecksumOp::Int(value) => mixed(c, value + 9),
        ChecksumOp::VInt(value) => mixed(c, value + 33),
        ChecksumOp::VLong(high, low) => mixed(mixed(c, high + 65), low + 88),
    }
}

/// The checksum `c` after all of `ops` went in, in their order.
pub open spec fn apply_all(c: u32, ops: Seq<ChecksumOp>) -> u32
    decreases ops.len(),
{
    if ops.len() == 0 {
        c
    } else {
        apply(apply_all(c, ops.drop_last()), ops.last())
    }
}

/// The checksum of a message under construction.
pub struct ChecksumEncoder {
    pub checksum: u32,
    /// A second sum that the protocol reserves. Nothing is added to it.
    pub checksum2: u32,
    /// While this is off, values go by without changing the sum.
    pub enabled: bool,
}

impl ChecksumEncoder {
    /// This encoder after `op` went in.
    pub open spec fn after(self, op: ChecksumOp) -> ChecksumEncoder {
        if self.enabled {
            ChecksumEncoder { checksum: apply(self.checksum, op), ..self }
        } else {
            self
        }
    }

    /// An encoder with an empty sum, switched on.
    pub fn new() -> (encoder: Self)
        ensures
            encoder.checksum == 0,
            encoder.checksum2 == 0,
            encoder.enabled,
    {
        Self { checksum: 0, checksum2: 0, enabled: true }
    }

    /// Starts the sum over.
    pub fn reset(&mut self)
        ensures
            *final(self) == (ChecksumEncoder { checksum: 0, ..*old(self) }),
    {
        self.checksum = 0;
    }

    /// Takes a boolean in: 13 for `true`, 7 for `false`.
    pub fn write_boolean(&mut self, value: bool)
        ensures
            *final(self) == old(self).after(ChecksumOp::Boolean(value)),
    {
        if self.enabled {
            let int_val: u32 = if value { 13 } else { 7 };
            self.checksum = ror32(self.checksum, 31).wrapping_add(int_val);
        }
    }

    /// Takes a byte in, tagged 11.
    pub fn write_byte(&mut self, value: u8)
        ensures
            *final(self) == old(self).after(ChecksumOp::Byte(value)),
    {
        if self.enabled {
            self.checksum = ror32(self.checksum, 31).wrapping_add(value as u32).wrapping_add(11);
        }
    }

    /// Takes a 32-bit integer in, tagged 9.
    pub fn write_int(&mut self, value: i32)
        ensures
            *final(self) == old(self).after(ChecksumOp::Int(value)),
    {
        if self.enabled {
            self.checksum = ror32(self.checksum, 31).wrapping_add_signed(value).wrapping_add(9);
        }
    }

    /// Takes a variable-length integer in, tagged 33.
    pub fn write_vint(&mut self, value: i32)
        ensures
            *final(self) == old(self).after(ChecksumOp::VInt(value)),
    {
        if self.enabled {
            self.checksum = ror32(self.checksum, 31).wrapping_add_signed(value).wrapping_add(33);
        }
    }

    /// Takes a two-part value in: its high part, tagged 65, then its low
    /// part, tagged 88.
    pub fn write_vlong(&mut self, high: i32, low: i32)
        ensures
            *final(self) == old(self).after(ChecksumOp::VLong(high, low)),
    {
        if self.enabled {
            let inner = ror32(self.checksum, 31).wrapping_add_signed(high).wrapping_add(65);
            self.checksum = ror32(inner, 31).wrapping_add_signed(low).wrapping_add(88);
        }
    }
}

/// The same values in the same order give the same sum, whichever way they
/// are split into runs.
pub proof fn lemma_apply_all_concat(c: u32, first: Seq<ChecksumOp>, second: Seq<ChecksumOp>)
    ensures
        apply_all(c, first + second) == apply_all(apply_all(c, first), second),
    decreases second.len(),
{
    if second.len() == 0 {
        assert(first + second =~= first);
    } else {
        lemma_apply_all_concat(c, first, second.drop_last());
        assert((first + second).drop_last() =~= first + second.drop_last());
    }
}

/// The order of the values matters: from any sum, `true` then `false`
/// leads to another sum than `false` then `true`.
pub proof fn lemma_boolean_order_matters(c: u32)
    ensures
        apply(apply(c, ChecksumOp::Boolean(true)), ChecksumOp::Boolean(false)) != apply(
            apply(c, ChecksumOp::Boolean(false)),
            ChecksumOp::Boolean(true),
        ),
{
    let r = spec_ror32(c, 31);
    let t = wrap32(r + 13);
    let f = wrap32(r + 7);
    lemma_ror32_by_31(t);
    lemma_ror32_by_31(f);
}

} // verus!
