//! Translation of one mapping request into one message.

use vstd::prelude::*;
use crate::message::{
    protocol_read_bits, protocol_write_bits, zero_message, Slot, WireMessage, MAP_READ, MAP_WRITE,
};

verus! {

/// Bit of a mapping request's flags that asks for a writable mapping.
pub const SETUPMAPPING_FLAG_WRITE: u64 = 0x1;

/// Bit of a mapping request's flags that asks for a readable mapping. Every
/// mapping is readable, so the translation does not look at it.
pub const SETUPMAPPING_FLAG_READ: u64 = 0x2;

/// Whether the request's flags ask for a writable mapping.
pub open spec fn wants_write(flags: u64) -> bool {
    flags & SETUPMAPPING_FLAG_WRITE != 0
}

/// The protocol bits of a mapping: read always, write where the request asks
/// for it. Other bits of the request are not translated.
pub open spec fn protocol_flags(flags: u64) -> u64 {
    if wants_write(flags) {
        MAP_WRITE | MAP_READ
    } else {
        MAP_READ
    }
}

/// The slots of the message for one mapping: the mapping in slot 0 and zero
/// in every other slot.
pub open spec fn map_message_slots(foffset: u64, moffset: u64, len: u64, flags: u64) -> Seq<Slot> {
    zero_message().update(
        0,
        Slot { fd_offset: foffset, cache_offset: moffset, len, flags: protocol_flags(flags) },
    )
}

/// Translates the flags of a mapping request into protocol bits.
pub fn translate_flags(flags: u64) -> (bits: u64)
    ensures
        bits == protocol_flags(flags),
        !wants_write(flags) ==> bits == MAP_READ,
        wants_write(flags) ==> bits == 0x3,
{
    let read: u64 = protocol_read_bits();
    let write: u64 = protocol_write_bits();
    assert(0x2u64 | 0x1u64 == 0x3u64) by (bit_vector);
    if (flags & SETUPMAPPING_FLAG_WRITE) != 0 {
        write | read
    } else {
        read
    }
}

/// Builds the message for one mapping. The three offsets and lengths pass
/// through as they are; no input is refused.
pub fn map_message(foffset: u64, moffset: u64, len: u64, flags: u64) -> (msg: WireMessage)
    ensures
        msg@ == map_message_slots(foffset, moffset, len, flags),
        msg@[0].flags == (if wants_write(flags) {
            0x3u64
        } else {
            0x1u64
        }),
{
    let mut msg = WireMessage::new();
    msg.set_mapping(0, foffset, moffset, len, translate_flags(flags));
    msg
}

/// A mapping that is not writable carries the read bit and nothing else; a
/// writable one carries the read and the write bit and nothing else.
pub proof fn lemma_protocol_flags(flags: u64)
    ensures
        !wants_write(flags) ==> protocol_flags(flags) == MAP_READ,
        wants_write(flags) ==> protocol_flags(flags) == 0x3,
        protocol_flags(flags) & MAP_READ == MAP_READ,
        wants_write(flags) <==> protocol_flags(flags) & MAP_WRITE == MAP_WRITE,
{
    assert(0x2u64 | 0x1u64 == 0x3u64) by (bit_vector);
    assert(0x3u64 & 0x1u64 == 0x1u64) by (bit_vector);
    assert(0x1u64 & 0x1u64 == 0x1u64) by (bit_vector);
    assert(0x3u64 & 0x2u64 == 0x2u64) by (bit_vector);
    assert(0x1u64 & 0x2u64 == 0x0u64) by (bit_vector);
}

} // verus!
