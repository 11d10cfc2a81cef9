//! The fixed-capacity message of the side channel and its protocol constants.

use vstd::prelude::*;

verus! {

/// Number of slots in one message.
pub const ENTRIES_PER_MESSAGE: usize = 8;

/// Protocol bit for read permission on a mapping.
pub const MAP_READ: u64 = 0x1;

/// Protocol bit for write permission on a mapping.
pub const MAP_WRITE: u64 = 0x2;

/// Reads `vhost::vhost_user::message::VHOST_USER_FS_SLAVE_ENTRIES`. Trusted:
/// the protocol fixes the number of entries of one message at eight.
#[verifier::external_body]
pub(crate) fn protocol_entries() -> (c: usize)
    ensures
        c == ENTRIES_PER_MESSAGE,
{
    vhost::vhost_user::message::VHOST_USER_FS_SLAVE_ENTRIES
}

/// Reads the bits of `vhost::vhost_user::message::VhostUserFSSlaveMsgFlags::MAP_R`
/// through `bits()`. Trusted: the read permission is bit 0.
#[verifier::external_body]
pub(crate) fn protocol_read_bits() -> (b: u64)
    ensures
        b == MAP_READ,
{
    vhost::vhost_user::message::VhostUserFSSlaveMsgFlags::MAP_R.bits()
}

/// Reads the bits of `vhost::vhost_user::message::VhostUserFSSlaveMsgFlags::MAP_W`
/// through `bits()`. Trusted: the write permission is bit 1.
#[verifier::external_body]
pub(crate) fn protocol_write_bits() -> (b: u64)
    ensures
        b == MAP_WRITE,
{
    vhost::vhost_user::message::VhostUserFSSlaveMsgFlags::MAP_W.bits()
}

/// One slot of a message, as plain values.
#[derive(Clone, Copy, Debug, PartialEq, Eq, Structural)]
pub struct Slot {
    /// Offset into the backing file.
    pub fd_offset: u64,
    /// Offset into the DAX window.
    pub cache_offset: u64,
    /// Length of the region.
    pub len: u64,
    /// Protocol permission bits.
    pub flags: u64,
}

impl Slot {
    /// The slot that carries nothing.
    pub open spec fn zero() -> Slot {
        Slot { fd_offset: 0, cache_offset: 0, len: 0, flags: 0 }
    }
}

/// The message that travels over the side channel: four parallel arrays of
/// `ENTRIES_PER_MESSAGE` entries each.
#[derive(Clone, Copy, Debug, PartialEq, Eq)]
pub struct WireMessage {
    /// File offsets.
    pub fd_offset: [u64; ENTRIES_PER_MESSAGE],
    /// Offsets into the DAX window.
    pub cache_offset: [u64; ENTRIES_PER_MESSAGE],
    /// Region lengths.
    pub len: [u64; ENTRIES_PER_MESSAGE],
    /// Protocol permission bits.
    pub flags: [u64; ENTRIES_PER_MESSAGE],
}

impl View for WireMessage {
    type V = Seq<Slot>;

    /// The message as its sequence of slots.
    open spec fn view(&self) -> Seq<Slot> {
        Seq::new(
            ENTRIES_PER_MESSAGE as nat,
            |k: int|
                Slot {
                    fd_offset: self.fd_offset@[k],
                    cache_offset: self.cache_offset@[k],
                    len: self.len@[k],
                    flags: self.flags@[k],
                },
        )
    }
}

/// The view of a message that carries nothing.
pub open spec fn zero_message() -> Seq<Slot> {
    Seq::new(ENTRIES_PER_MESSAGE as nat, |k: int| Slot::zero())
}

impl Default for WireMessage {
    /// The default message is the fresh one.
    fn default() -> (m: WireMessage)
        ensures
            m@ == zero_message(),
    {
        WireMessage::new()
    }
}

impl WireMessage {
    /// A fresh message: every slot is zero.
    pub fn new() -> (m: WireMessage)
        ensures
            m@ == zero_message(),
    {
        let m = WireMessage {
            fd_offset: [0u64; ENTRIES_PER_MESSAGE],
            cache_offset: [0u64; ENTRIES_PER_MESSAGE],
            len: [0u64; ENTRIES_PER_MESSAGE],
            flags: [0u64; ENTRIES_PER_MESSAGE],
        };
        assert(m@ =~= zero_message());
        m
    }

    /// Slot `k` of the message.
    pub fn slot(&self, k: usize) -> (s: Slot)
        requires
            k < ENTRIES_PER_MESSAGE,
        ensures
            s == self@[k as int],
    {
        Slot {
            fd_offset: self.fd_offset[k],
            cache_offset: self.cache_offset[k],
            len: self.len[k],
            flags: self.flags[k],
        }
    }

    /// Writes a mapping into slot `k` and leaves the other slots as they were.
    pub fn set_mapping(&mut self, k: usize, fd_offset: u64, cache_offset: u64, len: u64, flags: u64)
        requires
            k < ENTRIES_PER_MESSAGE,
        ensures
            final(self)@ == old(self)@.update(
                k as int,
                (Slot { fd_offset, cache_offset, len, flags }),
            ),
    {
        self.fd_offset[k] = fd_offset;
        self.cache_offset[k] = cache_offset;
        self.len[k] = len;
        self.flags[k] = flags;
        assert(self@ =~= old(self)@.update(
            k as int,
            (Slot { fd_offset, cache_offset, len, flags }),
        ));
    }

    /// Writes a removal into slot `k`: only the window offset and the length
    /// change.
    pub fn set_removal(&mut self, k: usize, cache_offset: u64, len: u64)
        requires
            k < ENTRIES_PER_MESSAGE,
        ensures
            final(self)@ == old(self)@.update(
                k as int,
                (Slot {
                    fd_offset: old(self)@[k as int].fd_offset,
                    cache_offset,
                    len,
                    flags: old(self)@[k as int].flags,
                }),
            ),
    {
        self.len[k] = len;
        self.cache_offset[k] = cache_offset;
        assert(self@ =~= old(self)@.update(
            k as int,
            (Slot {
                fd_offset: old(self)@[k as int].fd_offset,
                cache_offset,
                len,
                flags: old(self)@[k as int].flags,
            }),
        ));
    }
}

} // verus!
