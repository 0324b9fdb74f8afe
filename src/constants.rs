use vstd::prelude::*;

verus! {

/// First byte of the magic prefix that opens every frame.
pub const PREFIX_FIRST: u8 = 0x47;

/// Second byte of the magic prefix that opens every frame.
pub const PREFIX_SECOND: u8 = 0x47;

/// Number of bytes in the magic prefix.
pub const PREFIX_LEN: usize = 2;

/// Magic prefix plus the two length bytes.
pub const HEADERS_LEN: usize = PREFIX_LEN + 2;

/// Width in bytes of every player identifier on the wire.
pub const ID_LENGTH: usize = 10;

/// The magic prefix as a byte sequence.
pub open spec fn message_prefix() -> Seq<u8> {
    seq![PREFIX_FIRST, PREFIX_SECOND]
}

} // verus!
