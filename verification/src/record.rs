use vstd::bytes::lemma_auto_spec_u32_to_from_le_bytes;
use vstd::bytes::spec_u32_from_le_bytes;
use vstd::bytes::spec_u32_to_le_bytes;
use vstd::bytes::u32_from_le_bytes;
use vstd::bytes::u32_to_le_bytes;
use vstd::prelude::*;
use vstd::slice::slice_subrange;

use crate::error::ErrorKind;

verus! {

/// The number of bytes the record occupies at the front of an account buffer.
pub const RECORD_SIZE: usize = 4;

/// The persisted record: a single unsigned 32-bit counter, stored as the
/// fixed 4-byte little-endian prefix of the account buffer. No padding, no
/// schema tag; trailing bytes of a longer buffer belong to nobody and are
/// never touched.
#[derive(Clone, Copy, Debug, PartialEq, Eq, Structural)]
pub struct GreetingAccount {
    pub counter: u32,
}

/// The counter encoded in the 4-byte little-endian prefix of `data`.
pub open spec fn decoded_counter(data: Seq<u8>) -> u32
    recommends
        data.len() >= RECORD_SIZE,
{
    spec_u32_from_le_bytes(data.subrange(0, RECORD_SIZE as int))
}

impl GreetingAccount {
    /// The 4-byte little-endian wire form of this record.
    pub open spec fn encoding(self) -> Seq<u8> {
        spec_u32_to_le_bytes(self.counter)
    }

    /// Reads the record from the fixed 4-byte prefix of `data`; trailing
    /// bytes are ignored. A buffer shorter than the record is malformed.
    pub fn decode(data: &[u8]) -> (r: Result<GreetingAccount, ErrorKind>)
        ensures
            data@.len() >= RECORD_SIZE ==> (r matches Ok(rec)
                && rec.counter == decoded_counter(data@)),
            data@.len() < RECORD_SIZE ==> (r matches Err(e) && e == ErrorKind::MalformedRecord),
    {
        if data.len() < RECORD_SIZE {
            return Err(ErrorKind::MalformedRecord);
        }
        let prefix = slice_subrange(data, 0, RECORD_SIZE);
        let counter = u32_from_le_bytes(prefix);
        Ok(GreetingAccount { counter })
    }

    /// Writes the record over the first 4 bytes of `data`, in place, leaving
    /// every byte past the prefix and the buffer's length unchanged. A
    /// destination shorter than the record is rejected untouched.
    pub fn encode_into(&self, data: &mut Vec<u8>) -> (r: Result<(), ErrorKind>)
        ensures
            old(data)@.len() >= RECORD_SIZE ==> r is Ok && final(data)@ == self.encoding()
                + old(data)@.skip(RECORD_SIZE as int),
            old(data)@.len() < RECORD_SIZE ==> (r matches Err(e) && e == ErrorKind::BufferTooSmall)
                && final(data)@ == old(data)@,
    {
        if data.len() < RECORD_SIZE {
            return Err(ErrorKind::BufferTooSmall);
        }
        let bytes = u32_to_le_bytes(self.counter);
        data[0] = bytes[0];
        data[1] = bytes[1];
        data[2] = bytes[2];
        data[3] = bytes[3];
        proof {
            assert(data@ =~= self.encoding() + old(data)@.skip(RECORD_SIZE as int));
        }
        Ok(())
    }
}

/// Law: encoding the record decoded from a buffer reproduces the buffer's
/// 4-byte prefix exactly, byte for byte.
pub proof fn lemma_round_trip_prefix(data: Seq<u8>)
    requires
        data.len() >= RECORD_SIZE,
    ensures
        spec_u32_to_le_bytes(decoded_counter(data)) == data.subrange(0, RECORD_SIZE as int),
{
    lemma_auto_spec_u32_to_from_le_bytes();
}

/// Law: decoding the encoding of a record yields the same counter back.
pub proof fn lemma_round_trip_counter(rec: GreetingAccount)
    ensures
        decoded_counter(rec.encoding()) == rec.counter,
{
    lemma_auto_spec_u32_to_from_le_bytes();
    assert(rec.encoding().subrange(0, RECORD_SIZE as int) =~= rec.encoding());
}

} // verus!
