//! What a signed message can carry.

use crate::wire::{bytes_parsed, length_prefixed, read_bytes, write_bytes};
use vstd::prelude::*;
use vstd::slice::slice_to_vec;

verus! {

/// What can travel in a signed message: a value with a byte form that a reader can take
/// from the front of a byte string.
pub trait Payload: View + Sized {
    /// The bytes of a value.
    spec fn encoding(value: Self::V) -> Seq<u8>;

    /// The value at the front of `bytes` with the number of bytes that it takes; `None`
    /// where the bytes do not start with a value.
    spec fn parsing(bytes: Seq<u8>) -> Option<(Self::V, nat)>;

    /// Appends the bytes of the value to `out`.
    fn encode(&self, out: &mut Vec<u8>)
        ensures
            final(out)@ == old(out)@ + Self::encoding(self@),
    ;

    /// Reads the value at the front of `bytes`, and says how many bytes it takes.
    fn parse(bytes: &[u8]) -> (res: Option<(Self, usize)>)
        ensures
            match res {
                Some((value, used)) => Self::parsing(bytes@) == Some((value@, used as nat))
                    && used <= bytes@.len(),
                None => Self::parsing(bytes@).is_none(),
            },
    ;
}

/// The empty payload has no bytes.
impl Payload for () {
    open spec fn encoding(value: ()) -> Seq<u8> {
        Seq::empty()
    }

    open spec fn parsing(bytes: Seq<u8>) -> Option<((), nat)> {
        Some(((), 0))
    }

    fn encode(&self, out: &mut Vec<u8>) {
        assert(out@ + Seq::<u8>::empty() =~= out@);
    }

    fn parse(bytes: &[u8]) -> (res: Option<(Self, usize)>) {
        Some(((), 0))
    }
}

/// A byte string travels with its length in front.
impl Payload for Vec<u8> {
    open spec fn encoding(value: Seq<u8>) -> Seq<u8> {
        length_prefixed(value)
    }

    open spec fn parsing(bytes: Seq<u8>) -> Option<(Seq<u8>, nat)> {
        bytes_parsed(bytes)
    }

    fn encode(&self, out: &mut Vec<u8>) {
        write_bytes(out, self.as_slice());
    }

    fn parse(bytes: &[u8]) -> (res: Option<(Self, usize)>) {
        match read_bytes(bytes) {
            Some((value, used)) => Some((slice_to_vec(value), used)),
            None => None,
        }
    }
}

} // verus!
