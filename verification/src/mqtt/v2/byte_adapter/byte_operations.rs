//! The byte operations that the parsers use, and their implementation on
//! `BytesMut`.
use crate::buffer::{
    bytes_mut_as_slice, bytes_mut_extend, bytes_mut_get_u8, bytes_mut_len, bytes_mut_put_u8, bytes_mut_seq,
    bytes_mut_split_to,
};
use bytes::BytesMut;
use vstd::prelude::*;
use vstd::slice::slice_to_vec;

verus! {

/// A buffer of bytes read from the front and written at the back.
pub trait ByteOperations {
    /// The bytes held, in order.
    spec fn byte_seq(&self) -> Seq<u8>;

    /// Removes and returns the first byte; none where there is none.
    fn read_a_byte(&mut self) -> (r: Option<u8>)
        ensures
            old(self).byte_seq().len() == 0 ==> r is None && final(self).byte_seq() == old(self).byte_seq(),
            old(self).byte_seq().len() > 0 ==> r == Some(old(self).byte_seq()[0]) && final(self).byte_seq()
                == old(self).byte_seq().skip(1),
    ;

    /// Removes and returns the first `len` bytes, or all there are where
    /// there are fewer.
    fn read_bytes(&mut self, len: usize) -> (r: Vec<u8>)
        ensures
            ({
                let n = if len < old(self).byte_seq().len() {
                    len as int
                } else {
                    old(self).byte_seq().len() as int
                };
                &&& r@ == old(self).byte_seq().take(n)
                &&& final(self).byte_seq() == old(self).byte_seq().skip(n)
            }),
    ;

    /// Appends one byte.
    fn write_a_byte(&mut self, byte: u8)
        requires
            old(self).byte_seq().len() < usize::MAX,
        ensures
            final(self).byte_seq() == old(self).byte_seq().push(byte),
    ;

    /// Appends bytes.
    fn write_bytes(&mut self, bytes: &[u8])
        requires
            old(self).byte_seq().len() + bytes@.len() <= usize::MAX,
        ensures
            final(self).byte_seq() == old(self).byte_seq() + bytes@,
    ;

    /// The number of bytes held.
    fn bytes_len(&self) -> (r: usize)
        ensures
            r == self.byte_seq().len(),
    ;

    /// As many bytes as are wanted, at most as many as are held.
    fn available_size(&mut self, want_size: usize) -> (r: usize)
        ensures
            r == if want_size < old(self).byte_seq().len() {
                want_size as int
            } else {
                old(self).byte_seq().len() as int
            },
            final(self).byte_seq() == old(self).byte_seq(),
    {
        let held = self.bytes_len();
        if want_size < held {
            want_size
        } else {
            held
        }
    }

    /// Whether no byte is held.
    fn is_empty(&self) -> (r: bool)
        ensures
            r == (self.byte_seq().len() == 0),
    {
        self.bytes_len() == 0
    }
}

impl ByteOperations for BytesMut {
    open spec fn byte_seq(&self) -> Seq<u8> {
        bytes_mut_seq(*self)
    }

    fn read_a_byte(&mut self) -> (r: Option<u8>) {
        if bytes_mut_len(self) == 0 {
            return None;
        }
        Some(bytes_mut_get_u8(self))
    }

    fn read_bytes(&mut self, len: usize) -> (r: Vec<u8>) {
        let held = bytes_mut_len(self);
        let take_size = if len < held {
            len
        } else {
            held
        };
        let taken = bytes_mut_split_to(self, take_size);
        slice_to_vec(bytes_mut_as_slice(&taken))
    }

    fn write_a_byte(&mut self, byte: u8) {
        bytes_mut_put_u8(self, byte);
    }

    fn write_bytes(&mut self, bytes: &[u8]) {
        bytes_mut_extend(self, bytes);
    }

    fn bytes_len(&self) -> (r: usize) {
        bytes_mut_len(self)
    }
}

} // verus!
