//! Codecs that compress pages.
use vstd::prelude::*;

use crate::errors::ParquetError;

verus! {

/// A codec, supplied by the program that writes the file.
pub trait Codec {
    /// Whether the codec may turn `input` into `output`. A codec of which nothing is known may turn
    /// anything into anything.
    open spec fn compresses(&self, input: Seq<u8>, output: Seq<u8>) -> bool {
        true
    }

    /// Compresses `input` into `output`, which is empty before.
    fn compress(&mut self, input: &[u8], output: &mut Vec<u8>) -> (r: Result<(), ParquetError>)
        requires
            old(output)@.len() == 0,
        ensures
            r is Ok ==> old(self).compresses(input@, final(output)@),
    ;
}

} // verus!
