//! A client's account as it is written out, and the writer it goes to.

use crate::amount::Amount;
use crate::types::ClientId;
use vstd::prelude::*;

verus! {

/// One line of output: a client's balances, rounded for display.
#[derive(Clone, Copy, Debug)]
pub struct AccountOutput {
    pub client: ClientId,
    pub available: Amount,
    pub held: Amount,
    pub total: Amount,
    pub locked: bool,
}

/// Writes account lines as CSV to `W`.
pub struct CsvSink<W> {
    writer: W,
}

impl<W> CsvSink<W> {
    pub closed spec fn spec_writer(self) -> W {
        self.writer
    }

    pub fn new(writer: W) -> (r: CsvSink<W>)
        ensures
            r.spec_writer() == writer,
    {
        CsvSink { writer }
    }

    /// The writer the lines go to.
    pub fn writer_mut(&mut self) -> (r: &mut W)
        ensures
            *r == old(self).spec_writer(),
            final(self).spec_writer() == *final(r),
    {
        &mut self.writer
    }
}

} // verus!
