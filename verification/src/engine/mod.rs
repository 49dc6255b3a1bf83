//! The transformation engine as an interface: a session that holds one
//! decoded image, applies operations to it, and is used up by encoding it.

use crate::error::Error;
use crate::ops::OutputFormat;
use crate::ops::Spec;
use crate::picture::admitted;
use crate::picture::leads;
use crate::picture::encoding;
use crate::picture::refused_at;
use crate::picture::Picture;
use vstd::prelude::*;

pub mod photon;

pub use photon::Photon;

verus! {

/// An engine holds the image of one request. Every backend keeps this
/// contract, so that callers need not know which one they hold.
pub trait Engine: Sized {
    /// The engine's own invariant.
    spec fn wf(&self) -> bool;

    /// The image that the engine holds.
    spec fn picture(&self) -> Picture;

    /// Applies `specs` from left to right. The whole list is checked before
    /// any of it is applied: either every operation is admitted and all are
    /// applied, or the first that is not admitted is reported and the image
    /// stays as it was. Where every operation is exact the image that
    /// results is `applied(..)` (`lemma_exact_leads`).
    fn apply(&mut self, specs: &[Spec]) -> (done: Result<(), Error>)
        requires
            old(self).wf(),
        ensures
            final(self).wf(),
            done is Ok <==> admitted(old(self).picture().width, old(self).picture().height, specs@),
            match done {
                Ok(_) => leads(old(self).picture(), specs@, final(self).picture()),
                Err(e) => {
                    &&& e matches Error::Operation { index }
                    &&& refused_at(
                        old(self).picture().width,
                        old(self).picture().height,
                        specs@,
                        index as int,
                    )
                    &&& final(self).picture() == old(self).picture()
                },
            },
    ;

    /// Uses the engine up and writes its image in `format`.
    fn generate(self, format: OutputFormat) -> (out: Result<Vec<u8>, Error>)
        requires
            self.wf(),
        ensures
            match out {
                Ok(bytes) => encoding(self.picture(), format) == Some(bytes@),
                Err(e) => e == Error::Encode && encoding(self.picture(), format) is None,
            },
    ;
}

/// One kind of operation on an engine's state. A new kind of operation is
/// a new impl of this trait; `apply` and the other kinds stay as they are.
pub trait SpecTransform<T>: Sized {
    /// Whether the state admits `op`.
    spec fn accepts(&self, op: T) -> bool;

    /// Whether `after` is what `op` makes of the state.
    spec fn yields(&self, op: T, after: Self) -> bool;

    /// Applies `op` to the state.
    fn transform(&mut self, op: T)
        requires
            old(self).accepts(op),
        ensures
            old(self).yields(op, *final(self)),
    ;
}

} // verus!
