//! The capability that turns raw input bytes into an annotation.
use vstd::prelude::*;

use crate::annotations::Annotation;
use crate::AnnotatorError;

verus! {

/// Implemented outside this layer: an annotator hashes the given bytes with
/// its configured algorithm and wraps the digest in an `Annotation`.
pub trait Annotator {
    fn annotate(&mut self, data: &[u8]) -> Result<Annotation, AnnotatorError>;
}

} // verus!
