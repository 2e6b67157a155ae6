//! Contract layer for a provenance-attestation framework.
//!
//! The crate defines the closed taxonomy of tags (hash algorithms, key
//! algorithms, stream backends, annotation categories, SDK actions), the
//! `Annotation` record with its validation, a canonical textual encoding of
//! annotations together with a proved round-trip, and the provider traits
//! (hashing, signing, publishing) that concrete backends implement.
use vstd::prelude::*;

pub mod annotations;
pub mod annotator;
pub mod codec;
pub mod constants;
pub mod providers;

pub use annotations::{mock_annotation, Annotation, AnnotationList, AnnotationModel};
pub use annotator::Annotator;
pub use codec::{deserialize_annotation, serialize_annotation};
pub use providers::{derive_hash, serialise_and_sign, serialize_message_wrapper, HashProvider,
    MessageWrapper, Publisher, SignProvider};

verus! {

/// The closed set of failure kinds raised by this layer. Backend-specific
/// failures stay in the providers' own error types and are never folded into
/// these kinds.
#[derive(Debug, Clone, PartialEq, Eq)]
pub enum AnnotatorError {
    /// A free-form category string did not match any `AnnotationType` tag.
    UnknownAnnotation,
    /// An annotation could not be encoded; carries the cause as text. The
    /// crate's own codec is total and never raises this kind; it remains in
    /// the taxonomy for annotators whose encoding step can fail.
    AnnotationSerialize(String),
}

/// Configuration capability consumed by `Publisher` implementations: it only
/// has to say which stream backend the configuration selects.
pub trait StreamConfigWrapper {
    fn stream_type(&self) -> constants::StreamType;
}

} // verus!
