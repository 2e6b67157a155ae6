//! The closed taxonomy of tags. Each kind of tag is a payload-free enum with
//! one variant per allowed literal tag, so the type system itself keeps the
//! sets closed; `validate` reports membership in the closed set, which every
//! representable value has.
use vstd::prelude::*;

use crate::codec::str_equal;
use crate::AnnotatorError;

verus! {

broadcast use vstd::string::group_string_axioms;

/// Digest algorithm named by an annotation's `hash` field.
#[derive(Clone, Copy, PartialEq, Eq, Structural, Debug)]
pub enum HashType {
    Md5,
    Sha256,
    NoHash,
}

impl HashType {
    /// The literal tag this algorithm is written as.
    pub open spec fn tag(self) -> Seq<char> {
        match self {
            HashType::Md5 => "md5"@,
            HashType::Sha256 => "sha256"@,
            HashType::NoHash => "none"@,
        }
    }

    /// Membership in the closed set {md5, sha256, none}.
    pub open spec fn valid(self) -> bool {
        match self {
            HashType::Md5 => true,
            HashType::Sha256 => true,
            HashType::NoHash => true,
        }
    }

    /// The tag as text.
    pub fn tag_text(&self) -> (r: &str)
        ensures
            r@ == self.tag(),
    {
        match self {
            HashType::Md5 => "md5",
            HashType::Sha256 => "sha256",
            HashType::NoHash => "none",
        }
    }

    pub fn validate(&self) -> (r: bool)
        ensures
            r == self.valid(),
    {
        match self {
            HashType::Md5 => true,
            HashType::Sha256 => true,
            HashType::NoHash => true,
        }
    }
}

/// Signature key algorithm.
#[derive(Clone, Copy, PartialEq, Eq, Structural, Debug)]
pub enum KeyAlgorithm {
    Ed25519,
}

impl KeyAlgorithm {
    /// The literal tag this algorithm is written as.
    pub open spec fn tag(self) -> Seq<char> {
        match self {
            KeyAlgorithm::Ed25519 => "ed25519"@,
        }
    }

    /// Membership in the closed set {ed25519}.
    pub open spec fn valid(self) -> bool {
        match self {
            KeyAlgorithm::Ed25519 => true,
        }
    }

    pub fn validate(&self) -> (r: bool)
        ensures
            r == self.valid(),
    {
        match self {
            KeyAlgorithm::Ed25519 => true,
        }
    }
}

/// Transport backend a publisher is built over.
#[derive(Clone, Copy, PartialEq, Eq, Structural, Debug)]
pub enum StreamType {
    Iota,
    Mock,
    Mqtt,
    Pravega,
}

impl StreamType {
    /// The literal tag this backend is written as.
    pub open spec fn tag(self) -> Seq<char> {
        match self {
            StreamType::Iota => "iota"@,
            StreamType::Mock => "mock"@,
            StreamType::Mqtt => "mqtt"@,
            StreamType::Pravega => "pravega"@,
        }
    }

    /// Membership in the closed set {iota, mock, mqtt, pravega}.
    pub open spec fn valid(self) -> bool {
        match self {
            StreamType::Iota => true,
            StreamType::Mock => true,
            StreamType::Mqtt => true,
            StreamType::Pravega => true,
        }
    }

    pub fn validate(&self) -> (r: bool)
        ensures
            r == self.valid(),
    {
        match self {
            StreamType::Iota => true,
            StreamType::Mock => true,
            StreamType::Mqtt => true,
            StreamType::Pravega => true,
        }
    }
}

/// Semantic category of an annotation.
#[derive(Clone, Copy, PartialEq, Eq, Structural, Debug)]
pub enum AnnotationType {
    Pki,
    Source,
    Tls,
    Tpm,
}

impl AnnotationType {
    /// The literal tag this category is written as.
    pub open spec fn tag(self) -> Seq<char> {
        match self {
            AnnotationType::Pki => "pki"@,
            AnnotationType::Source => "source"@,
            AnnotationType::Tls => "tls"@,
            AnnotationType::Tpm => "tpm"@,
        }
    }

    /// Membership in the closed set {pki, source, tls, tpm}.
    pub open spec fn valid(self) -> bool {
        match self {
            AnnotationType::Pki => true,
            AnnotationType::Source => true,
            AnnotationType::Tls => true,
            AnnotationType::Tpm => true,
        }
    }

    /// The tag as text.
    pub fn kind(&self) -> (r: &str)
        ensures
            r@ == self.tag(),
    {
        match self {
            AnnotationType::Pki => "pki",
            AnnotationType::Source => "source",
            AnnotationType::Tls => "tls",
            AnnotationType::Tpm => "tpm",
        }
    }

    pub fn validate(&self) -> (r: bool)
        ensures
            r == self.valid(),
    {
        match self {
            AnnotationType::Pki => true,
            AnnotationType::Source => true,
            AnnotationType::Tls => true,
            AnnotationType::Tpm => true,
        }
    }

    /// Fallible conversion from free-form text: exactly the four literal tags
    /// are accepted, case-sensitive, with no trimming and no defaulting.
    pub fn try_from(kind: &str) -> (r: Result<AnnotationType, AnnotatorError>)
        ensures
            kind@ == "source"@ ==> r == Ok::<AnnotationType, AnnotatorError>(AnnotationType::Source),
            kind@ == "pki"@ ==> r == Ok::<AnnotationType, AnnotatorError>(AnnotationType::Pki),
            kind@ == "tls"@ ==> r == Ok::<AnnotationType, AnnotatorError>(AnnotationType::Tls),
            kind@ == "tpm"@ ==> r == Ok::<AnnotationType, AnnotatorError>(AnnotationType::Tpm),
            r matches Ok(t) ==> kind@ == t.tag(),
            r matches Err(e) ==> e == AnnotatorError::UnknownAnnotation && (forall|t: AnnotationType| kind@ != t.tag()),
    {
        proof {
            reveal_strlit("source");
            reveal_strlit("pki");
            reveal_strlit("tls");
            reveal_strlit("tpm");
            assert("source"@.len() == 6 && "pki"@.len() == 3 && "tls"@.len() == 3 && "tpm"@.len()
                == 3);
            assert("pki"@[0] == 'p' && "tls"@[0] == 't' && "tpm"@[0] == 't' && "tls"@[1] == 'l'
                && "tpm"@[1] == 'p');
        }
        if str_equal(kind, "source") {
            Ok(AnnotationType::Source)
        } else if str_equal(kind, "pki") {
            Ok(AnnotationType::Pki)
        } else if str_equal(kind, "tls") {
            Ok(AnnotationType::Tls)
        } else if str_equal(kind, "tpm") {
            Ok(AnnotationType::Tpm)
        } else {
            Err(AnnotatorError::UnknownAnnotation)
        }
    }
}

/// Action stamped on a publish envelope.
#[derive(Clone, Copy, PartialEq, Eq, Structural, Debug)]
pub enum SdkAction {
    Create,
    Mutate,
    Transit,
    Publish,
}

impl SdkAction {
    /// The literal tag this action is written as.
    pub open spec fn tag(self) -> Seq<char> {
        match self {
            SdkAction::Create => "create"@,
            SdkAction::Mutate => "mutate"@,
            SdkAction::Transit => "transit"@,
            SdkAction::Publish => "publish"@,
        }
    }

    /// Membership in the closed set {create, mutate, transit, publish}.
    pub open spec fn valid(self) -> bool {
        match self {
            SdkAction::Create => true,
            SdkAction::Mutate => true,
            SdkAction::Transit => true,
            SdkAction::Publish => true,
        }
    }

    /// The tag as text.
    pub fn tag_text(&self) -> (r: &str)
        ensures
            r@ == self.tag(),
    {
        match self {
            SdkAction::Create => "create",
            SdkAction::Mutate => "mutate",
            SdkAction::Transit => "transit",
            SdkAction::Publish => "publish",
        }
    }

    pub fn validate(&self) -> (r: bool)
        ensures
            r == self.valid(),
    {
        match self {
            SdkAction::Create => true,
            SdkAction::Mutate => true,
            SdkAction::Transit => true,
            SdkAction::Publish => true,
        }
    }
}

} // verus!
