//! The attestation record and its validation.
use vstd::prelude::*;

use crate::constants::{AnnotationType, HashType};

verus! {

/// Mathematical model of an annotation: each text field as its character
/// sequence, the tags and the flag as themselves.
#[verifier::ext_equal]
pub ghost struct AnnotationModel {
    pub id: Seq<char>,
    pub key: Seq<char>,
    pub hash: HashType,
    pub host: Seq<char>,
    pub kind: AnnotationType,
    pub signature: Seq<char>,
    pub is_satisfied: bool,
    pub timestamp: Seq<char>,
}

/// A single attestation record: it binds a content hash, an originating host,
/// a semantic category, an optional signature and a creation timestamp under
/// a fresh, lexicographically sortable identity.
#[derive(Clone, PartialEq, Eq, Debug)]
pub struct Annotation {
    pub id: String,
    pub key: String,
    pub hash: HashType,
    pub host: String,
    pub kind: AnnotationType,
    pub signature: String,
    pub is_satisfied: bool,
    pub timestamp: String,
}

impl View for Annotation {
    type V = AnnotationModel;

    open spec fn view(&self) -> AnnotationModel {
        AnnotationModel {
            id: self.id@,
            key: self.key@,
            hash: self.hash,
            host: self.host@,
            kind: self.kind,
            signature: self.signature@,
            is_satisfied: self.is_satisfied,
            timestamp: self.timestamp@,
        }
    }
}

/// An ordered batch of annotations; insertion order is significant and
/// duplicates are allowed.
#[derive(Clone, PartialEq, Eq, Debug)]
pub struct AnnotationList {
    pub items: Vec<Annotation>,
}

/// Relies on `ulid::Ulid::generate` and `ulid::Ulid::to_string`: a fresh
/// identifier drawn from the current time and a random source, rendered as 26
/// Crockford base32 characters.
#[verifier::external_body]
fn fresh_id() -> (r: String)
    ensures
        r@.len() == 26,
{
    ulid::Ulid::generate().to_string()
}

/// Relies on `chrono::Local::now` and its `Display` rendering: the current
/// wall-clock time as text. The result depends on the clock, so nothing is
/// promised of it. `Local::now` panics if the system clock reads before the
/// Unix epoch; that behaviour is the clock's, not an input's, and is kept.
#[verifier::external_body]
fn current_timestamp() -> (r: String) {
    chrono::Local::now().to_string()
}

impl Annotation {
    /// Builds a record with a fresh identity and the current timestamp; every
    /// other field is taken as given, unvalidated. The signature starts empty.
    pub fn new(key: &str, hash: HashType, host: &str, kind: AnnotationType, is_satisfied: bool) -> (r:
        Annotation)
        ensures
            r@.id.len() == 26,
            r@.key == key@,
            r@.hash == hash,
            r@.host == host@,
            r@.kind == kind,
            r@.signature == Seq::<char>::empty(),
            r@.is_satisfied == is_satisfied,
    {
        let timestamp = current_timestamp();
        Annotation {
            id: fresh_id(),
            key: key.to_owned(),
            hash,
            host: host.to_owned(),
            kind,
            signature: String::new(),
            is_satisfied,
            timestamp,
        }
    }

    /// Overwrites the signature unconditionally; every other field is kept.
    pub fn with_signature(&mut self, signature: &str)
        ensures
            final(self)@ == (AnnotationModel { signature: signature@, ..old(self)@ }),
    {
        self.signature = signature.to_owned();
        proof {
            assert(self@ =~= (AnnotationModel { signature: signature@, ..old(self)@ }));
        }
    }

    /// True iff both tags are members of their closed sets; since the sets
    /// are closed by construction, every representable record validates.
    pub fn validate(&self) -> (r: bool)
        ensures
            r == (self.hash.valid() && self.kind.valid()),
    {
        self.hash.validate() && self.kind.validate()
    }
}

impl Default for AnnotationList {
    /// An empty audit trail.
    fn default() -> (r: AnnotationList)
        ensures
            r.items@.len() == 0,
    {
        AnnotationList { items: Vec::new() }
    }
}

/// Every representable (algorithm, category) pair is drawn from the closed
/// taxonomy, so every representable annotation validates: the enums admit no
/// tag outside their sets.
pub proof fn lemma_taxonomy_validates(a: Annotation)
    ensures
        a.hash.valid() && a.kind.valid(),
{
}

/// A fixed sample record: a satisfied sha256 source annotation.
pub fn mock_annotation() -> (r: Annotation)
    ensures
        r@.id.len() == 26,
        r@.key == "The hash of the contents"@,
        r@.hash == HashType::Sha256,
        r@.host == "Host Device"@,
        r@.kind == AnnotationType::Source,
        r@.signature == Seq::<char>::empty(),
        r@.is_satisfied == true,
{
    let key = "The hash of the contents";
    let hash = HashType::Sha256;
    let host = "Host Device";
    let kind = AnnotationType::Source;
    let satisfied = true;
    Annotation::new(key, hash, host, kind, satisfied)
}

} // verus!
