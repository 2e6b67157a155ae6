use annotator::constants::{AnnotationType, HashType, KeyAlgorithm, SdkAction, StreamType};
use annotator::AnnotatorError;

#[test]
fn every_tag_validates() {
    assert!(HashType::Md5.validate());
    assert!(HashType::Sha256.validate());
    assert!(HashType::NoHash.validate());
    assert!(KeyAlgorithm::Ed25519.validate());
    assert!(StreamType::Iota.validate());
    assert!(StreamType::Mock.validate());
    assert!(StreamType::Mqtt.validate());
    assert!(StreamType::Pravega.validate());
    assert!(AnnotationType::Pki.validate());
    assert!(AnnotationType::Source.validate());
    assert!(AnnotationType::Tls.validate());
    assert!(AnnotationType::Tpm.validate());
    assert!(SdkAction::Create.validate());
    assert!(SdkAction::Mutate.validate());
    assert!(SdkAction::Transit.validate());
    assert!(SdkAction::Publish.validate());
}

#[test]
fn try_from_accepts_exactly_the_four_category_tags() {
    assert_eq!(AnnotationType::try_from("source"), Ok(AnnotationType::Source));
    assert_eq!(AnnotationType::try_from("pki"), Ok(AnnotationType::Pki));
    assert_eq!(AnnotationType::try_from("tls"), Ok(AnnotationType::Tls));
    assert_eq!(AnnotationType::try_from("tpm"), Ok(AnnotationType::Tpm));
    assert_eq!(
        AnnotationType::try_from("bogus"),
        Err(AnnotatorError::UnknownAnnotation)
    );
}

#[test]
fn try_from_is_case_sensitive_and_does_not_trim() {
    assert_eq!(
        AnnotationType::try_from("Source"),
        Err(AnnotatorError::UnknownAnnotation)
    );
    assert_eq!(
        AnnotationType::try_from(" source"),
        Err(AnnotatorError::UnknownAnnotation)
    );
    assert_eq!(
        AnnotationType::try_from("source "),
        Err(AnnotatorError::UnknownAnnotation)
    );
    assert_eq!(
        AnnotationType::try_from(""),
        Err(AnnotatorError::UnknownAnnotation)
    );
}

#[test]
fn kind_returns_the_bare_tag() {
    assert_eq!(AnnotationType::Pki.kind(), "pki");
    assert_eq!(AnnotationType::Source.kind(), "source");
    assert_eq!(AnnotationType::Tls.kind(), "tls");
    assert_eq!(AnnotationType::Tpm.kind(), "tpm");
}
