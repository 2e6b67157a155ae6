use annotator::constants::{AnnotationType, HashType};
use annotator::{mock_annotation, Annotation, AnnotationList};

#[test]
fn validate_holds_for_every_taxonomy_pair() {
    let hashes = [HashType::Md5, HashType::Sha256, HashType::NoHash];
    let kinds = [
        AnnotationType::Pki,
        AnnotationType::Source,
        AnnotationType::Tls,
        AnnotationType::Tpm,
    ];
    for hash in hashes {
        for kind in kinds {
            let a = Annotation::new("key", hash, "host", kind, true);
            assert!(a.validate());
        }
    }
}

#[test]
fn fresh_ids_are_distinct_for_identical_arguments() {
    let a1 = Annotation::new("key", HashType::Sha256, "host", AnnotationType::Source, false);
    let a2 = Annotation::new("key", HashType::Sha256, "host", AnnotationType::Source, false);
    assert_ne!(a1.id, a2.id);
    assert!(a1.validate());
    assert!(a2.validate());
}

#[test]
fn new_fills_fields_and_leaves_signature_empty() {
    let a = Annotation::new("the key", HashType::Md5, "a host", AnnotationType::Tls, false);
    assert_eq!(a.key, "the key");
    assert_eq!(a.hash, HashType::Md5);
    assert_eq!(a.host, "a host");
    assert_eq!(a.kind, AnnotationType::Tls);
    assert_eq!(a.signature, "");
    assert!(!a.is_satisfied);
    assert_eq!(a.id.len(), 26);
}

#[test]
fn with_signature_overwrites_only_the_signature() {
    let mut a = mock_annotation();
    let before = a.clone();
    a.with_signature("a signature");
    assert_eq!(a.signature, "a signature");
    assert_eq!(a.id, before.id);
    assert_eq!(a.key, before.key);
    assert_eq!(a.hash, before.hash);
    assert_eq!(a.host, before.host);
    assert_eq!(a.kind, before.kind);
    assert_eq!(a.is_satisfied, before.is_satisfied);
    assert_eq!(a.timestamp, before.timestamp);
    a.with_signature("another signature");
    assert_eq!(a.signature, "another signature");
}

#[test]
fn mock_annotation_is_a_satisfied_sha256_source_record() {
    let a = mock_annotation();
    assert_eq!(a.key, "The hash of the contents");
    assert_eq!(a.hash, HashType::Sha256);
    assert_eq!(a.host, "Host Device");
    assert_eq!(a.kind, AnnotationType::Source);
    assert!(a.is_satisfied);
    assert!(a.validate());
}

#[test]
fn annotation_list_default_is_empty() {
    let list = AnnotationList::default();
    assert!(list.items.is_empty());
}

#[test]
fn annotation_list_keeps_insertion_order_and_duplicates() {
    let a = mock_annotation();
    let b = mock_annotation();
    let list = AnnotationList { items: vec![a.clone(), b.clone(), a.clone()] };
    assert_eq!(list.items.len(), 3);
    assert_eq!(list.items[0], a);
    assert_eq!(list.items[1], b);
    assert_eq!(list.items[2], a);
}
