use annotator::constants::{SdkAction, StreamType};
use annotator::{
    derive_hash, mock_annotation, serialise_and_sign, serialize_annotation,
    serialize_message_wrapper, HashProvider, MessageWrapper, Publisher, SignProvider,
    StreamConfigWrapper,
};

struct MockHashProvider {}

impl HashProvider for MockHashProvider {
    fn derive(&self, _data: &[u8]) -> String {
        "Derived".to_string()
    }
}

#[test]
fn test_mock_derive() {
    let hash_provider = MockHashProvider {};
    let derived = hash_provider.derive("data".as_bytes());
    assert_eq!("Derived", derived)
}

#[test]
fn test_derive_hash_delegates() {
    let derived = derive_hash(MockHashProvider {}, "data".as_bytes());
    assert_eq!("Derived", derived)
}

struct MockSignProvider {
    pub public: String,
    pub private: String,
}

impl SignProvider for MockSignProvider {
    type Error = String;

    fn sign(&self, key: &[u8], _content: &[u8]) -> Result<String, String> {
        match key == "A known and correct key".as_bytes() && self.private.as_bytes() == key {
            true => Ok("Signed".to_string()),
            false => Err("provider failed to sign".to_string()),
        }
    }

    fn verify(&self, key: &[u8], _content: &[u8], _signed: &[u8]) -> Result<bool, String> {
        match key == "A known and correct key".as_bytes() && self.public.as_bytes() == key {
            true => Ok(true),
            false => Err("provider failed to verify".to_string()),
        }
    }
}

#[test]
fn mock_sign_provider() {
    let correct_key = "A known and correct key".to_string();
    let unknown_key = "An unknown key".to_string();

    let mock_provider = MockSignProvider {
        private: correct_key.clone(),
        public: correct_key.clone(),
    };

    let bad_mock_provider = MockSignProvider {
        private: unknown_key.clone(),
        public: unknown_key.clone(),
    };

    let annotation = mock_annotation();

    let failed_signature =
        serialise_and_sign(&bad_mock_provider, unknown_key.as_bytes(), &annotation);
    assert!(failed_signature.is_err());
    let signature = serialise_and_sign(&mock_provider, correct_key.as_bytes(), &annotation);
    assert!(signature.is_ok());

    let ann_bytes = serialize_annotation(&annotation).into_bytes();
    let failed_verify =
        bad_mock_provider.verify(unknown_key.as_bytes(), "Content".as_bytes(), &ann_bytes);
    assert!(failed_verify.is_err());
    let verified = mock_provider.verify(correct_key.as_bytes(), "Content".as_bytes(), &ann_bytes);
    assert!(verified.is_ok())
}

#[test]
fn sign_provider_succeeds_only_for_known_key() {
    let provider = MockSignProvider {
        private: "A known and correct key".to_string(),
        public: "A known and correct key".to_string(),
    };
    let annotation = mock_annotation();
    let good = serialise_and_sign(&provider, "A known and correct key".as_bytes(), &annotation);
    assert!(!good.unwrap().is_empty());
    let bad = serialise_and_sign(&provider, "Some other key".as_bytes(), &annotation);
    assert!(bad.is_err());
}

struct MockConfig {}

impl StreamConfigWrapper for MockConfig {
    fn stream_type(&self) -> StreamType {
        StreamType::Mock
    }
}

struct MockPublisher {
    connected: bool,
    closed: bool,
    published: Vec<MessageWrapper>,
}

impl Publisher for MockPublisher {
    type StreamConfig = MockConfig;

    fn new(cfg: &MockConfig) -> Result<Self, String> {
        if cfg.stream_type().validate() {
            Ok(MockPublisher { connected: false, closed: false, published: Vec::new() })
        } else {
            Err("unsupported backend".to_string())
        }
    }

    fn close(&mut self) -> Result<(), String> {
        self.connected = false;
        self.closed = true;
        Ok(())
    }

    fn connect(&mut self) -> Result<(), String> {
        self.connected = true;
        Ok(())
    }

    fn reconnect(&mut self) -> Result<(), String> {
        self.connected = true;
        Ok(())
    }

    fn publish(&mut self, msg: MessageWrapper) -> Result<(), String> {
        if self.connected {
            self.published.push(msg);
            Ok(())
        } else {
            Err("not connected".to_string())
        }
    }
}

#[test]
fn publisher_lifecycle_against_mock_backend() {
    let cfg = MockConfig {};
    let msg = MessageWrapper {
        action: SdkAction::Create,
        message_type: "annotation".to_string(),
        content: "payload".to_string(),
    };
    let mut publisher = MockPublisher::new(&cfg).unwrap();
    assert!(publisher.connect().is_ok());
    assert!(publisher.publish(msg.clone()).is_ok());
    assert!(publisher.close().is_ok());
    assert_eq!(publisher.published.len(), 1);
    assert_eq!(publisher.published[0], msg);
    assert!(publisher.closed);
}

#[test]
fn message_wrapper_exact_encoding() {
    let msg = MessageWrapper {
        action: SdkAction::Publish,
        message_type: "annotations".to_string(),
        content: "some content".to_string(),
    };
    let encoded = serialize_message_wrapper(&msg);
    assert_eq!(
        encoded,
        "{\"action\":\"publish\",\"messageType\":\"annotations\",\"content\":\"some content\"}"
    );
}
