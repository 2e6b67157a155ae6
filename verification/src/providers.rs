//! The provider contracts: hashing, signing and publishing capabilities
//! supplied by backends outside this layer, and the free functions that
//! compose them.
use vstd::prelude::*;
use vstd::string::StringExecFns;

use crate::annotations::Annotation;
use crate::codec::{append_escaped, escape, lit_end, quote, serialize_annotation,
    spec_serialize_annotation};
use crate::constants::SdkAction;
use crate::StreamConfigWrapper;

verus! {

/// Capability to derive a digest from raw bytes. What the digest is belongs
/// to the backend; this layer only carries it.
pub trait HashProvider {
    fn derive(&self, data: &[u8]) -> String;
}

/// Derives a digest through any conforming provider; pure delegation, kept so
/// call sites can stay polymorphic over the capability. The result is exactly
/// what the provider's own `derive` returns for these arguments, so a caller
/// holding a provider with a contracted `derive` can reason about it.
pub fn derive_hash<H: HashProvider>(hash_type: H, data: &[u8]) -> (r: String)
    ensures
        call_ensures(H::derive, (&hash_type, data), r),
{
    hash_type.derive(data)
}

/// Capability to sign and verify serialized annotations. Key material is a
/// per-call parameter, never provider state, so one provider can sign under
/// several identities. Failures are backend-defined and opaque here.
pub trait SignProvider {
    type Error;

    fn sign(&self, key: &[u8], content: &[u8]) -> Result<String, Self::Error>;

    fn verify(&self, key: &[u8], content: &[u8], signed: &[u8]) -> Result<bool, Self::Error>;
}

/// Serializes the annotation canonically and hands the encoded bytes to the
/// provider's `sign` under the given key. The provider's verdict is returned
/// unaltered: this layer neither retries a failure nor manufactures a
/// signature, and it does not attach the result to the annotation. The
/// encoding itself is total and verified (`serialize_annotation`), so the
/// only possible failures are the provider's own. The contract pins both
/// halves: the bytes handed to `sign` are the canonical encoding of the
/// annotation, and the result is exactly `sign`'s verdict on them.
pub fn serialise_and_sign<P: SignProvider>(provider: &P, key: &[u8], annotation: &Annotation) -> (r:
    Result<String, P::Error>)
    ensures
        exists|bytes: &[u8]|
            #[trigger] call_ensures(P::sign, (provider, key, bytes), r) && bytes@
                == vstd::utf8::encode_utf8(spec_serialize_annotation(annotation@)),
{
    let serialised = serialize_annotation(annotation);
    let bytes = serialised.as_str().as_bytes();
    let result = provider.sign(key, bytes);
    proof {
        assert(call_ensures(P::sign, (provider, key, bytes), result) && bytes@
            == vstd::utf8::encode_utf8(spec_serialize_annotation(annotation@)));
    }
    result
}

/// The publish envelope: an action tag, a free-form type discriminator and an
/// opaque serialized payload.
#[derive(Clone, PartialEq, Eq, Debug)]
pub struct MessageWrapper {
    pub action: SdkAction,
    pub message_type: String,
    pub content: String,
}

/// Mathematical model of a publish envelope.
#[verifier::ext_equal]
pub ghost struct MessageModel {
    pub action: SdkAction,
    pub message_type: Seq<char>,
    pub content: Seq<char>,
}

impl View for MessageWrapper {
    type V = MessageModel;

    open spec fn view(&self) -> MessageModel {
        MessageModel {
            action: self.action,
            message_type: self.message_type@,
            content: self.content@,
        }
    }
}

/// Opens the envelope and the quoted `action` tag.
pub open spec fn lit_action() -> Seq<char> {
    "{\"action\":\""@
}

/// Separates the action tag from the quoted `messageType` value; the
/// external field name is exactly `messageType`.
pub open spec fn lit_msg_type() -> Seq<char> {
    ",\"messageType\":\""@
}

/// Separates the `messageType` value from the quoted `content` value.
pub open spec fn lit_content() -> Seq<char> {
    ",\"content\":\""@
}

/// The canonical encoding of a publish envelope: the fields `action,
/// messageType, content` in that order, the action written as its bare tag
/// string, free text escaped.
pub open spec fn spec_serialize_message(m: MessageModel) -> Seq<char> {
    lit_action() + escape(m.action.tag()) + quote() + lit_msg_type() + escape(m.message_type)
        + quote() + lit_content() + escape(m.content) + quote() + lit_end()
}

/// Writes the canonical encoding of `w`.
pub fn serialize_message_wrapper(w: &MessageWrapper) -> (r: String)
    ensures
        r@ == spec_serialize_message(w@),
{
    proof {
        reveal_strlit("\"");
    }
    let mut out = String::new();
    out.append("{\"action\":\"");
    append_escaped(&mut out, w.action.tag_text());
    out.append("\"");
    out.append(",\"messageType\":\"");
    append_escaped(&mut out, w.message_type.as_str());
    out.append("\"");
    out.append(",\"content\":\"");
    append_escaped(&mut out, w.content.as_str());
    out.append("\"");
    out.append("}");
    proof {
        assert(out@ =~= spec_serialize_message(w@));
    }
    out
}

/// Asynchronous-in-spirit lifecycle capability over a stream configuration:
/// construct, connect, publish, reconnect, close, in that contractual order.
/// Implementations that suspend on network I/O wrap these blocking calls in
/// their own runtime outside this layer.
pub trait Publisher: Sized {
    type StreamConfig: StreamConfigWrapper;

    fn new(cfg: &Self::StreamConfig) -> Result<Self, String>;

    fn close(&mut self) -> Result<(), String>;

    fn connect(&mut self) -> Result<(), String>;

    fn reconnect(&mut self) -> Result<(), String>;

    fn publish(&mut self, msg: MessageWrapper) -> Result<(), String>;
}

} // verus!
