//! The in-memory form of a request or response frame.
use vstd::prelude::*;
use vstd::slice::slice_to_vec;

use crate::codec::{encode_frame, fits_in_frame, frame_bytes};
use crate::error::ClientError;
use crate::ext_fields::ExtFields;

verus! {

/// The language of the SDK that produced a frame.
#[derive(Clone, Copy, Debug, PartialEq, Eq, Structural)]
pub enum Language {
    JAVA,
    CPP,
    RUST,
}

impl Default for Language {
    fn default() -> (r: Language)
        ensures
            r == Language::RUST,
    {
        Language::RUST
    }
}

impl Language {
    /// The name under which the language travels in a frame header.
    pub fn name(&self) -> (r: &'static str)
        ensures
            *self == Language::JAVA ==> r@ == "JAVA"@,
            *self == Language::CPP ==> r@ == "CPP"@,
            *self == Language::RUST ==> r@ == "RUST"@,
    {
        match self {
            Language::JAVA => "JAVA",
            Language::CPP => "CPP",
            Language::RUST => "RUST",
        }
    }
}

/// The operations that a frame can request.
#[derive(Clone, Copy, Debug, PartialEq, Eq, Structural)]
pub enum RequestCode {
    GetRouteInfoByTopic,
    SendMessage,
}

impl RequestCode {
    /// The operation code that goes on the wire.
    pub fn code(&self) -> (r: i32)
        ensures
            *self == RequestCode::GetRouteInfoByTopic ==> r == 105,
            *self == RequestCode::SendMessage ==> r == 10,
    {
        match self {
            RequestCode::GetRouteInfoByTopic => 105,
            RequestCode::SendMessage => 10,
        }
    }
}

/// Whether a frame is a request or a response.
#[derive(Clone, Copy, Debug, PartialEq, Eq, Structural)]
pub enum Type {
    Request,
    Response,
}

/// The classification that a flag field stands for: bit 0 marks a response.
pub open spec fn type_of_flag(flag: i32) -> Type {
    if flag & 1 == 1 {
        Type::Response
    } else {
        Type::Request
    }
}

/// The identifier that follows `v`; it wraps past the largest `i32`.
pub open spec fn next_opaque_value(v: i32) -> i32 {
    if v == i32::MAX {
        i32::MIN
    } else {
        (v + 1) as i32
    }
}

/// Hands out frame identifiers in increasing order, starting from 0.
pub struct OpaqueSequence {
    next: i32,
}

impl OpaqueSequence {
    /// The identifier that the next call hands out.
    pub closed spec fn upcoming(&self) -> i32 {
        self.next
    }

    /// A sequence whose first identifier is 0.
    pub fn new() -> (r: OpaqueSequence)
        ensures
            r.upcoming() == 0,
    {
        OpaqueSequence { next: 0 }
    }

    /// Returns a fresh identifier and advances the sequence.
    pub fn next_opaque(&mut self) -> (r: i32)
        ensures
            r == old(self).upcoming(),
            final(self).upcoming() == next_opaque_value(r),
    {
        let r = self.next;
        self.next = if r == i32::MAX {
            i32::MIN
        } else {
            r + 1
        };
        r
    }
}

/// Monotonicity: until the counter wraps, each identifier handed out is
/// strictly larger than the one before it, so successive frames built from one
/// sequence never share an identifier.
pub proof fn lemma_opaque_increasing(first: i32, n: nat)
    requires
        first as int + n < i32::MAX,
    ensures
        forall|i: nat, j: nat|
            i < j <= n ==> #[trigger] opaque_after(first, i) < #[trigger] opaque_after(first, j),
    decreases n,
{
    if n > 0 {
        lemma_opaque_increasing(first, (n - 1) as nat);
        lemma_opaque_after_value(first, n);
        assert forall|i: nat, j: nat| i < j <= n implies #[trigger] opaque_after(first, i)
            < #[trigger] opaque_after(first, j) by {
            lemma_opaque_after_value(first, i);
            lemma_opaque_after_value(first, j);
        }
    }
}

/// The identifier handed out by the call after `k` earlier calls on a
/// sequence that stood at `first`.
pub open spec fn opaque_after(first: i32, k: nat) -> i32
    decreases k,
{
    if k == 0 {
        first
    } else {
        next_opaque_value(opaque_after(first, (k - 1) as nat))
    }
}

proof fn lemma_opaque_after_value(first: i32, k: nat)
    requires
        first as int + k <= i32::MAX,
    ensures
        opaque_after(first, k) == first as int + k,
    decreases k,
{
    if k > 0 {
        lemma_opaque_after_value(first, (k - 1) as nat);
    }
}

/// Flag semantics: marking a frame as a response makes it read as one, and
/// marking it again changes nothing.
pub proof fn lemma_mark_response_idempotent(flag: i32)
    ensures
        type_of_flag(flag | 1) == Type::Response,
        (flag | 1) | 1 == flag | 1,
        type_of_flag(0) == Type::Request,
{
    assert((flag | 1) & 1 == 1) by (bit_vector);
    assert((flag | 1) | 1 == flag | 1) by (bit_vector);
    assert(0i32 & 1 == 0) by (bit_vector);
}

/// A request or response unit exchanged with a broker.
pub struct Frame {
    /// Operation code.
    pub code: i32,
    /// Language of the SDK that produced this frame.
    pub language: Language,
    /// Version of the SDK that produced this frame.
    pub version: i32,
    /// Frame identifier.
    pub opaque: i32,
    /// Bit flags; bit 0 marks a response.
    pub flag: i32,
    /// Human readable remark; may be empty.
    pub remark: String,
    /// Extension fields of the header.
    pub ext_fields: ExtFields,
    /// Raw body bytes, carried after the header.
    pub body: Vec<u8>,
}

impl Frame {
    /// A request frame with a fresh identifier from `seq` and every other
    /// field empty or zero.
    pub fn new(seq: &mut OpaqueSequence) -> (r: Frame)
        ensures
            r.opaque == old(seq).upcoming(),
            final(seq).upcoming() == next_opaque_value(r.opaque),
            r.code == 0,
            r.language == Language::RUST,
            r.version == 0,
            r.flag == 0,
            r.remark@.len() == 0,
            r.ext_fields.wf(),
            r.ext_fields@ == Map::<Seq<char>, Seq<char>>::empty(),
            r.body@.len() == 0,
    {
        Frame {
            code: 0,
            language: Language::default(),
            version: 0,
            opaque: seq.next_opaque(),
            flag: 0,
            remark: String::new(),
            ext_fields: ExtFields::new(),
            body: Vec::new(),
        }
    }

    /// Whether this frame is a request or a response, from bit 0 of the flag.
    pub fn frame_type(&self) -> (r: Type)
        ensures
            r == type_of_flag(self.flag),
    {
        if self.flag & 1 == 1 {
            return Type::Response;
        }
        Type::Request
    }

    /// Marks this frame as a response by setting bit 0 of the flag.
    pub fn mark_response_type(&mut self)
        ensures
            final(self).flag == old(self).flag | 1,
            type_of_flag(final(self).flag) == Type::Response,
            final(self).code == old(self).code,
            final(self).language == old(self).language,
            final(self).version == old(self).version,
            final(self).opaque == old(self).opaque,
            final(self).remark == old(self).remark,
            final(self).ext_fields == old(self).ext_fields,
            final(self).body == old(self).body,
    {
        self.flag = self.flag | 1;
        proof {
            lemma_mark_response_idempotent(old(self).flag);
        }
    }

    /// Sets one extension field.
    pub fn put_ext_field(&mut self, key: &str, value: &str)
        requires
            old(self).ext_fields.wf(),
        ensures
            final(self).ext_fields.wf(),
            final(self).ext_fields@ == old(self).ext_fields@.insert(key@, value@),
            final(self).code == old(self).code,
            final(self).language == old(self).language,
            final(self).version == old(self).version,
            final(self).opaque == old(self).opaque,
            final(self).flag == old(self).flag,
            final(self).remark == old(self).remark,
            final(self).body == old(self).body,
    {
        self.ext_fields.insert(key.to_owned(), value.to_owned());
    }

    /// Sets every field of `header`; a field already present takes the new value.
    pub fn add_ext_headers(&mut self, header: ExtFields)
        requires
            old(self).ext_fields.wf(),
            header.wf(),
        ensures
            final(self).ext_fields.wf(),
            final(self).ext_fields@ == old(self).ext_fields@.union_prefer_right(header@),
            final(self).code == old(self).code,
            final(self).language == old(self).language,
            final(self).version == old(self).version,
            final(self).opaque == old(self).opaque,
            final(self).flag == old(self).flag,
            final(self).remark == old(self).remark,
            final(self).body == old(self).body,
    {
        self.ext_fields.extend(&header);
    }

    /// The remark.
    pub fn remark(&self) -> (r: &str)
        ensures
            r@ == self.remark@,
    {
        self.remark.as_str()
    }

    /// A copy of the body.
    pub fn body(&self) -> (r: Vec<u8>)
        ensures
            r@ == self.body@,
    {
        slice_to_vec(self.body.as_slice())
    }

    /// The wire bytes of this frame, given the encoded header fields: the
    /// body is appended verbatim after `header`.
    pub fn encode(&self, header: &[u8]) -> (r: Result<Vec<u8>, ClientError>)
        ensures
            fits_in_frame(header@, self.body@) <==> r is Ok,
            r matches Ok(v) ==> v@ == frame_bytes(header@, self.body@),
            r matches Err(e) ==> e is InvalidFrame,
    {
        encode_frame(header, self.body.as_slice())
    }
}

} // verus!
