use base64::Engine;
use vstd::prelude::*;

use crate::da::celestia::{namespace_outcome, Namespace};
use crate::da::eip4844::blob_tx_outcome;

pub mod celestia;
pub mod eip4844;

verus! {

/// Why an encoded payload envelope could not be read.
#[derive(Clone, Copy, Debug, PartialEq, Eq)]
pub enum DecodeError {
    /// The text is not standard base64.
    Base64,
    /// The bytes are not the canonical encoding of a `BlobData`.
    Envelope,
}

/// Why a submission was refused before anything was sent.
#[derive(Clone, Copy, Debug, PartialEq, Eq)]
pub enum DaError {
    /// The namespace backend was given a payload without a namespace.
    MissingNamespace,
    /// The commitment handed in differs from the one derived from the payload.
    CommitmentMismatch,
    /// The backend could not derive a commitment from the payload.
    CommitmentUnavailable,
    /// A confirmed block lacks a field the receipt needs, or its fields
    /// contradict each other.
    InconsistentBlock,
}

/// The bytes held by an optional byte vector.
pub open spec fn opt_bytes(o: Option<Vec<u8>>) -> Option<Seq<u8>> {
    match o {
        Some(v) => Some(v@),
        None => None,
    }
}

/// The commitment gate: a submission may go ahead only when the commitment
/// handed in equals, byte for byte, the one derived from the payload.
pub open spec fn gate(provided: Seq<u8>, derived: Seq<u8>) -> Result<(), DaError> {
    if provided == derived {
        Ok(())
    } else {
        Err(DaError::CommitmentMismatch)
    }
}

/// Checks a commitment handed in against the one derived from the payload.
pub fn verify_commitment(provided: &[u8], derived: &[u8]) -> (r: Result<(), DaError>)
    ensures
        r == gate(provided@, derived@),
{
    if provided.len() != derived.len() {
        return Err(DaError::CommitmentMismatch);
    }
    let mut i: usize = 0;
    while i < provided.len()
        invariant
            i <= provided@.len() == derived@.len(),
            provided@.take(i as int) == derived@.take(i as int),
        decreases provided@.len() - i,
    {
        if provided[i] != derived[i] {
            return Err(DaError::CommitmentMismatch);
        }
        assert(provided@.take(i + 1) =~= provided@.take(i as int).push(provided@[i as int]));
        assert(derived@.take(i + 1) =~= derived@.take(i as int).push(derived@[i as int]));
        i += 1;
    }
    assert(provided@ =~= provided@.take(i as int));
    assert(derived@ =~= derived@.take(i as int));
    Ok(())
}

/// The payload to publish, with the namespace the namespace backend needs.
#[derive(Debug, PartialEq, Eq)]
pub struct BlobData {
    pub namespace: Option<Namespace>,
    pub data: Vec<u8>,
}

impl View for BlobData {
    type V = (Option<Seq<u8>>, Seq<u8>);

    open spec fn view(&self) -> (Option<Seq<u8>>, Seq<u8>) {
        (
            match self.namespace {
                Some(n) => Some(n.0@),
                None => None,
            },
            self.data@,
        )
    }
}

/// Appends `src[from..to]` to `out`.
pub(crate) fn push_range(out: &mut Vec<u8>, src: &[u8], from: usize, to: usize)
    requires
        from <= to <= src@.len(),
    ensures
        final(out)@ == old(out)@ + src@.subrange(from as int, to as int),
{
    let mut i = from;
    while i < to
        invariant
            from <= i <= to <= src@.len(),
            out@ == old(out)@ + src@.subrange(from as int, i as int),
        decreases to - i,
    {
        out.push(src[i]);
        proof {
            assert(src@.subrange(from as int, i + 1) =~= src@.subrange(from as int, i as int).push(
                src@[i as int],
            ));
        }
        i += 1;
    }
}

/// Little-endian bytes of a 32-bit length.
pub open spec fn le_u32(n: u32) -> Seq<u8> {
    seq![
        (n & 0xff) as u8,
        ((n >> 8u32) & 0xff) as u8,
        ((n >> 16u32) & 0xff) as u8,
        ((n >> 24u32) & 0xff) as u8,
    ]
}

/// The 32-bit length held by four little-endian bytes.
pub open spec fn le_value(s: Seq<u8>) -> u32 {
    (s[0] as u32) | ((s[1] as u32) << 8u32) | ((s[2] as u32) << 16u32) | ((s[3] as u32) << 24u32)
}

/// Canonical binary encoding of a payload: an option tag (0 or 1), the
/// namespace bytes when present, the data length as four little-endian bytes,
/// then the data.
pub open spec fn envelope(v: (Option<Seq<u8>>, Seq<u8>)) -> Seq<u8> {
    let head = match v.0 {
        None => seq![0u8],
        Some(n) => seq![1u8] + n,
    };
    head + le_u32(v.1.len() as u32) + v.1
}

/// Reads the length-prefixed data that must fill the rest of the bytes.
pub open spec fn parse_body(ns: Option<Seq<u8>>, rest: Seq<u8>) -> Option<(Option<Seq<u8>>, Seq<u8>)> {
    if rest.len() >= 4 && rest.len() - 4 == le_value(rest.take(4)) as int {
        Some((ns, rest.skip(4)))
    } else {
        None
    }
}

/// Reads a canonical payload encoding; `None` unless all of `b` is one.
pub open spec fn parse_envelope(b: Seq<u8>) -> Option<(Option<Seq<u8>>, Seq<u8>)> {
    if b.len() >= 1 && b[0] == 0u8 {
        parse_body(None, b.skip(1))
    } else if b.len() >= 30 && b[0] == 1u8 {
        parse_body(Some(b.subrange(1, 30)), b.skip(30))
    } else {
        None
    }
}

/// A well-formed payload value: a namespace, when present, is 29 bytes, and
/// the data length fits the 32-bit length prefix.
pub open spec fn envelope_value(v: (Option<Seq<u8>>, Seq<u8>)) -> bool {
    &&& (v.0 is Some ==> v.0->0.len() == 29)
    &&& v.1.len() <= u32::MAX
}

/// The bytes that standard base64 decoding gives for a text, or `None` when
/// the text is not valid standard base64.
pub uninterp spec fn base64_decoded(s: Seq<char>) -> Option<Seq<u8>>;

/// Relies on base64's `STANDARD` engine `decode`, a function of the text
/// alone: the decoded bytes, or an error for text that is not valid base64.
#[verifier::external_body]
fn base64_decode(s: &str) -> (r: Option<Vec<u8>>)
    ensures
        match r {
            Some(b) => base64_decoded(s@) == Some(b@),
            None => base64_decoded(s@) is None,
        },
{
    base64::engine::general_purpose::STANDARD.decode(s).ok()
}


proof fn lemma_le_u32_value(n: u32)
    ensures
        le_value(le_u32(n)) == n,
{
    assert(((((n & 0xff) as u8) as u32) | (((((n >> 8u32) & 0xff) as u8) as u32) << 8u32) | (
    ((((n >> 16u32) & 0xff) as u8) as u32) << 16u32) | (((((n >> 24u32) & 0xff) as u8) as u32)
        << 24u32)) == n) by (bit_vector);
}

proof fn lemma_le_value_u32(s: Seq<u8>)
    requires
        s.len() == 4,
    ensures
        le_u32(le_value(s)) == s,
{
    let (a, b, c, d) = (s[0], s[1], s[2], s[3]);
    let v = le_value(s);
    assert(v == (a as u32) | ((b as u32) << 8u32) | ((c as u32) << 16u32) | ((d as u32) << 24u32));
    assert(((v & 0xff) as u8) == a && (((v >> 8u32) & 0xff) as u8) == b && (((v >> 16u32) & 0xff)
        as u8) == c && (((v >> 24u32) & 0xff) as u8) == d) by (bit_vector)
        requires
            v == (a as u32) | ((b as u32) << 8u32) | ((c as u32) << 16u32) | ((d as u32)
                << 24u32),
    ;
    assert(le_u32(v) =~= s);
}

/// Decoding the canonical encoding of a well-formed payload value gives the
/// value back.
pub proof fn lemma_envelope_round_trip(v: (Option<Seq<u8>>, Seq<u8>))
    requires
        envelope_value(v),
    ensures
        parse_envelope(envelope(v)) == Some(v),
{
    let b = envelope(v);
    lemma_le_u32_value(v.1.len() as u32);
    match v.0 {
        None => {
            assert(b.skip(1) =~= le_u32(v.1.len() as u32) + v.1);
            assert(b.skip(1).take(4) =~= le_u32(v.1.len() as u32));
            assert(b.skip(1).skip(4) =~= v.1);
        },
        Some(n) => {
            assert(b.subrange(1, 30) =~= n);
            assert(b.skip(30) =~= le_u32(v.1.len() as u32) + v.1);
            assert(b.skip(30).take(4) =~= le_u32(v.1.len() as u32));
            assert(b.skip(30).skip(4) =~= v.1);
        },
    }
}

/// The encoding is canonical: bytes that decode to a value are exactly that
/// value's encoding.
pub proof fn lemma_envelope_canonical(b: Seq<u8>)
    requires
        parse_envelope(b) is Some,
    ensures
        envelope_value(parse_envelope(b)->0),
        envelope(parse_envelope(b)->0) == b,
{
    let v = parse_envelope(b)->0;
    let off: int = if b[0] == 0u8 { 1 } else { 30 };
    let rest = b.skip(off);
    lemma_le_value_u32(rest.take(4));
    assert(rest.take(4) + rest.skip(4) =~= rest);
    if b[0] == 0u8 {
        assert(seq![0u8] + rest =~= b);
    } else {
        assert(seq![1u8] + b.subrange(1, 30) + rest =~= b);
    }
    assert(envelope(v) =~= b);
}

impl BlobData {
    /// The canonical binary encoding of this payload.
    pub fn to_bytes(&self) -> (r: Vec<u8>)
        requires
            self.data@.len() <= u32::MAX,
        ensures
            r@ == envelope(self@),
    {
        let mut out: Vec<u8> = Vec::new();
        match &self.namespace {
            None => {
                out.push(0);
            },
            Some(ns) => {
                out.push(1);
                let mut i: usize = 0;
                while i < 29
                    invariant
                        i <= 29,
                        out@ == seq![1u8] + ns.0@.take(i as int),
                    decreases 29 - i,
                {
                    out.push(ns.0[i]);
                    assert(ns.0@.take(i + 1) =~= ns.0@.take(i as int).push(ns.0@[i as int]));
                    i += 1;
                }
                assert(ns.0@.take(29) =~= ns.0@);
            },
        }
        let n = self.data.len() as u32;
        out.push((n & 0xff) as u8);
        out.push(((n >> 8) & 0xff) as u8);
        out.push(((n >> 16) & 0xff) as u8);
        out.push(((n >> 24) & 0xff) as u8);
        let ghost head = out@;
        let mut i: usize = 0;
        while i < self.data.len()
            invariant
                i <= self.data@.len(),
                out@ == head + self.data@.take(i as int),
            decreases self.data@.len() - i,
        {
            out.push(self.data[i]);
            assert(self.data@.take(i + 1) =~= self.data@.take(i as int).push(self.data@[i as int]));
            i += 1;
        }
        assert(self.data@.take(self.data@.len() as int) =~= self.data@);
        assert(out@ =~= envelope(self@));
        out
    }

    /// Reads a payload from its canonical binary encoding, which must fill all
    /// of `b`.
    pub fn from_bytes(b: &[u8]) -> (r: Result<BlobData, DecodeError>)
        ensures
            match r {
                Ok(x) => parse_envelope(b@) == Some(x@),
                Err(e) => e == DecodeError::Envelope && parse_envelope(b@) is None,
            },
    {
        let len = b.len();
        let namespace: Option<Namespace>;
        let off: usize;
        if len >= 1 && b[0] == 0 {
            namespace = None;
            off = 1;
        } else if len >= 30 && b[0] == 1 {
            let mut ns = [0u8; 29];
            let mut i: usize = 0;
            while i < 29
                invariant
                    i <= 29,
                    len == b@.len() >= 30,
                    forall|j: int| 0 <= j < i ==> ns@[j] == b@[j + 1],
                decreases 29 - i,
            {
                ns[i] = b[i + 1];
                i += 1;
            }
            assert(ns@ =~= b@.subrange(1, 30));
            namespace = Some(Namespace(ns));
            off = 30;
        } else {
            return Err(DecodeError::Envelope);
        }
        let ghost rest = b@.skip(off as int);
        if len - off < 4 {
            return Err(DecodeError::Envelope);
        }
        let n = (b[off] as u32) | ((b[off + 1] as u32) << 8) | ((b[off + 2] as u32) << 16) | ((
        b[off + 3] as u32) << 24);
        assert(rest.take(4) =~= seq![b@[off as int], b@[off + 1], b@[off + 2], b@[off + 3]]);
        if (len - off - 4) as u64 != n as u64 {
            return Err(DecodeError::Envelope);
        }
        let mut data: Vec<u8> = Vec::new();
        push_range(&mut data, b, off + 4, len);
        assert(rest.skip(4) =~= data@);
        Ok(BlobData { namespace, data })
    }

    /// Reads a payload from the standard base64 text of its canonical
    /// encoding.
    pub fn from_str(s: &str) -> (r: Result<BlobData, DecodeError>)
        ensures
            match base64_decoded(s@) {
                None => r == Err::<BlobData, DecodeError>(DecodeError::Base64),
                Some(b) => match r {
                    Ok(x) => parse_envelope(b) == Some(x@),
                    Err(e) => e == DecodeError::Envelope && parse_envelope(b) is None,
                },
            },
    {
        match base64_decode(s) {
            None => Err(DecodeError::Base64),
            Some(bytes) => BlobData::from_bytes(&bytes),
        }
    }
}


/// The commitment gate holds on both backends: a commitment handed in that
/// differs from the derived one ends the submission with `CommitmentMismatch`,
/// so nothing is handed on to be sent.
pub proof fn lemma_commitment_gate(
    provided: Seq<u8>,
    derived: Seq<u8>,
    v: (Option<Seq<u8>>, Seq<u8>),
)
    requires
        provided != derived,
    ensures
        blob_tx_outcome(provided, v.1, derived) == Err::<(Seq<u8>, Seq<u8>), DaError>(
            DaError::CommitmentMismatch,
        ),
        v.0 is Some ==> namespace_outcome(provided, v, Some(derived)) == Err::<
            (Seq<u8>, Seq<u8>, Seq<u8>),
            DaError,
        >(DaError::CommitmentMismatch),
{
}

/// The blob-transaction backend accepts a payload without a namespace; the
/// namespace backend refuses it with `MissingNamespace`, whatever the
/// commitments.
pub proof fn lemma_namespace_requirement(
    provided: Seq<u8>,
    data: Seq<u8>,
    derived: Option<Seq<u8>>,
)
    ensures
        namespace_outcome(provided, (None, data), derived) == Err::<
            (Seq<u8>, Seq<u8>, Seq<u8>),
            DaError,
        >(DaError::MissingNamespace),
        blob_tx_outcome(provided, data, provided) is Ok,
{
}

} // verus!
