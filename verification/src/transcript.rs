//! The domain-separated transcript behind every non-interactive proof.
//!
//! The ghost model of a transcript is the sequence of labeled items it has
//! absorbed.  The challenge a transcript emits is a function of that history
//! and of the challenge label alone, named by [`challenge_val`]: two
//! transcripts that absorbed the same labeled inputs emit the same challenge.

use vstd::prelude::*;

use crate::errors::MercatError;
use crate::group::{point_identity, GroupScalar, Point};

verus! {

/// One absorbed item of a transcript's history.
pub enum TrEntry {
    /// A domain-separation label.
    Domain { name: Seq<char> },
    /// A labeled byte string, for points and other encodings.
    Msg { label: Seq<char>, data: Seq<u8> },
    /// A labeled 32-bit integer.
    Num { label: Seq<char>, value: u32 },
    /// A mark that a challenge was emitted under this label.
    Challenge { label: Seq<char> },
}

/// A transcript and the history it has absorbed.
pub struct ProofTranscript {
    inner: merlin::Transcript,
    history: Ghost<Seq<TrEntry>>,
}

/// The value of the challenge scalar a transcript with the given history
/// emits under the given label.
pub uninterp spec fn challenge_val(history: Seq<TrEntry>, label: Seq<char>) -> int;

impl ProofTranscript {
    /// The absorbed history.
    pub closed spec fn entries(self) -> Seq<TrEntry> {
        self.history@
    }
}

/// Relies on `merlin::Transcript::new` and `append_message`: a fresh inner
/// transcript separated under the given domain.
#[verifier::external_body]
fn merlin_transcript_new(domain: &str) -> merlin::Transcript {
    let mut inner = merlin::Transcript::new(b"mercat-core");
    inner.append_message(b"dom-sep", domain.as_bytes());
    inner
}

/// A fresh transcript separated under the given domain.
pub fn transcript_new(domain: &str) -> (t: ProofTranscript)
    ensures
        t.entries() == seq![TrEntry::Domain { name: domain@ }],
{
    let ghost h: Seq<TrEntry> = seq![TrEntry::Domain { name: domain@ }];
    ProofTranscript { inner: merlin_transcript_new(domain), history: Ghost(h) }
}

/// Relies on `merlin::Transcript::append_message`: absorbs one more
/// domain-separation label.
#[verifier::external_body]
pub fn append_domain(t: &mut ProofTranscript, domain: &str)
    ensures
        final(t).entries() == old(t).entries().push(TrEntry::Domain { name: domain@ }),
{
    t.inner.append_message(b"dom-sep", domain.as_bytes());
}

/// Relies on `merlin::Transcript::append_message`: absorbs a label and a
/// 32-byte encoding.
#[verifier::external_body]
pub fn append_bytes32(t: &mut ProofTranscript, label: &str, data: &[u8; 32])
    ensures
        final(t).entries() == old(t).entries().push(
            TrEntry::Msg { label: label@, data: data@ },
        ),
{
    t.inner.append_message(b"item-label", label.as_bytes());
    t.inner.append_message(b"item", data);
}

/// Relies on `merlin::Transcript::append_message`: absorbs a label and a
/// 32-bit integer in little-endian form.
#[verifier::external_body]
pub fn append_u32(t: &mut ProofTranscript, label: &str, value: u32)
    ensures
        final(t).entries() == old(t).entries().push(
            TrEntry::Num { label: label@, value },
        ),
{
    t.inner.append_message(b"item-label", label.as_bytes());
    t.inner.append_message(b"item-u32", &value.to_le_bytes());
}

/// Relies on `merlin::Transcript::challenge_bytes` and scalar reduction of a
/// 64-byte string: the challenge is a function of the absorbed history and
/// the label alone.
#[verifier::external_body]
pub fn challenge_scalar(t: &mut ProofTranscript, label: &str) -> (r: GroupScalar)
    ensures
        final(t).entries() == old(t).entries().push(TrEntry::Challenge { label: label@ }),
        r.val() == challenge_val(old(t).entries(), label@),
{
    let mut buf = [0u8; 64];
    t.inner.append_message(b"challenge-label", label.as_bytes());
    t.inner.challenge_bytes(b"challenge", &mut buf);
    let sc = curve25519_dalek::scalar::Scalar::from_bytes_mod_order_wide(&buf);
    GroupScalar { bytes: sc.to_bytes(), sc }
}

/// Relies on merlin's transcript RNG: randomness for the prover's
/// commitments, bound to the transcript state, the witness bytes and the
/// external generator, so that a weak external generator alone cannot expose
/// the witness.
#[verifier::external_body]
pub fn transcript_rng(
    t: &ProofTranscript,
    rng: &mut rand::rngs::StdRng,
    witness: &GroupScalar,
) -> merlin::TranscriptRng {
    t.inner.build_rng().rekey_with_witness_bytes(b"witness", &witness.bytes).finalize(rng)
}

/// Absorb a point after checking it is not the identity element; canonicity
/// itself is already guaranteed by the type.
pub fn append_validated_point(t: &mut ProofTranscript, label: &str, p: &Point) -> (r: Result<
    (),
    MercatError,
>)
    ensures
        r is Ok <==> p.log() != 0,
        r is Ok ==> final(t).entries() == old(t).entries().push(
            TrEntry::Msg { label: label@, data: p@ },
        ),
        r is Err ==> *final(t) == *old(t) && r == Err::<(), MercatError>(MercatError::InvalidPoint),
{
    let id = point_identity();
    if p.equals(&id) {
        Err(MercatError::InvalidPoint)
    } else {
        let bytes = p.to_bytes();
        append_bytes32(t, label, &bytes);
        Ok(())
    }
}

/// Challenges agree whenever the absorbed histories agree: the transcript
/// state is a function of what was absorbed.
pub proof fn lemma_challenge_deterministic(a: ProofTranscript, b: ProofTranscript, label: Seq<char>)
    requires
        a.entries() == b.entries(),
    ensures
        challenge_val(a.entries(), label) == challenge_val(b.entries(), label),
{
}

} // verus!
