//! The proof of correct encryption of a publicly known value: a three-move
//! Sigma protocol showing that a ciphertext `(x, y)` encrypts the declared
//! value `v` under the declared public key for some blinding known to the
//! prover.
//!
//! The prover commits with a fresh scalar `u` to `A = u * pk` and
//! `B = u * B_blinding`, receives the transcript challenge `c`, and responds
//! with `z = u + c * r` for the encryption blinding `r`.  The verifier's two
//! checks are `z * pk == A + c * (y - v * B)` and
//! `z * B_blinding == B + c * x`, each reported with its own discriminator
//! when it fails: check 1 is the equation over the public key and the first
//! commitment `A`, check 2 the one over the blinding base and `B`, matching
//! the ciphertext layout of [`crate::elgamal`].

use vstd::prelude::*;

use crate::elgamal::{is_enc, CipherText, CommitmentWitness, ElgamalPublicKey};
use crate::errors::MercatError;
use crate::group::{
    point_add, point_base_mul, point_mul, point_sub, scalar_add, scalar_from_u32, scalar_mul,
    scalar_random_from_transcript_rng, GroupScalar, PedGens, Point,
};
use crate::math::{
    lemma_gmod_add_right, lemma_gmod_idempotent, lemma_gmod_mul_right, lemma_gmod_sub_left,
    lemma_schnorr_check,
};
use crate::transcript::{
    append_domain, append_validated_point, challenge_scalar, challenge_val, transcript_new,
    transcript_rng, ProofTranscript, TrEntry,
};
use crate::gmod;

verus! {

/// The domain label a correctness proof's transcript starts from.
pub const CORRECTNESS_PROOF_FINAL_RESPONSE_LABEL: &'static str = "PolymathCorrectnessFinalResponse";

/// The domain label under which the correctness challenge is drawn.
pub const CORRECTNESS_PROOF_CHALLENGE_LABEL: &'static str = "PolymathCorrectnessChallenge";

/// A challenge scalar drawn from a transcript.
#[derive(Clone, Copy)]
pub struct ZKPChallenge {
    x: GroupScalar,
}

impl ZKPChallenge {
    pub closed spec fn val(self) -> int {
        self.x.val()
    }

    pub fn new(x: GroupScalar) -> (r: Self)
        ensures
            r.val() == x.val(),
    {
        ZKPChallenge { x }
    }

    pub fn x(&self) -> (r: &GroupScalar)
        ensures
            r.val() == self.val(),
    {
        &self.x
    }
}

pub type CorrectnessFinalResponse = GroupScalar;

/// The prover's first move: `A = u * pk`, `B = u * B_blinding`.
#[derive(Clone, Copy)]
pub struct CorrectnessInitialMessage {
    pub a: Point,
    pub b: Point,
}

impl Default for CorrectnessInitialMessage {
    /// A fixed, honest-looking initial message used for testing: both
    /// components are the basepoint.
    fn default() -> (r: Self)
        ensures
            r.a.log() == 1,
            r.b.log() == 1,
    {
        let one = scalar_from_u32(1);
        CorrectnessInitialMessage { a: point_base_mul(&one), b: point_base_mul(&one) }
    }
}

impl CorrectnessInitialMessage {
    /// Absorb the proof's domain separator and both commitment points,
    /// refusing identity points.
    pub fn update_transcript(&self, t: &mut ProofTranscript) -> (r: Result<(), MercatError>)
        ensures
            r is Ok <==> self.a.log() != 0 && self.b.log() != 0,
            r is Ok ==> final(t).entries() == old(t).entries().push(
                TrEntry::Domain { name: CORRECTNESS_PROOF_CHALLENGE_LABEL@ },
            ).push(TrEntry::Msg { label: "A"@, data: self.a@ }).push(
                TrEntry::Msg { label: "B"@, data: self.b@ },
            ),
            r matches Err(e) ==> e == MercatError::InvalidPoint,
    {
        append_domain(t, CORRECTNESS_PROOF_CHALLENGE_LABEL);
        append_validated_point(t, "A", &self.a)?;
        append_validated_point(t, "B", &self.b)?;
        Ok(())
    }
}

/// The prover before the challenge: it holds the public key, the witness of
/// the ciphertext, and the Pedersen generators.
pub struct CorrectnessProverAwaitingChallenge {
    pub_key: ElgamalPublicKey,
    w: CommitmentWitness,
    pc_gens: PedGens,
}

/// The prover after its first move: it remembers the witness and the fresh
/// commitment scalar `u`.
pub struct CorrectnessProver {
    w: CommitmentWitness,
    u: GroupScalar,
}

impl CorrectnessProverAwaitingChallenge {
    pub closed spec fn pk_log(self) -> int {
        self.pub_key.pub_key.log()
    }

    pub closed spec fn beta(self) -> int {
        self.pc_gens.blinding_log()
    }

    pub closed spec fn value_val(self) -> int {
        self.w.value_val()
    }

    pub closed spec fn blinding_val(self) -> int {
        self.w.blinding_val()
    }

    pub fn new(pub_key: ElgamalPublicKey, w: CommitmentWitness, pc_gens: &PedGens) -> (r: Self)
        ensures
            r.pk_log() == pub_key.pub_key.log(),
            r.beta() == pc_gens.blinding_log(),
            r.value_val() == w.value_val(),
            r.blinding_val() == w.blinding_val(),
    {
        CorrectnessProverAwaitingChallenge { pub_key, w, pc_gens: *pc_gens }
    }

    /// A proof-specific generator, bound to the transcript state, external
    /// entropy and the witness.
    pub fn create_transcript_rng(
        &self,
        rng: &mut rand::rngs::StdRng,
        t: &ProofTranscript,
    ) -> merlin::TranscriptRng {
        transcript_rng(t, rng, self.w.blinding())
    }

    /// The first move: commit to a fresh `u` under both bases.
    pub fn generate_initial_message(&self, rng: &mut merlin::TranscriptRng) -> (r: (
        CorrectnessProver,
        CorrectnessInitialMessage,
    ))
        ensures
            r.0.value_val() == self.value_val(),
            r.0.blinding_val() == self.blinding_val(),
            r.1.a.log() == gmod(r.0.u_val() * self.pk_log()),
            r.1.b.log() == gmod(r.0.u_val() * self.beta()),
    {
        let rand_commitment = scalar_random_from_transcript_rng(rng);
        let a = point_mul(&rand_commitment, &self.pub_key.pub_key);
        let b = point_mul(&rand_commitment, self.pc_gens.blinding_base());
        (
            CorrectnessProver { w: self.w, u: rand_commitment },
            CorrectnessInitialMessage { a, b },
        )
    }
}

impl CorrectnessProver {
    pub closed spec fn value_val(self) -> int {
        self.w.value_val()
    }

    pub closed spec fn blinding_val(self) -> int {
        self.w.blinding_val()
    }

    pub closed spec fn u_val(self) -> int {
        self.u.val()
    }

    /// The final response `z = u + c * r`.
    pub fn apply_challenge(&self, c: &ZKPChallenge) -> (z: CorrectnessFinalResponse)
        ensures
            z.val() == gmod(self.u_val() + c.val() * self.blinding_val()),
    {
        let cr = scalar_mul(c.x(), self.w.blinding());
        let z = scalar_add(&self.u, &cr);
        proof {
            lemma_gmod_add_right(self.u_val(), c.val() * self.blinding_val());
        }
        z
    }
}

/// The verifier's first check: `z * pk == A + c * (y - v * B)`.
pub open spec fn correctness_check1(
    pk_log: int,
    y_log: int,
    v: int,
    a_log: int,
    c: int,
    z: int,
) -> bool {
    gmod(z * pk_log) == gmod(a_log + c * (y_log - v))
}

/// The verifier's second check: `z * B_blinding == B + c * x`.
pub open spec fn correctness_check2(beta: int, x_log: int, b_log: int, c: int, z: int) -> bool {
    gmod(z * beta) == gmod(b_log + c * x_log)
}

/// The verifier of a correctness proof: it knows the declared value, the
/// public key, the ciphertext and the generators.
pub struct CorrectnessVerifier {
    value: u32,
    pub_key: ElgamalPublicKey,
    cipher: CipherText,
    pc_gens: PedGens,
}

impl CorrectnessVerifier {
    pub closed spec fn value_val(self) -> int {
        self.value as int
    }

    pub closed spec fn pk_log(self) -> int {
        self.pub_key.pub_key.log()
    }

    pub closed spec fn beta(self) -> int {
        self.pc_gens.blinding_log()
    }

    pub closed spec fn x_log(self) -> int {
        self.cipher.x.log()
    }

    pub closed spec fn y_log(self) -> int {
        self.cipher.y.log()
    }

    pub fn new(value: u32, pub_key: ElgamalPublicKey, cipher: CipherText, pc_gens: &PedGens) -> (r:
        Self)
        ensures
            r.value_val() == value as int,
            r.pk_log() == pub_key.pub_key.log(),
            r.x_log() == cipher.x.log(),
            r.y_log() == cipher.y.log(),
            r.beta() == pc_gens.blinding_log(),
    {
        CorrectnessVerifier { value, pub_key, cipher, pc_gens: *pc_gens }
    }

    /// Check both verification equations; the error names the first failed
    /// check.
    pub fn verify(
        &self,
        challenge: &ZKPChallenge,
        initial_message: &CorrectnessInitialMessage,
        z: &CorrectnessFinalResponse,
    ) -> (r: Result<(), MercatError>)
        ensures
            r is Ok <==> correctness_check1(
                self.pk_log(),
                self.y_log(),
                self.value_val(),
                initial_message.a.log(),
                challenge.val(),
                z.val(),
            ) && correctness_check2(
                self.beta(),
                self.x_log(),
                initial_message.b.log(),
                challenge.val(),
                z.val(),
            ),
            r is Err ==> r == Err::<(), MercatError>(
                MercatError::CorrectnessFinalResponseVerificationError {
                    check: if correctness_check1(
                        self.pk_log(),
                        self.y_log(),
                        self.value_val(),
                        initial_message.a.log(),
                        challenge.val(),
                        z.val(),
                    ) {
                        2u16
                    } else {
                        1u16
                    },
                },
            ),
    {
        let v_base = point_base_mul(&scalar_from_u32(self.value));
        let y_prime = point_sub(&self.cipher.y, &v_base);
        let lhs1 = point_mul(z, &self.pub_key.pub_key);
        let c_yp = point_mul(challenge.x(), &y_prime);
        let rhs1 = point_add(&initial_message.a, &c_yp);
        let lhs2 = point_mul(z, self.pc_gens.blinding_base());
        let c_x = point_mul(challenge.x(), &self.cipher.x);
        let rhs2 = point_add(&initial_message.b, &c_x);
        proof {
            let c = challenge.val();
            let zl = z.val();
            let a_log = initial_message.a.log();
            let b_log = initial_message.b.log();
            // rhs1: gmod(a + gmod(c * gmod(y - v))) == gmod(a + c * (y - v))
            lemma_gmod_mul_right(c, self.y_log() - self.value_val());
            crate::math::lemma_gmod_add_congruent(
                a_log,
                gmod(c * gmod(self.y_log() - self.value_val())),
                c * (self.y_log() - self.value_val()),
            );
            lemma_gmod_idempotent(c * (self.y_log() - self.value_val()));
            lemma_gmod_add_right(a_log, c * (self.y_log() - self.value_val()));
            // rhs2: gmod(b + gmod(c * x)) == gmod(b + c * x)
            lemma_gmod_add_right(b_log, c * self.x_log());
        }
        let ok1 = lhs1.equals(&rhs1);
        if !ok1 {
            return Err(MercatError::CorrectnessFinalResponseVerificationError { check: 1 });
        }
        let ok2 = lhs2.equals(&rhs2);
        if !ok2 {
            return Err(MercatError::CorrectnessFinalResponseVerificationError { check: 2 });
        }
        Ok(())
    }
}

/// Completeness of the correctness proof: for an honestly encrypted
/// ciphertext, an honestly committed initial message and the response
/// `z = u + c * r`, both verifier checks hold, whatever the challenge.
pub proof fn lemma_correctness_completeness(
    beta: int,
    pk_log: int,
    v: int,
    r: int,
    u: int,
    c: int,
    ct: CipherText,
    a_log: int,
    b_log: int,
    z: int,
)
    requires
        is_enc(beta, pk_log, v, r, ct),
        a_log == gmod(u * pk_log),
        b_log == gmod(u * beta),
        z == gmod(u + c * r),
    ensures
        correctness_check1(pk_log, ct.y.log(), v, a_log, c, z),
        correctness_check2(beta, ct.x.log(), b_log, c, z),
{
    // y - v is congruent to r * pk_log.
    lemma_gmod_sub_left(v + r * pk_log, v);
    lemma_gmod_small_shift(v, r * pk_log);
    lemma_schnorr_check(pk_log, u, c, r, ct.y.log() - v);
    // x is congruent to r * beta.
    lemma_gmod_idempotent(r * beta);
    lemma_schnorr_check(beta, u, c, r, ct.x.log());
}

/// `gmod(v + t - v) == gmod(t)`: shifting by `v` and back vanishes.
proof fn lemma_gmod_small_shift(v: int, t: int)
    ensures
        gmod((v + t) - v) == gmod(t),
{
}

/// A complete non-interactive correctness proof.
pub struct CorrectnessProof {
    pub init: CorrectnessInitialMessage,
    pub response: CorrectnessFinalResponse,
}

/// The transcript history a correctness proof is derived from and checked
/// against: the statement, then the prover's commitments.
pub open spec fn correctness_entries(
    pk: Seq<u8>,
    x: Seq<u8>,
    y: Seq<u8>,
    a: Seq<u8>,
    b: Seq<u8>,
) -> Seq<TrEntry> {
    seq![
        TrEntry::Domain { name: CORRECTNESS_PROOF_FINAL_RESPONSE_LABEL@ },
        TrEntry::Msg { label: "pk"@, data: pk },
        TrEntry::Msg { label: "x"@, data: x },
        TrEntry::Msg { label: "y"@, data: y },
        TrEntry::Domain { name: CORRECTNESS_PROOF_CHALLENGE_LABEL@ },
        TrEntry::Msg { label: "A"@, data: a },
        TrEntry::Msg { label: "B"@, data: b },
    ]
}

/// The proof convinces: every absorbed point is non-identity and both
/// verifier checks hold for the transcript-derived challenge.
pub open spec fn correctness_valid(
    beta: int,
    pk: ElgamalPublicKey,
    ct: CipherText,
    p: CorrectnessProof,
    v: int,
) -> bool {
    let c = challenge_val(
        correctness_entries(pk.pub_key@, ct.x@, ct.y@, p.init.a@, p.init.b@),
        CORRECTNESS_PROOF_CHALLENGE_LABEL@,
    );
    &&& pk.pub_key.log() != 0
    &&& ct.x.log() != 0
    &&& ct.y.log() != 0
    &&& p.init.a.log() != 0
    &&& p.init.b.log() != 0
    &&& correctness_check1(pk.pub_key.log(), ct.y.log(), v, p.init.a.log(), c, p.response.val())
    &&& correctness_check2(beta, ct.x.log(), p.init.b.log(), c, p.response.val())
}

/// Absorb the statement and the initial message, refusing identity points.
fn correctness_transcript(
    pk: &ElgamalPublicKey,
    ct: &CipherText,
    init: &CorrectnessInitialMessage,
) -> (r: Result<ProofTranscript, MercatError>)
    ensures
        r matches Ok(t) ==> t.entries() == correctness_entries(
            pk.pub_key@,
            ct.x@,
            ct.y@,
            init.a@,
            init.b@,
        ),
        r is Ok <==> pk.pub_key.log() != 0 && ct.x.log() != 0 && ct.y.log() != 0 && init.a.log()
            != 0 && init.b.log() != 0,
        r matches Err(e) ==> e == MercatError::InvalidPoint,
{
    let mut t = transcript_new(CORRECTNESS_PROOF_FINAL_RESPONSE_LABEL);
    append_validated_point(&mut t, "pk", &pk.pub_key)?;
    append_validated_point(&mut t, "x", &ct.x)?;
    append_validated_point(&mut t, "y", &ct.y)?;
    init.update_transcript(&mut t)?;
    proof {
        assert(t.entries() =~= correctness_entries(pk.pub_key@, ct.x@, ct.y@, init.a@, init.b@));
    }
    Ok(t)
}

/// Produce a correctness proof for a ciphertext this prover encrypted.
pub(crate) fn prove_correctness(
    value: u32,
    witness: &CommitmentWitness,
    pk: &ElgamalPublicKey,
    ct: &CipherText,
    gens: &PedGens,
    rng: &mut rand::rngs::StdRng,
) -> (r: Result<CorrectnessProof, MercatError>)
    requires
        is_enc(gens.blinding_log(), pk.pub_key.log(), value as int, witness.blinding_val(), *ct),
        witness.value_val() == value as int,
    ensures
        r matches Ok(p) ==> correctness_valid(gens.blinding_log(), *pk, *ct, p, value as int),
        r matches Err(e) ==> e == MercatError::InvalidPoint,
{
    let mut t = transcript_new(CORRECTNESS_PROOF_FINAL_RESPONSE_LABEL);
    append_validated_point(&mut t, "pk", &pk.pub_key)?;
    append_validated_point(&mut t, "x", &ct.x)?;
    append_validated_point(&mut t, "y", &ct.y)?;
    let prover = CorrectnessProverAwaitingChallenge::new(*pk, *witness, gens);
    let mut trng = prover.create_transcript_rng(rng, &t);
    let (prover2, init) = prover.generate_initial_message(&mut trng);
    init.update_transcript(&mut t)?;
    proof {
        assert(t.entries() =~= correctness_entries(pk.pub_key@, ct.x@, ct.y@, init.a@, init.b@));
    }
    let c = ZKPChallenge::new(challenge_scalar(&mut t, CORRECTNESS_PROOF_CHALLENGE_LABEL));
    let z = prover2.apply_challenge(&c);
    proof {
        lemma_correctness_completeness(
            gens.blinding_log(),
            pk.pub_key.log(),
            value as int,
            witness.blinding_val(),
            prover2.u_val(),
            c.val(),
            *ct,
            init.a.log(),
            init.b.log(),
            z.val(),
        );
    }
    Ok(CorrectnessProof { init, response: z })
}

/// Verify a correctness proof against the declared value, key and
/// ciphertext.
pub fn verify_correctness(
    value: u32,
    pk: &ElgamalPublicKey,
    ct: &CipherText,
    gens: &PedGens,
    proof: &CorrectnessProof,
) -> (r: Result<(), MercatError>)
    ensures
        r is Ok <==> correctness_valid(gens.blinding_log(), *pk, *ct, *proof, value as int),
{
    let mut t = correctness_transcript(pk, ct, &proof.init)?;
    let c = ZKPChallenge::new(challenge_scalar(&mut t, CORRECTNESS_PROOF_CHALLENGE_LABEL));
    let verifier = CorrectnessVerifier::new(value, *pk, *ct, gens);
    verifier.verify(&c, &proof.init, &proof.response)
}

} // verus!
