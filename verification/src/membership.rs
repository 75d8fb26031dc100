//! The proof that an encrypted asset id is the encryption of some element of
//! the allowed set, without revealing which: a disjunction of
//! correctness-style relations, one per allowed id, with the challenge split
//! across the branches so that only the true branch needs the witness.
//!
//! Also the mapping from a human-readable ticker to its asset-id scalar.

use vstd::prelude::*;

use crate::elgamal::{is_enc, CipherText, ElgamalPublicKey};
use crate::errors::MercatError;
use crate::group::{
    le_val, point_add, point_base_mul, point_mul, point_sub, scalar_add, scalar_from_bytes_mod_order,
    scalar_from_u32, scalar_mul, scalar_random_from_transcript_rng, scalar_sub, GroupScalar,
    PedGens, Point,
};
use crate::math::{
    lemma_gmod_add_congruent, lemma_gmod_add_left, lemma_gmod_add_right, lemma_gmod_idempotent,
    lemma_gmod_mul_right, lemma_gmod_range, lemma_gmod_small, lemma_gmod_sub_left,
    lemma_schnorr_check, lemma_simulated_check, lemma_split_challenge,
};
use crate::transcript::{
    append_bytes32, append_domain, append_validated_point, challenge_scalar, challenge_val,
    transcript_new, transcript_rng, ProofTranscript, TrEntry,
};
use crate::{gmod, group_order};

verus! {

/// The domain label a membership proof's transcript starts from.
pub const MEMBERSHIP_PROOF_LABEL: &'static str = "PolymathMembershipFinalResponse";

/// The domain label under which the membership challenge is drawn.
pub const MEMBERSHIP_PROOF_CHALLENGE_LABEL: &'static str = "PolymathMembershipChallenge";

/// The room a ticker has inside an asset-id scalar.
pub const TICKER_LEN: usize = 12;

/// The asset id of a ticker: its bytes, padded with zeros to 32 bytes, read
/// as a scalar.  Tickers longer than [`TICKER_LEN`] are refused.
pub fn asset_id_from_ticker(ticker: &[u8]) -> (r: Result<GroupScalar, MercatError>)
    ensures
        r is Ok <==> ticker@.len() <= TICKER_LEN,
        r matches Ok(s) ==> s.val() == gmod(
            le_val(ticker@ + Seq::<u8>::new((32 - ticker@.len()) as nat, |i: int| 0u8)),
        ),
        r matches Err(e) ==> e == MercatError::TickerTooLong,
{
    if ticker.len() > TICKER_LEN {
        return Err(MercatError::TickerTooLong);
    }
    let mut padded: [u8; 32] = [0; 32];
    let mut i: usize = 0;
    while i < ticker.len()
        invariant
            0 <= i <= ticker@.len() <= TICKER_LEN,
            padded@.len() == 32,
            forall|j: int| 0 <= j < i ==> padded@[j] == ticker@[j],
            forall|j: int| i <= j < 32 ==> padded@[j] == 0u8,
        decreases ticker@.len() - i,
    {
        padded[i] = ticker[i];
        i = i + 1;
    }
    proof {
        assert(padded@ =~= ticker@ + Seq::<u8>::new((32 - ticker@.len()) as nat, |j: int| 0u8));
    }
    Ok(scalar_from_bytes_mod_order(&padded))
}

/// A complete non-interactive membership proof: one commitment pair, one
/// challenge share and one response per allowed id.
pub struct MembershipProof {
    pub inits_a: Vec<Point>,
    pub inits_b: Vec<Point>,
    pub challenges: Vec<GroupScalar>,
    pub responses: Vec<GroupScalar>,
}

/// Check against the key: `z * pk == A + c_share * (y - id * B)`.
pub open spec fn m_check_a(
    pk_log: int,
    y_log: int,
    id: int,
    a_log: int,
    c_share: int,
    z: int,
) -> bool {
    gmod(z * pk_log) == gmod(a_log + c_share * (y_log - id))
}

/// Check against the blinding base: `z * B_blinding == B + c_share * x`.
pub open spec fn m_check_b(beta: int, x_log: int, b_log: int, c_share: int, z: int) -> bool {
    gmod(z * beta) == gmod(b_log + c_share * x_log)
}

/// Branch `jj` of a membership proof passes both checks under its share.
pub open spec fn branch_ok(
    beta: int,
    pk: ElgamalPublicKey,
    ct: CipherText,
    ids: Seq<GroupScalar>,
    p: MembershipProof,
    jj: int,
) -> bool {
    &&& m_check_a(
        pk.pub_key.log(),
        ct.y.log(),
        ids[jj].val(),
        p.inits_a@[jj].log(),
        p.challenges@[jj].val(),
        p.responses@[jj].val(),
    )
    &&& m_check_b(
        beta,
        ct.x.log(),
        p.inits_b@[jj].log(),
        p.challenges@[jj].val(),
        p.responses@[jj].val(),
    )
}

/// The reduced sum of a list of challenge shares, folded left to right.
pub open spec fn scalar_sum(cs: Seq<GroupScalar>) -> int
    decreases cs.len(),
{
    if cs.len() == 0 {
        0
    } else {
        gmod(scalar_sum(cs.drop_last()) + cs.last().val())
    }
}

/// Replacing a zero-valued share adds the new share's value to the sum.
proof fn lemma_scalar_sum_update(cs: Seq<GroupScalar>, k: int, v: GroupScalar)
    requires
        0 <= k < cs.len(),
        cs[k].val() == 0,
    ensures
        scalar_sum(cs.update(k, v)) == gmod(scalar_sum(cs) + v.val()),
    decreases cs.len(),
{
    let upd = cs.update(k, v);
    if k == cs.len() - 1 {
        assert(upd.drop_last() =~= cs.drop_last());
        lemma_gmod_add_left(scalar_sum(cs.drop_last()), v.val());
    } else {
        assert(upd.drop_last() =~= cs.drop_last().update(k, v));
        lemma_scalar_sum_update(cs.drop_last(), k, v);
        lemma_gmod_add_left(scalar_sum(cs.drop_last()) + v.val(), cs.last().val());
        lemma_gmod_add_left(scalar_sum(cs.drop_last()) + cs.last().val(), v.val());
    }
}

/// Labeled entries for a list of encodings, in order.
pub open spec fn msgs(label: Seq<char>, items: Seq<Seq<u8>>) -> Seq<TrEntry>
    decreases items.len(),
{
    if items.len() == 0 {
        Seq::<TrEntry>::empty()
    } else {
        msgs(label, items.drop_last()).push(TrEntry::Msg { label, data: items.last() })
    }
}

/// The views of a list of scalars.
pub open spec fn scalar_views(s: Seq<GroupScalar>) -> Seq<Seq<u8>> {
    s.map_values(|x: GroupScalar| x@)
}

/// The views of a list of points.
pub open spec fn point_views(s: Seq<Point>) -> Seq<Seq<u8>> {
    s.map_values(|x: Point| x@)
}

/// Branch `jj` of a proof under construction passes both checks under its
/// share, phrased over the vectors being built.
pub open spec fn sim_branch_ok(
    beta: int,
    pk_log: int,
    x_log: int,
    y_log: int,
    ids: Seq<GroupScalar>,
    ia: Seq<Point>,
    ib: Seq<Point>,
    cs: Seq<GroupScalar>,
    zs: Seq<GroupScalar>,
    jj: int,
) -> bool {
    &&& m_check_a(pk_log, y_log, ids[jj].val(), ia[jj].log(), cs[jj].val(), zs[jj].val())
    &&& m_check_b(beta, x_log, ib[jj].log(), cs[jj].val(), zs[jj].val())
}

/// The transcript history a membership proof is derived from and checked
/// against.
pub open spec fn membership_entries(
    pk: Seq<u8>,
    x: Seq<u8>,
    y: Seq<u8>,
    ids: Seq<Seq<u8>>,
    ia: Seq<Seq<u8>>,
    ib: Seq<Seq<u8>>,
) -> Seq<TrEntry> {
    seq![
        TrEntry::Domain { name: MEMBERSHIP_PROOF_LABEL@ },
        TrEntry::Msg { label: "pk"@, data: pk },
        TrEntry::Msg { label: "x"@, data: x },
        TrEntry::Msg { label: "y"@, data: y },
    ] + msgs("id"@, ids) + seq![TrEntry::Domain { name: MEMBERSHIP_PROOF_CHALLENGE_LABEL@ }]
        + msgs("MA"@, ia) + msgs("MB"@, ib)
}

/// The proof convinces: the shapes agree, every absorbed point is
/// non-identity, the challenge shares sum to the transcript challenge, and
/// every branch passes both checks under its share.
pub open spec fn membership_valid(
    beta: int,
    pk: ElgamalPublicKey,
    ct: CipherText,
    ids: Seq<GroupScalar>,
    p: MembershipProof,
) -> bool {
    let n = ids.len();
    let c = challenge_val(
        membership_entries(
            pk.pub_key@,
            ct.x@,
            ct.y@,
            scalar_views(ids),
            point_views(p.inits_a@),
            point_views(p.inits_b@),
        ),
        MEMBERSHIP_PROOF_CHALLENGE_LABEL@,
    );
    &&& n > 0
    &&& p.inits_a@.len() == n
    &&& p.inits_b@.len() == n
    &&& p.challenges@.len() == n
    &&& p.responses@.len() == n
    &&& pk.pub_key.log() != 0
    &&& ct.x.log() != 0
    &&& ct.y.log() != 0
    &&& forall|j: int| 0 <= j < n ==> (#[trigger] p.inits_a@[j]).log() != 0
    &&& forall|j: int| 0 <= j < n ==> (#[trigger] p.inits_b@[j]).log() != 0
    &&& scalar_sum(p.challenges@) == c
    &&& forall|j: int| 0 <= j < n ==> #[trigger] branch_ok(beta, pk, ct, ids, p, j)
}

/// Absorb the statement: domain, key, ciphertext and the allowed ids.
fn membership_statement_transcript(
    pk: &ElgamalPublicKey,
    ct: &CipherText,
    ids: &Vec<GroupScalar>,
) -> (r: Result<ProofTranscript, MercatError>)
    ensures
        r matches Ok(t) ==> t.entries() == seq![
            TrEntry::Domain { name: MEMBERSHIP_PROOF_LABEL@ },
            TrEntry::Msg { label: "pk"@, data: pk.pub_key@ },
            TrEntry::Msg { label: "x"@, data: ct.x@ },
            TrEntry::Msg { label: "y"@, data: ct.y@ },
        ] + msgs("id"@, scalar_views(ids@)),
        r is Ok <==> pk.pub_key.log() != 0 && ct.x.log() != 0 && ct.y.log() != 0,
        r matches Err(e) ==> e == MercatError::InvalidPoint,
{
    let mut t = transcript_new(MEMBERSHIP_PROOF_LABEL);
    append_validated_point(&mut t, "pk", &pk.pub_key)?;
    append_validated_point(&mut t, "x", &ct.x)?;
    append_validated_point(&mut t, "y", &ct.y)?;
    let ghost base = t.entries();
    let mut j: usize = 0;
    while j < ids.len()
        invariant
            0 <= j <= ids@.len(),
            t.entries() == base + msgs("id"@, scalar_views(ids@).subrange(0, j as int)),
        decreases ids@.len() - j,
    {
        let bytes = ids[j].to_bytes();
        append_bytes32(&mut t, "id", &bytes);
        proof {
            let pre = scalar_views(ids@).subrange(0, j as int);
            let now = scalar_views(ids@).subrange(0, j + 1);
            assert(now.drop_last() =~= pre);
            assert(now.last() == ids@[j as int]@);
            assert(t.entries() =~= base + msgs("id"@, now));
        }
        j = j + 1;
    }
    proof {
        assert(scalar_views(ids@).subrange(0, ids@.len() as int) =~= scalar_views(ids@));
    }
    Ok(t)
}

/// Absorb a list of commitment points under one label, refusing identities.
fn absorb_points(t: &mut ProofTranscript, label: &str, pts: &Vec<Point>) -> (r: Result<
    (),
    MercatError,
>)
    ensures
        r is Ok ==> final(t).entries() == old(t).entries() + msgs(label@, point_views(pts@)),
        r is Ok <==> forall|j: int| 0 <= j < pts@.len() ==> (#[trigger] pts@[j]).log() != 0,
        r matches Err(e) ==> e == MercatError::InvalidPoint,
{
    let ghost base = old(t).entries();
    let mut j: usize = 0;
    while j < pts.len()
        invariant
            0 <= j <= pts@.len(),
            t.entries() == base + msgs(label@, point_views(pts@).subrange(0, j as int)),
            forall|jj: int| 0 <= jj < j ==> (#[trigger] pts@[jj]).log() != 0,
        decreases pts@.len() - j,
    {
        let res = append_validated_point(t, label, &pts[j]);
        match res {
            Ok(()) => (),
            Err(e) => {
                return Err(e);
            },
        }
        proof {
            let pre = point_views(pts@).subrange(0, j as int);
            let now = point_views(pts@).subrange(0, j + 1);
            assert(now.drop_last() =~= pre);
            assert(now.last() == pts@[j as int]@);
            assert(t.entries() =~= base + msgs(label@, now));
        }
        j = j + 1;
    }
    proof {
        assert(point_views(pts@).subrange(0, pts@.len() as int) =~= point_views(pts@));
    }
    Ok(())
}

/// Produce a membership proof: the ciphertext encrypts `ids[k]` with
/// blinding `r`, and the proof hides which index is real.
pub(crate) fn prove_membership(
    r: &GroupScalar,
    k: usize,
    ids: &Vec<GroupScalar>,
    pk: &ElgamalPublicKey,
    ct: &CipherText,
    gens: &PedGens,
    rng: &mut rand::rngs::StdRng,
) -> (res: Result<MembershipProof, MercatError>)
    requires
        k < ids@.len(),
        is_enc(gens.blinding_log(), pk.pub_key.log(), ids@[k as int].val(), r.val(), *ct),
    ensures
        res matches Ok(p) ==> membership_valid(gens.blinding_log(), *pk, *ct, ids@, p),
        res matches Err(e) ==> e == MercatError::InvalidPoint,
{
    let ghost beta = gens.blinding_log();
    let ghost pk_log = pk.pub_key.log();
    let ghost y_log = ct.y.log();
    let ghost x_log = ct.x.log();
    let x_pt = ct.x;
    proof {
        use_type_invariant(x_pt);
        Point::lemma_canonical(x_pt);
    }
    let mut t = membership_statement_transcript(pk, ct, ids)?;
    let mut trng = transcript_rng(&t, rng, r);
    let alpha = scalar_random_from_transcript_rng(&mut trng);
    let zero = scalar_from_u32(0);
    let n = ids.len();
    let mut ia: Vec<Point> = Vec::new();
    let mut ib: Vec<Point> = Vec::new();
    let mut cs0: Vec<GroupScalar> = Vec::new();
    let mut zs0: Vec<GroupScalar> = Vec::new();
    let mut j: usize = 0;
    while j < n
        invariant
            0 <= j <= n == ids@.len(),
            k < n,
            ia@.len() == j,
            ib@.len() == j,
            cs0@.len() == j,
            zs0@.len() == j,
            zero.val() == 0,
            pk_log == pk.pub_key.log(),
            y_log == ct.y.log(),
            x_log == ct.x.log(),
            0 <= x_log < group_order(),
            beta == gens.blinding_log(),
            j > k ==> ia@[k as int].log() == gmod(alpha.val() * pk_log) && ib@[k as int].log()
                == gmod(alpha.val() * beta) && cs0@[k as int].val() == 0 && zs0@[k as int].val()
                == 0,
            forall|jj: int|
                0 <= jj < j && jj != k ==> #[trigger] sim_branch_ok(
                    beta,
                    pk_log,
                    x_log,
                    y_log,
                    ids@,
                    ia@,
                    ib@,
                    cs0@,
                    zs0@,
                    jj,
                ),
        decreases n - j,
    {
        let ghost ia0 = ia@;
        let ghost ib0 = ib@;
        let ghost cs00 = cs0@;
        let ghost zs00 = zs0@;
        if j == k {
            ia.push(point_mul(&alpha, &pk.pub_key));
            ib.push(point_mul(&alpha, gens.blinding_base()));
            cs0.push(zero);
            zs0.push(zero);
        } else {
            let cj = scalar_random_from_transcript_rng(&mut trng);
            let zj = scalar_random_from_transcript_rng(&mut trng);
            let id_scalar = ids[j];
            let t_pt = point_sub(&ct.y, &point_base_mul(&id_scalar));
            let a_j = point_sub(&point_mul(&zj, &pk.pub_key), &point_mul(&cj, &t_pt));
            let b_j = point_sub(
                &point_mul(&zj, gens.blinding_base()),
                &point_mul(&cj, &ct.x),
            );
            proof {
                let id = ids@[j as int].val();
                let tt = t_pt.log();
                use_type_invariant(id_scalar);
                GroupScalar::lemma_canonical(id_scalar);
                lemma_gmod_small(id);
                // t_pt is congruent to y - id and lies in the canonical range.
                lemma_gmod_range(y_log - id);
                lemma_simulated_check(zj.val() * pk_log, cj.val(), tt);
                // replace c * t by c * (y - id) in the first check.
                lemma_gmod_mul_right(cj.val(), y_log - id);
                lemma_gmod_add_congruent(a_j.log(), cj.val() * tt, cj.val() * (y_log - id));
                // second check: x_log is already reduced.
                lemma_gmod_range(x_log);
                lemma_gmod_small(x_log);
                lemma_simulated_check(zj.val() * beta, cj.val(), x_log);
            }
            ia.push(a_j);
            ib.push(b_j);
            cs0.push(cj);
            zs0.push(zj);
            proof {
                assert(sim_branch_ok(
                    beta,
                    pk_log,
                    x_log,
                    y_log,
                    ids@,
                    ia@,
                    ib@,
                    cs0@,
                    zs0@,
                    j as int,
                ));
            }
        }
        proof {
            assert forall|jj: int| 0 <= jj < j + 1 && jj != k implies #[trigger] sim_branch_ok(
                beta,
                pk_log,
                x_log,
                y_log,
                ids@,
                ia@,
                ib@,
                cs0@,
                zs0@,
                jj,
            ) by {
                if jj < j {
                    assert(sim_branch_ok(
                        beta,
                        pk_log,
                        x_log,
                        y_log,
                        ids@,
                        ia0,
                        ib0,
                        cs00,
                        zs00,
                        jj,
                    ));
                    assert(ia@[jj] == ia0[jj] && ib@[jj] == ib0[jj] && cs0@[jj] == cs00[jj]
                        && zs0@[jj] == zs00[jj]);
                }
            }
        }
        j = j + 1;
    }
    append_domain(&mut t, MEMBERSHIP_PROOF_CHALLENGE_LABEL);
    absorb_points(&mut t, "MA", &ia)?;
    absorb_points(&mut t, "MB", &ib)?;
    proof {
        assert(t.entries() =~= membership_entries(
            pk.pub_key@,
            ct.x@,
            ct.y@,
            scalar_views(ids@),
            point_views(ia@),
            point_views(ib@),
        ));
    }
    let c = challenge_scalar(&mut t, MEMBERSHIP_PROOF_CHALLENGE_LABEL);
    // Sum the simulated shares, in the verifier's order.
    let mut acc = scalar_from_u32(0);
    let mut j2: usize = 0;
    while j2 < n
        invariant
            0 <= j2 <= n == cs0@.len(),
            acc.val() == scalar_sum(cs0@.subrange(0, j2 as int)),
        decreases n - j2,
    {
        let next = scalar_add(&acc, &cs0[j2]);
        proof {
            let pre = cs0@.subrange(0, j2 as int);
            let now = cs0@.subrange(0, j2 + 1);
            assert(now.drop_last() =~= pre);
            assert(now.last() == cs0@[j2 as int]);
        }
        acc = next;
        j2 = j2 + 1;
    }
    proof {
        assert(cs0@.subrange(0, cs0@.len() as int) =~= cs0@);
    }
    let ck = scalar_sub(&c, &acc);
    let zk = scalar_add(&alpha, &scalar_mul(&ck, r));
    let ghost csv = cs0@;
    let ghost zsv = zs0@;
    let mut cs = cs0;
    let mut zs = zs0;
    cs.set(k, ck);
    zs.set(k, zk);
    proof {
        use_type_invariant(c);
        GroupScalar::lemma_canonical(c);
        lemma_scalar_sum_update(csv, k as int, ck);
        lemma_split_challenge(scalar_sum(csv), c.val());
        // the true branch's checks.
        let id = ids@[k as int].val();
        lemma_gmod_add_right(alpha.val(), ck.val() * r.val());
        lemma_gmod_sub_left(id + r.val() * pk_log, id);
        lemma_schnorr_check(pk_log, alpha.val(), ck.val(), r.val(), y_log - id);
        lemma_gmod_idempotent(r.val() * beta);
        lemma_schnorr_check(beta, alpha.val(), ck.val(), r.val(), x_log);
    }
    let p = MembershipProof { inits_a: ia, inits_b: ib, challenges: cs, responses: zs };
    proof {
        assert forall|jj: int| 0 <= jj < n implies #[trigger] branch_ok(
            gens.blinding_log(),
            *pk,
            *ct,
            ids@,
            p,
            jj,
        ) by {
            if jj == k {
                assert(p.challenges@[jj].val() == ck.val());
                assert(p.responses@[jj].val() == zk.val());
            } else {
                assert(sim_branch_ok(
                    beta,
                    pk_log,
                    x_log,
                    y_log,
                    ids@,
                    p.inits_a@,
                    p.inits_b@,
                    csv,
                    zsv,
                    jj,
                ));
                assert(p.challenges@[jj] == csv[jj] && p.responses@[jj] == zsv[jj]);
            }
        }
    }
    Ok(p)
}

/// Verify a membership proof against the key, ciphertext and allowed ids.
pub fn verify_membership(
    pk: &ElgamalPublicKey,
    ct: &CipherText,
    ids: &Vec<GroupScalar>,
    gens: &PedGens,
    proof: &MembershipProof,
) -> (r: Result<(), MercatError>)
    ensures
        r is Ok <==> membership_valid(gens.blinding_log(), *pk, *ct, ids@, *proof),
        r matches Err(e) ==> e == MercatError::InvalidPoint || e
            == MercatError::MembershipProofVerificationError,
{
    let ghost beta = gens.blinding_log();
    let n = ids.len();
    if n == 0 || proof.inits_a.len() != n || proof.inits_b.len() != n || proof.challenges.len()
        != n || proof.responses.len() != n {
        return Err(MercatError::MembershipProofVerificationError);
    }
    let mut t = membership_statement_transcript(pk, ct, ids)?;
    append_domain(&mut t, MEMBERSHIP_PROOF_CHALLENGE_LABEL);
    absorb_points(&mut t, "MA", &proof.inits_a)?;
    absorb_points(&mut t, "MB", &proof.inits_b)?;
    proof {
        assert(t.entries() =~= membership_entries(
            pk.pub_key@,
            ct.x@,
            ct.y@,
            scalar_views(ids@),
            point_views(proof.inits_a@),
            point_views(proof.inits_b@),
        ));
    }
    let c = challenge_scalar(&mut t, MEMBERSHIP_PROOF_CHALLENGE_LABEL);
    // The shares must sum to the transcript challenge.
    let mut acc = scalar_from_u32(0);
    let mut j2: usize = 0;
    while j2 < n
        invariant
            0 <= j2 <= n == proof.challenges@.len(),
            acc.val() == scalar_sum(proof.challenges@.subrange(0, j2 as int)),
        decreases n - j2,
    {
        let next = scalar_add(&acc, &proof.challenges[j2]);
        proof {
            let pre = proof.challenges@.subrange(0, j2 as int);
            let now = proof.challenges@.subrange(0, j2 + 1);
            assert(now.drop_last() =~= pre);
            assert(now.last() == proof.challenges@[j2 as int]);
        }
        acc = next;
        j2 = j2 + 1;
    }
    proof {
        assert(proof.challenges@.subrange(0, proof.challenges@.len() as int)
            =~= proof.challenges@);
    }
    if !acc.equals(&c) {
        proof {
            assert(acc.val() == scalar_sum(proof.challenges@));
        }
        return Err(MercatError::MembershipProofVerificationError);
    }
    // Every branch must pass both checks under its share.
    let mut j: usize = 0;
    while j < n
        invariant
            0 <= j <= n == ids@.len(),
            proof.inits_a@.len() == n,
            proof.inits_b@.len() == n,
            proof.challenges@.len() == n,
            proof.responses@.len() == n,
            beta == gens.blinding_log(),
            forall|jj: int| 0 <= jj < j ==> #[trigger] branch_ok(beta, *pk, *ct, ids@, *proof, jj),
        decreases n - j,
    {
        let cj = &proof.challenges[j];
        let zj = &proof.responses[j];
        let id_scalar = ids[j];
        let t_pt = point_sub(&ct.y, &point_base_mul(&id_scalar));
        let lhs_a = point_mul(zj, &pk.pub_key);
        let rhs_a = point_add(&proof.inits_a[j], &point_mul(cj, &t_pt));
        let lhs_b = point_mul(zj, gens.blinding_base());
        let rhs_b = point_add(&proof.inits_b[j], &point_mul(cj, &ct.x));
        proof {
            let id = ids@[j as int].val();
            use_type_invariant(id_scalar);
            GroupScalar::lemma_canonical(id_scalar);
            lemma_gmod_small(id);
            lemma_gmod_mul_right(cj.val(), ct.y.log() - id);
            lemma_gmod_add_congruent(
                proof.inits_a@[j as int].log(),
                gmod(cj.val() * gmod(ct.y.log() - id)),
                cj.val() * (ct.y.log() - id),
            );
            lemma_gmod_idempotent(cj.val() * (ct.y.log() - id));
            lemma_gmod_add_right(proof.inits_a@[j as int].log(), cj.val() * (ct.y.log() - id));
            lemma_gmod_add_right(proof.inits_b@[j as int].log(), cj.val() * ct.x.log());
        }
        if !lhs_a.equals(&rhs_a) {
            proof {
                if membership_valid(beta, *pk, *ct, ids@, *proof) {
                    assert(branch_ok(beta, *pk, *ct, ids@, *proof, j as int));
                    assert(false);
                }
            }
            return Err(MercatError::MembershipProofVerificationError);
        }
        if !lhs_b.equals(&rhs_b) {
            proof {
                if membership_valid(beta, *pk, *ct, ids@, *proof) {
                    assert(branch_ok(beta, *pk, *ct, ids@, *proof, j as int));
                    assert(false);
                }
            }
            return Err(MercatError::MembershipProofVerificationError);
        }
        proof {
            assert(branch_ok(beta, *pk, *ct, ids@, *proof, j as int));
        }
        j = j + 1;
    }
    proof {
        assert(membership_valid(beta, *pk, *ct, ids@, *proof));
    }
    Ok(())
}

} // verus!
