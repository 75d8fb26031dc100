//! Small-message decryption by baby-step/giant-step search of the discrete
//! logarithm over the `u32` plaintext space, with a table of 2^16 baby steps.

use vstd::prelude::*;

use std::collections::HashMap;

use crate::elgamal::{ct_dec, CipherText, ElgamalSecretKey};
use crate::errors::MercatError;
use crate::group::{
    base_repr, bytes32_eq, point_add, point_base_mul, point_identity, point_log, point_mul,
    point_sub, scalar_from_u32, Point,
};
use crate::math::{
    lemma_bsgs_exact, lemma_bsgs_split, lemma_gmod_range, lemma_gmod_small, lemma_gmod_sub_left,
    lemma_gmod_sub_right,
};
use crate::{gmod, group_order};

verus! {

broadcast use vstd::std_specs::hash::group_hash_axioms;

/// What remains of the logarithm `d` after `jj` giant strides.
pub open spec fn giant_residue(d: int, jj: int) -> int {
    gmod(d - jj * 65536)
}

/// A 64-bit table key read from the first eight bytes of an encoding.
pub open spec fn key64_of(b: Seq<u8>) -> u64 {
    (((((((b[7] * 256 + b[6]) * 256 + b[5]) * 256 + b[4]) * 256 + b[3]) * 256 + b[2]) * 256 + b[1])
        * 256 + b[0]) as u64
}

fn key64(b: &[u8; 32]) -> (r: u64)
    ensures
        r == key64_of(b@),
{
    let mut k: u64 = b[7] as u64;
    k = k * 256 + b[6] as u64;
    k = k * 256 + b[5] as u64;
    k = k * 256 + b[4] as u64;
    k = k * 256 + b[3] as u64;
    k = k * 256 + b[2] as u64;
    k = k * 256 + b[1] as u64;
    k = k * 256 + b[0] as u64;
    k
}

/// Walk one collision chain, comparing full encodings against the target.
fn scan_chain(baby: &Vec<[u8; 32]>, chain: &Vec<u32>, tb: &[u8; 32]) -> (r: Option<u32>)
    requires
        baby@.len() == 65536,
        forall|c: int| 0 <= c < chain@.len() ==> #[trigger] chain@[c] < 65536,
    ensures
        r matches Some(i) ==> i < 65536 && baby@[i as int]@ == tb@,
        r is None ==> forall|c: int|
            0 <= c < chain@.len() ==> baby@[#[trigger] chain@[c] as int]@ != tb@,
{
    let mut ci: usize = 0;
    while ci < chain.len()
        invariant
            0 <= ci <= chain@.len(),
            baby@.len() == 65536,
            forall|c: int| 0 <= c < chain@.len() ==> #[trigger] chain@[c] < 65536,
            forall|c: int| 0 <= c < ci ==> baby@[#[trigger] chain@[c] as int]@ != tb@,
        decreases chain@.len() - ci,
    {
        let i = chain[ci];
        if bytes32_eq(&baby[i as usize], tb) {
            return Some(i);
        }
        ci = ci + 1;
    }
    None
}

/// The baby-step table: encodings of `i * B` for `i` below 2^16, an index of
/// them keyed by their first eight bytes, and the giant stride `2^16 * B`.
pub struct Decryptor {
    baby: Vec<[u8; 32]>,
    index: HashMap<u64, Vec<u32>>,
    giant: Point,
}

impl Decryptor {
    #[verifier::type_invariant]
    closed spec fn wf(self) -> bool {
        &&& self.baby@.len() == 65536
        &&& self.giant.log() == 65536
        &&& forall|j: int|
            0 <= j < 65536 ==> point_log(#[trigger] self.baby@[j]@) == j && self.baby@[j]@
                == base_repr(j)
        &&& forall|j: int|
            0 <= j < 65536 ==> self.index@.contains_key(key64_of(#[trigger] self.baby@[j]@))
                && self.index@[key64_of(self.baby@[j]@)]@.contains(j as u32)
        &&& forall|k: u64, c: u32|
            self.index@.contains_key(k) && #[trigger] self.index@[k]@.contains(c) ==> c < 65536
    }

    /// Build the table of 2^16 baby steps.
    pub fn new() -> (d: Decryptor) {
        let one = scalar_from_u32(1);
        let base = point_base_mul(&one);
        let mut cur = point_identity();
        let mut baby: Vec<[u8; 32]> = Vec::new();
        let mut index: HashMap<u64, Vec<u32>> = HashMap::new();
        let mut i: usize = 0;
        while i < 65536
            invariant
                0 <= i <= 65536,
                baby@.len() == i,
                cur.log() == i,
                base.log() == 1,
                forall|j: int|
                    0 <= j < i ==> point_log(#[trigger] baby@[j]@) == j && baby@[j]@ == base_repr(
                        j,
                    ),
                forall|j: int|
                    0 <= j < i ==> index@.contains_key(key64_of(#[trigger] baby@[j]@))
                        && index@[key64_of(baby@[j]@)]@.contains(j as u32),
                forall|k: u64, c: u32|
                    index@.contains_key(k) && #[trigger] index@[k]@.contains(c) ==> c < i,
            decreases 65536 - i,
        {
            let bytes = cur.to_bytes();
            proof {
                use_type_invariant(cur);
                Point::lemma_canonical(cur);
            }
            baby.push(bytes);
            let k = key64(&bytes);
            let ghost old_index = index@;
            let mut chain = match index.remove(&k) {
                Some(c) => c,
                None => Vec::new(),
            };
            let ghost old_chain = chain@;
            chain.push(i as u32);
            index.insert(k, chain);
            proof {
                assert(index@ =~= old_index.insert(k, chain));
                assert(chain@ == old_chain.push(i as u32));
                assert(chain@[old_chain.len() as int] == i as u32);
                assert(chain@.contains(i as u32));
                assert forall|kk: u64, c: u32|
                    index@.contains_key(kk) && #[trigger] index@[kk]@.contains(c) implies c < i
                        + 1 by {
                    if kk == k {
                        if c != i as u32 {
                            let ci = choose|ci: int|
                                0 <= ci < chain@.len() && chain@[ci] == c;
                            assert(old_chain.contains(c));
                        }
                    }
                }
                assert forall|j: int|
                    0 <= j < i + 1 implies index@.contains_key(key64_of(#[trigger] baby@[j]@))
                        && index@[key64_of(baby@[j]@)]@.contains(j as u32) by {
                    if j < i {
                        if key64_of(baby@[j]@) == k {
                            assert(old_index[k]@.contains(j as u32));
                            let ci = choose|ci: int|
                                0 <= ci < old_chain.len() && old_chain[ci] == j as u32;
                            assert(chain@[ci] == j as u32);
                            assert(chain@.contains(j as u32));
                        }
                    } else {
                        assert(baby@[j]@ == bytes@);
                    }
                }
            }
            cur = point_add_small(&cur, &base, i);
            i = i + 1;
        }
        let sixteen = scalar_from_u32(65536);
        let giant = point_base_mul(&sixteen);
        Decryptor { baby, index, giant }
    }

    /// Find the index whose baby-step encoding matches the target exactly.
    fn lookup(&self, tb: &[u8; 32]) -> (r: Option<u32>)
        requires
            self.wf(),
        ensures
            r matches Some(i) ==> i < 65536 && self.baby@[i as int]@ == tb@,
            r is None ==> forall|i: int| 0 <= i < 65536 ==> #[trigger] self.baby@[i]@ != tb@,
    {
        let k = key64(tb);
        match self.index.get(&k) {
            Some(chain) => {
                proof {
                    assert forall|c: int| 0 <= c < chain@.len() implies #[trigger] chain@[c]
                        < 65536 by {
                        assert(chain@.contains(chain@[c]));
                    }
                }
                let s = scan_chain(&self.baby, chain, tb);
                proof {
                    if s is None {
                        assert forall|i: int| 0 <= i < 65536 implies #[trigger] self.baby@[i]@
                            != tb@ by {
                            if self.baby@[i]@ == tb@ {
                                assert(key64_of(self.baby@[i]@) == k);
                                assert(self.index@[k]@.contains(i as u32));
                                let c = choose|c: int|
                                    0 <= c < chain@.len() && chain@[c] == i as u32;
                                assert(self.baby@[chain@[c] as int]@ != tb@);
                            }
                        }
                    }
                }
                s
            },
            None => {
                proof {
                    assert forall|i: int| 0 <= i < 65536 implies #[trigger] self.baby@[i]@
                        != tb@ by {
                        if self.baby@[i]@ == tb@ {
                            assert(self.index@.contains_key(key64_of(self.baby@[i]@)));
                        }
                    }
                }
                None
            },
        }
    }

    /// Recover the plaintext of `ct` under `sk` when it lies in the `u32`
    /// range, and report `DecryptionOutOfRange` exactly otherwise.
    pub fn decrypt(&self, sk: &ElgamalSecretKey, ct: &CipherText) -> (r: Result<
        u32,
        MercatError,
    >)
        ensures
            r is Ok <==> ct_dec(sk.secret_val(), *ct) < 0x100000000,
            r matches Ok(v) ==> v as int == ct_dec(sk.secret_val(), *ct),
            r matches Err(e) ==> e == MercatError::DecryptionOutOfRange,
    {
        proof {
            use_type_invariant(self);
        }
        let ghost skv = sk.secret_val();
        let ghost d = ct_dec(skv, *ct);
        let sk_x = point_mul(sk.secret(), &ct.x);
        let m_pt = point_sub(&ct.y, &sk_x);
        proof {
            lemma_gmod_sub_right(ct.y.log(), skv * ct.x.log());
            lemma_gmod_range(ct.y.log() - skv * ct.x.log());
        }
        let mut target = m_pt;
        let mut j: u32 = 0;
        while j < 65536
            invariant
                0 <= j <= 65536,
                0 <= d < group_order(),
                d == ct_dec(skv, *ct),
                skv == sk.secret_val(),
                self.wf(),
                target.log() == gmod(d - (j as int) * 65536),
                forall|jj: int| 0 <= jj < j ==> #[trigger] giant_residue(d, jj) >= 65536,
            decreases 65536 - j,
        {
            let tb = target.to_bytes();
            proof {
                use_type_invariant(target);
                Point::lemma_canonical(target);
            }
            match self.lookup(&tb) {
                Some(i) => {
                    proof {
                        assert(point_log(self.baby@[i as int]@) == i);
                        lemma_bsgs_exact(d, i as int, j as int, 65536);
                    }
                    return Ok(i + j * 65536);
                },
                None => {
                    proof {
                        let t = gmod(d - (j as int) * 65536);
                        lemma_gmod_range(d - (j as int) * 65536);
                        if t < 65536 {
                            assert(self.baby@[t]@ == base_repr(t));
                            assert(target@ == base_repr(t));
                            assert(self.baby@[t]@ == tb@);
                            assert(false);
                        }
                    }
                },
            }
            let next = point_sub(&target, &self.giant);
            proof {
                lemma_gmod_sub_left(d - (j as int) * 65536, 65536);
            }
            target = next;
            j = j + 1;
        }
        proof {
            if d < 0x100000000 {
                lemma_bsgs_split(d);
                let j0 = d / 0x10000;
                assert(giant_residue(d, j0) >= 65536);
                assert(false);
            }
        }
        Err(MercatError::DecryptionOutOfRange)
    }
}

/// Step from `i * B` to `(i + 1) * B`.
fn point_add_small(cur: &Point, base: &Point, i: usize) -> (r: Point)
    requires
        cur.log() == i,
        base.log() == 1,
        i < 65536,
    ensures
        r.log() == i + 1,
{
    let r = point_add(cur, base);
    proof {
        lemma_gmod_small(i + 1);
    }
    r
}

} // verus!
