//! Groth16 verification over BN254 with a fixed, seven-input verifying key.
//!
//! The curve operations run on a pairing back end; each one is deterministic
//! in its input bytes, so its outcome carries an uninterpreted name that the
//! contracts chain together. The input preparation loop and the decision
//! logic around the pairing check are verified.

use vstd::prelude::*;

use crate::errors::Groth16Error;
use crate::field::{below_field_modulus, spec_below_modulus};

verus! {

/// What the G1 scalar multiplication of the pairing back end returns for a
/// given big-endian input, `None` standing for its error.
pub uninterp spec fn bn_g1_mul_be(input: Seq<u8>) -> Option<Seq<u8>>;

/// What the G1 point addition of the pairing back end returns for a given
/// big-endian input, `None` standing for its error.
pub uninterp spec fn bn_g1_add_be(input: Seq<u8>) -> Option<Seq<u8>>;

/// What the multi-pairing check of the pairing back end returns for a given
/// big-endian input, `None` standing for its error.
pub uninterp spec fn bn_pairing_be(input: Seq<u8>) -> Option<Seq<u8>>;

/// Relies on `solana_bn254::prelude::alt_bn128_g1_multiplication_be`: scalar
/// multiplication of a G1 point, 64-byte big-endian point then 32-byte
/// big-endian scalar; a successful result is a 64-byte point.
#[verifier::external_body]
fn g1_mul_be(input: &Vec<u8>) -> (r: Option<Vec<u8>>)
    ensures
        match r {
            Some(v) => bn_g1_mul_be(input@) == Some(v@) && v@.len() == 64,
            None => bn_g1_mul_be(input@) is None,
        },
{
    match solana_bn254::prelude::alt_bn128_g1_multiplication_be(input) {
        Ok(v) => Some(v),
        Err(_) => None,
    }
}

/// Relies on `solana_bn254::prelude::alt_bn128_g1_addition_be`: addition of
/// two 64-byte big-endian G1 points; a successful result is a 64-byte point.
#[verifier::external_body]
fn g1_add_be(input: &Vec<u8>) -> (r: Option<Vec<u8>>)
    ensures
        match r {
            Some(v) => bn_g1_add_be(input@) == Some(v@) && v@.len() == 64,
            None => bn_g1_add_be(input@) is None,
        },
{
    match solana_bn254::prelude::alt_bn128_g1_addition_be(input) {
        Ok(v) => Some(v),
        Err(_) => None,
    }
}

/// Relies on `solana_bn254::prelude::alt_bn128_pairing_be`: a multi-pairing
/// over 192-byte (G1, G2) pairs; a successful result is 32 bytes whose last
/// byte is 1 exactly when the pairing product is the identity.
#[verifier::external_body]
fn pairing_be(input: &Vec<u8>) -> (r: Option<Vec<u8>>)
    ensures
        match r {
            Some(v) => bn_pairing_be(input@) == Some(v@) && v@.len() == 32,
            None => bn_pairing_be(input@) is None,
        },
{
    match solana_bn254::prelude::alt_bn128_pairing_be(input) {
        Ok(v) => Some(v),
        Err(_) => None,
    }
}

/// The two byte strings, one after the other.
fn concat_bytes(a: &[u8], b: &[u8]) -> (r: Vec<u8>)
    ensures
        r@ == a@ + b@,
{
    let mut out: Vec<u8> = Vec::new();
    let mut i: usize = 0;
    while i < a.len()
        invariant
            i <= a.len(),
            out@ =~= a@.take(i as int),
        decreases a.len() - i,
    {
        out.push(a[i]);
        i = i + 1;
    }
    let mut j: usize = 0;
    while j < b.len()
        invariant
            j <= b.len(),
            out@ =~= a@ + b@.take(j as int),
        decreases b.len() - j,
    {
        out.push(b[j]);
        j = j + 1;
    }
    proof {
        assert(out@ =~= a@ + b@);
    }
    out
}

/// A Groth16 verifying key: the four pairing anchors and the accumulator
/// basis `vk_ic`, one point per public input plus the base point.
#[derive(Clone, Debug)]
pub struct Groth16Verifyingkey {
    pub nr_pubinputs: usize,
    pub vk_alpha_g1: [u8; 64],
    pub vk_beta_g2: [u8; 128],
    pub vk_gamme_g2: [u8; 128],
    pub vk_delta_g2: [u8; 128],
    pub vk_ic: Vec<[u8; 64]>,
}

/// One Groth16 verification in progress: the three proof points, the seven
/// public inputs, and the accumulated public-input point.
#[derive(Clone, Debug)]
pub struct Groth16Verifier {
    pub proof_a: [u8; 64],
    pub proof_b: [u8; 128],
    pub proof_c: [u8; 64],
    pub public_inputs: [[u8; 32]; 7],
    pub prepared_public_inputs: [u8; 64],
    pub verifyingkey: Groth16Verifyingkey,
}

/// The accumulated public-input point after the first `k` inputs, or the
/// error that stops the walk: an out-of-range input when `checked` is set,
/// then a failing scalar multiplication, then a failing addition, in the
/// order the loop meets them.
pub open spec fn spec_prepare_inputs_upto(
    vk_ic: Seq<[u8; 64]>,
    inputs: Seq<[u8; 32]>,
    checked: bool,
    k: int,
) -> Result<Seq<u8>, Groth16Error>
    decreases k,
{
    if k <= 0 {
        Ok(vk_ic[0]@)
    } else {
        match spec_prepare_inputs_upto(vk_ic, inputs, checked, k - 1) {
            Err(e) => Err(e),
            Ok(acc) => {
                if checked && !spec_below_modulus(inputs[k - 1]@) {
                    Err(Groth16Error::PublicInputGreaterThanFieldSize)
                } else {
                    match bn_g1_mul_be(vk_ic[k]@ + inputs[k - 1]@) {
                        None => Err(Groth16Error::PreparingInputsG1MulFailed),
                        Some(mul) => match bn_g1_add_be(mul + acc) {
                            None => Err(Groth16Error::PreparingInputsG1AdditionFailed),
                            Some(s) => Ok(s),
                        },
                    }
                }
            },
        }
    }
}

/// An error met after `k` inputs stops the whole walk with that error.
proof fn lemma_prepare_error_propagates(
    vk_ic: Seq<[u8; 64]>,
    inputs: Seq<[u8; 32]>,
    checked: bool,
    k: int,
    m: int,
)
    requires
        0 <= k <= m,
        spec_prepare_inputs_upto(vk_ic, inputs, checked, k) is Err,
    ensures
        spec_prepare_inputs_upto(vk_ic, inputs, checked, m) == spec_prepare_inputs_upto(
            vk_ic,
            inputs,
            checked,
            k,
        ),
    decreases m - k,
{
    if m > k {
        lemma_prepare_error_propagates(vk_ic, inputs, checked, k, m - 1);
    }
}

/// A walk that checked its inputs and succeeded saw only field elements.
pub proof fn lemma_prepare_ok_inputs_below(vk_ic: Seq<[u8; 64]>, inputs: Seq<[u8; 32]>, k: int)
    requires
        spec_prepare_inputs_upto(vk_ic, inputs, true, k) is Ok,
    ensures
        forall|i: int| 0 <= i < k ==> spec_below_modulus((#[trigger] inputs[i])@),
    decreases k,
{
    if k > 0 {
        lemma_prepare_ok_inputs_below(vk_ic, inputs, k - 1);
    }
}

/// Law: the checked path never accepts an out-of-range input. With any
/// public input at or above the field modulus, the verdict is an error,
/// never `Ok(true)`, whatever the curve back end returns along the way.
pub proof fn lemma_checked_verify_rejects_out_of_range(v: Groth16Verifier, i: int)
    requires
        0 <= i < 7,
        !spec_below_modulus(v.public_inputs@[i]@),
    ensures
        spec_verify(v, true) is Err,
{
    if spec_prepare_inputs(v.verifyingkey.vk_ic@, v.public_inputs@, true) is Ok {
        lemma_prepare_ok_inputs_below(v.verifyingkey.vk_ic@, v.public_inputs@, 7);
        assert(false);
    }
}

/// The accumulated public-input point over all seven inputs.
pub open spec fn spec_prepare_inputs(
    vk_ic: Seq<[u8; 64]>,
    inputs: Seq<[u8; 32]>,
    checked: bool,
) -> Result<Seq<u8>, Groth16Error> {
    spec_prepare_inputs_upto(vk_ic, inputs, checked, inputs.len() as int)
}

/// The bytes handed to the multi-pairing: (proof_a, proof_b),
/// (prepared inputs, gamma), (proof_c, delta), (alpha, beta).
pub open spec fn spec_pairing_input(v: Groth16Verifier, prepared: Seq<u8>) -> Seq<u8> {
    v.proof_a@ + v.proof_b@ + prepared + v.verifyingkey.vk_gamme_g2@ + v.proof_c@
        + v.verifyingkey.vk_delta_g2@ + v.verifyingkey.vk_alpha_g1@ + v.verifyingkey.vk_beta_g2@
}

/// The verdict of one verification: input preparation, then the pairing
/// check, which passes exactly when the back end answers with a 1 in the
/// last byte.
pub open spec fn spec_verify(v: Groth16Verifier, checked: bool) -> Result<bool, Groth16Error> {
    match spec_prepare_inputs(v.verifyingkey.vk_ic@, v.public_inputs@, checked) {
        Err(e) => Err(e),
        Ok(prepared) => match bn_pairing_be(spec_pairing_input(v, prepared)) {
            None => Err(Groth16Error::ProofVerificationFailed),
            Some(res) => {
                if res.len() == 32 && res[31] == 1 {
                    Ok(true)
                } else {
                    Err(Groth16Error::ProofVerificationFailed)
                }
            },
        },
    }
}

impl Groth16Verifier {
    /// Builds a verifier after checking that the verifying key carries one
    /// basis point per public input, plus the base point.
    pub fn new(
        proof_a: &[u8; 64],
        proof_b: &[u8; 128],
        proof_c: &[u8; 64],
        public_inputs: &[[u8; 32]; 7],
        verifyingkey: Groth16Verifyingkey,
    ) -> (r: Result<Groth16Verifier, Groth16Error>)
        ensures
            match r {
                Ok(v) => {
                    &&& verifyingkey.vk_ic@.len() == 8
                    &&& v.proof_a == proof_a
                    &&& v.proof_b == proof_b
                    &&& v.proof_c == proof_c
                    &&& v.public_inputs == public_inputs
                    &&& v.prepared_public_inputs@ =~= Seq::<u8>::new(64, |i: int| 0u8)
                    &&& v.verifyingkey.vk_ic@ == verifyingkey.vk_ic@
                    &&& v.verifyingkey.vk_alpha_g1 == verifyingkey.vk_alpha_g1
                    &&& v.verifyingkey.vk_beta_g2 == verifyingkey.vk_beta_g2
                    &&& v.verifyingkey.vk_gamme_g2 == verifyingkey.vk_gamme_g2
                    &&& v.verifyingkey.vk_delta_g2 == verifyingkey.vk_delta_g2
                },
                Err(e) => {
                    &&& verifyingkey.vk_ic@.len() != 8
                    &&& e == Groth16Error::InvalidPublicInputsLength
                },
            },
    {
        if public_inputs.len() + 1 != verifyingkey.vk_ic.len() {
            return Err(Groth16Error::InvalidPublicInputsLength);
        }
        Ok(Groth16Verifier {
            proof_a: *proof_a,
            proof_b: *proof_b,
            proof_c: *proof_c,
            public_inputs: *public_inputs,
            prepared_public_inputs: [0u8; 64],
            verifyingkey,
        })
    }

    /// Walks the seven public inputs, accumulating the scalar-multiplied
    /// basis points into `prepared_public_inputs`.
    pub fn prepare_inputs(&mut self, checked: bool) -> (r: Result<(), Groth16Error>)
        requires
            old(self).verifyingkey.vk_ic@.len() == 8,
        ensures
            match r {
                Ok(()) => {
                    &&& spec_prepare_inputs(
                        old(self).verifyingkey.vk_ic@,
                        old(self).public_inputs@,
                        checked,
                    ) == Ok::<Seq<u8>, Groth16Error>(final(self).prepared_public_inputs@)
                    &&& *final(self) == Groth16Verifier {
                        prepared_public_inputs: final(self).prepared_public_inputs,
                        ..*old(self)
                    }
                },
                Err(e) => {
                    &&& spec_prepare_inputs(
                        old(self).verifyingkey.vk_ic@,
                        old(self).public_inputs@,
                        checked,
                    ) == Err::<Seq<u8>, Groth16Error>(e)
                    &&& *final(self) == *old(self)
                },
            },
    {
        let mut acc: Vec<u8> = slice_to_vec(&self.verifyingkey.vk_ic[0]);
        let mut i: usize = 0;
        while i < 7
            invariant
                i <= 7,
                *self == *old(self),
                self.verifyingkey.vk_ic@.len() == 8,
                spec_prepare_inputs_upto(
                    self.verifyingkey.vk_ic@,
                    self.public_inputs@,
                    checked,
                    i as int,
                ) == Ok::<Seq<u8>, Groth16Error>(acc@),
                acc@.len() == 64,
            decreases 7 - i,
        {
            let ghost vk_ic_view = self.verifyingkey.vk_ic@;
            let ghost inputs_view = self.public_inputs@;
            if checked && !below_field_modulus(&self.public_inputs[i]) {
                proof {
                    lemma_prepare_error_propagates(vk_ic_view, inputs_view, checked, i + 1, 7);
                }
                return Err(Groth16Error::PublicInputGreaterThanFieldSize);
            }
            let mul_input = concat_bytes(&self.verifyingkey.vk_ic[i + 1], &self.public_inputs[i]);
            let mul_res = match g1_mul_be(&mul_input) {
                Some(v) => v,
                None => {
                    proof {
                        lemma_prepare_error_propagates(vk_ic_view, inputs_view, checked, i + 1, 7);
                    }
                    return Err(Groth16Error::PreparingInputsG1MulFailed);
                },
            };
            let add_input = concat_bytes(mul_res.as_slice(), acc.as_slice());
            acc = match g1_add_be(&add_input) {
                Some(v) => v,
                None => {
                    proof {
                        lemma_prepare_error_propagates(vk_ic_view, inputs_view, checked, i + 1, 7);
                    }
                    return Err(Groth16Error::PreparingInputsG1AdditionFailed);
                },
            };
            i = i + 1;
        }
        let mut prepared = [0u8; 64];
        let mut j: usize = 0;
        while j < 64
            invariant
                j <= 64,
                acc@.len() == 64,
                forall|k: int| 0 <= k < j ==> prepared@[k] == acc@[k],
            decreases 64 - j,
        {
            prepared[j] = acc[j];
            j = j + 1;
        }
        proof {
            assert(prepared@ =~= acc@);
        }
        self.prepared_public_inputs = prepared;
        Ok(())
    }

    /// Verifies the proof, first checking every public input against the
    /// field modulus.
    pub fn verify(&mut self) -> (r: Result<bool, Groth16Error>)
        requires
            old(self).verifyingkey.vk_ic@.len() == 8,
        ensures
            r == spec_verify(*old(self), true),
    {
        self.verify_common(true)
    }

    /// Verifies the proof without the field-modulus bound check; for callers
    /// that already guarantee every input is a field element.
    pub fn verify_unchecked(&mut self) -> (r: Result<bool, Groth16Error>)
        requires
            old(self).verifyingkey.vk_ic@.len() == 8,
        ensures
            r == spec_verify(*old(self), false),
    {
        self.verify_common(false)
    }

    /// Prepares the public inputs, then runs the single pairing check.
    fn verify_common(&mut self, checked: bool) -> (r: Result<bool, Groth16Error>)
        requires
            old(self).verifyingkey.vk_ic@.len() == 8,
        ensures
            r == spec_verify(*old(self), checked),
    {
        match self.prepare_inputs(checked) {
            Ok(()) => {},
            Err(e) => {
                return Err(e);
            },
        }
        let part1 = concat_bytes(&self.proof_a, &self.proof_b);
        let part2 = concat_bytes(part1.as_slice(), &self.prepared_public_inputs);
        let part3 = concat_bytes(part2.as_slice(), &self.verifyingkey.vk_gamme_g2);
        let part4 = concat_bytes(part3.as_slice(), &self.proof_c);
        let part5 = concat_bytes(part4.as_slice(), &self.verifyingkey.vk_delta_g2);
        let part6 = concat_bytes(part5.as_slice(), &self.verifyingkey.vk_alpha_g1);
        let pairing_input = concat_bytes(part6.as_slice(), &self.verifyingkey.vk_beta_g2);
        proof {
            assert(pairing_input@ =~= spec_pairing_input(
                *old(self),
                self.prepared_public_inputs@,
            ));
        }
        let pairing_res = match pairing_be(&pairing_input) {
            Some(v) => v,
            None => {
                return Err(Groth16Error::ProofVerificationFailed);
            },
        };
        if pairing_res[31] != 1 {
            return Err(Groth16Error::ProofVerificationFailed);
        }
        Ok(true)
    }
}

/// A fixed-size slice, copied into a vector.
fn slice_to_vec(a: &[u8; 64]) -> (r: Vec<u8>)
    ensures
        r@ == a@,
{
    let mut out: Vec<u8> = Vec::new();
    let mut i: usize = 0;
    while i < 64
        invariant
            i <= 64,
            out@ =~= a@.take(i as int),
        decreases 64 - i,
    {
        out.push(a[i]);
        i = i + 1;
    }
    proof {
        assert(out@ =~= a@);
    }
    out
}

/// True iff the 32 big-endian bytes are strictly below the BN254 scalar-field
/// modulus.
pub fn is_less_than_bn254_field_size_be(bytes: &[u8; 32]) -> (r: bool)
    ensures
        r == spec_below_modulus(bytes@),
{
    below_field_modulus(bytes)
}

} // verus!
