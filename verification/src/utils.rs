//! The public-amount equation, the fee policy, and byte-order helpers.

use vstd::prelude::*;
use vstd::arithmetic::mul::*;

use ark_serialize::{CanonicalDeserialize, CanonicalSerialize, Compress, Validate};
use core::ops::Neg;

use crate::error::ErrorCode;
use crate::errors::Groth16Error;
use crate::groth16::{
    bn_pairing_be, spec_pairing_input, spec_prepare_inputs, Groth16Verifier, Groth16Verifyingkey,
};
use crate::Proof;
use crate::field::{
    be_chunk_u128, be_val, field_modulus, lemma_be32_halves, lemma_field_modulus_halves,
    le_val, lemma_halves_unique, lemma_pow256_16, lemma_pow256_pos, pow256, reduce_be_mod_p,
    reduce_le_mod_p, FIELD_MODULUS_HI, FIELD_MODULUS_LO,
};

verus! {

type G1 = ark_bn254::g1::G1Affine;

/// The field element the proof's public amount must equal, if the pair
/// `(ext_amount, fee)` is acceptable at all.
///
/// A deposit of `A` with fee `F` is worth `A - F` and must exceed its fee; a
/// withdrawal of `A` is worth the additive inverse of `A + F` in the field.
/// `i64::MIN` has no signed negation and is always rejected.
pub open spec fn spec_public_amount(ext_amount: i64, fee: u64) -> Option<nat> {
    if ext_amount == i64::MIN {
        None
    } else if ext_amount >= 0 {
        if ext_amount <= fee {
            None
        } else {
            Some((ext_amount - fee) as nat)
        }
    } else {
        Some((field_modulus() - ((-ext_amount) + fee)) as nat)
    }
}

/// Whether `pub_bytes`, reduced into the field, equals the public amount the
/// equation demands for `(ext_amount, fee)`.
pub open spec fn spec_check_public_amount(ext_amount: i64, fee: u64, pub_bytes: Seq<u8>) -> bool {
    match spec_public_amount(ext_amount, fee) {
        None => false,
        Some(v) => v == be_val(pub_bytes) % field_modulus(),
    }
}

/// Checks the public-amount equation of one transfer.
pub fn check_public_amount(ext_amount: i64, fee: u64, public_amount_bytes: [u8; 32]) -> (r: bool)
    ensures
        r == spec_check_public_amount(ext_amount, fee, public_amount_bytes@),
{
    if ext_amount == i64::MIN {
        return false;
    }
    let reduced = reduce_be_mod_p(&public_amount_bytes);
    let hi = be_chunk_u128(&reduced, 0);
    let lo = be_chunk_u128(&reduced, 16);
    proof {
        lemma_be32_halves(reduced@);
        lemma_field_modulus_halves();
        lemma_pow256_16();
    }
    if ext_amount >= 0 {
        let a = ext_amount as u64;
        if a <= fee {
            return false;
        }
        let expected: u64 = a - fee;
        let r = hi == 0 && lo == (expected as u128);
        proof {
            let v = be_val(reduced@);
            if r {
                assert(0 * pow256(16) == 0) by {
                    lemma_mul_basics(pow256(16) as int);
                }
                assert(v == expected);
            } else if v == expected {
                lemma_halves_unique(hi as nat, lo as nat, 0, expected as nat);
                assert(false);
            }
        }
        r
    } else {
        let a = (-ext_amount) as u64;
        let s: u128 = (a as u128) + (fee as u128);
        let lo_expected: u128 = FIELD_MODULUS_LO - s;
        let r = hi == FIELD_MODULUS_HI && lo == lo_expected;
        proof {
            let v = be_val(reduced@);
            let e = (field_modulus() - (a + fee)) as nat;
            assert(e == (FIELD_MODULUS_HI as nat) * pow256(16) + (lo_expected as nat));
            if r {
                assert(v == e);
            } else if v == e {
                lemma_halves_unique(hi as nat, lo as nat, FIELD_MODULUS_HI as nat,
                    lo_expected as nat);
                assert(false);
            }
        }
        r
    }
}

/// The expected fee of one leg, narrowed to 64 bits.
pub open spec fn spec_expected_fee(amount: nat, rate: nat) -> nat {
    ((amount * rate) / 10000) % 0x1_0000_0000_0000_0000
}

/// The outcome of the fee-policy check for one leg of `amount` at `rate`.
///
/// The least acceptable fee is the expected fee shrunk by the error margin,
/// `floor(expected * (10000 - margin) / 10000)`, and zero when the expected
/// fee is zero. A margin above 10000 basis points cannot be subtracted and
/// surfaces as an arithmetic error, as long as any fee is expected at all.
pub open spec fn spec_validate_fee_leg(amount: nat, rate: u16, margin: u16, fee: u64) -> Result<
    (),
    ErrorCode,
> {
    let expected = spec_expected_fee(amount, rate as nat);
    if expected == 0 {
        Ok(())
    } else if margin > 10000 {
        Err(ErrorCode::ArithmeticOverflow)
    } else if fee >= (expected * ((10000 - margin) as nat)) / 10000 {
        Ok(())
    } else {
        Err(ErrorCode::InvalidFeeAmount)
    }
}

/// The outcome of the fee-policy check: deposits are charged at the deposit
/// rate, withdrawals at the withdrawal rate, and a zero movement owes nothing.
pub open spec fn spec_validate_fee(
    ext_amount: i64,
    fee: u64,
    deposit_fee_rate: u16,
    withdrawal_fee_rate: u16,
    fee_error_margin: u16,
) -> Result<(), ErrorCode> {
    if ext_amount > 0 {
        spec_validate_fee_leg(ext_amount as nat, deposit_fee_rate, fee_error_margin, fee)
    } else if ext_amount < 0 {
        if ext_amount == i64::MIN {
            Err(ErrorCode::ArithmeticOverflow)
        } else {
            spec_validate_fee_leg((-ext_amount) as nat, withdrawal_fee_rate, fee_error_margin, fee)
        }
    } else {
        Ok(())
    }
}

/// Validates the provided fee against the configured rates and margin.
pub fn validate_fee(
    ext_amount: i64,
    provided_fee: u64,
    deposit_fee_rate: u16,
    withdrawal_fee_rate: u16,
    fee_error_margin: u16,
) -> (r: Result<(), ErrorCode>)
    ensures
        r == spec_validate_fee(
            ext_amount,
            provided_fee,
            deposit_fee_rate,
            withdrawal_fee_rate,
            fee_error_margin,
        ),
{
    if ext_amount > 0 {
        validate_fee_leg(ext_amount as u64, deposit_fee_rate, fee_error_margin, provided_fee)
    } else if ext_amount < 0 {
        if ext_amount == i64::MIN {
            Err(ErrorCode::ArithmeticOverflow)
        } else {
            validate_fee_leg((-ext_amount) as u64, withdrawal_fee_rate, fee_error_margin,
                provided_fee)
        }
    } else {
        Ok(())
    }
}

/// One leg of the fee check, shared by deposits and withdrawals.
fn validate_fee_leg(amount: u64, rate: u16, margin: u16, fee: u64) -> (r: Result<(), ErrorCode>)
    ensures
        r == spec_validate_fee_leg(amount as nat, rate, margin, fee),
{
    proof {
        assert((amount as int) * (rate as int) <= 0xffff_ffff_ffff_ffff * 0xffff) by {
            lemma_mul_upper_bound(amount as int, 0xffff_ffff_ffff_ffff, rate as int, 0xffff);
        }
    }
    let wide: u128 = (amount as u128) * (rate as u128);
    let expected_wide: u128 = wide / 10000;
    // The wide quotient is narrowed to 64 bits before it is widened again;
    // the explicit remainder keeps that narrowing visible.
    let expected: u128 = expected_wide % 0x1_0000_0000_0000_0000;
    if expected == 0 {
        Ok(())
    } else if margin > 10000 {
        Err(ErrorCode::ArithmeticOverflow)
    } else {
        proof {
            assert((expected as int) * ((10000 - margin) as int) <= 0xffff_ffff_ffff_ffff * 10000)
                by {
                lemma_mul_upper_bound(expected as int, 0xffff_ffff_ffff_ffff,
                    (10000 - margin) as int, 10000);
            }
        }
        let min_wide: u128 = expected * ((10000 - margin) as u128);
        let min_acceptable: u128 = min_wide / 10000;
        if fee as u128 >= min_acceptable {
            Ok(())
        } else {
            Err(ErrorCode::InvalidFeeAmount)
        }
    }
}

/// The byte string with each 32-byte chunk reversed; a trailing short chunk
/// is reversed in place as well.
pub open spec fn spec_change_endianness(s: Seq<u8>) -> Seq<u8> {
    Seq::new(
        s.len(),
        |i: int|
            {
                let start = (i / 32) * 32;
                let end = if start + 32 <= s.len() {
                    start + 32
                } else {
                    s.len() as int
                };
                s[start + (end - 1 - i)]
            },
    )
}

/// Reverses the byte order of each 32-byte chunk.
pub fn change_endianness(bytes: &[u8]) -> (r: Vec<u8>)
    ensures
        r@ == spec_change_endianness(bytes@),
{
    let mut out: Vec<u8> = Vec::new();
    let n = bytes.len();
    let mut start: usize = 0;
    while start < n
        invariant
            start <= n,
            start % 32 == 0 || start == n,
            n == bytes@.len(),
            out@.len() == start,
            forall|k: int| 0 <= k < start ==> out@[k] == spec_change_endianness(bytes@)[k],
        decreases n - start,
    {
        let end = if n - start >= 32 {
            start + 32
        } else {
            n
        };
        let mut j = end;
        while j > start
            invariant
                start < end <= n,
                start <= j <= end,
                start % 32 == 0,
                end == if start + 32 <= n {
                    start + 32
                } else {
                    n as int
                },
                n == bytes@.len(),
                out@.len() == start + (end - j),
                forall|k: int| 0 <= k < start ==> out@[k] == spec_change_endianness(bytes@)[k],
                forall|k: int|
                    start <= k < start + (end - j) ==> out@[k] == bytes@[start + (end - 1 - k)],
            decreases j,
        {
            j = j - 1;
            out.push(bytes[j]);
        }
        proof {
            assert forall|k: int| start <= k < end implies out@[k] == spec_change_endianness(
                bytes@,
            )[k] by {
                assert(k / 32 == start as int / 32) by {
                    assert(start <= k < start + 32);
                }
                assert((k / 32) * 32 == start);
            }
        }
        start = end;
    }
    proof {
        assert(out@ =~= spec_change_endianness(bytes@));
    }
    out
}


/// The asset identifier of the native token.
pub const SOL_ADDRESS: [u8; 32] = [
    0, 0, 0, 0, 0, 0, 0, 0, 0, 0, 0, 0, 0, 0, 0, 0, 0, 0, 0, 0, 0, 0, 0, 0, 0, 0, 0, 0, 0, 0, 0,
    1,
];

/// The deployed verifying key's alpha point.
pub open spec fn spec_vk_alpha_g1() -> Seq<u8> {
    seq![
        45u8, 77, 154, 167, 227, 2, 217, 223, 65, 116, 157, 85, 7, 148, 157, 5,
        219, 234, 51, 251, 177, 108, 100, 59, 34, 245, 153, 162, 190, 109, 242, 226,
        20, 190, 221, 80, 60, 55, 206, 176, 97, 216, 236, 96, 32, 159, 227, 69,
        206, 137, 131, 10, 25, 35, 3, 1, 240, 118, 202, 255, 0, 77, 25, 38,
    ]
}

/// The deployed verifying key's beta point.
pub open spec fn spec_vk_beta_g2() -> Seq<u8> {
    seq![
        9u8, 103, 3, 47, 203, 247, 118, 209, 175, 201, 133, 248, 136, 119, 241, 130,
        211, 132, 128, 166, 83, 242, 222, 202, 169, 121, 76, 188, 59, 243, 6, 12,
        14, 24, 120, 71, 173, 76, 121, 131, 116, 208, 214, 115, 43, 245, 1, 132,
        125, 214, 139, 192, 224, 113, 36, 30, 2, 19, 188, 127, 193, 61, 183, 171,
        48, 76, 251, 209, 224, 138, 112, 74, 153, 245, 232, 71, 217, 63, 140, 60,
        170, 253, 222, 196, 107, 122, 13, 55, 157, 166, 154, 77, 17, 35, 70, 167,
        23, 57, 193, 177, 164, 87, 168, 199, 49, 49, 35, 210, 77, 47, 145, 146,
        248, 150, 183, 198, 62, 234, 5, 169, 213, 127, 6, 84, 122, 208, 206, 200,
    ]
}

/// The deployed verifying key's gamma point.
pub open spec fn spec_vk_gamme_g2() -> Seq<u8> {
    seq![
        25u8, 142, 147, 147, 146, 13, 72, 58, 114, 96, 191, 183, 49, 251, 93, 37,
        241, 170, 73, 51, 53, 169, 231, 18, 151, 228, 133, 183, 174, 243, 18, 194,
        24, 0, 222, 239, 18, 31, 30, 118, 66, 106, 0, 102, 94, 92, 68, 121,
        103, 67, 34, 212, 247, 94, 218, 221, 70, 222, 189, 92, 217, 146, 246, 237,
        9, 6, 137, 208, 88, 95, 240, 117, 236, 158, 153, 173, 105, 12, 51, 149,
        188, 75, 49, 51, 112, 179, 142, 243, 85, 172, 218, 220, 209, 34, 151, 91,
        18, 200, 94, 165, 219, 140, 109, 235, 74, 171, 113, 128, 141, 203, 64, 143,
        227, 209, 231, 105, 12, 67, 211, 123, 76, 230, 204, 1, 102, 250, 125, 170,
    ]
}

/// The deployed verifying key's delta point.
pub open spec fn spec_vk_delta_g2() -> Seq<u8> {
    seq![
        25u8, 252, 204, 73, 0, 218, 132, 40, 192, 175, 106, 179, 247, 34, 6, 163,
        111, 68, 46, 211, 76, 146, 16, 158, 28, 23, 146, 254, 157, 94, 7, 92,
        34, 128, 9, 143, 49, 11, 128, 172, 203, 141, 109, 166, 180, 82, 110, 179,
        223, 71, 56, 138, 77, 154, 73, 160, 146, 198, 203, 125, 196, 135, 167, 56,
        21, 152, 106, 224, 184, 3, 47, 85, 250, 118, 220, 185, 175, 242, 111, 30,
        40, 24, 69, 173, 252, 13, 109, 1, 241, 162, 122, 76, 24, 38, 72, 88,
        45, 118, 91, 197, 236, 236, 152, 29, 29, 233, 108, 250, 155, 255, 230, 156,
        182, 159, 1, 3, 41, 60, 40, 136, 181, 220, 23, 150, 130, 211, 23, 83,
    ]
}

/// The deployed verifying key's accumulator basis, one point per index.
pub open spec fn spec_vk_ic(i: int) -> Seq<u8> {
    if i == 0 {
        seq![
            35u8, 121, 23, 162, 32, 101, 247, 115, 177, 199, 50, 158, 3, 60, 188, 95,
            91, 29, 121, 210, 53, 155, 245, 226, 203, 245, 186, 167, 39, 32, 160, 202,
            22, 22, 168, 160, 125, 45, 56, 45, 132, 214, 20, 198, 76, 81, 2, 150,
            0, 61, 86, 130, 105, 170, 141, 244, 13, 180, 81, 79, 18, 166, 129, 129,
        ]
    } else if i == 1 {
        seq![
            13u8, 148, 63, 234, 185, 42, 3, 159, 127, 24, 240, 200, 72, 24, 176, 7,
            181, 215, 212, 52, 13, 160, 172, 182, 177, 22, 235, 4, 173, 229, 25, 108,
            46, 61, 233, 184, 181, 152, 132, 103, 252, 100, 229, 144, 217, 36, 39, 254,
            67, 237, 70, 214, 192, 231, 140, 86, 113, 40, 11, 88, 12, 150, 157, 226,
        ]
    } else if i == 2 {
        seq![
            26u8, 105, 150, 204, 178, 202, 26, 62, 39, 178, 179, 225, 133, 140, 138, 40,
            60, 187, 99, 57, 237, 7, 203, 159, 251, 103, 46, 207, 219, 186, 19, 64,
            0, 42, 73, 5, 76, 48, 115, 80, 96, 29, 197, 213, 228, 240, 7, 144,
            140, 3, 127, 89, 87, 247, 98, 153, 174, 81, 7, 158, 183, 80, 139, 147,
        ]
    } else if i == 3 {
        seq![
            6u8, 249, 88, 104, 56, 74, 144, 136, 129, 176, 70, 216, 18, 147, 78, 141,
            24, 93, 95, 242, 68, 49, 215, 152, 246, 110, 151, 241, 228, 59, 230, 187,
            29, 56, 186, 210, 200, 190, 93, 64, 110, 0, 55, 105, 166, 104, 208, 46,
            82, 81, 146, 136, 179, 99, 104, 232, 99, 248, 162, 137, 21, 217, 220, 77,
        ]
    } else if i == 4 {
        seq![
            34u8, 163, 170, 91, 254, 215, 220, 175, 71, 67, 56, 43, 178, 48, 92, 7,
            170, 124, 201, 232, 207, 202, 134, 80, 123, 31, 26, 236, 76, 175, 186, 155,
            46, 253, 236, 170, 12, 248, 30, 127, 51, 136, 100, 51, 34, 7, 218, 21,
            133, 51, 148, 235, 92, 210, 117, 134, 121, 78, 166, 90, 10, 194, 193, 148,
        ]
    } else if i == 5 {
        seq![
            36u8, 180, 82, 206, 231, 195, 86, 41, 106, 145, 21, 107, 234, 233, 139, 225,
            54, 131, 165, 186, 77, 127, 180, 146, 240, 188, 64, 37, 52, 96, 13, 163,
            24, 163, 180, 194, 36, 190, 184, 250, 134, 211, 189, 81, 228, 125, 4, 21,
            20, 20, 255, 26, 142, 105, 230, 174, 244, 121, 184, 65, 9, 40, 77, 148,
        ]
    } else if i == 6 {
        seq![
            11u8, 24, 12, 201, 201, 217, 179, 163, 6, 167, 37, 40, 172, 236, 81, 246,
            31, 38, 112, 17, 100, 163, 111, 57, 31, 198, 231, 63, 224, 178, 38, 76,
            12, 154, 160, 41, 58, 177, 5, 197, 223, 113, 12, 75, 237, 239, 9, 40,
            178, 44, 222, 130, 125, 221, 142, 241, 213, 58, 131, 242, 120, 108, 213, 163,
        ]
    } else if i == 7 {
        seq![
            1u8, 83, 134, 187, 30, 49, 61, 118, 206, 110, 225, 192, 155, 101, 155, 204,
            202, 49, 229, 41, 148, 232, 24, 47, 85, 47, 108, 99, 113, 12, 209, 88,
            41, 144, 185, 30, 176, 46, 190, 244, 148, 151, 142, 64, 45, 22, 16, 17,
            48, 122, 183, 81, 187, 18, 142, 10, 230, 78, 6, 42, 245, 140, 166, 121,
        ]
    } else {
        Seq::empty()
    }
}

/// The process-wide Groth16 verifying key, fixed by the trusted setup.
pub fn verifying_key() -> (r: Groth16Verifyingkey)
    ensures
        r.nr_pubinputs == 7,
        r.vk_alpha_g1@ == spec_vk_alpha_g1(),
        r.vk_beta_g2@ == spec_vk_beta_g2(),
        r.vk_gamme_g2@ == spec_vk_gamme_g2(),
        r.vk_delta_g2@ == spec_vk_delta_g2(),
        r.vk_ic@.len() == 8,
        forall|i: int| 0 <= i < 8 ==> (#[trigger] r.vk_ic@[i])@ == spec_vk_ic(i),
{
    let mut vk_ic: Vec<[u8; 64]> = Vec::new();
    vk_ic.push([
        35, 121, 23, 162, 32, 101, 247, 115, 177, 199, 50, 158, 3, 60, 188, 95,
        91, 29, 121, 210, 53, 155, 245, 226, 203, 245, 186, 167, 39, 32, 160, 202,
        22, 22, 168, 160, 125, 45, 56, 45, 132, 214, 20, 198, 76, 81, 2, 150,
        0, 61, 86, 130, 105, 170, 141, 244, 13, 180, 81, 79, 18, 166, 129, 129,
    ]);
    vk_ic.push([
        13, 148, 63, 234, 185, 42, 3, 159, 127, 24, 240, 200, 72, 24, 176, 7,
        181, 215, 212, 52, 13, 160, 172, 182, 177, 22, 235, 4, 173, 229, 25, 108,
        46, 61, 233, 184, 181, 152, 132, 103, 252, 100, 229, 144, 217, 36, 39, 254,
        67, 237, 70, 214, 192, 231, 140, 86, 113, 40, 11, 88, 12, 150, 157, 226,
    ]);
    vk_ic.push([
        26, 105, 150, 204, 178, 202, 26, 62, 39, 178, 179, 225, 133, 140, 138, 40,
        60, 187, 99, 57, 237, 7, 203, 159, 251, 103, 46, 207, 219, 186, 19, 64,
        0, 42, 73, 5, 76, 48, 115, 80, 96, 29, 197, 213, 228, 240, 7, 144,
        140, 3, 127, 89, 87, 247, 98, 153, 174, 81, 7, 158, 183, 80, 139, 147,
    ]);
    vk_ic.push([
        6, 249, 88, 104, 56, 74, 144, 136, 129, 176, 70, 216, 18, 147, 78, 141,
        24, 93, 95, 242, 68, 49, 215, 152, 246, 110, 151, 241, 228, 59, 230, 187,
        29, 56, 186, 210, 200, 190, 93, 64, 110, 0, 55, 105, 166, 104, 208, 46,
        82, 81, 146, 136, 179, 99, 104, 232, 99, 248, 162, 137, 21, 217, 220, 77,
    ]);
    vk_ic.push([
        34, 163, 170, 91, 254, 215, 220, 175, 71, 67, 56, 43, 178, 48, 92, 7,
        170, 124, 201, 232, 207, 202, 134, 80, 123, 31, 26, 236, 76, 175, 186, 155,
        46, 253, 236, 170, 12, 248, 30, 127, 51, 136, 100, 51, 34, 7, 218, 21,
        133, 51, 148, 235, 92, 210, 117, 134, 121, 78, 166, 90, 10, 194, 193, 148,
    ]);
    vk_ic.push([
        36, 180, 82, 206, 231, 195, 86, 41, 106, 145, 21, 107, 234, 233, 139, 225,
        54, 131, 165, 186, 77, 127, 180, 146, 240, 188, 64, 37, 52, 96, 13, 163,
        24, 163, 180, 194, 36, 190, 184, 250, 134, 211, 189, 81, 228, 125, 4, 21,
        20, 20, 255, 26, 142, 105, 230, 174, 244, 121, 184, 65, 9, 40, 77, 148,
    ]);
    vk_ic.push([
        11, 24, 12, 201, 201, 217, 179, 163, 6, 167, 37, 40, 172, 236, 81, 246,
        31, 38, 112, 17, 100, 163, 111, 57, 31, 198, 231, 63, 224, 178, 38, 76,
        12, 154, 160, 41, 58, 177, 5, 197, 223, 113, 12, 75, 237, 239, 9, 40,
        178, 44, 222, 130, 125, 221, 142, 241, 213, 58, 131, 242, 120, 108, 213, 163,
    ]);
    vk_ic.push([
        1, 83, 134, 187, 30, 49, 61, 118, 206, 110, 225, 192, 155, 101, 155, 204,
        202, 49, 229, 41, 148, 232, 24, 47, 85, 47, 108, 99, 113, 12, 209, 88,
        41, 144, 185, 30, 176, 46, 190, 244, 148, 151, 142, 64, 45, 22, 16, 17,
        48, 122, 183, 81, 187, 18, 142, 10, 230, 78, 6, 42, 245, 140, 166, 121,
    ]);
    proof {
        assert(vk_ic@[0]@ =~= spec_vk_ic(0));
        assert(vk_ic@[1]@ =~= spec_vk_ic(1));
        assert(vk_ic@[2]@ =~= spec_vk_ic(2));
        assert(vk_ic@[3]@ =~= spec_vk_ic(3));
        assert(vk_ic@[4]@ =~= spec_vk_ic(4));
        assert(vk_ic@[5]@ =~= spec_vk_ic(5));
        assert(vk_ic@[6]@ =~= spec_vk_ic(6));
        assert(vk_ic@[7]@ =~= spec_vk_ic(7));
    }
    let r = Groth16Verifyingkey {
        nr_pubinputs: 7,
        vk_alpha_g1: [
        45, 77, 154, 167, 227, 2, 217, 223, 65, 116, 157, 85, 7, 148, 157, 5,
        219, 234, 51, 251, 177, 108, 100, 59, 34, 245, 153, 162, 190, 109, 242, 226,
        20, 190, 221, 80, 60, 55, 206, 176, 97, 216, 236, 96, 32, 159, 227, 69,
        206, 137, 131, 10, 25, 35, 3, 1, 240, 118, 202, 255, 0, 77, 25, 38,
        ],
        vk_beta_g2: [
        9, 103, 3, 47, 203, 247, 118, 209, 175, 201, 133, 248, 136, 119, 241, 130,
        211, 132, 128, 166, 83, 242, 222, 202, 169, 121, 76, 188, 59, 243, 6, 12,
        14, 24, 120, 71, 173, 76, 121, 131, 116, 208, 214, 115, 43, 245, 1, 132,
        125, 214, 139, 192, 224, 113, 36, 30, 2, 19, 188, 127, 193, 61, 183, 171,
        48, 76, 251, 209, 224, 138, 112, 74, 153, 245, 232, 71, 217, 63, 140, 60,
        170, 253, 222, 196, 107, 122, 13, 55, 157, 166, 154, 77, 17, 35, 70, 167,
        23, 57, 193, 177, 164, 87, 168, 199, 49, 49, 35, 210, 77, 47, 145, 146,
        248, 150, 183, 198, 62, 234, 5, 169, 213, 127, 6, 84, 122, 208, 206, 200,
        ],
        vk_gamme_g2: [
        25, 142, 147, 147, 146, 13, 72, 58, 114, 96, 191, 183, 49, 251, 93, 37,
        241, 170, 73, 51, 53, 169, 231, 18, 151, 228, 133, 183, 174, 243, 18, 194,
        24, 0, 222, 239, 18, 31, 30, 118, 66, 106, 0, 102, 94, 92, 68, 121,
        103, 67, 34, 212, 247, 94, 218, 221, 70, 222, 189, 92, 217, 146, 246, 237,
        9, 6, 137, 208, 88, 95, 240, 117, 236, 158, 153, 173, 105, 12, 51, 149,
        188, 75, 49, 51, 112, 179, 142, 243, 85, 172, 218, 220, 209, 34, 151, 91,
        18, 200, 94, 165, 219, 140, 109, 235, 74, 171, 113, 128, 141, 203, 64, 143,
        227, 209, 231, 105, 12, 67, 211, 123, 76, 230, 204, 1, 102, 250, 125, 170,
        ],
        vk_delta_g2: [
        25, 252, 204, 73, 0, 218, 132, 40, 192, 175, 106, 179, 247, 34, 6, 163,
        111, 68, 46, 211, 76, 146, 16, 158, 28, 23, 146, 254, 157, 94, 7, 92,
        34, 128, 9, 143, 49, 11, 128, 172, 203, 141, 109, 166, 180, 82, 110, 179,
        223, 71, 56, 138, 77, 154, 73, 160, 146, 198, 203, 125, 196, 135, 167, 56,
        21, 152, 106, 224, 184, 3, 47, 85, 250, 118, 220, 185, 175, 242, 111, 30,
        40, 24, 69, 173, 252, 13, 109, 1, 241, 162, 122, 76, 24, 38, 72, 88,
        45, 118, 91, 197, 236, 236, 152, 29, 29, 233, 108, 250, 155, 255, 230, 156,
        182, 159, 1, 3, 41, 60, 40, 136, 181, 220, 23, 150, 130, 211, 23, 83,
        ],
        vk_ic,
    };
    proof {
        assert(r.vk_alpha_g1@ =~= spec_vk_alpha_g1());
        assert(r.vk_beta_g2@ =~= spec_vk_beta_g2());
        assert(r.vk_gamme_g2@ =~= spec_vk_gamme_g2());
        assert(r.vk_delta_g2@ =~= spec_vk_delta_g2());
    }
    r
}

/// What negating a G1 point, read from two little-endian coordinates, yields
/// for a given 64-byte input, `None` standing for a malformed point.
pub uninterp spec fn g1_negate_le(input: Seq<u8>) -> Option<Seq<u8>>;

/// Relies on `ark_bn254::G1Affine::deserialize_with_mode` (two little-endian
/// coordinates plus an explicit infinity-marker byte, validated on the
/// curve), curve-point negation, and `ark_serialize` writing the negated
/// point's coordinates back: the outcome depends on the input bytes alone.
#[verifier::external_body]
fn negate_g1_le(input: &[u8; 64]) -> (r: Option<[u8; 64]>)
    ensures
        match r {
            Some(v) => g1_negate_le(input@) == Some(v@),
            None => g1_negate_le(input@) is None,
        },
{
    let bytes = [&input[..], &[0u8][..]].concat();
    let point = match G1::deserialize_with_mode(bytes.as_slice(), Compress::No, Validate::Yes) {
        Ok(p) => p,
        Err(_) => return None,
    };
    let neg = point.neg();
    let mut out = [0u8; 65];
    if neg.x.serialize_with_mode(&mut out[..32], Compress::No).is_err()
        || neg.y.serialize_with_mode(&mut out[32..], Compress::No).is_err() {
        return None;
    }
    let mut r = [0u8; 64];
    r.copy_from_slice(&out[..64]);
    Some(r)
}

/// What the SHA-256 digest of a byte string is.
pub uninterp spec fn spec_sha256(data: Seq<u8>) -> Seq<u8>;

/// Relies on `solana_program::hash::hash`: the SHA-256 digest of the input,
/// handed back as its 32 bytes.
#[verifier::external_body]
fn sha256_hash(data: &Vec<u8>) -> (r: [u8; 32])
    ensures
        r@ == spec_sha256(data@),
{
    solana_program::hash::hash(data.as_slice()).to_bytes()
}

/// A 64-byte vector, copied into an array.
fn vec_to_arr64(v: &Vec<u8>) -> (r: [u8; 64])
    requires
        v@.len() == 64,
    ensures
        r@ == v@,
{
    let mut r = [0u8; 64];
    let mut i: usize = 0;
    while i < 64
        invariant
            i <= 64,
            v@.len() == 64,
            forall|k: int| 0 <= k < i ==> r@[k] == v@[k],
        decreases 64 - i,
    {
        r[i] = v[i];
        i = i + 1;
    }
    proof {
        assert(r@ =~= v@);
    }
    r
}

/// The proof's seven public inputs, in the order the circuit fixes them.
pub open spec fn spec_public_inputs_of(proof: Proof) -> Seq<[u8; 32]> {
    seq![
        proof.root,
        proof.public_amount,
        proof.ext_data_hash,
        proof.input_nullifiers@[0],
        proof.input_nullifiers@[1],
        proof.output_commitments@[0],
        proof.output_commitments@[1],
    ]
}

/// Whether the Groth16 proof passes: the negated first proof point is
/// well-formed, the verifying key has its eight basis points, every public
/// input is a field element, and the pairing check answers 1.
pub open spec fn spec_verify_proof(proof: Proof, vk: Groth16Verifyingkey) -> bool {
    match g1_negate_le(spec_change_endianness(proof.proof_a@)) {
        None => false,
        Some(neg) => {
            let a = spec_change_endianness(neg);
            if vk.vk_ic@.len() != 8 {
                false
            } else {
                match spec_prepare_inputs(vk.vk_ic@, spec_public_inputs_of(proof), true) {
                    Err(_) => false,
                    Ok(prep) => match bn_pairing_be(
                        a + proof.proof_b@ + prep + vk.vk_gamme_g2@ + proof.proof_c@
                            + vk.vk_delta_g2@ + vk.vk_alpha_g1@ + vk.vk_beta_g2@,
                    ) {
                        None => false,
                        Some(res) => res.len() == 32 && res[31] == 1,
                    },
                }
            }
        },
    }
}

/// Verifies one transfer's proof against the verifying key: negates the
/// first proof point as the pairing convention demands, then runs the
/// checked verification over the seven public inputs.
pub fn verify_proof(proof: Proof, verifying_key: Groth16Verifyingkey) -> (r: bool)
    ensures
        r == spec_verify_proof(proof, verifying_key),
{
    let ghost vk0 = verifying_key;
    let mut public_inputs_vec: [[u8; 32]; 7] = [[0u8; 32]; 7];
    public_inputs_vec[0] = proof.root;
    public_inputs_vec[1] = proof.public_amount;
    public_inputs_vec[2] = proof.ext_data_hash;
    public_inputs_vec[3] = proof.input_nullifiers[0];
    public_inputs_vec[4] = proof.input_nullifiers[1];
    public_inputs_vec[5] = proof.output_commitments[0];
    public_inputs_vec[6] = proof.output_commitments[1];
    proof {
        assert(public_inputs_vec@ =~= spec_public_inputs_of(proof));
    }
    let le = change_endianness(&proof.proof_a);
    let le_arr = vec_to_arr64(&le);
    let neg = match negate_g1_le(&le_arr) {
        Some(v) => v,
        None => {
            return false;
        },
    };
    let neg_be = change_endianness(&neg);
    let proof_a = vec_to_arr64(&neg_be);
    let mut verifier = match Groth16Verifier::new(
        &proof_a,
        &proof.proof_b,
        &proof.proof_c,
        &public_inputs_vec,
        verifying_key,
    ) {
        Ok(v) => v,
        Err(_) => {
            return false;
        },
    };
    let ghost v0 = verifier;
    let outcome = verifier.verify();
    proof {
        assert(v0.public_inputs@ =~= spec_public_inputs_of(proof));
        assert(spec_pairing_input(v0, spec_prepare_inputs(vk0.vk_ic@, spec_public_inputs_of(proof), true)->Ok_0)
            =~= spec_change_endianness(neg@) + proof.proof_b@
                + spec_prepare_inputs(vk0.vk_ic@, spec_public_inputs_of(proof), true)->Ok_0
                + vk0.vk_gamme_g2@ + proof.proof_c@ + vk0.vk_delta_g2@ + vk0.vk_alpha_g1@
                + vk0.vk_beta_g2@);
    }
    match outcome {
        Ok(b) => b,
        Err(_) => false,
    }
}

/// The little-endian bytes of `n`, `len` of them: byte `i` is the value's
/// `i`-th base-256 digit.
pub open spec fn spec_le_bytes(n: nat, len: nat) -> Seq<u8> {
    Seq::new(len, |i: int| ((n / pow256(i as nat)) % 256) as u8)
}

/// The unsigned value whose 8-byte little-endian form encodes `v` in two's
/// complement.
pub open spec fn spec_i64_twos(v: i64) -> nat {
    if v >= 0 {
        v as nat
    } else {
        (v + 0x1_0000_0000_0000_0000) as nat
    }
}

/// The canonical byte form of one transfer's externally visible data: the
/// recipient, the signed amount, both encrypted outputs behind their
/// lengths, the fee, the fee recipient, and the asset identifier.
pub open spec fn spec_ext_data_bytes(
    recipient: Seq<u8>,
    ext_amount: i64,
    e1: Seq<u8>,
    e2: Seq<u8>,
    fee: u64,
    fee_recipient: Seq<u8>,
    mint: Seq<u8>,
) -> Seq<u8> {
    recipient + spec_le_bytes(spec_i64_twos(ext_amount), 8) + spec_le_bytes(
        e1.len() % 0x1_0000_0000,
        4,
    ) + e1 + spec_le_bytes(e2.len() % 0x1_0000_0000, 4) + e2 + spec_le_bytes(fee as nat, 8)
        + fee_recipient + mint
}

/// Pushes the 32 bytes of `a`.
fn push_bytes32(out: &mut Vec<u8>, a: &[u8; 32])
    ensures
        final(out)@ == old(out)@ + a@,
{
    push_slice(out, a);
}

/// Pushes every byte of `a`.
fn push_slice(out: &mut Vec<u8>, a: &[u8])
    ensures
        final(out)@ == old(out)@ + a@,
{
    let mut i: usize = 0;
    while i < a.len()
        invariant
            i <= a@.len(),
            out@ =~= old(out)@ + a@.take(i as int),
        decreases a@.len() - i,
    {
        out.push(a[i]);
        i = i + 1;
    }
    proof {
        assert(out@ =~= old(out)@ + a@);
    }
}

/// Pushes `len` little-endian base-256 digits of `n`, lowest first.
fn push_le(out: &mut Vec<u8>, n: u64, len: usize)
    requires
        len <= 8,
    ensures
        final(out)@ == old(out)@ + spec_le_bytes(n as nat, len as nat),
{
    let mut x = n;
    let mut k: usize = 0;
    proof {
        assert(pow256(0) == 1);
        assert((n as nat) / 1 == n as nat);
    }
    while k < len
        invariant
            k <= len,
            x as nat == (n as nat) / pow256(k as nat),
            out@.len() == old(out)@.len() + k,
            forall|j: int|
                0 <= j < out@.len() ==> out@[j] == (old(out)@ + spec_le_bytes(
                    n as nat,
                    len as nat,
                ))[j],
        decreases len - k,
    {
        proof {
            lemma_pow256_pos(k as nat);
            vstd::arithmetic::div_mod::lemma_div_denominator(
                n as int,
                pow256(k as nat) as int,
                256,
            );
        }
        out.push((x % 256) as u8);
        x = x / 256;
        k = k + 1;
    }
    proof {
        assert(out@ =~= old(out)@ + spec_le_bytes(n as nat, len as nat));
    }
}

/// The two's-complement unsigned form of `v`.
fn i64_twos(v: i64) -> (r: u64)
    ensures
        r as nat == spec_i64_twos(v),
{
    if v >= 0 {
        v as u64
    } else {
        let m = (-(v + 1)) as u64;
        0xffff_ffff_ffff_ffff - m
    }
}

/// The canonical hash binding one transfer's externally visible data: the
/// SHA-256 digest of its byte form.
pub fn calculate_complete_ext_data_hash(
    recipient: [u8; 32],
    ext_amount: i64,
    encrypted_output1: &[u8],
    encrypted_output2: &[u8],
    fee: u64,
    fee_recipient: [u8; 32],
    mint_address: [u8; 32],
) -> (r: Result<[u8; 32], ErrorCode>)
    ensures
        match r {
            Ok(h) => h@ == spec_sha256(
                spec_ext_data_bytes(
                    recipient@,
                    ext_amount,
                    encrypted_output1@,
                    encrypted_output2@,
                    fee,
                    fee_recipient@,
                    mint_address@,
                ),
            ),
            Err(_) => false,
        },
{
    let mut data: Vec<u8> = Vec::new();
    push_bytes32(&mut data, &recipient);
    let tw = i64_twos(ext_amount);
    push_le(&mut data, tw, 8);
    let l1 = (encrypted_output1.len() as u64) % 0x1_0000_0000;
    push_le(&mut data, l1, 4);
    push_slice(&mut data, encrypted_output1);
    let l2 = (encrypted_output2.len() as u64) % 0x1_0000_0000;
    push_le(&mut data, l2, 4);
    push_slice(&mut data, encrypted_output2);
    push_le(&mut data, fee, 8);
    push_bytes32(&mut data, &fee_recipient);
    push_bytes32(&mut data, &mint_address);
    proof {
        assert(data@ =~= spec_ext_data_bytes(
            recipient@,
            ext_amount,
            encrypted_output1@,
            encrypted_output2@,
            fee,
            fee_recipient@,
            mint_address@,
        ));
    }
    let h = sha256_hash(&data);
    Ok(h)
}

/// Whether the recomputed external-data hash, reduced into the field from
/// its little-endian form, equals the field element the proof binds.
pub open spec fn spec_ext_hash_matches(calculated: Seq<u8>, bound_be: Seq<u8>) -> bool {
    le_val(calculated) % field_modulus() == be_val(bound_be) % field_modulus()
}

/// Compares the recomputed external-data hash with the proof's bound field
/// element, both reduced into the field.
pub fn ext_hash_matches(calculated: &[u8; 32], bound: &[u8; 32]) -> (r: bool)
    ensures
        r == spec_ext_hash_matches(calculated@, bound@),
{
    let a = reduce_le_mod_p(calculated);
    let b = reduce_be_mod_p(bound);
    let a_hi = be_chunk_u128(&a, 0);
    let a_lo = be_chunk_u128(&a, 16);
    let b_hi = be_chunk_u128(&b, 0);
    let b_lo = be_chunk_u128(&b, 16);
    proof {
        lemma_be32_halves(a@);
        lemma_be32_halves(b@);
        if a_hi == b_hi && a_lo == b_lo {
            assert(be_val(a@) == be_val(b@));
        } else if be_val(a@) == be_val(b@) {
            lemma_halves_unique(a_hi as nat, a_lo as nat, b_hi as nat, b_lo as nat);
            assert(false);
        }
    }
    a_hi == b_hi && a_lo == b_lo
}


/// Law: the deposit round trip. A valid deposit's public amount is accepted
/// exactly when it reduces to `A - F`; growing the amount, the fee, or the
/// bound public amount by one breaks the equation.
pub proof fn lemma_deposit_round_trip(
    ext_amount: i64,
    fee: u64,
    pub_bytes: Seq<u8>,
    perturbed: Seq<u8>,
)
    requires
        0 < ext_amount,
        (fee as int) < ext_amount,
        be_val(pub_bytes) % field_modulus() == ext_amount - fee,
        be_val(perturbed) % field_modulus() != ext_amount - fee,
    ensures
        spec_check_public_amount(ext_amount, fee, pub_bytes),
        !spec_check_public_amount(ext_amount, fee, perturbed),
        ext_amount < i64::MAX ==> !spec_check_public_amount((ext_amount + 1) as i64, fee, pub_bytes),
        !spec_check_public_amount(ext_amount, (fee + 1) as u64, pub_bytes),
{
}

/// Law: the withdrawal sign. For a negative movement the accepted public
/// amount is the field's additive inverse of `A + F`, that is
/// `p - (A + F)`.
pub proof fn lemma_withdrawal_public_amount(ext_amount: i64, fee: u64, pub_bytes: Seq<u8>)
    requires
        ext_amount < 0,
        ext_amount != i64::MIN,
    ensures
        spec_check_public_amount(ext_amount, fee, pub_bytes) == (be_val(pub_bytes)
            % field_modulus() == field_modulus() - ((-ext_amount) + fee)),
{
}

/// Law: the fee floor vanishes with the rate. Whatever fee a deposit
/// offers, a zero deposit rate accepts it.
pub proof fn lemma_zero_rate_accepts_any_fee(
    ext_amount: i64,
    fee: u64,
    withdrawal_fee_rate: u16,
    fee_error_margin: u16,
)
    requires
        ext_amount > 0,
    ensures
        spec_validate_fee(ext_amount, fee, 0, withdrawal_fee_rate, fee_error_margin) == Ok::<
            (),
            ErrorCode,
        >(()),
{
    assert((ext_amount as nat) * 0 == 0) by {
        lemma_mul_basics(ext_amount as int);
    }
}

} // verus!
