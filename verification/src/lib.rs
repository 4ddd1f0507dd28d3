//! Validation core of a shielded-value transfer pool.
//!
//! The crate keeps an append-only Merkle accumulator of value commitments,
//! verifies Groth16 proofs over BN254 against seven public inputs, guards
//! against double spends with an insert-if-absent nullifier set, and composes
//! those pieces into a single transaction-validation entry point.

use vstd::prelude::*;

pub mod error;
pub mod errors;
pub mod field;
pub mod groth16;
pub mod merkle_tree;
pub mod nullifier;
pub mod state;
pub mod utils;

use crate::error::ErrorCode;

verus! {

/// The height of the deployed accumulator.
pub const MERKLE_TREE_HEIGHT: u8 = 26;

/// How many recent roots the deployed accumulator keeps queryable.
pub const ROOT_HISTORY_SIZE: u8 = 100;

/// One transfer's proof: three curve points and the seven public inputs the
/// circuit binds, all big-endian.
#[derive(Clone, Copy)]
pub struct Proof {
    pub proof_a: [u8; 64],
    pub proof_b: [u8; 128],
    pub proof_c: [u8; 64],
    pub root: [u8; 32],
    pub public_amount: [u8; 32],
    pub ext_data_hash: [u8; 32],
    pub input_nullifiers: [[u8; 32]; 2],
    pub output_commitments: [[u8; 32]; 2],
}

/// The externally visible side of one transfer.
#[derive(Clone, Copy)]
pub struct ExtData {
    pub recipient: [u8; 32],
    pub ext_amount: i64,
    pub fee: u64,
    pub fee_recipient: [u8; 32],
    pub mint_address: [u8; 32],
}

/// The caller-supplied part of the external data; the two addresses come
/// from the surrounding call's addressed parameters.
#[derive(Clone, Copy)]
pub struct ExtDataMinified {
    pub ext_amount: i64,
    pub fee: u64,
}

impl ExtData {
    /// Rebuilds the full external data from its minified form and the
    /// addresses the surrounding call supplies; the asset is the native one.
    pub fn from_minified(
        recipient: [u8; 32],
        fee_recipient: [u8; 32],
        minified: ExtDataMinified,
    ) -> (r: ExtData)
        ensures
            r == (ExtData {
                recipient,
                ext_amount: minified.ext_amount,
                fee: minified.fee,
                fee_recipient,
                mint_address: utils::SOL_ADDRESS,
            }),
    {
        ExtData {
            recipient,
            ext_amount: minified.ext_amount,
            fee: minified.fee,
            fee_recipient,
            mint_address: utils::SOL_ADDRESS,
        }
    }
}

/// One appended leaf, as the caller learns of it: its position, its
/// commitment, and the opaque encrypted payload that travels with it.
pub struct CommitmentData {
    pub index: u64,
    pub commitment: [u8; 32],
    pub encrypted_output: Vec<u8>,
}

/// Everything a successful transfer asks the host ledger to do: the two
/// append events, and the three balances as they must stand afterwards.
pub struct TransactOutcome {
    pub commitment1: CommitmentData,
    pub commitment2: CommitmentData,
    pub new_tree_token_lamports: u64,
    pub new_recipient_lamports: u64,
    pub new_fee_recipient_lamports: u64,
}

/// The three balances after the value legs of one transfer, or the error
/// that stops it: the deposit cap, then the pool's liquidity for the
/// withdrawal leg, then its liquidity for the fee leg, each with its
/// checked arithmetic.
pub open spec fn spec_settlement(
    ext_amount: i64,
    fee: u64,
    max_deposit: u64,
    tree_lam: u64,
    rec_lam: u64,
    fee_lam: u64,
    rent: u64,
) -> Result<(u64, u64, u64), ErrorCode> {
    let first = if ext_amount > 0 {
        let a = ext_amount as u64;
        if a > max_deposit {
            Err(ErrorCode::DepositLimitExceeded)
        } else if tree_lam + a > u64::MAX {
            Err(ErrorCode::ArithmeticOverflow)
        } else {
            Ok((((tree_lam + a) as u64), rec_lam))
        }
    } else if ext_amount < 0 {
        let a = (-ext_amount) as u64;
        if a + fee > u64::MAX || a + fee + rent > u64::MAX {
            Err(ErrorCode::ArithmeticOverflow)
        } else if tree_lam < a + fee + rent {
            Err(ErrorCode::InsufficientFundsForWithdrawal)
        } else if rec_lam + a > u64::MAX {
            Err(ErrorCode::ArithmeticOverflow)
        } else {
            Ok((((tree_lam - a) as u64), ((rec_lam + a) as u64)))
        }
    } else {
        Ok((tree_lam, rec_lam))
    };
    match first {
        Err(e) => Err(e),
        Ok((t1, r1)) => {
            if fee == 0 {
                Ok((t1, r1, fee_lam))
            } else if ext_amount >= 0 && fee + rent > u64::MAX {
                Err(ErrorCode::ArithmeticOverflow)
            } else if ext_amount >= 0 && t1 < fee + rent {
                Err(ErrorCode::InsufficientFundsForFee)
            } else if t1 < fee {
                Err(ErrorCode::ArithmeticOverflow)
            } else if fee_lam + fee > u64::MAX {
                Err(ErrorCode::ArithmeticOverflow)
            } else {
                Ok((((t1 - fee) as u64), r1, ((fee_lam + fee) as u64)))
            }
        },
    }
}

/// The whole validation sequence of one transfer, in the order the checks
/// run: root membership, the external-data hash binding, the public-amount
/// equation, the fee policy, the proof, the value legs, the double-spend
/// guard, and the tree's capacity for two more leaves. A success carries the
/// three balances the ledger must apply.
pub open spec fn spec_transact_check(
    tree: merkle_tree::MerkleTreeAccount,
    ns: nullifier::NullifierSet,
    config: state::GlobalConfig,
    vk: groth16::Groth16Verifyingkey,
    proof: Proof,
    ext_data: ExtData,
    e1: Seq<u8>,
    e2: Seq<u8>,
    tree_token_lamports: u64,
    recipient_lamports: u64,
    fee_recipient_lamports: u64,
    rent_exempt_minimum: u64,
) -> Result<(u64, u64, u64), ErrorCode> {
    if !tree.spec_known_root(proof.root@) {
        Err(ErrorCode::UnknownRoot)
    } else if !utils::spec_ext_hash_matches(
        utils::spec_sha256(
            utils::spec_ext_data_bytes(
                ext_data.recipient@,
                ext_data.ext_amount,
                e1,
                e2,
                ext_data.fee,
                ext_data.fee_recipient@,
                ext_data.mint_address@,
            ),
        ),
        proof.ext_data_hash@,
    ) {
        Err(ErrorCode::ExtDataHashMismatch)
    } else if !utils::spec_check_public_amount(
        ext_data.ext_amount,
        ext_data.fee,
        proof.public_amount@,
    ) {
        Err(ErrorCode::InvalidPublicAmountData)
    } else if utils::spec_validate_fee(
        ext_data.ext_amount,
        ext_data.fee,
        config.deposit_fee_rate,
        config.withdrawal_fee_rate,
        config.fee_error_margin,
    ) is Err {
        Err(utils::spec_validate_fee(
            ext_data.ext_amount,
            ext_data.fee,
            config.deposit_fee_rate,
            config.withdrawal_fee_rate,
            config.fee_error_margin,
        )->Err_0)
    } else if !utils::spec_verify_proof(proof, vk) {
        Err(ErrorCode::InvalidProof)
    } else {
        match spec_settlement(
            ext_data.ext_amount,
            ext_data.fee,
            tree.max_deposit_amount,
            tree_token_lamports,
            recipient_lamports,
            fee_recipient_lamports,
            rent_exempt_minimum,
        ) {
            Err(e) => Err(e),
            Ok(balances) => {
                if ns.spec_contains(0, proof.input_nullifiers@[0]@) || ns.spec_contains(
                    1,
                    proof.input_nullifiers@[1]@,
                ) {
                    Err(ErrorCode::NullifierAlreadyUsed)
                } else if tree.next_index + 2 > merkle_tree::pow2(tree.height as nat) {
                    Err(ErrorCode::MerkleTreeFull)
                } else {
                    Ok(balances)
                }
            },
        }
    }
}

/// Law: a root still inside the bounded window is never answered
/// `UnknownRoot`. After any number of appends, the validator accepts a proof
/// built against any nonzero root among the most recent
/// `min(appends + 1, capacity)`, however the rest of the checks come out.
pub proof fn lemma_window_root_not_unknown(
    tree: merkle_tree::MerkleTreeAccount,
    ns: nullifier::NullifierSet,
    config: state::GlobalConfig,
    vk: groth16::Groth16Verifyingkey,
    proof: Proof,
    ext_data: ExtData,
    e1: Seq<u8>,
    e2: Seq<u8>,
    tree_token_lamports: u64,
    recipient_lamports: u64,
    fee_recipient_lamports: u64,
    rent_exempt_minimum: u64,
    j: int,
)
    requires
        tree.wf(),
        0 <= j < tree.spec_window(),
        tree.root_log@[tree.root_log@.len() - 1 - j] == proof.root@,
        proof.root@ != merkle_tree::zero_bytes32(),
    ensures
        spec_transact_check(
            tree,
            ns,
            config,
            vk,
            proof,
            ext_data,
            e1,
            e2,
            tree_token_lamports,
            recipient_lamports,
            fee_recipient_lamports,
            rent_exempt_minimum,
        ) != Err::<(u64, u64, u64), ErrorCode>(ErrorCode::UnknownRoot),
{
    merkle_tree::lemma_root_window_known(tree, j);
}

/// Validates one transfer and, only if every check passes, consumes its two
/// input nullifiers and appends its two output commitments; the returned
/// outcome carries the two append events and the balances the host ledger
/// must apply. Any error leaves the tree and the nullifier set untouched.
pub fn transact(
    tree_account: &mut merkle_tree::MerkleTreeAccount,
    nullifier_set: &mut nullifier::NullifierSet,
    global_config: &state::GlobalConfig,
    verifying_key: groth16::Groth16Verifyingkey,
    proof: &Proof,
    ext_data: &ExtData,
    encrypted_output1: Vec<u8>,
    encrypted_output2: Vec<u8>,
    tree_token_lamports: u64,
    recipient_lamports: u64,
    fee_recipient_lamports: u64,
    rent_exempt_minimum: u64,
) -> (r: Result<TransactOutcome, ErrorCode>)
    requires
        old(tree_account).wf(),
    ensures
        final(tree_account).wf(),
        match r {
            Ok(outcome) => {
                &&& spec_transact_check(
                    *old(tree_account),
                    *old(nullifier_set),
                    *global_config,
                    verifying_key,
                    *proof,
                    *ext_data,
                    encrypted_output1@,
                    encrypted_output2@,
                    tree_token_lamports,
                    recipient_lamports,
                    fee_recipient_lamports,
                    rent_exempt_minimum,
                ) == Ok::<(u64, u64, u64), ErrorCode>(
                    (
                        outcome.new_tree_token_lamports,
                        outcome.new_recipient_lamports,
                        outcome.new_fee_recipient_lamports,
                    ),
                )
                &&& outcome.commitment1.index == old(tree_account).next_index
                &&& outcome.commitment1.commitment == proof.output_commitments@[0]
                &&& outcome.commitment1.encrypted_output@ == encrypted_output1@
                &&& outcome.commitment2.index == old(tree_account).next_index + 1
                &&& outcome.commitment2.commitment == proof.output_commitments@[1]
                &&& outcome.commitment2.encrypted_output@ == encrypted_output2@
                &&& final(tree_account).next_index == old(tree_account).next_index + 2
                &&& final(tree_account).root_log@ == old(tree_account).root_log@.push(
                    merkle_tree::spec_append_node(
                        *old(tree_account),
                        proof.output_commitments@[0]@,
                        old(tree_account).height as int,
                    )->Some_0,
                ).push(final(tree_account).root@)
                &&& merkle_tree::spec_append_node_second(
                    *old(tree_account),
                    proof.output_commitments@[0]@,
                    proof.output_commitments@[1]@,
                    old(tree_account).height as int,
                ) == Some(final(tree_account).root@)
                &&& final(nullifier_set).entries@ == old(nullifier_set).entries@.push(
                    (0u8, proof.input_nullifiers@[0]),
                ).push((1u8, proof.input_nullifiers@[1]))
                &&& final(tree_account).height == old(tree_account).height
                &&& final(tree_account).root_history_size == old(tree_account).root_history_size
                &&& final(tree_account).max_deposit_amount == old(
                    tree_account,
                ).max_deposit_amount
            },
            Err(e) => {
                &&& spec_transact_check(
                    *old(tree_account),
                    *old(nullifier_set),
                    *global_config,
                    verifying_key,
                    *proof,
                    *ext_data,
                    encrypted_output1@,
                    encrypted_output2@,
                    tree_token_lamports,
                    recipient_lamports,
                    fee_recipient_lamports,
                    rent_exempt_minimum,
                ) == Err::<(u64, u64, u64), ErrorCode>(e)
                &&& *final(tree_account) == *old(tree_account)
                &&& *final(nullifier_set) == *old(nullifier_set)
            },
        },
{
    let ghost t0 = *tree_account;
    if !merkle_tree::MerkleTree::is_known_root(tree_account, proof.root) {
        return Err(ErrorCode::UnknownRoot);
    }
    let calculated = match utils::calculate_complete_ext_data_hash(
        ext_data.recipient,
        ext_data.ext_amount,
        encrypted_output1.as_slice(),
        encrypted_output2.as_slice(),
        ext_data.fee,
        ext_data.fee_recipient,
        ext_data.mint_address,
    ) {
        Ok(h) => h,
        Err(e) => {
            return Err(e);
        },
    };
    if !utils::ext_hash_matches(&calculated, &proof.ext_data_hash) {
        return Err(ErrorCode::ExtDataHashMismatch);
    }
    if !utils::check_public_amount(ext_data.ext_amount, ext_data.fee, proof.public_amount) {
        return Err(ErrorCode::InvalidPublicAmountData);
    }
    match utils::validate_fee(
        ext_data.ext_amount,
        ext_data.fee,
        global_config.deposit_fee_rate,
        global_config.withdrawal_fee_rate,
        global_config.fee_error_margin,
    ) {
        Ok(()) => {},
        Err(e) => {
            return Err(e);
        },
    }
    if !utils::verify_proof(*proof, verifying_key) {
        return Err(ErrorCode::InvalidProof);
    }
    let ext_amount = ext_data.ext_amount;
    let fee = ext_data.fee;
    let mut new_tree_token = tree_token_lamports;
    let mut new_recipient = recipient_lamports;
    if ext_amount > 0 {
        let deposit_amount = ext_amount as u64;
        if deposit_amount > tree_account.max_deposit_amount {
            return Err(ErrorCode::DepositLimitExceeded);
        }
        new_tree_token = match tree_token_lamports.checked_add(deposit_amount) {
            Some(v) => v,
            None => {
                return Err(ErrorCode::ArithmeticOverflow);
            },
        };
    } else if ext_amount < 0 {
        let a = (-ext_amount) as u64;
        let with_fee = match a.checked_add(fee) {
            Some(v) => v,
            None => {
                return Err(ErrorCode::ArithmeticOverflow);
            },
        };
        let total_required = match with_fee.checked_add(rent_exempt_minimum) {
            Some(v) => v,
            None => {
                return Err(ErrorCode::ArithmeticOverflow);
            },
        };
        if tree_token_lamports < total_required {
            return Err(ErrorCode::InsufficientFundsForWithdrawal);
        }
        new_tree_token = match tree_token_lamports.checked_sub(a) {
            Some(v) => v,
            None => {
                return Err(ErrorCode::ArithmeticOverflow);
            },
        };
        new_recipient = match recipient_lamports.checked_add(a) {
            Some(v) => v,
            None => {
                return Err(ErrorCode::ArithmeticOverflow);
            },
        };
    }
    let mut new_fee_recipient = fee_recipient_lamports;
    if fee > 0 {
        if ext_amount >= 0 {
            let total_required = match fee.checked_add(rent_exempt_minimum) {
                Some(v) => v,
                None => {
                    return Err(ErrorCode::ArithmeticOverflow);
                },
            };
            if new_tree_token < total_required {
                return Err(ErrorCode::InsufficientFundsForFee);
            }
        }
        new_tree_token = match new_tree_token.checked_sub(fee) {
            Some(v) => v,
            None => {
                return Err(ErrorCode::ArithmeticOverflow);
            },
        };
        new_fee_recipient = match fee_recipient_lamports.checked_add(fee) {
            Some(v) => v,
            None => {
                return Err(ErrorCode::ArithmeticOverflow);
            },
        };
    }
    if nullifier_set.is_spent(0, &proof.input_nullifiers[0]) || nullifier_set.is_spent(
        1,
        &proof.input_nullifiers[1],
    ) {
        return Err(ErrorCode::NullifierAlreadyUsed);
    }
    let cap = tree_account.capacity();
    proof {
        merkle_tree::lemma_pow2_monotone(t0.height as nat, 26);
    }
    if tree_account.next_index + 2 > cap {
        return Err(ErrorCode::MerkleTreeFull);
    }
    match nullifier_set.consume_pair(&proof.input_nullifiers[0], &proof.input_nullifiers[1]) {
        Ok(()) => {},
        Err(_) => {
            proof {
                assert(false);
            }
            unreached()
        },
    }
    proof {
        groth16::lemma_prepare_ok_inputs_below(
            verifying_key.vk_ic@,
            utils::spec_public_inputs_of(*proof),
            7,
        );
        assert(utils::spec_public_inputs_of(*proof)[5] == proof.output_commitments@[0]);
        assert(utils::spec_public_inputs_of(*proof)[6] == proof.output_commitments@[1]);
    }
    let index1 = match merkle_tree::MerkleTree::append(proof.output_commitments[0], tree_account) {
        Ok(i) => i,
        Err(_) => {
            proof {
                assert(false);
            }
            unreached()
        },
    };
    let ghost t_mid = *tree_account;
    let index2 = match merkle_tree::MerkleTree::append(proof.output_commitments[1], tree_account) {
        Ok(i) => i,
        Err(_) => {
            proof {
                assert(false);
            }
            unreached()
        },
    };
    proof {
        merkle_tree::lemma_second_append_node(
            t0,
            t_mid,
            proof.output_commitments@[0]@,
            proof.output_commitments@[1]@,
            t0.height as int,
        );
    }
    Ok(TransactOutcome {
        commitment1: CommitmentData {
            index: index1,
            commitment: proof.output_commitments[0],
            encrypted_output: encrypted_output1,
        },
        commitment2: CommitmentData {
            index: index2,
            commitment: proof.output_commitments[1],
            encrypted_output: encrypted_output2,
        },
        new_tree_token_lamports: new_tree_token,
        new_recipient_lamports: new_recipient,
        new_fee_recipient_lamports: new_fee_recipient,
    })
}

/// Sets up the pool: the accumulator at the deployed height, the
/// fee-collection account, and the fee policy with its defaults. Fails with
/// `Unauthorized` exactly when an administrator key is configured and the
/// caller is someone else.
pub fn initialize(admin: Option<[u8; 32]>, authority: [u8; 32]) -> (r: Result<
    (merkle_tree::MerkleTreeAccount, state::TreeTokenAccount, state::GlobalConfig),
    ErrorCode,
>)
    ensures
        match r {
            Ok((tree, token, config)) => {
                &&& (admin is None || admin == Some(authority))
                &&& tree.wf()
                &&& tree.next_index == 0
                &&& tree.height == MERKLE_TREE_HEIGHT
                &&& tree.root_history_size == ROOT_HISTORY_SIZE
                &&& tree.max_deposit_amount == 1_000_000_000_000u64
                &&& tree.authority == authority
                &&& forall|l: int|
                    0 <= l < tree.height ==> #[trigger] tree.subtrees@[l] == tree.zeros@[l]
                &&& tree.root == tree.zeros@[tree.height as int]
                &&& tree.root_index == 0
                &&& tree.root_history@[0] == tree.root
                &&& tree.root_log@.len() == 1
                &&& tree.root_log@[0] == tree.root@
                &&& token.authority == authority
                &&& config.authority == authority
                &&& config.deposit_fee_rate == 0u16
                &&& config.withdrawal_fee_rate == 25u16
                &&& config.fee_error_margin == 500u16
            },
            Err(e) => {
                &&& e == ErrorCode::Unauthorized
                &&& admin is Some
                &&& admin != Some(authority)
            },
        },
{
    match admin {
        Some(admin_key) => {
            if !merkle_tree::bytes32_eq(&admin_key, &authority) {
                return Err(ErrorCode::Unauthorized);
            }
            proof {
                assert(admin_key@ == authority@);
                assert(admin_key =~= authority);
            }
        },
        None => {},
    }
    let tree = merkle_tree::MerkleTree::initialize(
        authority,
        MERKLE_TREE_HEIGHT,
        ROOT_HISTORY_SIZE,
        1_000_000_000_000u64,
    );
    let token = state::TreeTokenAccount { authority };
    let config = state::GlobalConfig {
        authority,
        deposit_fee_rate: 0,
        withdrawal_fee_rate: 25,
        fee_error_margin: 500,
    };
    Ok((tree, token, config))
}

} // verus!
