//! Fee policy and deterministic coin selection.
//!
//! The user receives exactly the burned amount. The fee is funded by the
//! vault's own inputs and comes out of the change, so the selection target is
//! `amount + fee`. A shortfall is reported, never paid in part.

use crate::glc::withdrawal_db::{
    copy_utxos, lemma_total_value_prefix, sum_values, total_value, VaultUtxo,
};
use crate::text::{
    is_before, lemma_text_before_total, lemma_text_before_transitive, text_before,
};
use vstd::prelude::*;

verus! {

/// 4 version + 1 input count + 1 output count + 4 locktime.
const TX_OVERHEAD_BYTES: u64 = 10;

/// A P2PKH output: 8 value + 1 script len + 25 script. The vault's own change
/// output is two bytes smaller, so every size is an overestimate if anything.
const OUTPUT_BYTES: u64 = 34;

/// Worst-case DER signature including the trailing sighash byte.
const MAX_SIGNATURE_BYTES: u64 = 73;

/// Bytes that push a redeem script of the given length.
pub open spec fn redeem_push_prefix(redeem_script_len: nat) -> nat {
    if redeem_script_len <= 75 {
        1
    } else if redeem_script_len <= 255 {
        2
    } else {
        3
    }
}

/// The scriptSig of one multisig input: the dummy, one pushed signature per
/// required signer, and the pushed redeem script.
pub open spec fn script_sig_size(threshold: nat, redeem_script_len: nat) -> nat {
    1 + threshold * 74 + redeem_push_prefix(redeem_script_len) + redeem_script_len
}

/// Bytes of the variable-length count in front of a scriptSig.
pub open spec fn varint_size(n: nat) -> nat {
    if n <= 252 {
        1
    } else if n <= 0xffff {
        3
    } else {
        5
    }
}

/// One signed multisig input: outpoint, length, scriptSig, sequence.
pub open spec fn multisig_input_size(threshold: nat, redeem_script_len: nat) -> nat {
    let script_sig = script_sig_size(threshold, redeem_script_len);
    36 + varint_size(script_sig) + script_sig + 4
}

/// Serialized size of a transaction with inputs of `input_bytes` each.
pub open spec fn tx_size(num_inputs: nat, num_outputs: nat, input_bytes: nat) -> nat {
    10 + input_bytes * num_inputs + 34 * num_outputs
}

/// The least number of thousands that covers `n`.
pub open spec fn thousands_up(n: nat) -> nat {
    (n + 999) / 1000
}

/// A number, or the largest that 64 bits hold where it is larger.
pub open spec fn saturate(n: nat) -> nat {
    if n <= u64::MAX {
        n
    } else {
        u64::MAX as nat
    }
}

/// The fee for a shape: size times rate per thousand bytes, rounded up.
pub open spec fn fee(num_inputs: nat, num_outputs: nat, rate: nat, input_bytes: nat) -> nat {
    thousands_up(tx_size(num_inputs, num_outputs, input_bytes) * rate)
}

/// Bytes that one signed P2SH m-of-n multisig input contributes.
pub fn multisig_input_bytes(threshold: usize, redeem_script_len: usize) -> (bytes: u64)
    requires
        multisig_input_size(threshold as nat, redeem_script_len as nat) <= u64::MAX,
    ensures
        bytes == multisig_input_size(threshold as nat, redeem_script_len as nat),
{
    let redeem_push_prefix: u64 = if redeem_script_len <= 75 {
        1
    } else if redeem_script_len <= 255 {
        2
    } else {
        3
    };
    let script_sig: u64 = 1 + threshold as u64 * (1 + MAX_SIGNATURE_BYTES) + redeem_push_prefix
        + redeem_script_len as u64;
    let script_sig_varint: u64 = if script_sig <= 252 {
        1
    } else if script_sig <= 0xffff {
        3
    } else {
        5
    };
    36 + script_sig_varint + script_sig + 4
}

/// Estimated serialized size of a payout that spends `num_inputs` vault
/// outputs of `input_bytes` each.
pub fn estimated_size_bytes(num_inputs: u64, num_outputs: u64, input_bytes: u64) -> (size: u64)
    requires
        tx_size(num_inputs as nat, num_outputs as nat, input_bytes as nat) <= u64::MAX,
    ensures
        size == tx_size(num_inputs as nat, num_outputs as nat, input_bytes as nat),
{
    assert(input_bytes as nat * num_inputs as nat >= 0) by (nonlinear_arith);
    TX_OVERHEAD_BYTES + input_bytes * num_inputs + OUTPUT_BYTES * num_outputs
}

/// Multiplies, stopping at the largest value.
pub fn saturating_product(a: u64, b: u64) -> (product: u64)
    ensures
        product == saturate(a as nat * b as nat),
{
    assert(a as nat * b as nat == a * b) by (nonlinear_arith);
    match a.checked_mul(b) {
        Some(product) => product,
        None => u64::MAX,
    }
}

/// Adds, stopping at the largest value.
pub fn saturating_sum(a: u64, b: u64) -> (sum: u64)
    ensures
        sum == saturate(a as nat + b as nat),
{
    a.saturating_add(b)
}

/// The fee for a shape, whatever its size.
fn exact_fee(num_inputs: u64, num_outputs: u64, fee_rate_per_kb: u64, input_bytes: u64) -> (amount:
    u128)
    requires
        tx_size(num_inputs as nat, num_outputs as nat, input_bytes as nat) <= u64::MAX,
    ensures
        amount == fee(
            num_inputs as nat,
            num_outputs as nat,
            fee_rate_per_kb as nat,
            input_bytes as nat,
        ),
        amount <= u128::MAX / 1000 + 1,
{
    let size: u64 = estimated_size_bytes(num_inputs, num_outputs, input_bytes);
    assert(size as u128 * fee_rate_per_kb as u128 <= u64::MAX as u128 * u64::MAX as u128)
        by (nonlinear_arith)
        requires
            size <= u64::MAX,
            fee_rate_per_kb <= u64::MAX,
    ;
    let product: u128 = size as u128 * fee_rate_per_kb as u128;
    (product + 999) / 1000
}

/// Fee for a shape, at a rate in atomic units per 1000 bytes. Rounds up, so an
/// under-paying transaction is never produced. A fee that no amount could pay
/// is the largest amount.
pub fn fee_for(num_inputs: u64, num_outputs: u64, fee_rate_per_kb: u64, input_bytes: u64) -> (amount: u64)
    requires
        tx_size(num_inputs as nat, num_outputs as nat, input_bytes as nat) <= u64::MAX,
    ensures
        amount == saturate(
            fee(
                num_inputs as nat,
                num_outputs as nat,
                fee_rate_per_kb as nat,
                input_bytes as nat,
            ),
        ),
{
    let exact: u128 = exact_fee(num_inputs, num_outputs, fee_rate_per_kb, input_bytes);
    if exact <= u64::MAX as u128 {
        exact as u64
    } else {
        u64::MAX
    }
}

/// The inputs of a payout and how their value is split.
#[derive(Debug, PartialEq, Eq)]
pub struct Selection {
    pub inputs: Vec<VaultUtxo>,
    pub fee_atomic: u64,
    /// 0 means no change output is created.
    pub change_atomic: u64,
    pub total_in: u64,
}

#[derive(Debug, Clone, Copy, PartialEq, Eq, Structural)]
pub enum SelectionError {
    /// Not enough spendable value to cover `amount + fee`.
    Insufficient { required: u64, available: u64 },
    /// Would need more inputs than the configured cap.
    TooManyInputs { needed: usize, max: usize },
}

/// What the vault has to fund for a payout with `num_inputs` inputs.
pub open spec fn target(amount: nat, num_inputs: nat, num_outputs: nat, rate: nat, input_bytes: nat) -> nat {
    amount + fee(num_inputs, num_outputs, rate, input_bytes)
}

/// `i` is the first output worth exactly `value`.
pub open spec fn first_worth(utxos: Seq<VaultUtxo>, value: nat, i: int) -> bool {
    &&& 0 <= i < utxos.len()
    &&& utxos[i].amount_atomic == value
    &&& forall|j: int| 0 <= j < i ==> utxos[j].amount_atomic != value
}

/// Ascending order by value, then txid, then output index.
pub open spec fn cheaper(a: VaultUtxo, b: VaultUtxo) -> bool {
    ||| a.amount_atomic < b.amount_atomic
    ||| a.amount_atomic == b.amount_atomic && text_before(a.txid_hex@, b.txid_hex@)
    ||| a.amount_atomic == b.amount_atomic && a.txid_hex@ == b.txid_hex@ && a.vout < b.vout
}

/// `i` is the first of the cheapest outputs worth at least `value`.
pub open spec fn cheapest_covering(utxos: Seq<VaultUtxo>, value: nat, i: int) -> bool {
    &&& 0 <= i < utxos.len()
    &&& utxos[i].amount_atomic >= value
    &&& forall|j: int|
        0 <= j < utxos.len() && utxos[j].amount_atomic >= value ==> !#[trigger] cheaper(
            utxos[j],
            utxos[i],
        )
    &&& forall|j: int|
        0 <= j < i && utxos[j].amount_atomic >= value ==> #[trigger] cheaper(utxos[i], utxos[j])
}

/// Whether the first `n` outputs fund a payout with change.
pub open spec fn prefix_funds(
    utxos: Seq<VaultUtxo>,
    n: int,
    amount: nat,
    rate: nat,
    input_bytes: nat,
) -> bool {
    total_value(utxos.take(n)) >= target(amount, n as nat, 2, rate, input_bytes)
}

/// `n` is the shortest non-empty prefix that funds a payout with change.
pub open spec fn shortest_funding_prefix(
    utxos: Seq<VaultUtxo>,
    n: int,
    amount: nat,
    rate: nat,
    input_bytes: nat,
) -> bool {
    &&& 1 <= n <= utxos.len()
    &&& prefix_funds(utxos, n, amount, rate, input_bytes)
    &&& forall|k: int| 1 <= k < n ==> !#[trigger] prefix_funds(utxos, k, amount, rate, input_bytes)
}

/// Whether no single output settles the payout.
pub open spec fn no_single_output(utxos: Seq<VaultUtxo>, amount: nat, rate: nat, input_bytes: nat) -> bool {
    forall|i: int|
        0 <= i < utxos.len() ==> {
            &&& (#[trigger] utxos[i]).amount_atomic != target(amount, 1, 1, rate, input_bytes)
            &&& utxos[i].amount_atomic < target(amount, 1, 2, rate, input_bytes)
        }
}

/// What is left of `total` after the amount and the fee, or nothing.
pub open spec fn spare(total: nat, amount: nat, fee_with_change: nat) -> nat {
    if total >= amount + fee_with_change {
        (total - amount - fee_with_change) as nat
    } else {
        0
    }
}

/// The fee and the change of a payout. Change that is nothing or dust is left
/// to the fee.
pub open spec fn split(total: nat, amount: nat, fee_with_change: nat, dust: nat) -> (nat, nat) {
    let change = spare(total, amount, fee_with_change);
    if change == 0 || change < dust {
        (
            if total >= amount {
                (total - amount) as nat
            } else {
                0
            },
            0,
        )
    } else {
        (fee_with_change, change)
    }
}

/// A selection that spends `inputs` with the given fee and change.
pub open spec fn spends(s: Selection, inputs: Seq<VaultUtxo>, fee_change: (nat, nat)) -> bool {
    &&& s.inputs@ == inputs
    &&& s.fee_atomic == fee_change.0
    &&& s.change_atomic == fee_change.1
    &&& s.total_in == total_value(inputs)
}

/// The selection for a payout: an output that matches without change, else the
/// cheapest output that covers the target, else the shortest prefix that does.
pub open spec fn selected(
    utxos: Seq<VaultUtxo>,
    amount: nat,
    rate: nat,
    dust: nat,
    max_inputs: nat,
    input_bytes: nat,
    s: Selection,
) -> bool {
    let exact = target(amount, 1, 1, rate, input_bytes);
    let covering = target(amount, 1, 2, rate, input_bytes);
    if exists|i: int| first_worth(utxos, exact, i) {
        exists|i: int|
            first_worth(utxos, exact, i) && spends(
                s,
                seq![utxos[i]],
                (fee(1, 1, rate, input_bytes), 0),
            )
    } else if exists|i: int| cheapest_covering(utxos, covering, i) {
        exists|i: int|
            cheapest_covering(utxos, covering, i) && spends(
                s,
                seq![utxos[i]],
                split(
                    utxos[i].amount_atomic as nat,
                    amount,
                    fee(1, 2, rate, input_bytes),
                    dust,
                ),
            )
    } else {
        exists|n: int|
            n <= max_inputs && shortest_funding_prefix(utxos, n, amount, rate, input_bytes)
                && spends(
                s,
                utxos.take(n),
                split(
                    total_value(utxos.take(n)),
                    amount,
                    fee(n as nat, 2, rate, input_bytes),
                    dust,
                ),
            )
    }
}

/// Whether a prefix within the cap funds the payout.
pub open spec fn some_prefix_funds(
    utxos: Seq<VaultUtxo>,
    amount: nat,
    rate: nat,
    max_inputs: nat,
    input_bytes: nat,
) -> bool {
    exists|n: int|
        1 <= n <= utxos.len() && n <= max_inputs && #[trigger] prefix_funds(
            utxos,
            n,
            amount,
            rate,
            input_bytes,
        )
}

/// Why there is no selection: no output settles the payout on its own, no prefix
/// within the cap does, and whether there were more outputs than may be spent or
/// not enough in them.
pub open spec fn refused(
    utxos: Seq<VaultUtxo>,
    amount: nat,
    rate: nat,
    max_inputs: usize,
    input_bytes: nat,
    e: SelectionError,
) -> bool {
    &&& no_single_output(utxos, amount, rate, input_bytes)
    &&& !some_prefix_funds(utxos, amount, rate, max_inputs as nat, input_bytes)
    &&& e == if utxos.len() > max_inputs {
        SelectionError::TooManyInputs { needed: (max_inputs + 1) as usize, max: max_inputs }
    } else {
        SelectionError::Insufficient {
            required: saturate(
                target(
                    amount,
                    if utxos.len() == 0 {
                        1
                    } else {
                        utxos.len()
                    },
                    2,
                    rate,
                    input_bytes,
                ),
            ) as u64,
            available: total_value(utxos) as u64,
        }
    }
}

proof fn lemma_cheaper_total(a: VaultUtxo, b: VaultUtxo)
    ensures
        !(cheaper(a, b) && cheaper(b, a)),
{
    lemma_text_before_total(a.txid_hex@, b.txid_hex@);
}

/// If `a` is cheaper than `b`, and `c` is not, then `a` is cheaper than `c`.
proof fn lemma_cheaper_than_the_rest(a: VaultUtxo, b: VaultUtxo, c: VaultUtxo)
    requires
        cheaper(a, b),
        !cheaper(c, b),
    ensures
        cheaper(a, c),
{
    lemma_text_before_total(a.txid_hex@, b.txid_hex@);
    lemma_text_before_total(c.txid_hex@, b.txid_hex@);
    if text_before(a.txid_hex@, b.txid_hex@) && text_before(b.txid_hex@, c.txid_hex@) {
        lemma_text_before_transitive(a.txid_hex@, b.txid_hex@, c.txid_hex@);
    }
}

fn is_cheaper(a: &VaultUtxo, b: &VaultUtxo) -> (r: bool)
    ensures
        r == cheaper(*a, *b),
{
    if a.amount_atomic != b.amount_atomic {
        return a.amount_atomic < b.amount_atomic;
    }
    if is_before(a.txid_hex.as_str(), b.txid_hex.as_str()) {
        return true;
    }
    proof {
        lemma_text_before_total(a.txid_hex@, b.txid_hex@);
    }
    a.txid_hex == b.txid_hex && a.vout < b.vout
}

/// The first output worth exactly `value`.
fn find_worth(candidates: &[VaultUtxo], value: u128) -> (found: Option<usize>)
    ensures
        match found {
            Some(i) => first_worth(candidates@, value as nat, i as int),
            None => forall|j: int|
                0 <= j < candidates@.len() ==> candidates@[j].amount_atomic != value,
        },
{
    let mut i: usize = 0;
    while i < candidates.len()
        invariant
            i <= candidates@.len(),
            forall|j: int| 0 <= j < i ==> candidates@[j].amount_atomic != value,
        decreases candidates@.len() - i,
    {
        if candidates[i].amount_atomic as u128 == value {
            return Some(i);
        }
        i = i + 1;
    }
    None
}

/// The first of the cheapest outputs worth at least `value`.
fn find_cheapest_covering(candidates: &[VaultUtxo], value: u128) -> (found: Option<usize>)
    ensures
        match found {
            Some(i) => cheapest_covering(candidates@, value as nat, i as int),
            None => forall|j: int|
                0 <= j < candidates@.len() ==> candidates@[j].amount_atomic < value,
        },
{
    let mut best: Option<usize> = None;
    let mut i: usize = 0;
    while i < candidates.len()
        invariant
            i <= candidates@.len(),
            match best {
                Some(b) => b < i && cheapest_covering(
                    candidates@.take(i as int),
                    value as nat,
                    b as int,
                ),
                None => forall|j: int| 0 <= j < i ==> candidates@[j].amount_atomic < value,
            },
        decreases candidates@.len() - i,
    {
        let ghost seen = candidates@.take(i as int);
        let ghost more = candidates@.take(i + 1);
        if candidates[i].amount_atomic as u128 >= value {
            match best {
                Some(b) => {
                    if is_cheaper(&candidates[i], &candidates[b]) {
                        proof {
                            let new = candidates@[i as int];
                            let old_best = candidates@[b as int];
                            assert(old_best == seen[b as int]);
                            assert forall|j: int| 0 <= j < i && more[j].amount_atomic >= value
                                implies #[trigger] cheaper(more[i as int], more[j]) by {
                                assert(more[j] == seen[j]);
                                assert(!cheaper(seen[j], seen[b as int]));
                                lemma_cheaper_than_the_rest(new, old_best, seen[j]);
                            }
                            assert forall|j: int| 0 <= j < more.len() && more[j].amount_atomic >= value
                                implies !#[trigger] cheaper(more[j], more[i as int]) by {
                                if j < i {
                                    assert(cheaper(more[i as int], more[j]));
                                }
                                lemma_cheaper_total(more[j], more[i as int]);
                            }
                        }
                        best = Some(i);
                    } else {
                        proof {
                            assert(more[b as int] == seen[b as int]);
                            assert forall|j: int| 0 <= j < more.len() && more[j].amount_atomic >= value
                                implies !#[trigger] cheaper(more[j], more[b as int]) by {
                                if j < i {
                                    assert(more[j] == seen[j]);
                                    assert(!cheaper(seen[j], seen[b as int]));
                                }
                            }
                            assert forall|j: int| 0 <= j < b && more[j].amount_atomic >= value
                                implies #[trigger] cheaper(more[b as int], more[j]) by {
                                assert(more[j] == seen[j]);
                                assert(cheaper(seen[b as int], seen[j]));
                            }
                        }
                    }
                },
                None => {
                    proof {
                        assert forall|j: int| 0 <= j < more.len() && more[j].amount_atomic >= value
                            implies !#[trigger] cheaper(more[j], more[i as int]) by {
                            lemma_cheaper_total(more[j], more[i as int]);
                        }
                    }
                    best = Some(i);
                },
            }
        } else {
            proof {
                if let Some(b) = best {
                    assert(more[b as int] == seen[b as int]);
                    assert forall|j: int| 0 <= j < more.len() && more[j].amount_atomic >= value
                        implies !#[trigger] cheaper(more[j], more[b as int]) by {
                        assert(more[j] == seen[j]);
                        assert(!cheaper(seen[j], seen[b as int]));
                    }
                    assert forall|j: int| 0 <= j < b && more[j].amount_atomic >= value
                        implies #[trigger] cheaper(more[b as int], more[j]) by {
                        assert(more[j] == seen[j]);
                        assert(cheaper(seen[b as int], seen[j]));
                    }
                }
            }
        }
        i = i + 1;
    }
    assert(candidates@.take(candidates@.len() as int) =~= candidates@);
    best
}

/// The largest number of inputs that a selection prices.
pub open spec fn most_inputs_priced(num_candidates: nat, max_inputs: nat) -> nat {
    if num_candidates <= 1 || max_inputs <= 1 {
        1
    } else if num_candidates <= max_inputs {
        num_candidates
    } else {
        max_inputs
    }
}

/// Deterministic coin selection.
///
/// Callers pass `candidates` ordered by value, largest first, then by txid and
/// output index, so that the result is reproducible on any replay. In order:
///
/// 1. an exact match for the amount and the fee of one input and one output;
/// 2. the cheapest single output that covers the amount and a fee with change;
/// 3. the candidates in their order, until they cover the amount and the fee
///    of that many inputs.
///
/// Change below `dust_threshold` is never created: it is added to the fee.
pub fn select(
    candidates: &[VaultUtxo],
    amount_atomic: u64,
    fee_rate_per_kb: u64,
    dust_threshold: u64,
    max_inputs: usize,
    input_bytes: u64,
) -> (result: Result<Selection, SelectionError>)
    requires
        total_value(candidates@) <= u64::MAX,
        tx_size(
            most_inputs_priced(candidates@.len(), max_inputs as nat),
            2,
            input_bytes as nat,
        ) <= u64::MAX,
    ensures
        match result {
            Ok(s) => selected(
                candidates@,
                amount_atomic as nat,
                fee_rate_per_kb as nat,
                dust_threshold as nat,
                max_inputs as nat,
                input_bytes as nat,
                s,
            ),
            Err(e) => refused(
                candidates@,
                amount_atomic as nat,
                fee_rate_per_kb as nat,
                max_inputs,
                input_bytes as nat,
                e,
            ),
        },
{
    let ghost amount = amount_atomic as nat;
    let ghost rate = fee_rate_per_kb as nat;
    let ghost most = most_inputs_priced(candidates@.len(), max_inputs as nat);
    let available: u64 = sum_values(candidates);
    proof {
        lemma_size_grows(1, most, 1, 2, input_bytes as nat);
        lemma_size_grows(1, most, 2, 2, input_bytes as nat);
    }

    let no_change_fee: u128 = exact_fee(1, 1, fee_rate_per_kb, input_bytes);
    let exact_target: u128 = amount_atomic as u128 + no_change_fee;
    if let Some(i) = find_worth(candidates, exact_target) {
        let mut inputs: Vec<VaultUtxo> = Vec::new();
        inputs.push(candidates[i].clone());
        let total_in: u64 = candidates[i].amount_atomic;
        let s: Selection = Selection {
            inputs,
            fee_atomic: no_change_fee as u64,
            change_atomic: 0,
            total_in,
        };
        proof {
            lemma_single_value(candidates@[i as int]);
            assert(first_worth(
                candidates@,
                target(amount, 1, 1, rate, input_bytes as nat),
                i as int,
            ));
            assert(s.inputs@ =~= seq![candidates@[i as int]]);
            assert(spends(s, seq![candidates@[i as int]], (fee(1, 1, rate, input_bytes as nat), 0)));
        }
        return Ok(s);
    }

    let two_out_fee: u128 = exact_fee(1, 2, fee_rate_per_kb, input_bytes);
    let target_2: u128 = amount_atomic as u128 + two_out_fee;
    if let Some(i) = find_cheapest_covering(candidates, target_2) {
        let mut inputs: Vec<VaultUtxo> = Vec::new();
        inputs.push(candidates[i].clone());
        proof {
            lemma_single_value(candidates@[i as int]);
            assert(inputs@ =~= seq![candidates@[i as int]]);
            assert(cheapest_covering(
                candidates@,
                target(amount, 1, 2, rate, input_bytes as nat),
                i as int,
            ));
            assert forall|j: int|
                !first_worth(candidates@, target(amount, 1, 1, rate, input_bytes as nat), j) by {}
        }
        let s: Selection = finalize(
            inputs,
            amount_atomic,
            fee_rate_per_kb,
            dust_threshold,
            input_bytes,
        );
        assert(spends(
            s,
            seq![candidates@[i as int]],
            split(
                candidates@[i as int].amount_atomic as nat,
                amount,
                fee(1, 2, rate, input_bytes as nat),
                dust_threshold as nat,
            ),
        ));
        return Ok(s);
    }
    proof {
        assert(no_single_output(candidates@, amount, rate, input_bytes as nat));
        assert forall|i: int| !cheapest_covering(candidates@, target_2 as nat, i) by {}
        assert forall|i: int| !first_worth(candidates@, exact_target as nat, i) by {}
    }

    let mut total: u64 = 0;
    let mut n: usize = 0;
    while n < candidates.len()
        invariant
            n <= candidates@.len(),
            n <= max_inputs,
            amount == amount_atomic,
            rate == fee_rate_per_kb,
            total == total_value(candidates@.take(n as int)),
            total_value(candidates@) <= u64::MAX,
            most == most_inputs_priced(candidates@.len(), max_inputs as nat),
            tx_size(most, 2, input_bytes as nat) <= u64::MAX,
            no_single_output(candidates@, amount, rate, input_bytes as nat),
            forall|i: int| !cheapest_covering(candidates@, target(amount, 1, 2, rate, input_bytes as nat), i),
            forall|i: int| !first_worth(candidates@, target(amount, 1, 1, rate, input_bytes as nat), i),
            forall|k: int| 1 <= k <= n ==> !#[trigger] prefix_funds(candidates@, k, amount, rate, input_bytes as nat),
        decreases candidates@.len() - n,
    {
        proof {
            lemma_total_value_prefix(candidates@, n + 1);
            assert(candidates@.take(n + 1).drop_last() =~= candidates@.take(n as int));
        }
        total = saturating_sum(total, candidates[n].amount_atomic);
        n = n + 1;
        if n > max_inputs {
            return Err(SelectionError::TooManyInputs { needed: n, max: max_inputs });
        }
        proof {
            lemma_size_grows(n as nat, most, 2, 2, input_bytes as nat);
        }
        let fee_now: u128 = exact_fee(n as u64, 2, fee_rate_per_kb, input_bytes);
        if total as u128 >= amount_atomic as u128 + fee_now {
            assert(prefix_funds(candidates@, n as int, amount, rate, input_bytes as nat));
            let chosen: Vec<VaultUtxo> = copy_utxos(vstd::slice::slice_subrange(candidates, 0, n));
            assert(chosen@ =~= candidates@.take(n as int));
            assert(shortest_funding_prefix(candidates@, n as int, amount, rate, input_bytes as nat));
            return Ok(
                finalize(chosen, amount_atomic, fee_rate_per_kb, dust_threshold, input_bytes),
            );
        }
    }

    let counted: u64 = if candidates.len() == 0 {
        1
    } else {
        candidates.len() as u64
    };
    Err(
        SelectionError::Insufficient {
            required: saturating_sum(
                amount_atomic,
                fee_for(counted, 2, fee_rate_per_kb, input_bytes),
            ),
            available,
        },
    )
}

/// The final fee and change of a chosen set of inputs.
fn finalize(
    inputs: Vec<VaultUtxo>,
    amount_atomic: u64,
    fee_rate_per_kb: u64,
    dust_threshold: u64,
    input_bytes: u64,
) -> (s: Selection)
    requires
        total_value(inputs@) <= u64::MAX,
        tx_size(inputs@.len(), 2, input_bytes as nat) <= u64::MAX,
    ensures
        spends(
            s,
            inputs@,
            split(
                total_value(inputs@),
                amount_atomic as nat,
                fee(inputs@.len(), 2, fee_rate_per_kb as nat, input_bytes as nat),
                dust_threshold as nat,
            ),
        ),
{
    let total_in: u64 = sum_values(inputs.as_slice());
    let n: u64 = inputs.len() as u64;
    let fee_with_change: u128 = exact_fee(n, 2, fee_rate_per_kb, input_bytes);
    let needed: u128 = amount_atomic as u128 + fee_with_change;
    let change: u64 = if total_in as u128 > needed {
        (total_in as u128 - needed) as u64
    } else {
        0
    };
    if change == 0 || change < dust_threshold {
        let rest: u64 = total_in.saturating_sub(amount_atomic);
        return Selection { inputs, fee_atomic: rest, change_atomic: 0, total_in };
    }
    Selection { inputs, fee_atomic: fee_with_change as u64, change_atomic: change, total_in }
}

proof fn lemma_single_value(utxo: VaultUtxo)
    ensures
        total_value(seq![utxo]) == utxo.amount_atomic,
{
    reveal_with_fuel(total_value, 2);
    assert(seq![utxo].drop_last() =~= Seq::<VaultUtxo>::empty());
}

/// More inputs and more outputs never make a transaction smaller.
pub proof fn lemma_size_grows(a: nat, b: nat, outputs_a: nat, outputs_b: nat, input_bytes: nat)
    requires
        a <= b,
        outputs_a <= outputs_b,
    ensures
        tx_size(a, outputs_a, input_bytes) <= tx_size(b, outputs_b, input_bytes),
{
    assert(input_bytes * a <= input_bytes * b) by (nonlinear_arith)
        requires
            a <= b,
    ;
}

/// A fee never falls when inputs or outputs are added.
pub proof fn fee_grows_with_the_shape(
    inputs_a: nat,
    inputs_b: nat,
    outputs_a: nat,
    outputs_b: nat,
    rate: nat,
    input_bytes: nat,
)
    requires
        inputs_a <= inputs_b,
        outputs_a <= outputs_b,
    ensures
        fee(inputs_a, outputs_a, rate, input_bytes) <= fee(inputs_b, outputs_b, rate, input_bytes),
{
    lemma_size_grows(inputs_a, inputs_b, outputs_a, outputs_b, input_bytes);
    let a = tx_size(inputs_a, outputs_a, input_bytes);
    let b = tx_size(inputs_b, outputs_b, input_bytes);
    assert(a * rate <= b * rate) by (nonlinear_arith)
        requires
            a <= b,
    ;
}

/// A fee is never below what the size demands at the configured rate, and
/// exceeds it by less than one unit.
pub proof fn fee_rounds_up(num_inputs: nat, num_outputs: nat, rate: nat, input_bytes: nat)
    ensures
        fee(num_inputs, num_outputs, rate, input_bytes) * 1000 >= tx_size(
            num_inputs,
            num_outputs,
            input_bytes,
        ) * rate,
        fee(num_inputs, num_outputs, rate, input_bytes) * 1000 < tx_size(
            num_inputs,
            num_outputs,
            input_bytes,
        ) * rate + 1000,
{
}

/// At a positive rate every shape costs something.
pub proof fn a_fee_is_always_paid(num_inputs: nat, num_outputs: nat, rate: nat, input_bytes: nat)
    requires
        rate > 0,
    ensures
        fee(num_inputs, num_outputs, rate, input_bytes) > 0,
{
    let size = tx_size(num_inputs, num_outputs, input_bytes);
    assert(input_bytes * num_inputs >= 0) by (nonlinear_arith);
    assert(size * rate >= 10) by (nonlinear_arith)
        requires
            size >= 10,
            rate >= 1,
    ;
}

/// A larger redeem script or a larger threshold never makes an input smaller.
pub proof fn input_size_grows(threshold_a: nat, threshold_b: nat, len_a: nat, len_b: nat)
    requires
        threshold_a <= threshold_b,
        len_a <= len_b,
    ensures
        multisig_input_size(threshold_a, len_a) <= multisig_input_size(threshold_b, len_b),
        threshold_a < threshold_b || len_a < len_b ==> multisig_input_size(threshold_a, len_a)
            < multisig_input_size(threshold_b, len_b),
{
}

/// Conservation: the inputs are worth exactly the payout, the fee and the
/// change.
pub proof fn selection_conserves_value(
    utxos: Seq<VaultUtxo>,
    amount: nat,
    rate: nat,
    dust: nat,
    max_inputs: nat,
    input_bytes: nat,
    s: Selection,
)
    requires
        selected(utxos, amount, rate, dust, max_inputs, input_bytes, s),
    ensures
        s.total_in == amount + s.fee_atomic + s.change_atomic,
        s.total_in == total_value(s.inputs@),
{
    lemma_selected_inputs(utxos, amount, rate, dust, max_inputs, input_bytes, s);
}

/// A selection never leaves dust as change.
pub proof fn change_is_nothing_or_above_dust(
    utxos: Seq<VaultUtxo>,
    amount: nat,
    rate: nat,
    dust: nat,
    max_inputs: nat,
    input_bytes: nat,
    s: Selection,
)
    requires
        selected(utxos, amount, rate, dust, max_inputs, input_bytes, s),
    ensures
        s.change_atomic == 0 || s.change_atomic >= dust,
{
}

/// A selection pays at least the fee of the transaction it describes: one
/// output without change, two with it.
pub proof fn selection_never_underpays(
    utxos: Seq<VaultUtxo>,
    amount: nat,
    rate: nat,
    dust: nat,
    max_inputs: nat,
    input_bytes: nat,
    s: Selection,
)
    requires
        selected(utxos, amount, rate, dust, max_inputs, input_bytes, s),
    ensures
        s.fee_atomic >= fee(
            s.inputs@.len(),
            if s.change_atomic == 0 {
                1
            } else {
                2
            },
            rate,
            input_bytes,
        ),
        rate > 0 ==> s.fee_atomic > 0,
{
    let n = s.inputs@.len();
    lemma_selected_inputs(utxos, amount, rate, dust, max_inputs, input_bytes, s);
    fee_grows_with_the_shape(n, n, 1, 2, rate, input_bytes);
    if rate > 0 {
        a_fee_is_always_paid(n, 1, rate, input_bytes);
    }
}

/// A selection spends at least one output, only outputs it was offered, each
/// at most once and in the order they were offered.
pub proof fn selection_spends_what_was_offered(
    utxos: Seq<VaultUtxo>,
    amount: nat,
    rate: nat,
    dust: nat,
    max_inputs: nat,
    input_bytes: nat,
    s: Selection,
)
    requires
        selected(utxos, amount, rate, dust, max_inputs, input_bytes, s),
    ensures
        exists|from: int, to: int|
            0 <= from < to <= utxos.len() && s.inputs@ == #[trigger] utxos.subrange(from, to),
        s.inputs@.len() <= max_inputs || s.inputs@.len() == 1,
{
    lemma_selected_inputs(utxos, amount, rate, dust, max_inputs, input_bytes, s);
}

/// The same offer and the same policy always give the same selection.
pub proof fn selection_is_deterministic(
    utxos: Seq<VaultUtxo>,
    amount: nat,
    rate: nat,
    dust: nat,
    max_inputs: nat,
    input_bytes: nat,
    a: Selection,
    b: Selection,
)
    requires
        selected(utxos, amount, rate, dust, max_inputs, input_bytes, a),
        selected(utxos, amount, rate, dust, max_inputs, input_bytes, b),
    ensures
        a.inputs@ == b.inputs@,
        a.fee_atomic == b.fee_atomic,
        a.change_atomic == b.change_atomic,
        a.total_in == b.total_in,
{
    let exact = target(amount, 1, 1, rate, input_bytes);
    let covering = target(amount, 1, 2, rate, input_bytes);
    if exists|i: int| first_worth(utxos, exact, i) {
        let i = choose|i: int|
            first_worth(utxos, exact, i) && spends(
                a,
                seq![utxos[i]],
                (fee(1, 1, rate, input_bytes), 0),
            );
        let j = choose|j: int|
            first_worth(utxos, exact, j) && spends(
                b,
                seq![utxos[j]],
                (fee(1, 1, rate, input_bytes), 0),
            );
        assert(i == j);
    } else if exists|i: int| cheapest_covering(utxos, covering, i) {
        let i = choose|i: int|
            cheapest_covering(utxos, covering, i) && spends(
                a,
                seq![utxos[i]],
                split(utxos[i].amount_atomic as nat, amount, fee(1, 2, rate, input_bytes), dust),
            );
        let j = choose|j: int|
            cheapest_covering(utxos, covering, j) && spends(
                b,
                seq![utxos[j]],
                split(utxos[j].amount_atomic as nat, amount, fee(1, 2, rate, input_bytes), dust),
            );
        if i < j {
            assert(cheaper(utxos[j], utxos[i]));
        } else if j < i {
            assert(cheaper(utxos[i], utxos[j]));
        }
        assert(i == j);
    }
}

/// The three shapes a selection can take.
proof fn lemma_selected_inputs(
    utxos: Seq<VaultUtxo>,
    amount: nat,
    rate: nat,
    dust: nat,
    max_inputs: nat,
    input_bytes: nat,
    s: Selection,
)
    requires
        selected(utxos, amount, rate, dust, max_inputs, input_bytes, s),
    ensures
        exists|from: int, to: int|
            0 <= from < to <= utxos.len() && s.inputs@ == #[trigger] utxos.subrange(from, to),
        s.inputs@.len() <= max_inputs || s.inputs@.len() == 1,
        s.total_in == total_value(s.inputs@),
        ({
            let n = s.inputs@.len();
            ||| s.fee_atomic == fee(1, 1, rate, input_bytes) && s.change_atomic == 0 && n == 1
                && s.total_in == target(amount, 1, 1, rate, input_bytes)
            ||| s.total_in >= target(amount, n, 2, rate, input_bytes) && (
            s.fee_atomic as nat,
            s.change_atomic as nat,
        ) == split(s.total_in as nat, amount, fee(n, 2, rate, input_bytes), dust)
        }),
{
    let exact = target(amount, 1, 1, rate, input_bytes);
    let covering = target(amount, 1, 2, rate, input_bytes);
    if exists|i: int| first_worth(utxos, exact, i) {
        let i = choose|i: int|
            first_worth(utxos, exact, i) && spends(
                s,
                seq![utxos[i]],
                (fee(1, 1, rate, input_bytes), 0),
            );
        lemma_single_value(utxos[i]);
        assert(utxos.subrange(i, i + 1) =~= seq![utxos[i]]);
    } else if exists|i: int| cheapest_covering(utxos, covering, i) {
        let i = choose|i: int|
            cheapest_covering(utxos, covering, i) && spends(
                s,
                seq![utxos[i]],
                split(utxos[i].amount_atomic as nat, amount, fee(1, 2, rate, input_bytes), dust),
            );
        lemma_single_value(utxos[i]);
        assert(utxos.subrange(i, i + 1) =~= seq![utxos[i]]);
    } else {
        let n = choose|n: int|
            n <= max_inputs && shortest_funding_prefix(utxos, n, amount, rate, input_bytes)
                && spends(
                s,
                utxos.take(n),
                split(
                    total_value(utxos.take(n)),
                    amount,
                    fee(n as nat, 2, rate, input_bytes),
                    dust,
                ),
            );
        assert(utxos.subrange(0, n) =~= utxos.take(n));
    }
}

/// Ten bytes of frame, thirty-four bytes for every output, and for every input
/// its own size.
pub proof fn every_part_of_a_transaction_has_its_size(
    num_inputs: nat,
    num_outputs: nat,
    input_bytes: nat,
)
    ensures
        tx_size(0, 0, input_bytes) == 10,
        tx_size(num_inputs + 1, num_outputs, input_bytes) == tx_size(
            num_inputs,
            num_outputs,
            input_bytes,
        ) + input_bytes,
        tx_size(num_inputs, num_outputs + 1, input_bytes) == tx_size(
            num_inputs,
            num_outputs,
            input_bytes,
        ) + 34,
{
    assert(input_bytes * (num_inputs + 1) == input_bytes * num_inputs + input_bytes)
        by (nonlinear_arith);
    assert(input_bytes * 0 == 0) by (nonlinear_arith);
}

/// A signed input is its outpoint, its sequence, a signature for every signer
/// that has to sign, and the redeem script. What the pushes and the length cost
/// comes on top: three bytes at least, eight at most.
pub proof fn a_signed_input_has_room_for_its_signatures(threshold: nat, redeem_script_len: nat)
    ensures
        multisig_input_size(threshold, redeem_script_len) >= 40 + 74 * threshold
            + redeem_script_len + 3,
        multisig_input_size(threshold, redeem_script_len) <= 40 + 74 * threshold
            + redeem_script_len + 9,
        redeem_script_len <= 75 && 2 + 74 * threshold + redeem_script_len <= 252
            ==> multisig_input_size(threshold, redeem_script_len) == 40 + 74 * threshold
            + redeem_script_len + 3,
        75 < redeem_script_len <= 255 && 253 <= 3 + 74 * threshold + redeem_script_len <= 0xffff
            ==> multisig_input_size(threshold, redeem_script_len) == 40 + 74 * threshold
            + redeem_script_len + 6,
        ({
            let push: nat = if redeem_script_len <= 75 {
                1
            } else if redeem_script_len <= 255 {
                2
            } else {
                3
            };
            let signed = 1 + 74 * threshold + push + redeem_script_len;
            &&& signed < 253 ==> multisig_input_size(threshold, redeem_script_len) == 41 + signed
            &&& 253 <= signed <= 0xffff ==> multisig_input_size(threshold, redeem_script_len) == 43
                + signed
            &&& signed > 0xffff ==> multisig_input_size(threshold, redeem_script_len) == 45 + signed
        }),
{
}

/// The vault keeps what it does not have to pay: whatever the inputs are worth
/// beyond the amount and the fee of a transaction with change goes back to it,
/// unless that is nothing or dust. A selection without change pays less than the
/// dust threshold above that fee, and one with change pays exactly that fee.
pub proof fn what_is_not_owed_goes_back_to_the_vault(
    utxos: Seq<VaultUtxo>,
    amount: nat,
    rate: nat,
    dust: nat,
    max_inputs: nat,
    input_bytes: nat,
    s: Selection,
)
    requires
        selected(utxos, amount, rate, dust, max_inputs, input_bytes, s),
    ensures
        ({
            let fee_with_change = fee(s.inputs@.len(), 2, rate, input_bytes);
            let least_change = if dust > 1 {
                dust
            } else {
                1
            };
            &&& s.change_atomic == 0 ==> s.fee_atomic < fee_with_change + least_change
            &&& s.change_atomic > 0 ==> s.fee_atomic == fee_with_change && s.change_atomic
                >= least_change
            &&& total_value(s.inputs@) >= amount + fee_with_change + least_change
                ==> s.change_atomic == total_value(s.inputs@) - amount - fee_with_change
            &&& total_value(s.inputs@) < amount + fee_with_change + least_change ==> s.change_atomic
                == 0 && s.fee_atomic == total_value(s.inputs@) - amount
        }),
{
    lemma_selected_inputs(utxos, amount, rate, dust, max_inputs, input_bytes, s);
    fee_grows_with_the_shape(1, 1, 1, 2, rate, input_bytes);
}

/// Two selections of as many inputs for the same amount: the one whose inputs
/// are worth more never leaves the miner more than a dust threshold extra.
/// Everything else of the difference is change.
pub proof fn richer_inputs_do_not_make_a_richer_miner(
    utxos_a: Seq<VaultUtxo>,
    utxos_b: Seq<VaultUtxo>,
    amount: nat,
    rate: nat,
    dust: nat,
    max_inputs: nat,
    input_bytes: nat,
    a: Selection,
    b: Selection,
)
    requires
        selected(utxos_a, amount, rate, dust, max_inputs, input_bytes, a),
        selected(utxos_b, amount, rate, dust, max_inputs, input_bytes, b),
        a.inputs@.len() == b.inputs@.len(),
        a.change_atomic > 0,
        total_value(a.inputs@) <= total_value(b.inputs@),
    ensures
        b.fee_atomic == a.fee_atomic,
        b.change_atomic - a.change_atomic == total_value(b.inputs@) - total_value(a.inputs@),
{
    what_is_not_owed_goes_back_to_the_vault(
        utxos_a,
        amount,
        rate,
        dust,
        max_inputs,
        input_bytes,
        a,
    );
    what_is_not_owed_goes_back_to_the_vault(
        utxos_b,
        amount,
        rate,
        dust,
        max_inputs,
        input_bytes,
        b,
    );
    selection_conserves_value(utxos_a, amount, rate, dust, max_inputs, input_bytes, a);
    selection_conserves_value(utxos_b, amount, rate, dust, max_inputs, input_bytes, b);
}

/// Where an output is worth exactly the amount and the fee of a transaction
/// without change, the first such output is spent and nothing else.
pub proof fn an_exact_output_is_spent_alone(
    utxos: Seq<VaultUtxo>,
    amount: nat,
    rate: nat,
    dust: nat,
    max_inputs: nat,
    input_bytes: nat,
    s: Selection,
    i: int,
)
    requires
        selected(utxos, amount, rate, dust, max_inputs, input_bytes, s),
        0 <= i < utxos.len(),
        utxos[i].amount_atomic == amount + fee(1, 1, rate, input_bytes),
        forall|j: int|
            0 <= j < i ==> (#[trigger] utxos[j]).amount_atomic != amount + fee(
                1,
                1,
                rate,
                input_bytes,
            ),
    ensures
        s.inputs@ == seq![utxos[i]],
        s.fee_atomic == fee(1, 1, rate, input_bytes),
        s.change_atomic == 0,
{
    let exact = target(amount, 1, 1, rate, input_bytes);
    assert(first_worth(utxos, exact, i));
    let k = choose|k: int|
        first_worth(utxos, exact, k) && spends(
            s,
            seq![utxos[k]],
            (fee(1, 1, rate, input_bytes), 0),
        );
    assert(k == i);
}

/// Where no output fits exactly but one covers the amount and the fee of a
/// transaction with change, a single output is spent: one that covers, and none
/// that covers is worth less. Among those worth the same it is the one whose
/// transaction id comes first, then the one with the lower position.
pub proof fn the_least_output_that_covers_is_spent_alone(
    utxos: Seq<VaultUtxo>,
    amount: nat,
    rate: nat,
    dust: nat,
    max_inputs: nat,
    input_bytes: nat,
    s: Selection,
    i: int,
)
    requires
        selected(utxos, amount, rate, dust, max_inputs, input_bytes, s),
        forall|j: int|
            0 <= j < utxos.len() ==> (#[trigger] utxos[j]).amount_atomic != amount + fee(
                1,
                1,
                rate,
                input_bytes,
            ),
        0 <= i < utxos.len(),
        utxos[i].amount_atomic >= amount + fee(1, 2, rate, input_bytes),
    ensures
        s.inputs@.len() == 1,
        utxos.contains(s.inputs@[0]),
        s.inputs@[0].amount_atomic >= amount + fee(1, 2, rate, input_bytes),
        s.inputs@[0].amount_atomic <= utxos[i].amount_atomic,
        s.inputs@[0].amount_atomic == utxos[i].amount_atomic ==> !text_before(
            utxos[i].txid_hex@,
            s.inputs@[0].txid_hex@,
        ) && (utxos[i].txid_hex@ == s.inputs@[0].txid_hex@ ==> s.inputs@[0].vout
            <= utxos[i].vout),
{
    let exact = target(amount, 1, 1, rate, input_bytes);
    let covering = target(amount, 1, 2, rate, input_bytes);
    assert forall|k: int| !first_worth(utxos, exact, k) by {
        if 0 <= k < utxos.len() {
            assert(utxos[k].amount_atomic != exact);
        }
    }
    lemma_some_cheapest(utxos, covering, i);
    let k = choose|k: int|
        cheapest_covering(utxos, covering, k) && spends(
            s,
            seq![utxos[k]],
            split(utxos[k].amount_atomic as nat, amount, fee(1, 2, rate, input_bytes), dust),
        );
    assert(s.inputs@[0] == utxos[k]);
    assert(!cheaper(utxos[i], utxos[k]));
}

/// Where some output covers a value, one of them is the first of the cheapest.
proof fn lemma_some_cheapest(utxos: Seq<VaultUtxo>, value: nat, i: int)
    requires
        0 <= i < utxos.len(),
        utxos[i].amount_atomic >= value,
    ensures
        exists|k: int| cheapest_covering(utxos, value, k),
    decreases utxos.len(),
{
    let shorter = utxos.drop_last();
    let last = utxos.len() - 1;
    if exists|j: int| 0 <= j < last && utxos[j].amount_atomic >= value {
        let j = choose|j: int| 0 <= j < last && utxos[j].amount_atomic >= value;
        assert(shorter[j] == utxos[j]);
        lemma_some_cheapest(shorter, value, j);
        let b = choose|b: int| cheapest_covering(shorter, value, b);
        assert(shorter[b] == utxos[b]);
        if utxos[last].amount_atomic >= value && cheaper(utxos[last], utxos[b]) {
            assert forall|m: int| 0 <= m < last && utxos[m].amount_atomic >= value implies
                #[trigger] cheaper(utxos[last], utxos[m]) by {
                assert(shorter[m] == utxos[m]);
                assert(!cheaper(shorter[m], shorter[b]));
                lemma_cheaper_than_the_rest(utxos[last], utxos[b], utxos[m]);
            }
            assert forall|m: int| 0 <= m < utxos.len() && utxos[m].amount_atomic >= value implies
                !#[trigger] cheaper(utxos[m], utxos[last]) by {
                lemma_cheaper_total(utxos[m], utxos[last]);
                if m < last {
                    assert(cheaper(utxos[last], utxos[m]));
                }
            }
            assert(cheapest_covering(utxos, value, last));
        } else {
            assert forall|m: int| 0 <= m < utxos.len() && utxos[m].amount_atomic >= value implies
                !#[trigger] cheaper(utxos[m], utxos[b]) by {
                if m < last {
                    assert(shorter[m] == utxos[m]);
                    assert(!cheaper(shorter[m], shorter[b]));
                }
            }
            assert forall|m: int| 0 <= m < b && utxos[m].amount_atomic >= value implies
                #[trigger] cheaper(utxos[b], utxos[m]) by {
                assert(shorter[m] == utxos[m]);
                assert(cheaper(shorter[b], shorter[m]));
            }
            assert(cheapest_covering(utxos, value, b));
        }
    } else {
        assert(i == last);
        assert forall|m: int| 0 <= m < utxos.len() && utxos[m].amount_atomic >= value implies
            !#[trigger] cheaper(utxos[m], utxos[last]) by {
            lemma_cheaper_total(utxos[m], utxos[last]);
        }
        assert(cheapest_covering(utxos, value, last));
    }
}

/// Where no output settles the payout on its own, outputs are added in the order
/// they were offered until they cover the amount and the fee of that many
/// inputs, and not one more.
pub proof fn outputs_are_added_until_they_cover(
    utxos: Seq<VaultUtxo>,
    amount: nat,
    rate: nat,
    dust: nat,
    max_inputs: nat,
    input_bytes: nat,
    s: Selection,
)
    requires
        selected(utxos, amount, rate, dust, max_inputs, input_bytes, s),
        forall|j: int|
            0 <= j < utxos.len() ==> (#[trigger] utxos[j]).amount_atomic != amount + fee(
                1,
                1,
                rate,
                input_bytes,
            ) && utxos[j].amount_atomic < amount + fee(1, 2, rate, input_bytes),
    ensures
        1 <= s.inputs@.len() <= max_inputs,
        s.inputs@.len() <= utxos.len(),
        s.inputs@ == utxos.take(s.inputs@.len() as int),
        total_value(s.inputs@) >= amount + fee(s.inputs@.len(), 2, rate, input_bytes),
        forall|k: int|
            1 <= k < s.inputs@.len() ==> total_value(#[trigger] utxos.take(k)) < amount + fee(
                k as nat,
                2,
                rate,
                input_bytes,
            ),
{
    let exact = target(amount, 1, 1, rate, input_bytes);
    let covering = target(amount, 1, 2, rate, input_bytes);
    assert forall|k: int| !first_worth(utxos, exact, k) by {
        if 0 <= k < utxos.len() {
            assert(utxos[k].amount_atomic != exact);
        }
    }
    assert forall|k: int| !cheapest_covering(utxos, covering, k) by {
        if 0 <= k < utxos.len() {
            assert(utxos[k].amount_atomic < covering);
        }
    }
    let n = choose|n: int|
        n <= max_inputs && shortest_funding_prefix(utxos, n, amount, rate, input_bytes) && spends(
            s,
            utxos.take(n),
            split(
                total_value(utxos.take(n)),
                amount,
                fee(n as nat, 2, rate, input_bytes),
                dust,
            ),
        );
    assert forall|k: int| 1 <= k < s.inputs@.len() implies total_value(#[trigger] utxos.take(k))
        < amount + fee(k as nat, 2, rate, input_bytes) by {
        assert(!prefix_funds(utxos, k, amount, rate, input_bytes));
    }
}

/// A payout is refused only where nothing that may be spent covers it: no output
/// alone, and no number of outputs within the cap, taken in their order. It is
/// refused for the cap exactly where more outputs were offered than may be
/// spent; otherwise the refusal says what there is and what is needed.
pub proof fn a_payout_that_can_be_funded_is_not_refused(
    utxos: Seq<VaultUtxo>,
    amount: nat,
    rate: nat,
    max_inputs: usize,
    input_bytes: nat,
    e: SelectionError,
)
    requires
        refused(utxos, amount, rate, max_inputs, input_bytes, e),
        total_value(utxos) <= u64::MAX,
        utxos.len() <= usize::MAX,
    ensures
        forall|i: int|
            0 <= i < utxos.len() ==> (#[trigger] utxos[i]).amount_atomic != amount + fee(
                1,
                1,
                rate,
                input_bytes,
            ) && utxos[i].amount_atomic < amount + fee(1, 2, rate, input_bytes),
        forall|k: int|
            1 <= k <= utxos.len() && k <= max_inputs ==> total_value(#[trigger] utxos.take(k))
                < amount + fee(k as nat, 2, rate, input_bytes),
        e is TooManyInputs <==> utxos.len() > max_inputs,
        e matches SelectionError::TooManyInputs { needed, max } ==> needed == max_inputs + 1 && max
            == max_inputs,
        e matches SelectionError::Insufficient { required, available } ==> {
            &&& available == total_value(utxos)
            &&& utxos.len() > 0 ==> available < amount + fee(utxos.len(), 2, rate, input_bytes)
            &&& utxos.len() > 0 && required < u64::MAX ==> required == amount + fee(
                utxos.len(),
                2,
                rate,
                input_bytes,
            )
            &&& utxos.len() == 0 && required < u64::MAX ==> required == amount + fee(
                1,
                2,
                rate,
                input_bytes,
            )
            &&& required == u64::MAX ==> u64::MAX <= amount + fee(
                if utxos.len() == 0 {
                    1
                } else {
                    utxos.len()
                },
                2,
                rate,
                input_bytes,
            )
        },
{
    assert forall|k: int| 1 <= k <= utxos.len() && k <= max_inputs implies total_value(
        #[trigger] utxos.take(k),
    ) < amount + fee(k as nat, 2, rate, input_bytes) by {
        assert(!prefix_funds(utxos, k, amount, rate, input_bytes));
    }
    assert(utxos.take(utxos.len() as int) =~= utxos);
    if 1 <= utxos.len() <= max_inputs {
        assert(!prefix_funds(utxos, utxos.len() as int, amount, rate, input_bytes));
    }
}

/// A number that is cut off at what 64 bits hold is the number itself wherever
/// it fits, and never more.
pub proof fn a_number_is_cut_off_only_where_it_does_not_fit(n: nat)
    ensures
        n <= u64::MAX ==> saturate(n) == n,
        n > u64::MAX ==> saturate(n) == u64::MAX,
{
}

} // verus!
