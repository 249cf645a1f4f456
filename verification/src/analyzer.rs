//! The state-diff analyzer: given the storage diff a transaction would
//! cause, it finds the pools of the watched token that the transaction
//! touches and reports each pool whose watched-token balance increases.

use vstd::prelude::*;
use crate::words::{Address, Word, be_val, bytes_eq, be_bytes_gt};
use crate::events::Transaction;
use crate::registry::{Pool, PoolModel, PoolRegistry, pool_has_token};

verus! {

/// How one storage slot would change under the traced transaction.
#[derive(Clone, Debug)]
pub enum SlotChange {
    /// The slot keeps its value.
    Same,
    /// The slot comes into existence with this value.
    Born(Word),
    /// The slot is cleared; it held this value.
    Died(Word),
    /// The slot's value changes from the first word to the second.
    Changed(Word, Word),
}

/// One slot of an account's storage and how it would change.
#[derive(Clone, Debug)]
pub struct SlotEntry {
    pub slot: Word,
    pub change: SlotChange,
}

/// The storage changes of one touched account.
#[derive(Clone, Debug)]
pub struct AccountDiff {
    pub address: Address,
    pub storage: Vec<SlotEntry>,
}

/// The state diff of one traced transaction: the accounts it touches,
/// each with its storage changes.
#[derive(Clone, Debug)]
pub struct StateDiff {
    pub accounts: Vec<AccountDiff>,
}

/// Why an analysis gave no classification.
#[derive(Clone, Copy, Debug, PartialEq, Eq, Structural)]
pub enum AnalysisError {
    /// The node produced no state diff for the transaction.
    TraceUnavailable,
    /// A changed entry of the watched token's storage held a value that
    /// is not a 256-bit word.
    SlotDecodeFailure,
}

/// One reported balance increase: the transaction raised the pool's
/// holdings of the watched token from `balance_before` to
/// `balance_after`.
#[derive(Clone, Debug)]
pub struct Classification {
    pub tx_hash: Word,
    pub pool_address: Address,
    pub balance_before: Word,
    pub balance_after: Word,
}

/// The mathematical content of a classification record.
pub struct ClassificationModel {
    pub tx_hash: Seq<u8>,
    pub pool_address: Seq<u8>,
    pub balance_before: Seq<u8>,
    pub balance_after: Seq<u8>,
}

impl View for Classification {
    type V = ClassificationModel;

    open spec fn view(&self) -> ClassificationModel {
        ClassificationModel {
            tx_hash: self.tx_hash@,
            pool_address: self.pool_address@,
            balance_before: self.balance_before@,
            balance_after: self.balance_after@,
        }
    }
}

/// The Keccak-256 digest of a byte string: a function of the bytes
/// alone, given meaning by the digest call the analyzer relies on.
pub uninterp spec fn keccak_of(data: Seq<u8>) -> Seq<u8>;

/// Relies on ethers::utils::keccak256: the Keccak-256 digest of the
/// input, 32 bytes, a function of the input bytes alone.
#[verifier::external_body]
fn keccak256_bytes(data: &Vec<u8>) -> (r: Vec<u8>)
    ensures
        r@ == keccak_of(data@),
        r@.len() == 32,
{
    ethers::utils::keccak256(data.as_slice()).to_vec()
}

/// The byte at big-endian position `i` of a 64-bit integer.
pub open spec fn be_byte8(x: u64, i: int) -> u8 {
    ((x >> ((56 - 8 * i) as u64)) & 0xff) as u8
}

/// The eight bytes of a 64-bit integer, most significant first.
pub open spec fn be_bytes8(x: u64) -> Seq<u8> {
    Seq::new(8, |i: int| be_byte8(x, i))
}

/// An address left-padded into a 32-byte word: twelve zero bytes, then
/// the twenty address bytes.
pub open spec fn abi_word_of_address(a: Seq<u8>) -> Seq<u8> {
    Seq::new(12, |i: int| 0u8) + a
}

/// A 32-byte word holding a 64-bit integer: twenty-four zero bytes,
/// then the integer's bytes, most significant first.
pub open spec fn abi_word_of_u64(x: u64) -> Seq<u8> {
    Seq::new(24, |i: int| 0u8) + be_bytes8(x)
}

/// The preimage hashed to find a pool's balance slot: the pool's
/// address as a 32-byte word, then the ledger's slot index as another.
pub open spec fn balance_slot_preimage(pool_address: Seq<u8>, slot_index: u64) -> Seq<u8> {
    abi_word_of_address(pool_address) + abi_word_of_u64(slot_index)
}

/// The storage slot holding a pool's balance in the watched token's
/// ledger mapping at `slot_index`.
pub open spec fn balance_slot_of(pool_address: Seq<u8>, slot_index: u64) -> Seq<u8> {
    keccak_of(balance_slot_preimage(pool_address, slot_index))
}

/// Builds the slot preimage: the address left-padded by twelve zero
/// bytes, then the slot index as a 32-byte big-endian word.
pub fn encode_balance_slot_preimage(pool_address: &Address, slot_index: u64) -> (r: Vec<u8>)
    ensures
        r@ == balance_slot_preimage(pool_address@, slot_index),
{
    let a_len = pool_address.bytes.len();
    let mut out: Vec<u8> = Vec::new();
    let mut i: usize = 0;
    while i < 12
        invariant
            0 <= i <= 12,
            out@.len() == i,
            forall|j: int| 0 <= j < i ==> out@[j] == 0u8,
        decreases 12 - i,
    {
        out.push(0u8);
        i += 1;
    }
    let mut j: usize = 0;
    while j < a_len
        invariant
            a_len == pool_address@.len(),
            0 <= j <= a_len,
            out@.len() == 12 + j,
            forall|k: int| 0 <= k < 12 ==> out@[k] == 0u8,
            forall|k: int| 0 <= k < j ==> #[trigger] out@[12 + k] == pool_address@[k],
        decreases a_len - j,
    {
        out.push(pool_address.bytes[j]);
        j += 1;
    }
    let mut k: usize = 0;
    while k < 24
        invariant
            a_len == pool_address@.len(),
            0 <= k <= 24,
            out@.len() == 12 + a_len + k,
            forall|m: int| 0 <= m < 12 ==> out@[m] == 0u8,
            forall|m: int| 0 <= m < a_len ==> #[trigger] out@[12 + m] == pool_address@[m],
            forall|m: int| 0 <= m < k ==> #[trigger] out@[12 + a_len + m] == 0u8,
        decreases 24 - k,
    {
        out.push(0u8);
        k += 1;
    }
    let mut n: usize = 0;
    while n < 8
        invariant
            a_len == pool_address@.len(),
            0 <= n <= 8,
            out@.len() == 12 + a_len + 24 + n,
            forall|m: int| 0 <= m < 12 ==> out@[m] == 0u8,
            forall|m: int| 0 <= m < a_len ==> #[trigger] out@[12 + m] == pool_address@[m],
            forall|m: int| 0 <= m < 24 ==> #[trigger] out@[12 + a_len + m] == 0u8,
            forall|m: int| 0 <= m < n ==> #[trigger] out@[12 + a_len + 24 + m] == be_byte8(slot_index, m),
        decreases 8 - n,
    {
        let shift: u64 = (56 - 8 * (n as u64)) as u64;
        let b: u8 = ((slot_index >> shift) & 0xff) as u8;
        proof {
            assert(b == be_byte8(slot_index, n as int));
        }
        out.push(b);
        n += 1;
    }
    proof {
        let pre = balance_slot_preimage(pool_address@, slot_index);
        let a_l = a_len as int;
        assert(pre.len() == 12 + a_l + 24 + 8);
        assert forall|m: int| 0 <= m < pre.len() implies out@[m] == pre[m] by {
            if m < 12 {
            } else if m < 12 + a_l {
                assert(out@[12 + (m - 12)] == pool_address@[m - 12]);
            } else if m < 12 + a_l + 24 {
                assert(out@[12 + a_l + (m - 12 - a_l)] == 0u8);
            } else {
                assert(out@[12 + a_l + 24 + (m - 12 - a_l - 24)] == be_byte8(
                    slot_index,
                    m - 12 - a_l - 24,
                ));
            }
        }
        assert(out@ =~= pre);
    }
    out
}

/// The storage slot of the pool's balance in the watched token's
/// balance-ledger mapping: the digest of the encoded pair.
pub fn pool_balance_slot(pool_address: &Address, slot_index: u64) -> (r: Word)
    ensures
        r@ == balance_slot_of(pool_address@, slot_index),
        r.wf(),
{
    let preimage = encode_balance_slot_preimage(pool_address, slot_index);
    let digest = keccak256_bytes(&preimage);
    Word { bytes: digest }
}

/// Accepts the traced diff where the node produced one; a trace
/// without a diff is a per-transaction failure.
pub fn require_trace(diff: Option<StateDiff>) -> (r: Result<StateDiff, AnalysisError>)
    ensures
        match diff {
            Option::Some(d) => r == Result::<StateDiff, AnalysisError>::Ok(d),
            Option::None => r == Result::<StateDiff, AnalysisError>::Err(
                AnalysisError::TraceUnavailable,
            ),
        },
{
    match diff {
        Some(d) => Ok(d),
        None => Err(AnalysisError::TraceUnavailable),
    }
}

/// The pools the diff touches, in diff order: each touched address that
/// the registry knows and whose pool holds the watched token.
pub open spec fn touched_pools(
    accounts: Seq<AccountDiff>,
    reg: Map<Seq<u8>, PoolModel>,
    watched: Seq<u8>,
) -> Seq<PoolModel>
    decreases accounts.len(),
{
    if accounts.len() == 0 {
        Seq::empty()
    } else {
        let rest = touched_pools(accounts.drop_last(), reg, watched);
        let a = accounts.last();
        if reg.dom().contains(a.address@) && pool_has_token(reg[a.address@], watched) {
            rest.push(reg[a.address@])
        } else {
            rest
        }
    }
}

/// The storage changes recorded for an address: those of the first diff
/// entry bearing it, if any.
pub open spec fn account_storage_of(accounts: Seq<AccountDiff>, addr: Seq<u8>) -> Option<
    Seq<SlotEntry>,
>
    decreases accounts.len(),
{
    if accounts.len() == 0 {
        Option::None
    } else if accounts.first().address@ == addr {
        Option::Some(accounts.first().storage@)
    } else {
        account_storage_of(accounts.drop_first(), addr)
    }
}

/// The change recorded for a slot: that of the first entry bearing the
/// slot, if any.
pub open spec fn slot_change_of(storage: Seq<SlotEntry>, slot: Seq<u8>) -> Option<SlotChange>
    decreases storage.len(),
{
    if storage.len() == 0 {
        Option::None
    } else if storage.first().slot@ == slot {
        Option::Some(storage.first().change)
    } else {
        slot_change_of(storage.drop_first(), slot)
    }
}

/// The classifications for a sequence of touched pools, in order. A
/// pool contributes a record exactly when the watched token's storage
/// changes its balance slot to a strictly larger value; a changed entry
/// whose words are not 256-bit wide stops the analysis.
pub open spec fn classify_pools(
    pools: Seq<PoolModel>,
    storage: Seq<SlotEntry>,
    tx_hash: Seq<u8>,
    slot_index: u64,
) -> Result<Seq<ClassificationModel>, AnalysisError>
    decreases pools.len(),
{
    if pools.len() == 0 {
        Result::Ok(Seq::empty())
    } else {
        match classify_pools(pools.drop_last(), storage, tx_hash, slot_index) {
            Result::Err(e) => Result::Err(e),
            Result::Ok(rest) => {
                let p = pools.last();
                match slot_change_of(storage, balance_slot_of(p.address, slot_index)) {
                    Option::Some(SlotChange::Changed(from, to)) => {
                        if from@.len() != 32 || to@.len() != 32 {
                            Result::Err(AnalysisError::SlotDecodeFailure)
                        } else if be_val(to@) > be_val(from@) {
                            Result::Ok(
                                rest.push(
                                    ClassificationModel {
                                        tx_hash: tx_hash,
                                        pool_address: p.address,
                                        balance_before: from@,
                                        balance_after: to@,
                                    },
                                ),
                            )
                        } else {
                            Result::Ok(rest)
                        }
                    },
                    _ => Result::Ok(rest),
                }
            },
        }
    }
}

/// The whole analysis of one diff: nothing where no known pool of the
/// watched token is touched, or where the watched token's own storage
/// is not; otherwise one record per touched pool whose watched-token
/// balance increases.
pub open spec fn analyze_of(
    tx_hash: Seq<u8>,
    accounts: Seq<AccountDiff>,
    reg: Map<Seq<u8>, PoolModel>,
    watched: Seq<u8>,
    slot_index: u64,
) -> Result<Seq<ClassificationModel>, AnalysisError> {
    let pools = touched_pools(accounts, reg, watched);
    if pools.len() == 0 {
        Result::Ok(Seq::empty())
    } else {
        match account_storage_of(accounts, watched) {
            Option::None => Result::Ok(Seq::empty()),
            Option::Some(storage) => classify_pools(pools, storage, tx_hash, slot_index),
        }
    }
}

/// The models of a sequence of classification records.
pub open spec fn classification_views(v: Seq<Classification>) -> Seq<ClassificationModel> {
    v.map_values(|c: Classification| c@)
}

/// An error among a prefix of the pools persists through the rest.
proof fn lemma_classify_err_persists(
    pools: Seq<PoolModel>,
    storage: Seq<SlotEntry>,
    tx_hash: Seq<u8>,
    slot_index: u64,
    k: int,
    m: int,
)
    requires
        0 <= k <= m <= pools.len(),
        classify_pools(pools.take(k), storage, tx_hash, slot_index) is Err,
    ensures
        classify_pools(pools.take(m), storage, tx_hash, slot_index) == classify_pools(
            pools.take(k),
            storage,
            tx_hash,
            slot_index,
        ),
    decreases m - k,
{
    if m > k {
        lemma_classify_err_persists(pools, storage, tx_hash, slot_index, k, m - 1);
        assert(pools.take(m).drop_last() =~= pools.take(m - 1));
    }
}

/// The index of the first diff entry for the address, if any.
fn find_account_index(accounts: &Vec<AccountDiff>, watched: &Address) -> (r: Option<usize>)
    ensures
        match r {
            Option::Some(idx) => 0 <= idx < accounts@.len() && account_storage_of(
                accounts@,
                watched@,
            ) == Option::Some(accounts@[idx as int].storage@),
            Option::None => account_storage_of(accounts@, watched@) is None,
        },
{
    let n = accounts.len();
    let mut a: usize = 0;
    proof {
        assert(accounts@.skip(0) =~= accounts@);
    }
    while a < n
        invariant
            n == accounts@.len(),
            0 <= a <= n,
            account_storage_of(accounts@, watched@) == account_storage_of(
                accounts@.skip(a as int),
                watched@,
            ),
        decreases n - a,
    {
        proof {
            assert(accounts@.skip(a as int).first() == accounts@[a as int]);
            assert(accounts@.skip(a as int).drop_first() =~= accounts@.skip(a + 1));
        }
        if accounts[a].address.same_as(watched) {
            return Some(a);
        }
        a += 1;
    }
    proof {
        assert(accounts@.skip(n as int).len() == 0);
    }
    None
}

/// The index of the first entry of the storage bearing the slot, if
/// any.
fn find_slot_index(storage: &Vec<SlotEntry>, slot: &Word) -> (r: Option<usize>)
    ensures
        match r {
            Option::Some(idx) => 0 <= idx < storage@.len() && slot_change_of(storage@, slot@)
                == Option::Some(storage@[idx as int].change),
            Option::None => slot_change_of(storage@, slot@) is None,
        },
{
    let n = storage.len();
    let mut a: usize = 0;
    proof {
        assert(storage@.skip(0) =~= storage@);
    }
    while a < n
        invariant
            n == storage@.len(),
            0 <= a <= n,
            slot_change_of(storage@, slot@) == slot_change_of(storage@.skip(a as int), slot@),
        decreases n - a,
    {
        proof {
            assert(storage@.skip(a as int).first() == storage@[a as int]);
            assert(storage@.skip(a as int).drop_first() =~= storage@.skip(a + 1));
        }
        if bytes_eq(&storage[a].slot.bytes, &slot.bytes) {
            return Some(a);
        }
        a += 1;
    }
    proof {
        assert(storage@.skip(n as int).len() == 0);
    }
    None
}

/// Analyzes one transaction's state diff against the registry: the
/// touched pools of the watched token are found, and each whose balance
/// slot in the watched token's storage changes to a strictly larger
/// value yields one record. The result is a function of the arguments
/// alone.
pub fn analyze(
    tx: &Transaction,
    diff: &StateDiff,
    registry: &PoolRegistry,
    watched_token: &Address,
    slot_index: u64,
) -> (r: Result<Vec<Classification>, AnalysisError>)
    ensures
        match r {
            Result::Ok(v) => analyze_of(
                tx.hash@,
                diff.accounts@,
                registry.pools(),
                watched_token@,
                slot_index,
            ) == Result::<Seq<ClassificationModel>, AnalysisError>::Ok(classification_views(v@)),
            Result::Err(e) => analyze_of(
                tx.hash@,
                diff.accounts@,
                registry.pools(),
                watched_token@,
                slot_index,
            ) == Result::<Seq<ClassificationModel>, AnalysisError>::Err(e),
        },
{
    let ghost reg = registry.pools();
    let ghost accounts = diff.accounts@;
    let ghost watched = watched_token@;

    let mut touched: Vec<Pool> = Vec::new();
    let n = diff.accounts.len();
    let mut i: usize = 0;
    proof {
        assert(accounts.take(0) =~= Seq::<AccountDiff>::empty());
        assert(touched@.map_values(|p: Pool| p@) =~= Seq::<PoolModel>::empty());
    }
    while i < n
        invariant
            n == accounts.len(),
            0 <= i <= n,
            accounts == diff.accounts@,
            reg == registry.pools(),
            watched == watched_token@,
            touched@.map_values(|p: Pool| p@) == touched_pools(
                accounts.take(i as int),
                reg,
                watched,
            ),
        decreases n - i,
    {
        let account = &diff.accounts[i];
        proof {
            assert(accounts.take(i + 1).drop_last() =~= accounts.take(i as int));
            assert(accounts.take(i + 1).last() == accounts[i as int]);
        }
        match registry.get(&account.address) {
            Some(pool) => {
                if pool.contains_token(watched_token) {
                    let ghost before = touched@;
                    touched.push(pool);
                    proof {
                        assert(touched@.map_values(|p: Pool| p@) =~= before.map_values(
                            |p: Pool| p@,
                        ).push(touched@.last()@));
                    }
                } else {
                }
            },
            None => {},
        }
        i += 1;
    }
    proof {
        assert(accounts.take(n as int) =~= accounts);
    }

    if touched.len() == 0 {
        let empty_out: Vec<Classification> = Vec::new();
        proof {
            assert(classification_views(empty_out@) =~= Seq::<ClassificationModel>::empty());
        }
        return Ok(empty_out);
    }

    let target_index: usize;
    match find_account_index(&diff.accounts, watched_token) {
        Some(idx) => {
            target_index = idx;
        },
        None => {
            let empty_out: Vec<Classification> = Vec::new();
            proof {
                assert(classification_views(empty_out@) =~= Seq::<ClassificationModel>::empty());
            }
            return Ok(empty_out);
        },
    }
    let target_storage = &diff.accounts[target_index].storage;
    let ghost storage = target_storage@;

    let ghost models = touched@.map_values(|p: Pool| p@);
    let mut out: Vec<Classification> = Vec::new();
    let t = touched.len();
    let mut j: usize = 0;
    proof {
        assert(models.take(0) =~= Seq::<PoolModel>::empty());
        assert(classification_views(out@) =~= Seq::<ClassificationModel>::empty());
    }
    while j < t
        invariant
            t == touched@.len(),
            0 <= j <= t,
            accounts == diff.accounts@,
            reg == registry.pools(),
            watched == watched_token@,
            models == touched@.map_values(|p: Pool| p@),
            models == touched_pools(accounts, reg, watched),
            models.len() > 0,
            storage == target_storage@,
            target_storage@ == diff.accounts@[target_index as int].storage@,
            0 <= target_index < diff.accounts@.len(),
            account_storage_of(accounts, watched) == Option::Some(storage),
            classify_pools(models.take(j as int), storage, tx.hash@, slot_index)
                == Result::<Seq<ClassificationModel>, AnalysisError>::Ok(
                classification_views(out@),
            ),
        decreases t - j,
    {
        let pool = &touched[j];
        proof {
            assert(models.take(j + 1).drop_last() =~= models.take(j as int));
            assert(models.take(j + 1).last() == models[j as int]);
            assert(models[j as int] == touched@[j as int]@);
        }
        let slot = pool_balance_slot(pool.address(), slot_index);
        match find_slot_index(target_storage, &slot) {
            Some(s_idx) => {
                match &target_storage[s_idx].change {
                    SlotChange::Changed(from_w, to_w) => {
                        if from_w.bytes.len() != 32 || to_w.bytes.len() != 32 {
                            proof {
                                assert(slot_change_of(storage, slot@) == Option::Some(
                                    SlotChange::Changed(*from_w, *to_w),
                                ));
                                assert(slot@ == balance_slot_of(
                                    models[j as int].address,
                                    slot_index,
                                ));
                                assert(classify_pools(
                                    models.take(j + 1),
                                    storage,
                                    tx.hash@,
                                    slot_index,
                                ) == Result::<Seq<ClassificationModel>, AnalysisError>::Err(
                                    AnalysisError::SlotDecodeFailure,
                                ));
                                lemma_classify_err_persists(
                                    models,
                                    storage,
                                    tx.hash@,
                                    slot_index,
                                    j + 1,
                                    models.len() as int,
                                );
                                assert(models.take(models.len() as int) =~= models);
                            }
                            return Err(AnalysisError::SlotDecodeFailure);
                        }
                        if be_bytes_gt(&to_w.bytes, &from_w.bytes) {
                            let ghost before = out@;
                            out.push(
                                Classification {
                                    tx_hash: tx.hash.duplicate(),
                                    pool_address: pool.address().duplicate(),
                                    balance_before: from_w.duplicate(),
                                    balance_after: to_w.duplicate(),
                                },
                            );
                            proof {
                                assert(classification_views(out@) =~= classification_views(
                                    before,
                                ).push(out@.last()@));
                            }
                        } else {
                        }
                    },
                    _ => {},
                }
            },
            None => {},
        }
        j += 1;
    }
    proof {
        assert(models.take(t as int) =~= models);
    }
    Ok(out)
}


/// Re-running the analysis on one and the same input always yields the
/// same records: the outcome is a function of the transaction, the
/// diff, the registry and the watched token alone.
pub proof fn lemma_analyze_idempotent(
    r1: Result<Vec<Classification>, AnalysisError>,
    r2: Result<Vec<Classification>, AnalysisError>,
    tx_hash: Seq<u8>,
    accounts: Seq<AccountDiff>,
    reg: Map<Seq<u8>, PoolModel>,
    watched: Seq<u8>,
    slot_index: u64,
)
    requires
        (match r1 {
            Result::Ok(v) => analyze_of(tx_hash, accounts, reg, watched, slot_index)
                == Result::<Seq<ClassificationModel>, AnalysisError>::Ok(classification_views(v@)),
            Result::Err(e) => analyze_of(tx_hash, accounts, reg, watched, slot_index)
                == Result::<Seq<ClassificationModel>, AnalysisError>::Err(e),
        }),
        (match r2 {
            Result::Ok(v) => analyze_of(tx_hash, accounts, reg, watched, slot_index)
                == Result::<Seq<ClassificationModel>, AnalysisError>::Ok(classification_views(v@)),
            Result::Err(e) => analyze_of(tx_hash, accounts, reg, watched, slot_index)
                == Result::<Seq<ClassificationModel>, AnalysisError>::Err(e),
        }),
    ensures
        (match (r1, r2) {
            (Result::Ok(v1), Result::Ok(v2)) => classification_views(v1@) == classification_views(
                v2@,
            ),
            (Result::Err(e1), Result::Err(e2)) => e1 == e2,
            _ => false,
        }),
{
}

} // verus!
