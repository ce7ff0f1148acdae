//! The settlement ledger: one delegated transfer per commitment and payer,
//! behind a replay guard that is set only when the transfer succeeded.
//!
//! The guard of a payment is keyed by the digest of its commitment and its
//! payer. It starts unsettled, becomes settled in the same step in which the
//! transfer collaborator reports success, and never goes back.

use vstd::prelude::*;
use crate::identifier::{
    bytes_eq, hash_concat, settlement_key, zero_address, Address, Bytes32, Uint256,
};

verus! {

/// Why a payment was refused.
#[derive(Clone, Copy, Debug, PartialEq, Eq, Structural)]
pub enum SettlementTrackerError {
    /// The payment has already been settled.
    AlreadyPaid,
    /// The transfer collaborator rejected the transfer.
    TransferFailed,
}

/// The collaborator's refusal. It carries no reason: the ledger acts on
/// success or failure alone.
#[derive(Clone, Copy, Debug, PartialEq, Eq, Structural)]
pub struct TransferRejected;

/// A delegated transfer, as handed to the collaborator: the token contract
/// to call and the payer's signed authorization.
#[derive(Clone, Copy, Debug, PartialEq, Eq)]
pub struct TransferAuthorization {
    pub token: Address,
    pub from: Address,
    pub to: Address,
    pub value: Uint256,
    pub valid_after: Uint256,
    pub valid_before: Uint256,
    pub nonce: Bytes32,
    pub v: u8,
    pub r: Bytes32,
    pub s: Bytes32,
}

/// The external party that executes a delegated transfer.
///
/// Nothing is assumed of an implementation: the ledger is proved for every
/// answer it may give.
pub trait TransferCollaborator {
    /// Attempts the transfer and reports whether it went through.
    fn transfer_with_authorization(&mut self, call: &TransferAuthorization) -> Result<
        (),
        TransferRejected,
    >;
}

/// The record that the ledger emits when a payment is settled.
#[derive(Clone, Copy, Debug, PartialEq, Eq)]
pub struct SettlementRecorded {
    pub hash: Bytes32,
    pub amount: Uint256,
}

/// What a [`SettlementRecorded`] holds, as mathematical values.
pub struct SettlementRecordedView {
    pub hash: Seq<u8>,
    pub amount: Seq<u8>,
}

impl View for SettlementRecorded {
    type V = SettlementRecordedView;

    open spec fn view(&self) -> SettlementRecordedView {
        SettlementRecordedView { hash: self.hash@, amount: self.amount@ }
    }
}

/// The ledger as a mathematical value: what every contract below speaks of.
pub struct LedgerView {
    /// The token contract that transfers are delegated to.
    pub usdc_address: Seq<u8>,
    /// The keys whose payment is settled.
    pub settled: Set<Seq<u8>>,
    /// Every record emitted so far, oldest first.
    pub events: Seq<SettlementRecordedView>,
}

impl LedgerView {
    /// The ledger before `init`: no token contract, nothing settled.
    pub open spec fn empty() -> LedgerView {
        LedgerView { usdc_address: zero_address(), settled: Set::empty(), events: Seq::empty() }
    }

    /// Whether the payment with this key is settled.
    pub open spec fn is_settled(self, key: Seq<u8>) -> bool {
        self.settled.contains(key)
    }

    /// The ledger after the payment with this key was settled for `amount`.
    pub open spec fn settled_with(self, key: Seq<u8>, amount: Seq<u8>) -> LedgerView {
        LedgerView {
            usdc_address: self.usdc_address,
            settled: self.settled.insert(key),
            events: self.events.push(SettlementRecordedView { hash: key, amount }),
        }
    }

    /// What `pay` answers for this key, given how the transfer went. The
    /// transfer is attempted only where the key is unsettled.
    pub open spec fn pay_result(self, key: Seq<u8>, transfer_ok: bool) -> Result<
        (),
        SettlementTrackerError,
    > {
        if self.is_settled(key) {
            Err(SettlementTrackerError::AlreadyPaid)
        } else if !transfer_ok {
            Err(SettlementTrackerError::TransferFailed)
        } else {
            Ok(())
        }
    }

    /// The ledger that `pay` leaves behind, given how the transfer went.
    pub open spec fn after_pay(self, key: Seq<u8>, amount: Seq<u8>, transfer_ok: bool) -> LedgerView {
        if self.pay_result(key, transfer_ok) is Ok {
            self.settled_with(key, amount)
        } else {
            self
        }
    }
}

/// The set of keys that a list of settled keys stands for.
pub open spec fn settled_of(keys: Seq<Bytes32>) -> Set<Seq<u8>>
    decreases keys.len(),
{
    if keys.len() == 0 {
        Set::empty()
    } else {
        settled_of(keys.drop_last()).insert(keys.last()@)
    }
}

/// The views of a list of settlement records, in the same order.
pub open spec fn records_of(events: Seq<SettlementRecorded>) -> Seq<SettlementRecordedView> {
    events.map_values(|e: SettlementRecorded| e@)
}

/// Every key of the list is settled.
proof fn lemma_listed_is_settled(keys: Seq<Bytes32>, i: int)
    requires
        0 <= i < keys.len(),
    ensures
        settled_of(keys).contains(keys[i]@),
    decreases keys.len(),
{
    if i < keys.len() - 1 {
        lemma_listed_is_settled(keys.drop_last(), i);
    }
}

/// A key that the list does not hold is unsettled.
proof fn lemma_unlisted_is_unsettled(keys: Seq<Bytes32>, key: Seq<u8>)
    requires
        forall|j: int| 0 <= j < keys.len() ==> (#[trigger] keys[j])@ != key,
    ensures
        !settled_of(keys).contains(key),
    decreases keys.len(),
{
    if keys.len() > 0 {
        lemma_unlisted_is_unsettled(keys.drop_last(), key);
    }
}

/// Whether `key` is among `keys`.
fn is_listed(keys: &Vec<Bytes32>, key: &Bytes32) -> (listed: bool)
    ensures
        listed == settled_of(keys@).contains(key@),
{
    let mut i: usize = 0;
    while i < keys.len()
        invariant
            i <= keys.len(),
            forall|j: int| 0 <= j < i ==> (#[trigger] keys@[j])@ != key@,
        decreases keys.len() - i,
    {
        if bytes_eq(&keys[i], key) {
            proof {
                lemma_listed_is_settled(keys@, i as int);
            }
            return true;
        }
        i += 1;
    }
    proof {
        lemma_unlisted_is_unsettled(keys@, key@);
    }
    false
}

/// The ledger: the token contract it delegates to, the settled keys, and
/// the records emitted so far.
pub struct SettlementTracker {
    /// The token contract that transfers are delegated to.
    usdc_address: Address,
    /// The key of every settled payment.
    settlement_tracker: Vec<Bytes32>,
    /// Every record emitted so far, oldest first.
    events: Vec<SettlementRecorded>,
}

impl View for SettlementTracker {
    type V = LedgerView;

    closed spec fn view(&self) -> LedgerView {
        LedgerView {
            usdc_address: self.usdc_address@,
            settled: settled_of(self.settlement_tracker@),
            events: records_of(self.events@),
        }
    }
}

impl SettlementTracker {
    /// A ledger in which nothing is settled and no token contract is set:
    /// the state before `init`.
    pub fn new() -> (ledger: Self)
        ensures
            ledger@ == LedgerView::empty(),
    {
        let ledger = SettlementTracker {
            usdc_address: [0u8; 20],
            settlement_tracker: Vec::new(),
            events: Vec::new(),
        };
        assert(ledger.usdc_address@ =~= zero_address());
        assert(records_of(ledger.events@) =~= Seq::empty());
        ledger
    }

    /// A ledger rebuilt from what a host has persisted: the token contract
    /// and the keys of the settled payments. No record has been emitted by it
    /// yet.
    pub fn restore(usdc_address: Address, settled: Vec<Bytes32>) -> (ledger: Self)
        ensures
            ledger@ == (LedgerView {
                usdc_address: usdc_address@,
                settled: settled_of(settled@),
                events: Seq::empty(),
            }),
    {
        let ledger = SettlementTracker {
            usdc_address,
            settlement_tracker: settled,
            events: Vec::new(),
        };
        assert(records_of(ledger.events@) =~= Seq::empty());
        ledger
    }

    /// Sets the token contract that transfers are delegated to. Nothing else
    /// changes.
    pub fn init(&mut self, usdc_address: Address)
        ensures
            final(self)@ == (LedgerView { usdc_address: usdc_address@, ..old(self)@ }),
    {
        self.usdc_address = usdc_address;
    }

    /// The token contract that transfers are delegated to.
    pub fn usdc_address(&self) -> (address: Address)
        ensures
            address@ == self@.usdc_address,
    {
        self.usdc_address
    }

    /// Whether the payment of `commitment` by `user` is settled.
    pub fn check_settlement(&self, commitment: Bytes32, user: Address) -> (settled: bool)
        ensures
            settled == self@.is_settled(settlement_key(commitment@, user@)),
    {
        let hash = hash_concat(commitment.as_slice(), user.as_slice());
        is_listed(&self.settlement_tracker, &hash)
    }

    /// The call that `pay` hands to the collaborator: the authorization as
    /// given, addressed to the ledger's token contract.
    pub fn authorization(
        &self,
        from: Address,
        to: Address,
        amount: Uint256,
        valid_after: Uint256,
        valid_before: Uint256,
        nonce: Bytes32,
        v: u8,
        r: Bytes32,
        s: Bytes32,
    ) -> (call: TransferAuthorization)
        ensures
            call.token@ == self@.usdc_address,
            call.from == from,
            call.to == to,
            call.value == amount,
            call.valid_after == valid_after,
            call.valid_before == valid_before,
            call.nonce == nonce,
            call.v == v,
            call.r == r,
            call.s == s,
    {
        TransferAuthorization {
            token: self.usdc_address,
            from,
            to,
            value: amount,
            valid_after,
            valid_before,
            nonce,
            v,
            r,
            s,
        }
    }

    /// Commits or discards the payment of `commitment` by `from`, given the
    /// collaborator's answer to its transfer.
    ///
    /// Refused with `AlreadyPaid` where the payment is settled, and with
    /// `TransferFailed` where the transfer was rejected; nothing changes
    /// then. Otherwise the payment becomes settled and one
    /// `SettlementRecorded` record with `amount` is emitted.
    pub fn record_transfer(
        &mut self,
        commitment: Bytes32,
        from: Address,
        amount: Uint256,
        outcome: Result<(), TransferRejected>,
    ) -> (result: Result<(), SettlementTrackerError>)
        ensures
            result == old(self)@.pay_result(settlement_key(commitment@, from@), outcome is Ok),
            final(self)@ == old(self)@.after_pay(
                settlement_key(commitment@, from@),
                amount@,
                outcome is Ok,
            ),
    {
        let hash = hash_concat(commitment.as_slice(), from.as_slice());
        if is_listed(&self.settlement_tracker, &hash) {
            return Err(SettlementTrackerError::AlreadyPaid);
        }
        if outcome.is_err() {
            return Err(SettlementTrackerError::TransferFailed);
        }
        self.settlement_tracker.push(hash);
        assert(self.settlement_tracker@.drop_last() =~= old(self).settlement_tracker@);
        self.events.push(SettlementRecorded { hash, amount });
        assert(records_of(self.events@) =~= old(self)@.settled_with(hash@, amount@).events);
        Ok(())
    }

    /// Settles the payment of `commitment` by `from` through one delegated
    /// transfer.
    ///
    /// Where the payment is settled already, it is refused with
    /// `AlreadyPaid` before anything else happens: the collaborator is not
    /// called and nothing changes. Otherwise the collaborator is called once
    /// with [`SettlementTracker::authorization`], and its answer is handed to
    /// [`SettlementTracker::record_transfer`]: the payment is settled exactly
    /// when the transfer went through; when it did not, `TransferFailed` is
    /// returned, nothing changes, and the payment may be tried again.
    ///
    /// The answer and the ledger left behind are those of `pay_result` and
    /// `after_pay` for one of the two ways the transfer can go.
    pub fn pay<C: TransferCollaborator>(
        &mut self,
        usdc: &mut C,
        commitment: Bytes32,
        from: Address,
        to: Address,
        amount: Uint256,
        valid_after: Uint256,
        valid_before: Uint256,
        nonce: Bytes32,
        v: u8,
        r: Bytes32,
        s: Bytes32,
    ) -> (result: Result<(), SettlementTrackerError>)
        ensures
            exists|transfer_ok: bool|
                {
                    &&& result == #[trigger] old(self)@.pay_result(
                        settlement_key(commitment@, from@),
                        transfer_ok,
                    )
                    &&& final(self)@ == old(self)@.after_pay(
                        settlement_key(commitment@, from@),
                        amount@,
                        transfer_ok,
                    )
                },
            old(self)@.is_settled(settlement_key(commitment@, from@)) ==> *final(usdc) == *old(usdc),
    {
        if self.check_settlement(commitment, from) {
            assert(self@.pay_result(settlement_key(commitment@, from@), false) is Err);
            return Err(SettlementTrackerError::AlreadyPaid);
        }
        let call = self.authorization(from, to, amount, valid_after, valid_before, nonce, v, r, s);
        let outcome = usdc.transfer_with_authorization(&call);
        self.record_transfer(commitment, from, amount, outcome)
    }

    /// Every record emitted so far, oldest first.
    pub fn events(&self) -> (events: &Vec<SettlementRecorded>)
        ensures
            records_of(events@) == self@.events,
    {
        &self.events
    }
}

/// In the ledger before `init` no payment is settled.
pub proof fn nothing_is_settled_at_first(key: Seq<u8>)
    ensures
        !LedgerView::empty().is_settled(key),
{
}

/// A payment stays unsettled until a payment with its own key succeeds: a
/// `pay` with another key, and a `pay` whose transfer failed, leave its
/// guard as it was.
pub proof fn only_its_own_payment_settles_a_key(
    s: LedgerView,
    key: Seq<u8>,
    other: Seq<u8>,
    amount: Seq<u8>,
    transfer_ok: bool,
)
    ensures
        other != key ==> s.after_pay(other, amount, transfer_ok).is_settled(key) == s.is_settled(
            key,
        ),
        s.after_pay(key, amount, false).is_settled(key) == s.is_settled(key),
{
}

/// Once settled, always settled: no `pay`, with whatever key and outcome,
/// resets a guard, and none changes the token contract.
pub proof fn settled_stays_settled(
    s: LedgerView,
    key: Seq<u8>,
    other: Seq<u8>,
    amount: Seq<u8>,
    transfer_ok: bool,
)
    requires
        s.is_settled(key),
    ensures
        s.after_pay(other, amount, transfer_ok).is_settled(key),
        s.after_pay(other, amount, transfer_ok).usdc_address == s.usdc_address,
{
}

/// A successful `pay` settles its key, and every later `pay` with that key
/// fails with `AlreadyPaid` and changes nothing: what was recorded for the
/// first payment, its amount included, stays as it is.
pub proof fn second_payment_is_refused(
    s: LedgerView,
    key: Seq<u8>,
    amount: Seq<u8>,
    later_amount: Seq<u8>,
    later_transfer_ok: bool,
)
    requires
        s.pay_result(key, true) is Ok,
    ensures
        s.after_pay(key, amount, true).is_settled(key),
        s.after_pay(key, amount, true).events == s.events.push(
            SettlementRecordedView { hash: key, amount },
        ),
        s.after_pay(key, amount, true).pay_result(key, later_transfer_ok) == Err::<
            (),
            SettlementTrackerError,
        >(SettlementTrackerError::AlreadyPaid),
        s.after_pay(key, amount, true).after_pay(key, later_amount, later_transfer_ok)
            == s.after_pay(key, amount, true),
{
}

/// A `pay` whose transfer fails returns `TransferFailed` and leaves the
/// ledger as it was, so its key is still unsettled and a later `pay` with
/// that key succeeds as soon as its transfer does.
pub proof fn failed_payment_can_be_retried(
    s: LedgerView,
    key: Seq<u8>,
    amount: Seq<u8>,
    later_amount: Seq<u8>,
)
    requires
        !s.is_settled(key),
    ensures
        s.pay_result(key, false) == Err::<(), SettlementTrackerError>(
            SettlementTrackerError::TransferFailed,
        ),
        s.after_pay(key, amount, false) == s,
        !s.after_pay(key, amount, false).is_settled(key),
        s.after_pay(key, amount, false).pay_result(key, true) is Ok,
        s.after_pay(key, amount, false).after_pay(key, later_amount, true).is_settled(key),
{
}

} // verus!
