//! Stealth transfers: a sender locks an amount for a list of recipients
//! together with an encrypted payload, and whoever shows a valid proof
//! releases the amount to the recipients in equal shares.
//!
//! This module keeps the book of pending transfers and decides what each
//! call does. Moving funds and checking a proof are the caller's part: the
//! caller hands in what the proof system said and carries out the payouts
//! that come back.

use std::collections::HashMap;
use vstd::prelude::*;

verus! {

broadcast use vstd::std_specs::hash::group_hash_axioms;

/// An amount of the token.
pub type Balance = u128;

/// Pending stealth transfer data
#[derive(Clone, Debug, PartialEq, Eq)]
pub struct StealthTransfer<AccountId> {
    pub sender: AccountId,
    pub recipients: Vec<AccountId>,
    pub ciphertext: Vec<u8>,
    pub amount: Balance,
}

/// What a pending transfer is.
pub struct TransferView<AccountId> {
    pub sender: AccountId,
    pub recipients: Seq<AccountId>,
    pub ciphertext: Seq<u8>,
    pub amount: Balance,
}

impl<AccountId> View for StealthTransfer<AccountId> {
    type V = TransferView<AccountId>;

    open spec fn view(&self) -> TransferView<AccountId> {
        TransferView {
            sender: self.sender,
            recipients: self.recipients@,
            ciphertext: self.ciphertext@,
            amount: self.amount,
        }
    }
}

/// Pallet events
#[derive(Clone, Copy, Debug, PartialEq, Eq)]
pub enum Event<AccountId> {
    /// Verifying key set by root
    VerifyingKeySet,
    /// Stealth transfer submitted: funds locked
    StealthTransferSubmitted { id: u64, sender: AccountId },
    /// Stealth transfer claimed: funds released
    StealthTransferClaimed { id: u64, claimer: AccountId },
    /// Proof verification failed on claim
    ZkProofVerificationFailed { id: u64, claimer: AccountId },
}

/// Pallet errors
#[derive(Clone, Copy, Debug, PartialEq, Eq, Structural)]
pub enum Error {
    /// No verifying key available
    VerifyingKeyNotSet,
    /// zk-proof invalid
    InvalidProof,
    /// Too many recipients
    TooManyRecipients,
    /// Transfer not found
    TransferNotFound,
    /// Transfer ID overflow
    IdOverflow,
}

/// What a call is reckoned to cost.
pub type Weight = u64;

/// Weight functions for benchmarking
pub trait WeightInfo {
    fn set_verifying_key() -> Weight;

    fn submit_stealth_transfer() -> Weight;

    fn claim_stealth_transfer() -> Weight;
}

impl WeightInfo for () {
    fn set_verifying_key() -> (w: Weight)
        ensures
            w == 10_000,
    {
        10_000
    }

    fn submit_stealth_transfer() -> (w: Weight)
        ensures
            w == 50_000,
    {
        50_000
    }

    fn claim_stealth_transfer() -> (w: Weight)
        ensures
            w == 100_000,
    {
        100_000
    }
}

/// Fixed weights, to stand until measured ones replace them.
pub struct SubstrateWeight;

impl WeightInfo for SubstrateWeight {
    fn set_verifying_key() -> (w: Weight)
        ensures
            w == 10_000,
    {
        10_000
    }

    fn submit_stealth_transfer() -> (w: Weight)
        ensures
            w == 50_000,
    {
        50_000
    }

    fn claim_stealth_transfer() -> (w: Weight)
        ensures
            w == 100_000,
    {
        100_000
    }
}

/// The share that each of `n` recipients gets of `total`.
pub open spec fn share_of(total: Balance, n: nat) -> int {
    total as int / n as int
}

/// What the recipient at place `i` of `n` gets of `total`: an equal share,
/// and the last one the remainder on top.
pub open spec fn payout_of(total: Balance, n: nat, i: int) -> int {
    if i == n - 1 {
        total - share_of(total, n) * (n - 1)
    } else {
        share_of(total, n)
    }
}

/// The payouts of `total` to `recipients`, in their order.
pub open spec fn payouts_of<AccountId>(recipients: Seq<AccountId>, total: Balance) -> Seq<
    (AccountId, Balance),
> {
    Seq::new(
        recipients.len(),
        |i: int| (recipients[i], payout_of(total, recipients.len(), i) as Balance),
    )
}

/// The sum of the first `n` payouts.
pub open spec fn paid_out<AccountId>(payouts: Seq<(AccountId, Balance)>, n: nat) -> int
    decreases n,
{
    if n == 0 || n > payouts.len() {
        0
    } else {
        paid_out(payouts, (n - 1) as nat) + payouts[n - 1].1
    }
}

/// Payouts neither make nor lose anything: where there is a recipient, what
/// they get between them is the whole amount.
pub proof fn lemma_payouts_sum<AccountId>(recipients: Seq<AccountId>, total: Balance)
    requires
        recipients.len() > 0,
    ensures
        paid_out(payouts_of(recipients, total), recipients.len()) == total,
        forall|i: int|
            0 <= i < recipients.len() ==> 0 <= #[trigger] payout_of(total, recipients.len(), i)
                <= total,
{
    let n = recipients.len();
    let share = share_of(total, n);
    let payouts = payouts_of(recipients, total);
    assert(0 <= share && share * n <= total && share * (n - 1) <= total && share <= total
        && share * (n - 1) >= 0) by (nonlinear_arith)
        requires
            share == total as int / n as int,
            n > 0,
            total >= 0,
    ;
    lemma_paid_out_prefix(recipients, total, (n - 1) as nat);
    assert(paid_out(payouts, n) == paid_out(payouts, (n - 1) as nat) + payouts[n - 1].1);
}

/// All but the last recipient get an equal share each.
proof fn lemma_paid_out_prefix<AccountId>(recipients: Seq<AccountId>, total: Balance, k: nat)
    requires
        recipients.len() > 0,
        k < recipients.len(),
    ensures
        paid_out(payouts_of(recipients, total), k) == share_of(total, recipients.len()) * k,
    decreases k,
{
    let n = recipients.len();
    let share = share_of(total, n);
    if k > 0 {
        lemma_paid_out_prefix(recipients, total, (k - 1) as nat);
        assert(0 <= share <= total) by (nonlinear_arith)
            requires
                share == total as int / n as int,
                n > 0,
                total >= 0,
        ;
        assert(share * (k - 1) + share == share * k) by (nonlinear_arith);
    } else {
        assert(share * 0 == 0) by (nonlinear_arith);
    }
}

/// The book of pending transfers as mathematics.
pub struct PalletView<AccountId> {
    /// How many recipients a transfer may name.
    pub max_recipients: u32,
    /// The serialized verifying key, once it was set.
    pub verifying_key: Option<Seq<u8>>,
    /// The identifier that the next transfer gets.
    pub next_transfer_id: u64,
    /// The pending transfers by their identifier.
    pub transfers: Map<u64, TransferView<AccountId>>,
}

impl<AccountId> PalletView<AccountId> {
    /// Why a transfer to `recipients` recipients cannot be submitted, if it
    /// cannot.
    pub open spec fn submit_error(self, recipients: nat) -> Option<Error> {
        if recipients > self.max_recipients {
            Some(Error::TooManyRecipients)
        } else if self.next_transfer_id == u64::MAX {
            Some(Error::IdOverflow)
        } else {
            None
        }
    }

    /// The book after `transfer` was submitted.
    pub open spec fn submitted(self, transfer: TransferView<AccountId>) -> Self {
        PalletView {
            next_transfer_id: (self.next_transfer_id + 1) as u64,
            transfers: self.transfers.insert(self.next_transfer_id, transfer),
            ..self
        }
    }

    /// The book after the submission that got the identifier `id` was undone.
    pub open spec fn rolled_back(self, id: u64) -> Self {
        PalletView {
            next_transfer_id: (self.next_transfer_id - 1) as u64,
            transfers: self.transfers.remove(id),
            ..self
        }
    }

    /// Why the transfer `id` cannot be claimed, if it cannot, where the proof
    /// system said `verdict` of the proof: `None` where the key, the proof or
    /// the inputs could not be read or the check itself failed.
    pub open spec fn claim_error(self, id: u64, verdict: Option<bool>) -> Option<Error> {
        if self.verifying_key.is_none() {
            Some(Error::VerifyingKeyNotSet)
        } else if verdict != Some(true) {
            Some(Error::InvalidProof)
        } else if !self.transfers.contains_key(id) {
            Some(Error::TransferNotFound)
        } else {
            None
        }
    }
}

/// Undoing a submission right after it leaves the book as it was before,
/// provided the identifier was free, as it is while identifiers are only
/// given out by submissions.
pub proof fn lemma_rollback_undoes_submission<AccountId>(
    s: PalletView<AccountId>,
    transfer: TransferView<AccountId>,
)
    requires
        s.next_transfer_id < u64::MAX,
        !s.transfers.contains_key(s.next_transfer_id),
    ensures
        s.submitted(transfer).rolled_back(s.next_transfer_id) == s,
{
    assert(s.submitted(transfer).rolled_back(s.next_transfer_id).transfers =~= s.transfers);
}

/// The book of pending stealth transfers.
pub struct Pallet<AccountId> {
    max_recipients: u32,
    verifying_key: Option<Vec<u8>>,
    next_transfer_id: u64,
    transfers: HashMap<u64, StealthTransfer<AccountId>>,
}

impl<AccountId> View for Pallet<AccountId> {
    type V = PalletView<AccountId>;

    closed spec fn view(&self) -> PalletView<AccountId> {
        PalletView {
            max_recipients: self.max_recipients,
            verifying_key: match self.verifying_key {
                Some(vk) => Some(vk@),
                None => None,
            },
            next_transfer_id: self.next_transfer_id,
            transfers: Map::new(
                |id: u64| self.transfers@.contains_key(id),
                |id: u64| self.transfers@[id]@,
            ),
        }
    }
}

impl<AccountId: Copy> Pallet<AccountId> {
    /// An empty book without a verifying key, in which a transfer may name up
    /// to `max_recipients` recipients.
    pub fn new(max_recipients: u32) -> (r: Self)
        ensures
            r@.max_recipients == max_recipients,
            r@.verifying_key.is_none(),
            r@.next_transfer_id == 0,
            r@.transfers == Map::<u64, TransferView<AccountId>>::empty(),
    {
        Pallet::starting_at(max_recipients, 0)
    }

    /// An empty book without a verifying key that gives out identifiers from
    /// `next_transfer_id` on.
    pub fn starting_at(max_recipients: u32, next_transfer_id: u64) -> (r: Self)
        ensures
            r@.max_recipients == max_recipients,
            r@.verifying_key.is_none(),
            r@.next_transfer_id == next_transfer_id,
            r@.transfers == Map::<u64, TransferView<AccountId>>::empty(),
    {
        let r = Pallet {
            max_recipients,
            verifying_key: None,
            next_transfer_id,
            transfers: HashMap::new(),
        };
        assert(r@.transfers =~= Map::<u64, TransferView<AccountId>>::empty());
        r
    }

    /// The serialized verifying key, if one was set.
    pub fn verifying_key(&self) -> (r: Option<Vec<u8>>)
        ensures
            match r {
                Some(vk) => self@.verifying_key == Some(vk@),
                None => self@.verifying_key.is_none(),
            },
    {
        match &self.verifying_key {
            Some(vk) => {
                let copy: Vec<u8> = vk.clone();
                assert(copy@ =~= vk@);
                Some(copy)
            },
            None => None,
        }
    }

    /// The identifier that the next transfer gets.
    pub fn next_transfer_id(&self) -> (r: u64)
        ensures
            r == self@.next_transfer_id,
    {
        self.next_transfer_id
    }

    /// The pending transfer `id`, if there is one.
    pub fn transfers(&self, id: u64) -> (r: Option<&StealthTransfer<AccountId>>)
        ensures
            match r {
                Some(transfer) => self@.transfers.contains_key(id) && self@.transfers[id]
                    == transfer@,
                None => !self@.transfers.contains_key(id),
            },
    {
        self.transfers.get(&id)
    }

    /// Set the zk-SNARK verifying key.
    pub fn set_verifying_key(&mut self, vk: Vec<u8>) -> (event: Event<AccountId>)
        ensures
            event == Event::<AccountId>::VerifyingKeySet,
            final(self)@ == (PalletView { verifying_key: Some(vk@), ..old(self)@ }),
    {
        self.verifying_key = Some(vk);
        Event::VerifyingKeySet
    }

    /// Submit a stealth transfer: store the encrypted payload under a fresh
    /// identifier. The caller locks the amount, and undoes the submission
    /// where that fails.
    pub fn submit_stealth_transfer(
        &mut self,
        who: AccountId,
        recipients: Vec<AccountId>,
        amount: Balance,
        ciphertext: Vec<u8>,
    ) -> (r: Result<Event<AccountId>, Error>)
        ensures
            match old(self)@.submit_error(recipients@.len()) {
                Some(error) => r == Err::<Event<AccountId>, Error>(error) && final(self)@ == old(
                    self,
                )@,
                None => r == Ok::<Event<AccountId>, Error>(
                    Event::StealthTransferSubmitted { id: old(self)@.next_transfer_id, sender: who },
                ) && final(self)@ == old(self)@.submitted(
                    TransferView {
                        sender: who,
                        recipients: recipients@,
                        ciphertext: ciphertext@,
                        amount,
                    },
                ),
            },
    {
        if recipients.len() > self.max_recipients as usize {
            return Err(Error::TooManyRecipients);
        }
        let id: u64 = self.next_transfer_id;
        if id == u64::MAX {
            return Err(Error::IdOverflow);
        }
        let transfer = StealthTransfer { sender: who, recipients, ciphertext, amount };
        let ghost view = transfer@;
        self.transfers.insert(id, transfer);
        self.next_transfer_id = id + 1;
        assert(self@.transfers =~= old(self)@.submitted(view).transfers);
        Ok(Event::StealthTransferSubmitted { id, sender: who })
    }

    /// Undoes the submission that got the identifier `id`: the transfer is
    /// dropped and the identifier before the next one is given out again.
    pub fn rollback_submission(&mut self, id: u64)
        requires
            old(self)@.next_transfer_id > 0,
        ensures
            final(self)@ == old(self)@.rolled_back(id),
    {
        self.transfers.remove(&id);
        self.next_transfer_id = self.next_transfer_id - 1;
        assert(self@.transfers =~= old(self)@.rolled_back(id).transfers);
    }

    /// Claim a stealth transfer: given what the proof system said of the
    /// proof, take the transfer out of the book and say what each recipient
    /// is to get.
    ///
    /// A proof that was checked and found wrong is reported by an event;
    /// one that could not be checked is not.
    pub fn claim_stealth_transfer(
        &mut self,
        claimer: AccountId,
        transfer_id: u64,
        verdict: Option<bool>,
    ) -> (r: Result<(Vec<(AccountId, Balance)>, Event<AccountId>), (Error, Option<Event<AccountId>>)>)
        requires
            old(self)@.claim_error(transfer_id, verdict).is_none() ==> old(
                self,
            )@.transfers[transfer_id].recipients.len() > 0,
        ensures
            match old(self)@.claim_error(transfer_id, verdict) {
                Some(error) => {
                    &&& r matches Err((e, event))
                    &&& e == error
                    &&& event == if old(self)@.verifying_key.is_some() && verdict == Some(false) {
                        Some(Event::ZkProofVerificationFailed { id: transfer_id, claimer })
                    } else {
                        None
                    }
                    &&& final(self)@ == old(self)@
                },
                None => {
                    &&& r matches Ok((payouts, event))
                    &&& payouts@ == payouts_of(
                        old(self)@.transfers[transfer_id].recipients,
                        old(self)@.transfers[transfer_id].amount,
                    )
                    &&& event == Event::StealthTransferClaimed { id: transfer_id, claimer }
                    &&& final(self)@ == (PalletView {
                        transfers: old(self)@.transfers.remove(transfer_id),
                        ..old(self)@
                    })
                },
            },
    {
        if self.verifying_key.is_none() {
            return Err((Error::VerifyingKeyNotSet, None));
        }
        match verdict {
            None => {
                return Err((Error::InvalidProof, None));
            },
            Some(false) => {
                return Err(
                    (
                        Error::InvalidProof,
                        Some(Event::ZkProofVerificationFailed { id: transfer_id, claimer }),
                    ),
                );
            },
            Some(true) => {},
        }
        let transfer: StealthTransfer<AccountId> = match self.transfers.remove(&transfer_id) {
            Some(transfer) => transfer,
            None => {
                assert(self@.transfers =~= old(self)@.transfers);
                return Err((Error::TransferNotFound, None));
            },
        };
        assert(self@.transfers =~= old(self)@.transfers.remove(transfer_id));
        let payouts: Vec<(AccountId, Balance)> = split_amount(&transfer.recipients, transfer.amount);
        Ok((payouts, Event::StealthTransferClaimed { id: transfer_id, claimer }))
    }
}

/// Splits `total` between `recipients`: an equal share each, rounded down,
/// and what is left over to the last.
pub fn split_amount<AccountId: Copy>(recipients: &Vec<AccountId>, total: Balance) -> (payouts: Vec<
    (AccountId, Balance),
>)
    requires
        recipients@.len() > 0,
    ensures
        payouts@ == payouts_of(recipients@, total),
{
    let n: usize = recipients.len();
    let share: Balance = total / (n as u128);
    proof {
        lemma_payouts_sum(recipients@, total);
        assert(share * n <= total && share * (n - 1) >= 0 && share * (n - 1) <= total)
            by (nonlinear_arith)
            requires
                share == total as int / n as int,
                n > 0,
                total >= 0,
        ;
    }
    let rem: Balance = total - share * (n as u128);
    let mut payouts: Vec<(AccountId, Balance)> = Vec::new();
    let mut i: usize = 0;
    while i < n
        invariant
            i <= n,
            n == recipients@.len(),
            n > 0,
            share == share_of(total, n as nat),
            rem == total - share * n,
            share * n <= total,
            payouts@.len() == i,
            forall|j: int|
                0 <= j < i ==> #[trigger] payouts@[j] == (
                    recipients@[j],
                    payout_of(total, n as nat, j) as Balance,
                ),
        decreases n - i,
    {
        let mut amt: Balance = share;
        if i == n - 1 {
            assert(share * (n - 1) == share * n - share) by (nonlinear_arith);
            amt = amt + rem;
        }
        payouts.push((recipients[i], amt));
        i = i + 1;
    }
    assert(payouts@ =~= payouts_of(recipients@, total));
    payouts
}

} // verus!
