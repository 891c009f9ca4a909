//! Primitives of staking: who stakes, how much, and how the stake that backs
//! a validator is split into pages.

use vstd::prelude::*;

verus! {

/// Simple index type with which we can count sessions.
pub type SessionIndex = u32;

/// Counter for the number of eras that have passed.
pub type EraIndex = u32;

/// Type for identifying a page.
pub type Page = u32;

/// An amount of stake.
pub type Balance = u128;

/// Representation of a staking account, which may be a stash or controller account.
#[derive(Clone, Debug)]
pub enum StakingAccount<AccountId> {
    Stash(AccountId),
    Controller(AccountId),
}

impl<AccountId> From<AccountId> for StakingAccount<AccountId> {
    fn from(account: AccountId) -> (r: Self) {
        StakingAccount::Stash(account)
    }
}

impl<AccountId> vstd::std_specs::convert::FromSpecImpl<AccountId> for StakingAccount<AccountId> {
    open spec fn obeys_from_spec() -> bool {
        true
    }

    open spec fn from_spec(account: AccountId) -> Self {
        StakingAccount::Stash(account)
    }
}

/// Representation of the status of a staker.
#[derive(Clone, Debug)]
pub enum StakerStatus<AccountId> {
    /// Chilling.
    Idle,
    /// Declaring desire in validate, i.e author blocks.
    Validator,
    /// Declaring desire to nominate, delegate, or generally approve of the given set of others.
    Nominator(Vec<AccountId>),
}

impl<AccountId> StakerStatus<AccountId> {
    /// Checks whether or not this is the status of a validator.
    pub fn is_validator(&self) -> (r: bool)
        ensures
            r == (self is Validator),
    {
        match self {
            StakerStatus::Validator => true,
            _ => false,
        }
    }

    /// Get the nominations of a nominator, `None` otherwise.
    pub fn nominations(self) -> (r: Option<Vec<AccountId>>)
        ensures
            r == match self {
                StakerStatus::Nominator(targets) => Some(targets),
                _ => None,
            },
    {
        match self {
            StakerStatus::Nominator(targets) => Some(targets),
            _ => None,
        }
    }
}

/// A struct that reflects stake that an account has in the staking system.
#[derive(Clone, Copy, Debug, PartialEq, Eq, Default)]
pub struct Stake<Balance> {
    /// The total stake that `stash` has in the staking system. This includes the
    /// `active` stake, and any funds currently in the process of unbonding.
    pub total: Balance,
    /// The total amount of the stash's balance that will be at stake in any forthcoming
    /// rounds.
    pub active: Balance,
}

impl Stake<Balance> {
    /// Returns whether some of the stake is unbonding.
    pub fn is_unbonding(&self) -> (r: bool)
        ensures
            r == (self.active != self.total),
    {
        self.active != self.total
    }
}

/// An account that manages funds which `Delegator`s have delegated to it, and
/// may stake them, but never funds of its own.
#[derive(Clone, Debug)]
pub struct Agent<T>(T);

impl<T> From<T> for Agent<T> {
    fn from(acc: T) -> (r: Self)
        ensures
            r.account() == acc,
    {
        Agent(acc)
    }
}

impl<T> vstd::std_specs::convert::FromSpecImpl<T> for Agent<T> {
    open spec fn obeys_from_spec() -> bool {
        true
    }

    closed spec fn from_spec(acc: T) -> Self {
        Agent(acc)
    }
}

impl<T> Agent<T> {
    /// The account behind the agent.
    pub closed spec fn account(self) -> T {
        self.0
    }

    /// Hands out the account.
    pub fn get(self) -> (acc: T)
        ensures
            acc == self.account(),
    {
        self.0
    }
}

/// An account that delegates funds to an `Agent`.
#[derive(Clone, Debug)]
pub struct Delegator<T>(T);

impl<T> From<T> for Delegator<T> {
    fn from(acc: T) -> (r: Self)
        ensures
            r.account() == acc,
    {
        Delegator(acc)
    }
}

impl<T> vstd::std_specs::convert::FromSpecImpl<T> for Delegator<T> {
    open spec fn obeys_from_spec() -> bool {
        true
    }

    closed spec fn from_spec(acc: T) -> Self {
        Delegator(acc)
    }
}

impl<T> Delegator<T> {
    /// The account behind the delegator.
    pub closed spec fn account(self) -> T {
        self.0
    }

    /// Hands out the account.
    pub fn get(self) -> (acc: T)
        ensures
            acc == self.account(),
    {
        self.0
    }
}

/// The amount of exposure for an era that an individual nominator has (susceptible to slashing).
#[derive(Clone, Copy, Debug, PartialEq, Eq, PartialOrd, Ord)]
pub struct IndividualExposure<AccountId> {
    /// The stash account of the nominator in question.
    pub who: AccountId,
    /// Amount of funds exposed.
    pub value: Balance,
}

/// The sum of what the given nominators have exposed.
pub open spec fn total_of<AccountId>(others: Seq<IndividualExposure<AccountId>>) -> nat
    decreases others.len(),
{
    if others.len() == 0 {
        0
    } else {
        total_of(others.drop_last()) + others.last().value as nat
    }
}

/// An amount as a `Balance`, held at the largest one.
pub open spec fn saturated(amount: int) -> Balance {
    if amount > u128::MAX {
        u128::MAX
    } else if amount < 0 {
        0
    } else {
        amount as u128
    }
}

/// The sum of a sequence grows with the sequence.
pub proof fn lemma_total_of_push<AccountId>(
    others: Seq<IndividualExposure<AccountId>>,
    next: IndividualExposure<AccountId>,
)
    ensures
        total_of(others.push(next)) == total_of(others) + next.value,
{
    assert(others.push(next).drop_last() =~= others);
}

/// Adds up what the given nominators have exposed, holding the sum at the
/// largest balance.
pub fn saturating_total<AccountId>(others: &Vec<IndividualExposure<AccountId>>) -> (total: Balance)
    ensures
        total == saturated(total_of(others@) as int),
{
    let mut total: Balance = 0;
    let mut i: usize = 0;
    while i < others.len()
        invariant
            i <= others.len(),
            total == saturated(total_of(others@.subrange(0, i as int)) as int),
        decreases others.len() - i,
    {
        proof {
            lemma_total_of_push(others@.subrange(0, i as int), others@[i as int]);
            assert(others@.subrange(0, i as int).push(others@[i as int]) =~= others@.subrange(
                0,
                i + 1,
            ));
        }
        total = total.saturating_add(others[i].value);
        i = i + 1;
    }
    assert(others@.subrange(0, i as int) =~= others@);
    total
}

/// A snapshot of the stake backing a single validator in the system.
#[derive(Clone, Debug, PartialEq, Eq, PartialOrd, Ord)]
pub struct Exposure<AccountId> {
    /// The total balance backing this validator.
    pub total: Balance,
    /// The validator's own stash that is exposed.
    pub own: Balance,
    /// The portions of nominators stashes that are exposed.
    pub others: Vec<IndividualExposure<AccountId>>,
}

impl<AccountId> Default for Exposure<AccountId> {
    fn default() -> (r: Self)
        ensures
            r.total == 0,
            r.own == 0,
            r.others@ == Seq::<IndividualExposure<AccountId>>::empty(),
    {
        Exposure { total: 0, own: 0, others: Vec::new() }
    }
}

/// A snapshot of the stake backing a single validator in the system.
#[derive(Clone, Debug, PartialEq, Eq, PartialOrd, Ord)]
pub struct ExposurePage<AccountId> {
    /// The total balance of this chunk/page.
    pub page_total: Balance,
    /// The portions of nominators stashes that are exposed.
    pub others: Vec<IndividualExposure<AccountId>>,
}

impl<AccountId> Default for ExposurePage<AccountId> {
    fn default() -> (r: Self)
        ensures
            r.page_total == 0,
            r.others@ == Seq::<IndividualExposure<AccountId>>::empty(),
    {
        ExposurePage { page_total: 0, others: Vec::new() }
    }
}

impl<AccountId> ExposurePage<AccountId> {
    /// Returns an exposure page from a set of individual exposures.
    pub fn from(exposures: Vec<IndividualExposure<AccountId>>) -> (page: Self)
        requires
            total_of(exposures@) <= u128::MAX,
        ensures
            page.page_total == total_of(exposures@),
            page.others@ == exposures@,
    {
        let page_total: Balance = saturating_total(&exposures);
        ExposurePage { page_total, others: exposures }
    }
}

/// Metadata for Paged Exposure of a validator such as total stake across pages and page count.
#[derive(Clone, Copy, Debug, PartialEq, Eq, PartialOrd, Ord, Structural)]
pub struct PagedExposureMetadata {
    /// The total balance backing this validator.
    pub total: Balance,
    /// The validator's own stash that is exposed.
    pub own: Balance,
    /// Number of nominators backing this validator.
    pub nominator_count: u32,
    /// Number of pages of nominators.
    pub page_count: Page,
}

impl Default for PagedExposureMetadata {
    fn default() -> (r: Self)
        ensures
            r == (PagedExposureMetadata { total: 0, own: 0, nominator_count: 0, page_count: 0 }),
    {
        PagedExposureMetadata { total: 0, own: 0, nominator_count: 0, page_count: 0 }
    }
}

/// A count as a `u32`, held at the largest one.
pub open spec fn saturated_count(count: int) -> u32 {
    if count > u32::MAX {
        u32::MAX
    } else if count < 0 {
        0
    } else {
        count as u32
    }
}

impl PagedExposureMetadata {
    /// The metadata after `others_num` nominators with `others_balance`
    /// between them joined, while a page holds `max` nominators, or one where
    /// `max` is zero. The page count is the least number of pages that hold
    /// the new nominator count, as far as a `u32` can tell.
    pub open spec fn updated_with(self, max: u32, others_balance: Balance, others_num: u32) -> Self {
        let page_limit: int = if max < 1 {
            1
        } else {
            max as int
        };
        let nominator_count = saturated_count(self.nominator_count + others_num);
        PagedExposureMetadata {
            total: saturated(self.total + others_balance),
            own: self.own,
            nominator_count,
            page_count: ((saturated_count(nominator_count + page_limit) - 1) / page_limit) as u32,
        }
    }

    /// Consumes self and returns the result of the metadata updated with `other_balances` and
    /// of adding `other_num` nominators to the metadata.
    ///
    /// `max` is the maximum number of nominators per page.
    pub fn update_with(self, max: u32, others_balance: Balance, others_num: u32) -> (r: Self)
        ensures
            r == self.updated_with(max, others_balance, others_num),
    {
        let page_limit: u32 = if max < 1 {
            1
        } else {
            max
        };
        let new_nominator_count: u32 = self.nominator_count.saturating_add(others_num);
        let new_page_count: u32 = new_nominator_count.saturating_add(page_limit).saturating_sub(1)
            / page_limit;

        PagedExposureMetadata {
            total: self.total.saturating_add(others_balance),
            own: self.own,
            nominator_count: new_nominator_count,
            page_count: new_page_count,
        }
    }
}

/// The part of `others` that makes up page number `page` where a page holds
/// `page_size` of them.
pub open spec fn page_of<AccountId>(
    others: Seq<IndividualExposure<AccountId>>,
    page_size: int,
    page: int,
) -> Seq<IndividualExposure<AccountId>> {
    let start = page * page_size;
    let end = if start + page_size <= others.len() {
        start + page_size
    } else {
        others.len() as int
    };
    others.subrange(start, end)
}

impl<AccountId> Exposure<AccountId> {
    /// Splits self into two instances of exposures.
    ///
    /// `n_others` individual exposures are consumed from self and returned as part of the new
    /// exposure.
    ///
    /// Since this method splits `others` of a single exposure, `total.own` will be the same for
    /// both `self` and the returned exposure.
    pub fn split_others(&mut self, n_others: u32) -> (head: Self)
        ensures
            head.others@ == old(self).others@.take(
                if n_others <= old(self).others@.len() {
                    n_others as int
                } else {
                    old(self).others@.len() as int
                },
            ),
            final(self).others@ == old(self).others@.skip(head.others@.len() as int),
            head.own == old(self).own,
            final(self).own == old(self).own,
            head.total == saturated(saturated(total_of(head.others@) as int) + old(self).own),
            final(self).total == saturated(
                old(self).total - saturated(total_of(head.others@) as int),
            ),
    {
        let len: usize = self.others.len();
        let count: usize = if (n_others as usize) < len {
            n_others as usize
        } else {
            len
        };
        let mut head_others: Vec<IndividualExposure<AccountId>> = Vec::new();
        std::mem::swap(&mut head_others, &mut self.others);
        let tail: Vec<IndividualExposure<AccountId>> = head_others.split_off(count);
        self.others = tail;

        let total_others_head: Balance = saturating_total(&head_others);
        self.total = self.total.saturating_sub(total_others_head);

        Exposure {
            total: total_others_head.saturating_add(self.own),
            own: self.own,
            others: head_others,
        }
    }

    /// Converts an `Exposure` into `PagedExposureMetadata` and multiple chunks of
    /// `IndividualExposure` with each chunk having maximum of `page_size` elements.
    ///
    /// The pages hold the nominators in their order, every page but the last
    /// is full, and none is empty. The two counts of the metadata keep the low
    /// 32 bits of the number of nominators and of pages.
    pub fn into_pages(self, page_size: Page) -> (r: (
        PagedExposureMetadata,
        Vec<ExposurePage<AccountId>>,
    ))
        requires
            page_size > 0,
        ensures
            r.0.total == self.total,
            r.0.own == self.own,
            r.0.nominator_count == self.others@.len() as u32,
            r.0.page_count == r.1@.len() as u32,
            r.1@.len() * page_size >= self.others@.len(),
            r.1@.len() > 0 ==> (r.1@.len() - 1) * page_size < self.others@.len(),
            forall|i: int|
                0 <= i < r.1@.len() ==> (#[trigger] r.1@[i]).others@ == page_of(
                    self.others@,
                    page_size as int,
                    i,
                ) && r.1@[i].page_total == saturated(total_of(r.1@[i].others@) as int),
    {
        let total: Balance = self.total;
        let own: Balance = self.own;
        let ghost all: Seq<IndividualExposure<AccountId>> = self.others@;
        let count: usize = self.others.len();
        let mut rest: Vec<IndividualExposure<AccountId>> = self.others;
        let mut exposure_pages: Vec<ExposurePage<AccountId>> = Vec::new();
        let ghost mut start: int = 0;

        while rest.len() > 0
            invariant
                page_size > 0,
                0 <= start <= all.len(),
                start == exposure_pages@.len() * page_size || (start == all.len() && rest@.len()
                    == 0 && exposure_pages@.len() > 0 && (exposure_pages@.len() - 1) * page_size
                    < all.len() <= exposure_pages@.len() * page_size),
                rest@ == all.skip(start),
                forall|i: int|
                    0 <= i < exposure_pages@.len() ==> (#[trigger] exposure_pages@[i]).others@
                        == page_of(all, page_size as int, i) && exposure_pages@[i].page_total
                        == saturated(total_of(exposure_pages@[i].others@) as int),
            decreases rest@.len(),
        {
            let ghost page: int = exposure_pages@.len() as int;
            let size: usize = if (page_size as usize) < rest.len() {
                page_size as usize
            } else {
                rest.len()
            };
            let tail: Vec<IndividualExposure<AccountId>> = rest.split_off(size);
            let others: Vec<IndividualExposure<AccountId>> = rest;
            rest = tail;
            let page_total: Balance = saturating_total(&others);
            proof {
                assert((page + 1) * page_size == page * page_size + page_size)
                    by (nonlinear_arith);
                assert(others@ =~= page_of(all, page_size as int, page));
                assert(rest@ =~= all.skip(start + size));
                start = start + size;
            }
            exposure_pages.push(ExposurePage { page_total, others });
        }
        proof {
            if exposure_pages@.len() > 0 && start == exposure_pages@.len() * page_size {
                let n: int = exposure_pages@.len() as int;
                assert((n - 1) * page_size == n * page_size - page_size) by (nonlinear_arith);
            }
            if exposure_pages@.len() == 0 {
                assert(0 * page_size == 0) by (nonlinear_arith);
            }
        }

        (
            PagedExposureMetadata {
                total,
                own,
                nominator_count: #[verifier::truncate] (count as u32),
                page_count: #[verifier::truncate] (exposure_pages.len() as Page),
            },
            exposure_pages,
        )
    }
}

} // verus!
