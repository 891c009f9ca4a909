//! Downward message passing.
//!
//! Every recipient has a mailbox of pending messages, a head of the message
//! queue chain, and a delivery fee factor. A mailbox may hold as many messages
//! of the largest permitted size as fit into the allocation limit. Once it
//! holds more than half of that, every further message raises the recipient's
//! fee factor; once pruning brings it back to half or less, the factor is
//! lowered again, never below the floor.

use crate::fee::{FeeFactor, FeePolicy};
use crate::mqc::{extend_head, next_head, zero_head, zero_hash};
use std::collections::HashMap;
use std::collections::HashSet;
use vstd::prelude::*;

verus! {

broadcast use vstd::std_specs::hash::group_hash_axioms;

/// Identifies a recipient chain.
pub type ParaId = u32;

/// Numbers the blocks of the hub chain.
pub type BlockNumber = u32;

/// A message to a recipient: bytes that this module does not look into.
pub type DownwardMessage = Vec<u8>;

/// The mailbox is congested once it holds more than this fraction of what it
/// may hold: one part in `THRESHOLD_FACTOR`.
pub const THRESHOLD_FACTOR: u32 = 2;

/// An error sending a downward message.
#[derive(Clone, Copy, Debug, PartialEq, Eq, Structural)]
pub enum QueueDownwardMessageError {
    /// The message being sent exceeds the configured max message size, or the
    /// mailbox is over its hard limit.
    ExceedsMaxMessageSize,
    /// The destination is unknown.
    Unroutable,
}

/// Tells that a recipient's claim of processed messages was not accepted.
#[derive(Clone, Copy, Debug, PartialEq, Eq, Structural)]
pub enum ProcessedDownwardMessagesAcceptanceErr {
    /// A message was due, and none was processed.
    AdvancementRule,
    /// More messages were claimed as processed than were pending.
    Underflow { processed_downward_messages: u32, dmq_length: u32 },
}

/// The part of the host configuration that this module reads.
#[derive(Clone, Copy, Debug, PartialEq, Eq, Structural)]
pub struct HostConfiguration {
    /// The largest permitted size of a downward message, in bytes.
    pub max_downward_message_size: u32,
}

/// A message in a mailbox, with the block at which it was queued.
#[derive(Clone, Debug, PartialEq, Eq)]
pub struct InboundDownwardMessage {
    pub sent_at: BlockNumber,
    pub msg: DownwardMessage,
}

/// What a queued message is: its bytes and the block at which it was queued.
pub struct MessageView {
    pub sent_at: BlockNumber,
    pub msg: Seq<u8>,
}

impl View for InboundDownwardMessage {
    type V = MessageView;

    open spec fn view(&self) -> MessageView {
        MessageView { sent_at: self.sent_at, msg: self.msg@ }
    }
}

/// The views of the messages of a mailbox, in order.
pub open spec fn queue_view(q: Seq<InboundDownwardMessage>) -> Seq<MessageView> {
    q.map_values(|m: InboundDownwardMessage| m@)
}

/// How many messages a mailbox may hold: as many of the largest permitted
/// size as fit into the allocation limit, and none where that size is zero.
pub open spec fn max_length(max_allocation: u32, max_downward_message_size: u32) -> u32 {
    if max_downward_message_size == 0 {
        0
    } else {
        (max_allocation / max_downward_message_size) as u32
    }
}

/// The length above which a mailbox is congested.
pub open spec fn threshold(max_allocation: u32, max_downward_message_size: u32) -> u32 {
    (max_length(max_allocation, max_downward_message_size) / THRESHOLD_FACTOR) as u32
}

/// A length as a `u32`, held at the largest one.
pub open spec fn saturated_length(len: nat) -> u32 {
    if len > u32::MAX {
        u32::MAX
    } else {
        len as u32
    }
}

/// The head of the message queue chain that starts at `head` and then takes
/// in each of `msgs`, in order.
pub open spec fn chain(head: Seq<u8>, msgs: Seq<MessageView>) -> Seq<u8>
    decreases msgs.len(),
{
    if msgs.len() == 0 {
        head
    } else {
        next_head(chain(head, msgs.drop_last()), msgs.last().sent_at, msgs.last().msg)
    }
}

/// The state of downward message passing as mathematics. The three maps are
/// total: a recipient that was never heard of has an empty mailbox, the zero
/// head and the floor as its fee factor.
pub struct PalletView {
    /// The number of the current block.
    pub block_number: BlockNumber,
    /// The configuration that is in force.
    pub active_config: HostConfiguration,
    /// The allocation limit, in bytes.
    pub max_allocation: u32,
    /// The constants of the fee rule.
    pub fee_policy: FeePolicy,
    /// The recipients that exist.
    pub reachable: Set<ParaId>,
    /// The mailbox of each recipient, oldest message first.
    pub queues: Map<ParaId, Seq<MessageView>>,
    /// The head of each recipient's message queue chain.
    pub heads: Map<ParaId, Seq<u8>>,
    /// The inner value of each recipient's fee factor.
    pub fee_factors: Map<ParaId, u128>,
}

impl PalletView {
    /// Every map is total, the policy is well formed, and no fee factor is
    /// below the floor.
    pub open spec fn wf(self) -> bool {
        &&& self.fee_policy.wf()
        &&& forall|p: ParaId| #[trigger] self.queues.contains_key(p)
        &&& forall|p: ParaId| #[trigger] self.heads.contains_key(p)
        &&& forall|p: ParaId| #[trigger] self.fee_factors.contains_key(p)
        &&& forall|p: ParaId| #[trigger] self.fee_factors[p] >= self.fee_policy.floor()
    }

    /// The number of messages in the mailbox of `para`, as a `u32`.
    pub open spec fn dmq_length(self, para: ParaId) -> u32 {
        saturated_length(self.queues[para].len())
    }

    /// The hard limit on the length of a mailbox.
    pub open spec fn dmq_max_length(self, max_downward_message_size: u32) -> u32 {
        max_length(self.max_allocation, max_downward_message_size)
    }

    /// The length above which a mailbox counts as congested.
    pub open spec fn dmq_threshold(self, max_downward_message_size: u32) -> u32 {
        threshold(self.max_allocation, max_downward_message_size)
    }

    /// Whether `msg` may be queued for `para` under `config`, and if not, why.
    pub open spec fn can_queue(
        self,
        config: HostConfiguration,
        para: ParaId,
        msg: Seq<u8>,
    ) -> Result<(), QueueDownwardMessageError> {
        if msg.len() > config.max_downward_message_size {
            Err(QueueDownwardMessageError::ExceedsMaxMessageSize)
        } else if self.queues[para].len() > self.dmq_max_length(config.max_downward_message_size) {
            Err(QueueDownwardMessageError::ExceedsMaxMessageSize)
        } else if !self.reachable.contains(para) {
            Err(QueueDownwardMessageError::Unroutable)
        } else {
            Ok(())
        }
    }

    /// The state after `msg` was queued for `para` under `config`.
    pub open spec fn queued(self, config: HostConfiguration, para: ParaId, msg: Seq<u8>) -> PalletView {
        let queue = self.queues[para].push(MessageView { sent_at: self.block_number, msg });
        PalletView {
            queues: self.queues.insert(para, queue),
            heads: self.heads.insert(para, next_head(self.heads[para], self.block_number, msg)),
            fee_factors: if queue.len() > self.dmq_threshold(config.max_downward_message_size) {
                self.fee_factors.insert(
                    para,
                    self.fee_policy.increased(self.fee_factors[para], msg.len() as u128),
                )
            } else {
                self.fee_factors
            },
            ..self
        }
    }

    /// Whether a recipient's claim to have processed `processed` messages by
    /// the block `relay_parent_number` is accepted, and if not, why.
    pub open spec fn check_processed(
        self,
        para: ParaId,
        relay_parent_number: BlockNumber,
        processed: u32,
    ) -> Result<(), ProcessedDownwardMessagesAcceptanceErr> {
        let length = self.dmq_length(para);
        if length > 0 && processed == 0 && self.queues[para][0].sent_at <= relay_parent_number {
            Err(ProcessedDownwardMessagesAcceptanceErr::AdvancementRule)
        } else if length < processed {
            Err(
                ProcessedDownwardMessagesAcceptanceErr::Underflow {
                    processed_downward_messages: processed,
                    dmq_length: length,
                },
            )
        } else {
            Ok(())
        }
    }

    /// The state after the first `processed` messages of the mailbox of `para`
    /// were removed, or all of them where it holds fewer.
    pub open spec fn pruned(self, para: ParaId, processed: u32) -> PalletView {
        let queue = self.queues[para];
        let rest = if processed > queue.len() {
            Seq::<MessageView>::empty()
        } else {
            queue.subrange(processed as int, queue.len() as int)
        };
        PalletView {
            queues: self.queues.insert(para, rest),
            fee_factors: if rest.len() <= self.dmq_threshold(
                self.active_config.max_downward_message_size,
            ) {
                self.fee_factors.insert(para, self.fee_policy.decreased(self.fee_factors[para]))
            } else {
                self.fee_factors
            },
            ..self
        }
    }

    /// The state after the fee factor of `para` was set to `factor`, or to the
    /// floor where `factor` is below it.
    pub open spec fn with_fee_factor(self, para: ParaId, factor: u128) -> PalletView {
        PalletView {
            fee_factors: self.fee_factors.insert(
                para,
                if factor >= self.fee_policy.floor() {
                    factor
                } else {
                    self.fee_policy.floor()
                },
            ),
            ..self
        }
    }

    /// The state in which nothing was queued yet and no recipient exists, at
    /// block zero.
    pub open spec fn initial(
        max_allocation: u32,
        fee_policy: FeePolicy,
        active_config: HostConfiguration,
    ) -> PalletView {
        PalletView {
            block_number: 0,
            active_config,
            max_allocation,
            fee_policy,
            reachable: Set::empty(),
            queues: Map::total(|p: ParaId| Seq::<MessageView>::empty()),
            heads: Map::total(|p: ParaId| zero_hash()),
            fee_factors: Map::total(|p: ParaId| fee_policy.floor()),
        }
    }

    /// The state at block `now`.
    pub open spec fn at_block(self, now: BlockNumber) -> PalletView {
        PalletView { block_number: now, ..self }
    }

    /// The state after each of `msgs` was queued for `para` under `config`,
    /// one after another, each at the block that it names.
    pub open spec fn queued_all(
        self,
        config: HostConfiguration,
        para: ParaId,
        msgs: Seq<MessageView>,
    ) -> PalletView
        decreases msgs.len(),
    {
        if msgs.len() == 0 {
            self
        } else {
            self.queued_all(config, para, msgs.drop_last()).at_block(msgs.last().sent_at).queued(
                config,
                para,
                msgs.last().msg,
            )
        }
    }

    /// Whether each of `msgs` is accepted for `para` under `config` when its
    /// turn comes.
    pub open spec fn accepts_all(
        self,
        config: HostConfiguration,
        para: ParaId,
        msgs: Seq<MessageView>,
    ) -> bool
        decreases msgs.len(),
    {
        msgs.len() == 0 || (self.accepts_all(config, para, msgs.drop_last()) && self.queued_all(
            config,
            para,
            msgs.drop_last(),
        ).at_block(msgs.last().sent_at).can_queue(config, para, msgs.last().msg).is_ok())
    }

    /// The state after the mailboxes and the heads of all of `outgoing` were
    /// deleted: each of them is as if it had never been heard of, but for its
    /// fee factor, which stays.
    pub open spec fn without(self, outgoing: Set<ParaId>) -> PalletView {
        PalletView {
            queues: Map::total(
                |p: ParaId|
                    if outgoing.contains(p) {
                        Seq::<MessageView>::empty()
                    } else {
                        self.queues[p]
                    },
            ),
            heads: Map::total(
                |p: ParaId|
                    if outgoing.contains(p) {
                        zero_hash()
                    } else {
                        self.heads[p]
                    },
            ),
            ..self
        }
    }
}

/// Reads the constant `MAX_POSSIBLE_ALLOCATION` of `sp_core`: the most bytes
/// that one allocation may take, which its source gives as 2^25.
#[verifier::external_body]
fn max_possible_allocation() -> (r: u32)
    ensures
        r == 33_554_432,
{
    sp_core::MAX_POSSIBLE_ALLOCATION
}

/// The state of downward message passing, together with what it reads of its
/// surroundings: the current block, the configuration in force and the
/// recipients that exist.
pub struct Pallet {
    block_number: BlockNumber,
    active_config: HostConfiguration,
    max_allocation: u32,
    fee_policy: FeePolicy,
    para_heads: HashSet<ParaId>,
    downward_message_queues: HashMap<ParaId, Vec<InboundDownwardMessage>>,
    downward_message_queue_heads: HashMap<ParaId, crate::mqc::Hash>,
    delivery_fee_factor: HashMap<ParaId, FeeFactor>,
}

impl View for Pallet {
    type V = PalletView;

    closed spec fn view(&self) -> PalletView {
        PalletView {
            block_number: self.block_number,
            active_config: self.active_config,
            max_allocation: self.max_allocation,
            fee_policy: self.fee_policy,
            reachable: self.para_heads@,
            queues: Map::total(
                |p: ParaId|
                    if self.downward_message_queues@.contains_key(p) {
                        queue_view(self.downward_message_queues@[p]@)
                    } else {
                        Seq::<MessageView>::empty()
                    },
            ),
            heads: Map::total(
                |p: ParaId|
                    if self.downward_message_queue_heads@.contains_key(p) {
                        self.downward_message_queue_heads@[p]@
                    } else {
                        zero_hash()
                    },
            ),
            fee_factors: Map::total(
                |p: ParaId|
                    if self.delivery_fee_factor@.contains_key(p)
                        && self.delivery_fee_factor@[p].inner >= self.fee_policy.floor() {
                        self.delivery_fee_factor@[p].inner
                    } else {
                        self.fee_policy.floor()
                    },
            ),
        }
    }
}

impl Pallet {
    /// The state in which nothing was sent yet and no recipient exists, at
    /// block zero, with the allocation limit of the host.
    pub fn new(fee_policy: FeePolicy, active_config: HostConfiguration) -> (r: Pallet)
        ensures
            r@ == PalletView::initial(33_554_432, fee_policy, active_config),
            r@.wf(),
    {
        Pallet::with_max_allocation(max_possible_allocation(), fee_policy, active_config)
    }

    /// As `new`, with an allocation limit of the caller's choosing.
    pub fn with_max_allocation(
        max_allocation: u32,
        fee_policy: FeePolicy,
        active_config: HostConfiguration,
    ) -> (r: Pallet)
        ensures
            r@ == PalletView::initial(max_allocation, fee_policy, active_config),
            r@.wf(),
    {
        proof {
            use_type_invariant(&fee_policy);
        }
        let r = Pallet {
            block_number: 0,
            active_config,
            max_allocation,
            fee_policy,
            para_heads: HashSet::new(),
            downward_message_queues: HashMap::new(),
            downward_message_queue_heads: HashMap::new(),
            delivery_fee_factor: HashMap::new(),
        };
        proof {
            let initial = PalletView::initial(max_allocation, fee_policy, active_config);
            assert(r@.reachable =~= initial.reachable);
            assert(r@.queues =~= initial.queues);
            assert(r@.heads =~= initial.heads);
            assert(r@.fee_factors =~= initial.fee_factors);
        }
        r
    }

    /// The number of the current block.
    pub fn block_number(&self) -> (r: BlockNumber)
        ensures
            r == self@.block_number,
    {
        self.block_number
    }

    /// Moves to the block `now`.
    pub fn set_block_number(&mut self, now: BlockNumber)
        ensures
            final(self)@ == old(self)@.at_block(now),
    {
        self.block_number = now;
    }

    /// The configuration that is in force.
    pub fn active_config(&self) -> (r: HostConfiguration)
        ensures
            r == self@.active_config,
    {
        self.active_config
    }

    /// Puts `config` in force.
    pub fn set_active_config(&mut self, config: HostConfiguration)
        ensures
            final(self)@ == (PalletView { active_config: config, ..old(self)@ }),
    {
        self.active_config = config;
    }

    /// Whether the recipient `para` exists.
    pub fn is_reachable(&self, para: ParaId) -> (r: bool)
        ensures
            r == self@.reachable.contains(para),
    {
        self.para_heads.contains(&para)
    }

    /// Make the parachain reachable for downward messages.
    pub fn make_parachain_reachable(&mut self, para: ParaId)
        ensures
            final(self)@ == (PalletView {
                reachable: old(self)@.reachable.insert(para),
                ..old(self)@
            }),
    {
        self.para_heads.insert(para);
    }

    /// How many messages a mailbox may hold while the largest permitted
    /// message has `max_downward_message_size` bytes.
    pub fn dmq_max_length(&self, max_downward_message_size: u32) -> (r: u32)
        ensures
            r == self@.dmq_max_length(max_downward_message_size),
    {
        match self.max_allocation.checked_div(max_downward_message_size) {
            Some(n) => n,
            None => 0,
        }
    }

    /// Returns the number of pending downward messages addressed to the given para.
    ///
    /// Returns 0 if the para doesn't have an associated downward message queue.
    pub fn dmq_length(&self, para: ParaId) -> (r: u32)
        ensures
            r == self@.dmq_length(para),
    {
        match self.downward_message_queues.get(&para) {
            Some(queue) => {
                let len: usize = queue.len();
                if len > u32::MAX as usize {
                    u32::MAX
                } else {
                    len as u32
                }
            },
            None => 0,
        }
    }

    /// Returns the Head of Message Queue Chain for the given para, which is
    /// the zero hash if nothing was ever queued for it.
    pub fn dmq_mqc_head(&self, para: ParaId) -> (h: crate::mqc::Hash)
        ensures
            h@ == self@.heads[para],
    {
        match self.downward_message_queue_heads.get(&para) {
            Some(head) => *head,
            None => zero_head(),
        }
    }

    /// Returns the downward message queue contents for the given para.
    ///
    /// The most recent messages are the latest in the vector.
    pub fn dmq_contents(&self, recipient: ParaId) -> (r: Vec<InboundDownwardMessage>)
        ensures
            queue_view(r@) == self@.queues[recipient],
    {
        let mut r: Vec<InboundDownwardMessage> = Vec::new();
        match self.downward_message_queues.get(&recipient) {
            Some(queue) => {
                let mut i: usize = 0;
                while i < queue.len()
                    invariant
                        i <= queue.len(),
                        r@.len() == i,
                        forall|j: int| 0 <= j < i ==> (#[trigger] r@[j])@ == queue@[j]@,
                    decreases queue.len() - i,
                {
                    let payload: Vec<u8> = queue[i].msg.clone();
                    assert(payload@ =~= queue[i as int].msg@);
                    r.push(InboundDownwardMessage { sent_at: queue[i].sent_at, msg: payload });
                    i = i + 1;
                }
                assert(queue_view(r@) =~= queue_view(queue@));
            },
            None => {
                assert(queue_view(r@) =~= Seq::<MessageView>::empty());
            },
        }
        r
    }

    /// The delivery fee factor of the recipient `id`, which is the floor if
    /// none was ever set.
    pub fn get_fee_factor(&self, id: ParaId) -> (f: FeeFactor)
        ensures
            f.inner == self@.fee_factors[id],
            f.inner >= self@.fee_policy.floor(),
    {
        let floor: FeeFactor = self.fee_policy.min_fee_factor();
        match self.delivery_fee_factor.get(&id) {
            Some(f) => if f.inner >= floor.inner {
                *f
            } else {
                floor
            },
            None => floor,
        }
    }

    /// The constants of the fee rule.
    pub fn fee_policy(&self) -> (r: FeePolicy)
        ensures
            r == self@.fee_policy,
    {
        self.fee_policy
    }

    /// Determine whether enqueuing a downward message to a specific recipient para would result
    /// in an error. If this returns `Ok(())` the caller can be certain that a call to
    /// `queue_downward_message` with the same parameters will be successful.
    ///
    /// The answer is a function of the state and the arguments, and the state
    /// stays as it is: asking again gives the same answer.
    pub fn can_queue_downward_message(
        &self,
        config: &HostConfiguration,
        para: &ParaId,
        msg: &DownwardMessage,
    ) -> (r: Result<(), QueueDownwardMessageError>)
        ensures
            r == self@.can_queue(*config, *para, msg@),
    {
        if msg.len() > config.max_downward_message_size as usize {
            return Err(QueueDownwardMessageError::ExceedsMaxMessageSize);
        }
        // Hard limit on Queue size
        let length: usize = match self.downward_message_queues.get(para) {
            Some(queue) => queue.len(),
            None => 0,
        };
        if length > self.dmq_max_length(config.max_downward_message_size) as usize {
            return Err(QueueDownwardMessageError::ExceedsMaxMessageSize);
        }
        if !self.para_heads.contains(para) {
            return Err(QueueDownwardMessageError::Unroutable);
        }
        Ok(())
    }

    /// Sets the delivery fee factor of the recipient `id`. A value below the
    /// floor counts as the floor.
    pub fn set_fee_factor(&mut self, id: ParaId, val: FeeFactor)
        ensures
            final(self)@ == old(self)@.with_fee_factor(id, val.inner),
            final(self)@.wf(),
    {
        proof {
            use_type_invariant(&self.fee_policy);
        }
        self.delivery_fee_factor.insert(id, val);
        assert(self@.fee_factors =~= old(self)@.with_fee_factor(id, val.inner).fee_factors);
    }

    /// Raises the delivery fee factor of the recipient `id` for a message of
    /// `message_size` bytes.
    pub fn increase_fee_factor(&mut self, id: ParaId, message_size: u128)
        ensures
            final(self)@ == old(self)@.with_fee_factor(
                id,
                old(self)@.fee_policy.increased(old(self)@.fee_factors[id], message_size),
            ),
            final(self)@.fee_factors[id] >= old(self)@.fee_factors[id],
            final(self)@.wf(),
    {
        let factor: FeeFactor = self.get_fee_factor(id);
        let raised: FeeFactor = self.fee_policy.increase(factor, message_size);
        self.set_fee_factor(id, raised);
    }

    /// Lowers the delivery fee factor of the recipient `id`, but not below the
    /// floor.
    pub fn decrease_fee_factor(&mut self, id: ParaId)
        ensures
            final(self)@ == old(self)@.with_fee_factor(
                id,
                old(self)@.fee_policy.decreased(old(self)@.fee_factors[id]),
            ),
            final(self)@.fee_factors[id] <= old(self)@.fee_factors[id],
            final(self)@.wf(),
    {
        let factor: FeeFactor = self.get_fee_factor(id);
        let lowered: FeeFactor = self.fee_policy.decrease(factor);
        proof {
            use_type_invariant(&self.fee_policy);
            crate::fee::lemma_decrease_strict(self.fee_policy, factor.inner);
        }
        self.set_fee_factor(id, lowered);
    }

    /// Enqueue a downward message to a specific recipient para.
    ///
    /// The message is refused, and nothing changes, exactly where
    /// `can_queue_downward_message` says so. Otherwise it is appended to the
    /// mailbox with the current block number, the head of the message queue
    /// chain moves on by one link, and, if the mailbox now holds more than the
    /// threshold, the fee factor is raised for the size of the message.
    pub fn queue_downward_message(
        &mut self,
        config: &HostConfiguration,
        para: ParaId,
        msg: DownwardMessage,
    ) -> (r: Result<(), QueueDownwardMessageError>)
        ensures
            r == old(self)@.can_queue(*config, para, msg@),
            r.is_ok() ==> final(self)@ == old(self)@.queued(*config, para, msg@),
            r.is_err() ==> final(self)@ == old(self)@,
            final(self)@.wf(),
    {
        proof {
            use_type_invariant(&self.fee_policy);
        }
        let serialized_len: usize = msg.len();
        match self.can_queue_downward_message(config, &para, &msg) {
            Err(e) => {
                return Err(e);
            },
            Ok(()) => {},
        }
        let sent_at: BlockNumber = self.block_number;
        let ghost payload: Seq<u8> = msg@;

        // obtain the new link in the MQC and update the head.
        let head: crate::mqc::Hash = self.dmq_mqc_head(para);
        let new_head: crate::mqc::Hash = extend_head(&head, sent_at, &msg);
        self.downward_message_queue_heads.insert(para, new_head);

        let mut queue: Vec<InboundDownwardMessage> = match self.downward_message_queues.remove(
            &para,
        ) {
            Some(q) => q,
            None => Vec::new(),
        };
        assert(queue_view(queue@) =~= old(self)@.queues[para]);
        queue.push(InboundDownwardMessage { sent_at, msg });
        let q_len: usize = queue.len();
        assert(queue_view(queue@) =~= old(self)@.queues[para].push(
            MessageView { sent_at, msg: payload },
        ));
        self.downward_message_queues.insert(para, queue);

        let ghost queued: PalletView = old(self)@.queued(*config, para, payload);
        assert(self@.queues =~= queued.queues);
        assert(self@.heads =~= queued.heads);

        let threshold: u32 = self.dmq_max_length(config.max_downward_message_size)
            / THRESHOLD_FACTOR;
        if q_len > threshold as usize {
            assert(self@.fee_factors =~= old(self)@.fee_factors);
            self.increase_fee_factor(para, serialized_len as u128);
            proof {
                let factor: u128 = old(self)@.fee_factors[para];
                let size: u128 = payload.len() as u128;
                crate::fee::lemma_increase_not_below(self.fee_policy, factor, size);
            }
            assert(self@.fee_factors =~= queued.fee_factors);
        } else {
            assert(self@.fee_factors =~= queued.fee_factors);
        }
        Ok(())
    }

    /// Checks if the number of processed downward messages is valid.
    pub fn check_processed_downward_messages(
        &self,
        para: ParaId,
        relay_parent_number: BlockNumber,
        processed_downward_messages: u32,
    ) -> (r: Result<(), ProcessedDownwardMessagesAcceptanceErr>)
        ensures
            r == self@.check_processed(para, relay_parent_number, processed_downward_messages),
    {
        let dmq_length: u32 = self.dmq_length(para);

        if dmq_length > 0 && processed_downward_messages == 0 {
            // The advancement rule is for at least one downwards message to be processed
            // if the queue is non-empty at the relay-parent. Downwards messages are annotated
            // with the block number, so we compare the earliest (first) against the relay parent.
            match self.downward_message_queues.get(&para) {
                Some(queue) => {
                    if queue.len() > 0 && queue[0].sent_at <= relay_parent_number {
                        return Err(ProcessedDownwardMessagesAcceptanceErr::AdvancementRule);
                    }
                },
                None => {},
            }
        }
        // A recipient may claim messages that were not yet in its mailbox at the
        // relay parent: nobody can be made to act on a message, so this is let pass.

        if dmq_length < processed_downward_messages {
            return Err(
                ProcessedDownwardMessagesAcceptanceErr::Underflow {
                    processed_downward_messages,
                    dmq_length,
                },
            );
        }
        Ok(())
    }

    /// Prunes the specified number of messages from the downward message queue of the given para.
    ///
    /// A number beyond the length of the mailbox empties it. If the mailbox
    /// then holds no more than the threshold of the configuration in force,
    /// the fee factor is lowered.
    pub fn prune_dmq(&mut self, para: ParaId, processed_downward_messages: u32)
        ensures
            final(self)@ == old(self)@.pruned(para, processed_downward_messages),
            final(self)@.wf(),
    {
        proof {
            use_type_invariant(&self.fee_policy);
        }
        let mut queue: Vec<InboundDownwardMessage> = match self.downward_message_queues.remove(
            &para,
        ) {
            Some(q) => q,
            None => Vec::new(),
        };
        assert(queue_view(queue@) =~= old(self)@.queues[para]);
        let processed: usize = processed_downward_messages as usize;
        if processed > queue.len() {
            // The acceptance check rules this out; an unchecked caller gets an
            // empty mailbox.
            queue.clear();
        } else {
            queue = queue.split_off(processed);
        }
        let q_len: usize = queue.len();
        let ghost pruned: PalletView = old(self)@.pruned(para, processed_downward_messages);
        assert(queue_view(queue@) =~= pruned.queues[para]);
        self.downward_message_queues.insert(para, queue);
        assert(self@.queues =~= pruned.queues);
        assert(self@.fee_factors =~= old(self)@.fee_factors);

        let threshold: u32 = self.dmq_max_length(self.active_config.max_downward_message_size)
            / THRESHOLD_FACTOR;
        if q_len <= threshold as usize {
            self.decrease_fee_factor(para);
            proof {
                crate::fee::lemma_decrease_strict(
                    old(self)@.fee_policy,
                    old(self)@.fee_factors[para],
                );
            }
            assert(self@.fee_factors =~= pruned.fee_factors);
        }
    }

    /// Remove all relevant storage items for an outgoing parachain.
    pub fn clean_dmp_after_outgoing(&mut self, outgoing_para: &ParaId)
        ensures
            final(self)@ == old(self)@.without(set![*outgoing_para]),
            final(self)@.wf(),
    {
        proof {
            use_type_invariant(&self.fee_policy);
        }
        self.downward_message_queues.remove(outgoing_para);
        self.downward_message_queue_heads.remove(outgoing_para);
        let ghost gone: PalletView = old(self)@.without(set![*outgoing_para]);
        assert(self@.queues =~= gone.queues);
        assert(self@.heads =~= gone.heads);
        assert(self@.fee_factors =~= gone.fee_factors);
    }

    /// Iterate over all paras that were noted for offboarding and remove all the data
    /// associated with them.
    pub fn perform_outgoing_para_cleanup(&mut self, outgoing: &[ParaId])
        ensures
            final(self)@ == old(self)@.without(outgoing@.to_set()),
            final(self)@.wf(),
    {
        proof {
            use_type_invariant(&self.fee_policy);
        }
        let mut i: usize = 0;
        assert(self@.queues =~= old(self)@.without(Set::<ParaId>::empty()).queues);
        assert(self@.heads =~= old(self)@.without(Set::<ParaId>::empty()).heads);
        assert(outgoing@.subrange(0, 0).to_set() =~= Set::<ParaId>::empty());
        while i < outgoing.len()
            invariant
                i <= outgoing.len(),
                self@ == old(self)@.without(outgoing@.subrange(0, i as int).to_set()),
                self@.wf(),
            decreases outgoing.len() - i,
        {
            let ghost before: PalletView = self@;
            let ghost done: Set<ParaId> = outgoing@.subrange(0, i as int).to_set();
            self.clean_dmp_after_outgoing(&outgoing[i]);
            i = i + 1;
            let ghost now: Set<ParaId> = outgoing@.subrange(0, i as int).to_set();
            assert(now =~= done.insert(outgoing@[i - 1])) by {
                assert forall|p: ParaId| now.contains(p) <==> done.insert(outgoing@[i - 1]).contains(
                    p,
                ) by {
                    let a = outgoing@.subrange(0, i as int);
                    let b = outgoing@.subrange(0, i - 1);
                    if a.contains(p) {
                        let j = choose|j: int| 0 <= j < a.len() && a[j] == p;
                        if j < i - 1 {
                            assert(b[j] == p);
                        }
                    }
                    if b.contains(p) {
                        let j = choose|j: int| 0 <= j < b.len() && b[j] == p;
                        assert(a[j] == p);
                    }
                    assert(a[i - 1] == outgoing@[i - 1]);
                }
            }
            assert(self@.queues =~= old(self)@.without(now).queues);
            assert(self@.heads =~= old(self)@.without(now).heads);
        }
        assert(outgoing@.subrange(0, i as int) =~= outgoing@);
    }

    /// Called by the initializer to note that a new session has started.
    pub fn initializer_on_new_session(&mut self, outgoing_paras: &[ParaId])
        ensures
            final(self)@ == old(self)@.without(outgoing_paras@.to_set()),
            final(self)@.wf(),
    {
        self.perform_outgoing_para_cleanup(outgoing_paras);
    }
}

/// No transition lets a fee factor fall below the floor, nor makes a map
/// partial: a well-formed state stays well formed.
pub proof fn lemma_transitions_keep_wf(
    s: PalletView,
    config: HostConfiguration,
    para: ParaId,
    msg: Seq<u8>,
    processed: u32,
    factor: u128,
    outgoing: Set<ParaId>,
    now: BlockNumber,
)
    requires
        s.wf(),
    ensures
        s.queued(config, para, msg).wf(),
        s.pruned(para, processed).wf(),
        s.with_fee_factor(para, factor).wf(),
        s.without(outgoing).wf(),
        s.at_block(now).wf(),
        s.queued(config, para, msg).fee_factors[para] >= s.fee_factors[para],
        s.pruned(para, processed).fee_factors[para] <= s.fee_factors[para],
{
    crate::fee::lemma_increase_not_below(s.fee_policy, s.fee_factors[para], msg.len() as u128);
    crate::fee::lemma_decrease_strict(s.fee_policy, s.fee_factors[para]);
    assert(s.fee_factors[para] >= s.fee_policy.floor());
}

/// Messages leave a mailbox in the order in which they were queued: after any
/// run of queued messages the mailbox holds what it held before, followed by
/// those messages in their order, and the head is the chain over them. No
/// other recipient's mailbox, head or fee factor changes.
pub proof fn lemma_queued_all(
    s: PalletView,
    config: HostConfiguration,
    para: ParaId,
    msgs: Seq<MessageView>,
)
    requires
        s.wf(),
    ensures
        s.queued_all(config, para, msgs).wf(),
        s.queued_all(config, para, msgs).queues[para] == s.queues[para] + msgs,
        s.queued_all(config, para, msgs).heads[para] == chain(s.heads[para], msgs),
        s.queued_all(config, para, msgs).fee_factors[para] >= s.fee_factors[para],
        s.queued_all(config, para, msgs).reachable == s.reachable,
        s.queued_all(config, para, msgs).fee_policy == s.fee_policy,
        s.queued_all(config, para, msgs).max_allocation == s.max_allocation,
        s.queued_all(config, para, msgs).active_config == s.active_config,
        forall|p: ParaId|
            p != para ==> {
                &&& #[trigger] s.queued_all(config, para, msgs).queues[p] == s.queues[p]
                &&& s.queued_all(config, para, msgs).heads[p] == s.heads[p]
                &&& s.queued_all(config, para, msgs).fee_factors[p] == s.fee_factors[p]
            },
    decreases msgs.len(),
{
    if msgs.len() == 0 {
        assert(s.queues[para] + msgs =~= s.queues[para]);
    } else {
        let front = msgs.drop_last();
        lemma_queued_all(s, config, para, front);
        let before = s.queued_all(config, para, front).at_block(msgs.last().sent_at);
        lemma_transitions_keep_wf(
            before,
            config,
            para,
            msgs.last().msg,
            0,
            0,
            Set::empty(),
            0,
        );
        assert((s.queues[para] + front).push(msgs.last()) =~= s.queues[para] + msgs);
    }
}

/// Two runs that queue the same messages at the same blocks for a recipient
/// end at the same head, whatever else differs between them, provided they
/// start from the same head.
pub proof fn lemma_chain_head_deterministic(
    a: PalletView,
    b: PalletView,
    config_a: HostConfiguration,
    config_b: HostConfiguration,
    para: ParaId,
    msgs: Seq<MessageView>,
)
    requires
        a.wf(),
        b.wf(),
        a.heads[para] == b.heads[para],
    ensures
        a.queued_all(config_a, para, msgs).heads[para] == b.queued_all(
            config_b,
            para,
            msgs,
        ).heads[para],
{
    lemma_queued_all(a, config_a, para, msgs);
    lemma_queued_all(b, config_b, para, msgs);
}

/// A message is accepted only into a mailbox that holds no more than the
/// hard limit, so after it the mailbox holds at most one more than the limit,
/// and at most the limit where it was below the limit before.
pub proof fn lemma_queue_respects_limit(
    s: PalletView,
    config: HostConfiguration,
    para: ParaId,
    msg: Seq<u8>,
)
    requires
        s.can_queue(config, para, msg).is_ok(),
    ensures
        s.queues[para].len() <= s.dmq_max_length(config.max_downward_message_size),
        s.queued(config, para, msg).queues[para].len() == s.queues[para].len() + 1,
        msg.len() <= config.max_downward_message_size,
        s.reachable.contains(para),
{
}

/// However many messages are accepted one after another under one
/// configuration, the mailbox never holds more than one above the hard limit
/// of that configuration; and it holds no more than the limit unless the
/// last message was accepted into a mailbox that held exactly the limit.
pub proof fn lemma_capacity_bound(
    s: PalletView,
    config: HostConfiguration,
    para: ParaId,
    msgs: Seq<MessageView>,
)
    requires
        s.wf(),
        msgs.len() > 0,
        s.accepts_all(config, para, msgs),
    ensures
        s.queued_all(config, para, msgs).queues[para].len() <= s.dmq_max_length(
            config.max_downward_message_size,
        ) + 1,
        s.queues[para].len() + msgs.len() - 1 < s.dmq_max_length(
            config.max_downward_message_size,
        ) ==> s.queued_all(config, para, msgs).queues[para].len() <= s.dmq_max_length(
            config.max_downward_message_size,
        ),
{
    let front = msgs.drop_last();
    lemma_queued_all(s, config, para, front);
    lemma_queued_all(s, config, para, msgs);
    let before = s.queued_all(config, para, front).at_block(msgs.last().sent_at);
    lemma_queue_respects_limit(before, config, para, msgs.last().msg);
}

/// A message that takes a mailbox above the threshold raises the fee factor
/// by the rule of the policy; below that the factor stays. The raise is
/// strict for a factor of at least one, short of the largest, under an
/// exponential base above one.
pub proof fn lemma_congestion_response(
    s: PalletView,
    config: HostConfiguration,
    para: ParaId,
    msg: Seq<u8>,
)
    requires
        s.wf(),
    ensures
        s.queues[para].len() + 1 > s.dmq_threshold(config.max_downward_message_size)
            ==> s.queued(config, para, msg).fee_factors[para] == s.fee_policy.increased(
            s.fee_factors[para],
            msg.len() as u128,
        ),
        s.queues[para].len() + 1 <= s.dmq_threshold(config.max_downward_message_size)
            ==> s.queued(config, para, msg).fee_factors[para] == s.fee_factors[para],
        s.queues[para].len() + 1 > s.dmq_threshold(config.max_downward_message_size)
            && s.fee_policy.exponential_base() > crate::fee::DIV && crate::fee::DIV
            <= s.fee_factors[para] < u128::MAX ==> s.queued(config, para, msg).fee_factors[para]
            > s.fee_factors[para],
{
    let size: u128 = msg.len() as u128;
    crate::fee::lemma_increase_not_below(s.fee_policy, s.fee_factors[para], size);
    if s.fee_policy.exponential_base() > crate::fee::DIV && crate::fee::DIV <= s.fee_factors[para]
        < u128::MAX {
        crate::fee::lemma_increase_strict_from_one(s.fee_policy, s.fee_factors[para], size);
    }
}

/// Pruning that leaves a mailbox at or below the threshold of the
/// configuration in force lowers the fee factor by the rule of the policy,
/// never below the floor; above the threshold the factor stays. The fall is
/// strict for a factor above the floor under an exponential base above one.
pub proof fn lemma_relaxation(s: PalletView, para: ParaId, processed: u32)
    requires
        s.wf(),
    ensures
        s.pruned(para, processed).fee_factors[para] >= s.fee_policy.floor(),
        s.pruned(para, processed).queues[para].len() <= s.dmq_threshold(
            s.active_config.max_downward_message_size,
        ) ==> s.pruned(para, processed).fee_factors[para] == s.fee_policy.decreased(
            s.fee_factors[para],
        ),
        s.pruned(para, processed).queues[para].len() > s.dmq_threshold(
            s.active_config.max_downward_message_size,
        ) ==> s.pruned(para, processed).fee_factors[para] == s.fee_factors[para],
        s.pruned(para, processed).queues[para].len() <= s.dmq_threshold(
            s.active_config.max_downward_message_size,
        ) && s.fee_policy.exponential_base() > crate::fee::DIV && s.fee_factors[para]
            > s.fee_policy.floor() ==> s.pruned(para, processed).fee_factors[para]
            < s.fee_factors[para],
{
    crate::fee::lemma_decrease_strict(s.fee_policy, s.fee_factors[para]);
    assert(s.fee_factors[para] >= s.fee_policy.floor());
}

/// A claim that was accepted names no more messages than the mailbox holds,
/// so pruning by it removes exactly that many, the oldest first, and leaves
/// the rest in their order.
pub proof fn lemma_prune_after_check(
    s: PalletView,
    para: ParaId,
    relay_parent_number: BlockNumber,
    processed: u32,
)
    requires
        s.check_processed(para, relay_parent_number, processed).is_ok(),
    ensures
        processed <= s.queues[para].len(),
        s.pruned(para, processed).queues[para] == s.queues[para].skip(processed as int),
        s.pruned(para, processed).heads == s.heads,
{
}

/// A recipient whose data was cleaned up is as one that was never heard of:
/// its mailbox is empty and its head is the zero hash. Every other recipient
/// keeps its mailbox and its head, and every fee factor stays.
pub proof fn lemma_decommission(s: PalletView, outgoing: Set<ParaId>, para: ParaId)
    ensures
        outgoing.contains(para) ==> s.without(outgoing).dmq_length(para) == 0 && s.without(
            outgoing,
        ).queues[para] == Seq::<MessageView>::empty() && s.without(outgoing).heads[para]
            == zero_hash(),
        !outgoing.contains(para) ==> s.without(outgoing).queues[para] == s.queues[para]
            && s.without(outgoing).heads[para] == s.heads[para],
        s.without(outgoing).fee_factors == s.fee_factors,
{
}

} // verus!
