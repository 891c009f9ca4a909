use downward_mailbox::dmp::{
    HostConfiguration, InboundDownwardMessage, Pallet, ProcessedDownwardMessagesAcceptanceErr,
    QueueDownwardMessageError,
};
use downward_mailbox::fee::{FeeFactor, FeePolicy};
use sp_core::H256;
use sp_runtime::traits::BlakeTwo256;

const ONE: u128 = 1_000_000_000_000_000_000;
const PARA: u32 = 2000;

fn policy() -> FeePolicy {
    FeePolicy::new(
        FeeFactor::from_inner(ONE),
        FeeFactor::from_inner(ONE + ONE / 20),
        FeeFactor::from_inner(ONE / 1000),
    )
    .unwrap()
}

fn config(max_downward_message_size: u32) -> HostConfiguration {
    HostConfiguration { max_downward_message_size }
}

/// A pallet with room for eight messages of 1024 bytes, and `PARA` reachable.
fn small_pallet() -> Pallet {
    let mut pallet = Pallet::with_max_allocation(8192, policy(), config(1024));
    pallet.make_parachain_reachable(PARA);
    pallet
}

fn link(prev: H256, sent_at: u32, msg: &Vec<u8>) -> H256 {
    let msg_hash: H256 = <BlakeTwo256 as sp_runtime::traits::Hash>::hash_of(msg);
    <BlakeTwo256 as sp_runtime::traits::Hash>::hash_of(&(prev, sent_at, msg_hash))
}

#[test]
fn unknown_destination_has_defaults() {
    let pallet = Pallet::new(policy(), config(1024));
    assert_eq!(pallet.dmq_length(PARA), 0);
    assert_eq!(pallet.dmq_contents(PARA), vec![]);
    assert_eq!(pallet.dmq_mqc_head(PARA), [0u8; 32]);
    assert_eq!(pallet.get_fee_factor(PARA), FeeFactor::from_inner(ONE));
    assert!(!pallet.is_reachable(PARA));
}

#[test]
fn host_allocation_limit_is_32_mib() {
    let pallet = Pallet::new(policy(), config(1024));
    assert_eq!(pallet.dmq_max_length(1024), 32768);
    assert_eq!(pallet.dmq_max_length(1), 33_554_432);
    assert_eq!(pallet.dmq_max_length(33_554_433), 0);
}

#[test]
fn hard_limit_is_zero_for_zero_message_size() {
    let pallet = small_pallet();
    assert_eq!(pallet.dmq_max_length(0), 0);
}

#[test]
fn hard_limit_divides_rounding_down() {
    let pallet = small_pallet();
    assert_eq!(pallet.dmq_max_length(1024), 8);
    assert_eq!(pallet.dmq_max_length(1000), 8);
    assert_eq!(pallet.dmq_max_length(3000), 2);
    assert_eq!(pallet.dmq_max_length(8193), 0);
}

#[test]
fn oversized_message_is_refused() {
    let mut pallet = small_pallet();
    let cfg = config(4);
    let msg = vec![0u8; 5];
    assert_eq!(
        pallet.can_queue_downward_message(&cfg, &PARA, &msg),
        Err(QueueDownwardMessageError::ExceedsMaxMessageSize)
    );
    assert_eq!(
        pallet.queue_downward_message(&cfg, PARA, msg),
        Err(QueueDownwardMessageError::ExceedsMaxMessageSize)
    );
    assert_eq!(pallet.dmq_length(PARA), 0);
    assert_eq!(pallet.dmq_mqc_head(PARA), [0u8; 32]);
}

#[test]
fn message_of_exactly_max_size_is_accepted() {
    let mut pallet = small_pallet();
    let cfg = config(4);
    assert_eq!(pallet.queue_downward_message(&cfg, PARA, vec![0u8; 4]), Ok(()));
    assert_eq!(pallet.dmq_length(PARA), 1);
}

#[test]
fn unknown_destination_is_unroutable() {
    let mut pallet = small_pallet();
    let cfg = config(1024);
    let msg = vec![1u8, 2, 3];
    assert_eq!(
        pallet.can_queue_downward_message(&cfg, &7, &msg),
        Err(QueueDownwardMessageError::Unroutable)
    );
    assert_eq!(
        pallet.queue_downward_message(&cfg, 7, msg),
        Err(QueueDownwardMessageError::Unroutable)
    );
    assert_eq!(pallet.dmq_length(7), 0);
    assert_eq!(pallet.dmq_mqc_head(7), [0u8; 32]);
}

#[test]
fn size_is_checked_before_the_destination() {
    let pallet = small_pallet();
    assert_eq!(
        pallet.can_queue_downward_message(&config(2), &7, &vec![0u8; 3]),
        Err(QueueDownwardMessageError::ExceedsMaxMessageSize)
    );
}

#[test]
fn mailbox_over_hard_limit_refuses() {
    let mut pallet = small_pallet();
    let cfg = config(1024);
    // The hard limit is 8; a mailbox that holds 8 still takes one more.
    for i in 0..9u8 {
        assert_eq!(pallet.queue_downward_message(&cfg, PARA, vec![i]), Ok(()));
    }
    assert_eq!(pallet.dmq_length(PARA), 9);
    let head = pallet.dmq_mqc_head(PARA);
    let fee = pallet.get_fee_factor(PARA);
    assert_eq!(
        pallet.can_queue_downward_message(&cfg, &PARA, &vec![9]),
        Err(QueueDownwardMessageError::ExceedsMaxMessageSize)
    );
    assert_eq!(
        pallet.queue_downward_message(&cfg, PARA, vec![9]),
        Err(QueueDownwardMessageError::ExceedsMaxMessageSize)
    );
    assert_eq!(pallet.dmq_length(PARA), 9);
    assert_eq!(pallet.dmq_mqc_head(PARA), head);
    assert_eq!(pallet.get_fee_factor(PARA), fee);
}

#[test]
fn can_queue_is_idempotent() {
    let pallet = small_pallet();
    let cfg = config(1024);
    let msg = vec![1u8, 2, 3];
    let first = pallet.can_queue_downward_message(&cfg, &PARA, &msg);
    let second = pallet.can_queue_downward_message(&cfg, &PARA, &msg);
    assert_eq!(first, Ok(()));
    assert_eq!(first, second);
    let first = pallet.can_queue_downward_message(&cfg, &7, &msg);
    let second = pallet.can_queue_downward_message(&cfg, &7, &msg);
    assert_eq!(first, Err(QueueDownwardMessageError::Unroutable));
    assert_eq!(first, second);
    assert_eq!(pallet.dmq_length(PARA), 0);
}

#[test]
fn can_queue_predicts_queue() {
    let mut pallet = small_pallet();
    let cfg = config(1024);
    let msg = vec![1u8, 2, 3];
    assert_eq!(pallet.can_queue_downward_message(&cfg, &PARA, &msg), Ok(()));
    assert_eq!(pallet.queue_downward_message(&cfg, PARA, msg), Ok(()));
}

#[test]
fn mailbox_is_fifo() {
    let mut pallet = small_pallet();
    let cfg = config(1024);
    pallet.set_block_number(3);
    assert_eq!(pallet.queue_downward_message(&cfg, PARA, vec![1]), Ok(()));
    pallet.set_block_number(4);
    assert_eq!(pallet.queue_downward_message(&cfg, PARA, vec![2, 2]), Ok(()));
    assert_eq!(pallet.queue_downward_message(&cfg, PARA, vec![]), Ok(()));
    assert_eq!(
        pallet.dmq_contents(PARA),
        vec![
            InboundDownwardMessage { sent_at: 3, msg: vec![1] },
            InboundDownwardMessage { sent_at: 4, msg: vec![2, 2] },
            InboundDownwardMessage { sent_at: 4, msg: vec![] },
        ]
    );
    assert_eq!(pallet.dmq_length(PARA), 3);
}

#[test]
fn destinations_are_independent() {
    let mut pallet = small_pallet();
    pallet.make_parachain_reachable(7);
    let cfg = config(1024);
    assert_eq!(pallet.queue_downward_message(&cfg, PARA, vec![1]), Ok(()));
    assert_eq!(pallet.dmq_length(7), 0);
    assert_eq!(pallet.dmq_mqc_head(7), [0u8; 32]);
    assert_eq!(pallet.queue_downward_message(&cfg, 7, vec![9]), Ok(()));
    assert_eq!(pallet.dmq_contents(PARA), vec![InboundDownwardMessage { sent_at: 0, msg: vec![1] }]);
    assert_eq!(pallet.dmq_contents(7), vec![InboundDownwardMessage { sent_at: 0, msg: vec![9] }]);
}

#[test]
fn chain_head_links_each_message() {
    let mut pallet = small_pallet();
    let cfg = config(1024);
    let first = vec![1u8, 2, 3];
    let second = vec![0u8; 100];
    pallet.set_block_number(5);
    assert_eq!(pallet.queue_downward_message(&cfg, PARA, first.clone()), Ok(()));
    let head_1 = link(H256::zero(), 5, &first);
    assert_eq!(pallet.dmq_mqc_head(PARA), head_1.0);
    assert_ne!(pallet.dmq_mqc_head(PARA), [0u8; 32]);

    pallet.set_block_number(6);
    assert_eq!(pallet.queue_downward_message(&cfg, PARA, second.clone()), Ok(()));
    let head_2 = link(head_1, 6, &second);
    assert_eq!(pallet.dmq_mqc_head(PARA), head_2.0);
    assert_ne!(head_1, head_2);
}

#[test]
fn chain_head_of_empty_message() {
    let mut pallet = small_pallet();
    assert_eq!(pallet.queue_downward_message(&config(0), PARA, vec![]), Ok(()));
    assert_eq!(pallet.dmq_mqc_head(PARA), link(H256::zero(), 0, &vec![]).0);
}

#[test]
fn chain_head_is_deterministic() {
    let cfg = config(1024);
    let mut a = small_pallet();
    let mut b = Pallet::new(policy(), config(16));
    b.make_parachain_reachable(PARA);
    for (now, msg) in [(1u32, vec![1u8]), (1, vec![2, 3]), (9, vec![])] {
        a.set_block_number(now);
        b.set_block_number(now);
        assert_eq!(a.queue_downward_message(&cfg, PARA, msg.clone()), Ok(()));
        assert_eq!(b.queue_downward_message(&cfg, PARA, msg), Ok(()));
    }
    assert_eq!(a.dmq_mqc_head(PARA), b.dmq_mqc_head(PARA));
}

#[test]
fn chain_head_depends_on_order_and_block() {
    let cfg = config(1024);
    let mut a = small_pallet();
    let mut b = small_pallet();
    let mut c = small_pallet();
    assert_eq!(a.queue_downward_message(&cfg, PARA, vec![1]), Ok(()));
    assert_eq!(a.queue_downward_message(&cfg, PARA, vec![2]), Ok(()));
    assert_eq!(b.queue_downward_message(&cfg, PARA, vec![2]), Ok(()));
    assert_eq!(b.queue_downward_message(&cfg, PARA, vec![1]), Ok(()));
    c.set_block_number(1);
    assert_eq!(c.queue_downward_message(&cfg, PARA, vec![1]), Ok(()));
    assert_eq!(c.queue_downward_message(&cfg, PARA, vec![2]), Ok(()));
    assert_ne!(a.dmq_mqc_head(PARA), b.dmq_mqc_head(PARA));
    assert_ne!(a.dmq_mqc_head(PARA), c.dmq_mqc_head(PARA));
}

#[test]
fn chain_head_survives_pruning() {
    let mut pallet = small_pallet();
    let cfg = config(1024);
    assert_eq!(pallet.queue_downward_message(&cfg, PARA, vec![1]), Ok(()));
    let head = pallet.dmq_mqc_head(PARA);
    pallet.prune_dmq(PARA, 1);
    assert_eq!(pallet.dmq_mqc_head(PARA), head);
    assert_eq!(pallet.queue_downward_message(&cfg, PARA, vec![2]), Ok(()));
    assert_eq!(pallet.dmq_mqc_head(PARA), link(H256(head), 0, &vec![2]).0);
}

#[test]
fn fifth_message_raises_fee_factor() {
    let mut pallet = small_pallet();
    let cfg = config(1024);
    assert_eq!(pallet.dmq_max_length(1024), 8);
    for i in 0..4u8 {
        assert_eq!(pallet.queue_downward_message(&cfg, PARA, vec![i; 10]), Ok(()));
        assert_eq!(pallet.get_fee_factor(PARA), FeeFactor::from_inner(ONE));
    }
    let before = pallet.get_fee_factor(PARA);
    assert_eq!(pallet.queue_downward_message(&cfg, PARA, vec![4; 10]), Ok(()));
    assert_eq!(pallet.dmq_length(PARA), 5);
    let after = pallet.get_fee_factor(PARA);
    assert!(after.inner > before.inner);
    // 1 * (1.05 + 0.001 * 1 kilobyte)
    assert_eq!(after, FeeFactor::from_inner(1_051_000_000_000_000_000));
}

#[test]
fn fee_factor_counts_started_kilobytes() {
    let mut pallet = Pallet::with_max_allocation(8192, policy(), config(4096));
    pallet.make_parachain_reachable(PARA);
    let cfg = config(4096);
    // hard limit 2, threshold 1
    assert_eq!(pallet.queue_downward_message(&cfg, PARA, vec![0; 1]), Ok(()));
    assert_eq!(pallet.get_fee_factor(PARA), FeeFactor::from_inner(ONE));
    // 1025 bytes are two started kilobytes: 1 * (1.05 + 0.002)
    assert_eq!(pallet.queue_downward_message(&cfg, PARA, vec![0; 1025]), Ok(()));
    assert_eq!(pallet.get_fee_factor(PARA), FeeFactor::from_inner(1_052_000_000_000_000_000));
    // an empty message is no kilobyte: 1.052 * 1.05
    assert_eq!(pallet.queue_downward_message(&cfg, PARA, vec![]), Ok(()));
    assert_eq!(pallet.get_fee_factor(PARA), FeeFactor::from_inner(1_104_600_000_000_000_000));
}

#[test]
fn advancement_rule_is_enforced() {
    let mut pallet = small_pallet();
    pallet.set_block_number(5);
    assert_eq!(pallet.queue_downward_message(&config(1024), PARA, vec![1]), Ok(()));
    assert_eq!(
        pallet.check_processed_downward_messages(PARA, 10, 0),
        Err(ProcessedDownwardMessagesAcceptanceErr::AdvancementRule)
    );
    // due exactly at the relay parent
    assert_eq!(
        pallet.check_processed_downward_messages(PARA, 5, 0),
        Err(ProcessedDownwardMessagesAcceptanceErr::AdvancementRule)
    );
    // not yet sent at the relay parent
    assert_eq!(pallet.check_processed_downward_messages(PARA, 4, 0), Ok(()));
    assert_eq!(pallet.check_processed_downward_messages(PARA, 10, 1), Ok(()));
}

#[test]
fn underflow_is_reported() {
    let mut pallet = small_pallet();
    let cfg = config(1024);
    assert_eq!(pallet.queue_downward_message(&cfg, PARA, vec![1]), Ok(()));
    assert_eq!(pallet.queue_downward_message(&cfg, PARA, vec![2]), Ok(()));
    assert_eq!(pallet.dmq_length(PARA), 2);
    assert_eq!(
        pallet.check_processed_downward_messages(PARA, 0, 3),
        Err(ProcessedDownwardMessagesAcceptanceErr::Underflow {
            processed_downward_messages: 3,
            dmq_length: 2
        })
    );
    assert_eq!(pallet.check_processed_downward_messages(PARA, 0, 2), Ok(()));
}

#[test]
fn empty_mailbox_accepts_only_zero() {
    let pallet = small_pallet();
    assert_eq!(pallet.check_processed_downward_messages(PARA, 10, 0), Ok(()));
    assert_eq!(
        pallet.check_processed_downward_messages(PARA, 10, 1),
        Err(ProcessedDownwardMessagesAcceptanceErr::Underflow {
            processed_downward_messages: 1,
            dmq_length: 0
        })
    );
}

#[test]
fn lenient_about_messages_after_relay_parent() {
    let mut pallet = small_pallet();
    let cfg = config(1024);
    pallet.set_block_number(1);
    assert_eq!(pallet.queue_downward_message(&cfg, PARA, vec![1]), Ok(()));
    pallet.set_block_number(8);
    assert_eq!(pallet.queue_downward_message(&cfg, PARA, vec![2]), Ok(()));
    assert_eq!(pallet.check_processed_downward_messages(PARA, 2, 2), Ok(()));
}

#[test]
fn prune_removes_the_oldest() {
    let mut pallet = small_pallet();
    let cfg = config(1024);
    for i in 0..3u8 {
        pallet.set_block_number(i as u32);
        assert_eq!(pallet.queue_downward_message(&cfg, PARA, vec![i]), Ok(()));
    }
    pallet.prune_dmq(PARA, 2);
    assert_eq!(pallet.dmq_contents(PARA), vec![InboundDownwardMessage { sent_at: 2, msg: vec![2] }]);
    pallet.prune_dmq(PARA, 0);
    assert_eq!(pallet.dmq_length(PARA), 1);
}

#[test]
fn prune_clamps_to_the_mailbox() {
    let mut pallet = small_pallet();
    let cfg = config(1024);
    assert_eq!(pallet.queue_downward_message(&cfg, PARA, vec![1]), Ok(()));
    pallet.prune_dmq(PARA, u32::MAX);
    assert_eq!(pallet.dmq_length(PARA), 0);
    pallet.prune_dmq(PARA, 3);
    assert_eq!(pallet.dmq_length(PARA), 0);
    pallet.prune_dmq(7, 3);
    assert_eq!(pallet.dmq_length(7), 0);
}

#[test]
fn prune_relaxes_fee_factor() {
    let mut pallet = small_pallet();
    let cfg = config(1024);
    for i in 0..6u8 {
        assert_eq!(pallet.queue_downward_message(&cfg, PARA, vec![i; 10]), Ok(()));
    }
    // two increases by 1.051 each
    let raised = pallet.get_fee_factor(PARA);
    assert_eq!(raised, FeeFactor::from_inner(1_104_601_000_000_000_000));
    // still above the threshold of 4: no change
    pallet.prune_dmq(PARA, 1);
    assert_eq!(pallet.dmq_length(PARA), 5);
    assert_eq!(pallet.get_fee_factor(PARA), raised);
    // down to the threshold: one decrease, 1.104601 / 1.05 rounded down
    pallet.prune_dmq(PARA, 1);
    assert_eq!(pallet.dmq_length(PARA), 4);
    let relaxed = pallet.get_fee_factor(PARA);
    assert!(relaxed.inner < raised.inner);
    assert!(relaxed.inner >= ONE);
    assert_eq!(relaxed, FeeFactor::from_inner(1_052_000_952_380_952_380));
    // and again, down to the floor and no further
    pallet.prune_dmq(PARA, 1);
    assert_eq!(pallet.get_fee_factor(PARA), FeeFactor::from_inner(1_001_905_668_934_240_361));
    pallet.prune_dmq(PARA, 1);
    assert_eq!(pallet.get_fee_factor(PARA), FeeFactor::from_inner(ONE));
    pallet.prune_dmq(PARA, 1);
    assert_eq!(pallet.get_fee_factor(PARA), FeeFactor::from_inner(ONE));
}

#[test]
fn prune_reads_the_active_configuration() {
    let mut pallet = small_pallet();
    let cfg = config(1024);
    for i in 0..6u8 {
        assert_eq!(pallet.queue_downward_message(&cfg, PARA, vec![i; 10]), Ok(()));
    }
    let raised = pallet.get_fee_factor(PARA);
    // Under messages of up to 4096 bytes the hard limit is 2 and the threshold 1.
    pallet.set_active_config(config(4096));
    pallet.prune_dmq(PARA, 2);
    assert_eq!(pallet.dmq_length(PARA), 4);
    assert_eq!(pallet.get_fee_factor(PARA), raised);
    pallet.prune_dmq(PARA, 3);
    assert_eq!(pallet.dmq_length(PARA), 1);
    assert!(pallet.get_fee_factor(PARA).inner < raised.inner);
}

#[test]
fn decommission_resets_mailbox_and_head() {
    let mut pallet = small_pallet();
    pallet.make_parachain_reachable(7);
    let cfg = config(1024);
    assert_eq!(pallet.queue_downward_message(&cfg, PARA, vec![1]), Ok(()));
    assert_eq!(pallet.queue_downward_message(&cfg, 7, vec![2]), Ok(()));
    let head_7 = pallet.dmq_mqc_head(7);
    pallet.initializer_on_new_session(&[PARA, 99]);
    assert_eq!(pallet.dmq_length(PARA), 0);
    assert_eq!(pallet.dmq_contents(PARA), vec![]);
    assert_eq!(pallet.dmq_mqc_head(PARA), [0u8; 32]);
    assert_eq!(pallet.dmq_length(7), 1);
    assert_eq!(pallet.dmq_mqc_head(7), head_7);
}

#[test]
fn history_restarts_after_decommission() {
    let mut pallet = small_pallet();
    let cfg = config(1024);
    assert_eq!(pallet.queue_downward_message(&cfg, PARA, vec![1]), Ok(()));
    pallet.perform_outgoing_para_cleanup(&[PARA]);
    assert_eq!(pallet.queue_downward_message(&cfg, PARA, vec![2]), Ok(()));
    assert_eq!(pallet.dmq_mqc_head(PARA), link(H256::zero(), 0, &vec![2]).0);
    assert_eq!(pallet.dmq_contents(PARA), vec![InboundDownwardMessage { sent_at: 0, msg: vec![2] }]);
}

#[test]
fn decommission_keeps_fee_factor() {
    let mut pallet = small_pallet();
    pallet.set_fee_factor(PARA, FeeFactor::from_inner(3 * ONE));
    pallet.clean_dmp_after_outgoing(&PARA);
    assert_eq!(pallet.get_fee_factor(PARA), FeeFactor::from_inner(3 * ONE));
}

#[test]
fn fee_factor_never_below_floor() {
    let mut pallet = small_pallet();
    pallet.set_fee_factor(PARA, FeeFactor::from_inner(ONE / 2));
    assert_eq!(pallet.get_fee_factor(PARA), FeeFactor::from_inner(ONE));
    pallet.decrease_fee_factor(PARA);
    assert_eq!(pallet.get_fee_factor(PARA), FeeFactor::from_inner(ONE));
    pallet.set_fee_factor(PARA, FeeFactor::from_inner(ONE + 1));
    pallet.decrease_fee_factor(PARA);
    assert_eq!(pallet.get_fee_factor(PARA), FeeFactor::from_inner(ONE));
}

#[test]
fn capacity_is_bounded() {
    let mut pallet = small_pallet();
    let cfg = config(1024);
    let mut accepted = 0u32;
    for i in 0..20u8 {
        if pallet.queue_downward_message(&cfg, PARA, vec![i]).is_ok() {
            accepted += 1;
        }
        assert!(pallet.dmq_length(PARA) <= pallet.dmq_max_length(1024) + 1);
    }
    assert_eq!(accepted, 9);
    assert_eq!(pallet.dmq_length(PARA), 9);
}

#[test]
fn environment_is_read_back() {
    let mut pallet = small_pallet();
    assert_eq!(pallet.block_number(), 0);
    pallet.set_block_number(12);
    assert_eq!(pallet.block_number(), 12);
    assert_eq!(pallet.active_config(), config(1024));
    pallet.set_active_config(config(9));
    assert_eq!(pallet.active_config(), config(9));
    assert!(pallet.is_reachable(PARA));
    assert_eq!(pallet.fee_policy().min_fee_factor(), FeeFactor::from_inner(ONE));
}
