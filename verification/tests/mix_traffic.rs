use gateway_requests::addressing::NymNodeRoutingAddress;
use gateway_requests::mix_traffic::{
    ControllerVerdict, GatewaySend, MixMessage, MixTrafficController, MAX_FAILURE_COUNT,
};
use gateway_requests::packet::SphinxPacket;

fn message(tag: u8) -> MixMessage {
    MixMessage::new(
        NymNodeRoutingAddress::new_v4([127, 0, 0, tag], 1000 + tag as u16),
        SphinxPacket::from_bytes(&vec![tag; 386]).unwrap(),
    )
}

fn assert_is_message(message: MixMessage, tag: u8) {
    let (address, packet) = message.into_parts();
    assert_eq!(
        address,
        NymNodeRoutingAddress::new_v4([127, 0, 0, tag], 1000 + tag as u16)
    );
    assert_eq!(packet.to_bytes(), vec![tag; 386]);
}

#[test]
fn threshold_is_one_hundred() {
    assert_eq!(MAX_FAILURE_COUNT, 100);
}

#[test]
fn new_controller_has_seen_no_failure() {
    assert_eq!(
        MixTrafficController::new().consecutive_gateway_failure_count(),
        0
    );
}

#[test]
fn batch_of_one_is_a_single_send() {
    let controller = MixTrafficController::new();
    match controller.on_messages(vec![message(1)]) {
        GatewaySend::Single(m) => assert_is_message(m, 1),
        GatewaySend::Batch(_) => panic!("one message went out as a batch"),
    }
}

#[test]
fn batch_of_many_is_one_batch_send_in_order() {
    let controller = MixTrafficController::new();
    for n in [2u8, 3, 50] {
        let batch: Vec<MixMessage> = (0..n).map(message).collect();
        match controller.on_messages(batch) {
            GatewaySend::Batch(messages) => {
                assert_eq!(messages.len(), n as usize);
                for (i, m) in messages.into_iter().enumerate() {
                    assert_is_message(m, i as u8);
                }
            }
            GatewaySend::Single(_) => panic!("{} messages went out as one", n),
        }
    }
}

#[test]
fn ninety_nine_failures_and_a_success_clear_the_count() {
    let mut controller = MixTrafficController::new();
    for i in 1..=99usize {
        assert_eq!(controller.on_send_result(false), ControllerVerdict::Continue);
        assert_eq!(controller.consecutive_gateway_failure_count(), i);
    }
    assert_eq!(controller.on_send_result(true), ControllerVerdict::Continue);
    assert_eq!(controller.consecutive_gateway_failure_count(), 0);
}

#[test]
fn one_hundred_failures_in_a_row_make_the_gateway_unreachable() {
    let mut controller = MixTrafficController::new();
    for _ in 0..99 {
        assert_eq!(controller.on_send_result(false), ControllerVerdict::Continue);
    }
    assert_eq!(
        controller.on_send_result(false),
        ControllerVerdict::GatewayUnreachable
    );
    assert_eq!(controller.consecutive_gateway_failure_count(), 100);
}

#[test]
fn failures_count_only_in_a_row() {
    let mut controller = MixTrafficController::new();
    for round in 0..5 {
        for _ in 0..99 {
            assert_eq!(controller.on_send_result(false), ControllerVerdict::Continue);
        }
        assert_eq!(controller.on_send_result(true), ControllerVerdict::Continue);
        assert_eq!(controller.consecutive_gateway_failure_count(), 0, "round {}", round);
    }
    for _ in 0..99 {
        assert_eq!(controller.on_send_result(false), ControllerVerdict::Continue);
    }
    assert_eq!(
        controller.on_send_result(false),
        ControllerVerdict::GatewayUnreachable
    );
}

#[test]
fn unreachable_stays_unreachable_until_a_success() {
    let mut controller = MixTrafficController::new();
    for _ in 0..100 {
        controller.on_send_result(false);
    }
    for _ in 0..10 {
        assert_eq!(
            controller.on_send_result(false),
            ControllerVerdict::GatewayUnreachable
        );
        assert_eq!(controller.consecutive_gateway_failure_count(), 100);
    }
    assert_eq!(controller.on_send_result(true), ControllerVerdict::Continue);
    assert_eq!(controller.consecutive_gateway_failure_count(), 0);
}

#[test]
fn success_keeps_a_clear_count_clear() {
    let mut controller = MixTrafficController::new();
    for _ in 0..3 {
        assert_eq!(controller.on_send_result(true), ControllerVerdict::Continue);
        assert_eq!(controller.consecutive_gateway_failure_count(), 0);
    }
}
