//! The decisions of the mix traffic controller: how a batch of outbound
//! packets goes to the gateway, and when a run of failed sends means that the
//! gateway is gone.
//!
//! The controller owns no connection and no queue. Whoever drives it takes
//! the next batch off the queue, asks [`MixTrafficController::on_messages`]
//! what to send, sends it once, and reports how the send ended to
//! [`MixTrafficController::on_send_result`]. A batch that failed is dropped,
//! never sent again.

use vstd::prelude::*;
use crate::addressing::{NymNodeRoutingAddress, RoutingAddressView};
use crate::packet::SphinxPacket;

verus! {

/// The number of sends that may fail in a row before the gateway is taken
/// for unreachable.
pub const MAX_FAILURE_COUNT: usize = 100;

/// A sphinx packet and the mix node that it goes to first.
#[derive(Debug)]
pub struct MixMessage(NymNodeRoutingAddress, SphinxPacket);

impl View for MixMessage {
    type V = (RoutingAddressView, Seq<u8>);

    closed spec fn view(&self) -> (RoutingAddressView, Seq<u8>) {
        (self.0@, self.1@)
    }
}

impl MixMessage {
    /// The message that sends `packet` to `address`.
    pub fn new(address: NymNodeRoutingAddress, packet: SphinxPacket) -> (message: MixMessage)
        ensures
            message@ == (address@, packet@),
    {
        MixMessage(address, packet)
    }

    /// The address and the packet of this message.
    pub fn into_parts(self) -> (parts: (NymNodeRoutingAddress, SphinxPacket))
        ensures
            (parts.0@, parts.1@) == self@,
    {
        (self.0, self.1)
    }
}

/// The one operation on the gateway connection that a batch calls for.
#[derive(Debug)]
pub enum GatewaySend {
    /// Send this message with the operation for single packets.
    Single(MixMessage),
    /// Send these messages, in this order, with the operation for batches.
    Batch(Vec<MixMessage>),
}

/// What the controller does after a send.
#[derive(Debug, Clone, Copy, PartialEq, Eq, Structural)]
pub enum ControllerVerdict {
    /// Go on with the next batch.
    Continue,
    /// Sends have failed `MAX_FAILURE_COUNT` times in a row: the gateway is
    /// taken for unreachable and the loop has to end. This is not an ordinary
    /// failed send and must not be reported as one.
    GatewayUnreachable,
}

/// The count of consecutive failures after one more send, given the count
/// before it. A success clears the count; a failure adds one to it, up to
/// the threshold.
pub open spec fn failures_after_send(failures: nat, success: bool) -> nat {
    if success {
        0
    } else if failures >= MAX_FAILURE_COUNT {
        MAX_FAILURE_COUNT as nat
    } else {
        failures + 1
    }
}

/// The verdict after a send that left the count at `failures`.
pub open spec fn verdict_at(failures: nat) -> ControllerVerdict {
    if failures >= MAX_FAILURE_COUNT {
        ControllerVerdict::GatewayUnreachable
    } else {
        ControllerVerdict::Continue
    }
}

/// The count of consecutive failures after a run of sends, of which
/// `outcomes` says in order which succeeded.
pub open spec fn failures_after(failures: nat, outcomes: Seq<bool>) -> nat
    decreases outcomes.len(),
{
    if outcomes.len() == 0 {
        failures
    } else {
        failures_after_send(failures_after(failures, outcomes.drop_last()), outcomes.last())
    }
}

/// The dispatch policy and its one piece of state, the number of sends that
/// have failed in a row.
#[derive(Debug)]
pub struct MixTrafficController {
    consecutive_gateway_failure_count: usize,
}

impl View for MixTrafficController {
    type V = nat;

    /// The number of sends that have failed in a row.
    closed spec fn view(&self) -> nat {
        self.consecutive_gateway_failure_count as nat
    }
}

impl MixTrafficController {
    #[verifier::type_invariant]
    spec fn well_formed(self) -> bool {
        self.consecutive_gateway_failure_count <= MAX_FAILURE_COUNT
    }

    /// A controller that has seen no failure.
    pub fn new() -> (controller: MixTrafficController)
        ensures
            controller@ == 0,
    {
        MixTrafficController { consecutive_gateway_failure_count: 0 }
    }

    /// The number of sends that have failed in a row.
    pub fn consecutive_gateway_failure_count(&self) -> (count: usize)
        ensures
            count == self@,
            count <= MAX_FAILURE_COUNT,
    {
        proof {
            use_type_invariant(self);
        }
        self.consecutive_gateway_failure_count
    }

    /// Decides how a batch goes out: a batch of one message as a single
    /// send, any other batch as one batch send with the messages in their
    /// order. Either way the batch calls for exactly one operation.
    pub fn on_messages(&self, mix_messages: Vec<MixMessage>) -> (send: GatewaySend)
        requires
            mix_messages@.len() > 0,
        ensures
            mix_messages@.len() == 1 ==> send == GatewaySend::Single(mix_messages@[0]),
            mix_messages@.len() != 1 ==> send == GatewaySend::Batch(mix_messages),
    {
        let mut mix_messages = mix_messages;
        if mix_messages.len() == 1 {
            match mix_messages.pop() {
                Some(mix_message) => GatewaySend::Single(mix_message),
                None => GatewaySend::Batch(mix_messages),
            }
        } else {
            GatewaySend::Batch(mix_messages)
        }
    }

    /// Takes note of how a send ended. A success clears the count of
    /// failures. A failure adds to it, and the send that brings it to
    /// `MAX_FAILURE_COUNT` gives the verdict that the gateway is unreachable;
    /// so does every failure after that one, until a send succeeds.
    pub fn on_send_result(&mut self, success: bool) -> (verdict: ControllerVerdict)
        ensures
            final(self)@ == failures_after_send(old(self)@, success),
            verdict == verdict_at(final(self)@),
    {
        proof {
            use_type_invariant(&*self);
        }
        if success {
            self.consecutive_gateway_failure_count = 0;
            ControllerVerdict::Continue
        } else {
            if self.consecutive_gateway_failure_count < MAX_FAILURE_COUNT {
                self.consecutive_gateway_failure_count = self.consecutive_gateway_failure_count + 1;
            }
            if self.consecutive_gateway_failure_count == MAX_FAILURE_COUNT {
                ControllerVerdict::GatewayUnreachable
            } else {
                ControllerVerdict::Continue
            }
        }
    }
}

/// Whether the last `n` of `outcomes` are all failures.
pub open spec fn ends_with_failures(outcomes: Seq<bool>, n: nat) -> bool {
    &&& n <= outcomes.len()
    &&& forall|i: int| outcomes.len() - n <= i < outcomes.len() ==> !outcomes[i]
}

/// The count never passes the threshold.
pub proof fn lemma_failures_bounded(failures: nat, outcomes: Seq<bool>)
    requires
        failures <= MAX_FAILURE_COUNT,
    ensures
        failures_after(failures, outcomes) <= MAX_FAILURE_COUNT,
    decreases outcomes.len(),
{
    if outcomes.len() > 0 {
        lemma_failures_bounded(failures, outcomes.drop_last());
    }
}

/// A controller that starts without failures counts, after any run of sends,
/// the failures that the run ends with, up to the threshold: `n` below the
/// threshold is the count exactly when the run ends with `n` failures and not
/// with `n + 1`.
pub proof fn lemma_count_is_trailing_failures(outcomes: Seq<bool>, n: nat)
    requires
        n < MAX_FAILURE_COUNT,
    ensures
        failures_after(0, outcomes) == n <==> ends_with_failures(outcomes, n)
            && !ends_with_failures(outcomes, n + 1),
    decreases outcomes.len(),
{
    if outcomes.len() == 0 {
    } else {
        let before = outcomes.drop_last();
        lemma_failures_bounded(0, before);
        if outcomes.last() {
            assert(!ends_with_failures(outcomes, 1)) by {
                assert(outcomes[outcomes.len() - 1]);
            }
            if n > 0 {
                assert(!ends_with_failures(outcomes, n)) by {
                    if n <= outcomes.len() {
                        assert(outcomes[outcomes.len() - 1]);
                    }
                }
            }
        } else {
            if n == 0 {
                assert(ends_with_failures(outcomes, 1));
            } else {
                lemma_count_is_trailing_failures(before, (n - 1) as nat);
                assert(ends_with_failures(outcomes, n) <==> ends_with_failures(
                    before,
                    (n - 1) as nat,
                )) by {
                    if ends_with_failures(outcomes, n) {
                        assert forall|i: int| before.len() - (n - 1) <= i < before.len() implies !before[i] by {
                            assert(before[i] == outcomes[i]);
                        }
                    }
                    if ends_with_failures(before, (n - 1) as nat) {
                        assert forall|i: int| outcomes.len() - n <= i < outcomes.len() implies !outcomes[i] by {
                            if i < before.len() {
                                assert(before[i] == outcomes[i]);
                            }
                        }
                    }
                }
                assert(ends_with_failures(outcomes, n + 1) <==> ends_with_failures(before, n)) by {
                    if ends_with_failures(outcomes, n + 1) {
                        assert forall|i: int| before.len() - n <= i < before.len() implies !before[i] by {
                            assert(before[i] == outcomes[i]);
                        }
                    }
                    if ends_with_failures(before, n) {
                        assert forall|i: int| outcomes.len() - (n + 1) <= i < outcomes.len() implies !outcomes[i] by {
                            if i < before.len() {
                                assert(before[i] == outcomes[i]);
                            }
                        }
                    }
                }
            }
        }
    }
}

/// A run of `n` failed sends and nothing else.
pub open spec fn all_failures(n: nat) -> Seq<bool> {
    Seq::new(n, |i: int| false)
}

/// A controller that starts without failures and sees `n` sends fail in a
/// row counts `n` of them, up to the threshold, and takes the gateway for
/// unreachable exactly from the failure that reaches the threshold on. A
/// success after any number of failures clears the count and lets the loop
/// go on.
pub proof fn lemma_run_of_failures(n: nat)
    ensures
        failures_after(0, all_failures(n)) == if n < MAX_FAILURE_COUNT {
            n
        } else {
            MAX_FAILURE_COUNT as nat
        },
        verdict_at(failures_after(0, all_failures(n))) == ControllerVerdict::GatewayUnreachable
            <==> n >= MAX_FAILURE_COUNT,
        failures_after(0, all_failures(n).push(true)) == 0,
        verdict_at(failures_after(0, all_failures(n).push(true))) == ControllerVerdict::Continue,
    decreases n,
{
    if n > 0 {
        lemma_run_of_failures((n - 1) as nat);
        assert(all_failures(n).drop_last() =~= all_failures((n - 1) as nat));
    }
    assert(all_failures(n).push(true).drop_last() =~= all_failures(n));
}

/// A controller that starts without failures gives the verdict that the
/// gateway is unreachable after exactly those runs of sends that end with
/// `MAX_FAILURE_COUNT` failures in a row.
pub proof fn lemma_unreachable_iff_threshold_failures_in_a_row(outcomes: Seq<bool>)
    ensures
        verdict_at(failures_after(0, outcomes)) == ControllerVerdict::GatewayUnreachable
            <==> ends_with_failures(outcomes, MAX_FAILURE_COUNT as nat),
    decreases outcomes.len(),
{
    lemma_failures_bounded(0, outcomes);
    if outcomes.len() == 0 {
    } else {
        let before = outcomes.drop_last();
        lemma_failures_bounded(0, before);
        let threshold = MAX_FAILURE_COUNT as nat;
        if outcomes.last() {
            assert(!ends_with_failures(outcomes, threshold)) by {
                if threshold <= outcomes.len() {
                    assert(outcomes[outcomes.len() - 1]);
                }
            }
        } else {
            lemma_unreachable_iff_threshold_failures_in_a_row(before);
            lemma_count_is_trailing_failures(before, (threshold - 1) as nat);
            let count = failures_after(0, before);
            // the count after the last send is the threshold exactly when the
            // count before it was one less, or was the threshold already
            assert(ends_with_failures(outcomes, threshold) <==> ends_with_failures(
                before,
                (threshold - 1) as nat,
            )) by {
                if ends_with_failures(outcomes, threshold) {
                    assert forall|i: int| before.len() - (threshold - 1) <= i < before.len() implies !before[i] by {
                        assert(before[i] == outcomes[i]);
                    }
                }
                if ends_with_failures(before, (threshold - 1) as nat) {
                    assert forall|i: int| outcomes.len() - threshold <= i < outcomes.len() implies !outcomes[i] by {
                        if i < before.len() {
                            assert(before[i] == outcomes[i]);
                        }
                    }
                }
            }
            if ends_with_failures(before, threshold) {
                assert(ends_with_failures(before, (threshold - 1) as nat));
            }
        }
    }
}

} // verus!
