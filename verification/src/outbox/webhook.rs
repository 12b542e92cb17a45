//! What reaches a webhook: the laws that lead from an outbox's configuration to
//! its deliveries.
use vstd::prelude::*;

use crate::json;
use crate::outbox::append;
use crate::outbox::envelope;
use crate::outbox::envelope::{EnvelopeView, LifecycleEvent};
use crate::outbox::error::OutboxError;
use crate::outbox::queue;
use crate::outbox::queue::{OutboxInner, WebhookDelivery};
use crate::text;

verus! {

/// Whether `after` is what one step of an outbox makes of `before`: an event is
/// queued or taken, the writer is started, done with an event, or gone, the queue
/// is closed, a receipt is taken, or a webhook slot is taken or given back.
pub open spec fn moves(before: OutboxInner, after: OutboxInner) -> bool {
    ||| exists|event: LifecycleEvent, runtime_available: bool| #[trigger]
        queue::enqueues(before, event, runtime_available, after)
    ||| exists|runtime_available: bool|
        after == #[trigger] queue::spawned(before, runtime_available)
    ||| after == (OutboxInner { open: false, ..before })
    ||| after == (OutboxInner { queue: after.queue, delivering: true, ..before })
    ||| after == (OutboxInner { receiver: after.receiver, ..before })
    ||| after == (OutboxInner {
        delivering: false,
        appended: after.appended,
        attempted: after.attempted,
        ..before
    })
    ||| after == (OutboxInner { receipt_taken: after.receipt_taken, ..before })
    ||| after == (OutboxInner { webhook_busy: after.webhook_busy, ..before })
}

/// Whether an outbox went through `states` step by step.
pub open spec fn goes_through(states: Seq<OutboxInner>) -> bool {
    &&& states.len() > 0
    &&& forall|i: int| 0 < i < states.len() ==> moves(states[i - 1], #[trigger] states[i])
}

proof fn lemma_webhook_stays(states: Seq<OutboxInner>, n: int)
    requires
        goes_through(states),
        0 <= n < states.len(),
    ensures
        states[n].webhook == states[0].webhook,
        states[n].path == states[0].path,
    decreases n,
{
    if n > 0 {
        lemma_webhook_stays(states, n - 1);
        assert(moves(states[n - 1], states[n]));
    }
}

/// A delivery is started exactly where there is a webhook and fewer than four
/// deliveries are under way. It goes to the webhook's URL with the webhook's
/// token, and its body gives the envelope's time and the envelope itself. It
/// takes one slot, and nothing else of the outbox changes.
pub proof fn law_deliveries_follow_the_webhook(
    before: OutboxInner,
    e: EnvelopeView,
    result: Result<(), OutboxError>,
    delivery: Option<WebhookDelivery>,
    after: OutboxInner,
)
    requires
        queue::delivers(before, e, result, delivery, after),
    ensures
        delivery is Some <==> before.webhook is Some && before.webhook_busy < 4,
        delivery is Some ==> {
            &&& delivery->0.url@ == before.webhook->0.url@
            &&& delivery->0.token is Some <==> before.webhook->0.token is Some
            &&& delivery->0.token is Some ==> delivery->0.token->0@ == before.webhook->0.token->0@
            &&& json::json_text(delivery->0.payload) == seq!['{'] + json::json_quoted("at"@)
                + seq![':'] + json::json_quoted(e.timestamp) + seq![','] + json::json_quoted(
                "event"@,
            ) + seq![':'] + envelope::envelope_line(e) + seq!['}']
            &&& after.webhook_busy == before.webhook_busy + 1
        },
        delivery is None ==> after.webhook_busy == before.webhook_busy,
        after == (OutboxInner { webhook_busy: after.webhook_busy, ..before }),
        result is Ok <==> append::record(e).len() <= 61440,
        result matches Err(error) ==> error is LineTooLong,
{
    if delivery is Some {
        let at = json::json_quoted("at"@) + seq![':'] + json::json_quoted(e.timestamp);
        let event = json::json_quoted("event"@) + seq![':'] + envelope::envelope_line(e);
        let texts = envelope::webhook_members(e).map_values(
            |m: (Seq<char>, Seq<char>)| json::member_text(m),
        );
        assert(texts =~= seq![at, event]);
        assert(texts.drop_last() =~= seq![at]);
        reveal_with_fuel(text::joined, 3);
        assert(json::object_text(envelope::webhook_members(e)) =~= seq!['{'] + json::json_quoted(
            "at"@,
        ) + seq![':'] + json::json_quoted(e.timestamp) + seq![','] + json::json_quoted("event"@)
            + seq![':'] + envelope::envelope_line(e) + seq!['}']);
    }
}

/// From construction to delivery: an outbox that was made with a webhook URL that
/// is not blank delivers to that URL, without its outer white space, and with the
/// token it was made with, whatever it went through in between.
pub proof fn law_deliveries_carry_what_was_configured(
    url: String,
    token: Option<String>,
    states: Seq<OutboxInner>,
    e: EnvelopeView,
    result: Result<(), OutboxError>,
    delivery: WebhookDelivery,
    after: OutboxInner,
)
    requires
        states.len() > 0,
        states[0].webhook is Some,
        states[0].webhook->0.url@ == text::trimmed(url@),
        states[0].webhook->0.token == token,
        goes_through(states),
        queue::delivers(states.last(), e, result, Some(delivery), after),
    ensures
        delivery.url@ == text::trimmed(url@),
        text::optional(delivery.token) == text::optional(token),
        delivery.token is Some <==> token is Some,
        token is Some ==> delivery.token->0@ == token->0@,
{
    lemma_webhook_stays(states, states.len() - 1);
    law_deliveries_follow_the_webhook(states.last(), e, result, Some(delivery), after);
}

/// An outbox without a webhook never starts a delivery, whatever it went through.
pub proof fn law_no_webhook_no_delivery(
    states: Seq<OutboxInner>,
    e: EnvelopeView,
    result: Result<(), OutboxError>,
    delivery: Option<WebhookDelivery>,
    after: OutboxInner,
)
    requires
        goes_through(states),
        states[0].webhook is None,
        queue::delivers(states.last(), e, result, delivery, after),
    ensures
        delivery is None,
{
    lemma_webhook_stays(states, states.len() - 1);
}

} // verus!
