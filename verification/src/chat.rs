//! The reader-side chat algorithm: gating a message-creation request on
//! channel existence and membership, fanning a created message out to every
//! currently connected subscriber, and delivering exactly one acknowledgement
//! to the requester's current handle.

use vstd::prelude::*;
use vstd::string::StringExecFns;

use crate::ack::{AckView, WebsocketAck};
use crate::channel::ChatChannel;
use crate::message::{ChatMessage, MessageView};
use crate::packet::{ResponseView, WebSocketResponse};
use crate::registry::{conns_injective, view_wf, ConnectionRegistry};

verus! {

/// How the validation of a `CreateMessage` request can come out.
pub enum CreateGate {
    /// No channel with the requested id exists: answer 404, do nothing else.
    ChannelNotFound,
    /// The requester is not in the channel's subscriber set: answer 400, do
    /// nothing else.
    NotSubscribed,
    /// The message may be persisted and fanned out.
    Proceed,
}

/// Step one and two of the `CreateMessage` algorithm: a missing channel is
/// rejected with 404, a channel the requester is not subscribed to with 400;
/// otherwise the request proceeds to persistence.
pub fn create_message_gate(channel: Option<&ChatChannel>, requester: &String) -> (r: CreateGate)
    ensures
        match channel {
            None => r is ChannelNotFound,
            Some(c) => if c@.subscribers.contains(requester@) {
                r is Proceed
            } else {
                r is NotSubscribed
            },
        },
{
    match channel {
        None => CreateGate::ChannelNotFound,
        Some(c) => {
            if c.is_subscriber(requester) {
                CreateGate::Proceed
            } else {
                CreateGate::NotSubscribed
            }
        },
    }
}

/// The acknowledgement sent when no channel with the requested id exists.
pub fn channel_not_found_ack() -> (r: WebsocketAck)
    ensures
        r@.status_code == 404,
        r@.msg == "Chat channel does not exist"@,
{
    WebsocketAck { status_code: 404, msg: String::from_str("Chat channel does not exist") }
}

/// The acknowledgement sent when the requester is not subscribed to the
/// channel.
pub fn not_subscribed_ack() -> (r: WebsocketAck)
    ensures
        r@.status_code == 400,
        r@.msg == "You are not in this chat channel"@,
{
    WebsocketAck { status_code: 400, msg: String::from_str("You are not in this chat channel") }
}

/// The acknowledgement sent when persistence fails.
pub fn persist_failed_ack() -> (r: WebsocketAck)
    ensures
        r@.status_code == 500,
        r@.msg == "Failed to create a chat message with an unknown reason"@,
{
    WebsocketAck {
        status_code: 500,
        msg: String::from_str("Failed to create a chat message with an unknown reason"),
    }
}

/// The acknowledgement sent when a message was created and fanned out.
pub fn created_ack(message_id: &String) -> (r: WebsocketAck)
    ensures
        r@.status_code == 200,
        r@.msg == "Created chat message with ID "@ + message_id@,
{
    let mut msg = String::from_str("Created chat message with ID ");
    msg.append(message_id.as_str());
    WebsocketAck { status_code: 200, msg }
}

/// The queue contents after one message is fanned out to the given
/// subscribers, in their stored order: each subscriber with a live handle
/// finds the message appended to that handle's queue; offline subscribers
/// are skipped silently.
pub open spec fn fanout_queues(
    queues: Seq<Seq<ResponseView>>,
    conns: Map<Seq<char>, int>,
    subs: Seq<Seq<char>>,
    m: MessageView,
) -> Seq<Seq<ResponseView>>
    decreases subs.len(),
{
    if subs.len() == 0 {
        queues
    } else {
        let rest = fanout_queues(queues, conns, subs.drop_last(), m);
        let u = subs.last();
        if conns.contains_key(u) && 0 <= conns[u] < rest.len() {
            rest.update(conns[u], rest[conns[u]].push(ResponseView::SendChatMessage(m)))
        } else {
            rest
        }
    }
}

/// The queue contents after one acknowledgement is delivered to the given
/// user's current handle; a disconnected user receives nothing.
pub open spec fn deliver_ack(
    queues: Seq<Seq<ResponseView>>,
    conns: Map<Seq<char>, int>,
    u: Seq<char>,
    a: AckView,
) -> Seq<Seq<ResponseView>> {
    if conns.contains_key(u) && 0 <= conns[u] < queues.len() {
        queues.update(conns[u], queues[conns[u]].push(ResponseView::SendAck(a)))
    } else {
        queues
    }
}

/// Fanning out never changes how many queues exist.
pub proof fn lemma_fanout_len(
    queues: Seq<Seq<ResponseView>>,
    conns: Map<Seq<char>, int>,
    subs: Seq<Seq<char>>,
    m: MessageView,
)
    ensures
        fanout_queues(queues, conns, subs, m).len() == queues.len(),
    decreases subs.len(),
{
    if subs.len() > 0 {
        lemma_fanout_len(queues, conns, subs.drop_last(), m);
    }
}

/// Step four of the `CreateMessage` algorithm: pushes the created message
/// onto the queue of every subscriber with a live handle, in the
/// subscribers' stored order, resolving each handle at send time. A
/// subscriber without a live handle is skipped; no failure of one delivery
/// affects the others.
pub fn fanout(
    registry: &mut ConnectionRegistry,
    subscribers: &Vec<String>,
    message: &ChatMessage,
)
    requires
        old(registry).wf(),
    ensures
        final(registry).wf(),
        final(registry)@.conns == old(registry)@.conns,
        final(registry)@.queues =~~= fanout_queues(
            old(registry)@.queues,
            old(registry)@.conns,
            subscribers.deep_view(),
            message@,
        ),
        view_wf(final(registry)@),
{
    let ghost q0 = registry@.queues;
    let ghost conns = registry@.conns;
    let ghost subs = subscribers.deep_view();
    let n = subscribers.len();
    let mut i: usize = 0;
    proof {
        registry.lemma_view_wf();
        assert(subs.take(0) =~= Seq::<Seq<char>>::empty());
    }
    while i < n
        invariant
            i <= n,
            n == subscribers@.len(),
            subs == subscribers.deep_view(),
            registry.wf(),
            registry@.conns == conns,
            registry@.queues =~~= fanout_queues(q0, conns, subs.take(i as int), message@),
            view_wf(registry@),
        decreases n - i,
    {
        let response = WebSocketResponse::SendChatMessage(message.duplicate());
        proof {
            assert(response@ == ResponseView::SendChatMessage(message@));
            assert(subs.take(i + 1).drop_last() =~= subs.take(i as int));
            assert(subs.take(i + 1).last() == subs[i as int]);
            assert(subs[i as int] == subscribers@[i as int]@);
        }
        registry.send_to_user(&subscribers[i], response);
        proof {
            assert(registry@.queues =~~= fanout_queues(q0, conns, subs.take(i + 1), message@));
        }
        i = i + 1;
    }
    proof {
        assert(subs.take(n as int) =~= subs);
    }
}

/// Step five of the `CreateMessage` algorithm: exactly one acknowledgement
/// is sent, to the requester's current handle as resolved now — not the
/// handle the request arrived on. A requester who disconnected in the
/// meantime receives nothing.
pub fn send_ack(registry: &mut ConnectionRegistry, requester: &String, ack: WebsocketAck)
    requires
        old(registry).wf(),
    ensures
        final(registry).wf(),
        final(registry)@.conns == old(registry)@.conns,
        final(registry)@.queues =~~= deliver_ack(
            old(registry)@.queues,
            old(registry)@.conns,
            requester@,
            ack@,
        ),
        view_wf(final(registry)@),
{
    proof {
        registry.lemma_view_wf();
    }
    registry.send_to_user(requester, WebSocketResponse::SendAck(ack));
}

/// What one queue holds after a fanout: the queue of a live subscriber
/// handle gets the message appended exactly once; every other queue — an
/// offline subscriber's former queue, a displaced handle, anyone not
/// subscribed — is untouched.
pub proof fn lemma_fanout_effect(
    queues: Seq<Seq<ResponseView>>,
    conns: Map<Seq<char>, int>,
    subs: Seq<Seq<char>>,
    m: MessageView,
    j: int,
)
    requires
        0 <= j < queues.len(),
        forall|u: Seq<char>| #[trigger] conns.contains_key(u) ==> 0 <= conns[u] < queues.len(),
        conns_injective(conns),
        crate::channel::distinct_ids(subs),
    ensures
        (exists|u: Seq<char>|
            subs.contains(u) && #[trigger] conns.contains_key(u) && conns[u] == j)
            ==> fanout_queues(queues, conns, subs, m)[j] =~= queues[j].push(
            ResponseView::SendChatMessage(m),
        ),
        !(exists|u: Seq<char>|
            subs.contains(u) && #[trigger] conns.contains_key(u) && conns[u] == j)
            ==> fanout_queues(queues, conns, subs, m)[j] == queues[j],
    decreases subs.len(),
{
    lemma_fanout_len(queues, conns, subs, m);
    if subs.len() > 0 {
        let rest = fanout_queues(queues, conns, subs.drop_last(), m);
        let u = subs.last();
        lemma_fanout_len(queues, conns, subs.drop_last(), m);
        assert(crate::channel::distinct_ids(subs.drop_last()));
        lemma_fanout_effect(queues, conns, subs.drop_last(), m, j);
        if exists|w: Seq<char>|
            subs.contains(w) && #[trigger] conns.contains_key(w) && conns[w] == j {
            let w = choose|w: Seq<char>|
                subs.contains(w) && #[trigger] conns.contains_key(w) && conns[w] == j;
            if w == u {
                // the last subscriber owns queue j; no earlier one does
                assert(!(exists|x: Seq<char>|
                    subs.drop_last().contains(x) && #[trigger] conns.contains_key(x) && conns[x]
                        == j)) by {
                    if exists|x: Seq<char>|
                        subs.drop_last().contains(x) && #[trigger] conns.contains_key(x)
                            && conns[x] == j {
                        let x = choose|x: Seq<char>|
                            subs.drop_last().contains(x) && #[trigger] conns.contains_key(x)
                                && conns[x] == j;
                        assert(x == w);
                        let k = choose|k: int|
                            0 <= k < subs.drop_last().len() && subs.drop_last()[k] == x;
                        assert(subs[k] == x);
                        assert(subs[subs.len() - 1] == u);
                    }
                }
                assert(rest[j] == queues[j]);
            } else {
                let k = choose|k: int| 0 <= k < subs.len() && subs[k] == w;
                assert(k < subs.len() - 1);
                assert(subs.drop_last()[k] == w);
                assert(subs.drop_last().contains(w));
                if conns.contains_key(u) && conns[u] == j {
                    assert(u == w);
                }
                assert(fanout_queues(queues, conns, subs, m)[j] == rest[j]);
            }
        } else {
            assert(!(exists|x: Seq<char>|
                subs.drop_last().contains(x) && #[trigger] conns.contains_key(x) && conns[x]
                    == j)) by {
                if exists|x: Seq<char>|
                    subs.drop_last().contains(x) && #[trigger] conns.contains_key(x) && conns[x]
                        == j {
                    let x = choose|x: Seq<char>|
                        subs.drop_last().contains(x) && #[trigger] conns.contains_key(x)
                            && conns[x] == j;
                    let k = choose|k: int|
                        0 <= k < subs.drop_last().len() && subs.drop_last()[k] == x;
                    assert(subs[k] == x);
                    assert(subs.contains(x));
                }
            }
            if conns.contains_key(u) && conns[u] == j {
                assert(subs.contains(u));
            }
        }
    }
}

/// The acknowledgement a rejected `CreateMessage` request is answered with.
pub open spec fn gate_ack_view(gate: CreateGate) -> AckView {
    match gate {
        CreateGate::ChannelNotFound => AckView {
            status_code: 404,
            msg: "Chat channel does not exist"@,
        },
        CreateGate::NotSubscribed => AckView {
            status_code: 400,
            msg: "You are not in this chat channel"@,
        },
        CreateGate::Proceed => AckView { status_code: 0, msg: Seq::empty() },
    }
}

/// Answers a rejected `CreateMessage` request: the matching acknowledgement
/// goes to the requester's current handle, and nothing else happens — no
/// message is persisted and no queue but the requester's changes.
pub fn reject_create_message(
    registry: &mut ConnectionRegistry,
    requester: &String,
    gate: CreateGate,
)
    requires
        old(registry).wf(),
        !(gate is Proceed),
    ensures
        final(registry).wf(),
        final(registry)@.conns == old(registry)@.conns,
        final(registry)@.queues =~~= deliver_ack(
            old(registry)@.queues,
            old(registry)@.conns,
            requester@,
            gate_ack_view(gate),
        ),
        view_wf(final(registry)@),
{
    let ack = match gate {
        CreateGate::ChannelNotFound => channel_not_found_ack(),
        CreateGate::NotSubscribed => not_subscribed_ack(),
        CreateGate::Proceed => not_subscribed_ack(),
    };
    proof {
        assert(ack@ =~= gate_ack_view(gate));
    }
    send_ack(registry, requester, ack);
}

/// The acknowledgement a completed `CreateMessage` request is answered with:
/// 200 with the fresh message id on success, 500 when persistence failed.
pub open spec fn completion_ack_view(persisted: Option<MessageView>) -> AckView {
    match persisted {
        Some(m) => AckView {
            status_code: 200,
            msg: "Created chat message with ID "@ + m.id,
        },
        None => AckView {
            status_code: 500,
            msg: "Failed to create a chat message with an unknown reason"@,
        },
    }
}

/// Steps three to five of the `CreateMessage` algorithm, for a validated
/// request whose persistence was attempted. A persisted message is fanned out
/// to every currently connected subscriber, then exactly one 200
/// acknowledgement goes to the requester's current handle; a persistence
/// failure skips the fanout and acknowledges with 500. The acknowledgement
/// is sent only after every fanout attempt finished.
pub fn complete_create_message(
    registry: &mut ConnectionRegistry,
    requester: &String,
    subscribers: &Vec<String>,
    persisted: Option<&ChatMessage>,
)
    requires
        old(registry).wf(),
    ensures
        final(registry).wf(),
        final(registry)@.conns == old(registry)@.conns,
        final(registry)@.queues =~~= (match persisted {
            Some(m) => deliver_ack(
                fanout_queues(
                    old(registry)@.queues,
                    old(registry)@.conns,
                    subscribers.deep_view(),
                    m@,
                ),
                old(registry)@.conns,
                requester@,
                completion_ack_view(Some(m@)),
            ),
            None => deliver_ack(
                old(registry)@.queues,
                old(registry)@.conns,
                requester@,
                completion_ack_view(None),
            ),
        }),
        view_wf(final(registry)@),
{
    match persisted {
        Some(message) => {
            fanout(registry, subscribers, message);
            let ack = created_ack(&message.id);
            proof {
                assert(ack@ =~= completion_ack_view(Some(message@)));
            }
            send_ack(registry, requester, ack);
        },
        None => {
            let ack = persist_failed_ack();
            proof {
                assert(ack@ =~= completion_ack_view(None::<MessageView>));
            }
            send_ack(registry, requester, ack);
        },
    }
}

/// The queue contents after a page of history is delivered to one user's
/// current handle, in page order; a disconnected user receives nothing.
pub open spec fn deliver_messages(
    queues: Seq<Seq<ResponseView>>,
    conns: Map<Seq<char>, int>,
    u: Seq<char>,
    msgs: Seq<MessageView>,
) -> Seq<Seq<ResponseView>>
    decreases msgs.len(),
{
    if msgs.len() == 0 {
        queues
    } else {
        let rest = deliver_messages(queues, conns, u, msgs.drop_last());
        if conns.contains_key(u) && 0 <= conns[u] < rest.len() {
            rest.update(
                conns[u],
                rest[conns[u]].push(ResponseView::SendChatMessage(msgs.last())),
            )
        } else {
            rest
        }
    }
}

/// Pushes a page of history onto the requester's current handle, in page
/// order. A requester who disconnected receives nothing.
pub fn send_messages(
    registry: &mut ConnectionRegistry,
    requester: &String,
    messages: &Vec<ChatMessage>,
)
    requires
        old(registry).wf(),
    ensures
        final(registry).wf(),
        final(registry)@.conns == old(registry)@.conns,
        final(registry)@.queues =~~= deliver_messages(
            old(registry)@.queues,
            old(registry)@.conns,
            requester@,
            messages@.map_values(|m: ChatMessage| m@),
        ),
        view_wf(final(registry)@),
{
    let ghost q0 = registry@.queues;
    let ghost conns = registry@.conns;
    let ghost msgs = messages@.map_values(|m: ChatMessage| m@);
    let n = messages.len();
    let mut i: usize = 0;
    proof {
        registry.lemma_view_wf();
        assert(msgs.take(0) =~= Seq::<MessageView>::empty());
    }
    while i < n
        invariant
            i <= n,
            n == messages@.len(),
            msgs == messages@.map_values(|m: ChatMessage| m@),
            registry.wf(),
            registry@.conns == conns,
            registry@.queues =~~= deliver_messages(q0, conns, requester@, msgs.take(i as int)),
            view_wf(registry@),
        decreases n - i,
    {
        let response = WebSocketResponse::SendChatMessage(messages[i].duplicate());
        proof {
            assert(response@ == ResponseView::SendChatMessage(msgs[i as int]));
            assert(msgs.take(i + 1).drop_last() =~= msgs.take(i as int));
            assert(msgs.take(i + 1).last() == msgs[i as int]);
        }
        registry.send_to_user(requester, response);
        proof {
            assert(registry@.queues =~~= deliver_messages(q0, conns, requester@, msgs.take(i + 1)));
        }
        i = i + 1;
    }
    proof {
        assert(msgs.take(n as int) =~= msgs);
    }
}

/// What one queue holds after a successful `CreateMessage` completes: a
/// subscriber's live handle receives the message exactly once; the
/// requester's current handle additionally receives exactly one 200
/// acknowledgement, after the message; every other queue — an offline
/// subscriber's, a displaced handle's, an outsider's — is untouched. An
/// offline subscriber thus skips delivery without affecting anyone else's.
pub proof fn lemma_create_message_delivery(
    queues: Seq<Seq<ResponseView>>,
    conns: Map<Seq<char>, int>,
    subs: Seq<Seq<char>>,
    m: MessageView,
    requester: Seq<char>,
    j: int,
)
    requires
        0 <= j < queues.len(),
        forall|u: Seq<char>| #[trigger] conns.contains_key(u) ==> 0 <= conns[u] < queues.len(),
        conns_injective(conns),
        crate::channel::distinct_ids(subs),
    ensures
        ({
            let q2 = deliver_ack(
                fanout_queues(queues, conns, subs, m),
                conns,
                requester,
                completion_ack_view(Some(m)),
            );
            let gets_message = exists|u: Seq<char>|
                subs.contains(u) && #[trigger] conns.contains_key(u) && conns[u] == j;
            let gets_ack = conns.contains_key(requester) && conns[requester] == j;
            if gets_message && gets_ack {
                q2[j] =~= queues[j].push(ResponseView::SendChatMessage(m)).push(
                    ResponseView::SendAck(completion_ack_view(Some(m))),
                )
            } else if gets_message {
                q2[j] =~= queues[j].push(ResponseView::SendChatMessage(m))
            } else if gets_ack {
                q2[j] =~= queues[j].push(ResponseView::SendAck(completion_ack_view(Some(m))))
            } else {
                q2[j] == queues[j]
            }
        }),
{
    lemma_fanout_len(queues, conns, subs, m);
    lemma_fanout_effect(queues, conns, subs, m, j);
    let q1 = fanout_queues(queues, conns, subs, m);
    if conns.contains_key(requester) && conns[requester] != j {
        lemma_fanout_effect(queues, conns, subs, m, conns[requester]);
    }
}

} // verus!
