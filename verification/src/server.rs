//! The chat server: the connection registry and the store, tied together by
//! the inbound request dispatch. One instance is shared by every connection;
//! the surrounding runtime serializes access to it.

use vstd::prelude::*;

use crate::chat::{
    complete_create_message, completion_ack_view, create_message_gate, deliver_ack,
    deliver_messages, fanout_queues, gate_ack_view, reject_create_message, send_messages,
    CreateGate,
};
use crate::message::{CreateMessageSchema, CreateMessageView};
use crate::packet::{
    RequestMessagesSchema, RequestMessagesView, RequestView, ResponseView, WebSocketRequest,
};
use crate::registry::{conns_injective, view_wf, ConnectionRegistry, RegistryView};
use crate::store::{
    built_message, cursor_pos, find_channel, message_page, store_view_wf, ChatStore, StoreView,
};
use crate::text::decimal_rep;

verus! {

/// Everything the chat transport works on: who is connected, and what is
/// stored.
pub struct ChatServer {
    pub registry: ConnectionRegistry,
    pub store: ChatStore,
}

/// What handling a `CreateMessage` request does, as a relation between the
/// state before and after. A missing channel or a requester outside the
/// subscriber set leaves the store untouched and answers with the matching
/// error acknowledgement; otherwise exactly one message is persisted, fanned
/// out to every connected subscriber, and answered with exactly one 200
/// acknowledgement to the requester's current handle, after the fanout.
pub open spec fn create_message_post(
    pre_store: StoreView,
    pre_reg: RegistryView,
    post_store: StoreView,
    post_reg: RegistryView,
    requester: Seq<char>,
    data: CreateMessageView,
) -> bool {
    &&& post_reg.conns == pre_reg.conns
    &&& post_store.channels == pre_store.channels
    &&& post_store.clock == pre_store.clock
    &&& match find_channel(pre_store.channels, data.channel_id) {
        None => {
            &&& post_store == pre_store
            &&& post_reg.queues == deliver_ack(
                pre_reg.queues,
                pre_reg.conns,
                requester,
                gate_ack_view(CreateGate::ChannelNotFound),
            )
        },
        Some(ci) => {
            if !pre_store.channels[ci].subscribers.contains(requester) {
                &&& post_store == pre_store
                &&& post_reg.queues == deliver_ack(
                    pre_reg.queues,
                    pre_reg.conns,
                    requester,
                    gate_ack_view(CreateGate::NotSubscribed),
                )
            } else {
                let m = built_message(
                    data,
                    requester,
                    decimal_rep(pre_store.next_id as nat),
                    pre_store.clock,
                );
                &&& post_store.messages == pre_store.messages.push(m)
                &&& post_store.next_id == pre_store.next_id + 1
                &&& post_reg.queues == deliver_ack(
                    fanout_queues(
                        pre_reg.queues,
                        pre_reg.conns,
                        pre_store.channels[ci].subscribers,
                        m,
                    ),
                    pre_reg.conns,
                    requester,
                    completion_ack_view(Some(m)),
                )
            }
        },
    }
}

/// What handling a `GetChatState` request does: the store is read, not
/// changed, and the requester's current handle receives the page of history
/// — up to the requested number of the channel's messages strictly older
/// than the cursor, newest first.
pub open spec fn get_chat_state_post(
    pre_store: StoreView,
    pre_reg: RegistryView,
    post_store: StoreView,
    post_reg: RegistryView,
    requester: Seq<char>,
    request: RequestMessagesView,
) -> bool {
    &&& post_store == pre_store
    &&& post_reg.conns == pre_reg.conns
    &&& post_reg.queues == deliver_messages(
        pre_reg.queues,
        pre_reg.conns,
        requester,
        message_page(
            pre_store.messages,
            request.channel_id,
            cursor_pos(pre_store.messages, request.starting_message),
            request.message_count,
        ),
    )
}

impl ChatServer {
    /// Both halves are well-formed.
    pub open spec fn wf(&self) -> bool {
        &&& self.registry.wf()
        &&& self.store.wf()
    }

    /// A fresh server: nobody connected, nothing stored.
    pub fn new(now: i64) -> (r: Self)
        requires
            now >= 0,
        ensures
            r.wf(),
            view_wf(r.registry@),
            r.registry@.queues == Seq::<Seq<ResponseView>>::empty(),
            r.registry@.conns == Map::<Seq<char>, int>::empty(),
            r.store@.channels.len() == 0,
            r.store@.messages.len() == 0,
            r.store@.next_id == 1,
            r.store@.clock == now as int,
    {
        ChatServer { registry: ConnectionRegistry::new(), store: ChatStore::new(now) }
    }

    /// A socket upgrade succeeded for this user: allocate a fresh handle and
    /// register it, displacing (without notice) any previous one.
    pub fn connect(&mut self, user_id: &String) -> (r: (usize, Option<usize>))
        requires
            old(self).wf(),
        ensures
            final(self).wf(),
            view_wf(final(self).registry@),
            final(self).store == old(self).store,
            r.0 as int == old(self).registry@.queues.len(),
            final(self).registry@.queues =~~= old(self).registry@.queues.push(
                Seq::<ResponseView>::empty(),
            ),
            final(self).registry@.conns =~= old(self).registry@.conns.insert(
                user_id@,
                r.0 as int,
            ),
            match r.1 {
                Some(prev) => old(self).registry@.conns.contains_key(user_id@) && prev as int
                    == old(self).registry@.conns[user_id@],
                None => !old(self).registry@.conns.contains_key(user_id@),
            },
    {
        self.registry.register(user_id)
    }

    /// A connection ended: deregister the user. Idempotent, so the reader's
    /// own cleanup and the actor's defensive cleanup can both run.
    pub fn disconnect(&mut self, user_id: &String)
        requires
            old(self).wf(),
        ensures
            final(self).wf(),
            view_wf(final(self).registry@),
            final(self).store == old(self).store,
            final(self).registry@.queues == old(self).registry@.queues,
            final(self).registry@.conns =~= old(self).registry@.conns.remove(user_id@),
    {
        self.registry.remove(user_id)
    }

    /// The full `CreateMessage` algorithm against the in-memory store:
    /// fetch the channel, gate on existence and membership, persist, fan
    /// out, and acknowledge to the requester's current handle.
    pub fn handle_create_message(&mut self, requester: &String, data: CreateMessageSchema)
        requires
            old(self).wf(),
            old(self).store@.next_id < u64::MAX,
        ensures
            final(self).wf(),
            view_wf(final(self).registry@),
            create_message_post(
                old(self).store@,
                old(self).registry@,
                final(self).store@,
                final(self).registry@,
                requester@,
                data@,
            ),
    {
        let channel = match self.store.get_chat_channel_by_id(&data.channel_id) {
            Ok(c) => Some(c),
            Err(_) => None,
        };
        let gate = create_message_gate(channel.as_ref(), requester);
        match gate {
            CreateGate::ChannelNotFound => {
                reject_create_message(&mut self.registry, requester, gate);
            },
            CreateGate::NotSubscribed => {
                reject_create_message(&mut self.registry, requester, gate);
            },
            CreateGate::Proceed => {
                let c = channel.unwrap();
                let message = self.store.insert_chat_message(data, requester);
                complete_create_message(
                    &mut self.registry,
                    requester,
                    &c.subscribers,
                    Some(&message),
                );
                proof {
                    assert(c.subscribers.deep_view() =~~= old(
                        self,
                    ).store@.channels[find_channel(old(self).store@.channels, data@.channel_id)->Some_0].subscribers);
                }
            },
        }
    }

    /// Answers a history request: the page is resolved against the store and
    /// delivered to the requester's current handle.
    pub fn handle_get_chat_state(&mut self, requester: &String, request: &RequestMessagesSchema)
        requires
            old(self).wf(),
        ensures
            final(self).wf(),
            view_wf(final(self).registry@),
            get_chat_state_post(
                old(self).store@,
                old(self).registry@,
                final(self).store@,
                final(self).registry@,
                requester@,
                request@,
            ),
    {
        let page = self.store.get_chat_state(request);
        send_messages(&mut self.registry, requester, &page);
    }

    /// Dispatches one parsed inbound request. Frames that do not parse never
    /// reach this point: the connection's reader drops them and keeps the
    /// socket open.
    pub fn handle_request(&mut self, requester: &String, request: WebSocketRequest)
        requires
            old(self).wf(),
            old(self).store@.next_id < u64::MAX,
        ensures
            final(self).wf(),
            view_wf(final(self).registry@),
            match request@ {
                RequestView::CreateMessage(data) => create_message_post(
                    old(self).store@,
                    old(self).registry@,
                    final(self).store@,
                    final(self).registry@,
                    requester@,
                    data,
                ),
                RequestView::GetChatState(req) => get_chat_state_post(
                    old(self).store@,
                    old(self).registry@,
                    final(self).store@,
                    final(self).registry@,
                    requester@,
                    req,
                ),
            },
    {
        match request {
            WebSocketRequest::CreateMessage(data) => {
                self.handle_create_message(requester, data);
            },
            WebSocketRequest::GetChatState(req) => {
                self.handle_get_chat_state(requester, &req);
            },
        }
    }
}

/// Successful fanout, per queue: after a `CreateMessage` that found its
/// channel and whose requester was subscribed, a subscriber with a live
/// handle holds the created message exactly once; the requester's current
/// handle additionally holds exactly one 200 acknowledgement, after the
/// message; every other queue — an offline subscriber's, a displaced
/// handle's, an outsider's — is exactly as it was. In particular an offline
/// subscriber is skipped without affecting anyone else's delivery or the
/// requester's acknowledgement.
pub proof fn lemma_successful_create_message_delivery(
    pre_store: StoreView,
    pre_reg: RegistryView,
    post_store: StoreView,
    post_reg: RegistryView,
    requester: Seq<char>,
    data: CreateMessageView,
    j: int,
)
    requires
        create_message_post(pre_store, pre_reg, post_store, post_reg, requester, data),
        view_wf(pre_reg),
        store_view_wf(pre_store),
        find_channel(pre_store.channels, data.channel_id) is Some,
        pre_store.channels[find_channel(pre_store.channels, data.channel_id)->Some_0].subscribers.contains(requester),
        0 <= j < pre_reg.queues.len(),
    ensures
        ({
            let ci = find_channel(pre_store.channels, data.channel_id)->Some_0;
            let subs = pre_store.channels[ci].subscribers;
            let m = built_message(
                data,
                requester,
                decimal_rep(pre_store.next_id as nat),
                pre_store.clock,
            );
            let gets_message = exists|u: Seq<char>|
                subs.contains(u) && #[trigger] pre_reg.conns.contains_key(u) && pre_reg.conns[u]
                    == j;
            let gets_ack = pre_reg.conns.contains_key(requester) && pre_reg.conns[requester] == j;
            &&& post_store.messages == pre_store.messages.push(m)
            &&& if gets_message && gets_ack {
                post_reg.queues[j] =~= pre_reg.queues[j].push(
                    ResponseView::SendChatMessage(m),
                ).push(ResponseView::SendAck(completion_ack_view(Some(m))))
            } else if gets_message {
                post_reg.queues[j] =~= pre_reg.queues[j].push(ResponseView::SendChatMessage(m))
            } else if gets_ack {
                post_reg.queues[j] =~= pre_reg.queues[j].push(
                    ResponseView::SendAck(completion_ack_view(Some(m))),
                )
            } else {
                post_reg.queues[j] == pre_reg.queues[j]
            }
        }),
{
    let ci = find_channel(pre_store.channels, data.channel_id)->Some_0;
    let subs = pre_store.channels[ci].subscribers;
    let m = built_message(data, requester, decimal_rep(pre_store.next_id as nat), pre_store.clock);
    crate::store::lemma_find_channel_spec(pre_store.channels, data.channel_id);
    crate::chat::lemma_fanout_len(pre_reg.queues, pre_reg.conns, subs, m);
    crate::chat::lemma_create_message_delivery(
        pre_reg.queues,
        pre_reg.conns,
        subs,
        m,
        requester,
        j,
    );
}

/// Rejected requests touch nothing but the requester's acknowledgement: for
/// a `CreateMessage` against a missing channel (404) or from a user outside
/// the subscriber set (400), no message is persisted and every queue but the
/// requester's current one is exactly as it was.
pub proof fn lemma_rejected_create_message_no_side_effects(
    pre_store: StoreView,
    pre_reg: RegistryView,
    post_store: StoreView,
    post_reg: RegistryView,
    requester: Seq<char>,
    data: CreateMessageView,
    j: int,
)
    requires
        create_message_post(pre_store, pre_reg, post_store, post_reg, requester, data),
        view_wf(pre_reg),
        0 <= j < pre_reg.queues.len(),
        match find_channel(pre_store.channels, data.channel_id) {
            None => true,
            Some(ci) => !pre_store.channels[ci].subscribers.contains(requester),
        },
    ensures
        post_store == pre_store,
        !(pre_reg.conns.contains_key(requester) && pre_reg.conns[requester] == j)
            ==> post_reg.queues[j] == pre_reg.queues[j],
        (pre_reg.conns.contains_key(requester) && pre_reg.conns[requester] == j) ==> exists|
            a: crate::ack::AckView,
        |
            crate::ack::is_error_code(a.status_code) && post_reg.queues[j] == pre_reg.queues[
                j
            ].push(ResponseView::SendAck(a)),
{
    match find_channel(pre_store.channels, data.channel_id) {
        None => {
            let a = gate_ack_view(CreateGate::ChannelNotFound);
            if pre_reg.conns.contains_key(requester) && pre_reg.conns[requester] == j {
                assert(crate::ack::is_error_code(a.status_code) && post_reg.queues[j]
                    == pre_reg.queues[j].push(ResponseView::SendAck(a)));
            }
        },
        Some(ci) => {
            let a = gate_ack_view(CreateGate::NotSubscribed);
            if pre_reg.conns.contains_key(requester) && pre_reg.conns[requester] == j {
                assert(crate::ack::is_error_code(a.status_code) && post_reg.queues[j]
                    == pre_reg.queues[j].push(ResponseView::SendAck(a)));
            }
        },
    }
}

} // verus!
