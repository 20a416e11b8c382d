//! The connection registry: the process-wide map from user id to that user's
//! single live connection handle, together with every handle's outbound
//! queue.
//!
//! A handle is identified by the index of its queue; a fresh queue is
//! allocated for every registration and an index is never reused, so a
//! displaced (evicted) connection keeps its queue but can no longer be
//! reached through the registry. The registry holds at most one live handle
//! per user id, and distinct users hold distinct handles.

use vstd::prelude::*;

use crate::message::ChatMessage;
use crate::packet::{ResponseView, WebSocketResponse};

verus! {

/// One live association from a user id to the handle it is connected
/// through.
struct RegistryEntry {
    user_id: String,
    socket: usize,
}

/// The registry itself: every outbound queue ever allocated, and the live
/// user-to-handle associations.
pub struct ConnectionRegistry {
    sockets: Vec<Vec<WebSocketResponse>>,
    entries: Vec<RegistryEntry>,
}

/// Ghost model of the registry: the contents of every queue ever allocated,
/// and the map from connected user id to the index of its live queue.
#[verifier::ext_equal]
pub ghost struct RegistryView {
    pub queues: Seq<Seq<ResponseView>>,
    pub conns: Map<Seq<char>, int>,
}

/// The models of a sequence of outbound responses.
pub open spec fn responses_view(s: Seq<WebSocketResponse>) -> Seq<ResponseView> {
    s.map_values(|r: WebSocketResponse| r@)
}

/// The connection map described by a sequence of registry entries; a later
/// entry for the same user would win, though a well-formed registry never
/// holds two entries for one user.
spec fn conns_of(entries: Seq<RegistryEntry>) -> Map<Seq<char>, int>
    decreases entries.len(),
{
    if entries.len() == 0 {
        Map::empty()
    } else {
        conns_of(entries.drop_last()).insert(
            entries.last().user_id@,
            entries.last().socket as int,
        )
    }
}

/// No two distinct users share a handle.
pub open spec fn conns_injective(conns: Map<Seq<char>, int>) -> bool {
    forall|u1: Seq<char>, u2: Seq<char>|
        conns.contains_key(u1) && conns.contains_key(u2) && conns[u1] == conns[u2] ==> u1 == u2
}

/// What every registry model satisfies: each live handle names an allocated
/// queue, and no two users share one.
pub open spec fn view_wf(v: RegistryView) -> bool {
    &&& forall|u: Seq<char>| #[trigger]
        v.conns.contains_key(u) ==> 0 <= v.conns[u] < v.queues.len()
    &&& conns_injective(v.conns)
}

impl View for ConnectionRegistry {
    type V = RegistryView;

    closed spec fn view(&self) -> RegistryView {
        RegistryView {
            queues: Seq::new(self.sockets@.len(), |i: int| responses_view(self.sockets@[i]@)),
            conns: conns_of(self.entries@),
        }
    }
}

proof fn lemma_conns_of_contains(entries: Seq<RegistryEntry>, u: Seq<char>)
    ensures
        conns_of(entries).contains_key(u) <==> exists|i: int|
            0 <= i < entries.len() && entries[i].user_id@ == u,
    decreases entries.len(),
{
    if entries.len() > 0 {
        lemma_conns_of_contains(entries.drop_last(), u);
        if conns_of(entries).contains_key(u) {
            if entries.last().user_id@ != u {
                let i = choose|i: int|
                    0 <= i < entries.drop_last().len() && entries.drop_last()[i].user_id@ == u;
                assert(entries[i].user_id@ == u);
            }
        }
        if exists|i: int| 0 <= i < entries.len() && entries[i].user_id@ == u {
            let i = choose|i: int| 0 <= i < entries.len() && entries[i].user_id@ == u;
            if i < entries.len() - 1 {
                assert(entries.drop_last()[i].user_id@ == u);
            }
        }
    }
}

/// No user id occurs in two entries.
spec fn entries_distinct(entries: Seq<RegistryEntry>) -> bool {
    forall|i: int, j: int|
        0 <= i < j < entries.len() ==> entries[i].user_id@ != entries[j].user_id@
}

proof fn lemma_conns_of_get(entries: Seq<RegistryEntry>, i: int)
    requires
        entries_distinct(entries),
        0 <= i < entries.len(),
    ensures
        conns_of(entries).contains_key(entries[i].user_id@),
        conns_of(entries)[entries[i].user_id@] == entries[i].socket as int,
    decreases entries.len(),
{
    if i < entries.len() - 1 {
        assert(entries.drop_last()[i] == entries[i]);
        lemma_conns_of_get(entries.drop_last(), i);
    }
}

proof fn lemma_conns_of_remove(entries: Seq<RegistryEntry>, i: int)
    requires
        entries_distinct(entries),
        0 <= i < entries.len(),
    ensures
        conns_of(entries.remove(i)) =~= conns_of(entries).remove(entries[i].user_id@),
    decreases entries.len(),
{
    lemma_conns_of_contains(entries, entries[i].user_id@);
    lemma_conns_of_contains(entries.remove(i), entries[i].user_id@);
    lemma_conns_of_get(entries, i);
    if i == entries.len() - 1 {
        assert(entries.remove(i) =~= entries.drop_last());
        assert forall|u: Seq<char>| #[trigger]
            conns_of(entries.drop_last()).contains_key(u) implies conns_of(entries).remove(
            entries[i].user_id@,
        ).contains_key(u) && conns_of(entries.drop_last())[u] == conns_of(entries).remove(
            entries[i].user_id@,
        )[u] by {
            lemma_conns_of_contains(entries.drop_last(), u);
            let k = choose|k: int|
                0 <= k < entries.drop_last().len() && entries.drop_last()[k].user_id@ == u;
            assert(entries[k].user_id@ == u);
            assert(u != entries[i].user_id@);
        }
    } else {
        assert(entries.remove(i).last() == entries.last());
        assert(entries.remove(i).drop_last() =~= entries.drop_last().remove(i));
        assert(entries.drop_last()[i] == entries[i]);
        lemma_conns_of_remove(entries.drop_last(), i);
        assert(conns_of(entries.remove(i)) =~= conns_of(entries.drop_last()).remove(
            entries[i].user_id@,
        ).insert(entries.last().user_id@, entries.last().socket as int));
        assert(entries[i].user_id@ != entries.last().user_id@);
    }
}

impl ConnectionRegistry {
    /// Well-formedness: entry users are distinct, every named queue exists,
    /// and no two entries share a queue. Established by `new` and preserved
    /// by every operation; its content stays internal to the registry.
    pub closed spec fn wf(&self) -> bool {
        &&& entries_distinct(self.entries@)
        &&& forall|i: int|
            0 <= i < self.entries@.len() ==> (#[trigger] self.entries@[i]).socket
                < self.sockets@.len()
        &&& forall|i: int, j: int|
            0 <= i < j < self.entries@.len() ==> self.entries@[i].socket
                != self.entries@[j].socket
    }

    /// A well-formed registry has a well-formed model.
    pub proof fn lemma_view_wf(&self)
        requires
            self.wf(),
        ensures
            view_wf(self@),
    {
        assert forall|u: Seq<char>| #[trigger] self@.conns.contains_key(u) implies 0
            <= self@.conns[u] < self@.queues.len() by {
            lemma_conns_of_contains(self.entries@, u);
            let i = choose|i: int| 0 <= i < self.entries@.len() && self.entries@[i].user_id@ == u;
            lemma_conns_of_get(self.entries@, i);
        }
        assert forall|u1: Seq<char>, u2: Seq<char>|
            self@.conns.contains_key(u1) && self@.conns.contains_key(u2) && self@.conns[u1]
                == self@.conns[u2] implies u1 == u2 by {
            lemma_conns_of_contains(self.entries@, u1);
            lemma_conns_of_contains(self.entries@, u2);
            let i1 = choose|i: int|
                0 <= i < self.entries@.len() && self.entries@[i].user_id@ == u1;
            let i2 = choose|i: int|
                0 <= i < self.entries@.len() && self.entries@[i].user_id@ == u2;
            lemma_conns_of_get(self.entries@, i1);
            lemma_conns_of_get(self.entries@, i2);
        }
    }

    /// An empty registry: no queues, nobody connected.
    pub fn new() -> (r: Self)
        ensures
            r@.queues == Seq::<Seq<ResponseView>>::empty(),
            r@.conns == Map::<Seq<char>, int>::empty(),
            r.wf(),
            view_wf(r@),
    {
        let r = ConnectionRegistry { sockets: Vec::new(), entries: Vec::new() };
        proof {
            assert(r@.queues =~~= Seq::<Seq<ResponseView>>::empty());
            r.lemma_view_wf();
        }
        r
    }

    /// Index of the live entry for this user, if any.
    fn find_entry(&self, user_id: &String) -> (r: Option<usize>)
        ensures
            match r {
                Some(i) => i < self.entries@.len() && self.entries@[i as int].user_id@
                    == user_id@,
                None => forall|i: int|
                    0 <= i < self.entries@.len() ==> (#[trigger] self.entries@[i]).user_id@
                        != user_id@,
            },
    {
        let n = self.entries.len();
        let mut i: usize = 0;
        while i < n
            invariant
                i <= n,
                n == self.entries@.len(),
                forall|k: int|
                    0 <= k < i ==> (#[trigger] self.entries@[k]).user_id@ != user_id@,
            decreases n - i,
        {
            if self.entries[i].user_id.eq(user_id) {
                return Some(i);
            }
            i = i + 1;
        }
        None
    }

    /// Looks up the live handle of a user. Read-only; safe to run while
    /// other connections fan out.
    pub fn lookup(&self, user_id: &String) -> (r: Option<usize>)
        requires
            self.wf(),
        ensures
            match r {
                Some(ix) => self@.conns.contains_key(user_id@) && ix as int
                    == self@.conns[user_id@] && ix < self@.queues.len(),
                None => !self@.conns.contains_key(user_id@),
            },
    {
        match self.find_entry(user_id) {
            Some(i) => {
                let ix = self.entries[i].socket;
                proof {
                    lemma_conns_of_get(self.entries@, i as int);
                }
                Some(ix)
            },
            None => {
                proof {
                    lemma_conns_of_contains(self.entries@, user_id@);
                }
                None
            },
        }
    }

    /// Registers a fresh connection for a user, atomically displacing any
    /// prior one: afterwards the user is connected exactly through the fresh
    /// handle. Returns the fresh handle and the displaced one, which is not
    /// notified; it merely becomes unreachable through the registry.
    pub fn register(&mut self, user_id: &String) -> (r: (usize, Option<usize>))
        requires
            old(self).wf(),
        ensures
            final(self).wf(),
            r.0 as int == old(self)@.queues.len(),
            final(self)@.queues =~~= old(self)@.queues.push(Seq::<ResponseView>::empty()),
            final(self)@.conns =~= old(self)@.conns.insert(user_id@, r.0 as int),
            match r.1 {
                Some(prev) => old(self)@.conns.contains_key(user_id@) && prev as int == old(
                    self,
                )@.conns[user_id@],
                None => !old(self)@.conns.contains_key(user_id@),
            },
            view_wf(final(self)@),
    {
        let ghost old_entries = self.entries@;
        let socket_id = self.sockets.len();
        let prev: Option<usize> = match self.find_entry(user_id) {
            Some(i) => {
                proof {
                    lemma_conns_of_get(old_entries, i as int);
                    lemma_conns_of_remove(old_entries, i as int);
                }
                let evicted = self.entries.remove(i);
                Some(evicted.socket)
            },
            None => {
                proof {
                    lemma_conns_of_contains(old_entries, user_id@);
                }
                None
            },
        };
        self.sockets.push(Vec::new());
        let ghost mid_entries = self.entries@;
        self.entries.push(RegistryEntry { user_id: user_id.clone(), socket: socket_id });
        proof {
            assert(self.entries@.drop_last() =~= mid_entries);
            assert forall|u: Seq<char>| true implies !(#[trigger] conns_of(
                mid_entries,
            ).contains_key(u)) || (conns_of(old_entries).contains_key(u) && conns_of(
                old_entries,
            )[u] == conns_of(mid_entries)[u]) by {
                if conns_of(mid_entries).contains_key(u) {
                    if prev is Some {
                        let i = choose|i: int|
                            0 <= i < old_entries.len() && old_entries[i].user_id@ == user_id@;
                        assert(conns_of(mid_entries) == conns_of(old_entries).remove(user_id@));
                    }
                }
            }
            assert(self@.conns =~= old(self)@.conns.insert(user_id@, socket_id as int));
            assert(self@.queues =~~= old(self)@.queues.push(Seq::<ResponseView>::empty()));
            assert(self.wf());
            self.lemma_view_wf();
        }
        (socket_id, prev)
    }

    /// Disconnects a user. Idempotent: removing an absent user changes
    /// nothing and is not an error.
    pub fn remove(&mut self, user_id: &String)
        requires
            old(self).wf(),
        ensures
            final(self).wf(),
            final(self)@.queues == old(self)@.queues,
            final(self)@.conns =~= old(self)@.conns.remove(user_id@),
            view_wf(final(self)@),
    {
        let ghost old_entries = self.entries@;
        match self.find_entry(user_id) {
            Some(i) => {
                proof {
                    lemma_conns_of_remove(old_entries, i as int);
                }
                let _ = self.entries.remove(i);
            },
            None => {
                proof {
                    lemma_conns_of_contains(old_entries, user_id@);
                    assert(self@.conns =~= self@.conns.remove(user_id@));
                }
            },
        }
        proof {
            assert(self.wf());
            self.lemma_view_wf();
        }
    }

    /// Pushes a response onto the outbound queue of the user's current
    /// handle; silently does nothing when the user is not connected.
    pub fn send_to_user(&mut self, user_id: &String, response: WebSocketResponse)
        requires
            old(self).wf(),
        ensures
            final(self).wf(),
            final(self)@.conns == old(self)@.conns,
            old(self)@.conns.contains_key(user_id@) ==> final(self)@.queues =~~= old(
                self,
            )@.queues.update(
                old(self)@.conns[user_id@],
                old(self)@.queues[old(self)@.conns[user_id@]].push(response@),
            ),
            !old(self)@.conns.contains_key(user_id@) ==> final(self)@.queues =~~= old(self)@.queues,
            view_wf(final(self)@),
    {
        proof {
            self.lemma_view_wf();
        }
        match self.lookup(user_id) {
            Some(ix) => {
                self.sockets[ix].push(response);
                proof {
                    assert(self@.queues =~~= old(self)@.queues.update(
                        old(self)@.conns[user_id@],
                        old(self)@.queues[old(self)@.conns[user_id@]].push(response@),
                    ));
                    assert(self.wf());
                    self.lemma_view_wf();
                }
            },
            None => {
                proof {
                    assert(self@.queues =~~= old(self)@.queues);
                }
            },
        }
    }

    /// The number of responses sitting in the given queue.
    pub fn queue_len(&self, socket: usize) -> (r: usize)
        requires
            self.wf(),
            socket < self@.queues.len(),
        ensures
            r == self@.queues[socket as int].len(),
    {
        self.sockets[socket].len()
    }

    /// A copy of one queued response, for draining by a writer.
    pub fn queued_response(&self, socket: usize, i: usize) -> (r: WebSocketResponse)
        requires
            self.wf(),
            socket < self@.queues.len(),
            i < self@.queues[socket as int].len(),
        ensures
            r@ == self@.queues[socket as int][i as int],
    {
        match &self.sockets[socket][i] {
            WebSocketResponse::SendChatMessage(m) => WebSocketResponse::SendChatMessage(
                m.duplicate(),
            ),
            WebSocketResponse::SendAck(a) => WebSocketResponse::SendAck(
                crate::ack::WebsocketAck { status_code: a.status_code, msg: a.msg.clone() },
            ),
        }
    }
}

/// Registry exclusivity: after a user registers handle `h1` and then handle
/// `h2` (each freshly allocated, as `register` allocates them), the user is
/// reachable exactly through `h2`, and no user at all is reachable through
/// `h1` any more.
pub proof fn lemma_registry_exclusivity(
    v0: RegistryView,
    v1: RegistryView,
    v2: RegistryView,
    u: Seq<char>,
    h1: int,
    h2: int,
)
    requires
        view_wf(v0),
        h1 == v0.queues.len(),
        v1.conns == v0.conns.insert(u, h1),
        v1.queues == v0.queues.push(Seq::<ResponseView>::empty()),
        h2 == v1.queues.len(),
        v2.conns == v1.conns.insert(u, h2),
    ensures
        v2.conns.contains_key(u),
        v2.conns[u] == h2,
        h2 != h1,
        forall|w: Seq<char>| #[trigger] v2.conns.contains_key(w) ==> v2.conns[w] != h1,
{
    assert forall|w: Seq<char>| #[trigger] v2.conns.contains_key(w) implies v2.conns[w] != h1 by {
        if w != u {
            assert(v0.conns.contains_key(w));
            assert(v0.conns[w] < v0.queues.len());
        }
    }
}

/// Idempotent removal: removing a user that is not registered leaves the
/// connection map exactly as it was (and `remove` never touches the queues).
pub proof fn lemma_remove_absent(conns: Map<Seq<char>, int>, u: Seq<char>)
    requires
        !conns.contains_key(u),
    ensures
        conns.remove(u) =~= conns,
{
}

} // verus!
