//! The authoritative mapping of registered clients and per-recipient message
//! queues.
//!
//! The store is an in-memory structure; persistence mirrors it to disk through
//! the codec (`codec::encode_clients`, `codec::encode_queues`) after each
//! mutation, and `Storage::from_parts` rebuilds it from decoded state at
//! startup.

use vstd::prelude::*;
use crate::persist::{
    decode_clients, decode_queues, enc_clients_file, enc_queues_file, encode_clients,
    encode_queues, lemma_persistence_round_trip, queue_entry_view,
};
use crate::types::{ClientInfo, ClientInfoView, Message, MessageView};

verus! {

/// The views of a queue's messages, in queue order.
pub open spec fn msg_seq(v: Seq<Message>) -> Seq<MessageView> {
    v.map_values(|m: Message| m@)
}

/// The client mapping an association sequence stands for: later entries win.
pub open spec fn clients_map(cs: Seq<ClientInfo>) -> Map<Seq<char>, ClientInfoView>
    decreases cs.len(),
{
    if cs.len() == 0 {
        Map::empty()
    } else {
        clients_map(cs.drop_last()).insert(cs.last().id@, cs.last()@)
    }
}

/// The queue mapping an association sequence stands for: later entries win.
pub open spec fn queues_map(qs: Seq<(String, Vec<Message>)>) -> Map<Seq<char>, Seq<MessageView>>
    decreases qs.len(),
{
    if qs.len() == 0 {
        Map::empty()
    } else {
        queues_map(qs.drop_last()).insert(qs.last().0@, msg_seq(qs.last().1@))
    }
}

/// No two entries carry the same client id.
pub open spec fn unique_client_ids(cs: Seq<ClientInfo>) -> bool {
    forall|i: int, j: int| 0 <= i < j < cs.len() ==> cs[i].id@ != cs[j].id@
}

/// No two entries carry the same recipient id.
pub open spec fn unique_queue_keys(qs: Seq<(String, Vec<Message>)>) -> bool {
    forall|i: int, j: int| 0 <= i < j < qs.len() ==> qs[i].0@ != qs[j].0@
}

/// Every message sits in the queue keyed by its own recipient id.
pub open spec fn queues_keyed_right(qs: Seq<(String, Vec<Message>)>) -> bool {
    forall|i: int, k: int|
        0 <= i < qs.len() && 0 <= k < qs[i].1@.len() ==> (#[trigger] qs[i].1@[k]).recipient_id@
            == qs[i].0@
}

/// Mathematical view of the store: two mappings.
pub ghost struct StoreView {
    pub clients: Map<Seq<char>, ClientInfoView>,
    pub queues: Map<Seq<char>, Seq<MessageView>>,
}

/// The registered clients and the per-recipient message queues.
pub struct Storage {
    clients: Vec<ClientInfo>,
    queues: Vec<(String, Vec<Message>)>,
}

impl View for Storage {
    type V = StoreView;

    closed spec fn view(&self) -> StoreView {
        StoreView { clients: clients_map(self.clients@), queues: queues_map(self.queues@) }
    }
}

proof fn lemma_clients_map_contains(cs: Seq<ClientInfo>)
    ensures
        forall|k: Seq<char>|
            #[trigger] clients_map(cs).contains_key(k) <==> exists|i: int|
                0 <= i < cs.len() && (#[trigger] cs[i]).id@ == k,
    decreases cs.len(),
{
    if cs.len() > 0 {
        lemma_clients_map_contains(cs.drop_last());
        assert forall|k: Seq<char>| #[trigger] clients_map(cs).contains_key(k) implies exists|
            i: int,
        | 0 <= i < cs.len() && (#[trigger] cs[i]).id@ == k by {
            if k == cs.last().id@ {
                assert(cs[cs.len() - 1].id@ == k);
            } else {
                assert(clients_map(cs.drop_last()).contains_key(k));
                let i = choose|i: int|
                    0 <= i < cs.drop_last().len() && (#[trigger] cs.drop_last()[i]).id@ == k;
                assert(cs[i] == cs.drop_last()[i]);
                assert(cs[i].id@ == k);
            }
        }
        assert forall|k: Seq<char>|
            (exists|i: int| 0 <= i < cs.len() && (#[trigger] cs[i]).id@ == k) implies #[trigger]
            clients_map(cs).contains_key(k) by {
            let i = choose|i: int| 0 <= i < cs.len() && (#[trigger] cs[i]).id@ == k;
            if i < cs.len() - 1 {
                assert(cs.drop_last()[i].id@ == k);
                assert(clients_map(cs.drop_last()).contains_key(k));
            }
        }
    }
}

proof fn lemma_clients_map_value(cs: Seq<ClientInfo>, i: int)
    requires
        unique_client_ids(cs),
        0 <= i < cs.len(),
    ensures
        clients_map(cs).contains_key(cs[i].id@),
        clients_map(cs)[cs[i].id@] == cs[i]@,
    decreases cs.len(),
{
    if i == cs.len() - 1 {
    } else {
        lemma_clients_map_value(cs.drop_last(), i);
        assert(cs.drop_last()[i] == cs[i]);
        assert(cs[i].id@ != cs.last().id@);
    }
}

proof fn lemma_clients_map_update(cs: Seq<ClientInfo>, i: int, c: ClientInfo)
    requires
        unique_client_ids(cs),
        0 <= i < cs.len(),
        cs[i].id@ == c.id@,
    ensures
        clients_map(cs.update(i, c)) == clients_map(cs).insert(c.id@, c@),
    decreases cs.len(),
{
    let updated = cs.update(i, c);
    if i == cs.len() - 1 {
        assert(updated.drop_last() =~= cs.drop_last());
        assert(updated.last() == c);
        assert(clients_map(updated) == clients_map(cs.drop_last()).insert(c.id@, c@));
        assert(clients_map(cs.drop_last()).insert(cs.last().id@, cs.last()@).insert(c.id@, c@)
            =~= clients_map(cs.drop_last()).insert(c.id@, c@));
    } else {
        lemma_clients_map_update(cs.drop_last(), i, c);
        assert(updated.drop_last() =~= cs.drop_last().update(i, c));
        assert(updated.last() == cs.last());
        assert(cs.last().id@ != c.id@);
        assert(clients_map(updated) == clients_map(cs.drop_last()).insert(c.id@, c@).insert(
            cs.last().id@,
            cs.last()@,
        ));
        assert(clients_map(cs.drop_last()).insert(c.id@, c@).insert(cs.last().id@, cs.last()@)
            =~= clients_map(cs.drop_last()).insert(cs.last().id@, cs.last()@).insert(c.id@, c@));
    }
}

proof fn lemma_queues_map_contains(qs: Seq<(String, Vec<Message>)>)
    ensures
        forall|k: Seq<char>|
            #[trigger] queues_map(qs).contains_key(k) <==> exists|i: int|
                0 <= i < qs.len() && (#[trigger] qs[i]).0@ == k,
    decreases qs.len(),
{
    if qs.len() > 0 {
        lemma_queues_map_contains(qs.drop_last());
        assert forall|k: Seq<char>| #[trigger] queues_map(qs).contains_key(k) implies exists|
            i: int,
        | 0 <= i < qs.len() && (#[trigger] qs[i]).0@ == k by {
            if k == qs.last().0@ {
                assert(qs[qs.len() - 1].0@ == k);
            } else {
                assert(queues_map(qs.drop_last()).contains_key(k));
                let i = choose|i: int|
                    0 <= i < qs.drop_last().len() && (#[trigger] qs.drop_last()[i]).0@ == k;
                assert(qs[i] == qs.drop_last()[i]);
                assert(qs[i].0@ == k);
            }
        }
        assert forall|k: Seq<char>|
            (exists|i: int| 0 <= i < qs.len() && (#[trigger] qs[i]).0@ == k) implies #[trigger]
            queues_map(qs).contains_key(k) by {
            let i = choose|i: int| 0 <= i < qs.len() && (#[trigger] qs[i]).0@ == k;
            if i < qs.len() - 1 {
                assert(qs.drop_last()[i].0@ == k);
                assert(queues_map(qs.drop_last()).contains_key(k));
            }
        }
    }
}

proof fn lemma_queues_map_value(qs: Seq<(String, Vec<Message>)>, i: int)
    requires
        unique_queue_keys(qs),
        0 <= i < qs.len(),
    ensures
        queues_map(qs).contains_key(qs[i].0@),
        queues_map(qs)[qs[i].0@] == msg_seq(qs[i].1@),
    decreases qs.len(),
{
    if i == qs.len() - 1 {
    } else {
        lemma_queues_map_value(qs.drop_last(), i);
        assert(qs.drop_last()[i] == qs[i]);
        assert(qs[i].0@ != qs.last().0@);
    }
}

proof fn lemma_queues_map_update(qs: Seq<(String, Vec<Message>)>, i: int, q: (String, Vec<Message>))
    requires
        unique_queue_keys(qs),
        0 <= i < qs.len(),
        qs[i].0@ == q.0@,
    ensures
        queues_map(qs.update(i, q)) == queues_map(qs).insert(q.0@, msg_seq(q.1@)),
    decreases qs.len(),
{
    let updated = qs.update(i, q);
    if i == qs.len() - 1 {
        assert(updated.drop_last() =~= qs.drop_last());
        assert(updated.last() == q);
        assert(queues_map(qs.drop_last()).insert(qs.last().0@, msg_seq(qs.last().1@)).insert(
            q.0@,
            msg_seq(q.1@),
        ) =~= queues_map(qs.drop_last()).insert(q.0@, msg_seq(q.1@)));
    } else {
        lemma_queues_map_update(qs.drop_last(), i, q);
        assert(updated.drop_last() =~= qs.drop_last().update(i, q));
        assert(updated.last() == qs.last());
        assert(qs.last().0@ != q.0@);
        assert(queues_map(updated) == queues_map(qs.drop_last()).insert(q.0@, msg_seq(q.1@)).insert(
            qs.last().0@,
            msg_seq(qs.last().1@),
        ));
        assert(queues_map(qs.drop_last()).insert(q.0@, msg_seq(q.1@)).insert(
            qs.last().0@,
            msg_seq(qs.last().1@),
        ) =~= queues_map(qs.drop_last()).insert(qs.last().0@, msg_seq(qs.last().1@)).insert(
            q.0@,
            msg_seq(q.1@),
        ));
    }
}

impl Storage {
    /// Internal well-formedness: keys unique, queues keyed by recipient.
    pub closed spec fn wf(&self) -> bool {
        &&& unique_client_ids(self.clients@)
        &&& unique_queue_keys(self.queues@)
        &&& queues_keyed_right(self.queues@)
    }

    /// The empty store: no clients, no queues.
    pub fn empty() -> (r: Storage)
        ensures
            r.wf(),
            r@.clients == Map::<Seq<char>, ClientInfoView>::empty(),
            r@.queues == Map::<Seq<char>, Seq<MessageView>>::empty(),
    {
        Storage { clients: Vec::new(), queues: Vec::new() }
    }

    fn find_client(&self, id: &String) -> (r: Option<usize>)
        ensures
            match r {
                Some(i) => i < self.clients@.len() && self.clients@[i as int].id@ == id@,
                None => forall|j: int|
                    0 <= j < self.clients@.len() ==> (#[trigger] self.clients@[j]).id@ != id@,
            },
    {
        let mut i: usize = 0;
        while i < self.clients.len()
            invariant
                i <= self.clients@.len(),
                forall|j: int| 0 <= j < i ==> (#[trigger] self.clients@[j]).id@ != id@,
            decreases self.clients@.len() - i,
        {
            if self.clients[i].id.eq(id) {
                return Some(i);
            }
            i = i + 1;
        }
        None
    }

    fn find_queue(&self, id: &String) -> (r: Option<usize>)
        ensures
            match r {
                Some(i) => i < self.queues@.len() && self.queues@[i as int].0@ == id@,
                None => forall|j: int|
                    0 <= j < self.queues@.len() ==> (#[trigger] self.queues@[j]).0@ != id@,
            },
    {
        let mut i: usize = 0;
        while i < self.queues.len()
            invariant
                i <= self.queues@.len(),
                forall|j: int| 0 <= j < i ==> (#[trigger] self.queues@[j]).0@ != id@,
            decreases self.queues@.len() - i,
        {
            if self.queues[i].0.eq(id) {
                return Some(i);
            }
            i = i + 1;
        }
        None
    }

    /// Upsert a client record: a re-registration overwrites the prior record
    /// wholesale, so only the latest public key is ever honored.
    pub fn register_client(&mut self, client_id: String, public_key: String, now: &String)
        requires
            old(self).wf(),
        ensures
            final(self).wf(),
            final(self)@.clients == old(self)@.clients.insert(
                client_id@,
                ClientInfoView {
                    id: client_id@,
                    public_key: public_key@,
                    registered_at: now@,
                    last_seen: now@,
                },
            ),
            final(self)@.queues == old(self)@.queues,
    {
        let record = ClientInfo {
            id: client_id,
            public_key,
            registered_at: now.clone(),
            last_seen: now.clone(),
        };
        match self.find_client(&record.id) {
            Some(i) => {
                proof {
                    lemma_clients_map_update(self.clients@, i as int, record);
                }
                let ghost pre = self.clients@;
                self.clients.set(i, record);
                proof {
                    assert(self.clients@ =~= pre.update(i as int, record));
                }
            },
            None => {
                let ghost pre = self.clients@;
                self.clients.push(record);
                proof {
                    assert(self.clients@.drop_last() =~= pre);
                    assert forall|a: int, b: int| 0 <= a < b < self.clients@.len() implies (
                    #[trigger] self.clients@[a]).id@ != (#[trigger] self.clients@[b]).id@ by {
                        if b == self.clients@.len() - 1 {
                            assert(pre[a].id@ != record.id@);
                        } else {
                            assert(pre[a].id@ != pre[b].id@);
                        }
                    }
                }
            },
        }
    }

    /// Refresh a client's `last_seen`; a missing client leaves the store as it
    /// was.
    pub fn update_client_last_seen(&mut self, client_id: &String, now: &String)
        requires
            old(self).wf(),
        ensures
            final(self).wf(),
            final(self)@.queues == old(self)@.queues,
            if old(self)@.clients.contains_key(client_id@) {
                final(self)@.clients == old(self)@.clients.insert(
                    client_id@,
                    ClientInfoView {
                        last_seen: now@,
                        ..old(self)@.clients[client_id@]
                    },
                )
            } else {
                final(self)@.clients == old(self)@.clients
            },
    {
        proof {
            lemma_clients_map_contains(self.clients@);
        }
        match self.find_client(client_id) {
            Some(i) => {
                let ghost pre = self.clients@;
                proof {
                    lemma_clients_map_value(pre, i as int);
                }
                let mut record = self.clients.remove(i);
                record.last_seen = now.clone();
                self.clients.insert(i, record);
                proof {
                    assert(self.clients@ =~= pre.update(i as int, record));
                    lemma_clients_map_update(pre, i as int, record);
                    assert forall|a: int, b: int| 0 <= a < b < self.clients@.len() implies (
                    #[trigger] self.clients@[a]).id@ != (#[trigger] self.clients@[b]).id@ by {
                        assert(self.clients@[a].id@ == pre[a].id@);
                        assert(self.clients@[b].id@ == pre[b].id@);
                    }
                }
            },
            None => {},
        }
    }

    /// Append a message to its recipient's queue, creating the queue on first
    /// delivery. Queues are append-only: nothing else is touched.
    pub fn add_message(&mut self, message: Message)
        requires
            old(self).wf(),
        ensures
            final(self).wf(),
            final(self)@.clients == old(self)@.clients,
            final(self)@.queues == old(self)@.queues.insert(
                message.recipient_id@,
                if old(self)@.queues.contains_key(message.recipient_id@) {
                    old(self)@.queues[message.recipient_id@]
                } else {
                    Seq::empty()
                } + seq![message@],
            ),
    {
        proof {
            lemma_queues_map_contains(self.queues@);
        }
        match self.find_queue(&message.recipient_id) {
            Some(i) => {
                let ghost pre = self.queues@;
                proof {
                    lemma_queues_map_value(pre, i as int);
                }
                let mut entry = self.queues.remove(i);
                let ghost msg = message@;
                let ghost rid = message.recipient_id@;
                entry.1.push(message);
                self.queues.insert(i, entry);
                proof {
                    assert(msg_seq(entry.1@) =~= msg_seq(pre[i as int].1@) + seq![msg]);
                    assert(self.queues@ =~= pre.update(i as int, entry));
                    lemma_queues_map_update(pre, i as int, entry);
                    assert forall|a: int, b: int| 0 <= a < b < self.queues@.len() implies (
                    #[trigger] self.queues@[a]).0@ != (#[trigger] self.queues@[b]).0@ by {
                        assert(self.queues@[a].0@ == pre[a].0@);
                        assert(self.queues@[b].0@ == pre[b].0@);
                    }
                    assert forall|a: int, k: int|
                        0 <= a < self.queues@.len() && 0 <= k < self.queues@[a].1@.len() implies (
                    #[trigger] self.queues@[a].1@[k]).recipient_id@ == self.queues@[a].0@ by {
                        if a == i as int {
                            if k < pre[a].1@.len() {
                                assert(pre[a].1@[k].recipient_id@ == pre[a].0@);
                            } else {
                                assert(self.queues@[a].1@[k] == entry.1@[k]);
                            }
                        } else {
                            assert(self.queues@[a] == pre[a]);
                            assert(pre[a].1@[k].recipient_id@ == pre[a].0@);
                        }
                    }
                }
            },
            None => {
                let ghost pre = self.queues@;
                let ghost msg = message@;
                let key = message.recipient_id.clone();
                let mut q: Vec<Message> = Vec::new();
                q.push(message);
                let entry = (key, q);
                self.queues.push(entry);
                proof {
                    assert(self.queues@.drop_last() =~= pre);
                    assert(msg_seq(entry.1@) =~= Seq::<MessageView>::empty() + seq![msg]);
                    assert forall|a: int, b: int| 0 <= a < b < self.queues@.len() implies (
                    #[trigger] self.queues@[a]).0@ != (#[trigger] self.queues@[b]).0@ by {
                        if b == self.queues@.len() - 1 {
                            assert(pre[a].0@ != entry.0@);
                        } else {
                            assert(pre[a].0@ != pre[b].0@);
                        }
                    }
                    assert forall|a: int, k: int|
                        0 <= a < self.queues@.len() && 0 <= k < self.queues@[a].1@.len() implies (
                    #[trigger] self.queues@[a].1@[k]).recipient_id@ == self.queues@[a].0@ by {
                        if a == self.queues@.len() - 1 {
                            assert(self.queues@[a] == entry);
                        } else {
                            assert(self.queues@[a] == pre[a]);
                            assert(pre[a].1@[k].recipient_id@ == pre[a].0@);
                        }
                    }
                }
            },
        }
    }

    /// The recipient's queue, oldest first; empty if the recipient has never
    /// received anything.
    pub fn get_messages_for_client(&self, client_id: &String) -> (r: Vec<Message>)
        requires
            self.wf(),
        ensures
            msg_seq(r@) == if self@.queues.contains_key(client_id@) {
                self@.queues[client_id@]
            } else {
                Seq::<MessageView>::empty()
            },
    {
        proof {
            lemma_queues_map_contains(self.queues@);
        }
        match self.find_queue(client_id) {
            Some(i) => {
                proof {
                    lemma_queues_map_value(self.queues@, i as int);
                }
                let q = &self.queues[i].1;
                let mut out: Vec<Message> = Vec::new();
                let mut k: usize = 0;
                while k < q.len()
                    invariant
                        k <= q@.len(),
                        out@.len() == k,
                        forall|j: int| 0 <= j < k ==> (#[trigger] out@[j])@ == q@[j]@,
                    decreases q@.len() - k,
                {
                    out.push(q[k].clone());
                    k = k + 1;
                }
                proof {
                    assert(msg_seq(out@) =~= msg_seq(q@));
                }
                out
            },
            None => {
                let out: Vec<Message> = Vec::new();
                proof {
                    assert(msg_seq(out@) =~= Seq::<MessageView>::empty());
                }
                out
            },
        }
    }

    /// The client's record, if it is registered.
    pub fn get_client_info(&self, client_id: &String) -> (r: Option<ClientInfo>)
        requires
            self.wf(),
        ensures
            match r {
                Some(c) => self@.clients.contains_key(client_id@) && c@ == self@.clients[client_id@]
                    && c.id@ == client_id@,
                None => !self@.clients.contains_key(client_id@),
            },
    {
        proof {
            lemma_clients_map_contains(self.clients@);
        }
        match self.find_client(client_id) {
            Some(i) => {
                proof {
                    lemma_clients_map_value(self.clients@, i as int);
                }
                Some(self.clients[i].clone())
            },
            None => None,
        }
    }

    /// Every registered client id, each exactly once.
    pub fn get_all_clients(&self) -> (r: Vec<String>)
        requires
            self.wf(),
        ensures
            r@.map_values(|s: String| s@).to_set() == self@.clients.dom(),
            r@.map_values(|s: String| s@).no_duplicates(),
    {
        proof {
            lemma_clients_map_contains(self.clients@);
        }
        let mut out: Vec<String> = Vec::new();
        let mut i: usize = 0;
        while i < self.clients.len()
            invariant
                i <= self.clients@.len(),
                out@.len() == i,
                forall|j: int| 0 <= j < i ==> (#[trigger] out@[j])@ == self.clients@[j].id@,
            decreases self.clients@.len() - i,
        {
            out.push(self.clients[i].id.clone());
            i = i + 1;
        }
        proof {
            let ids = self.clients@.map_values(|c: ClientInfo| c.id@);
            assert(out@.map_values(|s: String| s@) =~= ids);
            assert forall|k: Seq<char>| ids.to_set().contains(k) implies self@.clients.contains_key(
                k,
            ) by {
                let i = choose|i: int| 0 <= i < ids.len() && ids[i] == k;
                assert(self.clients@[i].id@ == k);
            }
            assert forall|k: Seq<char>| self@.clients.contains_key(k) implies ids.to_set().contains(
                k,
            ) by {
                let i = choose|i: int|
                    0 <= i < self.clients@.len() && (#[trigger] self.clients@[i]).id@ == k;
                assert(ids[i] == k);
            }
            assert(ids.to_set() =~= self@.clients.dom());
            assert forall|a: int, b: int| 0 <= a < b < ids.len() implies ids[a] != ids[b] by {
                assert(self.clients@[a].id@ != self.clients@[b].id@);
            }
        }
        out
    }
}

/// Two client sequences with the same record views stand for the same map.
proof fn lemma_clients_map_congruent(a: Seq<ClientInfo>, b: Seq<ClientInfo>)
    requires
        a.len() == b.len(),
        forall|i: int| 0 <= i < a.len() ==> (#[trigger] a[i])@ == b[i]@,
    ensures
        clients_map(a) == clients_map(b),
    decreases a.len(),
{
    if a.len() > 0 {
        lemma_clients_map_congruent(a.drop_last(), b.drop_last());
        assert(a.last()@ == b.last()@);
        assert(a.last().id@ == a.last()@.id);
        assert(clients_map(a) =~= clients_map(b));
    }
}

/// Two queue sequences with the same entry views stand for the same map.
proof fn lemma_queues_map_congruent(a: Seq<(String, Vec<Message>)>, b: Seq<(String, Vec<Message>)>)
    requires
        a.len() == b.len(),
        forall|i: int|
            0 <= i < a.len() ==> queue_entry_view(#[trigger] a[i]) == queue_entry_view(b[i]),
    ensures
        queues_map(a) == queues_map(b),
    decreases a.len(),
{
    if a.len() > 0 {
        lemma_queues_map_congruent(a.drop_last(), b.drop_last());
        assert(queue_entry_view(a.last()) == queue_entry_view(b.last()));
        assert(a.last().0@ == queue_entry_view(a.last()).0);
        assert(msg_seq(a.last().1@) == queue_entry_view(a.last()).1);
        assert(queues_map(a) =~= queues_map(b));
    }
}

/// Client sequences with equal view sequences share uniqueness and mapping.
proof fn lemma_client_views_transfer(dc: Seq<ClientInfo>, oc: Seq<ClientInfo>)
    requires
        dc.map_values(|c: ClientInfo| c@) == oc.map_values(|c: ClientInfo| c@),
        unique_client_ids(oc),
    ensures
        unique_client_ids(dc),
        clients_map(dc) == clients_map(oc),
{
    assert(dc.len() == oc.len()) by {
        assert(dc.map_values(|c: ClientInfo| c@).len() == dc.len());
        assert(oc.map_values(|c: ClientInfo| c@).len() == oc.len());
    }
    assert forall|i: int| 0 <= i < dc.len() implies (#[trigger] dc[i])@ == oc[i]@ by {
        assert(dc.map_values(|c: ClientInfo| c@)[i] == dc[i]@);
        assert(oc.map_values(|c: ClientInfo| c@)[i] == oc[i]@);
    }
    assert forall|i: int, j: int| 0 <= i < j < dc.len() implies dc[i].id@ != dc[j].id@ by {
        assert(dc[i]@ == oc[i]@ && dc[j]@ == oc[j]@);
        assert(oc[i].id@ != oc[j].id@);
    }
    lemma_clients_map_congruent(dc, oc);
}

/// Queue sequences with equal entry views share well-formedness and mapping.
proof fn lemma_queue_views_transfer(dq: Seq<(String, Vec<Message>)>, oq: Seq<(String, Vec<Message>)>)
    requires
        dq.map_values(|q: (String, Vec<Message>)| queue_entry_view(q)) == oq.map_values(
            |q: (String, Vec<Message>)| queue_entry_view(q),
        ),
        unique_queue_keys(oq),
        queues_keyed_right(oq),
    ensures
        unique_queue_keys(dq),
        queues_keyed_right(dq),
        queues_map(dq) == queues_map(oq),
{
    assert(dq.len() == oq.len()) by {
        assert(dq.map_values(|q: (String, Vec<Message>)| queue_entry_view(q)).len() == dq.len());
        assert(oq.map_values(|q: (String, Vec<Message>)| queue_entry_view(q)).len() == oq.len());
    }
    assert forall|i: int| 0 <= i < dq.len() implies queue_entry_view(#[trigger] dq[i])
        == queue_entry_view(oq[i]) by {
        assert(dq.map_values(|q: (String, Vec<Message>)| queue_entry_view(q))[i]
            == queue_entry_view(dq[i]));
        assert(oq.map_values(|q: (String, Vec<Message>)| queue_entry_view(q))[i]
            == queue_entry_view(oq[i]));
    }
    assert forall|i: int, j: int| 0 <= i < j < dq.len() implies dq[i].0@ != dq[j].0@ by {
        assert(queue_entry_view(dq[i]) == queue_entry_view(oq[i]));
        assert(queue_entry_view(dq[j]) == queue_entry_view(oq[j]));
        assert(oq[i].0@ != oq[j].0@);
    }
    assert forall|i: int, k: int|
        0 <= i < dq.len() && 0 <= k < dq[i].1@.len() implies (
    #[trigger] dq[i].1@[k]).recipient_id@ == dq[i].0@ by {
        let dv = queue_entry_view(dq[i]);
        let ov = queue_entry_view(oq[i]);
        assert(dv == ov);
        assert(dv.1 == dq[i].1@.map_values(|m: Message| m@));
        assert(dq[i].1@.map_values(|m: Message| m@)[k] == dq[i].1@[k]@);
        assert(k < ov.1.len());
        assert(ov.1 == oq[i].1@.map_values(|m: Message| m@));
        assert(oq[i].1@.map_values(|m: Message| m@)[k] == oq[i].1@[k]@);
        assert(oq[i].1@[k].recipient_id@ == oq[i].0@);
        assert(dq[i].0@ == dv.0 && oq[i].0@ == ov.0);
    }
    lemma_queues_map_congruent(dq, oq);
}

impl Storage {
    /// The client records' views, in store order.
    pub closed spec fn client_entries(&self) -> Seq<ClientInfoView> {
        self.clients@.map_values(|c: ClientInfo| c@)
    }

    /// The queue entries' views, in store order.
    pub closed spec fn queue_entries(&self) -> Seq<(Seq<char>, Seq<MessageView>)> {
        self.queues@.map_values(|q: (String, Vec<Message>)| queue_entry_view(q))
    }

    /// The persisted clients document for the store's current state. Writing
    /// it to disk after each mutation keeps the mirror current.
    pub fn clients_json(&self) -> (r: String)
        ensures
            r@ == enc_clients_file(self.client_entries()),
    {
        encode_clients(&self.clients)
    }

    /// The persisted queues document for the store's current state.
    pub fn queues_json(&self) -> (r: String)
        ensures
            r@ == enc_queues_file(self.queue_entries()),
    {
        encode_queues(&self.queues)
    }

    /// Rebuild a store from loaded parts. A part that breaks the store's
    /// invariants (a duplicate key, a message filed under the wrong
    /// recipient) counts as corrupt and falls back to the empty state for
    /// that map, so construction always succeeds.
    pub fn from_parts_or_empty(clients: Vec<ClientInfo>, queues: Vec<(String, Vec<Message>)>) -> (r:
        Storage)
        ensures
            r.wf(),
            r@.clients == if unique_client_ids(clients@) {
                clients_map(clients@)
            } else {
                Map::<Seq<char>, ClientInfoView>::empty()
            },
            r@.queues == if unique_queue_keys(queues@) && queues_keyed_right(queues@) {
                queues_map(queues@)
            } else {
                Map::<Seq<char>, Seq<MessageView>>::empty()
            },
            unique_client_ids(clients@) ==> r.client_entries() == clients@.map_values(
                |c: ClientInfo| c@,
            ),
            unique_queue_keys(queues@) && queues_keyed_right(queues@) ==> r.queue_entries()
                == queues@.map_values(|q: (String, Vec<Message>)| queue_entry_view(q)),
    {
        let clients_ok = check_unique_clients(&clients);
        let queues_ok = check_queues(&queues);
        let kept_clients = if clients_ok {
            clients
        } else {
            Vec::new()
        };
        let kept_queues = if queues_ok {
            queues
        } else {
            Vec::new()
        };
        proof {
            if !clients_ok {
                assert(clients_map(kept_clients@) =~= Map::<Seq<char>, ClientInfoView>::empty());
            }
            if !queues_ok {
                assert(queues_map(kept_queues@) =~= Map::<Seq<char>, Seq<MessageView>>::empty());
            }
        }
        Storage { clients: kept_clients, queues: kept_queues }
    }

    /// The persist-and-reload law: encoding the store's two documents and
    /// decoding them back rebuilds a store whose client and message mappings
    /// are identical to the original's.
    pub fn persist_and_reload(&self) -> (r: Storage)
        requires
            self.wf(),
        ensures
            r.wf(),
            r@.clients == self@.clients,
            r@.queues == self@.queues,
    {
        let clients_doc = self.clients_json();
        let queues_doc = self.queues_json();
        proof {
            lemma_persistence_round_trip(self.client_entries(), self.queue_entries());
        }
        let decoded_clients = decode_clients(clients_doc.as_str()).unwrap();
        let decoded_queues = decode_queues(queues_doc.as_str()).unwrap();
        proof {
            lemma_client_views_transfer(decoded_clients@, self.clients@);
            lemma_queue_views_transfer(decoded_queues@, self.queues@);
        }
        Storage::from_parts_or_empty(decoded_clients, decoded_queues)
    }
}

/// Whether the client records carry pairwise distinct ids.
fn check_unique_clients(clients: &Vec<ClientInfo>) -> (r: bool)
    ensures
        r == unique_client_ids(clients@),
{
    let mut i: usize = 0;
    while i < clients.len()
        invariant
            i <= clients@.len(),
            forall|a: int, b: int|
                0 <= a < b < i ==> (#[trigger] clients@[a]).id@ != (#[trigger] clients@[b]).id@,
        decreases clients@.len() - i,
    {
        let mut j: usize = 0;
        while j < i
            invariant
                j <= i < clients@.len(),
                forall|a: int| 0 <= a < j ==> (#[trigger] clients@[a]).id@ != clients@[i as int].id@,
            decreases i - j,
        {
            if clients[j].id.eq(&clients[i].id) {
                return false;
            }
            j = j + 1;
        }
        i = i + 1;
    }
    true
}

/// Whether the queues carry pairwise distinct keys and every message sits
/// under its own recipient.
fn check_queues(queues: &Vec<(String, Vec<Message>)>) -> (r: bool)
    ensures
        r == (unique_queue_keys(queues@) && queues_keyed_right(queues@)),
{
    let mut i: usize = 0;
    while i < queues.len()
        invariant
            i <= queues@.len(),
            forall|a: int, b: int|
                0 <= a < b < i ==> (#[trigger] queues@[a]).0@ != (#[trigger] queues@[b]).0@,
            forall|a: int, k: int|
                0 <= a < i && 0 <= k < queues@[a].1@.len() ==> (#[trigger] queues@[a].1@[k]).recipient_id@
                    == queues@[a].0@,
        decreases queues@.len() - i,
    {
        let mut j: usize = 0;
        while j < i
            invariant
                j <= i < queues@.len(),
                forall|a: int| 0 <= a < j ==> (#[trigger] queues@[a]).0@ != queues@[i as int].0@,
            decreases i - j,
        {
            if queues[j].0.eq(&queues[i].0) {
                return false;
            }
            j = j + 1;
        }
        let q = &queues[i];
        let mut k: usize = 0;
        while k < q.1.len()
            invariant
                k <= q.1@.len(),
                q == queues@[i as int],
                i < queues@.len(),
                forall|m: int| 0 <= m < k ==> (#[trigger] q.1@[m]).recipient_id@ == q.0@,
            decreases q.1@.len() - k,
        {
            if !q.1[k].recipient_id.eq(&q.0) {
                return false;
            }
            k = k + 1;
        }
        i = i + 1;
    }
    true
}

} // verus!
