//! The persisted store documents: one JSON object per map, clients and
//! message queues, with verified round trips so that a reload after a restart
//! rebuilds exactly what was written.

use vstd::prelude::*;
use crate::codec::{
    enc_client, enc_message, lemma_scan_client_round_trip, lemma_scan_lit_mismatch,
    lemma_scan_message_round_trip, lemma_scan_quoted_round_trip, parse_client, parse_message,
    push_client, push_message, scan_client, scan_message,
};
use crate::jsontext::{
    lemma_scan_lit, parse_lit, parse_quoted, push_lit, push_quoted, quoted, scan_lit, scan_quoted,
};
use crate::strutil::{chars_to_string, str_to_chars};
use crate::types::{ClientInfo, ClientInfoView, Message, MessageView};

verus! {

// ---------------------------------------------------------------------------
// Persistence documents: the clients map and the queues map.
// ---------------------------------------------------------------------------

/// The wire text of a message list's tail.
pub open spec fn enc_more_messages(ms: Seq<MessageView>) -> Seq<char>
    decreases ms.len(),
{
    if ms.len() == 0 {
        Seq::empty()
    } else {
        ","@ + enc_message(ms[0]) + enc_more_messages(ms.skip(1))
    }
}

/// The wire text of a message list.
pub open spec fn enc_message_list(ms: Seq<MessageView>) -> Seq<char> {
    "["@ + (if ms.len() == 0 {
        Seq::<char>::empty()
    } else {
        enc_message(ms[0]) + enc_more_messages(ms.skip(1))
    }) + "]"@
}

/// One clients-file entry: the record keyed by its own id.
pub open spec fn enc_client_entry(c: ClientInfoView) -> Seq<char> {
    quoted(c.id) + ":"@ + enc_client(c)
}

/// The wire text of the clients file's tail.
pub open spec fn enc_more_clients(cs: Seq<ClientInfoView>) -> Seq<char>
    decreases cs.len(),
{
    if cs.len() == 0 {
        Seq::empty()
    } else {
        ","@ + enc_client_entry(cs[0]) + enc_more_clients(cs.skip(1))
    }
}

/// The persisted clients document: one object mapping each id to its record.
pub open spec fn enc_clients_file(cs: Seq<ClientInfoView>) -> Seq<char> {
    "{"@ + (if cs.len() == 0 {
        Seq::<char>::empty()
    } else {
        enc_client_entry(cs[0]) + enc_more_clients(cs.skip(1))
    }) + "}"@
}

/// One queues-file entry: a recipient id and its message list.
pub open spec fn enc_queue_entry(q: (Seq<char>, Seq<MessageView>)) -> Seq<char> {
    quoted(q.0) + ":"@ + enc_message_list(q.1)
}

/// The wire text of the queues file's tail.
pub open spec fn enc_more_queues(qs: Seq<(Seq<char>, Seq<MessageView>)>) -> Seq<char>
    decreases qs.len(),
{
    if qs.len() == 0 {
        Seq::empty()
    } else {
        ","@ + enc_queue_entry(qs[0]) + enc_more_queues(qs.skip(1))
    }
}

/// The persisted queues document: one object mapping each recipient to its
/// queue.
pub open spec fn enc_queues_file(qs: Seq<(Seq<char>, Seq<MessageView>)>) -> Seq<char> {
    "{"@ + (if qs.len() == 0 {
        Seq::<char>::empty()
    } else {
        enc_queue_entry(qs[0]) + enc_more_queues(qs.skip(1))
    }) + "}"@
}

/// Scan a message list's tail.
pub open spec fn scan_more_messages(s: Seq<char>) -> Option<(Seq<MessageView>, Seq<char>)>
    decreases s.len(),
{
    match scan_lit(s, "]"@) {
        Some(rest) => Some((Seq::empty(), rest)),
        None => match scan_lit(s, ","@) {
            Some(r1) => match scan_message(r1) {
                Some((m, r2)) => {
                    if r2.len() < s.len() {
                        match scan_more_messages(r2) {
                            Some((ms, rest)) => Some((seq![m] + ms, rest)),
                            None => None,
                        }
                    } else {
                        None
                    }
                },
                None => None,
            },
            None => None,
        },
    }
}

/// Scan a message list.
pub open spec fn scan_message_list(s: Seq<char>) -> Option<(Seq<MessageView>, Seq<char>)> {
    match scan_lit(s, "["@) {
        Some(r1) => match scan_lit(r1, "]"@) {
            Some(rest) => Some((Seq::empty(), rest)),
            None => match scan_message(r1) {
                Some((m, r2)) => match scan_more_messages(r2) {
                    Some((ms, rest)) => Some((seq![m] + ms, rest)),
                    None => None,
                },
                None => None,
            },
        },
        None => None,
    }
}

/// Scan one clients-file entry, refusing a key that is not the record's id.
pub open spec fn scan_client_entry(s: Seq<char>) -> Option<(ClientInfoView, Seq<char>)> {
    match scan_quoted(s) {
        Some((key, r1)) => match scan_lit(r1, ":"@) {
            Some(r2) => match scan_client(r2) {
                Some((c, rest)) => if c.id == key {
                    Some((c, rest))
                } else {
                    None
                },
                None => None,
            },
            None => None,
        },
        None => None,
    }
}

/// Scan the clients file's tail.
pub open spec fn scan_more_clients(s: Seq<char>) -> Option<(Seq<ClientInfoView>, Seq<char>)>
    decreases s.len(),
{
    match scan_lit(s, "}"@) {
        Some(rest) => Some((Seq::empty(), rest)),
        None => match scan_lit(s, ","@) {
            Some(r1) => match scan_client_entry(r1) {
                Some((c, r2)) => {
                    if r2.len() < s.len() {
                        match scan_more_clients(r2) {
                            Some((cs, rest)) => Some((seq![c] + cs, rest)),
                            None => None,
                        }
                    } else {
                        None
                    }
                },
                None => None,
            },
            None => None,
        },
    }
}

/// Scan a whole clients document.
pub open spec fn scan_clients_file(s: Seq<char>) -> Option<(Seq<ClientInfoView>, Seq<char>)> {
    match scan_lit(s, "{"@) {
        Some(r1) => match scan_lit(r1, "}"@) {
            Some(rest) => Some((Seq::empty(), rest)),
            None => match scan_client_entry(r1) {
                Some((c, r2)) => match scan_more_clients(r2) {
                    Some((cs, rest)) => Some((seq![c] + cs, rest)),
                    None => None,
                },
                None => None,
            },
        },
        None => None,
    }
}

/// Scan one queues-file entry.
pub open spec fn scan_queue_entry(s: Seq<char>) -> Option<((Seq<char>, Seq<MessageView>), Seq<char>)> {
    match scan_quoted(s) {
        Some((key, r1)) => match scan_lit(r1, ":"@) {
            Some(r2) => match scan_message_list(r2) {
                Some((ms, rest)) => Some(((key, ms), rest)),
                None => None,
            },
            None => None,
        },
        None => None,
    }
}

/// Scan the queues file's tail.
pub open spec fn scan_more_queues(s: Seq<char>) -> Option<
    (Seq<(Seq<char>, Seq<MessageView>)>, Seq<char>),
>
    decreases s.len(),
{
    match scan_lit(s, "}"@) {
        Some(rest) => Some((Seq::empty(), rest)),
        None => match scan_lit(s, ","@) {
            Some(r1) => match scan_queue_entry(r1) {
                Some((q, r2)) => {
                    if r2.len() < s.len() {
                        match scan_more_queues(r2) {
                            Some((qs, rest)) => Some((seq![q] + qs, rest)),
                            None => None,
                        }
                    } else {
                        None
                    }
                },
                None => None,
            },
            None => None,
        },
    }
}

/// Scan a whole queues document.
pub open spec fn scan_queues_file(s: Seq<char>) -> Option<
    (Seq<(Seq<char>, Seq<MessageView>)>, Seq<char>),
> {
    match scan_lit(s, "{"@) {
        Some(r1) => match scan_lit(r1, "}"@) {
            Some(rest) => Some((Seq::empty(), rest)),
            None => match scan_queue_entry(r1) {
                Some((q, r2)) => match scan_more_queues(r2) {
                    Some((qs, rest)) => Some((seq![q] + qs, rest)),
                    None => None,
                },
                None => None,
            },
        },
        None => None,
    }
}

/// Decode a whole clients document.
pub open spec fn spec_decode_clients(s: Seq<char>) -> Option<Seq<ClientInfoView>> {
    match scan_clients_file(s) {
        Some((cs, rest)) => if rest.len() == 0 {
            Some(cs)
        } else {
            None
        },
        None => None,
    }
}

/// Decode a whole queues document.
pub open spec fn spec_decode_queues(s: Seq<char>) -> Option<Seq<(Seq<char>, Seq<MessageView>)>> {
    match scan_queues_file(s) {
        Some((qs, rest)) => if rest.len() == 0 {
            Some(qs)
        } else {
            None
        },
        None => None,
    }
}

/// A message list's tail scans off the front of its own encoding.
#[verifier::rlimit(100)]
proof fn lemma_scan_more_messages_round_trip(ms: Seq<MessageView>, rest: Seq<char>)
    ensures
        scan_more_messages(enc_more_messages(ms) + "]"@ + rest) == Some((ms, rest)),
    decreases ms.len(),
{
    reveal_strlit("]");
    reveal_strlit(",");
    if ms.len() == 0 {
        let whole = enc_more_messages(ms) + "]"@ + rest;
        assert(whole =~= "]"@ + rest);
        lemma_scan_lit("]"@, rest);
        assert(ms =~= Seq::<MessageView>::empty());
    } else {
        lemma_scan_more_messages_round_trip(ms.skip(1), rest);
        let t2 = enc_more_messages(ms.skip(1)) + "]"@ + rest;
        let t1 = enc_message(ms[0]) + t2;
        let whole = enc_more_messages(ms) + "]"@ + rest;
        assert(whole =~= ","@ + t1);
        assert(whole[0] == ',');
        lemma_scan_lit_mismatch(whole, "]"@, 0);
        lemma_scan_lit(","@, t1);
        lemma_scan_message_round_trip(ms[0], t2);
        assert(t2.len() < whole.len()) by {
            assert(enc_message(ms[0]).len() >= 1) by {
                reveal_strlit("{\"id\":");
            }
        }
        assert(seq![ms[0]] + ms.skip(1) =~= ms);
    }
}

/// A message list scans off the front of its own encoding.
#[verifier::rlimit(100)]
pub proof fn lemma_scan_message_list_round_trip(ms: Seq<MessageView>, rest: Seq<char>)
    ensures
        scan_message_list(enc_message_list(ms) + rest) == Some((ms, rest)),
{
    reveal_strlit("[");
    reveal_strlit("]");
    reveal_strlit("{\"id\":");
    let whole = enc_message_list(ms) + rest;
    if ms.len() == 0 {
        assert(whole =~= "["@ + ("]"@ + rest));
        lemma_scan_lit("["@, "]"@ + rest);
        lemma_scan_lit("]"@, rest);
        assert(ms =~= Seq::<MessageView>::empty());
    } else {
        let t2 = enc_more_messages(ms.skip(1)) + "]"@ + rest;
        let t1 = enc_message(ms[0]) + t2;
        assert(whole =~= "["@ + t1);
        lemma_scan_lit("["@, t1);
        assert(t1[0] == '{') by {
            assert(enc_message(ms[0])[0] == '{');
        }
        lemma_scan_lit_mismatch(t1, "]"@, 0);
        lemma_scan_message_round_trip(ms[0], t2);
        lemma_scan_more_messages_round_trip(ms.skip(1), rest);
        assert(seq![ms[0]] + ms.skip(1) =~= ms);
    }
}

/// A clients-file entry scans off the front of its own encoding.
#[verifier::rlimit(100)]
proof fn lemma_scan_client_entry_round_trip(c: ClientInfoView, rest: Seq<char>)
    ensures
        scan_client_entry(enc_client_entry(c) + rest) == Some((c, rest)),
{
    reveal_strlit(":");
    let t2 = enc_client(c) + rest;
    let t1 = ":"@ + t2;
    let whole = enc_client_entry(c) + rest;
    assert(whole =~= quoted(c.id) + t1);
    lemma_scan_quoted_round_trip(c.id, t1);
    assert(t1 =~= ":"@ + t2);
    lemma_scan_lit(":"@, t2);
    lemma_scan_client_round_trip(c, rest);
}

/// The clients file's tail scans off the front of its own encoding.
#[verifier::rlimit(100)]
proof fn lemma_scan_more_clients_round_trip(cs: Seq<ClientInfoView>, rest: Seq<char>)
    ensures
        scan_more_clients(enc_more_clients(cs) + "}"@ + rest) == Some((cs, rest)),
    decreases cs.len(),
{
    reveal_strlit("}");
    reveal_strlit(",");
    if cs.len() == 0 {
        let whole = enc_more_clients(cs) + "}"@ + rest;
        assert(whole =~= "}"@ + rest);
        lemma_scan_lit("}"@, rest);
        assert(cs =~= Seq::<ClientInfoView>::empty());
    } else {
        lemma_scan_more_clients_round_trip(cs.skip(1), rest);
        let t2 = enc_more_clients(cs.skip(1)) + "}"@ + rest;
        let t1 = enc_client_entry(cs[0]) + t2;
        let whole = enc_more_clients(cs) + "}"@ + rest;
        assert(whole =~= ","@ + t1);
        assert(whole[0] == ',');
        lemma_scan_lit_mismatch(whole, "}"@, 0);
        lemma_scan_lit(","@, t1);
        lemma_scan_client_entry_round_trip(cs[0], t2);
        assert(t2.len() < whole.len()) by {
            assert(quoted(cs[0].id).len() >= 2);
        }
        assert(seq![cs[0]] + cs.skip(1) =~= cs);
    }
}

/// A queues-file entry scans off the front of its own encoding.
#[verifier::rlimit(100)]
proof fn lemma_scan_queue_entry_round_trip(q: (Seq<char>, Seq<MessageView>), rest: Seq<char>)
    ensures
        scan_queue_entry(enc_queue_entry(q) + rest) == Some((q, rest)),
{
    reveal_strlit(":");
    let t2 = enc_message_list(q.1) + rest;
    let t1 = ":"@ + t2;
    let whole = enc_queue_entry(q) + rest;
    assert(whole =~= quoted(q.0) + t1);
    lemma_scan_quoted_round_trip(q.0, t1);
    assert(t1 =~= ":"@ + t2);
    lemma_scan_lit(":"@, t2);
    lemma_scan_message_list_round_trip(q.1, rest);
}

/// The queues file's tail scans off the front of its own encoding.
#[verifier::rlimit(100)]
#[verifier::spinoff_prover]
proof fn lemma_scan_more_queues_round_trip(qs: Seq<(Seq<char>, Seq<MessageView>)>, rest: Seq<char>)
    ensures
        scan_more_queues(enc_more_queues(qs) + "}"@ + rest) == Some((qs, rest)),
    decreases qs.len(),
{
    reveal_strlit("}");
    reveal_strlit(",");
    if qs.len() == 0 {
        let whole = enc_more_queues(qs) + "}"@ + rest;
        assert(whole =~= "}"@ + rest);
        lemma_scan_lit("}"@, rest);
        assert(qs =~= Seq::<(Seq<char>, Seq<MessageView>)>::empty());
    } else {
        lemma_scan_more_queues_round_trip(qs.skip(1), rest);
        let t2 = enc_more_queues(qs.skip(1)) + "}"@ + rest;
        let t1 = enc_queue_entry(qs[0]) + t2;
        let whole = enc_more_queues(qs) + "}"@ + rest;
        assert(whole =~= ","@ + t1);
        assert(whole[0] == ',');
        lemma_scan_lit_mismatch(whole, "}"@, 0);
        lemma_scan_lit(","@, t1);
        lemma_scan_queue_entry_round_trip(qs[0], t2);
        assert(t2.len() < whole.len()) by {
            assert(quoted(qs[0].0).len() >= 2);
        }
        assert(seq![qs[0]] + qs.skip(1) =~= qs);
    }
}

/// Persisting then reloading is the identity: decoding an encoded clients
/// document or queues document yields exactly the entries that were written,
/// so a store reloaded after a restart holds the same mappings.
#[verifier::rlimit(100)]
proof fn lemma_clients_file_round_trip(cs: Seq<ClientInfoView>)
    ensures
        spec_decode_clients(enc_clients_file(cs)) == Some(cs),
{
    reveal_strlit("{");
    reveal_strlit("}");
    let empty = Seq::<char>::empty();
    let cw = enc_clients_file(cs);
    if cs.len() == 0 {
        assert(cw =~= "{"@ + ("}"@ + empty));
        lemma_scan_lit("{"@, "}"@ + empty);
        lemma_scan_lit("}"@, empty);
        assert(cs =~= Seq::<ClientInfoView>::empty());
    } else {
        let t2 = enc_more_clients(cs.skip(1)) + "}"@ + empty;
        let t1 = enc_client_entry(cs[0]) + t2;
        assert(cw =~= "{"@ + t1);
        lemma_scan_lit("{"@, t1);
        assert(t1[0] == '"') by {
            assert(quoted(cs[0].id)[0] == '"');
        }
        lemma_scan_lit_mismatch(t1, "}"@, 0);
        lemma_scan_client_entry_round_trip(cs[0], t2);
        lemma_scan_more_clients_round_trip(cs.skip(1), empty);
        assert(seq![cs[0]] + cs.skip(1) =~= cs);
    }
}

#[verifier::rlimit(100)]
proof fn lemma_queues_file_round_trip(qs: Seq<(Seq<char>, Seq<MessageView>)>)
    ensures
        spec_decode_queues(enc_queues_file(qs)) == Some(qs),
{
    reveal_strlit("{");
    reveal_strlit("}");
    let empty = Seq::<char>::empty();
    let qw = enc_queues_file(qs);
    if qs.len() == 0 {
        assert(qw =~= "{"@ + ("}"@ + empty));
        lemma_scan_lit("{"@, "}"@ + empty);
        lemma_scan_lit("}"@, empty);
        assert(qs =~= Seq::<(Seq<char>, Seq<MessageView>)>::empty());
    } else {
        let t2 = enc_more_queues(qs.skip(1)) + "}"@ + empty;
        let t1 = enc_queue_entry(qs[0]) + t2;
        assert(qw =~= "{"@ + t1);
        lemma_scan_lit("{"@, t1);
        assert(t1[0] == '"') by {
            assert(quoted(qs[0].0)[0] == '"');
        }
        lemma_scan_lit_mismatch(t1, "}"@, 0);
        lemma_scan_queue_entry_round_trip(qs[0], t2);
        lemma_scan_more_queues_round_trip(qs.skip(1), empty);
        assert(seq![qs[0]] + qs.skip(1) =~= qs);
    }
}

/// Persisting then reloading is the identity: decoding an encoded clients
/// document or queues document yields exactly the entries that were written,
/// so a store reloaded after a restart holds the same mappings.
pub proof fn lemma_persistence_round_trip(
    cs: Seq<ClientInfoView>,
    qs: Seq<(Seq<char>, Seq<MessageView>)>,
)
    ensures
        spec_decode_clients(enc_clients_file(cs)) == Some(cs),
        spec_decode_queues(enc_queues_file(qs)) == Some(qs),
{
    lemma_clients_file_round_trip(cs);
    lemma_queues_file_round_trip(qs);
}

/// The deep view of a queue association entry.
pub open spec fn queue_entry_view(q: (String, Vec<Message>)) -> (Seq<char>, Seq<MessageView>) {
    (q.0@, q.1@.map_values(|m: Message| m@))
}

/// Appending a message to a list extends its encoded tail by one item.
proof fn lemma_enc_more_messages_snoc(ms: Seq<MessageView>, x: MessageView)
    ensures
        enc_more_messages(ms.push(x)) == enc_more_messages(ms) + (","@ + enc_message(x)),
    decreases ms.len(),
{
    if ms.len() == 0 {
        assert(ms.push(x)[0] == x);
        assert(ms.push(x).skip(1) =~= Seq::<MessageView>::empty());
        assert(","@ + enc_message(x) + enc_more_messages(Seq::<MessageView>::empty()) =~= ","@
            + enc_message(x));
        assert(enc_more_messages(ms) + (","@ + enc_message(x)) =~= ","@ + enc_message(x));
    } else {
        lemma_enc_more_messages_snoc(ms.skip(1), x);
        assert(ms.push(x)[0] == ms[0]);
        assert(ms.push(x).skip(1) =~= ms.skip(1).push(x));
        assert(","@ + enc_message(ms[0]) + (enc_more_messages(ms.skip(1)) + (","@ + enc_message(
            x,
        ))) =~= (","@ + enc_message(ms[0]) + enc_more_messages(ms.skip(1))) + (","@ + enc_message(
            x,
        )));
    }
}

/// Appending a client extends the encoded file tail by one entry.
proof fn lemma_enc_more_clients_snoc(cs: Seq<ClientInfoView>, x: ClientInfoView)
    ensures
        enc_more_clients(cs.push(x)) == enc_more_clients(cs) + (","@ + enc_client_entry(x)),
    decreases cs.len(),
{
    if cs.len() == 0 {
        assert(cs.push(x)[0] == x);
        assert(cs.push(x).skip(1) =~= Seq::<ClientInfoView>::empty());
        assert(","@ + enc_client_entry(x) + enc_more_clients(Seq::<ClientInfoView>::empty()) =~= ","@
            + enc_client_entry(x));
        assert(enc_more_clients(cs) + (","@ + enc_client_entry(x)) =~= ","@ + enc_client_entry(x));
    } else {
        lemma_enc_more_clients_snoc(cs.skip(1), x);
        assert(cs.push(x)[0] == cs[0]);
        assert(cs.push(x).skip(1) =~= cs.skip(1).push(x));
        assert(","@ + enc_client_entry(cs[0]) + (enc_more_clients(cs.skip(1)) + (","@
            + enc_client_entry(x))) =~= (","@ + enc_client_entry(cs[0]) + enc_more_clients(
            cs.skip(1),
        )) + (","@ + enc_client_entry(x)));
    }
}

/// Appending a queue extends the encoded file tail by one entry.
proof fn lemma_enc_more_queues_snoc(qs: Seq<(Seq<char>, Seq<MessageView>)>, x: (Seq<char>, Seq<MessageView>))
    ensures
        enc_more_queues(qs.push(x)) == enc_more_queues(qs) + (","@ + enc_queue_entry(x)),
    decreases qs.len(),
{
    if qs.len() == 0 {
        assert(qs.push(x)[0] == x);
        assert(qs.push(x).skip(1) =~= Seq::<(Seq<char>, Seq<MessageView>)>::empty());
        assert(","@ + enc_queue_entry(x) + enc_more_queues(
            Seq::<(Seq<char>, Seq<MessageView>)>::empty(),
        ) =~= ","@ + enc_queue_entry(x));
        assert(enc_more_queues(qs) + (","@ + enc_queue_entry(x)) =~= ","@ + enc_queue_entry(x));
    } else {
        lemma_enc_more_queues_snoc(qs.skip(1), x);
        assert(qs.push(x)[0] == qs[0]);
        assert(qs.push(x).skip(1) =~= qs.skip(1).push(x));
        assert(","@ + enc_queue_entry(qs[0]) + (enc_more_queues(qs.skip(1)) + (","@
            + enc_queue_entry(x))) =~= (","@ + enc_queue_entry(qs[0]) + enc_more_queues(
            qs.skip(1),
        )) + (","@ + enc_queue_entry(x)));
    }
}

/// Append a message list's wire text.
#[verifier::rlimit(100)]
#[verifier::spinoff_prover]
fn push_message_list(out: &mut Vec<char>, ms: &Vec<Message>)
    ensures
        final(out)@ == old(out)@ + enc_message_list(ms@.map_values(|m: Message| m@)),
{
    let ghost base = out@;
    let ghost views = ms@.map_values(|m: Message| m@);
    push_lit(out, "[");
    let mut i: usize = 0;
    while i < ms.len()
        invariant
            i <= ms@.len(),
            views == ms@.map_values(|m: Message| m@),
            out@ == base + "["@ + (if i == 0 {
                Seq::<char>::empty()
            } else {
                enc_message(views[0]) + enc_more_messages(views.take(i as int).skip(1))
            }),
        decreases ms@.len() - i,
    {
        if i == 0 {
            push_message(out, &ms[0]);
            proof {
                assert(views.take(1int).skip(1) =~= Seq::<MessageView>::empty());
                assert(out@ =~= base + "["@ + (enc_message(views[0]) + enc_more_messages(
                    views.take(1int).skip(1),
                )));
            }
        } else {
            push_lit(out, ",");
            push_message(out, &ms[i]);
            proof {
                lemma_enc_more_messages_snoc(views.take(i as int).skip(1), views[i as int]);
                assert(views.take(i as int).skip(1).push(views[i as int]) =~= views.take(
                    i + 1 as int,
                ).skip(1));
                assert(out@ =~= base + "["@ + (enc_message(views[0]) + enc_more_messages(
                    views.take(i + 1 as int).skip(1),
                )));
            }
        }
        i = i + 1;
    }
    push_lit(out, "]");
    proof {
        if ms@.len() == 0 {
            assert(out@ =~= base + enc_message_list(views));
        } else {
            assert(views.take(views.len() as int).skip(1) =~= views.skip(1));
            assert(out@ =~= base + enc_message_list(views));
        }
    }
}

/// Encode the clients document: each record keyed by its own id, in store
/// order.
#[verifier::rlimit(100)]
#[verifier::spinoff_prover]
pub fn encode_clients(clients: &Vec<ClientInfo>) -> (r: String)
    ensures
        r@ == enc_clients_file(clients@.map_values(|c: ClientInfo| c@)),
{
    let ghost views = clients@.map_values(|c: ClientInfo| c@);
    let mut out: Vec<char> = Vec::new();
    push_lit(&mut out, "{");
    let mut i: usize = 0;
    while i < clients.len()
        invariant
            i <= clients@.len(),
            views == clients@.map_values(|c: ClientInfo| c@),
            out@ == "{"@ + (if i == 0 {
                Seq::<char>::empty()
            } else {
                enc_client_entry(views[0]) + enc_more_clients(views.take(i as int).skip(1))
            }),
        decreases clients@.len() - i,
    {
        if i == 0 {
            push_quoted(&mut out, clients[0].id.as_str());
            push_lit(&mut out, ":");
            push_client(&mut out, &clients[0]);
            proof {
                assert(views.take(1int).skip(1) =~= Seq::<ClientInfoView>::empty());
                assert(out@ =~= "{"@ + (enc_client_entry(views[0]) + enc_more_clients(
                    views.take(1int).skip(1),
                )));
            }
        } else {
            push_lit(&mut out, ",");
            push_quoted(&mut out, clients[i].id.as_str());
            push_lit(&mut out, ":");
            push_client(&mut out, &clients[i]);
            proof {
                lemma_enc_more_clients_snoc(views.take(i as int).skip(1), views[i as int]);
                assert(views.take(i as int).skip(1).push(views[i as int]) =~= views.take(
                    i + 1 as int,
                ).skip(1));
                assert(out@ =~= "{"@ + (enc_client_entry(views[0]) + enc_more_clients(
                    views.take(i + 1 as int).skip(1),
                )));
            }
        }
        i = i + 1;
    }
    push_lit(&mut out, "}");
    proof {
        if clients@.len() == 0 {
            assert(out@ =~= enc_clients_file(views));
        } else {
            assert(views.take(views.len() as int).skip(1) =~= views.skip(1));
            assert(out@ =~= enc_clients_file(views));
        }
    }
    chars_to_string(&out)
}

/// Append one queues-file entry.
#[verifier::rlimit(100)]
fn push_queue_entry(out: &mut Vec<char>, q: &(String, Vec<Message>))
    ensures
        final(out)@ == old(out)@ + enc_queue_entry(queue_entry_view(*q)),
{
    push_quoted(out, q.0.as_str());
    push_lit(out, ":");
    push_message_list(out, &q.1);
    proof {
        assert(out@ =~= old(out)@ + enc_queue_entry(queue_entry_view(*q)));
    }
}

/// Encode the queues document: each queue keyed by its recipient, in store
/// order.
#[verifier::rlimit(100)]
#[verifier::spinoff_prover]
pub fn encode_queues(queues: &Vec<(String, Vec<Message>)>) -> (r: String)
    ensures
        r@ == enc_queues_file(queues@.map_values(|q: (String, Vec<Message>)| queue_entry_view(q))),
{
    let ghost views = queues@.map_values(|q: (String, Vec<Message>)| queue_entry_view(q));
    let mut out: Vec<char> = Vec::new();
    push_lit(&mut out, "{");
    let mut i: usize = 0;
    while i < queues.len()
        invariant
            i <= queues@.len(),
            views == queues@.map_values(|q: (String, Vec<Message>)| queue_entry_view(q)),
            out@ == "{"@ + (if i == 0 {
                Seq::<char>::empty()
            } else {
                enc_queue_entry(views[0]) + enc_more_queues(views.take(i as int).skip(1))
            }),
        decreases queues@.len() - i,
    {
        if i == 0 {
            push_queue_entry(&mut out, &queues[0]);
            proof {
                assert(views.take(1int).skip(1) =~= Seq::<(Seq<char>, Seq<MessageView>)>::empty());
                assert(out@ =~= "{"@ + (enc_queue_entry(views[0]) + enc_more_queues(
                    views.take(1int).skip(1),
                )));
            }
        } else {
            push_lit(&mut out, ",");
            push_queue_entry(&mut out, &queues[i]);
            proof {
                lemma_enc_more_queues_snoc(views.take(i as int).skip(1), views[i as int]);
                assert(views.take(i as int).skip(1).push(views[i as int]) =~= views.take(
                    i + 1 as int,
                ).skip(1));
                assert(out@ =~= "{"@ + (enc_queue_entry(views[0]) + enc_more_queues(
                    views.take(i + 1 as int).skip(1),
                )));
            }
        }
        i = i + 1;
    }
    push_lit(&mut out, "}");
    proof {
        if queues@.len() == 0 {
            assert(out@ =~= enc_queues_file(views));
        } else {
            assert(views.take(views.len() as int).skip(1) =~= views.skip(1));
            assert(out@ =~= enc_queues_file(views));
        }
    }
    chars_to_string(&out)
}

/// Parse a message list.
fn parse_message_list(input: &Vec<char>, pos: usize) -> (r: Option<(Vec<Message>, usize)>)
    requires
        pos <= input@.len(),
    ensures
        match r {
            Some((ms, p)) => pos <= p <= input@.len() && scan_message_list(
                input@.skip(pos as int),
            ) == Some((ms@.map_values(|m: Message| m@), input@.skip(p as int))),
            None => scan_message_list(input@.skip(pos as int)) is None,
        },
{
    let p1 = match parse_lit(input, pos, "[") {
        Some(p) => p,
        None => {
            return None;
        },
    };
    match parse_lit(input, p1, "]") {
        Some(p2) => {
            let ms: Vec<Message> = Vec::new();
            proof {
                assert(ms@.map_values(|m: Message| m@) =~= Seq::<MessageView>::empty());
            }
            return Some((ms, p2));
        },
        None => {},
    }
    let (first, p2) = match parse_message(input, p1) {
        Some(x) => x,
        None => {
            return None;
        },
    };
    let mut ms: Vec<Message> = Vec::new();
    let ghost first_view = first@;
    ms.push(first);
    let mut cur: usize = p2;
    loop
        invariant
            pos <= cur <= input@.len(),
            ms@.len() >= 1,
            ms@.map_values(|m: Message| m@)[0] == first_view,
            match scan_more_messages(input@.skip(cur as int)) {
                Some((ms2, rest)) => scan_message_list(input@.skip(pos as int)) == Some(
                    (ms@.map_values(|m: Message| m@) + ms2, rest),
                ),
                None => scan_message_list(input@.skip(pos as int)) is None,
            },
        decreases input@.len() - cur,
    {
        let ghost rem = input@.skip(cur as int);
        match parse_lit(input, cur, "]") {
            Some(p) => {
                proof {
                    assert(ms@.map_values(|m: Message| m@) + Seq::<MessageView>::empty()
                        =~= ms@.map_values(|m: Message| m@));
                }
                return Some((ms, p));
            },
            None => {},
        }
        let pc = match parse_lit(input, cur, ",") {
            Some(p) => p,
            None => {
                return None;
            },
        };
        let (item, p_next) = match parse_message(input, pc) {
            Some(x) => x,
            None => {
                return None;
            },
        };
        let ghost ms_pre = ms@.map_values(|m: Message| m@);
        let ghost item_view = item@;
        ms.push(item);
        proof {
            reveal_strlit(",");
            let tail_rem = input@.skip(p_next as int);
            assert(tail_rem.len() < rem.len());
            if scan_more_messages(tail_rem) is Some {
                let (ms2, rest) = scan_more_messages(tail_rem)->0;
                assert(scan_more_messages(rem) == Some((seq![item_view] + ms2, rest)));
                assert(ms@.map_values(|m: Message| m@) =~= ms_pre.push(item_view));
                assert(ms@.map_values(|m: Message| m@) + ms2 =~= ms_pre + (seq![item_view] + ms2));
            } else {
                assert(scan_more_messages(rem) is None);
            }
        }
        cur = p_next;
    }
}

/// Parse one clients-file entry.
fn parse_client_entry(input: &Vec<char>, pos: usize) -> (r: Option<(ClientInfo, usize)>)
    requires
        pos <= input@.len(),
    ensures
        match r {
            Some((c, p)) => pos <= p <= input@.len() && scan_client_entry(input@.skip(pos as int))
                == Some((c@, input@.skip(p as int))),
            None => scan_client_entry(input@.skip(pos as int)) is None,
        },
{
    let (key, p1) = match parse_quoted(input, pos) {
        Some(x) => x,
        None => {
            return None;
        },
    };
    let p2 = match parse_lit(input, p1, ":") {
        Some(p) => p,
        None => {
            return None;
        },
    };
    match parse_client(input, p2) {
        Some((c, p3)) => {
            if c.id.eq(&key) {
                Some((c, p3))
            } else {
                None
            }
        },
        None => None,
    }
}

/// Parse one queues-file entry.
fn parse_queue_entry(input: &Vec<char>, pos: usize) -> (r: Option<((String, Vec<Message>), usize)>)
    requires
        pos <= input@.len(),
    ensures
        match r {
            Some((q, p)) => pos <= p <= input@.len() && scan_queue_entry(input@.skip(pos as int))
                == Some((queue_entry_view(q), input@.skip(p as int))),
            None => scan_queue_entry(input@.skip(pos as int)) is None,
        },
{
    let (key, p1) = match parse_quoted(input, pos) {
        Some(x) => x,
        None => {
            return None;
        },
    };
    let p2 = match parse_lit(input, p1, ":") {
        Some(p) => p,
        None => {
            return None;
        },
    };
    match parse_message_list(input, p2) {
        Some((ms, p3)) => Some(((key, ms), p3)),
        None => None,
    }
}

/// Decode a whole clients document; `None` on anything but a canonical
/// encoding.
pub fn decode_clients(s: &str) -> (r: Option<Vec<ClientInfo>>)
    ensures
        match r {
            Some(cs) => spec_decode_clients(s@) == Some(cs@.map_values(|c: ClientInfo| c@)),
            None => spec_decode_clients(s@) is None,
        },
{
    let input = str_to_chars(s);
    let n = input.len();
    proof {
        assert(input@.skip(0) =~= s@);
    }
    let p1 = match parse_lit(&input, 0, "{") {
        Some(p) => p,
        None => {
            return None;
        },
    };
    match parse_lit(&input, p1, "}") {
        Some(p2) => {
            if p2 == n {
                let cs: Vec<ClientInfo> = Vec::new();
                proof {
                    assert(cs@.map_values(|c: ClientInfo| c@) =~= Seq::<ClientInfoView>::empty());
                }
                return Some(cs);
            } else {
                return None;
            }
        },
        None => {},
    }
    let (first, p2) = match parse_client_entry(&input, p1) {
        Some(x) => x,
        None => {
            return None;
        },
    };
    let mut cs: Vec<ClientInfo> = Vec::new();
    let ghost first_view = first@;
    cs.push(first);
    let mut cur: usize = p2;
    loop
        invariant
            cur <= input@.len(),
            cs@.len() >= 1,
            match scan_more_clients(input@.skip(cur as int)) {
                Some((cs2, rest)) => scan_clients_file(s@) == Some(
                    (cs@.map_values(|c: ClientInfo| c@) + cs2, rest),
                ),
                None => scan_clients_file(s@) is None,
            },
            n == input@.len(),
            s@ == input@,
        decreases input@.len() - cur,
    {
        let ghost rem = input@.skip(cur as int);
        match parse_lit(&input, cur, "}") {
            Some(p) => {
                if p == n {
                    proof {
                        assert(cs@.map_values(|c: ClientInfo| c@) + Seq::<ClientInfoView>::empty()
                            =~= cs@.map_values(|c: ClientInfo| c@));
                        assert(input@.skip(p as int).len() == 0);
                    }
                    return Some(cs);
                } else {
                    proof {
                        assert(cs@.map_values(|c: ClientInfo| c@) + Seq::<ClientInfoView>::empty()
                            =~= cs@.map_values(|c: ClientInfo| c@));
                        assert(input@.skip(p as int).len() > 0);
                    }
                    return None;
                }
            },
            None => {},
        }
        let pc = match parse_lit(&input, cur, ",") {
            Some(p) => p,
            None => {
                return None;
            },
        };
        let (item, p_next) = match parse_client_entry(&input, pc) {
            Some(x) => x,
            None => {
                return None;
            },
        };
        let ghost cs_pre = cs@.map_values(|c: ClientInfo| c@);
        let ghost item_view = item@;
        cs.push(item);
        proof {
            reveal_strlit(",");
            let tail_rem = input@.skip(p_next as int);
            assert(tail_rem.len() < rem.len());
            if scan_more_clients(tail_rem) is Some {
                let (cs2, rest) = scan_more_clients(tail_rem)->0;
                assert(scan_more_clients(rem) == Some((seq![item_view] + cs2, rest)));
                assert(cs@.map_values(|c: ClientInfo| c@) =~= cs_pre.push(item_view));
                assert(cs@.map_values(|c: ClientInfo| c@) + cs2 =~= cs_pre + (seq![item_view]
                    + cs2));
            } else {
                assert(scan_more_clients(rem) is None);
            }
        }
        cur = p_next;
    }
}

/// Decode a whole queues document; `None` on anything but a canonical
/// encoding.
pub fn decode_queues(s: &str) -> (r: Option<Vec<(String, Vec<Message>)>>)
    ensures
        match r {
            Some(qs) => spec_decode_queues(s@) == Some(
                qs@.map_values(|q: (String, Vec<Message>)| queue_entry_view(q)),
            ),
            None => spec_decode_queues(s@) is None,
        },
{
    let input = str_to_chars(s);
    let n = input.len();
    proof {
        assert(input@.skip(0) =~= s@);
    }
    let p1 = match parse_lit(&input, 0, "{") {
        Some(p) => p,
        None => {
            return None;
        },
    };
    match parse_lit(&input, p1, "}") {
        Some(p2) => {
            if p2 == n {
                let qs: Vec<(String, Vec<Message>)> = Vec::new();
                proof {
                    assert(qs@.map_values(|q: (String, Vec<Message>)| queue_entry_view(q))
                        =~= Seq::<(Seq<char>, Seq<MessageView>)>::empty());
                }
                return Some(qs);
            } else {
                return None;
            }
        },
        None => {},
    }
    let (first, p2) = match parse_queue_entry(&input, p1) {
        Some(x) => x,
        None => {
            return None;
        },
    };
    let mut qs: Vec<(String, Vec<Message>)> = Vec::new();
    let ghost first_view = queue_entry_view(first);
    qs.push(first);
    let mut cur: usize = p2;
    loop
        invariant
            cur <= input@.len(),
            qs@.len() >= 1,
            match scan_more_queues(input@.skip(cur as int)) {
                Some((qs2, rest)) => scan_queues_file(s@) == Some(
                    (qs@.map_values(|q: (String, Vec<Message>)| queue_entry_view(q)) + qs2, rest),
                ),
                None => scan_queues_file(s@) is None,
            },
            n == input@.len(),
            s@ == input@,
        decreases input@.len() - cur,
    {
        let ghost rem = input@.skip(cur as int);
        match parse_lit(&input, cur, "}") {
            Some(p) => {
                if p == n {
                    proof {
                        assert(qs@.map_values(|q: (String, Vec<Message>)| queue_entry_view(q))
                            + Seq::<(Seq<char>, Seq<MessageView>)>::empty() =~= qs@.map_values(
                            |q: (String, Vec<Message>)| queue_entry_view(q),
                        ));
                        assert(input@.skip(p as int).len() == 0);
                    }
                    return Some(qs);
                } else {
                    proof {
                        assert(qs@.map_values(|q: (String, Vec<Message>)| queue_entry_view(q))
                            + Seq::<(Seq<char>, Seq<MessageView>)>::empty() =~= qs@.map_values(
                            |q: (String, Vec<Message>)| queue_entry_view(q),
                        ));
                        assert(input@.skip(p as int).len() > 0);
                    }
                    return None;
                }
            },
            None => {},
        }
        let pc = match parse_lit(&input, cur, ",") {
            Some(p) => p,
            None => {
                return None;
            },
        };
        let (item, p_next) = match parse_queue_entry(&input, pc) {
            Some(x) => x,
            None => {
                return None;
            },
        };
        let ghost qs_pre = qs@.map_values(|q: (String, Vec<Message>)| queue_entry_view(q));
        let ghost item_view = queue_entry_view(item);
        qs.push(item);
        proof {
            reveal_strlit(",");
            let tail_rem = input@.skip(p_next as int);
            assert(tail_rem.len() < rem.len());
            if scan_more_queues(tail_rem) is Some {
                let (qs2, rest) = scan_more_queues(tail_rem)->0;
                assert(scan_more_queues(rem) == Some((seq![item_view] + qs2, rest)));
                assert(qs@.map_values(|q: (String, Vec<Message>)| queue_entry_view(q))
                    =~= qs_pre.push(item_view));
                assert(qs@.map_values(|q: (String, Vec<Message>)| queue_entry_view(q)) + qs2
                    =~= qs_pre + (seq![item_view] + qs2));
            } else {
                assert(scan_more_queues(rem) is None);
            }
        }
        cur = p_next;
    }
}

} // verus!
