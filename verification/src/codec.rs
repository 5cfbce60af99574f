//! The protocol codec: the command and response unions, and the persisted
//! record types, to and from their canonical JSON wire text.
//!
//! The wire representation is a closed set. Variants carry their fields in
//! declaration order with no whitespace; a unit variant is its bare tag
//! string. The scanners accept exactly the canonical form, so decoding is a
//! function and inverts encoding; anything else is a decode failure, which the
//! protocol layer answers with an error rather than aborting.

use vstd::prelude::*;
use crate::jsontext::{
    escape_string, lemma_scan_lit, lemma_scan_string_round_trip, parse_bool, parse_lit,
    parse_quoted, push_lit, push_quoted, quoted, scan_bool, scan_lit, scan_quoted,
};
use crate::strutil::{chars_to_string, str_to_chars};
use crate::types::{
    ClientInfo, ClientInfoView, CommandView, Message, MessageView, ResponseView, ServerCommand,
    ServerResponse,
};

verus! {

// ---------------------------------------------------------------------------
// Spec-level encoders.
// ---------------------------------------------------------------------------

/// The wire text of a message record.
pub open spec fn enc_message(m: MessageView) -> Seq<char> {
    "{\"id\":"@ + quoted(m.id) + ",\"sender_id\":"@ + quoted(m.sender_id) + ",\"recipient_id\":"@
        + quoted(m.recipient_id) + ",\"content\":"@ + quoted(m.content) + ",\"timestamp\":"@
        + quoted(m.timestamp) + ",\"encrypted\":"@ + (if m.encrypted {
        "true"@
    } else {
        "false"@
    }) + ",\"signature\":"@ + (match m.signature {
        Some(s) => quoted(s),
        None => "null"@,
    }) + "}"@
}

/// The wire text of a client record.
pub open spec fn enc_client(c: ClientInfoView) -> Seq<char> {
    "{\"id\":"@ + quoted(c.id) + ",\"public_key\":"@ + quoted(c.public_key)
        + ",\"registered_at\":"@ + quoted(c.registered_at) + ",\"last_seen\":"@ + quoted(
        c.last_seen,
    ) + "}"@
}

/// The wire text of a command.
pub open spec fn enc_command(c: CommandView) -> Seq<char> {
    match c {
        CommandView::Register { client_id, public_key } => "{\"Register\":{\"client_id\":"@
            + quoted(client_id) + ",\"public_key\":"@ + quoted(public_key) + "}}"@,
        CommandView::Send { sender_id, recipient_id, encrypted_content, signature, message_id } =>
            "{\"Send\":{\"sender_id\":"@ + quoted(sender_id) + ",\"recipient_id\":"@ + quoted(
                recipient_id,
            ) + ",\"encrypted_content\":"@ + quoted(encrypted_content) + ",\"signature\":"@
                + quoted(signature) + ",\"message_id\":"@ + quoted(message_id) + "}}"@,
        CommandView::GetMessages { client_id } => "{\"GetMessages\":{\"client_id\":"@ + quoted(
            client_id,
        ) + "}}"@,
        CommandView::GetClients => "\"GetClients\""@,
        CommandView::Heartbeat { client_id } => "{\"Heartbeat\":{\"client_id\":"@ + quoted(
            client_id,
        ) + "}}"@,
    }
}

/// The wire text of a string list.
pub open spec fn enc_more_strings(ss: Seq<Seq<char>>) -> Seq<char>
    decreases ss.len(),
{
    if ss.len() == 0 {
        Seq::empty()
    } else {
        ","@ + quoted(ss[0]) + enc_more_strings(ss.skip(1))
    }
}

/// The wire text of a string list.
pub open spec fn enc_string_list(ss: Seq<Seq<char>>) -> Seq<char> {
    "["@ + (if ss.len() == 0 {
        Seq::<char>::empty()
    } else {
        quoted(ss[0]) + enc_more_strings(ss.skip(1))
    }) + "]"@
}

/// The wire text of a response.
pub open spec fn enc_response(r: ResponseView) -> Seq<char> {
    match r {
        ResponseView::Registered { server_public_key } =>
            "{\"Registered\":{\"server_public_key\":"@ + quoted(server_public_key) + "}}"@,
        ResponseView::MessageSent { message_id } => "{\"MessageSent\":{\"message_id\":"@ + quoted(
            message_id,
        ) + "}}"@,
        ResponseView::MessageReceived { message } => "{\"MessageReceived\":{\"message\":"@
            + enc_message(message) + "}}"@,
        ResponseView::ClientList { clients } => "{\"ClientList\":{\"clients\":"@ + enc_string_list(
            clients,
        ) + "}}"@,
        ResponseView::Error { message } => "{\"Error\":{\"message\":"@ + quoted(message) + "}}"@,
        ResponseView::Ack => "\"Ok\""@,
    }
}

// ---------------------------------------------------------------------------
// Spec-level scanners.
// ---------------------------------------------------------------------------

/// Scan a literal key followed by a quoted string.
pub open spec fn scan_key_str(s: Seq<char>, key: Seq<char>) -> Option<(Seq<char>, Seq<char>)> {
    match scan_lit(s, key) {
        Some(rest) => scan_quoted(rest),
        None => None,
    }
}

/// Scan `null` or a quoted string.
pub open spec fn scan_opt_str(s: Seq<char>) -> Option<(Option<Seq<char>>, Seq<char>)> {
    if s.len() >= 1 && s[0] == '"' {
        match scan_quoted(s) {
            Some((v, rest)) => Some((Some(v), rest)),
            None => None,
        }
    } else {
        match scan_lit(s, "null"@) {
            Some(rest) => Some((None, rest)),
            None => None,
        }
    }
}

/// Scan a message record.
pub open spec fn scan_message(s: Seq<char>) -> Option<(MessageView, Seq<char>)> {
    match scan_key_str(s, "{\"id\":"@) {
        Some((id, r1)) => match scan_key_str(r1, ",\"sender_id\":"@) {
            Some((sender_id, r2)) => match scan_key_str(r2, ",\"recipient_id\":"@) {
                Some((recipient_id, r3)) => match scan_key_str(r3, ",\"content\":"@) {
                    Some((content, r4)) => match scan_key_str(r4, ",\"timestamp\":"@) {
                        Some((timestamp, r5)) => match scan_lit(r5, ",\"encrypted\":"@) {
                            Some(r6) => match scan_bool(r6) {
                                Some((encrypted, r7)) => match scan_lit(r7, ",\"signature\":"@) {
                                    Some(r8) => match scan_opt_str(r8) {
                                        Some((signature, r9)) => match scan_lit(r9, "}"@) {
                                            Some(rest) => Some(
                                                (
                                                    MessageView {
                                                        id,
                                                        sender_id,
                                                        recipient_id,
                                                        content,
                                                        timestamp,
                                                        encrypted,
                                                        signature,
                                                    },
                                                    rest,
                                                ),
                                            ),
                                            None => None,
                                        },
                                        None => None,
                                    },
                                    None => None,
                                },
                                None => None,
                            },
                            None => None,
                        },
                        None => None,
                    },
                    None => None,
                },
                None => None,
            },
            None => None,
        },
        None => None,
    }
}

/// Scan a client record.
pub open spec fn scan_client(s: Seq<char>) -> Option<(ClientInfoView, Seq<char>)> {
    match scan_key_str(s, "{\"id\":"@) {
        Some((id, r1)) => match scan_key_str(r1, ",\"public_key\":"@) {
            Some((public_key, r2)) => match scan_key_str(r2, ",\"registered_at\":"@) {
                Some((registered_at, r3)) => match scan_key_str(r3, ",\"last_seen\":"@) {
                    Some((last_seen, r4)) => match scan_lit(r4, "}"@) {
                        Some(rest) => Some(
                            (ClientInfoView { id, public_key, registered_at, last_seen }, rest),
                        ),
                        None => None,
                    },
                    None => None,
                },
                None => None,
            },
            None => None,
        },
        None => None,
    }
}

/// Scan the tail of a string list: `]`, or `,` and another item.
pub open spec fn scan_more_strings(s: Seq<char>) -> Option<(Seq<Seq<char>>, Seq<char>)>
    decreases s.len(),
{
    match scan_lit(s, "]"@) {
        Some(rest) => Some((Seq::empty(), rest)),
        None => match scan_lit(s, ","@) {
            Some(r1) => match scan_quoted(r1) {
                Some((item, r2)) => {
                    if r2.len() < s.len() {
                        match scan_more_strings(r2) {
                            Some((items, rest)) => Some((seq![item] + items, rest)),
                            None => None,
                        }
                    } else {
                        None
                    }
                },
                None => None,
            },
            None => None,
        },
    }
}

/// Scan a string list.
pub open spec fn scan_string_list(s: Seq<char>) -> Option<(Seq<Seq<char>>, Seq<char>)> {
    match scan_lit(s, "["@) {
        Some(r1) => match scan_lit(r1, "]"@) {
            Some(rest) => Some((Seq::empty(), rest)),
            None => match scan_quoted(r1) {
                Some((item, r2)) => match scan_more_strings(r2) {
                    Some((items, rest)) => Some((seq![item] + items, rest)),
                    None => None,
                },
                None => None,
            },
        },
        None => None,
    }
}

/// Scan a command, trying the variants of the closed union in order.
pub open spec fn scan_command(s: Seq<char>) -> Option<(CommandView, Seq<char>)> {
    match scan_key_str(s, "{\"Register\":{\"client_id\":"@) {
        Some((client_id, r1)) => match scan_key_str(r1, ",\"public_key\":"@) {
            Some((public_key, r2)) => match scan_lit(r2, "}}"@) {
                Some(rest) => Some((CommandView::Register { client_id, public_key }, rest)),
                None => None,
            },
            None => None,
        },
        None => match scan_key_str(s, "{\"Send\":{\"sender_id\":"@) {
            Some((sender_id, r1)) => match scan_key_str(r1, ",\"recipient_id\":"@) {
                Some((recipient_id, r2)) => match scan_key_str(r2, ",\"encrypted_content\":"@) {
                    Some((encrypted_content, r3)) => match scan_key_str(r3, ",\"signature\":"@) {
                        Some((signature, r4)) => match scan_key_str(r4, ",\"message_id\":"@) {
                            Some((message_id, r5)) => match scan_lit(r5, "}}"@) {
                                Some(rest) => Some(
                                    (
                                        CommandView::Send {
                                            sender_id,
                                            recipient_id,
                                            encrypted_content,
                                            signature,
                                            message_id,
                                        },
                                        rest,
                                    ),
                                ),
                                None => None,
                            },
                            None => None,
                        },
                        None => None,
                    },
                    None => None,
                },
                None => None,
            },
            None => match scan_key_str(s, "{\"GetMessages\":{\"client_id\":"@) {
                Some((client_id, r1)) => match scan_lit(r1, "}}"@) {
                    Some(rest) => Some((CommandView::GetMessages { client_id }, rest)),
                    None => None,
                },
                None => match scan_lit(s, "\"GetClients\""@) {
                    Some(rest) => Some((CommandView::GetClients, rest)),
                    None => match scan_key_str(s, "{\"Heartbeat\":{\"client_id\":"@) {
                        Some((client_id, r1)) => match scan_lit(r1, "}}"@) {
                            Some(rest) => Some((CommandView::Heartbeat { client_id }, rest)),
                            None => None,
                        },
                        None => None,
                    },
                },
            },
        },
    }
}

/// Scan a response, trying the variants of the closed union in order.
pub open spec fn scan_response(s: Seq<char>) -> Option<(ResponseView, Seq<char>)> {
    match scan_key_str(s, "{\"Registered\":{\"server_public_key\":"@) {
        Some((server_public_key, r1)) => match scan_lit(r1, "}}"@) {
            Some(rest) => Some((ResponseView::Registered { server_public_key }, rest)),
            None => None,
        },
        None => match scan_key_str(s, "{\"MessageSent\":{\"message_id\":"@) {
            Some((message_id, r1)) => match scan_lit(r1, "}}"@) {
                Some(rest) => Some((ResponseView::MessageSent { message_id }, rest)),
                None => None,
            },
            None => match scan_lit(s, "{\"MessageReceived\":{\"message\":"@) {
                Some(r1) => match scan_message(r1) {
                    Some((message, r2)) => match scan_lit(r2, "}}"@) {
                        Some(rest) => Some((ResponseView::MessageReceived { message }, rest)),
                        None => None,
                    },
                    None => None,
                },
                None => match scan_lit(s, "{\"ClientList\":{\"clients\":"@) {
                    Some(r1) => match scan_string_list(r1) {
                        Some((clients, r2)) => match scan_lit(r2, "}}"@) {
                            Some(rest) => Some((ResponseView::ClientList { clients }, rest)),
                            None => None,
                        },
                        None => None,
                    },
                    None => match scan_key_str(s, "{\"Error\":{\"message\":"@) {
                        Some((message, r1)) => match scan_lit(r1, "}}"@) {
                            Some(rest) => Some((ResponseView::Error { message }, rest)),
                            None => None,
                        },
                        None => match scan_lit(s, "\"Ok\""@) {
                            Some(rest) => Some((ResponseView::Ack, rest)),
                            None => None,
                        },
                    },
                },
            },
        },
    }
}

/// Decode a whole command document: a command scan that consumes everything.
pub open spec fn spec_decode_command(s: Seq<char>) -> Option<CommandView> {
    match scan_command(s) {
        Some((c, rest)) => if rest.len() == 0 {
            Some(c)
        } else {
            None
        },
        None => None,
    }
}

/// Decode a whole response document: a response scan that consumes everything.
pub open spec fn spec_decode_response(s: Seq<char>) -> Option<ResponseView> {
    match scan_response(s) {
        Some((r, rest)) => if rest.len() == 0 {
            Some(r)
        } else {
            None
        },
        None => None,
    }
}

// ---------------------------------------------------------------------------
// Round-trip lemmas: scanning undoes encoding.
// ---------------------------------------------------------------------------

/// A scan fails on text that differs from the literal inside the literal's
/// length.
pub(crate) proof fn lemma_scan_lit_mismatch(s: Seq<char>, lit: Seq<char>, i: int)
    requires
        0 <= i < lit.len(),
        i < s.len(),
        s[i] != lit[i],
    ensures
        scan_lit(s, lit) is None,
{
    if lit.len() <= s.len() && s.take(lit.len() as int) == lit {
        assert(s.take(lit.len() as int)[i] == s[i]);
    }
}

/// A quoted string scans off the front of its own encoding.
pub proof fn lemma_scan_quoted_round_trip(s: Seq<char>, rest: Seq<char>)
    ensures
        scan_quoted(quoted(s) + rest) == Some((s, rest)),
{
    let whole = quoted(s) + rest;
    assert(whole[0] == '"');
    assert(whole.skip(1) =~= escape_string(s) + seq!['"'] + rest);
    lemma_scan_string_round_trip(s, rest);
}

/// A key and its quoted value scan off the front of their own encoding.
pub proof fn lemma_scan_key_str(key: Seq<char>, s: Seq<char>, rest: Seq<char>)
    ensures
        scan_key_str(key + quoted(s) + rest, key) == Some((s, rest)),
{
    let whole = key + quoted(s) + rest;
    assert(whole =~= key + (quoted(s) + rest));
    lemma_scan_lit(key, quoted(s) + rest);
    lemma_scan_quoted_round_trip(s, rest);
}

/// A boolean scans off the front of its own encoding.
proof fn lemma_scan_bool_round_trip(b: bool, rest: Seq<char>)
    ensures
        scan_bool((if b { "true"@ } else { "false"@ }) + rest) == Some((b, rest)),
{
    reveal_strlit("true");
    reveal_strlit("false");
    if b {
        lemma_scan_lit("true"@, rest);
    } else {
        let whole = "false"@ + rest;
        assert(whole[0] == 'f');
        lemma_scan_lit_mismatch(whole, "true"@, 0);
        lemma_scan_lit("false"@, rest);
    }
}

/// An optional string scans off the front of its own encoding.
proof fn lemma_scan_opt_str_round_trip(v: Option<Seq<char>>, rest: Seq<char>)
    ensures
        scan_opt_str(
            (match v {
                Some(s) => quoted(s),
                None => "null"@,
            }) + rest,
        ) == Some((v, rest)),
{
    reveal_strlit("null");
    match v {
        Some(s) => {
            let whole = quoted(s) + rest;
            assert(whole[0] == '"');
            lemma_scan_quoted_round_trip(s, rest);
        },
        None => {
            let whole = "null"@ + rest;
            assert(whole[0] == 'n');
            lemma_scan_lit("null"@, rest);
        },
    }
}

/// A message record scans off the front of its own encoding.
#[verifier::rlimit(100)]
pub proof fn lemma_scan_message_round_trip(m: MessageView, rest: Seq<char>)
    ensures
        scan_message(enc_message(m) + rest) == Some((m, rest)),
{
    let k1 = "{\"id\":"@;
    let k2 = ",\"sender_id\":"@;
    let k3 = ",\"recipient_id\":"@;
    let k4 = ",\"content\":"@;
    let k5 = ",\"timestamp\":"@;
    let k6 = ",\"encrypted\":"@;
    let k7 = ",\"signature\":"@;
    let enc_b = if m.encrypted { "true"@ } else { "false"@ };
    let enc_sig = match m.signature { Some(s) => quoted(s), None => "null"@ };
    let t9 = "}"@ + rest;
    let t8 = enc_sig + t9;
    let t7 = k7 + t8;
    let t6 = enc_b + t7;
    let t5 = k6 + t6;
    let t4 = k5 + quoted(m.timestamp) + t5;
    let t3 = k4 + quoted(m.content) + t4;
    let t2 = k3 + quoted(m.recipient_id) + t3;
    let t1 = k2 + quoted(m.sender_id) + t2;
    let whole = enc_message(m) + rest;
    assert(whole =~= k1 + quoted(m.id) + t1);
    lemma_scan_key_str(k1, m.id, t1);
    assert(t1 =~= k2 + quoted(m.sender_id) + t2);
    lemma_scan_key_str(k2, m.sender_id, t2);
    assert(t2 =~= k3 + quoted(m.recipient_id) + t3);
    lemma_scan_key_str(k3, m.recipient_id, t3);
    assert(t3 =~= k4 + quoted(m.content) + t4);
    lemma_scan_key_str(k4, m.content, t4);
    assert(t4 =~= k5 + quoted(m.timestamp) + t5);
    lemma_scan_key_str(k5, m.timestamp, t5);
    assert(t5 =~= k6 + t6);
    lemma_scan_lit(k6, t6);
    assert(t6 =~= enc_b + t7);
    lemma_scan_bool_round_trip(m.encrypted, t7);
    assert(t7 =~= k7 + t8);
    lemma_scan_lit(k7, t8);
    assert(t8 =~= enc_sig + t9);
    lemma_scan_opt_str_round_trip(m.signature, t9);
    assert(t9 =~= "}"@ + rest);
    lemma_scan_lit("}"@, rest);
}

/// A client record scans off the front of its own encoding.
pub proof fn lemma_scan_client_round_trip(c: ClientInfoView, rest: Seq<char>)
    ensures
        scan_client(enc_client(c) + rest) == Some((c, rest)),
{
    let k1 = "{\"id\":"@;
    let k2 = ",\"public_key\":"@;
    let k3 = ",\"registered_at\":"@;
    let k4 = ",\"last_seen\":"@;
    let t5 = "}"@ + rest;
    let t4 = k4 + quoted(c.last_seen) + t5;
    let t3 = k3 + quoted(c.registered_at) + t4;
    let t2 = k2 + quoted(c.public_key) + t3;
    let whole = enc_client(c) + rest;
    assert(whole =~= k1 + quoted(c.id) + t2);
    lemma_scan_key_str(k1, c.id, t2);
    assert(t2 =~= k2 + quoted(c.public_key) + t3);
    lemma_scan_key_str(k2, c.public_key, t3);
    assert(t3 =~= k3 + quoted(c.registered_at) + t4);
    lemma_scan_key_str(k3, c.registered_at, t4);
    assert(t4 =~= k4 + quoted(c.last_seen) + t5);
    lemma_scan_key_str(k4, c.last_seen, t5);
    assert(t5 =~= "}"@ + rest);
    lemma_scan_lit("}"@, rest);
}

/// A string list's tail scans off the front of its own encoding.
proof fn lemma_scan_more_strings_round_trip(ss: Seq<Seq<char>>, rest: Seq<char>)
    ensures
        scan_more_strings(enc_more_strings(ss) + "]"@ + rest) == Some((ss, rest)),
    decreases ss.len(),
{
    reveal_strlit("]");
    reveal_strlit(",");
    if ss.len() == 0 {
        let whole = enc_more_strings(ss) + "]"@ + rest;
        assert(whole =~= "]"@ + rest);
        lemma_scan_lit("]"@, rest);
        assert(ss =~= Seq::<Seq<char>>::empty());
    } else {
        lemma_scan_more_strings_round_trip(ss.skip(1), rest);
        let t2 = enc_more_strings(ss.skip(1)) + "]"@ + rest;
        let t1 = quoted(ss[0]) + t2;
        let whole = enc_more_strings(ss) + "]"@ + rest;
        assert(whole =~= ","@ + t1);
        assert(whole[0] == ',');
        lemma_scan_lit_mismatch(whole, "]"@, 0);
        lemma_scan_lit(","@, t1);
        lemma_scan_quoted_round_trip(ss[0], t2);
        assert(t2.len() < whole.len()) by {
            assert(quoted(ss[0]).len() >= 2);
        }
        assert(seq![ss[0]] + ss.skip(1) =~= ss);
    }
}

/// A string list scans off the front of its own encoding.
pub proof fn lemma_scan_string_list_round_trip(ss: Seq<Seq<char>>, rest: Seq<char>)
    ensures
        scan_string_list(enc_string_list(ss) + rest) == Some((ss, rest)),
{
    reveal_strlit("[");
    reveal_strlit("]");
    let whole = enc_string_list(ss) + rest;
    if ss.len() == 0 {
        assert(whole =~= "["@ + ("]"@ + rest));
        lemma_scan_lit("["@, "]"@ + rest);
        lemma_scan_lit("]"@, rest);
        assert(ss =~= Seq::<Seq<char>>::empty());
    } else {
        let t2 = enc_more_strings(ss.skip(1)) + "]"@ + rest;
        let t1 = quoted(ss[0]) + t2;
        assert(whole =~= "["@ + t1);
        lemma_scan_lit("["@, t1);
        assert(t1[0] == '"');
        lemma_scan_lit_mismatch(t1, "]"@, 0);
        lemma_scan_quoted_round_trip(ss[0], t2);
        lemma_scan_more_strings_round_trip(ss.skip(1), rest);
        assert(seq![ss[0]] + ss.skip(1) =~= ss);
    }
}

/// Decoding a command document inverts encoding it: the round trip of every
/// command through the wire format gives the command back.
pub proof fn lemma_command_round_trip(c: CommandView)
    ensures
        spec_decode_command(enc_command(c)) == Some(c),
{
    let kreg = "{\"Register\":{\"client_id\":"@;
    let ksend = "{\"Send\":{\"sender_id\":"@;
    let kget = "{\"GetMessages\":{\"client_id\":"@;
    let kclients = "\"GetClients\""@;
    let kheart = "{\"Heartbeat\":{\"client_id\":"@;
    reveal_strlit("{\"Register\":{\"client_id\":");
    reveal_strlit("{\"Send\":{\"sender_id\":");
    reveal_strlit("{\"GetMessages\":{\"client_id\":");
    reveal_strlit("\"GetClients\"");
    reveal_strlit("{\"Heartbeat\":{\"client_id\":");
    reveal_strlit(",\"public_key\":");
    reveal_strlit(",\"recipient_id\":");
    reveal_strlit(",\"encrypted_content\":");
    reveal_strlit(",\"signature\":");
    reveal_strlit(",\"message_id\":");
    reveal_strlit("}}");
    let s = enc_command(c);
    let empty = Seq::<char>::empty();
    match c {
        CommandView::Register { client_id, public_key } => {
            let t2 = "}}"@ + empty;
            let t1 = ",\"public_key\":"@ + quoted(public_key) + t2;
            assert(s + empty =~= s);
            assert(s =~= kreg + quoted(client_id) + t1);
            lemma_scan_key_str(kreg, client_id, t1);
            assert(t1 =~= ",\"public_key\":"@ + quoted(public_key) + t2);
            lemma_scan_key_str(",\"public_key\":"@, public_key, t2);
            assert(t2 =~= "}}"@ + empty);
            lemma_scan_lit("}}"@, empty);
        },
        CommandView::Send { sender_id, recipient_id, encrypted_content, signature, message_id } => {
            assert(s[2] == 'S' && kreg[2] == 'R');
            lemma_scan_lit_mismatch(s, kreg, 2);
            let t5 = "}}"@ + empty;
            let t4 = ",\"message_id\":"@ + quoted(message_id) + t5;
            let t3 = ",\"signature\":"@ + quoted(signature) + t4;
            let t2 = ",\"encrypted_content\":"@ + quoted(encrypted_content) + t3;
            let t1 = ",\"recipient_id\":"@ + quoted(recipient_id) + t2;
            assert(s =~= ksend + quoted(sender_id) + t1);
            lemma_scan_key_str(ksend, sender_id, t1);
            assert(t1 =~= ",\"recipient_id\":"@ + quoted(recipient_id) + t2);
            lemma_scan_key_str(",\"recipient_id\":"@, recipient_id, t2);
            assert(t2 =~= ",\"encrypted_content\":"@ + quoted(encrypted_content) + t3);
            lemma_scan_key_str(",\"encrypted_content\":"@, encrypted_content, t3);
            assert(t3 =~= ",\"signature\":"@ + quoted(signature) + t4);
            lemma_scan_key_str(",\"signature\":"@, signature, t4);
            assert(t4 =~= ",\"message_id\":"@ + quoted(message_id) + t5);
            lemma_scan_key_str(",\"message_id\":"@, message_id, t5);
            assert(t5 =~= "}}"@ + empty);
            lemma_scan_lit("}}"@, empty);
        },
        CommandView::GetMessages { client_id } => {
            assert(s[2] == 'G' && kreg[2] == 'R' && ksend[2] == 'S');
            lemma_scan_lit_mismatch(s, kreg, 2);
            lemma_scan_lit_mismatch(s, ksend, 2);
            let t1 = "}}"@ + empty;
            assert(s =~= kget + quoted(client_id) + t1);
            lemma_scan_key_str(kget, client_id, t1);
            assert(t1 =~= "}}"@ + empty);
            lemma_scan_lit("}}"@, empty);
        },
        CommandView::GetClients => {
            assert(s[0] == '"' && kreg[0] == '{' && ksend[0] == '{' && kget[0] == '{');
            lemma_scan_lit_mismatch(s, kreg, 0);
            lemma_scan_lit_mismatch(s, ksend, 0);
            lemma_scan_lit_mismatch(s, kget, 0);
            assert(s =~= kclients + empty);
            lemma_scan_lit(kclients, empty);
        },
        CommandView::Heartbeat { client_id } => {
            assert(s[2] == 'H' && kreg[2] == 'R' && ksend[2] == 'S' && kget[2] == 'G');
            assert(s[0] == '{' && kclients[0] == '"');
            lemma_scan_lit_mismatch(s, kreg, 2);
            lemma_scan_lit_mismatch(s, ksend, 2);
            lemma_scan_lit_mismatch(s, kget, 2);
            lemma_scan_lit_mismatch(s, kclients, 0);
            let t1 = "}}"@ + empty;
            assert(s =~= kheart + quoted(client_id) + t1);
            lemma_scan_key_str(kheart, client_id, t1);
            assert(t1 =~= "}}"@ + empty);
            lemma_scan_lit("}}"@, empty);
        },
    }
}

/// Decoding a response document inverts encoding it: the round trip of every
/// response through the wire format gives the response back.
pub proof fn lemma_response_round_trip(r: ResponseView)
    ensures
        spec_decode_response(enc_response(r)) == Some(r),
{
    let kreg = "{\"Registered\":{\"server_public_key\":"@;
    let ksent = "{\"MessageSent\":{\"message_id\":"@;
    let krecv = "{\"MessageReceived\":{\"message\":"@;
    let klist = "{\"ClientList\":{\"clients\":"@;
    let kerr = "{\"Error\":{\"message\":"@;
    let kok = "\"Ok\""@;
    reveal_strlit("{\"Registered\":{\"server_public_key\":");
    reveal_strlit("{\"MessageSent\":{\"message_id\":");
    reveal_strlit("{\"MessageReceived\":{\"message\":");
    reveal_strlit("{\"ClientList\":{\"clients\":");
    reveal_strlit("{\"Error\":{\"message\":");
    reveal_strlit("\"Ok\"");
    reveal_strlit("}}");
    let s = enc_response(r);
    let empty = Seq::<char>::empty();
    match r {
        ResponseView::Registered { server_public_key } => {
            let t1 = "}}"@ + empty;
            assert(s =~= kreg + quoted(server_public_key) + t1);
            lemma_scan_key_str(kreg, server_public_key, t1);
            assert(t1 =~= "}}"@ + empty);
            lemma_scan_lit("}}"@, empty);
        },
        ResponseView::MessageSent { message_id } => {
            assert(s[2] == 'M' && kreg[2] == 'R');
            lemma_scan_lit_mismatch(s, kreg, 2);
            let t1 = "}}"@ + empty;
            assert(s =~= ksent + quoted(message_id) + t1);
            lemma_scan_key_str(ksent, message_id, t1);
            assert(t1 =~= "}}"@ + empty);
            lemma_scan_lit("}}"@, empty);
        },
        ResponseView::MessageReceived { message } => {
            assert(s[2] == 'M' && kreg[2] == 'R');
            assert(s[9] == 'R' && ksent[9] == 'S');
            lemma_scan_lit_mismatch(s, kreg, 2);
            lemma_scan_lit_mismatch(s, ksent, 9);
            let t1 = enc_message(message) + ("}}"@ + empty);
            assert(s =~= krecv + t1);
            lemma_scan_lit(krecv, t1);
            assert(t1 =~= enc_message(message) + ("}}"@ + empty));
            lemma_scan_message_round_trip(message, "}}"@ + empty);
            lemma_scan_lit("}}"@, empty);
        },
        ResponseView::ClientList { clients } => {
            assert(s[2] == 'C' && kreg[2] == 'R' && ksent[2] == 'M' && krecv[2] == 'M');
            lemma_scan_lit_mismatch(s, kreg, 2);
            lemma_scan_lit_mismatch(s, ksent, 2);
            lemma_scan_lit_mismatch(s, krecv, 2);
            let t1 = enc_string_list(clients) + ("}}"@ + empty);
            assert(s =~= klist + t1);
            lemma_scan_lit(klist, t1);
            lemma_scan_string_list_round_trip(clients, "}}"@ + empty);
            lemma_scan_lit("}}"@, empty);
        },
        ResponseView::Error { message } => {
            assert(s[2] == 'E' && kreg[2] == 'R' && ksent[2] == 'M' && krecv[2] == 'M'
                && klist[2] == 'C');
            lemma_scan_lit_mismatch(s, kreg, 2);
            lemma_scan_lit_mismatch(s, ksent, 2);
            lemma_scan_lit_mismatch(s, krecv, 2);
            lemma_scan_lit_mismatch(s, klist, 2);
            let t1 = "}}"@ + empty;
            assert(s =~= kerr + quoted(message) + t1);
            lemma_scan_key_str(kerr, message, t1);
            assert(t1 =~= "}}"@ + empty);
            lemma_scan_lit("}}"@, empty);
        },
        ResponseView::Ack => {
            assert(s[0] == '"' && kreg[0] == '{' && ksent[0] == '{' && krecv[0] == '{'
                && klist[0] == '{' && kerr[0] == '{');
            lemma_scan_lit_mismatch(s, kreg, 0);
            lemma_scan_lit_mismatch(s, ksent, 0);
            lemma_scan_lit_mismatch(s, krecv, 0);
            lemma_scan_lit_mismatch(s, klist, 0);
            lemma_scan_lit_mismatch(s, kerr, 0);
            assert(s =~= kok + empty);
            lemma_scan_lit(kok, empty);
        },
    }
}

// ---------------------------------------------------------------------------
// Exec encoders.
// ---------------------------------------------------------------------------

/// Appending a string to a list extends its encoded tail by one item.
proof fn lemma_enc_more_strings_snoc(ss: Seq<Seq<char>>, x: Seq<char>)
    ensures
        enc_more_strings(ss.push(x)) == enc_more_strings(ss) + (","@ + quoted(x)),
    decreases ss.len(),
{
    if ss.len() == 0 {
        assert(ss.push(x)[0] == x);
        assert(ss.push(x).skip(1) =~= Seq::<Seq<char>>::empty());
        assert(","@ + quoted(x) + enc_more_strings(Seq::<Seq<char>>::empty()) =~= ","@ + quoted(
            x,
        ));
        assert(enc_more_strings(ss) + (","@ + quoted(x)) =~= ","@ + quoted(x));
    } else {
        lemma_enc_more_strings_snoc(ss.skip(1), x);
        assert(ss.push(x)[0] == ss[0]);
        assert(ss.push(x).skip(1) =~= ss.skip(1).push(x));
        assert(","@ + quoted(ss[0]) + (enc_more_strings(ss.skip(1)) + (","@ + quoted(x))) =~= (
        ","@ + quoted(ss[0]) + enc_more_strings(ss.skip(1))) + (","@ + quoted(x)));
    }
}

/// Append an optional string: the string quoted, or `null`.
fn push_opt_str(out: &mut Vec<char>, v: &Option<String>)
    ensures
        final(out)@ == old(out)@ + (match v {
            Some(s) => quoted(s@),
            None => "null"@,
        }),
{
    match v {
        Some(s) => push_quoted(out, s.as_str()),
        None => push_lit(out, "null"),
    }
}

/// Append a message record's wire text.
#[verifier::rlimit(100)]
pub fn push_message(out: &mut Vec<char>, m: &Message)
    ensures
        final(out)@ == old(out)@ + enc_message(m@),
{
    push_lit(out, "{\"id\":");
    push_quoted(out, m.id.as_str());
    push_lit(out, ",\"sender_id\":");
    push_quoted(out, m.sender_id.as_str());
    push_lit(out, ",\"recipient_id\":");
    push_quoted(out, m.recipient_id.as_str());
    push_lit(out, ",\"content\":");
    push_quoted(out, m.content.as_str());
    push_lit(out, ",\"timestamp\":");
    push_quoted(out, m.timestamp.as_str());
    push_lit(out, ",\"encrypted\":");
    if m.encrypted {
        push_lit(out, "true");
    } else {
        push_lit(out, "false");
    }
    push_lit(out, ",\"signature\":");
    push_opt_str(out, &m.signature);
    push_lit(out, "}");
    proof {
        assert(out@ =~= old(out)@ + enc_message(m@));
    }
}

/// Append a client record's wire text.
pub fn push_client(out: &mut Vec<char>, c: &ClientInfo)
    ensures
        final(out)@ == old(out)@ + enc_client(c@),
{
    push_lit(out, "{\"id\":");
    push_quoted(out, c.id.as_str());
    push_lit(out, ",\"public_key\":");
    push_quoted(out, c.public_key.as_str());
    push_lit(out, ",\"registered_at\":");
    push_quoted(out, c.registered_at.as_str());
    push_lit(out, ",\"last_seen\":");
    push_quoted(out, c.last_seen.as_str());
    push_lit(out, "}");
    proof {
        assert(out@ =~= old(out)@ + enc_client(c@));
    }
}

/// Append a string list's wire text.
fn push_string_list(out: &mut Vec<char>, items: &Vec<String>)
    ensures
        final(out)@ == old(out)@ + enc_string_list(items@.map_values(|s: String| s@)),
{
    let ghost base = out@;
    let ghost views = items@.map_values(|s: String| s@);
    push_lit(out, "[");
    let mut i: usize = 0;
    while i < items.len()
        invariant
            i <= items@.len(),
            views == items@.map_values(|s: String| s@),
            out@ == base + "["@ + (if i == 0 {
                Seq::<char>::empty()
            } else {
                quoted(views[0]) + enc_more_strings(views.take(i as int).skip(1))
            }),
        decreases items@.len() - i,
    {
        if i == 0 {
            push_quoted(out, items[0].as_str());
            proof {
                assert(views.take(1int).skip(1) =~= Seq::<Seq<char>>::empty());
                assert(out@ =~= base + "["@ + (quoted(views[0]) + enc_more_strings(
                    views.take(1int).skip(1),
                )));
            }
        } else {
            push_lit(out, ",");
            push_quoted(out, items[i].as_str());
            proof {
                lemma_enc_more_strings_snoc(views.take(i as int).skip(1), views[i as int]);
                assert(views.take(i as int).skip(1).push(views[i as int]) =~= views.take(
                    i + 1 as int,
                ).skip(1));
                assert(out@ =~= base + "["@ + (quoted(views[0]) + enc_more_strings(
                    views.take(i + 1 as int).skip(1),
                )));
            }
        }
        i = i + 1;
    }
    push_lit(out, "]");
    proof {
        if items@.len() == 0 {
            assert(out@ =~= base + enc_string_list(views));
        } else {
            assert(views.take(views.len() as int).skip(1) =~= views.skip(1));
            assert(out@ =~= base + enc_string_list(views));
        }
    }
}

/// Encode a command as its canonical wire document.
pub fn encode_command(c: &ServerCommand) -> (r: String)
    ensures
        r@ == enc_command(c@),
{
    let mut out: Vec<char> = Vec::new();
    match c {
        ServerCommand::Register { client_id, public_key } => {
            push_lit(&mut out, "{\"Register\":{\"client_id\":");
            push_quoted(&mut out, client_id.as_str());
            push_lit(&mut out, ",\"public_key\":");
            push_quoted(&mut out, public_key.as_str());
            push_lit(&mut out, "}}");
        },
        ServerCommand::Send { sender_id, recipient_id, encrypted_content, signature, message_id } => {
            push_lit(&mut out, "{\"Send\":{\"sender_id\":");
            push_quoted(&mut out, sender_id.as_str());
            push_lit(&mut out, ",\"recipient_id\":");
            push_quoted(&mut out, recipient_id.as_str());
            push_lit(&mut out, ",\"encrypted_content\":");
            push_quoted(&mut out, encrypted_content.as_str());
            push_lit(&mut out, ",\"signature\":");
            push_quoted(&mut out, signature.as_str());
            push_lit(&mut out, ",\"message_id\":");
            push_quoted(&mut out, message_id.as_str());
            push_lit(&mut out, "}}");
        },
        ServerCommand::GetMessages { client_id } => {
            push_lit(&mut out, "{\"GetMessages\":{\"client_id\":");
            push_quoted(&mut out, client_id.as_str());
            push_lit(&mut out, "}}");
        },
        ServerCommand::GetClients => {
            push_lit(&mut out, "\"GetClients\"");
        },
        ServerCommand::Heartbeat { client_id } => {
            push_lit(&mut out, "{\"Heartbeat\":{\"client_id\":");
            push_quoted(&mut out, client_id.as_str());
            push_lit(&mut out, "}}");
        },
    }
    proof {
        assert(out@ =~= enc_command(c@));
    }
    chars_to_string(&out)
}

/// Encode a response as its canonical wire document.
pub fn encode_response(r: &ServerResponse) -> (res: String)
    ensures
        res@ == enc_response(r@),
{
    let mut out: Vec<char> = Vec::new();
    match r {
        ServerResponse::Registered { server_public_key } => {
            push_lit(&mut out, "{\"Registered\":{\"server_public_key\":");
            push_quoted(&mut out, server_public_key.as_str());
            push_lit(&mut out, "}}");
        },
        ServerResponse::MessageSent { message_id } => {
            push_lit(&mut out, "{\"MessageSent\":{\"message_id\":");
            push_quoted(&mut out, message_id.as_str());
            push_lit(&mut out, "}}");
        },
        ServerResponse::MessageReceived { message } => {
            push_lit(&mut out, "{\"MessageReceived\":{\"message\":");
            push_message(&mut out, message);
            push_lit(&mut out, "}}");
        },
        ServerResponse::ClientList { clients } => {
            push_lit(&mut out, "{\"ClientList\":{\"clients\":");
            push_string_list(&mut out, clients);
            push_lit(&mut out, "}}");
        },
        ServerResponse::Error { message } => {
            push_lit(&mut out, "{\"Error\":{\"message\":");
            push_quoted(&mut out, message.as_str());
            push_lit(&mut out, "}}");
        },
        ServerResponse::Ack => {
            push_lit(&mut out, "\"Ok\"");
        },
    }
    proof {
        assert(out@ =~= enc_response(r@));
    }
    chars_to_string(&out)
}

// ---------------------------------------------------------------------------
// Exec parsers.
// ---------------------------------------------------------------------------

/// Parse a literal key followed by a quoted string.
fn parse_key_str(input: &Vec<char>, pos: usize, key: &str) -> (r: Option<(String, usize)>)
    requires
        pos <= input@.len(),
    ensures
        match r {
            Some((s, p)) => pos <= p <= input@.len() && scan_key_str(
                input@.skip(pos as int),
                key@,
            ) == Some((s@, input@.skip(p as int))),
            None => scan_key_str(input@.skip(pos as int), key@) is None,
        },
{
    match parse_lit(input, pos, key) {
        Some(p1) => parse_quoted(input, p1),
        None => None,
    }
}

/// Parse `null` or a quoted string.
fn parse_opt_str(input: &Vec<char>, pos: usize) -> (r: Option<(Option<String>, usize)>)
    requires
        pos <= input@.len(),
    ensures
        match r {
            Some((v, p)) => pos <= p <= input@.len() && scan_opt_str(input@.skip(pos as int))
                == Some(
                (
                    match v {
                        Some(s) => Some(s@),
                        None => None::<Seq<char>>,
                    },
                    input@.skip(p as int),
                ),
            ),
            None => scan_opt_str(input@.skip(pos as int)) is None,
        },
{
    if pos < input.len() && input[pos] == '"' {
        proof {
            assert(input@.skip(pos as int)[0] == '"');
        }
        match parse_quoted(input, pos) {
            Some((s, p)) => Some((Some(s), p)),
            None => None,
        }
    } else {
        proof {
            if input@.skip(pos as int).len() >= 1 {
                assert(input@.skip(pos as int)[0] == input@[pos as int]);
            }
        }
        match parse_lit(input, pos, "null") {
            Some(p) => Some((None, p)),
            None => None,
        }
    }
}

/// Parse a message record.
pub fn parse_message(input: &Vec<char>, pos: usize) -> (r: Option<(Message, usize)>)
    requires
        pos <= input@.len(),
    ensures
        match r {
            Some((m, p)) => pos <= p <= input@.len() && scan_message(input@.skip(pos as int))
                == Some((m@, input@.skip(p as int))),
            None => scan_message(input@.skip(pos as int)) is None,
        },
{
    match parse_key_str(input, pos, "{\"id\":") {
        Some((id, p1)) => match parse_key_str(input, p1, ",\"sender_id\":") {
            Some((sender_id, p2)) => match parse_key_str(input, p2, ",\"recipient_id\":") {
                Some((recipient_id, p3)) => match parse_key_str(input, p3, ",\"content\":") {
                    Some((content, p4)) => match parse_key_str(input, p4, ",\"timestamp\":") {
                        Some((timestamp, p5)) => match parse_lit(input, p5, ",\"encrypted\":") {
                            Some(p6) => match parse_bool(input, p6) {
                                Some((encrypted, p7)) => match parse_lit(
                                    input,
                                    p7,
                                    ",\"signature\":",
                                ) {
                                    Some(p8) => match parse_opt_str(input, p8) {
                                        Some((signature, p9)) => match parse_lit(input, p9, "}") {
                                            Some(p10) => Some(
                                                (
                                                    Message {
                                                        id,
                                                        sender_id,
                                                        recipient_id,
                                                        content,
                                                        timestamp,
                                                        encrypted,
                                                        signature,
                                                    },
                                                    p10,
                                                ),
                                            ),
                                            None => None,
                                        },
                                        None => None,
                                    },
                                    None => None,
                                },
                                None => None,
                            },
                            None => None,
                        },
                        None => None,
                    },
                    None => None,
                },
                None => None,
            },
            None => None,
        },
        None => None,
    }
}

/// Parse a client record.
pub fn parse_client(input: &Vec<char>, pos: usize) -> (r: Option<(ClientInfo, usize)>)
    requires
        pos <= input@.len(),
    ensures
        match r {
            Some((c, p)) => pos <= p <= input@.len() && scan_client(input@.skip(pos as int))
                == Some((c@, input@.skip(p as int))),
            None => scan_client(input@.skip(pos as int)) is None,
        },
{
    match parse_key_str(input, pos, "{\"id\":") {
        Some((id, p1)) => match parse_key_str(input, p1, ",\"public_key\":") {
            Some((public_key, p2)) => match parse_key_str(input, p2, ",\"registered_at\":") {
                Some((registered_at, p3)) => match parse_key_str(input, p3, ",\"last_seen\":") {
                    Some((last_seen, p4)) => match parse_lit(input, p4, "}") {
                        Some(p5) => Some(
                            (ClientInfo { id, public_key, registered_at, last_seen }, p5),
                        ),
                        None => None,
                    },
                    None => None,
                },
                None => None,
            },
            None => None,
        },
        None => None,
    }
}

/// Parse a string list.
fn parse_string_list(input: &Vec<char>, pos: usize) -> (r: Option<(Vec<String>, usize)>)
    requires
        pos <= input@.len(),
    ensures
        match r {
            Some((items, p)) => pos <= p <= input@.len() && scan_string_list(
                input@.skip(pos as int),
            ) == Some((items@.map_values(|s: String| s@), input@.skip(p as int))),
            None => scan_string_list(input@.skip(pos as int)) is None,
        },
{
    let p1 = match parse_lit(input, pos, "[") {
        Some(p) => p,
        None => {
            return None;
        },
    };
    match parse_lit(input, p1, "]") {
        Some(p2) => {
            let items: Vec<String> = Vec::new();
            proof {
                assert(items@.map_values(|s: String| s@) =~= Seq::<Seq<char>>::empty());
            }
            return Some((items, p2));
        },
        None => {},
    }
    let (first, p2) = match parse_quoted(input, p1) {
        Some(x) => x,
        None => {
            return None;
        },
    };
    let mut items: Vec<String> = Vec::new();
    items.push(first);
    let mut cur: usize = p2;
    loop
        invariant
            pos <= cur <= input@.len(),
            items@.len() >= 1,
            items@.map_values(|s: String| s@)[0] == first@,
            match scan_more_strings(input@.skip(cur as int)) {
                Some((items2, rest)) => scan_string_list(input@.skip(pos as int)) == Some(
                    (items@.map_values(|s: String| s@) + items2, rest),
                ),
                None => scan_string_list(input@.skip(pos as int)) is None,
            },
        decreases input@.len() - cur,
    {
        let ghost rem = input@.skip(cur as int);
        match parse_lit(input, cur, "]") {
            Some(p) => {
                proof {
                    assert(items@.map_values(|s: String| s@) + Seq::<Seq<char>>::empty()
                        =~= items@.map_values(|s: String| s@));
                }
                return Some((items, p));
            },
            None => {},
        }
        let pc = match parse_lit(input, cur, ",") {
            Some(p) => p,
            None => {
                return None;
            },
        };
        let (item, p_next) = match parse_quoted(input, pc) {
            Some(x) => x,
            None => {
                return None;
            },
        };
        let ghost items_pre = items@.map_values(|s: String| s@);
        items.push(item);
        proof {
            reveal_strlit(",");
            let tail_rem = input@.skip(p_next as int);
            assert(tail_rem.len() < rem.len());
            if scan_more_strings(tail_rem) is Some {
                let (items2, rest) = scan_more_strings(tail_rem)->0;
                assert(scan_more_strings(rem) == Some((seq![item@] + items2, rest)));
                assert(items@.map_values(|s: String| s@) =~= items_pre.push(item@));
                assert(items@.map_values(|s: String| s@) + items2 =~= items_pre + (seq![item@]
                    + items2));
            } else {
                assert(scan_more_strings(rem) is None);
            }
        }
        cur = p_next;
    }
}

/// Decode a whole command document; `None` on anything but the canonical
/// encoding of some command.
pub fn decode_command(s: &str) -> (r: Option<ServerCommand>)
    ensures
        match r {
            Some(c) => spec_decode_command(s@) == Some(c@),
            None => spec_decode_command(s@) is None,
        },
{
    let input = str_to_chars(s);
    let n = input.len();
    proof {
        assert(input@.skip(0) =~= s@);
    }
    match parse_key_str(&input, 0, "{\"Register\":{\"client_id\":") {
        Some((client_id, p1)) => match parse_key_str(&input, p1, ",\"public_key\":") {
            Some((public_key, p2)) => match parse_lit(&input, p2, "}}") {
                Some(p3) => {
                    if p3 == n {
                        Some(ServerCommand::Register { client_id, public_key })
                    } else {
                        None
                    }
                },
                None => None,
            },
            None => None,
        },
        None => match parse_key_str(&input, 0, "{\"Send\":{\"sender_id\":") {
            Some((sender_id, p1)) => match parse_key_str(&input, p1, ",\"recipient_id\":") {
                Some((recipient_id, p2)) => match parse_key_str(
                    &input,
                    p2,
                    ",\"encrypted_content\":",
                ) {
                    Some((encrypted_content, p3)) => match parse_key_str(
                        &input,
                        p3,
                        ",\"signature\":",
                    ) {
                        Some((signature, p4)) => match parse_key_str(
                            &input,
                            p4,
                            ",\"message_id\":",
                        ) {
                            Some((message_id, p5)) => match parse_lit(&input, p5, "}}") {
                                Some(p6) => {
                                    if p6 == n {
                                        Some(
                                            ServerCommand::Send {
                                                sender_id,
                                                recipient_id,
                                                encrypted_content,
                                                signature,
                                                message_id,
                                            },
                                        )
                                    } else {
                                        None
                                    }
                                },
                                None => None,
                            },
                            None => None,
                        },
                        None => None,
                    },
                    None => None,
                },
                None => None,
            },
            None => match parse_key_str(&input, 0, "{\"GetMessages\":{\"client_id\":") {
                Some((client_id, p1)) => match parse_lit(&input, p1, "}}") {
                    Some(p2) => {
                        if p2 == n {
                            Some(ServerCommand::GetMessages { client_id })
                        } else {
                            None
                        }
                    },
                    None => None,
                },
                None => match parse_lit(&input, 0, "\"GetClients\"") {
                    Some(p1) => {
                        if p1 == n {
                            Some(ServerCommand::GetClients)
                        } else {
                            None
                        }
                    },
                    None => match parse_key_str(&input, 0, "{\"Heartbeat\":{\"client_id\":") {
                        Some((client_id, p1)) => match parse_lit(&input, p1, "}}") {
                            Some(p2) => {
                                if p2 == n {
                                    Some(ServerCommand::Heartbeat { client_id })
                                } else {
                                    None
                                }
                            },
                            None => None,
                        },
                        None => None,
                    },
                },
            },
        },
    }
}

/// Decode a whole response document; `None` on anything but the canonical
/// encoding of some response.
pub fn decode_response(s: &str) -> (r: Option<ServerResponse>)
    ensures
        match r {
            Some(resp) => spec_decode_response(s@) == Some(resp@),
            None => spec_decode_response(s@) is None,
        },
{
    let input = str_to_chars(s);
    let n = input.len();
    proof {
        assert(input@.skip(0) =~= s@);
    }
    match parse_key_str(&input, 0, "{\"Registered\":{\"server_public_key\":") {
        Some((server_public_key, p1)) => match parse_lit(&input, p1, "}}") {
            Some(p2) => {
                if p2 == n {
                    Some(ServerResponse::Registered { server_public_key })
                } else {
                    None
                }
            },
            None => None,
        },
        None => match parse_key_str(&input, 0, "{\"MessageSent\":{\"message_id\":") {
            Some((message_id, p1)) => match parse_lit(&input, p1, "}}") {
                Some(p2) => {
                    if p2 == n {
                        Some(ServerResponse::MessageSent { message_id })
                    } else {
                        None
                    }
                },
                None => None,
            },
            None => match parse_lit(&input, 0, "{\"MessageReceived\":{\"message\":") {
                Some(p1) => match parse_message(&input, p1) {
                    Some((message, p2)) => match parse_lit(&input, p2, "}}") {
                        Some(p3) => {
                            if p3 == n {
                                Some(ServerResponse::MessageReceived { message })
                            } else {
                                None
                            }
                        },
                        None => None,
                    },
                    None => None,
                },
                None => match parse_lit(&input, 0, "{\"ClientList\":{\"clients\":") {
                    Some(p1) => match parse_string_list(&input, p1) {
                        Some((clients, p2)) => match parse_lit(&input, p2, "}}") {
                            Some(p3) => {
                                if p3 == n {
                                    Some(ServerResponse::ClientList { clients })
                                } else {
                                    None
                                }
                            },
                            None => None,
                        },
                        None => None,
                    },
                    None => match parse_key_str(&input, 0, "{\"Error\":{\"message\":") {
                        Some((message, p1)) => match parse_lit(&input, p1, "}}") {
                            Some(p2) => {
                                if p2 == n {
                                    Some(ServerResponse::Error { message })
                                } else {
                                    None
                                }
                            },
                            None => None,
                        },
                        None => match parse_lit(&input, 0, "\"Ok\"") {
                            Some(p1) => {
                                if p1 == n {
                                    Some(ServerResponse::Ack)
                                } else {
                                    None
                                }
                            },
                            None => None,
                        },
                    },
                },
            },
        },
    }
}

} // verus!
