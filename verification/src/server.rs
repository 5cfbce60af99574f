//! The server-side command processor: a stateless state machine over the
//! command union. Each command is validated against the store and the
//! cryptographic layer, applied, and answered.
//!
//! Every processing failure becomes an `Error` response; nothing here panics
//! or aborts. Persistence of the mutated store is the caller's duty (see
//! `store`).

use vstd::prelude::*;
use vstd::string::StrSliceExecFns;
use vstd::utf8::encode_utf8;
use crate::codec::{decode_command, enc_response, encode_response, spec_decode_command};
use crate::crypto::{signature_checks, CryptoManager};
use crate::hexcode::{hex_decode, hex_encode, spec_hex_decode, spec_hex_encode};
use crate::store::{Storage, StoreView};
use crate::types::{
    ClientInfoView, CommandView, Message, MessageView, ResponseView, ServerCommand, ServerResponse,
};

verus! {

/// The error text for a `Send` whose sender is not registered.
pub open spec fn unknown_sender_text(sender_id: Seq<char>) -> Seq<char> {
    "Unknown sender: "@ + sender_id
}

/// The error text for a `Send` whose signature does not check out.
pub open spec fn signature_failed_text() -> Seq<char> {
    "Signature verification failed"@
}

/// The error text for `GetMessages` on an empty mailbox. Distinguishable from
/// every other error this processor emits, so a caller can treat it as an
/// empty mailbox rather than a failure.
pub open spec fn no_messages_text() -> Seq<char> {
    "No messages found"@
}

/// Whether a stored sender record authenticates a `Send`: its stored hex key
/// decodes, the supplied hex signature decodes, and the signature verifies
/// over the bytes of the hex-encoded content string (both ends sign and check
/// that exact byte representation).
pub open spec fn send_authenticated(
    sender: ClientInfoView,
    encrypted_content: Seq<char>,
    signature: Seq<char>,
) -> bool {
    let pk = spec_hex_decode(sender.public_key);
    let sig = spec_hex_decode(signature);
    &&& pk is Some
    &&& sig is Some
    &&& signature_checks(pk->0, encode_utf8(encrypted_content), sig->0)
}

/// The message a successful `Send` appends: the supplied id, the content as
/// it crossed the wire, the processing time, and the signature re-encoded in
/// lowercase hex.
pub open spec fn sent_message(
    sender_id: Seq<char>,
    recipient_id: Seq<char>,
    encrypted_content: Seq<char>,
    signature: Seq<char>,
    message_id: Seq<char>,
    now: Seq<char>,
) -> MessageView {
    MessageView {
        id: message_id,
        sender_id: sender_id,
        recipient_id: recipient_id,
        content: encrypted_content,
        timestamp: now,
        encrypted: true,
        signature: Some(spec_hex_encode(spec_hex_decode(signature)->0)),
    }
}

/// A register upserts the client record, stamping both times with `now`.
pub open spec fn register_transition(
    store: StoreView,
    client_id: Seq<char>,
    public_key: Seq<char>,
    now: Seq<char>,
) -> StoreView {
    StoreView {
        clients: store.clients.insert(
            client_id,
            ClientInfoView {
                id: client_id,
                public_key: public_key,
                registered_at: now,
                last_seen: now,
            },
        ),
        queues: store.queues,
    }
}

/// A heartbeat (and a successful send) refreshes `last_seen` of a registered
/// client; an unknown client changes nothing.
pub open spec fn touch_transition(store: StoreView, client_id: Seq<char>, now: Seq<char>) -> StoreView {
    StoreView {
        clients: if store.clients.contains_key(client_id) {
            store.clients.insert(
                client_id,
                ClientInfoView { last_seen: now, ..store.clients[client_id] },
            )
        } else {
            store.clients
        },
        queues: store.queues,
    }
}

/// A successful send appends the message to its recipient's queue.
pub open spec fn append_transition(store: StoreView, message: MessageView) -> StoreView {
    StoreView {
        clients: store.clients,
        queues: store.queues.insert(
            message.recipient_id,
            (if store.queues.contains_key(message.recipient_id) {
                store.queues[message.recipient_id]
            } else {
                Seq::empty()
            }) + seq![message],
        ),
    }
}

/// The recipient's queue, empty if none exists.
pub open spec fn queue_of(store: StoreView, client_id: Seq<char>) -> Seq<MessageView> {
    if store.queues.contains_key(client_id) {
        store.queues[client_id]
    } else {
        Seq::empty()
    }
}

/// Re-registering an id overwrites the prior record wholesale: two
/// registrations in a row leave exactly the state of the second alone, so
/// only the second public key is ever honored afterwards.
pub proof fn lemma_reregistration_overwrites(
    store: StoreView,
    client_id: Seq<char>,
    key_a: Seq<char>,
    key_b: Seq<char>,
    time_a: Seq<char>,
    time_b: Seq<char>,
)
    ensures
        register_transition(
            register_transition(store, client_id, key_a, time_a),
            client_id,
            key_b,
            time_b,
        ) == register_transition(store, client_id, key_b, time_b),
        register_transition(store, client_id, key_b, time_b).clients[client_id].public_key
            == key_b,
{
    let twice = register_transition(
        register_transition(store, client_id, key_a, time_a),
        client_id,
        key_b,
        time_b,
    );
    let once = register_transition(store, client_id, key_b, time_b);
    assert(twice.clients =~= once.clients);
    assert(twice.queues =~= once.queues);
}

/// What processing one command guarantees: the new store state and the
/// response, as a relation over the views. `server_key_hex` is the server's
/// signing public key, hex-encoded, and `now` the processing instant.
pub open spec fn process_post(
    cmd: CommandView,
    pre: StoreView,
    post: StoreView,
    resp: ResponseView,
    server_key_hex: Seq<char>,
    now: Seq<char>,
) -> bool {
match cmd {
        CommandView::Register { client_id, public_key } => {
            &&& post == register_transition(pre, client_id, public_key, now)
            &&& resp == ResponseView::Registered {
                server_public_key: server_key_hex,
            }
        },
        CommandView::Send { sender_id, recipient_id, encrypted_content, signature, message_id } => {
            if !pre.clients.contains_key(sender_id) {
                &&& post == pre
                &&& resp == ResponseView::Error { message: unknown_sender_text(sender_id) }
            } else if !send_authenticated(
                pre.clients[sender_id],
                encrypted_content,
                signature,
            ) {
                &&& post == pre
                &&& resp == ResponseView::Error { message: signature_failed_text() }
            } else {
                &&& post == touch_transition(
                    append_transition(
                        pre,
                        sent_message(
                            sender_id,
                            recipient_id,
                            encrypted_content,
                            signature,
                            message_id,
                            now,
                        ),
                    ),
                    sender_id,
                    now,
                )
                &&& resp == ResponseView::MessageSent { message_id: message_id }
            }
        },
        CommandView::GetMessages { client_id } => {
            &&& post == pre
            &&& resp == if queue_of(pre, client_id).len() > 0 {
                ResponseView::MessageReceived {
                    message: queue_of(pre, client_id).last(),
                }
            } else {
                ResponseView::Error { message: no_messages_text() }
            }
        },
        CommandView::GetClients => {
            &&& post == pre
            &&& resp matches ResponseView::ClientList { clients }
            &&& (resp matches ResponseView::ClientList { clients } ==> clients.to_set()
                == pre.clients.dom() && clients.no_duplicates())
        },
        CommandView::Heartbeat { client_id } => {
            &&& post == touch_transition(pre, client_id, now)
            &&& resp == ResponseView::Ack
        },
    }
}

/// Process one decoded command against the store, answering as the protocol
/// demands. The contract pins the response and the new store state for every
/// command:
/// - `Register` upserts unconditionally and answers with the server's signing
///   public key in hex.
/// - `Send` refuses an unknown sender, refuses a signature that does not
///   verify over the content's bytes under the sender's stored key (storing
///   nothing in either case), and otherwise appends the message, refreshes the
///   sender's `last_seen`, and echoes the message id.
/// - `GetMessages` answers with the most recently appended message only, or
///   the distinct "no messages" error for an empty mailbox; the store is
///   untouched.
/// - `GetClients` lists every registered id exactly once.
/// - `Heartbeat` refreshes `last_seen`, unauthenticated, and acknowledges.
pub fn process_command(
    cmd: ServerCommand,
    store: &mut Storage,
    crypto: &CryptoManager,
    now: &String,
) -> (r: ServerResponse)
    requires
        old(store).wf(),
        crypto.wf(),
    ensures
        final(store).wf(),
        process_post(
            cmd@,
            old(store)@,
            final(store)@,
            r@,
            spec_hex_encode(crypto.spec_signing_public()),
            now@,
        ),
{
    match cmd {
        ServerCommand::Register { client_id, public_key } => {
            store.register_client(client_id, public_key, now);
            let server_key = crypto.get_ed25519_public_key();
            ServerResponse::Registered { server_public_key: hex_encode(&server_key) }
        },
        ServerCommand::Send { sender_id, recipient_id, encrypted_content, signature, message_id } => {
            match store.get_client_info(&sender_id) {
                None => {
                    let mut text = "Unknown sender: ".to_owned();
                    text.append(sender_id.as_str());
                    ServerResponse::Error { message: text }
                },
                Some(sender_info) => {
                    let pk = hex_decode(&sender_info.public_key);
                    let sig = hex_decode(&signature);
                    let content_bytes = encrypted_content.as_str().as_bytes_vec();
                    match (pk, sig) {
                        (Some(pk_bytes), Some(sig_bytes)) => {
                            match crypto.verify(&content_bytes, &sig_bytes, &pk_bytes) {
                                Ok(()) => {
                                    let message = Message {
                                        id: message_id.clone(),
                                        sender_id: sender_id.clone(),
                                        recipient_id: recipient_id,
                                        content: encrypted_content,
                                        timestamp: now.clone(),
                                        encrypted: true,
                                        signature: Some(hex_encode(&sig_bytes)),
                                    };
                                    store.add_message(message);
                                    store.update_client_last_seen(&sender_id, now);
                                    ServerResponse::MessageSent { message_id }
                                },
                                Err(_) => ServerResponse::Error {
                                    message: "Signature verification failed".to_owned(),
                                },
                            }
                        },
                        _ => ServerResponse::Error {
                            message: "Signature verification failed".to_owned(),
                        },
                    }
                },
            }
        },
        ServerCommand::GetMessages { client_id } => {
            let mut messages = store.get_messages_for_client(&client_id);
            let n = messages.len();
            if n > 0 {
                let message = messages.pop().unwrap();
                proof {
                    let q = queue_of(store@, client_id@);
                    assert(crate::store::msg_seq(messages@.push(message)) =~= q);
                    assert(message@ == q.last());
                }
                ServerResponse::MessageReceived { message }
            } else {
                proof {
                    assert(queue_of(store@, client_id@).len() == 0);
                }
                ServerResponse::Error { message: "No messages found".to_owned() }
            }
        },
        ServerCommand::GetClients => {
            let clients = store.get_all_clients();
            ServerResponse::ClientList { clients }
        },
        ServerCommand::Heartbeat { client_id } => {
            store.update_client_last_seen(&client_id, now);
            ServerResponse::Ack
        },
    }
}

/// The error text for a request that is not a well-formed command document.
pub open spec fn invalid_request_text() -> Seq<char> {
    "Invalid request"@
}

/// What one request-response exchange guarantees, over the wire text: the
/// request either decodes to a command, whose processing relation then holds
/// of the response document, or it does not, and the store is untouched and
/// the answer is the invalid-request error.
pub open spec fn request_post(
    request: Seq<char>,
    pre: StoreView,
    post: StoreView,
    out: Seq<char>,
    server_key_hex: Seq<char>,
    now: Seq<char>,
) -> bool {
    match spec_decode_command(request) {
        Some(cmd) => exists|resp: ResponseView|
            #[trigger] process_post(cmd, pre, post, resp, server_key_hex, now) && out
                == enc_response(resp),
        None => post == pre && out == enc_response(
            ResponseView::Error { message: invalid_request_text() },
        ),
    }
}

/// Process one wire request at a given instant: decode, process, encode. A
/// malformed request never aborts the exchange; it is answered with an error
/// document and leaves the store as it was.
pub fn process_request(
    request: &str,
    store: &mut Storage,
    crypto: &CryptoManager,
    now: &String,
) -> (r: String)
    requires
        old(store).wf(),
        crypto.wf(),
    ensures
        final(store).wf(),
        request_post(
            request@,
            old(store)@,
            final(store)@,
            r@,
            spec_hex_encode(crypto.spec_signing_public()),
            now@,
        ),
{
    match decode_command(request) {
        Some(cmd) => {
            let ghost cmd_view = cmd@;
            let resp = process_command(cmd, store, crypto, now);
            let out = encode_response(&resp);
            proof {
                assert(process_post(
                    cmd_view,
                    old(store)@,
                    store@,
                    resp@,
                    spec_hex_encode(crypto.spec_signing_public()),
                    now@,
                ));
            }
            out
        },
        None => {
            let resp = ServerResponse::Error { message: "Invalid request".to_owned() };
            encode_response(&resp)
        },
    }
}

/// Process one wire request at the current wall-clock instant.
pub fn handle_request(request: &str, store: &mut Storage, crypto: &CryptoManager) -> (r: String)
    requires
        old(store).wf(),
        crypto.wf(),
    ensures
        final(store).wf(),
        exists|now: Seq<char>|
            #[trigger] request_post(
                request@,
                old(store)@,
                final(store)@,
                r@,
                spec_hex_encode(crypto.spec_signing_public()),
                now,
            ),
{
    let now = crate::fresh::now_rfc3339();
    process_request(request, store, crypto, &now)
}

} // verus!
