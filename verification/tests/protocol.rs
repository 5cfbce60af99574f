use msgrelay::client::Client;
use msgrelay::crypto::CryptoManager;
use msgrelay::server::process_command;
use msgrelay::store::Storage;
use msgrelay::types::{ServerCommand, ServerResponse};

fn now() -> String {
    "2024-01-01T00:00:00+00:00".to_string()
}

fn register(store: &mut Storage, crypto: &CryptoManager, id: &str, key_hex: String) -> ServerResponse {
    process_command(
        ServerCommand::Register { client_id: id.to_string(), public_key: key_hex },
        store,
        crypto,
        &now(),
    )
}

#[test]
fn scenario_register_returns_server_key() {
    let crypto = CryptoManager::new();
    let mut store = Storage::empty();
    let alice = Client::new("alice".to_string());
    let resp = register(&mut store, &crypto, "alice", alice.signing_public_key_hex());
    match resp {
        ServerResponse::Registered { server_public_key } => {
            assert_eq!(server_public_key, hex::encode(crypto.get_ed25519_public_key()));
            assert_eq!(server_public_key.len(), 64);
        }
        other => panic!("expected Registered, got {:?}", response_tag(&other)),
    }
}

fn response_tag(r: &ServerResponse) -> &'static str {
    match r {
        ServerResponse::Registered { .. } => "Registered",
        ServerResponse::MessageSent { .. } => "MessageSent",
        ServerResponse::MessageReceived { .. } => "MessageReceived",
        ServerResponse::ClientList { .. } => "ClientList",
        ServerResponse::Error { .. } => "Error",
        ServerResponse::Ack => "Ok",
    }
}

#[test]
fn scenario_send_then_get_messages() {
    let crypto = CryptoManager::new();
    let mut store = Storage::empty();
    let mut alice = Client::new("alice".to_string());
    let bob = Client::new("bob".to_string());

    register(&mut store, &crypto, "alice", alice.signing_public_key_hex());
    register(&mut store, &crypto, "bob", bob.signing_public_key_hex());

    let bob_share = hex::decode(bob.agreement_public_key_hex()).unwrap();
    alice.add_contact("bob".to_string(), bob_share);

    let cmd = alice.prepare_send(&"bob".to_string(), "hello bob").unwrap();
    let message_id = match &cmd {
        ServerCommand::Send { message_id, .. } => message_id.clone(),
        _ => panic!("expected a Send command"),
    };
    let resp = process_command(cmd, &mut store, &crypto, &now());
    match resp {
        ServerResponse::MessageSent { message_id: echoed } => assert_eq!(echoed, message_id),
        other => panic!("expected MessageSent, got {:?}", response_tag(&other)),
    }

    let resp = process_command(
        ServerCommand::GetMessages { client_id: "bob".to_string() },
        &mut store,
        &crypto,
        &now(),
    );
    match resp {
        ServerResponse::MessageReceived { message } => {
            assert_eq!(message.id, message_id);
            assert_eq!(message.sender_id, "alice");
            assert_eq!(message.recipient_id, "bob");
            assert!(message.encrypted);
            assert!(message.signature.is_some());
        }
        other => panic!("expected MessageReceived, got {:?}", response_tag(&other)),
    }
}

#[test]
fn scenario_corrupted_signature_is_rejected_and_stores_nothing() {
    let crypto = CryptoManager::new();
    let mut store = Storage::empty();
    let mut alice = Client::new("alice".to_string());
    let bob = Client::new("bob".to_string());

    register(&mut store, &crypto, "alice", alice.signing_public_key_hex());
    let bob_share = hex::decode(bob.agreement_public_key_hex()).unwrap();
    alice.add_contact("bob".to_string(), bob_share);

    let cmd = alice.prepare_send(&"bob".to_string(), "hello bob").unwrap();
    let corrupted = match cmd {
        ServerCommand::Send { sender_id, recipient_id, encrypted_content, signature, message_id } => {
            let mut sig_bytes = hex::decode(&signature).unwrap();
            sig_bytes[0] ^= 0x01;
            ServerCommand::Send {
                sender_id,
                recipient_id,
                encrypted_content,
                signature: hex::encode(sig_bytes),
                message_id,
            }
        }
        _ => panic!("expected a Send command"),
    };
    let resp = process_command(corrupted, &mut store, &crypto, &now());
    match resp {
        ServerResponse::Error { message } => assert!(message.contains("verif"), "{}", message),
        other => panic!("expected Error, got {:?}", response_tag(&other)),
    }

    // The rejected message was not stored: bob's mailbox is still empty.
    let resp = process_command(
        ServerCommand::GetMessages { client_id: "bob".to_string() },
        &mut store,
        &crypto,
        &now(),
    );
    match resp {
        ServerResponse::Error { message } => assert_eq!(message, "No messages found"),
        other => panic!("expected Error, got {:?}", response_tag(&other)),
    }
}

#[test]
fn scenario_empty_mailbox_is_a_distinct_error() {
    let crypto = CryptoManager::new();
    let mut store = Storage::empty();
    let resp = process_command(
        ServerCommand::GetMessages { client_id: "carol".to_string() },
        &mut store,
        &crypto,
        &now(),
    );
    match resp {
        ServerResponse::Error { message } => assert_eq!(message, "No messages found"),
        other => panic!("expected Error, got {:?}", response_tag(&other)),
    }
    // A client can tell the empty mailbox apart from a real failure.
    let carol = Client::new("carol".to_string());
    let received = carol
        .read_messages(&ServerResponse::Error { message: "No messages found".to_string() })
        .unwrap();
    assert!(received.is_empty());
    assert!(carol
        .read_messages(&ServerResponse::Error { message: "Unknown sender: carol".to_string() })
        .is_err());
}

#[test]
fn reregistration_honors_only_the_second_key() {
    let crypto = CryptoManager::new();
    let mut store = Storage::empty();
    let mut alice_old = Client::new("alice".to_string());
    let mut alice_new = Client::new("alice".to_string());
    let bob = Client::new("bob".to_string());
    let bob_share = hex::decode(bob.agreement_public_key_hex()).unwrap();
    alice_old.add_contact("bob".to_string(), bob_share.clone());
    alice_new.add_contact("bob".to_string(), bob_share);

    register(&mut store, &crypto, "alice", alice_old.signing_public_key_hex());
    register(&mut store, &crypto, "alice", alice_new.signing_public_key_hex());

    let info = store.get_client_info(&"alice".to_string()).unwrap();
    assert_eq!(info.public_key, alice_new.signing_public_key_hex());

    // A send signed with the old key is refused; with the new key it goes through.
    let stale = alice_old.prepare_send(&"bob".to_string(), "old key").unwrap();
    match process_command(stale, &mut store, &crypto, &now()) {
        ServerResponse::Error { message } => assert!(message.contains("verif")),
        other => panic!("expected Error, got {:?}", response_tag(&other)),
    }
    let fresh = alice_new.prepare_send(&"bob".to_string(), "new key").unwrap();
    match process_command(fresh, &mut store, &crypto, &now()) {
        ServerResponse::MessageSent { .. } => {}
        other => panic!("expected MessageSent, got {:?}", response_tag(&other)),
    }
}

#[test]
fn unknown_sender_is_refused() {
    let crypto = CryptoManager::new();
    let mut store = Storage::empty();
    let mut mallory = Client::new("mallory".to_string());
    let bob = Client::new("bob".to_string());
    mallory.add_contact("bob".to_string(), hex::decode(bob.agreement_public_key_hex()).unwrap());
    let cmd = mallory.prepare_send(&"bob".to_string(), "hi").unwrap();
    match process_command(cmd, &mut store, &crypto, &now()) {
        ServerResponse::Error { message } => assert_eq!(message, "Unknown sender: mallory"),
        other => panic!("expected Error, got {:?}", response_tag(&other)),
    }
}

#[test]
fn get_messages_returns_only_the_latest() {
    let crypto = CryptoManager::new();
    let mut store = Storage::empty();
    let mut alice = Client::new("alice".to_string());
    let bob = Client::new("bob".to_string());
    register(&mut store, &crypto, "alice", alice.signing_public_key_hex());
    alice.add_contact("bob".to_string(), hex::decode(bob.agreement_public_key_hex()).unwrap());

    let first = alice.prepare_send(&"bob".to_string(), "first").unwrap();
    let second = alice.prepare_send(&"bob".to_string(), "second").unwrap();
    let second_id = match &second {
        ServerCommand::Send { message_id, .. } => message_id.clone(),
        _ => unreachable!(),
    };
    process_command(first, &mut store, &crypto, &now());
    process_command(second, &mut store, &crypto, &now());

    // Both messages stay in storage; the call returns only the newest.
    assert_eq!(store.get_messages_for_client(&"bob".to_string()).len(), 2);
    match process_command(
        ServerCommand::GetMessages { client_id: "bob".to_string() },
        &mut store,
        &crypto,
        &now(),
    ) {
        ServerResponse::MessageReceived { message } => assert_eq!(message.id, second_id),
        other => panic!("expected MessageReceived, got {:?}", response_tag(&other)),
    }
}

#[test]
fn heartbeat_acknowledges_and_get_clients_lists_everyone() {
    let crypto = CryptoManager::new();
    let mut store = Storage::empty();
    let alice = Client::new("alice".to_string());
    let bob = Client::new("bob".to_string());
    register(&mut store, &crypto, "alice", alice.signing_public_key_hex());
    register(&mut store, &crypto, "bob", bob.signing_public_key_hex());

    match process_command(
        ServerCommand::Heartbeat { client_id: "alice".to_string() },
        &mut store,
        &crypto,
        &"2024-01-02T00:00:00+00:00".to_string(),
    ) {
        ServerResponse::Ack => {}
        other => panic!("expected Ok, got {:?}", response_tag(&other)),
    }
    let info = store.get_client_info(&"alice".to_string()).unwrap();
    assert_eq!(info.last_seen, "2024-01-02T00:00:00+00:00");
    assert_eq!(info.registered_at, "2024-01-01T00:00:00+00:00");

    match process_command(ServerCommand::GetClients, &mut store, &crypto, &now()) {
        ServerResponse::ClientList { mut clients } => {
            clients.sort();
            assert_eq!(clients, vec!["alice".to_string(), "bob".to_string()]);
        }
        other => panic!("expected ClientList, got {:?}", response_tag(&other)),
    }
}

#[test]
fn persisting_then_reloading_keeps_every_entry() {
    let crypto = CryptoManager::new();
    let mut store = Storage::empty();
    let mut alice = Client::new("alice".to_string());
    let bob = Client::new("bob".to_string());
    register(&mut store, &crypto, "alice", alice.signing_public_key_hex());
    register(&mut store, &crypto, "bob", bob.signing_public_key_hex());
    alice.add_contact("bob".to_string(), hex::decode(bob.agreement_public_key_hex()).unwrap());
    let cmd = alice.prepare_send(&"bob".to_string(), "durable").unwrap();
    process_command(cmd, &mut store, &crypto, &now());

    // Simulated process restart: write both documents, read them back.
    let reloaded = store.persist_and_reload();

    let mut before = store.get_all_clients();
    let mut after = reloaded.get_all_clients();
    before.sort();
    after.sort();
    assert_eq!(before, after);
    for id in &before {
        let a = store.get_client_info(id).unwrap();
        let b = reloaded.get_client_info(id).unwrap();
        assert_eq!(a.public_key, b.public_key);
        assert_eq!(a.registered_at, b.registered_at);
        assert_eq!(a.last_seen, b.last_seen);
    }
    let msgs_a = store.get_messages_for_client(&"bob".to_string());
    let msgs_b = reloaded.get_messages_for_client(&"bob".to_string());
    assert_eq!(msgs_a.len(), msgs_b.len());
    for (x, y) in msgs_a.iter().zip(msgs_b.iter()) {
        assert_eq!(x.id, y.id);
        assert_eq!(x.sender_id, y.sender_id);
        assert_eq!(x.recipient_id, y.recipient_id);
        assert_eq!(x.content, y.content);
        assert_eq!(x.timestamp, y.timestamp);
        assert_eq!(x.encrypted, y.encrypted);
        assert_eq!(x.signature, y.signature);
    }
    // Corrupt documents fall back to the empty state instead of failing.
    let broken = msgrelay::store::Storage::from_parts_or_empty(
        msgrelay::persist::decode_clients("{not json").unwrap_or_default(),
        msgrelay::persist::decode_queues("{}").unwrap_or_default(),
    );
    assert!(broken.get_all_clients().is_empty());
}
