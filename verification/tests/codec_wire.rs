use msgrelay::codec::{decode_command, decode_response, encode_command, encode_response};
use msgrelay::hexcode::{hex_decode, hex_encode};
use msgrelay::persist::{decode_clients, decode_queues, encode_clients, encode_queues};
use msgrelay::types::{ClientInfo, Message, ServerCommand, ServerResponse};

#[test]
fn hex_exact_values_and_round_trip() {
    assert_eq!(hex_encode(&vec![0x00, 0xff, 0x1a]), "00ff1a");
    assert_eq!(hex_encode(&vec![]), "");
    assert_eq!(hex_decode(&"00ff1a".to_string()).unwrap(), vec![0x00, 0xff, 0x1a]);
    assert_eq!(hex_decode(&"00FF1A".to_string()).unwrap(), vec![0x00, 0xff, 0x1a]);
    assert_eq!(hex_decode(&"abc".to_string()), None);
    assert_eq!(hex_decode(&"zz".to_string()), None);
    let data: Vec<u8> = (0u16..=255).map(|b| b as u8).collect();
    assert_eq!(hex_encode(&data), hex::encode(&data));
    assert_eq!(hex_decode(&hex::encode(&data)).unwrap(), data);
}

#[test]
fn command_documents_are_canonical_json() {
    let cmd = ServerCommand::Register {
        client_id: "alice".to_string(),
        public_key: "00ff".to_string(),
    };
    let doc = encode_command(&cmd);
    assert_eq!(doc, "{\"Register\":{\"client_id\":\"alice\",\"public_key\":\"00ff\"}}");
    let v: serde_json::Value = serde_json::from_str(&doc).unwrap();
    assert_eq!(v["Register"]["client_id"], "alice");

    assert_eq!(encode_command(&ServerCommand::GetClients), "\"GetClients\"");
    assert_eq!(encode_response(&ServerResponse::Ack), "\"Ok\"");

    let resp = ServerResponse::Error { message: "No messages found".to_string() };
    assert_eq!(encode_response(&resp), "{\"Error\":{\"message\":\"No messages found\"}}");
}

#[test]
fn every_command_round_trips() {
    let cmds = vec![
        ServerCommand::Register { client_id: "a".into(), public_key: "00".into() },
        ServerCommand::Send {
            sender_id: "alice".into(),
            recipient_id: "bob".into(),
            encrypted_content: "deadbeef".into(),
            signature: "aa".into(),
            message_id: "m1".into(),
        },
        ServerCommand::GetMessages { client_id: "bob".into() },
        ServerCommand::GetClients,
        ServerCommand::Heartbeat { client_id: "carol".into() },
    ];
    for cmd in cmds {
        let doc = encode_command(&cmd);
        let back = decode_command(&doc).unwrap();
        assert_eq!(encode_command(&back), doc);
    }
}

#[test]
fn responses_round_trip_including_messages_and_lists() {
    let message = Message {
        id: "m1".into(),
        sender_id: "alice".into(),
        recipient_id: "bob".into(),
        content: "00ff".into(),
        timestamp: "2024-01-01T00:00:00+00:00".into(),
        encrypted: true,
        signature: Some("aa".into()),
    };
    let responses = vec![
        ServerResponse::Registered { server_public_key: "00".into() },
        ServerResponse::MessageSent { message_id: "m1".into() },
        ServerResponse::MessageReceived { message },
        ServerResponse::ClientList { clients: vec![] },
        ServerResponse::ClientList { clients: vec!["a".into(), "b".into(), "c".into()] },
        ServerResponse::Error { message: "boom".into() },
        ServerResponse::Ack,
    ];
    for resp in responses {
        let doc = encode_response(&resp);
        let back = decode_response(&doc).unwrap();
        assert_eq!(encode_response(&back), doc);
        // The documents are valid JSON as serde_json reads it.
        let _: serde_json::Value = serde_json::from_str(&doc).unwrap();
    }
}

#[test]
fn strings_with_escapes_survive_the_wire() {
    let nasty = "quote \" backslash \\ newline \n tab \t bell \u{7} unicode é";
    let cmd = ServerCommand::Heartbeat { client_id: nasty.to_string() };
    let doc = encode_command(&cmd);
    let back = decode_command(&doc).unwrap();
    match back {
        ServerCommand::Heartbeat { client_id } => assert_eq!(client_id, nasty),
        _ => panic!("wrong variant"),
    }
    // serde_json agrees about what the escaped string says.
    let v: serde_json::Value = serde_json::from_str(&doc).unwrap();
    assert_eq!(v["Heartbeat"]["client_id"], nasty);
}

#[test]
fn malformed_documents_are_refused() {
    assert!(decode_command("").is_none());
    assert!(decode_command("{").is_none());
    assert!(decode_command("\"NoSuchTag\"").is_none());
    assert!(decode_command("{\"Register\":{\"client_id\":\"a\"}}").is_none());
    let good = encode_command(&ServerCommand::GetClients);
    let mut trailing = good.clone();
    trailing.push(' ');
    assert!(decode_command(&trailing).is_none());
    assert!(decode_response("{\"Error\":{\"message\":1}}").is_none());
}

#[test]
fn persistence_documents_round_trip() {
    let clients = vec![
        ClientInfo {
            id: "alice".into(),
            public_key: "00ff".into(),
            registered_at: "2024-01-01T00:00:00+00:00".into(),
            last_seen: "2024-01-02T00:00:00+00:00".into(),
        },
        ClientInfo {
            id: "bob".into(),
            public_key: "11".into(),
            registered_at: "t1".into(),
            last_seen: "t2".into(),
        },
    ];
    let doc = encode_clients(&clients);
    let v: serde_json::Value = serde_json::from_str(&doc).unwrap();
    assert_eq!(v["alice"]["public_key"], "00ff");
    let back = decode_clients(&doc).unwrap();
    assert_eq!(back.len(), 2);
    assert_eq!(back[0].id, "alice");
    assert_eq!(back[1].last_seen, "t2");

    let msg = Message {
        id: "m1".into(),
        sender_id: "alice".into(),
        recipient_id: "bob".into(),
        content: "00".into(),
        timestamp: "t".into(),
        encrypted: true,
        signature: None,
    };
    let queues = vec![("bob".to_string(), vec![msg])];
    let qdoc = encode_queues(&queues);
    let back = decode_queues(&qdoc).unwrap();
    assert_eq!(back.len(), 1);
    assert_eq!(back[0].0, "bob");
    assert_eq!(back[0].1.len(), 1);
    assert_eq!(back[0].1[0].signature, None);
    let v: serde_json::Value = serde_json::from_str(&qdoc).unwrap();
    assert!(v["bob"][0]["signature"].is_null());

    assert_eq!(encode_clients(&vec![]), "{}");
    assert!(decode_clients("{}").unwrap().is_empty());
    assert!(decode_clients("nonsense").is_none());
    // A key that contradicts the record's own id is refused as corrupt.
    assert!(decode_clients(
        "{\"eve\":{\"id\":\"alice\",\"public_key\":\"00\",\"registered_at\":\"t\",\"last_seen\":\"t\"}}"
    )
    .is_none());
}

#[test]
fn fresh_messages_are_stamped_and_unsigned() {
    let m = Message::new("alice".to_string(), "bob".to_string(), "00ff".to_string());
    assert_eq!(m.id.len(), 36);
    assert_eq!(m.sender_id, "alice");
    assert_eq!(m.recipient_id, "bob");
    assert!(m.encrypted);
    assert!(m.signature.is_none());
    let m2 = Message::new("alice".to_string(), "bob".to_string(), "00ff".to_string());
    assert_ne!(m.id, m2.id);
}
