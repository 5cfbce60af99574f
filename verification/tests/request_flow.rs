use msgrelay::client::{Client, ClientError};
use msgrelay::codec::{decode_response, encode_command};
use msgrelay::crypto::CryptoManager;
use msgrelay::server::process_request;
use msgrelay::store::Storage;
use msgrelay::types::{ServerCommand, ServerResponse};

fn now() -> String {
    "2024-03-04T05:06:07+00:00".to_string()
}

#[test]
fn full_wire_exchange() {
    let crypto = CryptoManager::new();
    let mut store = Storage::empty();
    let mut alice = Client::new("alice".to_string());
    let bob = Client::new("bob".to_string());
    alice.add_contact("bob".to_string(), hex::decode(bob.agreement_public_key_hex()).unwrap());

    // Register over the wire and accept the server's key.
    let request = encode_command(&alice.register_command());
    let answer = process_request(&request, &mut store, &crypto, &now());
    let resp = decode_response(&answer).unwrap();
    alice.accept_registration(&resp).unwrap();

    // Send over the wire.
    let cmd = alice.prepare_send(&"bob".to_string(), "wire message").unwrap();
    let answer = process_request(&encode_command(&cmd), &mut store, &crypto, &now());
    let id = alice.confirm_send(&decode_response(&answer).unwrap()).unwrap();

    // Bob fetches over the wire and decrypts.
    let fetch = encode_command(&ServerCommand::GetMessages { client_id: "bob".to_string() });
    let answer = process_request(&fetch, &mut store, &crypto, &now());
    let resp = decode_response(&answer).unwrap();
    let messages = bob.read_messages(&resp).unwrap();
    assert_eq!(messages.len(), 1);
    assert_eq!(messages[0].id, id);
    let mut bob = bob;
    bob.add_contact("alice".to_string(), hex::decode(alice.agreement_public_key_hex()).unwrap());
    let text = bob.decrypt_from(&"alice".to_string(), &messages[0].content).unwrap();
    assert_eq!(text, "wire message");
}

#[test]
fn malformed_requests_get_an_error_answer_and_change_nothing() {
    let crypto = CryptoManager::new();
    let mut store = Storage::empty();
    let answer = process_request("this is not a command", &mut store, &crypto, &now());
    match decode_response(&answer).unwrap() {
        ServerResponse::Error { message } => assert_eq!(message, "Invalid request"),
        _ => panic!("expected an error document"),
    }
    assert!(store.get_all_clients().is_empty());
}

#[test]
fn client_interprets_answers_strictly() {
    let mut alice = Client::new("alice".to_string());
    assert_eq!(
        alice.accept_registration(&ServerResponse::Ack),
        Err(ClientError::UnexpectedResponse)
    );
    assert_eq!(
        alice.accept_registration(&ServerResponse::Registered {
            server_public_key: "zz".to_string()
        }),
        Err(ClientError::BadKey)
    );
    assert_eq!(
        alice.accept_registration(&ServerResponse::Registered {
            server_public_key: "00ff".to_string()
        }),
        Err(ClientError::BadKey)
    );
    assert_eq!(
        alice.prepare_send(&"stranger".to_string(), "hi").err(),
        Some(ClientError::UnknownRecipient)
    );
    assert_eq!(
        alice.confirm_send(&ServerResponse::Ack),
        Err(ClientError::UnexpectedResponse)
    );
    match alice.confirm_send(&ServerResponse::Error { message: "boom".to_string() }) {
        Err(ClientError::ServerError(m)) => assert_eq!(m, "boom"),
        other => panic!("unexpected {:?}", other),
    }
    let listed = alice
        .client_list(&ServerResponse::ClientList { clients: vec!["x".to_string()] })
        .unwrap();
    assert_eq!(listed, vec!["x".to_string()]);
}

#[test]
fn decrypting_fails_closed() {
    let alice = Client::new("alice".to_string());
    let mut bob = Client::new("bob".to_string());
    bob.add_contact("alice".to_string(), hex::decode(alice.agreement_public_key_hex()).unwrap());

    assert_eq!(
        bob.decrypt_from(&"stranger".to_string(), &"00ff".to_string()),
        Err(ClientError::UnknownRecipient)
    );
    assert_eq!(
        bob.decrypt_from(&"alice".to_string(), &"not hex".to_string()),
        Err(ClientError::BadKey)
    );
    let ciphertext = {
        let mut alice_side = alice;
        alice_side
            .add_contact("bob".to_string(), hex::decode(bob.agreement_public_key_hex()).unwrap());
        match alice_side.prepare_send(&"bob".to_string(), "sealed").unwrap() {
            ServerCommand::Send { encrypted_content, .. } => encrypted_content,
            _ => unreachable!(),
        }
    };
    let mut tampered_bytes = hex::decode(&ciphertext).unwrap();
    let last = tampered_bytes.len() - 1;
    tampered_bytes[last] ^= 0x80;
    let tampered = hex::encode(tampered_bytes);
    match bob.decrypt_from(&"alice".to_string(), &tampered) {
        Err(ClientError::ServerError(m)) => assert_eq!(m, "Decryption failed"),
        other => panic!("expected a decryption failure, got {:?}", other),
    }
}
