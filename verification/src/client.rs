//! The client-side half of the protocol: building signed, encrypted `Send`
//! commands and interpreting the server's responses. The transport that
//! carries the documents is outside; everything that decides or computes is
//! here.

use vstd::prelude::*;
use vstd::string::StrSliceExecFns;
use vstd::utf8::{encode_utf8, valid_utf8};
use crate::crypto::{
    chacha_open, fits_plaintext, signature_checks, x25519_shared_key, CryptoManager,
};
use crate::hexcode::{hex_decode, hex_encode, spec_hex_decode, spec_hex_encode};
use crate::types::{CommandView, Message, ResponseView, ServerCommand, ServerResponse};

verus! {

/// Failures of the client layer.
#[derive(Debug, Clone, PartialEq, Eq)]
pub enum ClientError {
    /// No key is on file for the recipient.
    UnknownRecipient,
    /// The server answered with a variant this call does not expect.
    UnexpectedResponse,
    /// The server's key, or a received key, did not decode to 32 key bytes.
    BadKey,
    /// The server answered with an error document.
    ServerError(String),
}

/// The key on file for an id: the latest `add_contact` wins.
pub open spec fn lookup_contact(contacts: Seq<(String, Vec<u8>)>, id: Seq<char>) -> Option<Seq<u8>>
    decreases contacts.len(),
{
    if contacts.len() == 0 {
        None
    } else if contacts.last().0@ == id {
        Some(contacts.last().1@)
    } else {
        lookup_contact(contacts.drop_last(), id)
    }
}

/// Whether `needle` occurs in `hay`.
pub open spec fn text_contains(hay: Seq<char>, needle: Seq<char>) -> bool {
    exists|i: int|
        0 <= i <= hay.len() - needle.len() && #[trigger] hay.subrange(i, i + needle.len())
            == needle
}

/// Whether `needle` occurs in `hay`.
pub fn str_contains(hay: &str, needle: &str) -> (r: bool)
    ensures
        r == text_contains(hay@, needle@),
{
    let h = crate::strutil::str_to_chars(hay);
    let n = crate::strutil::str_to_chars(needle);
    let hn = h.len();
    let nn = n.len();
    if nn > hn {
        return false;
    }
    let mut i: usize = 0;
    while i <= hn - nn
        invariant
            h@ == hay@,
            n@ == needle@,
            hn == h@.len(),
            nn == n@.len(),
            nn <= hn,
            i <= hn - nn + 1,
            forall|a: int|
                0 <= a < i ==> #[trigger] hay@.subrange(a, a + needle@.len()) != needle@,
        decreases h@.len() - n@.len() + 1 - i,
    {
        let mut j: usize = 0;
        let mut matches = true;
        while j < nn
            invariant
                h@ == hay@,
                n@ == needle@,
                hn == h@.len(),
                nn == n@.len(),
                i + nn <= hn,
                j <= nn,
                matches || j == nn,
                matches == (forall|b: int| 0 <= b < j ==> hay@[i + b] == #[trigger] needle@[b]),
            decreases n@.len() - j,
        {
            let a = h[i + j];
            let b = n[j];
            proof {
                assert(a == hay@[i + j]);
                assert(b == needle@[j as int]);
            }
            if a != b {
                matches = false;
                j = nn;
            } else {
                proof {
                    assert(hay@[i + j] == needle@[j as int]);
                }
                proof {
                    assert(forall|c: int|
                        0 <= c < j + 1 ==> hay@[i + c] == #[trigger] needle@[c]);
                }
                j = j + 1;
            }
        }
        if matches {
            proof {
                assert(hay@.subrange(i as int, i + needle@.len()) =~= needle@);
            }
            return true;
        }
        proof {
            if hay@.subrange(i as int, i + needle@.len()) == needle@ {
                let b = choose|b: int| 0 <= b < needle@.len() && hay@[i + b] != needle@[b];
                assert(hay@.subrange(i as int, i + needle@.len())[b] == hay@[i + b]);
            }
        }
        i = i + 1;
    }
    false
}

/// One side of a conversation: an identity, the server's published signing
/// key once registered, and the keys of known peers.
pub struct Client {
    pub id: String,
    crypto: CryptoManager,
    server_public_key: Option<Vec<u8>>,
    contacts: Vec<(String, Vec<u8>)>,
}

impl Client {
    /// The identity's signing secret is well-formed and every key on file has
    /// key length.
    pub open spec fn wf(&self) -> bool {
        &&& self.spec_crypto().wf()
        &&& match self.spec_server_key() {
            Some(k) => k.len() == 32,
            None => true,
        }
        &&& forall|i: int|
            0 <= i < self.spec_contacts().len() ==> (#[trigger] self.spec_contacts()[i]).1@.len()
                == 32
    }

    /// The client's id.
    pub closed spec fn spec_id(&self) -> Seq<char> {
        self.id@
    }

    /// The client's own identity.
    pub closed spec fn spec_crypto(&self) -> CryptoManager {
        self.crypto
    }

    /// The server key on file.
    pub closed spec fn spec_server_key(&self) -> Option<Seq<u8>> {
        match self.server_public_key {
            Some(k) => Some(k@),
            None => None,
        }
    }

    /// The contact list.
    pub closed spec fn spec_contacts(&self) -> Seq<(String, Vec<u8>)> {
        self.contacts@
    }

    /// A fresh client identity with no server key and no contacts.
    pub fn new(id: String) -> (r: Client)
        ensures
            r.wf(),
            r.spec_id() == id@,
            r.spec_server_key() is None,
            r.spec_contacts().len() == 0,
    {
        Client {
            id,
            crypto: CryptoManager::new(),
            server_public_key: None,
            contacts: Vec::new(),
        }
    }

    /// The identity's signing public key, hex-encoded, as `Register` carries
    /// it.
    pub fn signing_public_key_hex(&self) -> (r: String)
        requires
            self.wf(),
        ensures
            r@ == spec_hex_encode(self.spec_crypto().spec_signing_public()),
    {
        let key = self.crypto.get_ed25519_public_key();
        hex_encode(&key)
    }

    /// The identity's key-agreement public share, hex-encoded, as peers
    /// exchange it.
    pub fn agreement_public_key_hex(&self) -> (r: String)
        requires
            self.wf(),
        ensures
            r@ == spec_hex_encode(self.spec_crypto().spec_agreement_public()),
    {
        let key = self.crypto.get_x25519_public_key();
        hex_encode(&key)
    }

    /// The registration command announcing this identity's signing key.
    pub fn register_command(&self) -> (r: ServerCommand)
        requires
            self.wf(),
        ensures
            r@ == (CommandView::Register {
                client_id: self.spec_id(),
                public_key: spec_hex_encode(self.spec_crypto().spec_signing_public()),
            }),
    {
        ServerCommand::Register {
            client_id: self.id.clone(),
            public_key: self.signing_public_key_hex(),
        }
    }

    /// Take the server's signing key from its registration answer. Succeeds
    /// exactly on a `Registered` response whose hex key decodes to 32 bytes.
    pub fn accept_registration(&mut self, resp: &ServerResponse) -> (r: Result<(), ClientError>)
        requires
            old(self).wf(),
        ensures
            final(self).wf(),
            final(self).spec_id() == old(self).spec_id(),
            final(self).spec_crypto() == old(self).spec_crypto(),
            final(self).spec_contacts() == old(self).spec_contacts(),
            match resp@ {
                ResponseView::Registered { server_public_key } => {
                    let decoded = spec_hex_decode(server_public_key);
                    if decoded is Some && decoded->0.len() == 32 {
                        r is Ok && final(self).spec_server_key() == Some(decoded->0)
                    } else {
                        r == Err::<(), ClientError>(ClientError::BadKey) && *final(self)
                            == *old(self)
                    }
                },
                _ => r == Err::<(), ClientError>(ClientError::UnexpectedResponse) && *final(self)
                    == *old(self),
            },
    {
        match resp {
            ServerResponse::Registered { server_public_key } => {
                match hex_decode(server_public_key) {
                    Some(key) => {
                        if key.len() == 32 {
                            self.server_public_key = Some(key);
                            proof {
                                assert(self.spec_contacts() == old(self).spec_contacts());
                                assert forall|i: int|
                                    0 <= i < self.spec_contacts().len() implies (
                                #[trigger] self.spec_contacts()[i]).1@.len() == 32 by {
                                    assert(old(self).spec_contacts()[i].1@.len() == 32);
                                }
                            }
                            Ok(())
                        } else {
                            Err(ClientError::BadKey)
                        }
                    },
                    None => Err(ClientError::BadKey),
                }
            },
            _ => Err(ClientError::UnexpectedResponse),
        }
    }

    /// Put a peer's key-agreement share on file; a later entry for the same
    /// id wins.
    pub fn add_contact(&mut self, contact_id: String, public_key: Vec<u8>)
        requires
            old(self).wf(),
            public_key@.len() == 32,
        ensures
            final(self).wf(),
            final(self).spec_id() == old(self).spec_id(),
            final(self).spec_crypto() == old(self).spec_crypto(),
            final(self).spec_server_key() == old(self).spec_server_key(),
            lookup_contact(final(self).spec_contacts(), contact_id@) == Some(public_key@),
            forall|other: Seq<char>|
                other != contact_id@ ==> lookup_contact(final(self).spec_contacts(), other)
                    == lookup_contact(old(self).spec_contacts(), other),
    {
        self.contacts.push((contact_id, public_key));
        proof {
            assert(self.contacts@.drop_last() =~= old(self).contacts@);
        }
    }

    /// The key on file for a peer.
    fn find_contact(&self, contact_id: &String) -> (r: Option<Vec<u8>>)
        requires
            self.wf(),
        ensures
            match r {
                Some(k) => lookup_contact(self.spec_contacts(), contact_id@) == Some(k@)
                    && k@.len() == 32,
                None => lookup_contact(self.spec_contacts(), contact_id@) is None,
            },
    {
        let n = self.contacts.len();
        let mut i: usize = n;
        proof {
            assert(self.contacts@.take(n as int) =~= self.contacts@);
        }
        while i > 0
            invariant
                self.wf(),
                i <= n,
                n == self.contacts@.len(),
                lookup_contact(self.spec_contacts(), contact_id@) == lookup_contact(
                    self.contacts@.take(i as int),
                    contact_id@,
                ),
            decreases i,
        {
            proof {
                assert(self.contacts@.take(i as int).last() == self.contacts@[i - 1]);
                assert(self.contacts@.take(i as int).drop_last() =~= self.contacts@.take(i - 1));
            }
            if self.contacts[i - 1].0.eq(contact_id) {
                let key = crate::crypto::clone_bytes(&self.contacts[i - 1].1);
                proof {
                    assert(self.contacts@[i - 1].0@ == contact_id@);
                    assert(self.contacts@.take(i as int).len() == i);
                    assert(self.contacts@.take(i as int).last().0@ == contact_id@);
                    assert(lookup_contact(self.contacts@.take(i as int), contact_id@) == Some(
                        self.contacts@.take(i as int).last().1@,
                    ));
                    assert(lookup_contact(self.contacts@.take(i as int), contact_id@) == Some(
                        self.contacts@[i - 1].1@,
                    ));
                    let idx: int = i as int - 1;
                    assert(self.spec_contacts()[idx].1@.len() == 32);
                    assert(key@.len() == 32);
                }
                return Some(key);
            }
            i = i - 1;
        }
        proof {
            assert(self.contacts@.take(0) =~= Seq::<(String, Vec<u8>)>::empty());
        }
        None
    }

    /// Build a signed, encrypted `Send`: the text is encrypted for the
    /// recipient under the pairwise key, the ciphertext crosses the wire
    /// hex-encoded, and the signature — made over the hex string's bytes —
    /// verifies under this identity's signing key, so a faithful server
    /// accepts it.
    pub fn prepare_send(&self, recipient: &String, text: &str) -> (r: Result<
        ServerCommand,
        ClientError,
    >)
        requires
            self.wf(),
            fits_plaintext(encode_utf8(text@).len()),
        ensures
            match r {
                Ok(cmd) => {
                    &&& cmd@ matches CommandView::Send {
                        sender_id,
                        recipient_id,
                        encrypted_content,
                        signature,
                        message_id,
                    }
                    &&& (cmd@ matches CommandView::Send {
                        sender_id,
                        recipient_id,
                        encrypted_content,
                        signature,
                        message_id,
                    } ==> {
                        let key_bytes = lookup_contact(self.spec_contacts(), recipient@)->0;
                        let shared = x25519_shared_key(
                            self.spec_crypto().spec_agreement_secret(),
                            key_bytes,
                        );
                        let ct = spec_hex_decode(encrypted_content)->0;
                        &&& lookup_contact(self.spec_contacts(), recipient@) is Some
                        &&& sender_id == self.spec_id()
                        &&& recipient_id == recipient@
                        &&& message_id.len() == 36
                        &&& spec_hex_decode(encrypted_content) is Some
                        &&& ct.len() >= 12
                        &&& chacha_open(shared, ct.take(12), ct.skip(12)) == Some(
                            encode_utf8(text@),
                        )
                        &&& spec_hex_decode(signature) is Some
                        &&& signature_checks(
                            self.spec_crypto().spec_signing_public(),
                            encode_utf8(encrypted_content),
                            spec_hex_decode(signature)->0,
                        )
                    })
                },
                Err(e) => e == ClientError::UnknownRecipient && lookup_contact(
                    self.spec_contacts(),
                    recipient@,
                ) is None,
            },
    {
        let key = match self.find_contact(recipient) {
            Some(k) => k,
            None => {
                return Err(ClientError::UnknownRecipient);
            },
        };
        let ciphertext = self.crypto.encrypt_message(&key, text);
        let encrypted_hex = hex_encode(&ciphertext);
        proof {
            crate::hexcode::lemma_hex_round_trip(ciphertext@);
            assert(ciphertext@.take(12) =~= ciphertext@.subrange(0, 12));
        }
        let content_bytes = encrypted_hex.as_str().as_bytes_vec();
        let signature = self.crypto.sign(&content_bytes);
        let signature_hex = hex_encode(&signature);
        proof {
            crate::hexcode::lemma_hex_round_trip(signature@);
        }
        Ok(ServerCommand::Send {
            sender_id: self.id.clone(),
            recipient_id: recipient.clone(),
            encrypted_content: encrypted_hex,
            signature: signature_hex,
            message_id: crate::fresh::fresh_uuid(),
        })
    }

    /// Read a send answer: the echoed message id, or the server's error.
    pub fn confirm_send(&self, resp: &ServerResponse) -> (r: Result<String, ClientError>)
        ensures
            match resp@ {
                ResponseView::MessageSent { message_id } => r matches Ok(id) && id@ == message_id,
                ResponseView::Error { message } => (r matches Err(ClientError::ServerError(m))
                    && m@ == message),
                _ => r == Err::<String, ClientError>(ClientError::UnexpectedResponse),
            },
    {
        match resp {
            ServerResponse::MessageSent { message_id } => Ok(message_id.clone()),
            ServerResponse::Error { message } => Err(ClientError::ServerError(message.clone())),
            _ => Err(ClientError::UnexpectedResponse),
        }
    }

    /// Read a mailbox answer: the delivered message, an empty mailbox when
    /// the server reports the distinct "no messages" error, or a failure.
    pub fn read_messages(&self, resp: &ServerResponse) -> (r: Result<Vec<Message>, ClientError>)
        ensures
            match resp@ {
                ResponseView::MessageReceived { message } => r matches Ok(ms) && ms@.len() == 1
                    && ms@[0]@ == message,
                ResponseView::Error { message } => if text_contains(
                    message,
                    "No messages found"@,
                ) {
                    r matches Ok(ms) && ms@.len() == 0
                } else {
                    r matches Err(ClientError::ServerError(m)) && m@ == message
                },
                _ => r == Err::<Vec<Message>, ClientError>(ClientError::UnexpectedResponse),
            },
    {
        match resp {
            ServerResponse::MessageReceived { message } => {
                let mut ms: Vec<Message> = Vec::new();
                ms.push(message.clone());
                Ok(ms)
            },
            ServerResponse::Error { message } => {
                if str_contains(message.as_str(), "No messages found") {
                    let ms: Vec<Message> = Vec::new();
                    Ok(ms)
                } else {
                    Err(ClientError::ServerError(message.clone()))
                }
            },
            _ => Err(ClientError::UnexpectedResponse),
        }
    }

    /// Read a client-list answer.
    pub fn client_list(&self, resp: &ServerResponse) -> (r: Result<Vec<String>, ClientError>)
        ensures
            match resp@ {
                ResponseView::ClientList { clients } => r matches Ok(cs) && cs@.map_values(
                    |s: String| s@,
                ) == clients,
                _ => r == Err::<Vec<String>, ClientError>(ClientError::UnexpectedResponse),
            },
    {
        match resp {
            ServerResponse::ClientList { clients } => {
                let mut out: Vec<String> = Vec::new();
                let mut i: usize = 0;
                while i < clients.len()
                    invariant
                        i <= clients@.len(),
                        out@.len() == i,
                        forall|j: int| 0 <= j < i ==> (#[trigger] out@[j])@ == clients@[j]@,
                    decreases clients@.len() - i,
                {
                    out.push(clients[i].clone());
                    i = i + 1;
                }
                proof {
                    assert(out@.map_values(|s: String| s@) =~= clients@.map_values(
                        |s: String| s@,
                    ));
                }
                Ok(out)
            },
            _ => Err(ClientError::UnexpectedResponse),
        }
    }

    /// Decrypt a received message's hex content from a known peer. Fails
    /// closed exactly as the cryptographic layer does: an unknown sender, bad
    /// hex, and an unauthentic or non-text plaintext each yield an error,
    /// never partial plaintext.
    pub fn decrypt_from(&self, sender: &String, content_hex: &String) -> (r: Result<
        String,
        ClientError,
    >)
        requires
            self.wf(),
        ensures
            ({
                let contact = lookup_contact(self.spec_contacts(), sender@);
                let data = spec_hex_decode(content_hex@);
                match r {
                    Ok(s) => contact is Some && data is Some && ({
                        let key = x25519_shared_key(
                            self.spec_crypto().spec_agreement_secret(),
                            contact->0,
                        );
                        &&& data->0.len() >= 12
                        &&& chacha_open(key, data->0.take(12), data->0.skip(12)) == Some(
                            encode_utf8(s@),
                        )
                    }),
                    Err(ClientError::UnknownRecipient) => contact is None,
                    Err(ClientError::BadKey) => contact is Some && data is None,
                    Err(ClientError::ServerError(m)) => contact is Some && data is Some && ({
                        let key = x25519_shared_key(
                            self.spec_crypto().spec_agreement_secret(),
                            contact->0,
                        );
                        let opened = chacha_open(key, data->0.take(12), data->0.skip(12));
                        &&& m@ == "Decryption failed"@
                        &&& !(data->0.len() >= 12 && opened is Some && valid_utf8(opened->0))
                    }),
                    Err(ClientError::UnexpectedResponse) => false,
                }
            }),
    {
        let key = match self.find_contact(sender) {
            Some(k) => k,
            None => {
                return Err(ClientError::UnknownRecipient);
            },
        };
        let data = match hex_decode(content_hex) {
            Some(d) => d,
            None => {
                return Err(ClientError::BadKey);
            },
        };
        match self.crypto.decrypt_message(&key, &data) {
            Ok(text) => Ok(text),
            Err(_) => Err(ClientError::ServerError("Decryption failed".to_owned())),
        }
    }
}

} // verus!
