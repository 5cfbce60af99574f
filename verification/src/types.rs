//! Protocol value types: messages, client records, and the closed
//! command/response unions exchanged over the wire.

use vstd::prelude::*;

verus! {

/// Mathematical view of a stored or relayed message.
pub ghost struct MessageView {
    pub id: Seq<char>,
    pub sender_id: Seq<char>,
    pub recipient_id: Seq<char>,
    pub content: Seq<char>,
    pub timestamp: Seq<char>,
    pub encrypted: bool,
    pub signature: Option<Seq<char>>,
}

/// A relayed message. `content` is the `nonce||ciphertext` bytes hex-encoded;
/// `signature` is the sender's signature over the hex string's bytes, itself
/// hex-encoded. `timestamp` is an RFC 3339 instant, carried opaquely.
pub struct Message {
    pub id: String,
    pub sender_id: String,
    pub recipient_id: String,
    pub content: String,
    pub timestamp: String,
    pub encrypted: bool,
    pub signature: Option<String>,
}

impl View for Message {
    type V = MessageView;

    open spec fn view(&self) -> MessageView {
        MessageView {
            id: self.id@,
            sender_id: self.sender_id@,
            recipient_id: self.recipient_id@,
            content: self.content@,
            timestamp: self.timestamp@,
            encrypted: self.encrypted,
            signature: match self.signature {
                Some(s) => Some(s@),
                None => None,
            },
        }
    }
}

impl Clone for Message {
    fn clone(&self) -> (r: Self)
        ensures
            r@ == self@,
    {
        Message {
            id: self.id.clone(),
            sender_id: self.sender_id.clone(),
            recipient_id: self.recipient_id.clone(),
            content: self.content.clone(),
            timestamp: self.timestamp.clone(),
            encrypted: self.encrypted,
            signature: match &self.signature {
                Some(s) => Some(s.clone()),
                None => None,
            },
        }
    }
}

impl Message {
    /// A fresh outbound message: a new unique id, stamped with the current
    /// instant, marked encrypted, and not yet signed.
    pub fn new(sender_id: String, recipient_id: String, content: String) -> (r: Message)
        ensures
            r@.sender_id == sender_id@,
            r@.recipient_id == recipient_id@,
            r@.content == content@,
            r@.encrypted == true,
            r@.signature is None,
            r@.id.len() == 36,
    {
        Message {
            id: crate::fresh::fresh_uuid(),
            sender_id,
            recipient_id,
            content,
            timestamp: crate::fresh::now_rfc3339(),
            encrypted: true,
            signature: None,
        }
    }
}

/// Mathematical view of a registered client's record.
pub ghost struct ClientInfoView {
    pub id: Seq<char>,
    pub public_key: Seq<char>,
    pub registered_at: Seq<char>,
    pub last_seen: Seq<char>,
}

/// A registered client: its id, its signing public key (hex-encoded), and
/// two RFC 3339 instants, carried opaquely.
pub struct ClientInfo {
    pub id: String,
    pub public_key: String,
    pub registered_at: String,
    pub last_seen: String,
}

impl View for ClientInfo {
    type V = ClientInfoView;

    open spec fn view(&self) -> ClientInfoView {
        ClientInfoView {
            id: self.id@,
            public_key: self.public_key@,
            registered_at: self.registered_at@,
            last_seen: self.last_seen@,
        }
    }
}

impl Clone for ClientInfo {
    fn clone(&self) -> (r: Self)
        ensures
            r@ == self@,
    {
        ClientInfo {
            id: self.id.clone(),
            public_key: self.public_key.clone(),
            registered_at: self.registered_at.clone(),
            last_seen: self.last_seen.clone(),
        }
    }
}

/// Mathematical view of a command.
pub ghost enum CommandView {
    Register { client_id: Seq<char>, public_key: Seq<char> },
    Send {
        sender_id: Seq<char>,
        recipient_id: Seq<char>,
        encrypted_content: Seq<char>,
        signature: Seq<char>,
        message_id: Seq<char>,
    },
    GetMessages { client_id: Seq<char> },
    GetClients,
    Heartbeat { client_id: Seq<char> },
}

/// The closed union of requests a client can make of the server.
pub enum ServerCommand {
    Register { client_id: String, public_key: String },
    Send {
        sender_id: String,
        recipient_id: String,
        encrypted_content: String,
        signature: String,
        message_id: String,
    },
    GetMessages { client_id: String },
    GetClients,
    Heartbeat { client_id: String },
}

impl View for ServerCommand {
    type V = CommandView;

    open spec fn view(&self) -> CommandView {
        match self {
            ServerCommand::Register { client_id, public_key } => CommandView::Register {
                client_id: client_id@,
                public_key: public_key@,
            },
            ServerCommand::Send { sender_id, recipient_id, encrypted_content, signature, message_id } =>
                CommandView::Send {
                    sender_id: sender_id@,
                    recipient_id: recipient_id@,
                    encrypted_content: encrypted_content@,
                    signature: signature@,
                    message_id: message_id@,
                },
            ServerCommand::GetMessages { client_id } => CommandView::GetMessages {
                client_id: client_id@,
            },
            ServerCommand::GetClients => CommandView::GetClients,
            ServerCommand::Heartbeat { client_id } => CommandView::Heartbeat {
                client_id: client_id@,
            },
        }
    }
}

/// Mathematical view of a response.
pub ghost enum ResponseView {
    Registered { server_public_key: Seq<char> },
    MessageSent { message_id: Seq<char> },
    MessageReceived { message: MessageView },
    ClientList { clients: Seq<Seq<char>> },
    Error { message: Seq<char> },
    Ack,
}

/// The closed union of responses the server can give.
pub enum ServerResponse {
    Registered { server_public_key: String },
    MessageSent { message_id: String },
    MessageReceived { message: Message },
    ClientList { clients: Vec<String> },
    Error { message: String },
    Ack,
}

impl View for ServerResponse {
    type V = ResponseView;

    open spec fn view(&self) -> ResponseView {
        match self {
            ServerResponse::Registered { server_public_key } => ResponseView::Registered {
                server_public_key: server_public_key@,
            },
            ServerResponse::MessageSent { message_id } => ResponseView::MessageSent {
                message_id: message_id@,
            },
            ServerResponse::MessageReceived { message } => ResponseView::MessageReceived {
                message: message@,
            },
            ServerResponse::ClientList { clients } => ResponseView::ClientList {
                clients: clients@.map_values(|c: String| c@),
            },
            ServerResponse::Error { message } => ResponseView::Error { message: message@ },
            ServerResponse::Ack => ResponseView::Ack,
        }
    }
}

} // verus!
