//! The messages of the login exchange, as plain values. Framing and
//! serialization are done elsewhere.

use vstd::prelude::*;

verus! {

/// Serialization format announced in the first request.
pub const SERIALIZE_VERSION: u8 = 29;

/// Oldest protocol version this client speaks.
pub const MIN_PROTO_VERSION: u16 = 40;

/// Newest protocol version this client speaks.
pub const MAX_PROTO_VERSION: u16 = 40;

/// The ways to log in that a server advertises in its greeting.
#[derive(Clone, Copy, Debug, PartialEq, Eq, Structural)]
pub struct AuthMethods {
    /// Password sent in the clear (never used by this client).
    pub legacy_password: bool,
    /// Full proof exchange for a player the server already knows.
    pub srp: bool,
    /// Registration of a verifier for a player the server does not know yet.
    pub first_srp: bool,
}

/// A message from the server, reduced to what the client reads in it.
#[derive(Clone, Debug, PartialEq, Eq)]
pub enum ServerMessage {
    /// The greeting: methods on offer and the player name as the server has it.
    Hello { auth_methods: AuthMethods, username: String },
    /// The server's salt and public ephemeral value.
    SrpSaltAndPublic { salt: Vec<u8>, public: Vec<u8> },
    /// The login was accepted.
    AcceptAuth,
    /// The server ends the session, with its reason.
    Kick(String),
    /// Node definitions: the texture names of all tiles, in table order.
    NodeDefs(Vec<String>),
    /// Item definitions: the image names of all items, in table order.
    ItemDefs(Vec<String>),
    /// Any message the client has no use for.
    Other,
}

/// Mathematical content of a [`ServerMessage`].
pub enum ServerMessageView {
    Hello { auth_methods: AuthMethods, username: Seq<char> },
    SrpSaltAndPublic { salt: Seq<u8>, public: Seq<u8> },
    AcceptAuth,
    Kick(Seq<char>),
    NodeDefs(Seq<Seq<char>>),
    ItemDefs(Seq<Seq<char>>),
    Other,
}

impl View for ServerMessage {
    type V = ServerMessageView;

    open spec fn view(&self) -> ServerMessageView {
        match *self {
            ServerMessage::Hello { auth_methods, username } => ServerMessageView::Hello {
                auth_methods,
                username: username@,
            },
            ServerMessage::SrpSaltAndPublic { salt, public } => ServerMessageView::SrpSaltAndPublic {
                salt: salt@,
                public: public@,
            },
            ServerMessage::AcceptAuth => ServerMessageView::AcceptAuth,
            ServerMessage::Kick(reason) => ServerMessageView::Kick(reason@),
            ServerMessage::NodeDefs(names) => ServerMessageView::NodeDefs(names.deep_view()),
            ServerMessage::ItemDefs(names) => ServerMessageView::ItemDefs(names.deep_view()),
            ServerMessage::Other => ServerMessageView::Other,
        }
    }
}

/// A message that the client wants sent.
#[derive(Clone, Debug, PartialEq, Eq)]
pub enum ClientMessage {
    /// The first request: versions spoken and the player name wanted.
    Init {
        serialize_version: u8,
        min_proto_version: u16,
        max_proto_version: u16,
        player_name: String,
        send_full_item_meta: bool,
    },
    /// Registration of a new player: salt, verifier, and whether the
    /// password is empty.
    FirstSrp { salt: Vec<u8>, verifier: Vec<u8>, empty_passwd: bool },
    /// The client's public ephemeral value.
    SrpBytesA { a: Vec<u8>, no_sha1: bool },
    /// The client's proof.
    SrpBytesM { m: Vec<u8> },
    /// Start of the session proper, with the language wanted.
    Init2 { lang: String },
}

/// Mathematical content of a [`ClientMessage`].
pub enum ClientMessageView {
    Init {
        serialize_version: u8,
        min_proto_version: u16,
        max_proto_version: u16,
        player_name: Seq<char>,
        send_full_item_meta: bool,
    },
    FirstSrp { salt: Seq<u8>, verifier: Seq<u8>, empty_passwd: bool },
    SrpBytesA { a: Seq<u8>, no_sha1: bool },
    SrpBytesM { m: Seq<u8> },
    Init2 { lang: Seq<char> },
}

impl View for ClientMessage {
    type V = ClientMessageView;

    open spec fn view(&self) -> ClientMessageView {
        match *self {
            ClientMessage::Init {
                serialize_version,
                min_proto_version,
                max_proto_version,
                player_name,
                send_full_item_meta,
            } => ClientMessageView::Init {
                serialize_version,
                min_proto_version,
                max_proto_version,
                player_name: player_name@,
                send_full_item_meta,
            },
            ClientMessage::FirstSrp { salt, verifier, empty_passwd } => ClientMessageView::FirstSrp {
                salt: salt@,
                verifier: verifier@,
                empty_passwd,
            },
            ClientMessage::SrpBytesA { a, no_sha1 } => ClientMessageView::SrpBytesA { a: a@, no_sha1 },
            ClientMessage::SrpBytesM { m } => ClientMessageView::SrpBytesM { m: m@ },
            ClientMessage::Init2 { lang } => ClientMessageView::Init2 { lang: lang@ },
        }
    }
}

/// Content of a message that may be absent.
pub open spec fn intent_view(intent: Option<ClientMessage>) -> Option<ClientMessageView> {
    match intent {
        Some(message) => Some(message@),
        None => None,
    }
}

} // verus!
