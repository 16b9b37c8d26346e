//! The bot that logs in, collects texture names from the definitions the
//! server sends, and decides for each event of the connection what is to
//! be done. Waiting for events and talking to the transport is the
//! caller's part; every decision is taken here.

use crate::auth::{next_state, reply, tick_reply, uses_randomness, Auth, AuthView};
use crate::credential::{fresh_secret, SECRET_LEN};
use crate::error::AuthError;
use crate::message::{intent_view, ClientMessage, ClientMessageView, ServerMessage, ServerMessageView};
use crate::textures::{fresh_names, TextureLog};
use vstd::prelude::*;

verus! {

/// Time between two transmissions of the first request, in milliseconds.
pub const RETRY_INTERVAL_MILLIS: u64 = 100;

/// The kinds of definition tables that a server sends after login.
#[derive(Clone, Copy, Debug, PartialEq, Eq, Structural)]
pub enum DefType {
    NodeDef,
    ItemDef,
}

/// The kinds of definition tables that have not arrived yet.
#[derive(Clone, Copy, Debug, PartialEq, Eq, Structural)]
pub struct Pending {
    pub node_def: bool,
    pub item_def: bool,
}

impl Pending {
    /// What is left once `def` has arrived.
    pub open spec fn without(self, def: DefType) -> Pending {
        match def {
            DefType::NodeDef => Pending { node_def: false, ..self },
            DefType::ItemDef => Pending { item_def: false, ..self },
        }
    }

    /// Whether nothing is left to wait for.
    pub open spec fn none_left(self) -> bool {
        !self.node_def && !self.item_def
    }

    /// Both kinds are outstanding.
    pub fn all() -> (pending: Pending)
        ensures
            pending == (Pending { node_def: true, item_def: true }),
    {
        Pending { node_def: true, item_def: true }
    }

    /// Marks `def` as arrived.
    pub fn remove(&mut self, def: DefType)
        ensures
            *final(self) == old(self).without(def),
    {
        match def {
            DefType::NodeDef => {
                self.node_def = false;
            },
            DefType::ItemDef => {
                self.item_def = false;
            },
        }
    }

    /// Whether nothing is left to wait for.
    pub fn is_empty(&self) -> (empty: bool)
        ensures
            empty == self.none_left(),
    {
        !self.node_def && !self.item_def
    }
}

/// Why the client itself asked for the connection to be closed.
#[derive(Clone, Copy, Debug, PartialEq, Eq, Structural)]
pub enum CloseCause {
    /// The time allowed for the session is over.
    BudgetElapsed,
    /// The operator interrupted the session.
    Interrupted,
    /// All definitions have arrived and no more was asked for.
    DefinitionsReceived,
}

/// How a connection ended.
#[derive(Clone, Debug, PartialEq, Eq)]
pub enum Outcome {
    /// The server ended the stream while the client wanted to go on.
    StreamEnded,
    /// The stream ended after the client had asked for it.
    Quit(CloseCause),
    /// The login failed.
    AuthFailed(AuthError),
    /// Reading from or writing to the transport failed.
    TransportError,
    /// The server ended the session, with its reason.
    Kicked(String),
}

/// Mathematical content of an [`Outcome`].
pub enum OutcomeView {
    StreamEnded,
    Quit(CloseCause),
    AuthFailed(AuthError),
    TransportError,
    Kicked(Seq<char>),
}

impl View for Outcome {
    type V = OutcomeView;

    open spec fn view(&self) -> OutcomeView {
        match *self {
            Outcome::StreamEnded => OutcomeView::StreamEnded,
            Outcome::Quit(cause) => OutcomeView::Quit(cause),
            Outcome::AuthFailed(e) => OutcomeView::AuthFailed(e),
            Outcome::TransportError => OutcomeView::TransportError,
            Outcome::Kicked(reason) => OutcomeView::Kicked(reason@),
        }
    }
}

/// Where the connection stands. It only ever moves forward.
#[derive(Clone, Debug, PartialEq, Eq)]
pub enum LoopState {
    /// Events are handled and answers are sent.
    Running,
    /// The transport was asked to shut down; what still arrives is read,
    /// nothing is sent any more.
    Closing(CloseCause),
    /// The connection is over.
    Closed(Outcome),
}

/// Mathematical content of a [`LoopState`].
pub enum LoopStateView {
    Running,
    Closing(CloseCause),
    Closed(OutcomeView),
}

impl View for LoopState {
    type V = LoopStateView;

    open spec fn view(&self) -> LoopStateView {
        match *self {
            LoopState::Running => LoopStateView::Running,
            LoopState::Closing(cause) => LoopStateView::Closing(cause),
            LoopState::Closed(outcome) => LoopStateView::Closed(outcome@),
        }
    }
}

/// Something that happened on the connection.
#[derive(Clone, Debug, PartialEq, Eq)]
pub enum Event {
    /// A message arrived.
    Message(ServerMessage),
    /// The stream of messages ended.
    StreamEnd,
    /// Reading a message or sending one failed.
    TransportError,
    /// The retry timer fired.
    RetryTick,
    /// The time allowed for the session is over.
    BudgetElapsed,
    /// The operator interrupted the session.
    Interrupt,
}

/// Mathematical content of an [`Event`].
pub enum EventView {
    Message(ServerMessageView),
    StreamEnd,
    TransportError,
    RetryTick,
    BudgetElapsed,
    Interrupt,
}

impl View for Event {
    type V = EventView;

    open spec fn view(&self) -> EventView {
        match *self {
            Event::Message(msg) => EventView::Message(msg@),
            Event::StreamEnd => EventView::StreamEnd,
            Event::TransportError => EventView::TransportError,
            Event::RetryTick => EventView::RetryTick,
            Event::BudgetElapsed => EventView::BudgetElapsed,
            Event::Interrupt => EventView::Interrupt,
        }
    }
}

/// What the caller is to do after an event, before it waits for the next.
#[derive(Clone, Debug, PartialEq, Eq)]
pub struct Reaction {
    /// A message to transmit in full.
    pub send: Option<ClientMessage>,
    /// Texture names to print, one per line, in this order.
    pub textures: Vec<String>,
    /// Whether to ask the transport to shut down.
    pub close: bool,
}

/// Mathematical content of a [`Reaction`].
pub struct ReactionView {
    pub send: Option<ClientMessageView>,
    pub textures: Seq<Seq<char>>,
    pub close: bool,
}

impl View for Reaction {
    type V = ReactionView;

    open spec fn view(&self) -> ReactionView {
        ReactionView {
            send: intent_view(self.send),
            textures: self.textures.deep_view(),
            close: self.close,
        }
    }
}

/// The reaction that asks for nothing.
pub open spec fn no_reaction() -> ReactionView {
    ReactionView { send: None, textures: Seq::empty(), close: false }
}

/// Mathematical content of a [`Bot`].
pub struct BotView {
    pub auth: AuthView,
    pub quit_after_defs: bool,
    pub pending: Pending,
    pub has: Seq<Seq<char>>,
    pub state: LoopStateView,
}

/// The kind of definition table that a message carries, if any.
pub open spec fn def_type(msg: ServerMessageView) -> Option<DefType> {
    match msg {
        ServerMessageView::NodeDefs(_) => Some(DefType::NodeDef),
        ServerMessageView::ItemDefs(_) => Some(DefType::ItemDef),
        _ => None,
    }
}

/// The texture names that a message carries.
pub open spec fn texture_names(msg: ServerMessageView) -> Seq<Seq<char>> {
    match msg {
        ServerMessageView::NodeDefs(names) => names,
        ServerMessageView::ItemDefs(names) => names,
        _ => Seq::empty(),
    }
}

/// Whether the arrival of `def` makes the bot ask for the connection to be
/// closed: it runs, was told to quit after the definitions, and `def` was
/// the last kind outstanding.
pub open spec fn closes_on_def(pre: BotView, def: DefType) -> bool {
    pre.state is Running && pre.quit_after_defs && pre.pending.without(def).none_left()
}

/// The bot after a definition table of kind `def` has arrived.
pub open spec fn after_def(pre: BotView, def: DefType) -> BotView {
    BotView {
        pending: pre.pending.without(def),
        state: if closes_on_def(pre, def) {
            LoopStateView::Closing(CloseCause::DefinitionsReceived)
        } else {
            pre.state
        },
        ..pre
    }
}

/// Whether the login is consulted on `msg`: only while the connection
/// runs, and never on a kick.
pub open spec fn consults_auth(pre: BotView, msg: ServerMessageView) -> bool {
    pre.state is Running && !(msg is Kick)
}

/// The bot after `msg` has arrived, with `random` as the bytes at hand.
///
/// A closed connection takes no notice. A kick closes the connection and
/// its reason is the outcome. While the connection runs the login handles
/// the message, and an error of the login closes the connection. Texture
/// names are recorded as long as the connection is not closed.
pub open spec fn after_message(pre: BotView, msg: ServerMessageView, random: Seq<u8>) -> BotView {
    if pre.state is Closed {
        pre
    } else if let ServerMessageView::Kick(reason) = msg {
        BotView { state: LoopStateView::Closed(OutcomeView::Kicked(reason)), ..pre }
    } else if consults_auth(pre, msg) && reply(pre.auth, msg, random) is Err {
        BotView {
            state: LoopStateView::Closed(
                OutcomeView::AuthFailed(reply(pre.auth, msg, random)->Err_0),
            ),
            ..pre
        }
    } else {
        let heard = BotView {
            auth: if consults_auth(pre, msg) {
                next_state(pre.auth, msg, random)
            } else {
                pre.auth
            },
            has: pre.has + fresh_names(pre.has, texture_names(msg)),
            ..pre
        };
        match def_type(msg) {
            Some(def) => after_def(heard, def),
            None => heard,
        }
    }
}

/// What the caller is to do after `msg` has arrived.
pub open spec fn message_reaction(pre: BotView, msg: ServerMessageView, random: Seq<u8>) -> ReactionView {
    if pre.state is Closed {
        no_reaction()
    } else if msg is Kick {
        ReactionView { close: pre.state is Running, ..no_reaction() }
    } else if consults_auth(pre, msg) && reply(pre.auth, msg, random) is Err {
        ReactionView { close: true, ..no_reaction() }
    } else {
        ReactionView {
            send: if consults_auth(pre, msg) {
                reply(pre.auth, msg, random)->Ok_0
            } else {
                None
            },
            textures: fresh_names(pre.has, texture_names(msg)),
            close: match def_type(msg) {
                Some(def) => closes_on_def(pre, def),
                None => false,
            },
        }
    }
}

/// The bot after the client itself decided to close, for `cause`.
pub open spec fn after_quit(pre: BotView, cause: CloseCause) -> BotView {
    if pre.state is Running {
        BotView { state: LoopStateView::Closing(cause), ..pre }
    } else {
        pre
    }
}

/// The bot after `event`, with `random` as the bytes at hand.
pub open spec fn after(pre: BotView, event: EventView, random: Seq<u8>) -> BotView {
    match event {
        EventView::Message(msg) => after_message(pre, msg, random),
        EventView::StreamEnd => match pre.state {
            LoopStateView::Running => BotView {
                state: LoopStateView::Closed(OutcomeView::StreamEnded),
                ..pre
            },
            LoopStateView::Closing(cause) => BotView {
                state: LoopStateView::Closed(OutcomeView::Quit(cause)),
                ..pre
            },
            LoopStateView::Closed(_) => pre,
        },
        EventView::TransportError => if pre.state is Closed {
            pre
        } else {
            BotView { state: LoopStateView::Closed(OutcomeView::TransportError), ..pre }
        },
        EventView::RetryTick => pre,
        EventView::BudgetElapsed => after_quit(pre, CloseCause::BudgetElapsed),
        EventView::Interrupt => after_quit(pre, CloseCause::Interrupted),
    }
}

/// What the caller is to do after `event`.
pub open spec fn reaction_to(pre: BotView, event: EventView, random: Seq<u8>) -> ReactionView {
    match event {
        EventView::Message(msg) => message_reaction(pre, msg, random),
        EventView::StreamEnd => no_reaction(),
        EventView::TransportError => ReactionView { close: pre.state is Running, ..no_reaction() },
        EventView::RetryTick => if pre.state is Running {
            ReactionView { send: tick_reply(pre.auth), ..no_reaction() }
        } else {
            no_reaction()
        },
        EventView::BudgetElapsed => ReactionView { close: pre.state is Running, ..no_reaction() },
        EventView::Interrupt => ReactionView { close: pre.state is Running, ..no_reaction() },
    }
}

/// Whether handling `event` consumes fresh random bytes.
pub open spec fn event_uses_randomness(pre: BotView, event: EventView) -> bool {
    event matches EventView::Message(msg) && message_uses_randomness(pre, msg)
}

/// Whether the retry timer is to run: while the connection runs and no
/// greeting has arrived.
pub open spec fn retry_is_armed(pre: BotView) -> bool {
    pre.state is Running && pre.auth.phase is Initial
}

/// A login, the texture names collected so far, and the state of the
/// connection.
pub struct Bot {
    auth: Auth,
    quit_after_defs: bool,
    pending: Pending,
    has: TextureLog,
    state: LoopState,
}

impl View for Bot {
    type V = BotView;

    closed spec fn view(&self) -> BotView {
        BotView {
            auth: self.auth@,
            quit_after_defs: self.quit_after_defs,
            pending: self.pending,
            has: self.has@,
            state: self.state@,
        }
    }
}

impl Reaction {
    /// The reaction that asks for nothing.
    pub fn nothing() -> (reaction: Reaction)
        ensures
            reaction@ == no_reaction(),
    {
        let reaction = Reaction { send: None, textures: Vec::new(), close: false };
        assert(reaction.textures.deep_view() =~= Seq::<Seq<char>>::empty());
        reaction
    }

    /// The reaction that asks for the transport to shut down if `close`
    /// holds, and for nothing else.
    pub fn closing(close: bool) -> (reaction: Reaction)
        ensures
            reaction@ == (ReactionView { close, ..no_reaction() }),
    {
        let reaction = Reaction { send: None, textures: Vec::new(), close };
        assert(reaction.textures.deep_view() =~= Seq::<Seq<char>>::empty());
        reaction
    }
}

impl Bot {
    /// A bot for a connection that has just been opened: it runs, nothing
    /// has arrived, and the login has not begun.
    pub fn new(username: String, password: String, lang: String, quit_after_defs: bool) -> (bot:
        Bot)
        ensures
            bot@ == (BotView {
                auth: AuthView {
                    username: username@,
                    password: password@,
                    lang: lang@,
                    phase: crate::auth::PhaseView::Initial,
                },
                quit_after_defs,
                pending: Pending { node_def: true, item_def: true },
                has: Seq::empty(),
                state: LoopStateView::Running,
            }),
    {
        Bot {
            auth: Auth::new(username, password, lang),
            quit_after_defs,
            pending: Pending::all(),
            has: TextureLog::new(),
            state: LoopState::Running,
        }
    }

    /// The login.
    pub fn auth(&self) -> (auth: &Auth)
        ensures
            auth@ == self@.auth,
    {
        &self.auth
    }

    /// The kinds of definition tables that have not arrived yet.
    pub fn pending(&self) -> (pending: Pending)
        ensures
            pending == self@.pending,
    {
        self.pending
    }

    /// The texture names collected so far.
    pub fn textures(&self) -> (log: &TextureLog)
        ensures
            log@ == self@.has,
    {
        &self.has
    }

    /// Where the connection stands.
    pub fn state(&self) -> (state: &LoopState)
        ensures
            state@ == self@.state,
    {
        &self.state
    }

    /// Whether events are still answered.
    pub fn is_running(&self) -> (b: bool)
        ensures
            b == (self@.state is Running),
    {
        match self.state {
            LoopState::Running => true,
            _ => false,
        }
    }

    /// Whether the connection is over, so that the caller leaves its loop.
    pub fn is_closed(&self) -> (b: bool)
        ensures
            b == (self@.state is Closed),
    {
        match self.state {
            LoopState::Closed(_) => true,
            _ => false,
        }
    }

    /// Whether the caller is to keep the retry timer running while it
    /// waits for the next event.
    pub fn retry_armed(&self) -> (armed: bool)
        ensures
            armed == retry_is_armed(self@),
    {
        self.is_running() && self.auth.is_initial()
    }

    /// Takes note that a definition table of kind `def` has arrived, and
    /// says whether the transport is to be asked to shut down.
    pub fn got_def(&mut self, def: DefType) -> (close: bool)
        ensures
            final(self)@ == after_def(old(self)@, def),
            close == closes_on_def(old(self)@, def),
    {
        self.pending.remove(def);
        if self.quit_after_defs && self.pending.is_empty() && self.is_running() {
            self.state = LoopState::Closing(CloseCause::DefinitionsReceived);
            true
        } else {
            false
        }
    }

    /// Handles one message from the server, with `random` as the salt or
    /// ephemeral secret should the login call for one. The bytes must be
    /// fresh from a secure generator and used for this call only.
    pub fn handle_pkt_with(&mut self, pkt: &ServerMessage, random: Vec<u8>) -> (reaction: Reaction)
        ensures
            final(self)@ == after_message(old(self)@, pkt@, random@),
            reaction@ == message_reaction(old(self)@, pkt@, random@),
    {
        if self.is_closed() {
            return Reaction::nothing();
        }
        let running = self.is_running();
        if let ServerMessage::Kick(reason) = pkt {
            self.state = LoopState::Closed(Outcome::Kicked(reason.clone()));
            return Reaction::closing(running);
        }
        let mut send: Option<ClientMessage> = None;
        if running {
            match self.auth.handle_message_with(pkt, random) {
                Ok(intent) => {
                    send = intent;
                },
                Err(e) => {
                    self.state = LoopState::Closed(Outcome::AuthFailed(e));
                    return Reaction::closing(true);
                },
            }
        }
        let ghost heard_has = self.has@;
        let (textures, close) = match pkt {
            ServerMessage::NodeDefs(names) => {
                let textures = self.has.record(names);
                let close = self.got_def(DefType::NodeDef);
                (textures, close)
            },
            ServerMessage::ItemDefs(names) => {
                let textures = self.has.record(names);
                let close = self.got_def(DefType::ItemDef);
                (textures, close)
            },
            _ => {
                let textures: Vec<String> = Vec::new();
                assert(textures.deep_view() =~= Seq::<Seq<char>>::empty());
                assert(heard_has + Seq::<Seq<char>>::empty() =~= heard_has);
                (textures, false)
            },
        };
        Reaction { send, textures, close }
    }

    /// Handles one message from the server. Where the login calls for a
    /// salt or an ephemeral secret, it is drawn here, so that no caller can
    /// hand in bytes that were used before.
    pub fn handle_pkt(&mut self, pkt: &ServerMessage) -> (reaction: Reaction)
        ensures
            exists|random: Seq<u8>|
                random.len() == SECRET_LEN && #[trigger] after_message(old(self)@, pkt@, random)
                    == final(self)@ && reaction@ == message_reaction(old(self)@, pkt@, random),
    {
        let draw = match pkt {
            ServerMessage::Hello { .. } => self.retry_armed(),
            _ => false,
        };
        let ghost pre = self@;
        if draw {
            let random = fresh_secret();
            self.handle_pkt_with(pkt, random)
        } else {
            let random: Vec<u8> = Vec::new();
            let ghost witness = Seq::new(SECRET_LEN as nat, |i: int| 0u8);
            proof {
                lemma_message_randomness_used_once(pre, pkt@, witness, random@);
            }
            self.handle_pkt_with(pkt, random)
        }
    }

    /// Takes note that the client itself wants the connection closed, and
    /// says whether the transport is to be asked to shut down.
    fn quit(&mut self, cause: CloseCause) -> (reaction: Reaction)
        ensures
            final(self)@ == after_quit(old(self)@, cause),
            reaction@ == (ReactionView { close: old(self)@.state is Running, ..no_reaction() }),
    {
        if self.is_running() {
            self.state = LoopState::Closing(cause);
            Reaction::closing(true)
        } else {
            Reaction::closing(false)
        }
    }

    /// Decides what is to be done after `event`, with `random` as the salt
    /// or ephemeral secret should the login call for one. The bytes must
    /// be fresh from a secure generator and used for this call only.
    pub fn on_event_with(&mut self, event: &Event, random: Vec<u8>) -> (reaction: Reaction)
        ensures
            final(self)@ == after(old(self)@, event@, random@),
            reaction@ == reaction_to(old(self)@, event@, random@),
    {
        match event {
            Event::Message(msg) => self.handle_pkt_with(msg, random),
            Event::StreamEnd => {
                let ended = match &self.state {
                    LoopState::Running => Some(Outcome::StreamEnded),
                    LoopState::Closing(cause) => Some(Outcome::Quit(*cause)),
                    LoopState::Closed(_) => None,
                };
                if let Some(outcome) = ended {
                    self.state = LoopState::Closed(outcome);
                }
                Reaction::nothing()
            },
            Event::TransportError => {
                let running = self.is_running();
                if !self.is_closed() {
                    self.state = LoopState::Closed(Outcome::TransportError);
                }
                Reaction::closing(running)
            },
            Event::RetryTick => {
                if self.is_running() {
                    let reaction = Reaction {
                        send: self.auth.on_retry_tick(),
                        textures: Vec::new(),
                        close: false,
                    };
                    assert(reaction.textures.deep_view() =~= Seq::<Seq<char>>::empty());
                    reaction
                } else {
                    Reaction::nothing()
                }
            },
            Event::BudgetElapsed => self.quit(CloseCause::BudgetElapsed),
            Event::Interrupt => self.quit(CloseCause::Interrupted),
        }
    }

    /// Decides what is to be done after `event`. Where the login calls for
    /// a salt or an ephemeral secret, it is drawn here, so that no caller
    /// can hand in bytes that were used before.
    pub fn on_event(&mut self, event: &Event) -> (reaction: Reaction)
        ensures
            exists|random: Seq<u8>|
                random.len() == SECRET_LEN && #[trigger] after(old(self)@, event@, random)
                    == final(self)@ && reaction@ == reaction_to(old(self)@, event@, random),
    {
        match event {
            Event::Message(msg) => {
                let ghost pre = self@;
                let reaction = self.handle_pkt(msg);
                proof {
                    let random = choose|random: Seq<u8>|
                        random.len() == SECRET_LEN && #[trigger] after_message(pre, msg@, random)
                            == self@ && reaction@ == message_reaction(pre, msg@, random);
                    assert(after(pre, event@, random) == self@);
                }
                reaction
            },
            _ => {
                let ghost pre = self@;
                let random: Vec<u8> = Vec::new();
                let ghost witness = Seq::new(SECRET_LEN as nat, |i: int| 0u8);
                proof {
                    lemma_event_randomness_used_once(pre, event@, witness, random@);
                }
                self.on_event_with(event, random)
            },
        }
    }
}

/// Whether handling `msg` consumes fresh random bytes.
pub open spec fn message_uses_randomness(pre: BotView, msg: ServerMessageView) -> bool {
    consults_auth(pre, msg) && uses_randomness(pre.auth, msg)
}

/// Only a greeting that reaches a login in phase `Initial` on a running
/// connection depends on the random bytes.
pub proof fn lemma_message_randomness_used_once(
    pre: BotView,
    msg: ServerMessageView,
    random1: Seq<u8>,
    random2: Seq<u8>,
)
    requires
        !message_uses_randomness(pre, msg),
    ensures
        after_message(pre, msg, random1) == after_message(pre, msg, random2),
        message_reaction(pre, msg, random1) == message_reaction(pre, msg, random2),
{
    if consults_auth(pre, msg) {
        crate::auth::lemma_randomness_used_once(pre.auth, msg, random1, random2);
    }
}

/// No event but such a greeting depends on the random bytes.
pub proof fn lemma_event_randomness_used_once(
    pre: BotView,
    event: EventView,
    random1: Seq<u8>,
    random2: Seq<u8>,
)
    requires
        !event_uses_randomness(pre, event),
    ensures
        after(pre, event, random1) == after(pre, event, random2),
        reaction_to(pre, event, random1) == reaction_to(pre, event, random2),
{
    if let EventView::Message(msg) = event {
        lemma_message_randomness_used_once(pre, msg, random1, random2);
    }
}

/// Position of a state in the order `Running`, `Closing`, `Closed`.
pub open spec fn loop_rank(state: LoopStateView) -> nat {
    match state {
        LoopStateView::Running => 0,
        LoopStateView::Closing(_) => 1,
        LoopStateView::Closed(_) => 2,
    }
}

/// A closed connection stays as it is and asks for nothing, whatever
/// happens.
pub proof fn lemma_closed_is_final(pre: BotView, event: EventView, random: Seq<u8>)
    requires
        pre.state is Closed,
    ensures
        after(pre, event, random) == pre,
        reaction_to(pre, event, random) == no_reaction(),
{
}

/// No event moves the connection or the login backward, or changes who
/// logs in.
pub proof fn lemma_connection_moves_forward(pre: BotView, event: EventView, random: Seq<u8>)
    ensures
        loop_rank(pre.state) <= loop_rank(after(pre, event, random).state),
        crate::auth::rank(pre.auth.phase) <= crate::auth::rank(
            after(pre, event, random).auth.phase,
        ),
        after(pre, event, random).auth.username == pre.auth.username,
        after(pre, event, random).auth.password == pre.auth.password,
        after(pre, event, random).auth.lang == pre.auth.lang,
        after(pre, event, random).quit_after_defs == pre.quit_after_defs,
{
    if let EventView::Message(msg) = event {
        crate::auth::lemma_step_moves_forward(pre.auth, msg, random);
    }
}

/// A message is sent only on a connection that runs and goes on running,
/// and never together with a request to shut down. The transport is asked
/// to shut down exactly when the connection stops running for another
/// reason than the end of the stream, so at most once.
pub proof fn lemma_one_thing_at_a_time(pre: BotView, event: EventView, random: Seq<u8>)
    ensures
        reaction_to(pre, event, random).send is Some ==> pre.state is Running && after(
            pre,
            event,
            random,
        ).state is Running && !reaction_to(pre, event, random).close,
        reaction_to(pre, event, random).close <==> pre.state is Running && !(after(
            pre,
            event,
            random,
        ).state is Running) && !(event is StreamEnd),
{
    if let EventView::Message(msg) = event {
        crate::auth::lemma_step_moves_forward(pre.auth, msg, random);
    }
}

/// Once the login has left `Initial`, the retry timer is not armed, and a
/// tick that still arrives changes nothing and sends nothing.
pub proof fn lemma_timer_disarmed_after_initial(pre: BotView, random: Seq<u8>)
    requires
        !(pre.auth.phase is Initial),
    ensures
        !retry_is_armed(pre),
        after(pre, EventView::RetryTick, random) == pre,
        reaction_to(pre, EventView::RetryTick, random) == no_reaction(),
{
}

/// A kick ends a connection that is not over yet: its reason is the
/// outcome, the login is left as it was, and nothing is sent.
pub proof fn lemma_kick_is_final(pre: BotView, reason: Seq<char>, random: Seq<u8>)
    requires
        !(pre.state is Closed),
    ensures
        after(pre, EventView::Message(ServerMessageView::Kick(reason)), random) == (BotView {
            state: LoopStateView::Closed(OutcomeView::Kicked(reason)),
            ..pre
        }),
        reaction_to(pre, EventView::Message(ServerMessageView::Kick(reason)), random).send
            is None,
{
}

/// An error of the login ends a running connection: the error is the
/// outcome, nothing else changes, nothing is sent, and the transport is
/// asked to shut down.
pub proof fn lemma_auth_failure_is_final(
    pre: BotView,
    msg: ServerMessageView,
    random: Seq<u8>,
    e: AuthError,
)
    requires
        pre.state is Running,
        reply(pre.auth, msg, random) == Err::<Option<ClientMessageView>, AuthError>(e),
    ensures
        after(pre, EventView::Message(msg), random) == (BotView {
            state: LoopStateView::Closed(OutcomeView::AuthFailed(e)),
            ..pre
        }),
        reaction_to(pre, EventView::Message(msg), random) == (ReactionView {
            close: true,
            ..no_reaction()
        }),
{
}

/// What is printed after an event is exactly what the log has gained, and
/// a log without repetitions stays so: no texture name is printed twice
/// on one connection.
pub proof fn lemma_textures_printed_once(pre: BotView, event: EventView, random: Seq<u8>)
    ensures
        after(pre, event, random).has == pre.has + reaction_to(pre, event, random).textures,
        pre.has.no_duplicates() ==> after(pre, event, random).has.no_duplicates(),
{
    let printed = reaction_to(pre, event, random).textures;
    if let EventView::Message(msg) = event {
        if pre.has.no_duplicates() {
            crate::textures::lemma_log_stays_distinct(pre.has, texture_names(msg));
        }
    }
    if printed.len() == 0 {
        assert(pre.has + printed =~= pre.has);
    }
}

/// One event and the random bytes at hand when it is handled.
pub struct Happening {
    pub event: EventView,
    pub random: Seq<u8>,
}

/// The bot reached from `start` after the events of `history` were handled
/// in order.
pub open spec fn bot_run(start: BotView, history: Seq<Happening>) -> BotView
    decreases history.len(),
{
    if history.len() == 0 {
        start
    } else {
        after(bot_run(start, history.drop_last()), history.last().event, history.last().random)
    }
}

/// What the caller is asked to do after the event at position `k` of
/// `history`.
pub open spec fn reaction_at(start: BotView, history: Seq<Happening>, k: int) -> ReactionView {
    reaction_to(bot_run(start, history.take(k)), history[k].event, history[k].random)
}

/// Over any sequence of events, neither the connection nor the login is
/// ever further back after all of them than after the first `n`.
pub proof fn lemma_history_moves_forward(start: BotView, history: Seq<Happening>, n: int)
    requires
        0 <= n <= history.len(),
    ensures
        loop_rank(bot_run(start, history.take(n)).state) <= loop_rank(
            bot_run(start, history).state,
        ),
        crate::auth::rank(bot_run(start, history.take(n)).auth.phase) <= crate::auth::rank(
            bot_run(start, history).auth.phase,
        ),
    decreases history.len(),
{
    if n == history.len() {
        assert(history.take(n) =~= history);
    } else {
        let shorter = history.drop_last();
        assert(shorter.take(n) =~= history.take(n));
        lemma_history_moves_forward(start, shorter, n);
        lemma_connection_moves_forward(
            bot_run(start, shorter),
            history.last().event,
            history.last().random,
        );
    }
}

/// Once a connection is closed, nothing that happens later changes the
/// bot: the outcome stands.
pub proof fn lemma_history_stays_closed(start: BotView, history: Seq<Happening>, n: int)
    requires
        0 <= n <= history.len(),
        bot_run(start, history.take(n)).state is Closed,
    ensures
        bot_run(start, history) == bot_run(start, history.take(n)),
    decreases history.len(),
{
    if n == history.len() {
        assert(history.take(n) =~= history);
    } else {
        let shorter = history.drop_last();
        assert(shorter.take(n) =~= history.take(n));
        lemma_history_stays_closed(start, shorter, n);
        lemma_closed_is_final(bot_run(start, shorter), history.last().event, history.last().random);
    }
}

/// Over any sequence of events the transport is asked to shut down at most
/// once, and after that request nothing is sent.
pub proof fn lemma_close_requested_once(start: BotView, history: Seq<Happening>, i: int, j: int)
    requires
        0 <= i < j < history.len(),
        reaction_at(start, history, i).close,
    ensures
        !reaction_at(start, history, j).close,
        reaction_at(start, history, j).send is None,
{
    let before = bot_run(start, history.take(i));
    let upto = history.take(j);
    assert(history.take(i + 1).drop_last() =~= history.take(i));
    assert(history.take(i + 1).last() == history[i]);
    lemma_one_thing_at_a_time(before, history[i].event, history[i].random);
    assert(upto.take(i + 1) =~= history.take(i + 1));
    lemma_history_moves_forward(start, upto, i + 1);
    lemma_one_thing_at_a_time(bot_run(start, upto), history[j].event, history[j].random);
}

/// After the event that closed a connection, be it a kick, a failed login,
/// a transport error or the end of the stream, every later event is
/// answered with nothing.
pub proof fn lemma_silent_once_closed(start: BotView, history: Seq<Happening>, i: int, j: int)
    requires
        0 <= i <= j < history.len(),
        bot_run(start, history.take(i)).state is Closed,
    ensures
        reaction_at(start, history, j) == no_reaction(),
{
    let upto = history.take(j);
    assert(upto.take(i) =~= history.take(i));
    lemma_history_stays_closed(start, upto, i);
    lemma_closed_is_final(bot_run(start, upto), history[j].event, history[j].random);
}

} // verus!
