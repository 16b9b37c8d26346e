//! The handshake state machine: what the client answers to each message of
//! the login exchange, and how far the login has come.

use crate::credential::{
    compute_public_ephemeral, compute_verifier, derive_proof, fresh_secret, proof_outcome,
    public_ephemeral_of, verifier_of, SECRET_LEN,
};
use crate::error::AuthError;
use crate::message::{
    intent_view, AuthMethods, ClientMessage, ClientMessageView, ServerMessage, ServerMessageView,
    MAX_PROTO_VERSION, MIN_PROTO_VERSION, SERIALIZE_VERSION,
};
use vstd::prelude::*;

verus! {

/// How far the login has come. It only ever moves forward.
#[derive(Clone, Debug, PartialEq, Eq)]
pub enum Phase {
    /// No greeting has arrived yet.
    Initial,
    /// The public ephemeral value was sent; the secret behind it waits for
    /// the server's salt and public value.
    AwaitingServerProof { secret: Vec<u8> },
    /// The client has done its part, by registration or by proof.
    Complete,
}

/// Mathematical content of a [`Phase`].
pub enum PhaseView {
    Initial,
    AwaitingServerProof { secret: Seq<u8> },
    Complete,
}

impl View for Phase {
    type V = PhaseView;

    open spec fn view(&self) -> PhaseView {
        match *self {
            Phase::Initial => PhaseView::Initial,
            Phase::AwaitingServerProof { secret } => PhaseView::AwaitingServerProof {
                secret: secret@,
            },
            Phase::Complete => PhaseView::Complete,
        }
    }
}

/// Mathematical content of an [`Auth`]: who logs in, and the phase.
pub struct AuthView {
    pub username: Seq<char>,
    pub password: Seq<char>,
    pub lang: Seq<char>,
    pub phase: PhaseView,
}

/// Position of a phase in the order `Initial`, `AwaitingServerProof`,
/// `Complete`.
pub open spec fn rank(phase: PhaseView) -> nat {
    match phase {
        PhaseView::Initial => 0,
        PhaseView::AwaitingServerProof { .. } => 1,
        PhaseView::Complete => 2,
    }
}

/// Whether handling `msg` consumes fresh random bytes: only a greeting that
/// arrives before any other does.
pub open spec fn uses_randomness(pre: AuthView, msg: ServerMessageView) -> bool {
    pre.phase is Initial && msg is Hello
}

/// The state after `msg` was handled in state `pre`, with `random` as the
/// bytes drawn for it. Name, password and language never change; the phase
/// changes only where the message is the one the phase waits for and is
/// acceptable.
pub open spec fn next_state(pre: AuthView, msg: ServerMessageView, random: Seq<u8>) -> AuthView {
    match msg {
        ServerMessageView::Hello { auth_methods, username } => {
            if !(pre.phase is Initial) || username != pre.username {
                pre
            } else if auth_methods.first_srp {
                AuthView { phase: PhaseView::Complete, ..pre }
            } else if auth_methods.srp {
                AuthView { phase: PhaseView::AwaitingServerProof { secret: random }, ..pre }
            } else {
                pre
            }
        },
        ServerMessageView::SrpSaltAndPublic { salt, public } => {
            match pre.phase {
                PhaseView::AwaitingServerProof { secret } => {
                    if proof_outcome(secret, pre.username, pre.password, salt, public) is Ok {
                        AuthView { phase: PhaseView::Complete, ..pre }
                    } else {
                        pre
                    }
                },
                _ => pre,
            }
        },
        _ => pre,
    }
}

/// What handling `msg` in state `pre` returns, with `random` as the bytes
/// drawn for it: a message to send, nothing, or the error that ends the
/// connection.
pub open spec fn reply(pre: AuthView, msg: ServerMessageView, random: Seq<u8>) -> Result<
    Option<ClientMessageView>,
    AuthError,
> {
    match msg {
        ServerMessageView::Hello { auth_methods, username } => {
            if !(pre.phase is Initial) {
                Ok(None)
            } else if username != pre.username {
                Err(AuthError::IdentityMismatch)
            } else if auth_methods.first_srp {
                Ok(
                    Some(
                        ClientMessageView::FirstSrp {
                            salt: random,
                            verifier: verifier_of(pre.username, pre.password, random),
                            empty_passwd: pre.password.len() == 0,
                        },
                    ),
                )
            } else if auth_methods.srp {
                Ok(
                    Some(
                        ClientMessageView::SrpBytesA {
                            a: public_ephemeral_of(random),
                            no_sha1: true,
                        },
                    ),
                )
            } else {
                Err(AuthError::UnsupportedAuthMethod)
            }
        },
        ServerMessageView::SrpSaltAndPublic { salt, public } => {
            match pre.phase {
                PhaseView::AwaitingServerProof { secret } => {
                    match proof_outcome(secret, pre.username, pre.password, salt, public) {
                        Ok(m) => Ok(Some(ClientMessageView::SrpBytesM { m })),
                        Err(e) => Err(e),
                    }
                },
                _ => Ok(None),
            }
        },
        ServerMessageView::AcceptAuth => {
            if pre.phase is Complete {
                Ok(Some(ClientMessageView::Init2 { lang: pre.lang }))
            } else {
                Err(AuthError::UnexpectedAcceptance)
            }
        },
        _ => Ok(None),
    }
}

/// What a tick of the retry timer returns in state `pre`: the first request
/// again while no greeting has arrived, nothing afterwards.
pub open spec fn tick_reply(pre: AuthView) -> Option<ClientMessageView> {
    if pre.phase is Initial {
        Some(
            ClientMessageView::Init {
                serialize_version: SERIALIZE_VERSION,
                min_proto_version: MIN_PROTO_VERSION,
                max_proto_version: MAX_PROTO_VERSION,
                player_name: pre.username,
                send_full_item_meta: false,
            },
        )
    } else {
        None
    }
}

/// Content of what a handler returns.
pub open spec fn reply_view(res: Result<Option<ClientMessage>, AuthError>) -> Result<
    Option<ClientMessageView>,
    AuthError,
> {
    match res {
        Ok(intent) => Ok(intent_view(intent)),
        Err(e) => Err(e),
    }
}

/// The login of one player on one connection.
pub struct Auth {
    username: String,
    password: String,
    lang: String,
    phase: Phase,
}

impl View for Auth {
    type V = AuthView;

    closed spec fn view(&self) -> AuthView {
        AuthView {
            username: self.username@,
            password: self.password@,
            lang: self.lang@,
            phase: self.phase@,
        }
    }
}

impl Auth {
    /// A login that has not begun: the phase is `Initial`.
    pub fn new(username: String, password: String, lang: String) -> (auth: Auth)
        ensures
            auth@ == (AuthView {
                username: username@,
                password: password@,
                lang: lang@,
                phase: PhaseView::Initial,
            }),
    {
        Auth { username, password, lang, phase: Phase::Initial }
    }

    /// The player name, as it was given.
    pub fn username(&self) -> (name: &String)
        ensures
            name@ == self@.username,
    {
        &self.username
    }

    /// The language asked for once the login is accepted.
    pub fn lang(&self) -> (lang: &String)
        ensures
            lang@ == self@.lang,
    {
        &self.lang
    }

    /// The current phase.
    pub fn phase(&self) -> (phase: &Phase)
        ensures
            phase@ == self@.phase,
    {
        &self.phase
    }

    /// Whether no greeting has been acted on yet.
    pub fn is_initial(&self) -> (b: bool)
        ensures
            b == (self@.phase is Initial),
    {
        match self.phase {
            Phase::Initial => true,
            _ => false,
        }
    }

    /// Whether the client has done its part of the login.
    pub fn is_complete(&self) -> (b: bool)
        ensures
            b == (self@.phase is Complete),
    {
        match self.phase {
            Phase::Complete => true,
            _ => false,
        }
    }

    /// Handles one message from the server, with `random` as the salt or
    /// ephemeral secret should the message call for one. The bytes must be
    /// fresh from a secure generator and used for this call only.
    pub fn handle_message_with(&mut self, msg: &ServerMessage, random: Vec<u8>) -> (res: Result<
        Option<ClientMessage>,
        AuthError,
    >)
        ensures
            final(self)@ == next_state(old(self)@, msg@, random@),
            reply_view(res) == reply(old(self)@, msg@, random@),
    {
        match msg {
            ServerMessage::Hello { auth_methods, username } => {
                if !self.is_initial() {
                    return Ok(None);
                }
                if !(self.username == *username) {
                    return Err(AuthError::IdentityMismatch);
                }
                if auth_methods.first_srp {
                    let verifier = compute_verifier(
                        self.username.as_str(),
                        self.password.as_str(),
                        random.as_slice(),
                    );
                    let empty_passwd = self.password.as_str().is_empty();
                    self.phase = Phase::Complete;
                    Ok(Some(ClientMessage::FirstSrp { salt: random, verifier, empty_passwd }))
                } else if auth_methods.srp {
                    let a = compute_public_ephemeral(random.as_slice());
                    self.phase = Phase::AwaitingServerProof { secret: random };
                    Ok(Some(ClientMessage::SrpBytesA { a, no_sha1: true }))
                } else {
                    Err(AuthError::UnsupportedAuthMethod)
                }
            },
            ServerMessage::SrpSaltAndPublic { salt, public } => {
                let derived = match &self.phase {
                    Phase::AwaitingServerProof { secret } => derive_proof(
                        secret.as_slice(),
                        self.username.as_str(),
                        self.password.as_str(),
                        salt.as_slice(),
                        public.as_slice(),
                    ),
                    _ => {
                        return Ok(None);
                    },
                };
                match derived {
                    Ok(m) => {
                        self.phase = Phase::Complete;
                        Ok(Some(ClientMessage::SrpBytesM { m }))
                    },
                    Err(e) => Err(e),
                }
            },
            ServerMessage::AcceptAuth => {
                if self.is_complete() {
                    Ok(Some(ClientMessage::Init2 { lang: self.lang.clone() }))
                } else {
                    Err(AuthError::UnexpectedAcceptance)
                }
            },
            _ => Ok(None),
        }
    }

    /// Handles one message from the server. Where the message calls for a
    /// salt or an ephemeral secret, it is drawn here, so that no caller can
    /// hand in bytes that were used before.
    pub fn handle_message(&mut self, msg: &ServerMessage) -> (res: Result<
        Option<ClientMessage>,
        AuthError,
    >)
        ensures
            exists|random: Seq<u8>|
                random.len() == SECRET_LEN && #[trigger] next_state(old(self)@, msg@, random)
                    == final(self)@ && reply_view(res) == reply(old(self)@, msg@, random),
    {
        let draw = match msg {
            ServerMessage::Hello { .. } => self.is_initial(),
            _ => false,
        };
        let ghost pre = self@;
        if draw {
            let random = fresh_secret();
            self.handle_message_with(msg, random)
        } else {
            let random: Vec<u8> = Vec::new();
            let ghost witness = Seq::new(SECRET_LEN as nat, |i: int| 0u8);
            proof {
                lemma_randomness_used_once(pre, msg@, witness, random@);
            }
            self.handle_message_with(msg, random)
        }
    }

    /// Handles one tick of the retry timer: asks for the first request to
    /// be sent again as long as no greeting has arrived.
    pub fn on_retry_tick(&self) -> (intent: Option<ClientMessage>)
        ensures
            intent_view(intent) == tick_reply(self@),
    {
        if self.is_initial() {
            Some(
                ClientMessage::Init {
                    serialize_version: SERIALIZE_VERSION,
                    min_proto_version: MIN_PROTO_VERSION,
                    max_proto_version: MAX_PROTO_VERSION,
                    player_name: self.username.clone(),
                    send_full_item_meta: false,
                },
            )
        } else {
            None
        }
    }
}

/// One message and the random bytes at hand when it is handled.
pub struct Input {
    pub msg: ServerMessageView,
    pub random: Seq<u8>,
}

/// The state reached from `start` after the inputs were handled in order.
pub open spec fn run(start: AuthView, inputs: Seq<Input>) -> AuthView
    decreases inputs.len(),
{
    if inputs.len() == 0 {
        start
    } else {
        next_state(run(start, inputs.drop_last()), inputs.last().msg, inputs.last().random)
    }
}

/// No message moves the phase backward or touches the identity, whatever
/// the random bytes. A secret, once stored, stays as it is until the login
/// completes. The login completes from `AwaitingServerProof` only by a
/// proof derived with the stored secret from a public value that is not
/// degenerate, and from `Initial` only by a registration under the
/// player's own name. The secret that is stored is the one whose public
/// value is announced in the same step.
pub proof fn lemma_step_moves_forward(pre: AuthView, msg: ServerMessageView, random: Seq<u8>)
    ensures
        rank(pre.phase) <= rank(next_state(pre, msg, random).phase),
        next_state(pre, msg, random).username == pre.username,
        next_state(pre, msg, random).password == pre.password,
        next_state(pre, msg, random).lang == pre.lang,
        reply(pre, msg, random) is Err ==> next_state(pre, msg, random) == pre,
        pre.phase is AwaitingServerProof && next_state(pre, msg, random).phase
            is AwaitingServerProof ==> next_state(pre, msg, random) == pre,
        pre.phase matches PhaseView::AwaitingServerProof { secret } ==> (next_state(
            pre,
            msg,
            random,
        ).phase is Complete ==> (msg matches ServerMessageView::SrpSaltAndPublic { salt, public }
            && proof_outcome(secret, pre.username, pre.password, salt, public) matches Ok(m)
            && reply(pre, msg, random) == Ok::<Option<ClientMessageView>, AuthError>(
            Some(ClientMessageView::SrpBytesM { m }),
        ))),
        pre.phase is Initial && next_state(pre, msg, random).phase is Complete ==> (
        msg matches ServerMessageView::Hello { auth_methods, username } && auth_methods.first_srp
            && username == pre.username),
        pre.phase is Initial && next_state(pre, msg, random).phase is AwaitingServerProof ==> (
        next_state(pre, msg, random).phase == (PhaseView::AwaitingServerProof { secret: random })
            && reply(pre, msg, random) == Ok::<Option<ClientMessageView>, AuthError>(
            Some(ClientMessageView::SrpBytesA { a: public_ephemeral_of(random), no_sha1: true }),
        )),
{
}

/// Over any sequence of messages the phase after the first `n` of them is
/// no later than the phase after all of them: the phase never moves back.
pub proof fn lemma_run_moves_forward(start: AuthView, inputs: Seq<Input>, n: int)
    requires
        0 <= n <= inputs.len(),
    ensures
        rank(run(start, inputs.take(n)).phase) <= rank(run(start, inputs).phase),
    decreases inputs.len(),
{
    if n == inputs.len() {
        assert(inputs.take(n) =~= inputs);
    } else {
        let shorter = inputs.drop_last();
        assert(shorter.take(n) =~= inputs.take(n));
        lemma_run_moves_forward(start, shorter, n);
        lemma_step_moves_forward(run(start, shorter), inputs.last().msg, inputs.last().random);
    }
}

/// A connection sees at most one proof exchange: whenever the phase is
/// `AwaitingServerProof` at two points of a run, it holds the same secret
/// at both, so a login that completes by proof has passed through that
/// phase once, with one secret.
pub proof fn lemma_run_keeps_one_secret(start: AuthView, inputs: Seq<Input>, n: int)
    requires
        0 <= n <= inputs.len(),
        run(start, inputs.take(n)).phase is AwaitingServerProof,
        run(start, inputs).phase is AwaitingServerProof,
    ensures
        run(start, inputs.take(n)).phase == run(start, inputs).phase,
    decreases inputs.len(),
{
    if n == inputs.len() {
        assert(inputs.take(n) =~= inputs);
    } else {
        let shorter = inputs.drop_last();
        assert(shorter.take(n) =~= inputs.take(n));
        lemma_run_moves_forward(start, shorter, n);
        lemma_step_moves_forward(run(start, shorter), inputs.last().msg, inputs.last().random);
        lemma_run_keeps_one_secret(start, shorter, n);
    }
}

/// Whether handling `input` in state `before` completes the login by a
/// proof derived with `secret`: the state holds that secret, and the
/// message brings a salt and a public value from which a proof can be
/// derived.
pub open spec fn completes_by_proof(before: AuthView, input: Input, secret: Seq<u8>) -> bool {
    &&& before.phase == (PhaseView::AwaitingServerProof { secret })
    &&& input.msg matches ServerMessageView::SrpSaltAndPublic { salt, public }
    &&& proof_outcome(secret, before.username, before.password, salt, public) is Ok
}

/// A login that waits for the server's values with some secret and is
/// found complete later has, in between, handled a salt and a public value
/// that is not degenerate, with that same secret: the validation cannot be
/// skipped.
pub proof fn lemma_completion_needs_a_proof(
    start: AuthView,
    inputs: Seq<Input>,
    n: int,
    secret: Seq<u8>,
)
    requires
        0 <= n <= inputs.len(),
        run(start, inputs.take(n)).phase == (PhaseView::AwaitingServerProof { secret }),
        run(start, inputs).phase is Complete,
    ensures
        exists|k: int|
            n <= k < inputs.len() && #[trigger] completes_by_proof(
                run(start, inputs.take(k)),
                inputs[k],
                secret,
            ),
    decreases inputs.len(),
{
    if n == inputs.len() {
        assert(inputs.take(n) =~= inputs);
    } else {
        let shorter = inputs.drop_last();
        let before = run(start, shorter);
        assert(shorter.take(n) =~= inputs.take(n));
        lemma_run_moves_forward(start, shorter, n);
        if before.phase is Complete {
            lemma_completion_needs_a_proof(start, shorter, n, secret);
            let k = choose|k: int|
                n <= k < shorter.len() && #[trigger] completes_by_proof(
                    run(start, shorter.take(k)),
                    shorter[k],
                    secret,
                );
            assert(shorter.take(k) =~= inputs.take(k));
            assert(completes_by_proof(run(start, inputs.take(k)), inputs[k], secret));
        } else {
            lemma_run_keeps_one_secret(start, shorter, n);
            lemma_step_moves_forward(before, inputs.last().msg, inputs.last().random);
            let k = inputs.len() - 1;
            assert(inputs.take(k) =~= shorter);
            assert(completes_by_proof(run(start, inputs.take(k)), inputs[k], secret));
        }
    }
}

/// A greeting that arrives after the first one was acted on changes
/// nothing and is answered with nothing.
pub proof fn lemma_duplicate_greeting_ignored(
    pre: AuthView,
    auth_methods: AuthMethods,
    username: Seq<char>,
    random: Seq<u8>,
)
    requires
        pre.phase is AwaitingServerProof || pre.phase is Complete,
    ensures
        next_state(pre, ServerMessageView::Hello { auth_methods, username }, random) == pre,
        reply(pre, ServerMessageView::Hello { auth_methods, username }, random) == Ok::<
            Option<ClientMessageView>,
            AuthError,
        >(None),
{
}

/// Once the phase has left `Initial`, a tick of the retry timer asks for
/// nothing to be sent.
pub proof fn lemma_tick_silent_after_initial(pre: AuthView)
    requires
        !(pre.phase is Initial),
    ensures
        tick_reply(pre) is None,
{
}

/// Only a greeting handled in phase `Initial` depends on the random bytes.
pub proof fn lemma_randomness_used_once(
    pre: AuthView,
    msg: ServerMessageView,
    random1: Seq<u8>,
    random2: Seq<u8>,
)
    requires
        !uses_randomness(pre, msg),
    ensures
        next_state(pre, msg, random1) == next_state(pre, msg, random2),
        reply(pre, msg, random1) == reply(pre, msg, random2),
{
}

} // verus!
