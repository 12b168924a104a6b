//! One connection from the inside: its ciphers, its player, and what it
//! does with each frame. Reading and writing the socket and asking the
//! player store are the caller's part; every decision is taken here.

use crate::database::{get_free_id, token_exists, PlayerInfo, PlayerInfoView};
use crate::device::{warmed_up, Device};
use crate::frame::frame_bytes;
use crate::packets::client::factory::{create_packet, ClientMessage, LOGIN_MESSAGE_ID};
use crate::packets::client::login_message::{login_layout, login_of, LoginMessage, LoginView};
use crate::packets::packet::{fields_bytes, read_fields, ClientPacket, ServerPacket};
use crate::packets::server::login_failed_message::{login_failed_fields, LoginFailedMessage};
use crate::packets::server::login_ok_message::{login_ok_fields, LoginOkMessage};
use crate::player::{Player, PlayerView};
use crate::rc4::xor_bytes;
use crate::reader::{bytes_from_vec, ByteReader, DecodeError};
use crate::settings::Settings;
use vstd::prelude::*;

verus! {

/// The protocol version that the server puts on its frames.
pub const SERVER_VERSION: u16 = 1;

/// How far a connection has come.
#[derive(Clone, Copy, Debug, PartialEq, Eq, Structural)]
pub enum ConnectionState {
    /// No login went through yet. Every connection starts here.
    Unauthenticated,
    /// A login went through.
    Authenticated,
    /// The transport failed or ended. Nothing follows.
    Closed,
}

impl ConnectionState {
    /// The state after a login went through.
    pub open spec fn logged_in(self) -> ConnectionState {
        match self {
            ConnectionState::Closed => ConnectionState::Closed,
            _ => ConnectionState::Authenticated,
        }
    }
}

/// What became of an inbound frame.
pub enum FrameOutcome {
    /// The server handles no message of this id. Nothing is answered.
    Ignored,
    /// The payload is not the message that its id announces. The frame is
    /// dropped and the connection goes on.
    Dropped(DecodeError),
    /// The message of the frame, to be processed.
    Message(ClientMessage),
}

/// What a login asks of the player store.
pub enum StoreRequest {
    /// Is there a record under this token?
    TokenExists(String),
    /// Which identifier is free for a new player?
    AllocateId,
    /// Store this record under this token, unless the token is taken.
    Create(String, PlayerInfo),
    /// Hand out the record under this token.
    Load(String),
}

/// What the player store answers.
pub enum StoreAnswer {
    /// Whether there is a record under the token.
    Exists(bool),
    /// An identifier that no player has.
    FreeId(u32),
    /// The record was stored.
    Created,
    /// The record was not stored, since the token is taken.
    AlreadyExists,
    /// The record under the token.
    Loaded(PlayerInfo),
    /// There is no record under the token.
    NotFound,
    /// The store could not do what was asked.
    Failed,
}

impl StoreAnswer {
    /// The answer to a lookup, from the number of records that the store
    /// counts under the token.
    pub fn of_lookup(stored: i64) -> (answer: StoreAnswer)
        ensures
            answer@ == AnswerView::Exists(stored > 0),
    {
        StoreAnswer::Exists(token_exists(stored))
    }

    /// The answer to a request for an identifier, from the number of
    /// players that the store counts: one more than there are, or a failure
    /// where no 32-bit identifier is left.
    pub fn of_allocation(stored: i64) -> (answer: StoreAnswer)
        ensures
            answer@ == if 0 <= stored < u32::MAX {
                AnswerView::FreeId((stored + 1) as u32)
            } else {
                AnswerView::Failed
            },
    {
        match get_free_id(stored) {
            Some(id) => StoreAnswer::FreeId(id),
            None => StoreAnswer::Failed,
        }
    }

    /// The answer to a request to keep a record, from the number of rows
    /// that went into the store. The store leaves a token that is taken
    /// alone, so no row means that the token is taken.
    pub fn of_insert(rows: u64) -> (answer: StoreAnswer)
        ensures
            answer@ == if rows > 0 {
                AnswerView::Created
            } else {
                AnswerView::AlreadyExists
            },
    {
        if rows > 0 {
            StoreAnswer::Created
        } else {
            StoreAnswer::AlreadyExists
        }
    }

    /// The answer to a request for a record, from what the store found.
    pub fn of_load(found: Option<PlayerInfo>) -> (answer: StoreAnswer)
        ensures
            answer@ == match found {
                Some(record) => AnswerView::Loaded(record@),
                None => AnswerView::NotFound,
            },
    {
        match found {
            Some(record) => StoreAnswer::Loaded(record),
            None => StoreAnswer::NotFound,
        }
    }
}

/// Where a login stands between two answers of the store.
#[derive(Clone, Copy, Debug, PartialEq, Eq, Structural)]
pub enum LoginState {
    /// The store was asked whether the token is known.
    AwaitingLookup,
    /// The store was asked for a free identifier.
    AwaitingId,
    /// The store was asked to keep the new record.
    AwaitingCreate,
    /// The store was asked for the record of the token.
    AwaitingLoad,
    /// The login was answered.
    Finished,
}

/// What the caller does next for a login.
pub enum LoginAction {
    /// Ask the store, and come back with its answer.
    Ask(StoreRequest),
    /// The login went through. Send this frame, which holds the answer.
    Accept(Vec<u8>),
    /// The login did not go through, since the store failed or answered
    /// what was not asked. The caller tells the client so.
    Refuse,
}

/// A [`StoreRequest`] as a mathematical value.
pub enum RequestView {
    TokenExists(Seq<char>),
    AllocateId,
    Create(Seq<char>, PlayerInfoView),
    Load(Seq<char>),
}

impl View for StoreRequest {
    type V = RequestView;

    open spec fn view(&self) -> RequestView {
        match self {
            StoreRequest::TokenExists(token) => RequestView::TokenExists(token@),
            StoreRequest::AllocateId => RequestView::AllocateId,
            StoreRequest::Create(token, record) => RequestView::Create(token@, record@),
            StoreRequest::Load(token) => RequestView::Load(token@),
        }
    }
}

/// A [`StoreAnswer`] as a mathematical value.
pub enum AnswerView {
    Exists(bool),
    FreeId(u32),
    Created,
    AlreadyExists,
    Loaded(PlayerInfoView),
    NotFound,
    Failed,
}

impl View for StoreAnswer {
    type V = AnswerView;

    open spec fn view(&self) -> AnswerView {
        match self {
            StoreAnswer::Exists(known) => AnswerView::Exists(*known),
            StoreAnswer::FreeId(id) => AnswerView::FreeId(*id),
            StoreAnswer::Created => AnswerView::Created,
            StoreAnswer::AlreadyExists => AnswerView::AlreadyExists,
            StoreAnswer::Loaded(record) => AnswerView::Loaded(record@),
            StoreAnswer::NotFound => AnswerView::NotFound,
            StoreAnswer::Failed => AnswerView::Failed,
        }
    }
}

/// Where a login stands after the store answered.
pub open spec fn next_login_state(state: LoginState, answer: AnswerView) -> LoginState {
    match (state, answer) {
        (LoginState::AwaitingLookup, AnswerView::Exists(false)) => LoginState::AwaitingId,
        (LoginState::AwaitingLookup, AnswerView::Exists(true)) => LoginState::AwaitingLoad,
        (LoginState::AwaitingId, AnswerView::FreeId(_)) => LoginState::AwaitingCreate,
        (LoginState::AwaitingCreate, AnswerView::AlreadyExists) => LoginState::AwaitingLoad,
        _ => LoginState::Finished,
    }
}

/// Whether this answer of the store lets the login through: the new record
/// was stored, or the record of a known token was handed out.
pub open spec fn login_goes_through(state: LoginState, answer: AnswerView) -> bool {
    match (state, answer) {
        (LoginState::AwaitingCreate, AnswerView::Created) => true,
        (LoginState::AwaitingLoad, AnswerView::Loaded(_)) => true,
        _ => false,
    }
}

/// The player after the store answered a login: a token that is new is
/// taken over, a free identifier becomes the player's, and a record that
/// was handed out is loaded under the token. An answer that lets the login
/// through also sets the region that the client named.
pub open spec fn player_after_answer(
    player: PlayerView,
    login: LoginView,
    state: LoginState,
    answer: AnswerView,
) -> PlayerView {
    match (state, answer) {
        (LoginState::AwaitingLookup, AnswerView::Exists(false)) => PlayerView {
            token: Some(login.token),
            ..player
        },
        (LoginState::AwaitingId, AnswerView::FreeId(id)) => PlayerView {
            token: Some(login.token),
            low_id: id,
            ..player
        },
        (LoginState::AwaitingCreate, AnswerView::Created) => PlayerView {
            region: login.region,
            ..player
        },
        (LoginState::AwaitingLoad, AnswerView::Loaded(record)) => PlayerView {
            token: Some(login.token),
            region: login.region,
            ..player.loaded(record)
        },
        _ => player,
    }
}

/// What a login that stands at `state` asks of the store: whether the token
/// is known; a free identifier; to keep the record of the new player under
/// the token; or the record of the token. A login that is finished asks
/// nothing.
pub open spec fn request_for(state: LoginState, login: LoginView, player: PlayerView) -> Option<
    RequestView,
> {
    match state {
        LoginState::AwaitingLookup => Some(RequestView::TokenExists(login.token)),
        LoginState::AwaitingId => Some(RequestView::AllocateId),
        LoginState::AwaitingCreate => Some(
            RequestView::Create(login.token, PlayerInfoView::of_new_player(player)),
        ),
        LoginState::AwaitingLoad => Some(RequestView::Load(login.token)),
        LoginState::Finished => None,
    }
}

/// A player store as a mathematical value.
pub struct StoreView {
    /// The records by their tokens.
    pub records: Map<Seq<char>, PlayerInfoView>,
    /// The identifier that the store hands out next.
    pub free_id: nat,
}

impl StoreView {
    /// What a store that works answers, and what it holds afterwards. Only
    /// a record that is kept changes the store: it stands under its token
    /// from then on, and the next identifier is free.
    pub open spec fn answer(self, request: RequestView) -> (StoreView, AnswerView) {
        match request {
            RequestView::TokenExists(token) => (
                self,
                AnswerView::Exists(self.records.contains_key(token)),
            ),
            RequestView::AllocateId => (
                self,
                if self.free_id <= u32::MAX {
                    AnswerView::FreeId(self.free_id as u32)
                } else {
                    AnswerView::Failed
                },
            ),
            RequestView::Create(token, record) => if self.records.contains_key(token) {
                (self, AnswerView::AlreadyExists)
            } else {
                (
                    StoreView {
                        records: self.records.insert(token, record),
                        free_id: self.free_id + 1,
                    },
                    AnswerView::Created,
                )
            },
            RequestView::Load(token) => (
                self,
                if self.records.contains_key(token) {
                    AnswerView::Loaded(self.records[token])
                } else {
                    AnswerView::NotFound
                },
            ),
        }
    }
}

/// A login in progress against a store.
pub struct LoginRun {
    pub store: StoreView,
    pub player: PlayerView,
    pub state: LoginState,
    /// What the store was asked so far, in order.
    pub asked: Seq<RequestView>,
    /// Whether the login went through.
    pub accepted: bool,
}

/// A login one step on: the store is asked what the login asks at its
/// state, and the answer is taken in. A login that is finished stays as it is.
pub open spec fn login_step(run: LoginRun, login: LoginView) -> LoginRun {
    match request_for(run.state, login, run.player) {
        Some(request) => {
            let (store, answer) = run.store.answer(request);
            LoginRun {
                store,
                player: player_after_answer(run.player, login, run.state, answer),
                state: next_login_state(run.state, answer),
                asked: run.asked.push(request),
                accepted: login_goes_through(run.state, answer),
            }
        },
        None => run,
    }
}

/// A whole login of `player` against `store`. No login asks the store more
/// than four times.
pub open spec fn login_run(store: StoreView, player: PlayerView, login: LoginView) -> LoginRun {
    let start = LoginRun {
        store,
        player,
        state: LoginState::AwaitingLookup,
        asked: Seq::empty(),
        accepted: false,
    };
    login_step(login_step(login_step(login_step(start, login), login), login), login)
}

/// A login with a token that the store does not know: one identifier is
/// asked for, one record is made, under the token and with that identifier,
/// and the login goes through with the player holding both. Afterwards the
/// store knows the token.
pub proof fn lemma_login_with_new_token(store: StoreView, player: PlayerView, login: LoginView)
    requires
        !store.records.contains_key(login.token),
        store.free_id <= u32::MAX,
    ensures
        ({
            let run = login_run(store, player, login);
            let id = store.free_id as u32;
            let record = PlayerInfoView::of_new_player(
                PlayerView { token: Some(login.token), low_id: id, ..player },
            );
            &&& run.state == LoginState::Finished
            &&& run.accepted
            &&& run.asked == seq![
                RequestView::TokenExists(login.token),
                RequestView::AllocateId,
                RequestView::Create(login.token, record),
            ]
            &&& record.low_id == id
            &&& run.store.records == store.records.insert(login.token, record)
            &&& run.store.records.contains_key(login.token)
            &&& run.player.token == Some(login.token)
            &&& run.player.low_id == id
            &&& run.player.region == login.region
        }),
{
    let start = LoginRun {
        store,
        player,
        state: LoginState::AwaitingLookup,
        asked: Seq::empty(),
        accepted: false,
    };
    let one = login_step(start, login);
    let two = login_step(one, login);
    let three = login_step(two, login);
    assert(one.state == LoginState::AwaitingId);
    assert(two.state == LoginState::AwaitingCreate);
    assert(three.state == LoginState::Finished);
    assert(login_step(three, login) == three);
    let id = store.free_id as u32;
    let record = PlayerInfoView::of_new_player(
        PlayerView { token: Some(login.token), low_id: id, ..player },
    );
    assert(three.asked =~= seq![
        RequestView::TokenExists(login.token),
        RequestView::AllocateId,
        RequestView::Create(login.token, record),
    ]);
}

/// A login with a token that the store knows: no identifier is asked for
/// and no record is made; the store stays as it is, and the login goes
/// through with the player of the stored record.
pub proof fn lemma_login_with_known_token(store: StoreView, player: PlayerView, login: LoginView)
    requires
        store.records.contains_key(login.token),
    ensures
        ({
            let run = login_run(store, player, login);
            let record = store.records[login.token];
            &&& run.state == LoginState::Finished
            &&& run.accepted
            &&& run.asked == seq![
                RequestView::TokenExists(login.token),
                RequestView::Load(login.token),
            ]
            &&& run.store == store
            &&& run.player == (PlayerView {
                token: Some(login.token),
                region: login.region,
                ..player.loaded(record)
            })
            &&& run.player.low_id == record.low_id
        }),
{
    let start = LoginRun {
        store,
        player,
        state: LoginState::AwaitingLookup,
        asked: Seq::empty(),
        accepted: false,
    };
    let one = login_step(start, login);
    let two = login_step(one, login);
    assert(one.state == LoginState::AwaitingLoad);
    assert(two.state == LoginState::Finished);
    assert(login_step(two, login) == two);
    assert(login_step(login_step(two, login), login) == two);
    assert(two.asked =~= seq![
        RequestView::TokenExists(login.token),
        RequestView::Load(login.token),
    ]);
}

/// Two logins with the same token, one after the other, each with a player
/// of its own: the first makes the record, the second finds it. The second
/// asks for no identifier and makes no record, leaves the store as the
/// first left it, and ends with the identifier that the first was given.
pub proof fn lemma_second_login_reuses_record(
    store: StoreView,
    first_player: PlayerView,
    second_player: PlayerView,
    first_login: LoginView,
    second_login: LoginView,
)
    requires
        !store.records.contains_key(first_login.token),
        store.free_id <= u32::MAX,
        second_login.token == first_login.token,
    ensures
        ({
            let first = login_run(store, first_player, first_login);
            let second = login_run(first.store, second_player, second_login);
            &&& first.accepted && second.accepted
            &&& second.asked == seq![
                RequestView::TokenExists(first_login.token),
                RequestView::Load(first_login.token),
            ]
            &&& second.store == first.store
            &&& second.player.token == Some(first_login.token)
            &&& second.player.low_id == first.player.low_id
            &&& first.player.low_id == store.free_id
        }),
{
    lemma_login_with_new_token(store, first_player, first_login);
    let first = login_run(store, first_player, first_login);
    lemma_login_with_known_token(first.store, second_player, second_login);
}

/// One connection.
pub struct Session {
    /// The identifier of the connection.
    pub id: u64,
    pub device: Device,
    pub player: Player,
    pub state: ConnectionState,
}

impl Session {
    /// The ciphers of the connection are in order.
    pub open spec fn wf(&self) -> bool {
        self.device@.wf()
    }

    /// The session of a connection that was just accepted: unauthenticated,
    /// with fresh ciphers and a fresh player.
    pub fn new(id: u64, settings: &Settings) -> (session: Self)
        ensures
            session.wf(),
            session.id == id,
            session.state == ConnectionState::Unauthenticated,
            session.player@ == PlayerView::fresh(),
            session.device@.decryptor == warmed_up(settings.key@),
            session.device@.encryptor == warmed_up(settings.key@),
    {
        Session {
            id,
            device: Device::new(settings),
            player: Player::new(),
            state: ConnectionState::Unauthenticated,
        }
    }

    /// Takes in the payload of a frame: decrypts it, finds out which message
    /// the packet id announces, and decodes it. The inbound cipher moves on
    /// by the length of the payload whatever the payload holds, so that a
    /// frame that is ignored or dropped does not disturb the frames behind it.
    pub fn receive(&mut self, packet_id: u16, payload: Vec<u8>) -> (outcome: FrameOutcome)
        requires
            old(self).wf(),
        ensures
            final(self).wf(),
            final(self).id == old(self).id,
            final(self).state == old(self).state,
            final(self).player == old(self).player,
            final(self).device@.encryptor == old(self).device@.encryptor,
            final(self).device@.decryptor == old(self).device@.decryptor.advance(payload@.len()),
            ({
                let plain = xor_bytes(
                    payload@,
                    old(self).device@.decryptor.keystream(payload@.len()),
                );
                match outcome {
                    FrameOutcome::Ignored => packet_id != LOGIN_MESSAGE_ID,
                    FrameOutcome::Dropped(error) => {
                        &&& packet_id == LOGIN_MESSAGE_ID
                        &&& read_fields(plain, login_layout()) matches Err(failure)
                        &&& (failure is Truncated <==> error is UnexpectedEof)
                        &&& (failure is NotUtf8 <==> error is Utf8Error)
                    },
                    FrameOutcome::Message(ClientMessage::Login(login)) => {
                        &&& packet_id == LOGIN_MESSAGE_ID
                        &&& read_fields(plain, login_layout()) matches Ok((values, _))
                        &&& login@ == login_of(values)
                    },
                }
            }),
    {
        let mut payload = payload;
        self.device.decrypt(payload.as_mut_slice());

        let mut reader = ByteReader::from(bytes_from_vec(payload));

        match create_packet(packet_id) {
            Some(mut packet) => match packet.decode(&mut reader) {
                Ok(()) => FrameOutcome::Message(packet),
                Err(error) => FrameOutcome::Dropped(error),
            },
            None => FrameOutcome::Ignored,
        }
    }

    /// Starts a login: the store is asked whether the token is known.
    pub fn begin_login(&self, message: &LoginMessage) -> (started: (LoginState, StoreRequest))
        ensures
            started.0 == LoginState::AwaitingLookup,
            Some(started.1@) == request_for(started.0, message@, self.player@),
    {
        (LoginState::AwaitingLookup, StoreRequest::TokenExists(message.token.clone()))
    }

    /// Answers a login that went through.
    fn accept_login(&mut self, message: &mut LoginMessage) -> (packet: Vec<u8>)
        requires
            old(self).wf(),
        ensures
            final(self).wf(),
            final(self).id == old(self).id,
            final(self).device@.decryptor == old(self).device@.decryptor,
            final(self).player@ == (PlayerView {
                region: old(message)@.region,
                ..old(self).player@
            }),
            final(message)@ == (LoginView {
                high_id: old(self).player.high_id,
                low_id: old(self).player.low_id,
                ..old(message)@
            }),
            final(self).state == old(self).state.logged_in(),
            ({
                let payload = fields_bytes(login_ok_fields(final(message)@));
                &&& packet@ == frame_bytes(
                    20104,
                    SERVER_VERSION,
                    xor_bytes(payload, old(self).device@.encryptor.keystream(payload.len())),
                )
                &&& final(self).device@.encryptor == old(self).device@.encryptor.advance(
                    payload.len(),
                )
            }),
    {
        self.player.region = message.region.clone();
        message.high_id = self.player.high_id;
        message.low_id = self.player.low_id;
        match self.state {
            ConnectionState::Closed => {},
            _ => {
                self.state = ConnectionState::Authenticated;
            },
        }

        let mut msg = LoginOkMessage::new(message);
        let encoded = msg.encode();
        self.device.send(msg.id, encoded, SERVER_VERSION)
    }

    /// Makes the frame that tells the client that its login was refused.
    /// The code says why, in the client's terms; the text is kept out of the
    /// frame.
    pub fn refuse_login(&mut self, message: &LoginMessage, text: String, error_code: i32) -> (packet:
        Vec<u8>)
        requires
            old(self).wf(),
        ensures
            final(self).wf(),
            final(self).id == old(self).id,
            final(self).state == old(self).state,
            final(self).player == old(self).player,
            final(self).device@.decryptor == old(self).device@.decryptor,
            ({
                let payload = fields_bytes(login_failed_fields(error_code, message.fingerprint_sha@));
                &&& packet@ == frame_bytes(
                    20103,
                    SERVER_VERSION,
                    xor_bytes(payload, old(self).device@.encryptor.keystream(payload.len())),
                )
                &&& final(self).device@.encryptor == old(self).device@.encryptor.advance(
                    payload.len(),
                )
            }),
    {
        let mut msg = LoginFailedMessage::new(message, text, error_code);
        let encoded = msg.encode();
        self.device.send(msg.id, encoded, SERVER_VERSION)
    }

    /// Ends the connection after the transport failed or ended.
    pub fn close(&mut self)
        ensures
            final(self).state == ConnectionState::Closed,
            final(self).id == old(self).id,
            final(self).device == old(self).device,
            final(self).player == old(self).player,
    {
        self.state = ConnectionState::Closed;
    }
}

impl LoginMessage {
    /// Takes this login one step on, with the answer of the store to the
    /// last request.
    ///
    /// A token that the store does not know gets a new player: a free
    /// identifier, and a record under the token. A token that the store
    /// knows gets the player of its record; no record is made for it. Once
    /// the player stands, the login is answered with the player's identifier
    /// and the token, and the connection counts as authenticated. Whatever
    /// else the store answers ends the login without it.
    pub fn process(&mut self, session: &mut Session, state: LoginState, answer: StoreAnswer) -> (next:
        (LoginState, LoginAction))
        requires
            old(session).wf(),
        ensures
            final(session).wf(),
            final(session).id == old(session).id,
            final(session).device@.decryptor == old(session).device@.decryptor,
            next.0 == next_login_state(state, answer@),
            final(session).player@ == player_after_answer(
                old(session).player@,
                old(self)@,
                state,
                answer@,
            ),
            match next.1 {
                LoginAction::Ask(request) => {
                    &&& Some(request@) == request_for(next.0, old(self)@, final(session).player@)
                    &&& *final(self) == *old(self)
                    &&& final(session).state == old(session).state
                    &&& final(session).device@.encryptor == old(session).device@.encryptor
                },
                LoginAction::Accept(packet) => {
                    &&& login_goes_through(state, answer@)
                    &&& final(self)@ == (LoginView {
                        high_id: final(session).player.high_id,
                        low_id: final(session).player.low_id,
                        ..old(self)@
                    })
                    &&& final(session).state == old(session).state.logged_in()
                    &&& ({
                        let payload = fields_bytes(login_ok_fields(final(self)@));
                        &&& packet@ == frame_bytes(
                            20104,
                            SERVER_VERSION,
                            xor_bytes(
                                payload,
                                old(session).device@.encryptor.keystream(payload.len()),
                            ),
                        )
                        &&& final(session).device@.encryptor
                            == old(session).device@.encryptor.advance(payload.len())
                    })
                },
                LoginAction::Refuse => {
                    &&& next.0 == LoginState::Finished
                    &&& !login_goes_through(state, answer@)
                    &&& *final(self) == *old(self)
                    &&& final(session).state == old(session).state
                    &&& final(session).device@.encryptor == old(session).device@.encryptor
                },
            },
    {
        match (state, answer) {
            (LoginState::AwaitingLookup, StoreAnswer::Exists(false)) => {
                session.player.token = Some(self.token.clone());
                (LoginState::AwaitingId, LoginAction::Ask(StoreRequest::AllocateId))
            },
            (LoginState::AwaitingLookup, StoreAnswer::Exists(true)) => (
                LoginState::AwaitingLoad,
                LoginAction::Ask(StoreRequest::Load(self.token.clone())),
            ),
            (LoginState::AwaitingId, StoreAnswer::FreeId(id)) => {
                session.player.token = Some(self.token.clone());
                session.player.low_id = id;
                match PlayerInfo::create_player(&session.player, 0) {
                    Ok(record) => (
                        LoginState::AwaitingCreate,
                        LoginAction::Ask(StoreRequest::Create(self.token.clone(), record)),
                    ),
                    Err(_) => (LoginState::Finished, LoginAction::Refuse),
                }
            },
            (LoginState::AwaitingCreate, StoreAnswer::AlreadyExists) => (
                LoginState::AwaitingLoad,
                LoginAction::Ask(StoreRequest::Load(self.token.clone())),
            ),
            (LoginState::AwaitingCreate, StoreAnswer::Created) => {
                let packet = session.accept_login(self);
                (LoginState::Finished, LoginAction::Accept(packet))
            },
            (LoginState::AwaitingLoad, StoreAnswer::Loaded(info)) => {
                session.player.token = Some(self.token.clone());
                session.player.load(&info);
                let packet = session.accept_login(self);
                (LoginState::Finished, LoginAction::Accept(packet))
            },
            _ => (LoginState::Finished, LoginAction::Refuse),
        }
    }
}

} // verus!
