use deuce::database::PlayerInfo;
use deuce::device::Device;
use deuce::frame::FrameHeader;
use deuce::network::Network;
use deuce::packets::client::factory::ClientMessage;
use deuce::packets::client::LoginMessage;
use deuce::packets::packet::ServerPacket;
use deuce::packets::server::{LoginFailedMessage, LoginOkMessage};
use deuce::reader::DecodeError;
use deuce::session::{
    ConnectionState, FrameOutcome, LoginAction, LoginState, Session, StoreAnswer, StoreRequest,
    SERVER_VERSION,
};
use deuce::settings::Settings;
use std::collections::HashMap;

fn settings() -> Settings {
    Settings { key: "secret".to_string(), port: 9339, database: String::new(), max_rank: 35 }
}

fn copy(record: &PlayerInfo) -> PlayerInfo {
    PlayerInfo {
        name: record.name.clone(),
        low_id: record.low_id,
        club_id: record.club_id,
        club_role: record.club_role,
        player_experience: record.player_experience,
        solo_wins: record.solo_wins,
        duo_wins: record.duo_wins,
        three_x_three_wins: record.three_x_three_wins,
        gems: record.gems,
        gold: record.gold,
        elixir: record.elixir,
        chips: record.chips,
        coins_doubler: record.coins_doubler,
        coins_booster: record.coins_booster,
        trophies: record.trophies,
        highest_trophies: record.highest_trophies,
        profile_icon: record.profile_icon,
        room_id: record.room_id,
        last_connection_time: record.last_connection_time,
        player_status: record.player_status,
        region: record.region.clone(),
        control_mode: record.control_mode,
        has_battle_hints: record.has_battle_hints,
        unlocked_brawlers: record.unlocked_brawlers.clone(),
        coins_reward: record.coins_reward,
        event_count: record.event_count,
    }
}

struct Store {
    records: HashMap<String, PlayerInfo>,
    creations: usize,
    allocations: usize,
    loads: usize,
    down: bool,
}

impl Store {
    fn new() -> Store {
        Store { records: HashMap::new(), creations: 0, allocations: 0, loads: 0, down: false }
    }

    fn answer(&mut self, request: StoreRequest) -> StoreAnswer {
        if self.down {
            return StoreAnswer::Failed;
        }
        match request {
            StoreRequest::TokenExists(token) => {
                let stored = if self.records.contains_key(&token) { 1 } else { 0 };
                StoreAnswer::of_lookup(stored)
            }
            StoreRequest::AllocateId => {
                self.allocations += 1;
                StoreAnswer::of_allocation(self.records.len() as i64)
            }
            StoreRequest::Create(token, record) => {
                let rows = if self.records.contains_key(&token) {
                    0
                } else {
                    self.creations += 1;
                    self.records.insert(token, record);
                    1
                };
                StoreAnswer::of_insert(rows)
            }
            StoreRequest::Load(token) => {
                self.loads += 1;
                StoreAnswer::of_load(self.records.get(&token).map(copy))
            }
        }
    }
}

fn int32(out: &mut Vec<u8>, v: i32) {
    out.extend_from_slice(&v.to_be_bytes());
}

fn string(out: &mut Vec<u8>, s: &str) {
    int32(out, s.len() as i32);
    out.extend_from_slice(s.as_bytes());
}

fn login_payload(token: &str) -> Vec<u8> {
    let mut out = Vec::new();
    int32(&mut out, 0);
    int32(&mut out, 999);
    string(&mut out, token);
    int32(&mut out, 11);
    int32(&mut out, 2);
    int32(&mut out, 3);
    string(&mut out, "f00d");
    string(&mut out, "");
    string(&mut out, "dev");
    string(&mut out, "");
    string(&mut out, "phone");
    out.push(1);
    string(&mut out, "en-US");
    out
}

struct Client {
    device: Device,
}

impl Client {
    fn new() -> Client {
        Client { device: Device::new(&settings()) }
    }

    fn encrypt(&mut self, payload: Vec<u8>) -> Vec<u8> {
        let mut payload = payload;
        self.device.encrypt(&mut payload);
        payload
    }

    fn open(&mut self, packet: &[u8]) -> (FrameHeader, Vec<u8>) {
        let mut head = [0u8; 7];
        head.copy_from_slice(&packet[..7]);
        let header = FrameHeader::parse(&head);
        let mut payload = packet[7..].to_vec();
        assert_eq!(header.length as usize, payload.len());
        self.device.decrypt(&mut payload);
        (header, payload)
    }
}

fn receive_login(session: &mut Session, client: &mut Client, token: &str) -> LoginMessage {
    let payload = client.encrypt(login_payload(token));
    match session.receive(10101, payload) {
        FrameOutcome::Message(ClientMessage::Login(message)) => message,
        _ => panic!("the login was not taken in"),
    }
}

fn log_in(session: &mut Session, store: &mut Store, message: &mut LoginMessage) -> LoginAction {
    let (mut state, request) = session.begin_login(message);
    assert_eq!(state, LoginState::AwaitingLookup);
    let mut action = LoginAction::Ask(request);
    loop {
        match action {
            LoginAction::Ask(request) => {
                assert_ne!(state, LoginState::Finished);
                let answer = store.answer(request);
                let next = message.process(session, state, answer);
                state = next.0;
                action = next.1;
            }
            other => {
                assert_eq!(state, LoginState::Finished);
                return other;
            }
        }
    }
}

fn expected_ok(token: &str, low_id: u32) -> Vec<u8> {
    let login = LoginMessage {
        high_id: 0,
        low_id,
        token: token.to_string(),
        major_version: 11,
        minor_version: 2,
        build: 3,
        fingerprint_sha: "f00d".to_string(),
        unknown_string1: String::new(),
        device_id: "dev".to_string(),
        unknown_string2: String::new(),
        device: "phone".to_string(),
        system_language: 1,
        region: "US".to_string(),
    };
    LoginOkMessage::new(&login).encode()
}

#[test]
fn a_new_session() {
    let session = Session::new(5, &settings());
    assert_eq!(session.id, 5);
    assert_eq!(session.state, ConnectionState::Unauthenticated);
    assert_eq!(session.player.name, "Brawler");
    assert_eq!(session.player.token, None);
    assert_eq!(SERVER_VERSION, 1);
}

#[test]
fn a_frame_of_an_unknown_id_is_ignored() {
    let mut session = Session::new(1, &settings());
    let mut client = Client::new();
    let payload = client.encrypt(vec![1, 2, 3]);
    assert!(matches!(session.receive(14102, payload), FrameOutcome::Ignored));
    assert_eq!(session.state, ConnectionState::Unauthenticated);
    let message = receive_login(&mut session, &mut client, "abc");
    assert_eq!(message.token, "abc");
}

#[test]
fn a_frame_that_does_not_decode_is_dropped() {
    let mut session = Session::new(1, &settings());
    let mut client = Client::new();
    let payload = client.encrypt(vec![0, 0, 0]);
    assert!(matches!(
        session.receive(10101, payload),
        FrameOutcome::Dropped(DecodeError::UnexpectedEof)
    ));
    let mut broken = login_payload("abc");
    broken[12] = 0xFF;
    let payload = client.encrypt(broken);
    assert!(matches!(
        session.receive(10101, payload),
        FrameOutcome::Dropped(DecodeError::Utf8Error(_))
    ));
    assert_eq!(session.state, ConnectionState::Unauthenticated);
    let message = receive_login(&mut session, &mut client, "abc");
    assert_eq!(message.token, "abc");
    assert_eq!(message.low_id, 999);
    assert_eq!(message.region, "US");
}

#[test]
fn a_payload_that_was_not_encrypted_does_not_decode() {
    let mut session = Session::new(1, &settings());
    assert!(matches!(
        session.receive(10101, login_payload("abc")),
        FrameOutcome::Dropped(_)
    ));
}

#[test]
fn first_login_creates_the_player() {
    let mut store = Store::new();
    let mut session = Session::new(1, &settings());
    let mut client = Client::new();
    let mut message = receive_login(&mut session, &mut client, "abc");

    let action = log_in(&mut session, &mut store, &mut message);
    let LoginAction::Accept(packet) = action else {
        panic!("the login was not accepted");
    };

    assert_eq!(store.allocations, 1);
    assert_eq!(store.creations, 1);
    assert_eq!(store.loads, 0);
    assert_eq!(store.records.len(), 1);
    assert_eq!(store.records["abc"].low_id, 1);
    assert_eq!(store.records["abc"].name, "Brawler");

    assert_eq!(session.state, ConnectionState::Authenticated);
    assert_eq!(session.player.token, Some("abc".to_string()));
    assert_eq!(session.player.low_id, 1);
    assert_eq!(session.player.high_id, 0);
    assert_eq!(session.player.region, "US");
    assert_eq!(message.low_id, 1);
    assert_eq!(message.high_id, 0);

    let (header, payload) = client.open(&packet);
    assert_eq!(header.packet_id, 20104);
    assert_eq!(header.version, 1);
    assert_eq!(payload, expected_ok("abc", 1));
}

#[test]
fn second_login_reuses_the_record() {
    let mut store = Store::new();
    let mut first = Session::new(1, &settings());
    let mut first_client = Client::new();
    let mut message = receive_login(&mut first, &mut first_client, "abc");
    assert!(matches!(log_in(&mut first, &mut store, &mut message), LoginAction::Accept(_)));
    assert_eq!(store.creations, 1);

    let mut second = Session::new(2, &settings());
    let mut second_client = Client::new();
    let mut message = receive_login(&mut second, &mut second_client, "abc");
    let action = log_in(&mut second, &mut store, &mut message);
    let LoginAction::Accept(packet) = action else {
        panic!("the login was not accepted");
    };

    assert_eq!(store.creations, 1);
    assert_eq!(store.allocations, 1);
    assert_eq!(store.loads, 1);
    assert_eq!(store.records.len(), 1);
    assert_eq!(second.state, ConnectionState::Authenticated);
    assert_eq!(second.player.low_id, 1);
    assert_eq!(second.player.token, Some("abc".to_string()));

    let (header, payload) = second_client.open(&packet);
    assert_eq!(header.packet_id, 20104);
    assert_eq!(payload, expected_ok("abc", 1));
}

#[test]
fn another_token_gets_another_identifier() {
    let mut store = Store::new();
    let mut first = Session::new(1, &settings());
    let mut client = Client::new();
    let mut message = receive_login(&mut first, &mut client, "abc");
    assert!(matches!(log_in(&mut first, &mut store, &mut message), LoginAction::Accept(_)));

    let mut second = Session::new(2, &settings());
    let mut client = Client::new();
    let mut message = receive_login(&mut second, &mut client, "xyz");
    let LoginAction::Accept(packet) = log_in(&mut second, &mut store, &mut message) else {
        panic!("the login was not accepted");
    };
    assert_eq!(store.creations, 2);
    assert_eq!(store.records["xyz"].low_id, 2);
    let (_, payload) = client.open(&packet);
    assert_eq!(payload, expected_ok("xyz", 2));
}

#[test]
fn the_steps_of_a_first_login() {
    let mut session = Session::new(1, &settings());
    let mut client = Client::new();
    let mut message = receive_login(&mut session, &mut client, "abc");

    let (state, request) = session.begin_login(&message);
    assert_eq!(state, LoginState::AwaitingLookup);
    assert!(matches!(request, StoreRequest::TokenExists(ref t) if t == "abc"));

    let (state, action) = message.process(&mut session, state, StoreAnswer::Exists(false));
    assert_eq!(state, LoginState::AwaitingId);
    assert!(matches!(action, LoginAction::Ask(StoreRequest::AllocateId)));
    assert_eq!(session.player.token, Some("abc".to_string()));

    let (state, action) = message.process(&mut session, state, StoreAnswer::FreeId(77));
    assert_eq!(state, LoginState::AwaitingCreate);
    let LoginAction::Ask(StoreRequest::Create(token, record)) = action else {
        panic!("no record to store");
    };
    assert_eq!(token, "abc");
    assert_eq!(record.low_id, 77);
    assert_eq!(record.name, "Brawler");
    assert_eq!(session.player.low_id, 77);
    assert_eq!(session.state, ConnectionState::Unauthenticated);

    let (state, action) = message.process(&mut session, state, StoreAnswer::Created);
    assert_eq!(state, LoginState::Finished);
    assert!(matches!(action, LoginAction::Accept(_)));
    assert_eq!(session.state, ConnectionState::Authenticated);
    assert_eq!(message.low_id, 77);
}

#[test]
fn a_token_taken_in_between_is_loaded() {
    let mut session = Session::new(1, &settings());
    let mut client = Client::new();
    let mut message = receive_login(&mut session, &mut client, "abc");
    let (state, action) =
        message.process(&mut session, LoginState::AwaitingCreate, StoreAnswer::AlreadyExists);
    assert_eq!(state, LoginState::AwaitingLoad);
    assert!(matches!(action, LoginAction::Ask(StoreRequest::Load(ref t)) if t == "abc"));
    assert_eq!(session.state, ConnectionState::Unauthenticated);
}

#[test]
fn a_store_that_fails_ends_the_login() {
    for state in [
        LoginState::AwaitingLookup,
        LoginState::AwaitingId,
        LoginState::AwaitingCreate,
        LoginState::AwaitingLoad,
        LoginState::Finished,
    ] {
        let mut session = Session::new(1, &settings());
        let mut client = Client::new();
        let mut message = receive_login(&mut session, &mut client, "abc");
        let (next, action) = message.process(&mut session, state, StoreAnswer::Failed);
        assert_eq!(next, LoginState::Finished);
        assert!(matches!(action, LoginAction::Refuse));
        assert_eq!(session.state, ConnectionState::Unauthenticated);
        assert_eq!(message.low_id, 999);
    }
}

#[test]
fn a_record_that_is_gone_ends_the_login() {
    let mut session = Session::new(1, &settings());
    let mut client = Client::new();
    let mut message = receive_login(&mut session, &mut client, "abc");
    let (next, action) =
        message.process(&mut session, LoginState::AwaitingLoad, StoreAnswer::NotFound);
    assert_eq!(next, LoginState::Finished);
    assert!(matches!(action, LoginAction::Refuse));
    assert_eq!(session.state, ConnectionState::Unauthenticated);
}

#[test]
fn an_answer_that_was_not_asked_for_ends_the_login() {
    let mut session = Session::new(1, &settings());
    let mut client = Client::new();
    let mut message = receive_login(&mut session, &mut client, "abc");
    let (next, action) =
        message.process(&mut session, LoginState::AwaitingLookup, StoreAnswer::Created);
    assert_eq!(next, LoginState::Finished);
    assert!(matches!(action, LoginAction::Refuse));
    let (next, action) =
        message.process(&mut session, LoginState::AwaitingId, StoreAnswer::Exists(true));
    assert_eq!(next, LoginState::Finished);
    assert!(matches!(action, LoginAction::Refuse));
    let (next, action) =
        message.process(&mut session, LoginState::Finished, StoreAnswer::Created);
    assert_eq!(next, LoginState::Finished);
    assert!(matches!(action, LoginAction::Refuse));
}

#[test]
fn a_login_against_a_store_that_is_down_is_refused() {
    let mut store = Store::new();
    store.down = true;
    let mut session = Session::new(1, &settings());
    let mut client = Client::new();
    let mut message = receive_login(&mut session, &mut client, "abc");
    assert!(matches!(log_in(&mut session, &mut store, &mut message), LoginAction::Refuse));
    assert_eq!(store.creations, 0);
    assert_eq!(session.state, ConnectionState::Unauthenticated);

    let packet = session.refuse_login(&message, "the store is down".to_string(), 8);
    let (header, payload) = client.open(&packet);
    assert_eq!(header.packet_id, 20103);
    assert_eq!(header.version, 1);
    let expected = LoginFailedMessage::new(&message, String::new(), 8).encode();
    assert_eq!(payload, expected);
    assert_eq!(&payload[..4], &[0, 0, 0, 8]);
}

#[test]
fn a_second_login_on_the_same_connection() {
    let mut store = Store::new();
    let mut session = Session::new(1, &settings());
    let mut client = Client::new();
    let mut message = receive_login(&mut session, &mut client, "abc");
    let LoginAction::Accept(packet) = log_in(&mut session, &mut store, &mut message) else {
        panic!("the login was not accepted");
    };
    client.open(&packet);
    let mut message = receive_login(&mut session, &mut client, "abc");
    let LoginAction::Accept(packet) = log_in(&mut session, &mut store, &mut message) else {
        panic!("the login was not accepted");
    };
    let (_, payload) = client.open(&packet);
    assert_eq!(payload, expected_ok("abc", 1));
    assert_eq!(store.creations, 1);
    assert_eq!(session.state, ConnectionState::Authenticated);
}

#[test]
fn a_closed_connection_stays_closed() {
    let mut store = Store::new();
    let mut session = Session::new(1, &settings());
    let mut client = Client::new();
    let mut message = receive_login(&mut session, &mut client, "abc");
    session.close();
    assert_eq!(session.state, ConnectionState::Closed);
    log_in(&mut session, &mut store, &mut message);
    assert_eq!(session.state, ConnectionState::Closed);
    session.close();
    assert_eq!(session.state, ConnectionState::Closed);
}

#[test]
fn connections_come_and_go() {
    let mut network: Network<Session> = Network::new(settings());
    let mut ids = Vec::new();
    for _ in 0..4 {
        let id = network.settings().port as u64;
        assert_eq!(id, 9339);
        let session = Session::new(0, network.settings());
        ids.push(network.accept(session).ok().unwrap());
    }
    assert_eq!(ids, vec![1, 2, 3, 4]);
    let mut left = network.disconnect(2).unwrap();
    left.close();
    assert_eq!(left.state, ConnectionState::Closed);
    assert_eq!(network.clients_count(), 3);
    let session = Session::new(0, network.settings());
    assert_eq!(network.accept(session).ok(), Some(5));
    assert_eq!(network.clients_count(), 4);
}

#[test]
fn answers_from_what_the_store_counts() {
    assert!(matches!(StoreAnswer::of_lookup(0), StoreAnswer::Exists(false)));
    assert!(matches!(StoreAnswer::of_lookup(-1), StoreAnswer::Exists(false)));
    assert!(matches!(StoreAnswer::of_lookup(1), StoreAnswer::Exists(true)));
    assert!(matches!(StoreAnswer::of_lookup(9), StoreAnswer::Exists(true)));
    assert!(matches!(StoreAnswer::of_allocation(0), StoreAnswer::FreeId(1)));
    assert!(matches!(StoreAnswer::of_allocation(41), StoreAnswer::FreeId(42)));
    assert!(matches!(StoreAnswer::of_allocation(-1), StoreAnswer::Failed));
    assert!(matches!(StoreAnswer::of_allocation(0xFFFF_FFFF), StoreAnswer::Failed));
    assert!(matches!(StoreAnswer::of_insert(1), StoreAnswer::Created));
    assert!(matches!(StoreAnswer::of_insert(0), StoreAnswer::AlreadyExists));
    assert!(matches!(StoreAnswer::of_load(None), StoreAnswer::NotFound));
    let mut store = Store::new();
    let mut session = Session::new(1, &settings());
    let mut client = Client::new();
    let mut message = receive_login(&mut session, &mut client, "abc");
    log_in(&mut session, &mut store, &mut message);
    match StoreAnswer::of_load(Some(copy(&store.records["abc"]))) {
        StoreAnswer::Loaded(record) => assert_eq!(record.low_id, 1),
        _ => panic!("the record was not handed out"),
    }
}

#[test]
fn a_store_that_loses_the_race_for_a_token_loads_the_record() {
    let mut store = Store::new();
    let mut first = Session::new(1, &settings());
    let mut first_client = Client::new();
    let mut first_message = receive_login(&mut first, &mut first_client, "abc");
    let mut second = Session::new(2, &settings());
    let mut second_client = Client::new();
    let mut second_message = receive_login(&mut second, &mut second_client, "abc");

    let (state, request) = second.begin_login(&second_message);
    let answer = store.answer(request);
    let (state, action) = second_message.process(&mut second, state, answer);
    assert_eq!(state, LoginState::AwaitingId);
    let LoginAction::Ask(request) = action else {
        panic!("no request");
    };
    let answer = store.answer(request);
    let (state, action) = second_message.process(&mut second, state, answer);
    let LoginAction::Ask(create) = action else {
        panic!("no request");
    };

    assert!(matches!(
        log_in(&mut first, &mut store, &mut first_message),
        LoginAction::Accept(_)
    ));

    let answer = store.answer(create);
    assert!(matches!(answer, StoreAnswer::AlreadyExists));
    let (state, action) = second_message.process(&mut second, state, answer);
    assert_eq!(state, LoginState::AwaitingLoad);
    let LoginAction::Ask(load) = action else {
        panic!("no request");
    };
    let answer = store.answer(load);
    let (state, action) = second_message.process(&mut second, state, answer);
    assert_eq!(state, LoginState::Finished);
    let LoginAction::Accept(packet) = action else {
        panic!("the login was not accepted");
    };
    assert_eq!(store.creations, 1);
    assert_eq!(store.records.len(), 1);
    assert_eq!(second.player.low_id, first.player.low_id);
    let (_, payload) = second_client.open(&packet);
    assert_eq!(payload, expected_ok("abc", first.player.low_id));
}
