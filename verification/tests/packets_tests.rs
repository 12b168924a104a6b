use bytes::Bytes;
use deuce::database::PlayerInfo;
use deuce::packets::client::factory::{create_packet, ClientMessage, LOGIN_MESSAGE_ID};
use deuce::packets::client::LoginMessage;
use deuce::packets::packet::{ClientPacket, ServerPacket};
use deuce::packets::server::home_data_message::{brawlers_trophies, collect_cards};
use deuce::packets::server::{
    ClanStreamMessage, HomeDataMessage, LoginFailedMessage, LoginOkMessage, MyAllianceMessage,
};
use deuce::player::{BrawlerData, Player};
use deuce::reader::{ByteReader, DecodeError};
use deuce::settings::Settings;
use std::collections::HashMap;

fn int32(out: &mut Vec<u8>, v: i32) {
    out.extend_from_slice(&v.to_be_bytes());
}

fn vint(out: &mut Vec<u8>, v: i32) {
    let mut rest = v as u32;
    loop {
        let group = (rest & 0x7F) as u8;
        rest >>= 7;
        if rest == 0 {
            out.push(group);
            return;
        }
        out.push(group | 0x80);
    }
}

fn string(out: &mut Vec<u8>, s: &str) {
    int32(out, s.len() as i32);
    out.extend_from_slice(s.as_bytes());
}

fn absent(out: &mut Vec<u8>) {
    int32(out, -1);
}

fn boolean(out: &mut Vec<u8>, b: bool) {
    out.push(if b { 1 } else { 0 });
}

fn login() -> LoginMessage {
    LoginMessage {
        high_id: 0,
        low_id: 7,
        token: "abc".to_string(),
        major_version: 11,
        minor_version: 2,
        build: 3,
        fingerprint_sha: "f00d".to_string(),
        unknown_string1: String::new(),
        device_id: "dev".to_string(),
        unknown_string2: String::new(),
        device: "phone".to_string(),
        system_language: 1,
        region: "US".to_string(),
    }
}

fn login_payload() -> Vec<u8> {
    let mut out = Vec::new();
    int32(&mut out, 0);
    int32(&mut out, 7);
    string(&mut out, "abc");
    int32(&mut out, 11);
    int32(&mut out, 2);
    int32(&mut out, 3);
    string(&mut out, "f00d");
    absent(&mut out);
    string(&mut out, "dev");
    string(&mut out, "");
    string(&mut out, "phone");
    out.push(1);
    string(&mut out, "en-US");
    out
}

fn decode(payload: Vec<u8>) -> (LoginMessage, Result<(), DecodeError>, usize) {
    let mut message = LoginMessage::default();
    let mut reader = ByteReader::from(Bytes::from(payload));
    let result = message.decode(&mut reader);
    (message, result, reader.remaining())
}

#[test]
fn only_logins_are_handled() {
    assert_eq!(LOGIN_MESSAGE_ID, 10101);
    assert!(matches!(create_packet(10101), Some(ClientMessage::Login(_))));
    assert!(create_packet(10100).is_none());
    assert!(create_packet(0).is_none());
    assert!(create_packet(20104).is_none());
    assert!(create_packet(u16::MAX).is_none());
}

#[test]
fn a_created_login_is_empty() {
    let Some(ClientMessage::Login(message)) = create_packet(10101) else {
        panic!("no login");
    };
    assert_eq!(message.high_id, 0);
    assert_eq!(message.low_id, 0);
    assert_eq!(message.token, "");
    assert_eq!(message.build, 0);
    assert_eq!(message.region, "");
}

#[test]
fn login_decodes_its_fields() {
    let (message, result, left) = decode(login_payload());
    assert!(result.is_ok());
    assert_eq!(left, 0);
    assert_eq!(message.high_id, 0);
    assert_eq!(message.low_id, 7);
    assert_eq!(message.token, "abc");
    assert_eq!(message.major_version, 11);
    assert_eq!(message.minor_version, 2);
    assert_eq!(message.build, 3);
    assert_eq!(message.fingerprint_sha, "f00d");
    assert_eq!(message.unknown_string1, "");
    assert_eq!(message.device_id, "dev");
    assert_eq!(message.unknown_string2, "");
    assert_eq!(message.device, "phone");
    assert_eq!(message.system_language, 1);
    assert_eq!(message.region, "US");
}

#[test]
fn login_leaves_what_follows_it() {
    let mut payload = login_payload();
    payload.extend_from_slice(&[1, 2, 3]);
    let (_, result, left) = decode(payload);
    assert!(result.is_ok());
    assert_eq!(left, 3);
}

#[test]
fn login_through_the_created_packet() {
    let mut packet = create_packet(10101).unwrap();
    let mut reader = ByteReader::from(Bytes::from(login_payload()));
    assert!(packet.decode(&mut reader).is_ok());
    let ClientMessage::Login(message) = packet;
    assert_eq!(message.token, "abc");
    assert_eq!(message.region, "US");
}

fn payload_with_language(tag: &str) -> Vec<u8> {
    let mut payload = login_payload();
    payload.truncate(payload.len() - 9);
    string(&mut payload, tag);
    payload
}

#[test]
fn region_is_what_follows_the_first_hyphen() {
    assert_eq!(decode(payload_with_language("en-US")).0.region, "US");
    assert_eq!(decode(payload_with_language("zh-Hant-TW")).0.region, "Hant");
    assert_eq!(decode(payload_with_language("en")).0.region, "");
    assert_eq!(decode(payload_with_language("")).0.region, "");
    assert_eq!(decode(payload_with_language("en-")).0.region, "");
    assert_eq!(decode(payload_with_language("-US")).0.region, "US");
    assert_eq!(decode(payload_with_language("--")).0.region, "");
    assert_eq!(decode(payload_with_language("fr-\u{e9}t\u{e9}-x")).0.region, "\u{e9}t\u{e9}");
}

#[test]
fn a_negative_language_number_keeps_its_bits() {
    let mut payload = login_payload();
    let at = payload.len() - 10;
    assert_eq!(payload[at], 1);
    payload[at] = 64;
    let (message, result, _) = decode(payload);
    assert!(result.is_ok());
    assert_eq!(message.system_language, u32::MAX);
}

#[test]
fn a_truncated_login_is_an_error() {
    let whole = login_payload();
    for len in 0..whole.len() {
        let (_, result, _) = decode(whole[..len].to_vec());
        assert!(matches!(result, Err(DecodeError::UnexpectedEof)), "at length {}", len);
    }
}

#[test]
fn a_truncated_login_keeps_what_was_read() {
    let whole = login_payload();
    let (message, result, _) = decode(whole[..20].to_vec());
    assert!(result.is_err());
    assert_eq!(message.low_id, 7);
    assert_eq!(message.token, "abc");
    assert_eq!(message.major_version, 11);
    assert_eq!(message.minor_version, 0);
}

#[test]
fn a_login_with_a_broken_string_is_an_error() {
    let mut payload = login_payload();
    payload[12] = 0xFF;
    let (_, result, _) = decode(payload);
    assert!(matches!(result, Err(DecodeError::Utf8Error(_))));
}

#[test]
fn clan_stream_is_two_zeros() {
    let mut message = ClanStreamMessage::new();
    assert_eq!(message.id, 24311);
    assert_eq!(message.encode(), vec![0, 0]);
}

#[test]
fn my_alliance_is_a_zero_and_a_no() {
    let mut message = MyAllianceMessage::new();
    assert_eq!(message.id, 24311);
    assert_eq!(message.encode(), vec![0, 0]);
}

#[test]
fn login_ok_carries_identifier_and_token() {
    let login = login();
    let mut message = LoginOkMessage::new(&login);
    assert_eq!(message.id, 20104);

    let mut expected = Vec::new();
    int32(&mut expected, 0);
    int32(&mut expected, 7);
    int32(&mut expected, 0);
    int32(&mut expected, 7);
    string(&mut expected, "abc");
    string(&mut expected, "467606826913688");
    string(&mut expected, "G:325378671");
    int32(&mut expected, 11);
    int32(&mut expected, 2);
    int32(&mut expected, 3);
    string(&mut expected, "-dev");
    int32(&mut expected, 0);
    int32(&mut expected, 0);
    int32(&mut expected, 0);
    absent(&mut expected);
    absent(&mut expected);
    absent(&mut expected);
    int32(&mut expected, 0);
    absent(&mut expected);
    string(&mut expected, "US");
    absent(&mut expected);
    int32(&mut expected, 1);
    absent(&mut expected);
    absent(&mut expected);
    absent(&mut expected);
    assert_eq!(message.encode(), expected);
}

#[test]
fn login_ok_starts_with_the_identifier_twice() {
    let mut login = login();
    login.high_id = 0x0102_0304;
    login.low_id = 0xFFFF_FFFE;
    let bytes = LoginOkMessage::new(&login).encode();
    assert_eq!(
        &bytes[..16],
        &[1, 2, 3, 4, 0xFF, 0xFF, 0xFF, 0xFE, 1, 2, 3, 4, 0xFF, 0xFF, 0xFF, 0xFE]
    );
}

#[test]
fn login_failed_carries_code_and_fingerprint() {
    let login = login();
    let mut message = LoginFailedMessage::new(&login, "store is down".to_string(), 8);
    assert_eq!(message.id, 20103);
    assert_eq!(message.error_code, 8);
    assert_eq!(message.message, "store is down");

    let mut expected = Vec::new();
    int32(&mut expected, 8);
    string(&mut expected, "f00d");
    string(&mut expected, "0.0.0.0:9339");
    string(&mut expected, "https://game-assets.brawlstarsgame.com");
    string(&mut expected, "https://github.com/Super-brawl-team/Obiad-Brawl");
    int32(&mut expected, 0);
    boolean(&mut expected, false);
    absent(&mut expected);
    absent(&mut expected);
    int32(&mut expected, 0);
    int32(&mut expected, 3);
    absent(&mut expected);
    absent(&mut expected);
    int32(&mut expected, 0);
    int32(&mut expected, 0);
    boolean(&mut expected, false);
    boolean(&mut expected, false);
    assert_eq!(message.encode(), expected);
}

fn settings(max_rank: u32) -> Settings {
    Settings { key: "k".to_string(), port: 9339, database: String::new(), max_rank }
}

fn brawler(selected: i32, skins: Vec<i32>, trophies: i32, cards: &[(i32, i32)]) -> BrawlerData {
    BrawlerData {
        cards: cards.iter().cloned().collect::<HashMap<i32, i32>>(),
        skins,
        selected,
        trophies,
        highest_trophies: trophies + 1,
        level: 0,
        power_points: 0,
        state: 2,
        star_power: 0,
    }
}

fn info(brawlers: Vec<(i32, BrawlerData)>) -> PlayerInfo {
    PlayerInfo {
        name: "Ada".to_string(),
        low_id: 42,
        club_id: 0,
        club_role: 0,
        player_experience: 300,
        solo_wins: 0,
        duo_wins: 0,
        three_x_three_wins: 0,
        gems: 5,
        gold: 92,
        elixir: 3,
        chips: 4,
        coins_doubler: 6,
        coins_booster: 0,
        trophies: 1000,
        highest_trophies: 1100,
        profile_icon: 9,
        room_id: 0,
        last_connection_time: 0,
        player_status: 0,
        region: "DE".to_string(),
        control_mode: 1,
        has_battle_hints: true,
        unlocked_brawlers: brawlers.into_iter().collect(),
        coins_reward: 25,
        event_count: 2,
    }
}

fn events(out: &mut Vec<u8>, count: i32, seed: i32, mode: i32, title: &str) {
    for event in 0..count {
        vint(out, event + 1);
        vint(out, event + 1);
        vint(out, seed);
        vint(out, 39120);
        vint(out, 8);
        vint(out, 8);
        vint(out, 999);
        boolean(out, false);
        boolean(out, false);
        vint(out, 15);
        vint(out, mode);
        vint(out, 0);
        vint(out, 2);
        string(out, title);
        boolean(out, false);
    }
}

fn expected_home(
    info: &PlayerInfo,
    high_id: u32,
    cap: u32,
    brawlers: &[(i32, &BrawlerData)],
    cards: &[(i32, i32)],
    milestones: &[u8],
) -> Vec<u8> {
    let mut out = Vec::new();
    vint(&mut out, 2017189);
    vint(&mut out, 10);
    vint(&mut out, info.trophies as i32);
    vint(&mut out, info.highest_trophies as i32);
    vint(&mut out, 0);
    vint(&mut out, info.player_experience as i32);
    vint(&mut out, 28);
    vint(&mut out, 0);
    vint(&mut out, 7);
    for x in 0..7 {
        vint(&mut out, x);
    }
    let selected: Vec<i32> =
        brawlers.iter().map(|b| b.1.selected).filter(|s| *s != 0).collect();
    vint(&mut out, selected.len() as i32);
    for skin in selected {
        vint(&mut out, 29);
        vint(&mut out, skin);
    }
    let owned: Vec<i32> = brawlers
        .iter()
        .flat_map(|b| b.1.skins.iter().cloned())
        .filter(|s| *s != 0)
        .collect();
    vint(&mut out, owned.len() as i32);
    for skin in owned {
        vint(&mut out, 29);
        vint(&mut out, skin);
    }
    boolean(&mut out, true);
    vint(&mut out, 0);
    vint(&mut out, info.coins_reward);
    boolean(&mut out, false);
    vint(&mut out, info.control_mode as i32);
    boolean(&mut out, info.has_battle_hints);
    vint(&mut out, info.coins_doubler as i32);
    vint(&mut out, 0);
    vint(&mut out, 0);
    boolean(&mut out, false);
    for _ in 0..4 {
        vint(&mut out, 0);
        vint(&mut out, 1);
    }
    vint(&mut out, 0);
    vint(&mut out, 1);
    vint(&mut out, 0);
    boolean(&mut out, true);
    boolean(&mut out, true);
    vint(&mut out, 2017189);
    for v in [100, 10, 80, 10, 20, 50, 50, 1000, 168] {
        vint(&mut out, v);
    }
    vint(&mut out, cap as i32);
    vint(&mut out, 50);
    vint(&mut out, 9999);
    for list in [[1, 2, 5, 10, 20, 60], [3, 10, 20, 60, 200, 500], [0, 30, 80, 170, 0, 0]] {
        vint(&mut out, 6);
        for v in list {
            vint(&mut out, v);
        }
    }
    vint(&mut out, info.event_count);
    let required = [0, 3, 5, 8];
    for event in 0..info.event_count {
        vint(&mut out, event + 1);
        vint(&mut out, required[event as usize]);
    }
    vint(&mut out, info.event_count);
    events(&mut out, info.event_count, 1, 2, "deuce server v1.01");
    vint(&mut out, 4);
    events(&mut out, 4, 1337, 3, "deuce server v1.01 (2)");
    vint(&mut out, 5);
    for x in 1..=5 {
        vint(&mut out, x);
    }
    out.extend_from_slice(milestones);
    int32(&mut out, high_id as i32);
    int32(&mut out, info.low_id as i32);
    vint(&mut out, 0);
    for _ in 0..3 {
        vint(&mut out, high_id as i32);
        vint(&mut out, info.low_id as i32);
    }
    string(&mut out, &info.name);
    boolean(&mut out, info.name != "Brawler");
    int32(&mut out, 1);
    vint(&mut out, 5);
    vint(&mut out, cards.len() as i32 + 3);
    for (card, amount) in cards {
        vint(&mut out, 23);
        vint(&mut out, *card);
        vint(&mut out, *amount);
    }
    for (id, amount) in [(1, info.gold), (5, info.chips), (6, info.elixir)] {
        vint(&mut out, 5);
        vint(&mut out, id);
        vint(&mut out, amount as i32);
    }
    vint(&mut out, brawlers.len() as i32);
    for b in brawlers {
        vint(&mut out, 16);
        vint(&mut out, b.0);
        vint(&mut out, b.1.trophies);
    }
    vint(&mut out, brawlers.len() as i32);
    for b in brawlers {
        vint(&mut out, 16);
        vint(&mut out, b.0);
        vint(&mut out, b.1.highest_trophies);
    }
    vint(&mut out, 0);
    vint(&mut out, brawlers.len() as i32);
    for b in brawlers {
        vint(&mut out, 16);
        vint(&mut out, b.0);
        vint(&mut out, 2);
    }
    vint(&mut out, info.gems as i32);
    vint(&mut out, 13);
    for _ in 0..8 {
        vint(&mut out, 0);
    }
    vint(&mut out, 2);
    vint(&mut out, 2017189);
    out
}

#[test]
fn trophies_for_the_rank_ceiling() {
    assert_eq!(brawlers_trophies(1), 0);
    assert_eq!(brawlers_trophies(2), 10);
    assert_eq!(brawlers_trophies(6), 60);
    assert_eq!(brawlers_trophies(21), 550);
    assert_eq!(brawlers_trophies(34), 1200);
    assert_eq!(brawlers_trophies(35), 1250);
    assert_eq!(brawlers_trophies(36), 1300);
    assert_eq!(brawlers_trophies(85_899_355), 4_294_967_250);
}

#[test]
fn cards_of_all_fighters_are_gathered() {
    let first = brawler(0, vec![], 0, &[(1, 10), (2, 20)]);
    let second = brawler(0, vec![], 0, &[(3, 30)]);
    let third = brawler(0, vec![], 0, &[]);
    let mut cards = collect_cards(&vec![(0, &first), (1, &second), (2, &third)]);
    cards.sort();
    assert_eq!(cards, vec![(1, 10), (2, 20), (3, 30)]);
    assert!(collect_cards(&vec![]).is_empty());
}

#[test]
fn a_card_of_two_fighters_is_gathered_once() {
    let first = brawler(0, vec![], 0, &[(1, 10)]);
    let second = brawler(0, vec![], 0, &[(1, 11)]);
    let cards = collect_cards(&vec![(0, &first), (1, &second)]);
    assert_eq!(cards, vec![(1, 11)]);
}

#[test]
fn home_data_of_a_player_without_fighters() {
    let info = info(vec![]);
    let settings = settings(35);
    let mut player = Player::new();
    player.token = Some("abc".to_string());
    player.high_id = 1;
    let mut message = HomeDataMessage::new(&mut player, &info, &settings);
    assert_eq!(message.id, 24101);
    assert!(message.brawlers.is_empty());
    assert!(message.cards.is_empty());
    let bytes = message.encode();
    assert_eq!(bytes, expected_home(&info, 1, 1250, &[], &[], &[]));
    assert_eq!(player.name, "Ada");
    assert_eq!(player.low_id, 42);
    assert_eq!(player.player_status, 2);
    assert_eq!(player.coins_reward, 0);
    assert_eq!(player.profile_icon, 0);
    assert_eq!(player.token, Some("abc".to_string()));
}

#[test]
fn home_data_of_a_player_with_one_fighter() {
    let info = info(vec![(7, brawler(4, vec![0, 4, 9], 120, &[(70, 2)]))]);
    let settings = settings(1);
    let mut player = Player::new();
    let mut message = HomeDataMessage::new(&mut player, &info, &settings);
    let bytes = message.encode();
    let fighter = &info.unlocked_brawlers[&7];
    assert_eq!(bytes, expected_home(&info, 0, 0, &[(7, fighter)], &[(70, 2)], &[]));
}

#[test]
fn home_data_sends_fighters_in_the_order_of_its_list() {
    let info = info(vec![
        (1, brawler(0, vec![0], 10, &[(10, 1)])),
        (2, brawler(3, vec![3], 20, &[(20, 2)])),
        (3, brawler(0, vec![0, 5], 30, &[(30, 3)])),
    ]);
    let settings = settings(40);
    let mut player = Player::new();
    let mut message = HomeDataMessage::new(&mut player, &info, &settings);
    message.milestones = vec![0xAA, 0xBB];

    let mut ids: Vec<i32> = message.brawlers.iter().map(|b| b.0).collect();
    let brawlers: Vec<(i32, &BrawlerData)> =
        ids.iter().map(|id| (*id, &info.unlocked_brawlers[id])).collect();
    let cards = message.cards.clone();
    let bytes = message.encode();
    assert_eq!(bytes, expected_home(&info, 0, 1500, &brawlers, &cards, &[0xAA, 0xBB]));

    ids.sort();
    assert_eq!(ids, vec![1, 2, 3]);
    let mut cards = cards;
    cards.sort();
    assert_eq!(cards, vec![(10, 1), (20, 2), (30, 3)]);
}

#[test]
fn home_data_of_the_default_name() {
    let mut info = info(vec![]);
    info.name = "Brawler".to_string();
    info.event_count = 0;
    let settings = settings(34);
    let mut player = Player::new();
    let bytes = HomeDataMessage::new(&mut player, &info, &settings).encode();
    assert_eq!(bytes, expected_home(&info, 0, 1200, &[], &[], &[]));
}

#[test]
fn home_data_with_a_negative_event_count() {
    let mut info = info(vec![]);
    info.event_count = -1;
    let settings = settings(34);
    let mut player = Player::new();
    let bytes = HomeDataMessage::new(&mut player, &info, &settings).encode();
    assert_eq!(bytes, expected_home(&info, 0, 1200, &[], &[], &[]));
}

#[test]
fn home_data_with_all_four_events() {
    let mut info = info(vec![]);
    info.event_count = 4;
    let settings = settings(34);
    let mut player = Player::new();
    let bytes = HomeDataMessage::new(&mut player, &info, &settings).encode();
    assert_eq!(bytes, expected_home(&info, 0, 1200, &[], &[], &[]));
}
