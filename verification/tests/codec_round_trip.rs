use poker_client::codec::{decode_client_message, decode_server_message, encode_client_message,
    encode_server_message};
use poker_client::types::{
    Card, ClientMessage, GameAction, GamePhase, GameType, HandType, HandWinner, PlayerAction,
    PlayerInfo, PlayerStatus, PotWinner, Rank, RoomConfig, RoomInfo, ServerMessage, Suit, User,
};

fn player(id: u64) -> PlayerInfo {
    PlayerInfo {
        id,
        username: format!("user{}", id),
        display_name: format!("Usér {} ♠", id),
        avatar_url: if id % 2 == 0 { Some("https://example.test/a.png".to_string()) } else {
            None
        },
        chips: 1500 - id as i64,
        seat_position: (id % 9) as u8,
        is_active: true,
        is_dealer: id == 1,
        is_small_blind: false,
        is_big_blind: id == 2,
        hand: vec![Card::Unknown, Card::Card { suit: Suit::Diamonds, rank: Rank::Queen }],
        current_bet: 40,
        is_all_in: false,
        is_folded: id == 3,
        action_time_left: Some(25),
    }
}

fn room() -> RoomInfo {
    RoomInfo {
        id: "room-β".to_string(),
        name: "High stakes".to_string(),
        game_type: GameType::Omaha,
        current_players: 4,
        max_players: 9,
        small_blind: 50,
        big_blind: 100,
        min_buy_in: 2000,
        max_buy_in: 20000,
        is_private: true,
        is_active: true,
        created_at: 1_700_000_000_123,
    }
}

fn client_round_trip(m: ClientMessage) -> ClientMessage {
    let frame = encode_client_message(&m);
    decode_client_message(&frame).expect("frame must decode")
}

#[test]
fn fold_intent_round_trips() {
    let m = ClientMessage::PlayerAction { action: PlayerAction::Fold };
    assert_eq!(client_round_trip(m), ClientMessage::PlayerAction { action: PlayerAction::Fold });
}

#[test]
fn every_client_kind_round_trips() {
    let msgs = vec![
        ClientMessage::Authenticate { token: "session-token-1".to_string() },
        ClientMessage::JoinRoom { room_id: "room-β".to_string() },
        ClientMessage::LeaveRoom,
        ClientMessage::CreateRoom {
            room_config: RoomConfig {
                name: "Friday game".to_string(),
                game_type: GameType::SevenCardStud,
                max_players: 8,
                small_blind: 1,
                big_blind: 2,
                min_buy_in: 40,
                max_buy_in: 400,
                is_private: true,
                password: Some("hünter2".to_string()),
            },
        },
        ClientMessage::GetRoomList,
        ClientMessage::PlayerAction { action: PlayerAction::Raise(-5) },
        ClientMessage::PlayerAction { action: PlayerAction::Bet(i64::MIN) },
        ClientMessage::RequestTimeExtension,
        ClientMessage::SendMessage { message: "gl all ☘".to_string(), room_id: None },
        ClientMessage::SendMessage {
            message: String::new(),
            room_id: Some("r".to_string()),
        },
        ClientMessage::Ping,
        ClientMessage::Heartbeat,
    ];
    for m in msgs {
        let frame = encode_client_message(&m);
        let back = decode_client_message(&frame).expect("frame must decode");
        assert_eq!(back, m);
    }
}

#[test]
fn every_server_kind_round_trips() {
    let user = User {
        id: 12,
        username: "ada".to_string(),
        email: "ada@example.test".to_string(),
        display_name: "Ada".to_string(),
        avatar_url: None,
        chips: 10_000,
        balance: 250,
        level: 7,
        experience: -3,
        created_at: 1_600_000_000_000,
        last_active: 1_700_000_000_000,
        status: Some(PlayerStatus::Playing),
    };
    let msgs = vec![
        ServerMessage::AuthenticationSuccess { user },
        ServerMessage::AuthenticationFailed { error: "bad token".to_string() },
        ServerMessage::RoomJoined { room: room(), players: vec![player(1), player(2)] },
        ServerMessage::RoomLeft,
        ServerMessage::RoomListUpdate { rooms: vec![room()] },
        ServerMessage::PlayerJoined { player: player(3) },
        ServerMessage::PlayerLeft { player_id: 3 },
        ServerMessage::GameStateUpdate {
            phase: GamePhase::Flop,
            community_cards: vec![
                Card::Card { suit: Suit::Hearts, rank: Rank::Two },
                Card::Card { suit: Suit::Clubs, rank: Rank::Ten },
                Card::Card { suit: Suit::Spades, rank: Rank::Ace },
            ],
            pot: 300,
        },
        ServerMessage::PlayerActionRequired { player_id: 2, time_limit: 30 },
        ServerMessage::PlayerActionUpdate {
            action: GameAction {
                player_id: 2,
                action: PlayerAction::AllIn,
                amount: 740,
                timestamp: 1_700_000_000_555,
            },
        },
        ServerMessage::HandResult {
            winners: vec![HandWinner {
                player_id: 1,
                hand_type: HandType::FullHouse,
                cards: vec![Card::Card { suit: Suit::Hearts, rank: Rank::King }],
            }],
            pot_distribution: vec![
                PotWinner { player_id: 1, amount: 600 },
                PotWinner { player_id: 2, amount: 150 },
            ],
        },
        ServerMessage::ChatMessage {
            player_id: 4,
            username: "bob".to_string(),
            message: "nice hand 👍".to_string(),
            timestamp: 1_700_000_001_000,
        },
        ServerMessage::Pong,
        ServerMessage::Error { message: "table full".to_string() },
        ServerMessage::Disconnect { reason: "server restart".to_string() },
    ];
    for m in msgs {
        let frame = encode_server_message(&m);
        let back = decode_server_message(&frame).expect("frame must decode");
        assert_eq!(back, m);
    }
}

#[test]
fn empty_frame_is_refused() {
    assert!(decode_client_message(&Vec::new()).is_err());
    assert!(decode_server_message(&Vec::new()).is_err());
}

#[test]
fn unknown_tag_is_refused() {
    assert!(decode_client_message(&vec![200u8]).is_err());
    assert!(decode_server_message(&vec![99u8]).is_err());
}

#[test]
fn truncated_frame_is_refused() {
    let m = ClientMessage::Authenticate { token: "abcdef".to_string() };
    let mut frame = encode_client_message(&m);
    frame.pop();
    assert!(decode_client_message(&frame).is_err());
}

#[test]
fn trailing_bytes_are_refused() {
    let mut frame = encode_client_message(&ClientMessage::Ping);
    frame.push(0);
    assert!(decode_client_message(&frame).is_err());
}

#[test]
fn bad_flag_byte_is_refused() {
    // SendMessage with a presence byte that is neither absent nor present
    let m = ClientMessage::SendMessage { message: "x".to_string(), room_id: None };
    let mut frame = encode_client_message(&m);
    let last = frame.len() - 1;
    frame[last] = 2;
    assert!(decode_client_message(&frame).is_err());
}

#[test]
fn surrogate_code_point_is_refused() {
    // Authenticate with a one-character token whose code point is a
    // surrogate: no char carries it, so the frame is malformed.
    let m = ClientMessage::Authenticate { token: "A".to_string() };
    let mut frame = encode_client_message(&m);
    // the last four bytes hold the code point of 'A', little-endian
    let n = frame.len();
    frame[n - 4] = 0x00;
    frame[n - 3] = 0xD8;
    frame[n - 2] = 0x00;
    frame[n - 1] = 0x00;
    assert!(decode_client_message(&frame).is_err());
}

#[test]
fn text_survives_byte_level_transport() {
    // the frame really carries the text: decoding a different buffer
    // with one character changed gives a different message
    let m = ClientMessage::JoinRoom { room_id: "ab".to_string() };
    let mut frame = encode_client_message(&m);
    let n = frame.len();
    frame[n - 4] = b'c';
    let back = decode_client_message(&frame).expect("still well-formed");
    assert_eq!(back, ClientMessage::JoinRoom { room_id: "ac".to_string() });
}
