use poker_client::connection::SessionState;
use poker_client::dispatcher::{Dispatcher, Notification};
use poker_client::types::{
    Card, GameAction, GamePhase, GameType, PlayerAction, PlayerInfo, PlayerStatus, PotWinner,
    Rank, RoomInfo, ServerMessage, Suit, User,
};

fn player(id: u64, seat: u8, chips: i64) -> PlayerInfo {
    PlayerInfo {
        id,
        username: format!("p{}", id),
        display_name: format!("P{}", id),
        avatar_url: None,
        chips,
        seat_position: seat,
        is_active: true,
        is_dealer: false,
        is_small_blind: false,
        is_big_blind: false,
        hand: Vec::new(),
        current_bet: 0,
        is_all_in: false,
        is_folded: false,
        action_time_left: None,
    }
}

fn room(id: &str) -> RoomInfo {
    RoomInfo {
        id: id.to_string(),
        name: id.to_string(),
        game_type: GameType::TexasHoldem,
        current_players: 2,
        max_players: 6,
        small_blind: 5,
        big_blind: 10,
        min_buy_in: 200,
        max_buy_in: 2000,
        is_private: false,
        is_active: true,
        created_at: 0,
    }
}

fn user() -> User {
    User {
        id: 1,
        username: "ada".to_string(),
        email: "ada@example.test".to_string(),
        display_name: "Ada".to_string(),
        avatar_url: None,
        chips: 1000,
        balance: 0,
        level: 1,
        experience: 0,
        created_at: 0,
        last_active: 0,
        status: Some(PlayerStatus::Online),
    }
}

fn flop() -> Vec<Card> {
    vec![
        Card::Card { suit: Suit::Hearts, rank: Rank::Two },
        Card::Card { suit: Suit::Clubs, rank: Rank::Ten },
        Card::Card { suit: Suit::Spades, rank: Rank::Ace },
    ]
}

fn joined() -> Dispatcher {
    let mut d = Dispatcher::new();
    d.apply(ServerMessage::RoomJoined {
        room: room("r"),
        players: vec![player(1, 0, 1000), player(2, 1, 1000)],
    });
    d
}

#[test]
fn events_apply_in_order() {
    let mut d = joined();
    let notes = d.apply(ServerMessage::GameStateUpdate {
        phase: GamePhase::Flop,
        community_cards: flop(),
        pot: 60,
    });
    assert_eq!(notes, vec![Notification::StateChanged]);
    // the phase is visible before any turn is assigned
    assert_eq!(d.game.game_phase, GamePhase::Flop);
    assert_eq!(d.game.active_player, None);
    let notes = d.apply(ServerMessage::PlayerActionRequired { player_id: 1, time_limit: 30 });
    assert_eq!(notes, vec![Notification::StateChanged]);
    assert_eq!(d.game.game_phase, GamePhase::Flop);
    assert_eq!(d.game.active_player, Some(1));
    assert_eq!(d.game.time_bank, Some(30));
    let action = GameAction { player_id: 1, action: PlayerAction::Call, amount: 10, timestamp: 9 };
    let notes = d.apply(ServerMessage::PlayerActionUpdate { action });
    assert_eq!(notes, vec![Notification::StateChanged]);
    assert_eq!(d.game.hand_history, vec![action]);
    assert_eq!(d.game.last_action, Some(action));
    // monetary truth stays with the server: the pot did not move
    assert_eq!(d.game.pot, 60);
}

#[test]
fn board_never_exceeds_five_under_replay() {
    let mut d = joined();
    let updates = vec![
        (GamePhase::Flop, 3usize, true),
        (GamePhase::Flop, 2, false),  // wrong board for the phase: dropped
        (GamePhase::Turn, 4, true),
        (GamePhase::River, 5, true),
        (GamePhase::River, 6, false), // six cards: dropped
        (GamePhase::PreFlop, 5, false),
        (GamePhase::River, 5, true),  // replayed: fine
    ];
    for (phase, n, ok) in updates {
        let cards = vec![Card::Unknown; n];
        let notes = d.apply(ServerMessage::GameStateUpdate {
            phase,
            community_cards: cards,
            pot: 10,
        });
        if ok {
            assert_eq!(notes, vec![Notification::StateChanged]);
        } else {
            assert_eq!(notes, vec![Notification::ProtocolViolation]);
        }
        assert!(d.game.community_cards.len() <= 5);
    }
    assert_eq!(d.game.game_phase, GamePhase::River);
    assert_eq!(d.game.community_cards.len(), 5);
}

#[test]
fn action_update_without_turn_is_dropped() {
    let mut d = joined();
    let action = GameAction { player_id: 1, action: PlayerAction::Check, amount: 0, timestamp: 1 };
    let notes = d.apply(ServerMessage::PlayerActionUpdate { action });
    assert_eq!(notes, vec![Notification::ProtocolViolation]);
    assert!(d.game.hand_history.is_empty());
}

#[test]
fn action_required_outside_hand_is_dropped() {
    let mut d = joined();
    let notes = d.apply(ServerMessage::PlayerActionRequired { player_id: 1, time_limit: 30 });
    assert_eq!(notes, vec![Notification::ProtocolViolation]);
    assert_eq!(d.game.active_player, None);
}

#[test]
fn overflowing_settlement_is_dropped_whole() {
    let mut d = joined();
    let notes = d.apply(ServerMessage::HandResult {
        winners: Vec::new(),
        pot_distribution: vec![
            PotWinner { player_id: 1, amount: i64::MAX },
            PotWinner { player_id: 1, amount: i64::MAX },
        ],
    });
    assert_eq!(notes, vec![Notification::ProtocolViolation]);
    // nothing was half-applied
    assert_eq!(d.game.players.iter().find(|p| p.id == 1).unwrap().chips, 1000);
    assert_eq!(d.game.hand_number, 0);
}

#[test]
fn settlement_through_dispatcher() {
    let mut d = joined();
    let notes = d.apply(ServerMessage::HandResult {
        winners: Vec::new(),
        pot_distribution: vec![PotWinner { player_id: 2, amount: 300 }],
    });
    assert_eq!(notes, vec![Notification::StateChanged]);
    assert_eq!(d.game.players.iter().find(|p| p.id == 2).unwrap().chips, 1300);
    assert_eq!(d.game.hand_number, 1);
}

#[test]
fn auth_transitions() {
    let mut d = Dispatcher::new();
    d.connect_requested();
    assert_eq!(d.session, SessionState::Connecting);
    d.connection_established();
    assert_eq!(d.session, SessionState::ConnectedUnauthenticated);
    let notes = d.apply(ServerMessage::AuthenticationSuccess { user: user() });
    assert_eq!(notes, vec![Notification::AuthSucceeded]);
    assert_eq!(d.session, SessionState::ConnectedAuthenticated);
    assert_eq!(d.user.as_ref().unwrap().username, "ada");
    let notes = d.apply(ServerMessage::AuthenticationFailed { error: "expired".to_string() });
    assert_eq!(notes, vec![Notification::AuthFailed { error: "expired".to_string() }]);
    assert_eq!(d.session, SessionState::ConnectedUnauthenticated);
    assert!(d.user.is_none());
}

#[test]
fn disconnect_preserves_game_state() {
    let mut d = joined();
    d.apply(ServerMessage::GameStateUpdate {
        phase: GamePhase::Flop,
        community_cards: flop(),
        pot: 90,
    });
    let notes = d.apply(ServerMessage::Disconnect { reason: "maintenance".to_string() });
    assert_eq!(
        notes,
        vec![Notification::ConnectionLost { reason: "maintenance".to_string() }]
    );
    assert_eq!(d.session, SessionState::Disconnected);
    // the table model survives a transient disconnect
    assert_eq!(d.game.pot, 90);
    assert_eq!(d.game.players.len(), 2);
}

#[test]
fn logout_wipes_game_state() {
    let mut d = joined();
    d.logout();
    assert_eq!(d.session, SessionState::Disconnected);
    assert!(d.user.is_none());
    assert_eq!(d.game.players.len(), 0);
    assert!(d.game.current_room.is_none());
}

#[test]
fn room_list_touches_lobby_only() {
    let mut d = joined();
    let pot_before = d.game.pot;
    let notes = d.apply(ServerMessage::RoomListUpdate {
        rooms: vec![room("a"), room("b")],
    });
    assert_eq!(notes, vec![Notification::LobbyUpdated]);
    assert_eq!(d.lobby.len(), 2);
    assert_eq!(d.game.pot, pot_before);
    assert_eq!(d.game.players.len(), 2);
}

#[test]
fn server_error_changes_nothing() {
    let mut d = joined();
    let notes = d.apply(ServerMessage::Error { message: "seat taken".to_string() });
    assert_eq!(notes, vec![Notification::ErrorReported { message: "seat taken".to_string() }]);
    assert_eq!(d.game.players.len(), 2);
    let notes = d.apply(ServerMessage::Pong);
    assert!(notes.is_empty());
}

#[test]
fn chat_is_forwarded() {
    let mut d = joined();
    let notes = d.apply(ServerMessage::ChatMessage {
        player_id: 2,
        username: "bob".to_string(),
        message: "hi".to_string(),
        timestamp: 77,
    });
    assert_eq!(
        notes,
        vec![Notification::Chat {
            player_id: 2,
            username: "bob".to_string(),
            message: "hi".to_string(),
            timestamp: 77,
        }]
    );
}

#[test]
fn player_join_and_leave_through_dispatcher() {
    let mut d = joined();
    let notes = d.apply(ServerMessage::PlayerJoined { player: player(3, 2, 800) });
    assert_eq!(notes, vec![Notification::StateChanged]);
    assert_eq!(d.game.players.len(), 3);
    let notes = d.apply(ServerMessage::PlayerLeft { player_id: 3 });
    assert_eq!(notes, vec![Notification::StateChanged]);
    assert_eq!(d.game.players.len(), 2);
}

#[test]
fn room_left_resets() {
    let mut d = joined();
    let notes = d.apply(ServerMessage::RoomLeft);
    assert_eq!(notes, vec![Notification::StateChanged]);
    assert!(d.game.current_room.is_none());
    assert_eq!(d.game.players.len(), 0);
}
