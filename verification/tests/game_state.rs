use poker_client::game::GameState;
use poker_client::types::{
    Card, GameAction, GamePhase, GameType, HandType, HandWinner, PlayerAction, PlayerInfo,
    PotWinner, Rank, RoomInfo, Suit,
};

fn player(id: u64, seat: u8, chips: i64) -> PlayerInfo {
    PlayerInfo {
        id,
        username: format!("player{}", id),
        display_name: format!("Player {}", id),
        avatar_url: None,
        chips,
        seat_position: seat,
        is_active: true,
        is_dealer: false,
        is_small_blind: false,
        is_big_blind: false,
        hand: Vec::new(),
        current_bet: 0,
        is_all_in: false,
        is_folded: false,
        action_time_left: None,
    }
}

fn room(id: &str) -> RoomInfo {
    RoomInfo {
        id: id.to_string(),
        name: format!("Room {}", id),
        game_type: GameType::TexasHoldem,
        current_players: 2,
        max_players: 6,
        small_blind: 5,
        big_blind: 10,
        min_buy_in: 200,
        max_buy_in: 2000,
        is_private: false,
        is_active: true,
        created_at: 0,
    }
}

fn ids(state: &GameState) -> Vec<u64> {
    let mut v: Vec<u64> = state.players.iter().map(|p| p.id).collect();
    v.sort();
    v
}

#[test]
fn player_joined_twice_is_once() {
    let mut state = GameState::new();
    state.add_player(player(7, 0, 500));
    state.add_player(player(7, 0, 900));
    assert_eq!(state.get_player_count(), 1);
    assert_eq!(state.players[0].chips, 900);
    let once = {
        let mut s = GameState::new();
        s.add_player(player(7, 0, 900));
        s
    };
    assert_eq!(ids(&state), ids(&once));
}

#[test]
fn room_join_is_full_resync() {
    let mut state = GameState::new();
    state.join_room(room("old"), vec![player(1, 0, 100), player(9, 1, 100)]);
    state.add_player(player(42, 2, 100));
    assert_eq!(ids(&state), vec![1, 9, 42]);
    // a fresh state joined with a new list tracks exactly that list
    let mut state = GameState::new();
    state.join_room(room("new"), vec![player(2, 0, 100), player(3, 1, 100)]);
    assert_eq!(ids(&state), vec![2, 3]);
    assert_eq!(state.current_room.as_ref().unwrap().id, "new");
}

#[test]
fn hand_result_settles_atomically() {
    let mut state = GameState::new();
    let mut p1 = player(1, 0, 1000);
    p1.current_bet = 75;
    let mut p2 = player(2, 1, 1000);
    p2.current_bet = 75;
    p2.is_folded = true;
    state.join_room(room("r"), vec![p1, p2]);
    state.pot = 150;
    state.game_phase = GamePhase::Showdown;
    state.hand_number = 3;
    let winners = vec![HandWinner {
        player_id: 1,
        hand_type: HandType::Pair,
        cards: vec![Card::Card { suit: Suit::Hearts, rank: Rank::Ace }],
    }];
    let dist = vec![PotWinner { player_id: 1, amount: 150 }];
    state.complete_hand(winners, dist);
    let winner = state.players.iter().find(|p| p.id == 1).unwrap();
    let loser = state.players.iter().find(|p| p.id == 2).unwrap();
    assert_eq!(winner.chips, 1150);
    assert_eq!(loser.chips, 1000);
    assert_eq!(state.pot, 0);
    assert_eq!(winner.current_bet, 0);
    assert_eq!(loser.current_bet, 0);
    assert!(!winner.is_folded);
    assert!(!loser.is_folded);
    assert_eq!(state.hand_number, 4);
    assert_eq!(state.game_phase, GamePhase::WaitingForPlayers);
    assert!(state.community_cards.is_empty());
    assert!(state.hand_history.is_empty());
    assert!(state.active_player.is_none());
    assert!(state.last_action.is_none());
}

#[test]
fn hand_result_ignores_unknown_winner() {
    let mut state = GameState::new();
    state.join_room(room("r"), vec![player(1, 0, 500)]);
    state.complete_hand(Vec::new(), vec![PotWinner { player_id: 99, amount: 400 }]);
    assert_eq!(state.players[0].chips, 500);
    assert_eq!(state.hand_number, 1);
}

#[test]
fn remove_player_clears_references() {
    let mut state = GameState::new();
    state.join_room(room("r"), vec![player(1, 3, 100), player(2, 4, 100)]);
    state.active_player = Some(1);
    state.dealer_position = Some(3);
    state.remove_player(1);
    assert_eq!(ids(&state), vec![2]);
    assert_eq!(state.active_player, None);
    assert_eq!(state.dealer_position, None);
}

#[test]
fn remove_absent_player_is_noop() {
    let mut state = GameState::new();
    state.join_room(room("r"), vec![player(1, 0, 100)]);
    state.active_player = Some(1);
    state.remove_player(77);
    assert_eq!(ids(&state), vec![1]);
    assert_eq!(state.active_player, Some(1));
}

#[test]
fn leave_room_resets_to_empty() {
    let mut state = GameState::new();
    state.join_room(room("r"), vec![player(1, 0, 100)]);
    state.pot = 60;
    state.leave_room();
    assert_eq!(state.get_player_count(), 0);
    assert_eq!(state.pot, 0);
    assert!(state.current_room.is_none());
    assert_eq!(state.hand_number, 0);
}

#[test]
fn update_game_phase_is_one_transition() {
    let mut state = GameState::new();
    state.join_room(room("r"), vec![player(1, 0, 100)]);
    let board = vec![
        Card::Card { suit: Suit::Hearts, rank: Rank::Two },
        Card::Card { suit: Suit::Clubs, rank: Rank::King },
        Card::Card { suit: Suit::Spades, rank: Rank::Ten },
    ];
    state.update_game_phase(GamePhase::Flop, board.clone(), 120);
    assert_eq!(state.game_phase, GamePhase::Flop);
    assert_eq!(state.community_cards, board);
    assert_eq!(state.pot, 120);
    assert_eq!(ids(&state), vec![1]);
}

#[test]
fn action_history_appends() {
    let mut state = GameState::new();
    state.join_room(room("r"), vec![player(1, 0, 100)]);
    let a1 = GameAction { player_id: 1, action: PlayerAction::Call, amount: 10, timestamp: 5 };
    let a2 = GameAction { player_id: 1, action: PlayerAction::Raise(30), amount: 30, timestamp: 6 };
    state.add_action(a1);
    state.add_action(a2);
    assert_eq!(state.hand_history, vec![a1, a2]);
    assert_eq!(state.last_action, Some(a2));
}

#[test]
fn turn_checks() {
    let mut state = GameState::new();
    state.join_room(room("r"), vec![player(1, 0, 100)]);
    state.game_phase = GamePhase::Turn;
    state.set_active_player(Some(1), Some(30));
    assert!(state.is_in_hand());
    assert!(state.can_act(1));
    assert!(!state.can_act(2));
    assert_eq!(state.time_bank, Some(30));
    state.game_phase = GamePhase::WaitingForPlayers;
    assert!(!state.is_in_hand());
    assert!(!state.can_act(1));
}

#[test]
fn seated_players_come_in_seat_order() {
    let mut state = GameState::new();
    state.join_room(
        room("r"),
        vec![player(5, 4, 100), player(6, 1, 100), player(7, 2, 100)],
    );
    let seated = state.get_seated_players();
    let seats: Vec<u8> = seated.iter().map(|p| p.seat_position).collect();
    assert_eq!(seats, vec![1, 2, 4]);
    let seated_ids: Vec<u64> = seated.iter().map(|p| p.id).collect();
    assert_eq!(seated_ids, vec![6, 7, 5]);
}

#[test]
fn membership_and_defaults() {
    let mut state = GameState::default();
    assert_eq!(state.get_player_count(), 0);
    assert!(!state.has_player(1));
    state.add_player(player(1, 0, 100));
    assert!(state.has_player(1));
    assert!(!state.has_player(2));
    assert_eq!(Card::default(), Card::Unknown);
    assert_eq!(GameType::default(), GameType::TexasHoldem);
    assert_eq!(Rank::Two.value(), 2);
    assert_eq!(Rank::Ace.value(), 14);
}

#[test]
fn active_players_excludes_folded() {
    let mut state = GameState::new();
    let mut folded = player(2, 1, 100);
    folded.is_folded = true;
    let mut sitting_out = player(3, 2, 100);
    sitting_out.is_active = false;
    state.join_room(room("r"), vec![player(1, 0, 100), folded, sitting_out]);
    let active = state.get_active_players();
    let active_ids: Vec<u64> = active.iter().map(|p| p.id).collect();
    assert_eq!(active_ids, vec![1]);
}
