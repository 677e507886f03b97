use poker_client::auth::{
    validate_login_credentials, validate_registration, AuthState, AuthToken,
};
use poker_client::lobby::{filter_rooms, passes_filter};
use poker_client::types::{
    GameType, LoginCredentials, PlayerStatus, RegisterData, RoomFilter, RoomInfo, User,
};

fn user() -> User {
    User {
        id: 5,
        username: "eve".to_string(),
        email: "eve@example.test".to_string(),
        display_name: "Eve".to_string(),
        avatar_url: None,
        chips: 100,
        balance: 0,
        level: 2,
        experience: 10,
        created_at: 0,
        last_active: 0,
        status: Some(PlayerStatus::Away),
    }
}

#[test]
fn auth_state_accessors() {
    let state = AuthState::Authenticated(user());
    assert!(state.is_authenticated());
    assert_eq!(state.get_user().unwrap().username, "eve");
    assert!(state.get_error().is_none());
    let failed = AuthState::AuthenticationFailed("nope".to_string());
    assert!(!failed.is_authenticated());
    assert!(failed.get_user().is_none());
    assert_eq!(failed.get_error().unwrap().as_str(), "nope");
    assert_eq!(AuthState::default(), AuthState::Unauthenticated);
    assert!(!AuthState::Authenticating.is_authenticated());
}

#[test]
fn token_expiry_is_strict() {
    let token = AuthToken { token: "tok-1".to_string(), expires_at: 1000 };
    assert!(!token.is_expired_at(999));
    assert!(!token.is_expired_at(1000));
    assert!(token.is_expired_at(1001));
}

#[test]
fn login_validation() {
    let good = LoginCredentials { username: "ada".to_string(), password: "pw".to_string() };
    assert!(validate_login_credentials(&good));
    let blank_name = LoginCredentials { username: "   ".to_string(), password: "pw".to_string() };
    assert!(!validate_login_credentials(&blank_name));
    let no_password = LoginCredentials { username: "ada".to_string(), password: String::new() };
    assert!(!validate_login_credentials(&no_password));
}

#[test]
fn registration_validation() {
    let good = RegisterData {
        username: "ada".to_string(),
        email: "ada@example.test".to_string(),
        password: "hunter2".to_string(),
        display_name: "Ada".to_string(),
    };
    assert!(validate_registration(&good));
    let bad_email = RegisterData { email: "not-an-address".to_string(), ..good_clone(&good) };
    assert!(!validate_registration(&bad_email));
    let blank_display = RegisterData { display_name: " \t".to_string(), ..good_clone(&good) };
    assert!(!validate_registration(&blank_display));
    let empty_password = RegisterData { password: String::new(), ..good_clone(&good) };
    assert!(!validate_registration(&empty_password));
}

fn good_clone(r: &RegisterData) -> RegisterData {
    RegisterData {
        username: r.username.clone(),
        email: r.email.clone(),
        password: r.password.clone(),
        display_name: r.display_name.clone(),
    }
}

fn room(id: &str, game_type: GameType, big_blind: i64, current: u8, max: u8) -> RoomInfo {
    RoomInfo {
        id: id.to_string(),
        name: id.to_string(),
        game_type,
        current_players: current,
        max_players: max,
        small_blind: big_blind / 2,
        big_blind,
        min_buy_in: big_blind * 20,
        max_buy_in: big_blind * 200,
        is_private: false,
        is_active: true,
        created_at: 0,
    }
}

fn open_filter() -> RoomFilter {
    RoomFilter {
        min_stakes: None,
        max_stakes: None,
        max_players_filter: None,
        game_types: Vec::new(),
        show_full_rooms: true,
        show_empty_rooms: true,
    }
}

#[test]
fn open_filter_keeps_everything() {
    let rooms = vec![
        room("a", GameType::TexasHoldem, 10, 3, 6),
        room("b", GameType::Omaha, 100, 0, 9),
        room("c", GameType::SevenCardStud, 2, 9, 9),
    ];
    let kept = filter_rooms(&rooms, &open_filter());
    assert_eq!(kept.len(), 3);
    assert_eq!(kept[0].id, "a");
}

#[test]
fn stakes_bounds_filter() {
    let rooms = vec![
        room("low", GameType::TexasHoldem, 2, 1, 6),
        room("mid", GameType::TexasHoldem, 50, 1, 6),
        room("high", GameType::TexasHoldem, 500, 1, 6),
    ];
    let mut f = open_filter();
    f.min_stakes = Some(10);
    f.max_stakes = Some(100);
    let kept = filter_rooms(&rooms, &f);
    assert_eq!(kept.len(), 1);
    assert_eq!(kept[0].id, "mid");
}

#[test]
fn game_type_and_capacity_filter() {
    let rooms = vec![
        room("holdem6", GameType::TexasHoldem, 10, 2, 6),
        room("omaha6", GameType::Omaha, 10, 2, 6),
        room("holdem9", GameType::TexasHoldem, 10, 2, 9),
    ];
    let mut f = open_filter();
    f.game_types = vec![GameType::TexasHoldem];
    f.max_players_filter = Some(6);
    let kept = filter_rooms(&rooms, &f);
    assert_eq!(kept.len(), 1);
    assert_eq!(kept[0].id, "holdem6");
}

#[test]
fn empty_and_full_rooms_can_be_hidden() {
    let empty = room("empty", GameType::TexasHoldem, 10, 0, 6);
    let full = room("full", GameType::TexasHoldem, 10, 6, 6);
    let live = room("live", GameType::TexasHoldem, 10, 3, 6);
    let mut f = open_filter();
    f.show_empty_rooms = false;
    f.show_full_rooms = false;
    assert!(!passes_filter(&empty, &f));
    assert!(!passes_filter(&full, &f));
    assert!(passes_filter(&live, &f));
    let kept = filter_rooms(&vec![empty, full, live], &f);
    assert_eq!(kept.len(), 1);
    assert_eq!(kept[0].id, "live");
}
