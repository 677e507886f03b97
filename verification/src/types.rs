//! Core data types of the table model and the wire protocol.
//!
//! Every identifier and timestamp is a plain integer: player and user ids
//! are `u64`, instants are UTC milliseconds in an `i64`, and all monetary
//! fields are `i64` amounts in the smallest currency unit.

use vstd::prelude::*;

verus! {

/// Unique id of a player or user.
pub type PlayerId = u64;

/// A UTC instant, in milliseconds since the Unix epoch.
pub type Timestamp = i64;

#[derive(Debug, Clone, Copy, PartialEq, Eq, Structural)]
pub enum Suit {
    Hearts,
    Diamonds,
    Clubs,
    Spades,
}

#[derive(Debug, Clone, Copy, PartialEq, Eq, Structural)]
pub enum Rank {
    Two,
    Three,
    Four,
    Five,
    Six,
    Seven,
    Eight,
    Nine,
    Ten,
    Jack,
    Queen,
    King,
    Ace,
}

impl Rank {
    /// The numeric value of the rank, deuce low through ace high.
    pub open spec fn spec_value(self) -> u8 {
        match self {
            Rank::Two => 2,
            Rank::Three => 3,
            Rank::Four => 4,
            Rank::Five => 5,
            Rank::Six => 6,
            Rank::Seven => 7,
            Rank::Eight => 8,
            Rank::Nine => 9,
            Rank::Ten => 10,
            Rank::Jack => 11,
            Rank::Queen => 12,
            Rank::King => 13,
            Rank::Ace => 14,
        }
    }

    pub fn value(self) -> (v: u8)
        ensures
            v == self.spec_value(),
    {
        match self {
            Rank::Two => 2,
            Rank::Three => 3,
            Rank::Four => 4,
            Rank::Five => 5,
            Rank::Six => 6,
            Rank::Seven => 7,
            Rank::Eight => 8,
            Rank::Nine => 9,
            Rank::Ten => 10,
            Rank::Jack => 11,
            Rank::Queen => 12,
            Rank::King => 13,
            Rank::Ace => 14,
        }
    }
}

/// A card as the client sees it: the server deals `Unknown` for cards whose
/// face is hidden from this client.
#[derive(Debug, Clone, Copy, PartialEq, Eq, Structural)]
pub enum Card {
    Unknown,
    Card { suit: Suit, rank: Rank },
}

impl Default for Card {
    fn default() -> (r: Self)
        ensures
            r == Card::Unknown,
    {
        Card::Unknown
    }
}

#[derive(Debug, Clone, Copy, PartialEq, Eq, Structural)]
pub enum GameType {
    TexasHoldem,
    Omaha,
    OmahaHiLo,
    SevenCardStud,
}

impl Default for GameType {
    fn default() -> (r: Self)
        ensures
            r == GameType::TexasHoldem,
    {
        GameType::TexasHoldem
    }
}

#[derive(Debug, Clone, Copy, PartialEq, Eq, Structural)]
pub enum GamePhase {
    WaitingForPlayers,
    PreFlop,
    Flop,
    Turn,
    River,
    Showdown,
    HandComplete,
}

#[derive(Debug, Clone, Copy, PartialEq, Eq, Structural)]
pub enum PlayerAction {
    Fold,
    Check,
    Call,
    Bet(i64),
    Raise(i64),
    AllIn,
}

/// One action a player took in the current hand, as reported by the server.
#[derive(Debug, Clone, Copy, PartialEq, Eq, Structural)]
pub struct GameAction {
    pub player_id: PlayerId,
    pub action: PlayerAction,
    pub amount: i64,
    pub timestamp: Timestamp,
}

#[derive(Debug, Clone, Copy, PartialEq, Eq, Structural)]
pub enum HandType {
    HighCard,
    Pair,
    TwoPair,
    ThreeOfAKind,
    Straight,
    Flush,
    FullHouse,
    FourOfAKind,
    StraightFlush,
    RoyalFlush,
}

#[derive(Debug, Clone, Copy, PartialEq, Eq, Structural)]
pub enum PlayerStatus {
    Online,
    Playing,
    Away,
}

/// A settlement record paying `amount` to `player_id`.
#[derive(Debug, Clone, Copy, PartialEq, Eq, Structural)]
pub struct PotWinner {
    pub player_id: PlayerId,
    pub amount: i64,
}

/// One seated player as the server reports them.
#[derive(Debug, PartialEq)]
pub struct PlayerInfo {
    pub id: PlayerId,
    pub username: String,
    pub display_name: String,
    pub avatar_url: Option<String>,
    pub chips: i64,
    pub seat_position: u8,
    pub is_active: bool,
    pub is_dealer: bool,
    pub is_small_blind: bool,
    pub is_big_blind: bool,
    pub hand: Vec<Card>,
    pub current_bet: i64,
    pub is_all_in: bool,
    pub is_folded: bool,
    pub action_time_left: Option<i32>,
}

/// The mathematical value of a [`PlayerInfo`]: text as character sequences,
/// everything else as plain values.
#[verifier::ext_equal]
pub struct PlayerInfoV {
    pub id: PlayerId,
    pub username: Seq<char>,
    pub display_name: Seq<char>,
    pub avatar_url: Option<Seq<char>>,
    pub chips: i64,
    pub seat_position: u8,
    pub is_active: bool,
    pub is_dealer: bool,
    pub is_small_blind: bool,
    pub is_big_blind: bool,
    pub hand: Seq<Card>,
    pub current_bet: i64,
    pub is_all_in: bool,
    pub is_folded: bool,
    pub action_time_left: Option<i32>,
}

pub open spec fn opt_str_view(s: Option<String>) -> Option<Seq<char>> {
    match s {
        Option::Some(t) => Option::Some(t@),
        Option::None => Option::None,
    }
}

impl View for PlayerInfo {
    type V = PlayerInfoV;

    open spec fn view(&self) -> PlayerInfoV {
        PlayerInfoV {
            id: self.id,
            username: self.username@,
            display_name: self.display_name@,
            avatar_url: opt_str_view(self.avatar_url),
            chips: self.chips,
            seat_position: self.seat_position,
            is_active: self.is_active,
            is_dealer: self.is_dealer,
            is_small_blind: self.is_small_blind,
            is_big_blind: self.is_big_blind,
            hand: self.hand@,
            current_bet: self.current_bet,
            is_all_in: self.is_all_in,
            is_folded: self.is_folded,
            action_time_left: self.action_time_left,
        }
    }
}

/// A room in the lobby catalog: stakes, capacity and liveness.
#[derive(Debug, PartialEq)]
pub struct GameRoom {
    pub id: String,
    pub name: String,
    pub game_type: GameType,
    pub current_players: u8,
    pub max_players: u8,
    pub small_blind: i64,
    pub big_blind: i64,
    pub min_buy_in: i64,
    pub max_buy_in: i64,
    pub is_private: bool,
    pub is_active: bool,
    pub created_at: Timestamp,
}

/// Alias kept for callers that speak of the joined room.
pub type RoomInfo = GameRoom;

/// The mathematical value of a [`GameRoom`].
#[verifier::ext_equal]
pub struct GameRoomV {
    pub id: Seq<char>,
    pub name: Seq<char>,
    pub game_type: GameType,
    pub current_players: u8,
    pub max_players: u8,
    pub small_blind: i64,
    pub big_blind: i64,
    pub min_buy_in: i64,
    pub max_buy_in: i64,
    pub is_private: bool,
    pub is_active: bool,
    pub created_at: Timestamp,
}

impl View for GameRoom {
    type V = GameRoomV;

    open spec fn view(&self) -> GameRoomV {
        GameRoomV {
            id: self.id@,
            name: self.name@,
            game_type: self.game_type,
            current_players: self.current_players,
            max_players: self.max_players,
            small_blind: self.small_blind,
            big_blind: self.big_blind,
            min_buy_in: self.min_buy_in,
            max_buy_in: self.max_buy_in,
            is_private: self.is_private,
            is_active: self.is_active,
            created_at: self.created_at,
        }
    }
}

/// Requested settings for a room to be created.
#[derive(Debug, PartialEq)]
pub struct RoomConfig {
    pub name: String,
    pub game_type: GameType,
    pub max_players: u8,
    pub small_blind: i64,
    pub big_blind: i64,
    pub min_buy_in: i64,
    pub max_buy_in: i64,
    pub is_private: bool,
    pub password: Option<String>,
}

/// The mathematical value of a [`RoomConfig`].
#[verifier::ext_equal]
pub struct RoomConfigV {
    pub name: Seq<char>,
    pub game_type: GameType,
    pub max_players: u8,
    pub small_blind: i64,
    pub big_blind: i64,
    pub min_buy_in: i64,
    pub max_buy_in: i64,
    pub is_private: bool,
    pub password: Option<Seq<char>>,
}

impl View for RoomConfig {
    type V = RoomConfigV;

    open spec fn view(&self) -> RoomConfigV {
        RoomConfigV {
            name: self.name@,
            game_type: self.game_type,
            max_players: self.max_players,
            small_blind: self.small_blind,
            big_blind: self.big_blind,
            min_buy_in: self.min_buy_in,
            max_buy_in: self.max_buy_in,
            is_private: self.is_private,
            password: opt_str_view(self.password),
        }
    }
}

/// An authenticated user's profile as the server reports it.
#[derive(Debug, PartialEq)]
pub struct User {
    pub id: PlayerId,
    pub username: String,
    pub email: String,
    pub display_name: String,
    pub avatar_url: Option<String>,
    pub chips: i64,
    pub balance: i64,
    pub level: i32,
    pub experience: i64,
    pub created_at: Timestamp,
    pub last_active: Timestamp,
    pub status: Option<PlayerStatus>,
}

/// The mathematical value of a [`User`].
#[verifier::ext_equal]
pub struct UserV {
    pub id: PlayerId,
    pub username: Seq<char>,
    pub email: Seq<char>,
    pub display_name: Seq<char>,
    pub avatar_url: Option<Seq<char>>,
    pub chips: i64,
    pub balance: i64,
    pub level: i32,
    pub experience: i64,
    pub created_at: Timestamp,
    pub last_active: Timestamp,
    pub status: Option<PlayerStatus>,
}

impl View for User {
    type V = UserV;

    open spec fn view(&self) -> UserV {
        UserV {
            id: self.id,
            username: self.username@,
            email: self.email@,
            display_name: self.display_name@,
            avatar_url: opt_str_view(self.avatar_url),
            chips: self.chips,
            balance: self.balance,
            level: self.level,
            experience: self.experience,
            created_at: self.created_at,
            last_active: self.last_active,
            status: self.status,
        }
    }
}

/// A settlement record naming the winning hand shown down.
#[derive(Debug, PartialEq)]
pub struct HandWinner {
    pub player_id: PlayerId,
    pub hand_type: HandType,
    pub cards: Vec<Card>,
}

/// The mathematical value of a [`HandWinner`].
#[verifier::ext_equal]
pub struct HandWinnerV {
    pub player_id: PlayerId,
    pub hand_type: HandType,
    pub cards: Seq<Card>,
}

impl View for HandWinner {
    type V = HandWinnerV;

    open spec fn view(&self) -> HandWinnerV {
        HandWinnerV { player_id: self.player_id, hand_type: self.hand_type, cards: self.cards@ }
    }
}

/// The players of a roster vector, as mathematical values.
pub open spec fn views_of(s: Seq<PlayerInfo>) -> Seq<PlayerInfoV> {
    s.map_values(|p: PlayerInfo| p@)
}

/// The rooms of a catalog, as mathematical values.
pub open spec fn rooms_view(s: Seq<GameRoom>) -> Seq<GameRoomV> {
    s.map_values(|r: GameRoom| r@)
}

/// The settlement records of a showdown, as mathematical values.
pub open spec fn winners_view(s: Seq<HandWinner>) -> Seq<HandWinnerV> {
    s.map_values(|w: HandWinner| w@)
}

/// What the lobby lets a user narrow the room catalog by.
#[derive(Debug, PartialEq)]
pub struct RoomFilter {
    pub min_stakes: Option<i64>,
    pub max_stakes: Option<i64>,
    pub max_players_filter: Option<u8>,
    pub game_types: Vec<GameType>,
    pub show_full_rooms: bool,
    pub show_empty_rooms: bool,
}

/// The mathematical value of a [`RoomFilter`].
#[verifier::ext_equal]
pub struct RoomFilterV {
    pub min_stakes: Option<i64>,
    pub max_stakes: Option<i64>,
    pub max_players_filter: Option<u8>,
    pub game_types: Seq<GameType>,
    pub show_full_rooms: bool,
    pub show_empty_rooms: bool,
}

impl View for RoomFilter {
    type V = RoomFilterV;

    open spec fn view(&self) -> RoomFilterV {
        RoomFilterV {
            min_stakes: self.min_stakes,
            max_stakes: self.max_stakes,
            max_players_filter: self.max_players_filter,
            game_types: self.game_types@,
            show_full_rooms: self.show_full_rooms,
            show_empty_rooms: self.show_empty_rooms,
        }
    }
}

/// What a user types to sign in.
#[derive(Debug, PartialEq)]
pub struct LoginCredentials {
    pub username: String,
    pub password: String,
}

/// What a user submits to create an account.
#[derive(Debug, PartialEq)]
pub struct RegisterData {
    pub username: String,
    pub email: String,
    pub password: String,
    pub display_name: String,
}

/// The error taxonomy of the engine.  Decode and protocol errors are
/// reported and dropped; transport errors drive the reconnection policy;
/// authentication errors halt session progress.
#[derive(Debug, PartialEq)]
pub enum PokerError {
    NetworkError(String),
    AuthenticationError(String),
    GameError(String),
    SerializationError(String),
    WebSocketError(String),
    Unknown(String),
}

/// An outbound intent: what this client asks of the server.
#[derive(Debug, PartialEq)]
pub enum ClientMessage {
    Authenticate { token: String },
    JoinRoom { room_id: String },
    LeaveRoom,
    CreateRoom { room_config: RoomConfig },
    GetRoomList,
    PlayerAction { action: PlayerAction },
    RequestTimeExtension,
    SendMessage { message: String, room_id: Option<String> },
    Ping,
    Heartbeat,
}

/// The mathematical value of a [`ClientMessage`].
#[verifier::ext_equal]
pub enum ClientMessageV {
    Authenticate { token: Seq<char> },
    JoinRoom { room_id: Seq<char> },
    LeaveRoom,
    CreateRoom { room_config: RoomConfigV },
    GetRoomList,
    PlayerAction { action: PlayerAction },
    RequestTimeExtension,
    SendMessage { message: Seq<char>, room_id: Option<Seq<char>> },
    Ping,
    Heartbeat,
}

impl View for ClientMessage {
    type V = ClientMessageV;

    open spec fn view(&self) -> ClientMessageV {
        match self {
            ClientMessage::Authenticate { token } => ClientMessageV::Authenticate {
                token: token@,
            },
            ClientMessage::JoinRoom { room_id } => ClientMessageV::JoinRoom { room_id: room_id@ },
            ClientMessage::LeaveRoom => ClientMessageV::LeaveRoom,
            ClientMessage::CreateRoom { room_config } => ClientMessageV::CreateRoom {
                room_config: room_config@,
            },
            ClientMessage::GetRoomList => ClientMessageV::GetRoomList,
            ClientMessage::PlayerAction { action } => ClientMessageV::PlayerAction {
                action: *action,
            },
            ClientMessage::RequestTimeExtension => ClientMessageV::RequestTimeExtension,
            ClientMessage::SendMessage { message, room_id } => ClientMessageV::SendMessage {
                message: message@,
                room_id: opt_str_view(*room_id),
            },
            ClientMessage::Ping => ClientMessageV::Ping,
            ClientMessage::Heartbeat => ClientMessageV::Heartbeat,
        }
    }
}

/// An inbound event: what the server tells this client.
#[derive(Debug, PartialEq)]
pub enum ServerMessage {
    AuthenticationSuccess { user: User },
    AuthenticationFailed { error: String },
    RoomJoined { room: RoomInfo, players: Vec<PlayerInfo> },
    RoomLeft,
    RoomListUpdate { rooms: Vec<RoomInfo> },
    PlayerJoined { player: PlayerInfo },
    PlayerLeft { player_id: PlayerId },
    GameStateUpdate { phase: GamePhase, community_cards: Vec<Card>, pot: i64 },
    PlayerActionRequired { player_id: PlayerId, time_limit: i32 },
    PlayerActionUpdate { action: GameAction },
    HandResult { winners: Vec<HandWinner>, pot_distribution: Vec<PotWinner> },
    ChatMessage { player_id: PlayerId, username: String, message: String, timestamp: Timestamp },
    Pong,
    Error { message: String },
    Disconnect { reason: String },
}

/// The mathematical value of a [`ServerMessage`].
#[verifier::ext_equal]
pub enum ServerMessageV {
    AuthenticationSuccess { user: UserV },
    AuthenticationFailed { error: Seq<char> },
    RoomJoined { room: GameRoomV, players: Seq<PlayerInfoV> },
    RoomLeft,
    RoomListUpdate { rooms: Seq<GameRoomV> },
    PlayerJoined { player: PlayerInfoV },
    PlayerLeft { player_id: PlayerId },
    GameStateUpdate { phase: GamePhase, community_cards: Seq<Card>, pot: i64 },
    PlayerActionRequired { player_id: PlayerId, time_limit: i32 },
    PlayerActionUpdate { action: GameAction },
    HandResult { winners: Seq<HandWinnerV>, pot_distribution: Seq<PotWinner> },
    ChatMessage {
        player_id: PlayerId,
        username: Seq<char>,
        message: Seq<char>,
        timestamp: Timestamp,
    },
    Pong,
    Error { message: Seq<char> },
    Disconnect { reason: Seq<char> },
}

impl View for ServerMessage {
    type V = ServerMessageV;

    open spec fn view(&self) -> ServerMessageV {
        match self {
            ServerMessage::AuthenticationSuccess { user } => {
                ServerMessageV::AuthenticationSuccess { user: user@ }
            },
            ServerMessage::AuthenticationFailed { error } => {
                ServerMessageV::AuthenticationFailed { error: error@ }
            },
            ServerMessage::RoomJoined { room, players } => {
                ServerMessageV::RoomJoined { room: room@, players: views_of(players@) }
            },
            ServerMessage::RoomLeft => ServerMessageV::RoomLeft,
            ServerMessage::RoomListUpdate { rooms } => {
                ServerMessageV::RoomListUpdate { rooms: rooms_view(rooms@) }
            },
            ServerMessage::PlayerJoined { player } => {
                ServerMessageV::PlayerJoined { player: player@ }
            },
            ServerMessage::PlayerLeft { player_id } => {
                ServerMessageV::PlayerLeft { player_id: *player_id }
            },
            ServerMessage::GameStateUpdate { phase, community_cards, pot } => {
                ServerMessageV::GameStateUpdate {
                    phase: *phase,
                    community_cards: community_cards@,
                    pot: *pot,
                }
            },
            ServerMessage::PlayerActionRequired { player_id, time_limit } => {
                ServerMessageV::PlayerActionRequired {
                    player_id: *player_id,
                    time_limit: *time_limit,
                }
            },
            ServerMessage::PlayerActionUpdate { action } => {
                ServerMessageV::PlayerActionUpdate { action: *action }
            },
            ServerMessage::HandResult { winners, pot_distribution } => {
                ServerMessageV::HandResult {
                    winners: winners_view(winners@),
                    pot_distribution: pot_distribution@,
                }
            },
            ServerMessage::ChatMessage { player_id, username, message, timestamp } => {
                ServerMessageV::ChatMessage {
                    player_id: *player_id,
                    username: username@,
                    message: message@,
                    timestamp: *timestamp,
                }
            },
            ServerMessage::Pong => ServerMessageV::Pong,
            ServerMessage::Error { message } => ServerMessageV::Error { message: message@ },
            ServerMessage::Disconnect { reason } => {
                ServerMessageV::Disconnect { reason: reason@ }
            },
        }
    }
}

} // verus!
