//! The protocol dispatcher: the deterministic state machine that applies
//! inbound server events to the local table model and reports what
//! subscribers must be told.
//!
//! Events are applied one at a time in arrival order, each as one atomic
//! transition; a well-formed but semantically invalid event changes
//! nothing and is reported as dropped, so no error path can leave the
//! table model half-mutated.

use vstd::prelude::*;
use crate::connection::SessionState;
use crate::game::{
    apply_credits, board_len_ok, board_ok, credits_fit, credits_ok, has_id, is_reset_of, map_of,
    GameState,
};
use crate::types::{
    rooms_view, GamePhase, GameRoom, GameRoomV, PlayerId, ServerMessage, ServerMessageV,
    Timestamp, User, UserV,
};

verus! {

/// What subscribers are told after an event is applied.
#[derive(Debug, PartialEq)]
pub enum Notification {
    /// Authentication succeeded; the session is authenticated.
    AuthSucceeded,
    /// Authentication was rejected; the session is halted until the user
    /// authenticates again.
    AuthFailed { error: String },
    /// The table model changed.
    StateChanged,
    /// The lobby room catalog changed.
    LobbyUpdated,
    /// A chat line to show.
    Chat { player_id: PlayerId, username: String, message: String, timestamp: Timestamp },
    /// A server-reported business error; nothing changed.
    ErrorReported { message: String },
    /// The server closed the link; reconnection policy takes over.
    ConnectionLost { reason: String },
    /// A well-formed but semantically invalid event was dropped whole.
    ProtocolViolation,
}

/// The mathematical value of a [`Notification`].
#[verifier::ext_equal]
pub enum NotificationV {
    AuthSucceeded,
    AuthFailed { error: Seq<char> },
    StateChanged,
    LobbyUpdated,
    Chat { player_id: PlayerId, username: Seq<char>, message: Seq<char>, timestamp: Timestamp },
    ErrorReported { message: Seq<char> },
    ConnectionLost { reason: Seq<char> },
    ProtocolViolation,
}

impl View for Notification {
    type V = NotificationV;

    open spec fn view(&self) -> NotificationV {
        match self {
            Notification::AuthSucceeded => NotificationV::AuthSucceeded,
            Notification::AuthFailed { error } => NotificationV::AuthFailed { error: error@ },
            Notification::StateChanged => NotificationV::StateChanged,
            Notification::LobbyUpdated => NotificationV::LobbyUpdated,
            Notification::Chat { player_id, username, message, timestamp } => NotificationV::Chat {
                player_id: *player_id,
                username: username@,
                message: message@,
                timestamp: *timestamp,
            },
            Notification::ErrorReported { message } => NotificationV::ErrorReported {
                message: message@,
            },
            Notification::ConnectionLost { reason } => NotificationV::ConnectionLost {
                reason: reason@,
            },
            Notification::ProtocolViolation => NotificationV::ProtocolViolation,
        }
    }
}

/// The notifications of a batch, as mathematical values.
pub open spec fn notes_view(s: Seq<Notification>) -> Seq<NotificationV> {
    s.map_values(|x: Notification| x@)
}

/// A batch of exactly one notification.
fn single_note(n: Notification) -> (r: Vec<Notification>)
    ensures
        r@.len() == 1,
        notes_view(r@) =~= seq![n@],
{
    let mut v: Vec<Notification> = Vec::new();
    v.push(n);
    v
}

/// The dispatcher: session state, the table model, the lobby catalog and
/// the authenticated user.  All mutation happens inside [`Dispatcher::apply`],
/// one event at a time, so events take effect in strict arrival order.
#[derive(Debug, PartialEq)]
pub struct Dispatcher {
    pub session: SessionState,
    pub game: GameState,
    pub lobby: Vec<GameRoom>,
    pub user: Option<User>,
}

impl Dispatcher {
    pub open spec fn wf(self) -> bool {
        self.game.wf()
    }

    /// The authenticated user as a mathematical value, if any.
    pub open spec fn user_view(self) -> Option<UserV> {
        match self.user {
            Option::Some(u) => Option::Some(u@),
            Option::None => Option::None,
        }
    }

    pub fn new() -> (r: Self)
        ensures
            r.wf(),
            r.session == SessionState::Disconnected,
            r.game.is_empty_state(),
            r.lobby@.len() == 0,
            r.user is None,
    {
        Dispatcher {
            session: SessionState::Disconnected,
            game: GameState::new(),
            lobby: Vec::new(),
            user: None,
        }
    }

    /// A connection attempt has begun.
    pub fn connect_requested(&mut self)
        requires
            old(self).wf(),
        ensures
            final(self).wf(),
            final(self).session == SessionState::Connecting,
            final(self).game == old(self).game,
            final(self).lobby == old(self).lobby,
            final(self).user == old(self).user,
    {
        self.session = SessionState::Connecting;
    }

    /// The transport is up; the session still has to authenticate.
    pub fn connection_established(&mut self)
        requires
            old(self).wf(),
        ensures
            final(self).wf(),
            final(self).session == SessionState::ConnectedUnauthenticated,
            final(self).game == old(self).game,
            final(self).lobby == old(self).lobby,
            final(self).user == old(self).user,
    {
        self.session = SessionState::ConnectedUnauthenticated;
    }

    /// The link broke.  The table model is kept across a transient
    /// disconnect; only the session drops back.
    pub fn connection_lost(&mut self)
        requires
            old(self).wf(),
        ensures
            final(self).wf(),
            final(self).session == SessionState::Disconnected,
            final(self).game == old(self).game,
            final(self).lobby == old(self).lobby,
            final(self).user == old(self).user,
    {
        self.session = SessionState::Disconnected;
    }

    /// Apply one inbound server event to the local model, as one atomic
    /// transition, and say what subscribers must be told.  The transition
    /// for every event kind is pinned below; a well-formed but
    /// semantically invalid event — a board that does not fit the phase,
    /// an action with nobody to act, a settlement that would overflow a
    /// chip stack — changes nothing and is reported as dropped.
    pub fn apply(&mut self, msg: ServerMessage) -> (notes: Vec<Notification>)
        requires
            old(self).wf(),
        ensures
            final(self).wf(),
            msg@ matches ServerMessageV::AuthenticationSuccess { user } ==> {
                &&& final(self).session == SessionState::ConnectedAuthenticated
                &&& final(self).user_view() == Some(user)
                &&& final(self).game == old(self).game
                &&& final(self).lobby == old(self).lobby
                &&& notes_view(notes@) =~= seq![NotificationV::AuthSucceeded]
            },
            msg@ matches ServerMessageV::AuthenticationFailed { error } ==> {
                &&& final(self).session == SessionState::ConnectedUnauthenticated
                &&& final(self).user is None
                &&& final(self).game == old(self).game
                &&& final(self).lobby == old(self).lobby
                &&& notes_view(notes@) =~= seq![NotificationV::AuthFailed { error }]
            },
            msg@ matches ServerMessageV::RoomJoined { room, players } ==> {
                &&& final(self).game.room_view() == Some(room)
                &&& final(self).game.player_map() == map_of(players)
                &&& final(self).game.game_phase == GamePhase::WaitingForPlayers
                &&& final(self).game.community_cards@.len() == 0
                &&& final(self).game.pot == 0
                &&& final(self).game.side_pots@.len() == 0
                &&& final(self).game.current_bet == 0
                &&& final(self).game.dealer_position is None
                &&& final(self).game.active_player is None
                &&& final(self).game.last_action is None
                &&& final(self).game.hand_history@.len() == 0
                &&& final(self).game.hand_number == 0
                &&& final(self).game.time_bank is None
                &&& final(self).session == old(self).session
                &&& final(self).lobby == old(self).lobby
                &&& final(self).user == old(self).user
                &&& notes_view(notes@) =~= seq![NotificationV::StateChanged]
            },
            msg@ matches ServerMessageV::RoomLeft ==> {
                &&& final(self).game.is_empty_state()
                &&& final(self).session == old(self).session
                &&& final(self).lobby == old(self).lobby
                &&& final(self).user == old(self).user
                &&& notes_view(notes@) =~= seq![NotificationV::StateChanged]
            },
            msg@ matches ServerMessageV::RoomListUpdate { rooms } ==> {
                &&& rooms_view(final(self).lobby@) == rooms
                &&& final(self).game == old(self).game
                &&& final(self).session == old(self).session
                &&& final(self).user == old(self).user
                &&& notes_view(notes@) =~= seq![NotificationV::LobbyUpdated]
            },
            msg@ matches ServerMessageV::PlayerJoined { player } ==> {
                &&& final(self).game.player_map() == old(self).game.player_map().insert(
                    player.id,
                    player,
                )
                &&& final(self).game.current_room == old(self).game.current_room
                &&& final(self).game.game_phase == old(self).game.game_phase
                &&& final(self).game.community_cards == old(self).game.community_cards
                &&& final(self).game.pot == old(self).game.pot
                &&& final(self).game.side_pots == old(self).game.side_pots
                &&& final(self).game.current_bet == old(self).game.current_bet
                &&& final(self).game.dealer_position == old(self).game.dealer_position
                &&& final(self).game.active_player == old(self).game.active_player
                &&& final(self).game.last_action == old(self).game.last_action
                &&& final(self).game.hand_history == old(self).game.hand_history
                &&& final(self).game.hand_number == old(self).game.hand_number
                &&& final(self).game.time_bank == old(self).game.time_bank
                &&& final(self).session == old(self).session
                &&& final(self).lobby == old(self).lobby
                &&& final(self).user == old(self).user
                &&& notes_view(notes@) =~= seq![NotificationV::StateChanged]
            },
            msg@ matches ServerMessageV::PlayerLeft { player_id } ==> {
                &&& final(self).game.player_map() == old(self).game.player_map().remove(
                    player_id,
                )
                &&& (!has_id(old(self).game.roster(), player_id) ==> final(self).game == old(
                    self,
                ).game)
                &&& forall|i: int|
                    0 <= i < old(self).game.roster().len() && #[trigger] old(
                        self,
                    ).game.roster()[i].id == player_id ==> {
                        &&& final(self).game.active_player == (if old(self).game.active_player
                            == Some(player_id) {
                            Option::<PlayerId>::None
                        } else {
                            old(self).game.active_player
                        })
                        &&& final(self).game.dealer_position == (if old(
                            self,
                        ).game.dealer_position == Some(old(self).game.roster()[i].seat_position) {
                            Option::<u8>::None
                        } else {
                            old(self).game.dealer_position
                        })
                    }
                &&& final(self).game.current_room == old(self).game.current_room
                &&& final(self).game.game_phase == old(self).game.game_phase
                &&& final(self).game.community_cards == old(self).game.community_cards
                &&& final(self).game.pot == old(self).game.pot
                &&& final(self).game.side_pots == old(self).game.side_pots
                &&& final(self).game.current_bet == old(self).game.current_bet
                &&& final(self).game.last_action == old(self).game.last_action
                &&& final(self).game.hand_history == old(self).game.hand_history
                &&& final(self).game.hand_number == old(self).game.hand_number
                &&& final(self).game.time_bank == old(self).game.time_bank
                &&& final(self).session == old(self).session
                &&& final(self).lobby == old(self).lobby
                &&& final(self).user == old(self).user
                &&& notes_view(notes@) =~= seq![NotificationV::StateChanged]
            },
            msg@ matches ServerMessageV::GameStateUpdate { phase, community_cards, pot } ==> (
            if board_ok(phase, community_cards.len()) {
                &&& final(self).game.game_phase == phase
                &&& final(self).game.community_cards@ == community_cards
                &&& final(self).game.pot == pot
                &&& final(self).game.players == old(self).game.players
                &&& final(self).game.current_room == old(self).game.current_room
                &&& final(self).game.side_pots == old(self).game.side_pots
                &&& final(self).game.current_bet == old(self).game.current_bet
                &&& final(self).game.dealer_position == old(self).game.dealer_position
                &&& final(self).game.active_player == old(self).game.active_player
                &&& final(self).game.last_action == old(self).game.last_action
                &&& final(self).game.hand_history == old(self).game.hand_history
                &&& final(self).game.hand_number == old(self).game.hand_number
                &&& final(self).game.time_bank == old(self).game.time_bank
                &&& final(self).session == old(self).session
                &&& final(self).lobby == old(self).lobby
                &&& final(self).user == old(self).user
                &&& notes_view(notes@) =~= seq![NotificationV::StateChanged]
            } else {
                &&& *final(self) == *old(self)
                &&& notes_view(notes@) =~= seq![NotificationV::ProtocolViolation]
            }),
            msg@ matches ServerMessageV::PlayerActionRequired { player_id, time_limit } ==> (
            if old(self).game.spec_is_in_hand() && has_id(old(self).game.roster(), player_id) {
                &&& final(self).game.active_player == Some(player_id)
                &&& final(self).game.time_bank == Some(time_limit)
                &&& final(self).game.players == old(self).game.players
                &&& final(self).game.current_room == old(self).game.current_room
                &&& final(self).game.game_phase == old(self).game.game_phase
                &&& final(self).game.community_cards == old(self).game.community_cards
                &&& final(self).game.pot == old(self).game.pot
                &&& final(self).game.side_pots == old(self).game.side_pots
                &&& final(self).game.current_bet == old(self).game.current_bet
                &&& final(self).game.dealer_position == old(self).game.dealer_position
                &&& final(self).game.last_action == old(self).game.last_action
                &&& final(self).game.hand_history == old(self).game.hand_history
                &&& final(self).game.hand_number == old(self).game.hand_number
                &&& final(self).session == old(self).session
                &&& final(self).lobby == old(self).lobby
                &&& final(self).user == old(self).user
                &&& notes_view(notes@) =~= seq![NotificationV::StateChanged]
            } else {
                &&& *final(self) == *old(self)
                &&& notes_view(notes@) =~= seq![NotificationV::ProtocolViolation]
            }),
            msg@ matches ServerMessageV::PlayerActionUpdate { action } ==> (
            if old(self).game.active_player is Some {
                &&& final(self).game.hand_history@ == old(self).game.hand_history@.push(action)
                &&& final(self).game.last_action == Some(action)
                &&& final(self).game.players == old(self).game.players
                &&& final(self).game.current_room == old(self).game.current_room
                &&& final(self).game.game_phase == old(self).game.game_phase
                &&& final(self).game.community_cards == old(self).game.community_cards
                &&& final(self).game.pot == old(self).game.pot
                &&& final(self).game.side_pots == old(self).game.side_pots
                &&& final(self).game.current_bet == old(self).game.current_bet
                &&& final(self).game.dealer_position == old(self).game.dealer_position
                &&& final(self).game.active_player == old(self).game.active_player
                &&& final(self).game.hand_number == old(self).game.hand_number
                &&& final(self).game.time_bank == old(self).game.time_bank
                &&& final(self).session == old(self).session
                &&& final(self).lobby == old(self).lobby
                &&& final(self).user == old(self).user
                &&& notes_view(notes@) =~= seq![NotificationV::StateChanged]
            } else {
                &&& *final(self) == *old(self)
                &&& notes_view(notes@) =~= seq![NotificationV::ProtocolViolation]
            }),
            msg@ matches ServerMessageV::HandResult { winners, pot_distribution } ==> (
            if credits_ok(old(self).game.roster(), pot_distribution) && old(
                self,
            ).game.hand_number < u32::MAX {
                &&& final(self).game.roster().len() == old(self).game.roster().len()
                &&& (forall|i: int|
                    0 <= i < final(self).game.roster().len() ==> is_reset_of(
                        #[trigger] final(self).game.roster()[i],
                        apply_credits(old(self).game.roster(), pot_distribution)[i],
                    ))
                &&& final(self).game.game_phase == GamePhase::WaitingForPlayers
                &&& final(self).game.community_cards@.len() == 0
                &&& final(self).game.pot == 0
                &&& final(self).game.side_pots@.len() == 0
                &&& final(self).game.current_bet == 0
                &&& final(self).game.active_player is None
                &&& final(self).game.last_action is None
                &&& final(self).game.hand_history@.len() == 0
                &&& final(self).game.hand_number == old(self).game.hand_number + 1
                &&& final(self).game.time_bank is None
                &&& final(self).game.current_room == old(self).game.current_room
                &&& final(self).game.dealer_position == old(self).game.dealer_position
                &&& final(self).session == old(self).session
                &&& final(self).lobby == old(self).lobby
                &&& final(self).user == old(self).user
                &&& notes_view(notes@) =~= seq![NotificationV::StateChanged]
            } else {
                &&& *final(self) == *old(self)
                &&& notes_view(notes@) =~= seq![NotificationV::ProtocolViolation]
            }),
            msg@ matches ServerMessageV::ChatMessage { player_id, username, message, timestamp }
                ==> {
                &&& *final(self) == *old(self)
                &&& notes_view(notes@) =~= seq![NotificationV::Chat {
                    player_id,
                    username,
                    message,
                    timestamp,
                }]
            },
            msg@ matches ServerMessageV::Pong ==> {
                &&& *final(self) == *old(self)
                &&& notes@.len() == 0
            },
            msg@ matches ServerMessageV::Error { message } ==> {
                &&& *final(self) == *old(self)
                &&& notes_view(notes@) =~= seq![NotificationV::ErrorReported { message }]
            },
            msg@ matches ServerMessageV::Disconnect { reason } ==> {
                &&& final(self).session == SessionState::Disconnected
                &&& final(self).game == old(self).game
                &&& final(self).lobby == old(self).lobby
                &&& final(self).user == old(self).user
                &&& notes_view(notes@) =~= seq![NotificationV::ConnectionLost { reason }]
            },
    {
        match msg {
            ServerMessage::AuthenticationSuccess { user } => {
                self.session = SessionState::ConnectedAuthenticated;
                self.user = Some(user);
                single_note(Notification::AuthSucceeded)
            },
            ServerMessage::AuthenticationFailed { error } => {
                self.session = SessionState::ConnectedUnauthenticated;
                self.user = None;
                single_note(Notification::AuthFailed { error })
            },
            ServerMessage::RoomJoined { room, players } => {
                self.game.leave_room();
                self.game.join_room(room, players);
                single_note(Notification::StateChanged)
            },
            ServerMessage::RoomLeft => {
                self.game.leave_room();
                single_note(Notification::StateChanged)
            },
            ServerMessage::RoomListUpdate { rooms } => {
                self.lobby = rooms;
                single_note(Notification::LobbyUpdated)
            },
            ServerMessage::PlayerJoined { player } => {
                self.game.add_player(player);
                single_note(Notification::StateChanged)
            },
            ServerMessage::PlayerLeft { player_id } => {
                self.game.remove_player(player_id);
                single_note(Notification::StateChanged)
            },
            ServerMessage::GameStateUpdate { phase, community_cards, pot } => {
                if board_len_ok(phase, community_cards.len()) {
                    self.game.update_game_phase(phase, community_cards, pot);
                    single_note(Notification::StateChanged)
                } else {
                    single_note(Notification::ProtocolViolation)
                }
            },
            ServerMessage::PlayerActionRequired { player_id, time_limit } => {
                if self.game.is_in_hand() && self.game.has_player(player_id) {
                    self.game.set_active_player(Some(player_id), Some(time_limit));
                    single_note(Notification::StateChanged)
                } else {
                    single_note(Notification::ProtocolViolation)
                }
            },
            ServerMessage::PlayerActionUpdate { action } => {
                let acting = match self.game.active_player {
                    Some(_) => true,
                    None => false,
                };
                if acting {
                    self.game.add_action(action);
                    single_note(Notification::StateChanged)
                } else {
                    single_note(Notification::ProtocolViolation)
                }
            },
            ServerMessage::HandResult { winners, pot_distribution } => {
                let fits = credits_fit(&self.game.players, &pot_distribution);
                if fits && self.game.hand_number < u32::MAX {
                    self.game.complete_hand(winners, pot_distribution);
                    single_note(Notification::StateChanged)
                } else {
                    single_note(Notification::ProtocolViolation)
                }
            },
            ServerMessage::ChatMessage { player_id, username, message, timestamp } => {
                single_note(
                    Notification::Chat { player_id, username, message, timestamp },
                )
            },
            ServerMessage::Pong => Vec::new(),
            ServerMessage::Error { message } => {
                single_note(Notification::ErrorReported { message })
            },
            ServerMessage::Disconnect { reason } => {
                self.session = SessionState::Disconnected;
                single_note(Notification::ConnectionLost { reason })
            },
        }
    }

    /// The user logged out: the session ends and the table model is wiped.
    pub fn logout(&mut self)
        requires
            old(self).wf(),
        ensures
            final(self).wf(),
            final(self).session == SessionState::Disconnected,
            final(self).game.is_empty_state(),
            final(self).user is None,
            final(self).lobby == old(self).lobby,
    {
        self.session = SessionState::Disconnected;
        self.user = None;
        self.game.leave_room();
    }
}

/// The board is bounded: a well-formed client never shows more than the
/// five community cards a hand can have, and every applied event
/// preserves well-formedness — so no sequence of replayed game-state
/// updates can push the board past five.
pub proof fn lemma_board_bounded(d: Dispatcher)
    requires
        d.wf(),
    ensures
        d.game.community_cards@.len() <= 5,
{
}

/// Events take effect in arrival order.  When a game-state update is
/// applied and an action request is applied after it, the state between
/// the two already shows the new phase with the turn untouched; only the
/// second step hands the turn over, and it keeps the phase.  The
/// hypotheses are exactly what [`Dispatcher::apply`] ensures of the two
/// steps.
pub proof fn lemma_ordering(
    s0: Dispatcher,
    s1: Dispatcher,
    s2: Dispatcher,
    phase: GamePhase,
    player_id: PlayerId,
)
    requires
        s1.game.game_phase == phase,
        s1.game.active_player == s0.game.active_player,
        s2.game.game_phase == s1.game.game_phase,
        s2.game.active_player == Some(player_id),
    ensures
        s1.game.game_phase == phase && s1.game.active_player == s0.game.active_player,
        s2.game.game_phase == phase && s2.game.active_player == Some(player_id),
{
}

} // verus!
