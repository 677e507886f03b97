//! The local table model and its mutations.
//!
//! A [`GameState`] is the client's authoritative-as-observed view of one
//! room and hand.  The roster of seated players is kept as a vector whose
//! ids are unique; its mathematical reading is the finite map from player
//! id to player ([`map_of`]), which is what the contracts speak of.
//! Storage order carries no meaning — only seat positions do.

use vstd::prelude::*;
use vstd::map::*;
use crate::types::{
    opt_str_view, views_of, Card, GameAction, GamePhase, GameRoomV, HandWinner, PlayerId,
    PlayerInfo, PlayerInfoV, PotWinner, RoomInfo,
};

verus! {

/// A sub-pot with a restricted set of eligible winners, created when a
/// player goes all-in for less than the full bet.
#[derive(Debug, PartialEq)]
pub struct SidePot {
    pub amount: i64,
    pub eligible_players: Vec<PlayerId>,
}

/// The mathematical value of a [`SidePot`].
#[verifier::ext_equal]
pub struct SidePotV {
    pub amount: i64,
    pub eligible_players: Seq<PlayerId>,
}

impl View for SidePot {
    type V = SidePotV;

    open spec fn view(&self) -> SidePotV {
        SidePotV { amount: self.amount, eligible_players: self.eligible_players@ }
    }
}

pub proof fn lemma_views_update(s: Seq<PlayerInfo>, i: int, p: PlayerInfo)
    requires
        0 <= i < s.len(),
    ensures
        views_of(s.update(i, p)) =~= views_of(s).update(i, p@),
{
}

pub proof fn lemma_views_push(s: Seq<PlayerInfo>, p: PlayerInfo)
    ensures
        views_of(s.push(p)) =~= views_of(s).push(p@),
{
}

pub proof fn lemma_views_remove(s: Seq<PlayerInfo>, i: int)
    requires
        0 <= i < s.len(),
    ensures
        views_of(s.remove(i)) =~= views_of(s).remove(i),
{
}

/// No two entries of the roster carry the same id.
pub open spec fn ids_unique(s: Seq<PlayerInfoV>) -> bool {
    forall|i: int, j: int| #![trigger s[i].id, s[j].id]
        0 <= i < j < s.len() ==> s[i].id != s[j].id
}

/// Some entry of the roster carries this id.
pub open spec fn has_id(s: Seq<PlayerInfoV>, id: PlayerId) -> bool {
    exists|i: int| 0 <= i < s.len() && #[trigger] s[i].id == id
}

/// The roster read as a finite map from id to player.  A later entry with
/// the same id overrides an earlier one, which is the upsert order the
/// mutations use; on a roster with unique ids the order is immaterial.
pub open spec fn map_of(s: Seq<PlayerInfoV>) -> Map<PlayerId, PlayerInfoV>
    decreases s.len(),
{
    if s.len() == 0 {
        Map::empty()
    } else {
        map_of(s.drop_last()).insert(s.last().id, s.last())
    }
}

/// The domain of [`map_of`] is exactly the set of ids on the roster.
pub proof fn lemma_map_of_contains(s: Seq<PlayerInfoV>, id: PlayerId)
    ensures
        map_of(s).contains_key(id) <==> has_id(s, id),
    decreases s.len(),
{
    if s.len() > 0 {
        lemma_map_of_contains(s.drop_last(), id);
        if s.last().id == id {
            assert(s[s.len() - 1].id == id);
        } else if has_id(s.drop_last(), id) {
            let i = choose|i: int| 0 <= i < s.drop_last().len() && s.drop_last()[i].id == id;
            assert(s[i].id == id);
        } else if has_id(s, id) {
            let i = choose|i: int| 0 <= i < s.len() && s[i].id == id;
            assert(i < s.len() - 1);
            assert(s.drop_last()[i].id == id);
        }
    }
}

/// Replacing the entry at `i` with a same-id player is a map insert.
pub proof fn lemma_map_of_update(s: Seq<PlayerInfoV>, i: int, p: PlayerInfoV)
    requires
        ids_unique(s),
        0 <= i < s.len(),
        p.id == s[i].id,
    ensures
        map_of(s.update(i, p)) =~= map_of(s).insert(p.id, p),
    decreases s.len(),
{
    if i == s.len() - 1 {
        assert(s.update(i, p).drop_last() =~= s.drop_last());
        assert(s.update(i, p).last() == p);
    } else {
        assert(s.update(i, p).drop_last() =~= s.drop_last().update(i, p));
        assert(s.drop_last()[i] == s[i]);
        lemma_map_of_update(s.drop_last(), i, p);
        assert(s.update(i, p).last() == s.last());
        assert(s[i].id != s.last().id);
    }
}

/// Appending a player is a map insert.
pub proof fn lemma_map_of_push(s: Seq<PlayerInfoV>, p: PlayerInfoV)
    ensures
        map_of(s.push(p)) == map_of(s).insert(p.id, p),
{
    assert(s.push(p).drop_last() =~= s);
    assert(s.push(p).last() == p);
}

/// Deleting the entry at `i` is a map remove, when ids are unique.
pub proof fn lemma_map_of_remove(s: Seq<PlayerInfoV>, i: int)
    requires
        ids_unique(s),
        0 <= i < s.len(),
    ensures
        map_of(s.remove(i)) =~= map_of(s).remove(s[i].id),
    decreases s.len(),
{
    if i == s.len() - 1 {
        assert(s.remove(i) =~= s.drop_last());
        lemma_map_of_contains(s.drop_last(), s[i].id);
        assert(!has_id(s.drop_last(), s[i].id)) by {
            if has_id(s.drop_last(), s[i].id) {
                let j = choose|j: int|
                    0 <= j < s.drop_last().len() && s.drop_last()[j].id == s[i].id;
                assert(s[j].id == s[i].id);
            }
        }
        assert(map_of(s.drop_last()) =~= map_of(s).remove(s[i].id));
    } else {
        assert(s.remove(i).drop_last() =~= s.drop_last().remove(i));
        assert(s.drop_last()[i] == s[i]);
        lemma_map_of_remove(s.drop_last(), i);
        assert(s.remove(i).last() == s.last());
        assert(s[i].id != s.last().id);
    }
}

/// Removing an entry keeps the remaining ids unique.
pub proof fn lemma_unique_remove(s: Seq<PlayerInfoV>, i: int)
    requires
        ids_unique(s),
        0 <= i < s.len(),
    ensures
        ids_unique(s.remove(i)),
{
    assert forall|a: int, b: int| #![trigger s.remove(i)[a].id, s.remove(i)[b].id]
        0 <= a < b < s.remove(i).len() implies s.remove(i)[a].id != s.remove(i)[b].id by {
        let a0 = if a < i { a } else { a + 1 };
        let b0 = if b < i { b } else { b + 1 };
        assert(s.remove(i)[a] == s[a0]);
        assert(s.remove(i)[b] == s[b0]);
    }
}

/// A player join is idempotent: upserting the same player under the same
/// id twice leaves exactly the player mapping that one upsert leaves, so
/// replaying a join changes nothing.
pub proof fn lemma_player_join_idempotent(m: Map<PlayerId, PlayerInfoV>, p: PlayerInfoV)
    ensures
        m.insert(p.id, p).insert(p.id, p) == m.insert(p.id, p),
{
    assert(m.insert(p.id, p).insert(p.id, p) =~= m.insert(p.id, p));
}

/// A room join is a full resync: the player mapping built from the
/// incoming list contains an id exactly when the list carries it, so no
/// player tracked before the join can survive it.
pub proof fn lemma_full_resync(players: Seq<PlayerInfoV>, id: PlayerId)
    ensures
        map_of(players).contains_key(id) <==> has_id(players, id),
{
    lemma_map_of_contains(players, id);
}

/// Upserting one entry after another is a stepwise map insert.
pub proof fn lemma_map_of_take_step(s: Seq<PlayerInfoV>, k: int)
    requires
        0 <= k < s.len(),
    ensures
        map_of(s.take(k + 1)) == map_of(s.take(k)).insert(s[k].id, s[k]),
{
    assert(s.take(k + 1).drop_last() =~= s.take(k));
    assert(s.take(k + 1).last() == s[k]);
}

/// How many community cards each phase shows: none before the flop, three
/// on the flop, four on the turn, five from the river on.
pub open spec fn board_ok(phase: GamePhase, n: nat) -> bool {
    match phase {
        GamePhase::WaitingForPlayers => n == 0,
        GamePhase::PreFlop => n == 0,
        GamePhase::Flop => n == 3,
        GamePhase::Turn => n == 4,
        GamePhase::River => n == 5,
        GamePhase::Showdown => n == 5,
        GamePhase::HandComplete => n <= 5,
    }
}

/// The runtime check matching [`board_ok`].
pub fn board_len_ok(phase: GamePhase, n: usize) -> (r: bool)
    ensures
        r == board_ok(phase, n as nat),
{
    match phase {
        GamePhase::WaitingForPlayers => n == 0,
        GamePhase::PreFlop => n == 0,
        GamePhase::Flop => n == 3,
        GamePhase::Turn => n == 4,
        GamePhase::River => n == 5,
        GamePhase::Showdown => n == 5,
        GamePhase::HandComplete => n <= 5,
    }
}

/// One settlement credit applied to the roster: the winner's chip stack
/// grows by the awarded amount; an id that is not seated credits nobody.
pub open spec fn credit_one(s: Seq<PlayerInfoV>, w: PotWinner) -> Seq<PlayerInfoV> {
    if has_id(s, w.player_id) {
        let i = choose|i: int| 0 <= i < s.len() && #[trigger] s[i].id == w.player_id;
        s.update(i, PlayerInfoV { chips: (s[i].chips + w.amount) as i64, ..s[i] })
    } else {
        s
    }
}

/// The roster after a whole pot distribution, credited in order.
pub open spec fn apply_credits(s: Seq<PlayerInfoV>, d: Seq<PotWinner>) -> Seq<PlayerInfoV>
    decreases d.len(),
{
    if d.len() == 0 {
        s
    } else {
        credit_one(apply_credits(s, d.drop_last()), d.last())
    }
}

/// The next credit stays within the chip stack's machine range.
pub open spec fn credit_fits(s: Seq<PlayerInfoV>, w: PotWinner) -> bool {
    has_id(s, w.player_id) ==> {
        let i = choose|i: int| 0 <= i < s.len() && #[trigger] s[i].id == w.player_id;
        i64::MIN <= s[i].chips + w.amount <= i64::MAX
    }
}

/// Every intermediate chip stack along the distribution stays in range.
pub open spec fn credits_ok(s: Seq<PlayerInfoV>, d: Seq<PotWinner>) -> bool
    decreases d.len(),
{
    d.len() == 0 || (credits_ok(s, d.drop_last()) && credit_fits(
        apply_credits(s, d.drop_last()),
        d.last(),
    ))
}

/// Crediting at the seated winner's index is a pointwise update.
pub proof fn lemma_credit_one_at(s: Seq<PlayerInfoV>, i: int, w: PotWinner)
    requires
        ids_unique(s),
        0 <= i < s.len(),
        s[i].id == w.player_id,
    ensures
        credit_one(s, w) == s.update(
            i,
            PlayerInfoV { chips: (s[i].chips + w.amount) as i64, ..s[i] },
        ),
{
    assert(has_id(s, w.player_id));
    let j = choose|j: int| 0 <= j < s.len() && #[trigger] s[j].id == w.player_id;
    if j != i {
        assert(s[i].id != s[j].id);
    }
}

/// Crediting never moves, adds or renames entries.
pub proof fn lemma_credit_one_shape(s: Seq<PlayerInfoV>, w: PotWinner)
    ensures
        credit_one(s, w).len() == s.len(),
        forall|j: int| 0 <= j < s.len() ==> #[trigger] credit_one(s, w)[j].id == s[j].id,
{
}

/// Neither does a whole distribution.
pub proof fn lemma_apply_credits_shape(s: Seq<PlayerInfoV>, d: Seq<PotWinner>)
    ensures
        apply_credits(s, d).len() == s.len(),
        forall|j: int| 0 <= j < s.len() ==> #[trigger] apply_credits(s, d)[j].id == s[j].id,
        ids_unique(s) ==> ids_unique(apply_credits(s, d)),
    decreases d.len(),
{
    if d.len() > 0 {
        lemma_apply_credits_shape(s, d.drop_last());
        lemma_credit_one_shape(apply_credits(s, d.drop_last()), d.last());
    }
    if ids_unique(s) {
        let t = apply_credits(s, d);
        assert forall|a: int, b: int| #![trigger t[a].id, t[b].id]
            0 <= a < b < t.len() implies t[a].id != t[b].id by {
            assert(s[a].id != s[b].id);
        }
    }
}

/// In-range credits stay in range along every prefix of the distribution.
pub proof fn lemma_credits_ok_take(s: Seq<PlayerInfoV>, d: Seq<PotWinner>, k: int)
    requires
        credits_ok(s, d),
        0 <= k <= d.len(),
    ensures
        credits_ok(s, d.take(k)),
    decreases d.len(),
{
    if k == d.len() {
        assert(d.take(k) =~= d);
    } else {
        assert(d.drop_last().take(k) =~= d.take(k));
        lemma_credits_ok_take(s, d.drop_last(), k);
    }
}

/// Crediting one more winner is one more [`credit_one`] step.
pub proof fn lemma_apply_credits_step(s: Seq<PlayerInfoV>, d: Seq<PotWinner>, k: int)
    requires
        0 <= k < d.len(),
    ensures
        apply_credits(s, d.take(k + 1)) == credit_one(apply_credits(s, d.take(k)), d[k]),
        credits_ok(s, d.take(k + 1)) == (credits_ok(s, d.take(k)) && credit_fits(
            apply_credits(s, d.take(k)),
            d[k],
        )),
{
    assert(d.take(k + 1).drop_last() =~= d.take(k));
    assert(d.take(k + 1).last() == d[k]);
}

/// `p` is `q` with every per-hand field cleared: hole cards gone, bet
/// zeroed, fold and all-in flags down, countdown stopped.
pub open spec fn is_reset_of(p: PlayerInfoV, q: PlayerInfoV) -> bool {
    &&& p.id == q.id
    &&& p.username == q.username
    &&& p.display_name == q.display_name
    &&& p.avatar_url == q.avatar_url
    &&& p.chips == q.chips
    &&& p.seat_position == q.seat_position
    &&& p.is_active == q.is_active
    &&& p.is_dealer == q.is_dealer
    &&& p.is_small_blind == q.is_small_blind
    &&& p.is_big_blind == q.is_big_blind
    &&& p.hand =~= Seq::<Card>::empty()
    &&& p.current_bet == 0
    &&& !p.is_all_in
    &&& !p.is_folded
    &&& p.action_time_left is None
}

/// Locate an id in a plain id column, if present.
fn find_id_index(v: &Vec<PlayerId>, id: PlayerId) -> (r: Option<usize>)
    ensures
        match r {
            Some(i) => i < v@.len() && v@[i as int] == id,
            None => forall|j: int| 0 <= j < v@.len() ==> v@[j] != id,
        },
{
    let n = v.len();
    let mut i: usize = 0;
    while i < n
        invariant
            n == v@.len(),
            i <= n,
            forall|j: int| 0 <= j < i ==> v@[j] != id,
        decreases n - i,
    {
        if v[i] == id {
            return Some(i);
        }
        i += 1;
    }
    None
}

/// Whether the whole pot distribution can be credited without any chip
/// stack leaving the machine range.  A distribution that fails this guard
/// is semantically invalid and must be dropped whole, never half-applied.
pub fn credits_fit(players: &Vec<PlayerInfo>, dist: &Vec<PotWinner>) -> (r: bool)
    requires
        ids_unique(views_of(players@)),
    ensures
        r == credits_ok(views_of(players@), dist@),
{
    let ghost s0 = views_of(players@);
    let mut ids: Vec<PlayerId> = Vec::new();
    let mut chips: Vec<i64> = Vec::new();
    let n = players.len();
    let mut j: usize = 0;
    while j < n
        invariant
            ids_unique(s0),
            s0 == views_of(players@),
            j <= n,
            n == players@.len(),
            ids@.len() == j,
            chips@.len() == j,
            forall|t: int| 0 <= t < j ==> #[trigger] ids@[t] == views_of(players@)[t].id,
            forall|t: int| 0 <= t < j ==> #[trigger] chips@[t] == views_of(players@)[t].chips,
        decreases n - j,
    {
        ids.push(players[j].id);
        chips.push(players[j].chips);
        j += 1;
    }
    let m = dist.len();
    let mut k: usize = 0;
    proof {
        assert(dist@.take(0) =~= Seq::<PotWinner>::empty());
        assert(apply_credits(s0, dist@.take(0)) == s0);
    }
    while k < m
        invariant
            ids_unique(s0),
            s0 == views_of(players@),
            m == dist@.len(),
            k <= m,
            ids@.len() == s0.len(),
            chips@.len() == s0.len(),
            credits_ok(s0, dist@.take(k as int)),
            forall|t: int| 0 <= t < s0.len() ==> #[trigger] ids@[t] == s0[t].id,
            forall|t: int|
                0 <= t < s0.len() ==> #[trigger] chips@[t] == apply_credits(
                    s0,
                    dist@.take(k as int),
                )[t].chips,
        decreases m - k,
    {
        let w = dist[k];
        let ghost cur = apply_credits(s0, dist@.take(k as int));
        proof {
            lemma_apply_credits_step(s0, dist@, k as int);
            lemma_apply_credits_shape(s0, dist@.take(k as int));
        }
        match find_id_index(&ids, w.player_id) {
            Some(i) => {
                proof {
                    assert(cur[i as int].id == w.player_id);
                    assert(has_id(cur, w.player_id));
                    lemma_credit_one_at(cur, i as int, w);
                    let q = choose|q: int| 0 <= q < cur.len() && #[trigger] cur[q].id
                        == w.player_id;
                    if q != i as int {
                        assert(cur[q].id != cur[i as int].id);
                    }
                    assert(chips@[i as int] == cur[i as int].chips);
                }
                let sum: i128 = chips[i] as i128 + w.amount as i128;
                if sum < i64::MIN as i128 || sum > i64::MAX as i128 {
                    proof {
                        assert(!credit_fits(cur, w));
                        if credits_ok(s0, dist@) {
                            lemma_credits_ok_take(s0, dist@, k as int + 1);
                        }
                    }
                    return false;
                }
                chips.set(i, sum as i64);
                proof {
                    assert(credit_fits(cur, w));
                    let next = apply_credits(s0, dist@.take(k as int + 1));
                    assert(next == cur.update(
                        i as int,
                        PlayerInfoV { chips: (cur[i as int].chips + w.amount) as i64, ..cur[
                            i as int] },
                    ));
                    assert forall|t: int| 0 <= t < s0.len() implies #[trigger] chips@[t]
                        == next[t].chips by {
                        if t != i as int {
                            assert(next[t] == cur[t]);
                        }
                    }
                }
            },
            None => {
                proof {
                    assert(!has_id(cur, w.player_id)) by {
                        if has_id(cur, w.player_id) {
                            let q = choose|q: int|
                                0 <= q < cur.len() && #[trigger] cur[q].id == w.player_id;
                            assert(ids@[q] == s0[q].id);
                            assert(cur[q].id == s0[q].id);
                            assert(ids@[q] != w.player_id);
                        }
                    }
                    assert(credit_one(cur, w) == cur);
                    assert(credit_fits(cur, w));
                }
            },
        }
        k += 1;
    }
    proof {
        assert(dist@.take(m as int) =~= dist@);
    }
    true
}

/// Locate the roster entry with this id, if any.
fn find_player_index(v: &Vec<PlayerInfo>, id: PlayerId) -> (r: Option<usize>)
    ensures
        match r {
            Some(i) => i < v@.len() && views_of(v@)[i as int].id == id,
            None => !has_id(views_of(v@), id),
        },
{
    let n = v.len();
    let mut i: usize = 0;
    while i < n
        invariant
            n == v@.len(),
            i <= n,
            forall|j: int| 0 <= j < i ==> #[trigger] views_of(v@)[j].id != id,
        decreases n - i,
    {
        if v[i].id == id {
            return Some(i);
        }
        i += 1;
    }
    proof {
        if has_id(views_of(v@), id) {
            let j = choose|j: int|
                0 <= j < views_of(v@).len() && #[trigger] views_of(v@)[j].id == id;
            assert(views_of(v@)[j].id != id);
        }
    }
    None
}

fn clone_cards(v: &Vec<Card>) -> (r: Vec<Card>)
    ensures
        r@ == v@,
{
    let mut r: Vec<Card> = Vec::new();
    let n = v.len();
    let mut i: usize = 0;
    while i < n
        invariant
            n == v@.len(),
            i <= n,
            r@ =~= v@.take(i as int),
        decreases n - i,
    {
        r.push(v[i]);
        proof {
            assert(r@ =~= v@.take(i as int + 1));
        }
        i += 1;
    }
    proof {
        assert(v@.take(n as int) =~= v@);
    }
    r
}

pub(crate) fn clone_opt_string(v: &Option<String>) -> (r: Option<String>)
    ensures
        opt_str_view(r) == opt_str_view(*v),
{
    match v {
        Some(s) => Some(s.clone()),
        None => None,
    }
}

impl Clone for PlayerInfo {
    /// A clone carries the same mathematical value.
    fn clone(&self) -> (r: Self)
        ensures
            r@ == self@,
    {
        let r = PlayerInfo {
            id: self.id,
            username: self.username.clone(),
            display_name: self.display_name.clone(),
            avatar_url: clone_opt_string(&self.avatar_url),
            chips: self.chips,
            seat_position: self.seat_position,
            is_active: self.is_active,
            is_dealer: self.is_dealer,
            is_small_blind: self.is_small_blind,
            is_big_blind: self.is_big_blind,
            hand: clone_cards(&self.hand),
            current_bet: self.current_bet,
            is_all_in: self.is_all_in,
            is_folded: self.is_folded,
            action_time_left: self.action_time_left,
        };
        proof {
            assert(r@ =~= self@);
        }
        r
    }
}

/// The client's view of one room and hand.
#[derive(Debug, PartialEq)]
pub struct GameState {
    pub current_room: Option<RoomInfo>,
    pub players: Vec<PlayerInfo>,
    pub game_phase: GamePhase,
    pub community_cards: Vec<Card>,
    pub pot: i64,
    pub side_pots: Vec<SidePot>,
    pub current_bet: i64,
    pub dealer_position: Option<u8>,
    pub active_player: Option<PlayerId>,
    pub last_action: Option<GameAction>,
    pub hand_history: Vec<GameAction>,
    pub hand_number: u32,
    pub time_bank: Option<i32>,
}

impl GameState {
    /// The roster as a sequence of mathematical player values.
    pub open spec fn roster(self) -> Seq<PlayerInfoV> {
        views_of(self.players@)
    }

    /// The player mapping: id to player, order forgotten.
    pub open spec fn player_map(self) -> Map<PlayerId, PlayerInfoV> {
        map_of(self.roster())
    }

    /// The room as a mathematical value, if one is joined.
    pub open spec fn room_view(self) -> Option<GameRoomV> {
        match self.current_room {
            Option::Some(r) => Option::Some(r@),
            Option::None => Option::None,
        }
    }

    /// Well-formedness: roster ids are unique and the board never holds
    /// more than the five community cards a hand can show.
    pub open spec fn wf(self) -> bool {
        &&& ids_unique(self.roster())
        &&& self.community_cards@.len() <= 5
    }

    /// The empty state a client starts from and returns to on room leave.
    pub open spec fn is_empty_state(self) -> bool {
        &&& self.current_room is None
        &&& self.roster() =~= Seq::<PlayerInfoV>::empty()
        &&& self.game_phase == GamePhase::WaitingForPlayers
        &&& self.community_cards@ =~= Seq::<Card>::empty()
        &&& self.pot == 0
        &&& self.side_pots@ =~= Seq::<SidePot>::empty()
        &&& self.current_bet == 0
        &&& self.dealer_position is None
        &&& self.active_player is None
        &&& self.last_action is None
        &&& self.hand_history@ =~= Seq::<GameAction>::empty()
        &&& self.hand_number == 0
        &&& self.time_bank is None
    }

    pub fn new() -> (r: Self)
        ensures
            r.is_empty_state(),
            r.wf(),
    {
        GameState {
            current_room: None,
            players: Vec::new(),
            game_phase: GamePhase::WaitingForPlayers,
            community_cards: Vec::new(),
            pot: 0,
            side_pots: Vec::new(),
            current_bet: 0,
            dealer_position: None,
            active_player: None,
            last_action: None,
            hand_history: Vec::new(),
            hand_number: 0,
            time_bank: None,
        }
    }

    /// Reset to the empty default on an explicit room leave or logout.
    pub fn leave_room(&mut self)
        ensures
            final(self).is_empty_state(),
            final(self).wf(),
    {
        *self = GameState::new();
    }

    /// Whether a hand is currently being played.
    pub open spec fn spec_is_in_hand(self) -> bool {
        match self.game_phase {
            GamePhase::PreFlop => true,
            GamePhase::Flop => true,
            GamePhase::Turn => true,
            GamePhase::River => true,
            GamePhase::Showdown => true,
            _ => false,
        }
    }

    pub fn is_in_hand(&self) -> (r: bool)
        ensures
            r == self.spec_is_in_hand(),
    {
        match self.game_phase {
            GamePhase::PreFlop | GamePhase::Flop | GamePhase::Turn | GamePhase::River
                | GamePhase::Showdown => true,
            _ => false,
        }
    }

    /// Whether it is this player's turn to act.
    pub fn can_act(&self, player_id: PlayerId) -> (r: bool)
        ensures
            r == (self.active_player == Some(player_id) && self.spec_is_in_hand()),
    {
        match self.active_player {
            Some(active) => active == player_id && self.is_in_hand(),
            None => false,
        }
    }

    pub fn get_player_count(&self) -> (n: usize)
        ensures
            n == self.roster().len(),
    {
        self.players.len()
    }

    /// Whether a player with this id is seated.
    pub fn has_player(&self, id: PlayerId) -> (r: bool)
        ensures
            r == has_id(self.roster(), id),
    {
        match find_player_index(&self.players, id) {
            Some(_) => true,
            None => false,
        }
    }

    /// Apply the server's phase, board and pot as one atomic transition:
    /// all three fields change together and nothing else moves.
    pub fn update_game_phase(&mut self, phase: GamePhase, community_cards: Vec<Card>, pot: i64)
        requires
            community_cards@.len() <= 5,
            old(self).wf(),
        ensures
            final(self).wf(),
            final(self).game_phase == phase,
            final(self).community_cards@ == community_cards@,
            final(self).pot == pot,
            final(self).players == old(self).players,
            final(self).current_room == old(self).current_room,
            final(self).side_pots == old(self).side_pots,
            final(self).current_bet == old(self).current_bet,
            final(self).dealer_position == old(self).dealer_position,
            final(self).active_player == old(self).active_player,
            final(self).last_action == old(self).last_action,
            final(self).hand_history == old(self).hand_history,
            final(self).hand_number == old(self).hand_number,
            final(self).time_bank == old(self).time_bank,
    {
        self.game_phase = phase;
        self.community_cards = community_cards;
        self.pot = pot;
    }

    /// Record whose turn it is and how long they have.
    pub fn set_active_player(&mut self, player_id: Option<PlayerId>, time_limit: Option<i32>)
        requires
            old(self).wf(),
        ensures
            final(self).wf(),
            final(self).active_player == player_id,
            final(self).time_bank == time_limit,
            final(self).players == old(self).players,
            final(self).current_room == old(self).current_room,
            final(self).game_phase == old(self).game_phase,
            final(self).community_cards == old(self).community_cards,
            final(self).pot == old(self).pot,
            final(self).side_pots == old(self).side_pots,
            final(self).current_bet == old(self).current_bet,
            final(self).dealer_position == old(self).dealer_position,
            final(self).last_action == old(self).last_action,
            final(self).hand_history == old(self).hand_history,
            final(self).hand_number == old(self).hand_number,
    {
        self.active_player = player_id;
        self.time_bank = time_limit;
    }

    /// Upsert one player by id: a newcomer is appended, a returning id is
    /// updated in place.  Either way the player mapping gains exactly this
    /// player under this id, so applying the same join twice leaves the
    /// same mapping as applying it once.
    pub fn add_player(&mut self, player: PlayerInfo)
        requires
            old(self).wf(),
        ensures
            final(self).wf(),
            final(self).player_map() =~= old(self).player_map().insert(player@.id, player@),
            final(self).current_room == old(self).current_room,
            final(self).game_phase == old(self).game_phase,
            final(self).community_cards == old(self).community_cards,
            final(self).pot == old(self).pot,
            final(self).side_pots == old(self).side_pots,
            final(self).current_bet == old(self).current_bet,
            final(self).dealer_position == old(self).dealer_position,
            final(self).active_player == old(self).active_player,
            final(self).last_action == old(self).last_action,
            final(self).hand_history == old(self).hand_history,
            final(self).hand_number == old(self).hand_number,
            final(self).time_bank == old(self).time_bank,
    {
        let n = self.players.len();
        let mut i: usize = 0;
        while i < n
            invariant
                old(self).wf(),
                *self == *old(self),
                n == self.players.len(),
                i <= n,
                forall|j: int| 0 <= j < i ==> #[trigger] self.roster()[j].id != player@.id,
            decreases n - i,
        {
            if self.players[i].id == player.id {
                proof {
                    assert(old(self).roster()[i as int].id == player@.id);
                    lemma_map_of_update(old(self).roster(), i as int, player@);
                    lemma_views_update(old(self).players@, i as int, player);
                }
                self.players.set(i, player);
                proof {
                    let s = old(self).roster();
                    let t = self.roster();
                    assert(t =~= s.update(i as int, player@));
                    assert forall|a: int, b: int| #![trigger t[a].id, t[b].id]
                        0 <= a < b < t.len() implies t[a].id != t[b].id by {
                        assert(s[a].id != s[b].id);
                    }
                }
                return ;
            }
            i += 1;
        }
        proof {
            lemma_map_of_push(old(self).roster(), player@);
            lemma_views_push(old(self).players@, player);
        }
        self.players.push(player);
        proof {
            let s = old(self).roster();
            let t = self.roster();
            assert(t =~= s.push(player@));
            assert forall|a: int, b: int| #![trigger t[a].id, t[b].id]
                0 <= a < b < t.len() implies t[a].id != t[b].id by {
                if b == t.len() - 1 {
                    assert(s[a].id != player@.id);
                } else {
                    assert(s[a].id != s[b].id);
                }
            }
        }
    }

    /// Remove one player by id; a miss is a no-op.  When the player leaves,
    /// a turn reference to them and a dealer reference to their seat are
    /// cleared with them.
    pub fn remove_player(&mut self, player_id: PlayerId)
        requires
            old(self).wf(),
        ensures
            final(self).wf(),
            final(self).player_map() =~= old(self).player_map().remove(player_id),
            !has_id(old(self).roster(), player_id) ==> *final(self) == *old(self),
            forall|i: int|
                0 <= i < old(self).roster().len() && #[trigger] old(self).roster()[i].id
                    == player_id ==> {
                    &&& final(self).active_player == (if old(self).active_player == Some(
                        player_id,
                    ) {
                        Option::<PlayerId>::None
                    } else {
                        old(self).active_player
                    })
                    &&& final(self).dealer_position == (if old(self).dealer_position == Some(
                        old(self).roster()[i].seat_position,
                    ) {
                        Option::<u8>::None
                    } else {
                        old(self).dealer_position
                    })
                },
            final(self).current_room == old(self).current_room,
            final(self).game_phase == old(self).game_phase,
            final(self).community_cards == old(self).community_cards,
            final(self).pot == old(self).pot,
            final(self).side_pots == old(self).side_pots,
            final(self).current_bet == old(self).current_bet,
            final(self).last_action == old(self).last_action,
            final(self).hand_history == old(self).hand_history,
            final(self).hand_number == old(self).hand_number,
            final(self).time_bank == old(self).time_bank,
    {
        let n = self.players.len();
        let mut i: usize = 0;
        while i < n
            invariant
                old(self).wf(),
                *self == *old(self),
                n == self.players.len(),
                i <= n,
                forall|j: int| 0 <= j < i ==> #[trigger] self.roster()[j].id != player_id,
            decreases n - i,
        {
            if self.players[i].id == player_id {
                let seat = self.players[i].seat_position;
                proof {
                    assert(old(self).roster()[i as int].id == player_id);
                    lemma_map_of_remove(old(self).roster(), i as int);
                    lemma_unique_remove(old(self).roster(), i as int);
                    lemma_views_remove(old(self).players@, i as int);
                }
                self.players.remove(i);
                match self.active_player {
                    Some(active) => if active == player_id {
                        self.active_player = None;
                    },
                    None => {},
                }
                match self.dealer_position {
                    Some(dealer) => if dealer == seat {
                        self.dealer_position = None;
                    },
                    None => {},
                }
                proof {
                    assert(self.roster() =~= old(self).roster().remove(i as int));
                    assert forall|j: int|
                        0 <= j < old(self).roster().len() && #[trigger] old(self).roster()[j].id
                            == player_id implies j == i as int by {
                        if j != i as int {
                            assert(old(self).roster()[j].id != old(self).roster()[i as int].id);
                        }
                    }
                }
                return ;
            }
            i += 1;
        }
        proof {
            assert(!has_id(old(self).roster(), player_id)) by {
                if has_id(old(self).roster(), player_id) {
                    let j = choose|j: int|
                        0 <= j < old(self).roster().len() && old(self).roster()[j].id == player_id;
                    assert(self.roster()[j].id != player_id);
                }
            }
            lemma_map_of_contains(old(self).roster(), player_id);
            assert(old(self).player_map().remove(player_id) =~= old(self).player_map());
        }
    }

    /// Enter a room: the room metadata and the player mapping are replaced
    /// wholesale by what the server sent.  The caller replaces the whole
    /// state on a room join, so nothing of a prior room can survive.
    pub fn join_room(&mut self, room: RoomInfo, players: Vec<PlayerInfo>)
        requires
            old(self).wf(),
        ensures
            final(self).wf(),
            final(self).current_room == Some(room),
            final(self).player_map() =~= map_of(views_of(players@)),
            final(self).game_phase == old(self).game_phase,
            final(self).community_cards == old(self).community_cards,
            final(self).pot == old(self).pot,
            final(self).side_pots == old(self).side_pots,
            final(self).current_bet == old(self).current_bet,
            final(self).dealer_position == old(self).dealer_position,
            final(self).active_player == old(self).active_player,
            final(self).last_action == old(self).last_action,
            final(self).hand_history == old(self).hand_history,
            final(self).hand_number == old(self).hand_number,
            final(self).time_bank == old(self).time_bank,
    {
        let ghost vs = views_of(players@);
        self.current_room = Some(room);
        self.players.clear();
        let mut rest = players;
        let ghost orig = rest@;
        let mut k: usize = 0;
        let n = rest.len();
        proof {
            assert(self.roster() =~= Seq::<PlayerInfoV>::empty());
            assert(self.player_map() =~= map_of(vs.take(0)));
        }
        while k < n
            invariant
                old(self).wf(),
                self.wf(),
                n == orig.len(),
                k <= n,
                rest@ == orig.skip(k as int),
                vs == views_of(orig),
                self.player_map() =~= map_of(vs.take(k as int)),
                self.current_room == Some(room),
                self.game_phase == old(self).game_phase,
                self.community_cards == old(self).community_cards,
                self.pot == old(self).pot,
                self.side_pots == old(self).side_pots,
                self.current_bet == old(self).current_bet,
                self.dealer_position == old(self).dealer_position,
                self.active_player == old(self).active_player,
                self.last_action == old(self).last_action,
                self.hand_history == old(self).hand_history,
                self.hand_number == old(self).hand_number,
                self.time_bank == old(self).time_bank,
            decreases n - k,
        {
            let p = rest.remove(0);
            proof {
                assert(orig.skip(k as int)[0] == orig[k as int]);
                assert(p == orig[k as int]);
                assert(rest@ =~= orig.skip(k as int + 1));
                lemma_map_of_take_step(vs, k as int);
                assert(vs[k as int] == orig[k as int]@);
            }
            self.add_player(p);
            k += 1;
        }
        proof {
            assert(vs.take(n as int) =~= vs);
        }
    }

    /// Settle the hand as one atomic transition: credit every award of the
    /// pot distribution to the seated winner's stack, then clear the whole
    /// per-hand state — board, pot, side pots, bets, turn, history and
    /// every player's per-hand fields — and count the hand.  Nothing in
    /// between is ever observable, and crediting without resetting (or the
    /// reverse) cannot happen.
    #[allow(unused_variables)]
    pub fn complete_hand(&mut self, winners: Vec<HandWinner>, pot_distribution: Vec<PotWinner>)
        requires
            old(self).wf(),
            credits_ok(old(self).roster(), pot_distribution@),
            old(self).hand_number < u32::MAX,
        ensures
            final(self).wf(),
            final(self).roster().len() == old(self).roster().len(),
            forall|i: int|
                0 <= i < final(self).roster().len() ==> is_reset_of(
                    #[trigger] final(self).roster()[i],
                    apply_credits(old(self).roster(), pot_distribution@)[i],
                ),
            final(self).game_phase == GamePhase::WaitingForPlayers,
            final(self).community_cards@.len() == 0,
            final(self).pot == 0,
            final(self).side_pots@.len() == 0,
            final(self).current_bet == 0,
            final(self).active_player is None,
            final(self).last_action is None,
            final(self).hand_history@.len() == 0,
            final(self).hand_number == old(self).hand_number + 1,
            final(self).time_bank is None,
            final(self).current_room == old(self).current_room,
            final(self).dealer_position == old(self).dealer_position,
    {
        let ghost s0 = old(self).roster();
        let ghost dist = pot_distribution@;
        let n = pot_distribution.len();
        let mut k: usize = 0;
        proof {
            assert(dist.take(0) =~= Seq::<PotWinner>::empty());
        }
        while k < n
            invariant
                old(self).wf(),
                credits_ok(s0, dist),
                s0 == old(self).roster(),
                dist == pot_distribution@,
                n == dist.len(),
                k <= n,
                self.wf(),
                self.roster() == apply_credits(s0, dist.take(k as int)),
                self.current_room == old(self).current_room,
                self.game_phase == old(self).game_phase,
                self.community_cards == old(self).community_cards,
                self.pot == old(self).pot,
                self.side_pots == old(self).side_pots,
                self.current_bet == old(self).current_bet,
                self.dealer_position == old(self).dealer_position,
                self.active_player == old(self).active_player,
                self.last_action == old(self).last_action,
                self.hand_history == old(self).hand_history,
                self.hand_number == old(self).hand_number,
                self.time_bank == old(self).time_bank,
            decreases n - k,
        {
            let w = pot_distribution[k];
            let ghost cur = self.roster();
            proof {
                lemma_apply_credits_step(s0, dist, k as int);
                lemma_credits_ok_take(s0, dist, k as int + 1);
            }
            match find_player_index(&self.players, w.player_id) {
                Some(i) => {
                    proof {
                        assert(cur[i as int].id == w.player_id);
                        lemma_credit_one_at(cur, i as int, w);
                        assert(has_id(cur, w.player_id));
                        let j = choose|j: int|
                            0 <= j < cur.len() && #[trigger] cur[j].id == w.player_id;
                        if j != i as int {
                            assert(cur[i as int].id != cur[j].id);
                        }
                        assert(i64::MIN <= cur[i as int].chips + w.amount <= i64::MAX);
                    }
                    let mut p = self.players[i].clone();
                    p.chips = p.chips + w.amount;
                    proof {
                        lemma_views_update(self.players@, i as int, p);
                    }
                    self.players.set(i, p);
                    proof {
                        let t = self.roster();
                        assert(p@ =~= PlayerInfoV {
                            chips: (cur[i as int].chips + w.amount) as i64,
                            ..cur[i as int]
                        });
                        assert(t =~= credit_one(cur, w));
                        assert forall|a: int, b: int| #![trigger t[a].id, t[b].id]
                            0 <= a < b < t.len() implies t[a].id != t[b].id by {
                            assert(cur[a].id != cur[b].id);
                        }
                    }
                },
                None => {
                    proof {
                        assert(credit_one(cur, w) == cur);
                    }
                },
            }
            proof {
                assert(self.roster() == apply_credits(s0, dist.take(k as int + 1)));
            }
            k += 1;
        }
        proof {
            assert(dist.take(n as int) =~= dist);
        }
        let ghost credited = apply_credits(s0, dist);
        proof {
            lemma_apply_credits_shape(s0, dist);
        }
        let m = self.players.len();
        let mut i: usize = 0;
        while i < m
            invariant
                old(self).wf(),
                m == self.players@.len(),
                i <= m,
                credited.len() == m,
                ids_unique(credited),
                forall|j: int| i <= j < m ==> #[trigger] self.roster()[j] == credited[j],
                forall|j: int| 0 <= j < i ==> is_reset_of(#[trigger] self.roster()[j], credited[j]),
                forall|j: int| 0 <= j < m ==> #[trigger] self.roster()[j].id == credited[j].id,
                self.community_cards == old(self).community_cards,
                self.current_room == old(self).current_room,
                self.game_phase == old(self).game_phase,
                self.pot == old(self).pot,
                self.side_pots == old(self).side_pots,
                self.current_bet == old(self).current_bet,
                self.dealer_position == old(self).dealer_position,
                self.active_player == old(self).active_player,
                self.last_action == old(self).last_action,
                self.hand_history == old(self).hand_history,
                self.hand_number == old(self).hand_number,
                self.time_bank == old(self).time_bank,
            decreases m - i,
        {
            let ghost prev = self.roster();
            let p = &self.players[i];
            let q = PlayerInfo {
                id: p.id,
                username: p.username.clone(),
                display_name: p.display_name.clone(),
                avatar_url: clone_opt_string(&p.avatar_url),
                chips: p.chips,
                seat_position: p.seat_position,
                is_active: p.is_active,
                is_dealer: p.is_dealer,
                is_small_blind: p.is_small_blind,
                is_big_blind: p.is_big_blind,
                hand: Vec::new(),
                current_bet: 0,
                is_all_in: false,
                is_folded: false,
                action_time_left: None,
            };
            proof {
                lemma_views_update(self.players@, i as int, q);
                assert(prev[i as int] == credited[i as int]);
                assert(q@.hand =~= Seq::<Card>::empty());
                assert(is_reset_of(q@, credited[i as int]));
            }
            self.players.set(i, q);
            proof {
                assert(self.roster() =~= prev.update(i as int, q@));
            }
            i += 1;
        }
        let ghost rdone = self.roster();
        proof {
            assert(ids_unique(rdone)) by {
                assert forall|a: int, b: int| #![trigger rdone[a].id, rdone[b].id]
                    0 <= a < b < rdone.len() implies rdone[a].id != rdone[b].id by {
                    assert(rdone[a].id == credited[a].id);
                    assert(rdone[b].id == credited[b].id);
                }
            }
            assert(forall|j: int|
                0 <= j < m ==> is_reset_of(#[trigger] rdone[j], credited[j]));
        }
        self.game_phase = GamePhase::WaitingForPlayers;
        self.community_cards.clear();
        self.pot = 0;
        self.side_pots.clear();
        self.current_bet = 0;
        self.active_player = None;
        self.last_action = None;
        self.hand_history.clear();
        self.hand_number = self.hand_number + 1;
        self.time_bank = None;
        proof {
            assert(self.roster() =~= rdone);
            assert forall|i: int| 0 <= i < self.roster().len() implies is_reset_of(
                #[trigger] self.roster()[i],
                apply_credits(s0, dist)[i],
            ) by {
                assert(self.roster()[i] == rdone[i]);
                assert(is_reset_of(rdone[i], credited[i]));
            }
        }
    }

    /// Copies of the players still in contention, in roster order.
    pub fn get_active_players(&self) -> (r: Vec<PlayerInfo>)
        ensures
            views_of(r@) == active_filter(self.roster()),
    {
        let mut out: Vec<PlayerInfo> = Vec::new();
        let n = self.players.len();
        let mut i: usize = 0;
        proof {
            assert(self.roster().take(0) =~= Seq::<PlayerInfoV>::empty());
            assert(active_filter(self.roster().take(0)) =~= Seq::<PlayerInfoV>::empty());
            assert(views_of(out@) =~= Seq::<PlayerInfoV>::empty());
        }
        while i < n
            invariant
                n == self.players@.len(),
                i <= n,
                views_of(out@) == active_filter(self.roster().take(i as int)),
            decreases n - i,
        {
            let ghost prev = self.roster().take(i as int);
            proof {
                assert(prev.push(self.roster()[i as int]) =~= self.roster().take(i as int + 1));
                lemma_active_filter_push(prev, self.roster()[i as int]);
            }
            let p = &self.players[i];
            if p.is_active && !p.is_folded {
                proof {
                    lemma_views_push(out@, self.players@[i as int]);
                }
                let q = p.clone();
                out.push(q);
                proof {
                    assert(views_of(out@) =~= active_filter(self.roster().take(i as int + 1)));
                }
            }
            i += 1;
        }
        proof {
            assert(self.roster().take(n as int) =~= self.roster());
        }
        out
    }

    /// Copies of the seated players in seat order: seat `0` first, each
    /// seat's players in roster order.
    pub fn get_seated_players(&self) -> (r: Vec<PlayerInfo>)
        ensures
            views_of(r@) == seats_below(self.roster(), 256),
    {
        let mut out: Vec<PlayerInfo> = Vec::new();
        let mut seat: usize = 0;
        proof {
            assert(views_of(out@) =~= seats_below(self.roster(), 0));
        }
        while seat < 256
            invariant
                seat <= 256,
                views_of(out@) == seats_below(self.roster(), seat as int),
            decreases 256 - seat,
        {
            let n = self.players.len();
            let mut i: usize = 0;
            proof {
                assert(self.roster().take(0) =~= Seq::<PlayerInfoV>::empty());
                assert(seat_bucket(self.roster().take(0), seat as u8)
                    =~= Seq::<PlayerInfoV>::empty());
                assert(views_of(out@) + seat_bucket(self.roster().take(0), seat as u8)
                    =~= views_of(out@));
            }
            let ghost base = views_of(out@);
            while i < n
                invariant
                    n == self.players@.len(),
                    i <= n,
                    seat < 256,
                    views_of(out@) == base + seat_bucket(self.roster().take(i as int), seat as u8),
                decreases n - i,
            {
                let ghost prev = self.roster().take(i as int);
                proof {
                    assert(prev.push(self.roster()[i as int]) =~= self.roster().take(
                        i as int + 1,
                    ));
                    lemma_seat_bucket_push(prev, self.roster()[i as int], seat as u8);
                }
                let p = &self.players[i];
                if p.seat_position == seat as u8 {
                    proof {
                        lemma_views_push(out@, self.players@[i as int]);
                    }
                    let q = p.clone();
                    out.push(q);
                    proof {
                        assert(views_of(out@) =~= base + seat_bucket(
                            self.roster().take(i as int + 1),
                            seat as u8,
                        ));
                    }
                } else {
                    proof {
                        assert(views_of(out@) =~= base + seat_bucket(
                            self.roster().take(i as int + 1),
                            seat as u8,
                        ));
                    }
                }
                i += 1;
            }
            proof {
                assert(self.roster().take(n as int) =~= self.roster());
                assert(views_of(out@) =~= seats_below(self.roster(), seat as int + 1));
            }
            seat += 1;
        }
        out
    }

    /// Append an action to the hand history and remember it as the last
    /// action.  Monetary fields are not recomputed here: pot and bets are
    /// authoritative only through a full game-state update.
    pub fn add_action(&mut self, action: GameAction)
        requires
            old(self).wf(),
        ensures
            final(self).wf(),
            final(self).hand_history@ == old(self).hand_history@.push(action),
            final(self).last_action == Some(action),
            final(self).players == old(self).players,
            final(self).current_room == old(self).current_room,
            final(self).game_phase == old(self).game_phase,
            final(self).community_cards == old(self).community_cards,
            final(self).pot == old(self).pot,
            final(self).side_pots == old(self).side_pots,
            final(self).current_bet == old(self).current_bet,
            final(self).dealer_position == old(self).dealer_position,
            final(self).active_player == old(self).active_player,
            final(self).hand_number == old(self).hand_number,
            final(self).time_bank == old(self).time_bank,
    {
        self.hand_history.push(action);
        self.last_action = Some(action);
    }
}

/// The players still contending: seated as active and not folded.
pub open spec fn active_filter(s: Seq<PlayerInfoV>) -> Seq<PlayerInfoV> {
    s.filter(|p: PlayerInfoV| p.is_active && !p.is_folded)
}

pub proof fn lemma_active_filter_push(t: Seq<PlayerInfoV>, c: PlayerInfoV)
    ensures
        active_filter(t.push(c)) == (if c.is_active && !c.is_folded {
            active_filter(t).push(c)
        } else {
            active_filter(t)
        }),
{
    reveal(Seq::filter);
    assert(t.push(c).drop_last() =~= t);
    assert(t.push(c).last() == c);
}

/// The players seated at one seat, in roster order.
pub open spec fn seat_bucket(s: Seq<PlayerInfoV>, seat: u8) -> Seq<PlayerInfoV> {
    s.filter(|p: PlayerInfoV| p.seat_position == seat)
}

pub proof fn lemma_seat_bucket_push(t: Seq<PlayerInfoV>, c: PlayerInfoV, seat: u8)
    ensures
        seat_bucket(t.push(c), seat) == (if c.seat_position == seat {
            seat_bucket(t, seat).push(c)
        } else {
            seat_bucket(t, seat)
        }),
{
    reveal(Seq::filter);
    assert(t.push(c).drop_last() =~= t);
    assert(t.push(c).last() == c);
}

/// The roster rearranged seat by seat: everyone at seat `0`, then seat
/// `1`, and so on below `bound`.
pub open spec fn seats_below(s: Seq<PlayerInfoV>, bound: int) -> Seq<PlayerInfoV>
    decreases bound,
{
    if bound <= 0 {
        Seq::empty()
    } else {
        seats_below(s, bound - 1) + seat_bucket(s, (bound - 1) as u8)
    }
}

/// The seat-by-seat rearrangement is sorted: every entry sits at a seat
/// below the bound, and seats never decrease along it.
pub proof fn lemma_seats_below_sorted(s: Seq<PlayerInfoV>, bound: int)
    requires
        0 <= bound <= 256,
    ensures
        forall|a: int|
            0 <= a < seats_below(s, bound).len() ==> #[trigger] seats_below(
                s,
                bound,
            )[a].seat_position < bound,
        forall|a: int, b: int|
            #![trigger seats_below(s, bound)[a].seat_position, seats_below(s, bound)[b].seat_position]
            0 <= a < b < seats_below(s, bound).len() ==> seats_below(s, bound)[a].seat_position
                <= seats_below(s, bound)[b].seat_position,
    decreases bound,
{
    if bound > 0 {
        lemma_seats_below_sorted(s, bound - 1);
        let prior = seats_below(s, bound - 1);
        let bucket = seat_bucket(s, (bound - 1) as u8);
        assert forall|a: int| 0 <= a < bucket.len() implies #[trigger] bucket[a].seat_position
            == (bound - 1) as u8 by {
            s.lemma_filter_pred(|p: PlayerInfoV| p.seat_position == (bound - 1) as u8, a);
        }
        let whole = seats_below(s, bound);
        assert forall|a: int| 0 <= a < whole.len() implies #[trigger] whole[a].seat_position
            < bound by {
            if a < prior.len() {
                assert(whole[a] == prior[a]);
            } else {
                assert(whole[a] == bucket[a - prior.len()]);
            }
        }
        assert forall|a: int, b: int|
            #![trigger whole[a].seat_position, whole[b].seat_position]
            0 <= a < b < whole.len() implies whole[a].seat_position
            <= whole[b].seat_position by {
            if b < prior.len() {
                assert(whole[a] == prior[a]);
                assert(whole[b] == prior[b]);
            } else if a < prior.len() {
                assert(whole[a] == prior[a]);
                assert(whole[b] == bucket[b - prior.len()]);
                assert(prior[a].seat_position < bound - 1);
                assert(bucket[b - prior.len()].seat_position == (bound - 1) as u8);
            } else {
                assert(whole[a] == bucket[a - prior.len()]);
                assert(whole[b] == bucket[b - prior.len()]);
            }
        }
    }
}

pub proof fn lemma_seats_below_empty(bound: int)
    requires
        0 <= bound,
    ensures
        seats_below(Seq::<PlayerInfoV>::empty(), bound) == Seq::<PlayerInfoV>::empty(),
    decreases bound,
{
    if bound > 0 {
        lemma_seats_below_empty(bound - 1);
        reveal(Seq::filter);
        assert(seat_bucket(Seq::<PlayerInfoV>::empty(), (bound - 1) as u8)
            =~= Seq::<PlayerInfoV>::empty());
        assert(seats_below(Seq::<PlayerInfoV>::empty(), bound) =~= Seq::<PlayerInfoV>::empty());
    }
}

/// One more roster entry lands in exactly one seat bucket.
pub proof fn lemma_seats_below_push(t: Seq<PlayerInfoV>, p: PlayerInfoV, bound: int)
    requires
        0 <= bound <= 256,
    ensures
        seats_below(t.push(p), bound).to_multiset() == (if (p.seat_position as int) < bound {
            seats_below(t, bound).to_multiset().insert(p)
        } else {
            seats_below(t, bound).to_multiset()
        }),
    decreases bound,
{
    broadcast use vstd::seq_lib::group_to_multiset_ensures;

    if bound > 0 {
        lemma_seats_below_push(t, p, bound - 1);
        let seatv = (bound - 1) as u8;
        lemma_seat_bucket_push(t, p, seatv);
        let a1 = seats_below(t.push(p), bound - 1);
        let b1 = seat_bucket(t.push(p), seatv);
        let a0 = seats_below(t, bound - 1);
        let b0 = seat_bucket(t, seatv);
        vstd::seq_lib::lemma_multiset_commutative(a1, b1);
        vstd::seq_lib::lemma_multiset_commutative(a0, b0);
        if p.seat_position == seatv {
            assert(b1.to_multiset() == b0.push(p).to_multiset());
            assert(b0.push(p).to_multiset() =~= b0.to_multiset().insert(p));
            assert(a1.to_multiset() == a0.to_multiset());
            assert(seats_below(t.push(p), bound).to_multiset() =~= seats_below(
                t,
                bound,
            ).to_multiset().insert(p));
        } else if (p.seat_position as int) < bound - 1 {
            assert(b1 == b0);
            assert(seats_below(t.push(p), bound).to_multiset() =~= seats_below(
                t,
                bound,
            ).to_multiset().insert(p));
        } else {
            assert(b1 == b0);
            assert(a1.to_multiset() == a0.to_multiset());
            assert(seats_below(t.push(p), bound).to_multiset() =~= seats_below(
                t,
                bound,
            ).to_multiset());
        }
    }
}

/// The seat-by-seat rearrangement is a permutation of the roster: the
/// same players, counted with multiplicity, merely reordered by seat.
pub proof fn lemma_seats_below_permutes(s: Seq<PlayerInfoV>)
    ensures
        seats_below(s, 256).to_multiset() == s.to_multiset(),
    decreases s.len(),
{
    broadcast use vstd::seq_lib::group_to_multiset_ensures;

    if s.len() == 0 {
        lemma_seats_below_empty(256);
        assert(s =~= Seq::<PlayerInfoV>::empty());
    } else {
        let t = s.drop_last();
        let p = s.last();
        lemma_seats_below_permutes(t);
        lemma_seats_below_push(t, p, 256);
        assert(t.push(p) =~= s);
        assert((p.seat_position as int) < 256);
        assert(t.push(p).to_multiset() =~= t.to_multiset().insert(p));
    }
}

impl Default for GameState {
    fn default() -> (r: Self)
        ensures
            r.is_empty_state(),
            r.wf(),
    {
        GameState::new()
    }
}

} // verus!
