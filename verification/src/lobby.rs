//! The lobby room catalog: narrowing it by a user's filter.
//!
//! The catalog itself only changes when the server sends a room-list
//! update; filtering is a pure reading of it.

use vstd::prelude::*;
use crate::game::clone_opt_string;
use crate::types::{rooms_view, GameRoom, GameRoomV, GameType, RoomFilter, RoomFilterV};

verus! {

/// Whether one room satisfies the filter: within the stakes bounds,
/// matching the capacity and game-type choices, and not hidden as empty
/// or full.
pub open spec fn room_passes(r: GameRoomV, f: RoomFilterV) -> bool {
    &&& (f.game_types.len() > 0 ==> f.game_types.contains(r.game_type))
    &&& (f.min_stakes matches Some(m) ==> r.big_blind >= m)
    &&& (f.max_stakes matches Some(m) ==> r.big_blind <= m)
    &&& (f.max_players_filter matches Some(m) ==> r.max_players == m)
    &&& (r.current_players == 0 ==> f.show_empty_rooms)
    &&& (r.current_players == r.max_players ==> f.show_full_rooms)
}

/// The catalog narrowed to the rooms that pass, in catalog order.
pub open spec fn rooms_passing(s: Seq<GameRoomV>, f: RoomFilterV) -> Seq<GameRoomV> {
    s.filter(|r: GameRoomV| room_passes(r, f))
}

pub proof fn lemma_rooms_passing_push(s: Seq<GameRoomV>, r: GameRoomV, f: RoomFilterV)
    ensures
        rooms_passing(s.push(r), f) == (if room_passes(r, f) {
            rooms_passing(s, f).push(r)
        } else {
            rooms_passing(s, f)
        }),
{
    reveal(Seq::filter);
    assert(s.push(r).drop_last() =~= s);
    assert(s.push(r).last() == r);
}

fn contains_game_type(v: &Vec<GameType>, t: GameType) -> (r: bool)
    ensures
        r == v@.contains(t),
{
    let n = v.len();
    let mut i: usize = 0;
    while i < n
        invariant
            n == v@.len(),
            i <= n,
            forall|j: int| 0 <= j < i ==> v@[j] != t,
        decreases n - i,
    {
        if v[i] == t {
            return true;
        }
        i += 1;
    }
    proof {
        if v@.contains(t) {
            let j = choose|j: int| 0 <= j < v@.len() && v@[j] == t;
            assert(v@[j] != t);
        }
    }
    false
}

/// The runtime check matching [`room_passes`].
pub fn passes_filter(room: &GameRoom, filter: &RoomFilter) -> (r: bool)
    ensures
        r == room_passes(room@, filter@),
{
    if filter.game_types.len() > 0 && !contains_game_type(&filter.game_types, room.game_type) {
        return false;
    }
    match filter.min_stakes {
        Some(m) => if room.big_blind < m {
            return false;
        },
        None => {},
    }
    match filter.max_stakes {
        Some(m) => if room.big_blind > m {
            return false;
        },
        None => {},
    }
    match filter.max_players_filter {
        Some(m) => if room.max_players != m {
            return false;
        },
        None => {},
    }
    if room.current_players == 0 && !filter.show_empty_rooms {
        return false;
    }
    if room.current_players == room.max_players && !filter.show_full_rooms {
        return false;
    }
    true
}

impl Clone for GameRoom {
    /// A clone carries the same mathematical value.
    fn clone(&self) -> (r: Self)
        ensures
            r@ == self@,
    {
        let r = GameRoom {
            id: self.id.clone(),
            name: self.name.clone(),
            game_type: self.game_type,
            current_players: self.current_players,
            max_players: self.max_players,
            small_blind: self.small_blind,
            big_blind: self.big_blind,
            min_buy_in: self.min_buy_in,
            max_buy_in: self.max_buy_in,
            is_private: self.is_private,
            is_active: self.is_active,
            created_at: self.created_at,
        };
        proof {
            assert(r@ =~= self@);
        }
        r
    }
}

/// Copies of the catalog rooms that pass the filter, in catalog order.
pub fn filter_rooms(rooms: &Vec<GameRoom>, filter: &RoomFilter) -> (r: Vec<GameRoom>)
    ensures
        rooms_view(r@) == rooms_passing(rooms_view(rooms@), filter@),
{
    let mut out: Vec<GameRoom> = Vec::new();
    let n = rooms.len();
    let mut i: usize = 0;
    proof {
        assert(rooms_view(rooms@).take(0) =~= Seq::<GameRoomV>::empty());
        assert(rooms_passing(rooms_view(rooms@).take(0), filter@)
            =~= Seq::<GameRoomV>::empty());
        assert(rooms_view(out@) =~= Seq::<GameRoomV>::empty());
    }
    while i < n
        invariant
            n == rooms@.len(),
            i <= n,
            rooms_view(out@) == rooms_passing(rooms_view(rooms@).take(i as int), filter@),
        decreases n - i,
    {
        let ghost prev = rooms_view(rooms@).take(i as int);
        proof {
            assert(prev.push(rooms_view(rooms@)[i as int]) =~= rooms_view(rooms@).take(
                i as int + 1,
            ));
            lemma_rooms_passing_push(prev, rooms_view(rooms@)[i as int], filter@);
        }
        if passes_filter(&rooms[i], filter) {
            let q = rooms[i].clone();
            proof {
                crate::codec::lemma_rooms_view_push(out@, q);
            }
            out.push(q);
            proof {
                assert(rooms_view(out@) =~= rooms_passing(
                    rooms_view(rooms@).take(i as int + 1),
                    filter@,
                ));
            }
        } else {
            proof {
                assert(rooms_view(out@) =~= rooms_passing(
                    rooms_view(rooms@).take(i as int + 1),
                    filter@,
                ));
            }
        }
        i += 1;
    }
    proof {
        assert(rooms_view(rooms@).take(n as int) =~= rooms_view(rooms@));
    }
    out
}

} // verus!
