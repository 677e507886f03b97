//! The message codec: the closed wire protocol of tagged frames.
//!
//! A frame is a byte string: one tag byte naming the message kind, then
//! the variant's payload.  Integers travel little-endian ([`u64`] in 8
//! bytes, [`u32`] in 4), text as a length followed by one 32-bit scalar
//! value per character, collections as a length followed by the items.
//! Encoding and decoding are written twice: once as spec functions over
//! mathematical values, which the round-trip lemmas relate, and once as
//! executable functions proved to follow them.  Decoding a frame that no
//! message encodes to fails with [`DecodeError`]; the connection stays
//! open and the frame is dropped.

use vstd::prelude::*;
use vstd::bytes::{
    lemma_auto_spec_u32_to_from_le_bytes, lemma_auto_spec_u64_to_from_le_bytes,
    spec_u32_from_le_bytes, spec_u32_to_le_bytes, spec_u64_from_le_bytes, spec_u64_to_le_bytes,
    u32_from_le_bytes, u32_to_le_bytes, u64_from_le_bytes, u64_to_le_bytes,
};
use vstd::slice::slice_subrange;
use vstd::string::StrSliceExecFns;
use crate::types::{
    opt_str_view, rooms_view, views_of, winners_view, Card, GameAction, GamePhase, GameRoom,
    ClientMessage, ClientMessageV, GameRoomV, GameType, HandType, HandWinner, HandWinnerV,
    PlayerAction, PlayerInfo, PlayerInfoV, PlayerStatus, PotWinner, Rank, RoomConfig, RoomConfigV,
    ServerMessage, ServerMessageV, Suit, User, UserV,
};
use crate::game::lemma_views_push;

verus! {

/// A frame that no message of the protocol encodes to.  It is reported
/// and dropped; decoding resumes on the next frame.
#[derive(Debug, Clone, Copy, PartialEq, Eq, Structural)]
pub struct DecodeError;

// ---------------------------------------------------------------------
// Trusted items: the two std calls the codec rests on.
// ---------------------------------------------------------------------

/// A Unicode scalar value: any code point but the surrogates.  These are
/// exactly the values a `char` can carry.
pub open spec fn is_scalar_value(v: u32) -> bool {
    v <= 0xD7FF || (0xE000 <= v <= 0x10FFFF)
}

/// Relies on char::from_u32: `Some` exactly on Unicode scalar values,
/// inverting `as u32`.
#[verifier::external_body]
fn char_from_u32(v: u32) -> (r: Option<char>)
    ensures
        r matches Some(c) ==> c as u32 == v,
        is_scalar_value(v) ==> r is Some,
{
    char::from_u32(v)
}

/// Relies on String::push: appends the given character to the string.
#[verifier::external_body]
fn push_char(s: &mut String, c: char)
    ensures
        final(s)@ == old(s)@.push(c),
{
    s.push(c);
}

// ---------------------------------------------------------------------
// Primitive encodings.
// ---------------------------------------------------------------------

pub open spec fn senc_u8(x: u8) -> Seq<u8> {
    seq![x]
}

pub open spec fn senc_u32(x: u32) -> Seq<u8> {
    spec_u32_to_le_bytes(x)
}

pub open spec fn senc_u64(x: u64) -> Seq<u8> {
    spec_u64_to_le_bytes(x)
}

pub open spec fn senc_i64(x: i64) -> Seq<u8> {
    senc_u64(x as u64)
}

pub open spec fn senc_i32(x: i32) -> Seq<u8> {
    senc_u32(x as u32)
}

pub open spec fn senc_bool(x: bool) -> Seq<u8> {
    seq![if x { 1u8 } else { 0u8 }]
}

pub open spec fn senc_char(c: char) -> Seq<u8> {
    senc_u32(c as u32)
}

pub open spec fn sdec_u8(b: Seq<u8>, i: int) -> Option<(u8, int)> {
    if 0 <= i && i + 1 <= b.len() {
        Some((b[i], i + 1))
    } else {
        None
    }
}

pub open spec fn sdec_u32(b: Seq<u8>, i: int) -> Option<(u32, int)> {
    if 0 <= i && i + 4 <= b.len() {
        Some((spec_u32_from_le_bytes(b.subrange(i, i + 4)), i + 4))
    } else {
        None
    }
}

pub open spec fn sdec_u64(b: Seq<u8>, i: int) -> Option<(u64, int)> {
    if 0 <= i && i + 8 <= b.len() {
        Some((spec_u64_from_le_bytes(b.subrange(i, i + 8)), i + 8))
    } else {
        None
    }
}

pub open spec fn sdec_i64(b: Seq<u8>, i: int) -> Option<(i64, int)> {
    match sdec_u64(b, i) {
        Some((v, j)) => Some((v as i64, j)),
        None => None,
    }
}

pub open spec fn sdec_i32(b: Seq<u8>, i: int) -> Option<(i32, int)> {
    match sdec_u32(b, i) {
        Some((v, j)) => Some((v as i32, j)),
        None => None,
    }
}

pub open spec fn sdec_bool(b: Seq<u8>, i: int) -> Option<(bool, int)> {
    match sdec_u8(b, i) {
        Some((v, j)) => if v == 0 {
            Some((false, j))
        } else if v == 1 {
            Some((true, j))
        } else {
            None
        },
        None => None,
    }
}

pub open spec fn sdec_char(b: Seq<u8>, i: int) -> Option<(char, int)> {
    match sdec_u32(b, i) {
        Some((v, j)) => if is_scalar_value(v) {
            Some((v as char, j))
        } else {
            None
        },
        None => None,
    }
}

// ---------------------------------------------------------------------
// Round-trip lemmas for the primitives: wherever the buffer holds the
// encoding, decoding finds the value and stops right after it.
// ---------------------------------------------------------------------

pub proof fn lemma_rt_u8(b: Seq<u8>, i: int, x: u8)
    requires
        0 <= i,
        i + 1 <= b.len(),
        b.subrange(i, i + 1) == senc_u8(x),
    ensures
        sdec_u8(b, i) == Some((x, i + 1)),
{
    assert(b[i] == b.subrange(i, i + 1)[0]);
}

pub proof fn lemma_rt_u32(b: Seq<u8>, i: int, x: u32)
    requires
        0 <= i,
        i + 4 <= b.len(),
        b.subrange(i, i + 4) == senc_u32(x),
    ensures
        sdec_u32(b, i) == Some((x, i + 4)),
{
    lemma_auto_spec_u32_to_from_le_bytes();
    assert(spec_u32_to_le_bytes(x).len() == 4);
}

pub proof fn lemma_rt_u64(b: Seq<u8>, i: int, x: u64)
    requires
        0 <= i,
        i + 8 <= b.len(),
        b.subrange(i, i + 8) == senc_u64(x),
    ensures
        sdec_u64(b, i) == Some((x, i + 8)),
{
    lemma_auto_spec_u64_to_from_le_bytes();
}

pub proof fn lemma_rt_i64(b: Seq<u8>, i: int, x: i64)
    requires
        0 <= i,
        i + 8 <= b.len(),
        b.subrange(i, i + 8) == senc_i64(x),
    ensures
        sdec_i64(b, i) == Some((x, i + 8)),
{
    lemma_rt_u64(b, i, x as u64);
    assert((x as u64) as i64 == x) by (bit_vector);
}

pub proof fn lemma_rt_i32(b: Seq<u8>, i: int, x: i32)
    requires
        0 <= i,
        i + 4 <= b.len(),
        b.subrange(i, i + 4) == senc_i32(x),
    ensures
        sdec_i32(b, i) == Some((x, i + 4)),
{
    lemma_rt_u32(b, i, x as u32);
    assert((x as u32) as i32 == x) by (bit_vector);
}

pub proof fn lemma_rt_bool(b: Seq<u8>, i: int, x: bool)
    requires
        0 <= i,
        i + 1 <= b.len(),
        b.subrange(i, i + 1) == senc_bool(x),
    ensures
        sdec_bool(b, i) == Some((x, i + 1)),
{
    lemma_rt_u8(b, i, if x { 1u8 } else { 0u8 });
}

pub proof fn lemma_rt_char(b: Seq<u8>, i: int, c: char)
    requires
        0 <= i,
        i + 4 <= b.len(),
        b.subrange(i, i + 4) == senc_char(c),
    ensures
        sdec_char(b, i) == Some((c, i + 4)),
{
    lemma_rt_u32(b, i, c as u32);
    assert(is_scalar_value(c as u32));
    assert((c as u32) as char == c);
}

// ---------------------------------------------------------------------
// Text: a 64-bit length, then one 32-bit scalar value per character.
// ---------------------------------------------------------------------

pub open spec fn senc_chars(s: Seq<char>) -> Seq<u8>
    decreases s.len(),
{
    if s.len() == 0 {
        Seq::empty()
    } else {
        senc_char(s[0]) + senc_chars(s.drop_first())
    }
}

pub open spec fn senc_str(s: Seq<char>) -> Seq<u8> {
    senc_u64(s.len() as u64) + senc_chars(s)
}

pub open spec fn sdec_chars(b: Seq<u8>, i: int, n: nat) -> Option<(Seq<char>, int)>
    decreases n,
{
    if n == 0 {
        Some((Seq::empty(), i))
    } else {
        match sdec_char(b, i) {
            Some((c, j)) => match sdec_chars(b, j, (n - 1) as nat) {
                Some((s, k)) => Some((seq![c] + s, k)),
                None => None,
            },
            None => None,
        }
    }
}

pub open spec fn sdec_str(b: Seq<u8>, i: int) -> Option<(Seq<char>, int)> {
    match sdec_u64(b, i) {
        Some((n, j)) => sdec_chars(b, j, n as nat),
        None => None,
    }
}

pub proof fn lemma_senc_chars_len(s: Seq<char>)
    ensures
        senc_chars(s).len() == 4 * s.len(),
    decreases s.len(),
{
    lemma_auto_spec_u32_to_from_le_bytes();
    if s.len() > 0 {
        lemma_senc_chars_len(s.drop_first());
    }
}

/// Appending a character extends the encoding on the right.
pub proof fn lemma_senc_chars_push(s: Seq<char>, c: char)
    ensures
        senc_chars(s.push(c)) == senc_chars(s) + senc_char(c),
    decreases s.len(),
{
    lemma_auto_spec_u32_to_from_le_bytes();
    if s.len() == 0 {
        assert(s.push(c)[0] == c);
        assert(s.push(c).drop_first() =~= Seq::<char>::empty());
        assert(senc_chars(s.push(c)) == senc_char(c) + senc_chars(Seq::<char>::empty()));
        assert(senc_chars(Seq::<char>::empty()) =~= Seq::<u8>::empty());
        assert(senc_char(c) + Seq::<u8>::empty() =~= senc_char(c));
        assert(senc_chars(s) =~= Seq::<u8>::empty());
        assert(senc_chars(s) + senc_char(c) =~= senc_char(c));
    } else {
        assert(s.push(c)[0] == s[0]);
        assert(s.push(c).drop_first() =~= s.drop_first().push(c));
        lemma_senc_chars_push(s.drop_first(), c);
        assert(senc_chars(s.push(c)) =~= senc_chars(s) + senc_char(c));
    }
}

/// A successful character-run decode consumes exactly four bytes per
/// character and stays inside the buffer.
pub proof fn lemma_sdec_chars_shape(b: Seq<u8>, i: int, n: nat)
    ensures
        sdec_chars(b, i, n) matches Some((s, j)) ==> s.len() == n && j == i + 4 * n && (n > 0
            ==> i >= 0 && j <= b.len()),
    decreases n,
{
    lemma_auto_spec_u32_to_from_le_bytes();
    if n > 0 {
        match sdec_char(b, i) {
            Some((c, j)) => {
                lemma_sdec_chars_shape(b, j, (n - 1) as nat);
            },
            None => {},
        }
    }
}

pub proof fn lemma_rt_chars(b: Seq<u8>, i: int, s: Seq<char>)
    requires
        0 <= i,
        i + 4 * s.len() <= b.len(),
        b.subrange(i, i + 4 * s.len()) == senc_chars(s),
    ensures
        sdec_chars(b, i, s.len()) == Some((s, i + 4 * s.len())),
    decreases s.len(),
{
    lemma_auto_spec_u32_to_from_le_bytes();
    if s.len() > 0 {
        let rest = s.drop_first();
        lemma_senc_chars_len(rest);
        lemma_concat_at(b, i, senc_char(s[0]), senc_chars(rest));
        lemma_rt_char(b, i, s[0]);
        lemma_rt_chars(b, i + 4, rest);
        assert(seq![s[0]] + rest =~= s);
    }
}

pub proof fn lemma_rt_str(b: Seq<u8>, i: int, s: Seq<char>)
    requires
        0 <= i,
        s.len() <= u64::MAX,
        i + senc_str(s).len() <= b.len(),
        b.subrange(i, i + senc_str(s).len()) == senc_str(s),
    ensures
        senc_str(s).len() == 8 + 4 * s.len(),
        sdec_str(b, i) == Some((s, i + senc_str(s).len())),
{
    lemma_auto_spec_u32_to_from_le_bytes();
    lemma_auto_spec_u64_to_from_le_bytes();
    lemma_senc_chars_len(s);
    lemma_concat_at(b, i, senc_u64(s.len() as u64), senc_chars(s));
    lemma_rt_u64(b, i, s.len() as u64);
    lemma_rt_chars(b, i + 8, s);
}

// ---------------------------------------------------------------------
// Executable encoders for the primitives and text.
// ---------------------------------------------------------------------

fn enc_u8(out: &mut Vec<u8>, x: u8)
    ensures
        final(out)@ == old(out)@ + senc_u8(x),
{
    out.push(x);
    proof {
        assert(out@ =~= old(out)@ + senc_u8(x));
    }
}

fn enc_u32(out: &mut Vec<u8>, x: u32)
    ensures
        final(out)@ == old(out)@ + senc_u32(x),
{
    let mut bs = u32_to_le_bytes(x);
    out.append(&mut bs);
}

fn enc_u64(out: &mut Vec<u8>, x: u64)
    ensures
        final(out)@ == old(out)@ + senc_u64(x),
{
    let mut bs = u64_to_le_bytes(x);
    out.append(&mut bs);
}

fn enc_i64(out: &mut Vec<u8>, x: i64)
    ensures
        final(out)@ == old(out)@ + senc_i64(x),
{
    enc_u64(out, x as u64);
}

fn enc_i32(out: &mut Vec<u8>, x: i32)
    ensures
        final(out)@ == old(out)@ + senc_i32(x),
{
    enc_u32(out, x as u32);
}

fn enc_bool(out: &mut Vec<u8>, x: bool)
    ensures
        final(out)@ == old(out)@ + senc_bool(x),
{
    if x {
        out.push(1);
    } else {
        out.push(0);
    }
    proof {
        assert(out@ =~= old(out)@ + senc_bool(x));
    }
}

fn enc_char(out: &mut Vec<u8>, c: char)
    ensures
        final(out)@ == old(out)@ + senc_char(c),
{
    enc_u32(out, c as u32);
}

fn enc_str(out: &mut Vec<u8>, s: &str)
    ensures
        final(out)@ == old(out)@ + senc_str(s@),
{
    let n = s.unicode_len();
    enc_u64(out, n as u64);
    let mut i: usize = 0;
    proof {
        assert(s@.take(0) =~= Seq::<char>::empty());
        assert(out@ =~= old(out)@ + senc_u64(s@.len() as u64) + senc_chars(s@.take(0)));
    }
    while i < n
        invariant
            n == s@.len(),
            i <= n,
            out@ == old(out)@ + senc_u64(s@.len() as u64) + senc_chars(s@.take(i as int)),
        decreases n - i,
    {
        let c = s.get_char(i);
        enc_char(out, c);
        proof {
            lemma_senc_chars_push(s@.take(i as int), c);
            assert(s@.take(i as int).push(c) =~= s@.take(i as int + 1));
            assert(out@ =~= old(out)@ + senc_u64(s@.len() as u64) + senc_chars(
                s@.take(i as int + 1),
            ));
        }
        i += 1;
    }
    proof {
        assert(s@.take(n as int) =~= s@);
        assert(out@ =~= old(out)@ + senc_str(s@));
    }
}

// ---------------------------------------------------------------------
// Executable decoders, each proved to follow its spec mirror.
// ---------------------------------------------------------------------

fn dec_u8(b: &Vec<u8>, pos: usize) -> (r: Option<(u8, usize)>)
    ensures
        match r {
            Some((v, j)) => sdec_u8(b@, pos as int) == Some((v, j as int)),
            None => sdec_u8(b@, pos as int) is None,
        },
{
    if pos < b.len() {
        Some((b[pos], pos + 1))
    } else {
        None
    }
}

fn dec_u32(b: &Vec<u8>, pos: usize) -> (r: Option<(u32, usize)>)
    ensures
        match r {
            Some((v, j)) => sdec_u32(b@, pos as int) == Some((v, j as int)),
            None => sdec_u32(b@, pos as int) is None,
        },
{
    if pos <= b.len() && b.len() - pos >= 4 {
        let s = slice_subrange(b.as_slice(), pos, pos + 4);
        let v = u32_from_le_bytes(s);
        Some((v, pos + 4))
    } else {
        None
    }
}

fn dec_u64(b: &Vec<u8>, pos: usize) -> (r: Option<(u64, usize)>)
    ensures
        match r {
            Some((v, j)) => sdec_u64(b@, pos as int) == Some((v, j as int)),
            None => sdec_u64(b@, pos as int) is None,
        },
{
    if pos <= b.len() && b.len() - pos >= 8 {
        let s = slice_subrange(b.as_slice(), pos, pos + 8);
        let v = u64_from_le_bytes(s);
        Some((v, pos + 8))
    } else {
        None
    }
}

fn dec_i64(b: &Vec<u8>, pos: usize) -> (r: Option<(i64, usize)>)
    ensures
        match r {
            Some((v, j)) => sdec_i64(b@, pos as int) == Some((v, j as int)),
            None => sdec_i64(b@, pos as int) is None,
        },
{
    match dec_u64(b, pos) {
        Some((v, j)) => Some((v as i64, j)),
        None => None,
    }
}

fn dec_i32(b: &Vec<u8>, pos: usize) -> (r: Option<(i32, usize)>)
    ensures
        match r {
            Some((v, j)) => sdec_i32(b@, pos as int) == Some((v, j as int)),
            None => sdec_i32(b@, pos as int) is None,
        },
{
    match dec_u32(b, pos) {
        Some((v, j)) => Some((v as i32, j)),
        None => None,
    }
}

fn dec_bool(b: &Vec<u8>, pos: usize) -> (r: Option<(bool, usize)>)
    ensures
        match r {
            Some((v, j)) => sdec_bool(b@, pos as int) == Some((v, j as int)),
            None => sdec_bool(b@, pos as int) is None,
        },
{
    match dec_u8(b, pos) {
        Some((v, j)) => if v == 0 {
            Some((false, j))
        } else if v == 1 {
            Some((true, j))
        } else {
            None
        },
        None => None,
    }
}

fn dec_char(b: &Vec<u8>, pos: usize) -> (r: Option<(char, usize)>)
    ensures
        match r {
            Some((c, j)) => sdec_char(b@, pos as int) == Some((c, j as int)),
            None => sdec_char(b@, pos as int) is None,
        },
{
    match dec_u32(b, pos) {
        Some((v, j)) => match char_from_u32(v) {
            Some(c) => {
                proof {
                    vstd::utf8::char_is_scalar(c);
                    vstd::utf8::char_u32_cast(c, c as u32);
                }
                Some((c, j))
            },
            None => None,
        },
        None => None,
    }
}

fn dec_str(b: &Vec<u8>, pos: usize) -> (r: Option<(String, usize)>)
    ensures
        match r {
            Some((s, j)) => sdec_str(b@, pos as int) == Some((s@, j as int)),
            None => sdec_str(b@, pos as int) is None,
        },
{
    match dec_u64(b, pos) {
        Some((n64, start)) => {
            if n64 > 0 {
                let room = if start <= b.len() {
                    (b.len() - start) / 4
                } else {
                    0
                };
                if n64 > room as u64 {
                    proof {
                        lemma_sdec_chars_shape(b@, start as int, n64 as nat);
                    }
                    return None;
                }
            }
            let n = n64 as usize;
            let mut s = String::new();
            let mut cur = start;
            let mut k: usize = 0;
            proof {
                match sdec_chars(b@, start as int, n as nat) {
                    Some((t, j)) => {
                        assert(s@ + t =~= t);
                    },
                    None => {},
                }
            }
            while k < n
                invariant
                    k <= n,
                    n64 == n,
                    sdec_u64(b@, pos as int) == Some((n64, start as int)),
                    sdec_chars(b@, start as int, n as nat) == (match sdec_chars(
                        b@,
                        cur as int,
                        (n - k) as nat,
                    ) {
                        Some((t, j)) => Some((s@ + t, j)),
                        None => None::<(Seq<char>, int)>,
                    }),
                decreases n - k,
            {
                let ghost m = (n - k) as nat;
                let ghost scur = cur as int;
                let ghost sold = s@;
                match dec_char(b, cur) {
                    Some((c, j2)) => {
                        push_char(&mut s, c);
                        cur = j2;
                        k += 1;
                        proof {
                            match sdec_chars(b@, j2 as int, (m - 1) as nat) {
                                Some((t, jj)) => {
                                    assert(sold + (seq![c] + t) =~= (sold + seq![c]) + t);
                                    assert(s@ =~= sold + seq![c]);
                                },
                                None => {},
                            }
                        }
                    },
                    None => {
                        proof {
                            assert(sdec_chars(b@, scur, m) is None);
                        }
                        return None;
                    },
                }
            }
            proof {
                assert(sdec_chars(b@, cur as int, 0) == Some((Seq::<char>::empty(), cur as int)));
                assert(s@ + Seq::<char>::empty() =~= s@);
            }
            Some((s, cur))
        },
        None => None,
    }
}

// ---------------------------------------------------------------------
// Small enums: one tag byte each.
// ---------------------------------------------------------------------

pub open spec fn suit_tag(x: Suit) -> u8 {
    match x {
        Suit::Hearts => 0,
        Suit::Diamonds => 1,
        Suit::Clubs => 2,
        Suit::Spades => 3,
    }
}

pub open spec fn suit_from_tag(t: u8) -> Option<Suit> {
    if t == 0 {
        Some(Suit::Hearts)
    } else if t == 1 {
        Some(Suit::Diamonds)
    } else if t == 2 {
        Some(Suit::Clubs)
    } else if t == 3 {
        Some(Suit::Spades)
    } else {
        None
    }
}

pub open spec fn rank_tag(x: Rank) -> u8 {
    (x.spec_value() - 2) as u8
}

pub open spec fn rank_from_tag(t: u8) -> Option<Rank> {
    if t == 0 {
        Some(Rank::Two)
    } else if t == 1 {
        Some(Rank::Three)
    } else if t == 2 {
        Some(Rank::Four)
    } else if t == 3 {
        Some(Rank::Five)
    } else if t == 4 {
        Some(Rank::Six)
    } else if t == 5 {
        Some(Rank::Seven)
    } else if t == 6 {
        Some(Rank::Eight)
    } else if t == 7 {
        Some(Rank::Nine)
    } else if t == 8 {
        Some(Rank::Ten)
    } else if t == 9 {
        Some(Rank::Jack)
    } else if t == 10 {
        Some(Rank::Queen)
    } else if t == 11 {
        Some(Rank::King)
    } else if t == 12 {
        Some(Rank::Ace)
    } else {
        None
    }
}

pub open spec fn game_type_tag(x: GameType) -> u8 {
    match x {
        GameType::TexasHoldem => 0,
        GameType::Omaha => 1,
        GameType::OmahaHiLo => 2,
        GameType::SevenCardStud => 3,
    }
}

pub open spec fn game_type_from_tag(t: u8) -> Option<GameType> {
    if t == 0 {
        Some(GameType::TexasHoldem)
    } else if t == 1 {
        Some(GameType::Omaha)
    } else if t == 2 {
        Some(GameType::OmahaHiLo)
    } else if t == 3 {
        Some(GameType::SevenCardStud)
    } else {
        None
    }
}

pub open spec fn phase_tag(x: GamePhase) -> u8 {
    match x {
        GamePhase::WaitingForPlayers => 0,
        GamePhase::PreFlop => 1,
        GamePhase::Flop => 2,
        GamePhase::Turn => 3,
        GamePhase::River => 4,
        GamePhase::Showdown => 5,
        GamePhase::HandComplete => 6,
    }
}

pub open spec fn phase_from_tag(t: u8) -> Option<GamePhase> {
    if t == 0 {
        Some(GamePhase::WaitingForPlayers)
    } else if t == 1 {
        Some(GamePhase::PreFlop)
    } else if t == 2 {
        Some(GamePhase::Flop)
    } else if t == 3 {
        Some(GamePhase::Turn)
    } else if t == 4 {
        Some(GamePhase::River)
    } else if t == 5 {
        Some(GamePhase::Showdown)
    } else if t == 6 {
        Some(GamePhase::HandComplete)
    } else {
        None
    }
}

pub open spec fn hand_type_tag(x: HandType) -> u8 {
    match x {
        HandType::HighCard => 0,
        HandType::Pair => 1,
        HandType::TwoPair => 2,
        HandType::ThreeOfAKind => 3,
        HandType::Straight => 4,
        HandType::Flush => 5,
        HandType::FullHouse => 6,
        HandType::FourOfAKind => 7,
        HandType::StraightFlush => 8,
        HandType::RoyalFlush => 9,
    }
}

pub open spec fn hand_type_from_tag(t: u8) -> Option<HandType> {
    if t == 0 {
        Some(HandType::HighCard)
    } else if t == 1 {
        Some(HandType::Pair)
    } else if t == 2 {
        Some(HandType::TwoPair)
    } else if t == 3 {
        Some(HandType::ThreeOfAKind)
    } else if t == 4 {
        Some(HandType::Straight)
    } else if t == 5 {
        Some(HandType::Flush)
    } else if t == 6 {
        Some(HandType::FullHouse)
    } else if t == 7 {
        Some(HandType::FourOfAKind)
    } else if t == 8 {
        Some(HandType::StraightFlush)
    } else if t == 9 {
        Some(HandType::RoyalFlush)
    } else {
        None
    }
}

pub open spec fn status_tag(x: PlayerStatus) -> u8 {
    match x {
        PlayerStatus::Online => 0,
        PlayerStatus::Playing => 1,
        PlayerStatus::Away => 2,
    }
}

pub open spec fn status_from_tag(t: u8) -> Option<PlayerStatus> {
    if t == 0 {
        Some(PlayerStatus::Online)
    } else if t == 1 {
        Some(PlayerStatus::Playing)
    } else if t == 2 {
        Some(PlayerStatus::Away)
    } else {
        None
    }
}

pub open spec fn senc_suit(x: Suit) -> Seq<u8> {
    senc_u8(suit_tag(x))
}

pub open spec fn sdec_suit(b: Seq<u8>, i: int) -> Option<(Suit, int)> {
    match sdec_u8(b, i) {
        Some((t, j)) => match suit_from_tag(t) {
            Some(x) => Some((x, j)),
            None => None,
        },
        None => None,
    }
}

pub open spec fn senc_rank(x: Rank) -> Seq<u8> {
    senc_u8(rank_tag(x))
}

pub open spec fn sdec_rank(b: Seq<u8>, i: int) -> Option<(Rank, int)> {
    match sdec_u8(b, i) {
        Some((t, j)) => match rank_from_tag(t) {
            Some(x) => Some((x, j)),
            None => None,
        },
        None => None,
    }
}

pub open spec fn senc_game_type(x: GameType) -> Seq<u8> {
    senc_u8(game_type_tag(x))
}

pub open spec fn sdec_game_type(b: Seq<u8>, i: int) -> Option<(GameType, int)> {
    match sdec_u8(b, i) {
        Some((t, j)) => match game_type_from_tag(t) {
            Some(x) => Some((x, j)),
            None => None,
        },
        None => None,
    }
}

pub open spec fn senc_phase(x: GamePhase) -> Seq<u8> {
    senc_u8(phase_tag(x))
}

pub open spec fn sdec_phase(b: Seq<u8>, i: int) -> Option<(GamePhase, int)> {
    match sdec_u8(b, i) {
        Some((t, j)) => match phase_from_tag(t) {
            Some(x) => Some((x, j)),
            None => None,
        },
        None => None,
    }
}

pub open spec fn senc_hand_type(x: HandType) -> Seq<u8> {
    senc_u8(hand_type_tag(x))
}

pub open spec fn sdec_hand_type(b: Seq<u8>, i: int) -> Option<(HandType, int)> {
    match sdec_u8(b, i) {
        Some((t, j)) => match hand_type_from_tag(t) {
            Some(x) => Some((x, j)),
            None => None,
        },
        None => None,
    }
}

pub open spec fn senc_status(x: PlayerStatus) -> Seq<u8> {
    senc_u8(status_tag(x))
}

pub open spec fn sdec_status(b: Seq<u8>, i: int) -> Option<(PlayerStatus, int)> {
    match sdec_u8(b, i) {
        Some((t, j)) => match status_from_tag(t) {
            Some(x) => Some((x, j)),
            None => None,
        },
        None => None,
    }
}

// ---------------------------------------------------------------------
// Cards, actions and settlement records.
// ---------------------------------------------------------------------

pub open spec fn senc_card(x: Card) -> Seq<u8> {
    match x {
        Card::Unknown => seq![0u8],
        Card::Card { suit, rank } => seq![1u8] + senc_suit(suit) + senc_rank(rank),
    }
}

pub open spec fn sdec_card(b: Seq<u8>, i: int) -> Option<(Card, int)> {
    match sdec_u8(b, i) {
        Some((t, j)) => if t == 0 {
            Some((Card::Unknown, j))
        } else if t == 1 {
            match sdec_suit(b, j) {
                Some((suit, j2)) => match sdec_rank(b, j2) {
                    Some((rank, j3)) => Some((Card::Card { suit, rank }, j3)),
                    None => None,
                },
                None => None,
            }
        } else {
            None
        },
        None => None,
    }
}

pub open spec fn senc_action(x: PlayerAction) -> Seq<u8> {
    match x {
        PlayerAction::Fold => seq![0u8],
        PlayerAction::Check => seq![1u8],
        PlayerAction::Call => seq![2u8],
        PlayerAction::AllIn => seq![3u8],
        PlayerAction::Bet(v) => seq![4u8] + senc_i64(v),
        PlayerAction::Raise(v) => seq![5u8] + senc_i64(v),
    }
}

pub open spec fn sdec_action(b: Seq<u8>, i: int) -> Option<(PlayerAction, int)> {
    match sdec_u8(b, i) {
        Some((t, j)) => if t == 0 {
            Some((PlayerAction::Fold, j))
        } else if t == 1 {
            Some((PlayerAction::Check, j))
        } else if t == 2 {
            Some((PlayerAction::Call, j))
        } else if t == 3 {
            Some((PlayerAction::AllIn, j))
        } else if t == 4 {
            match sdec_i64(b, j) {
                Some((v, j2)) => Some((PlayerAction::Bet(v), j2)),
                None => None,
            }
        } else if t == 5 {
            match sdec_i64(b, j) {
                Some((v, j2)) => Some((PlayerAction::Raise(v), j2)),
                None => None,
            }
        } else {
            None
        },
        None => None,
    }
}

pub open spec fn senc_game_action(x: GameAction) -> Seq<u8> {
    senc_u64(x.player_id) + senc_action(x.action) + senc_i64(x.amount) + senc_i64(x.timestamp)
}

pub open spec fn sdec_game_action(b: Seq<u8>, i: int) -> Option<(GameAction, int)> {
    match sdec_u64(b, i) {
        Some((player_id, j)) => match sdec_action(b, j) {
            Some((action, j2)) => match sdec_i64(b, j2) {
                Some((amount, j3)) => match sdec_i64(b, j3) {
                    Some((timestamp, j4)) => Some(
                        (GameAction { player_id, action, amount, timestamp }, j4),
                    ),
                    None => None,
                },
                None => None,
            },
            None => None,
        },
        None => None,
    }
}

pub open spec fn senc_pot_winner(x: PotWinner) -> Seq<u8> {
    senc_u64(x.player_id) + senc_i64(x.amount)
}

pub open spec fn sdec_pot_winner(b: Seq<u8>, i: int) -> Option<(PotWinner, int)> {
    match sdec_u64(b, i) {
        Some((player_id, j)) => match sdec_i64(b, j) {
            Some((amount, j2)) => Some((PotWinner { player_id, amount }, j2)),
            None => None,
        },
        None => None,
    }
}

pub proof fn lemma_rt_suit(b: Seq<u8>, i: int, x: Suit)
    requires
        0 <= i,
        i + senc_suit(x).len() <= b.len(),
        b.subrange(i, i + senc_suit(x).len()) == senc_suit(x),
    ensures
        senc_suit(x).len() == 1,
        sdec_suit(b, i) == Some((x, i + 1)),
{
    lemma_rt_u8(b, i, suit_tag(x));
}

pub proof fn lemma_rt_rank(b: Seq<u8>, i: int, x: Rank)
    requires
        0 <= i,
        i + senc_rank(x).len() <= b.len(),
        b.subrange(i, i + senc_rank(x).len()) == senc_rank(x),
    ensures
        senc_rank(x).len() == 1,
        sdec_rank(b, i) == Some((x, i + 1)),
{
    lemma_rt_u8(b, i, rank_tag(x));
}

pub proof fn lemma_rt_game_type(b: Seq<u8>, i: int, x: GameType)
    requires
        0 <= i,
        i + senc_game_type(x).len() <= b.len(),
        b.subrange(i, i + senc_game_type(x).len()) == senc_game_type(x),
    ensures
        senc_game_type(x).len() == 1,
        sdec_game_type(b, i) == Some((x, i + 1)),
{
    lemma_rt_u8(b, i, game_type_tag(x));
}

pub proof fn lemma_rt_phase(b: Seq<u8>, i: int, x: GamePhase)
    requires
        0 <= i,
        i + senc_phase(x).len() <= b.len(),
        b.subrange(i, i + senc_phase(x).len()) == senc_phase(x),
    ensures
        senc_phase(x).len() == 1,
        sdec_phase(b, i) == Some((x, i + 1)),
{
    lemma_rt_u8(b, i, phase_tag(x));
}

pub proof fn lemma_rt_hand_type(b: Seq<u8>, i: int, x: HandType)
    requires
        0 <= i,
        i + senc_hand_type(x).len() <= b.len(),
        b.subrange(i, i + senc_hand_type(x).len()) == senc_hand_type(x),
    ensures
        senc_hand_type(x).len() == 1,
        sdec_hand_type(b, i) == Some((x, i + 1)),
{
    lemma_rt_u8(b, i, hand_type_tag(x));
}

pub proof fn lemma_rt_status(b: Seq<u8>, i: int, x: PlayerStatus)
    requires
        0 <= i,
        i + senc_status(x).len() <= b.len(),
        b.subrange(i, i + senc_status(x).len()) == senc_status(x),
    ensures
        senc_status(x).len() == 1,
        sdec_status(b, i) == Some((x, i + 1)),
{
    lemma_rt_u8(b, i, status_tag(x));
}

pub proof fn lemma_rt_card(b: Seq<u8>, i: int, x: Card)
    requires
        0 <= i,
        i + senc_card(x).len() <= b.len(),
        b.subrange(i, i + senc_card(x).len()) == senc_card(x),
    ensures
        sdec_card(b, i) == Some((x, i + senc_card(x).len())),
{
    match x {
        Card::Unknown => {
            assert(senc_card(x) =~= senc_u8(0u8));
            lemma_rt_u8(b, i, 0u8);
        },
        Card::Card { suit, rank } => {
            let s01 = seq![1u8] + senc_suit(suit);
            lemma_concat_at(b, i, s01, senc_rank(rank));
            lemma_concat_at(b, i, seq![1u8], senc_suit(suit));
            assert(seq![1u8] =~= senc_u8(1u8));
            lemma_rt_u8(b, i, 1u8);
            lemma_rt_suit(b, i + 1, suit);
            lemma_rt_rank(b, i + 2, rank);
        },
    }
}

pub proof fn lemma_rt_action(b: Seq<u8>, i: int, x: PlayerAction)
    requires
        0 <= i,
        i + senc_action(x).len() <= b.len(),
        b.subrange(i, i + senc_action(x).len()) == senc_action(x),
    ensures
        sdec_action(b, i) == Some((x, i + senc_action(x).len())),
{
    lemma_auto_spec_u64_to_from_le_bytes();
    match x {
        PlayerAction::Fold => {
            assert(senc_action(x) =~= senc_u8(0u8));
            lemma_rt_u8(b, i, 0u8);
        },
        PlayerAction::Check => {
            assert(senc_action(x) =~= senc_u8(1u8));
            lemma_rt_u8(b, i, 1u8);
        },
        PlayerAction::Call => {
            assert(senc_action(x) =~= senc_u8(2u8));
            lemma_rt_u8(b, i, 2u8);
        },
        PlayerAction::AllIn => {
            assert(senc_action(x) =~= senc_u8(3u8));
            lemma_rt_u8(b, i, 3u8);
        },
        PlayerAction::Bet(v) => {
            lemma_concat_at(b, i, seq![4u8], senc_i64(v));
            assert(seq![4u8] =~= senc_u8(4u8));
            lemma_rt_u8(b, i, 4u8);
            lemma_rt_i64(b, i + 1, v);
        },
        PlayerAction::Raise(v) => {
            lemma_concat_at(b, i, seq![5u8], senc_i64(v));
            assert(seq![5u8] =~= senc_u8(5u8));
            lemma_rt_u8(b, i, 5u8);
            lemma_rt_i64(b, i + 1, v);
        },
    }
}

pub proof fn lemma_rt_game_action(b: Seq<u8>, i: int, x: GameAction)
    requires
        0 <= i,
        i + senc_game_action(x).len() <= b.len(),
        b.subrange(i, i + senc_game_action(x).len()) == senc_game_action(x),
    ensures
        sdec_game_action(b, i) == Some((x, i + senc_game_action(x).len())),
{
    lemma_auto_spec_u64_to_from_le_bytes();
    let f1 = senc_u64(x.player_id);
    let f2 = senc_action(x.action);
    let f3 = senc_i64(x.amount);
    let f4 = senc_i64(x.timestamp);
    lemma_concat_at(b, i, f1 + f2 + f3, f4);
    lemma_concat_at(b, i, f1 + f2, f3);
    lemma_concat_at(b, i, f1, f2);
    lemma_rt_u64(b, i, x.player_id);
    lemma_rt_action(b, i + 8, x.action);
    lemma_rt_i64(b, i + 8 + f2.len(), x.amount);
    lemma_rt_i64(b, i + 8 + f2.len() + 8, x.timestamp);
}

pub proof fn lemma_rt_pot_winner(b: Seq<u8>, i: int, x: PotWinner)
    requires
        0 <= i,
        i + senc_pot_winner(x).len() <= b.len(),
        b.subrange(i, i + senc_pot_winner(x).len()) == senc_pot_winner(x),
    ensures
        senc_pot_winner(x).len() == 16,
        sdec_pot_winner(b, i) == Some((x, i + 16)),
{
    lemma_auto_spec_u64_to_from_le_bytes();
    lemma_concat_at(b, i, senc_u64(x.player_id), senc_i64(x.amount));
    lemma_rt_u64(b, i, x.player_id);
    lemma_rt_i64(b, i + 8, x.amount);
}

// ---------------------------------------------------------------------
// Executable encoders and decoders for cards, actions and records.
// ---------------------------------------------------------------------

fn enc_suit(out: &mut Vec<u8>, x: Suit)
    ensures
        final(out)@ == old(out)@ + senc_suit(x),
{
    match x {
        Suit::Hearts => enc_u8(out, 0),
        Suit::Diamonds => enc_u8(out, 1),
        Suit::Clubs => enc_u8(out, 2),
        Suit::Spades => enc_u8(out, 3),
    }
}

fn dec_suit(b: &Vec<u8>, pos: usize) -> (r: Option<(Suit, usize)>)
    ensures
        match r {
            Some((v, j)) => sdec_suit(b@, pos as int) == Some((v, j as int)),
            None => sdec_suit(b@, pos as int) is None,
        },
{
    match dec_u8(b, pos) {
        Some((t, j)) => {
            if t == 0 {
                Some((Suit::Hearts, j))
            } else if t == 1 {
                Some((Suit::Diamonds, j))
            } else if t == 2 {
                Some((Suit::Clubs, j))
            } else if t == 3 {
                Some((Suit::Spades, j))
            } else {
                None
            }
        },
        None => None,
    }
}

fn enc_rank(out: &mut Vec<u8>, x: Rank)
    ensures
        final(out)@ == old(out)@ + senc_rank(x),
{
    let v = x.value();
    enc_u8(out, v - 2);
}

fn dec_rank(b: &Vec<u8>, pos: usize) -> (r: Option<(Rank, usize)>)
    ensures
        match r {
            Some((v, j)) => sdec_rank(b@, pos as int) == Some((v, j as int)),
            None => sdec_rank(b@, pos as int) is None,
        },
{
    match dec_u8(b, pos) {
        Some((t, j)) => {
            let x = if t == 0 {
                Some(Rank::Two)
            } else if t == 1 {
                Some(Rank::Three)
            } else if t == 2 {
                Some(Rank::Four)
            } else if t == 3 {
                Some(Rank::Five)
            } else if t == 4 {
                Some(Rank::Six)
            } else if t == 5 {
                Some(Rank::Seven)
            } else if t == 6 {
                Some(Rank::Eight)
            } else if t == 7 {
                Some(Rank::Nine)
            } else if t == 8 {
                Some(Rank::Ten)
            } else if t == 9 {
                Some(Rank::Jack)
            } else if t == 10 {
                Some(Rank::Queen)
            } else if t == 11 {
                Some(Rank::King)
            } else if t == 12 {
                Some(Rank::Ace)
            } else {
                None
            };
            match x {
                Some(rank) => Some((rank, j)),
                None => None,
            }
        },
        None => None,
    }
}

fn enc_game_type(out: &mut Vec<u8>, x: GameType)
    ensures
        final(out)@ == old(out)@ + senc_game_type(x),
{
    match x {
        GameType::TexasHoldem => enc_u8(out, 0),
        GameType::Omaha => enc_u8(out, 1),
        GameType::OmahaHiLo => enc_u8(out, 2),
        GameType::SevenCardStud => enc_u8(out, 3),
    }
}

fn dec_game_type(b: &Vec<u8>, pos: usize) -> (r: Option<(GameType, usize)>)
    ensures
        match r {
            Some((v, j)) => sdec_game_type(b@, pos as int) == Some((v, j as int)),
            None => sdec_game_type(b@, pos as int) is None,
        },
{
    match dec_u8(b, pos) {
        Some((t, j)) => {
            if t == 0 {
                Some((GameType::TexasHoldem, j))
            } else if t == 1 {
                Some((GameType::Omaha, j))
            } else if t == 2 {
                Some((GameType::OmahaHiLo, j))
            } else if t == 3 {
                Some((GameType::SevenCardStud, j))
            } else {
                None
            }
        },
        None => None,
    }
}

fn enc_phase(out: &mut Vec<u8>, x: GamePhase)
    ensures
        final(out)@ == old(out)@ + senc_phase(x),
{
    match x {
        GamePhase::WaitingForPlayers => enc_u8(out, 0),
        GamePhase::PreFlop => enc_u8(out, 1),
        GamePhase::Flop => enc_u8(out, 2),
        GamePhase::Turn => enc_u8(out, 3),
        GamePhase::River => enc_u8(out, 4),
        GamePhase::Showdown => enc_u8(out, 5),
        GamePhase::HandComplete => enc_u8(out, 6),
    }
}

fn dec_phase(b: &Vec<u8>, pos: usize) -> (r: Option<(GamePhase, usize)>)
    ensures
        match r {
            Some((v, j)) => sdec_phase(b@, pos as int) == Some((v, j as int)),
            None => sdec_phase(b@, pos as int) is None,
        },
{
    match dec_u8(b, pos) {
        Some((t, j)) => {
            if t == 0 {
                Some((GamePhase::WaitingForPlayers, j))
            } else if t == 1 {
                Some((GamePhase::PreFlop, j))
            } else if t == 2 {
                Some((GamePhase::Flop, j))
            } else if t == 3 {
                Some((GamePhase::Turn, j))
            } else if t == 4 {
                Some((GamePhase::River, j))
            } else if t == 5 {
                Some((GamePhase::Showdown, j))
            } else if t == 6 {
                Some((GamePhase::HandComplete, j))
            } else {
                None
            }
        },
        None => None,
    }
}

fn enc_hand_type(out: &mut Vec<u8>, x: HandType)
    ensures
        final(out)@ == old(out)@ + senc_hand_type(x),
{
    match x {
        HandType::HighCard => enc_u8(out, 0),
        HandType::Pair => enc_u8(out, 1),
        HandType::TwoPair => enc_u8(out, 2),
        HandType::ThreeOfAKind => enc_u8(out, 3),
        HandType::Straight => enc_u8(out, 4),
        HandType::Flush => enc_u8(out, 5),
        HandType::FullHouse => enc_u8(out, 6),
        HandType::FourOfAKind => enc_u8(out, 7),
        HandType::StraightFlush => enc_u8(out, 8),
        HandType::RoyalFlush => enc_u8(out, 9),
    }
}

fn dec_hand_type(b: &Vec<u8>, pos: usize) -> (r: Option<(HandType, usize)>)
    ensures
        match r {
            Some((v, j)) => sdec_hand_type(b@, pos as int) == Some((v, j as int)),
            None => sdec_hand_type(b@, pos as int) is None,
        },
{
    match dec_u8(b, pos) {
        Some((t, j)) => {
            if t == 0 {
                Some((HandType::HighCard, j))
            } else if t == 1 {
                Some((HandType::Pair, j))
            } else if t == 2 {
                Some((HandType::TwoPair, j))
            } else if t == 3 {
                Some((HandType::ThreeOfAKind, j))
            } else if t == 4 {
                Some((HandType::Straight, j))
            } else if t == 5 {
                Some((HandType::Flush, j))
            } else if t == 6 {
                Some((HandType::FullHouse, j))
            } else if t == 7 {
                Some((HandType::FourOfAKind, j))
            } else if t == 8 {
                Some((HandType::StraightFlush, j))
            } else if t == 9 {
                Some((HandType::RoyalFlush, j))
            } else {
                None
            }
        },
        None => None,
    }
}

fn enc_status(out: &mut Vec<u8>, x: PlayerStatus)
    ensures
        final(out)@ == old(out)@ + senc_status(x),
{
    match x {
        PlayerStatus::Online => enc_u8(out, 0),
        PlayerStatus::Playing => enc_u8(out, 1),
        PlayerStatus::Away => enc_u8(out, 2),
    }
}

fn dec_status(b: &Vec<u8>, pos: usize) -> (r: Option<(PlayerStatus, usize)>)
    ensures
        match r {
            Some((v, j)) => sdec_status(b@, pos as int) == Some((v, j as int)),
            None => sdec_status(b@, pos as int) is None,
        },
{
    match dec_u8(b, pos) {
        Some((t, j)) => {
            if t == 0 {
                Some((PlayerStatus::Online, j))
            } else if t == 1 {
                Some((PlayerStatus::Playing, j))
            } else if t == 2 {
                Some((PlayerStatus::Away, j))
            } else {
                None
            }
        },
        None => None,
    }
}

fn enc_card(out: &mut Vec<u8>, x: Card)
    ensures
        final(out)@ == old(out)@ + senc_card(x),
{
    match x {
        Card::Unknown => {
            enc_u8(out, 0);
            proof {
                assert(old(out)@ + senc_u8(0u8) =~= old(out)@ + senc_card(x));
            }
        },
        Card::Card { suit, rank } => {
            enc_u8(out, 1);
            enc_suit(out, suit);
            enc_rank(out, rank);
            proof {
                assert(out@ =~= old(out)@ + senc_card(x));
            }
        },
    }
}

fn dec_card(b: &Vec<u8>, pos: usize) -> (r: Option<(Card, usize)>)
    ensures
        match r {
            Some((v, j)) => sdec_card(b@, pos as int) == Some((v, j as int)),
            None => sdec_card(b@, pos as int) is None,
        },
{
    match dec_u8(b, pos) {
        Some((t, j)) => {
            if t == 0 {
                Some((Card::Unknown, j))
            } else if t == 1 {
                match dec_suit(b, j) {
                    Some((suit, j2)) => match dec_rank(b, j2) {
                        Some((rank, j3)) => Some((Card::Card { suit, rank }, j3)),
                        None => None,
                    },
                    None => None,
                }
            } else {
                None
            }
        },
        None => None,
    }
}

fn enc_action(out: &mut Vec<u8>, x: PlayerAction)
    ensures
        final(out)@ == old(out)@ + senc_action(x),
{
    match x {
        PlayerAction::Fold => {
            enc_u8(out, 0);
            proof {
                assert(out@ =~= old(out)@ + senc_action(x));
            }
        },
        PlayerAction::Check => {
            enc_u8(out, 1);
            proof {
                assert(out@ =~= old(out)@ + senc_action(x));
            }
        },
        PlayerAction::Call => {
            enc_u8(out, 2);
            proof {
                assert(out@ =~= old(out)@ + senc_action(x));
            }
        },
        PlayerAction::AllIn => {
            enc_u8(out, 3);
            proof {
                assert(out@ =~= old(out)@ + senc_action(x));
            }
        },
        PlayerAction::Bet(v) => {
            enc_u8(out, 4);
            enc_i64(out, v);
            proof {
                assert(out@ =~= old(out)@ + senc_action(x));
            }
        },
        PlayerAction::Raise(v) => {
            enc_u8(out, 5);
            enc_i64(out, v);
            proof {
                assert(out@ =~= old(out)@ + senc_action(x));
            }
        },
    }
}

fn dec_action(b: &Vec<u8>, pos: usize) -> (r: Option<(PlayerAction, usize)>)
    ensures
        match r {
            Some((v, j)) => sdec_action(b@, pos as int) == Some((v, j as int)),
            None => sdec_action(b@, pos as int) is None,
        },
{
    match dec_u8(b, pos) {
        Some((t, j)) => {
            if t == 0 {
                Some((PlayerAction::Fold, j))
            } else if t == 1 {
                Some((PlayerAction::Check, j))
            } else if t == 2 {
                Some((PlayerAction::Call, j))
            } else if t == 3 {
                Some((PlayerAction::AllIn, j))
            } else if t == 4 {
                match dec_i64(b, j) {
                    Some((v, j2)) => Some((PlayerAction::Bet(v), j2)),
                    None => None,
                }
            } else if t == 5 {
                match dec_i64(b, j) {
                    Some((v, j2)) => Some((PlayerAction::Raise(v), j2)),
                    None => None,
                }
            } else {
                None
            }
        },
        None => None,
    }
}

fn enc_game_action(out: &mut Vec<u8>, x: &GameAction)
    ensures
        final(out)@ == old(out)@ + senc_game_action(*x),
{
    enc_u64(out, x.player_id);
    enc_action(out, x.action);
    enc_i64(out, x.amount);
    enc_i64(out, x.timestamp);
    proof {
        assert(out@ =~= old(out)@ + senc_game_action(*x));
    }
}

fn dec_game_action(b: &Vec<u8>, pos: usize) -> (r: Option<(GameAction, usize)>)
    ensures
        match r {
            Some((v, j)) => sdec_game_action(b@, pos as int) == Some((v, j as int)),
            None => sdec_game_action(b@, pos as int) is None,
        },
{
    match dec_u64(b, pos) {
        Some((player_id, j)) => match dec_action(b, j) {
            Some((action, j2)) => match dec_i64(b, j2) {
                Some((amount, j3)) => match dec_i64(b, j3) {
                    Some((timestamp, j4)) => Some(
                        (GameAction { player_id, action, amount, timestamp }, j4),
                    ),
                    None => None,
                },
                None => None,
            },
            None => None,
        },
        None => None,
    }
}

fn enc_pot_winner(out: &mut Vec<u8>, x: &PotWinner)
    ensures
        final(out)@ == old(out)@ + senc_pot_winner(*x),
{
    enc_u64(out, x.player_id);
    enc_i64(out, x.amount);
    proof {
        assert(out@ =~= old(out)@ + senc_pot_winner(*x));
    }
}

fn dec_pot_winner(b: &Vec<u8>, pos: usize) -> (r: Option<(PotWinner, usize)>)
    ensures
        match r {
            Some((v, j)) => sdec_pot_winner(b@, pos as int) == Some((v, j as int)),
            None => sdec_pot_winner(b@, pos as int) is None,
        },
{
    match dec_u64(b, pos) {
        Some((player_id, j)) => match dec_i64(b, j) {
            Some((amount, j2)) => Some((PotWinner { player_id, amount }, j2)),
            None => None,
        },
        None => None,
    }
}

// ---------------------------------------------------------------------
// Options: a presence byte, then the payload.
// ---------------------------------------------------------------------

pub open spec fn senc_opt_str(o: Option<Seq<char>>) -> Seq<u8> {
    match o {
        None => seq![0u8],
        Some(s) => seq![1u8] + senc_str(s),
    }
}

pub open spec fn sdec_opt_str(b: Seq<u8>, i: int) -> Option<(Option<Seq<char>>, int)> {
    match sdec_u8(b, i) {
        Some((t, j)) => if t == 0 {
            Some((None, j))
        } else if t == 1 {
            match sdec_str(b, j) {
                Some((s, j2)) => Some((Some(s), j2)),
                None => None,
            }
        } else {
            None
        },
        None => None,
    }
}

pub open spec fn senc_opt_i32(o: Option<i32>) -> Seq<u8> {
    match o {
        None => seq![0u8],
        Some(v) => seq![1u8] + senc_i32(v),
    }
}

pub open spec fn sdec_opt_i32(b: Seq<u8>, i: int) -> Option<(Option<i32>, int)> {
    match sdec_u8(b, i) {
        Some((t, j)) => if t == 0 {
            Some((None, j))
        } else if t == 1 {
            match sdec_i32(b, j) {
                Some((v, j2)) => Some((Some(v), j2)),
                None => None,
            }
        } else {
            None
        },
        None => None,
    }
}

pub open spec fn senc_opt_status(o: Option<PlayerStatus>) -> Seq<u8> {
    match o {
        None => seq![0u8],
        Some(v) => seq![1u8] + senc_status(v),
    }
}

pub open spec fn sdec_opt_status(b: Seq<u8>, i: int) -> Option<(Option<PlayerStatus>, int)> {
    match sdec_u8(b, i) {
        Some((t, j)) => if t == 0 {
            Some((None, j))
        } else if t == 1 {
            match sdec_status(b, j) {
                Some((v, j2)) => Some((Some(v), j2)),
                None => None,
            }
        } else {
            None
        },
        None => None,
    }
}

pub proof fn lemma_rt_opt_str(b: Seq<u8>, i: int, o: Option<Seq<char>>)
    requires
        0 <= i,
        o matches Some(s) ==> s.len() <= u64::MAX,
        i + senc_opt_str(o).len() <= b.len(),
        b.subrange(i, i + senc_opt_str(o).len()) == senc_opt_str(o),
    ensures
        sdec_opt_str(b, i) == Some((o, i + senc_opt_str(o).len())),
{
    match o {
        None => {
            assert(senc_opt_str(o) =~= senc_u8(0u8));
            lemma_rt_u8(b, i, 0u8);
        },
        Some(s) => {
            lemma_concat_at(b, i, seq![1u8], senc_str(s));
            assert(seq![1u8] =~= senc_u8(1u8));
            lemma_rt_u8(b, i, 1u8);
            lemma_rt_str(b, i + 1, s);
        },
    }
}

pub proof fn lemma_rt_opt_i32(b: Seq<u8>, i: int, o: Option<i32>)
    requires
        0 <= i,
        i + senc_opt_i32(o).len() <= b.len(),
        b.subrange(i, i + senc_opt_i32(o).len()) == senc_opt_i32(o),
    ensures
        sdec_opt_i32(b, i) == Some((o, i + senc_opt_i32(o).len())),
{
    lemma_auto_spec_u32_to_from_le_bytes();
    match o {
        None => {
            assert(senc_opt_i32(o) =~= senc_u8(0u8));
            lemma_rt_u8(b, i, 0u8);
        },
        Some(v) => {
            lemma_concat_at(b, i, seq![1u8], senc_i32(v));
            assert(seq![1u8] =~= senc_u8(1u8));
            lemma_rt_u8(b, i, 1u8);
            lemma_rt_i32(b, i + 1, v);
        },
    }
}

pub proof fn lemma_rt_opt_status(b: Seq<u8>, i: int, o: Option<PlayerStatus>)
    requires
        0 <= i,
        i + senc_opt_status(o).len() <= b.len(),
        b.subrange(i, i + senc_opt_status(o).len()) == senc_opt_status(o),
    ensures
        sdec_opt_status(b, i) == Some((o, i + senc_opt_status(o).len())),
{
    match o {
        None => {
            assert(senc_opt_status(o) =~= senc_u8(0u8));
            lemma_rt_u8(b, i, 0u8);
        },
        Some(v) => {
            lemma_concat_at(b, i, seq![1u8], senc_status(v));
            assert(seq![1u8] =~= senc_u8(1u8));
            lemma_rt_u8(b, i, 1u8);
            lemma_rt_status(b, i + 1, v);
        },
    }
}

fn enc_opt_str(out: &mut Vec<u8>, v: &Option<String>)
    ensures
        final(out)@ == old(out)@ + senc_opt_str(opt_str_view(*v)),
{
    match v {
        None => {
            enc_u8(out, 0);
            proof {
                assert(out@ =~= old(out)@ + senc_opt_str(opt_str_view(*v)));
            }
        },
        Some(s) => {
            enc_u8(out, 1);
            enc_str(out, s.as_str());
            proof {
                assert(out@ =~= old(out)@ + senc_opt_str(opt_str_view(*v)));
            }
        },
    }
}

fn dec_opt_str(b: &Vec<u8>, pos: usize) -> (r: Option<(Option<String>, usize)>)
    ensures
        match r {
            Some((v, j)) => sdec_opt_str(b@, pos as int) == Some((opt_str_view(v), j as int)),
            None => sdec_opt_str(b@, pos as int) is None,
        },
{
    match dec_u8(b, pos) {
        Some((t, j)) => {
            if t == 0 {
                Some((None, j))
            } else if t == 1 {
                match dec_str(b, j) {
                    Some((s, j2)) => Some((Some(s), j2)),
                    None => None,
                }
            } else {
                None
            }
        },
        None => None,
    }
}

fn enc_opt_i32(out: &mut Vec<u8>, v: &Option<i32>)
    ensures
        final(out)@ == old(out)@ + senc_opt_i32(*v),
{
    match v {
        None => {
            enc_u8(out, 0);
            proof {
                assert(out@ =~= old(out)@ + senc_opt_i32(*v));
            }
        },
        Some(x) => {
            enc_u8(out, 1);
            enc_i32(out, *x);
            proof {
                assert(out@ =~= old(out)@ + senc_opt_i32(*v));
            }
        },
    }
}

fn dec_opt_i32(b: &Vec<u8>, pos: usize) -> (r: Option<(Option<i32>, usize)>)
    ensures
        match r {
            Some((v, j)) => sdec_opt_i32(b@, pos as int) == Some((v, j as int)),
            None => sdec_opt_i32(b@, pos as int) is None,
        },
{
    match dec_u8(b, pos) {
        Some((t, j)) => {
            if t == 0 {
                Some((None, j))
            } else if t == 1 {
                match dec_i32(b, j) {
                    Some((v, j2)) => Some((Some(v), j2)),
                    None => None,
                }
            } else {
                None
            }
        },
        None => None,
    }
}

fn enc_opt_status(out: &mut Vec<u8>, v: &Option<PlayerStatus>)
    ensures
        final(out)@ == old(out)@ + senc_opt_status(*v),
{
    match v {
        None => {
            enc_u8(out, 0);
            proof {
                assert(out@ =~= old(out)@ + senc_opt_status(*v));
            }
        },
        Some(x) => {
            enc_u8(out, 1);
            enc_status(out, *x);
            proof {
                assert(out@ =~= old(out)@ + senc_opt_status(*v));
            }
        },
    }
}

fn dec_opt_status(b: &Vec<u8>, pos: usize) -> (r: Option<(Option<PlayerStatus>, usize)>)
    ensures
        match r {
            Some((v, j)) => sdec_opt_status(b@, pos as int) == Some((v, j as int)),
            None => sdec_opt_status(b@, pos as int) is None,
        },
{
    match dec_u8(b, pos) {
        Some((t, j)) => {
            if t == 0 {
                Some((None, j))
            } else if t == 1 {
                match dec_status(b, j) {
                    Some((v, j2)) => Some((Some(v), j2)),
                    None => None,
                }
            } else {
                None
            }
        },
        None => None,
    }
}

// ---------------------------------------------------------------------
// Lists: a 64-bit count, then the items back to back.
// ---------------------------------------------------------------------

pub open spec fn senc_card_items(s: Seq<Card>) -> Seq<u8>
    decreases s.len(),
{
    if s.len() == 0 {
        Seq::empty()
    } else {
        senc_card(s[0]) + senc_card_items(s.drop_first())
    }
}

pub open spec fn senc_card_list(s: Seq<Card>) -> Seq<u8> {
    senc_u64(s.len() as u64) + senc_card_items(s)
}

pub open spec fn sdec_card_items(b: Seq<u8>, i: int, n: nat) -> Option<(Seq<Card>, int)>
    decreases n,
{
    if n == 0 {
        Some((Seq::empty(), i))
    } else {
        match sdec_card(b, i) {
            Some((c, j)) => match sdec_card_items(b, j, (n - 1) as nat) {
                Some((s, k)) => Some((seq![c] + s, k)),
                None => None,
            },
            None => None,
        }
    }
}

pub open spec fn sdec_card_list(b: Seq<u8>, i: int) -> Option<(Seq<Card>, int)> {
    match sdec_u64(b, i) {
        Some((n, j)) => sdec_card_items(b, j, n as nat),
        None => None,
    }
}

pub proof fn lemma_senc_card_items_push(s: Seq<Card>, c: Card)
    ensures
        senc_card_items(s.push(c)) == senc_card_items(s) + senc_card(c),
    decreases s.len(),
{
    if s.len() == 0 {
        assert(s.push(c)[0] == c);
        assert(s.push(c).drop_first() =~= Seq::<Card>::empty());
        assert(senc_card_items(s.push(c)) == senc_card(c) + senc_card_items(
            Seq::<Card>::empty(),
        ));
        assert(senc_card_items(Seq::<Card>::empty()) =~= Seq::<u8>::empty());
        assert(senc_card(c) + Seq::<u8>::empty() =~= senc_card(c));
        assert(senc_card_items(s) =~= Seq::<u8>::empty());
        assert(senc_card_items(s) + senc_card(c) =~= senc_card(c));
    } else {
        assert(s.push(c)[0] == s[0]);
        assert(s.push(c).drop_first() =~= s.drop_first().push(c));
        lemma_senc_card_items_push(s.drop_first(), c);
        assert(senc_card_items(s.push(c)) =~= senc_card_items(s) + senc_card(c));
    }
}

pub proof fn lemma_rt_card_items(b: Seq<u8>, i: int, s: Seq<Card>)
    requires
        0 <= i,
        i + senc_card_items(s).len() <= b.len(),
        b.subrange(i, i + senc_card_items(s).len()) == senc_card_items(s),
    ensures
        sdec_card_items(b, i, s.len()) == Some((s, i + senc_card_items(s).len())),
    decreases s.len(),
{
    if s.len() > 0 {
        let rest = s.drop_first();
        lemma_concat_at(b, i, senc_card(s[0]), senc_card_items(rest));
        lemma_rt_card(b, i, s[0]);
        lemma_rt_card_items(b, i + senc_card(s[0]).len(), rest);
        assert(seq![s[0]] + rest =~= s);
    }
}

pub proof fn lemma_rt_card_list(b: Seq<u8>, i: int, s: Seq<Card>)
    requires
        0 <= i,
        s.len() <= u64::MAX,
        i + senc_card_list(s).len() <= b.len(),
        b.subrange(i, i + senc_card_list(s).len()) == senc_card_list(s),
    ensures
        sdec_card_list(b, i) == Some((s, i + senc_card_list(s).len())),
{
    lemma_auto_spec_u64_to_from_le_bytes();
    lemma_concat_at(b, i, senc_u64(s.len() as u64), senc_card_items(s));
    lemma_rt_u64(b, i, s.len() as u64);
    lemma_rt_card_items(b, i + 8, s);
}

fn enc_card_list(out: &mut Vec<u8>, v: &Vec<Card>)
    ensures
        final(out)@ == old(out)@ + senc_card_list(v@),
{
    let n = v.len();
    enc_u64(out, n as u64);
    let mut i: usize = 0;
    proof {
        assert(v@.take(0) =~= Seq::<Card>::empty());
        assert(out@ =~= old(out)@ + senc_u64(v@.len() as u64) + senc_card_items(v@.take(0)));
    }
    while i < n
        invariant
            n == v@.len(),
            i <= n,
            out@ == old(out)@ + senc_u64(v@.len() as u64) + senc_card_items(v@.take(i as int)),
        decreases n - i,
    {
        enc_card(out, v[i]);
        proof {
            lemma_senc_card_items_push(v@.take(i as int), v@[i as int]);
            assert(v@.take(i as int).push(v@[i as int]) =~= v@.take(i as int + 1));
            assert(out@ =~= old(out)@ + senc_u64(v@.len() as u64) + senc_card_items(
                v@.take(i as int + 1),
            ));
        }
        i += 1;
    }
    proof {
        assert(v@.take(n as int) =~= v@);
        assert(out@ =~= old(out)@ + senc_card_list(v@));
    }
}

fn dec_card_list(b: &Vec<u8>, pos: usize) -> (r: Option<(Vec<Card>, usize)>)
    ensures
        match r {
            Some((v, j)) => sdec_card_list(b@, pos as int) == Some((v@, j as int)),
            None => sdec_card_list(b@, pos as int) is None,
        },
{
    match dec_u64(b, pos) {
        Some((n64, start)) => {
            let mut v: Vec<Card> = Vec::new();
            let mut cur = start;
            let mut k: u64 = 0;
            proof {
                match sdec_card_items(b@, start as int, n64 as nat) {
                    Some((t, j)) => {
                        assert(v@ + t =~= t);
                    },
                    None => {},
                }
            }
            while k < n64
                invariant
                    k <= n64,
                    sdec_u64(b@, pos as int) == Some((n64, start as int)),
                    sdec_card_items(b@, start as int, n64 as nat) == (match sdec_card_items(
                        b@,
                        cur as int,
                        (n64 - k) as nat,
                    ) {
                        Some((t, j)) => Some((v@ + t, j)),
                        None => None::<(Seq<Card>, int)>,
                    }),
                decreases n64 - k,
            {
                let ghost m = (n64 - k) as nat;
                let ghost scur = cur as int;
                let ghost vold = v@;
                match dec_card(b, cur) {
                    Some((c, j2)) => {
                        v.push(c);
                        cur = j2;
                        k += 1;
                        proof {
                            match sdec_card_items(b@, j2 as int, (m - 1) as nat) {
                                Some((t, jj)) => {
                                    assert(vold + (seq![c] + t) =~= (vold + seq![c]) + t);
                                    assert(v@ =~= vold + seq![c]);
                                },
                                None => {},
                            }
                        }
                    },
                    None => {
                        proof {
                            assert(sdec_card_items(b@, scur, m) is None);
                        }
                        return None;
                    },
                }
            }
            proof {
                assert(sdec_card_items(b@, cur as int, 0) == Some(
                    (Seq::<Card>::empty(), cur as int),
                ));
                assert(v@ + Seq::<Card>::empty() =~= v@);
            }
            Some((v, cur))
        },
        None => None,
    }
}

pub open spec fn senc_pw_items(s: Seq<PotWinner>) -> Seq<u8>
    decreases s.len(),
{
    if s.len() == 0 {
        Seq::empty()
    } else {
        senc_pot_winner(s[0]) + senc_pw_items(s.drop_first())
    }
}

pub open spec fn senc_pw_list(s: Seq<PotWinner>) -> Seq<u8> {
    senc_u64(s.len() as u64) + senc_pw_items(s)
}

pub open spec fn sdec_pw_items(b: Seq<u8>, i: int, n: nat) -> Option<(Seq<PotWinner>, int)>
    decreases n,
{
    if n == 0 {
        Some((Seq::empty(), i))
    } else {
        match sdec_pot_winner(b, i) {
            Some((c, j)) => match sdec_pw_items(b, j, (n - 1) as nat) {
                Some((s, k)) => Some((seq![c] + s, k)),
                None => None,
            },
            None => None,
        }
    }
}

pub open spec fn sdec_pw_list(b: Seq<u8>, i: int) -> Option<(Seq<PotWinner>, int)> {
    match sdec_u64(b, i) {
        Some((n, j)) => sdec_pw_items(b, j, n as nat),
        None => None,
    }
}

pub proof fn lemma_senc_pw_items_push(s: Seq<PotWinner>, c: PotWinner)
    ensures
        senc_pw_items(s.push(c)) == senc_pw_items(s) + senc_pot_winner(c),
    decreases s.len(),
{
    if s.len() == 0 {
        assert(s.push(c)[0] == c);
        assert(s.push(c).drop_first() =~= Seq::<PotWinner>::empty());
        assert(senc_pw_items(s.push(c)) == senc_pot_winner(c) + senc_pw_items(
            Seq::<PotWinner>::empty(),
        ));
        assert(senc_pw_items(Seq::<PotWinner>::empty()) =~= Seq::<u8>::empty());
        assert(senc_pot_winner(c) + Seq::<u8>::empty() =~= senc_pot_winner(c));
        assert(senc_pw_items(s) =~= Seq::<u8>::empty());
        assert(senc_pw_items(s) + senc_pot_winner(c) =~= senc_pot_winner(c));
    } else {
        assert(s.push(c)[0] == s[0]);
        assert(s.push(c).drop_first() =~= s.drop_first().push(c));
        lemma_senc_pw_items_push(s.drop_first(), c);
        assert(senc_pw_items(s.push(c)) =~= senc_pw_items(s) + senc_pot_winner(c));
    }
}

pub proof fn lemma_rt_pw_items(b: Seq<u8>, i: int, s: Seq<PotWinner>)
    requires
        0 <= i,
        i + senc_pw_items(s).len() <= b.len(),
        b.subrange(i, i + senc_pw_items(s).len()) == senc_pw_items(s),
    ensures
        sdec_pw_items(b, i, s.len()) == Some((s, i + senc_pw_items(s).len())),
    decreases s.len(),
{
    if s.len() > 0 {
        let rest = s.drop_first();
        lemma_concat_at(b, i, senc_pot_winner(s[0]), senc_pw_items(rest));
        lemma_rt_pot_winner(b, i, s[0]);
        lemma_rt_pw_items(b, i + senc_pot_winner(s[0]).len(), rest);
        assert(seq![s[0]] + rest =~= s);
    }
}

pub proof fn lemma_rt_pw_list(b: Seq<u8>, i: int, s: Seq<PotWinner>)
    requires
        0 <= i,
        s.len() <= u64::MAX,
        i + senc_pw_list(s).len() <= b.len(),
        b.subrange(i, i + senc_pw_list(s).len()) == senc_pw_list(s),
    ensures
        sdec_pw_list(b, i) == Some((s, i + senc_pw_list(s).len())),
{
    lemma_auto_spec_u64_to_from_le_bytes();
    lemma_concat_at(b, i, senc_u64(s.len() as u64), senc_pw_items(s));
    lemma_rt_u64(b, i, s.len() as u64);
    lemma_rt_pw_items(b, i + 8, s);
}

fn enc_pw_list(out: &mut Vec<u8>, v: &Vec<PotWinner>)
    ensures
        final(out)@ == old(out)@ + senc_pw_list(v@),
{
    let n = v.len();
    enc_u64(out, n as u64);
    let mut i: usize = 0;
    proof {
        assert(v@.take(0) =~= Seq::<PotWinner>::empty());
        assert(out@ =~= old(out)@ + senc_u64(v@.len() as u64) + senc_pw_items(v@.take(0)));
    }
    while i < n
        invariant
            n == v@.len(),
            i <= n,
            out@ == old(out)@ + senc_u64(v@.len() as u64) + senc_pw_items(v@.take(i as int)),
        decreases n - i,
    {
        let w = v[i];
        enc_pot_winner(out, &w);
        proof {
            lemma_senc_pw_items_push(v@.take(i as int), v@[i as int]);
            assert(v@.take(i as int).push(v@[i as int]) =~= v@.take(i as int + 1));
            assert(out@ =~= old(out)@ + senc_u64(v@.len() as u64) + senc_pw_items(
                v@.take(i as int + 1),
            ));
        }
        i += 1;
    }
    proof {
        assert(v@.take(n as int) =~= v@);
        assert(out@ =~= old(out)@ + senc_pw_list(v@));
    }
}

fn dec_pw_list(b: &Vec<u8>, pos: usize) -> (r: Option<(Vec<PotWinner>, usize)>)
    ensures
        match r {
            Some((v, j)) => sdec_pw_list(b@, pos as int) == Some((v@, j as int)),
            None => sdec_pw_list(b@, pos as int) is None,
        },
{
    match dec_u64(b, pos) {
        Some((n64, start)) => {
            let mut v: Vec<PotWinner> = Vec::new();
            let mut cur = start;
            let mut k: u64 = 0;
            proof {
                match sdec_pw_items(b@, start as int, n64 as nat) {
                    Some((t, j)) => {
                        assert(v@ + t =~= t);
                    },
                    None => {},
                }
            }
            while k < n64
                invariant
                    k <= n64,
                    sdec_u64(b@, pos as int) == Some((n64, start as int)),
                    sdec_pw_items(b@, start as int, n64 as nat) == (match sdec_pw_items(
                        b@,
                        cur as int,
                        (n64 - k) as nat,
                    ) {
                        Some((t, j)) => Some((v@ + t, j)),
                        None => None::<(Seq<PotWinner>, int)>,
                    }),
                decreases n64 - k,
            {
                let ghost m = (n64 - k) as nat;
                let ghost scur = cur as int;
                let ghost vold = v@;
                match dec_pot_winner(b, cur) {
                    Some((c, j2)) => {
                        v.push(c);
                        cur = j2;
                        k += 1;
                        proof {
                            match sdec_pw_items(b@, j2 as int, (m - 1) as nat) {
                                Some((t, jj)) => {
                                    assert(vold + (seq![c] + t) =~= (vold + seq![c]) + t);
                                    assert(v@ =~= vold + seq![c]);
                                },
                                None => {},
                            }
                        }
                    },
                    None => {
                        proof {
                            assert(sdec_pw_items(b@, scur, m) is None);
                        }
                        return None;
                    },
                }
            }
            proof {
                assert(sdec_pw_items(b@, cur as int, 0) == Some(
                    (Seq::<PotWinner>::empty(), cur as int),
                ));
                assert(v@ + Seq::<PotWinner>::empty() =~= v@);
            }
            Some((v, cur))
        },
        None => None,
    }
}

// ---------------------------------------------------------------------
// Settlement records with shown-down cards.
// ---------------------------------------------------------------------

/// String and list fields small enough for their 64-bit length prefixes.
pub open spec fn wf_hand_winner(w: HandWinnerV) -> bool {
    w.cards.len() <= u64::MAX
}

pub open spec fn senc_hand_winner(w: HandWinnerV) -> Seq<u8> {
    senc_u64(w.player_id) + senc_hand_type(w.hand_type) + senc_card_list(w.cards)
}

pub open spec fn sdec_hand_winner(b: Seq<u8>, i: int) -> Option<(HandWinnerV, int)> {
    match sdec_u64(b, i) {
        Some((player_id, j)) => match sdec_hand_type(b, j) {
            Some((hand_type, j2)) => match sdec_card_list(b, j2) {
                Some((cards, j3)) => Some((HandWinnerV { player_id, hand_type, cards }, j3)),
                None => None,
            },
            None => None,
        },
        None => None,
    }
}

pub proof fn lemma_rt_hand_winner(b: Seq<u8>, i: int, w: HandWinnerV)
    requires
        0 <= i,
        wf_hand_winner(w),
        i + senc_hand_winner(w).len() <= b.len(),
        b.subrange(i, i + senc_hand_winner(w).len()) == senc_hand_winner(w),
    ensures
        sdec_hand_winner(b, i) == Some((w, i + senc_hand_winner(w).len())),
{
    lemma_auto_spec_u64_to_from_le_bytes();
    let f1 = senc_u64(w.player_id);
    let f2 = senc_hand_type(w.hand_type);
    let f3 = senc_card_list(w.cards);
    lemma_concat_at(b, i, f1 + f2, f3);
    lemma_concat_at(b, i, f1, f2);
    lemma_rt_u64(b, i, w.player_id);
    lemma_rt_hand_type(b, i + 8, w.hand_type);
    lemma_rt_card_list(b, i + 9, w.cards);
}

fn enc_hand_winner(out: &mut Vec<u8>, x: &HandWinner)
    ensures
        final(out)@ == old(out)@ + senc_hand_winner(x@),
{
    enc_u64(out, x.player_id);
    enc_hand_type(out, x.hand_type);
    enc_card_list(out, &x.cards);
    proof {
        assert(out@ =~= old(out)@ + senc_hand_winner(x@));
    }
}

fn dec_hand_winner(b: &Vec<u8>, pos: usize) -> (r: Option<(HandWinner, usize)>)
    ensures
        match r {
            Some((v, j)) => sdec_hand_winner(b@, pos as int) == Some((v@, j as int)),
            None => sdec_hand_winner(b@, pos as int) is None,
        },
{
    match dec_u64(b, pos) {
        Some((player_id, j)) => match dec_hand_type(b, j) {
            Some((hand_type, j2)) => match dec_card_list(b, j2) {
                Some((cards, j3)) => {
                    let w = HandWinner { player_id, hand_type, cards };
                    proof {
                        assert(sdec_hand_winner(b@, pos as int) matches Some((v, jj)) && v =~= w@
                            && jj == j3 as int);
                    }
                    Some((w, j3))
                },
                None => None,
            },
            None => None,
        },
        None => None,
    }
}

pub open spec fn senc_hw_items(s: Seq<HandWinnerV>) -> Seq<u8>
    decreases s.len(),
{
    if s.len() == 0 {
        Seq::empty()
    } else {
        senc_hand_winner(s[0]) + senc_hw_items(s.drop_first())
    }
}

pub open spec fn senc_hw_list(s: Seq<HandWinnerV>) -> Seq<u8> {
    senc_u64(s.len() as u64) + senc_hw_items(s)
}

pub open spec fn sdec_hw_items(b: Seq<u8>, i: int, n: nat) -> Option<(Seq<HandWinnerV>, int)>
    decreases n,
{
    if n == 0 {
        Some((Seq::empty(), i))
    } else {
        match sdec_hand_winner(b, i) {
            Some((c, j)) => match sdec_hw_items(b, j, (n - 1) as nat) {
                Some((s, k)) => Some((seq![c] + s, k)),
                None => None,
            },
            None => None,
        }
    }
}

pub open spec fn sdec_hw_list(b: Seq<u8>, i: int) -> Option<(Seq<HandWinnerV>, int)> {
    match sdec_u64(b, i) {
        Some((n, j)) => sdec_hw_items(b, j, n as nat),
        None => None,
    }
}

pub proof fn lemma_senc_hw_items_push(s: Seq<HandWinnerV>, c: HandWinnerV)
    ensures
        senc_hw_items(s.push(c)) == senc_hw_items(s) + senc_hand_winner(c),
    decreases s.len(),
{
    if s.len() == 0 {
        assert(s.push(c)[0] == c);
        assert(s.push(c).drop_first() =~= Seq::<HandWinnerV>::empty());
        assert(senc_hw_items(s.push(c)) == senc_hand_winner(c) + senc_hw_items(
            Seq::<HandWinnerV>::empty(),
        ));
        assert(senc_hw_items(Seq::<HandWinnerV>::empty()) =~= Seq::<u8>::empty());
        assert(senc_hand_winner(c) + Seq::<u8>::empty() =~= senc_hand_winner(c));
        assert(senc_hw_items(s) =~= Seq::<u8>::empty());
        assert(senc_hw_items(s) + senc_hand_winner(c) =~= senc_hand_winner(c));
    } else {
        assert(s.push(c)[0] == s[0]);
        assert(s.push(c).drop_first() =~= s.drop_first().push(c));
        lemma_senc_hw_items_push(s.drop_first(), c);
        assert(senc_hw_items(s.push(c)) =~= senc_hw_items(s) + senc_hand_winner(c));
    }
}

pub proof fn lemma_rt_hw_items(b: Seq<u8>, i: int, s: Seq<HandWinnerV>)
    requires
        0 <= i,
        forall|t: int| 0 <= t < s.len() ==> wf_hand_winner(#[trigger] s[t]),
        i + senc_hw_items(s).len() <= b.len(),
        b.subrange(i, i + senc_hw_items(s).len()) == senc_hw_items(s),
    ensures
        sdec_hw_items(b, i, s.len()) == Some((s, i + senc_hw_items(s).len())),
    decreases s.len(),
{
    if s.len() > 0 {
        let rest = s.drop_first();
        lemma_concat_at(b, i, senc_hand_winner(s[0]), senc_hw_items(rest));
        lemma_rt_hand_winner(b, i, s[0]);
        lemma_rt_hw_items(b, i + senc_hand_winner(s[0]).len(), rest);
        assert(seq![s[0]] + rest =~= s);
    }
}

pub proof fn lemma_rt_hw_list(b: Seq<u8>, i: int, s: Seq<HandWinnerV>)
    requires
        0 <= i,
        s.len() <= u64::MAX,
        forall|t: int| 0 <= t < s.len() ==> wf_hand_winner(#[trigger] s[t]),
        i + senc_hw_list(s).len() <= b.len(),
        b.subrange(i, i + senc_hw_list(s).len()) == senc_hw_list(s),
    ensures
        sdec_hw_list(b, i) == Some((s, i + senc_hw_list(s).len())),
{
    lemma_auto_spec_u64_to_from_le_bytes();
    lemma_concat_at(b, i, senc_u64(s.len() as u64), senc_hw_items(s));
    lemma_rt_u64(b, i, s.len() as u64);
    lemma_rt_hw_items(b, i + 8, s);
}

pub proof fn lemma_winners_view_push(s: Seq<HandWinner>, x: HandWinner)
    ensures
        winners_view(s.push(x)) =~= winners_view(s).push(x@),
{
}

fn enc_hw_list(out: &mut Vec<u8>, v: &Vec<HandWinner>)
    ensures
        final(out)@ == old(out)@ + senc_hw_list(winners_view(v@)),
{
    let n = v.len();
    enc_u64(out, n as u64);
    let mut i: usize = 0;
    proof {
        assert(winners_view(v@).take(0) =~= Seq::<HandWinnerV>::empty());
        assert(out@ =~= old(out)@ + senc_u64(winners_view(v@).len() as u64) + senc_hw_items(
            winners_view(v@).take(0),
        ));
    }
    while i < n
        invariant
            n == v@.len(),
            i <= n,
            out@ == old(out)@ + senc_u64(winners_view(v@).len() as u64) + senc_hw_items(
                winners_view(v@).take(i as int),
            ),
        decreases n - i,
    {
        enc_hand_winner(out, &v[i]);
        proof {
            lemma_senc_hw_items_push(winners_view(v@).take(i as int), v@[i as int]@);
            assert(winners_view(v@)[i as int] == v@[i as int]@);
            assert(winners_view(v@).take(i as int).push(v@[i as int]@) =~= winners_view(
                v@,
            ).take(i as int + 1));
            assert(out@ =~= old(out)@ + senc_u64(winners_view(v@).len() as u64) + senc_hw_items(
                winners_view(v@).take(i as int + 1),
            ));
        }
        i += 1;
    }
    proof {
        assert(winners_view(v@).take(n as int) =~= winners_view(v@));
        assert(out@ =~= old(out)@ + senc_hw_list(winners_view(v@)));
    }
}

fn dec_hw_list(b: &Vec<u8>, pos: usize) -> (r: Option<(Vec<HandWinner>, usize)>)
    ensures
        match r {
            Some((v, j)) => sdec_hw_list(b@, pos as int) == Some((winners_view(v@), j as int)),
            None => sdec_hw_list(b@, pos as int) is None,
        },
{
    match dec_u64(b, pos) {
        Some((n64, start)) => {
            let mut v: Vec<HandWinner> = Vec::new();
            let mut cur = start;
            let mut k: u64 = 0;
            proof {
                match sdec_hw_items(b@, start as int, n64 as nat) {
                    Some((t, j)) => {
                        assert(winners_view(v@) + t =~= t);
                    },
                    None => {},
                }
            }
            while k < n64
                invariant
                    k <= n64,
                    sdec_u64(b@, pos as int) == Some((n64, start as int)),
                    sdec_hw_items(b@, start as int, n64 as nat) == (match sdec_hw_items(
                        b@,
                        cur as int,
                        (n64 - k) as nat,
                    ) {
                        Some((t, j)) => Some((winners_view(v@) + t, j)),
                        None => None::<(Seq<HandWinnerV>, int)>,
                    }),
                decreases n64 - k,
            {
                let ghost m = (n64 - k) as nat;
                let ghost scur = cur as int;
                let ghost vold = winners_view(v@);
                match dec_hand_winner(b, cur) {
                    Some((c, j2)) => {
                        proof {
                            lemma_winners_view_push(v@, c);
                        }
                        let ghost cv = c@;
                        v.push(c);
                        cur = j2;
                        k += 1;
                        proof {
                            match sdec_hw_items(b@, j2 as int, (m - 1) as nat) {
                                Some((t, jj)) => {
                                    assert(vold + (seq![cv] + t) =~= (vold + seq![cv]) + t);
                                    assert(winners_view(v@) =~= vold + seq![cv]);
                                },
                                None => {},
                            }
                        }
                    },
                    None => {
                        proof {
                            assert(sdec_hw_items(b@, scur, m) is None);
                        }
                        return None;
                    },
                }
            }
            proof {
                assert(sdec_hw_items(b@, cur as int, 0) == Some(
                    (Seq::<HandWinnerV>::empty(), cur as int),
                ));
                assert(winners_view(v@) + Seq::<HandWinnerV>::empty() =~= winners_view(v@));
            }
            Some((v, cur))
        },
        None => None,
    }
}

// ---------------------------------------------------------------------
// Players.
// ---------------------------------------------------------------------

/// String and list fields small enough for their 64-bit length prefixes.
pub open spec fn wf_player(p: PlayerInfoV) -> bool {
    &&& p.username.len() <= u64::MAX
    &&& p.display_name.len() <= u64::MAX
    &&& (p.avatar_url matches Some(s) ==> s.len() <= u64::MAX)
    &&& p.hand.len() <= u64::MAX
}

pub open spec fn senc_player(p: PlayerInfoV) -> Seq<u8> {
    senc_u64(p.id) + senc_str(p.username) + senc_str(p.display_name) + senc_opt_str(p.avatar_url)
        + senc_i64(p.chips) + senc_u8(p.seat_position) + senc_bool(p.is_active) + senc_bool(
        p.is_dealer,
    ) + senc_bool(p.is_small_blind) + senc_bool(p.is_big_blind) + senc_card_list(p.hand)
        + senc_i64(p.current_bet) + senc_bool(p.is_all_in) + senc_bool(p.is_folded)
        + senc_opt_i32(p.action_time_left)
}

pub open spec fn sdec_player(b: Seq<u8>, i: int) -> Option<(PlayerInfoV, int)> {
    match sdec_u64(b, i) {
        Some((id, j1)) => match sdec_str(b, j1) {
            Some((username, j2)) => match sdec_str(b, j2) {
                Some((display_name, j3)) => match sdec_opt_str(b, j3) {
                    Some((avatar_url, j4)) => match sdec_i64(b, j4) {
                        Some((chips, j5)) => match sdec_u8(b, j5) {
                            Some((seat_position, j6)) => match sdec_bool(b, j6) {
                                Some((is_active, j7)) => match sdec_bool(b, j7) {
                                    Some((is_dealer, j8)) => match sdec_bool(b, j8) {
                                        Some((is_small_blind, j9)) => match sdec_bool(b, j9) {
                                            Some((is_big_blind, j10)) => match sdec_card_list(
                                                b,
                                                j10,
                                            ) {
                                                Some((hand, j11)) => match sdec_i64(b, j11) {
                                                    Some((current_bet, j12)) => match sdec_bool(
                                                        b,
                                                        j12,
                                                    ) {
                                                        Some((is_all_in, j13)) => match sdec_bool(
                                                            b,
                                                            j13,
                                                        ) {
                                                            Some((is_folded, j14)) => match
                                                                sdec_opt_i32(b, j14) {
                                                                Some((action_time_left, j15)) => {
                                                                    Some(
                                                                        (
                                                                            PlayerInfoV {
                                                                                id,
                                                                                username,
                                                                                display_name,
                                                                                avatar_url,
                                                                                chips,
                                                                                seat_position,
                                                                                is_active,
                                                                                is_dealer,
                                                                                is_small_blind,
                                                                                is_big_blind,
                                                                                hand,
                                                                                current_bet,
                                                                                is_all_in,
                                                                                is_folded,
                                                                                action_time_left,
                                                                            },
                                                                            j15,
                                                                        ),
                                                                    )
                                                                },
                                                                None => None,
                                                            },
                                                            None => None,
                                                        },
                                                        None => None,
                                                    },
                                                    None => None,
                                                },
                                                None => None,
                                            },
                                            None => None,
                                        },
                                        None => None,
                                    },
                                    None => None,
                                },
                                None => None,
                            },
                            None => None,
                        },
                        None => None,
                    },
                    None => None,
                },
                None => None,
            },
            None => None,
        },
        None => None,
    }
}

#[verifier::rlimit(100)]
pub proof fn lemma_rt_player(b: Seq<u8>, i: int, p: PlayerInfoV)
    requires
        0 <= i,
        wf_player(p),
        i + senc_player(p).len() <= b.len(),
        b.subrange(i, i + senc_player(p).len()) == senc_player(p),
    ensures
        sdec_player(b, i) == Some((p, i + senc_player(p).len())),
{
    lemma_auto_spec_u64_to_from_le_bytes();
    let f1 = senc_u64(p.id);
    let f2 = senc_str(p.username);
    let f3 = senc_str(p.display_name);
    let f4 = senc_opt_str(p.avatar_url);
    let f5 = senc_i64(p.chips);
    let f6 = senc_u8(p.seat_position);
    let f7 = senc_bool(p.is_active);
    let f8 = senc_bool(p.is_dealer);
    let f9 = senc_bool(p.is_small_blind);
    let f10 = senc_bool(p.is_big_blind);
    let f11 = senc_card_list(p.hand);
    let f12 = senc_i64(p.current_bet);
    let f13 = senc_bool(p.is_all_in);
    let f14 = senc_bool(p.is_folded);
    let f15 = senc_opt_i32(p.action_time_left);
    lemma_concat_at(
        b,
        i,
        f1 + f2 + f3 + f4 + f5 + f6 + f7 + f8 + f9 + f10 + f11 + f12 + f13 + f14,
        f15,
    );
    lemma_concat_at(b, i, f1 + f2 + f3 + f4 + f5 + f6 + f7 + f8 + f9 + f10 + f11 + f12 + f13, f14);
    lemma_concat_at(b, i, f1 + f2 + f3 + f4 + f5 + f6 + f7 + f8 + f9 + f10 + f11 + f12, f13);
    lemma_concat_at(b, i, f1 + f2 + f3 + f4 + f5 + f6 + f7 + f8 + f9 + f10 + f11, f12);
    lemma_concat_at(b, i, f1 + f2 + f3 + f4 + f5 + f6 + f7 + f8 + f9 + f10, f11);
    lemma_concat_at(b, i, f1 + f2 + f3 + f4 + f5 + f6 + f7 + f8 + f9, f10);
    lemma_concat_at(b, i, f1 + f2 + f3 + f4 + f5 + f6 + f7 + f8, f9);
    lemma_concat_at(b, i, f1 + f2 + f3 + f4 + f5 + f6 + f7, f8);
    lemma_concat_at(b, i, f1 + f2 + f3 + f4 + f5 + f6, f7);
    lemma_concat_at(b, i, f1 + f2 + f3 + f4 + f5, f6);
    lemma_concat_at(b, i, f1 + f2 + f3 + f4, f5);
    lemma_concat_at(b, i, f1 + f2 + f3, f4);
    lemma_concat_at(b, i, f1 + f2, f3);
    lemma_concat_at(b, i, f1, f2);
    let p2 = i + f1.len();
    let p3 = p2 + f2.len();
    let p4 = p3 + f3.len();
    let p5 = p4 + f4.len();
    let p6 = p5 + f5.len();
    let p7 = p6 + f6.len();
    let p8 = p7 + f7.len();
    let p9 = p8 + f8.len();
    let p10 = p9 + f9.len();
    let p11 = p10 + f10.len();
    let p12 = p11 + f11.len();
    let p13 = p12 + f12.len();
    let p14 = p13 + f13.len();
    let p15 = p14 + f14.len();
    lemma_rt_u64(b, i, p.id);
    lemma_rt_str(b, p2, p.username);
    lemma_rt_str(b, p3, p.display_name);
    lemma_rt_opt_str(b, p4, p.avatar_url);
    lemma_rt_i64(b, p5, p.chips);
    lemma_rt_u8(b, p6, p.seat_position);
    lemma_rt_bool(b, p7, p.is_active);
    lemma_rt_bool(b, p8, p.is_dealer);
    lemma_rt_bool(b, p9, p.is_small_blind);
    lemma_rt_bool(b, p10, p.is_big_blind);
    lemma_rt_card_list(b, p11, p.hand);
    lemma_rt_i64(b, p12, p.current_bet);
    lemma_rt_bool(b, p13, p.is_all_in);
    lemma_rt_bool(b, p14, p.is_folded);
    lemma_rt_opt_i32(b, p15, p.action_time_left);
    match sdec_player(b, i) {
        Some((q, jj)) => {
            assert(q =~= p);
        },
        None => {},
    }
}

#[verifier::rlimit(60)]
fn enc_player(out: &mut Vec<u8>, x: &PlayerInfo)
    ensures
        final(out)@ == old(out)@ + senc_player(x@),
{
    enc_u64(out, x.id);
    enc_str(out, x.username.as_str());
    enc_str(out, x.display_name.as_str());
    enc_opt_str(out, &x.avatar_url);
    enc_i64(out, x.chips);
    enc_u8(out, x.seat_position);
    enc_bool(out, x.is_active);
    enc_bool(out, x.is_dealer);
    enc_bool(out, x.is_small_blind);
    enc_bool(out, x.is_big_blind);
    enc_card_list(out, &x.hand);
    enc_i64(out, x.current_bet);
    enc_bool(out, x.is_all_in);
    enc_bool(out, x.is_folded);
    enc_opt_i32(out, &x.action_time_left);
    proof {
        let g = old(out)@;
        let p = x@;
        let f1 = senc_u64(p.id);
        let f2 = senc_str(p.username);
        let f3 = senc_str(p.display_name);
        let f4 = senc_opt_str(p.avatar_url);
        let f5 = senc_i64(p.chips);
        let f6 = senc_u8(p.seat_position);
        let f7 = senc_bool(p.is_active);
        let f8 = senc_bool(p.is_dealer);
        let f9 = senc_bool(p.is_small_blind);
        let f10 = senc_bool(p.is_big_blind);
        let f11 = senc_card_list(p.hand);
        let f12 = senc_i64(p.current_bet);
        let f13 = senc_bool(p.is_all_in);
        let f14 = senc_bool(p.is_folded);
        let f15 = senc_opt_i32(p.action_time_left);
        lemma_add_assoc(g, f1, f2);
        lemma_add_assoc(g, f1 + f2, f3);
        lemma_add_assoc(g, f1 + f2 + f3, f4);
        lemma_add_assoc(g, f1 + f2 + f3 + f4, f5);
        lemma_add_assoc(g, f1 + f2 + f3 + f4 + f5, f6);
        lemma_add_assoc(g, f1 + f2 + f3 + f4 + f5 + f6, f7);
        lemma_add_assoc(g, f1 + f2 + f3 + f4 + f5 + f6 + f7, f8);
        lemma_add_assoc(g, f1 + f2 + f3 + f4 + f5 + f6 + f7 + f8, f9);
        lemma_add_assoc(g, f1 + f2 + f3 + f4 + f5 + f6 + f7 + f8 + f9, f10);
        lemma_add_assoc(g, f1 + f2 + f3 + f4 + f5 + f6 + f7 + f8 + f9 + f10, f11);
        lemma_add_assoc(g, f1 + f2 + f3 + f4 + f5 + f6 + f7 + f8 + f9 + f10 + f11, f12);
        lemma_add_assoc(g, f1 + f2 + f3 + f4 + f5 + f6 + f7 + f8 + f9 + f10 + f11 + f12, f13);
        lemma_add_assoc(
            g,
            f1 + f2 + f3 + f4 + f5 + f6 + f7 + f8 + f9 + f10 + f11 + f12 + f13,
            f14,
        );
        lemma_add_assoc(
            g,
            f1 + f2 + f3 + f4 + f5 + f6 + f7 + f8 + f9 + f10 + f11 + f12 + f13 + f14,
            f15,
        );
        assert(out@ == g + senc_player(p));
    }
}

fn dec_player(b: &Vec<u8>, pos: usize) -> (r: Option<(PlayerInfo, usize)>)
    ensures
        match r {
            Some((v, j)) => sdec_player(b@, pos as int) == Some((v@, j as int)),
            None => sdec_player(b@, pos as int) is None,
        },
{
    let (id, c1) = match dec_u64(b, pos) {
        Some(x) => x,
        None => {
            return None;
        },
    };
    let (username, c2) = match dec_str(b, c1) {
        Some(x) => x,
        None => {
            return None;
        },
    };
    let (display_name, c3) = match dec_str(b, c2) {
        Some(x) => x,
        None => {
            return None;
        },
    };
    let (avatar_url, c4) = match dec_opt_str(b, c3) {
        Some(x) => x,
        None => {
            return None;
        },
    };
    let (chips, c5) = match dec_i64(b, c4) {
        Some(x) => x,
        None => {
            return None;
        },
    };
    let (seat_position, c6) = match dec_u8(b, c5) {
        Some(x) => x,
        None => {
            return None;
        },
    };
    let (is_active, c7) = match dec_bool(b, c6) {
        Some(x) => x,
        None => {
            return None;
        },
    };
    let (is_dealer, c8) = match dec_bool(b, c7) {
        Some(x) => x,
        None => {
            return None;
        },
    };
    let (is_small_blind, c9) = match dec_bool(b, c8) {
        Some(x) => x,
        None => {
            return None;
        },
    };
    let (is_big_blind, c10) = match dec_bool(b, c9) {
        Some(x) => x,
        None => {
            return None;
        },
    };
    let (hand, c11) = match dec_card_list(b, c10) {
        Some(x) => x,
        None => {
            return None;
        },
    };
    let (current_bet, c12) = match dec_i64(b, c11) {
        Some(x) => x,
        None => {
            return None;
        },
    };
    let (is_all_in, c13) = match dec_bool(b, c12) {
        Some(x) => x,
        None => {
            return None;
        },
    };
    let (is_folded, c14) = match dec_bool(b, c13) {
        Some(x) => x,
        None => {
            return None;
        },
    };
    let (action_time_left, c15) = match dec_opt_i32(b, c14) {
        Some(x) => x,
        None => {
            return None;
        },
    };
    let p = PlayerInfo {
        id,
        username,
        display_name,
        avatar_url,
        chips,
        seat_position,
        is_active,
        is_dealer,
        is_small_blind,
        is_big_blind,
        hand,
        current_bet,
        is_all_in,
        is_folded,
        action_time_left,
    };
    proof {
        match sdec_player(b@, pos as int) {
            Some((q, jj)) => {
                assert(q =~= p@);
            },
            None => {},
        }
    }
    Some((p, c15))
}

// ---------------------------------------------------------------------
// Rooms, room configurations and users.
// ---------------------------------------------------------------------

/// String fields small enough for their 64-bit length prefixes.
pub open spec fn wf_room(r: GameRoomV) -> bool {
    &&& r.id.len() <= u64::MAX
    &&& r.name.len() <= u64::MAX
}

pub open spec fn senc_room(r: GameRoomV) -> Seq<u8> {
    senc_str(r.id) + senc_str(r.name) + senc_game_type(r.game_type) + senc_u8(r.current_players)
        + senc_u8(r.max_players) + senc_i64(r.small_blind) + senc_i64(r.big_blind) + senc_i64(
        r.min_buy_in,
    ) + senc_i64(r.max_buy_in) + senc_bool(r.is_private) + senc_bool(r.is_active) + senc_i64(
        r.created_at,
    )
}

pub open spec fn sdec_room(b: Seq<u8>, i: int) -> Option<(GameRoomV, int)> {
    match sdec_str(b, i) {
        Some((id, j1)) => match sdec_str(b, j1) {
            Some((name, j2)) => match sdec_game_type(b, j2) {
                Some((game_type, j3)) => match sdec_u8(b, j3) {
                    Some((current_players, j4)) => match sdec_u8(b, j4) {
                        Some((max_players, j5)) => match sdec_i64(b, j5) {
                            Some((small_blind, j6)) => match sdec_i64(b, j6) {
                                Some((big_blind, j7)) => match sdec_i64(b, j7) {
                                    Some((min_buy_in, j8)) => match sdec_i64(b, j8) {
                                        Some((max_buy_in, j9)) => match sdec_bool(b, j9) {
                                            Some((is_private, j10)) => match sdec_bool(b, j10) {
                                                Some((is_active, j11)) => match sdec_i64(b, j11) {
                                                    Some((created_at, j12)) => Some(
                                                        (
                                                            GameRoomV {
                                                                id,
                                                                name,
                                                                game_type,
                                                                current_players,
                                                                max_players,
                                                                small_blind,
                                                                big_blind,
                                                                min_buy_in,
                                                                max_buy_in,
                                                                is_private,
                                                                is_active,
                                                                created_at,
                                                            },
                                                            j12,
                                                        ),
                                                    ),
                                                    None => None,
                                                },
                                                None => None,
                                            },
                                            None => None,
                                        },
                                        None => None,
                                    },
                                    None => None,
                                },
                                None => None,
                            },
                            None => None,
                        },
                        None => None,
                    },
                    None => None,
                },
                None => None,
            },
            None => None,
        },
        None => None,
    }
}

pub proof fn lemma_rt_room(b: Seq<u8>, i: int, r: GameRoomV)
    requires
        0 <= i,
        wf_room(r),
        i + senc_room(r).len() <= b.len(),
        b.subrange(i, i + senc_room(r).len()) == senc_room(r),
    ensures
        sdec_room(b, i) == Some((r, i + senc_room(r).len())),
{
    lemma_auto_spec_u64_to_from_le_bytes();
    let f1 = senc_str(r.id);
    let f2 = senc_str(r.name);
    let f3 = senc_game_type(r.game_type);
    let f4 = senc_u8(r.current_players);
    let f5 = senc_u8(r.max_players);
    let f6 = senc_i64(r.small_blind);
    let f7 = senc_i64(r.big_blind);
    let f8 = senc_i64(r.min_buy_in);
    let f9 = senc_i64(r.max_buy_in);
    let f10 = senc_bool(r.is_private);
    let f11 = senc_bool(r.is_active);
    let f12 = senc_i64(r.created_at);
    lemma_concat_at(b, i, f1 + f2 + f3 + f4 + f5 + f6 + f7 + f8 + f9 + f10 + f11, f12);
    lemma_concat_at(b, i, f1 + f2 + f3 + f4 + f5 + f6 + f7 + f8 + f9 + f10, f11);
    lemma_concat_at(b, i, f1 + f2 + f3 + f4 + f5 + f6 + f7 + f8 + f9, f10);
    lemma_concat_at(b, i, f1 + f2 + f3 + f4 + f5 + f6 + f7 + f8, f9);
    lemma_concat_at(b, i, f1 + f2 + f3 + f4 + f5 + f6 + f7, f8);
    lemma_concat_at(b, i, f1 + f2 + f3 + f4 + f5 + f6, f7);
    lemma_concat_at(b, i, f1 + f2 + f3 + f4 + f5, f6);
    lemma_concat_at(b, i, f1 + f2 + f3 + f4, f5);
    lemma_concat_at(b, i, f1 + f2 + f3, f4);
    lemma_concat_at(b, i, f1 + f2, f3);
    lemma_concat_at(b, i, f1, f2);
    let p2 = i + f1.len();
    let p3 = p2 + f2.len();
    let p4 = p3 + f3.len();
    let p5 = p4 + f4.len();
    let p6 = p5 + f5.len();
    let p7 = p6 + f6.len();
    let p8 = p7 + f7.len();
    let p9 = p8 + f8.len();
    let p10 = p9 + f9.len();
    let p11 = p10 + f10.len();
    let p12 = p11 + f11.len();
    lemma_rt_str(b, i, r.id);
    lemma_rt_str(b, p2, r.name);
    lemma_rt_game_type(b, p3, r.game_type);
    lemma_rt_u8(b, p4, r.current_players);
    lemma_rt_u8(b, p5, r.max_players);
    lemma_rt_i64(b, p6, r.small_blind);
    lemma_rt_i64(b, p7, r.big_blind);
    lemma_rt_i64(b, p8, r.min_buy_in);
    lemma_rt_i64(b, p9, r.max_buy_in);
    lemma_rt_bool(b, p10, r.is_private);
    lemma_rt_bool(b, p11, r.is_active);
    lemma_rt_i64(b, p12, r.created_at);
    match sdec_room(b, i) {
        Some((q, jj)) => {
            assert(q =~= r);
        },
        None => {},
    }
}

fn enc_room(out: &mut Vec<u8>, x: &GameRoom)
    ensures
        final(out)@ == old(out)@ + senc_room(x@),
{
    enc_str(out, x.id.as_str());
    enc_str(out, x.name.as_str());
    enc_game_type(out, x.game_type);
    enc_u8(out, x.current_players);
    enc_u8(out, x.max_players);
    enc_i64(out, x.small_blind);
    enc_i64(out, x.big_blind);
    enc_i64(out, x.min_buy_in);
    enc_i64(out, x.max_buy_in);
    enc_bool(out, x.is_private);
    enc_bool(out, x.is_active);
    enc_i64(out, x.created_at);
    proof {
        let g = old(out)@;
        let r = x@;
        let f1 = senc_str(r.id);
        let f2 = senc_str(r.name);
        let f3 = senc_game_type(r.game_type);
        let f4 = senc_u8(r.current_players);
        let f5 = senc_u8(r.max_players);
        let f6 = senc_i64(r.small_blind);
        let f7 = senc_i64(r.big_blind);
        let f8 = senc_i64(r.min_buy_in);
        let f9 = senc_i64(r.max_buy_in);
        let f10 = senc_bool(r.is_private);
        let f11 = senc_bool(r.is_active);
        let f12 = senc_i64(r.created_at);
        lemma_add_assoc(g, f1, f2);
        lemma_add_assoc(g, f1 + f2, f3);
        lemma_add_assoc(g, f1 + f2 + f3, f4);
        lemma_add_assoc(g, f1 + f2 + f3 + f4, f5);
        lemma_add_assoc(g, f1 + f2 + f3 + f4 + f5, f6);
        lemma_add_assoc(g, f1 + f2 + f3 + f4 + f5 + f6, f7);
        lemma_add_assoc(g, f1 + f2 + f3 + f4 + f5 + f6 + f7, f8);
        lemma_add_assoc(g, f1 + f2 + f3 + f4 + f5 + f6 + f7 + f8, f9);
        lemma_add_assoc(g, f1 + f2 + f3 + f4 + f5 + f6 + f7 + f8 + f9, f10);
        lemma_add_assoc(g, f1 + f2 + f3 + f4 + f5 + f6 + f7 + f8 + f9 + f10, f11);
        lemma_add_assoc(g, f1 + f2 + f3 + f4 + f5 + f6 + f7 + f8 + f9 + f10 + f11, f12);
        assert(out@ == g + senc_room(r));
    }
}

fn dec_room(b: &Vec<u8>, pos: usize) -> (r: Option<(GameRoom, usize)>)
    ensures
        match r {
            Some((v, j)) => sdec_room(b@, pos as int) == Some((v@, j as int)),
            None => sdec_room(b@, pos as int) is None,
        },
{
    let (id, c1) = match dec_str(b, pos) {
        Some(x) => x,
        None => {
            return None;
        },
    };
    let (name, c2) = match dec_str(b, c1) {
        Some(x) => x,
        None => {
            return None;
        },
    };
    let (game_type, c3) = match dec_game_type(b, c2) {
        Some(x) => x,
        None => {
            return None;
        },
    };
    let (current_players, c4) = match dec_u8(b, c3) {
        Some(x) => x,
        None => {
            return None;
        },
    };
    let (max_players, c5) = match dec_u8(b, c4) {
        Some(x) => x,
        None => {
            return None;
        },
    };
    let (small_blind, c6) = match dec_i64(b, c5) {
        Some(x) => x,
        None => {
            return None;
        },
    };
    let (big_blind, c7) = match dec_i64(b, c6) {
        Some(x) => x,
        None => {
            return None;
        },
    };
    let (min_buy_in, c8) = match dec_i64(b, c7) {
        Some(x) => x,
        None => {
            return None;
        },
    };
    let (max_buy_in, c9) = match dec_i64(b, c8) {
        Some(x) => x,
        None => {
            return None;
        },
    };
    let (is_private, c10) = match dec_bool(b, c9) {
        Some(x) => x,
        None => {
            return None;
        },
    };
    let (is_active, c11) = match dec_bool(b, c10) {
        Some(x) => x,
        None => {
            return None;
        },
    };
    let (created_at, c12) = match dec_i64(b, c11) {
        Some(x) => x,
        None => {
            return None;
        },
    };
    let room = GameRoom {
        id,
        name,
        game_type,
        current_players,
        max_players,
        small_blind,
        big_blind,
        min_buy_in,
        max_buy_in,
        is_private,
        is_active,
        created_at,
    };
    proof {
        match sdec_room(b@, pos as int) {
            Some((q, jj)) => {
                assert(q =~= room@);
            },
            None => {},
        }
    }
    Some((room, c12))
}

/// String fields small enough for their 64-bit length prefixes.
pub open spec fn wf_room_config(r: RoomConfigV) -> bool {
    &&& r.name.len() <= u64::MAX
    &&& (r.password matches Some(s) ==> s.len() <= u64::MAX)
}

pub open spec fn senc_room_config(r: RoomConfigV) -> Seq<u8> {
    senc_str(r.name) + senc_game_type(r.game_type) + senc_u8(r.max_players) + senc_i64(
        r.small_blind,
    ) + senc_i64(r.big_blind) + senc_i64(r.min_buy_in) + senc_i64(r.max_buy_in) + senc_bool(
        r.is_private,
    ) + senc_opt_str(r.password)
}

pub open spec fn sdec_room_config(b: Seq<u8>, i: int) -> Option<(RoomConfigV, int)> {
    match sdec_str(b, i) {
        Some((name, j1)) => match sdec_game_type(b, j1) {
            Some((game_type, j2)) => match sdec_u8(b, j2) {
                Some((max_players, j3)) => match sdec_i64(b, j3) {
                    Some((small_blind, j4)) => match sdec_i64(b, j4) {
                        Some((big_blind, j5)) => match sdec_i64(b, j5) {
                            Some((min_buy_in, j6)) => match sdec_i64(b, j6) {
                                Some((max_buy_in, j7)) => match sdec_bool(b, j7) {
                                    Some((is_private, j8)) => match sdec_opt_str(b, j8) {
                                        Some((password, j9)) => Some(
                                            (
                                                RoomConfigV {
                                                    name,
                                                    game_type,
                                                    max_players,
                                                    small_blind,
                                                    big_blind,
                                                    min_buy_in,
                                                    max_buy_in,
                                                    is_private,
                                                    password,
                                                },
                                                j9,
                                            ),
                                        ),
                                        None => None,
                                    },
                                    None => None,
                                },
                                None => None,
                            },
                            None => None,
                        },
                        None => None,
                    },
                    None => None,
                },
                None => None,
            },
            None => None,
        },
        None => None,
    }
}

pub proof fn lemma_rt_room_config(b: Seq<u8>, i: int, r: RoomConfigV)
    requires
        0 <= i,
        wf_room_config(r),
        i + senc_room_config(r).len() <= b.len(),
        b.subrange(i, i + senc_room_config(r).len()) == senc_room_config(r),
    ensures
        sdec_room_config(b, i) == Some((r, i + senc_room_config(r).len())),
{
    lemma_auto_spec_u64_to_from_le_bytes();
    let f1 = senc_str(r.name);
    let f2 = senc_game_type(r.game_type);
    let f3 = senc_u8(r.max_players);
    let f4 = senc_i64(r.small_blind);
    let f5 = senc_i64(r.big_blind);
    let f6 = senc_i64(r.min_buy_in);
    let f7 = senc_i64(r.max_buy_in);
    let f8 = senc_bool(r.is_private);
    let f9 = senc_opt_str(r.password);
    lemma_concat_at(b, i, f1 + f2 + f3 + f4 + f5 + f6 + f7 + f8, f9);
    lemma_concat_at(b, i, f1 + f2 + f3 + f4 + f5 + f6 + f7, f8);
    lemma_concat_at(b, i, f1 + f2 + f3 + f4 + f5 + f6, f7);
    lemma_concat_at(b, i, f1 + f2 + f3 + f4 + f5, f6);
    lemma_concat_at(b, i, f1 + f2 + f3 + f4, f5);
    lemma_concat_at(b, i, f1 + f2 + f3, f4);
    lemma_concat_at(b, i, f1 + f2, f3);
    lemma_concat_at(b, i, f1, f2);
    let p2 = i + f1.len();
    let p3 = p2 + f2.len();
    let p4 = p3 + f3.len();
    let p5 = p4 + f4.len();
    let p6 = p5 + f5.len();
    let p7 = p6 + f6.len();
    let p8 = p7 + f7.len();
    let p9 = p8 + f8.len();
    lemma_rt_str(b, i, r.name);
    lemma_rt_game_type(b, p2, r.game_type);
    lemma_rt_u8(b, p3, r.max_players);
    lemma_rt_i64(b, p4, r.small_blind);
    lemma_rt_i64(b, p5, r.big_blind);
    lemma_rt_i64(b, p6, r.min_buy_in);
    lemma_rt_i64(b, p7, r.max_buy_in);
    lemma_rt_bool(b, p8, r.is_private);
    lemma_rt_opt_str(b, p9, r.password);
    match sdec_room_config(b, i) {
        Some((q, jj)) => {
            assert(q =~= r);
        },
        None => {},
    }
}

fn enc_room_config(out: &mut Vec<u8>, x: &RoomConfig)
    ensures
        final(out)@ == old(out)@ + senc_room_config(x@),
{
    enc_str(out, x.name.as_str());
    enc_game_type(out, x.game_type);
    enc_u8(out, x.max_players);
    enc_i64(out, x.small_blind);
    enc_i64(out, x.big_blind);
    enc_i64(out, x.min_buy_in);
    enc_i64(out, x.max_buy_in);
    enc_bool(out, x.is_private);
    enc_opt_str(out, &x.password);
    proof {
        let g = old(out)@;
        let r = x@;
        let f1 = senc_str(r.name);
        let f2 = senc_game_type(r.game_type);
        let f3 = senc_u8(r.max_players);
        let f4 = senc_i64(r.small_blind);
        let f5 = senc_i64(r.big_blind);
        let f6 = senc_i64(r.min_buy_in);
        let f7 = senc_i64(r.max_buy_in);
        let f8 = senc_bool(r.is_private);
        let f9 = senc_opt_str(r.password);
        lemma_add_assoc(g, f1, f2);
        lemma_add_assoc(g, f1 + f2, f3);
        lemma_add_assoc(g, f1 + f2 + f3, f4);
        lemma_add_assoc(g, f1 + f2 + f3 + f4, f5);
        lemma_add_assoc(g, f1 + f2 + f3 + f4 + f5, f6);
        lemma_add_assoc(g, f1 + f2 + f3 + f4 + f5 + f6, f7);
        lemma_add_assoc(g, f1 + f2 + f3 + f4 + f5 + f6 + f7, f8);
        lemma_add_assoc(g, f1 + f2 + f3 + f4 + f5 + f6 + f7 + f8, f9);
        assert(out@ == g + senc_room_config(r));
    }
}

fn dec_room_config(b: &Vec<u8>, pos: usize) -> (r: Option<(RoomConfig, usize)>)
    ensures
        match r {
            Some((v, j)) => sdec_room_config(b@, pos as int) == Some((v@, j as int)),
            None => sdec_room_config(b@, pos as int) is None,
        },
{
    let (name, c1) = match dec_str(b, pos) {
        Some(x) => x,
        None => {
            return None;
        },
    };
    let (game_type, c2) = match dec_game_type(b, c1) {
        Some(x) => x,
        None => {
            return None;
        },
    };
    let (max_players, c3) = match dec_u8(b, c2) {
        Some(x) => x,
        None => {
            return None;
        },
    };
    let (small_blind, c4) = match dec_i64(b, c3) {
        Some(x) => x,
        None => {
            return None;
        },
    };
    let (big_blind, c5) = match dec_i64(b, c4) {
        Some(x) => x,
        None => {
            return None;
        },
    };
    let (min_buy_in, c6) = match dec_i64(b, c5) {
        Some(x) => x,
        None => {
            return None;
        },
    };
    let (max_buy_in, c7) = match dec_i64(b, c6) {
        Some(x) => x,
        None => {
            return None;
        },
    };
    let (is_private, c8) = match dec_bool(b, c7) {
        Some(x) => x,
        None => {
            return None;
        },
    };
    let (password, c9) = match dec_opt_str(b, c8) {
        Some(x) => x,
        None => {
            return None;
        },
    };
    let rc = RoomConfig {
        name,
        game_type,
        max_players,
        small_blind,
        big_blind,
        min_buy_in,
        max_buy_in,
        is_private,
        password,
    };
    proof {
        match sdec_room_config(b@, pos as int) {
            Some((q, jj)) => {
                assert(q =~= rc@);
            },
            None => {},
        }
    }
    Some((rc, c9))
}

/// String fields small enough for their 64-bit length prefixes.
pub open spec fn wf_user(u: UserV) -> bool {
    &&& u.username.len() <= u64::MAX
    &&& u.email.len() <= u64::MAX
    &&& u.display_name.len() <= u64::MAX
    &&& (u.avatar_url matches Some(s) ==> s.len() <= u64::MAX)
}

pub open spec fn senc_user(u: UserV) -> Seq<u8> {
    senc_u64(u.id) + senc_str(u.username) + senc_str(u.email) + senc_str(u.display_name)
        + senc_opt_str(u.avatar_url) + senc_i64(u.chips) + senc_i64(u.balance) + senc_i32(u.level)
        + senc_i64(u.experience) + senc_i64(u.created_at) + senc_i64(u.last_active)
        + senc_opt_status(u.status)
}

pub open spec fn sdec_user(b: Seq<u8>, i: int) -> Option<(UserV, int)> {
    match sdec_u64(b, i) {
        Some((id, j1)) => match sdec_str(b, j1) {
            Some((username, j2)) => match sdec_str(b, j2) {
                Some((email, j3)) => match sdec_str(b, j3) {
                    Some((display_name, j4)) => match sdec_opt_str(b, j4) {
                        Some((avatar_url, j5)) => match sdec_i64(b, j5) {
                            Some((chips, j6)) => match sdec_i64(b, j6) {
                                Some((balance, j7)) => match sdec_i32(b, j7) {
                                    Some((level, j8)) => match sdec_i64(b, j8) {
                                        Some((experience, j9)) => match sdec_i64(b, j9) {
                                            Some((created_at, j10)) => match sdec_i64(b, j10) {
                                                Some((last_active, j11)) => match sdec_opt_status(
                                                    b,
                                                    j11,
                                                ) {
                                                    Some((status, j12)) => Some(
                                                        (
                                                            UserV {
                                                                id,
                                                                username,
                                                                email,
                                                                display_name,
                                                                avatar_url,
                                                                chips,
                                                                balance,
                                                                level,
                                                                experience,
                                                                created_at,
                                                                last_active,
                                                                status,
                                                            },
                                                            j12,
                                                        ),
                                                    ),
                                                    None => None,
                                                },
                                                None => None,
                                            },
                                            None => None,
                                        },
                                        None => None,
                                    },
                                    None => None,
                                },
                                None => None,
                            },
                            None => None,
                        },
                        None => None,
                    },
                    None => None,
                },
                None => None,
            },
            None => None,
        },
        None => None,
    }
}

pub proof fn lemma_rt_user(b: Seq<u8>, i: int, u: UserV)
    requires
        0 <= i,
        wf_user(u),
        i + senc_user(u).len() <= b.len(),
        b.subrange(i, i + senc_user(u).len()) == senc_user(u),
    ensures
        sdec_user(b, i) == Some((u, i + senc_user(u).len())),
{
    lemma_auto_spec_u64_to_from_le_bytes();
    lemma_auto_spec_u32_to_from_le_bytes();
    let f1 = senc_u64(u.id);
    let f2 = senc_str(u.username);
    let f3 = senc_str(u.email);
    let f4 = senc_str(u.display_name);
    let f5 = senc_opt_str(u.avatar_url);
    let f6 = senc_i64(u.chips);
    let f7 = senc_i64(u.balance);
    let f8 = senc_i32(u.level);
    let f9 = senc_i64(u.experience);
    let f10 = senc_i64(u.created_at);
    let f11 = senc_i64(u.last_active);
    let f12 = senc_opt_status(u.status);
    lemma_concat_at(b, i, f1 + f2 + f3 + f4 + f5 + f6 + f7 + f8 + f9 + f10 + f11, f12);
    lemma_concat_at(b, i, f1 + f2 + f3 + f4 + f5 + f6 + f7 + f8 + f9 + f10, f11);
    lemma_concat_at(b, i, f1 + f2 + f3 + f4 + f5 + f6 + f7 + f8 + f9, f10);
    lemma_concat_at(b, i, f1 + f2 + f3 + f4 + f5 + f6 + f7 + f8, f9);
    lemma_concat_at(b, i, f1 + f2 + f3 + f4 + f5 + f6 + f7, f8);
    lemma_concat_at(b, i, f1 + f2 + f3 + f4 + f5 + f6, f7);
    lemma_concat_at(b, i, f1 + f2 + f3 + f4 + f5, f6);
    lemma_concat_at(b, i, f1 + f2 + f3 + f4, f5);
    lemma_concat_at(b, i, f1 + f2 + f3, f4);
    lemma_concat_at(b, i, f1 + f2, f3);
    lemma_concat_at(b, i, f1, f2);
    let p2 = i + f1.len();
    let p3 = p2 + f2.len();
    let p4 = p3 + f3.len();
    let p5 = p4 + f4.len();
    let p6 = p5 + f5.len();
    let p7 = p6 + f6.len();
    let p8 = p7 + f7.len();
    let p9 = p8 + f8.len();
    let p10 = p9 + f9.len();
    let p11 = p10 + f10.len();
    let p12 = p11 + f11.len();
    lemma_rt_u64(b, i, u.id);
    lemma_rt_str(b, p2, u.username);
    lemma_rt_str(b, p3, u.email);
    lemma_rt_str(b, p4, u.display_name);
    lemma_rt_opt_str(b, p5, u.avatar_url);
    lemma_rt_i64(b, p6, u.chips);
    lemma_rt_i64(b, p7, u.balance);
    lemma_rt_i32(b, p8, u.level);
    lemma_rt_i64(b, p9, u.experience);
    lemma_rt_i64(b, p10, u.created_at);
    lemma_rt_i64(b, p11, u.last_active);
    lemma_rt_opt_status(b, p12, u.status);
    match sdec_user(b, i) {
        Some((q, jj)) => {
            assert(q =~= u);
        },
        None => {},
    }
}

fn enc_user(out: &mut Vec<u8>, x: &User)
    ensures
        final(out)@ == old(out)@ + senc_user(x@),
{
    enc_u64(out, x.id);
    enc_str(out, x.username.as_str());
    enc_str(out, x.email.as_str());
    enc_str(out, x.display_name.as_str());
    enc_opt_str(out, &x.avatar_url);
    enc_i64(out, x.chips);
    enc_i64(out, x.balance);
    enc_i32(out, x.level);
    enc_i64(out, x.experience);
    enc_i64(out, x.created_at);
    enc_i64(out, x.last_active);
    enc_opt_status(out, &x.status);
    proof {
        let g = old(out)@;
        let u = x@;
        let f1 = senc_u64(u.id);
        let f2 = senc_str(u.username);
        let f3 = senc_str(u.email);
        let f4 = senc_str(u.display_name);
        let f5 = senc_opt_str(u.avatar_url);
        let f6 = senc_i64(u.chips);
        let f7 = senc_i64(u.balance);
        let f8 = senc_i32(u.level);
        let f9 = senc_i64(u.experience);
        let f10 = senc_i64(u.created_at);
        let f11 = senc_i64(u.last_active);
        let f12 = senc_opt_status(u.status);
        lemma_add_assoc(g, f1, f2);
        lemma_add_assoc(g, f1 + f2, f3);
        lemma_add_assoc(g, f1 + f2 + f3, f4);
        lemma_add_assoc(g, f1 + f2 + f3 + f4, f5);
        lemma_add_assoc(g, f1 + f2 + f3 + f4 + f5, f6);
        lemma_add_assoc(g, f1 + f2 + f3 + f4 + f5 + f6, f7);
        lemma_add_assoc(g, f1 + f2 + f3 + f4 + f5 + f6 + f7, f8);
        lemma_add_assoc(g, f1 + f2 + f3 + f4 + f5 + f6 + f7 + f8, f9);
        lemma_add_assoc(g, f1 + f2 + f3 + f4 + f5 + f6 + f7 + f8 + f9, f10);
        lemma_add_assoc(g, f1 + f2 + f3 + f4 + f5 + f6 + f7 + f8 + f9 + f10, f11);
        lemma_add_assoc(g, f1 + f2 + f3 + f4 + f5 + f6 + f7 + f8 + f9 + f10 + f11, f12);
        assert(out@ == g + senc_user(u));
    }
}

fn dec_user(b: &Vec<u8>, pos: usize) -> (r: Option<(User, usize)>)
    ensures
        match r {
            Some((v, j)) => sdec_user(b@, pos as int) == Some((v@, j as int)),
            None => sdec_user(b@, pos as int) is None,
        },
{
    let (id, c1) = match dec_u64(b, pos) {
        Some(x) => x,
        None => {
            return None;
        },
    };
    let (username, c2) = match dec_str(b, c1) {
        Some(x) => x,
        None => {
            return None;
        },
    };
    let (email, c3) = match dec_str(b, c2) {
        Some(x) => x,
        None => {
            return None;
        },
    };
    let (display_name, c4) = match dec_str(b, c3) {
        Some(x) => x,
        None => {
            return None;
        },
    };
    let (avatar_url, c5) = match dec_opt_str(b, c4) {
        Some(x) => x,
        None => {
            return None;
        },
    };
    let (chips, c6) = match dec_i64(b, c5) {
        Some(x) => x,
        None => {
            return None;
        },
    };
    let (balance, c7) = match dec_i64(b, c6) {
        Some(x) => x,
        None => {
            return None;
        },
    };
    let (level, c8) = match dec_i32(b, c7) {
        Some(x) => x,
        None => {
            return None;
        },
    };
    let (experience, c9) = match dec_i64(b, c8) {
        Some(x) => x,
        None => {
            return None;
        },
    };
    let (created_at, c10) = match dec_i64(b, c9) {
        Some(x) => x,
        None => {
            return None;
        },
    };
    let (last_active, c11) = match dec_i64(b, c10) {
        Some(x) => x,
        None => {
            return None;
        },
    };
    let (status, c12) = match dec_opt_status(b, c11) {
        Some(x) => x,
        None => {
            return None;
        },
    };
    let u = User {
        id,
        username,
        email,
        display_name,
        avatar_url,
        chips,
        balance,
        level,
        experience,
        created_at,
        last_active,
        status,
    };
    proof {
        match sdec_user(b@, pos as int) {
            Some((q, jj)) => {
                assert(q =~= u@);
            },
            None => {},
        }
    }
    Some((u, c12))
}

pub open spec fn senc_player_items(s: Seq<PlayerInfoV>) -> Seq<u8>
    decreases s.len(),
{
    if s.len() == 0 {
        Seq::empty()
    } else {
        senc_player(s[0]) + senc_player_items(s.drop_first())
    }
}

pub open spec fn senc_player_list(s: Seq<PlayerInfoV>) -> Seq<u8> {
    senc_u64(s.len() as u64) + senc_player_items(s)
}

pub open spec fn sdec_player_items(b: Seq<u8>, i: int, n: nat) -> Option<(Seq<PlayerInfoV>, int)>
    decreases n,
{
    if n == 0 {
        Some((Seq::empty(), i))
    } else {
        match sdec_player(b, i) {
            Some((c, j)) => match sdec_player_items(b, j, (n - 1) as nat) {
                Some((s, k)) => Some((seq![c] + s, k)),
                None => None,
            },
            None => None,
        }
    }
}

pub open spec fn sdec_player_list(b: Seq<u8>, i: int) -> Option<(Seq<PlayerInfoV>, int)> {
    match sdec_u64(b, i) {
        Some((n, j)) => sdec_player_items(b, j, n as nat),
        None => None,
    }
}

pub proof fn lemma_senc_player_items_push(s: Seq<PlayerInfoV>, c: PlayerInfoV)
    ensures
        senc_player_items(s.push(c)) == senc_player_items(s) + senc_player(c),
    decreases s.len(),
{
    if s.len() == 0 {
        assert(s.push(c)[0] == c);
        assert(s.push(c).drop_first() =~= Seq::<PlayerInfoV>::empty());
        assert(senc_player_items(s.push(c)) == senc_player(c) + senc_player_items(
            Seq::<PlayerInfoV>::empty(),
        ));
        assert(senc_player_items(Seq::<PlayerInfoV>::empty()) =~= Seq::<u8>::empty());
        assert(senc_player(c) + Seq::<u8>::empty() =~= senc_player(c));
        assert(senc_player_items(s) =~= Seq::<u8>::empty());
        assert(senc_player_items(s) + senc_player(c) =~= senc_player(c));
    } else {
        assert(s.push(c)[0] == s[0]);
        assert(s.push(c).drop_first() =~= s.drop_first().push(c));
        lemma_senc_player_items_push(s.drop_first(), c);
        assert(senc_player_items(s.push(c)) =~= senc_player_items(s) + senc_player(c));
    }
}

pub proof fn lemma_rt_player_items(b: Seq<u8>, i: int, s: Seq<PlayerInfoV>)
    requires
        0 <= i,
        forall|t: int| 0 <= t < s.len() ==> wf_player(#[trigger] s[t]),
        i + senc_player_items(s).len() <= b.len(),
        b.subrange(i, i + senc_player_items(s).len()) == senc_player_items(s),
    ensures
        sdec_player_items(b, i, s.len()) == Some((s, i + senc_player_items(s).len())),
    decreases s.len(),
{
    if s.len() > 0 {
        let rest = s.drop_first();
        lemma_concat_at(b, i, senc_player(s[0]), senc_player_items(rest));
        lemma_rt_player(b, i, s[0]);
        lemma_rt_player_items(b, i + senc_player(s[0]).len(), rest);
        assert(seq![s[0]] + rest =~= s);
    }
}

pub proof fn lemma_rt_player_list(b: Seq<u8>, i: int, s: Seq<PlayerInfoV>)
    requires
        0 <= i,
        s.len() <= u64::MAX,
        forall|t: int| 0 <= t < s.len() ==> wf_player(#[trigger] s[t]),
        i + senc_player_list(s).len() <= b.len(),
        b.subrange(i, i + senc_player_list(s).len()) == senc_player_list(s),
    ensures
        sdec_player_list(b, i) == Some((s, i + senc_player_list(s).len())),
{
    lemma_auto_spec_u64_to_from_le_bytes();
    lemma_concat_at(b, i, senc_u64(s.len() as u64), senc_player_items(s));
    lemma_rt_u64(b, i, s.len() as u64);
    lemma_rt_player_items(b, i + 8, s);
}

fn enc_player_list(out: &mut Vec<u8>, v: &Vec<PlayerInfo>)
    ensures
        final(out)@ == old(out)@ + senc_player_list(views_of(v@)),
{
    let n = v.len();
    enc_u64(out, n as u64);
    let mut i: usize = 0;
    proof {
        assert(views_of(v@).take(0) =~= Seq::<PlayerInfoV>::empty());
        assert(out@ =~= old(out)@ + senc_u64(views_of(v@).len() as u64) + senc_player_items(
            views_of(v@).take(0),
        ));
    }
    while i < n
        invariant
            n == v@.len(),
            i <= n,
            out@ == old(out)@ + senc_u64(views_of(v@).len() as u64) + senc_player_items(
                views_of(v@).take(i as int),
            ),
        decreases n - i,
    {
        enc_player(out, &v[i]);
        proof {
            lemma_senc_player_items_push(views_of(v@).take(i as int), v@[i as int]@);
            assert(views_of(v@)[i as int] == v@[i as int]@);
            assert(views_of(v@).take(i as int).push(v@[i as int]@) =~= views_of(v@).take(
                i as int + 1,
            ));
            assert(out@ =~= old(out)@ + senc_u64(views_of(v@).len() as u64) + senc_player_items(
                views_of(v@).take(i as int + 1),
            ));
        }
        i += 1;
    }
    proof {
        assert(views_of(v@).take(n as int) =~= views_of(v@));
        assert(out@ =~= old(out)@ + senc_player_list(views_of(v@)));
    }
}

fn dec_player_list(b: &Vec<u8>, pos: usize) -> (r: Option<(Vec<PlayerInfo>, usize)>)
    ensures
        match r {
            Some((v, j)) => sdec_player_list(b@, pos as int) == Some((views_of(v@), j as int)),
            None => sdec_player_list(b@, pos as int) is None,
        },
{
    match dec_u64(b, pos) {
        Some((n64, start)) => {
            let mut v: Vec<PlayerInfo> = Vec::new();
            let mut cur = start;
            let mut k: u64 = 0;
            proof {
                match sdec_player_items(b@, start as int, n64 as nat) {
                    Some((t, j)) => {
                        assert(views_of(v@) + t =~= t);
                    },
                    None => {},
                }
            }
            while k < n64
                invariant
                    k <= n64,
                    sdec_u64(b@, pos as int) == Some((n64, start as int)),
                    sdec_player_items(b@, start as int, n64 as nat) == (match sdec_player_items(
                        b@,
                        cur as int,
                        (n64 - k) as nat,
                    ) {
                        Some((t, j)) => Some((views_of(v@) + t, j)),
                        None => None::<(Seq<PlayerInfoV>, int)>,
                    }),
                decreases n64 - k,
            {
                let ghost m = (n64 - k) as nat;
                let ghost scur = cur as int;
                let ghost vold = views_of(v@);
                match dec_player(b, cur) {
                    Some((c, j2)) => {
                        proof {
                            lemma_views_push(v@, c);
                        }
                        let ghost cv = c@;
                        v.push(c);
                        cur = j2;
                        k += 1;
                        proof {
                            match sdec_player_items(b@, j2 as int, (m - 1) as nat) {
                                Some((t, jj)) => {
                                    assert(vold + (seq![cv] + t) =~= (vold + seq![cv]) + t);
                                    assert(views_of(v@) =~= vold + seq![cv]);
                                },
                                None => {},
                            }
                        }
                    },
                    None => {
                        proof {
                            assert(sdec_player_items(b@, scur, m) is None);
                        }
                        return None;
                    },
                }
            }
            proof {
                assert(sdec_player_items(b@, cur as int, 0) == Some(
                    (Seq::<PlayerInfoV>::empty(), cur as int),
                ));
                assert(views_of(v@) + Seq::<PlayerInfoV>::empty() =~= views_of(v@));
            }
            Some((v, cur))
        },
        None => None,
    }
}

pub proof fn lemma_rooms_view_push(s: Seq<GameRoom>, x: GameRoom)
    ensures
        rooms_view(s.push(x)) =~= rooms_view(s).push(x@),
{
}

pub open spec fn senc_room_items(s: Seq<GameRoomV>) -> Seq<u8>
    decreases s.len(),
{
    if s.len() == 0 {
        Seq::empty()
    } else {
        senc_room(s[0]) + senc_room_items(s.drop_first())
    }
}

pub open spec fn senc_room_list(s: Seq<GameRoomV>) -> Seq<u8> {
    senc_u64(s.len() as u64) + senc_room_items(s)
}

pub open spec fn sdec_room_items(b: Seq<u8>, i: int, n: nat) -> Option<(Seq<GameRoomV>, int)>
    decreases n,
{
    if n == 0 {
        Some((Seq::empty(), i))
    } else {
        match sdec_room(b, i) {
            Some((c, j)) => match sdec_room_items(b, j, (n - 1) as nat) {
                Some((s, k)) => Some((seq![c] + s, k)),
                None => None,
            },
            None => None,
        }
    }
}

pub open spec fn sdec_room_list(b: Seq<u8>, i: int) -> Option<(Seq<GameRoomV>, int)> {
    match sdec_u64(b, i) {
        Some((n, j)) => sdec_room_items(b, j, n as nat),
        None => None,
    }
}

pub proof fn lemma_senc_room_items_push(s: Seq<GameRoomV>, c: GameRoomV)
    ensures
        senc_room_items(s.push(c)) == senc_room_items(s) + senc_room(c),
    decreases s.len(),
{
    if s.len() == 0 {
        assert(s.push(c)[0] == c);
        assert(s.push(c).drop_first() =~= Seq::<GameRoomV>::empty());
        assert(senc_room_items(s.push(c)) == senc_room(c) + senc_room_items(
            Seq::<GameRoomV>::empty(),
        ));
        assert(senc_room_items(Seq::<GameRoomV>::empty()) =~= Seq::<u8>::empty());
        assert(senc_room(c) + Seq::<u8>::empty() =~= senc_room(c));
        assert(senc_room_items(s) =~= Seq::<u8>::empty());
        assert(senc_room_items(s) + senc_room(c) =~= senc_room(c));
    } else {
        assert(s.push(c)[0] == s[0]);
        assert(s.push(c).drop_first() =~= s.drop_first().push(c));
        lemma_senc_room_items_push(s.drop_first(), c);
        assert(senc_room_items(s.push(c)) =~= senc_room_items(s) + senc_room(c));
    }
}

pub proof fn lemma_rt_room_items(b: Seq<u8>, i: int, s: Seq<GameRoomV>)
    requires
        0 <= i,
        forall|t: int| 0 <= t < s.len() ==> wf_room(#[trigger] s[t]),
        i + senc_room_items(s).len() <= b.len(),
        b.subrange(i, i + senc_room_items(s).len()) == senc_room_items(s),
    ensures
        sdec_room_items(b, i, s.len()) == Some((s, i + senc_room_items(s).len())),
    decreases s.len(),
{
    if s.len() > 0 {
        let rest = s.drop_first();
        lemma_concat_at(b, i, senc_room(s[0]), senc_room_items(rest));
        lemma_rt_room(b, i, s[0]);
        lemma_rt_room_items(b, i + senc_room(s[0]).len(), rest);
        assert(seq![s[0]] + rest =~= s);
    }
}

pub proof fn lemma_rt_room_list(b: Seq<u8>, i: int, s: Seq<GameRoomV>)
    requires
        0 <= i,
        s.len() <= u64::MAX,
        forall|t: int| 0 <= t < s.len() ==> wf_room(#[trigger] s[t]),
        i + senc_room_list(s).len() <= b.len(),
        b.subrange(i, i + senc_room_list(s).len()) == senc_room_list(s),
    ensures
        sdec_room_list(b, i) == Some((s, i + senc_room_list(s).len())),
{
    lemma_auto_spec_u64_to_from_le_bytes();
    lemma_concat_at(b, i, senc_u64(s.len() as u64), senc_room_items(s));
    lemma_rt_u64(b, i, s.len() as u64);
    lemma_rt_room_items(b, i + 8, s);
}

fn enc_room_list(out: &mut Vec<u8>, v: &Vec<GameRoom>)
    ensures
        final(out)@ == old(out)@ + senc_room_list(rooms_view(v@)),
{
    let n = v.len();
    enc_u64(out, n as u64);
    let mut i: usize = 0;
    proof {
        assert(rooms_view(v@).take(0) =~= Seq::<GameRoomV>::empty());
        assert(out@ =~= old(out)@ + senc_u64(rooms_view(v@).len() as u64) + senc_room_items(
            rooms_view(v@).take(0),
        ));
    }
    while i < n
        invariant
            n == v@.len(),
            i <= n,
            out@ == old(out)@ + senc_u64(rooms_view(v@).len() as u64) + senc_room_items(
                rooms_view(v@).take(i as int),
            ),
        decreases n - i,
    {
        enc_room(out, &v[i]);
        proof {
            lemma_senc_room_items_push(rooms_view(v@).take(i as int), v@[i as int]@);
            assert(rooms_view(v@)[i as int] == v@[i as int]@);
            assert(rooms_view(v@).take(i as int).push(v@[i as int]@) =~= rooms_view(v@).take(
                i as int + 1,
            ));
            assert(out@ =~= old(out)@ + senc_u64(rooms_view(v@).len() as u64) + senc_room_items(
                rooms_view(v@).take(i as int + 1),
            ));
        }
        i += 1;
    }
    proof {
        assert(rooms_view(v@).take(n as int) =~= rooms_view(v@));
        assert(out@ =~= old(out)@ + senc_room_list(rooms_view(v@)));
    }
}

fn dec_room_list(b: &Vec<u8>, pos: usize) -> (r: Option<(Vec<GameRoom>, usize)>)
    ensures
        match r {
            Some((v, j)) => sdec_room_list(b@, pos as int) == Some((rooms_view(v@), j as int)),
            None => sdec_room_list(b@, pos as int) is None,
        },
{
    match dec_u64(b, pos) {
        Some((n64, start)) => {
            let mut v: Vec<GameRoom> = Vec::new();
            let mut cur = start;
            let mut k: u64 = 0;
            proof {
                match sdec_room_items(b@, start as int, n64 as nat) {
                    Some((t, j)) => {
                        assert(rooms_view(v@) + t =~= t);
                    },
                    None => {},
                }
            }
            while k < n64
                invariant
                    k <= n64,
                    sdec_u64(b@, pos as int) == Some((n64, start as int)),
                    sdec_room_items(b@, start as int, n64 as nat) == (match sdec_room_items(
                        b@,
                        cur as int,
                        (n64 - k) as nat,
                    ) {
                        Some((t, j)) => Some((rooms_view(v@) + t, j)),
                        None => None::<(Seq<GameRoomV>, int)>,
                    }),
                decreases n64 - k,
            {
                let ghost m = (n64 - k) as nat;
                let ghost scur = cur as int;
                let ghost vold = rooms_view(v@);
                match dec_room(b, cur) {
                    Some((c, j2)) => {
                        proof {
                            lemma_rooms_view_push(v@, c);
                        }
                        let ghost cv = c@;
                        v.push(c);
                        cur = j2;
                        k += 1;
                        proof {
                            match sdec_room_items(b@, j2 as int, (m - 1) as nat) {
                                Some((t, jj)) => {
                                    assert(vold + (seq![cv] + t) =~= (vold + seq![cv]) + t);
                                    assert(rooms_view(v@) =~= vold + seq![cv]);
                                },
                                None => {},
                            }
                        }
                    },
                    None => {
                        proof {
                            assert(sdec_room_items(b@, scur, m) is None);
                        }
                        return None;
                    },
                }
            }
            proof {
                assert(sdec_room_items(b@, cur as int, 0) == Some(
                    (Seq::<GameRoomV>::empty(), cur as int),
                ));
                assert(rooms_view(v@) + Seq::<GameRoomV>::empty() =~= rooms_view(v@));
            }
            Some((v, cur))
        },
        None => None,
    }
}

// ---------------------------------------------------------------------
// The protocol frames: one tag byte naming the kind, then the payload.
// ---------------------------------------------------------------------

/// Every text and list field fits its 64-bit length prefix.  Values read
/// from real strings and vectors always do.
pub open spec fn wf_client(m: ClientMessageV) -> bool {
    match m {
        ClientMessageV::Authenticate { token } => token.len() <= u64::MAX,
        ClientMessageV::JoinRoom { room_id } => room_id.len() <= u64::MAX,
        ClientMessageV::LeaveRoom => true,
        ClientMessageV::CreateRoom { room_config } => wf_room_config(room_config),
        ClientMessageV::GetRoomList => true,
        ClientMessageV::PlayerAction { action } => true,
        ClientMessageV::RequestTimeExtension => true,
        ClientMessageV::SendMessage { message, room_id } => message.len() <= u64::MAX && (
        room_id matches Some(s) ==> s.len() <= u64::MAX),
        ClientMessageV::Ping => true,
        ClientMessageV::Heartbeat => true,
    }
}

pub open spec fn senc_client(m: ClientMessageV) -> Seq<u8> {
    match m {
        ClientMessageV::Authenticate { token } => seq![0u8] + senc_str(token),
        ClientMessageV::JoinRoom { room_id } => seq![1u8] + senc_str(room_id),
        ClientMessageV::LeaveRoom => seq![2u8],
        ClientMessageV::CreateRoom { room_config } => seq![3u8] + senc_room_config(room_config),
        ClientMessageV::GetRoomList => seq![4u8],
        ClientMessageV::PlayerAction { action } => seq![5u8] + senc_action(action),
        ClientMessageV::RequestTimeExtension => seq![6u8],
        ClientMessageV::SendMessage { message, room_id } => seq![7u8] + senc_str(message)
            + senc_opt_str(room_id),
        ClientMessageV::Ping => seq![8u8],
        ClientMessageV::Heartbeat => seq![9u8],
    }
}

pub open spec fn sdec_client(b: Seq<u8>, i: int) -> Option<(ClientMessageV, int)> {
    match sdec_u8(b, i) {
        Some((t, j)) => if t == 0 {
            match sdec_str(b, j) {
                Some((token, j2)) => Some((ClientMessageV::Authenticate { token }, j2)),
                None => None,
            }
        } else if t == 1 {
            match sdec_str(b, j) {
                Some((room_id, j2)) => Some((ClientMessageV::JoinRoom { room_id }, j2)),
                None => None,
            }
        } else if t == 2 {
            Some((ClientMessageV::LeaveRoom, j))
        } else if t == 3 {
            match sdec_room_config(b, j) {
                Some((room_config, j2)) => Some((ClientMessageV::CreateRoom { room_config }, j2)),
                None => None,
            }
        } else if t == 4 {
            Some((ClientMessageV::GetRoomList, j))
        } else if t == 5 {
            match sdec_action(b, j) {
                Some((action, j2)) => Some((ClientMessageV::PlayerAction { action }, j2)),
                None => None,
            }
        } else if t == 6 {
            Some((ClientMessageV::RequestTimeExtension, j))
        } else if t == 7 {
            match sdec_str(b, j) {
                Some((message, j2)) => match sdec_opt_str(b, j2) {
                    Some((room_id, j3)) => Some(
                        (ClientMessageV::SendMessage { message, room_id }, j3),
                    ),
                    None => None,
                },
                None => None,
            }
        } else if t == 8 {
            Some((ClientMessageV::Ping, j))
        } else if t == 9 {
            Some((ClientMessageV::Heartbeat, j))
        } else {
            None
        },
        None => None,
    }
}

/// A whole frame decodes to a client message exactly when some message
/// encodes to it, trailing bytes included.
pub open spec fn sdec_client_frame(b: Seq<u8>) -> Option<ClientMessageV> {
    match sdec_client(b, 0) {
        Some((m, j)) => if j == b.len() {
            Some(m)
        } else {
            None
        },
        None => None,
    }
}

/// Every text and list field fits its 64-bit length prefix.
pub open spec fn wf_server(m: ServerMessageV) -> bool {
    match m {
        ServerMessageV::AuthenticationSuccess { user } => wf_user(user),
        ServerMessageV::AuthenticationFailed { error } => error.len() <= u64::MAX,
        ServerMessageV::RoomJoined { room, players } => wf_room(room) && players.len()
            <= u64::MAX && (forall|t: int| 0 <= t < players.len() ==> wf_player(
            #[trigger] players[t],
        )),
        ServerMessageV::RoomLeft => true,
        ServerMessageV::RoomListUpdate { rooms } => rooms.len() <= u64::MAX && (forall|t: int|
            0 <= t < rooms.len() ==> wf_room(#[trigger] rooms[t])),
        ServerMessageV::PlayerJoined { player } => wf_player(player),
        ServerMessageV::PlayerLeft { player_id } => true,
        ServerMessageV::GameStateUpdate { phase, community_cards, pot } => community_cards.len()
            <= u64::MAX,
        ServerMessageV::PlayerActionRequired { player_id, time_limit } => true,
        ServerMessageV::PlayerActionUpdate { action } => true,
        ServerMessageV::HandResult { winners, pot_distribution } => winners.len() <= u64::MAX && (
        forall|t: int| 0 <= t < winners.len() ==> wf_hand_winner(#[trigger] winners[t]))
            && pot_distribution.len() <= u64::MAX,
        ServerMessageV::ChatMessage { player_id, username, message, timestamp } => username.len()
            <= u64::MAX && message.len() <= u64::MAX,
        ServerMessageV::Pong => true,
        ServerMessageV::Error { message } => message.len() <= u64::MAX,
        ServerMessageV::Disconnect { reason } => reason.len() <= u64::MAX,
    }
}

pub open spec fn senc_server(m: ServerMessageV) -> Seq<u8> {
    match m {
        ServerMessageV::AuthenticationSuccess { user } => seq![0u8] + senc_user(user),
        ServerMessageV::AuthenticationFailed { error } => seq![1u8] + senc_str(error),
        ServerMessageV::RoomJoined { room, players } => seq![2u8] + senc_room(room)
            + senc_player_list(players),
        ServerMessageV::RoomLeft => seq![3u8],
        ServerMessageV::RoomListUpdate { rooms } => seq![4u8] + senc_room_list(rooms),
        ServerMessageV::PlayerJoined { player } => seq![5u8] + senc_player(player),
        ServerMessageV::PlayerLeft { player_id } => seq![6u8] + senc_u64(player_id),
        ServerMessageV::GameStateUpdate { phase, community_cards, pot } => seq![7u8] + senc_phase(
            phase,
        ) + senc_card_list(community_cards) + senc_i64(pot),
        ServerMessageV::PlayerActionRequired { player_id, time_limit } => seq![8u8] + senc_u64(
            player_id,
        ) + senc_i32(time_limit),
        ServerMessageV::PlayerActionUpdate { action } => seq![9u8] + senc_game_action(action),
        ServerMessageV::HandResult { winners, pot_distribution } => seq![10u8] + senc_hw_list(
            winners,
        ) + senc_pw_list(pot_distribution),
        ServerMessageV::ChatMessage { player_id, username, message, timestamp } => seq![11u8]
            + senc_u64(player_id) + senc_str(username) + senc_str(message) + senc_i64(timestamp),
        ServerMessageV::Pong => seq![12u8],
        ServerMessageV::Error { message } => seq![13u8] + senc_str(message),
        ServerMessageV::Disconnect { reason } => seq![14u8] + senc_str(reason),
    }
}

pub open spec fn sdec_server(b: Seq<u8>, i: int) -> Option<(ServerMessageV, int)> {
    match sdec_u8(b, i) {
        Some((t, j)) => if t == 0 {
            match sdec_user(b, j) {
                Some((user, j2)) => Some((ServerMessageV::AuthenticationSuccess { user }, j2)),
                None => None,
            }
        } else if t == 1 {
            match sdec_str(b, j) {
                Some((error, j2)) => Some((ServerMessageV::AuthenticationFailed { error }, j2)),
                None => None,
            }
        } else if t == 2 {
            match sdec_room(b, j) {
                Some((room, j2)) => match sdec_player_list(b, j2) {
                    Some((players, j3)) => Some((ServerMessageV::RoomJoined { room, players }, j3)),
                    None => None,
                },
                None => None,
            }
        } else if t == 3 {
            Some((ServerMessageV::RoomLeft, j))
        } else if t == 4 {
            match sdec_room_list(b, j) {
                Some((rooms, j2)) => Some((ServerMessageV::RoomListUpdate { rooms }, j2)),
                None => None,
            }
        } else if t == 5 {
            match sdec_player(b, j) {
                Some((player, j2)) => Some((ServerMessageV::PlayerJoined { player }, j2)),
                None => None,
            }
        } else if t == 6 {
            match sdec_u64(b, j) {
                Some((player_id, j2)) => Some((ServerMessageV::PlayerLeft { player_id }, j2)),
                None => None,
            }
        } else if t == 7 {
            match sdec_phase(b, j) {
                Some((phase, j2)) => match sdec_card_list(b, j2) {
                    Some((community_cards, j3)) => match sdec_i64(b, j3) {
                        Some((pot, j4)) => Some(
                            (ServerMessageV::GameStateUpdate { phase, community_cards, pot }, j4),
                        ),
                        None => None,
                    },
                    None => None,
                },
                None => None,
            }
        } else if t == 8 {
            match sdec_u64(b, j) {
                Some((player_id, j2)) => match sdec_i32(b, j2) {
                    Some((time_limit, j3)) => Some(
                        (ServerMessageV::PlayerActionRequired { player_id, time_limit }, j3),
                    ),
                    None => None,
                },
                None => None,
            }
        } else if t == 9 {
            match sdec_game_action(b, j) {
                Some((action, j2)) => Some((ServerMessageV::PlayerActionUpdate { action }, j2)),
                None => None,
            }
        } else if t == 10 {
            match sdec_hw_list(b, j) {
                Some((winners, j2)) => match sdec_pw_list(b, j2) {
                    Some((pot_distribution, j3)) => Some(
                        (ServerMessageV::HandResult { winners, pot_distribution }, j3),
                    ),
                    None => None,
                },
                None => None,
            }
        } else if t == 11 {
            match sdec_u64(b, j) {
                Some((player_id, j2)) => match sdec_str(b, j2) {
                    Some((username, j3)) => match sdec_str(b, j3) {
                        Some((message, j4)) => match sdec_i64(b, j4) {
                            Some((timestamp, j5)) => Some(
                                (
                                    ServerMessageV::ChatMessage {
                                        player_id,
                                        username,
                                        message,
                                        timestamp,
                                    },
                                    j5,
                                ),
                            ),
                            None => None,
                        },
                        None => None,
                    },
                    None => None,
                },
                None => None,
            }
        } else if t == 12 {
            Some((ServerMessageV::Pong, j))
        } else if t == 13 {
            match sdec_str(b, j) {
                Some((message, j2)) => Some((ServerMessageV::Error { message }, j2)),
                None => None,
            }
        } else if t == 14 {
            match sdec_str(b, j) {
                Some((reason, j2)) => Some((ServerMessageV::Disconnect { reason }, j2)),
                None => None,
            }
        } else {
            None
        },
        None => None,
    }
}

/// A whole frame decodes to a server event exactly when some event
/// encodes to it, trailing bytes included.
pub open spec fn sdec_server_frame(b: Seq<u8>) -> Option<ServerMessageV> {
    match sdec_server(b, 0) {
        Some((m, j)) => if j == b.len() {
            Some(m)
        } else {
            None
        },
        None => None,
    }
}

/// Encode an outbound intent as one frame.
pub fn encode_client_message(m: &ClientMessage) -> (r: Vec<u8>)
    ensures
        r@ == senc_client(m@),
{
    let mut out: Vec<u8> = Vec::new();
    match m {
        ClientMessage::Authenticate { token } => {
            enc_u8(&mut out, 0);
            enc_str(&mut out, token.as_str());
        },
        ClientMessage::JoinRoom { room_id } => {
            enc_u8(&mut out, 1);
            enc_str(&mut out, room_id.as_str());
        },
        ClientMessage::LeaveRoom => {
            enc_u8(&mut out, 2);
        },
        ClientMessage::CreateRoom { room_config } => {
            enc_u8(&mut out, 3);
            enc_room_config(&mut out, room_config);
        },
        ClientMessage::GetRoomList => {
            enc_u8(&mut out, 4);
        },
        ClientMessage::PlayerAction { action } => {
            enc_u8(&mut out, 5);
            enc_action(&mut out, *action);
        },
        ClientMessage::RequestTimeExtension => {
            enc_u8(&mut out, 6);
        },
        ClientMessage::SendMessage { message, room_id } => {
            enc_u8(&mut out, 7);
            enc_str(&mut out, message.as_str());
            enc_opt_str(&mut out, room_id);
        },
        ClientMessage::Ping => {
            enc_u8(&mut out, 8);
        },
        ClientMessage::Heartbeat => {
            enc_u8(&mut out, 9);
        },
    }
    proof {
        assert(out@ =~= senc_client(m@));
    }
    out
}

/// Decode one inbound frame as a client intent.  A frame that no intent
/// encodes to is refused whole.
pub fn decode_client_message(b: &Vec<u8>) -> (r: Result<ClientMessage, DecodeError>)
    ensures
        match r {
            Ok(m) => sdec_client_frame(b@) == Some(m@),
            Err(e) => sdec_client_frame(b@) is None,
        },
{
    let parsed: Option<(ClientMessage, usize)> = match dec_u8(b, 0) {
        Some((t, j)) => {
            if t == 0 {
                match dec_str(b, j) {
                    Some((token, j2)) => Some((ClientMessage::Authenticate { token }, j2)),
                    None => None,
                }
            } else if t == 1 {
                match dec_str(b, j) {
                    Some((room_id, j2)) => Some((ClientMessage::JoinRoom { room_id }, j2)),
                    None => None,
                }
            } else if t == 2 {
                Some((ClientMessage::LeaveRoom, j))
            } else if t == 3 {
                match dec_room_config(b, j) {
                    Some((room_config, j2)) => Some(
                        (ClientMessage::CreateRoom { room_config }, j2),
                    ),
                    None => None,
                }
            } else if t == 4 {
                Some((ClientMessage::GetRoomList, j))
            } else if t == 5 {
                match dec_action(b, j) {
                    Some((action, j2)) => Some((ClientMessage::PlayerAction { action }, j2)),
                    None => None,
                }
            } else if t == 6 {
                Some((ClientMessage::RequestTimeExtension, j))
            } else if t == 7 {
                match dec_str(b, j) {
                    Some((message, j2)) => match dec_opt_str(b, j2) {
                        Some((room_id, j3)) => Some(
                            (ClientMessage::SendMessage { message, room_id }, j3),
                        ),
                        None => None,
                    },
                    None => None,
                }
            } else if t == 8 {
                Some((ClientMessage::Ping, j))
            } else if t == 9 {
                Some((ClientMessage::Heartbeat, j))
            } else {
                None
            }
        },
        None => None,
    };
    match parsed {
        Some((m, j)) => {
            if j == b.len() {
                Ok(m)
            } else {
                Err(DecodeError)
            }
        },
        None => Err(DecodeError),
    }
}

/// Encode an event as one frame, as the server side of the protocol does.
pub fn encode_server_message(m: &ServerMessage) -> (r: Vec<u8>)
    ensures
        r@ == senc_server(m@),
{
    let mut out: Vec<u8> = Vec::new();
    match m {
        ServerMessage::AuthenticationSuccess { user } => {
            enc_u8(&mut out, 0);
            enc_user(&mut out, user);
        },
        ServerMessage::AuthenticationFailed { error } => {
            enc_u8(&mut out, 1);
            enc_str(&mut out, error.as_str());
        },
        ServerMessage::RoomJoined { room, players } => {
            enc_u8(&mut out, 2);
            enc_room(&mut out, room);
            enc_player_list(&mut out, players);
        },
        ServerMessage::RoomLeft => {
            enc_u8(&mut out, 3);
        },
        ServerMessage::RoomListUpdate { rooms } => {
            enc_u8(&mut out, 4);
            enc_room_list(&mut out, rooms);
        },
        ServerMessage::PlayerJoined { player } => {
            enc_u8(&mut out, 5);
            enc_player(&mut out, player);
        },
        ServerMessage::PlayerLeft { player_id } => {
            enc_u8(&mut out, 6);
            enc_u64(&mut out, *player_id);
        },
        ServerMessage::GameStateUpdate { phase, community_cards, pot } => {
            enc_u8(&mut out, 7);
            enc_phase(&mut out, *phase);
            enc_card_list(&mut out, community_cards);
            enc_i64(&mut out, *pot);
        },
        ServerMessage::PlayerActionRequired { player_id, time_limit } => {
            enc_u8(&mut out, 8);
            enc_u64(&mut out, *player_id);
            enc_i32(&mut out, *time_limit);
        },
        ServerMessage::PlayerActionUpdate { action } => {
            enc_u8(&mut out, 9);
            enc_game_action(&mut out, action);
        },
        ServerMessage::HandResult { winners, pot_distribution } => {
            enc_u8(&mut out, 10);
            enc_hw_list(&mut out, winners);
            enc_pw_list(&mut out, pot_distribution);
        },
        ServerMessage::ChatMessage { player_id, username, message, timestamp } => {
            enc_u8(&mut out, 11);
            enc_u64(&mut out, *player_id);
            enc_str(&mut out, username.as_str());
            enc_str(&mut out, message.as_str());
            enc_i64(&mut out, *timestamp);
        },
        ServerMessage::Pong => {
            enc_u8(&mut out, 12);
        },
        ServerMessage::Error { message } => {
            enc_u8(&mut out, 13);
            enc_str(&mut out, message.as_str());
        },
        ServerMessage::Disconnect { reason } => {
            enc_u8(&mut out, 14);
            enc_str(&mut out, reason.as_str());
        },
    }
    proof {
        assert(out@ =~= senc_server(m@));
    }
    out
}

/// Decode one inbound frame as a server event.  A malformed or
/// unrecognized frame is refused whole: the caller drops it and the
/// connection stays open.
#[verifier::rlimit(100)]
pub fn decode_server_message(b: &Vec<u8>) -> (r: Result<ServerMessage, DecodeError>)
    ensures
        match r {
            Ok(m) => sdec_server_frame(b@) == Some(m@),
            Err(e) => sdec_server_frame(b@) is None,
        },
{
    let parsed: Option<(ServerMessage, usize)> = match dec_u8(b, 0) {
        Some((t, j)) => {
            if t == 0 {
                match dec_user(b, j) {
                    Some((user, j2)) => Some((ServerMessage::AuthenticationSuccess { user }, j2)),
                    None => None,
                }
            } else if t == 1 {
                match dec_str(b, j) {
                    Some((error, j2)) => Some((ServerMessage::AuthenticationFailed { error }, j2)),
                    None => None,
                }
            } else if t == 2 {
                match dec_room(b, j) {
                    Some((room, j2)) => match dec_player_list(b, j2) {
                        Some((players, j3)) => Some(
                            (ServerMessage::RoomJoined { room, players }, j3),
                        ),
                        None => None,
                    },
                    None => None,
                }
            } else if t == 3 {
                Some((ServerMessage::RoomLeft, j))
            } else if t == 4 {
                match dec_room_list(b, j) {
                    Some((rooms, j2)) => Some((ServerMessage::RoomListUpdate { rooms }, j2)),
                    None => None,
                }
            } else if t == 5 {
                match dec_player(b, j) {
                    Some((player, j2)) => Some((ServerMessage::PlayerJoined { player }, j2)),
                    None => None,
                }
            } else if t == 6 {
                match dec_u64(b, j) {
                    Some((player_id, j2)) => Some((ServerMessage::PlayerLeft { player_id }, j2)),
                    None => None,
                }
            } else if t == 7 {
                match dec_phase(b, j) {
                    Some((phase, j2)) => match dec_card_list(b, j2) {
                        Some((community_cards, j3)) => match dec_i64(b, j3) {
                            Some((pot, j4)) => Some(
                                (
                                    ServerMessage::GameStateUpdate {
                                        phase,
                                        community_cards,
                                        pot,
                                    },
                                    j4,
                                ),
                            ),
                            None => None,
                        },
                        None => None,
                    },
                    None => None,
                }
            } else if t == 8 {
                match dec_u64(b, j) {
                    Some((player_id, j2)) => match dec_i32(b, j2) {
                        Some((time_limit, j3)) => Some(
                            (ServerMessage::PlayerActionRequired { player_id, time_limit }, j3),
                        ),
                        None => None,
                    },
                    None => None,
                }
            } else if t == 9 {
                match dec_game_action(b, j) {
                    Some((action, j2)) => Some((ServerMessage::PlayerActionUpdate { action }, j2)),
                    None => None,
                }
            } else if t == 10 {
                match dec_hw_list(b, j) {
                    Some((winners, j2)) => match dec_pw_list(b, j2) {
                        Some((pot_distribution, j3)) => Some(
                            (ServerMessage::HandResult { winners, pot_distribution }, j3),
                        ),
                        None => None,
                    },
                    None => None,
                }
            } else if t == 11 {
                match dec_u64(b, j) {
                    Some((player_id, j2)) => match dec_str(b, j2) {
                        Some((username, j3)) => match dec_str(b, j3) {
                            Some((message, j4)) => match dec_i64(b, j4) {
                                Some((timestamp, j5)) => Some(
                                    (
                                        ServerMessage::ChatMessage {
                                            player_id,
                                            username,
                                            message,
                                            timestamp,
                                        },
                                        j5,
                                    ),
                                ),
                                None => None,
                            },
                            None => None,
                        },
                        None => None,
                    },
                    None => None,
                }
            } else if t == 12 {
                Some((ServerMessage::Pong, j))
            } else if t == 13 {
                match dec_str(b, j) {
                    Some((message, j2)) => Some((ServerMessage::Error { message }, j2)),
                    None => None,
                }
            } else if t == 14 {
                match dec_str(b, j) {
                    Some((reason, j2)) => Some((ServerMessage::Disconnect { reason }, j2)),
                    None => None,
                }
            } else {
                None
            }
        },
        None => None,
    };
    match parsed {
        Some((m, j)) => {
            if j == b.len() {
                Ok(m)
            } else {
                Err(DecodeError)
            }
        },
        None => Err(DecodeError),
    }
}

/// The codec round-trips: decoding the frame an intent encodes to gives
/// back the same intent, for every intent whose text and list fields fit
/// their length prefixes — which every real value does.
pub proof fn lemma_client_round_trip(m: ClientMessageV)
    requires
        wf_client(m),
    ensures
        sdec_client_frame(senc_client(m)) == Some(m),
{
    let b = senc_client(m);
    assert(b.subrange(0, b.len() as int) =~= b);
    match m {
        ClientMessageV::Authenticate { token } => {
            lemma_concat_at(b, 0, seq![0u8], senc_str(token));
            assert(seq![0u8] =~= senc_u8(0u8));
            lemma_rt_u8(b, 0, 0u8);
            lemma_rt_str(b, 1, token);
        },
        ClientMessageV::JoinRoom { room_id } => {
            lemma_concat_at(b, 0, seq![1u8], senc_str(room_id));
            assert(seq![1u8] =~= senc_u8(1u8));
            lemma_rt_u8(b, 0, 1u8);
            lemma_rt_str(b, 1, room_id);
        },
        ClientMessageV::LeaveRoom => {
            assert(b =~= senc_u8(2u8));
            lemma_rt_u8(b, 0, 2u8);
        },
        ClientMessageV::CreateRoom { room_config } => {
            lemma_concat_at(b, 0, seq![3u8], senc_room_config(room_config));
            assert(seq![3u8] =~= senc_u8(3u8));
            lemma_rt_u8(b, 0, 3u8);
            lemma_rt_room_config(b, 1, room_config);
        },
        ClientMessageV::GetRoomList => {
            assert(b =~= senc_u8(4u8));
            lemma_rt_u8(b, 0, 4u8);
        },
        ClientMessageV::PlayerAction { action } => {
            lemma_concat_at(b, 0, seq![5u8], senc_action(action));
            assert(seq![5u8] =~= senc_u8(5u8));
            lemma_rt_u8(b, 0, 5u8);
            lemma_rt_action(b, 1, action);
        },
        ClientMessageV::RequestTimeExtension => {
            assert(b =~= senc_u8(6u8));
            lemma_rt_u8(b, 0, 6u8);
        },
        ClientMessageV::SendMessage { message, room_id } => {
            lemma_concat_at(b, 0, seq![7u8] + senc_str(message), senc_opt_str(room_id));
            lemma_concat_at(b, 0, seq![7u8], senc_str(message));
            assert(seq![7u8] =~= senc_u8(7u8));
            lemma_rt_u8(b, 0, 7u8);
            lemma_rt_str(b, 1, message);
            lemma_rt_opt_str(b, 1 + senc_str(message).len() as int, room_id);
        },
        ClientMessageV::Ping => {
            assert(b =~= senc_u8(8u8));
            lemma_rt_u8(b, 0, 8u8);
        },
        ClientMessageV::Heartbeat => {
            assert(b =~= senc_u8(9u8));
            lemma_rt_u8(b, 0, 9u8);
        },
    }
}

/// The codec round-trips on events as well: decoding the frame an event
/// encodes to gives back the same event.
#[verifier::rlimit(100)]
pub proof fn lemma_server_round_trip(m: ServerMessageV)
    requires
        wf_server(m),
    ensures
        sdec_server_frame(senc_server(m)) == Some(m),
{
    let b = senc_server(m);
    assert(b.subrange(0, b.len() as int) =~= b);
    match m {
        ServerMessageV::AuthenticationSuccess { user } => {
            lemma_concat_at(b, 0, seq![0u8], senc_user(user));
            assert(seq![0u8] =~= senc_u8(0u8));
            lemma_rt_u8(b, 0, 0u8);
            lemma_rt_user(b, 1, user);
        },
        ServerMessageV::AuthenticationFailed { error } => {
            lemma_concat_at(b, 0, seq![1u8], senc_str(error));
            assert(seq![1u8] =~= senc_u8(1u8));
            lemma_rt_u8(b, 0, 1u8);
            lemma_rt_str(b, 1, error);
        },
        ServerMessageV::RoomJoined { room, players } => {
            lemma_concat_at(b, 0, seq![2u8] + senc_room(room), senc_player_list(players));
            lemma_concat_at(b, 0, seq![2u8], senc_room(room));
            assert(seq![2u8] =~= senc_u8(2u8));
            lemma_rt_u8(b, 0, 2u8);
            lemma_rt_room(b, 1, room);
            lemma_rt_player_list(b, 1 + senc_room(room).len() as int, players);
        },
        ServerMessageV::RoomLeft => {
            assert(b =~= senc_u8(3u8));
            lemma_rt_u8(b, 0, 3u8);
        },
        ServerMessageV::RoomListUpdate { rooms } => {
            lemma_concat_at(b, 0, seq![4u8], senc_room_list(rooms));
            assert(seq![4u8] =~= senc_u8(4u8));
            lemma_rt_u8(b, 0, 4u8);
            lemma_rt_room_list(b, 1, rooms);
        },
        ServerMessageV::PlayerJoined { player } => {
            lemma_concat_at(b, 0, seq![5u8], senc_player(player));
            assert(seq![5u8] =~= senc_u8(5u8));
            lemma_rt_u8(b, 0, 5u8);
            lemma_rt_player(b, 1, player);
        },
        ServerMessageV::PlayerLeft { player_id } => {
            lemma_auto_spec_u64_to_from_le_bytes();
            lemma_concat_at(b, 0, seq![6u8], senc_u64(player_id));
            assert(seq![6u8] =~= senc_u8(6u8));
            lemma_rt_u8(b, 0, 6u8);
            lemma_rt_u64(b, 1, player_id);
        },
        ServerMessageV::GameStateUpdate { phase, community_cards, pot } => {
            lemma_auto_spec_u64_to_from_le_bytes();
            lemma_concat_at(
                b,
                0,
                seq![7u8] + senc_phase(phase) + senc_card_list(community_cards),
                senc_i64(pot),
            );
            lemma_concat_at(b, 0, seq![7u8] + senc_phase(phase), senc_card_list(community_cards));
            lemma_concat_at(b, 0, seq![7u8], senc_phase(phase));
            assert(seq![7u8] =~= senc_u8(7u8));
            lemma_rt_u8(b, 0, 7u8);
            lemma_rt_phase(b, 1, phase);
            lemma_rt_card_list(b, 2, community_cards);
            lemma_rt_i64(b, 2 + senc_card_list(community_cards).len() as int, pot);
        },
        ServerMessageV::PlayerActionRequired { player_id, time_limit } => {
            lemma_auto_spec_u64_to_from_le_bytes();
            lemma_auto_spec_u32_to_from_le_bytes();
            lemma_concat_at(b, 0, seq![8u8] + senc_u64(player_id), senc_i32(time_limit));
            lemma_concat_at(b, 0, seq![8u8], senc_u64(player_id));
            assert(seq![8u8] =~= senc_u8(8u8));
            lemma_rt_u8(b, 0, 8u8);
            lemma_rt_u64(b, 1, player_id);
            lemma_rt_i32(b, 9, time_limit);
        },
        ServerMessageV::PlayerActionUpdate { action } => {
            lemma_concat_at(b, 0, seq![9u8], senc_game_action(action));
            assert(seq![9u8] =~= senc_u8(9u8));
            lemma_rt_u8(b, 0, 9u8);
            lemma_rt_game_action(b, 1, action);
        },
        ServerMessageV::HandResult { winners, pot_distribution } => {
            lemma_concat_at(b, 0, seq![10u8] + senc_hw_list(winners), senc_pw_list(
                pot_distribution,
            ));
            lemma_concat_at(b, 0, seq![10u8], senc_hw_list(winners));
            assert(seq![10u8] =~= senc_u8(10u8));
            lemma_rt_u8(b, 0, 10u8);
            lemma_rt_hw_list(b, 1, winners);
            lemma_rt_pw_list(b, 1 + senc_hw_list(winners).len() as int, pot_distribution);
        },
        ServerMessageV::ChatMessage { player_id, username, message, timestamp } => {
            lemma_auto_spec_u64_to_from_le_bytes();
            lemma_concat_at(
                b,
                0,
                seq![11u8] + senc_u64(player_id) + senc_str(username) + senc_str(message),
                senc_i64(timestamp),
            );
            lemma_concat_at(
                b,
                0,
                seq![11u8] + senc_u64(player_id) + senc_str(username),
                senc_str(message),
            );
            lemma_concat_at(b, 0, seq![11u8] + senc_u64(player_id), senc_str(username));
            lemma_concat_at(b, 0, seq![11u8], senc_u64(player_id));
            assert(seq![11u8] =~= senc_u8(11u8));
            lemma_rt_u8(b, 0, 11u8);
            lemma_rt_u64(b, 1, player_id);
            lemma_rt_str(b, 9, username);
            lemma_rt_str(b, 9 + senc_str(username).len() as int, message);
            lemma_rt_i64(b, 9 + senc_str(username).len() as int + senc_str(message).len() as int, timestamp);
        },
        ServerMessageV::Pong => {
            assert(b =~= senc_u8(12u8));
            lemma_rt_u8(b, 0, 12u8);
        },
        ServerMessageV::Error { message } => {
            lemma_concat_at(b, 0, seq![13u8], senc_str(message));
            assert(seq![13u8] =~= senc_u8(13u8));
            lemma_rt_u8(b, 0, 13u8);
            lemma_rt_str(b, 1, message);
        },
        ServerMessageV::Disconnect { reason } => {
            lemma_concat_at(b, 0, seq![14u8], senc_str(reason));
            assert(seq![14u8] =~= senc_u8(14u8));
            lemma_rt_u8(b, 0, 14u8);
            lemma_rt_str(b, 1, reason);
        },
    }
}

/// Concatenation of byte strings associates.
pub proof fn lemma_add_assoc(a: Seq<u8>, b: Seq<u8>, c: Seq<u8>)
    ensures
        a + b + c == a + (b + c),
{
    assert(a + b + c =~= a + (b + c));
}

/// Splitting a buffer that holds two encodings back to back.
pub proof fn lemma_concat_at(b: Seq<u8>, i: int, s1: Seq<u8>, s2: Seq<u8>)
    requires
        0 <= i,
        i + s1.len() + s2.len() <= b.len(),
        b.subrange(i, i + s1.len() + s2.len()) == s1 + s2,
    ensures
        b.subrange(i, i + s1.len()) == s1,
        b.subrange(i + s1.len(), i + s1.len() + s2.len()) == s2,
{
    let whole = b.subrange(i, i + s1.len() + s2.len());
    assert(b.subrange(i, i + s1.len()) =~= s1) by {
        assert forall|k: int| 0 <= k < s1.len() implies b.subrange(i, i + s1.len())[k]
            == s1[k] by {
            assert(whole[k] == (s1 + s2)[k]);
        }
    }
    assert(b.subrange(i + s1.len(), i + s1.len() + s2.len()) =~= s2) by {
        assert forall|k: int| 0 <= k < s2.len() implies b.subrange(
            i + s1.len(),
            i + s1.len() + s2.len(),
        )[k] == s2[k] by {
            assert(whole[s1.len() + k] == (s1 + s2)[s1.len() + k]);
        }
    }
}

} // verus!
