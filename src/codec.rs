//! Wire format: one message per datagram, little-endian fixed-width integers,
//! a `u32` variant tag, strings and lists prefixed by a `u64` length.
use vstd::prelude::*;
use vstd::bytes::*;
use vstd::slice::{slice_subrange, slice_to_vec};
use vstd::utf8::*;
use crate::message::{MessageView, NetworkMessage, PlayerEntry};
use crate::types::{QuatBits, Vec3Bits};

verus! {

// ---------------------------------------------------------------------------
// Encoding
// ---------------------------------------------------------------------------

pub open spec fn str_bytes(s: Seq<char>) -> Seq<u8> {
    spec_u64_to_le_bytes(encode_utf8(s).len() as u64) + encode_utf8(s)
}

pub open spec fn vec3_bytes(v: Vec3Bits) -> Seq<u8> {
    spec_u32_to_le_bytes(v.x) + spec_u32_to_le_bytes(v.y) + spec_u32_to_le_bytes(v.z)
}

pub open spec fn quat_bytes(q: QuatBits) -> Seq<u8> {
    spec_u32_to_le_bytes(q.x) + spec_u32_to_le_bytes(q.y) + spec_u32_to_le_bytes(q.z)
        + spec_u32_to_le_bytes(q.w)
}

pub open spec fn entry_bytes(e: PlayerEntry) -> Seq<u8> {
    spec_u32_to_le_bytes(e.0) + vec3_bytes(e.1) + quat_bytes(e.2)
}

pub open spec fn entries_bytes(s: Seq<PlayerEntry>) -> Seq<u8>
    decreases s.len(),
{
    if s.len() == 0 {
        Seq::empty()
    } else {
        entries_bytes(s.drop_last()) + entry_bytes(s.last())
    }
}

/// The bytes of a message.
pub open spec fn serialize(m: MessageView) -> Seq<u8> {
    match m {
        MessageView::ServerAnnounce { name, player_count, max_players } =>
            spec_u32_to_le_bytes(0) + str_bytes(name) + seq![player_count] + seq![max_players],
        MessageView::DiscoveryRequest => spec_u32_to_le_bytes(1),
        MessageView::JoinRequest { player_name } =>
            spec_u32_to_le_bytes(2) + str_bytes(player_name),
        MessageView::JoinAccept { player_id, existing_players } =>
            spec_u32_to_le_bytes(3) + spec_u32_to_le_bytes(player_id)
                + spec_u64_to_le_bytes(existing_players.len() as u64)
                + entries_bytes(existing_players),
        MessageView::PlayerSpawn { player_id, position, rotation } =>
            spec_u32_to_le_bytes(4) + spec_u32_to_le_bytes(player_id) + vec3_bytes(position)
                + quat_bytes(rotation),
        MessageView::PlayerUpdate { player_id, position, rotation } =>
            spec_u32_to_le_bytes(5) + spec_u32_to_le_bytes(player_id) + vec3_bytes(position)
                + quat_bytes(rotation),
        MessageView::PlayerDisconnect { player_id } =>
            spec_u32_to_le_bytes(6) + spec_u32_to_le_bytes(player_id),
        MessageView::Ping { timestamp } => spec_u32_to_le_bytes(7) + spec_u128_to_le_bytes(timestamp),
        MessageView::Pong { timestamp } => spec_u32_to_le_bytes(8) + spec_u128_to_le_bytes(timestamp),
    }
}

/// Every length prefix of the message fits in its `u64` field.
pub open spec fn fits(m: MessageView) -> bool {
    match m {
        MessageView::ServerAnnounce { name, .. } => encode_utf8(name).len() <= u64::MAX,
        MessageView::JoinRequest { player_name } => encode_utf8(player_name).len() <= u64::MAX,
        MessageView::JoinAccept { existing_players, .. } => existing_players.len() <= u64::MAX,
        _ => true,
    }
}

// ---------------------------------------------------------------------------
// Decoding: each reader takes a prefix and hands back what follows it
// ---------------------------------------------------------------------------

pub open spec fn take_u8(b: Seq<u8>) -> Option<(u8, Seq<u8>)> {
    if b.len() >= 1 {
        Some((b[0], b.subrange(1, b.len() as int)))
    } else {
        None
    }
}

pub open spec fn take_u32(b: Seq<u8>) -> Option<(u32, Seq<u8>)> {
    if b.len() >= 4 {
        Some((spec_u32_from_le_bytes(b.subrange(0, 4)), b.subrange(4, b.len() as int)))
    } else {
        None
    }
}

pub open spec fn take_u64(b: Seq<u8>) -> Option<(u64, Seq<u8>)> {
    if b.len() >= 8 {
        Some((spec_u64_from_le_bytes(b.subrange(0, 8)), b.subrange(8, b.len() as int)))
    } else {
        None
    }
}

pub open spec fn take_u128(b: Seq<u8>) -> Option<(u128, Seq<u8>)> {
    if b.len() >= 16 {
        Some((spec_u128_from_le_bytes(b.subrange(0, 16)), b.subrange(16, b.len() as int)))
    } else {
        None
    }
}

pub open spec fn take_str(b: Seq<u8>) -> Option<(Seq<char>, Seq<u8>)> {
    match take_u64(b) {
        Some((n, r)) => if n <= r.len() && valid_utf8(r.subrange(0, n as int)) {
            Some((decode_utf8(r.subrange(0, n as int)), r.subrange(n as int, r.len() as int)))
        } else {
            None
        },
        None => None,
    }
}

pub open spec fn take_vec3(b: Seq<u8>) -> Option<(Vec3Bits, Seq<u8>)> {
    if b.len() >= 12 {
        let x = take_u32(b).unwrap();
        let y = take_u32(x.1).unwrap();
        let z = take_u32(y.1).unwrap();
        Some((Vec3Bits { x: x.0, y: y.0, z: z.0 }, z.1))
    } else {
        None
    }
}

pub open spec fn take_quat(b: Seq<u8>) -> Option<(QuatBits, Seq<u8>)> {
    if b.len() >= 16 {
        let x = take_u32(b).unwrap();
        let y = take_u32(x.1).unwrap();
        let z = take_u32(y.1).unwrap();
        let w = take_u32(z.1).unwrap();
        Some((QuatBits { x: x.0, y: y.0, z: z.0, w: w.0 }, w.1))
    } else {
        None
    }
}

pub open spec fn take_entry(b: Seq<u8>) -> Option<(PlayerEntry, Seq<u8>)> {
    if b.len() >= 32 {
        let id = take_u32(b).unwrap();
        let p = take_vec3(id.1).unwrap();
        let q = take_quat(p.1).unwrap();
        Some(((id.0, p.0, q.0), q.1))
    } else {
        None
    }
}

/// Reads `n` entries one after another.
pub open spec fn take_entries(b: Seq<u8>, n: nat) -> Option<(Seq<PlayerEntry>, Seq<u8>)>
    decreases n,
{
    if n == 0 {
        Some((Seq::empty(), b))
    } else {
        match take_entries(b, (n - 1) as nat) {
            Some((es, r)) => match take_entry(r) {
                Some((e, r2)) => Some((es.push(e), r2)),
                None => None,
            },
            None => None,
        }
    }
}

pub open spec fn take_body(tag: u32, r: Seq<u8>) -> Option<MessageView> {
    if tag == 0 {
        match take_str(r) {
            Some((name, r1)) => if r1.len() >= 2 {
                Some(MessageView::ServerAnnounce { name, player_count: r1[0], max_players: r1[1] })
            } else {
                None
            },
            None => None,
        }
    } else if tag == 1 {
        Some(MessageView::DiscoveryRequest)
    } else if tag == 2 {
        match take_str(r) {
            Some((player_name, _)) => Some(MessageView::JoinRequest { player_name }),
            None => None,
        }
    } else if tag == 3 {
        match take_u32(r) {
            Some((player_id, r1)) => match take_u64(r1) {
                Some((n, r2)) => match take_entries(r2, n as nat) {
                    Some((existing_players, _)) =>
                        Some(MessageView::JoinAccept { player_id, existing_players }),
                    None => None,
                },
                None => None,
            },
            None => None,
        }
    } else if tag == 4 || tag == 5 {
        if r.len() >= 32 {
            let e = take_entry(r).unwrap().0;
            if tag == 4 {
                Some(MessageView::PlayerSpawn { player_id: e.0, position: e.1, rotation: e.2 })
            } else {
                Some(MessageView::PlayerUpdate { player_id: e.0, position: e.1, rotation: e.2 })
            }
        } else {
            None
        }
    } else if tag == 6 {
        match take_u32(r) {
            Some((player_id, _)) => Some(MessageView::PlayerDisconnect { player_id }),
            None => None,
        }
    } else if tag == 7 || tag == 8 {
        match take_u128(r) {
            Some((timestamp, _)) => if tag == 7 {
                Some(MessageView::Ping { timestamp })
            } else {
                Some(MessageView::Pong { timestamp })
            },
            None => None,
        }
    } else {
        None
    }
}

/// The message at the start of `b`, if `b` starts with one; bytes after it are ignored.
pub open spec fn parse(b: Seq<u8>) -> Option<MessageView> {
    match take_u32(b) {
        Some((tag, r)) => take_body(tag, r),
        None => None,
    }
}

// ---------------------------------------------------------------------------
// Round trip
// ---------------------------------------------------------------------------

proof fn lemma_take_u32(x: u32, rest: Seq<u8>)
    ensures
        take_u32(spec_u32_to_le_bytes(x) + rest) == Some((x, rest)),
{
    lemma_auto_spec_u32_to_from_le_bytes();
    let b = spec_u32_to_le_bytes(x) + rest;
    assert(b.subrange(0, 4) =~= spec_u32_to_le_bytes(x));
    assert(b.subrange(4, b.len() as int) =~= rest);
}

proof fn lemma_take_u64(x: u64, rest: Seq<u8>)
    ensures
        take_u64(spec_u64_to_le_bytes(x) + rest) == Some((x, rest)),
{
    lemma_auto_spec_u64_to_from_le_bytes();
    let b = spec_u64_to_le_bytes(x) + rest;
    assert(b.subrange(0, 8) =~= spec_u64_to_le_bytes(x));
    assert(b.subrange(8, b.len() as int) =~= rest);
}

proof fn lemma_take_u128(x: u128, rest: Seq<u8>)
    ensures
        take_u128(spec_u128_to_le_bytes(x) + rest) == Some((x, rest)),
{
    lemma_auto_spec_u128_to_from_le_bytes();
    let b = spec_u128_to_le_bytes(x) + rest;
    assert(b.subrange(0, 16) =~= spec_u128_to_le_bytes(x));
    assert(b.subrange(16, b.len() as int) =~= rest);
}

proof fn lemma_take_str(s: Seq<char>, rest: Seq<u8>)
    requires
        encode_utf8(s).len() <= u64::MAX,
    ensures
        take_str(str_bytes(s) + rest) == Some((s, rest)),
{
    let e = encode_utf8(s);
    let n = e.len() as u64;
    assert(str_bytes(s) + rest =~= spec_u64_to_le_bytes(n) + (e + rest));
    lemma_take_u64(n, e + rest);
    let r = e + rest;
    assert(r.subrange(0, n as int) =~= e);
    assert(r.subrange(n as int, r.len() as int) =~= rest);
    encode_utf8_valid_utf8(s);
    encode_utf8_decode_utf8(s);
}

proof fn lemma_take_vec3(v: Vec3Bits, rest: Seq<u8>)
    ensures
        take_vec3(vec3_bytes(v) + rest) == Some((v, rest)),
{
    lemma_auto_spec_u32_to_from_le_bytes();
    let b = vec3_bytes(v) + rest;
    let (bx, by, bz) = (
        spec_u32_to_le_bytes(v.x),
        spec_u32_to_le_bytes(v.y),
        spec_u32_to_le_bytes(v.z),
    );
    assert(b =~= bx + (by + (bz + rest)));
    lemma_take_u32(v.x, by + (bz + rest));
    lemma_take_u32(v.y, bz + rest);
    lemma_take_u32(v.z, rest);
}

proof fn lemma_take_quat(q: QuatBits, rest: Seq<u8>)
    ensures
        take_quat(quat_bytes(q) + rest) == Some((q, rest)),
{
    lemma_auto_spec_u32_to_from_le_bytes();
    let b = quat_bytes(q) + rest;
    let (bx, by, bz, bw) = (
        spec_u32_to_le_bytes(q.x),
        spec_u32_to_le_bytes(q.y),
        spec_u32_to_le_bytes(q.z),
        spec_u32_to_le_bytes(q.w),
    );
    assert(b =~= bx + (by + (bz + (bw + rest))));
    lemma_take_u32(q.x, by + (bz + (bw + rest)));
    lemma_take_u32(q.y, bz + (bw + rest));
    lemma_take_u32(q.z, bw + rest);
    lemma_take_u32(q.w, rest);
}

proof fn lemma_take_entry(e: PlayerEntry, rest: Seq<u8>)
    ensures
        take_entry(entry_bytes(e) + rest) == Some((e, rest)),
{
    lemma_auto_spec_u32_to_from_le_bytes();
    let b = entry_bytes(e) + rest;
    let bi = spec_u32_to_le_bytes(e.0);
    assert(b =~= bi + (vec3_bytes(e.1) + (quat_bytes(e.2) + rest)));
    lemma_take_u32(e.0, vec3_bytes(e.1) + (quat_bytes(e.2) + rest));
    lemma_take_vec3(e.1, quat_bytes(e.2) + rest);
    lemma_take_quat(e.2, rest);
}

proof fn lemma_take_entries(s: Seq<PlayerEntry>, rest: Seq<u8>)
    ensures
        take_entries(entries_bytes(s) + rest, s.len()) == Some((s, rest)),
    decreases s.len(),
{
    if s.len() > 0 {
        let init = s.drop_last();
        let tail = entry_bytes(s.last()) + rest;
        assert(entries_bytes(s) + rest =~= entries_bytes(init) + tail);
        lemma_take_entries(init, tail);
        lemma_take_entry(s.last(), rest);
        assert(init.push(s.last()) =~= s);
    } else {
        assert(entries_bytes(s) + rest =~= rest);
    }
}

/// Decoding the encoding of a message gives back that message, field for field,
/// whatever bytes follow it in the datagram.
pub proof fn lemma_round_trip(m: MessageView, rest: Seq<u8>)
    requires
        fits(m),
    ensures
        parse(serialize(m) + rest) == Some(m),
{
    let t = |tag: u32| spec_u32_to_le_bytes(tag);
    match m {
        MessageView::ServerAnnounce { name, player_count, max_players } => {
            let tail = seq![player_count] + seq![max_players] + rest;
            assert(serialize(m) + rest =~= t(0) + (str_bytes(name) + tail));
            lemma_take_u32(0, str_bytes(name) + tail);
            lemma_take_str(name, tail);
        },
        MessageView::DiscoveryRequest => {
            lemma_take_u32(1, rest);
        },
        MessageView::JoinRequest { player_name } => {
            assert(serialize(m) + rest =~= t(2) + (str_bytes(player_name) + rest));
            lemma_take_u32(2, str_bytes(player_name) + rest);
            lemma_take_str(player_name, rest);
        },
        MessageView::JoinAccept { player_id, existing_players } => {
            let n = existing_players.len() as u64;
            let es = entries_bytes(existing_players) + rest;
            let b1 = spec_u64_to_le_bytes(n) + es;
            assert(serialize(m) + rest =~= t(3) + (spec_u32_to_le_bytes(player_id) + b1));
            lemma_take_u32(3, spec_u32_to_le_bytes(player_id) + b1);
            lemma_take_u32(player_id, b1);
            lemma_take_u64(n, es);
            lemma_take_entries(existing_players, rest);
        },
        MessageView::PlayerSpawn { player_id, position, rotation } => {
            let e: PlayerEntry = (player_id, position, rotation);
            assert(serialize(m) + rest =~= t(4) + (entry_bytes(e) + rest));
            lemma_take_u32(4, entry_bytes(e) + rest);
            lemma_take_entry(e, rest);
        },
        MessageView::PlayerUpdate { player_id, position, rotation } => {
            let e: PlayerEntry = (player_id, position, rotation);
            assert(serialize(m) + rest =~= t(5) + (entry_bytes(e) + rest));
            lemma_take_u32(5, entry_bytes(e) + rest);
            lemma_take_entry(e, rest);
        },
        MessageView::PlayerDisconnect { player_id } => {
            assert(serialize(m) + rest =~= t(6) + (spec_u32_to_le_bytes(player_id) + rest));
            lemma_take_u32(6, spec_u32_to_le_bytes(player_id) + rest);
            lemma_take_u32(player_id, rest);
        },
        MessageView::Ping { timestamp } => {
            assert(serialize(m) + rest =~= t(7) + (spec_u128_to_le_bytes(timestamp) + rest));
            lemma_take_u32(7, spec_u128_to_le_bytes(timestamp) + rest);
            lemma_take_u128(timestamp, rest);
        },
        MessageView::Pong { timestamp } => {
            assert(serialize(m) + rest =~= t(8) + (spec_u128_to_le_bytes(timestamp) + rest));
            lemma_take_u32(8, spec_u128_to_le_bytes(timestamp) + rest);
            lemma_take_u128(timestamp, rest);
        },
    }
}

// ---------------------------------------------------------------------------
// Executable encoder
// ---------------------------------------------------------------------------

fn put_u32(out: &mut Vec<u8>, x: u32)
    ensures
        final(out)@ == old(out)@ + spec_u32_to_le_bytes(x),
{
    let mut b = u32_to_le_bytes(x);
    out.append(&mut b);
}

fn put_u64(out: &mut Vec<u8>, x: u64)
    ensures
        final(out)@ == old(out)@ + spec_u64_to_le_bytes(x),
{
    let mut b = u64_to_le_bytes(x);
    out.append(&mut b);
}

fn put_u128(out: &mut Vec<u8>, x: u128)
    ensures
        final(out)@ == old(out)@ + spec_u128_to_le_bytes(x),
{
    let mut b = u128_to_le_bytes(x);
    out.append(&mut b);
}

fn put_str(out: &mut Vec<u8>, s: &String)
    ensures
        final(out)@ == old(out)@ + str_bytes(s@),
        encode_utf8(s@).len() <= u64::MAX,
{
    let bytes = s.as_str().as_bytes();
    put_u64(out, bytes.len() as u64);
    let mut v = slice_to_vec(bytes);
    out.append(&mut v);
    assert(final(out)@ =~= old(out)@ + str_bytes(s@));
}

fn put_vec3(out: &mut Vec<u8>, v: Vec3Bits)
    ensures
        final(out)@ == old(out)@ + vec3_bytes(v),
{
    put_u32(out, v.x);
    put_u32(out, v.y);
    put_u32(out, v.z);
    assert(final(out)@ =~= old(out)@ + vec3_bytes(v));
}

fn put_quat(out: &mut Vec<u8>, q: QuatBits)
    ensures
        final(out)@ == old(out)@ + quat_bytes(q),
{
    put_u32(out, q.x);
    put_u32(out, q.y);
    put_u32(out, q.z);
    put_u32(out, q.w);
    assert(final(out)@ =~= old(out)@ + quat_bytes(q));
}

fn put_entry(out: &mut Vec<u8>, e: PlayerEntry)
    ensures
        final(out)@ == old(out)@ + entry_bytes(e),
{
    put_u32(out, e.0);
    put_vec3(out, e.1);
    put_quat(out, e.2);
    assert(final(out)@ =~= old(out)@ + entry_bytes(e));
}

fn put_entries(out: &mut Vec<u8>, es: &Vec<PlayerEntry>)
    ensures
        final(out)@ == old(out)@ + spec_u64_to_le_bytes(es@.len() as u64) + entries_bytes(es@),
        es@.len() <= u64::MAX,
{
    put_u64(out, es.len() as u64);
    let ghost start = out@;
    let mut i: usize = 0;
    while i < es.len()
        invariant
            i <= es@.len(),
            out@ == start + entries_bytes(es@.subrange(0, i as int)),
        decreases es@.len() - i,
    {
        put_entry(out, es[i]);
        proof {
            let s = es@.subrange(0, i + 1);
            assert(s.drop_last() =~= es@.subrange(0, i as int));
        }
        i = i + 1;
    }
    assert(es@.subrange(0, i as int) =~= es@);
}

impl NetworkMessage {
    /// The datagram payload that carries this message.
    pub fn encode(&self) -> (r: Vec<u8>)
        ensures
            r@ == serialize(self@),
            fits(self@),
    {
        let mut out: Vec<u8> = Vec::new();
        match self {
            NetworkMessage::ServerAnnounce { name, player_count, max_players } => {
                put_u32(&mut out, 0);
                put_str(&mut out, name);
                out.push(*player_count);
                out.push(*max_players);
            },
            NetworkMessage::DiscoveryRequest => {
                put_u32(&mut out, 1);
            },
            NetworkMessage::JoinRequest { player_name } => {
                put_u32(&mut out, 2);
                put_str(&mut out, player_name);
            },
            NetworkMessage::JoinAccept { player_id, existing_players } => {
                put_u32(&mut out, 3);
                put_u32(&mut out, *player_id);
                put_entries(&mut out, existing_players);
            },
            NetworkMessage::PlayerSpawn { player_id, position, rotation } => {
                put_u32(&mut out, 4);
                put_u32(&mut out, *player_id);
                put_vec3(&mut out, *position);
                put_quat(&mut out, *rotation);
            },
            NetworkMessage::PlayerUpdate { player_id, position, rotation } => {
                put_u32(&mut out, 5);
                put_u32(&mut out, *player_id);
                put_vec3(&mut out, *position);
                put_quat(&mut out, *rotation);
            },
            NetworkMessage::PlayerDisconnect { player_id } => {
                put_u32(&mut out, 6);
                put_u32(&mut out, *player_id);
            },
            NetworkMessage::Ping { timestamp } => {
                put_u32(&mut out, 7);
                put_u128(&mut out, *timestamp);
            },
            NetworkMessage::Pong { timestamp } => {
                put_u32(&mut out, 8);
                put_u128(&mut out, *timestamp);
            },
        }
        assert(out@ =~= serialize(self@));
        out
    }
}


// ---------------------------------------------------------------------------
// Executable decoder: each reader starts at `pos` and returns the next position
// ---------------------------------------------------------------------------

pub open spec fn rest_at(b: Seq<u8>, pos: int) -> Seq<u8> {
    b.subrange(pos, b.len() as int)
}

/// Relies on `String::from_utf8`: it succeeds exactly on valid UTF-8, and the
/// string then holds the characters that the bytes encode.
#[verifier::external_body]
fn string_from_utf8(bytes: Vec<u8>) -> (r: Option<String>)
    ensures
        r is Some <==> valid_utf8(bytes@),
        r matches Some(s) ==> s@ == decode_utf8(bytes@),
{
    String::from_utf8(bytes).ok()
}

fn read_u32(b: &[u8], pos: usize) -> (r: Option<(u32, usize)>)
    requires
        pos <= b@.len(),
    ensures
        r is Some <==> take_u32(rest_at(b@, pos as int)) is Some,
        r matches Some((x, p)) ==> p <= b@.len() && take_u32(rest_at(b@, pos as int)) == Some(
            (x, rest_at(b@, p as int)),
        ),
{
    if b.len() - pos >= 4 {
        let x = u32_from_le_bytes(slice_subrange(b, pos, pos + 4));
        assert(rest_at(b@, pos as int).subrange(0, 4) =~= b@.subrange(pos as int, pos + 4));
        assert(rest_at(b@, pos as int).subrange(4, rest_at(b@, pos as int).len() as int)
            =~= rest_at(b@, pos + 4));
        Some((x, pos + 4))
    } else {
        None
    }
}

fn read_u64(b: &[u8], pos: usize) -> (r: Option<(u64, usize)>)
    requires
        pos <= b@.len(),
    ensures
        r is Some <==> take_u64(rest_at(b@, pos as int)) is Some,
        r matches Some((x, p)) ==> p <= b@.len() && take_u64(rest_at(b@, pos as int)) == Some(
            (x, rest_at(b@, p as int)),
        ),
{
    if b.len() - pos >= 8 {
        let x = u64_from_le_bytes(slice_subrange(b, pos, pos + 8));
        assert(rest_at(b@, pos as int).subrange(0, 8) =~= b@.subrange(pos as int, pos + 8));
        assert(rest_at(b@, pos as int).subrange(8, rest_at(b@, pos as int).len() as int)
            =~= rest_at(b@, pos + 8));
        Some((x, pos + 8))
    } else {
        None
    }
}

fn read_u128(b: &[u8], pos: usize) -> (r: Option<(u128, usize)>)
    requires
        pos <= b@.len(),
    ensures
        r is Some <==> take_u128(rest_at(b@, pos as int)) is Some,
        r matches Some((x, p)) ==> p <= b@.len() && take_u128(rest_at(b@, pos as int)) == Some(
            (x, rest_at(b@, p as int)),
        ),
{
    if b.len() - pos >= 16 {
        let x = u128_from_le_bytes(slice_subrange(b, pos, pos + 16));
        assert(rest_at(b@, pos as int).subrange(0, 16) =~= b@.subrange(pos as int, pos + 16));
        assert(rest_at(b@, pos as int).subrange(16, rest_at(b@, pos as int).len() as int)
            =~= rest_at(b@, pos + 16));
        Some((x, pos + 16))
    } else {
        None
    }
}

fn read_str(b: &[u8], pos: usize) -> (r: Option<(String, usize)>)
    requires
        pos <= b@.len(),
    ensures
        r is Some <==> take_str(rest_at(b@, pos as int)) is Some,
        r matches Some((s, p)) ==> p <= b@.len() && take_str(rest_at(b@, pos as int)) == Some(
            (s@, rest_at(b@, p as int)),
        ),
{
    match read_u64(b, pos) {
        Some((n, p)) => {
            if n <= (b.len() - p) as u64 {
                let end = p + n as usize;
                let bytes = slice_to_vec(slice_subrange(b, p, end));
                let ghost r = rest_at(b@, p as int);
                assert(r.subrange(0, n as int) =~= bytes@);
                assert(r.subrange(n as int, r.len() as int) =~= rest_at(b@, end as int));
                match string_from_utf8(bytes) {
                    Some(s) => Some((s, end)),
                    None => None,
                }
            } else {
                None
            }
        },
        None => None,
    }
}

fn read_vec3(b: &[u8], pos: usize) -> (r: Option<(Vec3Bits, usize)>)
    requires
        pos <= b@.len(),
    ensures
        r is Some <==> take_vec3(rest_at(b@, pos as int)) is Some,
        r matches Some((v, p)) ==> p <= b@.len() && take_vec3(rest_at(b@, pos as int)) == Some(
            (v, rest_at(b@, p as int)),
        ),
{
    if b.len() - pos >= 12 {
        let (x, p1) = read_u32(b, pos).unwrap();
        let (y, p2) = read_u32(b, p1).unwrap();
        let (z, p3) = read_u32(b, p2).unwrap();
        Some((Vec3Bits { x, y, z }, p3))
    } else {
        None
    }
}

fn read_quat(b: &[u8], pos: usize) -> (r: Option<(QuatBits, usize)>)
    requires
        pos <= b@.len(),
    ensures
        r is Some <==> take_quat(rest_at(b@, pos as int)) is Some,
        r matches Some((q, p)) ==> p <= b@.len() && take_quat(rest_at(b@, pos as int)) == Some(
            (q, rest_at(b@, p as int)),
        ),
{
    if b.len() - pos >= 16 {
        let (x, p1) = read_u32(b, pos).unwrap();
        let (y, p2) = read_u32(b, p1).unwrap();
        let (z, p3) = read_u32(b, p2).unwrap();
        let (w, p4) = read_u32(b, p3).unwrap();
        Some((QuatBits { x, y, z, w }, p4))
    } else {
        None
    }
}

fn read_entry(b: &[u8], pos: usize) -> (r: Option<(PlayerEntry, usize)>)
    requires
        pos <= b@.len(),
    ensures
        r is Some <==> take_entry(rest_at(b@, pos as int)) is Some,
        r matches Some((e, p)) ==> p <= b@.len() && take_entry(rest_at(b@, pos as int)) == Some(
            (e, rest_at(b@, p as int)),
        ),
{
    if b.len() - pos >= 32 {
        let (id, p1) = read_u32(b, pos).unwrap();
        let (v, p2) = read_vec3(b, p1).unwrap();
        let (q, p3) = read_quat(b, p2).unwrap();
        Some(((id, v, q), p3))
    } else {
        None
    }
}

proof fn lemma_take_entries_fails_on(b: Seq<u8>, k: nat, n: nat)
    requires
        k <= n,
        take_entries(b, k) is None,
    ensures
        take_entries(b, n) is None,
    decreases n - k,
{
    if k < n {
        lemma_take_entries_fails_on(b, k, (n - 1) as nat);
    }
}

fn read_entries(b: &[u8], pos: usize, n: u64) -> (r: Option<(Vec<PlayerEntry>, usize)>)
    requires
        pos <= b@.len(),
    ensures
        r is Some <==> take_entries(rest_at(b@, pos as int), n as nat) is Some,
        r matches Some((es, p)) ==> p <= b@.len() && take_entries(
            rest_at(b@, pos as int),
            n as nat,
        ) == Some((es@, rest_at(b@, p as int))),
{
    let mut es: Vec<PlayerEntry> = Vec::new();
    let mut p = pos;
    let mut i: u64 = 0;
    while i < n
        invariant
            pos <= b@.len(),
            p <= b@.len(),
            i <= n,
            take_entries(rest_at(b@, pos as int), i as nat) == Some((es@, rest_at(b@, p as int))),
        decreases n - i,
    {
        match read_entry(b, p) {
            Some((e, p2)) => {
                es.push(e);
                p = p2;
                i = i + 1;
            },
            None => {
                proof {
                    lemma_take_entries_fails_on(rest_at(b@, pos as int), (i + 1) as nat, n as nat);
                }
                return None;
            },
        }
    }
    Some((es, p))
}

impl NetworkMessage {
    /// The message at the start of a datagram payload; `None` when the payload
    /// does not start with the encoding of a message. Trailing bytes are ignored.
    pub fn decode(b: &[u8]) -> (r: Option<NetworkMessage>)
        ensures
            r is Some <==> parse(b@) is Some,
            r matches Some(m) ==> parse(b@) == Some(m@),
    {
        assert(rest_at(b@, 0) =~= b@);
        let (tag, p) = match read_u32(b, 0) {
            Some(t) => t,
            None => return None,
        };
        if tag == 0 {
            match read_str(b, p) {
                Some((name, p1)) => {
                    if b.len() - p1 >= 2 {
                        Some(
                            NetworkMessage::ServerAnnounce {
                                name,
                                player_count: b[p1],
                                max_players: b[p1 + 1],
                            },
                        )
                    } else {
                        None
                    }
                },
                None => None,
            }
        } else if tag == 1 {
            Some(NetworkMessage::DiscoveryRequest)
        } else if tag == 2 {
            match read_str(b, p) {
                Some((player_name, _)) => Some(NetworkMessage::JoinRequest { player_name }),
                None => None,
            }
        } else if tag == 3 {
            match read_u32(b, p) {
                Some((player_id, p1)) => match read_u64(b, p1) {
                    Some((n, p2)) => match read_entries(b, p2, n) {
                        Some((existing_players, _)) => Some(
                            NetworkMessage::JoinAccept { player_id, existing_players },
                        ),
                        None => None,
                    },
                    None => None,
                },
                None => None,
            }
        } else if tag == 4 || tag == 5 {
            match read_entry(b, p) {
                Some((e, _)) => {
                    if tag == 4 {
                        Some(
                            NetworkMessage::PlayerSpawn {
                                player_id: e.0,
                                position: e.1,
                                rotation: e.2,
                            },
                        )
                    } else {
                        Some(
                            NetworkMessage::PlayerUpdate {
                                player_id: e.0,
                                position: e.1,
                                rotation: e.2,
                            },
                        )
                    }
                },
                None => None,
            }
        } else if tag == 6 {
            match read_u32(b, p) {
                Some((player_id, _)) => Some(NetworkMessage::PlayerDisconnect { player_id }),
                None => None,
            }
        } else if tag == 7 || tag == 8 {
            match read_u128(b, p) {
                Some((timestamp, _)) => {
                    if tag == 7 {
                        Some(NetworkMessage::Ping { timestamp })
                    } else {
                        Some(NetworkMessage::Pong { timestamp })
                    }
                },
                None => None,
            }
        } else {
            None
        }
    }
}

} // verus!
