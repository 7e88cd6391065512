//! Incoming packets: decoding each packet and reacting to it.

use vstd::prelude::*;
use super::{Connection, ConnView, outfits_wf, events_view};
use super::send::{header, close_container_packet, map_packet, status_packet, user_list_packet, user_info_packet, data_window_packet, chat_packet, look_packet, open_container_packet};
use crate::chat::{ChatType, spec_chat_type_from_prefix};
use crate::chat::encoding::{spec_translate, spec_translate_upper, translate, translate_upper};
use crate::io::{PacketReader, ReadExt, ReadError, latin1, until_nul, after_nul, outfit_from_bytes};
use crate::map::{GameMap, MapView};
use crate::map::position::{Position, spec_step, abs_diff, dx, dy};
use crate::player::{ContainerSource, ContainerView, Direction, OpenContainer, Player, PlayerView, spec_direction_to_u8};
use crate::world::message::{PlayerToWorld, PlayerToWorldView, WorldToPlayer, WorldToPlayerView, players_view};
use crate::util::first_where;
use vstd::utf8::{valid_utf8, decode_utf8, encode_utf8, is_continuation_byte};

verus! {

broadcast use vstd::string::group_string_axioms;

/// Why a packet could not be handled; the connection ends on any of these.
#[derive(Debug, Copy, Clone, PartialEq, Eq, Structural)]
pub enum PacketError {
    /// The packet ended before a field it needs.
    Read(ReadError),
    /// A walk packet named no direction.
    InvalidDirection(u8),
    /// A `#` chat line too short to hold a qualifier and a text, or, in a UTF-8 line,
    /// whose text does not start at a character boundary.
    MalformedChat,
}

/// Converts a text to upper case with `str::to_uppercase` (Unicode's case mapping).
/// Trusted: the contract claims only that the result depends on the text alone, as
/// [`spec_to_uppercase`] names it; what the mapping does to each character is left unsaid.
#[verifier::external_body]
fn to_uppercase(s: &str) -> (r: String)
    ensures
        r@ == spec_to_uppercase(s@),
{
    s.to_uppercase()
}

/// The upper-case form of a text, as `str::to_uppercase` computes it.
pub uninterp spec fn spec_to_uppercase(s: Seq<char>) -> Seq<char>;

/// The local ids of the open windows of map containers more than one tile away from `pos`.
pub open spec fn far_map_windows(cs: Seq<ContainerView>, pos: Position) -> Seq<u8>
    decreases cs.len(),
{
    if cs.len() == 0 {
        Seq::empty()
    } else {
        let rest = far_map_windows(cs.drop_last(), pos);
        match cs.last().source {
            ContainerSource::OnMap(cp) => if dx(cp, pos) > 1 || dy(cp, pos) > 1 {
                rest.push(cs.last().local_id)
            } else {
                rest
            },
            ContainerSource::Equipment(_) => rest,
        }
    }
}

/// The open windows whose local id is not in `ids`.
pub open spec fn without_windows(cs: Seq<ContainerView>, ids: Seq<u8>) -> Seq<ContainerView>
    decreases cs.len(),
{
    if cs.len() == 0 {
        cs
    } else {
        let rest = without_windows(cs.drop_last(), ids);
        if ids.contains(cs.last().local_id) {
            rest
        } else {
            rest.push(cs.last())
        }
    }
}

/// One close-container packet for each local id, in order.
pub open spec fn close_packets(ids: crate::network::packet::PacketIds, lids: Seq<u8>) -> Seq<Seq<u8>>
    decreases lids.len(),
{
    if lids.len() == 0 {
        Seq::empty()
    } else {
        close_packets(ids, lids.drop_last()).push(close_container_packet(ids, lids.last()))
    }
}

/// A player with a new position and facing direction.
pub open spec fn moved(p: PlayerView, d: Direction) -> PlayerView {
    PlayerView { direction: d, position: spec_step(p.position, d), ..p }
}

/// A player with a new list of open windows.
pub open spec fn with_containers(p: PlayerView, cs: Seq<ContainerView>) -> PlayerView {
    PlayerView { containers: cs, ..p }
}

/// The connection after the player stepped in direction `d`: the world is told, map
/// containers now out of reach (more than one tile away) are closed, and the map is
/// redrawn around the new position.
pub open spec fn walk_step(c: ConnView, map: MapView, d: Direction) -> ConnView {
    let p1 = moved(c.player, d);
    let far = far_map_windows(p1.containers, p1.position);
    let p2 = with_containers(p1, without_windows(p1.containers, far));
    ConnView {
        player: p2,
        queued: c.queued + close_packets(c.ids, far) + seq![
            map_packet(c.ids, map, p2, c.others, p2.position, 18, 14),
        ],
        outbox: c.outbox.push(PlayerToWorldView::UpdatePosition(p1)),
        ..c
    }
}

/// The chat event a chat line sends to the world, if any: `#` lines are whispers, yells
/// or broadcasts (yells and broadcasts upper-cased), and are dropped when the character
/// after `#` names none of these; `*Name*` and `@Name@` lines are
/// private messages (a single space after the closing delimiter is skipped; a line
/// without one is dropped), and anything else is normal speech. The line is read as
/// UTF-8 text when it is valid UTF-8, else one character per byte (see [`chat_text`]);
/// the text is sent in Windows-1252, one byte per character.
pub open spec fn chat_event(me: PlayerView, raw: Seq<u8>) -> Option<PlayerToWorldView> {
    if raw.len() > 0 && raw[0] == 0x23 {
        if known_qualifier(raw) {
            let ty = spec_chat_type_from_prefix(Some(raw[1] as char));
            let text = chat_text(raw, raw.skip(3));
            let encoded = if ty == ChatType::Yell || ty == ChatType::Broadcast {
                spec_translate_upper(spec_to_uppercase(text))
            } else {
                spec_translate(text)
            };
            Some(PlayerToWorldView::Chat(me.position, ty, encoded, me.name, None))
        } else {
            None
        }
    } else if raw.len() > 0 && (raw[0] == 0x2A || raw[0] == 0x40) {
        let rest = raw.drop_first();
        if exists|i: int| 0 <= i < rest.len() && rest[i] == raw[0] {
            let end = choose|i: int| 0 <= i < rest.len() && rest[i] == raw[0] && forall|j: int| 0 <= j < i ==> rest[j] != raw[0];
            let after = rest.skip(end + 1);
            let text = if after.len() > 0 && after[0] == 0x20 { after.drop_first() } else { after };
            Some(PlayerToWorldView::Chat(me.position, ChatType::Private, spec_translate(chat_text(raw, text)), me.name, Some(chat_text(raw, rest.take(end)))))
        } else {
            None
        }
    } else {
        Some(PlayerToWorldView::Chat(me.position, ChatType::Normal, spec_translate(chat_text(raw, raw)), me.name, None))
    }
}

/// Whether the character after the first of a chat line is one of the chat qualifiers
/// `w`, `y` or `b`, in either case.
pub open spec fn known_qualifier(raw: Seq<u8>) -> bool {
    raw.len() > 1 && (raw[1] == 0x77 || raw[1] == 0x57 || raw[1] == 0x79 || raw[1] == 0x59 || raw[1] == 0x62 || raw[1] == 0x42)
}

/// A `#` chat line with a known qualifier needs a separator after it before its text,
/// and in a UTF-8 line its text must start at a character boundary (the separator is a
/// single-byte character).
pub open spec fn chat_malformed(raw: Seq<u8>) -> bool {
    &&& raw.len() > 0 && raw[0] == 0x23 && known_qualifier(raw)
    &&& raw.len() < 3 || (valid_utf8(raw) && raw.len() > 3 && is_continuation_byte(raw[3]))
}

/// The player after submitting the "Change Data" form.
pub open spec fn with_profile(
    p: PlayerView,
    password: Seq<char>,
    outfit: crate::player::OutfitColors,
    real_name: Seq<char>,
    location: Seq<char>,
    email: Seq<char>,
) -> PlayerView {
    PlayerView { password, outfit, real_name, location, email, ..p }
}

/// The player whose info is shown for a requested name: this player if the name is
/// theirs, else the first visible player with that name, else this player.
pub open spec fn info_subject(me: PlayerView, others: Seq<PlayerView>, name: Seq<char>) -> PlayerView {
    if me.name == name {
        me
    } else {
        match first_where(others, |p: PlayerView| p.name == name) {
            Some(p) => p,
            None => me,
        }
    }
}

/// Reads `n` raw bytes.
fn read_bytes(r: &mut PacketReader, n: u16) -> (res: Result<Vec<u8>, ReadError>)
    ensures
        old(r).remaining().len() >= n <==> res is Ok,
        res matches Ok(v) ==> {
            &&& v@ == old(r).remaining().take(n as int)
            &&& final(r).remaining() == old(r).remaining().skip(n as int)
        },
{
    let ghost start = r.remaining();
    let mut v: Vec<u8> = Vec::new();
    let mut i: u16 = 0;
    while i < n
        invariant
            i <= n,
            start == old(r).remaining(),
            start.len() >= i,
            r.remaining() == start.skip(i as int),
            v@ == start.take(i as int),
        decreases n - i,
    {
        let b = r.read_u8()?;
        proof {
            assert(start.take(i + 1) =~= start.take(i as int).push(b));
            assert(start.skip(i as int).drop_first() =~= start.skip(i + 1));
        }
        v.push(b);
        i = i + 1;
    }
    Ok(v)
}

/// Calls `std::str::from_utf8`, which gives the bytes as text exactly when they are
/// valid UTF-8; the text holds those same bytes.
#[verifier::external_body]
fn utf8_text(v: &[u8]) -> (r: Option<&str>)
    ensures
        r is Some <==> valid_utf8(v@),
        r matches Some(t) ==> encode_utf8(t@) == v@,
{
    std::str::from_utf8(v).ok()
}

/// Part of a chat line as text: decoded as UTF-8 when the whole line is valid UTF-8,
/// else one character per byte.
pub open spec fn chat_text(line: Seq<u8>, part: Seq<u8>) -> Seq<char> {
    if valid_utf8(line) {
        decode_utf8(part)
    } else {
        latin1(part)
    }
}

/// In valid UTF-8, the bytes before an ASCII byte and those after it are valid UTF-8.
proof fn lemma_utf8_around_ascii(b: Seq<u8>, i: int)
    requires
        valid_utf8(b),
        0 <= i < b.len(),
        b[i] < 0x80,
    ensures
        valid_utf8(b.subrange(0, i)),
        valid_utf8(b.subrange(i + 1, b.len() as int)),
{
    vstd::utf8::is_char_boundary_iff_not_is_continuation_byte(b, i);
    vstd::utf8::valid_utf8_split(b, i);
    let t = b.subrange(i, b.len() as int);
    assert(t[0] == b[i]);
    assert(vstd::utf8::pop_first_scalar(t) =~= b.subrange(i + 1, b.len() as int));
}

/// Decodes the bytes `[from, to)` of a chat line, see [`chat_text`].
fn chat_string(line: &[u8], from: usize, to: usize, utf8: bool) -> (s: String)
    requires
        from <= to <= line@.len(),
        utf8 == valid_utf8(line@),
        utf8 ==> valid_utf8(line@.subrange(from as int, to as int)),
    ensures
        s@ == chat_text(line@, line@.subrange(from as int, to as int)),
{
    if utf8 {
        let part = vstd::slice::slice_subrange(line, from, to);
        match utf8_text(part) {
            Some(t) => {
                proof {
                    vstd::utf8::encode_utf8_decode_utf8(t@);
                }
                t.to_owned()
            },
            None => latin1_range(line, from, to),
        }
    } else {
        latin1_range(line, from, to)
    }
}

/// Decodes the bytes `[from, to)` as characters, one character per byte.
fn latin1_range(bytes: &[u8], from: usize, to: usize) -> (s: String)
    requires
        from <= to <= bytes@.len(),
    ensures
        s@ == latin1(bytes@.subrange(from as int, to as int)),
{
    let mut s = String::new();
    let mut i: usize = from;
    while i < to
        invariant
            from <= i <= to <= bytes@.len(),
            s@ == latin1(bytes@.subrange(from as int, i as int)),
        decreases to - i,
    {
        crate::io::push_char(&mut s, bytes[i] as char);
        proof {
            assert(latin1(bytes@.subrange(from as int, i + 1)) =~= latin1(bytes@.subrange(from as int, i as int)).push(bytes@[i as int] as char));
        }
        i = i + 1;
    }
    s
}

/// The connection after the player closed window `lid`: every window with that local
/// id is dropped and the close is confirmed to the client.
pub open spec fn close_window_step(c: ConnView, lid: u8) -> ConnView {
    ConnView {
        player: with_containers(c.player, without_windows(c.player.containers, seq![lid])),
        queued: c.queued.push(close_container_packet(c.ids, lid)),
        ..c
    }
}

impl Connection {
    /// Handles a walk packet - reads the direction, advances the player one tile, and
    /// redraws the map.
    ///
    /// The full map is resent every time a player moves. After moving, any open
    /// container whose source is a map tile now more than 1 sqm away from the player is
    /// closed.
    pub fn recv_walk(&mut self, map: &GameMap, r: &mut PacketReader) -> (res: Result<(), PacketError>)
        requires
            old(self).wf(),
            map.wf(),
        ensures
            final(self).wf(),
            old(r).remaining().len() == 0 ==> res == Err::<(), PacketError>(PacketError::Read(ReadError::UnexpectedEof)),
            old(r).remaining().len() > 0 && old(r).remaining()[0] >= 4 ==> res == Err::<(), PacketError>(PacketError::InvalidDirection(old(r).remaining()[0])),
            res is Ok <==> old(r).remaining().len() > 0 && old(r).remaining()[0] < 4,
            res is Ok ==> final(r).remaining() == old(r).remaining().skip(1),
            res is Ok ==> exists|d: Direction| spec_direction_to_u8(d) == old(r).remaining()[0]
                && final(self)@ == walk_step(old(self)@, map@, d),
            res is Err ==> final(self)@ == old(self)@,
    {
        let b = match r.read_u8() {
            Ok(b) => b,
            Err(e) => return Err(PacketError::Read(e)),
        };
        let direction = match Direction::from_u8(b) {
            Some(d) => d,
            None => return Err(PacketError::InvalidDirection(b)),
        };
        let ghost c0 = self@;
        self.player.direction = direction;
        self.player.position = self.player.position.add_direction(direction);
        let new_pos = self.player.position;
        let ghost p1 = self.player@;
        proof {
            assert(p1 == moved(c0.player, direction));
        }
        self.send_to_world(PlayerToWorld::UpdatePosition(self.player.clone()));

        // Close any map containers that are now out of range (more than 1 sqm away).
        let to_close = far_windows(&self.player.containers, new_pos);
        let kept = keep_windows(&self.player.containers, &to_close);
        self.player.containers = kept;
        let ghost p2 = self.player@;
        proof {
            assert(self.player@.containers =~= without_windows(p1.containers, to_close@));
            assert(p2 == with_containers(p1, without_windows(p1.containers, far_map_windows(p1.containers, p1.position))));
            assert(self.wf());
        }
        let ghost q0 = self@.queued;
        let mut i: usize = 0;
        while i < to_close.len()
            invariant
                self.wf(),
                i <= to_close@.len(),
                self.player@ == p2,
                self.others() == c0.others,
                self.ids == c0.ids,
                self.pending_path@ == c0.path,
                self.outbox() == c0.outbox.push(PlayerToWorldView::UpdatePosition(p1)),
                self.queued() == q0 + close_packets(c0.ids, to_close@.take(i as int)),
            decreases to_close.len() - i,
        {
            let msg = self.send_close_container(to_close[i]);
            self.enqueue(msg);
            proof {
                assert(to_close@.take(i + 1).drop_last() =~= to_close@.take(i as int));
                assert(self.queued() =~= q0 + close_packets(c0.ids, to_close@.take(i + 1)));
            }
            i = i + 1;
        }
        proof {
            assert(to_close@.take(to_close@.len() as int) =~= to_close@);
        }
        self.enqueue_map(map);
        proof {
            assert(self@.queued =~= c0.queued + close_packets(c0.ids, far_map_windows(p1.containers, p1.position)) + seq![
                map_packet(c0.ids, map@, p2, c0.others, p2.position, 18, 14),
            ]);
            assert(self@ == walk_step(c0, map@, direction));
        }
        Ok(())
    }
}

/// The local ids of the open windows of map containers more than one tile away from `pos`.
pub(crate) fn far_windows(cs: &Vec<OpenContainer>, pos: Position) -> (ids: Vec<u8>)
    ensures
        ids@ == far_map_windows(cs@.map_values(|c: OpenContainer| c@), pos),
{
    let ghost v = cs@.map_values(|c: OpenContainer| c@);
    let mut ids: Vec<u8> = Vec::new();
    let mut i: usize = 0;
    while i < cs.len()
        invariant
            i <= cs@.len(),
            v == cs@.map_values(|c: OpenContainer| c@),
            ids@ == far_map_windows(v.take(i as int), pos),
        decreases cs.len() - i,
    {
        proof {
            assert(v.take(i + 1).drop_last() =~= v.take(i as int));
        }
        match cs[i].source {
            ContainerSource::OnMap(cp) => {
                if abs_diff(cp.x, pos.x) > 1 || abs_diff(cp.y, pos.y) > 1 {
                    ids.push(cs[i].local_id);
                }
            },
            ContainerSource::Equipment(_) => {},
        }
        i = i + 1;
    }
    proof {
        assert(v.take(cs@.len() as int) =~= v);
    }
    ids
}

/// The open windows whose local id is not in `ids`, in order.
pub(crate) fn keep_windows(cs: &Vec<OpenContainer>, ids: &Vec<u8>) -> (kept: Vec<OpenContainer>)
    ensures
        kept@.map_values(|c: OpenContainer| c@) == without_windows(cs@.map_values(|c: OpenContainer| c@), ids@),
{
    let ghost v = cs@.map_values(|c: OpenContainer| c@);
    let mut kept: Vec<OpenContainer> = Vec::new();
    let mut i: usize = 0;
    while i < cs.len()
        invariant
            i <= cs@.len(),
            v == cs@.map_values(|c: OpenContainer| c@),
            kept@.map_values(|c: OpenContainer| c@) == without_windows(v.take(i as int), ids@),
        decreases cs.len() - i,
    {
        proof {
            assert(v.take(i + 1).drop_last() =~= v.take(i as int));
        }
        let lid = cs[i].local_id;
        if !contains_u8(ids, lid) {
            let ghost before = kept@.map_values(|c: OpenContainer| c@);
            kept.push(cs[i].clone());
            proof {
                assert(kept@.map_values(|c: OpenContainer| c@) =~= before.push(v[i as int]));
            }
        }
        i = i + 1;
    }
    proof {
        assert(v.take(cs@.len() as int) =~= v);
    }
    kept
}

/// Whether `x` occurs in `v`.
fn contains_u8(v: &Vec<u8>, x: u8) -> (r: bool)
    ensures
        r == v@.contains(x),
{
    let mut i: usize = 0;
    while i < v.len()
        invariant
            i <= v@.len(),
            forall|j: int| 0 <= j < i ==> v@[j] != x,
        decreases v.len() - i,
    {
        if v[i] == x {
            return true;
        }
        i = i + 1;
    }
    false
}

/// The length and bytes of a length-prefixed chat line, if the packet holds them.
pub open spec fn chat_line(b: Seq<u8>) -> Option<Seq<u8>> {
    if b.len() < 2 {
        None
    } else {
        let n = crate::io::le16(b[0], b[1]);
        if b.len() < 2 + n {
            None
        } else {
            Some(b.subrange(2, 2 + n))
        }
    }
}

/// The connection after a chat line: its event, if any, is queued for the world.
pub open spec fn chat_step(c: ConnView, raw: Seq<u8>) -> ConnView {
    match chat_event(c.player, raw) {
        Some(e) => ConnView { outbox: c.outbox.push(e), ..c },
        None => c,
    }
}

impl Connection {
    /// Handles an incoming chat packet.
    ///
    /// Lines starting with `#` choose the chat type (whisper, yell, broadcast) by the
    /// character after it, and are dropped when it names none of them; lines starting
    /// with `*Name*` or `@Name@` are private messages; everything else is normal speech.
    /// See [`chat_event`].
    #[verifier::spinoff_prover]
    #[verifier::rlimit(30)]
    pub fn recv_chat(&mut self, r: &mut PacketReader) -> (res: Result<(), PacketError>)
        ensures
            chat_line(old(r).remaining()) is None ==> res == Err::<(), PacketError>(PacketError::Read(ReadError::UnexpectedEof)),
            chat_line(old(r).remaining()) matches Some(raw) && chat_malformed(raw) ==> res == Err::<(), PacketError>(PacketError::MalformedChat),
            res is Ok <==> (chat_line(old(r).remaining()) matches Some(raw) && !chat_malformed(raw)),
            chat_line(old(r).remaining()) matches Some(raw) ==> final(r).remaining() == old(r).remaining().skip(2 + raw.len() as int),
            res is Ok ==> final(self)@ == chat_step(old(self)@, chat_line(old(r).remaining())->0),
            res is Err ==> final(self)@ == old(self)@,
            final(self).player == old(self).player,
            final(self).other_players == old(self).other_players,
    {
        let ghost b = r.remaining();
        let length = match r.read_u16_le() {
            Ok(n) => n,
            Err(e) => return Err(PacketError::Read(e)),
        };
        let raw = match read_bytes(r, length) {
            Ok(v) => v,
            Err(e) => {
                proof {
                    assert(b.len() < 2 + length);
                }
                return Err(PacketError::Read(e));
            },
        };
        proof {
            assert(b.skip(2).take(length as int) =~= b.subrange(2, 2 + length));
            assert(chat_line(b) == Some(raw@));
        }
        let ghost c0 = self@;
        let pos = self.player.position;
        let utf8 = utf8_text(raw.as_slice()).is_some();
        if raw.len() > 0 && raw[0] == 0x23 {
            if raw.len() < 2 {
                return Ok(());
            }
            let q = raw[1];
            if !(q == 0x77 || q == 0x57 || q == 0x79 || q == 0x59 || q == 0x62 || q == 0x42) {
                return Ok(());
            }
            if raw.len() < 3 {
                return Err(PacketError::MalformedChat);
            }
            if utf8 && raw.len() > 3 && 0x80 <= raw[3] && raw[3] <= 0xBF {
                return Err(PacketError::MalformedChat);
            }
            proof {
                if utf8 {
                    if raw@.len() > 3 {
                        vstd::utf8::is_char_boundary_iff_not_is_continuation_byte(raw@, 3);
                        vstd::utf8::valid_utf8_split(raw@, 3);
                    } else {
                        assert(raw@.subrange(3, 3) =~= Seq::<u8>::empty());
                    }
                }
                assert(raw@.subrange(3, raw@.len() as int) =~= raw@.skip(3));
            }
            let chat_type = ChatType::from(Some(q as char));
            let text = chat_string(raw.as_slice(), 3, raw.len(), utf8);
            let encoded = match chat_type {
                ChatType::Yell | ChatType::Broadcast => {
                    let upper = to_uppercase(text.as_str());
                    translate_upper(upper.as_str())
                },
                _ => translate(text.as_str()),
            };
            self.send_to_world(PlayerToWorld::Chat(pos, chat_type, encoded, self.player.name.clone(), None));
        } else if raw.len() > 0 && (raw[0] == 0x2A || raw[0] == 0x40) {
            let delimiter = raw[0];
            let ghost rest = raw@.drop_first();
            let mut k: usize = 1;
            while k < raw.len() && raw[k] != delimiter
                invariant
                    1 <= k <= raw@.len(),
                    rest == raw@.drop_first(),
                    forall|j: int| 0 <= j < k - 1 ==> rest[j] != delimiter,
                decreases raw.len() - k,
            {
                k = k + 1;
            }
            if k == raw.len() {
                proof {
                    assert(!exists|i: int| 0 <= i < rest.len() && rest[i] == raw@[0]);
                }
                return Ok(());
            }
            proof {
                if utf8 {
                    lemma_utf8_around_ascii(raw@, k as int);
                    lemma_utf8_around_ascii(raw@.subrange(0, k as int), 0);
                    assert(raw@.subrange(0, k as int).subrange(1, k as int) =~= raw@.subrange(1, k as int));
                }
            }
            let receiver = chat_string(raw.as_slice(), 1, k, utf8);
            let mut after: usize = k + 1;
            if after < raw.len() && raw[after] == 0x20 {
                proof {
                    if utf8 {
                        let t = raw@.subrange(k + 1, raw@.len() as int);
                        lemma_utf8_around_ascii(t, 0);
                        assert(t.subrange(1, t.len() as int) =~= raw@.subrange(k + 2, raw@.len() as int));
                    }
                }
                after = after + 1;
            }
            let text = chat_string(raw.as_slice(), after, raw.len(), utf8);
            proof {
                assert(raw@.subrange(after as int, raw@.len() as int) =~= raw@.skip(after as int));
            }
            let encoded = translate(text.as_str());
            proof {
                let end = choose|i: int| 0 <= i < rest.len() && rest[i] == raw@[0] && forall|j: int| 0 <= j < i ==> rest[j] != raw@[0];
                assert(rest[k - 1] == raw@[0]);
                assert(end == k - 1) by {
                    if end < k - 1 {
                    } else if end > k - 1 {
                        assert(rest[k - 1] != raw@[0]);
                    }
                }
                assert(rest.take(end) =~= raw@.subrange(1, k as int));
                let a = rest.skip(end + 1);
                assert(a =~= raw@.skip(k + 1));
                if a.len() > 0 && a[0] == 0x20 {
                    assert(a.drop_first() =~= raw@.skip(k + 2));
                }
            }
            self.send_to_world(PlayerToWorld::Chat(pos, ChatType::Private, encoded, self.player.name.clone(), Some(receiver)));
        } else {
            proof {
                assert(raw@.subrange(0, raw@.len() as int) =~= raw@);
            }
            let text = chat_string(raw.as_slice(), 0, raw.len(), utf8);
            let encoded = translate(text.as_str());
            self.send_to_world(PlayerToWorld::Chat(pos, ChatType::Normal, encoded, self.player.name.clone(), None));
        }
        Ok(())
    }

    /// Handles a player comment. Comments are not stored or displayed in game; the
    /// packet is only consumed: the comment text is read up to and including its
    /// terminating zero byte (or to the end of the packet).
    pub fn recv_comment(&mut self, r: &mut PacketReader) -> (res: Result<(), PacketError>)
        ensures
            res is Ok,
            final(r).remaining() == after_nul(old(r).remaining()),
            final(self)@ == old(self)@,
            final(self).player == old(self).player,
            final(self).other_players == old(self).other_players,
    {
        let mut msg = String::new();
        let _ = r.read_string_to_end(&mut msg);
        Ok(())
    }

    /// Handles a request to open the "Change Data" window: responds with the player's
    /// current editable fields pre-filled.
    pub fn recv_request_change_data(&mut self) -> (res: Result<(), PacketError>)
        requires
            old(self).wf(),
        ensures
            res is Ok,
            final(self)@ == (ConnView {
                queued: old(self)@.queued.push(data_window_packet(old(self).ids, old(self).player@)),
                ..old(self)@
            }),
            final(self).player == old(self).player,
            final(self).other_players == old(self).other_players,
    {
        let msg = self.send_data_window();
        proof {
            assert(msg@.len() > 0) by {
                assert(header(self.ids, crate::network::packet::PacketOut::DataWindow).len() == 5);
            }
        }
        self.enqueue(msg);
        Ok(())
    }

    /// Handles a request for the online list (Menu: Info -> Userlist).
    pub fn recv_user_list(&mut self) -> (res: Result<(), PacketError>)
        ensures
            res is Ok,
            final(self)@ == (ConnView {
                queued: old(self)@.queued.push(user_list_packet(old(self).ids, old(self).player@, old(self).others())),
                ..old(self)@
            }),
            final(self).player == old(self).player,
            final(self).other_players == old(self).other_players,
    {
        let msg = self.send_user_list();
        proof {
            assert(msg@.len() > 0) by {
                assert(header(self.ids, crate::network::packet::PacketOut::UserList).len() == 5);
            }
        }
        self.enqueue(msg);
        Ok(())
    }

    /// Handles a container close request: removes the window with that local id so its
    /// slot is free for re-use, and confirms the close to the client.
    pub fn recv_close_container(&mut self, r: &mut PacketReader) -> (res: Result<(), PacketError>)
        requires
            old(self).wf(),
        ensures
            res is Ok <==> old(r).remaining().len() > 0,
            res is Ok ==> final(r).remaining() == old(r).remaining().skip(1),
            res is Err ==> final(self)@ == old(self)@
                && res == Err::<(), PacketError>(PacketError::Read(ReadError::UnexpectedEof)),
            res is Ok ==> final(self)@ == close_window_step(old(self)@, old(r).remaining()[0]),
            final(self).wf(),
            final(self).other_players == old(self).other_players,
    {
        let local_id = match r.read_u8() {
            Ok(b) => b,
            Err(e) => return Err(PacketError::Read(e)),
        };
        let mut ids: Vec<u8> = Vec::new();
        ids.push(local_id);
        let kept = keep_windows(&self.player.containers, &ids);
        self.player.containers = kept;
        let msg = self.send_close_container(local_id);
        self.enqueue(msg);
        proof {
            assert(ids@ =~= seq![local_id]);
        }
        Ok(())
    }
}

/// Whether a "Change Data" form holds all its fields: a 30-byte password, an outfit and
/// three 50-byte text fields.
pub open spec fn set_data_complete(b: Seq<u8>) -> bool {
    b.len() >= 183
}

/// The player after the "Change Data" form `b`.
pub open spec fn set_data_player(p: PlayerView, b: Seq<u8>) -> PlayerView {
    with_profile(
        p,
        crate::network::connection::login::field_text(b, 0, 30),
        outfit_from_bytes(b[30], b[31]),
        crate::network::connection::login::field_text(b, 33, 50),
        crate::network::connection::login::field_text(b, 83, 50),
        crate::network::connection::login::field_text(b, 133, 50),
    )
}

/// The connection after a "Change Data" form: the profile is updated, the world is
/// told, and the map is redrawn so outfit changes show.
pub open spec fn set_data_step(c: ConnView, map: MapView, b: Seq<u8>) -> ConnView {
    let p = set_data_player(c.player, b);
    ConnView {
        player: p,
        queued: c.queued.push(map_packet(c.ids, map, p, c.others, p.position, 18, 14)),
        outbox: c.outbox.push(PlayerToWorldView::UpdateInfo(p)),
        ..c
    }
}

/// The connection after a player-info request for `name`.
pub open spec fn player_info_step(c: ConnView, name: Seq<char>) -> ConnView {
    ConnView { queued: c.queued.push(user_info_packet(c.ids, info_subject(c.player, c.others, name))), ..c }
}

impl Connection {
    /// Handles a "Change Data" form submission - updates the player's profile fields.
    ///
    /// After updating, the new data is sent to the world and the map is redrawn so
    /// outfit changes are visible immediately.
    pub fn recv_set_data(&mut self, map: &GameMap, r: &mut PacketReader) -> (res: Result<(), PacketError>)
        requires
            old(self).wf(),
            map.wf(),
        ensures
            final(self).wf(),
            res is Ok <==> set_data_complete(old(r).remaining()),
            res is Ok ==> final(self)@ == set_data_step(old(self)@, map@, old(r).remaining()),
            res is Err ==> final(self)@ == old(self)@
                && res == Err::<(), PacketError>(PacketError::Read(ReadError::UnexpectedEof)),
    {
        let ghost b = r.remaining();
        let mut password = String::new();
        if let Err(e) = r.read_string(&mut password, 30) {
            return Err(PacketError::Read(e));
        }
        let outfit = match r.read_outfit_colors() {
            Ok(o) => o,
            Err(e) => return Err(PacketError::Read(e)),
        };
        let mut real_name = String::new();
        if let Err(e) = r.read_string(&mut real_name, 50) {
            return Err(PacketError::Read(e));
        }
        let mut location = String::new();
        if let Err(e) = r.read_string(&mut location, 50) {
            return Err(PacketError::Read(e));
        }
        let mut email = String::new();
        if let Err(e) = r.read_string(&mut email, 50) {
            return Err(PacketError::Read(e));
        }
        proof {
            assert(b.take(30) =~= b.subrange(0, 30));
            assert(b.skip(30).skip(3) =~= b.skip(33));
            assert(b.skip(33).take(50) =~= b.subrange(33, 83));
            assert(b.skip(33).skip(50) =~= b.skip(83));
            assert(b.skip(83).take(50) =~= b.subrange(83, 133));
            assert(b.skip(83).skip(50) =~= b.skip(133));
            assert(b.skip(133).take(50) =~= b.subrange(133, 183));
            assert(Seq::<char>::empty() + latin1(until_nul(b.subrange(0, 30))) =~= latin1(until_nul(b.subrange(0, 30))));
            assert(Seq::<char>::empty() + latin1(until_nul(b.subrange(33, 83))) =~= latin1(until_nul(b.subrange(33, 83))));
            assert(Seq::<char>::empty() + latin1(until_nul(b.subrange(83, 133))) =~= latin1(until_nul(b.subrange(83, 133))));
            assert(Seq::<char>::empty() + latin1(until_nul(b.subrange(133, 183))) =~= latin1(until_nul(b.subrange(133, 183))));
        }
        let ghost c0 = self@;
        self.player.password = password;
        self.player.outfit = outfit;
        self.player.real_name = real_name;
        self.player.location = location;
        self.player.email = email;
        proof {
            assert(self.player@ == set_data_player(c0.player, b));
        }
        self.send_to_world(PlayerToWorld::UpdateInfo(self.player.clone()));
        self.enqueue_map(map);
        Ok(())
    }

    /// The index of the first visible player named exactly `name`.
    fn other_named(&self, name: &String) -> (r: Option<usize>)
        ensures
            match r {
                Some(k) => k < self.others().len() && first_where(self.others(), |p: PlayerView| p.name == name@)
                    == Some(self.others()[k as int]),
                None => first_where(self.others(), |p: PlayerView| p.name == name@) is None,
            },
    {
        let ghost others = self.others();
        let mut i: usize = 0;
        while i < self.other_players.len()
            invariant
                i <= self.other_players@.len(),
                others == self.others(),
                forall|j: int| 0 <= j < i ==> others[j].name != name@,
            decreases self.other_players.len() - i,
        {
            if self.other_players[i].name == *name {
                proof {
                    crate::util::lemma_first_where_at(others, |p: PlayerView| p.name == name@, i as int);
                }
                return Some(i);
            }
            i = i + 1;
        }
        proof {
            crate::util::lemma_first_where_none(others, |p: PlayerView| p.name == name@);
        }
        None
    }

    /// Handles a request for a specific player's info (Menu: Info -> Userlist ->
    /// {player} -> Info): this player if the name is theirs, else the first visible
    /// player with that name, else this player's own data.
    pub fn recv_player_info(&mut self, r: &mut PacketReader) -> (res: Result<(), PacketError>)
        ensures
            res is Ok,
            final(self)@ == player_info_step(old(self)@, latin1(until_nul(old(r).remaining()))),
            final(self).player == old(self).player,
            final(self).other_players == old(self).other_players,
    {
        let mut name = String::new();
        let _ = r.read_string_to_end(&mut name);
        proof {
            assert(name@ =~= latin1(until_nul(old(r).remaining())));
        }
        let ghost others = self.others();
        let msg = if self.player.name == name {
            self.send_user_info(&self.player)
        } else {
            let found = self.other_named(&name);
            match found {
                Some(k) => self.send_user_info(&self.other_players[k]),
                None => self.send_user_info(&self.player),
            }
        };
        proof {
            assert(msg@.len() > 0) by {
                assert(header(self.ids, crate::network::packet::PacketOut::UserInfo).len() == 5);
            }
        }
        self.enqueue(msg);
        Ok(())
    }
}

/// The players of a list other than the one with id `id`, in order.
pub open spec fn without_id(ps: Seq<PlayerView>, id: u32) -> Seq<PlayerView>
    decreases ps.len(),
{
    if ps.len() == 0 {
        ps
    } else {
        let rest = without_id(ps.drop_last(), id);
        if ps.last().id == id {
            rest
        } else {
            rest.push(ps.last())
        }
    }
}

/// Whether `p` was not in `old_others`, or the first player there with its id stood
/// elsewhere or wore another outfit.
pub open spec fn appeared_or_changed(old_others: Seq<PlayerView>, p: PlayerView) -> bool {
    match first_where(old_others, |o: PlayerView| o.id == p.id) {
        None => true,
        Some(o) => o.position != p.position || o.outfit != p.outfit,
    }
}

/// Whether a visible player appeared, left, moved or changed outfit between two lists.
pub open spec fn others_changed(old_others: Seq<PlayerView>, new_others: Seq<PlayerView>) -> bool {
    ||| old_others.len() != new_others.len()
    ||| exists|i: int| 0 <= i < new_others.len() && appeared_or_changed(old_others, #[trigger] new_others[i])
}

/// Whether an open window shows the map container `cid` at `pos`.
pub open spec fn shows_map_container(c: ContainerView, pos: Position, cid: u16) -> bool {
    c.container_id == cid && c.source == ContainerSource::OnMap(pos)
}

/// The open windows with those showing the map container `cid` at `pos` refilled with `items`.
pub open spec fn refreshed_windows(cs: Seq<ContainerView>, pos: Position, cid: u16, items: Seq<u16>) -> Seq<ContainerView> {
    cs.map_values(|c: ContainerView| if shows_map_container(c, pos, cid) { ContainerView { items, ..c } } else { c })
}

/// An open-container packet for each window showing the map container `cid` at `pos`, in order.
pub open spec fn refresh_packets(ids: crate::network::packet::PacketIds, cs: Seq<ContainerView>, pos: Position, cid: u16) -> Seq<Seq<u8>>
    decreases cs.len(),
{
    if cs.len() == 0 {
        Seq::empty()
    } else {
        let rest = refresh_packets(ids, cs.drop_last(), pos, cid);
        if shows_map_container(cs.last(), pos, cid) {
            rest.push(open_container_packet(ids, cs.last()))
        } else {
            rest
        }
    }
}

/// Where a chat message is shown: broadcasts and private messages at the top centre of
/// this player's screen (two rows above the player), others at the sender's position.
pub open spec fn chat_anchor(me: Position, ty: ChatType, sender: Position) -> Position {
    if ty == ChatType::Broadcast || ty == ChatType::Private {
        Position { x: me.x, y: if me.y >= 2 { (me.y - 2) as u16 } else { 0 }, z: me.z }
    } else {
        sender
    }
}

/// Every player of a list has an outfit that fits the protocol's color fields.
pub open spec fn list_outfits_wf(ps: Seq<PlayerView>) -> bool {
    forall|i: int| 0 <= i < ps.len() ==> #[trigger] ps[i].outfit.wf()
}

/// The connection after a message from the world.
///
/// - A player list replaces the visible players (all but this player); the map is
///   redrawn only if a visible player appeared, left, moved or changed outfit.
/// - A chat message is shown (see [`chat_anchor`]).
/// - A map update redraws the map.
/// - A container update refills the open windows of that map container and refreshes them.
/// - A status message is shown in the status bar.
pub open spec fn world_message_step(c: ConnView, map: MapView, msg: WorldToPlayerView) -> ConnView {
    match msg {
        WorldToPlayerView::PlayerList(ps) => {
            let others = without_id(ps, c.player.id);
            if others_changed(c.others, others) {
                ConnView {
                    others,
                    queued: c.queued.push(map_packet(c.ids, map, c.player, others, c.player.position, 18, 14)),
                    ..c
                }
            } else {
                ConnView { others, ..c }
            }
        },
        WorldToPlayerView::Chat(pos, ty, text, name) => ConnView {
            queued: c.queued.push(chat_packet(c.ids, c.player.position, ty, text, chat_anchor(c.player.position, ty, pos), name)),
            ..c
        },
        WorldToPlayerView::MapUpdate => ConnView {
            queued: c.queued.push(map_packet(c.ids, map, c.player, c.others, c.player.position, 18, 14)),
            ..c
        },
        WorldToPlayerView::ContainerUpdate(pos, cid, items) => {
            let cs = refreshed_windows(c.player.containers, pos, cid, items);
            ConnView {
                player: with_containers(c.player, cs),
                queued: c.queued + refresh_packets(c.ids, cs, pos, cid),
                ..c
            }
        },
        WorldToPlayerView::StatusMessage(m) => ConnView { queued: c.queued.push(status_packet(c.ids, m)), ..c },
    }
}

/// The connection after a message from the world while it waits for the first player
/// list: chat is shown at the sender's position, status messages are shown, map and
/// container updates are ignored, and the player list replaces the visible players and
/// always draws the map. The second component says whether the wait is over.
pub open spec fn login_message_step(c: ConnView, map: MapView, msg: WorldToPlayerView) -> (ConnView, bool) {
    match msg {
        WorldToPlayerView::PlayerList(ps) => {
            let others = without_id(ps, c.player.id);
            (ConnView {
                others,
                queued: c.queued.push(map_packet(c.ids, map, c.player, others, c.player.position, 18, 14)),
                ..c
            }, true)
        },
        WorldToPlayerView::Chat(pos, ty, text, name) => (ConnView {
            queued: c.queued.push(chat_packet(c.ids, c.player.position, ty, text, pos, name)),
            ..c
        }, false),
        WorldToPlayerView::StatusMessage(m) => (ConnView { queued: c.queued.push(status_packet(c.ids, m)), ..c }, false),
        _ => (c, false),
    }
}

/// Whether a world message only carries players whose outfits fit the color fields.
pub open spec fn message_outfits_wf(msg: WorldToPlayerView) -> bool {
    msg matches WorldToPlayerView::PlayerList(ps) ==> list_outfits_wf(ps)
}

impl Connection {
    /// The players of `players` other than this player, in order.
    fn others_from(&self, players: Vec<Player>) -> (r: Vec<Player>)
        ensures
            players_view(r@) == without_id(players_view(players@), self.player.id),
    {
        let ghost v = players_view(players@);
        let mut r: Vec<Player> = Vec::new();
        let mut players = players;
        let mut i: usize = 0;
        let n = players.len();
        while i < n
            invariant
                i <= n == players@.len(),
                v == players_view(players@),
                players_view(r@) == without_id(v.take(i as int), self.player.id),
            decreases n - i,
        {
            proof {
                assert(v.take(i + 1).drop_last() =~= v.take(i as int));
            }
            if players[i].id != self.player.id {
                let ghost before = players_view(r@);
                r.push(players[i].clone());
                proof {
                    assert(players_view(r@) =~= before.push(v[i as int]));
                }
            }
            i = i + 1;
        }
        proof {
            assert(v.take(n as int) =~= v);
        }
        r
    }

    /// The index of the first visible player with id `id`.
    fn other_with_id(&self, id: u32) -> (r: Option<usize>)
        ensures
            match r {
                Some(k) => k < self.others().len() && first_where(self.others(), |o: PlayerView| o.id == id)
                    == Some(self.others()[k as int]),
                None => first_where(self.others(), |o: PlayerView| o.id == id) is None,
            },
    {
        let ghost others = self.others();
        let mut i: usize = 0;
        while i < self.other_players.len()
            invariant
                i <= self.other_players@.len(),
                others == self.others(),
                forall|j: int| 0 <= j < i ==> others[j].id != id,
            decreases self.other_players.len() - i,
        {
            if self.other_players[i].id == id {
                proof {
                    crate::util::lemma_first_where_at(others, |o: PlayerView| o.id == id, i as int);
                }
                return Some(i);
            }
            i = i + 1;
        }
        proof {
            crate::util::lemma_first_where_none(others, |o: PlayerView| o.id == id);
        }
        None
    }

    /// Whether some player of `new_others` is not visible yet, or moved or changed
    /// outfit, or the number of visible players changed.
    fn needs_redraw(&self, new_others: &Vec<Player>) -> (r: bool)
        ensures
            r == others_changed(self.others(), players_view(new_others@)),
    {
        let ghost nv = players_view(new_others@);
        let ghost ov = self.others();
        if self.other_players.len() != new_others.len() {
            return true;
        }
        let mut i: usize = 0;
        while i < new_others.len()
            invariant
                i <= new_others@.len(),
                nv == players_view(new_others@),
                ov == self.others(),
                ov.len() == nv.len(),
                forall|k: int| 0 <= k < i ==> !appeared_or_changed(ov, #[trigger] nv[k]),
            decreases new_others.len() - i,
        {
            let id = new_others[i].id;
            let found = self.other_with_id(id);
            proof {
                assert((|o: PlayerView| o.id == id) =~= (|o: PlayerView| o.id == nv[i as int].id));
            }
            let changed = match found {
                None => true,
                Some(k) => self.other_players[k].position != new_others[i].position
                    || self.other_players[k].outfit != new_others[i].outfit,
            };
            if changed {
                proof {
                    assert(appeared_or_changed(ov, nv[i as int]));
                }
                return true;
            }
            i = i + 1;
        }
        false
    }
}

/// Leaving a player out of a list keeps every outfit of the rest.
pub proof fn lemma_without_id_outfits(ps: Seq<PlayerView>, id: u32)
    requires
        list_outfits_wf(ps),
    ensures
        list_outfits_wf(without_id(ps, id)),
    decreases ps.len(),
{
    if ps.len() > 0 {
        assert(list_outfits_wf(ps.drop_last())) by {
            assert forall|i: int| 0 <= i < ps.drop_last().len() implies #[trigger] ps.drop_last()[i].outfit.wf() by {
                assert(ps.drop_last()[i] == ps[i]);
            }
        }
        lemma_without_id_outfits(ps.drop_last(), id);
        assert(ps.last().outfit.wf()) by {
            assert(ps[ps.len() - 1].outfit.wf());
        }
    }
}

impl Connection {
    /// Replaces the visible players by those of `players` other than this player.
    fn replace_others(&mut self, players: Vec<Player>)
        requires
            old(self).wf(),
            list_outfits_wf(players_view(players@)),
        ensures
            final(self).wf(),
            final(self)@ == (ConnView { others: without_id(players_view(players@), old(self).player.id), ..old(self)@ }),
    {
        let others = self.others_from(players);
        proof {
            lemma_without_id_outfits(players_view(players@), self.player.id);
        }
        self.other_players = others;
    }

    /// The screen anchor of a chat message, see [`chat_anchor`].
    fn chat_anchor_of(&self, ty: ChatType, sender: Position) -> (p: Position)
        ensures
            p == chat_anchor(self.player.position, ty, sender),
    {
        match ty {
            ChatType::Broadcast | ChatType::Private => {
                let me = self.player.position;
                let y: u16 = if me.y >= 2 { me.y - 2 } else { 0 };
                Position::new(me.x, y, me.z)
            },
            _ => sender,
        }
    }

    /// Refills the open windows of the map container `cid` at `pos` with `items` and
    /// queues a fresh open-container packet for each of them, in window order.
    fn refresh_container(&mut self, pos: Position, cid: u16, items: &Vec<u16>)
        requires
            old(self).wf(),
        ensures
            final(self).wf(),
            final(self)@ == ({
                let cs = refreshed_windows(old(self)@.player.containers, pos, cid, items@);
                ConnView {
                    player: with_containers(old(self)@.player, cs),
                    queued: old(self)@.queued + refresh_packets(old(self).ids, cs, pos, cid),
                    ..old(self)@
                }
            }),
    {
        let ghost c0 = self@;
        let ghost rs = refreshed_windows(c0.player.containers, pos, cid, items@);
        let mut old_cs: Vec<OpenContainer> = Vec::new();
        std::mem::swap(&mut old_cs, &mut self.player.containers);
        let ghost v = old_cs@.map_values(|c: OpenContainer| c@);
        proof {
            assert(v == c0.player.containers);
            assert(self.player@ == with_containers(c0.player, Seq::empty())) by {
                assert(self.player.containers@.map_values(|c: OpenContainer| c@) =~= Seq::<ContainerView>::empty());
            }
        }
        let mut new_cs: Vec<OpenContainer> = Vec::new();
        let mut i: usize = 0;
        while i < old_cs.len()
            invariant
                i <= old_cs@.len(),
                v == old_cs@.map_values(|c: OpenContainer| c@),
                rs == refreshed_windows(v, pos, cid, items@),
                self.wf(),
                self.player@ == with_containers(c0.player, Seq::empty()),
                self.others() == c0.others,
                self.outbox() == c0.outbox,
                self.pending_path@ == c0.path,
                self.ids == c0.ids,
                new_cs@.map_values(|c: OpenContainer| c@) == rs.take(i as int),
                self.queued() == c0.queued + refresh_packets(c0.ids, rs.take(i as int), pos, cid),
            decreases old_cs.len() - i,
        {
            let ghost before = new_cs@.map_values(|c: OpenContainer| c@);
            let ghost q = self.queued();
            proof {
                assert(rs.take(i + 1).drop_last() =~= rs.take(i as int));
                assert(rs.take(i + 1).last() == rs[i as int]);
            }
            let c = &old_cs[i];
            if c.container_id == cid && c.source == ContainerSource::OnMap(pos) {
                let nc = OpenContainer { container_id: c.container_id, items: items.clone(), local_id: c.local_id, source: c.source };
                proof {
                    assert(nc@ == rs[i as int]);
                }
                let pkt = self.send_open_container(&nc);
                proof {
                    assert(pkt@.len() > 0) by {
                        assert(header(self.ids, crate::network::packet::PacketOut::OpenContainer).len() == 5);
                    }
                }
                self.enqueue(pkt);
                new_cs.push(nc);
            } else {
                let nc = c.clone();
                proof {
                    assert(nc@ == rs[i as int]);
                }
                new_cs.push(nc);
            }
            proof {
                assert(new_cs@.map_values(|c: OpenContainer| c@) =~= before.push(rs[i as int]));
                assert(self.queued() =~= c0.queued + refresh_packets(c0.ids, rs.take(i + 1), pos, cid));
            }
            i = i + 1;
        }
        proof {
            assert(rs.take(old_cs@.len() as int) =~= rs);
        }
        self.player.containers = new_cs;
        proof {
            assert(self.player@ == with_containers(c0.player, rs));
        }
    }

    /// Reacts to a message from the world (see [`world_message_step`]).
    pub fn process_world_message(&mut self, map: &GameMap, msg: WorldToPlayer)
        requires
            old(self).wf(),
            map.wf(),
            message_outfits_wf(msg@),
        ensures
            final(self).wf(),
            final(self)@ == world_message_step(old(self)@, map@, msg@),
    {
        let ghost c0 = self@;
        let ghost m = msg@;
        match msg {
            WorldToPlayer::PlayerList(players) => {
                let others = self.others_from(players);
                let changed = self.needs_redraw(&others);
                proof {
                    lemma_without_id_outfits(players_view(players@), self.player.id);
                }
                self.other_players = others;
                if changed {
                    self.enqueue_map(map);
                }
            },
            WorldToPlayer::Chat(sender_pos, ty, text, name) => {
                let anchor = self.chat_anchor_of(ty, sender_pos);
                let pkt = self.build_chat_packet(ty, text.as_slice(), anchor, name.as_str());
                proof {
                    assert(pkt@.len() > 0) by {
                        assert(header(self.ids, crate::network::packet::PacketOut::Chat).len() == 5);
                    }
                }
                self.enqueue(pkt);
            },
            WorldToPlayer::MapUpdate => {
                self.enqueue_map(map);
            },
            WorldToPlayer::ContainerUpdate(pos, cid, items) => {
                self.refresh_container(pos, cid, &items);
            },
            WorldToPlayer::StatusMessage(message) => {
                let pkt = self.send_status_message(message.as_str());
                proof {
                    assert(pkt@.len() > 0) by {
                        assert(header(self.ids, crate::network::packet::PacketOut::StatusMessage).len() == 5);
                    }
                }
                self.enqueue(pkt);
            },
        }
    }

    /// Reacts to a message from the world while waiting for the first player list (see
    /// [`login_message_step`]); returns whether that list has arrived.
    pub fn process_login_message(&mut self, map: &GameMap, msg: WorldToPlayer) -> (done: bool)
        requires
            old(self).wf(),
            map.wf(),
            message_outfits_wf(msg@),
        ensures
            final(self).wf(),
            (final(self)@, done) == login_message_step(old(self)@, map@, msg@),
    {
        match msg {
            WorldToPlayer::PlayerList(players) => {
                self.replace_others(players);
                self.enqueue_map(map);
                true
            },
            WorldToPlayer::Chat(sender_pos, ty, text, name) => {
                let pkt = self.build_chat_packet(ty, text.as_slice(), sender_pos, name.as_str());
                proof {
                    assert(pkt@.len() > 0) by {
                        assert(header(self.ids, crate::network::packet::PacketOut::Chat).len() == 5);
                    }
                }
                self.enqueue(pkt);
                false
            },
            WorldToPlayer::StatusMessage(message) => {
                let pkt = self.send_status_message(message.as_str());
                proof {
                    assert(pkt@.len() > 0) by {
                        assert(header(self.ids, crate::network::packet::PacketOut::StatusMessage).len() == 5);
                    }
                }
                self.enqueue(pkt);
                false
            },
            WorldToPlayer::MapUpdate => false,
            WorldToPlayer::ContainerUpdate(_, _, _) => false,
        }
    }
}

/// The connection after one tick of an auto-walk: the next queued step is taken, the
/// world is told, and the map is redrawn around the new position. With no queued step
/// nothing happens.
pub open spec fn path_step(c: ConnView, map: MapView) -> ConnView {
    if c.path.len() == 0 {
        c
    } else {
        let p1 = moved(c.player, c.path[0]);
        ConnView {
            player: p1,
            path: c.path.drop_first(),
            outbox: c.outbox.push(PlayerToWorldView::UpdatePosition(p1)),
            queued: c.queued.push(map_packet(c.ids, map, p1, c.others, p1.position, 18, 14)),
            ..c
        }
    }
}

impl Connection {
    /// Takes the next step of a queued auto-walk path, if any; returns whether a step
    /// was taken (the server then flushes and waits before the next step).
    pub fn advance_path(&mut self, map: &GameMap) -> (stepped: bool)
        requires
            old(self).wf(),
            map.wf(),
        ensures
            final(self).wf(),
            stepped == (old(self)@.path.len() > 0),
            final(self)@ == path_step(old(self)@, map@),
    {
        if self.pending_path.len() == 0 {
            return false;
        }
        let ghost c0 = self@;
        let direction = self.pending_path.remove(0);
        self.player.direction = direction;
        self.player.position = self.player.position.add_direction(direction);
        proof {
            assert(self.player@ == moved(c0.player, direction));
        }
        self.send_to_world(PlayerToWorld::UpdatePosition(self.player.clone()));
        self.enqueue_map(map);
        true
    }
}

/// `far_map_windows` lists the local id of every map window more than one tile away.
proof fn lemma_far_windows_listed(cs: Seq<ContainerView>, pos: Position, i: int)
    requires
        0 <= i < cs.len(),
        cs[i].source matches ContainerSource::OnMap(cp) && (dx(cp, pos) > 1 || dy(cp, pos) > 1),
    ensures
        far_map_windows(cs, pos).contains(cs[i].local_id),
    decreases cs.len(),
{
    let rest = far_map_windows(cs.drop_last(), pos);
    if i == cs.len() - 1 {
        assert(far_map_windows(cs, pos) == rest.push(cs.last().local_id));
        assert(rest.push(cs.last().local_id)[rest.len() as int] == cs[i].local_id);
    } else {
        lemma_far_windows_listed(cs.drop_last(), pos, i);
        let k = choose|k: int| 0 <= k < rest.len() && rest[k] == cs[i].local_id;
        match cs.last().source {
            ContainerSource::OnMap(cp) => if dx(cp, pos) > 1 || dy(cp, pos) > 1 {
                assert(rest.push(cs.last().local_id)[k] == cs[i].local_id);
            },
            ContainerSource::Equipment(_) => {},
        }
    }
}

/// The windows `without_windows` keeps are windows of the list whose local id is not listed.
proof fn lemma_without_windows_kept(cs: Seq<ContainerView>, ids: Seq<u8>, k: int)
    requires
        0 <= k < without_windows(cs, ids).len(),
    ensures
        cs.contains(without_windows(cs, ids)[k]),
        !ids.contains(without_windows(cs, ids)[k].local_id),
    decreases cs.len(),
{
    let rest = without_windows(cs.drop_last(), ids);
    if ids.contains(cs.last().local_id) || k < rest.len() {
        lemma_without_windows_kept(cs.drop_last(), ids, k);
        let i = choose|i: int| 0 <= i < cs.drop_last().len() && cs.drop_last()[i] == without_windows(cs, ids)[k];
        assert(cs[i] == without_windows(cs, ids)[k]);
    } else {
        assert(without_windows(cs, ids)[k] == cs.last());
        assert(cs[cs.len() - 1] == cs.last());
    }
}

/// Whether a window's container is in equipment, or on a map tile at most one tile from `pos`.
pub open spec fn window_in_reach(c: ContainerView, pos: Position) -> bool {
    match c.source {
        ContainerSource::OnMap(cp) => dx(cp, pos) <= 1 && dy(cp, pos) <= 1,
        ContainerSource::Equipment(_) => true,
    }
}

/// After a step, every open window of a map container is on the player's tile or next to it.
pub proof fn lemma_walk_keeps_windows_in_reach(c: ConnView, map: MapView, d: Direction)
    ensures
        ({
            let c2 = walk_step(c, map, d);
            forall|k: int| 0 <= k < c2.player.containers.len() ==> window_in_reach(
                #[trigger] c2.player.containers[k],
                c2.player.position,
            )
        }),
{
    let p1 = moved(c.player, d);
    let far = far_map_windows(p1.containers, p1.position);
    let kept = without_windows(p1.containers, far);
    assert forall|k: int| 0 <= k < kept.len() implies window_in_reach(#[trigger] kept[k], p1.position) by {
        lemma_without_windows_kept(p1.containers, far, k);
        if let ContainerSource::OnMap(cp) = kept[k].source {
            if dx(cp, p1.position) > 1 || dy(cp, p1.position) > 1 {
                let i = choose|i: int| 0 <= i < p1.containers.len() && p1.containers[i] == kept[k];
                lemma_far_windows_listed(p1.containers, p1.position, i);
            }
        }
    }
}

/// After closing window `lid`, no open window has that local id.
pub proof fn lemma_close_removes_window(c: ConnView, lid: u8)
    ensures
        forall|k: int| 0 <= k < close_window_step(c, lid).player.containers.len()
            ==> (#[trigger] close_window_step(c, lid).player.containers[k]).local_id != lid,
{
    let cs = close_window_step(c, lid).player.containers;
    assert forall|k: int| 0 <= k < cs.len() implies (#[trigger] cs[k]).local_id != lid by {
        lemma_without_windows_kept(c.player.containers, seq![lid], k);
        if cs[k].local_id == lid {
            assert(seq![lid][0] == lid);
        }
    }
}

/// The connection after `n` ticks of auto-walking.
pub open spec fn path_steps(c: ConnView, map: MapView, n: nat) -> ConnView
    decreases n,
{
    if n == 0 {
        c
    } else {
        path_steps(path_step(c, map), map, (n - 1) as nat)
    }
}

/// Following a path found by an auto-walk, one step per tick, brings the player to its
/// destination with no steps left.
pub proof fn lemma_path_reaches_destination(c: ConnView, map: MapView, dest: Position)
    requires
        crate::network::connection::pathing::valid_path(c.others, map, c.player.position, c.path, dest),
    ensures
        path_steps(c, map, c.path.len()).player.position == dest,
        path_steps(c, map, c.path.len()).path.len() == 0,
    decreases c.path.len(),
{
    if c.path.len() > 0 {
        let c1 = path_step(c, map);
        assert(c1.path == c.path.drop_first());
        assert(c1.others == c.others);
        lemma_path_reaches_destination(c1, map, dest);
    }
}

} // verus!
