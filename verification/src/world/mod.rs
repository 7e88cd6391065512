//! The game world - the central message hub between all connected players.
//!
//! [`WorldState`] holds every online player and decides, for each [`PlayerToWorld`]
//! event, which connected players receive which [`WorldToPlayer`] messages. The server
//! feeds it events from every connection and delivers what it returns; all shared
//! player state lives here, making it the single source of truth for who is connected
//! and where they are.

pub mod message;

use vstd::prelude::*;
use message::{PlayerToWorld, PlayerToWorldView, WorldToPlayer, WorldToPlayerView, players_view};
use crate::chat::ChatType;
use crate::chat::encoding::{spec_translate, translate};
use crate::map::position::{Position, abs_diff};
use crate::player::{Player, PlayerView};
use crate::util::{first_where, lemma_first_where_at, lemma_first_where_none, eq_ignore_ascii_case, spec_eq_ignore_ascii_case};

verus! {

/// Player lists are kept in ascending id order, each id at most once.
pub open spec fn ids_ascending(s: Seq<PlayerView>) -> bool {
    forall|i: int, j: int| 0 <= i < j < s.len() ==> s[i].id < s[j].id
}

/// Connected ids are kept in ascending order, each at most once.
pub open spec fn ascending(s: Seq<u32>) -> bool {
    forall|i: int, j: int| 0 <= i < j < s.len() ==> s[i] < s[j]
}

/// The player list with `p` stored under its id: replacing the player with that id, or
/// inserted in id order.
pub open spec fn upsert(s: Seq<PlayerView>, p: PlayerView) -> Seq<PlayerView>
    decreases s.len(),
{
    if s.len() == 0 {
        seq![p]
    } else if s[0].id == p.id {
        seq![p] + s.drop_first()
    } else if s[0].id > p.id {
        seq![p] + s
    } else {
        seq![s[0]] + upsert(s.drop_first(), p)
    }
}

/// The player list without the player with id `id`.
pub open spec fn remove_player(s: Seq<PlayerView>, id: u32) -> Seq<PlayerView>
    decreases s.len(),
{
    if s.len() == 0 {
        s
    } else if s[0].id == id {
        s.drop_first()
    } else {
        seq![s[0]] + remove_player(s.drop_first(), id)
    }
}

/// The id list with `id` added in order (unchanged if present).
pub open spec fn insert_id(s: Seq<u32>, id: u32) -> Seq<u32>
    decreases s.len(),
{
    if s.len() == 0 {
        seq![id]
    } else if s[0] == id {
        s
    } else if s[0] > id {
        seq![id] + s
    } else {
        seq![s[0]] + insert_id(s.drop_first(), id)
    }
}

/// The id list without `id`.
pub open spec fn remove_id(s: Seq<u32>, id: u32) -> Seq<u32>
    decreases s.len(),
{
    if s.len() == 0 {
        s
    } else if s[0] == id {
        s.drop_first()
    } else {
        seq![s[0]] + remove_id(s.drop_first(), id)
    }
}

/// The online player with id `id`, if any.
pub open spec fn player_with_id(s: Seq<PlayerView>, id: u32) -> Option<PlayerView> {
    first_where(s, |p: PlayerView| p.id == id)
}

/// The first online player (in id order) named exactly `name`, if any.
pub open spec fn player_named(s: Seq<PlayerView>, name: Seq<char>) -> Option<PlayerView> {
    first_where(s, |p: PlayerView| p.name == name)
}

/// The first online player (in id order) whose name matches `name` ignoring ASCII case.
pub open spec fn player_named_ignore_case(s: Seq<PlayerView>, name: Seq<char>) -> Option<PlayerView> {
    first_where(s, |p: PlayerView| spec_eq_ignore_ascii_case(p.name, name))
}

/// Whether `a` lies within `rx` columns and `ry` rows of `b`.
pub open spec fn within(a: Position, b: Position, rx: int, ry: int) -> bool {
    crate::map::position::dx(a, b) <= rx && crate::map::position::dy(a, b) <= ry
}

/// For each connected id, in ascending order, the message `f` decides on (if any).
pub open spec fn each_connected(
    conn: Seq<u32>,
    f: spec_fn(u32) -> Option<WorldToPlayerView>,
) -> Seq<(u32, WorldToPlayerView)>
    decreases conn.len(),
{
    if conn.len() == 0 {
        Seq::empty()
    } else {
        let rest = each_connected(conn.drop_last(), f);
        match f(conn.last()) {
            Some(m) => rest.push((conn.last(), m)),
            None => rest,
        }
    }
}

/// The abstract state of the world: the online players in id order, and the ids of
/// the players whose connection receives messages.
pub struct WorldView {
    pub players: Seq<PlayerView>,
    pub connected: Seq<u32>,
}

/// The status message a player gets for a private message to themselves.
pub open spec fn self_message_text() -> Seq<char> {
    "You cannot send a private message to yourself."@
}

/// The status message a player gets for a private message to someone not online.
pub open spec fn offline_text() -> Seq<char> {
    "A player with this name is not online."@
}

/// What a whisper sounds like to players too far away to understand it.
pub open spec fn whisper_noise() -> Seq<u8> {
    spec_translate("pspsps"@)
}

/// Routing of a private message: only to the named receiver, whatever the distance, and
/// never to anyone else. A message to oneself, or to a player who is not online, is
/// answered with a status message to the sender alone; a sender who is not online
/// (by exact name) gets nothing.
pub open spec fn private_route(
    w: WorldView,
    pos: Position,
    ty: ChatType,
    text: Seq<u8>,
    name: Seq<char>,
    receiver: Option<Seq<char>>,
) -> Seq<(u32, WorldToPlayerView)> {
    let rname = match receiver {
        Some(r) => r,
        None => Seq::empty(),
    };
    match player_named(w.players, name) {
        None => Seq::empty(),
        Some(sender) => if !w.connected.contains(sender.id) {
            Seq::empty()
        } else if spec_eq_ignore_ascii_case(rname, name) {
            seq![(sender.id, WorldToPlayerView::StatusMessage(self_message_text()))]
        } else {
            match player_named_ignore_case(w.players, rname) {
                Some(target) => if w.connected.contains(target.id) {
                    seq![(target.id, WorldToPlayerView::Chat(pos, ty, text, name))]
                } else {
                    seq![(sender.id, WorldToPlayerView::StatusMessage(offline_text()))]
                },
                None => seq![(sender.id, WorldToPlayerView::StatusMessage(offline_text()))],
            }
        },
    }
}

/// What a connected player `id` hears of a non-private chat message said at `pos`:
/// normal speech within 6 columns and 4 rows, whispers in full within 2 tiles and as
/// "pspsps" within 14 columns and 11 rows, yells within 32 tiles, broadcasts everywhere,
/// and a look message only by the player who looked.
pub open spec fn chat_decision(
    players: Seq<PlayerView>,
    pos: Position,
    ty: ChatType,
    text: Seq<u8>,
    name: Seq<char>,
    id: u32,
) -> Option<WorldToPlayerView> {
    match player_with_id(players, id) {
        None => None,
        Some(viewer) => {
            let heard = Some(WorldToPlayerView::Chat(pos, ty, text, name));
            match ty {
                ChatType::Normal => if within(viewer.position, pos, 6, 4) { heard } else { None },
                ChatType::Whisper => if within(viewer.position, pos, 2, 2) {
                    heard
                } else if within(viewer.position, pos, 14, 11) {
                    Some(WorldToPlayerView::Chat(pos, ty, whisper_noise(), name))
                } else {
                    None
                },
                ChatType::Yell => if within(viewer.position, pos, 32, 32) { heard } else { None },
                ChatType::Broadcast => heard,
                ChatType::Look => match player_named(players, name) {
                    Some(sender) => if sender.id == id { heard } else { None },
                    None => None,
                },
                ChatType::Private => None,
            }
        },
    }
}

/// The messages the world sends in reaction to one event, in delivery order.
pub open spec fn spec_deliveries(w: WorldView, msg: PlayerToWorldView) -> Seq<(u32, WorldToPlayerView)> {
    match msg {
        PlayerToWorldView::Login(p) => {
            let all = upsert(w.players, p);
            seq![(p.id, WorldToPlayerView::PlayerList(w.players))] + each_connected(
                insert_id(w.connected, p.id),
                |id: u32| if id != p.id { Some(WorldToPlayerView::PlayerList(all)) } else { None },
            )
        },
        PlayerToWorldView::Logout(p) => {
            let rest = remove_player(w.players, p.id);
            each_connected(
                remove_id(w.connected, p.id),
                |id: u32| Some(WorldToPlayerView::PlayerList(rest)),
            )
        },
        PlayerToWorldView::UpdatePosition(p) => {
            let all = upsert(w.players, p);
            each_connected(
                w.connected,
                |id: u32| match player_with_id(all, id) {
                    Some(viewer) => if within(viewer.position, p.position, 18, 14) {
                        Some(WorldToPlayerView::PlayerList(all))
                    } else {
                        None
                    },
                    None => None,
                },
            )
        },
        PlayerToWorldView::UpdateInfo(p) => {
            let all = upsert(w.players, p);
            each_connected(w.connected, |id: u32| Some(WorldToPlayerView::PlayerList(all)))
        },
        PlayerToWorldView::Chat(pos, ty, text, name, receiver) => if ty == ChatType::Private {
            private_route(w, pos, ty, text, name, receiver)
        } else {
            each_connected(w.connected, |id: u32| chat_decision(w.players, pos, ty, text, name, id))
        },
        PlayerToWorldView::MapUpdate(pos) => each_connected(
            w.connected,
            |id: u32| match player_with_id(w.players, id) {
                Some(viewer) => if within(viewer.position, pos, 14, 11) {
                    Some(WorldToPlayerView::MapUpdate)
                } else {
                    None
                },
                None => None,
            },
        ),
        PlayerToWorldView::ContainerUpdate(pos, cid, items) => each_connected(
            w.connected,
            |id: u32| Some(WorldToPlayerView::ContainerUpdate(pos, cid, items)),
        ),
    }
}

/// The world state after one event.
pub open spec fn spec_next(w: WorldView, msg: PlayerToWorldView) -> WorldView {
    match msg {
        PlayerToWorldView::Login(p) => WorldView {
            players: upsert(w.players, p),
            connected: insert_id(w.connected, p.id),
        },
        PlayerToWorldView::Logout(p) => WorldView {
            players: remove_player(w.players, p.id),
            connected: remove_id(w.connected, p.id),
        },
        PlayerToWorldView::UpdatePosition(p) => WorldView { players: upsert(w.players, p), ..w },
        PlayerToWorldView::UpdateInfo(p) => WorldView { players: upsert(w.players, p), ..w },
        _ => w,
    }
}

/// The views of a list of deliveries.
pub open spec fn deliveries_view(d: Seq<(u32, WorldToPlayer)>) -> Seq<(u32, WorldToPlayerView)> {
    d.map_values(|e: (u32, WorldToPlayer)| (e.0, e.1@))
}

proof fn lemma_upsert_at(s: Seq<PlayerView>, p: PlayerView, i: int)
    requires
        ids_ascending(s),
        0 <= i <= s.len(),
        forall|j: int| 0 <= j < i ==> s[j].id < p.id,
        i < s.len() ==> s[i].id >= p.id,
    ensures
        upsert(s, p) == if i < s.len() && s[i].id == p.id {
            s.update(i, p)
        } else {
            s.insert(i, p)
        },
        ids_ascending(upsert(s, p)),
    decreases i,
{
    if i == 0 {
        if s.len() == 0 {
            assert(s.insert(0, p) =~= seq![p]);
        } else if s[0].id == p.id {
            assert(seq![p] + s.drop_first() =~= s.update(0, p));
        } else {
            assert(seq![p] + s =~= s.insert(0, p));
        }
    } else {
        let t = s.drop_first();
        lemma_upsert_at(t, p, i - 1);
        if i < s.len() && s[i].id == p.id {
            assert(seq![s[0]] + t.update(i - 1, p) =~= s.update(i, p));
        } else {
            assert(seq![s[0]] + t.insert(i - 1, p) =~= s.insert(i, p));
        }
    }
}

proof fn lemma_remove_player_at(s: Seq<PlayerView>, id: u32, i: int)
    requires
        ids_ascending(s),
        0 <= i <= s.len(),
        forall|j: int| 0 <= j < i ==> s[j].id != id,
        i < s.len() ==> s[i].id == id,
        i == s.len() ==> forall|j: int| 0 <= j < s.len() ==> s[j].id != id,
    ensures
        remove_player(s, id) == if i < s.len() { s.remove(i) } else { s },
        ids_ascending(remove_player(s, id)),
    decreases i,
{
    if i == 0 {
        if s.len() > 0 {
            assert(s.drop_first() =~= s.remove(0));
        }
    } else {
        let t = s.drop_first();
        lemma_remove_player_at(t, id, i - 1);
        if i < s.len() {
            assert(seq![s[0]] + t.remove(i - 1) =~= s.remove(i));
        } else {
            assert(seq![s[0]] + t =~= s);
        }
    }
}

proof fn lemma_insert_id_at(s: Seq<u32>, id: u32, i: int)
    requires
        ascending(s),
        0 <= i <= s.len(),
        forall|j: int| 0 <= j < i ==> s[j] < id,
        i < s.len() ==> s[i] >= id,
    ensures
        insert_id(s, id) == if i < s.len() && s[i] == id { s } else { s.insert(i, id) },
        ascending(insert_id(s, id)),
    decreases i,
{
    if i == 0 {
        if s.len() == 0 {
            assert(s.insert(0, id) =~= seq![id]);
        } else if s[0] != id {
            assert(seq![id] + s =~= s.insert(0, id));
        }
    } else {
        let t = s.drop_first();
        lemma_insert_id_at(t, id, i - 1);
        if i < s.len() && s[i] == id {
            assert(seq![s[0]] + t =~= s);
        } else {
            assert(seq![s[0]] + t.insert(i - 1, id) =~= s.insert(i, id));
        }
    }
}

proof fn lemma_remove_id_at(s: Seq<u32>, id: u32, i: int)
    requires
        ascending(s),
        0 <= i <= s.len(),
        forall|j: int| 0 <= j < i ==> s[j] != id,
        i < s.len() ==> s[i] == id,
        i == s.len() ==> forall|j: int| 0 <= j < s.len() ==> s[j] != id,
    ensures
        remove_id(s, id) == if i < s.len() { s.remove(i) } else { s },
        ascending(remove_id(s, id)),
    decreases i,
{
    if i == 0 {
        if s.len() > 0 {
            assert(s.drop_first() =~= s.remove(0));
        }
    } else {
        let t = s.drop_first();
        lemma_remove_id_at(t, id, i - 1);
        if i < s.len() {
            assert(seq![s[0]] + t.remove(i - 1) =~= s.remove(i));
        } else {
            assert(seq![s[0]] + t =~= s);
        }
    }
}

proof fn lemma_each_connected_push(
    conn: Seq<u32>,
    f: spec_fn(u32) -> Option<WorldToPlayerView>,
    i: int,
)
    requires
        0 <= i < conn.len(),
    ensures
        each_connected(conn.take(i + 1), f) == match f(conn[i]) {
            Some(m) => each_connected(conn.take(i), f).push((conn[i], m)),
            None => each_connected(conn.take(i), f),
        },
{
    assert(conn.take(i + 1).drop_last() =~= conn.take(i));
}

/// The online players and the ids of the players whose connection receives messages.
pub struct WorldState {
    players: Vec<Player>,
    connected: Vec<u32>,
}

impl View for WorldState {
    type V = WorldView;

    closed spec fn view(&self) -> WorldView {
        WorldView { players: players_view(self.players@), connected: self.connected@ }
    }
}

impl WorldState {
    /// Players and connected ids are in ascending id order without repeats.
    pub open spec fn wf(&self) -> bool {
        ids_ascending(self@.players) && ascending(self@.connected)
    }

    /// Every world is well formed (see [`WorldState::wf`]).
    #[verifier::type_invariant]
    spec fn inv(&self) -> bool {
        self.wf()
    }

    /// An empty world: nobody online.
    pub fn new() -> (w: Self)
        ensures
            w.wf(),
            w@.players.len() == 0,
            w@.connected.len() == 0,
    {
        let w = WorldState { players: Vec::new(), connected: Vec::new() };
        proof {
            assert(players_view(w.players@) =~= Seq::<PlayerView>::empty());
        }
        w
    }
}

impl WorldState {
    /// Index of the online player with id `id`, if any.
    fn index_of_player(&self, id: u32) -> (r: Option<usize>)
        ensures
            match r {
                Some(i) => i < self@.players.len() && self@.players[i as int].id == id
                    && player_with_id(self@.players, id) == Some(self@.players[i as int]),
                None => player_with_id(self@.players, id) is None,
            },
    {
        proof {
            use_type_invariant(self);
        }
        let ghost v = self@.players;
        let mut i: usize = 0;
        while i < self.players.len()
            invariant
                v == players_view(self.players@),
                i <= v.len(),
                forall|j: int| 0 <= j < i ==> v[j].id != id,
            decreases self.players.len() - i,
        {
            if self.players[i].id == id {
                proof {
                    lemma_first_where_at(v, |p: PlayerView| p.id == id, i as int);
                }
                return Some(i);
            }
            i = i + 1;
        }
        proof {
            lemma_first_where_none(v, |p: PlayerView| p.id == id);
        }
        None
    }

    /// The id of the first online player (in id order) named exactly `name`.
    fn id_named(&self, name: &String) -> (r: Option<u32>)
        ensures
            r == match player_named(self@.players, name@) {
                Some(p) => Some(p.id),
                None => None::<u32>,
            },
    {
        let ghost v = self@.players;
        let mut i: usize = 0;
        while i < self.players.len()
            invariant
                v == players_view(self.players@),
                i <= v.len(),
                forall|j: int| 0 <= j < i ==> v[j].name != name@,
            decreases self.players.len() - i,
        {
            if self.players[i].name == *name {
                proof {
                    lemma_first_where_at(v, |p: PlayerView| p.name == name@, i as int);
                }
                return Some(self.players[i].id);
            }
            i = i + 1;
        }
        proof {
            lemma_first_where_none(v, |p: PlayerView| p.name == name@);
        }
        None
    }

    /// The id of the first online player (in id order) whose name matches `name`
    /// ignoring ASCII case.
    fn id_named_ignore_case(&self, name: &String) -> (r: Option<u32>)
        ensures
            r == match player_named_ignore_case(self@.players, name@) {
                Some(p) => Some(p.id),
                None => None::<u32>,
            },
    {
        let ghost v = self@.players;
        let mut i: usize = 0;
        while i < self.players.len()
            invariant
                v == players_view(self.players@),
                i <= v.len(),
                forall|j: int| 0 <= j < i ==> !spec_eq_ignore_ascii_case(v[j].name, name@),
            decreases self.players.len() - i,
        {
            if eq_ignore_ascii_case(self.players[i].name.as_str(), name.as_str()) {
                proof {
                    lemma_first_where_at(
                        v,
                        |p: PlayerView| spec_eq_ignore_ascii_case(p.name, name@),
                        i as int,
                    );
                }
                return Some(self.players[i].id);
            }
            i = i + 1;
        }
        proof {
            lemma_first_where_none(v, |p: PlayerView| spec_eq_ignore_ascii_case(p.name, name@));
        }
        None
    }

    /// Whether the player with id `id` is connected.
    fn is_connected(&self, id: u32) -> (r: bool)
        ensures
            r == self@.connected.contains(id),
    {
        let mut i: usize = 0;
        while i < self.connected.len()
            invariant
                i <= self.connected@.len(),
                forall|j: int| 0 <= j < i ==> self.connected@[j] != id,
            decreases self.connected.len() - i,
        {
            if self.connected[i] == id {
                return true;
            }
            i = i + 1;
        }
        false
    }

    /// Stores `p` under its id, replacing the player with that id or inserting in order.
    fn upsert_player(&mut self, p: Player)
        ensures
            final(self).wf(),
            final(self)@.players == upsert(old(self)@.players, p@),
            final(self)@.connected == old(self)@.connected,
    {
        proof {
            use_type_invariant(&*self);
        }
        let mut players: Vec<Player> = Vec::new();
        std::mem::swap(&mut players, &mut self.players);
        let ghost v = players_view(players@);
        let ghost pv = p@;
        let mut i: usize = 0;
        while i < players.len() && players[i].id < p.id
            invariant
                v == players_view(players@),
                ids_ascending(v),
                i <= v.len(),
                forall|j: int| 0 <= j < i ==> v[j].id < p.id,
            decreases players.len() - i,
        {
            i = i + 1;
        }
        proof {
            lemma_upsert_at(v, pv, i as int);
        }
        if i < players.len() && players[i].id == p.id {
            players.set(i, p);
            proof {
                assert(players_view(players@) =~= v.update(i as int, pv));
            }
        } else {
            players.insert(i, p);
            proof {
                assert(players_view(players@) =~= v.insert(i as int, pv));
            }
        }
        self.players = players;
    }

    /// Removes the player with id `id`, if online.
    fn remove_player_by_id(&mut self, id: u32)
        ensures
            final(self).wf(),
            final(self)@.players == remove_player(old(self)@.players, id),
            final(self)@.connected == old(self)@.connected,
    {
        proof {
            use_type_invariant(&*self);
        }
        let mut players: Vec<Player> = Vec::new();
        std::mem::swap(&mut players, &mut self.players);
        let ghost v = players_view(players@);
        let mut i: usize = 0;
        while i < players.len() && players[i].id != id
            invariant
                v == players_view(players@),
                ids_ascending(v),
                i <= v.len(),
                forall|j: int| 0 <= j < i ==> v[j].id != id,
            decreases players.len() - i,
        {
            i = i + 1;
        }
        proof {
            lemma_remove_player_at(v, id, i as int);
        }
        if i < players.len() {
            players.remove(i);
            proof {
                assert(players_view(players@) =~= v.remove(i as int));
            }
        }
        self.players = players;
    }

    /// Marks the player with id `id` as connected.
    fn connect(&mut self, id: u32)
        ensures
            final(self).wf(),
            final(self)@.connected == insert_id(old(self)@.connected, id),
            final(self)@.players == old(self)@.players,
    {
        proof {
            use_type_invariant(&*self);
        }
        let mut connected: Vec<u32> = Vec::new();
        std::mem::swap(&mut connected, &mut self.connected);
        let ghost v = connected@;
        let mut i: usize = 0;
        while i < connected.len() && connected[i] < id
            invariant
                v == connected@,
                ascending(v),
                i <= v.len(),
                forall|j: int| 0 <= j < i ==> v[j] < id,
            decreases connected.len() - i,
        {
            i = i + 1;
        }
        proof {
            lemma_insert_id_at(v, id, i as int);
        }
        if !(i < connected.len() && connected[i] == id) {
            connected.insert(i, id);
        }
        self.connected = connected;
    }

    /// Marks the player with id `id` as disconnected.
    fn disconnect(&mut self, id: u32)
        ensures
            final(self).wf(),
            final(self)@.connected == remove_id(old(self)@.connected, id),
            final(self)@.players == old(self)@.players,
    {
        proof {
            use_type_invariant(&*self);
        }
        let mut connected: Vec<u32> = Vec::new();
        std::mem::swap(&mut connected, &mut self.connected);
        let ghost v = connected@;
        let mut i: usize = 0;
        while i < connected.len() && connected[i] != id
            invariant
                v == connected@,
                ascending(v),
                i <= v.len(),
                forall|j: int| 0 <= j < i ==> v[j] != id,
            decreases connected.len() - i,
        {
            i = i + 1;
        }
        proof {
            lemma_remove_id_at(v, id, i as int);
        }
        if i < connected.len() {
            connected.remove(i);
        }
        self.connected = connected;
    }

    /// A copy of the list of online players, in id order.
    fn player_list(&self) -> (r: Vec<Player>)
        ensures
            players_view(r@) == self@.players,
    {
        let r = self.players.clone();
        proof {
            assert(players_view(r@) =~= players_view(self.players@));
        }
        r
    }
}

impl WorldState {
    /// Sends a copy of the current player list to every connected player except `except`.
    #[verifier::loop_isolation(false)]
    fn lists_to_connected(&self, except: Option<u32>) -> (out: Vec<(u32, WorldToPlayer)>)
        ensures
            deliveries_view(out@) == each_connected(
                self@.connected,
                |id: u32| if except != Some(id) {
                    Some(WorldToPlayerView::PlayerList(self@.players))
                } else {
                    None
                },
            ),
    {
        let ghost f = |id: u32| if except != Some(id) {
            Some(WorldToPlayerView::PlayerList(self@.players))
        } else {
            None
        };
        let mut out: Vec<(u32, WorldToPlayer)> = Vec::new();
        let mut i: usize = 0;
        while i < self.connected.len()
            invariant
                i <= self.connected@.len(),
                deliveries_view(out@) == each_connected(self.connected@.take(i as int), f),
            decreases self.connected.len() - i,
        {
            let id = self.connected[i];
            proof {
                lemma_each_connected_push(self.connected@, f, i as int);
            }
            let ghost before = out@;
            if except != Some(id) {
                let list = self.player_list();
                out.push((id, WorldToPlayer::PlayerList(list)));
                proof {
                    assert(deliveries_view(out@) =~= deliveries_view(before).push((id, WorldToPlayerView::PlayerList(self@.players))));
                }
            }
            proof {
                assert(deliveries_view(out@) =~= each_connected(self.connected@.take(i + 1), f));
            }
            i = i + 1;
        }
        proof {
            assert(self.connected@.take(self.connected@.len() as int) =~= self.connected@);
        }
        out
    }

    /// Sends a copy of the current player list to every connected player standing within
    /// `rx` columns and `ry` rows of `pos`.
    #[verifier::loop_isolation(false)]
    fn lists_near(&self, pos: Position, rx: u16, ry: u16) -> (out: Vec<(u32, WorldToPlayer)>)
        ensures
            deliveries_view(out@) == each_connected(
                self@.connected,
                |id: u32| match player_with_id(self@.players, id) {
                    Some(viewer) => if within(viewer.position, pos, rx as int, ry as int) {
                        Some(WorldToPlayerView::PlayerList(self@.players))
                    } else {
                        None
                    },
                    None => None,
                },
            ),
    {
        proof {
            use_type_invariant(self);
        }
        let ghost f = |id: u32| match player_with_id(self@.players, id) {
            Some(viewer) => if within(viewer.position, pos, rx as int, ry as int) {
                Some(WorldToPlayerView::PlayerList(self@.players))
            } else {
                None
            },
            None => None,
        };
        let mut out: Vec<(u32, WorldToPlayer)> = Vec::new();
        let mut i: usize = 0;
        while i < self.connected.len()
            invariant
                self.wf(),
                i <= self.connected@.len(),
                deliveries_view(out@) == each_connected(self.connected@.take(i as int), f),
            decreases self.connected.len() - i,
        {
            let id = self.connected[i];
            proof {
                lemma_each_connected_push(self.connected@, f, i as int);
            }
            match self.index_of_player(id) {
                Some(k) => {
                    let vp = self.players[k].position;
                    if abs_diff(vp.x, pos.x) <= rx && abs_diff(vp.y, pos.y) <= ry {
                        let list = self.player_list();
                        out.push((id, WorldToPlayer::PlayerList(list)));
                    }
                },
                None => {},
            }
            proof {
                assert(deliveries_view(out@) =~= each_connected(self.connected@.take(i + 1), f));
            }
            i = i + 1;
        }
        proof {
            assert(self.connected@.take(self.connected@.len() as int) =~= self.connected@);
        }
        out
    }

    /// Tells every connected player within 14 columns and 11 rows of `pos` that a tile changed.
    #[verifier::loop_isolation(false)]
    fn map_updates_near(&self, pos: Position) -> (out: Vec<(u32, WorldToPlayer)>)
        ensures
            deliveries_view(out@) == each_connected(
                self@.connected,
                |id: u32| match player_with_id(self@.players, id) {
                    Some(viewer) => if within(viewer.position, pos, 14, 11) {
                        Some(WorldToPlayerView::MapUpdate)
                    } else {
                        None
                    },
                    None => None,
                },
            ),
    {
        proof {
            use_type_invariant(self);
        }
        let ghost f = |id: u32| match player_with_id(self@.players, id) {
            Some(viewer) => if within(viewer.position, pos, 14, 11) {
                Some(WorldToPlayerView::MapUpdate)
            } else {
                None
            },
            None => None,
        };
        let mut out: Vec<(u32, WorldToPlayer)> = Vec::new();
        let mut i: usize = 0;
        while i < self.connected.len()
            invariant
                self.wf(),
                i <= self.connected@.len(),
                deliveries_view(out@) == each_connected(self.connected@.take(i as int), f),
            decreases self.connected.len() - i,
        {
            let id = self.connected[i];
            proof {
                lemma_each_connected_push(self.connected@, f, i as int);
            }
            match self.index_of_player(id) {
                Some(k) => {
                    let vp = self.players[k].position;
                    if abs_diff(vp.x, pos.x) <= 14 && abs_diff(vp.y, pos.y) <= 11 {
                        out.push((id, WorldToPlayer::MapUpdate));
                    }
                },
                None => {},
            }
            proof {
                assert(deliveries_view(out@) =~= each_connected(self.connected@.take(i + 1), f));
            }
            i = i + 1;
        }
        proof {
            assert(self.connected@.take(self.connected@.len() as int) =~= self.connected@);
        }
        out
    }

    /// Sends new container contents to every connected player.
    #[verifier::loop_isolation(false)]
    fn container_updates(&self, pos: Position, cid: u16, items: &Vec<u16>) -> (out: Vec<(u32, WorldToPlayer)>)
        ensures
            deliveries_view(out@) == each_connected(
                self@.connected,
                |id: u32| Some(WorldToPlayerView::ContainerUpdate(pos, cid, items@)),
            ),
    {
        let ghost f = |id: u32| Some(WorldToPlayerView::ContainerUpdate(pos, cid, items@));
        let mut out: Vec<(u32, WorldToPlayer)> = Vec::new();
        let mut i: usize = 0;
        while i < self.connected.len()
            invariant
                i <= self.connected@.len(),
                deliveries_view(out@) == each_connected(self.connected@.take(i as int), f),
            decreases self.connected.len() - i,
        {
            let id = self.connected[i];
            proof {
                lemma_each_connected_push(self.connected@, f, i as int);
            }
            let copy = items.clone();
            proof {
                assert(copy@ =~= items@);
            }
            out.push((id, WorldToPlayer::ContainerUpdate(pos, cid, copy)));
            proof {
                assert(deliveries_view(out@) =~= each_connected(self.connected@.take(i + 1), f));
            }
            i = i + 1;
        }
        proof {
            assert(self.connected@.take(self.connected@.len() as int) =~= self.connected@);
        }
        out
    }

    /// Relays a non-private chat message to every connected player who hears it.
    #[verifier::loop_isolation(false)]
    fn chat_to_hearers(&self, pos: Position, ty: ChatType, text: &Vec<u8>, name: &String) -> (out: Vec<(u32, WorldToPlayer)>)
        ensures
            deliveries_view(out@) == each_connected(
                self@.connected,
                |id: u32| chat_decision(self@.players, pos, ty, text@, name@, id),
            ),
    {
        proof {
            use_type_invariant(self);
        }
        let ghost f = |id: u32| chat_decision(self@.players, pos, ty, text@, name@, id);
        let look_sender = self.id_named(name);
        let mut out: Vec<(u32, WorldToPlayer)> = Vec::new();
        let mut i: usize = 0;
        while i < self.connected.len()
            invariant
                self.wf(),
                i <= self.connected@.len(),
                look_sender == match player_named(self@.players, name@) {
                    Some(p) => Some(p.id),
                    None => None::<u32>,
                },
                deliveries_view(out@) == each_connected(self.connected@.take(i as int), f),
            decreases self.connected.len() - i,
        {
            let id = self.connected[i];
            proof {
                lemma_each_connected_push(self.connected@, f, i as int);
            }
            match self.index_of_player(id) {
                Some(k) => {
                    let vp = self.players[k].position;
                    let dx = abs_diff(vp.x, pos.x);
                    let dy = abs_diff(vp.y, pos.y);
                    let hears: bool = match ty {
                        ChatType::Normal => dx <= 6 && dy <= 4,
                        ChatType::Whisper => dx <= 2 && dy <= 2,
                        ChatType::Yell => dx <= 32 && dy <= 32,
                        ChatType::Broadcast => true,
                        ChatType::Look => look_sender == Some(id),
                        ChatType::Private => false,
                    };
                    if hears {
                        out.push((id, WorldToPlayer::Chat(pos, ty, text.clone(), name.clone())));
                        proof {
                            assert(out@.last().1@ == WorldToPlayerView::Chat(pos, ty, text@, name@)) by {
                                assert(out@.last().1 matches WorldToPlayer::Chat(_, _, t, _) && t@ =~= text@);
                            }
                        }
                    } else if ty == ChatType::Whisper && dx <= 14 && dy <= 11 {
                        let noise = translate("pspsps");
                        out.push((id, WorldToPlayer::Chat(pos, ty, noise, name.clone())));
                    }
                },
                None => {},
            }
            proof {
                assert(deliveries_view(out@) =~= each_connected(self.connected@.take(i + 1), f));
            }
            i = i + 1;
        }
        proof {
            assert(self.connected@.take(self.connected@.len() as int) =~= self.connected@);
        }
        out
    }

    /// Routes a private message (see [`private_route`]).
    fn private_chat(
        &self,
        pos: Position,
        ty: ChatType,
        text: Vec<u8>,
        name: String,
        receiver: Option<String>,
    ) -> (out: Vec<(u32, WorldToPlayer)>)
        ensures
            deliveries_view(out@) == private_route(
                self@,
                pos,
                ty,
                text@,
                name@,
                match receiver {
                    Some(r) => Some(r@),
                    None => None,
                },
            ),
    {
        proof {
            use_type_invariant(self);
        }
        let receiver_name = match receiver {
            Some(r) => r,
            None => String::new(),
        };
        let mut out: Vec<(u32, WorldToPlayer)> = Vec::new();
        let sender_id = match self.id_named(&name) {
            Some(id) => id,
            None => {
                proof {
                    assert(deliveries_view(out@) =~= Seq::<(u32, WorldToPlayerView)>::empty());
                }
                return out;
            },
        };
        if !self.is_connected(sender_id) {
            proof {
                assert(deliveries_view(out@) =~= Seq::<(u32, WorldToPlayerView)>::empty());
            }
            return out;
        }
        if eq_ignore_ascii_case(receiver_name.as_str(), name.as_str()) {
            let text = "You cannot send a private message to yourself.".to_owned();
            out.push((sender_id, WorldToPlayer::StatusMessage(text)));
            proof {
                assert(deliveries_view(out@) =~= seq![(sender_id, WorldToPlayerView::StatusMessage(self_message_text()))]);
            }
            return out;
        }
        let target = self.id_named_ignore_case(&receiver_name);
        match target {
            Some(tid) => {
                if self.is_connected(tid) {
                    out.push((tid, WorldToPlayer::Chat(pos, ty, text, name)));
                    proof {
                        assert(deliveries_view(out@) =~= seq![(tid, WorldToPlayerView::Chat(pos, ty, text@, name@))]);
                    }
                    return out;
                }
            },
            None => {},
        }
        let text = "A player with this name is not online.".to_owned();
        out.push((sender_id, WorldToPlayer::StatusMessage(text)));
        proof {
            assert(deliveries_view(out@) =~= seq![(sender_id, WorldToPlayerView::StatusMessage(offline_text()))]);
        }
        out
    }

    /// Handles one event from a player's connection: updates the world and returns the
    /// messages to deliver, each with the id of the player whose connection receives it,
    /// in delivery order.
    pub fn handle(&mut self, msg: PlayerToWorld) -> (out: Vec<(u32, WorldToPlayer)>)
        ensures
            final(self).wf(),
            final(self)@ == spec_next(old(self)@, msg@),
            deliveries_view(out@) == spec_deliveries(old(self)@, msg@),
    {
        proof {
            use_type_invariant(&*self);
        }
        let ghost w = self@;
        let ghost m = msg@;
        match msg {
            PlayerToWorld::Login(player) => {
                let id = player.id;
                let ghost pv = player@;
                let others = self.player_list();
                let mut out: Vec<(u32, WorldToPlayer)> = Vec::new();
                out.push((id, WorldToPlayer::PlayerList(others)));
                self.upsert_player(player);
                self.connect(id);
                let rest = self.lists_to_connected(Some(id));
                proof {
                    let f1 = |i: u32| if Some(id) != Some(i) {
                        Some(WorldToPlayerView::PlayerList(self@.players))
                    } else {
                        None
                    };
                    let f2 = |i: u32| if i != pv.id {
                        Some(WorldToPlayerView::PlayerList(upsert(w.players, pv)))
                    } else {
                        None
                    };
                    assert(f1 =~= f2);
                    assert(deliveries_view(out@) =~= seq![(id, WorldToPlayerView::PlayerList(w.players))]);
                }
                let mut all = out;
                let ghost a0 = all@;
                let mut rest = rest;
                let ghost r0 = rest@;
                all.append(&mut rest);
                proof {
                    assert(deliveries_view(all@) =~= deliveries_view(a0) + deliveries_view(r0));
                }
                all
            },
            PlayerToWorld::Logout(player) => {
                let id = player.id;
                self.remove_player_by_id(id);
                self.disconnect(id);
                let out = self.lists_to_connected(None);
                proof {
                    let f1 = |i: u32| if None::<u32> != Some(i) {
                        Some(WorldToPlayerView::PlayerList(self@.players))
                    } else {
                        None
                    };
                    let f2 = |i: u32| Some(WorldToPlayerView::PlayerList(remove_player(w.players, id)));
                    assert(f1 =~= f2);
                }
                out
            },
            PlayerToWorld::UpdatePosition(player) => {
                let pos = player.position;
                self.upsert_player(player);
                self.lists_near(pos, 18, 14)
            },
            PlayerToWorld::UpdateInfo(player) => {
                self.upsert_player(player);
                let out = self.lists_to_connected(None);
                proof {
                    let f1 = |i: u32| if None::<u32> != Some(i) {
                        Some(WorldToPlayerView::PlayerList(self@.players))
                    } else {
                        None
                    };
                    let f2 = |i: u32| Some(WorldToPlayerView::PlayerList(self@.players));
                    assert(f1 =~= f2);
                }
                out
            },
            PlayerToWorld::Chat(pos, ty, text, name, receiver) => {
                if ty == ChatType::Private {
                    self.private_chat(pos, ty, text, name, receiver)
                } else {
                    self.chat_to_hearers(pos, ty, &text, &name)
                }
            },
            PlayerToWorld::MapUpdate(pos) => self.map_updates_near(pos),
            PlayerToWorld::ContainerUpdate(pos, cid, items) => self.container_updates(pos, cid, &items),
        }
    }
}

/// Every message `each_connected` produces goes to one of the given ids.
proof fn lemma_each_connected_ids(conn: Seq<u32>, f: spec_fn(u32) -> Option<WorldToPlayerView>)
    ensures
        forall|k: int| 0 <= k < each_connected(conn, f).len() ==> conn.contains(#[trigger] each_connected(conn, f)[k].0),
    decreases conn.len(),
{
    if conn.len() > 0 {
        lemma_each_connected_ids(conn.drop_last(), f);
        let rest = each_connected(conn.drop_last(), f);
        assert forall|k: int| 0 <= k < each_connected(conn, f).len() implies conn.contains(#[trigger] each_connected(conn, f)[k].0) by {
            if k < rest.len() {
                let i = choose|i: int| 0 <= i < conn.drop_last().len() && conn.drop_last()[i] == rest[k].0;
                assert(conn[i] == rest[k].0);
            } else {
                assert(conn[conn.len() - 1] == conn.last());
            }
        }
    }
}

/// Inserting an id keeps the ids there and adds it.
proof fn lemma_insert_id_contains(s: Seq<u32>, id: u32, x: u32)
    ensures
        insert_id(s, id).contains(id),
        s.contains(x) ==> insert_id(s, id).contains(x),
    decreases s.len(),
{
    if s.len() == 0 {
        assert(seq![id][0] == id);
    } else {
        lemma_insert_id_contains(s.drop_first(), id, x);
        if s[0] == id {
            assert(insert_id(s, id)[0] == id);
        } else if s[0] > id {
            assert((seq![id] + s)[0] == id);
            if s.contains(x) {
                let i = choose|i: int| 0 <= i < s.len() && s[i] == x;
                assert((seq![id] + s)[i + 1] == x);
            }
        } else {
            let r = insert_id(s.drop_first(), id);
            let i = choose|i: int| 0 <= i < r.len() && r[i] == id;
            assert((seq![s[0]] + r)[i + 1] == id);
            if s.contains(x) {
                let k = choose|k: int| 0 <= k < s.len() && s[k] == x;
                if k == 0 {
                    assert((seq![s[0]] + r)[0] == x);
                } else {
                    assert(s.drop_first()[k - 1] == x);
                    let j = choose|j: int| 0 <= j < r.len() && r[j] == x;
                    assert((seq![s[0]] + r)[j + 1] == x);
                }
            }
        }
    }
}

/// In an ascending id list, removing an id removes it completely and keeps every other.
proof fn lemma_remove_id_contains(s: Seq<u32>, id: u32, x: u32)
    requires
        ascending(s),
    ensures
        !remove_id(s, id).contains(id),
        remove_id(s, id).contains(x) ==> s.contains(x),
    decreases s.len(),
{
    if s.len() > 0 {
        let t = s.drop_first();
        assert(ascending(t)) by {
            assert forall|i: int, j: int| 0 <= i < j < t.len() implies t[i] < t[j] by {
                assert(s[i + 1] < s[j + 1]);
            }
        }
        lemma_remove_id_contains(t, id, x);
        if s[0] == id {
            if t.contains(id) {
                let i = choose|i: int| 0 <= i < t.len() && t[i] == id;
                assert(s[0] < s[i + 1]);
            }
            if t.contains(x) {
                let i = choose|i: int| 0 <= i < t.len() && t[i] == x;
                assert(s[i + 1] == x);
            }
        } else {
            let r = remove_id(t, id);
            if (seq![s[0]] + r).contains(id) {
                let i = choose|i: int| 0 <= i < (seq![s[0]] + r).len() && (seq![s[0]] + r)[i] == id;
                if i > 0 {
                    assert(r[i - 1] == id);
                }
            }
            if (seq![s[0]] + r).contains(x) {
                let i = choose|i: int| 0 <= i < (seq![s[0]] + r).len() && (seq![s[0]] + r)[i] == x;
                if i == 0 {
                    assert(s[0] == x);
                } else {
                    assert(r[i - 1] == x);
                    let k = choose|k: int| 0 <= k < t.len() && t[k] == x;
                    assert(s[k + 1] == x);
                }
            }
        }
    }
}

/// In an id-ordered player list, removing a player's id leaves no player with that id.
proof fn lemma_remove_player_gone(s: Seq<PlayerView>, id: u32)
    requires
        ids_ascending(s),
    ensures
        forall|i: int| 0 <= i < remove_player(s, id).len() ==> (#[trigger] remove_player(s, id)[i]).id != id,
    decreases s.len(),
{
    if s.len() > 0 {
        let t = s.drop_first();
        assert(ids_ascending(t)) by {
            assert forall|i: int, j: int| 0 <= i < j < t.len() implies t[i].id < t[j].id by {
                assert(s[i + 1].id < s[j + 1].id);
            }
        }
        lemma_remove_player_gone(t, id);
        if s[0].id == id {
            assert forall|i: int| 0 <= i < t.len() implies (#[trigger] t[i]).id != id by {
                assert(s[0].id < s[i + 1].id);
            }
        } else {
            let r = remove_player(t, id);
            assert forall|i: int| 0 <= i < (seq![s[0]] + r).len() implies (#[trigger] (seq![s[0]] + r)[i]).id != id by {
                if i > 0 {
                    assert((seq![s[0]] + r)[i] == r[i - 1]);
                }
            }
        }
    }
}

/// Every message the world sends for an event goes to a player who is connected once
/// the event is handled.
pub proof fn lemma_deliveries_to_connected(w: WorldView, msg: PlayerToWorldView)
    requires
        ids_ascending(w.players),
        ascending(w.connected),
    ensures
        forall|k: int| 0 <= k < spec_deliveries(w, msg).len() ==> spec_next(w, msg).connected.contains(
            #[trigger] spec_deliveries(w, msg)[k].0,
        ),
{
    let d = spec_deliveries(w, msg);
    let next = spec_next(w, msg).connected;
    match msg {
        PlayerToWorldView::Login(p) => {
            let all = upsert(w.players, p);
            let f = |id: u32| if id != p.id { Some(WorldToPlayerView::PlayerList(all)) } else { None };
            let conn = insert_id(w.connected, p.id);
            lemma_each_connected_ids(conn, f);
            lemma_insert_id_contains(w.connected, p.id, p.id);
            let e = each_connected(conn, f);
            assert forall|k: int| 0 <= k < d.len() implies next.contains(#[trigger] d[k].0) by {
                if k == 0 {
                    assert(d[0].0 == p.id);
                } else {
                    assert(d[k] == e[k - 1]);
                }
            }
        },
        PlayerToWorldView::Logout(p) => {
            let rest = remove_player(w.players, p.id);
            lemma_each_connected_ids(remove_id(w.connected, p.id), |id: u32| Some(WorldToPlayerView::PlayerList(rest)));
        },
        PlayerToWorldView::UpdatePosition(p) => {
            let all = upsert(w.players, p);
            lemma_each_connected_ids(
                w.connected,
                |id: u32| match player_with_id(all, id) {
                    Some(viewer) => if within(viewer.position, p.position, 18, 14) {
                        Some(WorldToPlayerView::PlayerList(all))
                    } else {
                        None
                    },
                    None => None,
                },
            );
        },
        PlayerToWorldView::UpdateInfo(p) => {
            let all = upsert(w.players, p);
            lemma_each_connected_ids(w.connected, |id: u32| Some(WorldToPlayerView::PlayerList(all)));
        },
        PlayerToWorldView::Chat(pos, ty, text, name, receiver) => {
            if ty != ChatType::Private {
                lemma_each_connected_ids(w.connected, |id: u32| chat_decision(w.players, pos, ty, text, name, id));
            }
        },
        PlayerToWorldView::MapUpdate(pos) => {
            lemma_each_connected_ids(
                w.connected,
                |id: u32| match player_with_id(w.players, id) {
                    Some(viewer) => if within(viewer.position, pos, 14, 11) {
                        Some(WorldToPlayerView::MapUpdate)
                    } else {
                        None
                    },
                    None => None,
                },
            );
        },
        PlayerToWorldView::ContainerUpdate(pos, cid, items) => {
            lemma_each_connected_ids(w.connected, |id: u32| Some(WorldToPlayerView::ContainerUpdate(pos, cid, items)));
        },
    }
}

/// After a logout the player is neither online nor connected, and no message of the
/// logout goes to them.
pub proof fn lemma_logout_forgets(w: WorldView, p: PlayerView)
    requires
        ids_ascending(w.players),
        ascending(w.connected),
    ensures
        !spec_next(w, PlayerToWorldView::Logout(p)).connected.contains(p.id),
        player_with_id(spec_next(w, PlayerToWorldView::Logout(p)).players, p.id) is None,
        forall|k: int| 0 <= k < spec_deliveries(w, PlayerToWorldView::Logout(p)).len()
            ==> (#[trigger] spec_deliveries(w, PlayerToWorldView::Logout(p))[k]).0 != p.id,
{
    lemma_remove_id_contains(w.connected, p.id, p.id);
    lemma_remove_player_gone(w.players, p.id);
    lemma_first_where_none(remove_player(w.players, p.id), |q: PlayerView| q.id == p.id);
    lemma_deliveries_to_connected(w, PlayerToWorldView::Logout(p));
}

/// A private message reaches nobody but its receiver: at most one message goes out; a
/// chat message goes only to the first online player whose name matches the receiver
/// (ignoring ASCII case), and never to the sender; anything else is a status message
/// to the sender.
pub proof fn lemma_private_only_to_receiver(
    w: WorldView,
    pos: Position,
    text: Seq<u8>,
    name: Seq<char>,
    receiver: Option<Seq<char>>,
)
    requires
        ids_ascending(w.players),
    ensures
        ({
            let d = spec_deliveries(w, PlayerToWorldView::Chat(pos, ChatType::Private, text, name, receiver));
            let rname = match receiver {
                Some(r) => r,
                None => Seq::empty(),
            };
            &&& d.len() <= 1
            &&& forall|k: int| 0 <= k < d.len() ==> match (#[trigger] d[k]).1 {
                WorldToPlayerView::Chat(_, _, _, _) => {
                    &&& player_named_ignore_case(w.players, rname) matches Some(t)
                    &&& t.id == d[k].0
                    &&& player_named(w.players, name) matches Some(s)
                    &&& s.id != t.id
                },
                WorldToPlayerView::StatusMessage(_) => player_named(w.players, name) matches Some(s) && s.id == d[k].0,
                _ => false,
            }
        }),
{
    let rname = match receiver {
        Some(r) => r,
        None => Seq::empty(),
    };
    let sp = |q: PlayerView| q.name == name;
    let tp = |q: PlayerView| spec_eq_ignore_ascii_case(q.name, rname);
    if player_named(w.players, name) is Some && player_named_ignore_case(w.players, rname) is Some {
        let s = player_named(w.players, name)->0;
        let t = player_named_ignore_case(w.players, rname)->0;
        crate::util::lemma_first_where_satisfies(w.players, sp);
        crate::util::lemma_first_where_satisfies(w.players, tp);
        if s.id == t.id && !spec_eq_ignore_ascii_case(rname, name) {
            let i = choose|i: int| 0 <= i < w.players.len() && w.players[i] == s;
            let j = choose|j: int| 0 <= j < w.players.len() && w.players[j] == t;
            if i < j {
                assert(w.players[i].id < w.players[j].id);
            } else if j < i {
                assert(w.players[j].id < w.players[i].id);
            }
            assert(s == t);
            assert(spec_eq_ignore_ascii_case(rname, name));
        }
    }
}

/// `each_connected` hands every connected id its message, when there is one.
proof fn lemma_each_connected_reaches(conn: Seq<u32>, f: spec_fn(u32) -> Option<WorldToPlayerView>, id: u32)
    requires
        conn.contains(id),
        f(id) is Some,
    ensures
        each_connected(conn, f).contains((id, f(id)->0)),
    decreases conn.len(),
{
    let rest = each_connected(conn.drop_last(), f);
    if conn.last() == id {
        assert(each_connected(conn, f) == rest.push((id, f(id)->0)));
        assert(each_connected(conn, f)[rest.len() as int] == (id, f(id)->0));
    } else {
        let i = choose|i: int| 0 <= i < conn.len() && conn[i] == id;
        assert(conn.drop_last()[i] == id);
        lemma_each_connected_reaches(conn.drop_last(), f, id);
        let k = choose|k: int| 0 <= k < rest.len() && rest[k] == (id, f(id)->0);
        match f(conn.last()) {
            Some(m) => assert(each_connected(conn, f)[k] == rest[k]),
            None => {},
        }
    }
}

/// A broadcast reaches every connected player who is in the player list, wherever they
/// stand and wherever it was said.
pub proof fn lemma_broadcast_reaches_everyone(
    w: WorldView,
    pos: Position,
    text: Seq<u8>,
    name: Seq<char>,
    receiver: Option<Seq<char>>,
    id: u32,
    k: int,
)
    requires
        w.connected.contains(id),
        0 <= k < w.players.len(),
        w.players[k].id == id,
    ensures
        spec_deliveries(w, PlayerToWorldView::Chat(pos, ChatType::Broadcast, text, name, receiver)).contains(
            (id, WorldToPlayerView::Chat(pos, ChatType::Broadcast, text, name)),
        ),
{
    let f = |x: u32| chat_decision(w.players, pos, ChatType::Broadcast, text, name, x);
    assert(player_with_id(w.players, id) is Some) by {
        crate::util::lemma_first_where_some(w.players, |p: PlayerView| p.id == id, k);
    }
    lemma_each_connected_reaches(w.connected, f, id);
}

} // verus!
