//! The registry of connected players and the rules by which client events
//! change it: the authoritative state of the single game instance, apart
//! from the cursor bodies, whose positions are floating-point values and
//! are simulated outside this library.
use std::collections::HashMap;
use vstd::prelude::*;
use vstd::std_specs::iter::IteratorSpec;

verus! {

broadcast use vstd::std_specs::hash::group_hash_axioms;

/// What the server keeps of one player.
#[derive(Clone, Copy, Debug, PartialEq, Eq, Structural)]
pub struct Player {
    /// The player's id (the value of its UUID).
    pub id: u128,
    /// Whether the player's client announced that it receives datagrams.
    pub supports_datagrams: bool,
    /// The sequence number of the last pointer move that was accepted.
    pub last_sequence: u64,
}

/// A client event, with what the server's rules read of it.
#[derive(Clone, Copy, Debug, PartialEq, Eq, Structural)]
pub enum ClientEvent {
    /// The client tells whether it receives datagrams.
    TransportCapabilities { datagrams: bool },
    /// The pointer moved. `position_finite` tells whether both coordinates
    /// of the new position are finite numbers, which is what lets the
    /// position be clamped into the world and become the cursor's target.
    PointerMove { sequence: u64, position_finite: bool },
    /// A pointer button changed state.
    PointerButton { button: u16, pressed: bool, sequence: u64 },
}

/// How a state snapshot reaches a player.
#[derive(Clone, Copy, Debug, PartialEq, Eq, Structural)]
pub enum Delivery {
    /// As an unreliable datagram.
    Datagram,
    /// On a reliable unidirectional stream.
    ReliableStream,
}

/// The mathematical model of the server state.
pub struct SharedStateView {
    /// The connected players, by id.
    pub players: Map<u128, Player>,
    /// The number of simulation steps taken.
    pub tick: u64,
}

/// The authoritative state of the game instance: the connected players and
/// the simulation tick.
pub struct SharedState {
    players: HashMap<u128, Player>,
    tick: u64,
}

/// The record of a player who just joined.
pub open spec fn fresh_player(id: u128) -> Player {
    Player { id, supports_datagrams: false, last_sequence: 0 }
}

/// Every player is filed under its own id.
pub open spec fn players_keyed_by_id(players: Map<u128, Player>) -> bool {
    forall|id: u128| #[trigger] players.contains_key(id) ==> players[id].id == id
}

/// The delivery that a player's snapshot takes.
pub open spec fn delivery_for(player: Player) -> Delivery {
    if player.supports_datagrams {
        Delivery::Datagram
    } else {
        Delivery::ReliableStream
    }
}

/// `ids` names every connected player exactly once.
pub open spec fn lists_each_player_once(ids: Seq<u128>, players: Map<u128, Player>) -> bool {
    &&& ids.no_duplicates()
    &&& ids.to_set() == players.dom()
}

/// The players after `event` from player `id`: an event from an unknown
/// player changes nothing; a capability announcement records whether the
/// player receives datagrams; a pointer move whose sequence number is not
/// below the last accepted one and whose position is finite is accepted and
/// its sequence number recorded; everything else changes nothing.
pub open spec fn players_after_event(players: Map<u128, Player>, id: u128, event: ClientEvent) -> Map<
    u128,
    Player,
> {
    if !players.contains_key(id) {
        players
    } else {
        let p = players[id];
        match event {
            ClientEvent::TransportCapabilities { datagrams } => players.insert(
                id,
                Player { supports_datagrams: datagrams, ..p },
            ),
            ClientEvent::PointerMove { sequence, position_finite } => if accepts_pointer_move(
                p,
                sequence,
                position_finite,
            ) {
                players.insert(id, Player { last_sequence: sequence, ..p })
            } else {
                players
            },
            ClientEvent::PointerButton { .. } => players,
        }
    }
}

/// Whether a pointer move becomes the player's new cursor target.
pub open spec fn accepts_pointer_move(player: Player, sequence: u64, position_finite: bool) -> bool {
    sequence >= player.last_sequence && position_finite
}

/// Whether `event` from player `id` gives the player's cursor a new target.
pub open spec fn event_retargets(players: Map<u128, Player>, id: u128, event: ClientEvent) -> bool {
    &&& players.contains_key(id)
    &&& event matches ClientEvent::PointerMove { sequence, position_finite }
    &&& accepts_pointer_move(players[id], sequence, position_finite)
}

impl View for SharedState {
    type V = SharedStateView;

    closed spec fn view(&self) -> SharedStateView {
        SharedStateView { players: self.players@, tick: self.tick }
    }
}

impl SharedState {
    #[verifier::type_invariant]
    closed spec fn well_formed(self) -> bool {
        players_keyed_by_id(self.players@)
    }

    /// A state with no players, at tick 0.
    pub fn new() -> (state: Self)
        ensures
            state@.players == Map::<u128, Player>::empty(),
            state@.tick == 0,
    {
        SharedState { players: HashMap::new(), tick: 0 }
    }

    /// Moves the player map out, leaving an empty one in its place.
    fn take_players(&mut self) -> (players: HashMap<u128, Player>)
        ensures
            players@ == old(self)@.players,
            final(self)@.players == Map::<u128, Player>::empty(),
            final(self)@.tick == old(self)@.tick,
            players_keyed_by_id(players@),
    {
        proof {
            use_type_invariant(&*self);
        }
        let mut players = HashMap::new();
        std::mem::swap(&mut players, &mut self.players);
        players
    }

    /// Registers a player who just connected, replacing any record under the
    /// same id, and returns the players to be told that it joined: all of
    /// them, the new one included.
    pub fn add_player(&mut self, id: u128) -> (recipients: Vec<u128>)
        ensures
            final(self)@.players == old(self)@.players.insert(id, fresh_player(id)),
            final(self)@.players[id].id == id,
            !final(self)@.players[id].supports_datagrams,
            final(self)@.players[id].last_sequence == 0,
            final(self)@.tick == old(self)@.tick,
            lists_each_player_once(recipients@, final(self)@.players),
    {
        proof {
            use_type_invariant(&*self);
        }
        let mut players = self.take_players();
        players.insert(id, Player { id, supports_datagrams: false, last_sequence: 0 });
        self.players = players;
        self.player_ids()
    }

    /// Forgets a player who disconnected and returns the players to be told
    /// that it left: all who remain.
    pub fn remove_player(&mut self, id: u128) -> (recipients: Vec<u128>)
        ensures
            final(self)@.players == old(self)@.players.remove(id),
            final(self)@.tick == old(self)@.tick,
            lists_each_player_once(recipients@, final(self)@.players),
    {
        proof {
            use_type_invariant(&*self);
        }
        let mut players = self.take_players();
        players.remove(&id);
        self.players = players;
        self.player_ids()
    }

    /// Applies an event that player `id` sent, and tells whether the player's
    /// cursor takes the event's position as its new target.
    pub fn apply_event(&mut self, id: u128, event: ClientEvent) -> (retarget: bool)
        ensures
            final(self)@.players == players_after_event(old(self)@.players, id, event),
            final(self)@.tick == old(self)@.tick,
            retarget == event_retargets(old(self)@.players, id, event),
    {
        proof {
            use_type_invariant(&*self);
        }
        let player = match self.players.get(&id) {
            Some(p) => *p,
            None => return false,
        };
        match event {
            ClientEvent::TransportCapabilities { datagrams } => {
                let mut players = self.take_players();
                players.insert(id, Player { supports_datagrams: datagrams, ..player });
                self.players = players;
                false
            },
            ClientEvent::PointerMove { sequence, position_finite } => {
                if sequence >= player.last_sequence && position_finite {
                    let mut players = self.take_players();
                    players.insert(id, Player { last_sequence: sequence, ..player });
                    self.players = players;
                    true
                } else {
                    false
                }
            },
            ClientEvent::PointerButton { .. } => false,
        }
    }

    /// Takes one simulation step and returns the new tick.
    pub fn advance_tick(&mut self) -> (tick: u64)
        requires
            old(self)@.tick < u64::MAX,
        ensures
            final(self)@.tick == old(self)@.tick + 1,
            final(self)@.players == old(self)@.players,
            tick == final(self)@.tick,
    {
        proof {
            use_type_invariant(&*self);
        }
        self.tick = self.tick + 1;
        self.tick
    }

    /// How the next state snapshot reaches each player: one entry per
    /// player, a datagram for those whose clients receive datagrams and a
    /// reliable stream for the others.
    pub fn snapshot_deliveries(&self) -> (deliveries: Vec<(u128, Delivery)>)
        ensures
            lists_each_player_once(deliveries@.map_values(|d: (u128, Delivery)| d.0), self@.players),
            forall|i: int|
                0 <= i < deliveries@.len() ==> #[trigger] deliveries@[i].1 == delivery_for(
                    self@.players[deliveries@[i].0],
                ),
            forall|i: int|
                0 <= i < deliveries@.len() ==> (#[trigger] deliveries@[i].1 == Delivery::Datagram
                    <==> self@.players[deliveries@[i].0].supports_datagrams),
    {
        let ids = self.player_ids();
        let mut deliveries: Vec<(u128, Delivery)> = Vec::new();
        for k in 0..ids.len()
            invariant
                lists_each_player_once(ids@, self@.players),
                deliveries@.len() == k,
                forall|i: int| 0 <= i < k ==> #[trigger] deliveries@[i].0 == ids@[i],
                forall|i: int|
                    0 <= i < deliveries@.len() ==> #[trigger] deliveries@[i].1 == delivery_for(
                        self@.players[deliveries@[i].0],
                    ),
        {
            let id: u128 = ids[k];
            assert(ids@.to_set().contains(id));
            let player = match self.players.get(&id) {
                Some(p) => *p,
                None => {
                    assert(false);
                    return deliveries;
                },
            };
            let delivery = if player.supports_datagrams {
                Delivery::Datagram
            } else {
                Delivery::ReliableStream
            };
            deliveries.push((id, delivery));
        }
        assert(deliveries@.map_values(|d: (u128, Delivery)| d.0) =~= ids@);
        deliveries
    }

    /// The record of player `id`, if it is connected.
    pub fn player(&self, id: u128) -> (player: Option<Player>)
        ensures
            player == (if self@.players.contains_key(id) {
                Some(self@.players[id])
            } else {
                None
            }),
            player matches Some(p) ==> p.id == id,
    {
        proof {
            use_type_invariant(self);
        }
        match self.players.get(&id) {
            Some(p) => Some(*p),
            None => None,
        }
    }

    /// The number of connected players.
    pub fn player_count(&self) -> (count: usize)
        ensures
            count == self@.players.len(),
    {
        self.players.len()
    }

    /// The number of simulation steps taken.
    pub fn tick(&self) -> (tick: u64)
        ensures
            tick == self@.tick,
    {
        self.tick
    }

    /// The ids of the connected players, each once, in the map's order.
    pub fn player_ids(&self) -> (ids: Vec<u128>)
        ensures
            lists_each_player_once(ids@, self@.players),
    {
        let mut ids: Vec<u128> = Vec::new();
        let ghost keys = self.players.keys().remaining();
        for id in it: self.players.keys()
            invariant
                it.seq() == keys,
                ids@ == keys.unref().take(it.index()),
        {
            ids.push(*id);
        }
        assert(ids@ =~= keys.unref());
        ids
    }
}

impl Default for SharedState {
    /// A state with no players, at tick 0.
    fn default() -> (state: Self)
        ensures
            state@.players == Map::<u128, Player>::empty(),
            state@.tick == 0,
    {
        SharedState::new()
    }
}

/// A player who joins and leaves again leaves the registry as it found it:
/// removing a player undoes adding it, when the id was not connected before.
pub proof fn lemma_remove_undoes_add(players: Map<u128, Player>, id: u128)
    requires
        !players.contains_key(id),
    ensures
        players.insert(id, fresh_player(id)).remove(id) == players,
{
    assert(players.insert(id, fresh_player(id)).remove(id) =~= players);
}

/// Client events never connect or disconnect anyone, never change a
/// player's id, and never lower the sequence number a player's pointer
/// moves are held to.
pub proof fn lemma_event_keeps_players(players: Map<u128, Player>, id: u128, event: ClientEvent)
    requires
        players_keyed_by_id(players),
    ensures
        players_after_event(players, id, event).dom() == players.dom(),
        players_keyed_by_id(players_after_event(players, id, event)),
        forall|other: u128|
            #[trigger] players.contains_key(other) ==> players_after_event(
                players,
                id,
                event,
            )[other].last_sequence >= players[other].last_sequence,
{
    let after = players_after_event(players, id, event);
    assert(after.dom() =~= players.dom());
}

/// Events from a player who is not connected are ignored.
pub proof fn lemma_unknown_player_ignored(players: Map<u128, Player>, id: u128, event: ClientEvent)
    requires
        !players.contains_key(id),
    ensures
        players_after_event(players, id, event) == players,
        !event_retargets(players, id, event),
{
}

/// A pointer move that arrives after a later one was accepted (a lower
/// sequence number) never moves the cursor; a move that retargets the
/// cursor becomes the sequence number later moves are held to.
pub proof fn lemma_stale_pointer_moves_dropped(
    players: Map<u128, Player>,
    id: u128,
    sequence: u64,
    position_finite: bool,
)
    requires
        players.contains_key(id),
    ensures
        sequence < players[id].last_sequence ==> {
            let event = ClientEvent::PointerMove { sequence, position_finite };
            &&& !event_retargets(players, id, event)
            &&& players_after_event(players, id, event) == players
        },
        event_retargets(players, id, ClientEvent::PointerMove { sequence, position_finite })
            ==> players_after_event(
            players,
            id,
            ClientEvent::PointerMove { sequence, position_finite },
        )[id].last_sequence == sequence,
{
}

/// A snapshot goes by datagram exactly to the players whose clients
/// announced datagram support, and by reliable stream exactly to the others,
/// whatever else their records hold.
pub proof fn lemma_delivery_follows_datagram_support(player: Player)
    ensures
        (delivery_for(player) == Delivery::Datagram) == player.supports_datagrams,
        (delivery_for(player) == Delivery::ReliableStream) == !player.supports_datagrams,
{
}

/// A player who just joined, under any id, has the record
/// `{ id, supports_datagrams: false, last_sequence: 0 }`, and its first
/// pointer move with a finite position is accepted whatever its sequence
/// number.
pub proof fn lemma_joined_player_is_fresh(players: Map<u128, Player>, id: u128, sequence: u64)
    ensures
        players.insert(id, fresh_player(id))[id].id == id,
        !players.insert(id, fresh_player(id))[id].supports_datagrams,
        players.insert(id, fresh_player(id))[id].last_sequence == 0,
        event_retargets(
            players.insert(id, fresh_player(id)),
            id,
            ClientEvent::PointerMove { sequence, position_finite: true },
        ),
{
}

/// Only a capability announcement touches datagram support: after any
/// other event every player's `supports_datagrams` is what it was, and
/// every player other than the sender is left as it was.
pub proof fn lemma_only_announcements_change_datagram_support(
    players: Map<u128, Player>,
    id: u128,
    event: ClientEvent,
)
    ensures
        forall|other: u128|
            #[trigger] players.contains_key(other) ==> {
                &&& players_after_event(players, id, event)[other].id == players[other].id
                &&& (!(event is TransportCapabilities) ==> players_after_event(
                    players,
                    id,
                    event,
                )[other].supports_datagrams == players[other].supports_datagrams)
                &&& (other != id ==> players_after_event(players, id, event)[other]
                    == players[other])
            },
{
}

/// A capability announcement from a connected player records exactly what
/// it announces, whatever the player's record held before, and leaves the
/// player's sequence number as it was.
pub proof fn lemma_announcement_sets_datagram_support(
    players: Map<u128, Player>,
    id: u128,
    datagrams: bool,
)
    requires
        players.contains_key(id),
    ensures
        players_after_event(players, id, ClientEvent::TransportCapabilities { datagrams })[id].supports_datagrams
            == datagrams,
        players_after_event(players, id, ClientEvent::TransportCapabilities { datagrams })[id].last_sequence
            == players[id].last_sequence,
        players_after_event(players, id, ClientEvent::TransportCapabilities { datagrams })[id].id
            == players[id].id,
{
}

/// A pointer move is accepted exactly when its position is finite and its
/// sequence number is at least the last accepted one (a repeated sequence
/// number is accepted again); a move with a position that is not finite is
/// never accepted and changes nothing.
pub proof fn lemma_pointer_move_acceptance(
    players: Map<u128, Player>,
    id: u128,
    sequence: u64,
    position_finite: bool,
)
    requires
        players.contains_key(id),
    ensures
        event_retargets(players, id, ClientEvent::PointerMove { sequence, position_finite })
            <==> (position_finite && sequence >= players[id].last_sequence),
        !position_finite ==> players_after_event(
            players,
            id,
            ClientEvent::PointerMove { sequence, position_finite },
        ) == players,
{
}

/// Button events and capability announcements never move a cursor, and
/// button events change nothing at all; only an accepted pointer move
/// changes a sequence number.
pub proof fn lemma_only_accepted_moves_change_sequence(
    players: Map<u128, Player>,
    id: u128,
    event: ClientEvent,
)
    ensures
        !(event is PointerMove) ==> !event_retargets(players, id, event),
        event is PointerButton ==> players_after_event(players, id, event) == players,
        forall|other: u128|
            #[trigger] players.contains_key(other) && !event_retargets(players, id, event)
                ==> players_after_event(players, id, event)[other].last_sequence
                == players[other].last_sequence,
{
}

/// An accepted pointer move changes nothing in the mover's record but its
/// sequence number.
pub proof fn lemma_accepted_move_only_records_sequence(
    players: Map<u128, Player>,
    id: u128,
    sequence: u64,
)
    requires
        event_retargets(players, id, ClientEvent::PointerMove { sequence, position_finite: true }),
    ensures
        players_after_event(players, id, ClientEvent::PointerMove { sequence, position_finite: true })[id]
            == (Player { last_sequence: sequence, ..players[id] }),
{
}

} // verus!
