//! The server's side of the game: the data it keeps per connected player, how
//! it takes in the frames a client sent, and how it validates movements.

use crate::client::{answers_expected, reconciliation_of, to_send, Reconciliation};
use crate::common::{Action, ActionState, Frame, BUFFER_CAPACITY};
use crate::player::DEFAULT_SPEED_BITS;
use crate::ring::{pushed, ActionBuffer};
use std::collections::HashMap;
use vstd::prelude::*;
use vstd::std_specs::iter::IteratorSpec;

verus! {

broadcast use vstd::std_specs::hash::group_hash_axioms;

/// The items of a buffer of capacity `cap` holding `items`, after pushing the
/// actions of `s` one by one.
pub open spec fn push_all(items: Seq<Action>, cap: nat, s: Seq<Action>) -> Seq<Action>
    decreases s.len(),
{
    if s.len() == 0 {
        items
    } else {
        pushed(push_all(items, cap, s.drop_last()), cap, s.last())
    }
}

/// The last `cap` items of `s` (all of them when there are fewer).
pub open spec fn latest(s: Seq<Action>, cap: nat) -> Seq<Action> {
    if s.len() <= cap {
        s
    } else {
        s.skip(s.len() - cap)
    }
}

/// The actions carried by the frames that could be decoded, in order.
pub open spec fn decoded_actions(frames: Seq<Option<Frame>>) -> Seq<Action>
    decreases frames.len(),
{
    if frames.len() == 0 {
        Seq::empty()
    } else {
        decoded_actions(frames.drop_last()) + match frames.last() {
            Some(f) => f.messages@,
            None => Seq::empty(),
        }
    }
}

/// Whether the server accepts a movement: it has some input and the client
/// sent it.
pub open spec fn accepted(a: Action) -> bool {
    match a {
        Action::Movement(m) => !(m.input.0 == 0 && m.input.1 == 0) && m.state
            == ActionState::SentByClient,
    }
}

/// An accepted action, as it is sent back: in state `ValidatedByServer`.
pub open spec fn validated_copy(a: Action) -> Option<Action> {
    if accepted(a) {
        Some(a.with_state(ActionState::ValidatedByServer))
    } else {
        None
    }
}

/// An action after validation: accepted ones are marked as validated, the
/// others stay as they are.
pub open spec fn mark_validated(a: Action) -> Action {
    if accepted(a) {
        a.with_state(ActionState::ValidatedByServer)
    } else {
        a
    }
}

/// The actions a validation of `s` sends back, in order.
pub open spec fn to_validate(s: Seq<Action>) -> Seq<Action> {
    s.filter_map(|a: Action| validated_copy(a))
}

/// `s` after a validation.
pub open spec fn after_validate(s: Seq<Action>) -> Seq<Action> {
    s.map_values(|a: Action| mark_validated(a))
}

/// The actions of all decoded frames, in order; frames that could not be
/// decoded are skipped.
pub fn frame_actions(frames: &Vec<Option<Frame>>) -> (actions: Vec<Action>)
    ensures
        actions@ == decoded_actions(frames@),
{
    let mut actions: Vec<Action> = Vec::new();
    let n = frames.len();
    let mut i: usize = 0;
    while i < n
        invariant
            n == frames@.len(),
            i <= n,
            actions@ == decoded_actions(frames@.take(i as int)),
        decreases n - i,
    {
        assert(frames@.take(i + 1).drop_last() =~= frames@.take(i as int));
        match &frames[i] {
            Some(f) => {
                let ghost before = actions@;
                let m = f.messages.len();
                let mut j: usize = 0;
                while j < m
                    invariant
                        m == f.messages@.len(),
                        j <= m,
                        actions@ == before + f.messages@.take(j as int),
                    decreases m - j,
                {
                    actions.push(f.messages[j]);
                    j = j + 1;
                    assert(actions@ =~= before + f.messages@.take(j as int));
                }
                assert(f.messages@.take(m as int) =~= f.messages@);
            },
            None => {
                assert(actions@ =~= actions@ + Seq::<Action>::empty());
            },
        }
        i = i + 1;
    }
    assert(frames@.take(n as int) =~= frames@);
    actions
}

/// What the server keeps of a connected player: its speed, the handle of the
/// object that stands for it in the game world, and its latest actions.
pub struct ServerSidePlayerData<P> {
    /// Bits of the `f32` speed.
    pub speed_bits: u32,
    pub player: P,
    pub messages: ActionBuffer,
}

impl<P> ServerSidePlayerData<P> {
    /// Well formed: the message buffer is well formed, with the shared capacity.
    pub open spec fn wf(&self) -> bool {
        &&& self.messages.wf()
        &&& self.messages.capacity() == BUFFER_CAPACITY
    }

    /// The data of a newly connected player, whose game object is `character`.
    pub fn new(character: P) -> (d: Self)
        ensures
            d.wf(),
            d.speed_bits == DEFAULT_SPEED_BITS,
            d.player == character,
            d.messages@ == Seq::<Action>::empty(),
    {
        ServerSidePlayerData {
            speed_bits: DEFAULT_SPEED_BITS,
            player: character,
            messages: ActionBuffer::new(BUFFER_CAPACITY),
        }
    }

    /// Appends the given actions, in order, to the player's messages; the
    /// buffer keeps only the most recent ones.
    pub fn receive(&mut self, actions: &Vec<Action>)
        requires
            old(self).wf(),
        ensures
            final(self).wf(),
            final(self).messages@ == push_all(
                old(self).messages@,
                BUFFER_CAPACITY as nat,
                actions@,
            ),
            final(self).speed_bits == old(self).speed_bits,
            final(self).player == old(self).player,
    {
        let n = actions.len();
        let mut i: usize = 0;
        while i < n
            invariant
                self.wf(),
                n == actions@.len(),
                i <= n,
                self.messages@ == push_all(
                    old(self).messages@,
                    BUFFER_CAPACITY as nat,
                    actions@.take(i as int),
                ),
                self.speed_bits == old(self).speed_bits,
                self.player == old(self).player,
            decreases n - i,
        {
            assert(actions@.take(i + 1).drop_last() =~= actions@.take(i as int));
            self.messages.push(actions[i]);
            i = i + 1;
        }
        assert(actions@.take(n as int) =~= actions@);
    }

    /// Validates the player's messages: every movement with some input that the
    /// client sent is marked as validated. Returns the validated movements, in
    /// order, and the number of messages looked at.
    pub fn validate_messages(&mut self) -> (r: (Vec<Action>, usize))
        requires
            old(self).wf(),
        ensures
            final(self).wf(),
            r.0@ == to_validate(old(self).messages@),
            r.1 == old(self).messages@.len(),
            final(self).messages@ == after_validate(old(self).messages@),
            final(self).speed_bits == old(self).speed_bits,
            final(self).player == old(self).player,
    {
        let ghost orig = self.messages@;
        let n = self.messages.len();
        let mut out: Vec<Action> = Vec::new();
        let mut i: usize = 0;
        while i < n
            invariant
                self.wf(),
                n == orig.len(),
                i <= n,
                self.messages@.len() == n,
                forall|j: int| 0 <= j < i ==> self.messages@[j] == mark_validated(orig[j]),
                forall|j: int| i <= j < n ==> self.messages@[j] == orig[j],
                out@ == to_validate(orig.take(i as int)),
                self.speed_bits == old(self).speed_bits,
                self.player == old(self).player,
            decreases n - i,
        {
            let mut a = self.messages.get(i);
            assert(orig.take(i + 1).drop_last() =~= orig.take(i as int));
            let accept = match &a {
                Action::Movement(m) => !(m.input.0 == 0 && m.input.1 == 0) && m.state
                    == ActionState::SentByClient,
            };
            if accept {
                a.set_state(ActionState::ValidatedByServer);
                self.messages.set(i, a);
                out.push(a);
            }
            i = i + 1;
        }
        assert(orig.take(n as int) =~= orig);
        assert(self.messages@ =~= after_validate(orig));
        (out, n)
    }
}

/// Something that happened to a client's connection. A connected client comes
/// with the game object that stands for it.
pub enum ClientEvent<P> {
    Connected { client_id: u64, player: P },
    Disconnected { client_id: u64 },
}

impl<P> ClientEvent<P> {
    /// The client the event is about.
    pub open spec fn client(&self) -> u64 {
        match self {
            ClientEvent::Connected { client_id, .. } => *client_id,
            ClientEvent::Disconnected { client_id } => *client_id,
        }
    }
}

/// The latest of `events` about client `id`, if any.
pub open spec fn last_event_for<P>(events: Seq<ClientEvent<P>>, id: u64) -> Option<ClientEvent<P>>
    decreases events.len(),
{
    if events.len() == 0 {
        None
    } else if events.last().client() == id {
        Some(events.last())
    } else {
        last_event_for(events.drop_last(), id)
    }
}

/// `after` is `before` with `events` applied in order: a client whose latest
/// event is a connection is registered afresh with its game object, one whose
/// latest event is a disconnection is gone, and the others are untouched.
pub open spec fn events_applied<P>(
    before: Map<u64, ServerSidePlayerData<P>>,
    after: Map<u64, ServerSidePlayerData<P>>,
    events: Seq<ClientEvent<P>>,
) -> bool {
    forall|id: u64|
        match #[trigger] last_event_for(events, id) {
            None => after.contains_key(id) == before.contains_key(id) && (before.contains_key(id)
                ==> after[id] == before[id]),
            Some(ClientEvent::Connected { player, .. }) => {
                &&& after.contains_key(id)
                &&& after[id].player == player
                &&& after[id].speed_bits == DEFAULT_SPEED_BITS
                &&& after[id].messages@ == Seq::<Action>::empty()
            },
            Some(ClientEvent::Disconnected { .. }) => !after.contains_key(id),
        }
}

/// The number of actions held, over all the players listed in `ids`.
pub open spec fn total_messages<P>(m: Map<u64, ServerSidePlayerData<P>>, ids: Seq<u64>) -> nat
    decreases ids.len(),
{
    if ids.len() == 0 {
        0
    } else {
        total_messages(m, ids.drop_last()) + m[ids.last()].messages@.len()
    }
}

/// The players the server knows, by client id.
pub struct PlayerRegistry<P> {
    players: HashMap<u64, ServerSidePlayerData<P>>,
}

impl<P> View for PlayerRegistry<P> {
    type V = Map<u64, ServerSidePlayerData<P>>;

    closed spec fn view(&self) -> Map<u64, ServerSidePlayerData<P>> {
        self.players@
    }
}

impl<P> PlayerRegistry<P> {
    /// Well formed: the data of every player is well formed.
    pub open spec fn wf(&self) -> bool {
        forall|id: u64| #[trigger] self@.contains_key(id) ==> self@[id].wf()
    }

    /// A registry with no players.
    pub fn new() -> (r: Self)
        ensures
            r.wf(),
            r@ == Map::<u64, ServerSidePlayerData<P>>::empty(),
    {
        PlayerRegistry { players: HashMap::new() }
    }

    /// Whether a player is registered under `id`.
    pub fn contains(&self, id: u64) -> (b: bool)
        ensures
            b == self@.contains_key(id),
    {
        self.players.contains_key(&id)
    }

    /// The game object of the player registered under `id`, if any.
    pub fn player(&self, id: u64) -> (r: Option<&P>)
        ensures
            r is Some <==> self@.contains_key(id),
            r matches Some(p) ==> *p == self@[id].player,
    {
        match self.players.get(&id) {
            Some(d) => Some(&d.player),
            None => None,
        }
    }

    /// The number of registered players.
    pub fn len(&self) -> (n: usize)
        ensures
            n == self@.len(),
    {
        self.players.len()
    }

    /// A client connected and `character` stands for it in the game world: it
    /// is registered with fresh data, replacing any data it had.
    pub fn on_connected(&mut self, id: u64, character: P)
        requires
            old(self).wf(),
        ensures
            final(self).wf(),
            final(self)@.dom() == old(self)@.dom().insert(id),
            final(self)@[id].player == character,
            final(self)@[id].speed_bits == DEFAULT_SPEED_BITS,
            final(self)@[id].messages@ == Seq::<Action>::empty(),
            forall|other: u64|
                other != id && #[trigger] old(self)@.contains_key(other) ==> final(self)@[other]
                    == old(self)@[other],
    {
        let data = ServerSidePlayerData::new(character);
        self.players.insert(id, data);
        assert forall|other: u64| #[trigger] self@.contains_key(other) implies self@[other].wf() by {
            if other != id {
                assert(old(self)@.contains_key(other));
            }
        }
    }

    /// A client disconnected: its data is removed and handed back, if it had any.
    pub fn on_disconnected(&mut self, id: u64) -> (removed: Option<ServerSidePlayerData<P>>)
        requires
            old(self).wf(),
        ensures
            final(self).wf(),
            final(self)@ == old(self)@.remove(id),
            old(self)@.contains_key(id) <==> removed is Some,
            removed matches Some(d) ==> d == old(self)@[id],
    {
        let removed = self.players.remove(&id);
        assert forall|other: u64| #[trigger] self@.contains_key(other) implies self@[other].wf() by {
            assert(old(self)@.contains_key(other));
        }
        removed
    }

    /// Applies the connection events in order, and returns how many there were.
    pub fn apply_events(&mut self, events: Vec<ClientEvent<P>>) -> (count: usize)
        requires
            old(self).wf(),
        ensures
            final(self).wf(),
            count == events@.len(),
            events_applied(old(self)@, final(self)@, events@),
    {
        let ghost all = events@;
        let mut rest = events;
        let n = rest.len();
        let mut k: usize = 0;
        while k < n
            invariant
                self.wf(),
                n == all.len(),
                k <= n,
                rest@ == all.skip(k as int),
                events_applied(old(self)@, self@, all.take(k as int)),
            decreases n - k,
        {
            let ghost prev = self@;
            assert(all.take(k + 1).drop_last() =~= all.take(k as int));
            assert(all.take(k + 1).last() == all[k as int]);
            assert(rest@[0] == all[k as int]);
            let e = rest.remove(0);
            match e {
                ClientEvent::Connected { client_id, player } => {
                    self.on_connected(client_id, player);
                },
                ClientEvent::Disconnected { client_id } => {
                    self.on_disconnected(client_id);
                },
            }
            assert(rest@ =~= all.skip(k + 1));
            assert forall|id: u64| id != all[k as int].client() implies #[trigger] last_event_for(
                all.take(k + 1),
                id,
            ) == last_event_for(all.take(k as int), id) by {}
            assert(events_applied(old(self)@, self@, all.take(k + 1))) by {
                assert forall|id: u64|
                    match #[trigger] last_event_for(all.take(k + 1), id) {
                        None => self@.contains_key(id) == old(self)@.contains_key(id) && (old(
                            self,
                        )@.contains_key(id) ==> self@[id] == old(self)@[id]),
                        Some(ClientEvent::Connected { player, .. }) => {
                            &&& self@.contains_key(id)
                            &&& self@[id].player == player
                            &&& self@[id].speed_bits == DEFAULT_SPEED_BITS
                            &&& self@[id].messages@ == Seq::<Action>::empty()
                        },
                        Some(ClientEvent::Disconnected { .. }) => !self@.contains_key(id),
                    } by {
                    if id != all[k as int].client() {
                        assert(last_event_for(all.take(k + 1), id) == last_event_for(
                            all.take(k as int),
                            id,
                        ));
                        if prev.contains_key(id) {
                            assert(self@.contains_key(id));
                            assert(self@[id] == prev[id]);
                        } else {
                            assert(!self@.contains_key(id));
                        }
                    }
                }
            }
            k = k + 1;
        }
        assert(all.take(n as int) =~= all);
        n
    }

    /// The ids among `ids` that are registered, in order.
    pub fn select_known(&self, ids: &Vec<u64>) -> (known: Vec<u64>)
        ensures
            known@ == ids@.filter(|id: u64| self@.contains_key(id)),
    {
        let mut known: Vec<u64> = Vec::new();
        let n = ids.len();
        let mut i: usize = 0;
        while i < n
            invariant
                n == ids@.len(),
                i <= n,
                known@ == ids@.take(i as int).filter(|id: u64| self@.contains_key(id)),
            decreases n - i,
        {
            proof {
                reveal_with_fuel(Seq::filter, 1);
            }
            assert(ids@.take(i + 1).drop_last() =~= ids@.take(i as int));
            let id = ids[i];
            if self.players.contains_key(&id) {
                known.push(id);
            }
            i = i + 1;
        }
        assert(ids@.take(n as int) =~= ids@);
        known
    }

    /// Hands the frames a client sent to its player: the actions of the frames
    /// that could be decoded are appended to its messages. Returns whether the
    /// client is registered; nothing changes when it is not.
    pub fn deliver(&mut self, id: u64, frames: &Vec<Option<Frame>>) -> (known: bool)
        requires
            old(self).wf(),
        ensures
            final(self).wf(),
            known == old(self)@.contains_key(id),
            !known ==> final(self)@ == old(self)@,
            known ==> {
                &&& final(self)@.dom() == old(self)@.dom()
                &&& final(self)@[id].messages@ == push_all(
                    old(self)@[id].messages@,
                    BUFFER_CAPACITY as nat,
                    decoded_actions(frames@),
                )
                &&& final(self)@[id].player == old(self)@[id].player
                &&& final(self)@[id].speed_bits == old(self)@[id].speed_bits
                &&& forall|other: u64| other != id && #[trigger] old(self)@.contains_key(other)
                    ==> final(self)@[other] == old(self)@[other]
            },
    {
        match self.players.remove(&id) {
            Some(mut data) => {
                assert(data == old(self)@[id]);
                let actions = frame_actions(frames);
                data.receive(&actions);
                self.players.insert(id, data);
                assert forall|other: u64| #[trigger] self@.contains_key(other) implies self@[
                    other
                ].wf() by {
                    if other != id {
                        assert(old(self)@.contains_key(other));
                    }
                }
                true
            },
            None => {
                assert(self@ =~= old(self)@);
                false
            },
        }
    }

    /// The registered ids, each once, in the order the map is walked.
    fn ids(&self) -> (v: Vec<u64>)
        ensures
            v@.to_set() == self@.dom(),
            v@.no_duplicates(),
    {
        let ghost ks = self.players.keys().remaining().unref();
        let mut ids: Vec<u64> = Vec::new();
        for k in it: self.players.keys()
            invariant
                it.seq().unref() == ks,
                ids@ == ks.take(it.index()),
        {
            ids.push(*k);
            assert(ids@ =~= ks.take(it.index() + 1));
        }
        assert(ids@ =~= ks);
        proof {
            assert(ks.to_set() =~= self@.dom());
            assert(ks.no_duplicates());
        }
        ids
    }

    /// Validates the messages of every player. Returns, for each registered
    /// client once, its id and the movements validated for it, in the order
    /// they were recorded; and the number of messages looked at, over all
    /// players.
    pub fn validate_all(&mut self) -> (r: (Vec<(u64, Vec<Action>)>, usize))
        requires
            old(self).wf(),
            old(self)@.len() * BUFFER_CAPACITY <= usize::MAX,
        ensures
            final(self).wf(),
            final(self)@.dom() == old(self)@.dom(),
            r.0@.map_values(|e: (u64, Vec<Action>)| e.0).no_duplicates(),
            r.0@.map_values(|e: (u64, Vec<Action>)| e.0).to_set() == old(self)@.dom(),
            forall|i: int|
                0 <= i < r.0@.len() ==> (#[trigger] r.0@[i]).1@ == to_validate(
                    old(self)@[r.0@[i].0].messages@,
                ),
            forall|id: u64| #[trigger]
                old(self)@.contains_key(id) ==> {
                    &&& final(self)@[id].messages@ == after_validate(old(self)@[id].messages@)
                    &&& final(self)@[id].player == old(self)@[id].player
                    &&& final(self)@[id].speed_bits == old(self)@[id].speed_bits
                },
            r.1 == total_messages(old(self)@, r.0@.map_values(|e: (u64, Vec<Action>)| e.0)),
    {
        let ids = self.ids();
        let ghost orig = self@;
        let n = ids.len();
        proof {
            ids@.unique_seq_to_set();
        }
        let mut out: Vec<(u64, Vec<Action>)> = Vec::new();
        let mut count: usize = 0;
        let mut i: usize = 0;
        while i < n
            invariant
                n == ids@.len(),
                i <= n,
                ids@.no_duplicates(),
                ids@.to_set() == orig.dom(),
                n == orig.len(),
                n * BUFFER_CAPACITY <= usize::MAX,
                self.wf(),
                self@.dom() == orig.dom(),
                forall|id: u64| #[trigger] orig.contains_key(id) ==> orig[id].wf(),
                forall|j: int|
                    0 <= j < i ==> {
                        &&& self@[#[trigger] ids@[j]].messages@ == after_validate(
                            orig[ids@[j]].messages@,
                        )
                        &&& self@[ids@[j]].player == orig[ids@[j]].player
                        &&& self@[ids@[j]].speed_bits == orig[ids@[j]].speed_bits
                    },
                forall|j: int| i <= j < n ==> self@[#[trigger] ids@[j]] == orig[ids@[j]],
                out@.len() == i,
                forall|j: int|
                    0 <= j < i ==> (#[trigger] out@[j]).0 == ids@[j] && out@[j].1@ == to_validate(
                        orig[ids@[j]].messages@,
                    ),
                count == total_messages(orig, ids@.take(i as int)),
                count <= i * BUFFER_CAPACITY,
            decreases n - i,
        {
            let id = ids[i];
            assert(ids@.take(i + 1).drop_last() =~= ids@.take(i as int));
            assert(orig.contains_key(id)) by {
                assert(ids@.to_set().contains(id));
            }
            match self.players.remove(&id) {
                Some(mut data) => {
                    let (validated, seen) = data.validate_messages();
                    self.players.insert(id, data);
                    assert(seen <= BUFFER_CAPACITY);
                    assert((i + 1) * BUFFER_CAPACITY == i * BUFFER_CAPACITY + BUFFER_CAPACITY);
                    count = count + seen;
                    out.push((id, validated));
                },
                None => {},
            }
            proof {
                assert forall|j: int| i < j < n implies self@[#[trigger] ids@[j]] == orig[ids@[j]] by {
                    assert(ids@[j] != ids@[i as int]);
                }
                assert forall|j: int| 0 <= j < i implies self@[#[trigger] ids@[j]].messages@
                    == after_validate(orig[ids@[j]].messages@) by {
                    assert(ids@[j] != ids@[i as int]);
                }
            }
            i = i + 1;
        }
        assert(ids@.take(n as int) =~= ids@);
        assert(out@.map_values(|e: (u64, Vec<Action>)| e.0) =~= ids@);
        proof {
            assert forall|id: u64| #[trigger] orig.contains_key(id) implies {
                &&& self@[id].messages@ == after_validate(orig[id].messages@)
                &&& self@[id].player == orig[id].player
                &&& self@[id].speed_bits == orig[id].speed_bits
            } by {
                assert(ids@.to_set().contains(id));
                let j = choose|j: int| 0 <= j < ids@.len() && ids@[j] == id;
                assert(self@[ids@[j]].messages@ == after_validate(orig[ids@[j]].messages@));
            }
        }
        (out, count)
    }
}

/// Pushing actions one by one into a buffer of capacity `cap` leaves the last
/// `cap` of all the actions, oldest first.
pub proof fn lemma_push_all_keeps_latest(items: Seq<Action>, cap: nat, s: Seq<Action>)
    requires
        0 < cap,
        items.len() <= cap,
    ensures
        push_all(items, cap, s) == latest(items + s, cap),
    decreases s.len(),
{
    if s.len() > 0 {
        lemma_push_all_keeps_latest(items, cap, s.drop_last());
        let prev = items + s.drop_last();
        assert(items + s =~= prev.push(s.last()));
        if prev.len() < cap {
        } else if prev.len() == cap {
            assert(latest(prev, cap) =~= prev);
            assert(prev.push(s.last()).skip(1) =~= prev.drop_first().push(s.last()));
        } else {
            assert(latest(prev, cap).drop_first().push(s.last()) =~= prev.push(s.last()).skip(
                prev.len() + 1 - cap,
            ));
        }
    }
}

/// What validation does to one action on its own: an action the client sent
/// with some input is sent back, and stored, as validated; any other action is
/// not sent back and is stored unchanged.
pub proof fn lemma_validation_of_one(a: Action)
    ensures
        to_validate(seq![a]) == (if a.state() == ActionState::SentByClient && a.has_input() {
            seq![a.with_state(ActionState::ValidatedByServer)]
        } else {
            Seq::<Action>::empty()
        }),
        after_validate(seq![a]) == seq![
            if a.state() == ActionState::SentByClient && a.has_input() {
                a.with_state(ActionState::ValidatedByServer)
            } else {
                a
            },
        ],
{
    assert(seq![a].drop_last() =~= Seq::<Action>::empty());
    assert(seq![a].last() == a);
    assert(to_validate(Seq::<Action>::empty()) == Seq::<Action>::empty());
    assert(after_validate(seq![a]) =~= seq![mark_validated(a)]);
    if accepted(a) {
        assert(to_validate(seq![a]) =~= Seq::<Action>::empty() + seq![
            a.with_state(ActionState::ValidatedByServer),
        ]);
    }
}

/// Validation works message by message, whatever the other messages of the
/// buffer are: validating two runs of messages one after the other gives the
/// same as validating them together.
pub proof fn lemma_validation_distributes(s: Seq<Action>, t: Seq<Action>)
    ensures
        to_validate(s + t) == to_validate(s) + to_validate(t),
        after_validate(s + t) == after_validate(s) + after_validate(t),
    decreases t.len(),
{
    assert(after_validate(s + t) =~= after_validate(s) + after_validate(t));
    if t.len() == 0 {
        assert(s + t =~= s);
        assert(to_validate(s) + to_validate(t) =~= to_validate(s));
    } else {
        lemma_validation_distributes(s, t.drop_last());
        assert((s + t).drop_last() =~= s + t.drop_last());
        assert((s + t).last() == t.last());
        match validated_copy(t.last()) {
            Some(v) => {
                assert(to_validate(s) + to_validate(t.drop_last()) + seq![v] =~= to_validate(s) + (
                to_validate(t.drop_last()) + seq![v]));
            },
            None => {},
        }
    }
}

/// Each stored message after validation is the message it was, with only its
/// state changed, and only from `SentByClient` with some input to
/// `ValidatedByServer`.
pub proof fn lemma_validation_per_message(s: Seq<Action>, i: int)
    requires
        0 <= i < s.len(),
    ensures
        after_validate(s)[i] == (if s[i].state() == ActionState::SentByClient && s[i].has_input() {
            s[i].with_state(ActionState::ValidatedByServer)
        } else {
            s[i]
        }),
{
}

/// A decoded frame contributes exactly its messages, whatever its timestamps,
/// and a frame that could not be decoded contributes nothing.
pub proof fn lemma_decoded_frame(f: Frame)
    ensures
        decoded_actions(seq![Some(f)]) == f.messages@,
        decoded_actions(seq![None::<Frame>]) == Seq::<Action>::empty(),
{
    assert(decoded_actions(Seq::<Option<Frame>>::empty()) == Seq::<Action>::empty());
    assert(seq![Some(f)].drop_last() =~= Seq::<Option<Frame>>::empty());
    assert(seq![Some(f)].last() == Some(f));
    assert(seq![None::<Frame>].last() == None::<Frame>);
    assert(seq![None::<Frame>].drop_last() =~= Seq::<Option<Frame>>::empty());
    assert(Seq::<Action>::empty() + f.messages@ =~= f.messages@);
    assert(Seq::<Action>::empty() + Seq::<Action>::empty() =~= Seq::<Action>::empty());
}

/// Validating twice validates nothing the second time, and leaves the
/// messages as the first validation left them.
pub proof fn lemma_validate_is_idempotent(s: Seq<Action>)
    ensures
        to_validate(after_validate(s)) == Seq::<Action>::empty(),
        after_validate(after_validate(s)) == after_validate(s),
    decreases s.len(),
{
    if s.len() > 0 {
        lemma_validate_is_idempotent(s.drop_last());
        assert(after_validate(s).drop_last() =~= after_validate(s.drop_last()));
    }
    assert(after_validate(after_validate(s)) =~= after_validate(s));
}

/// Validating all players twice in a row, with nothing received in between,
/// validates nothing the second time: the second call reports every client
/// with no validated movement, and leaves every buffer as the first call left
/// it. Here `before`, `middle` and `after` are the registries before the first
/// call, between the calls and after the second, and `second` is what the
/// second call reports.
pub proof fn lemma_validate_all_twice<P>(
    before: Map<u64, ServerSidePlayerData<P>>,
    middle: Map<u64, ServerSidePlayerData<P>>,
    after: Map<u64, ServerSidePlayerData<P>>,
    second: Seq<(u64, Vec<Action>)>,
)
    requires
        middle.dom() == before.dom(),
        forall|id: u64| #[trigger]
            before.contains_key(id) ==> middle[id].messages@ == after_validate(
                before[id].messages@,
            ),
        after.dom() == middle.dom(),
        second.map_values(|e: (u64, Vec<Action>)| e.0).to_set() == middle.dom(),
        forall|i: int|
            0 <= i < second.len() ==> (#[trigger] second[i]).1@ == to_validate(
                middle[second[i].0].messages@,
            ),
        forall|id: u64| #[trigger]
            middle.contains_key(id) ==> after[id].messages@ == after_validate(
                middle[id].messages@,
            ),
    ensures
        forall|i: int| 0 <= i < second.len() ==> (#[trigger] second[i]).1@ == Seq::<Action>::empty(),
        forall|id: u64| #[trigger] middle.contains_key(id) ==> after[id].messages@ == middle[id].messages@,
{
    assert forall|i: int| 0 <= i < second.len() implies (#[trigger] second[i]).1@ == Seq::<
        Action,
    >::empty() by {
        let id = second[i].0;
        let ids = second.map_values(|e: (u64, Vec<Action>)| e.0);
        assert(ids[i] == id);
        assert(ids.to_set().contains(id));
        assert(before.contains_key(id));
        lemma_validate_is_idempotent(before[id].messages@);
    }
    assert forall|id: u64| #[trigger] middle.contains_key(id) implies after[id].messages@
        == middle[id].messages@ by {
        assert(before.contains_key(id));
        lemma_validate_is_idempotent(before[id].messages@);
    }
}

/// Validation only moves actions from `SentByClient` to `ValidatedByServer`:
/// every other action keeps its state, and everything but the state is kept.
pub proof fn lemma_validation_only_advances(s: Seq<Action>, i: int)
    requires
        0 <= i < s.len(),
    ensures
        after_validate(s)[i].state() == s[i].state() || (s[i].state() == ActionState::SentByClient
            && after_validate(s)[i].state() == ActionState::ValidatedByServer),
        after_validate(s)[i] == s[i].with_state(after_validate(s)[i].state()),
{
}

/// A movement with some input that a client sends comes back validated: the
/// server validates exactly the sent movements that have some input, in the
/// order they were recorded.
pub proof fn lemma_sent_movements_are_validated(s: Seq<Action>)
    ensures
        to_validate(to_send(s)) == s.filter_map(
            |a: Action|
                if a.state() == ActionState::New && !(moved(a).0 == 0 && moved(a).1 == 0) {
                    Some(a.with_state(ActionState::ValidatedByServer))
                } else {
                    None
                },
        ),
    decreases s.len(),
{
    if s.len() > 0 {
        lemma_sent_movements_are_validated(s.drop_last());
        let a = s.last();
        if a.state() == ActionState::New {
            assert(to_send(s) =~= to_send(s.drop_last()).push(a.with_state(ActionState::SentByClient)));
            assert(to_send(s).drop_last() =~= to_send(s.drop_last()));
        } else {
            assert(to_send(s) =~= to_send(s.drop_last()));
        }
    }
}

/// Every action a validation sends back is in state `ValidatedByServer`.
pub proof fn lemma_validated_answers(s: Seq<Action>)
    ensures
        forall|i: int|
            0 <= i < to_validate(s).len() ==> #[trigger] to_validate(s)[i].state()
                == ActionState::ValidatedByServer,
    decreases s.len(),
{
    if s.len() > 0 {
        lemma_validated_answers(s.drop_last());
    }
}

/// Once a client has appended a non-empty answer of the server to what it
/// received, it can react to it, and it keeps its player where it is: the
/// server's answers never call for a correction.
pub proof fn lemma_server_answers_keep_position(received: Seq<Action>, s: Seq<Action>)
    requires
        to_validate(s).len() > 0,
    ensures
        answers_expected(received + to_validate(s)),
        reconciliation_of(received + to_validate(s)) == Reconciliation::Keep,
{
    lemma_validated_answers(s);
    let answers = to_validate(s);
    assert((received + answers).last() == answers[answers.len() - 1]);
    assert(answers[answers.len() - 1].state() == ActionState::ValidatedByServer);
}

/// The input of an action.
pub open spec fn moved(a: Action) -> (i8, i8) {
    match a {
        Action::Movement(m) => m.input,
    }
}

/// Connecting a client that was not registered and then disconnecting it
/// leaves the registry as it was.
pub proof fn lemma_connect_then_disconnect<P>(
    before: Map<u64, ServerSidePlayerData<P>>,
    connected: Map<u64, ServerSidePlayerData<P>>,
    after: Map<u64, ServerSidePlayerData<P>>,
    id: u64,
)
    requires
        !before.contains_key(id),
        connected.dom() == before.dom().insert(id),
        forall|other: u64| other != id && #[trigger] before.contains_key(other) ==> connected[other]
            == before[other],
        after == connected.remove(id),
    ensures
        after == before,
{
    assert(after =~= before);
}

/// The actions of a run of frames are those of its parts, one after the other.
pub proof fn lemma_decoded_actions_append(a: Seq<Option<Frame>>, b: Seq<Option<Frame>>)
    ensures
        decoded_actions(a + b) == decoded_actions(a) + decoded_actions(b),
    decreases b.len(),
{
    if b.len() == 0 {
        assert(a + b =~= a);
        assert(decoded_actions(a) + decoded_actions(b) =~= decoded_actions(a));
    } else {
        lemma_decoded_actions_append(a, b.drop_last());
        assert((a + b).drop_last() =~= a + b.drop_last());
        assert((a + b).last() == b.last());
        let tail = match b.last() {
            Some(f) => f.messages@,
            None => Seq::<Action>::empty(),
        };
        assert(decoded_actions(a) + decoded_actions(b.drop_last()) + tail =~= decoded_actions(a)
            + (decoded_actions(b.drop_last()) + tail));
    }
}

} // verus!
