//! Decisions the client takes: which recorded actions to send, when to talk to
//! the server, and how to react to what the server answered.

use crate::common::{Action, ActionState, Frame, Movement};
use crate::player::{history_ok, Player};
use vstd::prelude::*;

verus! {

/// The client talks to the server once every this many ticks.
pub const NETWORK_INTERVAL: usize = 6;

/// A new action, as it is sent: in state `SentByClient`. Actions that are not
/// new are not sent.
pub open spec fn sent_copy(a: Action) -> Option<Action> {
    if a.state() == ActionState::New {
        Some(a.with_state(ActionState::SentByClient))
    } else {
        None
    }
}

/// An action after the client collected the unsent ones: new actions are
/// marked as sent, the others stay as they are.
pub open spec fn mark_sent(a: Action) -> Action {
    if a.state() == ActionState::New {
        a.with_state(ActionState::SentByClient)
    } else {
        a
    }
}

/// The actions to send out of `s`, in order: its new ones, marked as sent.
pub open spec fn to_send(s: Seq<Action>) -> Seq<Action> {
    s.filter_map(|a: Action| sent_copy(a))
}

/// `s` once its new actions are marked as sent.
pub open spec fn after_collect(s: Seq<Action>) -> Seq<Action> {
    s.map_values(|a: Action| mark_sent(a))
}

/// Whether the client talks to the server at `tick`.
pub fn is_network_tick(tick: usize) -> (b: bool)
    ensures
        b == (tick % NETWORK_INTERVAL == 0),
{
    tick % NETWORK_INTERVAL == 0
}

/// Collects the player's actions that were not sent yet, marks them as sent in
/// the player's buffer, and returns copies of them (also marked as sent),
/// oldest first.
pub fn get_unprocessed_actions(player: &mut Player) -> (actions: Vec<Action>)
    requires
        old(player).wf(),
    ensures
        final(player).wf(),
        actions@ == to_send(old(player).actions@),
        final(player).actions@ == after_collect(old(player).actions@),
        final(player).tick == old(player).tick,
        final(player).facing_right == old(player).facing_right,
        final(player).speed_bits == old(player).speed_bits,
        old(player).history_ok() ==> final(player).history_ok(),
{
    let ghost orig = player.actions@;
    let n = player.actions.len();
    let mut actions: Vec<Action> = Vec::new();
    let mut i: usize = 0;
    while i < n
        invariant
            player.wf(),
            n == orig.len(),
            i <= n,
            player.actions@.len() == n,
            forall|j: int| 0 <= j < i ==> player.actions@[j] == mark_sent(orig[j]),
            forall|j: int| i <= j < n ==> player.actions@[j] == orig[j],
            actions@ == to_send(orig.take(i as int)),
            player.tick == old(player).tick,
            player.facing_right == old(player).facing_right,
            player.speed_bits == old(player).speed_bits,
        decreases n - i,
    {
        let mut a = player.actions.get(i);
        assert(orig.take(i + 1).drop_last() =~= orig.take(i as int));
        if a.get_state() == ActionState::New {
            a.set_state(ActionState::SentByClient);
            player.actions.set(i, a);
            actions.push(a);
        }
        i = i + 1;
    }
    assert(orig.take(n as int) =~= orig);
    assert(player.actions@ =~= after_collect(orig));
    proof {
        lemma_collect_keeps_history(orig, player.tick as int);
    }
    actions
}

/// Collecting keeps a player's history: it only moves actions from `New` to
/// `SentByClient`, keeping their ticks and inputs.
pub proof fn lemma_collect_keeps_history(s: Seq<Action>, bound: int)
    ensures
        history_ok(s, bound) ==> history_ok(after_collect(s), bound),
{
    let r = after_collect(s);
    assert forall|i: int| 0 <= i < r.len() implies (#[trigger] r[i]).tick() == s[i].tick()
        && r[i].has_input() == s[i].has_input() && (s[i].state() == ActionState::New ==> r[i].state()
        == ActionState::SentByClient) && (s[i].state() != ActionState::New ==> r[i].state()
        == s[i].state()) by {}
    if history_ok(s, bound) {
        assert forall|i: int, j: int| 0 <= i < j < r.len() implies (#[trigger] r[i]).tick() < (
        #[trigger] r[j]).tick() by {
            assert(s[i].tick() < s[j].tick());
        }
    }
}

/// What the client does after reading the server's answers.
#[derive(Clone, Copy, Debug, PartialEq, Eq, Structural)]
pub enum Reconciliation {
    /// The server has not answered anything yet.
    NoActions,
    /// The server accepted the latest movement: keep the position.
    Keep,
    /// The server rejected the latest movement: move the player to these
    /// coordinates (bits of two `f32`).
    MoveTo { x_bits: u32, y_bits: u32 },
}

/// The answers a client can react to: none yet, or a latest one that the
/// server either validated or rejected. The server sends no other state.
pub open spec fn answers_expected(s: Seq<Action>) -> bool {
    s.len() == 0 || s.last().state() == ActionState::ValidatedByServer || s.last().state()
        == ActionState::InValidatedByServer
}

/// The reaction to the server's answers `s`, decided by the latest one.
pub open spec fn reconciliation_of(s: Seq<Action>) -> Reconciliation {
    if s.len() == 0 {
        Reconciliation::NoActions
    } else {
        match s.last() {
            Action::Movement(m) => if m.state == ActionState::ValidatedByServer {
                Reconciliation::Keep
            } else {
                Reconciliation::MoveTo { x_bits: m.pos_bits.0, y_bits: m.pos_bits.1 }
            },
        }
    }
}

/// Whether the client can react to the answers received so far: none yet, or
/// a latest one that the server validated or rejected.
pub fn answers_are_expected(server_actions: &Vec<Action>) -> (b: bool)
    ensures
        b == answers_expected(server_actions@),
{
    let n = server_actions.len();
    if n == 0 {
        return true;
    }
    let s = server_actions[n - 1].get_state();
    s == ActionState::ValidatedByServer || s == ActionState::InValidatedByServer
}

/// Decides how to react to the actions the server sent back, by the latest
/// one: keep the position when it was validated, move to its position when it
/// was rejected. A latest answer in any other state cannot be reacted to.
pub fn reconcile(server_actions: &Vec<Action>) -> (r: Reconciliation)
    requires
        answers_expected(server_actions@),
    ensures
        r == reconciliation_of(server_actions@),
{
    let n = server_actions.len();
    if n == 0 {
        return Reconciliation::NoActions;
    }
    match &server_actions[n - 1] {
        Action::Movement(m) => if m.state == ActionState::ValidatedByServer {
            Reconciliation::Keep
        } else {
            Reconciliation::MoveTo { x_bits: m.pos_bits.0, y_bits: m.pos_bits.1 }
        },
    }
}

/// The client reacts to the latest answer alone: with no answer it does
/// nothing, when the latest one was validated it keeps its position, and when
/// the latest one was rejected it moves to that answer's position, whatever
/// came before it.
pub proof fn lemma_reconcile_follows_latest(s: Seq<Action>, earlier: Seq<Action>, m: Movement)
    ensures
        reconciliation_of(Seq::<Action>::empty()) == Reconciliation::NoActions,
        m.state == ActionState::ValidatedByServer ==> reconciliation_of(
            earlier.push(Action::Movement(m)),
        ) == Reconciliation::Keep,
        m.state == ActionState::InValidatedByServer ==> reconciliation_of(
            earlier.push(Action::Movement(m)),
        ) == (Reconciliation::MoveTo { x_bits: m.pos_bits.0, y_bits: m.pos_bits.1 }),
        s.len() > 0 && s.last() == Action::Movement(m) && m.state
            == ActionState::InValidatedByServer ==> reconciliation_of(s) == (Reconciliation::MoveTo {
            x_bits: m.pos_bits.0,
            y_bits: m.pos_bits.1,
        }),
{
    assert(earlier.push(Action::Movement(m)).last() == Action::Movement(m));
}

/// What collecting does to one action on its own: a new action is sent, and
/// stored, as sent; any other action is not sent and is stored unchanged.
pub proof fn lemma_collect_of_one(a: Action)
    ensures
        to_send(seq![a]) == (if a.state() == ActionState::New {
            seq![a.with_state(ActionState::SentByClient)]
        } else {
            Seq::<Action>::empty()
        }),
        after_collect(seq![a]) == seq![
            if a.state() == ActionState::New {
                a.with_state(ActionState::SentByClient)
            } else {
                a
            },
        ],
{
    assert(seq![a].drop_last() =~= Seq::<Action>::empty());
    assert(seq![a].last() == a);
    assert(to_send(Seq::<Action>::empty()) == Seq::<Action>::empty());
    assert(after_collect(seq![a]) =~= seq![mark_sent(a)]);
    if a.state() == ActionState::New {
        assert(to_send(seq![a]) =~= Seq::<Action>::empty() + seq![
            a.with_state(ActionState::SentByClient),
        ]);
    }
}

/// Collecting works action by action, whatever the other actions of the
/// buffer are: collecting two runs of actions one after the other gives the
/// same as collecting them together.
pub proof fn lemma_collect_distributes(s: Seq<Action>, t: Seq<Action>)
    ensures
        to_send(s + t) == to_send(s) + to_send(t),
        after_collect(s + t) == after_collect(s) + after_collect(t),
    decreases t.len(),
{
    assert(after_collect(s + t) =~= after_collect(s) + after_collect(t));
    if t.len() == 0 {
        assert(s + t =~= s);
        assert(to_send(s) + to_send(t) =~= to_send(s));
    } else {
        lemma_collect_distributes(s, t.drop_last());
        assert((s + t).drop_last() =~= s + t.drop_last());
        assert((s + t).last() == t.last());
        match sent_copy(t.last()) {
            Some(v) => {
                assert(to_send(s) + to_send(t.drop_last()) + seq![v] =~= to_send(s) + (to_send(
                    t.drop_last(),
                ) + seq![v]));
            },
            None => {},
        }
    }
}

/// Collecting changes only the state of each stored action, and only from
/// `New` to `SentByClient`.
pub proof fn lemma_collect_per_action(s: Seq<Action>, i: int)
    requires
        0 <= i < s.len(),
    ensures
        after_collect(s)[i] == s[i].with_state(after_collect(s)[i].state()),
        after_collect(s)[i].state() == (if s[i].state() == ActionState::New {
            ActionState::SentByClient
        } else {
            s[i].state()
        }),
{
    crate::common::lemma_with_state_changes_only_state(s[i], ActionState::SentByClient);
    crate::common::lemma_with_state_changes_only_state(s[i], s[i].state());
}

/// Collecting twice sends nothing the second time: after a collection no
/// action is left in state `New`.
pub proof fn lemma_collect_is_idempotent(s: Seq<Action>)
    ensures
        to_send(after_collect(s)) == Seq::<Action>::empty(),
        after_collect(after_collect(s)) == after_collect(s),
    decreases s.len(),
{
    if s.len() > 0 {
        lemma_collect_is_idempotent(s.drop_last());
        assert(after_collect(s).drop_last() =~= after_collect(s.drop_last()));
    }
    assert(after_collect(after_collect(s)) =~= after_collect(s));
}

/// Every action a collection returns is in state `SentByClient`, and there are
/// exactly as many of them as there were new actions.
pub proof fn lemma_collect_sends_new_ones(s: Seq<Action>)
    ensures
        forall|i: int| 0 <= i < to_send(s).len() ==> #[trigger] to_send(s)[i].state()
            == ActionState::SentByClient,
        to_send(s).len() == s.filter(|a: Action| a.state() == ActionState::New).len(),
    decreases s.len(),
{
    reveal_with_fuel(Seq::filter, 1);
    if s.len() > 0 {
        lemma_collect_sends_new_ones(s.drop_last());
    }
}

/// Appends the actions of a frame the server sent to those received so far.
pub fn absorb_server_frame(server_actions: &mut Vec<Action>, frame: Frame)
    ensures
        final(server_actions)@ == old(server_actions)@ + frame.messages@,
{
    let n = frame.messages.len();
    let mut i: usize = 0;
    while i < n
        invariant
            n == frame.messages@.len(),
            i <= n,
            server_actions@ == old(server_actions)@ + frame.messages@.take(i as int),
        decreases n - i,
    {
        server_actions.push(frame.messages[i]);
        i = i + 1;
        assert(server_actions@ =~= old(server_actions)@ + frame.messages@.take(i as int));
    }
    assert(frame.messages@.take(n as int) =~= frame.messages@);
}

/// The client talks to the server at tick 0 and then every `NETWORK_INTERVAL`
/// ticks: whether it talks at a tick is the same `NETWORK_INTERVAL` ticks
/// later, and after a tick where it talks it stays silent for the
/// `NETWORK_INTERVAL - 1` ticks that follow.
pub proof fn lemma_network_ticks_are_periodic(tick: int, k: int)
    requires
        0 <= tick,
        0 < k < NETWORK_INTERVAL,
    ensures
        (tick % 6 == 0) == ((tick + NETWORK_INTERVAL) % 6 == 0),
        tick % 6 == 0 ==> (tick + k) % 6 != 0,
{
}

} // verus!
