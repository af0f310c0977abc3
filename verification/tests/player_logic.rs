use rustcode::clock::Timestamp;
use rustcode::common::{Action, ActionState, Movement, BUFFER_CAPACITY};
use rustcode::client::get_unprocessed_actions;
use rustcode::player::{input_axes, Player, StepPlan, DEFAULT_SPEED_BITS};

#[test]
fn default_speed_is_one_hundred() {
    assert_eq!(f32::from_bits(DEFAULT_SPEED_BITS), 100.0);
}

#[test]
fn new_player_starts_at_rest() {
    let p = Player::new();
    assert_eq!(p.speed_bits, 100.0f32.to_bits());
    assert_eq!(p.tick, 0);
    assert!(p.facing_right);
    assert_eq!(p.actions.len(), 0);
}

#[test]
fn input_axes_from_keys() {
    assert_eq!(input_axes(false, false, false, false), (0, 0));
    assert_eq!(input_axes(true, false, false, false), (-1, 0));
    assert_eq!(input_axes(false, true, false, false), (1, 0));
    assert_eq!(input_axes(true, true, false, false), (0, 0));
    assert_eq!(input_axes(false, false, true, false), (0, -1));
    assert_eq!(input_axes(false, false, false, true), (0, 1));
    assert_eq!(input_axes(false, false, true, true), (0, 0));
    assert_eq!(input_axes(true, false, false, true), (-1, 1));
    assert_eq!(input_axes(true, true, true, true), (0, 0));
}

#[test]
fn plan_without_input_is_idle() {
    let mut p = Player::new();
    assert_eq!(p.plan_step((0, 0)), StepPlan::Idle);
    assert!(p.facing_right);
}

#[test]
fn facing_follows_horizontal_input() {
    let mut p = Player::new();
    assert_eq!(p.plan_step((-1, 0)), StepPlan::Run { flip_h: true });
    assert!(!p.facing_right);
    assert_eq!(p.plan_step((0, 1)), StepPlan::Run { flip_h: true });
    assert!(!p.facing_right);
    assert_eq!(p.plan_step((-1, -1)), StepPlan::Run { flip_h: true });
    assert_eq!(p.plan_step((1, 1)), StepPlan::Run { flip_h: false });
    assert!(p.facing_right);
    assert_eq!(p.plan_step((0, -1)), StepPlan::Run { flip_h: false });
    assert_eq!(p.plan_step((0, 0)), StepPlan::Idle);
    assert!(p.facing_right);
}

#[test]
fn record_movement_at_appends_a_new_movement() {
    let mut p = Player::new();
    p.end_tick();
    p.end_tick();
    let ts = Timestamp { secs: 1, nanos: 1 };
    p.record_movement_at(7, (1, -1), (8, 9), ts);
    assert_eq!(p.actions.len(), 1);
    assert_eq!(
        p.actions.get(0),
        Action::Movement(Movement {
            tick: 2,
            delta_bits: 7,
            input: (1, -1),
            pos_bits: (8, 9),
            timestamp: ts,
            state: ActionState::New,
        })
    );
}

#[test]
fn record_movement_uses_the_clock() {
    let mut p = Player::new();
    assert!(p.record_movement(1, (0, 1), (2, 3)));
    match p.actions.get(0) {
        Action::Movement(m) => {
            assert_eq!(m.tick, 0);
            assert_eq!(m.input, (0, 1));
            assert_eq!(m.state, ActionState::New);
            assert!(m.timestamp.secs > 0);
        }
    }
}

#[test]
fn player_keeps_the_latest_movements() {
    let mut p = Player::new();
    for _ in 0..(BUFFER_CAPACITY + 5) {
        p.record_movement_at(0, (1, 0), (0, 0), Timestamp { secs: 0, nanos: 0 });
        p.end_tick();
    }
    assert_eq!(p.tick, BUFFER_CAPACITY + 5);
    assert_eq!(p.actions.len(), BUFFER_CAPACITY);
    match p.actions.get(0) {
        Action::Movement(m) => assert_eq!(m.tick, 5),
    }
    match p.actions.get(BUFFER_CAPACITY - 1) {
        Action::Movement(m) => assert_eq!(m.tick, BUFFER_CAPACITY + 4),
    }
}

#[test]
fn end_tick_advances_by_one() {
    let mut p = Player::new();
    p.end_tick();
    assert_eq!(p.tick, 1);
    assert!(p.facing_right);
}

#[test]
fn a_run_of_steps_keeps_the_history() {
    let mut p = Player::new();
    let inputs = [(1, 0), (0, 0), (-1, 1), (0, 0), (0, -1), (1, 1)];
    for round in 0..12 {
        for input in inputs.iter() {
            if let StepPlan::Run { .. } = p.plan_step(*input) {
                assert!(p.record_movement(0, *input, (0, 0)));
            }
            p.end_tick();
        }
        if round % 3 == 0 {
            get_unprocessed_actions(&mut p);
        }
        let actions = p.actions.to_vec();
        assert!(actions.len() <= BUFFER_CAPACITY);
        let mut last: Option<usize> = None;
        for a in actions.iter() {
            let Action::Movement(m) = a;
            assert!(m.input != (0, 0));
            assert!(m.state == ActionState::New || m.state == ActionState::SentByClient);
            assert!(m.tick < p.tick);
            if let Some(t) = last {
                assert!(t < m.tick);
            }
            last = Some(m.tick);
        }
    }
}
