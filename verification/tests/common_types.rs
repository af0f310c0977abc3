use rustcode::clock::{Timestamp, NANOS_PER_SEC};
use rustcode::common::{
    Action, ActionState, Frame, Movement, BUFFER_CAPACITY, PORT, PROTOCOL_ID,
};

fn movement(tick: usize, input: (i8, i8), state: ActionState) -> Action {
    Action::Movement(Movement {
        tick,
        delta_bits: 0.016f64.to_bits(),
        input,
        pos_bits: (1.5f32.to_bits(), (-2.0f32).to_bits()),
        timestamp: Timestamp { secs: 10, nanos: 20 },
        state,
    })
}

#[test]
fn protocol_constants() {
    assert_eq!(BUFFER_CAPACITY, 32);
    assert_eq!(PORT, 7614);
    assert_eq!(PROTOCOL_ID, 27);
}

#[test]
fn timestamp_now_reads_the_clock() {
    let t = Timestamp::now().expect("clock after the epoch");
    assert!(t.nanos < NANOS_PER_SEC);
    // Any machine running this test is well past the year 2020.
    assert!(t.secs > 1_577_836_800);
}

#[test]
fn movement_at_keeps_its_arguments() {
    let ts = Timestamp { secs: 5, nanos: 6 };
    let m = Movement::at(7, 0.5f64.to_bits(), (-1, 1), (3.0f32.to_bits(), 4.0f32.to_bits()), ts);
    assert_eq!(m.tick, 7);
    assert_eq!(f64::from_bits(m.delta_bits), 0.5);
    assert_eq!(m.input, (-1, 1));
    assert_eq!(f32::from_bits(m.pos_bits.0), 3.0);
    assert_eq!(f32::from_bits(m.pos_bits.1), 4.0);
    assert_eq!(m.timestamp, ts);
    assert_eq!(m.state, ActionState::New);
}

#[test]
fn movement_new_is_new_and_stamped() {
    let m = Movement::new(1, 2, (1, 0), (3, 4)).expect("clock after the epoch");
    assert_eq!(m.tick, 1);
    assert_eq!(m.delta_bits, 2);
    assert_eq!(m.input, (1, 0));
    assert_eq!(m.pos_bits, (3, 4));
    assert_eq!(m.state, ActionState::New);
    assert!(m.timestamp.secs > 0);
}

#[test]
fn frame_at_and_new_keep_the_messages() {
    let msgs = vec![movement(1, (1, 0), ActionState::New), movement(2, (0, 1), ActionState::SentByClient)];
    let ts = Timestamp { secs: 1, nanos: 2 };
    let f = Frame::at(ts, msgs.clone());
    assert_eq!(f.timestamp, ts);
    assert_eq!(f.messages, msgs);
    let g = Frame::new(msgs.clone()).expect("clock after the epoch");
    assert_eq!(g.messages, msgs);
    assert!(g.timestamp.nanos < NANOS_PER_SEC);
}

#[test]
fn action_state_is_read_and_changed() {
    let mut a = movement(9, (1, 1), ActionState::New);
    assert_eq!(a.get_state(), ActionState::New);
    a.set_state(ActionState::InValidatedByServer);
    assert_eq!(a.get_state(), ActionState::InValidatedByServer);
    assert_eq!(a, movement(9, (1, 1), ActionState::InValidatedByServer));
}
