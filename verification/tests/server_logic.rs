use rustcode::client::{absorb_server_frame, get_unprocessed_actions, reconcile, Reconciliation};
use rustcode::clock::Timestamp;
use rustcode::common::{Action, ActionState, Frame, Movement, BUFFER_CAPACITY};
use rustcode::player::{Player, DEFAULT_SPEED_BITS};
use rustcode::server::{frame_actions, ClientEvent, PlayerRegistry, ServerSidePlayerData};

fn movement(tick: usize, input: (i8, i8), state: ActionState) -> Action {
    Action::Movement(Movement {
        tick,
        delta_bits: 0.1f64.to_bits(),
        input,
        pos_bits: (0, 0),
        timestamp: Timestamp { secs: 0, nanos: 0 },
        state,
    })
}

fn frame(actions: Vec<Action>) -> Frame {
    Frame::at(Timestamp { secs: 0, nanos: 0 }, actions)
}

fn ticks(actions: &[Action]) -> Vec<usize> {
    actions
        .iter()
        .map(|a| match a {
            Action::Movement(m) => m.tick,
        })
        .collect()
}

#[test]
fn frame_actions_flattens_decoded_frames() {
    let frames = vec![
        Some(frame(vec![movement(1, (1, 0), ActionState::SentByClient)])),
        None,
        Some(frame(vec![])),
        Some(frame(vec![
            movement(2, (1, 0), ActionState::SentByClient),
            movement(3, (0, 1), ActionState::SentByClient),
        ])),
    ];
    assert_eq!(ticks(&frame_actions(&frames)), vec![1, 2, 3]);
    assert!(frame_actions(&vec![None, None]).is_empty());
}

#[test]
fn new_server_side_data() {
    let d = ServerSidePlayerData::new("hero");
    assert_eq!(d.speed_bits, DEFAULT_SPEED_BITS);
    assert_eq!(d.player, "hero");
    assert_eq!(d.messages.len(), 0);
}

#[test]
fn receive_keeps_the_latest_messages() {
    let mut d = ServerSidePlayerData::new(());
    let batch: Vec<Action> =
        (0..BUFFER_CAPACITY + 3).map(|t| movement(t, (1, 0), ActionState::SentByClient)).collect();
    d.receive(&batch);
    assert_eq!(d.messages.len(), BUFFER_CAPACITY);
    assert_eq!(ticks(&d.messages.to_vec())[0], 3);
}

#[test]
fn validation_accepts_sent_movements_with_input() {
    let mut d = ServerSidePlayerData::new(());
    d.receive(&vec![
        movement(0, (1, 0), ActionState::SentByClient),
        movement(1, (0, 0), ActionState::SentByClient),
        movement(2, (-1, 1), ActionState::New),
        movement(3, (0, -1), ActionState::SentByClient),
        movement(4, (1, 1), ActionState::ValidatedByServer),
    ]);
    let (validated, seen) = d.validate_messages();
    assert_eq!(seen, 5);
    assert_eq!(
        validated,
        vec![
            movement(0, (1, 0), ActionState::ValidatedByServer),
            movement(3, (0, -1), ActionState::ValidatedByServer),
        ]
    );
    let after: Vec<ActionState> = d.messages.to_vec().iter().map(|a| a.get_state()).collect();
    assert_eq!(
        after,
        vec![
            ActionState::ValidatedByServer,
            ActionState::SentByClient,
            ActionState::New,
            ActionState::ValidatedByServer,
            ActionState::ValidatedByServer,
        ]
    );
    let (again, seen_again) = d.validate_messages();
    assert!(again.is_empty());
    assert_eq!(seen_again, 5);
}

#[test]
fn registry_connect_and_disconnect() {
    let mut r: PlayerRegistry<&str> = PlayerRegistry::new();
    assert_eq!(r.len(), 0);
    r.on_connected(412, "a");
    r.on_connected(7, "b");
    assert!(r.contains(412));
    assert!(r.contains(7));
    assert_eq!(r.player(412), Some(&"a"));
    assert_eq!(r.len(), 2);
    let removed = r.on_disconnected(412).expect("was registered");
    assert_eq!(removed.player, "a");
    assert!(!r.contains(412));
    assert_eq!(r.player(412), None);
    assert!(r.on_disconnected(412).is_none());
    assert_eq!(r.len(), 1);
}

#[test]
fn reconnecting_starts_afresh() {
    let mut r: PlayerRegistry<u8> = PlayerRegistry::new();
    r.on_connected(1, 10);
    assert!(r.deliver(1, &vec![Some(frame(vec![movement(0, (1, 0), ActionState::SentByClient)]))]));
    r.on_connected(1, 11);
    assert_eq!(r.player(1), Some(&11));
    let (out, seen) = r.validate_all();
    assert_eq!(seen, 0);
    assert_eq!(out.len(), 1);
    assert!(out[0].1.is_empty());
}

#[test]
fn deliver_only_to_known_clients() {
    let mut r: PlayerRegistry<u8> = PlayerRegistry::new();
    r.on_connected(1, 0);
    let frames = vec![Some(frame(vec![movement(0, (1, 0), ActionState::SentByClient)]))];
    assert!(!r.deliver(2, &frames));
    assert!(r.deliver(1, &frames));
    assert_eq!(r.select_known(&vec![3, 1, 2, 1]), vec![1, 1]);
}

#[test]
fn validate_all_reports_every_client() {
    let mut r: PlayerRegistry<u8> = PlayerRegistry::new();
    r.on_connected(1, 0);
    r.on_connected(2, 0);
    r.on_connected(3, 0);
    r.deliver(1, &vec![Some(frame(vec![
        movement(0, (1, 0), ActionState::SentByClient),
        movement(1, (0, 0), ActionState::SentByClient),
    ]))]);
    r.deliver(3, &vec![None, Some(frame(vec![movement(5, (0, 1), ActionState::SentByClient)]))]);
    let (mut out, seen) = r.validate_all();
    assert_eq!(seen, 3);
    out.sort_by_key(|e| e.0);
    assert_eq!(out.iter().map(|e| e.0).collect::<Vec<u64>>(), vec![1, 2, 3]);
    assert_eq!(out[0].1, vec![movement(0, (1, 0), ActionState::ValidatedByServer)]);
    assert!(out[1].1.is_empty());
    assert_eq!(out[2].1, vec![movement(5, (0, 1), ActionState::ValidatedByServer)]);
    let (again, seen_again) = r.validate_all();
    assert_eq!(seen_again, 3);
    assert!(again.iter().all(|e| e.1.is_empty()));
}

#[test]
fn client_movements_come_back_validated() {
    let mut p = Player::new();
    p.record_movement_at(1, (1, 0), (0, 0), Timestamp { secs: 0, nanos: 0 });
    p.end_tick();
    p.record_movement_at(1, (0, -1), (0, 0), Timestamp { secs: 0, nanos: 0 });
    let sent = get_unprocessed_actions(&mut p);
    let mut r: PlayerRegistry<()> = PlayerRegistry::new();
    r.on_connected(9, ());
    assert!(r.deliver(9, &vec![Some(frame(sent.clone()))]));
    let (out, seen) = r.validate_all();
    assert_eq!(seen, 2);
    let expected: Vec<Action> = sent
        .iter()
        .map(|a| {
            let mut b = *a;
            b.set_state(ActionState::ValidatedByServer);
            b
        })
        .collect();
    assert_eq!(out, vec![(9, expected)]);
}

#[test]
fn server_answers_keep_the_client_in_place() {
    let mut d = ServerSidePlayerData::new(());
    d.receive(&vec![
        movement(0, (1, 0), ActionState::SentByClient),
        movement(1, (0, 1), ActionState::SentByClient),
    ]);
    let (answers, _) = d.validate_messages();
    let mut received = vec![movement(9, (1, 0), ActionState::InValidatedByServer)];
    assert!(matches!(reconcile(&received), Reconciliation::MoveTo { .. }));
    absorb_server_frame(&mut received, frame(answers));
    assert_eq!(reconcile(&received), Reconciliation::Keep);
}

#[test]
fn events_are_applied_in_order() {
    let mut r: PlayerRegistry<&str> = PlayerRegistry::new();
    r.on_connected(5, "old");
    r.deliver(5, &vec![Some(frame(vec![movement(0, (1, 0), ActionState::SentByClient)]))]);
    r.on_connected(6, "stays");
    let count = r.apply_events(vec![
        ClientEvent::Connected { client_id: 1, player: "a" },
        ClientEvent::Disconnected { client_id: 5 },
        ClientEvent::Connected { client_id: 5, player: "b" },
        ClientEvent::Connected { client_id: 2, player: "c" },
        ClientEvent::Disconnected { client_id: 2 },
        ClientEvent::Disconnected { client_id: 7 },
    ]);
    assert_eq!(count, 6);
    assert_eq!(r.player(1), Some(&"a"));
    assert_eq!(r.player(5), Some(&"b"));
    assert_eq!(r.player(6), Some(&"stays"));
    assert!(!r.contains(2));
    assert!(!r.contains(7));
    assert_eq!(r.len(), 3);
    let (out, seen) = r.validate_all();
    assert_eq!(seen, 0);
    assert_eq!(out.len(), 3);
}

#[test]
fn a_second_validation_sends_empty_frames() {
    let mut r: PlayerRegistry<u8> = PlayerRegistry::new();
    r.on_connected(1, 0);
    r.on_connected(2, 0);
    r.deliver(1, &vec![Some(frame(vec![
        movement(0, (1, 0), ActionState::SentByClient),
        movement(1, (0, 1), ActionState::SentByClient),
    ]))]);
    let (first, _) = r.validate_all();
    assert_eq!(first.iter().map(|e| e.1.len()).sum::<usize>(), 2);
    let (second, seen) = r.validate_all();
    assert_eq!(seen, 2);
    assert_eq!(second.len(), 2);
    assert!(second.iter().all(|e| e.1.is_empty()));
}
