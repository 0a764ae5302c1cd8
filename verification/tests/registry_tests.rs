use chat_relay::registry::{AcceptStep, Delivery, ReadStep, Registry};
use chat_relay::terminal::{ClientAction, InputEvent, Terminal};
use std::cell::{Cell, RefCell};

/// A stand-in for a socket: what was written to it, and whether it is still open.
struct Inbox {
    open: Cell<bool>,
    lines: RefCell<Vec<String>>,
}

fn inbox(open: bool) -> Inbox {
    Inbox { open: Cell::new(open), lines: RefCell::new(Vec::new()) }
}

fn write_line(channel: &Inbox, line: &str) -> bool {
    if channel.open.get() {
        channel.lines.borrow_mut().push(line.to_string());
    }
    channel.open.get()
}

/// Carries a plan out as a relay does: every write is tried, failures are ignored.
fn carry_out(registry: &Registry<Inbox>, plan: &[Delivery]) {
    for delivery in plan {
        let channel = registry.channel(delivery.slot).unwrap();
        let _ = write_line(channel, &delivery.line);
    }
}

fn lines_of(registry: &Registry<Inbox>, slot: usize) -> Vec<String> {
    registry.channel(slot).unwrap().lines.borrow().clone()
}

#[test]
fn new_registry_is_empty() {
    let r: Registry<Inbox> = Registry::new();
    assert_eq!(r.len(), 0);
    assert!(r.id(0).is_none());
    assert!(r.channel(0).is_none());
    assert!(r.broadcast("alice: hello").is_empty());
}

#[test]
fn register_appends_in_order() {
    let mut r: Registry<u32> = Registry::new();
    assert_eq!(r.register(String::from("127.0.0.1:5000"), 7), 0);
    assert_eq!(r.register(String::from("127.0.0.1:5001"), 8), 1);
    assert_eq!(r.len(), 2);
    assert_eq!(r.id(0).unwrap(), "127.0.0.1:5000");
    assert_eq!(r.id(1).unwrap(), "127.0.0.1:5001");
    assert_eq!(*r.channel(0).unwrap(), 7);
    assert_eq!(*r.channel(1).unwrap(), 8);
    assert!(r.id(2).is_none());
    assert!(r.channel(2).is_none());
}

#[test]
fn register_accepts_duplicate_addresses() {
    let mut r: Registry<u32> = Registry::new();
    assert_eq!(r.register(String::from("10.0.0.1:4000"), 1), 0);
    assert_eq!(r.register(String::from("10.0.0.1:4000"), 2), 1);
    assert_eq!(r.len(), 2);
    assert_eq!(*r.channel(0).unwrap(), 1);
    assert_eq!(*r.channel(1).unwrap(), 2);
}

#[test]
fn broadcast_plans_one_copy_for_each_entry() {
    let mut r: Registry<u32> = Registry::new();
    for i in 0..5u32 {
        r.register(format!("peer-{}", i), i);
    }
    let plan = r.broadcast("alice: a:b ✓");
    assert_eq!(plan.len(), 5);
    for (i, delivery) in plan.iter().enumerate() {
        assert_eq!(delivery.slot, i);
        assert_eq!(delivery.line, "alice: a:b ✓");
    }
}

#[test]
fn broadcast_reaches_every_live_peer_once_including_sender() {
    let mut r: Registry<Inbox> = Registry::new();
    for i in 0..4 {
        r.register(format!("peer-{}", i), inbox(true));
    }
    carry_out(&r, &r.broadcast("peer-2: hello"));
    for slot in 0..4 {
        assert_eq!(lines_of(&r, slot), vec![String::from("peer-2: hello")]);
    }
}

#[test]
fn broken_peer_does_not_stop_the_others() {
    let mut r: Registry<Inbox> = Registry::new();
    r.register(String::from("a"), inbox(true));
    r.register(String::from("b"), inbox(false));
    r.register(String::from("c"), inbox(true));
    let plan = r.broadcast("a: still here");
    assert_eq!(plan.len(), 3);
    carry_out(&r, &plan);
    assert_eq!(lines_of(&r, 0), vec![String::from("a: still here")]);
    assert!(lines_of(&r, 1).is_empty());
    assert_eq!(lines_of(&r, 2), vec![String::from("a: still here")]);
}

#[test]
fn stale_entry_stays_and_is_tried_again() {
    let mut r: Registry<Inbox> = Registry::new();
    r.register(String::from("a"), inbox(false));
    r.register(String::from("b"), inbox(true));
    carry_out(&r, &r.broadcast("b: one"));
    assert_eq!(r.len(), 2);
    let plan = r.broadcast("b: two");
    assert_eq!(plan.len(), 2);
    assert_eq!(plan[0].slot, 0);
    carry_out(&r, &plan);
    assert_eq!(lines_of(&r, 1), vec![String::from("b: one"), String::from("b: two")]);
}

#[test]
fn on_accept_registers_and_starts_reader() {
    let mut r: Registry<u32> = Registry::new();
    assert!(matches!(r.on_accept(Some((String::from("a"), 1))), AcceptStep::StartReader(0)));
    assert!(matches!(r.on_accept(Some((String::from("b"), 2))), AcceptStep::StartReader(1)));
    assert_eq!(r.len(), 2);
    assert_eq!(r.id(1).unwrap(), "b");
}

#[test]
fn on_accept_failure_changes_nothing() {
    let mut r: Registry<u32> = Registry::new();
    r.register(String::from("a"), 1);
    assert!(matches!(r.on_accept(None), AcceptStep::Report));
    assert_eq!(r.len(), 1);
    assert_eq!(r.id(0).unwrap(), "a");
}

#[test]
fn on_read_fans_the_line_out_verbatim() {
    let mut r: Registry<u32> = Registry::new();
    r.register(String::from("a"), 1);
    r.register(String::from("b"), 2);
    match r.on_read(Some("mallory:: raw : bytes ")) {
        ReadStep::Deliver(plan) => {
            assert_eq!(plan.len(), 2);
            assert_eq!(plan[0].slot, 0);
            assert_eq!(plan[1].slot, 1);
            assert_eq!(plan[0].line, "mallory:: raw : bytes ");
            assert_eq!(plan[1].line, "mallory:: raw : bytes ");
        }
        ReadStep::Stop => panic!("a line must be delivered"),
    }
}

#[test]
fn on_read_end_of_stream_stops_reader_and_keeps_entry() {
    let mut r: Registry<u32> = Registry::new();
    r.register(String::from("a"), 1);
    assert!(matches!(r.on_read(None), ReadStep::Stop));
    assert_eq!(r.len(), 1);
}

#[test]
fn scenario_two_clients_exchange_greetings() {
    let mut relay: Registry<Inbox> = Registry::new();
    let mut alice = Terminal::new(80, 24);

    // alice connects and sends `hello`.
    assert!(matches!(relay.on_accept(Some((String::from("127.0.0.1:50001"), inbox(true)))), AcceptStep::StartReader(0)));
    for c in "hello".chars() {
        alice.handle_event(InputEvent::Char(c), "alice");
    }
    let sent = match alice.handle_event(InputEvent::Enter, "alice") {
        ClientAction::Send(line) => line,
        other => panic!("expected a line to send, got {:?}", other),
    };
    match relay.on_read(Some(&sent)) {
        ReadStep::Deliver(plan) => carry_out(&relay, &plan),
        ReadStep::Stop => panic!("a line must be delivered"),
    }

    // bob connects after that and sends `hi`.
    assert!(matches!(relay.on_accept(Some((String::from("127.0.0.1:50002"), inbox(true)))), AcceptStep::StartReader(1)));
    let mut bob = Terminal::new(80, 24);
    for c in "hi".chars() {
        bob.handle_event(InputEvent::Char(c), "bob");
    }
    let sent = match bob.handle_event(InputEvent::Enter, "bob") {
        ClientAction::Send(line) => line,
        other => panic!("expected a line to send, got {:?}", other),
    };
    match relay.on_read(Some(&sent)) {
        ReadStep::Deliver(plan) => carry_out(&relay, &plan),
        ReadStep::Stop => panic!("a line must be delivered"),
    }

    // alice's client ingests what the relay wrote to her.
    for line in lines_of(&relay, 0) {
        assert!(alice.receive_line(&line, "alice"));
    }
    assert_eq!(alice.message_count(), 2);
    let first = alice.message(0).unwrap();
    assert_eq!(first.sender, "alice");
    assert_eq!(first.msg.trim_start(), "hello");
    assert_eq!(first.msg, " hello");
    assert!(first.from_self);
    let second = alice.message(1).unwrap();
    assert_eq!(second.sender, "bob");
    assert_eq!(second.msg, " hi");
    assert!(!second.from_self);

    // bob joined late: he saw his own line only.
    assert_eq!(lines_of(&relay, 1), vec![String::from("bob: hi")]);
}

#[test]
fn scenario_disconnect_mid_session() {
    let mut relay: Registry<Inbox> = Registry::new();
    relay.register(String::from("a"), inbox(true));
    relay.register(String::from("b"), inbox(true));
    relay.register(String::from("c"), inbox(true));
    carry_out(&relay, &relay.broadcast("a: before"));

    // b's socket closes: its reader stops, the entry stays, writes to it fail.
    relay.channel(1).unwrap().open.set(false);
    assert!(matches!(relay.on_read(None), ReadStep::Stop));
    assert_eq!(relay.len(), 3);

    let plan = relay.broadcast("c: after");
    assert_eq!(plan.len(), 3);
    carry_out(&relay, &plan);
    assert_eq!(lines_of(&relay, 0), vec![String::from("a: before"), String::from("c: after")]);
    assert_eq!(lines_of(&relay, 1), vec![String::from("a: before")]);
    assert_eq!(lines_of(&relay, 2), vec![String::from("a: before"), String::from("c: after")]);
}
