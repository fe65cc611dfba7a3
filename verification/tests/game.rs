use ld46::events::Events;
use ld46::model::{ClientMessage, Id, IdCounter, Model, Player, ServerMessage, Token};
use std::sync::{Arc, Mutex};

type Sub = Box<dyn Fn(ServerMessage) -> bool + Send + Sync>;

/// A subscriber that records what it is handed while `listening`, and
/// answers `listening`.
fn recorder(listening: bool) -> (Sub, Arc<Mutex<Vec<ServerMessage>>>) {
    let seen = Arc::new(Mutex::new(Vec::new()));
    let log = seen.clone();
    let sub: Sub = Box::new(move |event| {
        if listening {
            log.lock().unwrap().push(event);
        }
        listening
    });
    (sub, seen)
}

fn taken(seen: &Arc<Mutex<Vec<ServerMessage>>>) -> Vec<ServerMessage> {
    std::mem::take(&mut *seen.lock().unwrap())
}

fn is_life(message: &ServerMessage, life: i64) -> bool {
    matches!(message, ServerMessage::PrincessLife(l) if *l == life)
}

#[test]
fn first_tick_announces_life() {
    let mut model = Model::default();
    let mut events: Events<ServerMessage, Sub> = Events::new();
    let (handler, seen) = recorder(true);
    events.subscribe(handler);
    model.tick(&mut events);
    let got = taken(&seen);
    assert_eq!(got.len(), 1);
    assert!(is_life(&got[0], 59));
}

#[test]
fn princess_dies_after_sixty_ticks_and_is_reborn_six_ticks_later() {
    let mut model = Model::default();
    let mut events: Events<ServerMessage, Sub> = Events::new();
    let (handler, seen) = recorder(true);
    events.subscribe(handler);
    for _ in 0..59 {
        model.tick(&mut events);
    }
    let got = taken(&seen);
    assert_eq!(got.len(), 59);
    assert!(is_life(&got[58], 1));
    model.tick(&mut events);
    let got = taken(&seen);
    assert_eq!(got.len(), 1);
    assert!(matches!(got[0], ServerMessage::PrincessDied));
    for _ in 0..5 {
        model.tick(&mut events);
    }
    assert!(taken(&seen).is_empty());
    model.tick(&mut events);
    let got = taken(&seen);
    assert_eq!(got.len(), 1);
    assert!(is_life(&got[0], 60));
}

#[test]
fn feeding_a_living_princess_announces_feeder_and_new_life() {
    let mut model = Model::default();
    let mut events: Events<ServerMessage, Sub> = Events::new();
    let (handler, seen) = recorder(true);
    events.subscribe(handler);
    let id = model.connect(&Token("abc".to_string()));
    assert_eq!(id, Id(1));
    model.handle(id, ClientMessage::Feed, &mut events);
    let got = taken(&seen);
    assert_eq!(got.len(), 2);
    assert!(matches!(got[0], ServerMessage::Feed(Id(1))));
    assert!(is_life(&got[1], 70));
    model.tick(&mut events);
    assert!(is_life(&taken(&seen)[0], 69));
}

#[test]
fn feeding_a_dead_princess_does_nothing() {
    let mut model = Model::default();
    let mut events: Events<ServerMessage, Sub> = Events::new();
    let id = model.connect(&Token("abc".to_string()));
    for _ in 0..60 {
        model.tick(&mut events);
    }
    let (handler, seen) = recorder(true);
    events.subscribe(handler);
    model.handle(id, ClientMessage::Feed, &mut events);
    assert!(taken(&seen).is_empty());
    model.tick(&mut events);
    assert!(taken(&seen).is_empty());
}

#[test]
fn messages_other_than_feed_change_nothing() {
    let mut model = Model::default();
    let mut events: Events<ServerMessage, Sub> = Events::new();
    let (handler, seen) = recorder(true);
    events.subscribe(handler);
    model.handle(Id(7), ClientMessage::GetToken, &mut events);
    model.handle(Id(7), ClientMessage::Connect(Token("x".to_string())), &mut events);
    assert!(taken(&seen).is_empty());
    model.tick(&mut events);
    assert!(is_life(&taken(&seen)[0], 59));
}

#[test]
fn connecting_players_get_successive_ids() {
    let mut model = Model::default();
    let a = model.connect(&Token("a".to_string()));
    let b = model.connect(&Token("b".to_string()));
    let c = model.connect(&Token("a".to_string()));
    assert_eq!((a, b, c), (Id(1), Id(2), Id(3)));
}

#[test]
fn disconnecting_twice_is_harmless() {
    let mut model = Model::default();
    let a = model.connect(&Token("a".to_string()));
    model.disconnect(a);
    model.disconnect(a);
    model.disconnect(Id(42));
    let b = model.connect(&Token("b".to_string()));
    assert_eq!(b, Id(2));
}

#[test]
fn id_counter_starts_at_one_and_counts_up() {
    let mut counter = IdCounter::new();
    let ids: Vec<Id> = (0..5).map(|_| Id::new(&mut counter)).collect();
    assert_eq!(ids, vec![Id(1), Id(2), Id(3), Id(4), Id(5)]);
}

#[test]
fn player_keeps_token_and_takes_next_id() {
    let mut counter = IdCounter::new();
    let p = Player::new(Token("tok".to_string()), &mut counter);
    let q = Player::new(Token("tok".to_string()), &mut counter);
    assert_eq!(p.token, Token("tok".to_string()));
    assert_eq!(p.id, Id(1));
    assert_eq!(q.id, Id(2));
    assert!(p != q);
    let p_again = Player { token: Token("other".to_string()), id: Id(1) };
    assert!(p == p_again);
}

#[test]
fn token_is_sixteen_letters_or_digits() {
    let t = Token::new();
    assert_eq!(t.0.chars().count(), 16);
    assert!(t.0.chars().all(|c| c.is_ascii_alphanumeric()));
    let u = Token::new();
    assert_ne!(t, u);
}

#[test]
fn silent_subscribers_are_forgotten() {
    let mut events: Events<ServerMessage, Sub> = Events::default();
    let (quiet, quiet_seen) = recorder(false);
    let (loud, loud_seen) = recorder(true);
    events.subscribe(quiet);
    events.subscribe(loud);
    events.fire(ServerMessage::PrincessDied);
    events.fire(ServerMessage::PrincessLife(3));
    assert!(taken(&quiet_seen).is_empty());
    let got = taken(&loud_seen);
    assert_eq!(got.len(), 2);
    assert!(matches!(got[0], ServerMessage::PrincessDied));
    assert!(is_life(&got[1], 3));
}

#[test]
fn a_subscriber_that_stops_listening_is_not_asked_again() {
    let mut events: Events<ServerMessage, Sub> = Events::new();
    let calls = Arc::new(Mutex::new(0));
    let counted = calls.clone();
    events.subscribe(Box::new(move |_event| {
        *counted.lock().unwrap() += 1;
        false
    }));
    events.fire(ServerMessage::PrincessDied);
    events.fire(ServerMessage::PrincessDied);
    assert_eq!(*calls.lock().unwrap(), 1);
}

#[test]
fn fire_reaches_subscribers_in_order_and_keeps_the_listening_ones() {
    let mut events: Events<ServerMessage, Sub> = Events::new();
    let order = Arc::new(Mutex::new(Vec::new()));
    for (name, answer) in [(1u32, true), (2, false), (3, true)] {
        let order = order.clone();
        events.subscribe(Box::new(move |_event| {
            order.lock().unwrap().push(name);
            answer
        }));
    }
    events.fire(ServerMessage::PrincessDied);
    events.fire(ServerMessage::PrincessLife(1));
    assert_eq!(*order.lock().unwrap(), vec![1, 2, 3, 1, 3]);
}

#[test]
fn token_from_chars_keeps_the_chars() {
    let t = Token::from_chars(&vec!['a', 'B', '7']);
    assert_eq!(t, Token("aB7".to_string()));
    assert_eq!(Token::from_chars(&vec![]), Token(String::new()));
}
