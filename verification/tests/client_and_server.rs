use ld46::client::{connect_request, State};
use ld46::model::{ClientMessage, Id, ServerMessage, Token};
use ld46::options::{NetOpts, Opts, DEFAULT_PORT};
use ld46::server::{Client, ModelWrapper};
use std::sync::{Arc, Mutex};

type Sub = Box<dyn Fn(ServerMessage) -> bool + Send + Sync>;

fn inbox() -> (Sub, Arc<Mutex<Vec<ServerMessage>>>) {
    let seen = Arc::new(Mutex::new(Vec::new()));
    let log = seen.clone();
    let sub: Sub = Box::new(move |event| {
        log.lock().unwrap().push(event);
        true
    });
    (sub, seen)
}

#[test]
fn client_state_follows_messages() {
    let mut state = State::default();
    assert!(!state.princess_alive);
    assert_eq!(state.princess_life, 0);
    state.apply(&ServerMessage::PrincessLife(42));
    assert!(state.princess_alive);
    assert_eq!(state.princess_life, 42);
    state.apply(&ServerMessage::Feed(Id(3)));
    assert_eq!(state.princess_life, 42);
    state.apply(&ServerMessage::PrincessDied);
    assert!(!state.princess_alive);
    assert_eq!(state.princess_life, 42);
    state.update(&vec![ServerMessage::PrincessLife(7), ServerMessage::Token(Token("t".to_string()))]);
    assert!(state.princess_alive);
    assert_eq!(state.princess_life, 7);
}

#[test]
fn displayed_life_is_never_negative() {
    let state = State { princess_life: -3, princess_alive: false };
    assert_eq!(state.displayed_life(), 0);
    let state = State { princess_life: 12, princess_alive: true };
    assert_eq!(state.displayed_life(), 12);
}

#[test]
fn client_follows_the_server_through_death_and_rebirth() {
    let mut server: ModelWrapper<Sub> = ModelWrapper::default();
    let mut session = Client::new();
    let (handler, seen) = inbox();
    let reply = session.handle(&mut server, ClientMessage::Connect(Token("me".to_string())), handler);
    assert!(reply.is_none());
    let mut state = State::default();
    for tick in 1..=66 {
        server.tick();
        let messages = std::mem::take(&mut *seen.lock().unwrap());
        state.update(&messages);
        if tick < 60 {
            assert!(state.princess_alive);
            assert_eq!(state.princess_life, 60 - tick);
        } else if tick < 66 {
            assert!(!state.princess_alive);
        } else {
            assert!(state.princess_alive);
            assert_eq!(state.princess_life, 60);
        }
    }
}

#[test]
fn get_token_is_answered_with_a_fresh_token() {
    let mut server: ModelWrapper<Sub> = ModelWrapper::default();
    let mut session = Client::new();
    let (handler, seen) = inbox();
    let reply = session.handle(&mut server, ClientMessage::GetToken, handler);
    match reply {
        Some(ServerMessage::Token(Token(text))) => {
            assert_eq!(text.len(), 16);
            assert!(text.chars().all(|c| c.is_ascii_alphanumeric()));
        }
        other => panic!("expected a token, got {:?}", other),
    }
    assert!(session.player_id.is_none());
    server.tick();
    assert!(seen.lock().unwrap().is_empty());
}

#[test]
fn feed_before_connecting_is_ignored() {
    let mut server: ModelWrapper<Sub> = ModelWrapper::default();
    let mut session = Client::new();
    let (handler, seen) = inbox();
    let reply = session.handle(&mut server, ClientMessage::Feed, handler);
    assert!(reply.is_none());
    let (watcher, watched) = inbox();
    server.events.subscribe(watcher);
    server.tick();
    let got = watched.lock().unwrap().clone();
    assert!(matches!(got[..], [ServerMessage::PrincessLife(59)]));
    assert!(seen.lock().unwrap().is_empty());
}

#[test]
fn connected_client_feeds_and_hears_it() {
    let mut server: ModelWrapper<Sub> = ModelWrapper::default();
    let mut session = Client::new();
    let (handler, seen) = inbox();
    session.handle(&mut server, ClientMessage::Connect(Token("me".to_string())), handler);
    assert_eq!(session.player_id, Some(Id(1)));
    let (unused, _) = inbox();
    session.handle(&mut server, ClientMessage::Feed, unused);
    let got = seen.lock().unwrap().clone();
    assert!(matches!(got[..], [ServerMessage::Feed(Id(1)), ServerMessage::PrincessLife(70)]));
}

#[test]
fn closing_a_session_lets_the_game_go_on() {
    let mut server: ModelWrapper<Sub> = ModelWrapper::default();
    let mut first = Client::new();
    let (handler, _) = inbox();
    first.handle(&mut server, ClientMessage::Connect(Token("a".to_string())), handler);
    first.close(&mut server);
    let mut second = Client::new();
    let (handler, seen) = inbox();
    second.handle(&mut server, ClientMessage::Connect(Token("b".to_string())), handler);
    assert_eq!(second.player_id, Some(Id(2)));
    let (unused, _) = inbox();
    second.handle(&mut server, ClientMessage::Feed, unused);
    let got = seen.lock().unwrap().clone();
    assert!(matches!(got[..], [ServerMessage::Feed(Id(2)), ServerMessage::PrincessLife(70)]));
    Client::new().close(&mut server);
}

fn empty_net() -> NetOpts {
    NetOpts { server_host: String::new(), server_port: 0, connect: String::new() }
}

#[test]
fn normalize_fills_in_defaults() {
    let mut net = empty_net();
    net.normalize(None, None, None);
    assert_eq!(net.server_host, "127.0.0.1");
    assert_eq!(net.server_port, 1155);
    assert_eq!(DEFAULT_PORT, 1155);
    assert_eq!(net.connect, "ws://localhost:1155");
}

#[test]
fn normalize_prefers_build_time_values() {
    let mut net = empty_net();
    net.normalize(Some("example.org"), Some("0042"), Some("ws://example.org:42"));
    assert_eq!(net.server_host, "example.org");
    assert_eq!(net.server_port, 42);
    assert_eq!(net.connect, "ws://example.org:42");
    let mut net = empty_net();
    net.normalize(None, Some("+8080"), None);
    assert_eq!(net.server_port, 8080);
}

#[test]
fn normalize_keeps_what_was_given() {
    let mut net = NetOpts { server_host: "h".to_string(), server_port: 9, connect: "c".to_string() };
    net.normalize(Some("other"), Some("not a port"), Some("other"));
    assert_eq!(net.server_host, "h");
    assert_eq!(net.server_port, 9);
    assert_eq!(net.connect, "c");
}

#[test]
fn normalize_twice_is_normalize_once() {
    let mut net = empty_net();
    net.normalize(Some(""), Some("0"), None);
    assert_eq!(net.server_host, "");
    assert_eq!(net.server_port, 0);
    net.normalize(Some(""), Some("0"), None);
    assert_eq!(net.server_host, "");
    assert_eq!(net.server_port, 0);
    assert_eq!(net.connect, "ws://localhost:1155");
}

#[test]
fn opts_normalize_touches_only_the_network_options() {
    let mut opts = Opts { net_opts: empty_net(), name: "<noname>".to_string(), no_client: true, start_server: false };
    opts.normalize(None, Some("65535"), None);
    assert_eq!(opts.net_opts.server_port, 65535);
    assert_eq!(opts.net_opts.server_host, "127.0.0.1");
    assert_eq!(opts.name, "<noname>");
    assert!(opts.no_client);
    assert!(!opts.start_server);
}

#[test]
fn connect_request_follows_a_token() {
    match connect_request(Some(ServerMessage::Token(Token("tok".to_string())))) {
        Some(ClientMessage::Connect(token)) => assert_eq!(token, Token("tok".to_string())),
        other => panic!("expected Connect, got {:?}", other),
    }
    assert!(connect_request(Some(ServerMessage::PrincessDied)).is_none());
    assert!(connect_request(None).is_none());
}
