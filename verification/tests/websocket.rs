use eth2_behaviour::text::to_decimal;
use eth2_behaviour::websocket::{
    broadcast_result, start_server, Config, StartRequest, WebSocketSender,
};

#[test]
fn a_dummy_sends_nothing() {
    let sender = WebSocketSender::dummy();
    assert_eq!(sender.send_string("hello".to_string()), Ok(()));
    assert_eq!(sender.send_string(String::new()), Ok(()));
}

#[test]
fn a_running_server_takes_texts() {
    let server = ws::WebSocket::new(|_| |_| Ok(())).unwrap();
    let sender = WebSocketSender::to_server(server.broadcaster());
    assert_eq!(sender.send_string("hello".to_string()), Ok(()));
}

#[test]
fn a_dropped_server_takes_none() {
    let server = ws::WebSocket::new(|_| |_| Ok(())).unwrap();
    let sender = WebSocketSender::to_server(server.broadcaster());
    drop(server);
    let message = sender.send_string("hello".to_string()).unwrap_err();
    assert!(message.starts_with("Unable to broadcast to websocket clients: WS Error <"));
}

#[test]
fn broadcast_results() {
    assert_eq!(broadcast_result(Ok(())), Ok(()));
    assert_eq!(
        broadcast_result(Err("queue is full".to_string())),
        Err("Unable to broadcast to websocket clients: queue is full".to_string())
    );
}

#[test]
fn decimal_numbers() {
    for n in vec![0u16, 7, 9, 10, 11, 99, 100, 5053, 40905, 65535] {
        assert_eq!(to_decimal(n), n.to_string());
    }
}

fn config() -> Config {
    Config { listen_address: "127.0.0.1".to_string(), port: 5053 }
}

#[test]
fn a_server_starts_in_three_steps() {
    let start = start_server(&config());
    assert_eq!(start.request(), StartRequest::Initialize);
    let start = start.reply(Ok(())).ok().unwrap();
    assert_eq!(start.request(), StartRequest::Bind("127.0.0.1:5053".to_string()));
    let start = start.reply(Ok(())).ok().unwrap();
    assert_eq!(start.request(), StartRequest::ReadLocalAddr);
    let start = start.reply(Ok(())).ok().unwrap();
    assert_eq!(start.request(), StartRequest::Run);
    let server = ws::WebSocket::new(|_| |_| Ok(())).unwrap();
    let sender = start.finish(server.broadcaster());
    assert_eq!(sender.send_string("hello".to_string()), Ok(()));
    drop(server);
    assert!(sender.send_string("hello".to_string()).is_err());
}

#[test]
fn a_start_fails_with_the_message_of_its_step() {
    let start = start_server(&config());
    assert_eq!(
        start.reply(Err("E".to_string())).err(),
        Some("Failed to initialize websocket server: E".to_string())
    );
    let start = start_server(&config()).reply(Ok(())).ok().unwrap();
    assert_eq!(
        start.reply(Err("E".to_string())).err(),
        Some("Failed to bind websocket server to 127.0.0.1:5053: E".to_string())
    );
    let start = start_server(&config()).reply(Ok(())).ok().unwrap().reply(Ok(())).ok().unwrap();
    assert_eq!(
        start.reply(Err("E".to_string())).err(),
        Some("Failed to read listening addr from websocket server: E".to_string())
    );
}

#[test]
fn servers_on_different_ports_bind_to_different_addresses() {
    let bound = |port: u16| {
        let config = Config { listen_address: "0.0.0.0".to_string(), port };
        start_server(&config).reply(Ok(())).ok().unwrap().request()
    };
    assert_eq!(bound(1), StartRequest::Bind("0.0.0.0:1".to_string()));
    assert_eq!(bound(0), StartRequest::Bind("0.0.0.0:0".to_string()));
    assert_eq!(bound(65535), StartRequest::Bind("0.0.0.0:65535".to_string()));
    assert_ne!(bound(10), bound(1));
}
