use telnet_chat::client::{ClientHandle, FromServer, SendError};
use telnet_chat::main_loop::{Registry, ServerHandle, ToServer};
use telnet_chat::ClientId;
use tokio::runtime::Runtime;
use tokio::sync::mpsc::{channel, Receiver};

fn runtime() -> Runtime {
    tokio::runtime::Builder::new_current_thread().build().unwrap()
}

fn client(rt: &Runtime, id: usize, capacity: usize) -> (ClientHandle, Receiver<FromServer>) {
    let (send, recv) = channel(capacity);
    let task = rt.spawn(std::future::pending::<()>());
    (ClientHandle::new(ClientId(id), send, task), recv)
}

fn payload(recv: &mut Receiver<FromServer>) -> Option<Vec<u8>> {
    match recv.try_recv() {
        Ok(FromServer::Message(m)) => Some(m),
        Err(_) => None,
    }
}

#[test]
fn identifiers_are_distinct_and_increasing() {
    let (send, _recv) = channel(64);
    let handle = ServerHandle::new(send);
    let other = handle.clone();
    assert_eq!(handle.next_id(), ClientId(0));
    assert_eq!(other.next_id(), ClientId(1));
    assert_eq!(handle.next_id(), ClientId(2));
}

#[test]
fn chat_reaches_everyone_but_the_sender() {
    let rt = runtime();
    let mut reg = Registry::new();
    let (a, mut ra) = client(&rt, 0, 64);
    let (b, mut rb) = client(&rt, 1, 64);
    let (c, mut rc) = client(&rt, 2, 64);
    reg.insert(a);
    reg.insert(b);
    reg.insert(c);
    let report = reg.broadcast(ClientId(0), &b"hi".to_vec());
    assert!(report.evicted.is_empty());
    let mut delivered = report.delivered.clone();
    delivered.sort_by_key(|c| c.0);
    assert_eq!(delivered, vec![ClientId(1), ClientId(2)]);
    assert_eq!(payload(&mut ra), None);
    assert_eq!(payload(&mut rb), Some(b"hi".to_vec()));
    assert_eq!(payload(&mut rc), Some(b"hi".to_vec()));
    assert!(reg.contains(ClientId(0)) && reg.contains(ClientId(1)) && reg.contains(ClientId(2)));
}

#[test]
fn full_connection_is_evicted_and_others_still_served() {
    let rt = runtime();
    let mut reg = Registry::new();
    let (a, mut ra) = client(&rt, 0, 4);
    let (mut b, mut rb) = client(&rt, 1, 1);
    let (c, mut rc) = client(&rt, 2, 4);
    assert_eq!(b.send(FromServer::Message(b"old".to_vec())), Ok(()));
    assert_eq!(b.send(FromServer::Message(b"full".to_vec())), Err(SendError::CannotKeepUp));
    reg.insert(a);
    reg.insert(b);
    reg.insert(c);
    let report = reg.broadcast(ClientId(0), &b"hi".to_vec());
    assert_eq!(report.evicted, vec![ClientId(1)]);
    assert_eq!(report.delivered, vec![ClientId(2)]);
    assert_eq!(payload(&mut rc), Some(b"hi".to_vec()));
    assert_eq!(payload(&mut ra), None);
    assert!(!reg.contains(ClientId(1)));
    assert!(reg.contains(ClientId(0)) && reg.contains(ClientId(2)));
    assert_eq!(payload(&mut rb), Some(b"old".to_vec()));
    assert_eq!(payload(&mut rb), None);
    let report = reg.broadcast(ClientId(0), &b"again".to_vec());
    assert_eq!(report.delivered, vec![ClientId(2)]);
    assert!(report.evicted.is_empty());
    assert_eq!(payload(&mut rc), Some(b"again".to_vec()));
    assert_eq!(payload(&mut rb), None);
}

#[test]
fn lines_arrive_in_registry_order() {
    let rt = runtime();
    let mut reg = Registry::new();
    let (a, _ra) = client(&rt, 0, 8);
    let (b, mut rb) = client(&rt, 1, 8);
    let (c, _rc) = client(&rt, 2, 8);
    reg.insert(a);
    reg.insert(b);
    reg.insert(c);
    assert!(reg.handle(ToServer::Message(ClientId(0), b"one".to_vec())).is_ok());
    assert!(reg.handle(ToServer::Message(ClientId(2), b"two".to_vec())).is_ok());
    assert_eq!(payload(&mut rb), Some(b"one".to_vec()));
    assert_eq!(payload(&mut rb), Some(b"two".to_vec()));
    assert_eq!(payload(&mut rb), None);
}

#[test]
fn closed_connection_is_evicted() {
    let rt = runtime();
    let mut reg = Registry::new();
    let (a, _ra) = client(&rt, 0, 4);
    let (b, rb) = client(&rt, 1, 4);
    drop(rb);
    reg.insert(a);
    reg.insert(b);
    let report = reg.broadcast(ClientId(0), &b"x".to_vec());
    assert_eq!(report.evicted, vec![ClientId(1)]);
    assert!(report.delivered.is_empty());
    assert!(!reg.contains(ClientId(1)));
}

#[test]
fn messages_drive_the_registry() {
    let rt = runtime();
    let mut reg = Registry::new();
    let (a, _ra) = client(&rt, 5, 4);
    let (b, mut rb) = client(&rt, 6, 4);
    assert!(matches!(reg.handle(ToServer::NewClient(a)), Ok(None)));
    assert!(matches!(reg.handle(ToServer::NewClient(b)), Ok(None)));
    assert!(reg.contains(ClientId(5)) && reg.contains(ClientId(6)));
    match reg.handle(ToServer::Message(ClientId(5), b"yo".to_vec())) {
        Ok(Some(report)) => {
            assert_eq!(report.delivered, vec![ClientId(6)]);
            assert!(report.evicted.is_empty());
        },
        _ => panic!("expected a relay report"),
    }
    assert_eq!(payload(&mut rb), Some(b"yo".to_vec()));
    let err = std::io::Error::new(std::io::ErrorKind::Other, "listener failed");
    match reg.handle(ToServer::FatalError(err)) {
        Err(e) => assert_eq!(e.to_string(), "listener failed"),
        Ok(_) => panic!("expected the fatal error back"),
    }
    assert!(reg.contains(ClientId(5)) && reg.contains(ClientId(6)));
}

#[test]
fn empty_registry_broadcast() {
    let mut reg = Registry::new();
    assert!(!reg.contains(ClientId(0)));
    let report = reg.broadcast(ClientId(0), &Vec::new());
    assert!(report.delivered.is_empty() && report.evicted.is_empty());
}
