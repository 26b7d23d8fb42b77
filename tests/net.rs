use blockgame::net::{classify, NetError, Received, StubClient, StubServer};

#[test]
fn stub_client_round_trip() {
    let (mut client, to_client, from_client) = StubClient::<Vec<u8>>::new();
    assert_eq!(client.send(vec![1, 2, 3]), Ok(()));
    assert_eq!(from_client.try_recv().unwrap(), vec![1, 2, 3]);
    to_client.send(vec![9]).unwrap();
    assert_eq!(client.recv(), Ok(vec![9]));
}

#[test]
fn stub_client_empty_queue() {
    let (mut client, _to_client, _from_client) = StubClient::<u32>::new();
    assert_eq!(client.recv(), Err(NetError::NoMore));
}

#[test]
fn stub_client_disconnected() {
    let (mut client, to_client, from_client) = StubClient::<u32>::new();
    drop(to_client);
    drop(from_client);
    assert_eq!(client.recv(), Err(NetError::Disconnected));
    assert_eq!(client.send(5), Err(NetError::Disconnected));
}

#[test]
fn stub_client_keeps_order() {
    let (mut client, to_client, _from_client) = StubClient::<u32>::new();
    to_client.send(1).unwrap();
    to_client.send(2).unwrap();
    assert_eq!(client.recv(), Ok(1));
    assert_eq!(client.recv(), Ok(2));
    assert_eq!(client.recv(), Err(NetError::NoMore));
}

#[test]
fn classify_each_read() {
    assert_eq!(classify(Received::Message(7u8)), Ok(7));
    assert_eq!(classify(Received::<u8>::Empty), Err(NetError::NoMore));
    assert_eq!(classify(Received::<u8>::Closed), Err(NetError::Disconnected));
}

#[test]
fn stub_server_round_trip() {
    let (mut server, to_server, from_server) = StubServer::<Vec<u8>, u16>::new();
    assert_eq!(server.recv(), Err(NetError::NoMore));
    to_server.send((vec![4, 2], 7)).unwrap();
    assert_eq!(server.recv(), Ok((vec![4, 2], 7)));
    assert_eq!(server.send(vec![1], 8), Ok(()));
    assert_eq!(from_server.try_recv().unwrap(), (vec![1], 8));
    drop(to_server);
    drop(from_server);
    assert_eq!(server.recv(), Err(NetError::Disconnected));
    assert_eq!(server.send(vec![1], 8), Err(NetError::Disconnected));
}
