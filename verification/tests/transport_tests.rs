use bitstask::transport::{ChannelTable, ReadOutcome, TransportError};

fn name(s: &str) -> Vec<u8> {
    s.as_bytes().to_vec()
}

#[test]
fn creation_is_first_instance_only() {
    let mut table = ChannelTable::new();
    assert_eq!(table.create(name("chan-a")), Ok(()));
    assert_eq!(table.create(name("chan-a")), Err(TransportError::AlreadyExists));
    assert_eq!(table.create(name("chan-b")), Ok(()));
}

#[test]
fn open_requires_the_server_side_first() {
    let mut table = ChannelTable::new();
    assert_eq!(table.open(&name("chan")), Err(TransportError::NotFound));

    table.create(name("chan")).unwrap();
    assert_eq!(table.is_connected(&name("chan")), Ok(false));
    assert_eq!(table.open(&name("chan")), Ok(()));
    assert_eq!(table.is_connected(&name("chan")), Ok(true));

    // Single-connection-only: a second peer is turned away.
    assert_eq!(table.open(&name("chan")), Err(TransportError::AlreadyConnected));
}

#[test]
fn writing_needs_a_connection() {
    let mut table = ChannelTable::new();
    table.create(name("chan")).unwrap();
    assert_eq!(
        table.client_write(&name("chan"), b"early".to_vec()),
        Err(TransportError::NotConnected)
    );
    assert_eq!(
        table.server_write(&name("chan"), b"early".to_vec()),
        Err(TransportError::NotConnected)
    );
    assert_eq!(
        table.client_write(&name("ghost"), b"x".to_vec()),
        Err(TransportError::NotFound)
    );
}

#[test]
fn messages_arrive_in_order_without_loss() {
    let mut table = ChannelTable::new();
    table.create(name("chan")).unwrap();
    table.open(&name("chan")).unwrap();

    table.client_write(&name("chan"), b"one".to_vec()).unwrap();
    table.client_write(&name("chan"), b"two".to_vec()).unwrap();
    table.client_write(&name("chan"), b"three".to_vec()).unwrap();

    assert_eq!(
        table.server_read(&name("chan")),
        Ok(ReadOutcome::Message(b"one".to_vec()))
    );
    assert_eq!(
        table.server_read(&name("chan")),
        Ok(ReadOutcome::Message(b"two".to_vec()))
    );
    assert_eq!(
        table.server_read(&name("chan")),
        Ok(ReadOutcome::Message(b"three".to_vec()))
    );
    // Nothing queued, peer still there: a real read would block.
    assert_eq!(table.server_read(&name("chan")), Ok(ReadOutcome::Pending));
}

#[test]
fn both_directions_are_independent() {
    let mut table = ChannelTable::new();
    table.create(name("chan")).unwrap();
    table.open(&name("chan")).unwrap();

    table.server_write(&name("chan"), b"reply".to_vec()).unwrap();
    table.client_write(&name("chan"), b"request".to_vec()).unwrap();

    assert_eq!(
        table.client_read(&name("chan")),
        Ok(ReadOutcome::Message(b"reply".to_vec()))
    );
    assert_eq!(
        table.server_read(&name("chan")),
        Ok(ReadOutcome::Message(b"request".to_vec()))
    );
}

#[test]
fn a_closed_peer_reads_as_clean_end_of_stream() {
    let mut table = ChannelTable::new();
    table.create(name("chan")).unwrap();
    table.open(&name("chan")).unwrap();

    table.client_write(&name("chan"), b"last words".to_vec()).unwrap();
    table.close_client(&name("chan")).unwrap();

    // Queued messages still arrive, then the stream ends; no error.
    assert_eq!(
        table.server_read(&name("chan")),
        Ok(ReadOutcome::Message(b"last words".to_vec()))
    );
    assert_eq!(table.server_read(&name("chan")), Ok(ReadOutcome::EndOfStream));

    // And symmetrically when the server goes away.
    table.create(name("chan2")).unwrap();
    table.open(&name("chan2")).unwrap();
    table.close_server(&name("chan2")).unwrap();
    assert_eq!(table.client_read(&name("chan2")), Ok(ReadOutcome::EndOfStream));
}
