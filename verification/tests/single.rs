use dedup_numbers::single::handler::{Handler, NoopHandler, StoreHandler};
use dedup_numbers::single::server::Server;
use dedup_numbers::single::store::{InMemoryStore, Store};

#[test]
fn store_returns_true_if_number_has_not_been_seen() {
    let mut s = InMemoryStore::new();
    let actual = s.save(1).unwrap();
    assert_eq!(actual, true);
}

#[test]
fn store_returns_false_if_number_has_been_seen() {
    let mut s = InMemoryStore::new();
    s.save(1);
    let actual = s.save(1).unwrap();
    assert_eq!(actual, false);
}

#[test]
fn store_handler_saves_parsed_value_to_store() {
    let mut h = StoreHandler::new(InMemoryStore::new());
    let text = "999999999\n".as_bytes();
    h.handle_client(text);

    assert!(h.store().contains(999999999));
    assert!(!h.store().contains(99999999));
}

#[test]
fn store_handler_increments_unique_counter() {
    let mut h = StoreHandler::new(InMemoryStore::new());
    let text = "999999999\n".as_bytes();
    h.handle_client(text);
    let (unique, duplicate) = h.get_stats();
    assert_eq!(1, unique);
    assert_eq!(0, duplicate);
    assert_eq!(1, duplicate + u64::from(unique)); // total
}

#[test]
fn store_handler_increments_duplicate_counter() {
    let mut h = StoreHandler::new(InMemoryStore::new());
    let text = "999999999\n999999999\n".as_bytes();
    h.handle_client(text);
    let (unique, duplicate) = h.get_stats();
    assert_eq!(1, unique);
    assert_eq!(1, duplicate);
    assert_eq!(2, duplicate + u64::from(unique)); // total
}

#[test]
fn store_handler_stops_at_the_first_bad_line() {
    let mut h = StoreHandler::new(InMemoryStore::new());
    h.handle_client("1\n2\n1\nthree\n4\n".as_bytes());
    assert_eq!((2, 1), h.get_stats());
    assert!(!h.store().contains(4));
    h.handle_client("4\n1\n".as_bytes());
    assert_eq!((3, 2), h.get_stats());
    assert!(h.store().contains(4));
}

#[test]
fn store_handler_counts_across_connections() {
    let mut h = StoreHandler::new(InMemoryStore::new());
    h.handle_client("9\n9\n42\n9\n".as_bytes());
    assert_eq!((2, 2), h.get_stats());
    h.handle_client("".as_bytes());
    assert_eq!((2, 2), h.get_stats());
    h.handle_client("42".as_bytes());
    assert_eq!((2, 3), h.get_stats());
}

#[test]
fn noop_handler_counts_nothing() {
    let mut h = NoopHandler::new();
    assert_eq!((u32::MAX, u64::MAX), h.get_stats());
    h.handle_client("1\n2\n".as_bytes());
    assert_eq!((u32::MAX, u64::MAX), h.get_stats());
}

#[test]
fn single_server_hands_the_connection_to_its_handler() {
    let handler = StoreHandler::new(InMemoryStore::new());
    let mut server = Server::new(String::from("localhost"), 4000, handler);
    assert_eq!("localhost:4000", server.address());
    server.handle_connection("999999999\n999999999\n5\n".as_bytes());
    assert_eq!((2, 1), server.handler().get_stats());
    assert!(server.handler().store().contains(5));
}
