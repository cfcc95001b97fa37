use core::cmp::Ordering;
use routing::comm::Address;
use routing::command::{startup_events, Command, Connected, Event};
use routing::error::RoutingError;
use routing::comm::SendStatus;
use routing::name::XorName;
use routing::peer::{cmp_distance, sorted_by_distance_to, user_message_targets, Peer};

fn name(first: u8, last: u8) -> XorName {
    let mut bytes = [0u8; 32];
    bytes[0] = first;
    bytes[31] = last;
    XorName(bytes)
}

fn peer(first: u8, last: u8, port: u16) -> Peer {
    Peer { name: name(first, last), addr: Address::V4 { ip: 1, port }, age: 5 }
}

#[test]
fn distance_is_exclusive_or() {
    let target = name(0b1000_0000, 0);
    // The first byte decides: 0x80 ^ 0x81 = 1 is less than 0x80 ^ 0 = 0x80.
    assert_eq!(cmp_distance(&target, &name(0b1000_0001, 9), &name(0, 0)), Ordering::Less);
    assert_eq!(cmp_distance(&target, &name(0, 0), &name(0b1000_0001, 9)), Ordering::Greater);
    // As plain numbers the order would be the other way round.
    assert!(name(0, 0) < name(0b1000_0001, 9));
    assert_eq!(cmp_distance(&target, &name(7, 7), &name(7, 7)), Ordering::Equal);
    // Equal up to the last byte.
    assert_eq!(cmp_distance(&name(1, 0xff), &name(1, 0xf0), &name(1, 0x0f)), Ordering::Less);
}

#[test]
fn peers_sorted_closest_first() {
    let target = name(0xf0, 0);
    let peers = vec![peer(0x00, 0, 1), peer(0xf1, 0, 2), peer(0xf0, 1, 3), peer(0x70, 0, 4), peer(0xf0, 0, 5)];
    let sorted = sorted_by_distance_to(peers.clone(), &target);
    let ports: Vec<u16> = sorted
        .iter()
        .map(|peer| match peer.addr {
            Address::V4 { port, .. } => port,
            Address::V6 { port, .. } => port,
        })
        .collect();
    assert_eq!(ports, [5, 3, 2, 4, 1]);
    assert_eq!(sorted.len(), peers.len());
    for peer in &peers {
        assert!(sorted.contains(peer));
    }
    assert!(sorted_by_distance_to(Vec::new(), &target).is_empty());
}

#[test]
fn node_starts_connected_and_the_first_as_elder() {
    assert_eq!(startup_events(true), [Event::Connected(Connected::First), Event::PromotedToElder]);
    assert_eq!(startup_events(false), [Event::Connected(Connected::First)]);
}

#[test]
fn message_to_client_goes_to_a_group_of_one() {
    let client = Address::V4 { ip: 9, port: 9 };
    assert_eq!(
        Command::send_to_client(client, vec![1, 2]),
        Command::SendMessage { recipients: vec![client], delivery_group_size: 1, message: vec![1, 2] }
    );
    assert_eq!(
        Command::send_user_message(name(1, 1), name(2, 2), vec![3]),
        Command::SendUserMessage { src: name(1, 1), dst: name(2, 2), content: vec![3] }
    );
}

#[test]
fn send_status_converts_to_result() {
    let done: Result<(), RoutingError> = SendStatus { remaining: 0, failed_recipients: vec![] }.into();
    assert_eq!(done, Ok(()));
    let short: Result<(), RoutingError> = SendStatus { remaining: 2, failed_recipients: vec![] }.into();
    assert_eq!(short, Err(RoutingError::FailedSend));
}

#[test]
fn peers_of_one_name_keep_their_order() {
    let target = name(0xf0, 0);
    let peers = vec![peer(0x01, 0, 1), peer(0xf0, 0, 2), peer(0x01, 0, 3), peer(0xf0, 0, 4), peer(0x01, 0, 5)];
    let sorted = sorted_by_distance_to(peers.clone(), &target);
    assert_eq!(sorted, [peers[1], peers[3], peers[0], peers[2], peers[4]]);
}

#[test]
fn user_message_goes_to_the_closest_elders() {
    let target = name(0xf0, 0);
    let elders = vec![peer(0x00, 0, 1), peer(0xf1, 0, 2), peer(0xf0, 1, 3), peer(0x70, 0, 4), peer(0xf0, 0, 5)];
    let port = |port: u16| Address::V4 { ip: 1, port };
    let (recipients, group) = user_message_targets(elders.clone(), &target, 3);
    assert_eq!(recipients, [port(5), port(3), port(2), port(4), port(1)]);
    assert_eq!(group, 3);
    let (recipients, group) = user_message_targets(elders.clone(), &target, 7);
    assert_eq!(recipients.len(), 5);
    assert_eq!(group, 5);
    let (_, group) = user_message_targets(elders, &target, 5);
    assert_eq!(group, 5);
    let (recipients, group) = user_message_targets(Vec::new(), &target, 7);
    assert!(recipients.is_empty());
    assert_eq!(group, 0);
    let (_, group) = user_message_targets(vec![peer(1, 1, 1)], &target, 0);
    assert_eq!(group, 0);
}
