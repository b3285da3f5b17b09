use ws_chat::event::{text_event, Event, EventAddress, EventKind, EventSource};
use ws_chat::hub::{broadcast, broadcast_buffer, on_queue, Delivery, Dispatch, HubError};
use ws_chat::registry::Registry;

type Sink = Vec<Vec<u8>>;

fn registry_of(ids: &[u128]) -> Registry<Sink> {
    let mut registry = Registry::new();
    for id in ids {
        assert!(registry.insert(*id, Vec::new()).is_ok());
    }
    registry
}

fn deliver(registry: &mut Registry<Sink>, dispatch: &Dispatch) {
    for id in &dispatch.delivery.targets {
        registry.get_mut(*id).unwrap().push(dispatch.buffer.clone());
    }
}

fn received(registry: &mut Registry<Sink>, id: u128) -> Sink {
    registry.get_mut(id).unwrap().clone()
}

#[test]
fn registry_starts_empty() {
    let mut registry: Registry<Sink> = Registry::new();
    assert_eq!(registry.len(), 0);
    assert!(!registry.contains(1));
    assert!(registry.ids().is_empty());
    assert!(registry.get_mut(1).is_none());
    assert!(registry.remove(1).is_none());
}

#[test]
fn registry_refuses_a_second_insert() {
    let mut registry: Registry<u32> = Registry::new();
    assert_eq!(registry.insert(7, 100), Ok(()));
    assert_eq!(registry.insert(7, 200), Err(200));
    assert_eq!(registry.len(), 1);
    assert_eq!(registry.get_mut(7).map(|sink| *sink), Some(100));
    assert_eq!(registry.insert(8, 300), Ok(()));
    assert_eq!(registry.len(), 2);
}

#[test]
fn registry_get_mut_writes_through() {
    let mut registry: Registry<u32> = Registry::new();
    registry.insert(1, 10).unwrap();
    registry.insert(2, 20).unwrap();
    *registry.get_mut(2).unwrap() += 5;
    assert_eq!(registry.remove(2), Some(25));
    assert_eq!(registry.remove(1), Some(10));
}

#[test]
fn registry_remove_is_idempotent() {
    let mut registry: Registry<u32> = Registry::new();
    registry.insert(1, 10).unwrap();
    registry.insert(2, 20).unwrap();
    registry.insert(3, 30).unwrap();
    assert_eq!(registry.remove(2), Some(20));
    let mut once = registry.ids();
    once.sort();
    assert_eq!(registry.remove(2), None);
    let mut twice = registry.ids();
    twice.sort();
    assert_eq!(once, vec![1, 3]);
    assert_eq!(twice, once);
    assert_eq!(registry.len(), 2);
    assert_eq!(registry.get_mut(1).map(|sink| *sink), Some(10));
    assert_eq!(registry.get_mut(3).map(|sink| *sink), Some(30));
    assert!(!registry.contains(2));
}

#[test]
fn broadcast_to_all_reaches_every_sink_once() {
    for count in [0u128, 1, 2, 5, 40] {
        let ids: Vec<u128> = (0..count).map(|i| i * 1000 + 17).collect();
        let mut registry = registry_of(&ids);
        let event = Event {
            kind: EventKind::Text,
            address: EventAddress::All,
            payload: b"to everyone".to_vec(),
        };
        let dispatch = broadcast(&event, &registry);
        assert!(dispatch.delivery.misses.is_empty());
        let mut targets = dispatch.delivery.targets.clone();
        targets.sort();
        assert_eq!(targets, ids);
        deliver(&mut registry, &dispatch);
        let mut expected = vec![0x81u8, 11];
        expected.extend_from_slice(b"to everyone");
        for id in &ids {
            assert_eq!(received(&mut registry, *id), vec![expected.clone()]);
        }
    }
}

#[test]
fn broadcast_to_an_absent_client_is_a_miss() {
    let mut registry = registry_of(&[1, 2]);
    let lost = Event {
        kind: EventKind::Text,
        address: EventAddress::Client(99),
        payload: b"lost".to_vec(),
    };
    let dispatch = broadcast(&lost, &registry);
    assert!(dispatch.delivery.targets.is_empty());
    assert_eq!(dispatch.delivery.misses, vec![99]);
    deliver(&mut registry, &dispatch);
    assert_eq!(registry.len(), 2);

    let next = Event {
        kind: EventKind::Binary,
        address: EventAddress::Client(2),
        payload: vec![1, 2, 3],
    };
    let dispatch = broadcast(&next, &registry);
    assert_eq!(dispatch.delivery.targets, vec![2]);
    assert!(dispatch.delivery.misses.is_empty());
    deliver(&mut registry, &dispatch);
    assert!(received(&mut registry, 1).is_empty());
    assert_eq!(received(&mut registry, 2), vec![vec![0x82, 3, 1, 2, 3]]);
}

#[test]
fn broadcast_to_a_range_keeps_list_order() {
    let registry = registry_of(&[5, 3, 9]);
    let address = EventAddress::ClientRange(vec![9, 4, 3, 9, 8, 5]);
    let delivery = broadcast_buffer(&registry, &address);
    assert_eq!(
        delivery,
        Delivery { targets: vec![9, 3, 9, 5], misses: vec![4, 8] }
    );
    let delivery = broadcast_buffer(&registry, &EventAddress::ClientRange(Vec::new()));
    assert_eq!(delivery, Delivery { targets: Vec::new(), misses: Vec::new() });
}

#[test]
fn broadcast_close_is_the_bare_close_frame() {
    let registry = registry_of(&[1]);
    let event = Event {
        kind: EventKind::Close,
        address: EventAddress::Client(1),
        payload: b"whatever".to_vec(),
    };
    let dispatch = broadcast(&event, &registry);
    assert_eq!(dispatch.buffer, vec![0x88]);
    assert_eq!(dispatch.delivery.targets, vec![1]);
}

#[test]
fn text_event_carries_the_utf8_bytes() {
    let event = text_event("héllo".to_string(), EventAddress::Client(4));
    assert_eq!(event.kind, EventKind::Text);
    assert_eq!(event.address, EventAddress::Client(4));
    assert_eq!(event.payload, vec![b'h', 0xc3, 0xa9, b'l', b'l', b'o']);
    let event = text_event(String::new(), EventAddress::All);
    assert!(event.payload.is_empty());
    assert_eq!(event.address, EventAddress::All);
}

#[test]
fn event_sources_compare() {
    assert_eq!(EventSource::Client(3), EventSource::Client(3));
    assert_ne!(EventSource::Client(3), EventSource::System);
}

#[test]
fn the_end_of_the_queue_stops_the_hub() {
    let registry = registry_of(&[1, 2]);
    assert_eq!(on_queue(None, &registry), Err(HubError::QueueClosed));
    let event = Event {
        kind: EventKind::Text,
        address: EventAddress::Client(2),
        payload: b"x".to_vec(),
    };
    let dispatch = on_queue(Some(&event), &registry).unwrap();
    assert_eq!(dispatch.buffer, vec![0x81, 1, b'x']);
    assert_eq!(dispatch.delivery, Delivery { targets: vec![2], misses: Vec::new() });
}
