use plotly_client::hub::Broadcaster;

#[test]
fn broadcast_reaches_each_subscriber_once() {
    let mut hub = Broadcaster::create();
    let a = hub.new_client();
    let b = hub.new_client();
    let c = hub.new_client();
    let d = hub.broadcast("hello");
    assert_eq!(d.payload, "hello");
    assert_eq!(d.targets.len(), 3);
    for id in [a, b, c] {
        assert_eq!(d.targets.iter().filter(|&&t| t == id).count(), 1);
    }
}

#[test]
fn device_seen_reports_first_sight_only() {
    let mut hub = Broadcaster::create();
    assert!(hub.device_seen(7000));
    assert!(!hub.device_seen(7000));
    assert!(!hub.device_seen(7000));
    assert!(hub.device_seen(8000));
    assert!(!hub.device_seen(8000));
    assert!(!hub.device_seen(7000));
}

#[test]
fn known_ports_is_the_set_of_seen_ports() {
    let mut hub = Broadcaster::create();
    hub.device_seen(7000);
    hub.device_seen(7000);
    hub.device_seen(8000);
    let mut ports = hub.known_ports();
    ports.sort();
    assert_eq!(ports, vec![7000, 8000]);
}

#[test]
fn register_port_broadcasts_once_per_new_port() {
    let mut hub = Broadcaster::create();
    let dir = hub.new_device_list_client();
    let first = hub
        .register_port(7000)
        .expect("a newly seen port must broadcast the directory");
    assert_eq!(first.payload, "[7000]");
    assert_eq!(first.targets, vec![dir]);
    assert!(hub.register_port(7000).is_none());
    let second = hub
        .register_port(8000)
        .expect("a second new port must broadcast again");
    assert_eq!(second.payload, "[7000,8000]");
    assert!(hub.register_port(8000).is_none());
}

#[test]
fn device_broadcast_goes_to_that_pool_alone() {
    let mut hub = Broadcaster::create();
    let a = hub.new_device_client(7000);
    let b = hub.new_device_client(7000);
    let c = hub.new_device_client(8000);
    let d = hub.broadcast_device(7000, "m");
    assert_eq!(d.payload, "m");
    assert_eq!(d.targets, vec![a, b]);
    assert_eq!(hub.broadcast_device(8000, "m").targets, vec![c]);
    assert!(hub.broadcast_device(9000, "m").targets.is_empty());
}

#[test]
fn sweep_drops_exactly_the_failed_subscribers() {
    let mut hub = Broadcaster::create();
    let a = hub.new_client();
    let b = hub.new_client();
    let dir = hub.new_device_list_client();
    let dev = hub.new_device_client(7000);
    let before = hub.broadcast("x");
    assert!(before.targets.contains(&a) && before.targets.contains(&b));
    assert!(hub.broadcast_device_list("x").targets.contains(&dir));
    let ok = vec![a, dev];
    hub.apply_sweep(&ok);
    let after = hub.broadcast("x");
    assert!(after.targets.contains(&a));
    assert!(!after.targets.contains(&b));
    assert!(hub.broadcast_device_list("x").targets.is_empty());
    assert_eq!(hub.broadcast_device(7000, "x").targets, vec![dev]);
}

#[test]
fn sweep_removes_emptied_device_pools_and_keeps_known_ports() {
    let mut hub = Broadcaster::create();
    hub.device_seen(7000);
    let _dev = hub.new_device_client(7000);
    hub.apply_sweep(&vec![]);
    assert!(hub.broadcast_device(7000, "x").targets.is_empty());
    assert_eq!(hub.known_ports(), vec![7000]);
}

#[test]
fn sweep_targets_cover_every_pool() {
    let mut hub = Broadcaster::create();
    let a = hub.new_client();
    let dev = hub.new_device_client(7000);
    let dir = hub.new_device_list_client();
    let mut targets = hub.sweep_targets();
    targets.sort();
    let mut expected = vec![a, dev, dir];
    expected.sort();
    assert_eq!(targets, expected);
}

#[test]
fn subscriber_ids_are_never_reused_across_pools() {
    let mut hub = Broadcaster::create();
    let a = hub.new_client();
    let b = hub.new_device_client(7000);
    let c = hub.new_device_list_client();
    let d = hub.new_client();
    assert_eq!(vec![a, b, c, d], vec![0, 1, 2, 3]);
}
