use mbus::registration::{Event, Publish, Registration};

#[test]
fn first_register_goes_out_on_readiness() {
    let mut r = Registration::new("node-a", "10.0.0.1:10124", None);
    assert!(!r.is_terminating());
    let p = r.step(Event::Ready);
    assert_eq!(p, Publish::Register);
    assert!(!r.is_terminating());
}

#[test]
fn heartbeat_repeats_register_on_every_tick() {
    let mut r = Registration::new("node-a", "10.0.0.1:10124", Some("1"));
    assert_eq!(r.heartbeat_interval(), 1);
    let mut publishes = vec![r.step(Event::Ready)];
    for _ in 0..5 {
        publishes.push(r.step(Event::Tick));
    }
    assert_eq!(publishes, vec![Publish::Register; 6]);
    assert!(!r.is_terminating());
}

#[test]
fn stray_channel_message_keeps_the_service_active() {
    let mut r = Registration::new("node-a", "10.0.0.1:10124", None);
    r.step(Event::Ready);
    let p = r.step(Event::Message);
    assert_eq!(p, Publish::Register);
    assert!(!r.is_terminating());
    assert_eq!(r.step(Event::Tick), Publish::Register);
}

#[test]
fn clean_shutdown_deregisters_once_with_the_node_id() {
    let mut r = Registration::new("node-a", "10.0.0.1:10124", None);
    r.step(Event::Ready);
    r.step(Event::Tick);
    r.fini();
    let p = r.step(Event::Closed);
    assert_eq!(p, Publish::Deregister);
    assert!(r.is_terminating());
    assert_eq!(r.deregister_payload(), b"{\"id\":\"node-a\"}".to_vec());
}

#[test]
fn fini_twice_is_a_no_op() {
    let mut r = Registration::new("node-a", "10.0.0.1:10124", None);
    r.step(Event::Ready);
    r.fini();
    r.fini();
    let p = r.step(Event::Closed);
    assert_eq!(p, Publish::Deregister);
    assert!(r.is_terminating());
}

#[test]
fn shutdown_before_readiness_still_deregisters() {
    let mut r = Registration::new("node-a", "10.0.0.1:10124", None);
    r.fini();
    let p = r.step(Event::Closed);
    assert_eq!(p, Publish::Deregister);
    assert!(r.is_terminating());
}

#[test]
fn publish_order_is_registers_then_one_deregister() {
    let mut r = Registration::new("node-a", "10.0.0.1:10124", None);
    let mut observed = vec![r.step(Event::Ready)];
    for _ in 0..3 {
        observed.push(r.step(Event::Tick));
    }
    r.fini();
    observed.push(r.step(Event::Closed));
    let (last, body) = observed.split_last().unwrap();
    assert!(body.iter().all(|p| *p == Publish::Register));
    assert_eq!(*last, Publish::Deregister);
}

#[test]
fn init_is_idempotent_and_keeps_the_first_configuration() {
    let mut slot: Option<Registration> = None;
    Registration::init(&mut slot, "node-a", "10.0.0.1:10124", None);
    Registration::init(&mut slot, "node-b", "10.9.9.9:1", Some("30"));
    let r = Registration::get(&slot);
    assert_eq!(r.node(), "node-a");
    assert_eq!(r.grpc_endpoint(), "10.0.0.1:10124");
    assert_eq!(r.heartbeat_interval(), 2);
}

#[test]
fn end_to_end_scenario() {
    // default interval, then one full life cycle of publishes
    let mut slot: Option<Registration> = None;
    Registration::init(&mut slot, "node-a", "10.0.0.1:10124", None);
    let mut r = slot.take().unwrap();
    assert_eq!(r.heartbeat_interval(), 2);

    let mut sent: Vec<(&str, Vec<u8>)> = Vec::new();
    let p = r.step(Event::Ready);
    sent.push((mbus::registration::channel_of(p), r.register_payload()));
    let p = r.step(Event::Tick);
    sent.push((mbus::registration::channel_of(p), r.register_payload()));
    r.fini();
    let p = r.step(Event::Closed);
    sent.push((mbus::registration::channel_of(p), r.deregister_payload()));
    assert!(r.is_terminating());

    let reg = b"{\"id\":\"node-a\",\"grpcEndpoint\":\"10.0.0.1:10124\"}".to_vec();
    let dereg = b"{\"id\":\"node-a\"}".to_vec();
    assert_eq!(
        sent,
        vec![("register", reg.clone()), ("register", reg), ("deregister", dereg)]
    );
}
