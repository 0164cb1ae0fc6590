use kodade_cli::endpoints::{
    command_during_setup, machine_step, opening, Backoff, Delivery, EndpointId, MachineStep,
    Manager, Opening, Routed, Router, Status, Update, UpdatePacket,
};
use kodade_cli::machines::MachineProfile;
use kodade_cli::proto::ServerMessage;

fn profile() -> MachineProfile {
    MachineProfile {
        id: "m1".into(),
        label: "Build".into(),
        target: "build".into(),
        session: None,
        enabled: true,
    }
}

#[test]
fn failures_keep_cached_state_and_backoff_independently() {
    let id = EndpointId::Machine("m1".into());
    let mut m = Manager::new(&vec![profile()]);
    m.failed(&id, "network down".into());
    assert!(matches!(
        m.endpoint(&id).unwrap().status,
        Status::Offline { retry: 0 }
    ));
    m.failed(&id, "network down".into());
    assert!(matches!(
        m.endpoint(&id).unwrap().status,
        Status::Offline { retry: 1 }
    ));
}

#[test]
fn disabled_endpoint_stays_disabled() {
    let id = EndpointId::Machine("m1".into());
    let m = Manager::new(&vec![MachineProfile {
        enabled: false,
        ..profile()
    }]);
    assert!(matches!(m.endpoint(&id).unwrap().status, Status::Disabled));
}

#[test]
fn selected_router_never_leaks_input_to_another_machine() {
    let machine = EndpointId::Machine("m1".into());
    let mut router = Router::new(EndpointId::Local);
    router.register(EndpointId::Local);
    router.register(machine.clone());
    router.mark_online(EndpointId::Local);
    router.mark_online(machine.clone());
    assert_eq!(router.send(), Ok(Some(EndpointId::Local)));
    router.select(machine.clone());
    assert_eq!(router.send(), Ok(Some(machine)));
}

#[test]
fn replacing_a_worker_rejects_its_queued_layout_and_status() {
    let endpoint = EndpointId::Machine("m1".into());
    let mut router = Router::new(endpoint.clone());
    router.register(endpoint.clone());
    let old = UpdatePacket {
        endpoint: endpoint.clone(),
        generation: router.generation_of(&endpoint).expect("registered"),
        update: Update::EndpointFailed {
            reason: "stale failure".into(),
        },
    };
    router.unregister(&endpoint);
    router.register(endpoint.clone());
    let current = UpdatePacket {
        generation: router.generation_of(&endpoint).expect("registered"),
        endpoint,
        update: Update::RequestError("recoverable".into()),
    };
    assert!(!router.accepts(&old));
    assert!(router.accepts(&current));
}

#[test]
fn full_or_offline_input_is_visible_to_the_user() {
    let mut router = Router::new(EndpointId::Local);
    router.register(EndpointId::Local);
    assert_eq!(router.send(), Ok(None));
    assert!(router.take_notice().unwrap().contains("disconnected"));
    router.mark_online(EndpointId::Local);
    assert_eq!(router.send(), Ok(Some(EndpointId::Local)));
    // The queue holds one message: the second is refused.
    assert_eq!(router.send(), Ok(Some(EndpointId::Local)));
    router.refused();
    assert!(router.take_notice().unwrap().contains("busy"));
}

#[test]
fn removing_selected_machine_returns_input_to_local() {
    let machine = EndpointId::Machine("m1".into());
    let mut router = Router::new(EndpointId::Local);
    router.register(EndpointId::Local);
    router.register(machine.clone());
    router.select(machine.clone());
    router.unregister(&machine);
    assert_eq!(router.selected(), &EndpointId::Local);
}

#[test]
fn pauses_grow_to_a_limit() {
    let mut backoff = Backoff::new();
    let pauses: Vec<u64> = (0..8).map(|_| backoff.failed()).collect();
    assert!(pauses.windows(2).all(|pair| pair[0] <= pair[1]));
    assert_eq!(pauses[6], pauses[7]);
}

#[test]
fn edited_catalogs_keep_the_state_of_machines() {
    let id = EndpointId::Machine("m1".into());
    let mut m = Manager::new(&vec![profile()]);
    m.failed(&id, "network down".into());
    let mut renamed = profile();
    renamed.label = "Other".into();
    m.reconcile(&vec![renamed]);
    let endpoint = m.endpoint(&id).unwrap();
    assert_eq!(endpoint.label, "Other");
    assert!(matches!(endpoint.status, Status::Offline { retry: 0 }));
    m.reconcile(&Vec::new());
    assert!(m.endpoint(&id).is_none());
}

#[test]
fn messages_to_unknown_endpoints_are_refused() {
    let mut router = Router::new(EndpointId::Local);
    let gone = EndpointId::Machine("gone".into());
    assert_eq!(router.send_to(&gone), Ok(Delivery::Drop));
    assert!(router.take_notice().is_some());
    router.mark_online(gone.clone());
    assert_eq!(
        router.send_to(&gone),
        Err("selected endpoint is offline".to_string())
    );
    router.register(EndpointId::Local);
    router.mark_online(EndpointId::Local);
    assert_eq!(router.send_to(&EndpointId::Local), Ok(Delivery::Queue));
}

#[test]
fn a_connection_opens_with_a_welcome() {
    assert_eq!(opening(ServerMessage::Shutdown), Ok(Opening::Ignore));
    assert!(machine_step(ServerMessage::Shutdown).is_err());
    assert_eq!(
        opening(ServerMessage::Welcome {
            session: "work".into(),
            version: 99,
        }),
        Err("protocol version mismatch: 99".to_string())
    );
    assert!(matches!(
        opening(ServerMessage::Welcome {
            session: "work".into(),
            version: kodade_cli::proto::PROTOCOL_VERSION,
        }),
        Ok(Opening::Connected(session)) if session == "work"
    ));
    assert!(opening(ServerMessage::Error {
        message: "no".into()
    })
    .is_err());
    assert!(matches!(
        machine_step(ServerMessage::Welcome {
            session: "work".into(),
            version: 1
        }),
        Ok(MachineStep::Tell(_))
    ));
    assert_ne!(command_during_setup(true), command_during_setup(false));
}

#[test]
fn reconciling_follows_the_profiles_and_settles() {
    let machine = |id: &str, enabled: bool| MachineProfile {
        id: id.into(),
        enabled,
        ..profile()
    };
    let mut m = Manager::new(&vec![machine("a", true), machine("b", true)]);
    m.update(&EndpointId::Local);
    m.update(&EndpointId::Machine("a".into()));
    let profiles = vec![machine("c", true), machine("a", true), machine("d", false)];
    m.reconcile(&profiles);
    let states: Vec<_> = m
        .endpoints
        .iter()
        .map(|(id, endpoint)| (id.clone(), endpoint.status.clone()))
        .collect();
    assert_eq!(
        states,
        vec![
            (EndpointId::Local, Status::Online),
            (EndpointId::Machine("a".into()), Status::Online),
            (EndpointId::Machine("c".into()), Status::Connecting),
            (EndpointId::Machine("d".into()), Status::Disabled),
        ]
    );
    let once = m.clone();
    m.reconcile(&profiles);
    assert_eq!(m, once);
}

#[test]
fn a_worker_that_failed_often_waits_the_longest() {
    let mut backoff = Backoff { retry: 200 };
    assert_eq!(backoff.failed(), 64);
    assert_eq!(backoff.retry, 6);
}

#[test]
fn updates_are_routed_by_where_they_come_from() {
    let mut router = Router::new(EndpointId::Local);
    let machine = EndpointId::Machine("box".into());
    router.register(EndpointId::Local);
    router.register(machine.clone());
    let packet = |endpoint: &EndpointId, generation: u64, update: Update| UpdatePacket {
        endpoint: endpoint.clone(),
        generation,
        update,
    };
    let local = router.generation_of(&EndpointId::Local).unwrap();
    let remote = router.generation_of(&machine).unwrap();
    let named = Update::Session("work".into());
    assert_eq!(
        router.route(packet(&EndpointId::Local, local, named.clone())),
        Routed::Shown(named.clone())
    );
    assert_eq!(router.route(packet(&machine, remote, named.clone())), Routed::Dropped);
    assert_eq!(
        router.route(packet(&EndpointId::Local, remote, named)),
        Routed::Dropped
    );
    let connected = Update::EndpointConnected {
        session: "work".into(),
        socket: "/tmp/s".into(),
    };
    assert_eq!(
        router.route(packet(&machine, remote, connected)),
        Routed::Joined(machine.clone())
    );
    assert_eq!(router.send_to(&machine), Ok(Delivery::Queue));
    let failed = Update::EndpointFailed { reason: "gone".into() };
    assert_eq!(
        router.route(packet(&machine, remote, failed)),
        Routed::Lost { endpoint: machine.clone(), reason: "gone".into() }
    );
    assert_eq!(router.send_to(&machine), Ok(Delivery::Drop));
}
