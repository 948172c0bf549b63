use kurtosis_rust_lib::service::{
    FileMount, PortBinding, Service, ServiceContext, ServiceDescriptor, ServiceState,
    TransitionError,
};
use kurtosis_rust_lib::readiness::Probe;
use kurtosis_rust_lib::text::{
    address_string, compare_names, decimal_string, same_text, NameOrder,
};

const ALL: [ServiceState; 5] = [
    ServiceState::Provisioning,
    ServiceState::Starting,
    ServiceState::Ready,
    ServiceState::Stopped,
    ServiceState::Failed,
];

fn descriptor(id: &str) -> ServiceDescriptor {
    ServiceDescriptor {
        id: id.to_string(),
        image: "datastore:latest".to_string(),
        ports: vec![
            PortBinding { name: "http".to_string(), number: 1323 },
            PortBinding { name: "admin".to_string(), number: 9000 },
            PortBinding { name: "http".to_string(), number: 8080 },
        ],
        command: None,
        files: vec![FileMount { source: "conf.yml".to_string(), target: "/etc/conf.yml".to_string() }],
    }
}

#[test]
fn decimal_string_writes_numbers() {
    assert_eq!(decimal_string(0), "0");
    assert_eq!(decimal_string(7), "7");
    assert_eq!(decimal_string(10), "10");
    assert_eq!(decimal_string(1323), "1323");
    assert_eq!(decimal_string(100_000), "100000");
    assert_eq!(decimal_string(u32::MAX), "4294967295");
}

#[test]
fn address_string_writes_dotted_form() {
    assert_eq!(address_string(0), "0.0.0.0");
    assert_eq!(address_string(0x0a00_0002), "10.0.0.2");
    assert_eq!(address_string(0xc0a8_01fe), "192.168.1.254");
    assert_eq!(address_string(u32::MAX), "255.255.255.255");
    assert_eq!(address_string(0x0100_0000), "1.0.0.0");
}

#[test]
fn same_text_compares_texts() {
    assert!(same_text("", ""));
    assert!(same_text("db", "db"));
    assert!(!same_text("db", "db2"));
    assert!(!same_text("db", "dB"));
    assert!(same_text("größe", "größe"));
    assert!(!same_text("größe", "grösse"));
}

#[test]
fn compare_names_orders_as_strings_do() {
    let names = ["", "a", "ab", "b", "B", "t1", "t10", "t2", "é", "z", "日本"];
    for a in names {
        for b in names {
            let expected = match a.cmp(b) {
                std::cmp::Ordering::Less => NameOrder::Before,
                std::cmp::Ordering::Equal => NameOrder::Same,
                std::cmp::Ordering::Greater => NameOrder::After,
            };
            assert_eq!(compare_names(a, b), expected, "{a:?} and {b:?}");
        }
    }
}

#[test]
fn service_states_follow_the_life_cycle() {
    let allowed = [
        (ServiceState::Provisioning, ServiceState::Starting),
        (ServiceState::Starting, ServiceState::Ready),
        (ServiceState::Ready, ServiceState::Stopped),
        (ServiceState::Provisioning, ServiceState::Failed),
        (ServiceState::Starting, ServiceState::Failed),
        (ServiceState::Ready, ServiceState::Failed),
    ];
    for from in ALL {
        for to in ALL {
            assert_eq!(from.can_become(to), allowed.contains(&(from, to)), "{from:?} to {to:?}");
        }
    }
}

#[test]
fn service_states_stopped_and_failed_are_final() {
    for state in ALL {
        let terminal = matches!(state, ServiceState::Stopped | ServiceState::Failed);
        assert_eq!(state.is_terminal(), terminal);
        if terminal {
            assert!(ALL.iter().all(|to| !state.can_become(*to)));
        } else {
            assert!(state.can_become(ServiceState::Failed));
            assert!(state.can_become(state.after_shut_down()));
        }
    }
    assert_eq!(ServiceState::Ready.after_shut_down(), ServiceState::Stopped);
    assert_eq!(ServiceState::Starting.after_shut_down(), ServiceState::Failed);
    assert_eq!(ServiceState::Provisioning.after_shut_down(), ServiceState::Failed);
    assert_eq!(ServiceState::Stopped.after_shut_down(), ServiceState::Stopped);
    assert_eq!(ServiceState::Failed.after_shut_down(), ServiceState::Failed);
}

#[test]
fn service_context_shows_what_was_declared() {
    let c = ServiceContext::new(descriptor("db"), 0x0a00_0002);
    assert_eq!(c.get_service_id(), "db");
    assert_eq!(c.get_ip(), 0x0a00_0002);
    assert_eq!(c.get_ip_address(), "10.0.0.2");
    assert_eq!(c.get_state(), ServiceState::Provisioning);
    assert_eq!(c.get_descriptor(), &descriptor("db"));
}

#[test]
fn service_context_finds_the_first_port_of_a_name() {
    let c = ServiceContext::new(descriptor("db"), 0x0a00_0002);
    assert_eq!(c.get_port("http"), Some(1323));
    assert_eq!(c.get_port("admin"), Some(9000));
    assert_eq!(c.get_port("grpc"), None);
    assert_eq!(c.get_port(""), None);
}

#[test]
fn service_context_walks_the_life_cycle() {
    let mut c = ServiceContext::new(descriptor("db"), 0x0a00_0002);
    assert_eq!(c.advance(ServiceState::Ready), Err(TransitionError::NotAllowed));
    assert_eq!(c.advance(ServiceState::Stopped), Err(TransitionError::NotAllowed));
    assert_eq!(c.advance(ServiceState::Provisioning), Err(TransitionError::NotAllowed));
    assert_eq!(c.get_state(), ServiceState::Provisioning);
    assert_eq!(c.advance(ServiceState::Starting), Ok(()));
    assert_eq!(c.advance(ServiceState::Starting), Err(TransitionError::NotAllowed));
    assert_eq!(c.advance(ServiceState::Ready), Ok(()));
    assert_eq!(c.advance(ServiceState::Stopped), Ok(()));
    assert_eq!(c.get_state(), ServiceState::Stopped);
    assert_eq!(c.get_ip_address(), "10.0.0.2");
    assert_eq!(c.get_service_id(), "db");
}

#[test]
fn service_context_accepts_nothing_once_it_has_ended() {
    for end in [ServiceState::Stopped, ServiceState::Failed] {
        let mut c = ServiceContext::new(descriptor("db"), 0x0a00_0002);
        assert_eq!(c.advance(ServiceState::Starting), Ok(()));
        assert_eq!(c.advance(ServiceState::Ready), Ok(()));
        assert_eq!(c.advance(end), Ok(()));
        for to in ALL {
            assert_eq!(c.advance(to), Err(TransitionError::Terminal));
            assert_eq!(c.get_state(), end);
        }
    }
}

#[test]
fn service_context_can_fail_from_every_state_that_is_not_final() {
    for steps in 0..3 {
        let mut c = ServiceContext::new(descriptor("db"), 0x0a00_0002);
        for to in [ServiceState::Starting, ServiceState::Ready].iter().take(steps) {
            assert_eq!(c.advance(*to), Ok(()));
        }
        assert_eq!(c.advance(ServiceState::Failed), Ok(()));
        assert_eq!(c.get_state(), ServiceState::Failed);
    }
}

struct Fixed {
    available: bool,
}

impl Service for Fixed {
    fn get_service_id(&self) -> &str {
        "fixed"
    }

    fn get_ip_address(&self) -> &str {
        "10.0.0.2"
    }

    fn is_available(&self) -> bool {
        self.available
    }
}

#[test]
fn probe_asks_the_service() {
    assert_eq!(Probe::of(&Fixed { available: true }), Probe::Available);
    assert_eq!(Probe::of(&Fixed { available: false }), Probe::Unavailable);
    assert_eq!(Probe::from_answer(true), Probe::Available);
    assert_eq!(Probe::from_answer(false), Probe::Unavailable);
}
