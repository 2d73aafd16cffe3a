use grpc::client::name_resolution::{
    strip_leading_slash, Address, Endpoint, ResolverBuilder, ResolverData, ResolverOptions,
    ResolverRegistry, ResolverUpdate, SharedResolverBuilder, Target, TCP_IP_ADDRESS_TYPE,
};
use grpc::error::LbError;
use grpc::inmemory::{
    listener_target, reg, resolve, ClientTransport, InMemoryResolverBuilder, ListenerIds,
    INMEMORY_ADDRESS_TYPE,
};
use grpc::server::Server;
use grpc::service::Request;
use std::sync::Arc;
use std::time::{Duration, Instant};

fn address(kind: &str, text: &str) -> Address {
    Address::new(kind.to_string(), text.to_string())
}

#[test]
fn addresses_are_identified_by_type_and_text() {
    let mut a = address("tcp", "10.0.0.1:80");
    let b = address("tcp", "10.0.0.1:80");
    a.attributes.entries.push(("weight".to_string(), "3".to_string()));
    assert!(a == b);
    assert!(a != address("tcp", "10.0.0.2:80"));
    assert!(a != address("udp", "10.0.0.1:80"));
    assert_eq!(a.to_text(), "tcp:10.0.0.1:80");
    let copy = a.clone();
    assert!(copy == a);
    assert_eq!(copy.attributes.entries.len(), 1);
    assert_eq!(TCP_IP_ADDRESS_TYPE, "tcp");
}

#[test]
fn endpoints_are_identified_by_their_addresses_in_order() {
    let one = Endpoint::new(vec![address("tcp", "a"), address("tcp", "b")]);
    let mut same = Endpoint::new(vec![address("tcp", "a"), address("tcp", "b")]);
    same.attributes.entries.push(("zone".to_string(), "x".to_string()));
    let swapped = Endpoint::new(vec![address("tcp", "b"), address("tcp", "a")]);
    let shorter = Endpoint::new(vec![address("tcp", "a")]);
    assert!(one == same);
    assert!(one != swapped);
    assert!(one != shorter);
    assert!(one.clone() == one);
    assert!(Endpoint::new(vec![]) == Endpoint::new(vec![]));
}

#[test]
fn targets_are_read_from_urls() {
    let target = Target::parse("dns:///example.com:443").unwrap();
    assert_eq!(target.scheme, "dns");
    assert_eq!(target.path, "/example.com:443");
    let copy = target.clone();
    assert_eq!(copy.path, target.path);

    let opaque = Target::parse("inmemory:5").unwrap();
    assert_eq!(opaque.scheme, "inmemory");
    assert_eq!(opaque.path, "5");

    match Target::parse("") {
        Err(LbError::InvalidTarget(detail)) => assert!(!detail.is_empty()),
        _ => panic!("expected an invalid target"),
    }
    assert!(matches!(Target::parse("/no/scheme"), Err(LbError::InvalidTarget(_))));
}

#[test]
fn leading_slash_is_dropped_once() {
    assert_eq!(strip_leading_slash("/abc"), "abc");
    assert_eq!(strip_leading_slash("abc"), "abc");
    assert_eq!(strip_leading_slash("//abc"), "/abc");
    assert_eq!(strip_leading_slash("/"), "");
    assert_eq!(strip_leading_slash(""), "");
    assert_eq!(strip_leading_slash("/é/ü"), "é/ü");
}

#[test]
fn default_authority_is_the_path_without_its_slash() {
    let builder = InMemoryResolverBuilder {};
    let target = Target::parse("inmemory:///42").unwrap();
    assert_eq!(builder.default_authority(&target), "42");
    let shared = SharedResolverBuilder::new(InMemoryResolverBuilder {});
    assert_eq!(shared.default_authority(&target), "42");
    assert_eq!(shared.clone().scheme(), "inmemory");
    let resolver = shared.build(target, Arc::default(), ResolverOptions::default());
    resolver.resolve_now();
}

#[test]
fn resolver_registry_finds_builders_by_scheme() {
    let mut registry = ResolverRegistry::new();
    assert!(registry.get_scheme("inmemory").is_none());
    reg(&mut registry);
    reg(&mut registry);
    let found = registry.get_scheme("inmemory").unwrap();
    assert_eq!(found.scheme(), INMEMORY_ADDRESS_TYPE);
    assert!(registry.get_scheme("dns").is_none());
    assert!(registry.get_scheme("").is_none());
}

#[test]
fn inmemory_resolver_reports_the_listener() {
    let mut ids = ListenerIds::new();
    assert_eq!(ids.allocate(), "0");
    assert_eq!(ids.allocate(), "1");
    for _ in 2..12 {
        ids.allocate();
    }
    let id = ids.allocate();
    assert_eq!(id, "12");
    let target = listener_target(&id);
    assert_eq!(target, "inmemory:///12");

    let update = resolve(&Target::parse(&target).unwrap());
    let ResolverUpdate::Data(data) = update else {
        panic!("expected data");
    };
    assert!(data.service_config.is_none());
    assert_eq!(data.endpoints.len(), 1);
    assert_eq!(data.endpoints[0].addresses.len(), 1);
    assert_eq!(data.endpoints[0].addresses[0].address_type, "inmemory");
    assert_eq!(data.endpoints[0].addresses[0].address, "12");
    let _ = ClientTransport::new();
}

#[test]
fn resolver_options_carry_the_authority() {
    assert_eq!(ResolverOptions::default().authority(), "");
    assert_eq!(ResolverOptions::new("host".to_string()).authority(), "host");
    let data = ResolverData::default();
    assert!(data.endpoints.is_empty());
    assert!(data.service_config.is_none());
}

#[test]
fn server_keeps_the_last_handler() {
    let mut server: Server<&'static str> = Server::new();
    assert!(server.handler().is_none());
    server.set_handler("first");
    assert_eq!(server.handler().as_deref(), Some(&"first"));
    server.set_handler("second");
    assert_eq!(server.handler().as_deref(), Some(&"second"));
}

#[test]
fn requests_inherit_the_deadline_of_their_parent() {
    let plain = Request::new("svc/method".to_string(), None);
    assert_eq!(plain.method, "svc/method");
    assert!(plain.deadline.is_none());

    let deadline = Instant::now() + Duration::from_secs(5);
    let parent = Request::new("svc/outer".to_string(), None).with_deadline(deadline);
    let child = Request::new("svc/inner".to_string(), Some(&parent));
    assert_eq!(child.method, "svc/inner");
    assert_eq!(child.deadline, Some(deadline));
    let orphan = Request::new("svc/inner".to_string(), Some(&plain));
    assert_eq!(orphan.deadline, None);
}

#[test]
fn errors_render_as_text() {
    let cases = vec![
        (LbError::Unhandled, "unhandled"),
        (LbError::NoEndpoints, "no endpoints"),
        (LbError::NoAddresses, "no addresses"),
        (LbError::BadUpdate, "bad update"),
        (LbError::ServiceConfigUnsupported, "can't do service configs yet"),
        (LbError::ConfigParse("eof".to_string()), "service config parsing failed: eof"),
        (LbError::Resolution("nxdomain".to_string()), "nxdomain"),
        (LbError::UnknownPolicy("rr".to_string()), "no such LB policy: rr"),
        (LbError::UnknownSubchannel, "illegal subchannel in pick"),
        (LbError::InvalidTarget("empty".to_string()), "invalid target: empty"),
    ];
    for (error, text) in cases {
        assert_eq!(error.message(), text);
        assert_eq!(error.clone().message(), text);
    }
}
