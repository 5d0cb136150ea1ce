//! Gateway groups and their destinations.

use siphon::error::ErrorKind;
use siphon::gateway::{
    extract_address_from_uri, lookup_text, number_of_key, parse_algorithm, pick, Algorithm,
    Destination, DispatcherGroup, Lookup, PyDestination, PyGateway, Requested,
};
use siphon::ipsec::Transport;
use siphon::net::SocketAddr;
use siphon::pyvalue::PyValue;

fn addr(text: &str) -> SocketAddr {
    SocketAddr::parse(text).unwrap()
}

fn make_gateway() -> PyGateway {
    let mut gateway = PyGateway::new();
    gateway.put_group(DispatcherGroup::new(
        "carriers".to_string(),
        Algorithm::Weighted,
        vec![
            Destination::new(
                "sip:gw1.carrier.com".to_string(),
                addr("10.0.0.1:5060"),
                Transport::Udp,
                3,
                1,
            )
            .with_attrs(vec![("region".to_string(), "us-east".to_string())]),
            Destination::new(
                "sip:gw2.carrier.com".to_string(),
                addr("10.0.0.2:5060"),
                Transport::Udp,
                1,
                1,
            ),
        ],
    ));
    gateway.put_group(DispatcherGroup::new(
        "sbc-pool".to_string(),
        Algorithm::Hash,
        vec![
            Destination::new(
                "sip:sbc1.example.com".to_string(),
                addr("10.1.0.1:5060"),
                Transport::Udp,
                1,
                1,
            ),
            Destination::new(
                "sip:sbc2.example.com".to_string(),
                addr("10.1.0.2:5060"),
                Transport::Udp,
                1,
                1,
            ),
        ],
    ));
    gateway
}

fn filter(key: &str, value: &str) -> Option<Vec<(PyValue, PyValue)>> {
    Some(vec![(PyValue::text(key), PyValue::text(value))])
}

fn shown(uri: &str, healthy: bool, weight: u32) -> PyDestination {
    PyDestination::new(
        uri.to_string(),
        "10.0.0.1:5060".to_string(),
        healthy,
        weight,
        1,
        Vec::new(),
    )
}

#[test]
fn select_returns_destination() {
    let gw = make_gateway();
    let dest = gw.select("carriers", None, None, 0).unwrap().unwrap();
    assert!(!dest.uri().is_empty());
    assert!(dest.healthy());
}

#[test]
fn select_nonexistent_group() {
    let gw = make_gateway();
    assert!(gw.select("nonexistent", None, None, 0).unwrap().is_none());
}

#[test]
fn select_with_key_is_sticky() {
    let gw = make_gateway();
    let first = gw.select("sbc-pool", Some("call-id-123"), None, 0).unwrap().unwrap();
    for draw in 1..11 {
        let result = gw.select("sbc-pool", Some("call-id-123"), None, draw).unwrap().unwrap();
        assert_eq!(result.uri(), first.uri());
    }
}

#[test]
fn keys_spread_over_a_hash_group() {
    let gw = make_gateway();
    let picked = |key: &str| {
        gw.select("sbc-pool", Some(key), None, 0).unwrap().unwrap().uri().to_string()
    };
    let uris: Vec<String> = (0..32).map(|n| picked(&format!("call-{n}"))).collect();
    assert!(uris.iter().any(|uri| uri == "sip:sbc1.example.com"));
    assert!(uris.iter().any(|uri| uri == "sip:sbc2.example.com"));
    assert_eq!(number_of_key("abc"), 0x900150983cd24fb0);
    assert_eq!(pick(Algorithm::Hash, &vec![1, 1, 1], Some(5), 0), 2);
    assert_eq!(pick(Algorithm::Hash, &vec![1, 1, 1], None, 4), 1);
}

#[test]
fn a_weighted_group_spreads_by_weight() {
    let gw = make_gateway();
    let uris: Vec<String> = (0..4)
        .map(|draw| gw.select("carriers", None, None, draw).unwrap().unwrap().uri().to_string())
        .collect();
    assert_eq!(
        uris,
        vec![
            "sip:gw1.carrier.com",
            "sip:gw1.carrier.com",
            "sip:gw1.carrier.com",
            "sip:gw2.carrier.com"
        ]
    );
    let weights = vec![0, 2, 0, 3];
    let picks: Vec<usize> = (0..6).map(|d| pick(Algorithm::Weighted, &weights, None, d)).collect();
    assert_eq!(picks, vec![1, 1, 3, 3, 3, 1]);
    assert_eq!(pick(Algorithm::Weighted, &weights, Some(7), 4), 3);
    assert_eq!(pick(Algorithm::Weighted, &vec![0, 0], None, 3), 1);
    assert_eq!(pick(Algorithm::RoundRobin, &weights, Some(7), 6), 2);
    assert_eq!(gw.algorithm("carriers"), Some(Algorithm::Weighted));
    assert_eq!(gw.algorithm("sbc-pool"), Some(Algorithm::Hash));
    assert_eq!(gw.algorithm("nonexistent"), None);
}

#[test]
fn list_returns_all_destinations() {
    let gw = make_gateway();
    let dests = gw.list("carriers");
    assert_eq!(dests.len(), 2);
    assert_eq!(dests[0].weight(), 3);
    assert_eq!(dests[1].weight(), 1);
}

#[test]
fn list_nonexistent_group_returns_empty() {
    assert!(make_gateway().list("nonexistent").is_empty());
}

#[test]
fn status_returns_all() {
    let status = make_gateway().status("carriers");
    assert_eq!(status.len(), 2);
    assert!(status[0].1);
}

#[test]
fn groups_returns_names() {
    let mut names = make_gateway().groups();
    names.sort();
    assert_eq!(names, vec!["carriers", "sbc-pool"]);
}

#[test]
fn mark_down_and_up() {
    let mut gw = make_gateway();
    assert!(gw.mark_down("carriers", "sip:gw1.carrier.com"));
    let status = gw.status("carriers");
    let gw1 = status.iter().find(|(uri, _)| uri == "sip:gw1.carrier.com").unwrap();
    assert!(!gw1.1);
    assert!(gw.mark_up("carriers", "sip:gw1.carrier.com"));
    let status = gw.status("carriers");
    let gw1 = status.iter().find(|(uri, _)| uri == "sip:gw1.carrier.com").unwrap();
    assert!(gw1.1);
    assert!(!gw.mark_down("carriers", "sip:unknown"));
    assert!(!gw.mark_down("nonexistent", "sip:gw1.carrier.com"));
}

#[test]
fn remove_group_works() {
    let mut gw = make_gateway();
    assert!(gw.remove_group("carriers"));
    assert!(!gw.remove_group("carriers"));
    assert!(gw.list("carriers").is_empty());
}

#[test]
fn destination_str_and_repr() {
    let dest = shown("sip:gw1.carrier.com", true, 3);
    assert_eq!(dest.__str__(), "sip:gw1.carrier.com");
    assert!(dest.__repr__().contains("weight=3"));
    assert_eq!(
        dest.__repr__(),
        "Destination(uri=sip:gw1.carrier.com, healthy=true, weight=3, priority=1)"
    );
    assert!(dest.__bool__());
}

#[test]
fn destination_bool_reflects_health() {
    assert!(shown("sip:up.example.com", true, 1).__bool__());
    assert!(!shown("sip:down.example.com", false, 1).__bool__());
}

#[test]
fn destination_attrs_exposed() {
    let gw = make_gateway();
    let dests = gw.list("carriers");
    assert_eq!(dests[0].attr("region").unwrap(), "us-east");
    assert!(dests[1].attr("region").is_none());
}

#[test]
fn from_destination_bakes_transport_into_uri() {
    let dest = Destination::new(
        "sip:trunk.example.com".to_string(),
        addr("10.0.0.1:5061"),
        Transport::Tls,
        1,
        1,
    );
    let py = PyDestination::from_destination(&dest);
    assert_eq!(py.uri(), "sip:trunk.example.com;transport=tls");
    assert_eq!(py.address(), "10.0.0.1:5061");
}

#[test]
fn from_destination_udp_no_transport_param() {
    let dest = Destination::new(
        "sip:gw.example.com".to_string(),
        addr("10.0.0.1:5060"),
        Transport::Udp,
        1,
        1,
    );
    assert_eq!(PyDestination::from_destination(&dest).uri(), "sip:gw.example.com");
}

#[test]
fn from_destination_preserves_existing_transport() {
    let dest = Destination::new(
        "sip:gw.example.com;transport=tcp".to_string(),
        addr("10.0.0.1:5060"),
        Transport::Tcp,
        1,
        1,
    );
    assert_eq!(
        PyDestination::from_destination(&dest).uri(),
        "sip:gw.example.com;transport=tcp"
    );
}

#[test]
fn an_existing_transport_counts_in_any_case() {
    let dest = Destination::new(
        "sip:gw.example.com;Transport=TCP".to_string(),
        addr("10.0.0.1:5060"),
        Transport::Sctp,
        1,
        1,
    );
    assert_eq!(
        PyDestination::from_destination(&dest).uri(),
        "sip:gw.example.com;Transport=TCP"
    );
}

#[test]
fn a_selection_skips_what_is_down_or_does_not_match() {
    let mut gw = make_gateway();
    for draw in 0..4 {
        let dest = gw.select("carriers", None, filter("region", "us-east"), draw).unwrap().unwrap();
        assert_eq!(dest.uri(), "sip:gw1.carrier.com");
    }
    assert!(gw.select("carriers", None, filter("region", "eu"), 0).unwrap().is_none());
    gw.mark_down("carriers", "sip:gw1.carrier.com");
    assert_eq!(
        gw.select("carriers", None, None, 0).unwrap().unwrap().uri(),
        "sip:gw2.carrier.com"
    );
    assert!(gw.select("carriers", None, filter("region", "us-east"), 0).unwrap().is_none());
    let bad = Some(vec![(PyValue::text("region"), PyValue::Int(1))]);
    assert_eq!(gw.select("carriers", None, bad, 0).err().unwrap().kind, ErrorKind::Type);
}

#[test]
fn a_selection_stays_in_the_best_priority_tier() {
    let dest = |uri: &str, priority: u32| {
        Destination::new(uri.to_string(), addr("10.0.0.9:5060"), Transport::Udp, 1, priority)
    };
    let mut gw = PyGateway::new();
    gw.put_group(DispatcherGroup::new(
        "g".to_string(),
        Algorithm::RoundRobin,
        vec![dest("sip:backup", 2), dest("sip:a", 1), dest("sip:b", 1)],
    ));
    assert_eq!(gw.select("g", None, None, 0).unwrap().unwrap().uri(), "sip:a");
    assert_eq!(gw.select("g", None, None, 1).unwrap().unwrap().uri(), "sip:b");
    assert_eq!(gw.select("g", None, None, 2).unwrap().unwrap().uri(), "sip:a");
    gw.mark_down("g", "sip:a");
    gw.mark_down("g", "sip:b");
    assert_eq!(gw.select("g", None, None, 5).unwrap().unwrap().uri(), "sip:backup");
}

fn requested(
    dict: Vec<(&str, PyValue)>,
    looked_up: &str,
    outcome: Result<SocketAddr, String>,
) -> Requested {
    Requested {
        dict: dict.into_iter().map(|(k, v)| (k.to_string(), v)).collect(),
        lookup: Lookup { text: looked_up.to_string(), outcome },
    }
}

#[test]
fn an_address_is_taken_from_the_uri() {
    let address = |uri: &str| extract_address_from_uri(uri);
    assert_eq!(address("sip:gw1.carrier.com"), "gw1.carrier.com:5060");
    assert_eq!(address("sips:gw1.carrier.com"), "gw1.carrier.com:5061");
    assert_eq!(address("sip:user@10.0.0.1:5070;transport=tcp?x=y"), "10.0.0.1:5070");
    assert_eq!(address("sip:[2001:db8::1]"), "[2001:db8::1]:5060");
    assert_eq!(address("sip:[2001:db8::1]:5080"), "[2001:db8::1]:5080");
    assert_eq!(address("gw.example.com"), "gw.example.com:5060");
    let uri = |text: &str| vec![("uri".to_string(), PyValue::text(text))];
    assert_eq!(lookup_text(&uri("sip:gw1.carrier.com")).as_deref(), Some("gw1.carrier.com:5060"));
    assert_eq!(lookup_text(&uri("sip:10.0.0.1:5060")), None);
    assert_eq!(lookup_text(&vec![]), None);
    let mut gw = PyGateway::new();
    let literal = Requested {
        dict: uri("sip:10.0.0.7"),
        lookup: Lookup { text: String::new(), outcome: Err("no such host".to_string()) },
    };
    gw.add_group("g", vec![literal], "weighted", false).unwrap();
    assert_eq!(gw.list("g")[0].address(), "10.0.0.7:5060");
    let other = Requested {
        dict: uri("sip:gw1.carrier.com"),
        lookup: Lookup { text: "gw2.carrier.com:5060".to_string(), outcome: Ok(addr("1.2.3.4:5")) },
    };
    assert_eq!(
        gw.add_group("h", vec![other], "weighted", false).unwrap_err().message,
        "cannot resolve address 'gw1.carrier.com:5060': not looked up"
    );
}

#[test]
fn a_group_is_added_with_its_defaults() {
    let mut gw = PyGateway::new();
    let full = requested(
        vec![
            ("uri", PyValue::text("sip:gw3.carrier.com")),
            ("address", PyValue::text("10.0.0.3:5060")),
            ("weight", PyValue::Int(2)),
            ("priority", PyValue::Int(4)),
            ("transport", PyValue::text("tls")),
            ("attrs", PyValue::dict(vec![("region".to_string(), PyValue::text("eu"))])),
        ],
        "",
        Err("not needed".to_string()),
    );
    assert!(lookup_text(&full.dict).is_none());
    let bare = requested(
        vec![("uri", PyValue::text("sip:gw4.carrier.com"))],
        "gw4.carrier.com:5060",
        Ok(addr("10.0.0.4:5060")),
    );
    assert_eq!(lookup_text(&bare.dict).as_deref(), Some("gw4.carrier.com:5060"));
    gw.add_group("overflow", vec![full, bare], "no such algorithm", false).unwrap();
    let dests = gw.list("overflow");
    assert_eq!(dests[0].uri(), "sip:gw3.carrier.com;transport=tls");
    assert_eq!(dests[0].address(), "10.0.0.3:5060");
    assert_eq!(dests[1].address(), "10.0.0.4:5060");
    assert_eq!((dests[0].weight(), dests[0].priority()), (2, 4));
    assert_eq!(dests[0].attr("region").as_deref(), Some("eu"));
    assert_eq!(dests[1].uri(), "sip:gw4.carrier.com");
    assert_eq!((dests[1].weight(), dests[1].priority()), (1, 1));
    assert!(dests[1].healthy());
}

#[test]
fn a_malformed_destination_adds_no_group() {
    let mut gw = PyGateway::new();
    let ok = || Ok(addr("10.0.0.3:5060"));
    let mut fails = |r: Requested| {
        let e = gw.add_group("g", vec![r], "weighted", false).unwrap_err();
        assert!(gw.groups().is_empty());
        (e.kind, e.message)
    };
    let uri = || ("uri", PyValue::text("sip:gw"));
    assert_eq!(
        fails(requested(vec![], "gw:5060", ok())),
        (ErrorKind::Value, "destination dict must have 'uri' key".to_string())
    );
    assert_eq!(fails(requested(vec![("uri", PyValue::Int(1))], "gw:5060", ok())).0, ErrorKind::Type);
    assert_eq!(
        fails(requested(vec![uri()], "gw:5060", Err("no such host".to_string()))).1,
        "cannot resolve address 'gw:5060': no such host"
    );
    assert_eq!(
        fails(requested(
            vec![uri(), ("address", PyValue::text("bad"))],
            "bad",
            Err("no port".to_string())
        ))
        .1,
        "cannot resolve address 'bad': no port"
    );
    assert_eq!(
        fails(requested(vec![uri(), ("weight", PyValue::Int(-1))], "gw:5060", ok())).0,
        ErrorKind::Overflow
    );
    assert_eq!(
        fails(requested(vec![uri(), ("priority", PyValue::text("x"))], "gw:5060", ok())).0,
        ErrorKind::Type
    );
    assert_eq!(
        fails(requested(vec![uri(), ("transport", PyValue::Int(1))], "gw:5060", ok())).0,
        ErrorKind::Type
    );
    assert_eq!(
        fails(requested(vec![uri(), ("attrs", PyValue::text("x"))], "gw:5060", ok())).0,
        ErrorKind::Type
    );
}

#[test]
fn a_group_takes_the_place_of_the_one_of_its_name() {
    let mut gw = make_gateway();
    gw.add_group("carriers", vec![], "hash", true).unwrap();
    assert_eq!(gw.groups().len(), 2);
    assert!(gw.list("carriers").is_empty());
    assert_eq!(gw.list("sbc-pool").len(), 2);
}

#[test]
fn algorithms_have_names() {
    assert_eq!(parse_algorithm("round_robin"), Algorithm::RoundRobin);
    assert_eq!(parse_algorithm("hash"), Algorithm::Hash);
    assert_eq!(parse_algorithm("weighted"), Algorithm::Weighted);
    assert_eq!(parse_algorithm("?"), Algorithm::Weighted);
}
