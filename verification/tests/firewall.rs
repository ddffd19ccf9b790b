use talpid_firewall::error::Error;
use talpid_firewall::firewall::{CbResult, Event, Exchange, Firewall, Phase, Session, TABLE_NAME};
use talpid_firewall::net::{Ipv6Addr, Ipv6Network};
use talpid_firewall::nft::{MsgType, Object, ProtoFamily};
use talpid_firewall::policy::{FirewallPolicy, IfaceLookups, NetworkParameters};

fn io_error(code: i32) -> std::io::Error {
    std::io::Error::from_raw_os_error(code)
}

fn names(names: &[&str]) -> Vec<String> {
    names.iter().map(|name| name.to_string()).collect()
}

fn params() -> NetworkParameters {
    NetworkParameters {
        dhcpv4_server_port: 67,
        dhcpv4_client_port: 68,
        dhcpv6_server_port: 547,
        dhcpv6_client_port: 546,
        dhcpv6_server_addrs: vec![],
        ipv6_link_local: Ipv6Network { addr: Ipv6Addr { bits: 0xfe80 << 112 }, prefix: 10 },
        router_solicitation_out_dst_addr: Ipv6Addr { bits: 2 },
        allowed_lan_nets: vec![],
        allowed_lan_multicast_nets: vec![],
    }
}

fn apply() -> Session {
    let lookups = IfaceLookups { indices: vec![1, 1], failure: None };
    let policy = FirewallPolicy::Blocked { allow_lan: false };
    Firewall::new().unwrap().apply_policy(&policy, params(), false, lookups).unwrap()
}

fn reset() -> Session {
    Firewall::new().unwrap().reset_policy()
}

/// Feeds the events to the session and returns what it comes to.
fn run(session: Session, events: Vec<Event>) -> Result<Option<Session>, Error> {
    let mut session = session;
    for event in events {
        match session.handle(event)? {
            Some(next) => session = next,
            None => return Ok(None),
        }
    }
    Ok(Some(session))
}

fn opened() -> Event {
    Event::Opened(Ok(()))
}

fn sent() -> Event {
    Event::Sent(Ok(()))
}

fn received(len: usize) -> Event {
    Event::Received(Ok(len))
}

fn processed(result: CbResult, tables: &[&str]) -> Event {
    Event::Processed(Ok(result), names(tables))
}

#[test]
fn reset_adds_and_removes_the_table() {
    let session = reset();
    assert_eq!(session.batch().table.name, TABLE_NAME);
    assert_eq!(session.batch().table.family, ProtoFamily::Inet);
    let messages = &session.batch().messages;
    assert_eq!(messages.len(), 2);
    assert!(matches!(messages[0].object, Object::Table));
    assert_eq!(messages[0].msg_type, MsgType::Add);
    assert!(matches!(messages[1].object, Object::Table));
    assert_eq!(messages[1].msg_type, MsgType::Del);
}

#[test]
fn table_is_named_mullvad() {
    assert_eq!(apply().batch().table.name, "mullvad");
}

#[test]
fn phases_follow_each_other() {
    let session = reset();
    assert_eq!(session.phase(), Phase::Open);
    assert_eq!(session.exchange(), Exchange::Batch);
    let session = run(session, vec![opened()]).unwrap().unwrap();
    assert_eq!(session.phase(), Phase::Send);
    let session = run(session, vec![sent()]).unwrap().unwrap();
    assert_eq!(session.phase(), Phase::Receive);
    let session = run(session, vec![received(36)]).unwrap().unwrap();
    assert_eq!(session.phase(), Phase::Process(36));
    let session = run(session, vec![processed(CbResult::More, &[])]).unwrap().unwrap();
    assert_eq!(session.phase(), Phase::Receive);
    assert!(run(session, vec![received(0)]).unwrap().is_none());
}

#[test]
fn reset_is_over_after_the_last_message() {
    let events = vec![opened(), sent(), received(36), processed(CbResult::Stop, &[])];
    assert!(run(reset(), events).unwrap().is_none());
}

#[test]
fn apply_asks_for_the_tables_afterwards() {
    let events = vec![opened(), sent(), received(36), processed(CbResult::Stop, &[])];
    let session = run(apply(), events).unwrap().unwrap();
    assert_eq!(session.exchange(), Exchange::Tables);
    assert_eq!(session.phase(), Phase::Open);
}

#[test]
fn apply_succeeds_if_the_table_is_set() {
    let events = vec![
        opened(),
        sent(),
        received(0),
        opened(),
        sent(),
        received(80),
        processed(CbResult::More, &["filter"]),
        received(80),
        processed(CbResult::More, &["mullvad", "nat"]),
        received(20),
        processed(CbResult::Stop, &[]),
    ];
    assert!(run(apply(), events).unwrap().is_none());
}

#[test]
fn last_message_may_tell_of_the_table() {
    let events = vec![
        opened(),
        sent(),
        received(0),
        opened(),
        sent(),
        received(80),
        processed(CbResult::Stop, &["mullvad"]),
    ];
    assert!(run(apply(), events).unwrap().is_none());
}

#[test]
fn apply_fails_if_the_table_is_not_set() {
    let events = vec![
        opened(),
        sent(),
        received(0),
        opened(),
        sent(),
        received(80),
        processed(CbResult::More, &["filter", "mullvad2"]),
        received(0),
    ];
    assert!(matches!(run(apply(), events), Err(Error::NetfilterTableNotSetError)));
}

#[test]
fn tables_count_only_if_they_were_asked_for() {
    let events = vec![
        opened(),
        sent(),
        received(80),
        processed(CbResult::Stop, &["mullvad"]),
        opened(),
        sent(),
        received(0),
    ];
    assert!(matches!(run(apply(), events), Err(Error::NetfilterTableNotSetError)));
}

#[test]
fn failures_end_the_session() {
    match run(reset(), vec![Event::Opened(Err(io_error(1)))]) {
        Err(Error::NetlinkOpenError(cause)) => assert_eq!(cause.raw_os_error(), Some(1)),
        _ => panic!("not an open error"),
    }
    match run(reset(), vec![opened(), Event::Sent(Err(io_error(2)))]) {
        Err(Error::NetlinkSendError(cause)) => assert_eq!(cause.raw_os_error(), Some(2)),
        _ => panic!("not a send error"),
    }
    match run(reset(), vec![opened(), sent(), Event::Received(Err(io_error(3)))]) {
        Err(Error::NetlinkRecvError(cause)) => assert_eq!(cause.raw_os_error(), Some(3)),
        _ => panic!("not a receive error"),
    }
    let failed = Event::Processed(Err(io_error(4)), vec![]);
    match run(reset(), vec![opened(), sent(), received(36), failed]) {
        Err(Error::ProcessNetlinkError(cause)) => assert_eq!(cause.raw_os_error(), Some(4)),
        _ => panic!("not a processing error"),
    }
}

#[test]
fn received_length() {
    assert_eq!(Firewall::socket_recv(Ok(0)).unwrap(), None);
    assert_eq!(Firewall::socket_recv(Ok(5)).unwrap(), Some(5));
    assert!(matches!(
        Firewall::socket_recv(Err(io_error(9))),
        Err(Error::NetlinkRecvError(_))
    ));
}

#[test]
fn all_expected_tables_must_be_set() {
    let set = names(&["a", "b"]);
    assert!(Firewall::verify_tables(&names(&[]), &set).is_ok());
    assert!(Firewall::verify_tables(&names(&["b", "a"]), &set).is_ok());
    assert!(matches!(
        Firewall::verify_tables(&names(&["a", "c"]), &set),
        Err(Error::NetfilterTableNotSetError)
    ));
    assert!(Firewall::verify_tables(&names(&["a"]), &names(&[])).is_err());
}

#[test]
fn lookup_failure_is_reported() {
    let policy = FirewallPolicy::Blocked { allow_lan: false };
    let lookups = IfaceLookups { indices: vec![1], failure: Some(io_error(19)) };
    let mut firewall = Firewall::new().unwrap();
    match firewall.apply_policy(&policy, params(), false, lookups) {
        Err(Error::LookupIfaceIndexError(name, cause)) => {
            assert_eq!(name, "lo");
            assert_eq!(cause.raw_os_error(), Some(19));
        }
        _ => panic!("not a lookup error"),
    }
}

#[test]
fn error_messages() {
    assert_eq!(
        Error::NetlinkOpenError(io_error(1)).message(),
        "Unable to open netlink socket to netfilter"
    );
    assert_eq!(
        Error::NetlinkSendError(io_error(1)).message(),
        "Unable to send netlink command to netfilter"
    );
    assert_eq!(
        Error::NetlinkRecvError(io_error(1)).message(),
        "Error while reading from netlink socket"
    );
    assert_eq!(
        Error::ProcessNetlinkError(io_error(1)).message(),
        "Error while processing an incoming netlink message"
    );
    assert_eq!(Error::NetfilterTableNotSetError.message(), "Failed to set firewall rules");
    assert_eq!(
        Error::LookupIfaceIndexError("wg0".to_string(), io_error(1)).message(),
        "Unable to translate network interface name \"wg0\" into index"
    );
}
