use matrix_oracle::address::{IpAddress, SocketAddress};
use matrix_oracle::error::{Error, NoRecords};
use matrix_oracle::server::{
    classify, select_srv, split_port, Fetched, Resolver, Server, ServerWellKnown, SocketStep,
    SrvRecord, Step,
};

fn document(server: &str) -> Fetched {
    Fetched::Response {
        status: 200,
        document: Some(ServerWellKnown { server: server.to_owned() }),
    }
}

fn record(priority: u16, target: &str, port: u16) -> SrvRecord {
    SrvRecord { priority, target: target.to_owned(), port }
}

/// Runs a resolution to its end with the given answers.
fn run(
    resolver: &Resolver,
    name: &str,
    fetched: Fetched,
    records: &Vec<SrvRecord>,
) -> Result<Server, Error> {
    let mut step = resolver.resolve(name);
    let mut fetched = Some(fetched);
    loop {
        step = match step {
            Step::Done(server) => return Ok(server),
            Step::Failed(error) => return Err(error),
            Step::Fetch { url: _, name } => {
                Resolver::well_known_step(&name, fetched.take().expect("one fetch at most"))
            }
            Step::Lookup { query: _, host } => Resolver::srv_step(host, records),
        };
    }
}

/// Validates correct parsing of IP literals and server name with port
#[test]
fn literals() {
    let resolver = Resolver::new();
    assert_eq!(
        resolver.resolve("127.0.0.1"),
        Step::Done(Server::Ip(IpAddress::V4(127, 0, 0, 1))),
        "1. IP literal"
    );
    assert_eq!(
        resolver.resolve("127.0.0.1:4884"),
        Step::Done(Server::Socket(SocketAddress { ip: IpAddress::V4(127, 0, 0, 1), port: 4884, scope_id: 0 })),
        "1. Socket literal"
    );
    assert_eq!(
        resolver.resolve("example.test:1234"),
        Step::Done(Server::HostPort(String::from("example.test:1234"))),
        "2. Host with port"
    );
}

/// Validates correct handing of the .well-known http endpoint.
#[test]
fn http() {
    let ip = IpAddress::V4(127, 0, 0, 1);
    let addr = SocketAddress { ip, port: 4884, scope_id: 0 };
    let resolver = Resolver::with(addr.port);
    let none: Vec<SrvRecord> = Vec::new();

    assert_eq!(
        resolver.resolve("example.test"),
        Step::Fetch {
            url: String::from("http://example.test:4884/.well-known/matrix/server"),
            name: String::from("example.test"),
        }
    );
    assert_eq!(
        run(&resolver, "example.test", document(&ip.to_text()), &none),
        Ok(Server::Ip(ip)),
        "3.1 delegated_hostname is an IP literal"
    );
    assert_eq!(
        run(&resolver, "example.test", document(&addr.to_text()), &none),
        Ok(Server::Socket(addr)),
        "3.1 delegated_hostname is a socket literal"
    );
    assert_eq!(
        run(&resolver, "example.test", document(&format!("destination.test:{}", addr.port)), &none),
        Ok(Server::HostPort(format!("destination.test:{}", addr.port))),
        "3.2 delegated_hostname includes a port"
    );
}

#[test]
fn ip_literal() {
    assert_eq!(classify("1.2.3.4"), Some(Server::Ip(IpAddress::V4(1, 2, 3, 4))));
}

#[test]
fn socket_literal() {
    assert_eq!(
        classify("1.2.3.4:9999"),
        Some(Server::Socket(SocketAddress { ip: IpAddress::V4(1, 2, 3, 4), port: 9999, scope_id: 0 }))
    );
}

#[test]
fn host_with_port_is_unchanged() {
    assert_eq!(
        classify("host.example:1234"),
        Some(Server::HostPort(String::from("host.example:1234")))
    );
}

#[test]
fn plain_host_is_no_literal() {
    assert_eq!(classify("host.example"), None);
    assert_eq!(classify(""), None);
    assert_eq!(classify("host.example:"), None);
    assert_eq!(classify("host.example:port"), None);
    assert_eq!(classify("host.example:65536"), None);
    assert_eq!(classify("a:b:80"), None);
}

#[test]
fn delegated_ip() {
    let none: Vec<SrvRecord> = Vec::new();
    assert_eq!(
        run(&Resolver::new(), "example.test", document("1.2.3.4"), &none),
        Ok(Server::Ip(IpAddress::V4(1, 2, 3, 4)))
    );
}

#[test]
fn delegated_socket() {
    let none: Vec<SrvRecord> = Vec::new();
    assert_eq!(
        run(&Resolver::new(), "example.test", document("1.2.3.4:9999"), &none),
        Ok(Server::Socket(SocketAddress { ip: IpAddress::V4(1, 2, 3, 4), port: 9999, scope_id: 0 }))
    );
}

#[test]
fn delegated_host_with_port() {
    let none: Vec<SrvRecord> = Vec::new();
    assert_eq!(
        run(&Resolver::new(), "example.test", document("dest.example:9999"), &none),
        Ok(Server::HostPort(String::from("dest.example:9999")))
    );
}

#[test]
fn delegated_host_is_looked_up() {
    assert_eq!(
        Resolver::well_known_step("example.test", document("dest.example")),
        Step::Lookup {
            query: String::from("_matrix._tcp.dest.example"),
            host: String::from("dest.example"),
        }
    );
    let records = vec![record(10, "srv.example.", 8449)];
    assert_eq!(
        run(&Resolver::new(), "example.test", document("dest.example"), &records),
        Ok(Server::Srv(String::from("srv.example:8449"), String::from("dest.example")))
    );
    let none: Vec<SrvRecord> = Vec::new();
    assert_eq!(
        run(&Resolver::new(), "example.test", document("dest.example"), &none),
        Ok(Server::Host(String::from("dest.example")))
    );
}

#[test]
fn not_found_and_no_record_gives_host() {
    let none: Vec<SrvRecord> = Vec::new();
    let fetched = Fetched::Response { status: 404, document: None };
    assert_eq!(
        run(&Resolver::new(), "example.test", fetched, &none),
        Ok(Server::Host(String::from("example.test")))
    );
}

#[test]
fn not_found_with_record_gives_srv() {
    let records = vec![record(5, "a.example.", 1), record(5, "b.example.", 2)];
    let fetched = Fetched::Response { status: 404, document: None };
    assert_eq!(
        Resolver::well_known_step("example.test", Fetched::Failed),
        Step::Lookup {
            query: String::from("_matrix._tcp.example.test"),
            host: String::from("example.test"),
        }
    );
    assert_eq!(
        run(&Resolver::new(), "example.test", fetched, &records),
        Ok(Server::Srv(String::from("a.example:1"), String::from("example.test")))
    );
}

#[test]
fn unsuccessful_response_delegates_nothing() {
    let fetched = Fetched::Response {
        status: 500,
        document: Some(ServerWellKnown { server: String::from("1.2.3.4") }),
    };
    assert_eq!(Resolver::well_known(fetched), Ok(None));
    let fetched = Fetched::Response { status: 200, document: None };
    assert_eq!(Resolver::well_known(fetched), Ok(None));
    assert_eq!(Resolver::well_known(Fetched::Failed), Ok(None));
    let doc = ServerWellKnown { server: String::from("1.2.3.4") };
    let fetched = Fetched::Response { status: 299, document: Some(doc.clone()) };
    assert_eq!(Resolver::well_known(fetched), Ok(Some(doc)));
}

#[test]
fn connect_failure_is_fatal() {
    let records = vec![record(5, "a.example.", 1)];
    let fetched = Fetched::ConnectFailed(String::from("connection refused"));
    let result = run(&Resolver::new(), "example.test", fetched, &records);
    assert_eq!(result, Err(Error::Http(String::from("connection refused"))));
    assert_eq!(result.unwrap_err().message(), "connection refused");
}

#[test]
fn same_answers_same_result() {
    let records = vec![record(7, "b.example", 2), record(3, "a.example..", 1)];
    let first = run(&Resolver::new(), "example.test", document("dest.example"), &records);
    let second = run(&Resolver::new(), "example.test", document("dest.example"), &records);
    assert_eq!(first, second);
    assert_eq!(
        first,
        Ok(Server::Srv(String::from("a.example:1"), String::from("dest.example")))
    );
}

#[test]
fn well_known_url_forms() {
    assert_eq!(
        Resolver::new().well_known_url("example.test"),
        "https://example.test/.well-known/matrix/server"
    );
    assert_eq!(
        Resolver::with(80).well_known_url("example.test"),
        "http://example.test:80/.well-known/matrix/server"
    );
    assert_eq!(Resolver::new().port, None);
    assert_eq!(Resolver::with(0).port, Some(0));
}

#[test]
fn lowest_priority_wins() {
    let none: Vec<SrvRecord> = Vec::new();
    assert_eq!(select_srv(&none), None);
    let records = vec![
        record(20, "c.example.", 3),
        record(10, "a.example.", 65535),
        record(10, "b.example.", 2),
        record(30, "d.example.", 4),
    ];
    assert_eq!(select_srv(&records), Some(String::from("a.example:65535")));
    let records = vec![record(0, "...", 0)];
    assert_eq!(select_srv(&records), Some(String::from(":0")));
}

#[test]
fn split_port_forms() {
    assert_eq!(split_port("example.test:1234"), Some(("example.test", 1234)));
    assert_eq!(split_port("example.test:+80"), Some(("example.test", 80)));
    assert_eq!(split_port("example.test:00080"), Some(("example.test", 80)));
    assert_eq!(split_port(":0"), Some(("", 0)));
    assert_eq!(split_port("h\u{e9}te:65535"), Some(("h\u{e9}te", 65535)));
    assert_eq!(split_port("example.test"), None);
    assert_eq!(split_port("example.test:"), None);
    assert_eq!(split_port("example.test:+"), None);
    assert_eq!(split_port("example.test:-1"), None);
    assert_eq!(split_port("example.test:65536"), None);
    assert_eq!(split_port("example.test:99999999999999999999"), None);
    assert_eq!(split_port("example.test:12a"), None);
    assert_eq!(split_port("a:b:1"), None);
    assert_eq!(split_port("::1"), None);
}

#[test]
fn host_header_and_address() {
    let ip = IpAddress::V4(10, 0, 200, 1);
    let server = Server::Ip(ip);
    assert_eq!(server.host_header(), "10.0.200.1");
    assert_eq!(server.address(), "10.0.200.1:8448");
    let server = Server::Socket(SocketAddress { ip, port: 443, scope_id: 0 });
    assert_eq!(server.host_header(), "10.0.200.1:443");
    assert_eq!(server.address(), "10.0.200.1:443");
    let server = Server::Host(String::from("example.test"));
    assert_eq!(server.host_header(), "example.test");
    assert_eq!(server.address(), "example.test:8448");
    let server = Server::HostPort(String::from("example.test:1234"));
    assert_eq!(server.host_header(), "example.test:1234");
    assert_eq!(server.address(), "example.test:1234");
    let server = Server::Srv(String::from("srv.example:8449"), String::from("example.test"));
    assert_eq!(server.host_header(), "example.test");
    assert_eq!(server.address(), "srv.example:8449");
}

#[test]
fn socket_of_each_form() {
    let resolver = Resolver::new();
    let ip = IpAddress::V4(10, 0, 0, 1);
    assert_eq!(
        resolver.socket(&Server::Ip(ip)),
        SocketStep::Known(SocketAddress { ip, port: 8448, scope_id: 0 })
    );
    assert_eq!(
        resolver.socket(&Server::Socket(SocketAddress { ip, port: 1, scope_id: 0 })),
        SocketStep::Known(SocketAddress { ip, port: 1, scope_id: 0 })
    );
    assert_eq!(
        resolver.socket(&Server::Host(String::from("example.test"))),
        SocketStep::Lookup { host: String::from("example.test"), port: 8448 }
    );
    assert_eq!(
        resolver.socket(&Server::HostPort(String::from("example.test:1234"))),
        SocketStep::Lookup { host: String::from("example.test"), port: 1234 }
    );
    let server = Server::Srv(String::from("srv.example:8449"), String::from("example.test"));
    assert!(server.has_port());
    assert_eq!(
        resolver.socket(&server),
        SocketStep::Lookup { host: String::from("srv.example"), port: 8449 }
    );
    assert!(!Server::HostPort(String::from("example.test")).has_port());
    assert!(!Server::Srv(String::from("a:b:1"), String::from("example.test")).has_port());
}

#[test]
fn first_address_or_no_records() {
    let none: Vec<IpAddress> = Vec::new();
    assert_eq!(Resolver::first_address(&none, 8448), Err(NoRecords));
    assert_eq!(NoRecords.message(), "No records");
    let some = vec![IpAddress::V4(1, 1, 1, 1), IpAddress::V4(2, 2, 2, 2)];
    assert_eq!(
        Resolver::first_address(&some, 8448),
        Ok(SocketAddress { ip: IpAddress::V4(1, 1, 1, 1), port: 8448, scope_id: 0 })
    );
}

#[test]
fn v6_names() {
    let one = IpAddress::V6(0, 0, 0, 0, 0, 0, 0, 1);
    assert_eq!(classify("::1"), Some(Server::Ip(one)));
    assert_eq!(classify("[::1]:8448"), Some(Server::Socket(SocketAddress::new(one, 8448))));
    assert_eq!(
        classify("::1:80"),
        Some(Server::Ip(IpAddress::V6(0, 0, 0, 0, 0, 0, 1, 0x80)))
    );
    assert_eq!(classify("[::1]"), None);
    assert_eq!(classify("1.2.3.4:+80"), Some(Server::HostPort(String::from("1.2.3.4:+80"))));
    assert_eq!(classify("01.2.3.4:80"), Some(Server::HostPort(String::from("01.2.3.4:80"))));
    assert_eq!(classify("01.2.3.4"), None);
    assert_eq!(classify("::g"), None);
    assert_eq!(Server::Ip(one).host_header(), "::1");
    assert_eq!(Server::Ip(one).address(), "::1:8448");
    let server = Server::Socket(SocketAddress::new(one, 443));
    assert_eq!(server.host_header(), "[::1]:443");
    assert_eq!(server.address(), "[::1]:443");
    assert_eq!(
        Resolver::new().socket(&Server::Ip(one)),
        SocketStep::Known(SocketAddress { ip: one, port: 8448, scope_id: 0 })
    );
}
