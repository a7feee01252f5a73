//! Resolution for the server-server API: from a server name to the address
//! to connect to and the host to ask for.

use vstd::prelude::*;
use vstd::string::*;
use crate::address::laws::{lemma_ip_reads_back, lemma_socket_reads_back};
use crate::address::{
    ip_text, parse_ip_chars, parse_ip_spec, parse_socket_chars, parse_socket_spec, socket_text,
    IpAddress, SocketAddress,
};
use crate::error::{Error, ErrorView, NoRecords};
use crate::text::{
    chars_of, decimal_text, lemma_decimal_text, lemma_port_reads_back, parse_u16_spec,
    push_decimal, read_u16, trim_trailing_dots, without_trailing_dots,
};

verus! {

/// The port of a server for which none is given.
pub const DEFAULT_PORT: u16 = 8448;

/// well-known information about the delegated server for server-server
/// communication.
#[derive(Debug, Clone, PartialEq, Eq)]
pub struct ServerWellKnown {
    /// The server name to delegate server-server communications to, with
    /// optional port.
    pub server: String,
}

/// One service record of the domain name system.
#[derive(Debug, Clone, PartialEq, Eq)]
pub struct SrvRecord {
    /// The record's priority; a lower one is preferred.
    pub priority: u16,
    /// The host that the record points to.
    pub target: String,
    /// The port on that host.
    pub port: u16,
}

/// A `SrvRecord` as contracts see it.
pub struct SrvRecordView {
    /// See `SrvRecord::priority`.
    pub priority: u16,
    /// See `SrvRecord::target`.
    pub target: Seq<char>,
    /// See `SrvRecord::port`.
    pub port: u16,
}

impl View for SrvRecord {
    type V = SrvRecordView;

    open spec fn view(&self) -> SrvRecordView {
        SrvRecordView { priority: self.priority, target: self.target@, port: self.port }
    }
}

/// The records of `rs` as contracts see them.
pub open spec fn records_view(rs: Seq<SrvRecord>) -> Seq<SrvRecordView> {
    rs.map_values(|r: SrvRecord| r@)
}

/// Resolved server name
#[derive(Debug, Clone, PartialEq, Eq)]
pub enum Server {
    /// IP address with implicit default port (8448)
    Ip(IpAddress),
    /// IP address and explicit port
    Socket(SocketAddress),
    /// Host string with implicit default port (8448)
    Host(String),
    /// Host string with explicit port.
    HostPort(String),
    /// Address from srv record, hostname from server name.
    Srv(String, String),
}

/// A `Server` as contracts see it.
pub enum ServerView {
    /// See `Server::Ip`.
    Ip(IpAddress),
    /// See `Server::Socket`.
    Socket(SocketAddress),
    /// See `Server::Host`.
    Host(Seq<char>),
    /// See `Server::HostPort`.
    HostPort(Seq<char>),
    /// See `Server::Srv`.
    Srv(Seq<char>, Seq<char>),
}

impl View for Server {
    type V = ServerView;

    open spec fn view(&self) -> ServerView {
        match *self {
            Server::Ip(ip) => ServerView::Ip(ip),
            Server::Socket(addr) => ServerView::Socket(addr),
            Server::Host(host) => ServerView::Host(host@),
            Server::HostPort(host) => ServerView::HostPort(host@),
            Server::Srv(target, host) => ServerView::Srv(target@, host@),
        }
    }
}

/// `s` holds a colon at `i` and nowhere else.
pub open spec fn sole_colon(s: Seq<char>, i: int) -> bool {
    &&& 0 <= i < s.len()
    &&& s[i] == ':'
    &&& forall|j: int| 0 <= j < s.len() && j != i ==> s[j] != ':'
}

/// The host and the port of `s`, where `s` holds exactly one colon and what
/// follows it reads as a port.
pub open spec fn split_port_spec(s: Seq<char>) -> Option<(Seq<char>, u16)> {
    if exists|i: int| sole_colon(s, i) {
        let i = choose|i: int| sole_colon(s, i);
        match parse_u16_spec(s.subrange(i + 1, s.len() as int)) {
            Some(port) => Some((s.subrange(0, i), port)),
            None => None,
        }
    } else {
        None
    }
}

/// What a name stands for by its form alone: an address with a port, else
/// an address, else a host with a port; else nothing.
pub open spec fn classify_spec(name: Seq<char>) -> Option<ServerView> {
    match parse_socket_spec(name) {
        Some(addr) => Some(ServerView::Socket(addr)),
        None => match parse_ip_spec(name) {
            Some(ip) => Some(ServerView::Ip(ip)),
            None => match split_port_spec(name) {
                Some(_) => Some(ServerView::HostPort(name)),
                None => None,
            },
        },
    }
}

/// The value of the `Host` header for a server.
pub open spec fn host_header_spec(server: ServerView) -> Seq<char> {
    match server {
        ServerView::Ip(ip) => ip_text(ip),
        ServerView::Socket(addr) => socket_text(addr),
        ServerView::Host(host) => host,
        ServerView::HostPort(host) => host,
        ServerView::Srv(_, host) => host,
    }
}

/// The address to connect to for a server.
pub open spec fn address_spec(server: ServerView) -> Seq<char> {
    match server {
        ServerView::Ip(ip) => ip_text(ip).push(':') + decimal_text(DEFAULT_PORT as nat),
        ServerView::Socket(addr) => socket_text(addr),
        ServerView::Host(host) => host.push(':') + decimal_text(DEFAULT_PORT as nat),
        ServerView::HostPort(host) => host,
        ServerView::Srv(target, _) => target,
    }
}

/// Get the port at the end of a host string if there is one.
pub fn split_port(host: &str) -> (r: Option<(&str, u16)>)
    ensures
        match split_port_spec(host@) {
            Some((name, port)) => match r {
                Some((h, p)) => h@ == name && p == port,
                None => false,
            },
            None => r is None,
        },
{
    let v = chars_of(host);
    let n: usize = v.len();
    let mut i: usize = 0;
    while i < n && v[i] != ':'
        invariant
            i <= n,
            n == v.len(),
            forall|j: int| 0 <= j < i ==> v@[j] != ':',
        decreases n - i,
    {
        i = i + 1;
    }
    if i == n {
        assert(forall|k: int| !sole_colon(v@, k));
        return None;
    }
    let mut j: usize = i + 1;
    while j < n && v[j] != ':'
        invariant
            i < j <= n,
            n == v.len(),
            forall|k: int| i < k < j ==> v@[k] != ':',
        decreases n - j,
    {
        j = j + 1;
    }
    if j < n {
        assert forall|k: int| !sole_colon(v@, k) by {
            if k == i {
                assert(v@[j as int] == ':');
            } else {
                assert(v@[i as int] == ':');
            }
        }
        return None;
    }
    assert(sole_colon(v@, i as int));
    assert forall|k: int| sole_colon(v@, k) implies k == i by {
        if k != i {
            assert(v@[i as int] == ':');
        }
    }
    match read_u16(&v, i + 1, n) {
        Some(port) => Some((host.substring_char(0, i), port)),
        None => None,
    }
}

impl Server {
    /// The value to use for the `Host` HTTP header.
    #[must_use]
    pub fn host_header(&self) -> (r: String)
        ensures
            r@ == host_header_spec(self@),
    {
        match self {
            Server::Ip(addr) => addr.to_text(),
            Server::Socket(addr) => addr.to_text(),
            Server::Host(host) => host.clone(),
            Server::HostPort(host) => host.clone(),
            Server::Srv(_, host) => host.clone(),
        }
    }

    /// The address to connect to.
    #[must_use]
    pub fn address(&self) -> (r: String)
        ensures
            r@ == address_spec(self@),
    {
        proof {
            reveal_strlit(":");
        }
        match self {
            Server::Ip(addr) => {
                let mut out = addr.to_text();
                out.append(":");
                push_decimal(&mut out, DEFAULT_PORT as u32);
                assert(out@ =~= address_spec(self@));
                out
            },
            Server::Socket(addr) => addr.to_text(),
            Server::Host(host) => {
                let mut out = host.clone();
                out.append(":");
                push_decimal(&mut out, DEFAULT_PORT as u32);
                assert(out@ =~= address_spec(self@));
                out
            },
            Server::HostPort(host) => host.clone(),
            Server::Srv(target, _) => target.clone(),
        }
    }
}

/// What a name stands for by its form alone, if its form says it.
pub fn classify(name: &str) -> (r: Option<Server>)
    ensures
        match classify_spec(name@) {
            Some(server) => r is Some && r->0@ == server,
            None => r is None,
        },
{
    let v = chars_of(name);
    if let Some(addr) = parse_socket_chars(&v) {
        return Some(Server::Socket(addr));
    }
    if let Some(ip) = parse_ip_chars(&v) {
        return Some(Server::Ip(ip));
    }
    if split_port(name).is_some() {
        return Some(Server::HostPort(name.to_owned()));
    }
    None
}

/// The record at `i` has the lowest priority of `rs`, and is the first that
/// has it.
pub open spec fn first_lowest(rs: Seq<SrvRecordView>, i: int) -> bool {
    &&& 0 <= i < rs.len()
    &&& forall|j: int| 0 <= j < rs.len() ==> rs[i].priority <= #[trigger] rs[j].priority
    &&& forall|j: int| 0 <= j < i ==> rs[i].priority < #[trigger] rs[j].priority
}

/// The address that a record stands for: its target without the dots at its
/// end, a colon, and its port.
pub open spec fn srv_address_spec(r: SrvRecordView) -> Seq<char> {
    without_trailing_dots(r.target).push(':') + decimal_text(r.port as nat)
}

/// The address of the first record of lowest priority, if there is a record.
pub open spec fn select_srv_spec(rs: Seq<SrvRecordView>) -> Option<Seq<char>> {
    if rs.len() == 0 {
        None
    } else {
        Some(srv_address_spec(rs[choose|i: int| first_lowest(rs, i)]))
    }
}

/// The name under which the service records of `host` are found.
pub open spec fn srv_query_spec(host: Seq<char>) -> Seq<char> {
    "_matrix._tcp."@ + host
}

/// What a host stands for once its service records are known.
pub open spec fn srv_lookup_spec(host: Seq<char>, rs: Seq<SrvRecordView>) -> ServerView {
    match select_srv_spec(rs) {
        Some(target) => ServerView::Srv(target, host),
        None => ServerView::Host(host),
    }
}

/// The name under which the service records of `host` are found.
pub fn srv_query(host: &str) -> (r: String)
    ensures
        r@ == srv_query_spec(host@),
{
    let mut out = "_matrix._tcp.".to_owned();
    out.append(host);
    out
}

/// The address of the record with the lowest priority value; of several
/// such, the first. The weight of a record plays no part.
pub fn select_srv(records: &Vec<SrvRecord>) -> (r: Option<String>)
    ensures
        r.deep_view() == select_srv_spec(records_view(records@)),
{
    let ghost rs = records_view(records@);
    let n: usize = records.len();
    if n == 0 {
        return None;
    }
    let mut best: usize = 0;
    let mut i: usize = 1;
    while i < n
        invariant
            n == records.len(),
            rs == records_view(records@),
            1 <= i <= n,
            best < i,
            forall|j: int| 0 <= j < i ==> rs[best as int].priority <= #[trigger] rs[j].priority,
            forall|j: int| 0 <= j < best ==> rs[best as int].priority < #[trigger] rs[j].priority,
        decreases n - i,
    {
        assert(rs[i as int].priority == records@[i as int].priority);
        assert(rs[best as int].priority == records@[best as int].priority);
        if records[i].priority < records[best].priority {
            best = i;
        }
        i = i + 1;
    }
    assert(first_lowest(rs, best as int));
    assert forall|k: int| first_lowest(rs, k) implies k == best by {
        if k < best {
            assert(rs[best as int].priority < rs[k].priority);
            assert(rs[k].priority <= rs[best as int].priority);
        } else if k > best {
            assert(rs[k].priority < rs[best as int].priority);
            assert(rs[best as int].priority <= rs[k].priority);
        }
    }
    proof {
        reveal_strlit(":");
    }
    let record = &records[best];
    assert(rs[best as int] == record@);
    let mut out = trim_trailing_dots(record.target.as_str()).to_owned();
    out.append(":");
    push_decimal(&mut out, record.port as u32);
    assert(out@ =~= srv_address_spec(record@));
    Some(out)
}

/// What came of the request for the delegation document of a server.
#[derive(Debug, Clone, PartialEq, Eq)]
pub enum Fetched {
    /// No connection could be made; the text is the transport's account of
    /// it.
    ConnectFailed(String),
    /// The request failed in another way, such as by a timeout.
    Failed,
    /// A response came, with this status; `document` is what its body holds,
    /// if the body is a delegation document.
    Response {
        /// The status code of the response.
        status: u16,
        /// The document in the body of the response.
        document: Option<ServerWellKnown>,
    },
}

/// A `Fetched` as contracts see it.
pub enum FetchedView {
    /// See `Fetched::ConnectFailed`.
    ConnectFailed(Seq<char>),
    /// See `Fetched::Failed`.
    Failed,
    /// See `Fetched::Response`; the document is the server that it names.
    Response {
        /// The status code of the response.
        status: u16,
        /// The server that the document names.
        document: Option<Seq<char>>,
    },
}

/// The server that a delegation document names, if there is a document.
pub open spec fn document_view(document: Option<ServerWellKnown>) -> Option<Seq<char>> {
    match document {
        Some(doc) => Some(doc.server@),
        None => None,
    }
}

impl View for Fetched {
    type V = FetchedView;

    open spec fn view(&self) -> FetchedView {
        match *self {
            Fetched::ConnectFailed(message) => FetchedView::ConnectFailed(message@),
            Fetched::Failed => FetchedView::Failed,
            Fetched::Response { status, document } => FetchedView::Response {
                status,
                document: document_view(document),
            },
        }
    }
}

/// The delegation that a fetch comes to. Only a connection that could not
/// be made is an error; a response that does not succeed, or holds no
/// document, means that nothing is delegated.
pub open spec fn well_known_spec(fetched: FetchedView) -> Result<Option<Seq<char>>, ErrorView> {
    match fetched {
        FetchedView::ConnectFailed(message) => Err(ErrorView::Http(message)),
        FetchedView::Failed => Ok(None),
        FetchedView::Response { status, document } => if 200 <= status < 300 {
            Ok(document)
        } else {
            Ok(None)
        },
    }
}

/// What the caller is to do next, or what the resolution came to.
#[derive(Debug, Clone, PartialEq, Eq)]
pub enum Step {
    /// Request `url` and hand what came of it to `Resolver::well_known_step`,
    /// together with `name`.
    Fetch {
        /// The address of the delegation document.
        url: String,
        /// The server name that is being resolved.
        name: String,
    },
    /// Look up the service records of `query` and hand them to
    /// `Resolver::srv_step`, together with `host`; hand it no records where
    /// the lookup fails.
    Lookup {
        /// The name to look up.
        query: String,
        /// The host that the records are for.
        host: String,
    },
    /// The resolution is done.
    Done(Server),
    /// The resolution failed.
    Failed(Error),
}

/// A `Step` as contracts see it.
pub enum StepView {
    /// See `Step::Fetch`.
    Fetch {
        /// The address of the delegation document.
        url: Seq<char>,
        /// The server name that is being resolved.
        name: Seq<char>,
    },
    /// See `Step::Lookup`.
    Lookup {
        /// The name to look up.
        query: Seq<char>,
        /// The host that the records are for.
        host: Seq<char>,
    },
    /// See `Step::Done`.
    Done(ServerView),
    /// See `Step::Failed`.
    Failed(ErrorView),
}

impl View for Step {
    type V = StepView;

    open spec fn view(&self) -> StepView {
        match *self {
            Step::Fetch { url, name } => StepView::Fetch { url: url@, name: name@ },
            Step::Lookup { query, host } => StepView::Lookup { query: query@, host: host@ },
            Step::Done(server) => StepView::Done(server@),
            Step::Failed(error) => StepView::Failed(error@),
        }
    }
}

/// Where the delegation document of `name` is asked for: over HTTPS, or,
/// where a port is given, over HTTP on that port.
pub open spec fn well_known_url_spec(port: Option<u16>, name: Seq<char>) -> Seq<char> {
    match port {
        None => "https://"@ + name + "/.well-known/matrix/server"@,
        Some(p) => "http://"@ + name + seq![':'] + decimal_text(p as nat)
            + "/.well-known/matrix/server"@,
    }
}

/// The first step for a name: done where its form says what it stands for,
/// else the fetch of its delegation document.
pub open spec fn resolve_step_spec(port: Option<u16>, name: Seq<char>) -> StepView {
    match classify_spec(name) {
        Some(server) => StepView::Done(server),
        None => StepView::Fetch { url: well_known_url_spec(port, name), name },
    }
}

/// The lookup of the service records of `host`.
pub open spec fn lookup_step_spec(host: Seq<char>) -> StepView {
    StepView::Lookup { query: srv_query_spec(host), host }
}

/// The step after the fetch for `name`.
pub open spec fn well_known_step_spec(name: Seq<char>, fetched: FetchedView) -> StepView {
    match well_known_spec(fetched) {
        Err(error) => StepView::Failed(error),
        Ok(Some(delegate)) => match classify_spec(delegate) {
            Some(server) => StepView::Done(server),
            None => lookup_step_spec(delegate),
        },
        Ok(None) => lookup_step_spec(name),
    }
}

/// What the resolution of `name` comes to, where the fetch of a delegation
/// document, if one is made, comes to `fetched`, and the lookup of service
/// records, if one is made, gives `records`.
pub open spec fn resolve_spec(
    name: Seq<char>,
    fetched: FetchedView,
    records: Seq<SrvRecordView>,
) -> Result<ServerView, ErrorView> {
    match classify_spec(name) {
        Some(server) => Ok(server),
        None => match well_known_spec(fetched) {
            Err(error) => Err(error),
            Ok(Some(delegate)) => match classify_spec(delegate) {
                Some(server) => Ok(server),
                None => Ok(srv_lookup_spec(delegate, records)),
            },
            Ok(None) => Ok(srv_lookup_spec(name, records)),
        },
    }
}

/// Settings for server-server well-known lookups.
#[derive(Debug, Clone, Copy, PartialEq, Eq, Structural)]
pub struct Resolver {
    /// Where set, delegation documents are asked for over plain HTTP on this
    /// port; else over HTTPS.
    pub port: Option<u16>,
}

impl Resolver {
    /// A resolver that asks for delegation documents over HTTPS.
    pub fn new() -> (r: Self)
        ensures
            r.port is None,
    {
        Resolver { port: None }
    }

    /// A resolver that asks for delegation documents over plain HTTP on
    /// `port`.
    #[must_use]
    pub fn with(port: u16) -> (r: Self)
        ensures
            r.port == Some(port),
    {
        Resolver { port: Some(port) }
    }

    /// Where the delegation document of `name` is asked for.
    pub fn well_known_url(&self, name: &str) -> (r: String)
        ensures
            r@ == well_known_url_spec(self.port, name@),
    {
        match self.port {
            None => {
                let mut out = "https://".to_owned();
                out.append(name);
                out.append("/.well-known/matrix/server");
                out
            },
            Some(p) => {
                proof {
                    reveal_strlit(":");
                }
                let mut out = "http://".to_owned();
                out.append(name);
                out.append(":");
                assert(":"@ =~= seq![':']);
                push_decimal(&mut out, p as u32);
                out.append("/.well-known/matrix/server");
                out
            },
        }
    }

    /// Resolve the given server name: the first step of it.
    pub fn resolve(&self, name: &str) -> (step: Step)
        ensures
            step@ == resolve_step_spec(self.port, name@),
    {
        match classify(name) {
            Some(server) => Step::Done(server),
            None => Step::Fetch { url: self.well_known_url(name), name: name.to_owned() },
        }
    }

    /// The delegation that a fetch comes to.
    pub fn well_known(fetched: Fetched) -> (r: Result<Option<ServerWellKnown>, Error>)
        ensures
            match well_known_spec(fetched@) {
                Ok(document) => r is Ok && document_view(r->Ok_0) == document,
                Err(error) => r is Err && r->Err_0@ == error,
            },
    {
        match fetched {
            Fetched::ConnectFailed(message) => Err(Error::Http(message)),
            Fetched::Failed => Ok(None),
            Fetched::Response { status, document } => if 200 <= status && status < 300 {
                Ok(document)
            } else {
                Ok(None)
            },
        }
    }

    /// The step that asks for the service records of `host`.
    pub fn lookup_step(host: String) -> (step: Step)
        ensures
            step@ == lookup_step_spec(host@),
    {
        Step::Lookup { query: srv_query(host.as_str()), host }
    }

    /// The step after the fetch of the delegation document of `name`.
    pub fn well_known_step(name: &str, fetched: Fetched) -> (step: Step)
        ensures
            step@ == well_known_step_spec(name@, fetched@),
    {
        match Self::well_known(fetched) {
            Err(error) => Step::Failed(error),
            Ok(Some(document)) => match classify(document.server.as_str()) {
                Some(server) => Step::Done(server),
                None => Self::lookup_step(document.server),
            },
            Ok(None) => Self::lookup_step(name.to_owned()),
        }
    }

    /// What `host` stands for, given its service records: the address of
    /// the preferred record, or, without a record, the host itself.
    pub fn srv_lookup(host: String, records: &Vec<SrvRecord>) -> (server: Server)
        ensures
            server@ == srv_lookup_spec(host@, records_view(records@)),
    {
        match select_srv(records) {
            Some(target) => Server::Srv(target, host),
            None => Server::Host(host),
        }
    }

    /// The step after the lookup of the service records of `host`, which is
    /// the last.
    pub fn srv_step(host: String, records: &Vec<SrvRecord>) -> (step: Step)
        ensures
            step@ == StepView::Done(srv_lookup_spec(host@, records_view(records@))),
    {
        Step::Done(Self::srv_lookup(host, records))
    }
}

/// How the socket of a server is found.
#[derive(Debug, Clone, PartialEq, Eq)]
pub enum SocketStep {
    /// The socket is known.
    Known(SocketAddress),
    /// Look up the addresses of `host` and hand them to
    /// `Resolver::first_address`, together with `port`.
    Lookup {
        /// The host to look up.
        host: String,
        /// The port to pair with its address.
        port: u16,
    },
}

/// A `SocketStep` as contracts see it.
pub enum SocketStepView {
    /// See `SocketStep::Known`.
    Known(SocketAddress),
    /// See `SocketStep::Lookup`.
    Lookup {
        /// The host to look up.
        host: Seq<char>,
        /// The port to pair with its address.
        port: u16,
    },
}

impl View for SocketStep {
    type V = SocketStepView;

    open spec fn view(&self) -> SocketStepView {
        match *self {
            SocketStep::Known(addr) => SocketStepView::Known(addr),
            SocketStep::Lookup { host, port } => SocketStepView::Lookup { host: host@, port },
        }
    }
}

/// A server whose port is known: where it is to be read from the end of a
/// host string, it can be.
pub open spec fn has_port_spec(server: ServerView) -> bool {
    match server {
        ServerView::HostPort(host) => split_port_spec(host) is Some,
        ServerView::Srv(target, _) => split_port_spec(target) is Some,
        _ => true,
    }
}

/// The lookup of the host that `s` names before its port.
pub open spec fn lookup_host_port_spec(s: Seq<char>) -> SocketStepView {
    let (host, port) = split_port_spec(s)->0;
    SocketStepView::Lookup { host, port }
}

/// How the socket of a server is found: an address is paired with its port,
/// or with the default port where it has none; a host is looked up.
pub open spec fn socket_spec(server: ServerView) -> SocketStepView {
    match server {
        ServerView::Ip(ip) => SocketStepView::Known(
            SocketAddress { ip, port: DEFAULT_PORT, scope_id: 0 },
        ),
        ServerView::Socket(addr) => SocketStepView::Known(addr),
        ServerView::Host(host) => SocketStepView::Lookup { host, port: DEFAULT_PORT },
        ServerView::HostPort(host) => lookup_host_port_spec(host),
        ServerView::Srv(target, _) => lookup_host_port_spec(target),
    }
}

/// The first of the addresses, with the port; without an address, nothing.
pub open spec fn first_address_spec(addresses: Seq<IpAddress>, port: u16) -> Result<
    SocketAddress,
    NoRecords,
> {
    if addresses.len() == 0 {
        Err(NoRecords)
    } else {
        Ok(SocketAddress { ip: addresses[0], port, scope_id: 0 })
    }
}

impl Server {
    /// Is the port of this server known?
    pub fn has_port(&self) -> (r: bool)
        ensures
            r == has_port_spec(self@),
    {
        match self {
            Server::HostPort(host) => split_port(host.as_str()).is_some(),
            Server::Srv(target, _) => split_port(target.as_str()).is_some(),
            _ => true,
        }
    }
}

/// The lookup of the host that `s` names before its port.
fn lookup_host_port(s: &str) -> (step: SocketStep)
    requires
        split_port_spec(s@) is Some,
    ensures
        step@ == lookup_host_port_spec(s@),
{
    match split_port(s) {
        Some((host, port)) => SocketStep::Lookup { host: host.to_owned(), port },
        None => vstd::pervasive::unreached(),
    }
}

impl Resolver {
    /// Get the socket of a server: at once, or by a lookup of its host.
    pub fn socket(&self, server: &Server) -> (step: SocketStep)
        requires
            has_port_spec(server@),
        ensures
            step@ == socket_spec(server@),
    {
        match server {
            Server::Ip(ip) => SocketStep::Known(SocketAddress::new(*ip, DEFAULT_PORT)),
            Server::Socket(addr) => SocketStep::Known(*addr),
            Server::Host(host) => SocketStep::Lookup { host: host.clone(), port: DEFAULT_PORT },
            Server::HostPort(host) => lookup_host_port(host.as_str()),
            Server::Srv(target, _) => lookup_host_port(target.as_str()),
        }
    }

    /// The socket of a host whose addresses were looked up: its first
    /// address with the port.
    pub fn first_address(addresses: &Vec<IpAddress>, port: u16) -> (r: Result<
        SocketAddress,
        NoRecords,
    >)
        ensures
            r == first_address_spec(addresses@, port),
    {
        if addresses.len() == 0 {
            Err(NoRecords)
        } else {
            Ok(SocketAddress::new(addresses[0], port))
        }
    }
}

/// A name whose form says what it stands for is resolved without a request:
/// at the first step, and whatever a fetch or a lookup would have given.
pub proof fn lemma_literal_is_terminal(
    port: Option<u16>,
    name: Seq<char>,
    fetched: FetchedView,
    records: Seq<SrvRecordView>,
)
    requires
        classify_spec(name) is Some,
    ensures
        resolve_step_spec(port, name) == StepView::Done(classify_spec(name)->0),
        resolve_spec(name, fetched, records) == Ok::<ServerView, ErrorView>(
            classify_spec(name)->0,
        ),
{
}

/// A host with a port is kept as it was given.
pub proof fn lemma_host_port_unchanged(name: Seq<char>)
    requires
        parse_socket_spec(name) is None,
        parse_ip_spec(name) is None,
        split_port_spec(name) is Some,
    ensures
        classify_spec(name) == Some(ServerView::HostPort(name)),
        has_port_spec(classify_spec(name)->0),
{
}

/// Whatever a name stands for by its form has a known port.
pub proof fn lemma_classified_has_port(name: Seq<char>)
    requires
        classify_spec(name) is Some,
    ensures
        has_port_spec(classify_spec(name)->0),
{
}

/// A server that is an address, or an address with a port, is found again
/// from the host that is asked for: what is written of it stands for it.
pub proof fn lemma_address_classifies_back(server: ServerView)
    requires
        server is Ip || server is Socket,
        server matches ServerView::Socket(addr) ==> (addr.ip is V4 ==> addr.scope_id == 0),
    ensures
        classify_spec(host_header_spec(server)) == Some(server),
{
    match server {
        ServerView::Ip(ip) => {
            lemma_ip_reads_back(ip);
            lemma_socket_reads_back(SocketAddress { ip, port: 0, scope_id: 0 });
        },
        ServerView::Socket(addr) => {
            lemma_socket_reads_back(addr);
        },
        _ => {},
    }
}

/// What is left of a text without the dots at its end is the start of the
/// text.
pub proof fn lemma_without_trailing_dots(s: Seq<char>)
    ensures
        without_trailing_dots(s).len() <= s.len(),
        without_trailing_dots(s) == s.take(without_trailing_dots(s).len() as int),
    decreases s.len(),
{
    if s.len() > 0 && s.last() == '.' {
        lemma_without_trailing_dots(s.drop_last());
        let t = without_trailing_dots(s);
        assert(s.drop_last().take(t.len() as int) =~= s.take(t.len() as int));
    } else {
        assert(s.take(s.len() as int) =~= s);
    }
}

/// The address of a record whose target holds no colon splits into that
/// target, without the dots at its end, and the port of the record.
#[verifier::rlimit(40)]
pub proof fn lemma_srv_address_splits(r: SrvRecordView)
    requires
        forall|i: int| 0 <= i < r.target.len() ==> r.target[i] != ':',
    ensures
        split_port_spec(srv_address_spec(r)) == Some((without_trailing_dots(r.target), r.port)),
{
    let host = without_trailing_dots(r.target);
    let digits = decimal_text(r.port as nat);
    let s = srv_address_spec(r);
    let at = host.len() as int;
    lemma_without_trailing_dots(r.target);
    lemma_decimal_text(r.port as nat);
    lemma_port_reads_back(r.port);
    assert(s.len() == at + 1 + digits.len());
    assert(s[at] == ':');
    assert forall|j: int| 0 <= j < s.len() && j != at implies s[j] != ':' by {
        if j < at {
            assert(s[j] == host[j]);
            assert(host[j] == r.target[j]);
        } else {
            assert(s[j] == digits[j - at - 1]);
        }
    }
    assert(sole_colon(s, at));
    let chosen = choose|i: int| sole_colon(s, i);
    assert(chosen == at);
    assert(s.subrange(at + 1, s.len() as int) =~= digits);
    assert(s.subrange(0, at) =~= host);
}

/// What the steps come to, taken one after the other with the answers
/// `fetched` and `records`.
pub open spec fn steps_spec(
    port: Option<u16>,
    name: Seq<char>,
    fetched: FetchedView,
    records: Seq<SrvRecordView>,
) -> Result<ServerView, ErrorView> {
    match resolve_step_spec(port, name) {
        StepView::Done(server) => Ok(server),
        StepView::Failed(error) => Err(error),
        StepView::Lookup { query, host } => Ok(srv_lookup_spec(host, records)),
        StepView::Fetch { url, name: asked } => match well_known_step_spec(asked, fetched) {
            StepView::Done(server) => Ok(server),
            StepView::Failed(error) => Err(error),
            StepView::Lookup { query, host } => Ok(srv_lookup_spec(host, records)),
            StepView::Fetch { url, name: again } => Ok(ServerView::Host(again)),
        },
    }
}

/// The steps, taken one after the other, come to what the resolution is
/// said to be; and no step after a fetch asks for another fetch.
pub proof fn lemma_steps_resolve(
    port: Option<u16>,
    name: Seq<char>,
    fetched: FetchedView,
    records: Seq<SrvRecordView>,
)
    ensures
        steps_spec(port, name, fetched, records) == resolve_spec(name, fetched, records),
        !(well_known_step_spec(name, fetched) is Fetch),
        !(resolve_step_spec(port, name) is Lookup),
        !(resolve_step_spec(port, name) is Failed),
{
}

/// A delegation document that names an address, an address with a port or
/// a host with a port settles the resolution of a name whose own form says
/// nothing.
pub proof fn lemma_delegated_literal(
    name: Seq<char>,
    status: u16,
    delegate: Seq<char>,
    records: Seq<SrvRecordView>,
)
    requires
        classify_spec(name) is None,
        200 <= status < 300,
        classify_spec(delegate) is Some,
    ensures
        resolve_spec(
            name,
            FetchedView::Response { status, document: Some(delegate) },
            records,
        ) == Ok::<ServerView, ErrorView>(classify_spec(delegate)->0),
{
}

/// Without a delegation and without a service record, a name stands for
/// itself as a host: so after a response that did not succeed, such as one
/// of status 404, and after a failure other than of the connection.
pub proof fn lemma_falls_back_to_host(name: Seq<char>, fetched: FetchedView)
    requires
        classify_spec(name) is None,
        well_known_spec(fetched) == Ok::<Option<Seq<char>>, ErrorView>(None),
    ensures
        resolve_spec(name, fetched, Seq::empty()) == Ok::<ServerView, ErrorView>(
            ServerView::Host(name),
        ),
        forall|document: Option<Seq<char>>|
            well_known_spec(FetchedView::Response { status: 404, document }) == Ok::<
                Option<Seq<char>>,
                ErrorView,
            >(None),
        well_known_spec(FetchedView::Failed) == Ok::<Option<Seq<char>>, ErrorView>(None),
{
}

/// Where no connection can be made for the delegation document, the
/// resolution fails, whatever the service records hold.
pub proof fn lemma_connect_failure_is_fatal(
    name: Seq<char>,
    message: Seq<char>,
    records: Seq<SrvRecordView>,
)
    requires
        classify_spec(name) is None,
    ensures
        resolve_spec(name, FetchedView::ConnectFailed(message), records) == Err::<
            ServerView,
            ErrorView,
        >(ErrorView::Http(message)),
{
}

/// Two resolutions of one name that get the same answers come to the same
/// result, step by step.
pub proof fn lemma_resolution_is_determined(
    port: Option<u16>,
    name_a: Seq<char>,
    fetched_a: FetchedView,
    records_a: Seq<SrvRecordView>,
    name_b: Seq<char>,
    fetched_b: FetchedView,
    records_b: Seq<SrvRecordView>,
)
    requires
        name_a =~= name_b,
        fetched_a == fetched_b,
        records_a =~= records_b,
    ensures
        resolve_step_spec(port, name_a) == resolve_step_spec(port, name_b),
        well_known_step_spec(name_a, fetched_a) == well_known_step_spec(name_b, fetched_b),
        srv_lookup_spec(name_a, records_a) == srv_lookup_spec(name_b, records_b),
        resolve_spec(name_a, fetched_a, records_a) == resolve_spec(name_b, fetched_b, records_b),
{
}

} // verus!
