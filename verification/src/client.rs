//! Resolution for the client-server API

pub mod error;

use vstd::prelude::*;
use vstd::string::*;
use url::{ParseError, Url};
use crate::client::error::{Error, ErrorView, FailError, FailErrorView};
use crate::text::{decimal_text, push_decimal};

verus! {

/// well-known information for the client-server API.
#[derive(Debug, Clone, PartialEq, Eq)]
pub struct ClientWellKnown {
    /// Information about the homeserver to connect to.
    pub homeserver: HomeserverInfo,
    /// Information about the identity server to connect to.
    pub identity_server: Option<IdentityServerInfo>,
}

/// Information about the homeserver to connect to.
#[derive(Debug, Clone, PartialEq, Eq)]
pub struct HomeserverInfo {
    /// The base url to use for client-server API endpoints.
    pub base_url: String,
}

/// Information about the identity server to connect to.
#[derive(Debug, Clone, PartialEq, Eq)]
pub struct IdentityServerInfo {
    /// The base url to use for identity server API endpoints.
    pub base_url: String,
}

/// The serialization of the URL that `input` parses to as an absolute URL;
/// nothing where it does not parse.
pub uninterp spec fn url_parse_spec(input: Seq<char>) -> Option<Seq<char>>;

/// The serialization of the URL that `reference` parses to with the URL
/// written in `base` as its base; nothing where either does not parse.
pub uninterp spec fn url_join_spec(base: Seq<char>, reference: Seq<char>) -> Option<Seq<char>>;

/// `Url::parse` of the url crate, then the conversion of the URL to its
/// serialization. The contract gives the result its name and claims no more
/// of it than that it depends on the input alone.
#[verifier::external_body]
fn url_parse(input: &str) -> (r: Result<String, ParseError>)
    ensures
        r is Ok <==> url_parse_spec(input@) is Some,
        r is Ok ==> r->Ok_0@ == url_parse_spec(input@)->0,
{
    Url::parse(input).map(String::from)
}

/// `Url::join` of the url crate on the URL that `base` writes, then the
/// conversion of the URL to its serialization. The contract gives the
/// result its name and claims no more of it than that it depends on the two
/// texts alone.
#[verifier::external_body]
fn url_join(base: &str, reference: &str) -> (r: Result<String, ParseError>)
    ensures
        r is Ok <==> url_join_spec(base@, reference@) is Some,
        r is Ok ==> r->Ok_0@ == url_join_spec(base@, reference@)->0,
{
    Url::parse(base)?.join(reference).map(String::from)
}

/// A `ClientWellKnown` as contracts see it: the two base URLs as written.
pub struct ClientWellKnownView {
    /// The base URL of the homeserver.
    pub homeserver: Seq<char>,
    /// The base URL of the identity server.
    pub identity_server: Option<Seq<char>>,
}

/// The base URL of an identity server entry, if there is an entry.
pub open spec fn identity_view(identity: Option<IdentityServerInfo>) -> Option<Seq<char>> {
    match identity {
        Some(info) => Some(info.base_url@),
        None => None,
    }
}

impl View for ClientWellKnown {
    type V = ClientWellKnownView;

    open spec fn view(&self) -> ClientWellKnownView {
        ClientWellKnownView {
            homeserver: self.homeserver.base_url@,
            identity_server: identity_view(self.identity_server),
        }
    }
}

/// What came of the request for the well-known document of a domain.
#[derive(Debug, PartialEq, Eq)]
pub enum Fetched {
    /// The request failed; the text is the transport's account of it.
    Failed(String),
    /// A response came, with this status; `document` is what its body
    /// holds, or the account of why it holds no document.
    Response {
        /// The status code of the response.
        status: u16,
        /// The document in the body of the response.
        document: Result<ClientWellKnown, String>,
    },
}

/// A `Fetched` as contracts see it.
pub enum FetchedView {
    /// See `Fetched::Failed`.
    Failed(Seq<char>),
    /// See `Fetched::Response`.
    Response {
        /// The status code of the response.
        status: u16,
        /// The document in the body of the response.
        document: Result<ClientWellKnownView, Seq<char>>,
    },
}

impl View for Fetched {
    type V = FetchedView;

    open spec fn view(&self) -> FetchedView {
        match *self {
            Fetched::Failed(message) => FetchedView::Failed(message@),
            Fetched::Response { status, document } => FetchedView::Response {
                status,
                document: match document {
                    Ok(doc) => Ok(doc@),
                    Err(message) => Err(message@),
                },
            },
        }
    }
}

/// What came of the request for the versions that a homeserver supports.
#[derive(Debug, Clone, PartialEq, Eq)]
pub enum Checked {
    /// A response came whose body lists versions.
    Passed,
    /// The request failed, or its response lists no versions; the text is
    /// the account of it.
    Failed(String),
}

/// A `Checked` as contracts see it.
pub enum CheckedView {
    /// See `Checked::Passed`.
    Passed,
    /// See `Checked::Failed`.
    Failed(Seq<char>),
}

impl View for Checked {
    type V = CheckedView;

    open spec fn view(&self) -> CheckedView {
        match *self {
            Checked::Passed => CheckedView::Passed,
            Checked::Failed(message) => CheckedView::Failed(message@),
        }
    }
}

/// What came of the request to an identity server.
#[derive(Debug, Clone, PartialEq, Eq)]
pub enum Probed {
    /// The request failed; the text is the transport's account of it.
    Failed(String),
    /// A response came, with this status.
    Status(u16),
}

/// A `Probed` as contracts see it.
pub enum ProbedView {
    /// See `Probed::Failed`.
    Failed(Seq<char>),
    /// See `Probed::Status`.
    Status(u16),
}

impl View for Probed {
    type V = ProbedView;

    open spec fn view(&self) -> ProbedView {
        match *self {
            Probed::Failed(message) => ProbedView::Failed(message@),
            Probed::Status(status) => ProbedView::Status(status),
        }
    }
}

/// What the caller is to do next, or what the resolution came to.
#[derive(Debug, PartialEq, Eq)]
pub enum Step {
    /// Request `url` and hand what came of it to
    /// `Resolver::well_known_step`, together with `base`.
    FetchWellKnown {
        /// The address of the well-known document.
        url: String,
        /// The base URL of the domain itself.
        base: String,
    },
    /// Request `url` and hand what came of it to `Resolver::versions_step`,
    /// together with the other two.
    FetchVersions {
        /// The address of the versions that the homeserver supports.
        url: String,
        /// The base URL of the homeserver.
        homeserver: String,
        /// The identity server that the document names.
        identity_server: Option<IdentityServerInfo>,
    },
    /// Request `url` and hand what came of it to `Resolver::identity_step`,
    /// together with `homeserver`.
    FetchIdentity {
        /// The address of the identity server's API.
        url: String,
        /// The base URL of the homeserver.
        homeserver: String,
    },
    /// The resolution is done: the base URL for the client-server API.
    Done(String),
    /// The resolution failed.
    Failed(Error),
}

/// A `Step` as contracts see it.
pub enum StepView {
    /// See `Step::FetchWellKnown`.
    FetchWellKnown {
        /// The address of the well-known document.
        url: Seq<char>,
        /// The base URL of the domain itself.
        base: Seq<char>,
    },
    /// See `Step::FetchVersions`.
    FetchVersions {
        /// The address of the versions that the homeserver supports.
        url: Seq<char>,
        /// The base URL of the homeserver.
        homeserver: Seq<char>,
        /// The base URL of the identity server that the document names.
        identity_server: Option<Seq<char>>,
    },
    /// See `Step::FetchIdentity`.
    FetchIdentity {
        /// The address of the identity server's API.
        url: Seq<char>,
        /// The base URL of the homeserver.
        homeserver: Seq<char>,
    },
    /// See `Step::Done`.
    Done(Seq<char>),
    /// See `Step::Failed`.
    Failed(ErrorView),
}

impl View for Step {
    type V = StepView;

    open spec fn view(&self) -> StepView {
        match *self {
            Step::FetchWellKnown { url, base } => StepView::FetchWellKnown {
                url: url@,
                base: base@,
            },
            Step::FetchVersions { url, homeserver, identity_server } => StepView::FetchVersions {
                url: url@,
                homeserver: homeserver@,
                identity_server: identity_view(identity_server),
            },
            Step::FetchIdentity { url, homeserver } => StepView::FetchIdentity {
                url: url@,
                homeserver: homeserver@,
            },
            Step::Done(url) => StepView::Done(url@),
            Step::Failed(error) => StepView::Failed(error@),
        }
    }
}

/// What a request is made for.
#[derive(Debug, Clone, PartialEq, Eq)]
pub enum Stage {
    /// The well-known document of the domain.
    WellKnown,
    /// The versions that the homeserver supports.
    Versions {
        /// The identity server that the document names.
        identity_server: Option<IdentityServerInfo>,
    },
    /// The API of the identity server.
    Identity {
        /// The base URL of the homeserver.
        homeserver: String,
    },
}

/// A `Stage` as contracts see it.
pub enum StageView {
    /// See `Stage::WellKnown`.
    WellKnown,
    /// See `Stage::Versions`.
    Versions {
        /// The base URL of the identity server that the document names.
        identity_server: Option<Seq<char>>,
    },
    /// See `Stage::Identity`.
    Identity {
        /// The base URL of the homeserver.
        homeserver: Seq<char>,
    },
}

impl View for Stage {
    type V = StageView;

    open spec fn view(&self) -> StageView {
        match *self {
            Stage::WellKnown => StageView::WellKnown,
            Stage::Versions { identity_server } => StageView::Versions {
                identity_server: identity_view(identity_server),
            },
            Stage::Identity { homeserver } => StageView::Identity { homeserver: homeserver@ },
        }
    }
}

/// The path of the well-known document, from the base URL of a domain.
pub open spec fn well_known_path() -> Seq<char> {
    ".well-known/matrix/client"@
}

/// The path of the supported versions, from the base URL of a homeserver.
pub open spec fn versions_path() -> Seq<char> {
    "_matrix/client/versions"@
}

/// The path of the API of an identity server, from its base URL.
pub open spec fn identity_path() -> Seq<char> {
    "_matrix/identity/api/v1"@
}

/// The base URL that `text` parses to, and the URL of `path` under it;
/// nothing where either cannot be had.
pub open spec fn endpoint_spec(text: Seq<char>, path: Seq<char>) -> Option<
    (Seq<char>, Seq<char>),
> {
    match url_parse_spec(text) {
        Some(base) => match url_join_spec(base, path) {
            Some(url) => Some((base, url)),
            None => None,
        },
        None => None,
    }
}

/// The step that asks for what `stage` needs, at the endpoint found; where
/// none was found, the failure.
pub open spec fn request_step_spec(
    stage: StageView,
    endpoint: Option<(Seq<char>, Seq<char>)>,
) -> StepView {
    match endpoint {
        None => StepView::Failed(ErrorView::Fail(FailErrorView::Url)),
        Some((base, url)) => match stage {
            StageView::WellKnown => StepView::FetchWellKnown { url, base },
            StageView::Versions { identity_server } => StepView::FetchVersions {
                url,
                homeserver: base,
                identity_server,
            },
            StageView::Identity { homeserver } => StepView::FetchIdentity { url, homeserver },
        },
    }
}

/// What the domain `name` is written as, as a URL.
pub open spec fn origin_spec(secure: bool, name: Seq<char>) -> Seq<char> {
    if secure {
        "https://"@ + name
    } else {
        "http://"@ + name
    }
}

/// The first step for a domain: the fetch of its well-known document.
pub open spec fn resolve_step_spec(secure: bool, name: Seq<char>) -> StepView {
    request_step_spec(
        StageView::WellKnown,
        endpoint_spec(origin_spec(secure, name), well_known_path()),
    )
}

/// The step after the fetch of the well-known document of the domain at
/// `base`: with status 404, the domain is its own homeserver; a failed
/// request or a body without a document is a failure to prompt for; a
/// document leads to the check of the homeserver that it names.
pub open spec fn well_known_step_spec(base: Seq<char>, fetched: FetchedView) -> StepView {
    match fetched {
        FetchedView::Failed(message) => StepView::Failed(ErrorView::Prompt(message)),
        FetchedView::Response { status, document } => if status == 404 {
            StepView::Done(base)
        } else {
            match document {
                Err(message) => StepView::Failed(ErrorView::Prompt(message)),
                Ok(doc) => request_step_spec(
                    StageView::Versions { identity_server: doc.identity_server },
                    endpoint_spec(doc.homeserver, versions_path()),
                ),
            }
        },
    }
}

/// The step after the check of the homeserver: a failed check is a broken
/// delegation; after a passed one the identity server is checked, if the
/// document names one.
pub open spec fn versions_step_spec(
    homeserver: Seq<char>,
    identity_server: Option<Seq<char>>,
    checked: CheckedView,
) -> StepView {
    match checked {
        CheckedView::Failed(message) => StepView::Failed(
            ErrorView::Fail(FailErrorView::Http(message)),
        ),
        CheckedView::Passed => match identity_server {
            None => StepView::Done(homeserver),
            Some(identity) => request_step_spec(
                StageView::Identity { homeserver },
                endpoint_spec(identity, identity_path()),
            ),
        },
    }
}

/// A status that reports an error of the client or of the server.
pub open spec fn is_error_status(status: u16) -> bool {
    400 <= status < 600
}

/// The account of a response whose status reports an error.
pub open spec fn status_message_spec(status: u16) -> Seq<char> {
    "HTTP status "@ + decimal_text(status as nat)
}

/// The step after the check of the identity server, which is the last.
pub open spec fn identity_step_spec(homeserver: Seq<char>, probed: ProbedView) -> StepView {
    match probed {
        ProbedView::Failed(message) => StepView::Failed(
            ErrorView::Fail(FailErrorView::Http(message)),
        ),
        ProbedView::Status(status) => if is_error_status(status) {
            StepView::Failed(ErrorView::Fail(FailErrorView::Http(status_message_spec(status))))
        } else {
            StepView::Done(homeserver)
        },
    }
}

/// The base URL that `text` parses to, and the URL of `path` under it.
pub fn endpoint(text: &str, path: &str) -> (r: Result<(String, String), ParseError>)
    ensures
        match endpoint_spec(text@, path@) {
            Some((base, url)) => match r {
                Ok((b, u)) => b@ == base && u@ == url,
                Err(_) => false,
            },
            None => r is Err,
        },
{
    let base = match url_parse(text) {
        Ok(base) => base,
        Err(e) => { return Err(e); },
    };
    match url_join(base.as_str(), path) {
        Ok(url) => Ok((base, url)),
        Err(e) => Err(e),
    }
}

/// The endpoint of a result as contracts see it.
pub open spec fn endpoint_view(endpoint: Result<(String, String), ParseError>) -> Option<
    (Seq<char>, Seq<char>),
> {
    match endpoint {
        Ok((base, url)) => Some((base@, url@)),
        Err(_) => None,
    }
}

/// The step that asks for what `stage` needs, at the endpoint found; where
/// none was found, the failure.
pub fn request_step(stage: Stage, endpoint: Result<(String, String), ParseError>) -> (step: Step)
    ensures
        step@ == request_step_spec(stage@, endpoint_view(endpoint)),
        endpoint matches Err(e) ==> step == Step::Failed(Error::Fail(FailError::Url(e))),
{
    match endpoint {
        Err(e) => Step::Failed(Error::from_url(e)),
        Ok((base, url)) => match stage {
            Stage::WellKnown => Step::FetchWellKnown { url, base },
            Stage::Versions { identity_server } => Step::FetchVersions {
                url,
                homeserver: base,
                identity_server,
            },
            Stage::Identity { homeserver } => Step::FetchIdentity { url, homeserver },
        },
    }
}

/// Settings for well-known lookups for the client-server API.
#[derive(Debug, Clone, Copy, PartialEq, Eq, Structural)]
pub struct Resolver {
    /// Whether the well-known document of a domain is asked for over HTTPS;
    /// else over plain HTTP.
    pub secure: bool,
}

impl Resolver {
    /// Construct a new resolver, which asks over HTTPS.
    #[must_use]
    pub fn new() -> (r: Self)
        ensures
            r.secure,
    {
        Resolver { secure: true }
    }

    /// Construct a new resolver that asks over HTTPS or, where `secure` is
    /// false, over plain HTTP.
    #[must_use]
    pub fn with(secure: bool) -> (r: Self)
        ensures
            r.secure == secure,
    {
        Resolver { secure }
    }

    /// What the domain `name` is written as, as a URL.
    pub fn origin(&self, name: &str) -> (r: String)
        ensures
            r@ == origin_spec(self.secure, name@),
    {
        let mut out = if self.secure {
            "https://".to_owned()
        } else {
            "http://".to_owned()
        };
        out.append(name);
        out
    }

    /// Get the base URL for the client-server API with the given name: the
    /// first step of it.
    pub fn resolve(&self, name: &str) -> (step: Step)
        ensures
            step@ == resolve_step_spec(self.secure, name@),
    {
        let origin = self.origin(name);
        request_step(Stage::WellKnown, endpoint(origin.as_str(), ".well-known/matrix/client"))
    }

    /// The step after the fetch of the well-known document of the domain at
    /// `base`.
    pub fn well_known_step(base: String, fetched: Fetched) -> (step: Step)
        ensures
            step@ == well_known_step_spec(base@, fetched@),
    {
        match fetched {
            Fetched::Failed(message) => Step::Failed(Error::Prompt(message)),
            Fetched::Response { status, document } => if status == 404 {
                Step::Done(base)
            } else {
                match document {
                    Err(message) => Step::Failed(Error::Prompt(message)),
                    Ok(doc) => request_step(
                        Stage::Versions { identity_server: doc.identity_server },
                        endpoint(doc.homeserver.base_url.as_str(), "_matrix/client/versions"),
                    ),
                }
            },
        }
    }

    /// The step after the check of the homeserver at `homeserver`.
    pub fn versions_step(
        homeserver: String,
        identity_server: Option<IdentityServerInfo>,
        checked: Checked,
    ) -> (step: Step)
        ensures
            step@ == versions_step_spec(homeserver@, identity_view(identity_server), checked@),
    {
        match checked {
            Checked::Failed(message) => Step::Failed(Error::from_fail(FailError::Http(message))),
            Checked::Passed => match identity_server {
                None => Step::Done(homeserver),
                Some(identity) => request_step(
                    Stage::Identity { homeserver },
                    endpoint(identity.base_url.as_str(), "_matrix/identity/api/v1"),
                ),
            },
        }
    }

    /// The step after the check of the identity server, which is the last.
    pub fn identity_step(homeserver: String, probed: Probed) -> (step: Step)
        ensures
            step@ == identity_step_spec(homeserver@, probed@),
    {
        match probed {
            Probed::Failed(message) => Step::Failed(Error::from_fail(FailError::Http(message))),
            Probed::Status(status) => if 400 <= status && status < 600 {
                let mut message = "HTTP status ".to_owned();
                push_decimal(&mut message, status as u32);
                Step::Failed(Error::from_fail(FailError::Http(message)))
            } else {
                Step::Done(homeserver)
            },
        }
    }
}

impl Default for Resolver {
    fn default() -> (r: Self)
        ensures
            r.secure,
    {
        Resolver { secure: true }
    }
}

/// The step that follows `step` once the well-known document was asked for;
/// `step` itself where it asks for nothing of the kind.
pub open spec fn after_well_known(step: StepView, fetched: FetchedView) -> StepView {
    match step {
        StepView::FetchWellKnown { url, base } => well_known_step_spec(base, fetched),
        other => other,
    }
}

/// The step that follows `step` once the homeserver was checked; `step`
/// itself where it asks for nothing of the kind.
pub open spec fn after_versions(step: StepView, checked: CheckedView) -> StepView {
    match step {
        StepView::FetchVersions { url, homeserver, identity_server } => versions_step_spec(
            homeserver,
            identity_server,
            checked,
        ),
        other => other,
    }
}

/// The step that follows `step` once the identity server was checked;
/// `step` itself where it asks for nothing of the kind.
pub open spec fn after_identity(step: StepView, probed: ProbedView) -> StepView {
    match step {
        StepView::FetchIdentity { url, homeserver } => identity_step_spec(homeserver, probed),
        other => other,
    }
}

/// What the resolution of the domain `name` comes to, where each request
/// that is made gets the answer given for it.
pub open spec fn resolve_spec(
    secure: bool,
    name: Seq<char>,
    fetched: FetchedView,
    checked: CheckedView,
    probed: ProbedView,
) -> StepView {
    after_identity(
        after_versions(after_well_known(resolve_step_spec(secure, name), fetched), checked),
        probed,
    )
}

/// A resolution ends after three requests at most, in a base URL or in a
/// failure; and it begins with the request for the well-known document or
/// fails at once.
pub proof fn lemma_resolution_ends(
    secure: bool,
    name: Seq<char>,
    fetched: FetchedView,
    checked: CheckedView,
    probed: ProbedView,
)
    ensures
        resolve_spec(secure, name, fetched, checked, probed) is Done || resolve_spec(
            secure,
            name,
            fetched,
            checked,
            probed,
        ) is Failed,
        resolve_step_spec(secure, name) is FetchWellKnown || resolve_step_spec(secure, name)
            == StepView::Failed(ErrorView::Fail(FailErrorView::Url)),
{
}

/// After a response of status 404 the domain is its own homeserver: the
/// resolution gives the base URL that the domain parses to, whatever the
/// body of the response holds.
pub proof fn lemma_not_found_gives_domain(
    secure: bool,
    name: Seq<char>,
    document: Result<ClientWellKnownView, Seq<char>>,
    checked: CheckedView,
    probed: ProbedView,
)
    requires
        endpoint_spec(origin_spec(secure, name), well_known_path()) is Some,
    ensures
        resolve_spec(
            secure,
            name,
            FetchedView::Response { status: 404, document },
            checked,
            probed,
        ) == StepView::Done(url_parse_spec(origin_spec(secure, name))->0),
{
}

/// A failed request for the well-known document, or a body that holds no
/// document, is a failure to prompt for, and nothing else is.
pub proof fn lemma_prompt_failures(
    secure: bool,
    name: Seq<char>,
    fetched: FetchedView,
    checked: CheckedView,
    probed: ProbedView,
)
    requires
        endpoint_spec(origin_spec(secure, name), well_known_path()) is Some,
    ensures
        (resolve_spec(secure, name, fetched, checked, probed) matches StepView::Failed(e) && e
            is Prompt) <==> (fetched is Failed || (fetched matches FetchedView::Response {
            status,
            document,
        } && status != 404 && document is Err)),
{
}

/// Where the well-known document names a homeserver whose check fails, the
/// resolution fails with an HTTP error of the second kind, whatever the
/// document says of an identity server.
pub proof fn lemma_failed_check_is_hard_failure(
    secure: bool,
    name: Seq<char>,
    status: u16,
    document: ClientWellKnownView,
    message: Seq<char>,
    probed: ProbedView,
)
    requires
        endpoint_spec(origin_spec(secure, name), well_known_path()) is Some,
        endpoint_spec(document.homeserver, versions_path()) is Some,
        status != 404,
    ensures
        resolve_spec(
            secure,
            name,
            FetchedView::Response { status, document: Ok(document) },
            CheckedView::Failed(message),
            probed,
        ) == StepView::Failed(ErrorView::Fail(FailErrorView::Http(message))),
{
}

/// Where the resolution gives a base URL after a document was read, it is
/// the one that the homeserver entry of the document parses to.
pub proof fn lemma_success_gives_homeserver(
    secure: bool,
    name: Seq<char>,
    status: u16,
    document: ClientWellKnownView,
    checked: CheckedView,
    probed: ProbedView,
)
    requires
        status != 404,
        resolve_spec(
            secure,
            name,
            FetchedView::Response { status, document: Ok(document) },
            checked,
            probed,
        ) is Done,
    ensures
        checked is Passed,
        url_parse_spec(document.homeserver) is Some,
        resolve_spec(
            secure,
            name,
            FetchedView::Response { status, document: Ok(document) },
            checked,
            probed,
        ) == StepView::Done(url_parse_spec(document.homeserver)->0),
        document.identity_server is Some ==> (probed matches ProbedView::Status(s)
            && !is_error_status(s)),
{
}

} // verus!
