use matrix_oracle::client::error::{Error, FailError};
use matrix_oracle::client::{
    endpoint, request_step, Checked, ClientWellKnown, Fetched, HomeserverInfo,
    IdentityServerInfo, Probed, Resolver, Stage, Step,
};

fn document(homeserver: &str, identity: Option<&str>) -> Fetched {
    Fetched::Response {
        status: 200,
        document: Ok(ClientWellKnown {
            homeserver: HomeserverInfo { base_url: homeserver.to_owned() },
            identity_server: identity.map(|i| IdentityServerInfo { base_url: i.to_owned() }),
        }),
    }
}

/// Runs a resolution to its end with the given answers.
fn run(
    resolver: &Resolver,
    name: &str,
    fetched: Fetched,
    checked: Checked,
    probed: Probed,
) -> Result<String, Error> {
    let mut step = resolver.resolve(name);
    let mut fetched = Some(fetched);
    let mut checked = Some(checked);
    let mut probed = Some(probed);
    loop {
        step = match step {
            Step::Done(url) => return Ok(url),
            Step::Failed(error) => return Err(error),
            Step::FetchWellKnown { url: _, base } => {
                Resolver::well_known_step(base, fetched.take().expect("one fetch"))
            }
            Step::FetchVersions { url: _, homeserver, identity_server } => {
                Resolver::versions_step(
                    homeserver,
                    identity_server,
                    checked.take().expect("one check"),
                )
            }
            Step::FetchIdentity { url: _, homeserver } => {
                Resolver::identity_step(homeserver, probed.take().expect("one probe"))
            }
        };
    }
}

/// Tests that a 404 response is correctly handled
#[test]
fn not_found() {
    let port: u16 = 4884;
    let resolver = Resolver::with(false);
    let name = format!("example.test:{}", port);
    assert_eq!(
        resolver.resolve(&name),
        Step::FetchWellKnown {
            url: format!("http://example.test:{}/.well-known/matrix/client", port),
            base: format!("http://example.test:{}/", port),
        }
    );
    let fetched = Fetched::Response { status: 404, document: Err(String::from("no body")) };
    let url = run(&resolver, &name, fetched, Checked::Passed, Probed::Status(200));
    assert_eq!(Ok(format!("http://example.test:{}/", port)), url);
}

#[test]
fn resolve() {
    let port: u16 = 4884;
    let resolver = Resolver::with(false);
    let name = format!("example.test:{}", port);
    let base = format!("http://example.test:{}/", port);
    let fetched = document(&format!("http://destination.test:{}", port), None);
    assert_eq!(
        Resolver::well_known_step(base, fetched),
        Step::FetchVersions {
            url: format!("http://destination.test:{}/_matrix/client/versions", port),
            homeserver: format!("http://destination.test:{}/", port),
            identity_server: None,
        }
    );
    let fetched = document(&format!("http://destination.test:{}", port), None);
    let url = run(&resolver, &name, fetched, Checked::Passed, Probed::Status(200));
    assert_eq!(url, Ok(format!("http://destination.test:{}/", port)));
}

#[test]
fn not_found_returns_the_domain() {
    let fetched = Fetched::Response { status: 404, document: Err(String::new()) };
    let url = run(&Resolver::new(), "example.test", fetched, Checked::Passed, Probed::Status(200));
    assert_eq!(url, Ok(String::from("https://example.test/")));
    let fetched = document("https://destination.test", None);
    let fetched = match fetched {
        Fetched::Response { status: _, document } => Fetched::Response { status: 404, document },
        other => other,
    };
    let url = run(&Resolver::default(), "example.test", fetched, Checked::Passed, Probed::Status(200));
    assert_eq!(url, Ok(String::from("https://example.test/")));
}

#[test]
fn unreachable_versions_is_a_hard_failure() {
    let fetched = document("https://destination.test", None);
    let checked = Checked::Failed(String::from("connection refused"));
    let result = run(&Resolver::new(), "example.test", fetched, checked, Probed::Status(200));
    assert_eq!(
        result,
        Err(Error::Fail(FailError::Http(String::from("connection refused"))))
    );
    assert!(!result.unwrap_err().is_prompt());
}

#[test]
fn transport_failure_is_a_prompt() {
    let fetched = Fetched::Failed(String::from("timed out"));
    let result = run(&Resolver::new(), "example.test", fetched, Checked::Passed, Probed::Status(200));
    assert_eq!(result, Err(Error::Prompt(String::from("timed out"))));
    assert!(result.unwrap_err().is_prompt());
}

#[test]
fn malformed_document_is_a_prompt() {
    let fetched = Fetched::Response { status: 200, document: Err(String::from("expected value")) };
    let result = run(&Resolver::new(), "example.test", fetched, Checked::Passed, Probed::Status(200));
    assert_eq!(result, Err(Error::Prompt(String::from("expected value"))));
}

#[test]
fn malformed_homeserver_url_is_a_hard_failure() {
    let fetched = document("not a url", None);
    let result = run(&Resolver::new(), "example.test", fetched, Checked::Passed, Probed::Status(200));
    assert_eq!(
        result,
        Err(Error::Fail(FailError::Url(url::ParseError::RelativeUrlWithoutBase)))
    );
}

#[test]
fn malformed_domain_is_a_hard_failure() {
    let step = Resolver::new().resolve("exa mple.test");
    assert!(matches!(step, Step::Failed(Error::Fail(FailError::Url(_)))));
    let step = Resolver::new().resolve("");
    assert_eq!(step, Step::Failed(Error::Fail(FailError::Url(url::ParseError::EmptyHost))));
}

#[test]
fn identity_server_is_checked() {
    let fetched = document("https://destination.test/base/", Some("https://id.test"));
    let step = Resolver::well_known_step(String::from("https://example.test/"), fetched);
    assert_eq!(
        step,
        Step::FetchVersions {
            url: String::from("https://destination.test/base/_matrix/client/versions"),
            homeserver: String::from("https://destination.test/base/"),
            identity_server: Some(IdentityServerInfo { base_url: String::from("https://id.test") }),
        }
    );
    let step = Resolver::versions_step(
        String::from("https://destination.test/base/"),
        Some(IdentityServerInfo { base_url: String::from("https://id.test") }),
        Checked::Passed,
    );
    assert_eq!(
        step,
        Step::FetchIdentity {
            url: String::from("https://id.test/_matrix/identity/api/v1"),
            homeserver: String::from("https://destination.test/base/"),
        }
    );
    let fetched = document("https://destination.test", Some("https://id.test"));
    let result = run(&Resolver::new(), "example.test", fetched, Checked::Passed, Probed::Status(204));
    assert_eq!(result, Ok(String::from("https://destination.test/")));
}

#[test]
fn identity_server_failures_are_hard() {
    let home = String::from("https://destination.test/");
    assert_eq!(
        Resolver::identity_step(home.clone(), Probed::Status(404)),
        Step::Failed(Error::Fail(FailError::Http(String::from("HTTP status 404"))))
    );
    assert_eq!(
        Resolver::identity_step(home.clone(), Probed::Status(599)),
        Step::Failed(Error::Fail(FailError::Http(String::from("HTTP status 599"))))
    );
    assert_eq!(
        Resolver::identity_step(home.clone(), Probed::Failed(String::from("reset"))),
        Step::Failed(Error::Fail(FailError::Http(String::from("reset"))))
    );
    assert_eq!(Resolver::identity_step(home.clone(), Probed::Status(399)), Step::Done(home.clone()));
    assert_eq!(Resolver::identity_step(home.clone(), Probed::Status(600)), Step::Done(home.clone()));
    let step = Resolver::versions_step(
        home.clone(),
        Some(IdentityServerInfo { base_url: String::from("//") }),
        Checked::Passed,
    );
    assert!(matches!(step, Step::Failed(Error::Fail(FailError::Url(_)))));
    assert_eq!(Resolver::versions_step(home.clone(), None, Checked::Passed), Step::Done(home));
}

#[test]
fn request_step_of_each_stage() {
    let found = || Ok((String::from("https://a.test/"), String::from("https://a.test/x")));
    assert_eq!(
        request_step(Stage::WellKnown, found()),
        Step::FetchWellKnown {
            url: String::from("https://a.test/x"),
            base: String::from("https://a.test/"),
        }
    );
    assert_eq!(
        request_step(Stage::Versions { identity_server: None }, found()),
        Step::FetchVersions {
            url: String::from("https://a.test/x"),
            homeserver: String::from("https://a.test/"),
            identity_server: None,
        }
    );
    assert_eq!(
        request_step(Stage::Identity { homeserver: String::from("https://h.test/") }, found()),
        Step::FetchIdentity {
            url: String::from("https://a.test/x"),
            homeserver: String::from("https://h.test/"),
        }
    );
    assert_eq!(
        request_step(Stage::WellKnown, Err(url::ParseError::InvalidPort)),
        Step::Failed(Error::Fail(FailError::Url(url::ParseError::InvalidPort)))
    );
    assert_eq!(
        Error::from_url(url::ParseError::InvalidPort),
        Error::Fail(FailError::Url(url::ParseError::InvalidPort))
    );
}

#[test]
fn endpoint_parses_and_joins() {
    assert_eq!(
        endpoint("HTTPS://Example.Test:443/a/b", "c"),
        Ok((String::from("https://example.test/a/b"), String::from("https://example.test/a/c")))
    );
    assert_eq!(
        endpoint("https://example.test", ".well-known/matrix/client"),
        Ok((
            String::from("https://example.test/"),
            String::from("https://example.test/.well-known/matrix/client")
        ))
    );
    assert_eq!(endpoint("example.test", "c"), Err(url::ParseError::RelativeUrlWithoutBase));
    assert_eq!(endpoint("https://example.test", "//[x"), Err(url::ParseError::InvalidIpv6Address));
    assert_eq!(Resolver::new().origin("example.test"), "https://example.test");
    assert_eq!(Resolver::with(false).origin("example.test"), "http://example.test");
}

#[test]
fn errors_describe_themselves() {
    assert_eq!(Error::Prompt(String::from("timed out")).message(), "timed out");
    assert_eq!(Error::Fail(FailError::Http(String::from("reset"))).message(), "reset");
    assert_eq!(FailError::Http(String::from("reset")).message(), "reset");
    assert_eq!(
        FailError::Url(url::ParseError::RelativeUrlWithoutBase).message(),
        "relative URL without a base"
    );
    assert_eq!(
        Error::from_fail(FailError::Url(url::ParseError::EmptyHost)).message(),
        "empty host"
    );
}
