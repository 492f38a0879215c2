use pact_network::broker_api::client::batch::{Batch, MAX_IN_FLIGHT};
use pact_network::broker_api::client::retry::{Execution, Step, MAX_RETRIES};
use pact_network::broker_api::client::api::PactsHandler;
use pact_network::broker_api::client::{Auth, Builder, ClientError};
use pact_network::broker_models::pacts::{
    Consumer, ConsumerEmbedded, ConsumerLinks, Cury, Link, Pact, PactEmbedded, PactLinks, Pacts,
    Provider, ResponseLinks, Version, VersionLinks,
};
use pact_network::client::http::{
    broker_url, contracts_url_from, first_self_link, pacts_url, BUFFER_SIZE,
};
use reqwest::header::HeaderName;

fn link(href: &str) -> Link {
    Link { href: href.to_owned(), title: None, name: None }
}

fn pact(consumer: &str, provider: &str, hrefs: &[&str]) -> Pact {
    Pact {
        created_at: "2023-01-01T00:00:00+00:00".to_owned(),
        embedded: PactEmbedded {
            consumer: Consumer {
                name: consumer.to_owned(),
                embedded: ConsumerEmbedded {
                    version: Version {
                        number: "1.0.0".to_owned(),
                        links: VersionLinks { links_self: link("http://localhost/version") },
                    },
                },
                links: ConsumerLinks { links_self: link("http://localhost/consumer") },
            },
            provider: Provider {
                name: provider.to_owned(),
                links: ConsumerLinks { links_self: link("http://localhost/provider") },
            },
        },
        links: PactLinks { links_self: hrefs.iter().map(|href| link(href)).collect() },
    }
}

fn pacts(listed: Vec<Pact>) -> Pacts {
    Pacts {
        pacts: listed,
        links: ResponseLinks {
            links_self: link("http://localhost/pacts/latest"),
            pb_pacts: vec![],
            curies: vec![Cury {
                name: "pb".to_owned(),
                href: "http://localhost/doc/{rel}".to_owned(),
                templated: true,
            }],
        },
    }
}

/// Sends one request to a broker that answers the attempts with `statuses`
/// in turn, and returns how many attempts were made.
fn attempts(auth: &Auth, statuses: &[Option<u16>]) -> usize {
    let mut execution = Execution::new();
    let mut sent = 0;
    loop {
        let status = statuses[sent];
        sent += 1;
        match execution.after_attempt(auth, status) {
            Step::Retry => continue,
            Step::Return => return sent,
        }
    }
}

fn basic() -> Auth {
    Auth::Basic { username: "John".to_owned(), password: "secret".to_owned() }
}

#[test]
fn should_build_a_client() {
    let builder = Builder::new().base_url("http://localhost").unwrap();
    assert!(builder.can_build());
    let client = builder.build().unwrap();
    assert_eq!(client.auth, Auth::NoAuth);
    assert_eq!(client.base_url.as_str(), "http://localhost/");
}

#[test]
fn should_build_a_client_with_basic_auth() {
    let builder = Builder::new().base_url("http://localhost").unwrap().basic_auth("John", "secret");
    assert!(builder.can_build());
    let client = builder.build().unwrap();
    assert_eq!(
        client.auth,
        Auth::Basic { username: "John".to_owned(), password: "secret".to_owned() }
    );
    assert_eq!(client.base_url.as_str(), "http://localhost/");
}

#[test]
fn should_build_a_client_with_token() {
    let builder = Builder::new().base_url("http://localhost").unwrap().token("foobar123");
    assert!(builder.can_build());
    let client = builder.build().unwrap();
    assert_eq!(client.auth, Auth::NoAuth);
    assert_eq!(client.base_url.as_str(), "http://localhost/");
}

#[test]
fn token_becomes_the_authorization_header() {
    let client =
        Builder::new().base_url("http://localhost").unwrap().token("foobar123").build().unwrap();
    assert_eq!(client.authorization.as_deref(), Some("Bearer foobar123"));
    let client = Builder::new()
        .base_url("http://localhost")
        .unwrap()
        .basic_auth("John", "secret")
        .build()
        .unwrap();
    assert_eq!(client.authorization, None);
}

#[test]
fn last_credentials_win() {
    let client = Builder::new()
        .base_url("http://localhost")
        .unwrap()
        .token("foobar123")
        .basic_auth("John", "secret")
        .build()
        .unwrap();
    assert_eq!(client.auth, basic());
    assert_eq!(client.authorization, None);
}

#[test]
fn timeout_defaults_to_three_seconds() {
    let client = Builder::new().base_url("http://localhost").unwrap().build().unwrap();
    assert_eq!(client.timeout_ms, 3000);
    let client =
        Builder::new().base_url("http://localhost").unwrap().with_timeout(250).build().unwrap();
    assert_eq!(client.timeout_ms, 250);
}

#[test]
fn extra_headers_are_kept_in_order() {
    let client = Builder::new()
        .base_url("http://localhost")
        .unwrap()
        .add_header(HeaderName::from_static("x-first"), "1".to_owned())
        .add_header(HeaderName::from_static("x-second"), "2".to_owned())
        .build()
        .unwrap();
    assert_eq!(
        client.extra_headers,
        vec![
            (HeaderName::from_static("x-first"), "1".to_owned()),
            (HeaderName::from_static("x-second"), "2".to_owned()),
        ]
    );
}

#[test]
fn builder_without_base_url_cannot_build() {
    assert!(!Builder::new().can_build());
    assert!(!Builder::new().token("foobar123").can_build());
}

#[test]
fn builder_checks_header_values() {
    let base = || Builder::new().base_url("http://localhost").unwrap();
    let name = || HeaderName::from_static("x-test");
    assert!(base().add_header(name(), "plain value".to_owned()).can_build());
    assert!(base().add_header(name(), "tab\tinside".to_owned()).can_build());
    assert!(base().add_header(name(), "caf\u{e9}".to_owned()).can_build());
    assert!(base().add_header(name(), String::new()).can_build());
    assert!(!base().add_header(name(), "line\nbreak".to_owned()).can_build());
    assert!(!base().add_header(name(), "delete\u{7f}".to_owned()).can_build());
    assert!(!base().add_header(name(), "nul\0".to_owned()).can_build());
    assert!(!base()
        .add_header(name(), "fine".to_owned())
        .add_header(name(), "not\rfine".to_owned())
        .can_build());
    assert!(!base().token("bad\ntoken").can_build());
    assert!(base().token("bad\ntoken").basic_auth("John", "secret").can_build());
}

#[test]
fn base_url_must_be_a_url_with_a_host() {
    let error = Builder::new().base_url("not a url").err().unwrap();
    assert!(matches!(error, ClientError::Http { .. }));
    let error = Builder::new().base_url("mailto:someone@localhost").err().unwrap();
    assert!(matches!(error, ClientError::Http { .. }));
    assert!(Builder::new().base_url("https://broker.example/pacts").is_ok());
}

#[test]
fn should_absolute_an_url() {
    let client = Builder::new().base_url("http://localhost").unwrap().build().unwrap();
    let cases = [
        ("/api/v1/foo", "http://localhost/api/v1/foo"),
        ("/help wanted", "http://localhost/help%20wanted"),
        ("api/v2/bar", "http://localhost/api/v2/bar"),
    ];
    for (path, want) in cases {
        assert_eq!(client.absolute_url(path).unwrap(), want);
    }
}

#[test]
fn absolute_url_replaces_the_last_segment_of_the_base() {
    let client = Builder::new().base_url("http://localhost/a/b").unwrap().build().unwrap();
    assert_eq!(client.absolute_url("c").unwrap(), "http://localhost/a/c");
    assert_eq!(client.absolute_url("/c").unwrap(), "http://localhost/c");
    assert_eq!(client.absolute_url("http://other/x").unwrap(), "http://other/x");
}

#[test]
fn absolute_url_reports_what_cannot_be_joined() {
    let client = Builder::new().base_url("http://localhost").unwrap().build().unwrap();
    let error = client.absolute_url("http://[::1").err().unwrap();
    assert!(matches!(error, ClientError::Url { .. }));
}

#[test]
fn latest_pacts_are_under_pacts_latest() {
    let client = Builder::new().base_url("http://localhost:9292").unwrap().build().unwrap();
    assert_eq!(client.pacts().latest_url().unwrap(), "http://localhost:9292/pacts/latest");
}

#[test]
fn contract_route_defaults_to_latest() {
    assert_eq!(
        PactsHandler::route_of_contract("provider_name", "consumer_name", None),
        "/pacts/provider/provider_name/consumer/consumer_name/latest"
    );
    assert_eq!(
        PactsHandler::route_of_contract("p", "c", Some("1.2.3")),
        "/pacts/provider/p/consumer/c/1.2.3"
    );
    let client = Builder::new().base_url("http://localhost").unwrap().build().unwrap();
    assert_eq!(
        client.pacts().contract_url("provider_name", "consumer_name", None).unwrap(),
        "http://localhost/pacts/provider/provider_name/consumer/consumer_name/latest"
    );
}

#[test]
fn always_unauthorized_is_tried_four_times() {
    let statuses = [Some(401); 10];
    assert_eq!(attempts(&basic(), &statuses), 4);
    assert_eq!(attempts(&Auth::Token { token: "t".to_owned() }, &statuses), 4);
    assert_eq!(MAX_RETRIES, 3);
}

#[test]
fn retry_stops_at_the_first_other_answer() {
    assert_eq!(attempts(&basic(), &[Some(401), Some(200), Some(401), Some(401)]), 2);
    assert_eq!(attempts(&basic(), &[Some(200), Some(401)]), 1);
    assert_eq!(attempts(&basic(), &[Some(401), Some(401), Some(500), Some(401)]), 3);
    assert_eq!(attempts(&basic(), &[Some(401), None, Some(401)]), 2);
    assert_eq!(attempts(&basic(), &[None, Some(401)]), 1);
}

#[test]
fn no_credentials_no_retry() {
    assert_eq!(attempts(&Auth::NoAuth, &[Some(401), Some(200)]), 1);
    assert_eq!(attempts(&Auth::default(), &[Some(401), Some(200)]), 1);
}

#[test]
fn execution_counts_retries() {
    let auth = basic();
    let mut execution = Execution::new();
    assert_eq!(execution.retries(), 0);
    assert_eq!(execution.after_attempt(&auth, Some(401)), Step::Retry);
    assert_eq!(execution.retries(), 1);
    assert_eq!(execution.after_attempt(&auth, Some(401)), Step::Retry);
    assert_eq!(execution.after_attempt(&auth, Some(401)), Step::Retry);
    assert_eq!(execution.retries(), 3);
    assert_eq!(execution.after_attempt(&auth, Some(401)), Step::Return);
    assert_eq!(execution.retries(), 3);
    // Each request counts for itself.
    assert_eq!(Execution::new().retries(), 0);
}

#[test]
fn client_decides_with_its_own_credentials() {
    let with = Builder::new()
        .base_url("http://localhost")
        .unwrap()
        .basic_auth("John", "secret")
        .build()
        .unwrap();
    let mut execution = Execution::new();
    assert_eq!(with.after_attempt(&mut execution, Some(401)), Step::Retry);
    assert_eq!(with.after_attempt(&mut execution, Some(404)), Step::Return);
    // A token is sent as a header of every request: nothing is applied afresh.
    let token =
        Builder::new().base_url("http://localhost").unwrap().token("foobar123").build().unwrap();
    let mut execution = Execution::new();
    assert_eq!(token.after_attempt(&mut execution, Some(401)), Step::Return);
}

#[test]
fn batch_never_exceeds_the_limit() {
    let total = 250;
    let mut batch: Batch<usize> = Batch::new(total);
    let mut running: Vec<usize> = Vec::new();
    let mut most = 0;
    let mut failures: Vec<String> = Vec::new();
    while !batch.is_done() {
        while let Some(number) = batch.start_next() {
            running.push(number);
            assert_eq!(batch.in_flight(), running.len());
        }
        most = most.max(running.len());
        assert!(running.len() <= MAX_IN_FLIGHT);
        // Requests finish out of order: take one from the middle.
        let number = running.remove(running.len() / 2);
        let outcome = if number == 17 { Err(format!("request {number} failed")) } else { Ok(number) };
        if let Some(error) = batch.complete(outcome) {
            failures.push(error);
        }
    }
    assert_eq!(most, 100);
    assert_eq!(failures, vec!["request 17 failed".to_owned()]);
    assert_eq!(batch.failed(), 1);
    let mut delivered = batch.into_delivered();
    assert_eq!(delivered.len(), 249);
    delivered.sort();
    let expected: Vec<usize> = (0..total).filter(|number| *number != 17).collect();
    assert_eq!(delivered, expected);
}

#[test]
fn batch_starts_requests_in_order() {
    let mut batch: Batch<&str> = Batch::new(3);
    assert!(!batch.is_done());
    assert_eq!(batch.start_next(), Some(0));
    assert_eq!(batch.start_next(), Some(1));
    assert_eq!(batch.complete::<()>(Ok("second")), None);
    assert_eq!(batch.start_next(), Some(2));
    assert_eq!(batch.start_next(), None);
    assert_eq!(batch.in_flight(), 2);
    assert_eq!(batch.complete(Err("lost")), Some("lost"));
    assert!(!batch.is_done());
    assert_eq!(batch.complete::<()>(Ok("first")), None);
    assert!(batch.is_done());
    assert_eq!(batch.failed(), 1);
    assert_eq!(batch.into_delivered(), vec!["second", "first"]);
}

#[test]
fn empty_batch_is_done() {
    let mut batch: Batch<u8> = Batch::new(0);
    assert!(batch.is_done());
    assert_eq!(batch.start_next(), None);
    assert!(batch.into_delivered().is_empty());
}

#[test]
fn batch_limit_is_one_hundred() {
    assert_eq!(MAX_IN_FLIGHT, 100);
    assert_eq!(BUFFER_SIZE, 100);
    let mut batch: Batch<u8> = Batch::new(101);
    for number in 0..100 {
        assert_eq!(batch.start_next(), Some(number));
    }
    assert_eq!(batch.start_next(), None);
    assert_eq!(batch.complete::<()>(Ok(1)), None);
    assert_eq!(batch.start_next(), Some(100));
    assert_eq!(batch.start_next(), None);
}

#[test]
fn first_self_link_is_the_first() {
    let listed = pact("a", "b", &["http://localhost/one", "http://localhost/two"]);
    assert_eq!(first_self_link(&listed).map(String::as_str), Some("http://localhost/one"));
    assert_eq!(first_self_link(&pact("a", "b", &[])), None);
}

#[test]
fn contract_urls_skip_what_cannot_be_used() {
    let listed = pacts(vec![
        pact("ms.idx1", "ms.idx2", &["http://localhost/pacts/provider/ms.idx2/consumer/ms.idx1"]),
        pact("no", "link", &[]),
        pact("bad", "link", &["/relative/only"]),
        pact("ms.idx2", "ms.idx3", &["http://LOCALHOST:80/a b", "http://localhost/ignored"]),
        pact("bare", "host", &["http://localhost"]),
    ]);
    assert_eq!(
        contracts_url_from(&listed),
        vec![
            "http://localhost/pacts/provider/ms.idx2/consumer/ms.idx1".to_owned(),
            "http://localhost/a%20b".to_owned(),
            "http://localhost/".to_owned(),
        ]
    );
    assert!(contracts_url_from(&pacts(vec![])).is_empty());
}

#[test]
fn listed_pacts_name_their_sides() {
    let listed = pacts(vec![
        pact("ms.idx1", "ms.idx2", &["http://localhost/1"]),
        pact("ms.idx2", "ms.idx3", &["http://localhost/2"]),
    ]);
    let Pacts { pacts, .. } = listed;
    assert_eq!(pacts.len(), 2);
    let first = pacts.first().unwrap();
    assert_eq!(first.embedded.consumer.name, "ms.idx1");
    assert_eq!(first.embedded.provider.name, "ms.idx2");
    let second = pacts.get(1).unwrap();
    assert_eq!(second.embedded.consumer.name, "ms.idx2");
    assert_eq!(second.embedded.provider.name, "ms.idx3");
}

#[test]
fn broker_url_is_read_by_the_url_crate() {
    assert_eq!(broker_url("http://localhost:9292").unwrap(), "http://localhost:9292/");
    assert_eq!(broker_url("HTTP://Broker.Example:80/base").unwrap(), "http://broker.example/base");
    assert!(matches!(broker_url("broker.example").err().unwrap(), ClientError::Url { .. }));
}

#[test]
fn pacts_url_is_under_the_broker() {
    assert_eq!(pacts_url("http://localhost:9292").unwrap(), "http://localhost:9292/pacts/latest");
    assert_eq!(pacts_url("http://localhost/base/").unwrap(), "http://localhost/pacts/latest");
    assert!(matches!(pacts_url("mailto:someone@localhost").err().unwrap(), ClientError::Url { .. }));
    assert!(matches!(pacts_url("no url").err().unwrap(), ClientError::Url { .. }));
}
