use pact_network::broker_models::contract::{
    Contract, Cury, Interaction, Link, Links, Metadata, Pact, Pacticant, Request, Response,
};
use pact_network::chart::dataset::{link_label, Graph};
use pact_network::chart::dependancy::Dependency;
use pact_network::chart::item::Item;
use pact_network::chart::registry::Registry;
use pact_network::chart::{EdgeChart, ForceDirectedChart};

fn link(href: &str) -> Link {
    Link { title: None, href: href.to_owned(), name: None, templated: None }
}

fn links() -> Links {
    Links {
        links_self: link("http://localhost/self"),
        pb_consumer: link("http://localhost/consumer"),
        pb_consumer_version: link("http://localhost/consumer-version"),
        pb_provider: link("http://localhost/provider"),
        pb_pact_version: link("http://localhost/pact-version"),
        pb_latest_pact_version: link("http://localhost/latest-pact-version"),
        pb_all_pact_versions: link("http://localhost/all-pact-versions"),
        pb_latest_untagged_pact_version: link("http://localhost/latest-untagged"),
        pb_latest_tagged_pact_version: link("http://localhost/latest-tagged"),
        pb_previous_distinct: link("http://localhost/previous-distinct"),
        pb_diff_previous_distinct: link("http://localhost/diff-previous-distinct"),
        pb_diff: link("http://localhost/diff"),
        pb_pact_webhooks: link("http://localhost/pact-webhooks"),
        pb_consumer_webhooks: link("http://localhost/consumer-webhooks"),
        pb_tag_prod_version: link("http://localhost/tag-prod-version"),
        pb_tag_version: link("http://localhost/tag-version"),
        pb_publish_verification_results: link("http://localhost/publish"),
        pb_latest_verification_results: link("http://localhost/latest-results"),
        pb_triggered_webhooks: link("http://localhost/triggered-webhooks"),
        pb_matrix_for_consumer_version: link("http://localhost/matrix"),
        curies: vec![Cury {
            name: "pb".to_owned(),
            href: "http://localhost/doc/{rel}".to_owned(),
            templated: true,
        }],
    }
}

fn interaction(method: &str, path: &str) -> Interaction {
    Interaction {
        id: format!("{method}-{path}"),
        description: "a request".to_owned(),
        provider_states: None,
        request: Request { method: method.to_owned(), path: path.to_owned(), query: None },
        response: Response { status: 200, headers: None, body: None },
    }
}

fn contract(consumer: &str, provider: &str, calls: Option<Vec<(&str, &str)>>) -> Contract {
    Contract {
        consumer: Pacticant { name: consumer.to_owned() },
        interactions: calls
            .map(|calls| calls.into_iter().map(|(m, p)| interaction(m, p)).collect()),
        metadata: Metadata { pact_specification: Pact { version: "2.0.0".to_owned() } },
        provider: Pacticant { name: provider.to_owned() },
        created_at: "2023-01-01T00:00:00+00:00".to_owned(),
        links: links(),
    }
}

fn node_names(graph: &Graph) -> Vec<String> {
    graph.nodes().iter().map(|node| node.name().clone()).collect()
}

fn edges(graph: &Graph) -> Vec<(usize, usize, String)> {
    graph.links().iter().map(|l| (l.source(), l.target(), l.label().clone())).collect()
}

#[test]
fn create_dependency() {
    let deps = Dependency::new(4, 6);
    assert_eq!(4, deps.source);
    assert_eq!(6, deps.target);
}

#[test]
fn create_items() {
    let item = Item::new(32, String::from("foo"));
    assert_eq!(32, item.id());
    assert_eq!(String::from("foo"), item.name());
}

#[test]
fn add_depends() {
    let item = Item::new(32, String::from("foo"));
    let new_item = item.add_depends(34);
    assert_eq!(0, item.depends_on().len());
    assert_eq!(1, new_item.depends_on().len());
}

#[test]
fn add_depends_keeps_what_was_there() {
    let item = Item::new(7, String::from("bar")).add_depends(3).add_depends(9);
    let more = item.add_depends(3);
    assert_eq!(item.depends_on(), &[3, 9]);
    assert_eq!(more.depends_on(), &[3, 9, 3]);
    assert_eq!(more.id(), 7);
    assert_eq!(more.name(), "bar");
}

#[test]
fn default_item_is_empty() {
    let item = Item::default();
    assert_eq!(item.id(), 0);
    assert_eq!(item.name(), "");
    assert!(item.depends_on().is_empty());
}

#[test]
fn graph_of_no_contracts_is_empty() {
    let graph = Graph::build(&[]);
    assert!(graph.nodes().is_empty());
    assert!(graph.links().is_empty());
}

#[test]
fn graph_of_two_linked_contracts() {
    let contracts = vec![
        contract("ms.idx1", "ms.idx2", None),
        contract("ms.idx2", "ms.idx3", Some(vec![("GET", "/api/profiles")])),
    ];
    let graph = Graph::build(&contracts);
    // The provider of a contract is met before its consumer.
    assert_eq!(node_names(&graph), vec!["ms.idx2", "ms.idx1", "ms.idx3"]);
    let indices: Vec<usize> = graph.nodes().iter().map(|node| node.index()).collect();
    assert_eq!(indices, vec![1, 2, 3]);
    assert!(graph.nodes().iter().all(|node| node.group().is_none()));
    assert_eq!(edges(&graph), vec![(1, 3, "GET /api/profiles".to_owned())]);
    let link = &graph.links()[0];
    assert_eq!(graph.nodes()[link.source() - 1].name(), "ms.idx2");
    assert_eq!(graph.nodes()[link.target() - 1].name(), "ms.idx3");
}

#[test]
fn graph_contract_without_interactions_still_has_nodes() {
    let graph = Graph::build(&[contract("a", "b", None), contract("c", "d", Some(vec![]))]);
    assert_eq!(node_names(&graph), vec!["b", "a", "d", "c"]);
    assert!(graph.links().is_empty());
}

#[test]
fn graph_label_has_method_in_upper_case() {
    let graph = Graph::build(&[contract("web", "api", Some(vec![("get", "/api/profiles")]))]);
    assert_eq!(edges(&graph), vec![(2, 1, "GET /api/profiles".to_owned())]);
    let graph = Graph::build(&[contract("web", "api", Some(vec![("Post", "/straße")]))]);
    assert_eq!(graph.links()[0].label(), "POST /straße");
    let graph = Graph::build(&[contract("web", "api", Some(vec![("straße", "/")]))]);
    assert_eq!(graph.links()[0].label(), "STRASSE /");
}

#[test]
fn graph_same_name_is_same_node() {
    let contracts = vec![
        contract("web", "api", Some(vec![("GET", "/a")])),
        contract("api", "db", Some(vec![("GET", "/b")])),
        contract("db", "web", Some(vec![("GET", "/c")])),
    ];
    let graph = Graph::build(&contracts);
    assert_eq!(node_names(&graph), vec!["api", "web", "db"]);
    // "api" provides in the first contract and consumes in the second.
    assert_eq!(
        edges(&graph),
        vec![
            (1, 3, "GET /b".to_owned()),
            (2, 1, "GET /a".to_owned()),
            (3, 2, "GET /c".to_owned()),
        ]
    );
}

#[test]
fn graph_node_indices_are_dense() {
    let contracts = vec![
        contract("a", "b", None),
        contract("b", "c", None),
        contract("a", "c", None),
        contract("d", "a", None),
        contract("d", "d", None),
    ];
    let graph = Graph::build(&contracts);
    assert_eq!(node_names(&graph), vec!["b", "a", "c", "d"]);
    for (position, node) in graph.nodes().iter().enumerate() {
        assert_eq!(node.index(), position + 1);
    }
}

#[test]
fn graph_has_one_link_per_interaction() {
    let contracts = vec![
        contract("a", "b", Some(vec![("GET", "/1"), ("PUT", "/2"), ("GET", "/1")])),
        contract("b", "c", None),
        contract("c", "a", Some(vec![("DELETE", "/3")])),
        contract("a", "b", Some(vec![("GET", "/1")])),
    ];
    let graph = Graph::build(&contracts);
    assert_eq!(graph.links().len(), 5);
    // Repeated interactions are repeated links.
    let same = graph.links().iter().filter(|l| l.label() == "GET /1").count();
    assert_eq!(same, 3);
}

#[test]
fn graph_links_are_sorted_by_source_and_stable() {
    let contracts = vec![
        contract("z", "p", Some(vec![("GET", "/z1"), ("GET", "/z2")])),
        contract("a", "p", Some(vec![("GET", "/a1")])),
        contract("z", "q", Some(vec![("GET", "/z3")])),
        contract("p", "q", Some(vec![("GET", "/pq")])),
        contract("a", "q", Some(vec![("GET", "/a2")])),
    ];
    let graph = Graph::build(&contracts);
    assert_eq!(node_names(&graph), vec!["p", "z", "a", "q"]);
    assert_eq!(
        edges(&graph),
        vec![
            (1, 4, "GET /pq".to_owned()),
            (2, 1, "GET /z1".to_owned()),
            (2, 1, "GET /z2".to_owned()),
            (2, 4, "GET /z3".to_owned()),
            (3, 1, "GET /a1".to_owned()),
            (3, 4, "GET /a2".to_owned()),
        ]
    );
}

#[test]
fn graph_node_set_does_not_depend_on_order() {
    let forward = vec![
        contract("a", "b", Some(vec![("GET", "/1")])),
        contract("c", "a", None),
        contract("d", "b", Some(vec![("GET", "/2")])),
    ];
    let backward = vec![
        contract("d", "b", Some(vec![("GET", "/2")])),
        contract("c", "a", None),
        contract("a", "b", Some(vec![("GET", "/1")])),
    ];
    let first = Graph::build(&forward);
    let second = Graph::build(&backward);
    assert_eq!(node_names(&first), vec!["b", "a", "c", "d"]);
    assert_eq!(node_names(&second), vec!["b", "d", "a", "c"]);
    let mut one = node_names(&first);
    let mut other = node_names(&second);
    one.sort();
    other.sort();
    assert_eq!(one, other);
    assert_eq!(first.links().len(), second.links().len());
}

#[test]
fn graph_is_the_same_every_time() {
    let contracts = vec![
        contract("a", "b", Some(vec![("get", "/1"), ("post", "/2")])),
        contract("b", "a", Some(vec![("get", "/3")])),
    ];
    let first = Graph::build(&contracts);
    let second = Graph::build(&contracts);
    assert_eq!(node_names(&first), node_names(&second));
    assert_eq!(edges(&first), edges(&second));
}

#[test]
fn link_label_joins_with_a_space() {
    assert_eq!(link_label("GET".to_owned(), "/api/profiles"), "GET /api/profiles");
    assert_eq!(link_label(String::new(), ""), " ");
}

#[test]
fn registry_numbers_names_as_met() {
    let mut registry = Registry::new();
    assert_eq!(registry.len(), 0);
    assert_eq!(registry.find(&"a".to_owned()), None);
    assert_eq!(registry.resolve(&"a".to_owned()), 1);
    assert_eq!(registry.resolve(&"b".to_owned()), 2);
    assert_eq!(registry.resolve(&"a".to_owned()), 1);
    assert_eq!(registry.find(&"b".to_owned()), Some(2));
    assert_eq!(registry.len(), 2);
    assert_eq!(registry.into_names(), vec!["a".to_owned(), "b".to_owned()]);
}

#[test]
fn chart_file_names() {
    assert_eq!(EdgeChart.file_name(), "edge-bundling.json");
    assert_eq!(ForceDirectedChart.file_name(), "force-directed.json");
}
