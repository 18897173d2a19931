use cadvisor::api::{
    message_quoting, parse_api_path, percentiles_from, resolve, route, url_decode, ApiRoute, Params, Percentiles,
    RequestOptions, V1Request, V2Request,
};
use cadvisor::model::ContainerReference;

fn params(q: &str) -> Params {
    Params::parse(&Some(q.to_string()))
}

#[test]
fn url_decoding() {
    assert_eq!(url_decode("a%20b+c"), "a b c");
    assert_eq!(url_decode("%2Fdocker%2Fabc"), "/docker/abc");
    assert_eq!(url_decode("100%"), "100%");
    assert_eq!(url_decode("%zz"), "%zz");
    assert_eq!(url_decode("%FF"), "\u{FFFD}");
    assert_eq!(url_decode("%C3%A9"), "é");
}

#[test]
fn query_parameters() {
    let p = params("recursive=true&count=5&type=docker&flag");
    assert_eq!(p.get("count"), Some("5"));
    assert_eq!(p.get("flag"), Some(""));
    assert_eq!(p.get("missing"), None);
    assert!(p.get_bool("recursive"));
    assert!(!p.get_bool("count"));
    assert!(Params::parse(&None).get("x").is_none());
}

#[test]
fn request_options_defaults_and_errors() {
    let o = RequestOptions::parse(&params("")).unwrap();
    assert_eq!(o.id_type, "name");
    assert_eq!(o.count, 64);
    assert!(!o.recursive);
    let o = RequestOptions::parse(&params("type=podman&count=-1&recursive=true")).unwrap();
    assert_eq!(o.id_type, "podman");
    assert_eq!(o.count, -1);
    assert!(o.recursive);
    assert_eq!(RequestOptions::parse(&params("type=vm")).err().unwrap(), "unknown 'type' \"vm\"");
    assert_eq!(
        RequestOptions::parse(&params("count=abc")).err().unwrap(),
        "invalid 'count' option: invalid digit found in string"
    );
    assert_eq!(
        RequestOptions::parse(&params("count=")).err().unwrap(),
        "invalid 'count' option: cannot parse integer from empty string"
    );
    assert_eq!(
        RequestOptions::parse(&params("count=99999999999999999999")).err().unwrap(),
        "invalid 'count' option: number too large to fit in target type"
    );
}

#[test]
fn percentiles_of_values() {
    let p = percentiles_from(vec![5, 1, 4, 2, 3, 10, 9, 8, 7, 6]);
    assert_eq!(
        p,
        Percentiles { present: true, mean: 5, max: 10, fifty: 5, ninety: 9, ninety_five: 9 }
    );
    let none = percentiles_from(vec![]);
    assert!(!none.present);
    assert_eq!(none.max, 0);
}

#[test]
fn percentiles_are_ordered() {
    let p = percentiles_from(vec![7, 7, 1, 100, 42, 3]);
    assert!(p.fifty <= p.ninety && p.ninety <= p.ninety_five && p.ninety_five <= p.max);
    assert!(p.mean <= p.max);
    assert_eq!(p.max, 100);
}

#[test]
fn api_paths() {
    let p = parse_api_path("v1.3/containers/docker/abc/");
    assert_eq!(p.version, "v1.3");
    assert_eq!(p.request_type, "containers");
    assert_eq!(p.container_name, "/docker/abc");
    assert_eq!(parse_api_path("v2.0/stats").container_name, "/");
    assert_eq!(parse_api_path("v2.0/stats/").container_name, "/");
    assert_eq!(parse_api_path("v2.0").request_type, "");
    assert_eq!(parse_api_path("v1.0/containers//").container_name, "/");
}

#[test]
fn routing() {
    assert_eq!(route("v1.3", "events"), ApiRoute::V1(V1Request::Events));
    assert_eq!(route("v1.0", "events"), ApiRoute::V1(V1Request::Unknown));
    assert_eq!(route("v1.1", "subcontainers"), ApiRoute::V1(V1Request::Subcontainers));
    assert_eq!(route("v1.0", "subcontainers"), ApiRoute::V1(V1Request::Unknown));
    assert_eq!(route("v1.2", ""), ApiRoute::V1(V1Request::ListTypes));
    assert_eq!(route("v2.0", "events"), ApiRoute::V2Events);
    assert_eq!(route("v2.1", ""), ApiRoute::V2ListTypes);
    assert_eq!(route("v2.1", "machinestats"), ApiRoute::V2(V2Request::MachineStats));
    assert_eq!(route("v2.0", "machinestats"), ApiRoute::V2(V2Request::Unknown));
    assert_eq!(route("v3.0", "stats"), ApiRoute::UnsupportedVersion);
}

fn reference(id: &str, ns: &str, aliases: &[&str]) -> ContainerReference {
    ContainerReference {
        id: id.to_string(),
        name: String::new(),
        aliases: aliases.iter().map(|a| a.to_string()).collect(),
        namespace: ns.to_string(),
    }
}

#[test]
fn resolving_queried_containers() {
    let names: Vec<String> = ["/", "/a", "/a/b", "/ab", "/c"].iter().map(|s| s.to_string()).collect();
    let refs = vec![
        reference("", "", &[]),
        reference("abc123", "containerd", &["web"]),
        reference("", "", &[]),
        reference("def456", "crio", &["db"]),
        reference("abd999", "", &[]),
    ];
    let by_name = RequestOptions { id_type: "name".to_string(), count: 64, recursive: true };
    assert_eq!(resolve(&names, &refs, "/a", &by_name).unwrap(), vec!["/a", "/a/b"]);
    let single = RequestOptions { recursive: false, ..by_name };
    assert_eq!(resolve(&names, &refs, "/a", &single).unwrap(), vec!["/a"]);
    assert_eq!(resolve(&names, &refs, "/x", &single).err().unwrap(), "unknown container \"/x\"");
    let docker = RequestOptions { id_type: "docker".to_string(), count: 64, recursive: false };
    assert_eq!(resolve(&names, &refs, "/ab", &docker).unwrap(), vec!["/a"]);
    assert_eq!(resolve(&names, &refs, "db", &docker).unwrap(), vec!["/ab"]);
    assert_eq!(resolve(&names, &refs, "/", &docker).unwrap(), vec!["/a", "/ab"]);
    assert_eq!(resolve(&names, &refs, "/zz", &docker).err().unwrap(), "unable to find container \"/zz\"");
}

#[test]
fn quoting_messages() {
    assert_eq!(message_quoting("unknown request type ", "x\"y"), "unknown request type \"x\\\"y\"");
}
