use odata_simple_client::{
    decoded, Comparison, Direction, Endpoint, Error, Format, GetRequest, InlineCount, ListRequest,
    PathBuilder,
};

#[test]
fn list_request_second_filter_replaces_first() {
    let builder: PathBuilder = ListRequest::new("Dokument")
        .filter("id", Comparison::Equal, "24")
        .filter("name", Comparison::NotEqual, "x")
        .into();
    assert_eq!("/Dokument?$filter=name%20ne%20x", builder.to_path_string());
}

#[test]
fn list_request_all_options() {
    let builder = ListRequest::new("Dokument")
        .format(Format::Xml)
        .order_by("dato", Direction::Descending)
        .top(10)
        .skip(20)
        .inline_count(InlineCount::AllPages)
        .expand(["Aktør"])
        .into_builder();
    assert_eq!(
        "/Dokument?$expand=Akt%C3%B8r&$format=xml&$inlinecount=allpages&$orderby=dato%20desc&$skip=20&$top=10",
        builder.to_path_string()
    );
}

#[test]
fn get_request_has_id_and_options() {
    let builder: PathBuilder = GetRequest::new("Dokument", 24)
        .format(Format::Json)
        .expand(["DokumentAktør"])
        .into();
    assert_eq!(
        "/Dokument(24)?$expand=DokumentAkt%C3%B8r&$format=json",
        builder.to_path_string()
    );
}

#[test]
fn endpoint_builds_json_uris() {
    let endpoint = Endpoint::new("oda.ft.dk", Some(String::from("/api"))).unwrap();
    let uri = endpoint.get_uri(GetRequest::new("Dokument", 24)).unwrap();
    assert_eq!("https://oda.ft.dk/api/Dokument(24)?$format=json", uri.to_string());
    let uri = endpoint
        .list_uri(ListRequest::new("Dokument").inline_count(InlineCount::AllPages))
        .unwrap();
    assert_eq!(
        "https://oda.ft.dk/api/Dokument?$format=json&$inlinecount=allpages",
        uri.to_string()
    );
}

#[test]
fn endpoint_without_base_path() {
    let endpoint = Endpoint::new("example.org:8080", None).unwrap();
    let uri = endpoint.request_uri(PathBuilder::new("r".into()).top(1)).unwrap();
    assert_eq!("https://example.org:8080/r?$top=1", uri.to_string());
}

#[test]
fn endpoint_rejects_invalid_domain() {
    assert!(matches!(Endpoint::new("", None), Err(Error::Uri(_))));
    assert!(matches!(Endpoint::new("a b", None), Err(Error::Uri(_))));
}

#[test]
fn endpoint_reports_invalid_base_path() {
    let endpoint = Endpoint::new("example.org", Some(String::from("/a b"))).unwrap();
    let result = endpoint.get_uri(GetRequest::new("r", 1));
    assert!(matches!(result, Err(Error::Uri(_))));
}

#[test]
fn parse_failure_keeps_the_raw_text() {
    let body = String::from("{\"value\": [1, 2,");
    let parsed = serde_json::from_str::<serde_json::Value>(&body);
    match decoded(parsed, body.clone()) {
        Err(Error::Serde(_, text)) => assert_eq!(body, text),
        other => panic!("expected a parse error, got {:?}", other),
    }
}

#[test]
fn parsed_value_passes_through() {
    let body = String::from("[1, 2]");
    let parsed = serde_json::from_str::<Vec<u32>>(&body);
    let value = decoded(parsed, body).unwrap();
    assert_eq!(vec![1, 2], value);
}

#[test]
fn endpoint_clone_targets_the_same_place() {
    let endpoint = Endpoint::new("example.org", Some(String::from("/api"))).unwrap();
    let copy = endpoint.clone();
    let a = endpoint.get_uri(GetRequest::new("r", 1)).unwrap();
    let b = copy.get_uri(GetRequest::new("r", 1)).unwrap();
    assert_eq!(a, b);
}

#[test]
fn get_uri_forces_json_over_xml() {
    let endpoint = Endpoint::new("oda.ft.dk", Some(String::from("/api"))).unwrap();
    let uri = endpoint
        .get_uri(GetRequest::new("Dokument", 24).format(Format::Xml))
        .unwrap();
    assert_eq!("https://oda.ft.dk/api/Dokument(24)?$format=json", uri.to_string());
}

#[test]
fn list_uri_keeps_the_filter() {
    let endpoint = Endpoint::new("oda.ft.dk", Some(String::from("/api"))).unwrap();
    let uri = endpoint
        .list_uri(ListRequest::new("Dokument").filter("id", Comparison::Equal, "24"))
        .unwrap();
    assert_eq!("https://oda.ft.dk/api/Dokument?$filter=id%20eq%2024&$format=json", uri.to_string());
    assert_eq!("oda.ft.dk", uri.authority().unwrap().as_str());
    assert_eq!(Some("https"), uri.scheme_str());
}

#[test]
fn endpoint_base_path_replaces_the_builders() {
    let endpoint = Endpoint::new("example.org", Some(String::from("/api"))).unwrap();
    let builder = PathBuilder::new_with_base("/other".into(), "r".into());
    let uri = endpoint.request_uri(builder).unwrap();
    assert_eq!("/api/r?", uri.path_and_query().unwrap().as_str());
}
