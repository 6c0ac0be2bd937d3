use odata_simple_client::path::compose_path;
use odata_simple_client::text::join_with;
use odata_simple_client::{Comparison, Direction, Format, InlineCount, PathBuilder};

#[test]
fn path_test_query_builder() {
    let query = PathBuilder::new("test_resource".into())
        .top(2)
        .skip(3)
        .order_by("date", Direction::Ascending)
        .build()
        .unwrap();

    assert_eq!("/test_resource?$orderby=date%20asc&$skip=3&$top=2", query);
}

#[test]
fn test_single_resource_expand() {
    let query = PathBuilder::new("test_resource".into())
        .id(100)
        .expand(["DoThing", "What"])
        .expand(["Hello"])
        .build()
        .unwrap();

    assert_eq!("/test_resource(100)?$expand=DoThing,What,Hello", query);
}

#[test]
fn id_without_options_keeps_empty_query() {
    let query = PathBuilder::new("test_resource".into()).id(100).build().unwrap();
    assert_eq!("/test_resource(100)?", query);
    assert_eq!(
        "/test_resource(100)?",
        PathBuilder::new("test_resource".into()).id(100).to_path_string()
    );
}

#[test]
fn top_one_without_id() {
    let query = PathBuilder::new("Dokument".into()).top(1).build().unwrap();
    assert_eq!("/Dokument?$top=1", query);
}

#[test]
fn expand_keeps_call_order() {
    let ab_c = PathBuilder::new("r".into()).expand(["A", "B"]).expand(["C"]).to_path_string();
    let c_ab = PathBuilder::new("r".into()).expand(["C"]).expand(["A", "B"]).to_path_string();
    assert_eq!("/r?$expand=A,B,C", ab_c);
    assert_eq!("/r?$expand=C,A,B", c_ab);
}

#[test]
fn expand_in_two_calls_equals_one_call() {
    let two = PathBuilder::new("r".into()).expand(["A", "B"]).expand(["C"]).to_path_string();
    let one = PathBuilder::new("r".into()).expand(["A", "B", "C"]).to_path_string();
    assert_eq!(one, two);
}

#[test]
fn expand_encodes_each_field() {
    let path = PathBuilder::new("r".into()).expand(["a b", "c/d"]).to_path_string();
    assert_eq!("/r?$expand=a%20b,c%2Fd", path);
}

#[test]
fn keys_are_sorted_whatever_the_call_order() {
    let path = PathBuilder::new("r".into())
        .top(1)
        .skip(2)
        .order_by("x", Direction::Descending)
        .inline_count(InlineCount::AllPages)
        .format(Format::Xml)
        .filter("f", Comparison::GreaterThan, "3")
        .expand(["E"])
        .to_path_string();
    assert_eq!(
        "/r?$expand=E&$filter=f%20gt%203&$format=xml&$inlinecount=allpages&$orderby=x%20desc&$skip=2&$top=1",
        path
    );
}

#[test]
fn setting_order_does_not_change_the_path() {
    let a = PathBuilder::new("r".into())
        .format(Format::Json)
        .top(3)
        .inline_count(InlineCount::NoCount)
        .to_path_string();
    let b = PathBuilder::new("r".into())
        .inline_count(InlineCount::NoCount)
        .top(3)
        .format(Format::Json)
        .to_path_string();
    assert_eq!(a, b);
    assert_eq!("/r?$format=json&$inlinecount=none&$top=3", a);
}

#[test]
fn later_value_wins() {
    let path = PathBuilder::new("r".into()).top(1).top(7).format(Format::Xml).format(Format::Json).to_path_string();
    assert_eq!("/r?$format=json&$top=7", path);
}

#[test]
fn resource_type_is_percent_encoded() {
    let path = PathBuilder::new("a b".into()).to_path_string();
    assert_eq!("/a%20b?", path);
}

#[test]
fn base_path_comes_first() {
    let query = PathBuilder::new_with_base("/api".into(), "Dokument".into())
        .id(24)
        .build()
        .unwrap();
    assert_eq!("/api/Dokument(24)?", query);
    let query = PathBuilder::new("Dokument".into())
        .base_path("/v2".into())
        .top(0)
        .build()
        .unwrap();
    assert_eq!("/v2/Dokument?$top=0", query);
}

#[test]
fn invalid_base_path_fails_to_build() {
    let result = PathBuilder::new_with_base("/a b".into(), "r".into()).build();
    assert!(result.is_err());
}

#[test]
fn clone_keeps_everything() {
    let builder = PathBuilder::new("r".into()).id(5).top(2).expand(["X"]);
    let copy = builder.clone();
    assert_eq!(builder.to_path_string(), copy.to_path_string());
    assert_eq!("/r(5)?$expand=X&$top=2", copy.to_path_string());
}

#[test]
fn largest_id() {
    let path = PathBuilder::new("r".into()).id(usize::MAX).to_path_string();
    assert_eq!(format!("/r({})?", usize::MAX), path);
}

#[test]
fn compose_path_puts_parts_in_place() {
    assert_eq!("/Dokument?$top=1", compose_path("", "Dokument", None, "$top=1"));
    assert_eq!("/api/r(7)?", compose_path("/api", "r", Some(7), ""));
}

#[test]
fn join_with_separates_neighbours() {
    let parts = vec![String::from("a"), String::from("b c"), String::new()];
    assert_eq!("a,b c,", join_with(&parts, ","));
    assert_eq!("", join_with(&Vec::new(), "&"));
}

#[test]
fn build_text_matches_path_string() {
    let builder = PathBuilder::new("Dokument".into()).skip(3).top(2);
    assert_eq!(builder.to_path_string(), builder.build().unwrap().as_str());
}
