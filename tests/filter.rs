use odata_simple_client::filter::{Comparison, Filter, Order};

#[test]
fn filter_test_query_builder() {
    let query = Filter::default()
        .top(2)
        .skip(3)
        .order_by("date", None)
        .to_query();

    assert_eq!("$orderby=date%20asc&$skip=3&$top=2", query);
}

#[test]
fn filter_empty_query_is_empty() {
    assert_eq!("", Filter::default().to_query());
}

#[test]
fn filter_descending_order() {
    let query = Filter::default().order_by("date", Some(Order::Descending)).to_query();
    assert_eq!("$orderby=date%20desc", query);
}

#[test]
fn filter_explicit_ascending_order() {
    let query = Filter::default().order_by("date", Some(Order::Ascending)).to_query();
    assert_eq!("$orderby=date%20asc", query);
}

#[test]
fn filter_encodes_values_when_serialized() {
    let query = Filter::default()
        .filter("name", Comparison::Equal, "a&b")
        .inline_count("allpages".to_string())
        .to_query();
    assert_eq!("$filter=name%20eq%20a%26b&$inlinecount=allpages", query);
}

#[test]
fn filter_later_filter_replaces_earlier() {
    let query = Filter::default()
        .filter("id", Comparison::Equal, "24")
        .filter("id", Comparison::LessOrEqual, "7")
        .to_query();
    assert_eq!("$filter=id%20le%207", query);
}

#[test]
fn filter_all_comparison_operators() {
    let cases = [
        (Comparison::Equal, "eq"),
        (Comparison::NotEqual, "ne"),
        (Comparison::GreaterThan, "gt"),
        (Comparison::GreaterOrEqual, "ge"),
        (Comparison::LessThan, "lt"),
        (Comparison::LessOrEqual, "le"),
    ];
    for (comparison, op) in cases {
        let query = Filter::default().filter("x", comparison, "1").to_query();
        assert_eq!(format!("$filter=x%20{}%201", op), query);
    }
}

#[test]
fn filter_order_of_calls_does_not_matter() {
    let a = Filter::default().top(5).skip(10).order_by("a", None).to_query();
    let b = Filter::default().order_by("a", None).skip(10).top(5).to_query();
    assert_eq!(a, b);
}

#[test]
fn filter_largest_counts() {
    let query = Filter::default().top(u32::MAX).skip(0).to_query();
    assert_eq!("$skip=0&$top=4294967295", query);
}
