//! A stand-alone query option set that stores values as given and
//! percent-encodes them when it is serialized.

use vstd::prelude::*;
use crate::options::{encoded_values, query_text, OptionSet, QueryKey};
use crate::text::{decimal, decimal_string, spaced};
pub use crate::path::{comparison_name, Comparison};

verus! {

/// Sort order of an `$orderby` option.
#[derive(Debug, Clone, Copy, PartialEq, Eq, Structural)]
pub enum Order {
    Descending,
    Ascending,
}

/// The word for an order; ascending when none is given.
pub open spec fn order_name(order: Option<Order>) -> Seq<char> {
    match order {
        Some(Order::Descending) => "desc"@,
        _ => "asc"@,
    }
}

/// Query options whose values are kept as given until `to_query`.
pub struct Filter {
    inner: OptionSet,
}

impl View for Filter {
    type V = Map<QueryKey, Seq<char>>;

    closed spec fn view(&self) -> Map<QueryKey, Seq<char>> {
        self.inner@
    }
}

impl Default for Filter {
    fn default() -> (r: Filter)
        ensures
            r@ == Map::<QueryKey, Seq<char>>::empty(),
    {
        Filter { inner: OptionSet::new() }
    }
}

impl Filter {
    /// Orders by `field`, ascending unless `order` says otherwise:
    /// `orderby` holds `<field> <asc|desc>`.
    pub fn order_by(self, field: &str, order: Option<Order>) -> (r: Filter)
        ensures
            r@ == self@.insert(QueryKey::OrderBy, field@ + " "@ + order_name(order)),
    {
        let word = match order {
            Some(Order::Descending) => "desc",
            _ => "asc",
        };
        Filter { inner: self.inner.set(QueryKey::OrderBy, spaced(field, word)) }
    }

    /// `top` holds `count` in decimal.
    pub fn top(self, count: u32) -> (r: Filter)
        ensures
            r@ == self@.insert(QueryKey::Top, decimal(count as nat)),
    {
        Filter { inner: self.inner.set(QueryKey::Top, decimal_string(count as u64)) }
    }

    /// `skip` holds `count` in decimal.
    pub fn skip(self, count: u32) -> (r: Filter)
        ensures
            r@ == self@.insert(QueryKey::Skip, decimal(count as nat)),
    {
        Filter { inner: self.inner.set(QueryKey::Skip, decimal_string(count as u64)) }
    }

    /// `inlinecount` holds `value`.
    pub fn inline_count(self, value: String) -> (r: Filter)
        ensures
            r@ == self@.insert(QueryKey::InlineCount, value@),
    {
        Filter { inner: self.inner.set(QueryKey::InlineCount, value) }
    }

    /// `filter` holds `<field> <op> <value>`; a later filter replaces an
    /// earlier one.
    pub fn filter(self, field: &str, comparison: Comparison, value: &str) -> (r: Filter)
        ensures
            r@ == self@.insert(
                QueryKey::Filter,
                field@ + " "@ + comparison_name(comparison) + " "@ + value@,
            ),
    {
        let mut text = spaced(field, comparison.operator());
        text.append(" ");
        text.append(value);
        Filter { inner: self.inner.set(QueryKey::Filter, text) }
    }

    /// The query: `$key=value` pairs in ascending key order joined by `&`,
    /// with keys and values percent-encoded.
    pub fn to_query(&self) -> (r: String)
        ensures
            r@ == query_text(encoded_values(self@)),
    {
        self.inner.encode_values().to_query()
    }
}

} // verus!
