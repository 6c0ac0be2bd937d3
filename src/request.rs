//! Typed request descriptors: a single resource by id, or a list of
//! resources, each carrying the options that apply to it.

use vstd::prelude::*;
use crate::options::QueryKey;
use crate::path::{
    comparison_name, direction_name, format_name, inline_count_name, Comparison,
    Direction, Format, InlineCount, PathBuilder, PathModel,
};
use crate::text::{decimal, url_encoded};

verus! {

/// Requests a single resource by id.
pub struct GetRequest {
    builder: PathBuilder,
}

impl View for GetRequest {
    type V = PathModel;

    closed spec fn view(&self) -> PathModel {
        self.builder@
    }
}

impl GetRequest {
    /// A request for `/<resource_type>(<id>)`.
    pub fn new(resource_type: &str, id: usize) -> (r: GetRequest)
        ensures
            r@ == (PathModel {
                base_path: Seq::empty(),
                resource_type: resource_type@,
                id: Some(id),
                options: Map::empty(),
            }),
    {
        GetRequest { builder: PathBuilder::new(String::from_str(resource_type)).id(id) }
    }

    /// Changes the format of the returned data.
    pub fn format(self, format: Format) -> (r: GetRequest)
        ensures
            r@ == self@.with_option(QueryKey::Format, format_name(format)),
    {
        GetRequest { builder: self.builder.format(format) }
    }

    /// Expands relations of the returned resource.
    pub fn expand<const N: usize>(self, fields: [&str; N]) -> (r: GetRequest)
        ensures
            r@ == self@.with_expand(fields@.map_values(|f: &str| f@)),
    {
        GetRequest { builder: self.builder.expand(fields) }
    }

    /// The path builder this request describes.
    pub fn into_builder(self) -> (r: PathBuilder)
        ensures
            r@ == self@,
    {
        self.builder
    }
}

/// Requests a list of resources.
pub struct ListRequest {
    builder: PathBuilder,
}

impl View for ListRequest {
    type V = PathModel;

    closed spec fn view(&self) -> PathModel {
        self.builder@
    }
}

impl ListRequest {
    /// A request for `/<resource_type>`.
    pub fn new(resource_type: &str) -> (r: ListRequest)
        ensures
            r@ == (PathModel {
                base_path: Seq::empty(),
                resource_type: resource_type@,
                id: None,
                options: Map::empty(),
            }),
    {
        ListRequest { builder: PathBuilder::new(String::from_str(resource_type)) }
    }

    /// Changes the format of the returned data.
    pub fn format(self, format: Format) -> (r: ListRequest)
        ensures
            r@ == self@.with_option(QueryKey::Format, format_name(format)),
    {
        ListRequest { builder: self.builder.format(format) }
    }

    /// Orders the returned resources by `field` in `direction`.
    pub fn order_by(self, field: &str, direction: Direction) -> (r: ListRequest)
        ensures
            r@ == self@.with_option(
                QueryKey::OrderBy,
                url_encoded(field@ + " "@ + direction_name(direction)),
            ),
    {
        ListRequest { builder: self.builder.order_by(field, direction) }
    }

    /// Retrieves only the first `count` resources.
    pub fn top(self, count: u32) -> (r: ListRequest)
        ensures
            r@ == self@.with_option(QueryKey::Top, decimal(count as nat)),
    {
        ListRequest { builder: self.builder.top(count) }
    }

    /// Skips the first `count` resources.
    pub fn skip(self, count: u32) -> (r: ListRequest)
        ensures
            r@ == self@.with_option(QueryKey::Skip, decimal(count as nat)),
    {
        ListRequest { builder: self.builder.skip(count) }
    }

    /// Includes an inline count in the page metadata.
    pub fn inline_count(self, value: InlineCount) -> (r: ListRequest)
        ensures
            r@ == self@.with_option(QueryKey::InlineCount, inline_count_name(value)),
    {
        ListRequest { builder: self.builder.inline_count(value) }
    }

    /// Filters the returned resources by one comparison; a later filter
    /// replaces an earlier one.
    pub fn filter(self, field: &str, comparison: Comparison, value: &str) -> (r: ListRequest)
        ensures
            r@ == self@.with_option(
                QueryKey::Filter,
                url_encoded(field@ + " "@ + comparison_name(comparison) + " "@ + value@),
            ),
    {
        ListRequest { builder: self.builder.filter(field, comparison, value) }
    }

    /// Expands relations of the returned resources.
    pub fn expand<const N: usize>(self, fields: [&str; N]) -> (r: ListRequest)
        ensures
            r@ == self@.with_expand(fields@.map_values(|f: &str| f@)),
    {
        ListRequest { builder: self.builder.expand(fields) }
    }

    /// The path builder this request describes.
    pub fn into_builder(self) -> (r: PathBuilder)
        ensures
            r@ == self@,
    {
        self.builder
    }
}

impl From<GetRequest> for PathBuilder {
    fn from(request: GetRequest) -> (r: PathBuilder) {
        request.builder
    }
}

impl vstd::std_specs::convert::FromSpecImpl<GetRequest> for PathBuilder {
    open spec fn obeys_from_spec() -> bool {
        true
    }

    closed spec fn from_spec(v: GetRequest) -> PathBuilder {
        v.builder
    }
}

impl From<ListRequest> for PathBuilder {
    fn from(request: ListRequest) -> (r: PathBuilder) {
        request.builder
    }
}

impl vstd::std_specs::convert::FromSpecImpl<ListRequest> for PathBuilder {
    open spec fn obeys_from_spec() -> bool {
        true
    }

    closed spec fn from_spec(v: ListRequest) -> PathBuilder {
        v.builder
    }
}

} // verus!
