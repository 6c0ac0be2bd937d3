//! The path builder: a resource path, an optional numeric id and a query
//! option set, rendered as one percent-encoded path-and-query.

use vstd::prelude::*;
use hyper::http::uri::{InvalidUri, PathAndQuery};
use crate::options::{
    appended, apply_settings, entries, key_name, last_setting, lemma_distinct_settings_commute,
    lemma_entries_upto_in_map, lemma_key_name_unreserved, lemma_settings_order_irrelevant,
    query_text, rendered, OptionSet, KEY_COUNT, QueryKey,
};
use crate::text::{
    all_chars, all_unreserved, decimal, decimal_string, is_unreserved, join, lemma_join_chars,
    join_with, lemma_join_concat, percent_encode, spaced, url_encoded,
};

verus! {

#[verifier::external_type_specification]
#[verifier::external_body]
pub struct ExPathAndQuery(PathAndQuery);

#[verifier::external_type_specification]
#[verifier::external_body]
pub struct ExInvalidUri(InvalidUri);

/// Direction in which the returned results are listed.
#[derive(Debug, Clone, Copy, PartialEq, Eq, Structural)]
pub enum Direction {
    /// Largest to smallest.
    Descending,
    /// Smallest to largest.
    Ascending,
}

/// Comparison operator of a filter expression.
#[derive(Debug, Clone, Copy, PartialEq, Eq, Structural)]
pub enum Comparison {
    Equal,
    NotEqual,
    GreaterThan,
    GreaterOrEqual,
    LessThan,
    LessOrEqual,
}

/// Format of the returned data.
#[derive(Debug, Clone, Copy, PartialEq, Eq, Structural)]
pub enum Format {
    Xml,
    Json,
}

/// Whether pages carry the total number of results.
#[derive(Debug, Clone, Copy, PartialEq, Eq, Structural)]
pub enum InlineCount {
    /// No inline count (`none` on the wire).
    NoCount,
    /// An inline count on every page.
    AllPages,
}

pub open spec fn direction_name(d: Direction) -> Seq<char> {
    match d {
        Direction::Descending => "desc"@,
        Direction::Ascending => "asc"@,
    }
}

pub open spec fn comparison_name(c: Comparison) -> Seq<char> {
    match c {
        Comparison::Equal => "eq"@,
        Comparison::NotEqual => "ne"@,
        Comparison::GreaterThan => "gt"@,
        Comparison::GreaterOrEqual => "ge"@,
        Comparison::LessThan => "lt"@,
        Comparison::LessOrEqual => "le"@,
    }
}

pub open spec fn format_name(f: Format) -> Seq<char> {
    match f {
        Format::Xml => "xml"@,
        Format::Json => "json"@,
    }
}

pub open spec fn inline_count_name(v: InlineCount) -> Seq<char> {
    match v {
        InlineCount::NoCount => "none"@,
        InlineCount::AllPages => "allpages"@,
    }
}

impl Direction {
    pub fn name(&self) -> (r: &'static str)
        ensures
            r@ == direction_name(*self),
    {
        match self {
            Direction::Descending => "desc",
            Direction::Ascending => "asc",
        }
    }
}

impl Comparison {
    pub fn operator(&self) -> (r: &'static str)
        ensures
            r@ == comparison_name(*self),
    {
        match self {
            Comparison::Equal => "eq",
            Comparison::NotEqual => "ne",
            Comparison::GreaterThan => "gt",
            Comparison::GreaterOrEqual => "ge",
            Comparison::LessThan => "lt",
            Comparison::LessOrEqual => "le",
        }
    }
}

impl Format {
    pub fn name(&self) -> (r: &'static str)
        ensures
            r@ == format_name(*self),
    {
        match self {
            Format::Xml => "xml",
            Format::Json => "json",
        }
    }
}

impl InlineCount {
    pub fn name(&self) -> (r: &'static str)
        ensures
            r@ == inline_count_name(*self),
            all_unreserved(r@),
    {
        proof {
            reveal_strlit("none");
            reveal_strlit("allpages");
        }
        match self {
            InlineCount::NoCount => "none",
            InlineCount::AllPages => "allpages",
        }
    }
}

/// Decimal digits are kept by percent-encoding.
pub proof fn lemma_decimal_unreserved(n: nat)
    ensures
        all_unreserved(decimal(n)),
    decreases n,
{
    if n >= 10 {
        lemma_decimal_unreserved(n / 10);
    }
}

/// The percent-encoded fields of an expand call, joined by commas.
pub open spec fn expand_list(fields: Seq<Seq<char>>) -> Seq<char> {
    join(fields.map_values(|f: Seq<char>| url_encoded(f)), ","@)
}

/// The id part of a path: `(<id>)`, or nothing.
pub open spec fn id_suffix(id: Option<usize>) -> Seq<char> {
    match id {
        Some(n) => "("@ + decimal(n as nat) + ")"@,
        None => Seq::empty(),
    }
}

/// What a path builder describes.
pub struct PathModel {
    pub base_path: Seq<char>,
    pub resource_type: Seq<char>,
    pub id: Option<usize>,
    pub options: Map<QueryKey, Seq<char>>,
}

/// The path-and-query text of a request:
/// `<base_path>/<resource_type>[(<id>)]?<query>`, with the resource type
/// percent-encoded.
pub open spec fn path_text(m: PathModel) -> Seq<char> {
    m.base_path + "/"@ + url_encoded(m.resource_type) + id_suffix(m.id) + "?"@ + query_text(
        m.options,
    )
}

/// A character that `http` accepts unescaped in the path part of a
/// path-and-query.
pub open spec fn is_path_char(c: char) -> bool {
    let b = c as u32;
    ||| b == 0x21 || b == 0x22
    ||| 0x24 <= b <= 0x3B
    ||| b == 0x3D
    ||| 0x40 <= b <= 0x5F
    ||| 0x61 <= b <= 0x7B
    ||| b == 0x7C || b == 0x7D || b == 0x7E
}

/// A character that `http` accepts unescaped in the query part of a
/// path-and-query.
pub open spec fn is_query_char(c: char) -> bool {
    let b = c as u32;
    ||| b == 0x21
    ||| 0x24 <= b <= 0x3B
    ||| b == 0x3D
    ||| 0x3F <= b <= 0x7E
}

/// `s` holds `c` somewhere before position `i`.
pub open spec fn occurs_before(s: Seq<char>, c: char, i: int) -> bool {
    exists|j: int| 0 <= j < i && s[j] == c
}

/// Whether `http` parses `s` as a path-and-query: up to the first `?` or `#`
/// every character is a path character; after a `?`, up to the first `#`,
/// every character is a query character; what follows a `#` is not examined.
pub open spec fn path_and_query_accepts(s: Seq<char>) -> bool {
    forall|i: int|
        0 <= i < s.len() && !occurs_before(s, '#', i) ==> if occurs_before(s, '?', i) {
            s[i] == '#' || is_query_char(#[trigger] s[i])
        } else {
            s[i] == '?' || s[i] == '#' || is_path_char(s[i])
        }
}

pub open spec fn all_path_chars(s: Seq<char>) -> bool {
    forall|i: int| 0 <= i < s.len() ==> is_path_char(#[trigger] s[i])
}

pub open spec fn all_query_chars(s: Seq<char>) -> bool {
    forall|i: int| 0 <= i < s.len() ==> is_query_char(#[trigger] s[i])
}

/// A character that a stored option value of a path builder may hold: an
/// unreserved character, `%` from percent-encoding, or `,` between the
/// items of a list.
pub open spec fn is_value_char(c: char) -> bool {
    is_unreserved(c) || c == '%' || c == ','
}

pub open spec fn all_value_chars(s: Seq<char>) -> bool {
    forall|i: int| 0 <= i < s.len() ==> is_value_char(#[trigger] s[i])
}

/// Every value of `m` is made of value characters.
pub open spec fn values_safe(m: Map<QueryKey, Seq<char>>) -> bool {
    forall|k: QueryKey| #[trigger] m.contains_key(k) ==> all_value_chars(m[k])
}

/// Value characters may stand unescaped in a path and in a query.
proof fn lemma_value_char_allowed(c: char)
    requires
        is_value_char(c),
    ensures
        is_path_char(c),
        is_query_char(c),
{
}

/// A text made of path characters, `?`, and a text made of query characters
/// is a valid path-and-query.
proof fn lemma_accepts_split(p: Seq<char>, q: Seq<char>)
    requires
        all_path_chars(p),
        all_query_chars(q),
    ensures
        path_and_query_accepts(p + "?"@ + q),
        !(p + "?"@ + q).contains('#'),
{
    reveal_strlit("?");
    let s = p + "?"@ + q;
    assert forall|i: int| 0 <= i < s.len() && !occurs_before(s, '#', i) implies if occurs_before(
        s,
        '?',
        i,
    ) {
        s[i] == '#' || is_query_char(#[trigger] s[i])
    } else {
        s[i] == '?' || s[i] == '#' || is_path_char(s[i])
    } by {
        if i < p.len() {
            assert(s[i] == p[i]);
            assert(!occurs_before(s, '?', i)) by {
                assert forall|j: int| 0 <= j < i implies s[j] != '?' by {
                    assert(s[j] == p[j]);
                    assert(is_path_char(p[j]));
                }
            }
        } else if i == p.len() {
            assert(!occurs_before(s, '?', i)) by {
                assert forall|j: int| 0 <= j < i implies s[j] != '?' by {
                    assert(s[j] == p[j]);
                    assert(is_path_char(p[j]));
                }
            }
        } else {
            assert(s[p.len() as int] == '?');
            assert(occurs_before(s, '?', i));
            assert(s[i] == q[i - p.len() - 1]);
        }
    }
}

/// The query text of an option set whose values are value characters is
/// made of query characters.
proof fn lemma_query_text_chars(m: Map<QueryKey, Seq<char>>)
    requires
        values_safe(m),
    ensures
        all_query_chars(query_text(m)),
{
    reveal_strlit("$");
    reveal_strlit("=");
    reveal_strlit("&");
    let es = entries(m);
    let parts = rendered(es);
    let qc = |c: char| is_query_char(c);
    lemma_entries_upto_in_map(m, KEY_COUNT as nat);
    assert forall|i: int| 0 <= i < parts.len() implies all_chars(#[trigger] parts[i], qc) by {
        let k = es[i].0;
        let v = es[i].1;
        assert(m.contains_key(k));
        assert(all_value_chars(v));
        lemma_key_name_unreserved(k);
        let part = "$"@ + key_name(k) + "="@ + v;
        assert(parts[i] == part);
        assert forall|j: int| 0 <= j < part.len() implies qc(#[trigger] part[j]) by {
            let n = key_name(k).len() as int;
            if j == 0 {
            } else if j < 1 + n {
                assert(part[j] == key_name(k)[j - 1]);
            } else if j == 1 + n {
            } else {
                assert(part[j] == v[j - 2 - n]);
                lemma_value_char_allowed(v[j - 2 - n]);
            }
        }
    }
    lemma_join_chars(parts, "&"@, qc);
}

/// The text a path-and-query holds, as `PathAndQuery::as_str` of `http`
/// 0.2 returns it.
pub uninterp spec fn path_and_query_text(p: PathAndQuery) -> Seq<char>;

/// Relies on `<PathAndQuery as FromStr>::from_str` of `http` 0.2, which
/// checks each byte against the tables that `path_and_query_accepts`
/// restates (a non-ASCII character is encoded as bytes that neither table
/// holds) and fails when one is out of place. It records the position of the
/// first `?` as a `u16` whose largest value means "no query", so a `?` at
/// byte 65535 escapes the query check: the converse is stated only for
/// shorter texts. The text is kept up to any `#`, and `as_str` gives it back
/// (`/` for an empty text).
#[verifier::external_body]
fn parse_path_and_query(s: &str) -> (r: Result<PathAndQuery, InvalidUri>)
    ensures
        path_and_query_accepts(s@) ==> r is Ok,
        r is Ok && s@.len() <= 65535 ==> path_and_query_accepts(s@),
        r is Ok && s@.len() > 0 && !s@.contains('#') ==> path_and_query_text(r->Ok_0) == s@,
{
    s.parse()
}

impl PathModel {
    /// The same path with `v` stored under option `k`.
    pub open spec fn with_option(self, k: QueryKey, v: Seq<char>) -> PathModel {
        PathModel { options: self.options.insert(k, v), ..self }
    }

    /// The same path with the relations `fields` added to its expand list.
    pub open spec fn with_expand(self, fields: Seq<Seq<char>>) -> PathModel {
        self.with_option(QueryKey::Expand, appended(self.options, QueryKey::Expand, expand_list(fields)))
    }
}

/// Expanding `a` and then `b` gives the same expand list as expanding `a`
/// followed by `b` in one call, so the list keeps the order of the calls.
/// Both lists must be non-empty: an empty one leaves an empty item between
/// the commas.
pub proof fn lemma_expand_accumulates(m: PathModel, a: Seq<Seq<char>>, b: Seq<Seq<char>>)
    requires
        a.len() > 0,
        b.len() > 0,
    ensures
        m.with_expand(a).with_expand(b) == m.with_expand(a + b),
{
    let enc = |f: Seq<char>| url_encoded(f);
    assert((a + b).map_values(enc) =~= a.map_values(enc) + b.map_values(enc));
    lemma_join_concat(a.map_values(enc), b.map_values(enc), ","@);
    let ea = expand_list(a);
    let eb = expand_list(b);
    if m.options.contains_key(QueryKey::Expand) {
        assert(m.options[QueryKey::Expand] + ","@ + ea + ","@ + eb =~= m.options[QueryKey::Expand]
            + ","@ + (ea + ","@ + eb));
    }
    assert(m.with_expand(a).with_expand(b).options =~= m.with_expand(a + b).options);
}

/// Setting two different options on a path, in either order, gives the same
/// path and so the same text.
pub proof fn lemma_path_settings_commute(
    m: PathModel,
    k1: QueryKey,
    v1: Seq<char>,
    k2: QueryKey,
    v2: Seq<char>,
)
    requires
        k1 != k2,
    ensures
        m.with_option(k1, v1).with_option(k2, v2) == m.with_option(k2, v2).with_option(k1, v1),
        path_text(m.with_option(k1, v1).with_option(k2, v2)) == path_text(
            m.with_option(k2, v2).with_option(k1, v1),
        ),
{
    lemma_distinct_settings_commute(m.options, k1, v1, k2, v2);
}

/// A path after the option settings `ops`, made in order.
pub open spec fn with_settings(m: PathModel, ops: Seq<(QueryKey, Seq<char>)>) -> PathModel {
    PathModel { options: apply_settings(m.options, ops), ..m }
}

/// Each option setting of a path builder (every setter but `expand`) is one
/// step of `with_settings`.
pub proof fn lemma_setting_is_one_step(
    m: PathModel,
    ops: Seq<(QueryKey, Seq<char>)>,
    k: QueryKey,
    v: Seq<char>,
)
    ensures
        with_settings(m, ops).with_option(k, v) == with_settings(m, ops.push((k, v))),
{
    assert(ops.push((k, v)).drop_last() =~= ops);
}

/// Two sequences of option settings that leave every key with the same last
/// value build the same path text, whatever order the settings came in.
pub proof fn lemma_path_settings_order_irrelevant(
    m: PathModel,
    ops1: Seq<(QueryKey, Seq<char>)>,
    ops2: Seq<(QueryKey, Seq<char>)>,
)
    requires
        forall|k: QueryKey| last_setting(ops1, k) == last_setting(ops2, k),
    ensures
        with_settings(m, ops1) == with_settings(m, ops2),
        path_text(with_settings(m, ops1)) == path_text(with_settings(m, ops2)),
{
    lemma_settings_order_irrelevant(m.options, ops1, ops2);
}

/// Setting an option again replaces its earlier value.
pub proof fn lemma_later_setting_wins(m: PathModel, k: QueryKey, v1: Seq<char>, v2: Seq<char>)
    ensures
        m.with_option(k, v1).with_option(k, v2) == m.with_option(k, v2),
{
    assert(m.with_option(k, v1).with_option(k, v2).options =~= m.with_option(k, v2).options);
}

/// Puts a path-and-query together from its parts, the resource type and the
/// query already encoded: `<base_path>/<resource>[(<id>)]?<query>`. The
/// result is a valid path-and-query when the base path and the resource are
/// made of path characters and the query of query characters.
pub fn compose_path(base_path: &str, resource: &str, id: Option<usize>, query: &str) -> (r: String)
    ensures
        r@ == base_path@ + "/"@ + resource@ + id_suffix(id) + "?"@ + query@,
        all_path_chars(base_path@) && all_path_chars(resource@) && all_query_chars(query@)
            ==> path_and_query_accepts(r@) && !r@.contains('#'),
{
    let mut out = String::from_str(base_path);
    out.append("/");
    out.append(resource);
    match id {
        Some(n) => {
            let digits = decimal_string(n as u64);
            proof {
                lemma_decimal_unreserved(n as nat);
            }
            let encoded = percent_encode(digits.as_str());
            out.append("(");
            out.append(encoded.as_str());
            out.append(")");
        },
        None => {},
    }
    proof {
        reveal_strlit("/");
        reveal_strlit("(");
        reveal_strlit(")");
        if all_path_chars(base_path@) && all_path_chars(resource@) {
            assert forall|i: int| 0 <= i < out@.len() implies is_path_char(#[trigger] out@[i]) by {
                let b = base_path@.len() as int;
                let e = resource@.len() as int;
                if i < b {
                    assert(out@[i] == base_path@[i]);
                } else if i == b {
                } else if i < b + 1 + e {
                    assert(out@[i] == resource@[i - b - 1]);
                } else {
                    let d = decimal(id->Some_0 as nat);
                    lemma_decimal_unreserved(id->Some_0 as nat);
                    if i > b + 1 + e && i < b + 2 + e + d.len() {
                        assert(out@[i] == d[i - b - 2 - e]);
                    }
                }
            }
        }
    }
    let ghost prefix = out@;
    out.append("?");
    out.append(query);
    proof {
        if all_path_chars(base_path@) && all_path_chars(resource@) && all_query_chars(query@) {
            lemma_accepts_split(prefix, query@);
        }
    }
    out
}

/// Builds the path-and-query of one request.
#[derive(Debug)]
pub struct PathBuilder {
    base_path: String,
    resource_type: String,
    id: Option<usize>,
    inner: OptionSet,
}

impl View for PathBuilder {
    type V = PathModel;

    closed spec fn view(&self) -> PathModel {
        PathModel {
            base_path: self.base_path@,
            resource_type: self.resource_type@,
            id: self.id,
            options: self.inner@,
        }
    }
}

impl Clone for PathBuilder {
    fn clone(&self) -> (r: PathBuilder)
        ensures
            r@ == self@,
    {
        proof {
            use_type_invariant(self);
        }
        PathBuilder {
            base_path: self.base_path.clone(),
            resource_type: self.resource_type.clone(),
            id: self.id,
            inner: self.inner.clone(),
        }
    }
}

/// Appending value characters with a comma between keeps a value made of
/// value characters.
proof fn lemma_appended_value_chars(m: Map<QueryKey, Seq<char>>, k: QueryKey, v: Seq<char>)
    requires
        values_safe(m),
        all_value_chars(v),
    ensures
        all_value_chars(appended(m, k, v)),
{
    reveal_strlit(",");
    if m.contains_key(k) {
        let a = m[k];
        let s = a + ","@ + v;
        assert(all_value_chars(a));
        assert forall|i: int| 0 <= i < s.len() implies is_value_char(#[trigger] s[i]) by {
            if i < a.len() {
                assert(s[i] == a[i]);
            } else if i > a.len() {
                assert(s[i] == v[i - a.len() - 1]);
            }
        }
    }
}

impl PathBuilder {
    #[verifier::type_invariant]
    spec fn values_are_encoded(&self) -> bool {
        values_safe(self.inner@)
    }

    pub fn new_with_base(base_path: String, resource_type: String) -> (r: PathBuilder)
        ensures
            r@ == (PathModel {
                base_path: base_path@,
                resource_type: resource_type@,
                id: None,
                options: Map::empty(),
            }),
    {
        PathBuilder { id: None, base_path, resource_type, inner: OptionSet::new() }
    }

    pub fn new(resource_type: String) -> (r: PathBuilder)
        ensures
            r@ == (PathModel {
                base_path: Seq::empty(),
                resource_type: resource_type@,
                id: None,
                options: Map::empty(),
            }),
    {
        Self::new_with_base(String::new(), resource_type)
    }

    pub fn id(self, id: usize) -> (r: PathBuilder)
        ensures
            r@ == (PathModel { id: Some(id), ..self@ }),
    {
        proof {
            use_type_invariant(&self);
        }
        PathBuilder { id: Some(id), ..self }
    }

    pub fn base_path(self, base_path: String) -> (r: PathBuilder)
        ensures
            r@ == (PathModel { base_path: base_path@, ..self@ }),
    {
        proof {
            use_type_invariant(&self);
        }
        PathBuilder { base_path, ..self }
    }

    /// Stores `value` under `key`, leaving everything else as it is.
    fn with_option(self, key: QueryKey, value: String) -> (r: PathBuilder)
        requires
            all_value_chars(value@),
        ensures
            r@ == self@.with_option(key, value@),
    {
        proof {
            use_type_invariant(&self);
        }
        PathBuilder { inner: self.inner.set(key, value), ..self }
    }

    /// Orders results by `field` in direction `order`: `$orderby=<field> <asc|desc>`,
    /// percent-encoded.
    pub fn order_by(self, field: &str, order: Direction) -> (r: PathBuilder)
        ensures
            r@ == self@.with_option(
                QueryKey::OrderBy,
                url_encoded(field@ + " "@ + direction_name(order)),
            ),
    {
        let text = spaced(field, order.name());
        let value = percent_encode(text.as_str());
        self.with_option(QueryKey::OrderBy, value)
    }

    /// Keeps only the first `count` results: `$top=<count>`.
    pub fn top(self, count: u32) -> (r: PathBuilder)
        ensures
            r@ == self@.with_option(QueryKey::Top, decimal(count as nat)),
    {
        let digits = decimal_string(count as u64);
        proof {
            lemma_decimal_unreserved(count as nat);
        }
        let value = percent_encode(digits.as_str());
        self.with_option(QueryKey::Top, value)
    }

    /// Requests the data in format `format`: `$format=<xml|json>`.
    pub fn format(self, format: Format) -> (r: PathBuilder)
        ensures
            r@ == self@.with_option(QueryKey::Format, format_name(format)),
    {
        proof {
            reveal_strlit("xml");
            reveal_strlit("json");
        }
        self.with_option(QueryKey::Format, String::from_str(format.name()))
    }

    /// Skips the first `count` results: `$skip=<count>`.
    pub fn skip(self, count: u32) -> (r: PathBuilder)
        ensures
            r@ == self@.with_option(QueryKey::Skip, decimal(count as nat)),
    {
        let digits = decimal_string(count as u64);
        proof {
            lemma_decimal_unreserved(count as nat);
        }
        let value = percent_encode(digits.as_str());
        self.with_option(QueryKey::Skip, value)
    }

    /// Asks for an inline count: `$inlinecount=<none|allpages>`.
    pub fn inline_count(self, value: InlineCount) -> (r: PathBuilder)
        ensures
            r@ == self@.with_option(QueryKey::InlineCount, inline_count_name(value)),
    {
        let encoded = percent_encode(value.name());
        self.with_option(QueryKey::InlineCount, encoded)
    }

    /// Filters results by one comparison: `$filter=<field> <op> <value>`,
    /// percent-encoded. A later filter replaces an earlier one.
    pub fn filter(self, field: &str, comparison: Comparison, value: &str) -> (r: PathBuilder)
        ensures
            r@ == self@.with_option(
                QueryKey::Filter,
                url_encoded(field@ + " "@ + comparison_name(comparison) + " "@ + value@),
            ),
    {
        let mut text = spaced(field, comparison.operator());
        text.append(" ");
        text.append(value);
        let encoded = percent_encode(text.as_str());
        self.with_option(QueryKey::Filter, encoded)
    }

    /// Expands the relations `fields`: each is percent-encoded and the list is
    /// joined by commas, then appended to any earlier `$expand` list.
    pub fn expand<const N: usize>(self, fields: [&str; N]) -> (r: PathBuilder)
        ensures
            r@ == self@.with_expand(fields@.map_values(|f: &str| f@)),
    {
        let ghost names = fields@.map_values(|f: &str| f@);
        let mut encoded: Vec<String> = Vec::new();
        let mut i: usize = 0;
        while i < N
            invariant
                i <= N,
                N == fields@.len(),
                names == fields@.map_values(|f: &str| f@),
                encoded@.len() == i,
                forall|j: int|
                    0 <= j < i ==> (#[trigger] encoded@[j])@ == url_encoded(names[j])
                        && all_value_chars(encoded@[j]@),
            decreases N - i,
        {
            encoded.push(percent_encode(fields[i]));
            i = i + 1;
        }
        let list = join_with(&encoded, ",");
        proof {
            let views = encoded@.map_values(|p: String| p@);
            assert(views =~= names.map_values(|f: Seq<char>| url_encoded(f)));
            reveal_strlit(",");
            let vc = |c: char| is_value_char(c);
            assert forall|j: int| 0 <= j < views.len() implies all_chars(#[trigger] views[j], vc) by {
                assert(all_value_chars(encoded@[j]@));
            }
            lemma_join_chars(views, ","@, vc);
        }
        proof {
            use_type_invariant(&self);
            lemma_appended_value_chars(self.inner@, QueryKey::Expand, list@);
        }
        let inner = self.inner.append(QueryKey::Expand, list);
        PathBuilder { inner, ..self }
    }

    /// The path-and-query text:
    /// `<base_path>/<resource_type>[(<id>)]?<query>`.
    pub fn to_path_string(&self) -> (r: String)
        ensures
            r@ == path_text(self@),
            all_path_chars(self@.base_path) ==> path_and_query_accepts(r@) && !r@.contains('#'),
    {
        proof {
            use_type_invariant(self);
            lemma_query_text_chars(self.inner@);
        }
        let resource = percent_encode(self.resource_type.as_str());
        let query = self.inner.to_query();
        compose_path(self.base_path.as_str(), resource.as_str(), self.id, query.as_str())
    }

    /// Builds the path-and-query. It fails only where the text is not a
    /// valid path-and-query, as can happen through the base path.
    pub fn build(&self) -> (r: Result<PathAndQuery, InvalidUri>)
        ensures
            path_and_query_accepts(path_text(self@)) ==> r is Ok,
            r is Ok && path_text(self@).len() <= 65535 ==> path_and_query_accepts(path_text(self@)),
            r is Ok && !path_text(self@).contains('#') ==> path_and_query_text(r->Ok_0) == path_text(
                self@,
            ),
            all_path_chars(self@.base_path) ==> r is Ok && path_and_query_text(r->Ok_0)
                == path_text(self@),
    {
        let text = self.to_path_string();
        proof {
            reveal_strlit("/");
            assert(text@[self@.base_path.len() as int] == '/');
        }
        parse_path_and_query(text.as_str())
    }
}

} // verus!
