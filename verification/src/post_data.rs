//! The query envelope and its reply.
//!
//! A query is built through `QueryFormatBuilder`: one setter per field,
//! every field defaulted, and `build` consumes the builder so a stale
//! intermediate state cannot be reused. `QueryFormat::to_json` renders the
//! envelope for the wire; an absent `user` is left out of the object
//! entirely, never written as null. `ResponseFormat` decodes the reply,
//! including the optionally echoed compact and normalized filter forms,
//! the latter through the same filter model as the request side.

use vstd::prelude::*;

use crate::filter::FilterItem;
use crate::filter::FilterItems;
use crate::filter::decode_list_ok;
use crate::filter::decode_views;
use crate::filter::encode_views;
use crate::filter::filter_view;
use crate::filter::filter_views;
use crate::filter::lemma_encode_views;
use crate::filter::lemma_filter_views;
use crate::json::JsonValue;
use crate::json::JsonView;
use crate::json::dec_rep;
use crate::json::dec_val;
use crate::json::is_dec_numeral;
use crate::json::json_entry_views;
use crate::json::json_view;
use crate::json::json_views;
use crate::json::lemma_json_entry_views;
use crate::json::lemma_json_views;
use crate::json::dec_to_usize;
use crate::json::u64_to_dec;
use crate::json::wire_view;

verus! {

broadcast use vstd::std_specs::vec::group_vec_axioms;

/// One outgoing query: a filter tree plus pagination, sorting, field
/// selection and the optional target user.
#[derive(Debug, Clone)]
pub struct QueryFormat {
    pub filters: FilterItems,
    pub fields: String,
    pub sort: String,
    pub reverse: bool,
    pub results: usize,
    pub page: usize,
    pub user: Option<String>,
    pub count: bool,
    pub compact_filters: bool,
    pub normalized_filters: bool,
}

/// The builder for `QueryFormat`. Each setter returns the builder for
/// chaining; unset fields keep their documented defaults.
#[derive(Debug)]
pub struct QueryFormatBuilder {
    pub filters: FilterItems,
    pub fields: String,
    pub sort: String,
    pub reverse: bool,
    pub results: usize,
    pub page: usize,
    pub user: Option<String>,
    pub count: bool,
    pub compact_filters: bool,
    pub normalized_filters: bool,
}

/// The documented defaults: no filter, no field selection, sorted by
/// `id` ascending, ten results, first page, no target user, and no
/// count or filter echoes requested.
pub open spec fn is_default_builder(b: QueryFormatBuilder) -> bool {
    &&& b.filters@ =~= Seq::<FilterItem>::empty()
    &&& b.fields@ =~= Seq::<char>::empty()
    &&& b.sort@ == "id"@
    &&& b.reverse == false
    &&& b.results == 10
    &&& b.page == 1
    &&& b.user is None
    &&& b.count == false
    &&& b.compact_filters == false
    &&& b.normalized_filters == false
}

impl QueryFormat {
    /// Start a query from the documented defaults.
    pub fn builder() -> (b: QueryFormatBuilder)
        ensures
            is_default_builder(b),
    {
        QueryFormatBuilder::new()
    }
}

impl QueryFormatBuilder {
    fn new() -> (b: Self)
        ensures
            is_default_builder(b),
    {
        let b = QueryFormatBuilder {
            filters: Vec::new(),
            fields: "".to_owned(),
            sort: "id".to_owned(),
            reverse: false,
            results: 10,
            page: 1,
            user: None,
            count: false,
            compact_filters: false,
            normalized_filters: false,
        };
        proof {
            reveal_strlit("");
        }
        b
    }

    /// Set the filter tree.
    pub fn filters(self, val: FilterItems) -> (r: Self)
        ensures
            r == (QueryFormatBuilder { filters: val, ..self }),
    {
        QueryFormatBuilder { filters: val, ..self }
    }

    /// Set the comma-separated field-selector list.
    pub fn fields(self, val: String) -> (r: Self)
        ensures
            r == (QueryFormatBuilder { fields: val, ..self }),
    {
        QueryFormatBuilder { fields: val, ..self }
    }

    /// Set the sort key.
    pub fn sort(self, val: String) -> (r: Self)
        ensures
            r == (QueryFormatBuilder { sort: val, ..self }),
    {
        QueryFormatBuilder { sort: val, ..self }
    }

    /// Ask for descending order.
    pub fn reverse(self) -> (r: Self)
        ensures
            r == (QueryFormatBuilder { reverse: true, ..self }),
    {
        QueryFormatBuilder { reverse: true, ..self }
    }

    /// Set the page size.
    pub fn results(self, val: usize) -> (r: Self)
        ensures
            r == (QueryFormatBuilder { results: val, ..self }),
    {
        QueryFormatBuilder { results: val, ..self }
    }

    /// Set the 1-based page index.
    pub fn page(self, val: usize) -> (r: Self)
        ensures
            r == (QueryFormatBuilder { page: val, ..self }),
    {
        QueryFormatBuilder { page: val, ..self }
    }

    /// Scope the query to a user.
    pub fn user(self, val: String) -> (r: Self)
        ensures
            r == (QueryFormatBuilder { user: Some(val), ..self }),
    {
        QueryFormatBuilder { user: Some(val), ..self }
    }

    /// Ask for a total count alongside the results.
    pub fn count(self) -> (r: Self)
        ensures
            r == (QueryFormatBuilder { count: true, ..self }),
    {
        QueryFormatBuilder { count: true, ..self }
    }

    /// Ask the server to echo the filters in compact textual form.
    pub fn compact_filters(self) -> (r: Self)
        ensures
            r == (QueryFormatBuilder { compact_filters: true, ..self }),
    {
        QueryFormatBuilder { compact_filters: true, ..self }
    }

    /// Ask the server to echo the filters in normalized tree form.
    pub fn normalized_filters(self) -> (r: Self)
        ensures
            r == (QueryFormatBuilder { normalized_filters: true, ..self }),
    {
        QueryFormatBuilder { normalized_filters: true, ..self }
    }

    /// Finish the query. The builder is consumed, so a partially mutated
    /// builder cannot be reused after building.
    pub fn build(self) -> (q: QueryFormat)
        ensures
            q.filters == self.filters,
            q.fields == self.fields,
            q.sort == self.sort,
            q.reverse == self.reverse,
            q.results == self.results,
            q.page == self.page,
            q.user == self.user,
            q.count == self.count,
            q.compact_filters == self.compact_filters,
            q.normalized_filters == self.normalized_filters,
    {
        QueryFormat {
            filters: self.filters,
            fields: self.fields,
            sort: self.sort,
            reverse: self.reverse,
            results: self.results,
            page: self.page,
            user: self.user,
            count: self.count,
            compact_filters: self.compact_filters,
            normalized_filters: self.normalized_filters,
        }
    }
}

/// The entries of the serialized envelope, in wire order. When `user` is
/// absent it contributes no entry at all.
pub open spec fn envelope_entries(q: QueryFormat) -> Seq<(Seq<char>, JsonView)> {
    let head = seq![
        ("filters"@, JsonView::Array(encode_views(filter_views(q.filters@)))),
        ("fields"@, JsonView::Text(q.fields@)),
        ("sort"@, JsonView::Text(q.sort@)),
        ("reverse"@, JsonView::Bool(q.reverse)),
        ("results"@, JsonView::Number(dec_rep(q.results as nat))),
        ("page"@, JsonView::Number(dec_rep(q.page as nat))),
    ];
    let tail = seq![
        ("count"@, JsonView::Bool(q.count)),
        ("compact_filters"@, JsonView::Bool(q.compact_filters)),
        ("normalized_filters"@, JsonView::Bool(q.normalized_filters)),
    ];
    match q.user {
        Option::None => head + tail,
        Option::Some(u) => head + seq![("user"@, JsonView::Text(u@))] + tail,
    }
}

/// The JSON shape of a serialized envelope.
pub open spec fn envelope_json(q: QueryFormat) -> JsonView {
    JsonView::Object(envelope_entries(q))
}

impl QueryFormat {
    /// Serialize the envelope for the wire. The entries appear in wire
    /// order, and an absent `user` is omitted entirely.
    pub fn to_json(&self) -> (r: JsonValue)
        ensures
            r.deep_view() == envelope_json(*self),
    {
        let mut items: Vec<JsonValue> = Vec::new();
        let n = self.filters.len();
        let mut i: usize = 0;
        while i < n
            invariant
                n == self.filters@.len(),
                i <= n,
                items@.len() == i,
                forall|k: int|
                    0 <= k < i ==> json_view(items@[k]) == crate::filter::encode_view(
                        filter_view(self.filters@[k]),
                    ),
            decreases n - i,
        {
            let child = self.filters[i].encode();
            items.push(child);
            i += 1;
        }
        proof {
            lemma_json_views(items@);
            lemma_filter_views(self.filters@);
            lemma_encode_views(filter_views(self.filters@));
            assert(json_views(items@) =~= encode_views(filter_views(self.filters@)));
        }
        let mut entries: Vec<(String, JsonValue)> = Vec::new();
        entries.push(("filters".to_owned(), JsonValue::Array(items)));
        entries.push(("fields".to_owned(), JsonValue::Text(self.fields.clone())));
        entries.push(("sort".to_owned(), JsonValue::Text(self.sort.clone())));
        entries.push(("reverse".to_owned(), JsonValue::Bool(self.reverse)));
        entries.push(("results".to_owned(), JsonValue::Number(u64_to_dec(self.results as u64))));
        entries.push(("page".to_owned(), JsonValue::Number(u64_to_dec(self.page as u64))));
        match &self.user {
            Some(u) => entries.push(("user".to_owned(), JsonValue::Text(u.clone()))),
            None => {},
        }
        entries.push(("count".to_owned(), JsonValue::Bool(self.count)));
        entries.push(("compact_filters".to_owned(), JsonValue::Bool(self.compact_filters)));
        entries.push(
            ("normalized_filters".to_owned(), JsonValue::Bool(self.normalized_filters)),
        );
        proof {
            lemma_json_entry_views(entries@);
            assert(json_entry_views(entries@) =~= envelope_entries(*self));
        }
        JsonValue::Object(entries)
    }
}

/// What an object holds under a key: the value of the first entry whose
/// key matches, if any.
pub open spec fn obj_get(entries: Seq<(Seq<char>, JsonView)>, key: Seq<char>) -> Option<
    JsonView,
>
    decreases entries.len(),
{
    if entries.len() == 0 {
        None
    } else if entries[0].0 == key {
        Some(entries[0].1)
    } else {
        obj_get(entries.drop_first(), key)
    }
}

/// While the first `i` keys miss, the lookup is decided by the rest.
pub proof fn lemma_obj_get_skip(entries: Seq<(Seq<char>, JsonView)>, key: Seq<char>, i: int)
    requires
        0 <= i <= entries.len(),
        forall|k: int| 0 <= k < i ==> entries[k].0 != key,
    ensures
        obj_get(entries, key) == obj_get(entries.subrange(i, entries.len() as int), key),
    decreases i,
{
    if i == 0 {
        assert(entries.subrange(0, entries.len() as int) =~= entries);
    } else {
        lemma_obj_get_skip(entries, key, i - 1);
        let rest = entries.subrange(i - 1, entries.len() as int);
        assert(rest[0] == entries[i - 1]);
        assert(rest.drop_first() =~= entries.subrange(i, entries.len() as int));
    }
}

/// Law: an envelope built without a user serializes to an object that
/// has no `user` key at all, and one built with a user carries exactly
/// that user under the `user` key.
pub proof fn lemma_user_omission(q: QueryFormat)
    ensures
        q.user is None ==> forall|i: int|
            0 <= i < envelope_entries(q).len() ==> envelope_entries(q)[i].0 != "user"@,
        q.user matches Some(u) ==> obj_get(envelope_entries(q), "user"@) == Some(
            JsonView::Text(u@),
        ),
{
    reveal_strlit("filters");
    reveal_strlit("fields");
    reveal_strlit("sort");
    reveal_strlit("reverse");
    reveal_strlit("results");
    reveal_strlit("page");
    reveal_strlit("user");
    reveal_strlit("count");
    reveal_strlit("compact_filters");
    reveal_strlit("normalized_filters");
    // Two revealed literals differ once a differing length or character
    // is in view; the next two lines put those facts in view for the
    // same-length keys.
    assert("sort"@[0] == 's' && "user"@[0] == 'u');
    assert("page"@[0] == 'p' && "filters"@.len() == 7 && "user"@.len() == 4);
    assert("filters"@ != "user"@);
    assert("fields"@ != "user"@);
    assert("sort"@ != "user"@);
    assert("reverse"@ != "user"@);
    assert("results"@ != "user"@);
    assert("page"@ != "user"@);
    assert("count"@ != "user"@);
    assert("compact_filters"@ != "user"@);
    assert("normalized_filters"@ != "user"@);
    let entries = envelope_entries(q);
    match q.user {
        Option::None => {
            assert(entries.len() == 9);
            assert(entries[0].0 == "filters"@);
            assert(entries[1].0 == "fields"@);
            assert(entries[2].0 == "sort"@);
            assert(entries[3].0 == "reverse"@);
            assert(entries[4].0 == "results"@);
            assert(entries[5].0 == "page"@);
            assert(entries[6].0 == "count"@);
            assert(entries[7].0 == "compact_filters"@);
            assert(entries[8].0 == "normalized_filters"@);
        },
        Option::Some(u) => {
            assert(entries.len() == 10);
            assert(entries[0].0 == "filters"@);
            assert(entries[1].0 == "fields"@);
            assert(entries[2].0 == "sort"@);
            assert(entries[3].0 == "reverse"@);
            assert(entries[4].0 == "results"@);
            assert(entries[5].0 == "page"@);
            assert(entries[6] == ("user"@, JsonView::Text(u@)));
            lemma_obj_get_skip(entries, "user"@, 6);
            let rest = entries.subrange(6, 10);
            assert(rest[0] == entries[6]);
        },
    }
}


/// The error raised when a reply envelope does not have the documented
/// shape (a transport-level decode mismatch, to the caller).
#[derive(Debug, Clone, Copy, PartialEq, Eq, Structural)]
pub enum ResponseError {
    Malformed,
}

/// One decoded reply: the results payload (opaque JSON, its shape varies
/// per queried entity), the paging flag, and the optional echoes.
#[derive(Debug, Clone, PartialEq, Eq)]
pub struct ResponseFormat {
    pub results: JsonValue,
    pub more: bool,
    pub count: Option<usize>,
    pub compact_filters: Option<String>,
    pub normalized_filters: Option<FilterItems>,
}

/// Whether a JSON shape is a well-formed reply envelope: an object with a
/// `results` entry and a boolean `more` entry; `count` absent, null, or a
/// decimal numeral that fits a machine word; `compact_filters` absent,
/// null, or text; `normalized_filters` absent, null, or an array in the
/// filter grammar. Entries under other keys are ignored.
pub open spec fn response_wf(j: JsonView) -> bool {
    &&& j is Object
    &&& obj_get(j->Object_0, "results"@) is Some
    &&& (obj_get(j->Object_0, "more"@) matches Some(m) && m is Bool)
    &&& match obj_get(j->Object_0, "count"@) {
        Option::None => true,
        Option::Some(v) => v is Null || (v matches JsonView::Number(s) && is_dec_numeral(s)
            && dec_val(s) <= usize::MAX),
    }
    &&& match obj_get(j->Object_0, "compact_filters"@) {
        Option::None => true,
        Option::Some(v) => v is Null || v is Text,
    }
    &&& match obj_get(j->Object_0, "normalized_filters"@) {
        Option::None => true,
        Option::Some(v) => v is Null || (v matches JsonView::Array(items) && decode_list_ok(
            items,
        )),
    }
}

/// How a decoded reply relates to the JSON shape it was read from.
pub open spec fn response_matches(resp: ResponseFormat, j: JsonView) -> bool {
    &&& (obj_get(j->Object_0, "results"@) matches Some(rv) && json_view(resp.results) == rv)
    &&& (obj_get(j->Object_0, "more"@) matches Some(JsonView::Bool(b)) && resp.more == b)
    &&& match obj_get(j->Object_0, "count"@) {
        Option::None => resp.count is None,
        Option::Some(v) => if v is Null {
            resp.count is None
        } else {
            v matches JsonView::Number(s) && (resp.count matches Some(c) && c == dec_val(s))
        },
    }
    &&& match obj_get(j->Object_0, "compact_filters"@) {
        Option::None => resp.compact_filters is None,
        Option::Some(v) => if v is Null {
            resp.compact_filters is None
        } else {
            v matches JsonView::Text(s) && (resp.compact_filters matches Some(t) && t@ == s)
        },
    }
    &&& match obj_get(j->Object_0, "normalized_filters"@) {
        Option::None => resp.normalized_filters is None,
        Option::Some(v) => if v is Null {
            resp.normalized_filters is None
        } else {
            v matches JsonView::Array(items) && (resp.normalized_filters matches Some(f)
                && filter_views(f@) == decode_views(items))
        },
    }
}

/// Find the first entry under a key, as `obj_get` does.
#[verifier::loop_isolation(false)]
fn obj_find<'a>(entries: &'a Vec<(String, JsonValue)>, key: &str) -> (r: Option<
    &'a JsonValue,
>)
    ensures
        match obj_get(json_entry_views(entries@), key@) {
            Option::Some(v) => r matches Some(x) && x.deep_view() == v,
            Option::None => r is None,
        },
{
    proof {
        lemma_json_entry_views(entries@);
    }
    let key_owned: String = key.to_owned();
    let n = entries.len();
    let mut i: usize = 0;
    while i < n
        invariant
            n == entries@.len(),
            i <= n,
            key_owned@ == key@,
            forall|k: int| 0 <= k < i ==> entries@[k].0@ != key@,
        decreases n - i,
    {
        if entries[i].0 == key_owned {
            proof {
                let jev = json_entry_views(entries@);
                lemma_obj_get_skip(jev, key@, i as int);
                let rest = jev.subrange(i as int, jev.len() as int);
                assert(rest[0] == jev[i as int]);
            }
            return Some(&entries[i].1);
        }
        i += 1;
    }
    proof {
        let jev = json_entry_views(entries@);
        lemma_obj_get_skip(jev, key@, n as int);
        assert(jev.subrange(n as int, jev.len() as int) =~= Seq::<(
            Seq<char>,
            JsonView,
        )>::empty());
    }
    None
}

impl ResponseFormat {
    /// Decode a reply envelope from a JSON tree. Succeeds exactly on
    /// well-formed replies, and then every field of the result is pinned
    /// to the corresponding entry of the object.
    pub fn decode(j: &JsonValue) -> (r: Result<ResponseFormat, ResponseError>)
        ensures
            response_wf(j.deep_view()) <==> r is Ok,
            r matches Ok(resp) ==> response_matches(resp, j.deep_view()),
            r matches Err(e) ==> e == ResponseError::Malformed,
    {
        let entries = match j {
            JsonValue::Object(es) => es,
            _ => {
                return Err(ResponseError::Malformed);
            },
        };
        let results = match obj_find(entries, "results") {
            Some(v) => v.clone(),
            None => {
                return Err(ResponseError::Malformed);
            },
        };
        let more = match obj_find(entries, "more") {
            Some(JsonValue::Bool(b)) => *b,
            Some(_) => {
                return Err(ResponseError::Malformed);
            },
            None => {
                return Err(ResponseError::Malformed);
            },
        };
        let count = match obj_find(entries, "count") {
            None => None,
            Some(JsonValue::Null) => None,
            Some(JsonValue::Number(s)) => match dec_to_usize(s.as_str()) {
                Some(c) => Some(c),
                None => {
                    return Err(ResponseError::Malformed);
                },
            },
            Some(_) => {
                return Err(ResponseError::Malformed);
            },
        };
        let compact_filters = match obj_find(entries, "compact_filters") {
            None => None,
            Some(JsonValue::Null) => None,
            Some(JsonValue::Text(s)) => Some(s.clone()),
            Some(_) => {
                return Err(ResponseError::Malformed);
            },
        };
        let normalized_filters = match obj_find(entries, "normalized_filters") {
            None => None,
            Some(JsonValue::Null) => None,
            Some(nf) => {
                match nf {
                    JsonValue::Array(_) => {},
                    _ => {
                        return Err(ResponseError::Malformed);
                    },
                }
                match FilterItem::decode(nf) {
                    Ok(FilterItem::V(v)) => Some(v),
                    Ok(FilterItem::S(_)) => {
                        proof {
                            assert(false);
                        }
                        None
                    },
                    Err(_) => {
                        return Err(ResponseError::Malformed);
                    },
                }
            },
        };
        Ok(
            ResponseFormat {
                results,
                more,
                count,
                compact_filters,
                normalized_filters,
            },
        )
    }

    /// Decode a reply envelope from a wire JSON value: the wire value is
    /// carried over to a `JsonValue` tree (a trusted conversion, since
    /// the wire type is opaque here), and `decode` then does the verified
    /// work on its shape.
    pub fn from_json(v: serde_json::Value) -> (r: Result<ResponseFormat, ResponseError>)
        ensures
            response_wf(wire_view(v)) <==> r is Ok,
            r matches Ok(resp) ==> response_matches(resp, wire_view(v)),
            r matches Err(e) ==> e == ResponseError::Malformed,
    {
        let tree = crate::json::json_value_of_wire(&v);
        ResponseFormat::decode(&tree)
    }
}

} // verus!
