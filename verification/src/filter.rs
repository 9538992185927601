//! The filter expression model.
//!
//! A filter is a recursive, untagged tree: an atom (one textual token — a
//! field name, an operator, or a literal rendered as text) or an ordered
//! list of sub-filters. On the wire an atom is a JSON string and a list is
//! a JSON array, with no discriminant field, so the tree and its JSON form
//! determine each other exactly. Encoding is total; decoding fails
//! precisely on a JSON value that is neither a string nor an array at some
//! filter position.

use vstd::prelude::*;

use crate::json::JsonValue;
use crate::json::JsonView;
use crate::json::json_view;
use crate::json::json_views;
use crate::json::lemma_json_views;
use crate::json::wire_view;

verus! {

broadcast use vstd::std_specs::vec::group_vec_axioms;

/// Mathematical shape of a filter tree, used by all contracts.
#[verifier::ext_equal]
pub enum FilterView {
    Atom(Seq<char>),
    List(Seq<FilterView>),
}

/// One node of a filter tree: a textual token or a nested list.
#[derive(Debug, Eq)]
pub enum FilterItem {
    S(String),
    V(Vec<FilterItem>),
}

/// A top-level filter: an ordered list of filter nodes.
pub type FilterItems = Vec<FilterItem>;

/// The error raised when decoding meets a JSON value that is neither a
/// string nor an array at a filter position. Encoding never fails.
#[derive(Debug, Clone, Copy, PartialEq, Eq, Structural)]
pub enum DecodeError {
    NotStringOrArray,
}

/// The shape of an executable filter node.
pub open spec fn filter_view(t: FilterItem) -> FilterView
    decreases t,
{
    match t {
        FilterItem::S(s) => FilterView::Atom(s@),
        FilterItem::V(items) => FilterView::List(filter_views(items@)),
    }
}

/// The shapes of a sequence of executable filter nodes, in order.
pub open spec fn filter_views(items: Seq<FilterItem>) -> Seq<FilterView>
    decreases items,
{
    if items.len() == 0 {
        Seq::empty()
    } else {
        filter_views(items.drop_last()).push(filter_view(items.last()))
    }
}

impl DeepView for FilterItem {
    type V = FilterView;

    open spec fn deep_view(&self) -> FilterView {
        filter_view(*self)
    }
}

/// `filter_views` maps the shape of each element, position by position.
pub proof fn lemma_filter_views(items: Seq<FilterItem>)
    ensures
        filter_views(items).len() == items.len(),
        forall|i: int| 0 <= i < items.len() ==> filter_views(items)[i] == filter_view(items[i]),
    decreases items,
{
    if items.len() > 0 {
        lemma_filter_views(items.drop_last());
    }
}

/// The JSON shape a filter tree encodes to: an atom becomes a JSON
/// string holding the same characters; a list becomes a JSON array of
/// the encodings of its children, in order.
pub open spec fn encode_view(t: FilterView) -> JsonView
    decreases t,
{
    match t {
        FilterView::Atom(s) => JsonView::Text(s),
        FilterView::List(items) => JsonView::Array(encode_views(items)),
    }
}

/// The encodings of a sequence of filter trees, in order.
pub open spec fn encode_views(items: Seq<FilterView>) -> Seq<JsonView>
    decreases items,
{
    if items.len() == 0 {
        Seq::empty()
    } else {
        encode_views(items.drop_last()).push(encode_view(items.last()))
    }
}

/// `encode_views` maps the encoding of each element, position by position.
pub proof fn lemma_encode_views(items: Seq<FilterView>)
    ensures
        encode_views(items).len() == items.len(),
        forall|i: int| 0 <= i < items.len() ==> encode_views(items)[i] == encode_view(items[i]),
    decreases items,
{
    if items.len() > 0 {
        lemma_encode_views(items.drop_last());
    }
}

/// Whether a JSON shape lies in the image of the filter grammar: a string,
/// or an array all of whose elements do.
pub open spec fn decode_ok(j: JsonView) -> bool
    decreases j,
{
    match j {
        JsonView::Text(_) => true,
        JsonView::Array(items) => decode_list_ok(items),
        _ => false,
    }
}

/// Whether every element of a sequence of JSON shapes decodes.
pub open spec fn decode_list_ok(items: Seq<JsonView>) -> bool
    decreases items,
{
    items.len() == 0 || (decode_list_ok(items.drop_last()) && decode_ok(items.last()))
}

/// The filter tree a JSON shape decodes to. Meaningful only when
/// `decode_ok` holds of the shape.
pub open spec fn decode_view(j: JsonView) -> FilterView
    recommends
        decode_ok(j),
    decreases j,
{
    match j {
        JsonView::Text(s) => FilterView::Atom(s),
        JsonView::Array(items) => FilterView::List(decode_views(items)),
        _ => FilterView::Atom(Seq::empty()),
    }
}

/// The decodings of a sequence of JSON shapes, in order.
pub open spec fn decode_views(items: Seq<JsonView>) -> Seq<FilterView>
    decreases items,
{
    if items.len() == 0 {
        Seq::empty()
    } else {
        decode_views(items.drop_last()).push(decode_view(items.last()))
    }
}

/// A sequence of JSON shapes decodes exactly when each element does.
pub proof fn lemma_decode_list_ok(items: Seq<JsonView>)
    ensures
        decode_list_ok(items) <==> (forall|i: int|
            0 <= i < items.len() ==> decode_ok(items[i])),
    decreases items,
{
    if items.len() > 0 {
        lemma_decode_list_ok(items.drop_last());
        assert(forall|i: int|
            0 <= i < items.len() - 1 ==> items.drop_last()[i] == items[i]);
        assert(items.last() == items[items.len() - 1]);
    }
}

/// `decode_views` maps the decoding of each element, position by position.
pub proof fn lemma_decode_views(items: Seq<JsonView>)
    ensures
        decode_views(items).len() == items.len(),
        forall|i: int| 0 <= i < items.len() ==> decode_views(items)[i] == decode_view(items[i]),
    decreases items,
{
    if items.len() > 0 {
        lemma_decode_views(items.drop_last());
    }
}

/// Law: the round trip is the identity. Every filter tree decodes back
/// from its own encoding, whatever its depth or width.
pub proof fn lemma_round_trip(t: FilterView)
    ensures
        decode_ok(encode_view(t)),
        decode_view(encode_view(t)) == t,
    decreases t,
{
    match t {
        FilterView::Atom(_) => {},
        FilterView::List(items) => {
            lemma_round_trip_list(items);
        },
    }
}

/// Law: the round trip is the identity on every sequence of filter trees.
pub proof fn lemma_round_trip_list(items: Seq<FilterView>)
    ensures
        decode_list_ok(encode_views(items)),
        decode_views(encode_views(items)) == items,
    decreases items,
{
    if items.len() == 0 {
        assert(decode_views(encode_views(items)) =~= items);
    } else {
        lemma_round_trip_list(items.drop_last());
        lemma_round_trip(items.last());
        assert(encode_views(items).drop_last() =~= encode_views(items.drop_last()));
        assert(decode_views(encode_views(items)) =~= items);
    }
}

/// Law: encoding preserves the variant. An atom encodes to a JSON string
/// holding the same characters; a list encodes to a JSON array of the
/// encodings of its children, in order.
pub proof fn lemma_variant_fidelity(s: Seq<char>, items: Seq<FilterView>)
    ensures
        encode_view(FilterView::Atom(s)) == JsonView::Text(s),
        encode_view(FilterView::List(items)) matches JsonView::Array(elems) && elems.len()
            == items.len() && (forall|i: int|
            0 <= i < items.len() ==> elems[i] == encode_view(items[i])),
{
    lemma_encode_views(items);
}

/// Law: decoding rejects every scalar. A JSON number, boolean, null or
/// object does not decode, and an array with such a value at any position
/// does not decode either.
pub proof fn lemma_decode_rejects_scalars(j: JsonView)
    ensures
        j is Null || j is Bool || j is Number || j is Object ==> !decode_ok(j),
        j matches JsonView::Array(items) && (exists|i: int|
            0 <= i < items.len() && !decode_ok(items[i])) ==> !decode_ok(j),
{
    match j {
        JsonView::Array(items) => lemma_decode_list_ok(items),
        _ => {},
    }
}

impl FilterItem {
    /// Encode this filter tree as a JSON tree. Encoding is total.
    #[verifier::loop_isolation(false)]
    pub fn encode(&self) -> (r: JsonValue)
        ensures
            r.deep_view() == encode_view(self.deep_view()),
        decreases *self,
    {
        match self {
            FilterItem::S(s) => JsonValue::Text(s.clone()),
            FilterItem::V(items) => {
                let mut out: Vec<JsonValue> = Vec::new();
                let n = items.len();
                let mut i: usize = 0;
                while i < n
                    invariant
                        n == items@.len(),
                        i <= n,
                        out@.len() == i,
                        forall|k: int|
                            0 <= k < i ==> json_view(out@[k]) == encode_view(
                                filter_view(items@[k]),
                            ),
                    decreases n - i,
                {
                    proof {
                        assert(decreases_to!(*self => *items));
                        assert(decreases_to!(*items => items@[i as int]));
                    }
                    let child = items[i].encode();
                    out.push(child);
                    i += 1;
                }
                proof {
                    lemma_json_views(out@);
                    lemma_filter_views(items@);
                    lemma_encode_views(filter_views(items@));
                    assert(json_views(out@) =~= encode_views(filter_views(items@)));
                }
                JsonValue::Array(out)
            },
        }
    }

    /// Decode a JSON tree into a filter tree: a string becomes an atom, an
    /// array becomes a list of the decoded elements, and anything else is
    /// rejected with a `DecodeError`.
    #[verifier::loop_isolation(false)]
    pub fn decode(v: &JsonValue) -> (r: Result<FilterItem, DecodeError>)
        ensures
            decode_ok(v.deep_view()) ==> (r matches Ok(t) && t.deep_view() == decode_view(
                v.deep_view(),
            )),
            !decode_ok(v.deep_view()) ==> (r matches Err(e) && e
                == DecodeError::NotStringOrArray),
        decreases *v,
    {
        match v {
            JsonValue::Text(s) => Ok(FilterItem::S(s.clone())),
            JsonValue::Array(items) => {
                let mut out: Vec<FilterItem> = Vec::new();
                let n = items.len();
                let mut i: usize = 0;
                while i < n
                    invariant
                        n == items@.len(),
                        i <= n,
                        out@.len() == i,
                        forall|k: int| 0 <= k < i ==> decode_ok(json_view(items@[k])),
                        forall|k: int|
                            0 <= k < i ==> filter_view(out@[k]) == decode_view(
                                json_view(items@[k]),
                            ),
                    decreases n - i,
                {
                    proof {
                        assert(decreases_to!(*v => *items));
                        assert(decreases_to!(*items => items@[i as int]));
                    }
                    match Self::decode(&items[i]) {
                        Ok(t) => {
                            out.push(t);
                        },
                        Err(e) => {
                            proof {
                                lemma_json_views(items@);
                                lemma_decode_list_ok(json_views(items@));
                                assert(!decode_ok(json_views(items@)[i as int]));
                                assert(!decode_list_ok(json_views(items@)));
                            }
                            return Err(e);
                        },
                    }
                    i += 1;
                }
                proof {
                    lemma_json_views(items@);
                    lemma_decode_list_ok(json_views(items@));
                    lemma_decode_views(json_views(items@));
                    lemma_filter_views(out@);
                    assert(filter_views(out@) =~= decode_views(json_views(items@)));
                }
                Ok(FilterItem::V(out))
            },
            JsonValue::Null | JsonValue::Bool(_) | JsonValue::Number(_)
                | JsonValue::Object(_) => Err(DecodeError::NotStringOrArray),
        }
    }

    /// Build an atom from an unsigned integer, rendered as its plain
    /// decimal text: the wire grammar holds every operand as a JSON
    /// string, so numeric operands are stringified, not rejected.
    pub fn from_u64(n: u64) -> (r: FilterItem)
        ensures
            r.deep_view() == FilterView::Atom(crate::json::dec_rep(n as nat)),
    {
        FilterItem::S(crate::json::u64_to_dec(n))
    }

    /// Build an atom from a boolean, rendered as the wire grammar expects.
    pub fn from_bool(b: bool) -> (r: FilterItem)
        ensures
            b ==> r.deep_view() == FilterView::Atom("true"@),
            !b ==> r.deep_view() == FilterView::Atom("false"@),
    {
        if b {
            FilterItem::S("true".to_owned())
        } else {
            FilterItem::S("false".to_owned())
        }
    }

    /// Build a list of atoms from textual tokens, preserving their order.
    #[verifier::loop_isolation(false)]
    pub fn from_atoms(atoms: &[&str]) -> (r: FilterItem)
        ensures
            r.deep_view() == FilterView::List(
                Seq::new(atoms@.len(), |i: int| FilterView::Atom(atoms@[i]@)),
            ),
    {
        let mut out: Vec<FilterItem> = Vec::new();
        let n = atoms.len();
        let mut i: usize = 0;
        while i < n
            invariant
                n == atoms@.len(),
                i <= n,
                out@.len() == i,
                forall|k: int| 0 <= k < i ==> filter_view(out@[k]) == FilterView::Atom(atoms@[k]@),
            decreases n - i,
        {
            let token: String = atoms[i].to_owned();
            out.push(FilterItem::S(token));
            i += 1;
        }
        proof {
            lemma_filter_views(out@);
            assert(filter_views(out@) =~= Seq::new(
                atoms@.len(),
                |i: int| FilterView::Atom(atoms@[i]@),
            ));
        }
        FilterItem::V(out)
    }
}

/// Structural equality of two filter nodes: same variant, and for lists,
/// children pairwise equal in order.
#[verifier::loop_isolation(false)]
pub fn eq_filter(a: &FilterItem, b: &FilterItem) -> (r: bool)
    ensures
        r == (a.deep_view() == b.deep_view()),
    decreases *a,
{
    match (a, b) {
        (FilterItem::S(x), FilterItem::S(y)) => {
            let r = *x == *y;
            proof {
                assert(a.deep_view() == FilterView::Atom(x@));
                assert(b.deep_view() == FilterView::Atom(y@));
            }
            r
        },
        (FilterItem::V(xs), FilterItem::V(ys)) => {
            proof {
                lemma_filter_views(xs@);
                lemma_filter_views(ys@);
            }
            if xs.len() != ys.len() {
                return false;
            }
            let n = xs.len();
            let mut i: usize = 0;
            while i < n
                invariant
                    n == xs@.len(),
                    n == ys@.len(),
                    i <= n,
                    forall|k: int| 0 <= k < i ==> filter_view(xs@[k]) == filter_view(ys@[k]),
                decreases n - i,
            {
                proof {
                    assert(decreases_to!(*a => *xs));
                    assert(decreases_to!(*xs => xs@[i as int]));
                }
                if !eq_filter(&xs[i], &ys[i]) {
                    proof {
                        assert(filter_views(xs@)[i as int] != filter_views(ys@)[i as int]);
                        assert(filter_views(xs@) != filter_views(ys@));
                    }
                    return false;
                }
                i += 1;
            }
            proof {
                lemma_filter_views(xs@);
                lemma_filter_views(ys@);
                assert(filter_views(xs@) =~= filter_views(ys@));
            }
            true
        },
        (FilterItem::S(_), FilterItem::V(_)) => false,
        (FilterItem::V(_), FilterItem::S(_)) => false,
    }
}

/// Structural copy of a filter tree.
#[verifier::loop_isolation(false)]
fn clone_filter(t: &FilterItem) -> (r: FilterItem)
    ensures
        r.deep_view() == t.deep_view(),
    decreases *t,
{
    match t {
        FilterItem::S(s) => FilterItem::S(s.clone()),
        FilterItem::V(items) => {
            let mut out: Vec<FilterItem> = Vec::new();
            let n = items.len();
            let mut i: usize = 0;
            while i < n
                invariant
                    n == items@.len(),
                    i <= n,
                    out@.len() == i,
                    forall|k: int| 0 <= k < i ==> filter_view(out@[k]) == filter_view(items@[k]),
                decreases n - i,
            {
                proof {
                    assert(decreases_to!(*t => *items));
                    assert(decreases_to!(*items => items@[i as int]));
                }
                let child = clone_filter(&items[i]);
                out.push(child);
                i += 1;
            }
            proof {
                lemma_filter_views(out@);
                lemma_filter_views(items@);
                assert(filter_views(out@) =~= filter_views(items@));
            }
            FilterItem::V(out)
        },
    }
}

impl Clone for FilterItem {
    /// A clone is structurally equal to the original.
    fn clone(&self) -> (r: Self)
        ensures
            r.deep_view() == self.deep_view(),
    {
        clone_filter(self)
    }
}

impl PartialEq for FilterItem {
    fn eq(&self, other: &Self) -> (r: bool) {
        eq_filter(self, other)
    }
}

impl vstd::std_specs::cmp::PartialEqSpecImpl for FilterItem {
    open spec fn obeys_eq_spec() -> bool {
        true
    }

    open spec fn eq_spec(&self, other: &Self) -> bool {
        self.deep_view() == other.deep_view()
    }
}

impl From<String> for FilterItem {
    /// A single textual token becomes an atom.
    fn from(s: String) -> (r: FilterItem) {
        FilterItem::S(s)
    }
}

impl vstd::std_specs::convert::FromSpecImpl<String> for FilterItem {
    open spec fn obeys_from_spec() -> bool {
        true
    }

    open spec fn from_spec(s: String) -> FilterItem {
        FilterItem::S(s)
    }
}

impl From<Vec<FilterItem>> for FilterItem {
    /// An ordered sequence of nodes becomes a list, order preserved.
    fn from(items: Vec<FilterItem>) -> (r: FilterItem) {
        FilterItem::V(items)
    }
}

impl vstd::std_specs::convert::FromSpecImpl<Vec<FilterItem>> for FilterItem {
    open spec fn obeys_from_spec() -> bool {
        true
    }

    open spec fn from_spec(items: Vec<FilterItem>) -> FilterItem {
        FilterItem::V(items)
    }
}


impl FilterItem {
    /// Decode a filter tree from a wire JSON value, by the same untagged
    /// rule as `decode`: the wire value is carried over to a `JsonValue`
    /// tree (a trusted conversion, since the wire type is opaque here),
    /// and `decode` then does the verified work on its shape.
    pub fn from_json(v: serde_json::Value) -> (r: Result<FilterItem, DecodeError>)
        ensures
            decode_ok(wire_view(v)) ==> (r matches Ok(t) && t.deep_view() == decode_view(
                wire_view(v),
            )),
            !decode_ok(wire_view(v)) ==> (r matches Err(e) && e
                == DecodeError::NotStringOrArray),
    {
        let tree = crate::json::json_value_of_wire(&v);
        FilterItem::decode(&tree)
    }
}

} // verus!
