use vstd::prelude::*;
use crate::client::IopError;
use crate::model::ProductGroup;

verus! {

/// How an optional structured field appeared on the wire.
pub enum WireOptional<T> {
    /// JSON `null`.
    Null,
    /// The empty object `{}`, the platform's way of writing "nothing".
    EmptyObject,
    /// An object of the expected shape.
    Object(T),
    /// Any other value: an array, a scalar, or an object of another shape.
    Other,
}

/// Reads an optional field that the platform writes as `{}` when absent:
/// `{}` and `null` give `None`, an object of the expected shape gives `Some`,
/// anything else is a deserialization error.
pub fn empty_object_as_none<T>(value: WireOptional<T>) -> (r: Result<Option<T>, IopError>)
    ensures
        match value {
            WireOptional::Null => r == Ok::<Option<T>, IopError>(None),
            WireOptional::EmptyObject => r == Ok::<Option<T>, IopError>(None),
            WireOptional::Object(t) => r == Ok::<Option<T>, IopError>(Some(t)),
            WireOptional::Other => r == Err::<Option<T>, IopError>(IopError::DeserializationError),
        },
{
    match value {
        WireOptional::Null => Ok(None),
        WireOptional::EmptyObject => Ok(None),
        WireOptional::Object(t) => Ok(Some(t)),
        WireOptional::Other => Err(IopError::DeserializationError),
    }
}

pub open spec fn is_digit(c: char) -> bool {
    '0' <= c && c <= '9'
}

/// Value of a string of decimal digits.
pub open spec fn digits_value(s: Seq<char>) -> int
    decreases s.len(),
{
    if s.len() == 0 {
        0
    } else {
        digits_value(s.drop_last()) * 10 + (s.last() as int - '0' as int)
    }
}

/// What `i32`'s `from_str` accepts: an optional `+` or `-`, then one or more
/// decimal digits, with a value that fits in an `i32`.
pub open spec fn parsed_i32(s: Seq<char>) -> Option<i32> {
    let neg = s.len() > 0 && s[0] == '-';
    let body = if s.len() > 0 && (s[0] == '-' || s[0] == '+') {
        s.drop_first()
    } else {
        s
    };
    let v = if neg {
        -digits_value(body)
    } else {
        digits_value(body)
    };
    if body.len() > 0 && (forall|i: int| 0 <= i < body.len() ==> is_digit(#[trigger] body[i]))
        && i32::MIN <= v <= i32::MAX {
        Some(v as i32)
    } else {
        None
    }
}

/// Relies on `str::parse::<i32>` (`i32::from_str`), which accepts exactly an
/// optional sign followed by decimal digits whose value fits.
#[verifier::external_body]
fn parse_i32(s: &str) -> (r: Option<i32>)
    ensures
        r == parsed_i32(s@),
{
    s.parse::<i32>().ok()
}

/// A child entry of a product group as the platform sends it: the id is text.
#[derive(Debug, Clone, PartialEq, Eq)]
pub struct ChildrenGroup {
    pub group_id: String,
    pub group_name: String,
}

/// The platform's `java.util._list` wrapper around child entries.
#[derive(Debug, Clone, PartialEq, Eq)]
pub struct ChildrenGroupList {
    pub java_util_list: Vec<ChildrenGroup>,
}

#[derive(Debug, Clone, PartialEq, Eq)]
pub struct ChildrenIdList {
    pub number: Vec<i32>,
}

/// A product group as the platform describes it.
#[derive(Debug, Clone, PartialEq, Eq)]
pub struct ProductGroupDetail {
    pub group_id: i32,
    pub group_name: Option<String>,
    pub children_id_list: Option<ChildrenIdList>,
    pub parent_id: Option<i32>,
    pub children_group: Option<ChildrenGroupList>,
    pub parent_id2: Option<i32>,
}

#[derive(Debug, Clone, PartialEq, Eq)]
pub struct ProductGroupGetResponse {
    pub product_group: ProductGroupDetail,
}

/// Envelope of the product group lookup.
#[derive(Debug, Clone, PartialEq, Eq)]
pub struct ProductGroupResponse {
    pub alibaba_icbu_product_group_get_response: ProductGroupGetResponse,
    pub request_id: Option<String>,
    pub _trace_id_: Option<String>,
}

/// Id text and name of each child entry.
pub open spec fn children_view(s: Seq<ChildrenGroup>) -> Seq<(Seq<char>, Seq<char>)> {
    s.map_values(|c: ChildrenGroup| (c.group_id@, c.group_name@))
}

/// The children kept from `s`: those whose id parses, with the parsed id.
pub open spec fn kept_children(s: Seq<(Seq<char>, Seq<char>)>) -> Seq<(i32, Seq<char>)>
    decreases s.len(),
{
    if s.len() == 0 {
        Seq::empty()
    } else {
        let rest = kept_children(s.drop_last());
        match parsed_i32(s.last().0) {
            Some(id) => rest.push((id, s.last().1)),
            None => rest,
        }
    }
}

/// `r` holds, in order, one childless group for each kept child.
pub open spec fn groups_match(r: Seq<ProductGroup>, kept: Seq<(i32, Seq<char>)>) -> bool {
    &&& r.len() == kept.len()
    &&& forall|i: int|
        0 <= i < r.len() ==> {
            &&& (#[trigger] r[i]).group_id == kept[i].0
            &&& r[i].group_name@ == kept[i].1
            &&& r[i].children is None
        }
}

/// Turns child entries into product groups, dropping entries whose id is not
/// an integer.
pub fn collect_children(list: Vec<ChildrenGroup>) -> (r: Vec<ProductGroup>)
    ensures
        groups_match(r@, kept_children(children_view(list@))),
{
    let ghost v = children_view(list@);
    let mut out: Vec<ProductGroup> = Vec::new();
    let n = list.len();
    let mut i: usize = 0;
    while i < n
        invariant
            n == list@.len(),
            v == children_view(list@),
            i <= n,
            groups_match(out@, kept_children(v.subrange(0, i as int))),
        decreases n - i,
    {
        let c = &list[i];
        let parsed = parse_i32(c.group_id.as_str());
        proof {
            assert(v.subrange(0, i + 1).drop_last() =~= v.subrange(0, i as int));
            assert(v.subrange(0, i + 1).last() == v[i as int]);
        }
        match parsed {
            Some(id) => {
                out.push(ProductGroup { group_id: id, group_name: c.group_name.clone(), children: None });
            },
            None => {},
        }
        i = i + 1;
    }
    assert(v.subrange(0, n as int) =~= v);
    out
}

/// The children of a product group lookup, flattened: empty when the platform
/// sent no children.
pub open spec fn response_children(resp: ProductGroupResponse) -> Seq<(Seq<char>, Seq<char>)> {
    match resp.alibaba_icbu_product_group_get_response.product_group.children_group {
        Some(c) => children_view(c.java_util_list@),
        None => Seq::empty(),
    }
}

/// The child groups listed in a product group lookup, each with no children
/// of its own; entries whose id does not parse are left out.
pub fn product_groups_of(resp: ProductGroupResponse) -> (r: Vec<ProductGroup>)
    ensures
        groups_match(r@, kept_children(response_children(resp))),
{
    match resp.alibaba_icbu_product_group_get_response.product_group.children_group {
        Some(c) => collect_children(c.java_util_list),
        None => Vec::new(),
    }
}

} // verus!
