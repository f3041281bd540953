//! The storage bridge: the shapes of backend graph queries and the exact
//! reshaping of their columnar answers for guest code. Building a request
//! and shaping a response are verified here; carrying a request to the
//! backend and back is the dispatcher's job, outside this library.

use vstd::prelude::*;

use crate::codec::{spec_decode_table, spec_pair_count, unwire, DataFrame};
use crate::value::{Column, NamedColumn, Value, ValueView};
use crate::WorkerError;

verus! {

/// A node picked by identifier: integer or text.
#[derive(Clone, Debug, PartialEq)]
pub enum NodeId {
    AsInt(i64),
    AsStr(String),
}

/// A request for a sample of nodes carrying one tag.
#[derive(Clone, Debug, PartialEq)]
pub struct ChoiceNodesRequest {
    pub space_name: String,
    pub tag: String,
    pub number: i32,
}

/// A request for the attributes of one node.
#[derive(Clone, Debug, PartialEq)]
pub struct FetchNodeRequest {
    pub space_name: String,
    pub node_id: NodeId,
    pub tag: String,
    pub keys: Vec<String>,
}

/// A request for a node's neighbors and their attributes.
#[derive(Clone, Debug, PartialEq)]
pub struct FetchNeighborsRequest {
    pub space_name: String,
    pub node_id: NodeId,
    pub tag: String,
    pub keys: Vec<String>,
    pub reversely: bool,
}

/// One queued backend call, consumed exactly once by the dispatcher; the
/// answer travels back on a single-use completion handle the dispatcher
/// pairs with it.
#[derive(Debug)]
pub enum QueryRequest {
    ChoiceNodes(ChoiceNodesRequest),
    FetchNode(FetchNodeRequest),
    FetchNeighbors(FetchNeighborsRequest),
    KvGet { key: String, fields: Vec<String> },
}

/// Whether a guest value can name a node: only 64-bit integers and text
/// are recognized.
pub open spec fn spec_id_kind_ok(v: ValueView) -> bool {
    v matches ValueView::I64(_) || v matches ValueView::Txt(_)
}

/// Builds the sample-nodes request.
pub fn build_choice_nodes(space_name: &str, tag: &str, number: i32) -> (r: ChoiceNodesRequest)
    ensures
        r.space_name@ == space_name@,
        r.tag@ == tag@,
        r.number == number,
{
    ChoiceNodesRequest {
        space_name: String::from_str(space_name),
        tag: String::from_str(tag),
        number,
    }
}

/// Builds the fetch-node request from a guest identifier value; an
/// identifier of any other kind fails the one import call.
pub fn build_fetch_node(space_name: &str, id: &Value, tag: &str, keys: Vec<String>) -> (r: Result<
    FetchNodeRequest,
    WorkerError,
>)
    ensures
        (r is Ok) <==> spec_id_kind_ok(id@),
        r matches Result::Ok(q) ==> q.space_name@ == space_name@ && q.tag@ == tag@ && q.keys
            == keys && (match id@ {
            ValueView::I64(x) => q.node_id == NodeId::AsInt(x),
            ValueView::Txt(s) => q.node_id matches NodeId::AsStr(t) && t@ == s,
            _ => false,
        }),
        r matches Result::Err(e) ==> e == WorkerError::HostImportError,
{
    let node_id = match id {
        Value::I64(x) => NodeId::AsInt(*x),
        Value::Txt(s) => NodeId::AsStr(s.clone()),
        _ => {
            return Err(WorkerError::HostImportError);
        },
    };
    Ok(
        FetchNodeRequest {
            space_name: String::from_str(space_name),
            node_id,
            tag: String::from_str(tag),
            keys,
        },
    )
}

/// Builds the fetch-neighbors request from a guest identifier value; an
/// identifier of any other kind fails the one import call.
pub fn build_fetch_neighbors(
    space_name: &str,
    id: &Value,
    tag: &str,
    keys: Vec<String>,
    reversely: bool,
) -> (r: Result<FetchNeighborsRequest, WorkerError>)
    ensures
        (r is Ok) <==> spec_id_kind_ok(id@),
        r matches Result::Ok(q) ==> q.space_name@ == space_name@ && q.tag@ == tag@ && q.keys
            == keys && q.reversely == reversely && (match id@ {
            ValueView::I64(x) => q.node_id == NodeId::AsInt(x),
            ValueView::Txt(s) => q.node_id matches NodeId::AsStr(t) && t@ == s,
            _ => false,
        }),
        r matches Result::Err(e) ==> e == WorkerError::HostImportError,
{
    let node_id = match id {
        Value::I64(x) => NodeId::AsInt(*x),
        Value::Txt(s) => NodeId::AsStr(s.clone()),
        _ => {
            return Err(WorkerError::HostImportError);
        },
    };
    Ok(
        FetchNeighborsRequest {
            space_name: String::from_str(space_name),
            node_id,
            tag: String::from_str(tag),
            keys,
            reversely,
        },
    )
}

/// Shapes a sample-nodes answer: the first decoded column holds the
/// sampled identifiers; an answer with no columns fails the import call.
pub fn shape_choice_nodes(df: &DataFrame) -> (r: Result<Column, WorkerError>)
    ensures
        (r is Ok) <==> spec_pair_count(df@) > 0,
        r matches Result::Ok(c) ==> c@ == unwire(df@.columns[0]),
        r matches Result::Err(e) ==> e == WorkerError::HostImportError,
{
    if df.headers.len() == 0 || df.columns.len() == 0 {
        return Err(WorkerError::HostImportError);
    }
    let c = match &df.columns[0].values {
        Option::None => Column::Nil,
        Option::Some(c) => c.duplicate(),
    };
    Ok(c)
}

/// Shapes a neighbors answer: the first decoded column holds the
/// neighbor identifiers, the remaining named columns their attributes;
/// an answer with no columns fails the import call.
pub fn shape_neighbors(df: &DataFrame) -> (r: Result<(Column, Vec<NamedColumn>), WorkerError>)
    ensures
        (r is Ok) <==> spec_pair_count(df@) > 0,
        r matches Result::Ok(p) ==> {
            let dec = spec_decode_table(df@);
            &&& p.0@ == dec[0].val
            &&& p.1@.len() == dec.len() - 1
            &&& forall|i: int| 0 <= i < p.1@.len() ==> #[trigger] p.1@[i]@ == dec[i + 1]
        },
        r matches Result::Err(e) ==> e == WorkerError::HostImportError,
{
    let cols = crate::codec::dump_to_imports_table(df);
    proof {
        assert(cols@.len() == crate::codec::cols_view(cols@).len());
        assert(cols@.len() == spec_decode_table(df@).len());
    }
    if cols.len() == 0 {
        return Err(WorkerError::HostImportError);
    }
    let mut attrs: Vec<NamedColumn> = Vec::new();
    let mut i: usize = 1;
    while i < cols.len()
        invariant
            1 <= i <= cols@.len(),
            crate::codec::cols_view(cols@) == spec_decode_table(df@),
            attrs@.len() == i - 1,
            forall|j: int|
                0 <= j < attrs@.len() ==> #[trigger] attrs@[j]@ == spec_decode_table(df@)[j + 1],
        decreases cols@.len() - i,
    {
        attrs.push(cols[i].duplicate());
        i = i + 1;
    }
    let dst = cols[0].val.duplicate();
    proof {
        assert(crate::codec::cols_view(cols@)[0] == cols@[0]@);
    }
    Ok((dst, attrs))
}

} // verus!
