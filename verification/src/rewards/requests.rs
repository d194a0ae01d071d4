//! The questions that are put to the protocol about a past block.
use crate::text::{decimal, int32_text, law_trim_end, trim_end, trim_end_char};
use vstd::prelude::*;
use vstd::string::*;

verus! {

/// The method of a request.
#[derive(Clone, Copy, Debug, PartialEq, Eq, Structural)]
pub enum RpcMethod {
    DELETE,
    GET,
    PATCH,
    POST,
    PUT,
}

/// A request to the protocol.
#[derive(Debug)]
pub struct RpcRequest {
    pub body: String,
    pub context_path: String,
    pub meth: RpcMethod,
    pub content_type: Option<String>,
    pub accept: Option<String>,
}

impl RpcRequest {
    /// Whether the request asks for a path and says nothing else.
    pub open spec fn gets(&self, path: Seq<char>) -> bool {
        &&& self.body@ == Seq::<char>::empty()
        &&& self.context_path@ == trim_end(path, '/')
        &&& self.meth == RpcMethod::GET
        &&& self.content_type is None
        &&& self.accept is None
    }

    /// Whether the request asks for a path, but for the slashes at the end of the path, and says
    /// nothing else.
    pub open spec fn asks_for(&self, path: Seq<char>) -> bool {
        let asked = self.context_path@;
        &&& self.body@.len() == 0
        &&& self.meth == RpcMethod::GET
        &&& self.content_type is None
        &&& self.accept is None
        &&& asked.len() <= path.len()
        &&& asked == path.take(asked.len() as int)
        &&& forall|i: int| asked.len() <= i < path.len() ==> #[trigger] path[i] == '/'
        &&& asked.len() > 0 ==> asked.last() != '/'
    }
}

/// A request for a path asks for all of it but for the slashes at its end.
pub proof fn law_request_asks_for_its_path(request: RpcRequest, path: Seq<char>)
    requires
        request.gets(path),
    ensures
        request.asks_for(path),
{
    law_trim_end(path, '/');
}

/// The request for a path.
pub fn get_routed_request(path: &str) -> (r: RpcRequest)
    ensures
        r.gets(path@),
        r.asks_for(path@),
{
    proof {
        law_trim_end(path@, '/');
    }
    RpcRequest {
        body: String::new(),
        context_path: trim_end_char(path, '/').to_owned(),
        meth: RpcMethod::GET,
        content_type: None,
        accept: None,
    }
}

/// The path of a block.
pub open spec fn block_path(level: int) -> Seq<char> {
    "chains/main/blocks/"@ + decimal(level)
}

/// The path that tells which snapshot was drawn for a cycle.
pub open spec fn snapshot_path(level: int, cycle_num: int) -> Seq<char> {
    block_path(level) + "/context/selected_snapshot?cycle="@ + decimal(cycle_num)
}

/// The path that describes a delegate.
pub open spec fn delegate_path(level: int, delegate: Seq<char>) -> Seq<char> {
    block_path(level) + "/context/delegates/"@ + delegate
}

/// The path that tells the balance of a delegator.
pub open spec fn balance_path(level: int, delegator: Seq<char>) -> Seq<char> {
    block_path(level) + "/context/raw/json/contracts/index/"@ + delegator + "/balance"@
}

/// The path of a block.
fn block_path_text(level: i32) -> (r: String)
    ensures
        r@ == block_path(level as int),
{
    "chains/main/blocks/".to_owned().concat(int32_text(level).as_str())
}

/// The request for the snapshot that was drawn for a cycle.
pub fn snapshot_request(level: i32, cycle_num: i32) -> (r: RpcRequest)
    ensures
        r.gets(snapshot_path(level as int, cycle_num as int)),
        r.asks_for(
            "chains/main/blocks/"@ + decimal(level as int) + "/context/selected_snapshot?cycle="@
                + decimal(cycle_num as int),
        ),
{
    let path: String = block_path_text(level).concat("/context/selected_snapshot?cycle=").concat(
        int32_text(cycle_num).as_str(),
    );
    get_routed_request(path.as_str())
}

/// The request for the description of a delegate.
pub fn delegate_request(level: i32, delegate: &str) -> (r: RpcRequest)
    ensures
        r.gets(delegate_path(level as int, delegate@)),
        r.asks_for(
            "chains/main/blocks/"@ + decimal(level as int) + "/context/delegates/"@ + delegate@,
        ),
{
    let path: String = block_path_text(level).concat("/context/delegates/").concat(delegate);
    get_routed_request(path.as_str())
}

/// The request for the balance of a delegator.
pub fn balance_request(level: i32, delegator: &str) -> (r: RpcRequest)
    ensures
        r.gets(balance_path(level as int, delegator@)),
        r.asks_for(
            "chains/main/blocks/"@ + decimal(level as int) + "/context/raw/json/contracts/index/"@
                + delegator@ + "/balance"@,
        ),
{
    let path: String = block_path_text(level).concat(
        "/context/raw/json/contracts/index/",
    ).concat(delegator).concat("/balance");
    get_routed_request(path.as_str())
}

} // verus!
