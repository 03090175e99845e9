//! The address book entry of a cluster node: where its API and its
//! inter-node RPC endpoints listen. The cluster engine, storage and
//! networking around it are outside collaborators; only their address data is
//! modelled here.

use vstd::prelude::*;
use vstd::string::StringExecFns;

verus! {

/// The mathematical content of a node address.
pub ghost struct AddrView {
    pub api: Seq<char>,
    pub rpc: Seq<char>,
}

/// The two endpoints of a cluster node.
pub struct Addr {
    /// Address for API access, from outside the cluster.
    api: String,
    /// Address for RPC access, between nodes.
    rpc: String,
}

impl View for Addr {
    type V = AddrView;

    closed spec fn view(&self) -> AddrView {
        AddrView { api: self.api@, rpc: self.rpc@ }
    }
}

impl Addr {
    /// An address from its two endpoints.
    pub fn new(api: String, rpc: String) -> (r: Self)
        ensures
            r@ == (AddrView { api: api@, rpc: rpc@ }),
    {
        Addr { api, rpc }
    }

    /// The API endpoint.
    pub fn api(&self) -> (r: &str)
        ensures
            r@ == self@.api,
    {
        self.api.as_str()
    }

    /// The RPC endpoint.
    pub fn rpc(&self) -> (r: &str)
        ensures
            r@ == self@.rpc,
    {
        self.rpc.as_str()
    }

    /// A readable rendering of the address.
    pub fn display(&self) -> (r: String)
        ensures
            r@ == spec_addr_display(self@),
    {
        let mut r = "Addr { api: \"".to_owned();
        r.append(self.api.as_str());
        r.append("\", rpc: \"");
        r.append(self.rpc.as_str());
        r.append("\" }");
        proof {
            assert(r@ =~= spec_addr_display(self@));
        }
        r
    }
}

/// The readable rendering of an address.
pub open spec fn spec_addr_display(a: AddrView) -> Seq<char> {
    "Addr { api: \""@ + a.api + "\", rpc: \""@ + a.rpc + "\" }"@
}

/// What the clustered key/value state machine answers to a request.
pub struct TremorResponse {
    /// The value involved, where the request concerns one.
    pub value: Option<String>,
}

/// An error of the cluster's key/value interface.
pub enum ApiError {
    /// The state machine misbehaved; the message says how.
    Store(String),
}

/// Decides the answer of a key/value write from the state machine's
/// response: the stored value must have come back, else the store erred.
pub fn write(res: TremorResponse) -> (r: Result<String, ApiError>)
    ensures
        res.value matches Some(v) ==> (r matches Ok(out) && out == v),
        res.value is None ==> (r matches Err(ApiError::Store(m)) && m@
            == "state machine did not return the stored value upon write"@),
{
    match res.value {
        Some(value) => Ok(value),
        None => Err(
            ApiError::Store("state machine did not return the stored value upon write".to_owned()),
        ),
    }
}

impl Clone for Addr {
    /// A clone names the same endpoints.
    fn clone(&self) -> (r: Self)
        ensures
            r@ == self@,
    {
        Addr { api: self.api.clone(), rpc: self.rpc.clone() }
    }
}

impl Default for Addr {
    /// The default address: both endpoints on the local host.
    fn default() -> (r: Self)
        ensures
            r@ == (AddrView { api: "127.0.0.1:8888"@, rpc: "127.0.0.1:9999"@ }),
    {
        Addr { api: "127.0.0.1:8888".to_owned(), rpc: "127.0.0.1:9999".to_owned() }
    }
}

} // verus!
