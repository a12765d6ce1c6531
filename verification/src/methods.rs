//! The catalog of JSON-RPC methods a run can exercise, and name-based
//! filtering of that catalog.
//!
//! A method's parameters are carried as already-rendered JSON text, one
//! string per positional parameter; the dispatcher splices them into the
//! request envelope unchanged.

use vstd::prelude::*;

use crate::text::{split_commas, split_commas_trimmed, trimmed};

verus! {

/// One JSON-RPC method with its positional parameters.
#[derive(Debug, Clone)]
pub struct RpcMethod {
    /// Method name, for example `"eth_blockNumber"`.
    pub name: String,
    /// Positional parameters, each as JSON text.
    pub params: Vec<String>,
    /// Human-readable description.
    pub description: String,
}

impl RpcMethod {
    /// Builds a method record.
    pub fn new(name: &str, params: Vec<String>, description: &str) -> (m: Self)
        ensures
            m.name@ == name@,
            m.params == params,
            m.description@ == description@,
    {
        Self { name: name.to_owned(), params, description: description.to_owned() }
    }
}

/// The names of a sequence of methods, in order.
pub open spec fn method_names(ms: Seq<RpcMethod>) -> Seq<Seq<char>> {
    ms.map_values(|m: RpcMethod| m.name@)
}

/// Names of the client- and hashing-related methods.
pub open spec fn web3_method_names() -> Seq<Seq<char>> {
    seq!["web3_clientVersion"@, "web3_sha3"@]
}

/// Names of the network-status methods.
pub open spec fn net_method_names() -> Seq<Seq<char>> {
    seq!["net_version"@, "net_listening"@, "net_peerCount"@]
}

/// Names of the basic node-state methods.
pub open spec fn eth_basic_method_names() -> Seq<Seq<char>> {
    seq![
        "eth_protocolVersion"@,
        "eth_syncing"@,
        "eth_coinbase"@,
        "eth_mining"@,
        "eth_hashrate"@,
        "eth_gasPrice"@,
        "eth_accounts"@,
        "eth_blockNumber"@,
        "eth_chainId"@,
    ]
}

/// Names of the account- and block-query methods.
pub open spec fn eth_query_method_names() -> Seq<Seq<char>> {
    seq![
        "eth_getBalance"@,
        "eth_getTransactionCount"@,
        "eth_getBlockByNumber"@,
        "eth_getBlockTransactionCountByNumber"@,
        "eth_getUncleCountByBlockNumber"@,
        "eth_getCode"@,
        "eth_getStorageAt"@,
    ]
}

/// Names of the contract-call and log-query methods.
pub open spec fn eth_advanced_method_names() -> Seq<Seq<char>> {
    seq!["eth_call"@, "eth_estimateGas"@, "eth_feeHistory"@, "eth_getLogs"@]
}

/// Names of the full catalog, in catalog order.
pub open spec fn all_method_names() -> Seq<Seq<char>> {
    web3_method_names() + net_method_names() + eth_basic_method_names()
        + eth_query_method_names() + eth_advanced_method_names()
}

/// Names of the small set used for quick runs.
pub open spec fn basic_method_names() -> Seq<Seq<char>> {
    seq![
        "eth_blockNumber"@,
        "eth_gasPrice"@,
        "eth_chainId"@,
        "net_version"@,
        "web3_clientVersion"@,
    ]
}

/// Names of the extended set: the quick set, the query methods, and two
/// status checks.
pub open spec fn extended_method_names() -> Seq<Seq<char>> {
    basic_method_names() + eth_query_method_names() + seq!["eth_syncing"@, "net_listening"@]
}

fn push_method(ms: &mut Vec<RpcMethod>, name: &str, params: Vec<String>, description: &str)
    ensures
        method_names(final(ms)@) =~= method_names(old(ms)@).push(name@),
{
    let m = RpcMethod::new(name, params, description);
    ms.push(m);
}

fn no_params() -> (p: Vec<String>)
    ensures
        p@.len() == 0,
{
    Vec::new()
}

fn one_param(text: &str) -> (p: Vec<String>)
    ensures
        p@.len() == 1,
        p@[0]@ == text@,
{
    let mut p: Vec<String> = Vec::new();
    p.push(text.to_owned());
    p
}

fn two_params(a: &str, b: &str) -> (p: Vec<String>)
    ensures
        p@.len() == 2,
        p@[0]@ == a@,
        p@[1]@ == b@,
{
    let mut p: Vec<String> = Vec::new();
    p.push(a.to_owned());
    p.push(b.to_owned());
    p
}

fn three_params(a: &str, b: &str, c: &str) -> (p: Vec<String>)
    ensures
        p@.len() == 3,
        p@[0]@ == a@,
        p@[1]@ == b@,
        p@[2]@ == c@,
{
    let mut p: Vec<String> = Vec::new();
    p.push(a.to_owned());
    p.push(b.to_owned());
    p.push(c.to_owned());
    p
}

fn get_web3_methods() -> (ms: Vec<RpcMethod>)
    ensures
        method_names(ms@) =~= web3_method_names(),
{
    let mut ms: Vec<RpcMethod> = Vec::new();
    push_method(&mut ms, "web3_clientVersion", no_params(), "client version string");
    push_method(
        &mut ms,
        "web3_sha3",
        one_param("\"0x68656c6c6f20776f726c64\""),
        "Keccak-256 hash of the given data",
    );
    ms
}

fn get_net_methods() -> (ms: Vec<RpcMethod>)
    ensures
        method_names(ms@) =~= net_method_names(),
{
    let mut ms: Vec<RpcMethod> = Vec::new();
    push_method(&mut ms, "net_version", no_params(), "current network id");
    push_method(&mut ms, "net_listening", no_params(), "whether the node accepts connections");
    push_method(&mut ms, "net_peerCount", no_params(), "number of connected peers");
    ms
}

fn get_eth_basic_methods() -> (ms: Vec<RpcMethod>)
    ensures
        method_names(ms@) =~= eth_basic_method_names(),
{
    let mut ms: Vec<RpcMethod> = Vec::new();
    push_method(&mut ms, "eth_protocolVersion", no_params(), "protocol version");
    push_method(&mut ms, "eth_syncing", no_params(), "sync status");
    push_method(&mut ms, "eth_coinbase", no_params(), "mining beneficiary address");
    push_method(&mut ms, "eth_mining", no_params(), "whether the node is mining");
    push_method(&mut ms, "eth_hashrate", no_params(), "mining hash rate");
    push_method(&mut ms, "eth_gasPrice", no_params(), "recommended gas price");
    push_method(&mut ms, "eth_accounts", no_params(), "accounts held by the node");
    push_method(&mut ms, "eth_blockNumber", no_params(), "latest block number");
    push_method(&mut ms, "eth_chainId", no_params(), "chain id");
    ms
}

fn get_eth_query_methods() -> (ms: Vec<RpcMethod>)
    ensures
        method_names(ms@) =~= eth_query_method_names(),
{
    let mut ms: Vec<RpcMethod> = Vec::new();
    push_method(
        &mut ms,
        "eth_getBalance",
        two_params("\"0xd8dA6BF26964aF9D7eEd9e03E53415D37aA96045\"", "\"latest\""),
        "balance of a well-known account",
    );
    push_method(
        &mut ms,
        "eth_getTransactionCount",
        two_params("\"0xd8dA6BF26964aF9D7eEd9e03E53415D37aA96045\"", "\"latest\""),
        "transaction count of a well-known account",
    );
    push_method(
        &mut ms,
        "eth_getBlockByNumber",
        two_params("\"latest\"", "false"),
        "latest block without full transactions",
    );
    push_method(
        &mut ms,
        "eth_getBlockTransactionCountByNumber",
        one_param("\"latest\""),
        "transaction count of the latest block",
    );
    push_method(
        &mut ms,
        "eth_getUncleCountByBlockNumber",
        one_param("\"latest\""),
        "uncle count of the latest block",
    );
    push_method(
        &mut ms,
        "eth_getCode",
        two_params("\"0x6b175474e89094c44da98b954eedeac495271d0f\"", "\"latest\""),
        "bytecode of a well-known contract",
    );
    push_method(
        &mut ms,
        "eth_getStorageAt",
        three_params("\"0x6b175474e89094c44da98b954eedeac495271d0f\"", "\"0x0\"", "\"latest\""),
        "first storage slot of a well-known contract",
    );
    ms
}

fn get_eth_advanced_methods() -> (ms: Vec<RpcMethod>)
    ensures
        method_names(ms@) =~= eth_advanced_method_names(),
{
    let mut ms: Vec<RpcMethod> = Vec::new();
    push_method(
        &mut ms,
        "eth_call",
        two_params(
            "{\"to\":\"0x6b175474e89094c44da98b954eedeac495271d0f\",\"data\":\"0x06fdde03\"}",
            "\"latest\"",
        ),
        "read-only contract call",
    );
    push_method(
        &mut ms,
        "eth_estimateGas",
        one_param(
            "{\"to\":\"0x6b175474e89094c44da98b954eedeac495271d0f\",\"data\":\"0x06fdde03\"}",
        ),
        "gas estimate for a contract call",
    );
    push_method(
        &mut ms,
        "eth_feeHistory",
        three_params("\"0x1\"", "\"latest\"", "[25,50,75]"),
        "recent fee history",
    );
    push_method(
        &mut ms,
        "eth_getLogs",
        one_param(
            "{\"fromBlock\":\"latest\",\"toBlock\":\"latest\",\"address\":\"0x6b175474e89094c44da98b954eedeac495271d0f\",\"topics\":[]}",
        ),
        "event logs of the latest block",
    );
    ms
}

/// The full method catalog, in catalog order.
pub fn get_all_methods() -> (ms: Vec<RpcMethod>)
    ensures
        method_names(ms@) =~= all_method_names(),
{
    let mut ms = get_web3_methods();
    let mut more = get_net_methods();
    ms.append(&mut more);
    let mut more = get_eth_basic_methods();
    ms.append(&mut more);
    let mut more = get_eth_query_methods();
    ms.append(&mut more);
    let mut more = get_eth_advanced_methods();
    ms.append(&mut more);
    assert(method_names(ms@) =~= all_method_names());
    ms
}

/// The small method set for quick runs.
pub fn get_basic_methods() -> (ms: Vec<RpcMethod>)
    ensures
        method_names(ms@) =~= basic_method_names(),
{
    let mut ms: Vec<RpcMethod> = Vec::new();
    push_method(&mut ms, "eth_blockNumber", no_params(), "latest block number");
    push_method(&mut ms, "eth_gasPrice", no_params(), "recommended gas price");
    push_method(&mut ms, "eth_chainId", no_params(), "chain id");
    push_method(&mut ms, "net_version", no_params(), "current network id");
    push_method(&mut ms, "web3_clientVersion", no_params(), "client version string");
    ms
}

/// The extended method set: the quick set plus the query methods and two
/// status checks.
pub fn get_extended_methods() -> (ms: Vec<RpcMethod>)
    ensures
        method_names(ms@) =~= extended_method_names(),
{
    let mut ms = get_basic_methods();
    let mut more = get_eth_query_methods();
    ms.append(&mut more);
    push_method(&mut ms, "eth_syncing", no_params(), "sync status");
    push_method(&mut ms, "net_listening", no_params(), "whether the node accepts connections");
    assert(method_names(ms@) =~= extended_method_names());
    ms
}

/// Does one of the strings in `names` read as `n`?
pub open spec fn name_listed(names: Seq<String>, n: Seq<char>) -> bool {
    exists|j: int| 0 <= j < names.len() && names[j]@ == n
}

/// Is `n` one of the comma-separated, whitespace-trimmed pieces of `request`?
pub open spec fn piece_listed(request: Seq<char>, n: Seq<char>) -> bool {
    exists|j: int|
        0 <= j < split_commas(request).len() && #[trigger] trimmed(split_commas(request)[j]) == n
}

/// The methods of `ms`, in order, whose name occurs in `names`.
pub open spec fn methods_with_listed_names(ms: Seq<RpcMethod>, names: Seq<String>) -> Seq<
    RpcMethod,
> {
    ms.filter(|m: RpcMethod| name_listed(names, m.name@))
}

fn contains_name(names: &Vec<String>, name: &String) -> (r: bool)
    ensures
        r == name_listed(names@, name@),
{
    let mut i: usize = 0;
    while i < names.len()
        invariant
            0 <= i <= names@.len(),
            forall|j: int| 0 <= j < i ==> names@[j]@ != name@,
        decreases names@.len() - i,
    {
        if names[i] == *name {
            assert(name_listed(names@, name@));
            return true;
        }
        i = i + 1;
    }
    false
}

/// Keeps, in order, the methods whose name occurs in `names`.
pub fn filter_methods(all: Vec<RpcMethod>, names: &Vec<String>) -> (r: Vec<RpcMethod>)
    ensures
        r@ == methods_with_listed_names(all@, names@),
{
    broadcast use vstd::prelude::Seq::lemma_filter_push;

    let ghost orig = all@;
    let mut rest = all;
    let mut r: Vec<RpcMethod> = Vec::new();
    let ghost i: int = 0;
    assert(orig.take(0) =~= Seq::<RpcMethod>::empty());
    assert(methods_with_listed_names(orig.take(0), names@) =~= Seq::<RpcMethod>::empty()) by {
        reveal(Seq::filter);
    }
    while rest.len() > 0
        invariant
            0 <= i <= orig.len(),
            rest@ =~= orig.skip(i),
            r@ =~= methods_with_listed_names(orig.take(i), names@),
        decreases rest@.len(),
    {
        let m = rest.remove(0);
        assert(m == orig[i]);
        let keep = contains_name(names, &m.name);
        proof {
            broadcast use vstd::prelude::Seq::lemma_filter_push;

            assert(orig.take(i + 1) =~= orig.take(i).push(orig[i]));
            assert(methods_with_listed_names(orig.take(i).push(m), names@) == if name_listed(
                names@,
                m.name@,
            ) {
                methods_with_listed_names(orig.take(i), names@).push(m)
            } else {
                methods_with_listed_names(orig.take(i), names@)
            });
        }
        if keep {
            r.push(m);
        }
        proof {
            assert(rest@ =~= orig.skip(i + 1));
            i = i + 1;
        }
    }
    assert(orig.take(orig.len() as int) =~= orig);
    r
}

/// The catalog names that occur among the comma-separated,
/// whitespace-trimmed pieces of the request, in catalog order.
pub open spec fn selected_names(catalog: Seq<Seq<char>>, request: Seq<char>) -> Seq<Seq<char>> {
    catalog.filter(|n: Seq<char>| piece_listed(request, n))
}

proof fn lemma_selected_method_names(ms: Seq<RpcMethod>, names: Seq<String>, request: Seq<char>)
    requires
        forall|n: Seq<char>| #[trigger] name_listed(names, n) == piece_listed(request, n),
    ensures
        method_names(methods_with_listed_names(ms, names)) =~= selected_names(
            method_names(ms),
            request,
        ),
    decreases ms.len(),
{
    reveal(Seq::filter);
    if ms.len() == 0 {
        assert(method_names(ms) =~= Seq::<Seq<char>>::empty());
        assert(method_names(methods_with_listed_names(ms, names)) =~= Seq::<Seq<char>>::empty());
    } else {
        let prefix = ms.drop_last();
        let m = ms.last();
        lemma_selected_method_names(prefix, names, request);
        assert(method_names(ms).drop_last() =~= method_names(prefix));
        assert(method_names(ms).last() == m.name@);
        if name_listed(names, m.name@) {
            assert(methods_with_listed_names(ms, names) == methods_with_listed_names(
                prefix,
                names,
            ).push(m));
            assert(method_names(methods_with_listed_names(prefix, names).push(m)) =~= method_names(
                methods_with_listed_names(prefix, names),
            ).push(m.name@));
            assert(selected_names(method_names(ms), request) == selected_names(
                method_names(prefix),
                request,
            ).push(m.name@));
        } else {
            assert(methods_with_listed_names(ms, names) == methods_with_listed_names(
                prefix,
                names,
            ));
            assert(selected_names(method_names(ms), request) == selected_names(
                method_names(prefix),
                request,
            ));
        }
    }
}

/// The catalog restricted to the method names listed, comma-separated, in
/// `methods_str`; surrounding whitespace around each listed name is ignored.
pub fn get_filtered_methods(methods_str: &str) -> (r: Vec<RpcMethod>)
    ensures
        method_names(r@) =~= selected_names(all_method_names(), methods_str@),
{
    let names = split_commas_trimmed(methods_str);
    let all = get_all_methods();
    let ghost catalog = all@;
    let r = filter_methods(all, &names);
    proof {
        assert forall|n: Seq<char>| #[trigger]
            name_listed(names@, n) == piece_listed(methods_str@, n) by {
            if name_listed(names@, n) {
                let j = choose|j: int| 0 <= j < names@.len() && names@[j]@ == n;
                assert(trimmed(split_commas(methods_str@)[j]) == n);
                assert(piece_listed(methods_str@, n));
            }
            if piece_listed(methods_str@, n) {
                let j = choose|j: int|
                    0 <= j < split_commas(methods_str@).len() && #[trigger] trimmed(
                        split_commas(methods_str@)[j],
                    ) == n;
                assert(names@[j]@ == n);
                assert(name_listed(names@, n));
            }
        }
        lemma_selected_method_names(catalog, names@, methods_str@);
        assert(selected_names(method_names(catalog), methods_str@) == selected_names(
            all_method_names(),
            methods_str@,
        )) by {
            assert(method_names(catalog) =~= all_method_names());
        }
    }
    r
}

} // verus!

