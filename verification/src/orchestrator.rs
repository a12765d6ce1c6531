//! The test-orchestration policy: the order in which endpoints, methods and
//! attempts are exercised, and the failure-driven early abort for duplex
//! endpoints.
//!
//! The orchestrator is a step machine. The caller asks which (endpoint,
//! method) pair to dispatch next, performs the request, and hands the
//! recorded outcome back; the machine appends it and decides where to go
//! next. All network work, and the throttle sleep between attempts, happen
//! outside.

use vstd::prelude::*;

use crate::chains::{Chain, ConnectionType};
use crate::methods::RpcMethod;
use crate::rpc::RpcResult;

verus! {

/// What to do after an early total failure of a duplex endpoint's first
/// probe: give up on the endpoint, or keep testing everything regardless.
#[derive(Debug, Clone, Copy, PartialEq, Eq, Structural)]
pub enum AbortPolicy {
    /// A failed first attempt of the first method on a WebSocket endpoint
    /// abandons the whole endpoint.
    EarlyAbort,
    /// Every attempt of every method is executed.
    TestAll,
}

/// Does this outcome trigger the early abort? Only under the early-abort
/// policy, only for a failure, only on the first attempt of the first
/// method, and only against a WebSocket endpoint: a failed first probe is
/// read as an unusable connection rather than an unsupported method.
pub open spec fn heuristic_aborts(
    policy: AbortPolicy,
    kind: ConnectionType,
    method_idx: int,
    attempt_idx: int,
    success: bool,
) -> bool {
    &&& policy is EarlyAbort
    &&& !success
    &&& method_idx == 0
    &&& attempt_idx == 0
    &&& kind is WebSocket
}

/// Drives the cross-product of endpoints, methods and repeated attempts, in
/// order, collecting one outcome per attempt issued.
pub struct TestRun {
    chains: Vec<Chain>,
    methods: Vec<RpcMethod>,
    count: usize,
    policy: AbortPolicy,
    chain_idx: usize,
    method_idx: usize,
    attempt_idx: usize,
    results: Vec<RpcResult>,
}

impl TestRun {
    /// The endpoints under test, in order.
    pub closed spec fn spec_chains(&self) -> Seq<Chain> {
        self.chains@
    }

    /// The methods under test, in catalog order.
    pub closed spec fn spec_methods(&self) -> Seq<RpcMethod> {
        self.methods@
    }

    /// The number of attempts per (endpoint, method) pair.
    pub closed spec fn spec_count(&self) -> int {
        self.count as int
    }

    /// The early-abort policy of this run.
    pub closed spec fn spec_policy(&self) -> AbortPolicy {
        self.policy
    }

    /// The current (endpoint, method, attempt) position.
    pub closed spec fn position(&self) -> (int, int, int) {
        (self.chain_idx as int, self.method_idx as int, self.attempt_idx as int)
    }

    /// The outcomes recorded so far, in issuance order.
    pub closed spec fn results(&self) -> Seq<RpcResult> {
        self.results@
    }

    /// Is the run over? Endpoints are exhausted, or there was nothing to do.
    pub open spec fn done(&self) -> bool {
        self.position().0 == self.spec_chains().len() || self.spec_methods().len() == 0
    }

    /// The machine invariant: the repetition count is in range and the
    /// position of an unfinished run indexes a real attempt.
    pub open spec fn wf(&self) -> bool {
        &&& 1 <= self.spec_count() <= 100
        &&& 0 <= self.position().0 <= self.spec_chains().len()
        &&& !self.done() ==> {
            &&& 0 <= self.position().1 < self.spec_methods().len()
            &&& 0 <= self.position().2 < self.spec_count()
        }
        &&& self.done() ==> self.position().1 == 0 && self.position().2 == 0
    }

    /// Where the run stands after recording an outcome at the current
    /// position: the early abort skips the rest of the endpoint; otherwise
    /// attempts, then methods, then endpoints advance in order.
    pub open spec fn next_position(&self, success: bool) -> (int, int, int) {
        let (c, m, a) = self.position();
        if heuristic_aborts(
            self.spec_policy(),
            self.spec_chains()[c].connection_type,
            m,
            a,
            success,
        ) {
            (c + 1, 0int, 0int)
        } else if a + 1 < self.spec_count() {
            (c, m, a + 1)
        } else if m + 1 < self.spec_methods().len() {
            (c, m + 1, 0int)
        } else {
            (c + 1, 0int, 0int)
        }
    }

    /// Starts a run over the given endpoints and methods with `count`
    /// attempts per pair.
    pub fn new(chains: Vec<Chain>, methods: Vec<RpcMethod>, count: usize, policy: AbortPolicy) -> (t:
        Self)
        requires
            1 <= count <= 100,
        ensures
            t.wf(),
            t.spec_chains() == chains@,
            t.spec_methods() == methods@,
            t.spec_count() == count,
            t.spec_policy() == policy,
            t.position() == (0int, 0int, 0int),
            t.results().len() == 0,
    {
        Self {
            chains,
            methods,
            count,
            policy,
            chain_idx: 0,
            method_idx: 0,
            attempt_idx: 0,
            results: Vec::new(),
        }
    }

    /// The (endpoint index, method index) to dispatch next, or nothing when
    /// the run is over.
    pub fn next_request(&self) -> (r: Option<(usize, usize)>)
        requires
            self.wf(),
        ensures
            r is Some <==> !self.done(),
            r matches Some(p) ==> p.0 == self.position().0 && p.1 == self.position().1,
    {
        if self.chain_idx < self.chains.len() && self.methods.len() > 0 {
            Option::Some((self.chain_idx, self.method_idx))
        } else {
            Option::None
        }
    }

    /// Is the run over?
    pub fn is_done(&self) -> (r: bool)
        ensures
            r == self.done(),
    {
        self.chain_idx == self.chains.len() || self.methods.len() == 0
    }

    /// The endpoint at index `i`.
    pub fn chain_at(&self, i: usize) -> (c: &Chain)
        requires
            0 <= i < self.spec_chains().len(),
        ensures
            *c == self.spec_chains()[i as int],
    {
        &self.chains[i]
    }

    /// The method at index `i`.
    pub fn method_at(&self, i: usize) -> (m: &RpcMethod)
        requires
            0 <= i < self.spec_methods().len(),
        ensures
            *m == self.spec_methods()[i as int],
    {
        &self.methods[i]
    }

    /// The attempt index about to be issued.
    pub fn current_attempt(&self) -> (a: usize)
        ensures
            a == self.position().2,
    {
        self.attempt_idx
    }

    /// Appends the outcome of the attempt just performed and moves to the
    /// next position, applying the early-abort heuristic.
    pub fn record_outcome(&mut self, outcome: RpcResult)
        requires
            old(self).wf(),
            !old(self).done(),
        ensures
            final(self).wf(),
            final(self).spec_chains() == old(self).spec_chains(),
            final(self).spec_methods() == old(self).spec_methods(),
            final(self).spec_count() == old(self).spec_count(),
            final(self).spec_policy() == old(self).spec_policy(),
            final(self).results() == old(self).results().push(outcome),
            final(self).position() == old(self).next_position(outcome.success),
    {
        let n_chains = self.chains.len();
        let n_methods = self.methods.len();
        proof {
            assert(self.chain_idx < n_chains);
            assert(self.method_idx < n_methods);
            assert(self.attempt_idx < self.count);
        }
        let success = outcome.success;
        self.results.push(outcome);
        let is_ws = self.chains[self.chain_idx].connection_type == ConnectionType::WebSocket;
        let aborts = match self.policy {
            AbortPolicy::EarlyAbort => !success && self.method_idx == 0 && self.attempt_idx == 0
                && is_ws,
            AbortPolicy::TestAll => false,
        };
        if aborts {
            self.chain_idx = self.chain_idx + 1;
            self.method_idx = 0;
            self.attempt_idx = 0;
        } else if self.attempt_idx + 1 < self.count {
            self.attempt_idx = self.attempt_idx + 1;
        } else if self.method_idx + 1 < self.methods.len() {
            self.method_idx = self.method_idx + 1;
            self.attempt_idx = 0;
        } else {
            self.chain_idx = self.chain_idx + 1;
            self.method_idx = 0;
            self.attempt_idx = 0;
        }
    }

    /// Ends the run and hands back every recorded outcome, in issuance
    /// order.
    pub fn into_results(self) -> (r: Vec<RpcResult>)
        ensures
            r@ == self.results(),
    {
        self.results
    }
}

} // verus!

