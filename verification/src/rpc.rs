//! The request/response protocol: configuration, the error taxonomy, the
//! JSON-RPC request envelope, response classification, the per-attempt
//! outcome record, and the registry of live WebSocket connections.
//!
//! The functions here make every decision of one request/response cycle;
//! the surrounding binary only moves bytes over the network and reports
//! back what arrived.

use vstd::prelude::*;

use crate::chains::Chain;
use crate::text::{dec_digits, digit_char, push_char, string_views, u64_to_dec};

verus! {

/// The stock settings of a run.
pub open spec fn default_config() -> Config {
    Config {
        http_timeout_secs: 10,
        ws_timeout_secs: 15,
        request_delay_ms: 100,
        max_concurrent_requests: 10,
    }
}

/// Fixed settings of a run.
pub struct Config {
    /// Timeout of one HTTP request, in seconds.
    pub http_timeout_secs: u64,
    /// Timeout of one WebSocket round trip, in seconds.
    pub ws_timeout_secs: u64,
    /// Throttle delay between attempts, in milliseconds.
    pub request_delay_ms: u64,
    /// Upper bound on concurrent requests in the optional fan-out mode.
    pub max_concurrent_requests: usize,
}

impl Default for Config {
    /// The stock configuration.
    fn default() -> (c: Self)
        ensures
            c == default_config(),
    {
        Self {
            http_timeout_secs: 10,
            ws_timeout_secs: 15,
            request_delay_ms: 100,
            max_concurrent_requests: 10,
        }
    }
}

/// Everything that can go wrong during one attempt.
#[derive(Debug)]
pub enum RpcError {
    /// Low-level send or receive failure.
    NetworkError(String),
    /// The body could not be parsed as JSON.
    JsonRpcError(String),
    /// A WebSocket transport failure.
    WebSocketError(String),
    /// No response arrived within the configured window.
    TimeoutError(String),
    /// A malformed endpoint address.
    ConfigError(String),
}

impl RpcError {
    /// The rendered error text: a kind prefix followed by the detail.
    pub open spec fn spec_text(&self) -> Seq<char> {
        match self {
            RpcError::NetworkError(m) => "network error: "@ + m@,
            RpcError::JsonRpcError(m) => "json-rpc error: "@ + m@,
            RpcError::WebSocketError(m) => "websocket error: "@ + m@,
            RpcError::TimeoutError(m) => "timeout error: "@ + m@,
            RpcError::ConfigError(m) => "configuration error: "@ + m@,
        }
    }

    /// Renders the error for reports.
    pub fn text(&self) -> (r: String)
        ensures
            r@ == self.spec_text(),
    {
        match self {
            RpcError::NetworkError(m) => {
                let mut s = "network error: ".to_owned();
                s.append(m.as_str());
                s
            },
            RpcError::JsonRpcError(m) => {
                let mut s = "json-rpc error: ".to_owned();
                s.append(m.as_str());
                s
            },
            RpcError::WebSocketError(m) => {
                let mut s = "websocket error: ".to_owned();
                s.append(m.as_str());
                s
            },
            RpcError::TimeoutError(m) => {
                let mut s = "timeout error: ".to_owned();
                s.append(m.as_str());
                s
            },
            RpcError::ConfigError(m) => {
                let mut s = "configuration error: ".to_owned();
                s.append(m.as_str());
                s
            },
        }
    }
}

/// The record of one attempt: produced exactly once per
/// (endpoint, method, attempt) triple, and immutable once created.
#[derive(Debug)]
pub struct RpcResult {
    /// Name of the chain the endpoint belongs to.
    pub chain: String,
    /// Address of the endpoint.
    pub endpoint: String,
    /// Name of the method exercised.
    pub method: String,
    /// Did the attempt yield a response without an error member?
    pub success: bool,
    /// Wall-clock latency from send to classified response, in microseconds;
    /// zero when no response was classified.
    pub latency_us: u64,
    /// The reported reason when the attempt was not a success.
    pub error: Option<String>,
    /// Wall-clock time the outcome was recorded, in milliseconds since the
    /// unix epoch.
    pub timestamp_ms: i64,
}

/// The character for one hexadecimal digit.
pub open spec fn hex_char(d: int) -> char {
    if d < 10 {
        digit_char(d)
    } else if d == 10 {
        'a'
    } else if d == 11 {
        'b'
    } else if d == 12 {
        'c'
    } else if d == 13 {
        'd'
    } else if d == 14 {
        'e'
    } else {
        'f'
    }
}

/// How one character is written inside a JSON string literal.
pub open spec fn escaped_char(c: char) -> Seq<char> {
    if c == '"' {
        seq!['\\', '"']
    } else if c == '\\' {
        seq!['\\', '\\']
    } else if (c as u32) < 0x20 {
        seq!['\\', 'u', '0', '0', hex_char((c as u32) as int / 16), hex_char((c as u32) as int % 16)]
    } else {
        seq![c]
    }
}

/// A text written as the contents of a JSON string literal.
pub open spec fn escape_text(s: Seq<char>) -> Seq<char>
    decreases s.len(),
{
    if s.len() == 0 {
        Seq::<char>::empty()
    } else {
        escape_text(s.drop_last()) + escaped_char(s.last())
    }
}

fn exec_hex_char(d: u32) -> (c: char)
    requires
        d < 16,
    ensures
        c == hex_char(d as int),
{
    if d == 0 {
        '0'
    } else if d == 1 {
        '1'
    } else if d == 2 {
        '2'
    } else if d == 3 {
        '3'
    } else if d == 4 {
        '4'
    } else if d == 5 {
        '5'
    } else if d == 6 {
        '6'
    } else if d == 7 {
        '7'
    } else if d == 8 {
        '8'
    } else if d == 9 {
        '9'
    } else if d == 10 {
        'a'
    } else if d == 11 {
        'b'
    } else if d == 12 {
        'c'
    } else if d == 13 {
        'd'
    } else if d == 14 {
        'e'
    } else {
        'f'
    }
}

/// Escapes `s` for use inside a JSON string literal.
pub fn escape_json(s: &str) -> (r: String)
    ensures
        r@ == escape_text(s@),
{
    let n = s.unicode_len();
    let mut out = String::new();
    let mut i: usize = 0;
    assert(s@.take(0) =~= Seq::<char>::empty());
    while i < n
        invariant
            0 <= i <= n,
            n == s@.len(),
            out@ == escape_text(s@.take(i as int)),
        decreases n - i,
    {
        let c = s.get_char(i);
        proof {
            assert(s@.take(i + 1).drop_last() =~= s@.take(i as int));
            assert(s@.take(i + 1).last() == s@[i as int]);
        }
        if c == '"' {
            push_char(&mut out, '\\');
            push_char(&mut out, '"');
        } else if c == '\\' {
            push_char(&mut out, '\\');
            push_char(&mut out, '\\');
        } else if (c as u32) < 0x20 {
            push_char(&mut out, '\\');
            push_char(&mut out, 'u');
            push_char(&mut out, '0');
            push_char(&mut out, '0');
            push_char(&mut out, exec_hex_char((c as u32) / 16));
            push_char(&mut out, exec_hex_char((c as u32) % 16));
        } else {
            push_char(&mut out, c);
        }
        assert(out@ =~= escape_text(s@.take(i + 1)));
        i = i + 1;
    }
    assert(s@.take(n as int) =~= s@);
    out
}

/// Parameters joined with commas, in order.
pub open spec fn joined_params(params: Seq<Seq<char>>) -> Seq<char>
    decreases params.len(),
{
    if params.len() == 0 {
        Seq::<char>::empty()
    } else if params.len() == 1 {
        params[0]
    } else {
        joined_params(params.drop_last()) + seq![','] + params.last()
    }
}

/// The request envelope sent over either transport: a JSON-RPC call with
/// protocol version 2.0, request id 1, the escaped method name, and the
/// parameters spliced in order into the params array.
pub open spec fn envelope_text(method: Seq<char>, params: Seq<Seq<char>>) -> Seq<char> {
    "{\"jsonrpc\":\"2.0\",\"id\":1,\"method\":\""@ + escape_text(method) + "\",\"params\":["@
        + joined_params(params) + "]}"@
}

/// Builds the request envelope for one method call.
pub fn build_envelope(method: &str, params: &Vec<String>) -> (r: String)
    ensures
        r@ == envelope_text(method@, string_views(params@)),
{
    let ghost views = string_views(params@);
    let mut out = "{\"jsonrpc\":\"2.0\",\"id\":1,\"method\":\"".to_owned();
    let escaped = escape_json(method);
    out.append(escaped.as_str());
    out.append("\",\"params\":[");
    let ghost mid = out@;
    let mut i: usize = 0;
    assert(joined_params(views.take(0)) =~= Seq::<char>::empty());
    assert(out@ =~= mid + joined_params(views.take(0)));
    while i < params.len()
        invariant
            0 <= i <= params@.len(),
            views == string_views(params@),
            views.len() == params@.len(),
            out@ == mid + joined_params(views.take(i as int)),
        decreases params@.len() - i,
    {
        proof {
            assert(views.take(i + 1).drop_last() =~= views.take(i as int));
            assert(views.take(i + 1).last() == views[i as int]);
            assert(views[i as int] == params@[i as int]@);
        }
        if i > 0 {
            out.append(",");
            assert(","@ =~= seq![',']) by {
                reveal_strlit(",");
            }
        }
        out.append(params[i].as_str());
        assert(out@ =~= mid + joined_params(views.take(i + 1)));
        i = i + 1;
    }
    assert(views.take(params@.len() as int) =~= views);
    out.append("]}");
    out
}

/// How a response body reads once parsed.
#[derive(Debug)]
pub enum BodyClass {
    /// The body is not valid JSON; the payload is the parser's message.
    Malformed(String),
    /// A JSON body without a top-level "error" member.
    Success,
    /// A JSON body with a top-level "error" member; the payload is that
    /// member's "message" string when one is present.
    Failure(Option<String>),
}

/// The abstract reading of a `BodyClass`.
pub enum BodyClassView {
    Malformed(Seq<char>),
    Success,
    Failure(Option<Seq<char>>),
}

impl View for BodyClass {
    type V = BodyClassView;

    open spec fn view(&self) -> BodyClassView {
        match self {
            BodyClass::Malformed(t) => BodyClassView::Malformed(t@),
            BodyClass::Success => BodyClassView::Success,
            BodyClass::Failure(m) => BodyClassView::Failure(
                match m {
                    Option::Some(x) => Option::Some(x@),
                    Option::None => Option::None,
                },
            ),
        }
    }
}

/// How a given body text classifies: whether it parses as JSON, whether the
/// parsed value carries a top-level "error" member, and that member's
/// "message" string. A pure function of the body text.
pub uninterp spec fn json_body_class(s: Seq<char>) -> BodyClassView;

/// Relies on serde_json::from_str and serde_json::Value::get / as_str:
/// parsing is deterministic in the body text, a parsed body classifies by
/// its top-level "error" member, and the member's "message" string, when it
/// is a string, is the reported reason.
#[verifier::external_body]
fn classify_body(text: &str) -> (r: BodyClass)
    ensures
        r@ == json_body_class(text@),
{
    match serde_json::from_str::<serde_json::Value>(text) {
        Err(e) => BodyClass::Malformed(format!("{}", e)),
        Ok(v) => match v.get("error") {
            None => BodyClass::Success,
            Some(err) => BodyClass::Failure(
                err.get("message").and_then(|m| m.as_str()).map(|s| s.to_string()),
            ),
        },
    }
}

/// Whether an address parses as a URL, and the parse error reported when it
/// does not. A pure function of the address text.
pub uninterp spec fn url_parse_error(s: Seq<char>) -> Option<Seq<char>>;

/// Relies on url::Url::parse: whether a text parses as a URL, and the error
/// it reports otherwise, are pure functions of the text.
#[verifier::external_body]
fn try_parse_url(s: &str) -> (r: Option<String>)
    ensures
        r is Some <==> url_parse_error(s@) is Some,
        r matches Some(t) ==> url_parse_error(s@) matches Some(v) && t@ == v,
{
    match url::Url::parse(s) {
        Ok(_) => None,
        Err(e) => Some(format!("{}", e)),
    }
}

/// Relies on chrono::Utc::now and DateTime::timestamp_millis: a wall-clock
/// reading; nothing is assumed of the value.
#[verifier::external_body]
fn now_unix_millis() -> i64 {
    chrono::Utc::now().timestamp_millis()
}

/// Checks that `address` can serve as a WebSocket connection target.
/// Succeeds exactly on addresses that parse as URLs; a failure carries the
/// parse error.
pub fn check_connection_address(address: &str) -> (r: Result<(), RpcError>)
    ensures
        r is Ok <==> url_parse_error(address@) is None,
        r matches Err(e) ==> e matches RpcError::ConfigError(m) && (url_parse_error(address@)
            matches Some(v) && m@ == "invalid WebSocket URL: "@ + v),
{
    match try_parse_url(address) {
        Option::None => Ok(()),
        Option::Some(detail) => {
            let mut m = "invalid WebSocket URL: ".to_owned();
            m.append(detail.as_str());
            Err(RpcError::ConfigError(m))
        },
    }
}

/// Do a recorded error text and an abstract optional message agree?
pub open spec fn matches_opt_text(e: Option<String>, m: Option<Seq<char>>) -> bool {
    match (e, m) {
        (Option::None, Option::None) => true,
        (Option::Some(t), Option::Some(v)) => t@ == v,
        _ => false,
    }
}

/// What one classified response body contributes to an outcome record: a
/// parsed body keeps the measured latency and classifies by its "error"
/// member; an unparseable body counts as a failed attempt with zero latency
/// and the parse failure as its reason.
pub open spec fn body_verdict_recorded(r: RpcResult, body: Seq<char>, latency_us: u64) -> bool {
    match json_body_class(body) {
        BodyClassView::Success => r.success && r.latency_us == latency_us && r.error is None,
        BodyClassView::Failure(m) => !r.success && r.latency_us == latency_us && matches_opt_text(
            r.error,
            m,
        ),
        BodyClassView::Malformed(t) => !r.success && r.latency_us == 0 && (r.error matches Some(
            msg,
        ) && msg@ == "json-rpc error: "@ + "failed to parse response: "@ + t),
    }
}

/// A failed outcome whose reason reads `text`.
pub open spec fn failure_recorded(r: RpcResult, text: Seq<char>) -> bool {
    &&& !r.success
    &&& r.latency_us == 0
    &&& r.error matches Some(m) && m@ == text
}

/// The outcome fields that name the attempt.
pub open spec fn outcome_names(
    r: RpcResult,
    chain: Chain,
    method_name: Seq<char>,
) -> bool {
    &&& r.chain@ == chain.name@
    &&& r.endpoint@ == chain.rpc_url@
    &&& r.method@ == method_name
}

/// Records the outcome of an attempt whose response body arrived after
/// `latency_us` microseconds.
pub fn outcome_from_body(chain: &Chain, method_name: &str, body: &str, latency_us: u64) -> (r:
    RpcResult)
    ensures
        outcome_names(r, *chain, method_name@),
        body_verdict_recorded(r, body@, latency_us),
{
    let class = classify_body(body);
    match class {
        BodyClass::Success => RpcResult {
            chain: chain.name.clone(),
            endpoint: chain.rpc_url.clone(),
            method: method_name.to_owned(),
            success: true,
            latency_us,
            error: Option::None,
            timestamp_ms: now_unix_millis(),
        },
        BodyClass::Failure(m) => RpcResult {
            chain: chain.name.clone(),
            endpoint: chain.rpc_url.clone(),
            method: method_name.to_owned(),
            success: false,
            latency_us,
            error: m,
            timestamp_ms: now_unix_millis(),
        },
        BodyClass::Malformed(t) => {
            let mut detail = "failed to parse response: ".to_owned();
            detail.append(t.as_str());
            let err = RpcError::JsonRpcError(detail);
            let text = err.text();
            assert(text@ =~= "json-rpc error: "@ + "failed to parse response: "@ + t@);
            RpcResult {
                chain: chain.name.clone(),
                endpoint: chain.rpc_url.clone(),
                method: method_name.to_owned(),
                success: false,
                latency_us: 0,
                error: Option::Some(text),
                timestamp_ms: now_unix_millis(),
            }
        },
    }
}

/// Records the outcome of an attempt that failed with `error` before any
/// response body was classified.
pub fn outcome_from_error(chain: &Chain, method_name: &str, error: &RpcError) -> (r: RpcResult)
    ensures
        outcome_names(r, *chain, method_name@),
        failure_recorded(r, error.spec_text()),
{
    let text = error.text();
    RpcResult {
        chain: chain.name.clone(),
        endpoint: chain.rpc_url.clone(),
        method: method_name.to_owned(),
        success: false,
        latency_us: 0,
        error: Option::Some(text),
        timestamp_ms: now_unix_millis(),
    }
}

/// What the WebSocket transport reported for one request: exactly one of a
/// text frame, a non-text frame, a stream error, a closed stream, or a
/// timeout.
#[derive(Debug)]
pub enum WsEvent {
    /// A text frame arrived; the payload is its text.
    TextFrame(String),
    /// A frame arrived that is not a text frame.
    NonTextFrame,
    /// The stream reported an error; the payload is its description.
    StreamError(String),
    /// The stream closed before a frame arrived.
    StreamClosed,
    /// No frame arrived within the timeout window.
    TimedOut,
}

/// The reason text recorded for each terminal WebSocket event that carries
/// no response body.
pub open spec fn ws_event_reason(event: WsEvent, timeout_secs: u64) -> Seq<char> {
    match event {
        WsEvent::TextFrame(_) => Seq::<char>::empty(),
        WsEvent::NonTextFrame => "websocket error: "@ + "received a non-text response"@,
        WsEvent::StreamError(d) => "websocket error: "@ + "response error: "@ + d@,
        WsEvent::StreamClosed => "websocket error: "@ + "connection closed"@,
        WsEvent::TimedOut => "timeout error: "@ + "request timed out after "@ + dec_digits(
            timeout_secs as int,
        ) + " s"@,
    }
}

/// Records the outcome of one WebSocket attempt from the terminal event the
/// transport reported. A text frame is classified like an HTTP body; every
/// other event is a failed attempt with zero latency and the event's reason.
pub fn outcome_from_ws_event(
    chain: &Chain,
    method_name: &str,
    event: WsEvent,
    latency_us: u64,
    timeout_secs: u64,
) -> (r: RpcResult)
    ensures
        outcome_names(r, *chain, method_name@),
        event matches WsEvent::TextFrame(body) ==> body_verdict_recorded(r, body@, latency_us),
        !(event is TextFrame) ==> failure_recorded(r, ws_event_reason(event, timeout_secs)),
{
    match event {
        WsEvent::TextFrame(body) => outcome_from_body(chain, method_name, body.as_str(), latency_us),
        WsEvent::NonTextFrame => {
            let err = RpcError::WebSocketError("received a non-text response".to_owned());
            outcome_from_error(chain, method_name, &err)
        },
        WsEvent::StreamError(d) => {
            let mut detail = "response error: ".to_owned();
            detail.append(d.as_str());
            let err = RpcError::WebSocketError(detail);
            let r = outcome_from_error(chain, method_name, &err);
            assert(err.spec_text() =~= "websocket error: "@ + "response error: "@ + d@);
            r
        },
        WsEvent::StreamClosed => {
            let err = RpcError::WebSocketError("connection closed".to_owned());
            outcome_from_error(chain, method_name, &err)
        },
        WsEvent::TimedOut => {
            let mut detail = "request timed out after ".to_owned();
            let secs = u64_to_dec(timeout_secs);
            detail.append(secs.as_str());
            detail.append(" s");
            let err = RpcError::TimeoutError(detail);
            let r = outcome_from_error(chain, method_name, &err);
            assert(err.spec_text() =~= "timeout error: "@ + "request timed out after "@
                + dec_digits(timeout_secs as int) + " s"@);
            r
        },
    }
}

/// The registry of live WebSocket connections: at most one connection per
/// distinct address, created lazily on first use and reused afterwards.
///
/// The registry tracks each connection as an opaque numeric handle chosen
/// by the caller, who owns the sockets themselves; the registry's job is the
/// address-to-connection discipline.
pub struct WebSocketManager {
    addresses: Vec<String>,
    handles: Vec<u64>,
    config: Config,
}

impl WebSocketManager {
    /// The addresses with a live connection, in registration order.
    pub closed spec fn addrs(&self) -> Seq<Seq<char>> {
        string_views(self.addresses@)
    }

    /// The settings used for the duplex path.
    pub closed spec fn spec_config(&self) -> Config {
        self.config
    }

    /// Reads the settings used for the duplex path.
    pub fn config(&self) -> (c: &Config)
        ensures
            *c == self.spec_config(),
    {
        &self.config
    }

    /// The connection handles, parallel to `addrs`.
    pub closed spec fn conn_handles(&self) -> Seq<u64> {
        self.handles@
    }

    /// The registry invariant: one handle per address, and no address twice.
    pub open spec fn wf(&self) -> bool {
        &&& self.addrs().len() == self.conn_handles().len()
        &&& forall|i: int, j: int|
            0 <= i < j < self.addrs().len() ==> self.addrs()[i] != self.addrs()[j]
    }

    /// Is a connection to `a` live?
    pub open spec fn tracks(&self, a: Seq<char>) -> bool {
        self.addrs().contains(a)
    }

    /// Is `h` the handle of the live connection to `a`?
    pub open spec fn handle_for(&self, a: Seq<char>, h: u64) -> bool {
        exists|i: int|
            0 <= i < self.addrs().len() && self.addrs()[i] == a && self.conn_handles()[i] == h
    }

    /// An empty registry.
    pub fn new(config: Config) -> (m: Self)
        ensures
            m.wf(),
            m.addrs().len() == 0,
            m.spec_config() == config,
    {
        let m = Self { addresses: Vec::new(), handles: Vec::new(), config };
        assert(m.addrs() =~= Seq::<Seq<char>>::empty());
        m
    }

    /// The number of live connections.
    pub fn connection_count(&self) -> (n: usize)
        ensures
            n == self.addrs().len(),
    {
        self.addresses.len()
    }

    /// The handle of the live connection to `address`, if there is one. A
    /// present address is always reused: no second connection is made for it.
    pub fn lookup(&self, address: &str) -> (r: Option<u64>)
        requires
            self.wf(),
        ensures
            r is Some <==> self.tracks(address@),
            r matches Some(h) ==> self.handle_for(address@, h),
    {
        let mut i: usize = 0;
        while i < self.addresses.len()
            invariant
                0 <= i <= self.addresses@.len(),
                self.wf(),
                self.addresses@.len() == self.addrs().len(),
                forall|j: int| 0 <= j < i ==> self.addrs()[j] != address@,
            decreases self.addresses@.len() - i,
        {
            assert(self.addrs()[i as int] == self.addresses@[i as int]@);
            if crate::text::str_eq(self.addresses[i].as_str(), address) {
                assert(self.tracks(address@));
                assert(self.handle_for(address@, self.conn_handles()[i as int]));
                return Option::Some(self.handles[i]);
            }
            i = i + 1;
        }
        assert(!self.tracks(address@));
        Option::None
    }

    /// Registers a new live connection to `address` under `handle`. The
    /// address must not be tracked yet: the registry never holds two
    /// connections to one address.
    pub fn register(&mut self, address: &str, handle: u64)
        requires
            old(self).wf(),
            !old(self).tracks(address@),
        ensures
            final(self).wf(),
            final(self).addrs() == old(self).addrs().push(address@),
            final(self).conn_handles() == old(self).conn_handles().push(handle),
            final(self).spec_config() == old(self).spec_config(),
    {
        self.addresses.push(address.to_owned());
        self.handles.push(handle);
        assert(self.addrs() =~= old(self).addrs().push(address@));
        assert(forall|i: int|
            0 <= i < old(self).addrs().len() ==> old(self).addrs()[i] != address@);
    }

    /// Removes every tracked connection and hands back the handles, in
    /// registration order, so the caller can close the sockets. The registry
    /// is empty afterwards.
    pub fn drain_handles(&mut self) -> (hs: Vec<u64>)
        ensures
            final(self).wf(),
            final(self).addrs().len() == 0,
            final(self).spec_config() == old(self).spec_config(),
            hs@ == old(self).conn_handles(),
    {
        let mut taken: Vec<u64> = Vec::new();
        core::mem::swap(&mut taken, &mut self.handles);
        let mut gone: Vec<String> = Vec::new();
        core::mem::swap(&mut gone, &mut self.addresses);
        assert(self.addrs() =~= Seq::<Seq<char>>::empty());
        taken
    }
}

/// Once an address is tracked, its handle is unique: a second request to
/// the same address can only be served by the same connection.
pub proof fn lemma_handle_unique(m: &WebSocketManager, a: Seq<char>, h1: u64, h2: u64)
    requires
        m.wf(),
        m.handle_for(a, h1),
        m.handle_for(a, h2),
    ensures
        h1 == h2,
{
    let i1 = choose|i: int|
        0 <= i < m.addrs().len() && m.addrs()[i] == a && m.conn_handles()[i] == h1;
    let i2 = choose|i: int|
        0 <= i < m.addrs().len() && m.addrs()[i] == a && m.conn_handles()[i] == h2;
    if i1 < i2 {
        assert(m.addrs()[i1] != m.addrs()[i2]);
    } else if i2 < i1 {
        assert(m.addrs()[i2] != m.addrs()[i1]);
    }
}

/// The per-run client state: the WebSocket registry and the settings. The
/// stateless HTTP side needs no record here.
pub struct RpcManager {
    /// Registry of live duplex connections.
    pub ws_manager: WebSocketManager,
    /// Settings of the run.
    pub config: Config,
}

impl RpcManager {
    /// A manager with no live connections.
    pub fn new(config: Config) -> (m: Self)
        ensures
            m.ws_manager.wf(),
            m.ws_manager.addrs().len() == 0,
            m.config == config,
            m.ws_manager.spec_config() == default_config(),
    {
        let ws_manager = WebSocketManager::new(Config::default());
        Self { ws_manager, config }
    }

    /// Ends the run's duplex side: forgets every tracked connection and
    /// hands back the handles so the caller can send close frames.
    pub fn close(&mut self) -> (hs: Vec<u64>)
        ensures
            final(self).ws_manager.wf(),
            final(self).ws_manager.addrs().len() == 0,
            hs@ == old(self).ws_manager.conn_handles(),
            final(self).config == old(self).config,
    {
        self.ws_manager.drain_handles()
    }
}

} // verus!
