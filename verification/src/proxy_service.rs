//! The request router and the cache synchronizer.
//!
//! [`ProxyService`] decides, for one request, whether it is forwarded
//! upstream, handled locally or refused. [`MakeProxyService`] keeps the
//! routing cache in step with the store and hands out routers that share the
//! snapshot it has installed. Neither touches a socket: the caller reads the
//! request, carries out what was decided and reports what happened.

use crate::authority::{build_upstream_uri, lookup_key, strip_port, upstream_uri};
use crate::db::{asks_for_reload, BusEvent, DBMessage};
use crate::models::{views_of, Tunnel, TunnelView};
use crate::routing::{DuplicatePolicy, Snapshot};
use std::sync::Arc;
use vstd::prelude::*;
use vstd::string::*;

verus! {

/// The request methods the router tells apart.
#[derive(Clone, Copy, Debug, PartialEq, Eq, Structural)]
pub enum Method {
    Get,
    Post,
    /// Any other method.
    Other,
}

/// The `Host` header of a request as it was received.
#[derive(Debug)]
pub enum HostHeader {
    /// The request has no `Host` header.
    Missing,
    /// The header's value is not text.
    Malformed,
    /// The header's value: an authority, with or without a port.
    Value(String),
}

/// What the router reads of a request.
#[derive(Debug)]
pub struct RequestHead {
    pub method: Method,
    pub host: HostHeader,
    /// The path of the request target, starting with `/`.
    pub path: String,
    /// The query of the request target, without the `?`.
    pub query: Option<String>,
}

/// A request in contracts. A `Host` header that is missing or malformed is
/// `None`: both are the same client error.
pub struct RequestView {
    pub method: Method,
    pub host: Option<Seq<char>>,
    pub path: Seq<char>,
    pub query: Option<Seq<char>>,
}

impl View for RequestHead {
    type V = RequestView;

    open spec fn view(&self) -> RequestView {
        RequestView {
            method: self.method,
            host: match self.host {
                HostHeader::Value(h) => Some(h@),
                _ => None,
            },
            path: self.path@,
            query: match self.query {
                Some(q) => Some(q@),
                None => None,
            },
        }
    }
}

/// The responses the library words itself.
#[derive(Clone, Copy, Debug, PartialEq, Eq, Structural)]
pub enum StockResponse {
    /// A removal was accepted.
    Deleted,
    /// The request cannot be understood: no usable `Host` header, or a body
    /// that does not name an id.
    BadRequest,
    /// Nothing is served under the request's method and path.
    NotFound,
    /// The request has a target, but it could not be forwarded there.
    BadGateway,
}

impl StockResponse {
    /// The status code: 200 for an accepted removal, 400, 404 and 502 for the
    /// three failures.
    pub open spec fn spec_status(self) -> u16 {
        match self {
            StockResponse::Deleted => 200,
            StockResponse::BadRequest => 400,
            StockResponse::NotFound => 404,
            StockResponse::BadGateway => 502,
        }
    }

    /// The body's text.
    pub open spec fn spec_body(self) -> Seq<char> {
        match self {
            StockResponse::Deleted => "Ok"@,
            StockResponse::BadRequest => "bad request"@,
            StockResponse::NotFound => "not found"@,
            StockResponse::BadGateway => "bad gateway"@,
        }
    }

    /// Whether the response carries `Access-Control-Allow-Origin: *`. The
    /// administrative answers do.
    pub open spec fn spec_allows_any_origin(self) -> bool {
        self == StockResponse::Deleted
    }

    /// The status code.
    pub fn status(self) -> (code: u16)
        ensures
            code == self.spec_status(),
    {
        match self {
            StockResponse::Deleted => 200,
            StockResponse::BadRequest => 400,
            StockResponse::NotFound => 404,
            StockResponse::BadGateway => 502,
        }
    }

    /// The body's text.
    pub fn body(self) -> (text: String)
        ensures
            text@ == self.spec_body(),
    {
        match self {
            StockResponse::Deleted => String::from_str("Ok"),
            StockResponse::BadRequest => String::from_str("bad request"),
            StockResponse::NotFound => String::from_str("not found"),
            StockResponse::BadGateway => String::from_str("bad gateway"),
        }
    }

    /// Whether the response carries `Access-Control-Allow-Origin: *`.
    pub fn allows_any_origin(self) -> (allowed: bool)
        ensures
            allowed == self.spec_allows_any_origin(),
    {
        match self {
            StockResponse::Deleted => true,
            _ => false,
        }
    }
}

/// A static asset to answer with.
#[derive(Debug)]
pub struct StaticFile {
    /// Where the file lies, relative to the working directory.
    pub location: String,
    /// The value of the `Content-Type` header; empty for an unknown kind.
    pub content_type: String,
}

/// What the local handler does with a request that no rule forwards.
#[derive(Debug)]
pub enum LocalAction {
    /// Answer with the listing as a JSON array of `{id, domain_from,
    /// domain_to}`, in ascending order of id, readable from any origin.
    ListTunnels,
    /// Read the body, which names the id to remove, and go on with
    /// [`ProxyService::delete`].
    DeleteTunnel,
    /// Answer with this file, or with [`ProxyService::not_found`] if it
    /// cannot be opened.
    ServeFile(StaticFile),
    /// Answer with [`ProxyService::not_found`].
    NotFound,
}

/// A [`LocalAction`] in contracts.
pub enum LocalActionView {
    ListTunnels,
    DeleteTunnel,
    ServeFile { location: Seq<char>, content_type: Seq<char> },
    NotFound,
}

impl View for LocalAction {
    type V = LocalActionView;

    open spec fn view(&self) -> LocalActionView {
        match self {
            LocalAction::ListTunnels => LocalActionView::ListTunnels,
            LocalAction::DeleteTunnel => LocalActionView::DeleteTunnel,
            LocalAction::ServeFile(file) => LocalActionView::ServeFile {
                location: file.location@,
                content_type: file.content_type@,
            },
            LocalAction::NotFound => LocalActionView::NotFound,
        }
    }
}

/// How a request is sent on.
#[derive(Debug)]
pub struct ForwardPlan {
    /// The URI the request goes to.
    pub uri: String,
    /// The value of the `Host` header the upstream receives: the target
    /// authority, not the one the client named.
    pub host: String,
}

/// What the router decides for one request.
#[derive(Debug)]
pub enum Dispatch {
    /// Send the request to the mapped target and hand its response back as it
    /// comes; if that fails, answer with [`StockResponse::BadGateway`].
    Forward(ForwardPlan),
    /// No rule matches: the local handler answers.
    Local(LocalAction),
    /// Answer with this response; nothing is forwarded.
    Reject(StockResponse),
}

/// A [`Dispatch`] in contracts.
pub enum DispatchView {
    Forward { uri: Seq<char>, host: Seq<char> },
    Local(LocalActionView),
    Reject(StockResponse),
}

impl View for Dispatch {
    type V = DispatchView;

    open spec fn view(&self) -> DispatchView {
        match self {
            Dispatch::Forward(plan) => DispatchView::Forward { uri: plan.uri@, host: plan.host@ },
            Dispatch::Local(action) => DispatchView::Local(action@),
            Dispatch::Reject(response) => DispatchView::Reject(*response),
        }
    }
}

/// The outcome of a removal request: the command for the persistence actor,
/// if there is one, and the response to the client.
#[derive(Debug)]
pub struct DeleteOutcome {
    pub command: Option<DBMessage>,
    pub response: StockResponse,
}

/// Index `i` holds the last `.` of `text`.
pub open spec fn last_dot_at(text: Seq<char>, i: int) -> bool {
    &&& 0 <= i < text.len()
    &&& text[i] == '.'
    &&& forall|j: int| i < j < text.len() ==> #[trigger] text[j] != '.'
}

/// What follows the last `.` of `text`; all of `text` if it has no `.`.
pub open spec fn extension(text: Seq<char>) -> Seq<char> {
    if exists|i: int| last_dot_at(text, i) {
        text.skip((choose|i: int| last_dot_at(text, i)) + 1)
    } else {
        text
    }
}

/// The content type by which a static asset is served: known for scripts,
/// pages and style sheets, empty for everything else. The extension is
/// compared as it is written.
pub open spec fn content_type_of(location: Seq<char>) -> Seq<char> {
    let ext = extension(location);
    if ext == "js"@ {
        "text/javascript"@
    } else if ext == "html"@ {
        "text/html"@
    } else if ext == "css"@ {
        "text/css"@
    } else {
        Seq::empty()
    }
}

/// Where the static asset for a path lies: below the client's build
/// directory, with the start page standing in for the root. The path is
/// appended as it is written; nothing in it is resolved or refused.
pub open spec fn static_location(path: Seq<char>) -> Seq<char> {
    "./client/dist"@ + if path == "/"@ {
        "/index.html"@
    } else {
        path
    }
}

/// The local handler's rule. The listing and the removal have their fixed
/// method and path; every other `GET` asks for a static asset; nothing else
/// is served.
pub open spec fn local_action(method: Method, path: Seq<char>) -> LocalActionView {
    if method == Method::Get && path == "/api/"@ {
        LocalActionView::ListTunnels
    } else if method == Method::Post && path == "/api/delete/"@ {
        LocalActionView::DeleteTunnel
    } else if method == Method::Get {
        LocalActionView::ServeFile {
            location: static_location(path),
            content_type: content_type_of(static_location(path)),
        }
    } else {
        LocalActionView::NotFound
    }
}

/// Whether hyper's URI parser accepts `text`: the verdict of
/// `text.parse::<hyper::Uri>()`.
pub uninterp spec fn uri_parses(text: Seq<char>) -> bool;

/// What becomes of a request whose `Host` leads to `target`: it is forwarded
/// to the upstream URI if that is one, and refused as a gateway failure if
/// the target does not make one.
pub open spec fn forward_to(target: Seq<char>, uri: Seq<char>, parses: bool) -> DispatchView {
    if parses {
        DispatchView::Forward { uri, host: target }
    } else {
        DispatchView::Reject(StockResponse::BadGateway)
    }
}

/// The router's rule: a request without a usable `Host` is a client error;
/// one whose lookup key the mapping knows is forwarded; every other one goes
/// to the local handler.
pub open spec fn dispatch_of(mapping: Map<Seq<char>, Seq<char>>, req: RequestView) -> DispatchView {
    match req.host {
        None => DispatchView::Reject(StockResponse::BadRequest),
        Some(host) => {
            let key = lookup_key(host);
            if mapping.contains_key(key) {
                let uri = upstream_uri(mapping[key], req.path, req.query);
                forward_to(mapping[key], uri, uri_parses(uri))
            } else {
                DispatchView::Local(local_action(req.method, req.path))
            }
        },
    }
}

/// Asks hyper whether `text` is a URI. The body calls
/// `str::parse::<hyper::Uri>`, that is `<Uri as FromStr>::from_str` of the
/// `http` crate, whose `Uri` hyper hands on under its own name, and reports
/// whether the call returned `Ok`.
///
/// Not proved, but taken from the parser's source: it reads nothing but the
/// bytes of `text` and returns for every input, so its verdict is a function
/// of the text. The contract gives that verdict its name, [`uri_parses`],
/// and claims nothing else of it.
#[verifier::external_body]
fn parses_as_uri(text: &str) -> (ok: bool)
    ensures
        ok == uri_parses(text@),
{
    text.parse::<hyper::Uri>().is_ok()
}

/// The index of the last `.` of `text`, if it has one.
fn last_dot(text: &str) -> (found: Option<usize>)
    ensures
        match found {
            Some(k) => last_dot_at(text@, k as int),
            None => forall|i: int| !last_dot_at(text@, i),
        },
{
    broadcast use vstd::string::group_string_axioms;

    let total: usize = text.unicode_len();
    let mut found: Option<usize> = None;
    let mut i: usize = 0;
    let chars = text.chars();
    for c in it: chars
        invariant
            it.seq() == text@,
            total as nat == text@.len(),
            i == it.index(),
            match found {
                Some(k) => k < i && text@[k as int] == '.' && forall|j: int|
                    k < j < i ==> #[trigger] text@[j] != '.',
                None => forall|j: int| 0 <= j < i ==> #[trigger] text@[j] != '.',
            },
    {
        if c == '.' {
            found = Some(i);
        }
        i = i + 1;
    }
    found
}

/// The content type for the file at `location`.
pub fn content_type_for(location: &str) -> (content_type: String)
    ensures
        content_type@ == content_type_of(location@),
{
    let ext = match last_dot(location) {
        Some(k) => {
            proof {
                let w: int = choose|w: int| last_dot_at(location@, w);
                if w < k {
                    assert(location@[k as int] != '.');
                } else if k < w {
                    assert(location@[w] != '.');
                }
            }
            let total: usize = location.unicode_len();
            location.substring_char(k + 1, total).to_owned()
        },
        None => location.to_owned(),
    };
    if ext == String::from_str("js") {
        String::from_str("text/javascript")
    } else if ext == String::from_str("html") {
        String::from_str("text/html")
    } else if ext == String::from_str("css") {
        String::from_str("text/css")
    } else {
        String::new()
    }
}

/// The static asset that answers a `GET` for `path`.
pub fn static_file(path: &String) -> (file: StaticFile)
    ensures
        file.location@ == static_location(path@),
        file.content_type@ == content_type_of(static_location(path@)),
{
    let mut location = String::from_str("./client/dist");
    if *path == String::from_str("/") {
        location.append("/index.html");
    } else {
        location.append(path.as_str());
    }
    let content_type = content_type_for(location.as_str());
    StaticFile { location, content_type }
}

/// The router of one connection. It reads the snapshot it was made with, as
/// one unit.
pub struct ProxyService {
    snapshot: Arc<Snapshot>,
}

impl ProxyService {
    /// The snapshot this router reads.
    pub closed spec fn snapshot(&self) -> Snapshot {
        *self.snapshot
    }

    /// The snapshot is well formed. This holds of every router that exists
    /// at run time.
    #[verifier::type_invariant]
    pub open spec fn wf(&self) -> bool {
        self.snapshot().wf()
    }

    /// Another handle on the same snapshot; the data is not copied.
    pub fn handle(&self) -> (other: ProxyService)
        ensures
            other.wf(),
            other.snapshot() == self.snapshot(),
    {
        proof {
            use_type_invariant(self);
        }
        ProxyService { snapshot: self.snapshot.clone() }
    }

    /// The full listing of the snapshot, for the administrative display.
    pub fn tunnels(&self) -> (rows: &Vec<Tunnel>)
        ensures
            views_of(rows@) == self.snapshot().listing(),
    {
        self.snapshot.tunnels()
    }

    /// Decides what is done with a request, as [`dispatch_of`] rules over the
    /// snapshot's mapping.
    pub fn call(&self, req: &RequestHead) -> (dispatch: Dispatch)
        ensures
            dispatch@ == dispatch_of(self.snapshot().mapping(), req@),
    {
        match &req.host {
            HostHeader::Value(host) => {
                let key = strip_port(host.as_str());
                match self.snapshot.target(&key) {
                    Some(target) => ProxyService::proxy(req, target),
                    None => Dispatch::Local(ProxyService::http(req)),
                }
            },
            _ => Dispatch::Reject(StockResponse::BadRequest),
        }
    }

    /// Plans the forwarding of a request to `tunnel_host`: the target
    /// authority replaces the one the request named, path and query stay as
    /// they are.
    pub fn proxy(req: &RequestHead, tunnel_host: &String) -> (dispatch: Dispatch)
        ensures
            dispatch@ == forward_to(
                tunnel_host@,
                upstream_uri(tunnel_host@, req@.path, req@.query),
                uri_parses(upstream_uri(tunnel_host@, req@.path, req@.query)),
            ),
    {
        let query = match &req.query {
            Some(q) => Some(q.as_str()),
            None => None,
        };
        let uri = build_upstream_uri(tunnel_host.as_str(), req.path.as_str(), query);
        let parses = parses_as_uri(uri.as_str());
        ProxyService::forward(tunnel_host, uri, parses)
    }

    /// Settles the forwarding once it is known whether the upstream URI parses.
    pub fn forward(tunnel_host: &String, uri: String, parses: bool) -> (dispatch: Dispatch)
        ensures
            dispatch@ == forward_to(tunnel_host@, uri@, parses),
    {
        if parses {
            Dispatch::Forward(ForwardPlan { uri, host: tunnel_host.clone() })
        } else {
            Dispatch::Reject(StockResponse::BadGateway)
        }
    }

    /// The local handler's decision for a request, as [`local_action`] rules.
    pub fn http(req: &RequestHead) -> (action: LocalAction)
        ensures
            action@ == local_action(req.method, req.path@),
    {
        let is_get = match req.method {
            Method::Get => true,
            _ => false,
        };
        let is_post = match req.method {
            Method::Post => true,
            _ => false,
        };
        if is_get && req.path == String::from_str("/api/") {
            LocalAction::ListTunnels
        } else if is_post && req.path == String::from_str("/api/delete/") {
            LocalAction::DeleteTunnel
        } else if is_get {
            LocalAction::ServeFile(static_file(&req.path))
        } else {
            LocalAction::NotFound
        }
    }

    /// Settles a removal request once its body has been decoded: an id is
    /// passed on to the persistence actor and the request is acknowledged at
    /// once, without waiting for the removal; a body that names no id is a
    /// client error and nothing is sent.
    pub fn delete(id: Option<i32>) -> (outcome: DeleteOutcome)
        ensures
            outcome == match id {
                Some(id) => DeleteOutcome {
                    command: Some(DBMessage::Remove(id)),
                    response: StockResponse::Deleted,
                },
                None => DeleteOutcome { command: None, response: StockResponse::BadRequest },
            },
    {
        match id {
            Some(id) => DeleteOutcome {
                command: Some(DBMessage::Remove(id)),
                response: StockResponse::Deleted,
            },
            None => DeleteOutcome { command: None, response: StockResponse::BadRequest },
        }
    }

    /// The response to a request that nothing serves.
    pub fn not_found() -> (response: StockResponse)
        ensures
            response == StockResponse::NotFound,
            response.spec_status() == 404,
            response.spec_body() == "not found"@,
    {
        StockResponse::NotFound
    }

    /// The response to a forwarded request whose target could not be reached
    /// or failed while answering.
    pub fn upstream_failed() -> (response: StockResponse)
        ensures
            response == StockResponse::BadGateway,
            response.spec_status() == 502,
    {
        StockResponse::BadGateway
    }
}

/// What the synchronizer is told.
#[derive(Debug)]
pub enum SyncEvent {
    /// The synchronizer was started.
    Started,
    /// The persistence actor has registered the synchronizer on the change
    /// bus.
    Subscribed,
    /// The change bus delivered this.
    Bus(BusEvent),
    /// The persistence actor answered `GetALl` with these rules.
    Tunnels(Vec<Tunnel>),
    /// The persistence actor cannot be reached.
    ActorGone,
}

/// What the synchronizer asks its caller to do.
#[derive(Clone, Copy, Debug, PartialEq, Eq, Structural)]
pub enum SyncAction {
    /// Send `Subscribe` to the persistence actor, keep the receiver it
    /// answers with, and report that the subscription stands.
    Subscribe,
    /// Send `GetALl` to the persistence actor and report the rules it
    /// answers with.
    Load,
    /// Wait for the change bus and report what it delivers.
    Listen,
    /// A new snapshot is installed: give the routers a handle on it with
    /// [`MakeProxyService::call`], then wait for the change bus again.
    Publish,
    /// Stop. The snapshot installed last stays in use.
    Stop,
}

/// Where the synchronizer stands.
#[derive(Clone, Copy, Debug, PartialEq, Eq, Structural)]
pub enum SyncPhase {
    /// Not started yet.
    Created,
    /// Waiting to be registered on the change bus.
    Subscribing,
    /// Waiting for the change bus.
    Listening,
    /// Waiting for the rules of a full read.
    Loading,
    /// Ended.
    Stopped,
}

/// The synchronizer's rule. It subscribes once, and the change event that
/// every subscription brings makes it load for the first time. From then on
/// each delivery of the bus, a change event or the notice of having fallen
/// behind alike, is answered by one full read; the rules that come back are
/// installed as one snapshot. The end of the bus, the loss of the actor and
/// any event that does not fit the phase stop it.
pub open spec fn sync_transition(phase: SyncPhase, event: SyncEvent) -> (SyncPhase, SyncAction) {
    match (phase, event) {
        (SyncPhase::Created, SyncEvent::Started) => (
            SyncPhase::Subscribing,
            SyncAction::Subscribe,
        ),
        (SyncPhase::Subscribing, SyncEvent::Subscribed) => (
            SyncPhase::Listening,
            SyncAction::Listen,
        ),
        (SyncPhase::Listening, SyncEvent::Bus(delivery)) => if asks_for_reload(delivery) {
            (SyncPhase::Loading, SyncAction::Load)
        } else {
            (SyncPhase::Stopped, SyncAction::Stop)
        },
        (SyncPhase::Loading, SyncEvent::Tunnels(_)) => (SyncPhase::Listening, SyncAction::Publish),
        _ => (SyncPhase::Stopped, SyncAction::Stop),
    }
}

/// The listing of the snapshot that is installed after an event: the rules
/// of a full read when they arrive, and otherwise what was installed before.
pub open spec fn installed_listing(
    phase: SyncPhase,
    event: SyncEvent,
    before: Seq<TunnelView>,
) -> Seq<TunnelView> {
    match (phase, event) {
        (SyncPhase::Loading, SyncEvent::Tunnels(rows)) => views_of(rows@),
        _ => before,
    }
}

/// The cache synchronizer, which owns the routing cache and makes the
/// routers.
pub struct MakeProxyService {
    cache: Arc<Snapshot>,
    policy: DuplicatePolicy,
    phase: SyncPhase,
}

/// One move of the synchronizer, from `pre` to `post`, on `event` and with
/// `action`. Phase and action follow [`sync_transition`]. When the rules of
/// a full read arrive, the mapping and the listing built from them replace
/// the installed snapshot together; on every other event the installed
/// snapshot stays the very same. The policy never changes.
pub open spec fn sync_step(
    pre: MakeProxyService,
    event: SyncEvent,
    post: MakeProxyService,
    action: SyncAction,
) -> bool {
    &&& post.wf()
    &&& post.policy() == pre.policy()
    &&& (post.phase(), action) == sync_transition(pre.phase(), event)
    &&& post.cache().listing() == installed_listing(pre.phase(), event, pre.cache().listing())
    &&& !(pre.phase() == SyncPhase::Loading && event is Tunnels) ==> post.cache() == pre.cache()
}

impl MakeProxyService {
    /// The snapshot that is installed.
    pub closed spec fn cache(&self) -> Snapshot {
        *self.cache
    }

    /// The policy for rows that share a source domain.
    pub closed spec fn policy(&self) -> DuplicatePolicy {
        self.policy
    }

    /// The phase the synchronizer is in.
    pub closed spec fn phase(&self) -> SyncPhase {
        self.phase
    }

    /// The installed snapshot is well formed and was built under the
    /// synchronizer's policy. This holds of every synchronizer that exists
    /// at run time.
    #[verifier::type_invariant]
    pub open spec fn wf(&self) -> bool {
        &&& self.cache().wf()
        &&& self.cache().policy() == self.policy()
    }

    /// A synchronizer that has not started, with an empty cache.
    pub fn new(policy: DuplicatePolicy) -> (make: MakeProxyService)
        ensures
            make.wf(),
            make.policy() == policy,
            make.phase() == SyncPhase::Created,
            make.cache().listing() == Seq::<TunnelView>::empty(),
            make.cache().mapping() == Map::<Seq<char>, Seq<char>>::empty(),
    {
        MakeProxyService {
            cache: Arc::new(Snapshot::empty(policy)),
            policy,
            phase: SyncPhase::Created,
        }
    }

    /// The phase the synchronizer is in.
    pub fn current_phase(&self) -> (phase: SyncPhase)
        ensures
            phase == self.phase(),
    {
        self.phase
    }

    /// Takes one event and says what to do next: one [`sync_step`].
    pub fn listen_db_updates(&mut self, event: SyncEvent) -> (action: SyncAction)
        ensures
            sync_step(*old(self), event, *final(self), action),
    {
        proof {
            use_type_invariant(&*self);
        }
        let phase = self.phase;
        match (phase, event) {
            (SyncPhase::Created, SyncEvent::Started) => {
                self.phase = SyncPhase::Subscribing;
                SyncAction::Subscribe
            },
            (SyncPhase::Subscribing, SyncEvent::Subscribed) => {
                self.phase = SyncPhase::Listening;
                SyncAction::Listen
            },
            (SyncPhase::Listening, SyncEvent::Bus(delivery)) => {
                match delivery {
                    BusEvent::Closed => {
                        self.phase = SyncPhase::Stopped;
                        SyncAction::Stop
                    },
                    _ => {
                        self.phase = SyncPhase::Loading;
                        SyncAction::Load
                    },
                }
            },
            (SyncPhase::Loading, SyncEvent::Tunnels(rows)) => {
                self.cache = Arc::new(Snapshot::build(rows, self.policy));
                self.phase = SyncPhase::Listening;
                SyncAction::Publish
            },
            _ => {
                self.phase = SyncPhase::Stopped;
                SyncAction::Stop
            },
        }
    }

    /// A router that reads the snapshot installed now. The router shares the
    /// snapshot; the data is not copied.
    pub fn call(&self) -> (service: ProxyService)
        ensures
            service.wf(),
            service.snapshot() == self.cache(),
    {
        proof {
            use_type_invariant(self);
        }
        ProxyService { snapshot: self.cache.clone() }
    }
}

} // verus!
