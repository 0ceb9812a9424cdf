//! The request dispatcher: tunnels for `CONNECT`, authenticated forwarding
//! for every other method.
//!
//! Which methods must present credentials is a policy, and `Proxy::proxy`
//! is the one place that holds it: every method but `CONNECT`. The exemption
//! of `CONNECT` is deliberate and it is a weakness: tunnels are open to every
//! client that reaches the proxy. Whoever operates the proxy should know it.

use vstd::prelude::*;
use vstd::string::StringExecFns;
use crate::allocator::{get_rand_ipv6_socket_addr, EPHEMERAL_PORTS_FROM};
use crate::auth::{password_verdict, validation_outcome, Auth, Credential};
use crate::credentials::{authorization_credentials, header_credentials};
use crate::subnet::{in_subnet, Subnet};
use crate::text::same_text;
use crate::tunnel::{advance, advance_spec, TunnelAction, TunnelEvent, TunnelState};

verus! {

/// Status of the answer to an accepted `CONNECT`.
pub const STATUS_OK: u16 = 200;

/// Status of the answer to a request without acceptable credentials.
pub const STATUS_UNAUTHORIZED: u16 = 401;

/// Status of the answer where the credentials could not be checked.
pub const STATUS_INTERNAL_SERVER_ERROR: u16 = 500;

/// Status of the answer where the target of a forwarded request could not
/// be reached.
pub const STATUS_BAD_GATEWAY: u16 = 502;

/// A response that the proxy makes itself, as plain values.
pub ghost struct ReplyView {
    pub status: u16,
    pub body: Seq<char>,
}

/// A response that the proxy makes itself.
#[derive(Clone, Debug, PartialEq, Eq)]
pub struct Reply {
    pub status: u16,
    pub body: String,
}

impl View for Reply {
    type V = ReplyView;

    open spec fn view(&self) -> ReplyView {
        ReplyView { status: self.status, body: self.body@ }
    }
}

/// What is to be done with a request, as plain values.
pub ghost enum DispatchView {
    Tunnel { reply: ReplyView },
    Forward { bind_addr: u128 },
    Reject { reply: ReplyView },
}

/// What is to be done with a request.
#[derive(Clone, Debug, PartialEq, Eq)]
pub enum Dispatch {
    /// Answer with `reply` at once, then take over the connection and relay
    /// it to the target as a task of its own.
    Tunnel { reply: Reply },
    /// Send the request on to its target from a socket bound to `bind_addr`,
    /// and hand the target's response back as it came.
    Forward { bind_addr: u128 },
    /// Answer with `reply`; nothing is sent on.
    Reject { reply: Reply },
}

impl View for Dispatch {
    type V = DispatchView;

    open spec fn view(&self) -> DispatchView {
        match *self {
            Dispatch::Tunnel { reply } => DispatchView::Tunnel { reply: reply@ },
            Dispatch::Forward { bind_addr } => DispatchView::Forward { bind_addr },
            Dispatch::Reject { reply } => DispatchView::Reject { reply: reply@ },
        }
    }
}

/// The answer to an accepted `CONNECT`: success, with nothing in it.
pub open spec fn connect_accepted() -> ReplyView {
    ReplyView { status: STATUS_OK, body: Seq::empty() }
}

/// The answer to a request without acceptable credentials.
pub open spec fn unauthorized() -> ReplyView {
    ReplyView { status: STATUS_UNAUTHORIZED, body: "Unauthorized"@ }
}

/// The answer where the credentials could not be checked.
pub open spec fn internal_server_error() -> ReplyView {
    ReplyView { status: STATUS_INTERNAL_SERVER_ERROR, body: "Internal Server Error"@ }
}

/// The answer where a request was sent on and the transport to its target
/// failed. The request is not sent again from another address.
pub open spec fn bad_gateway() -> ReplyView {
    ReplyView { status: STATUS_BAD_GATEWAY, body: "Bad Gateway"@ }
}

/// The bytes of a header value that may be missing.
pub open spec fn header_view(authorization: Option<&[u8]>) -> Option<Seq<u8>> {
    match authorization {
        Some(value) => Some(value@),
        None => None,
    }
}

/// A reply that may be missing, as plain values.
pub open spec fn reply_view(reply: Option<Reply>) -> Option<ReplyView> {
    match reply {
        Some(r) => Some(r@),
        None => None,
    }
}

/// What authentication says of the `Authorization` header of a request: nothing
/// where the header is missing or carries no credentials, else the outcome of
/// validating the credentials it carries.
pub open spec fn request_validation(credential: Credential, authorization: Option<Seq<u8>>) -> Option<
    Result<bool, ()>,
> {
    match authorization {
        Some(value) => match header_credentials(value) {
            Some((username, password)) => Some(
                validation_outcome(
                    password.len() == 0,
                    credential.username == username,
                    password_verdict(password, credential.password_verifier),
                ),
            ),
            None => None,
        },
        None => None,
    }
}

/// The reply that turns a request away, if it is turned away: none for
/// credentials that were accepted, the server error where they could not be
/// checked, `unauthorized` in every other case.
pub open spec fn refusal(validation: Option<Result<bool, ()>>) -> Option<ReplyView> {
    match validation {
        Some(Ok(true)) => None,
        Some(Ok(false)) => Some(unauthorized()),
        Some(Err(_)) => Some(internal_server_error()),
        None => Some(unauthorized()),
    }
}

/// No request passes without valid credentials: a request is not turned away
/// only where its header carries a username and a password, the password is
/// not empty, the username is the configured one and the password verifies
/// against the stored hash.
pub proof fn lemma_passes_only_with_valid_credentials(
    credential: Credential,
    authorization: Option<Seq<u8>>,
)
    ensures
        refusal(request_validation(credential, authorization)) is None <==> (authorization is Some
            && header_credentials(authorization->0) is Some && ({
            let (username, password) = header_credentials(authorization->0)->0;
            &&& password.len() > 0
            &&& username == credential.username
            &&& password_verdict(password, credential.password_verifier) == Ok::<bool, ()>(true)
        })),
        authorization is None ==> refusal(request_validation(credential, authorization)) == Some(
            unauthorized(),
        ),
{
}

/// Whether a method is `CONNECT`, the method that asks for a tunnel.
pub open spec fn is_connect(method: Seq<char>) -> bool {
    method == "CONNECT"@
}

/// Whether a request of this method asks for a tunnel.
pub fn asks_for_tunnel(method: &str) -> (tunnel: bool)
    ensures
        tunnel == is_connect(method@),
{
    same_text(method, "CONNECT")
}

/// The reply to an accepted `CONNECT`.
pub fn connect_reply() -> (reply: Reply)
    ensures
        reply@ == connect_accepted(),
{
    Reply { status: STATUS_OK, body: String::new() }
}

/// The reply to a request without acceptable credentials.
pub fn unauthorized_reply() -> (reply: Reply)
    ensures
        reply@ == unauthorized(),
{
    Reply { status: STATUS_UNAUTHORIZED, body: String::from_str("Unauthorized") }
}

/// The reply where the credentials could not be checked.
pub fn internal_server_error_reply() -> (reply: Reply)
    ensures
        reply@ == internal_server_error(),
{
    Reply {
        status: STATUS_INTERNAL_SERVER_ERROR,
        body: String::from_str("Internal Server Error"),
    }
}

/// The reply where a forwarded request did not reach its target.
pub fn bad_gateway_reply() -> (reply: Reply)
    ensures
        reply@ == bad_gateway(),
{
    Reply { status: STATUS_BAD_GATEWAY, body: String::from_str("Bad Gateway") }
}

/// The reply that turns a request away, given what authentication said of it.
pub fn refusal_for(validation: Option<Result<bool, ()>>) -> (reply: Option<Reply>)
    ensures
        reply_view(reply) == refusal(validation),
{
    match validation {
        Some(Ok(true)) => None,
        Some(Ok(false)) => Some(unauthorized_reply()),
        Some(Err(_)) => Some(internal_server_error_reply()),
        None => Some(unauthorized_reply()),
    }
}

/// One step of a tunnel: the next state, the next action and, where the
/// action is to bind, the endpoint to bind to.
#[derive(Clone, Copy, Debug, PartialEq, Eq)]
pub struct TunnelStep {
    pub state: TunnelState,
    pub action: TunnelAction,
    pub endpoint: Option<(u128, u16)>,
}

/// The proxy: the subnet that egress addresses are drawn from and the
/// credential that requests must present.
#[derive(Clone, Debug)]
pub struct Proxy {
    subnet: Subnet,
    auth: Auth,
}

impl Proxy {
    /// The egress subnet.
    pub closed spec fn spec_subnet(&self) -> Subnet {
        self.subnet
    }

    /// The credential that requests must present.
    pub closed spec fn credential(&self) -> Credential {
        self.auth@
    }

    /// Whether `address` lies in the egress subnet.
    pub open spec fn egress(&self, address: u128) -> bool {
        in_subnet(address, self.spec_subnet().spec_prefix(), self.spec_subnet().spec_prefix_len())
    }

    /// Makes a proxy of its subnet and its credential.
    pub fn new(subnet: Subnet, auth: Auth) -> (proxy: Proxy)
        ensures
            proxy.spec_subnet() == subnet,
            proxy.credential() == auth@,
    {
        Proxy { subnet, auth }
    }

    /// The egress subnet.
    pub fn subnet(&self) -> (subnet: Subnet)
        ensures
            subnet == self.spec_subnet(),
    {
        self.subnet
    }

    /// Dispatches a request by its method: `CONNECT` is tunnelled without
    /// looking at its credentials, every other method is forwarded if its
    /// `Authorization` header carries the configured credentials.
    pub fn proxy(&self, method: &str, authorization: Option<&[u8]>) -> (dispatch: Dispatch)
        ensures
            is_connect(method@) ==> dispatch@ == (DispatchView::Tunnel {
                reply: connect_accepted(),
            }),
            !is_connect(method@) ==> match refusal(
                request_validation(self.credential(), header_view(authorization)),
            ) {
                Some(reply) => dispatch@ == (DispatchView::Reject { reply }),
                None => dispatch@ matches DispatchView::Forward { bind_addr } && self.egress(
                    bind_addr,
                ),
            },
            !is_connect(method@) && authorization is None ==> dispatch@ == (DispatchView::Reject {
                reply: unauthorized(),
            }),
    {
        if asks_for_tunnel(method) {
            self.process_connect()
        } else {
            self.process_request(authorization)
        }
    }

    /// Accepts a `CONNECT`: the client gets an empty success at once, before
    /// the target is resolved or reached, and what becomes of the tunnel is
    /// not told to it.
    pub fn process_connect(&self) -> (dispatch: Dispatch)
        ensures
            dispatch@ == (DispatchView::Tunnel { reply: connect_accepted() }),
    {
        Dispatch::Tunnel { reply: connect_reply() }
    }

    /// What authentication says of the `Authorization` header of a request.
    pub fn authenticate(&self, authorization: Option<&[u8]>) -> (validation: Option<
        Result<bool, ()>,
    >)
        ensures
            validation == request_validation(self.credential(), header_view(authorization)),
            authorization is None ==> validation is None,
    {
        match authorization {
            Some(value) => match authorization_credentials(value) {
                Some(credentials) => Some(
                    self.auth.validate(
                        credentials.username.as_str(),
                        credentials.password.as_str(),
                    ),
                ),
                None => None,
            },
            None => None,
        }
    }

    /// Decides on a request that is no `CONNECT`.
    ///
    /// A request without an `Authorization` header, with one that carries no
    /// credentials, or with credentials that are refused is turned away as
    /// unauthorized. Where the check of the credentials itself fails the
    /// request is turned away with a server error. Every other request is
    /// forwarded from an address drawn afresh from the egress subnet.
    pub fn process_request(&self, authorization: Option<&[u8]>) -> (dispatch: Dispatch)
        ensures
            match refusal(request_validation(self.credential(), header_view(authorization))) {
                Some(reply) => dispatch@ == (DispatchView::Reject { reply }),
                None => dispatch@ matches DispatchView::Forward { bind_addr } && self.egress(
                    bind_addr,
                ),
            },
            authorization is None ==> dispatch@ == (DispatchView::Reject { reply: unauthorized() }),
    {
        let validation = self.authenticate(authorization);
        match refusal_for(validation) {
            Some(reply) => Dispatch::Reject { reply },
            None => Dispatch::Forward { bind_addr: self.subnet.allocate() },
        }
    }

    /// A fresh endpoint to bind an outbound socket to: an address drawn from
    /// the egress subnet, and an ephemeral port.
    pub fn egress_endpoint(&self) -> (endpoint: (u128, u16))
        ensures
            self.egress(endpoint.0),
            endpoint.1 >= EPHEMERAL_PORTS_FROM,
    {
        get_rand_ipv6_socket_addr(self.subnet.prefix(), self.subnet.prefix_len())
    }

    /// Answers an event of a tunnel with its next step, as `advance` does,
    /// and draws a fresh egress endpoint for each candidate that is to be
    /// bound for.
    pub fn tunnel(&self, state: TunnelState, event: TunnelEvent) -> (step: Option<TunnelStep>)
        ensures
            match advance_spec(state, event) {
                Some((next, action)) => step matches Some(s) && s.state == next && s.action
                    == action && (match s.endpoint {
                    Some(endpoint) => action is Bind && self.egress(endpoint.0) && endpoint.1
                        >= EPHEMERAL_PORTS_FROM,
                    None => !(action is Bind),
                }),
                None => step is None,
            },
    {
        match advance(state, event) {
            Some((next, action)) => {
                let endpoint = match action {
                    TunnelAction::Bind { .. } => Some(self.egress_endpoint()),
                    _ => None,
                };
                Some(TunnelStep { state: next, action, endpoint })
            },
            None => None,
        }
    }
}

} // verus!
