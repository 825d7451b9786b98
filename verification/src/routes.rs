use vstd::prelude::*;

verus! {

/// The HTTP methods that the service answers.
#[derive(PartialEq, Eq, Structural, Clone, Copy, Debug)]
pub enum HttpMethod {
    Get,
    Post,
}

/// The operations that the service offers.
#[derive(PartialEq, Eq, Structural, Clone, Copy, Debug)]
pub enum Endpoint {
    /// Forget every waiting user.
    ResetWaiting,
    /// Start matching through the server.
    StartMatching,
    /// Start matching through a peer connection of the server.
    WebRtcStartMatching,
    /// A peer's answer for a peer connection of the server.
    WebRtcSignalingAnswer,
    /// Pass a session description to the opponent through the server.
    SendSdp,
    /// Pass a session description to the opponent through a peer connection.
    WebRtcSendSdp,
}

/// One entry of the route table: where an operation is reached.
pub struct Route {
    pub path: &'static str,
    pub method: HttpMethod,
    pub endpoint: Endpoint,
}

/// The path under which an operation is reached.
pub open spec fn path_of(endpoint: Endpoint) -> Seq<char> {
    match endpoint {
        Endpoint::ResetWaiting => "/reset-waiting"@,
        Endpoint::StartMatching => "/start-matching"@,
        Endpoint::WebRtcStartMatching => "/web_rtc/start-matching"@,
        Endpoint::WebRtcSignalingAnswer => "/web_rtc/signaling-answer"@,
        Endpoint::SendSdp => "/send-sdp"@,
        Endpoint::WebRtcSendSdp => "/web_rtc/send-sdp"@,
    }
}

/// The method by which an operation is reached: only the reset is a `GET`.
pub open spec fn method_of(endpoint: Endpoint) -> HttpMethod {
    match endpoint {
        Endpoint::ResetWaiting => HttpMethod::Get,
        _ => HttpMethod::Post,
    }
}

/// The operations in the order in which the route table lists them.
pub open spec fn endpoint_order() -> Seq<Endpoint> {
    seq![
        Endpoint::ResetWaiting,
        Endpoint::StartMatching,
        Endpoint::WebRtcStartMatching,
        Endpoint::WebRtcSignalingAnswer,
        Endpoint::SendSdp,
        Endpoint::WebRtcSendSdp,
    ]
}

/// The routes of the service.
pub struct Routes {}

impl Routes {
    /// The route of one operation.
    pub fn route_of(endpoint: Endpoint) -> (r: Route)
        ensures
            r.endpoint == endpoint,
            r.path@ == path_of(endpoint),
            r.method == method_of(endpoint),
    {
        let path: &'static str = match endpoint {
            Endpoint::ResetWaiting => "/reset-waiting",
            Endpoint::StartMatching => "/start-matching",
            Endpoint::WebRtcStartMatching => "/web_rtc/start-matching",
            Endpoint::WebRtcSignalingAnswer => "/web_rtc/signaling-answer",
            Endpoint::SendSdp => "/send-sdp",
            Endpoint::WebRtcSendSdp => "/web_rtc/send-sdp",
        };
        let method = match endpoint {
            Endpoint::ResetWaiting => HttpMethod::Get,
            _ => HttpMethod::Post,
        };
        Route { path, method, endpoint }
    }

    /// The route table: every operation once, each with its path and method.
    pub fn route_table() -> (r: Vec<Route>)
        ensures
            r@.len() == endpoint_order().len(),
            forall|i: int|
                0 <= i < r@.len() ==> {
                    &&& #[trigger] r@[i].endpoint == endpoint_order()[i]
                    &&& r@[i].path@ == path_of(endpoint_order()[i])
                    &&& r@[i].method == method_of(endpoint_order()[i])
                },
    {
        let mut r: Vec<Route> = Vec::new();
        r.push(Routes::route_of(Endpoint::ResetWaiting));
        r.push(Routes::route_of(Endpoint::StartMatching));
        r.push(Routes::route_of(Endpoint::WebRtcStartMatching));
        r.push(Routes::route_of(Endpoint::WebRtcSignalingAnswer));
        r.push(Routes::route_of(Endpoint::SendSdp));
        r.push(Routes::route_of(Endpoint::WebRtcSendSdp));
        r
    }
}

} // verus!
