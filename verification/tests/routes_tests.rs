use matching_server::routes::{Endpoint, HttpMethod, Routes};

#[test]
fn route_table_lists_every_operation_once() {
    let table = Routes::route_table();
    let listed: Vec<(&str, HttpMethod, Endpoint)> =
        table.iter().map(|r| (r.path, r.method, r.endpoint)).collect();
    assert_eq!(
        listed,
        vec![
            ("/reset-waiting", HttpMethod::Get, Endpoint::ResetWaiting),
            ("/start-matching", HttpMethod::Post, Endpoint::StartMatching),
            ("/web_rtc/start-matching", HttpMethod::Post, Endpoint::WebRtcStartMatching),
            ("/web_rtc/signaling-answer", HttpMethod::Post, Endpoint::WebRtcSignalingAnswer),
            ("/send-sdp", HttpMethod::Post, Endpoint::SendSdp),
            ("/web_rtc/send-sdp", HttpMethod::Post, Endpoint::WebRtcSendSdp),
        ]
    );
}

#[test]
fn route_of_gives_path_and_method() {
    let r = Routes::route_of(Endpoint::ResetWaiting);
    assert_eq!(r.path, "/reset-waiting");
    assert_eq!(r.method, HttpMethod::Get);
    let r = Routes::route_of(Endpoint::WebRtcSendSdp);
    assert_eq!(r.path, "/web_rtc/send-sdp");
    assert_eq!(r.method, HttpMethod::Post);
}
