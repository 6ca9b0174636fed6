use tunnel_proxy::db::{BusEvent, DBMessage};
use tunnel_proxy::models::Tunnel;
use tunnel_proxy::proxy_service::{
    content_type_for, static_file, Dispatch, HostHeader, LocalAction, MakeProxyService, Method,
    ProxyService, RequestHead, StockResponse, SyncAction, SyncEvent, SyncPhase,
};
use tunnel_proxy::routing::DuplicatePolicy;

fn tunnel(id: i32, from: &str, to: &str) -> Tunnel {
    Tunnel::new(id, from.to_string(), to.to_string())
}

fn request(method: Method, host: Option<&str>, path: &str, query: Option<&str>) -> RequestHead {
    RequestHead {
        method,
        host: match host {
            Some(h) => HostHeader::Value(h.to_string()),
            None => HostHeader::Missing,
        },
        path: path.to_string(),
        query: query.map(|q| q.to_string()),
    }
}

fn loaded(rows: Vec<Tunnel>, policy: DuplicatePolicy) -> MakeProxyService {
    let mut make = MakeProxyService::new(policy);
    make.listen_db_updates(SyncEvent::Started);
    make.listen_db_updates(SyncEvent::Subscribed);
    make.listen_db_updates(SyncEvent::Bus(BusEvent::Changed));
    make.listen_db_updates(SyncEvent::Tunnels(rows));
    make
}

fn router(rows: Vec<Tunnel>) -> ProxyService {
    loaded(rows, DuplicatePolicy::LastWins).call()
}

#[test]
fn a_matching_host_is_forwarded_with_path_and_query() {
    let service = router(vec![tunnel(1, "a.example.com", "b.internal:4200")]);
    let req = request(Method::Get, Some("a.example.com:443"), "/p", Some("x=1"));
    match service.call(&req) {
        Dispatch::Forward(plan) => {
            assert_eq!(plan.uri, "http://b.internal:4200/p?x=1");
            assert_eq!(plan.host, "b.internal:4200");
        }
        other => panic!("unexpected dispatch {:?}", other),
    }
}

#[test]
fn a_matching_host_without_port_is_forwarded() {
    let service = router(vec![tunnel(1, "a.example.com", "b.internal")]);
    let req = request(Method::Post, Some("a.example.com"), "/api/delete/", None);
    match service.call(&req) {
        Dispatch::Forward(plan) => {
            assert_eq!(plan.uri, "http://b.internal/api/delete/");
            assert_eq!(plan.host, "b.internal");
        }
        other => panic!("unexpected dispatch {:?}", other),
    }
}

#[test]
fn every_method_is_forwarded() {
    let service = router(vec![tunnel(1, "a", "t")]);
    for method in [Method::Get, Method::Post, Method::Other] {
        let req = request(method, Some("a"), "/x", None);
        assert!(matches!(service.call(&req), Dispatch::Forward(_)));
    }
}

#[test]
fn an_unknown_host_goes_to_the_local_handler() {
    let service = router(vec![tunnel(1, "a.example.com", "b.internal:4200")]);
    let req = request(Method::Get, Some("z.example.com"), "/api/", None);
    assert!(matches!(service.call(&req), Dispatch::Local(LocalAction::ListTunnels)));
    let req = request(Method::Other, Some("z.example.com:8080"), "/p", Some("x=1"));
    assert!(matches!(service.call(&req), Dispatch::Local(LocalAction::NotFound)));
}

#[test]
fn host_matching_is_case_sensitive() {
    let service = router(vec![tunnel(1, "a.example.com", "t")]);
    let req = request(Method::Other, Some("A.EXAMPLE.COM"), "/", None);
    assert!(matches!(service.call(&req), Dispatch::Local(LocalAction::NotFound)));
}

#[test]
fn with_an_empty_cache_everything_is_local() {
    let service = MakeProxyService::new(DuplicatePolicy::LastWins).call();
    let req = request(Method::Post, Some("a.example.com"), "/api/delete/", None);
    assert!(matches!(service.call(&req), Dispatch::Local(LocalAction::DeleteTunnel)));
    assert!(service.tunnels().is_empty());
}

#[test]
fn a_missing_host_is_a_bad_request() {
    let service = router(vec![tunnel(1, "a", "t")]);
    let req = request(Method::Get, None, "/", None);
    assert!(matches!(service.call(&req), Dispatch::Reject(StockResponse::BadRequest)));
}

#[test]
fn a_malformed_host_is_a_bad_request() {
    let service = router(vec![tunnel(1, "a", "t")]);
    let req = RequestHead {
        method: Method::Get,
        host: HostHeader::Malformed,
        path: "/".to_string(),
        query: None,
    };
    assert!(matches!(service.call(&req), Dispatch::Reject(StockResponse::BadRequest)));
}

#[test]
fn a_target_that_makes_no_uri_is_a_bad_gateway() {
    let service = router(vec![tunnel(1, "a", "not a host"), tunnel(2, "b", "")]);
    let req = request(Method::Get, Some("a"), "/p", None);
    assert!(matches!(service.call(&req), Dispatch::Reject(StockResponse::BadGateway)));
    let req = request(Method::Get, Some("b"), "/p", None);
    assert!(matches!(service.call(&req), Dispatch::Reject(StockResponse::BadGateway)));
}

#[test]
fn proxy_asks_the_uri_parser() {
    let req = request(Method::Get, Some("ignored"), "/p", Some("x=1"));
    match ProxyService::proxy(&req, &"b.internal:4200".to_string()) {
        Dispatch::Forward(plan) => {
            assert_eq!(plan.uri, "http://b.internal:4200/p?x=1");
            assert_eq!(plan.host, "b.internal:4200");
            assert!(plan.uri.parse::<hyper::Uri>().is_ok());
        }
        other => panic!("unexpected dispatch {:?}", other),
    }
    assert!(matches!(
        ProxyService::proxy(&req, &"two words".to_string()),
        Dispatch::Reject(StockResponse::BadGateway)
    ));
    assert!(matches!(
        ProxyService::proxy(&req, &"a:1:2:3".to_string()),
        Dispatch::Reject(StockResponse::BadGateway)
    ));
}

#[test]
fn forward_follows_the_verdict_it_is_given() {
    let target = "b.internal".to_string();
    match ProxyService::forward(&target, "http://b.internal/".to_string(), true) {
        Dispatch::Forward(plan) => {
            assert_eq!(plan.uri, "http://b.internal/");
            assert_eq!(plan.host, "b.internal");
        }
        other => panic!("unexpected dispatch {:?}", other),
    }
    assert!(matches!(
        ProxyService::forward(&target, "http://b.internal/".to_string(), false),
        Dispatch::Reject(StockResponse::BadGateway)
    ));
}

#[test]
fn the_listing_route_is_get_api() {
    let req = request(Method::Get, None, "/api/", None);
    assert!(matches!(ProxyService::http(&req), LocalAction::ListTunnels));
    let req = request(Method::Get, None, "/api/", Some("page=2"));
    assert!(matches!(ProxyService::http(&req), LocalAction::ListTunnels));
}

#[test]
fn the_removal_route_is_post_api_delete() {
    let req = request(Method::Post, None, "/api/delete/", None);
    assert!(matches!(ProxyService::http(&req), LocalAction::DeleteTunnel));
}

#[test]
fn other_gets_ask_for_a_static_file() {
    let req = request(Method::Get, None, "/", None);
    match ProxyService::http(&req) {
        LocalAction::ServeFile(file) => {
            assert_eq!(file.location, "./client/dist/index.html");
            assert_eq!(file.content_type, "text/html");
        }
        other => panic!("unexpected action {:?}", other),
    }
    let req = request(Method::Get, None, "/assets/app.js", None);
    match ProxyService::http(&req) {
        LocalAction::ServeFile(file) => {
            assert_eq!(file.location, "./client/dist/assets/app.js");
            assert_eq!(file.content_type, "text/javascript");
        }
        other => panic!("unexpected action {:?}", other),
    }
    let req = request(Method::Get, None, "/api", None);
    match ProxyService::http(&req) {
        LocalAction::ServeFile(file) => {
            assert_eq!(file.location, "./client/dist/api");
            assert_eq!(file.content_type, "");
        }
        other => panic!("unexpected action {:?}", other),
    }
    let req = request(Method::Get, None, "/api/delete/", None);
    match ProxyService::http(&req) {
        LocalAction::ServeFile(file) => assert_eq!(file.location, "./client/dist/api/delete/"),
        other => panic!("unexpected action {:?}", other),
    }
}

#[test]
fn nothing_else_is_served_locally() {
    let req = request(Method::Post, None, "/api/", None);
    assert!(matches!(ProxyService::http(&req), LocalAction::NotFound));
    let req = request(Method::Post, None, "/", None);
    assert!(matches!(ProxyService::http(&req), LocalAction::NotFound));
    let req = request(Method::Other, None, "/api/delete/", None);
    assert!(matches!(ProxyService::http(&req), LocalAction::NotFound));
    let req = request(Method::Other, None, "/index.html", None);
    assert!(matches!(ProxyService::http(&req), LocalAction::NotFound));
}

#[test]
fn content_types_go_by_the_extension() {
    assert_eq!(content_type_for("./client/dist/app.js"), "text/javascript");
    assert_eq!(content_type_for("./client/dist/index.html"), "text/html");
    assert_eq!(content_type_for("./client/dist/style.css"), "text/css");
    assert_eq!(content_type_for("./client/dist/logo.png"), "");
    assert_eq!(content_type_for("./client/dist/app.min.js"), "text/javascript");
    assert_eq!(content_type_for("./client/dist/APP.JS"), "");
    assert_eq!(content_type_for("./client/dist/js"), "");
    assert_eq!(content_type_for("./client/dist/v1.2/readme"), "");
    assert_eq!(content_type_for("./client/dist/trailing."), "");
    assert_eq!(content_type_for("css"), "text/css");
    assert_eq!(content_type_for(""), "");
}

#[test]
fn static_files_lie_below_the_build_directory() {
    let file = static_file(&"/".to_string());
    assert_eq!(file.location, "./client/dist/index.html");
    assert_eq!(file.content_type, "text/html");
    let file = static_file(&"/deep/er/style.css".to_string());
    assert_eq!(file.location, "./client/dist/deep/er/style.css");
    assert_eq!(file.content_type, "text/css");
    let file = static_file(&"".to_string());
    assert_eq!(file.location, "./client/dist");
    assert_eq!(file.content_type, "");
}

#[test]
fn a_removal_with_an_id_is_sent_on_and_acknowledged() {
    let outcome = ProxyService::delete(Some(12));
    assert!(matches!(outcome.command, Some(DBMessage::Remove(12))));
    assert_eq!(outcome.response, StockResponse::Deleted);
    assert_eq!(outcome.response.status(), 200);
    assert_eq!(outcome.response.body(), "Ok");
    assert!(outcome.response.allows_any_origin());
}

#[test]
fn a_removal_without_an_id_is_a_bad_request() {
    let outcome = ProxyService::delete(None);
    assert!(outcome.command.is_none());
    assert_eq!(outcome.response, StockResponse::BadRequest);
    assert_eq!(outcome.response.status(), 400);
}

#[test]
fn not_found_is_404() {
    let response = ProxyService::not_found();
    assert_eq!(response, StockResponse::NotFound);
    assert_eq!(response.status(), 404);
    assert_eq!(response.body(), "not found");
    assert!(!response.allows_any_origin());
}

#[test]
fn an_upstream_failure_is_502() {
    let response = ProxyService::upstream_failed();
    assert_eq!(response, StockResponse::BadGateway);
    assert_eq!(response.status(), 502);
    assert_eq!(response.body(), "bad gateway");
    assert!(!response.allows_any_origin());
}

#[test]
fn the_stock_responses_have_their_codes() {
    assert_eq!(StockResponse::Deleted.status(), 200);
    assert_eq!(StockResponse::BadRequest.status(), 400);
    assert_eq!(StockResponse::NotFound.status(), 404);
    assert_eq!(StockResponse::BadGateway.status(), 502);
    assert_eq!(StockResponse::BadRequest.body(), "bad request");
    assert!(!StockResponse::BadRequest.allows_any_origin());
}

#[test]
fn the_synchronizer_subscribes_first() {
    let mut make = MakeProxyService::new(DuplicatePolicy::LastWins);
    assert_eq!(make.current_phase(), SyncPhase::Created);
    let action = make.listen_db_updates(SyncEvent::Started);
    assert!(matches!(action, SyncAction::Subscribe));
    assert_eq!(make.current_phase(), SyncPhase::Subscribing);
    let action = make.listen_db_updates(SyncEvent::Subscribed);
    assert!(matches!(action, SyncAction::Listen));
    assert_eq!(make.current_phase(), SyncPhase::Listening);
}

#[test]
fn a_change_event_makes_the_synchronizer_load_and_publish() {
    let mut make = MakeProxyService::new(DuplicatePolicy::LastWins);
    make.listen_db_updates(SyncEvent::Started);
    make.listen_db_updates(SyncEvent::Subscribed);
    let action = make.listen_db_updates(SyncEvent::Bus(BusEvent::Changed));
    assert!(matches!(action, SyncAction::Load));
    assert_eq!(make.current_phase(), SyncPhase::Loading);
    let rows = vec![tunnel(1, "a", "t")];
    let action = make.listen_db_updates(SyncEvent::Tunnels(rows.clone()));
    assert!(matches!(action, SyncAction::Publish));
    assert_eq!(make.current_phase(), SyncPhase::Listening);
    assert_eq!(make.call().tunnels(), &rows);
}

#[test]
fn falling_behind_is_answered_like_a_change_event() {
    let mut make = MakeProxyService::new(DuplicatePolicy::LastWins);
    make.listen_db_updates(SyncEvent::Started);
    make.listen_db_updates(SyncEvent::Subscribed);
    let action = make.listen_db_updates(SyncEvent::Bus(BusEvent::Lagged));
    assert!(matches!(action, SyncAction::Load));
    assert_eq!(make.current_phase(), SyncPhase::Loading);
}

#[test]
fn the_end_of_the_bus_stops_the_synchronizer_and_keeps_the_cache() {
    let rows = vec![tunnel(1, "a", "t")];
    let mut make = loaded(rows.clone(), DuplicatePolicy::LastWins);
    let action = make.listen_db_updates(SyncEvent::Bus(BusEvent::Closed));
    assert!(matches!(action, SyncAction::Stop));
    assert_eq!(make.current_phase(), SyncPhase::Stopped);
    assert_eq!(make.call().tunnels(), &rows);
    let req = request(Method::Get, Some("a"), "/", None);
    assert!(matches!(make.call().call(&req), Dispatch::Forward(_)));
}

#[test]
fn losing_the_actor_stops_the_synchronizer_and_keeps_the_cache() {
    let rows = vec![tunnel(1, "a", "t")];
    let mut make = loaded(rows.clone(), DuplicatePolicy::LastWins);
    make.listen_db_updates(SyncEvent::Bus(BusEvent::Changed));
    let action = make.listen_db_updates(SyncEvent::ActorGone);
    assert!(matches!(action, SyncAction::Stop));
    assert_eq!(make.current_phase(), SyncPhase::Stopped);
    assert_eq!(make.call().tunnels(), &rows);
}

#[test]
fn an_event_out_of_turn_stops_the_synchronizer() {
    let mut make = MakeProxyService::new(DuplicatePolicy::LastWins);
    let action = make.listen_db_updates(SyncEvent::Tunnels(vec![tunnel(1, "a", "t")]));
    assert!(matches!(action, SyncAction::Stop));
    assert_eq!(make.current_phase(), SyncPhase::Stopped);
    assert!(make.call().tunnels().is_empty());
    let action = make.listen_db_updates(SyncEvent::Started);
    assert!(matches!(action, SyncAction::Stop));
}

#[test]
fn a_router_keeps_the_snapshot_it_was_made_with() {
    let mut make = loaded(vec![tunnel(1, "a", "old")], DuplicatePolicy::LastWins);
    let before = make.call();
    make.listen_db_updates(SyncEvent::Bus(BusEvent::Changed));
    make.listen_db_updates(SyncEvent::Tunnels(vec![tunnel(2, "b", "new")]));
    let after = make.call();
    let req_a = request(Method::Other, Some("a"), "/", None);
    let req_b = request(Method::Other, Some("b"), "/", None);
    assert!(matches!(before.call(&req_a), Dispatch::Forward(_)));
    assert!(matches!(before.call(&req_b), Dispatch::Local(_)));
    assert_eq!(before.tunnels(), &vec![tunnel(1, "a", "old")]);
    assert!(matches!(after.call(&req_a), Dispatch::Local(_)));
    assert!(matches!(after.call(&req_b), Dispatch::Forward(_)));
    assert_eq!(after.tunnels(), &vec![tunnel(2, "b", "new")]);
    let shared = before.handle();
    assert_eq!(shared.tunnels(), before.tunnels());
}

#[test]
fn the_policy_decides_between_rows_for_one_domain() {
    let rows = vec![tunnel(1, "a", "first"), tunnel(2, "a", "second")];
    let req = request(Method::Get, Some("a"), "/", None);
    match loaded(rows.clone(), DuplicatePolicy::LastWins).call().call(&req) {
        Dispatch::Forward(plan) => assert_eq!(plan.uri, "http://second/"),
        other => panic!("unexpected dispatch {:?}", other),
    }
    match loaded(rows, DuplicatePolicy::FirstWins).call().call(&req) {
        Dispatch::Forward(plan) => assert_eq!(plan.uri, "http://first/"),
        other => panic!("unexpected dispatch {:?}", other),
    }
}
