use sdb::server::{
    DeleteRequest, GenericRequest, GetRequest, Request, Response, SetRequest, StatusCode,
};
use sdb::StupidServer;

#[test]
fn dispatcher_scenario() {
    let mut server = StupidServer::new();

    let get_missing = server.get(&GetRequest { key: "missing".to_string() });
    assert_eq!(get_missing.value, "");
    assert!(!get_missing.resp_msg.is_empty());
    assert_eq!(get_missing.status_code, StatusCode::Fail);

    let set = server.set(&SetRequest { key: "a".to_string(), value: "1".to_string() });
    assert_eq!(set.status_code, StatusCode::Okay);
    assert_eq!(set.message, "set/updated a");
    assert_eq!(set.resp_msg, "");

    let get = server.get(&GetRequest { key: "a".to_string() });
    assert_eq!(get.value, "1");
    assert_eq!(get.resp_msg, "");
    assert_eq!(get.status_code, StatusCode::Okay);

    let delete = server.delete(&DeleteRequest { key: "a".to_string() });
    assert_eq!(delete.message, "deleted a:1");
    assert_eq!(delete.status_code, StatusCode::Okay);

    let delete_again = server.delete(&DeleteRequest { key: "a".to_string() });
    assert_eq!(delete_again.status_code, StatusCode::Fail);
    assert!(!delete_again.resp_msg.is_empty());
}

#[test]
fn request_routes_each_variant() {
    let mut server = StupidServer::new();

    let set_req = GenericRequest {
        request: Some(Request::SetRequest(SetRequest {
            key: "a".to_string(),
            value: "1".to_string(),
        })),
    };
    let resp = server.request(&set_req);
    match resp.response {
        Some(Response::SetResponse(inner)) => {
            assert_eq!(inner.status_code, StatusCode::Okay);
            assert_eq!(inner.message, "set/updated a");
        },
        other => panic!("expected a set response, got {:?}", other),
    }

    let get_req = GenericRequest {
        request: Some(Request::GetRequest(GetRequest { key: "a".to_string() })),
    };
    let resp = server.request(&get_req);
    match resp.response {
        Some(Response::GetResponse(inner)) => {
            assert_eq!(inner.status_code, StatusCode::Okay);
            assert_eq!(inner.value, "1");
        },
        other => panic!("expected a get response, got {:?}", other),
    }

    let delete_req = GenericRequest {
        request: Some(Request::DeleteRequest(DeleteRequest { key: "a".to_string() })),
    };
    let resp = server.request(&delete_req);
    match resp.response {
        Some(Response::DeleteResponse(inner)) => {
            assert_eq!(inner.status_code, StatusCode::Okay);
            assert_eq!(inner.message, "deleted a:1");
        },
        other => panic!("expected a delete response, got {:?}", other),
    }
}

#[test]
fn empty_request_passes_through() {
    let mut server = StupidServer::new();
    let resp = server.request(&GenericRequest { request: None });
    assert!(resp.response.is_none());
}
