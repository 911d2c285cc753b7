use nhl_rs::http::HttpOutcome;
use nhl_rs::{Client, ClientBuilder};

fn client() -> Client {
    ClientBuilder::new().build()
}

fn ok(body: String) -> HttpOutcome {
    HttpOutcome::Response { status: 200, body }
}

#[test]
fn ping_decodes_the_success_flag() {
    let up = client().ping(ok(String::from("{\"success\":true}"))).unwrap();
    assert!(up.success);
    let down = client().ping(ok(String::from("{\"success\":false}"))).unwrap();
    assert!(!down.success);
}

#[test]
fn ping_rejects_a_wrong_shape() {
    assert_eq!(client().ping(ok(String::from("{\"success\":1}"))), Err(400));
    assert_eq!(client().ping(ok(String::from("true"))), Err(400));
}

#[test]
fn component_season_decodes_in_order() {
    let body = String::from(
        "{\"data\":[{\"id\":\"202302\",\"component\":\"regular\",\"gameTypeId\":2,\"seasonId\":\
         20232024},{\"id\":\"202303\",\"component\":\"playoffs\",\"gameTypeId\":3,\"seasonId\":\
         20232024}],\"total\":2}",
    );
    let cs = client().get_component_season(ok(body)).unwrap();
    assert_eq!(cs.len(), 2);
    assert_eq!(cs[0].component, "regular");
    assert_eq!(cs[1].game_type_id, 3);
    assert_eq!(cs[1].season_id, 20232024);
}

#[test]
fn component_season_propagates_errors() {
    assert_eq!(
        client().get_component_season(HttpOutcome::FailureWithStatus { status: 503 }),
        Err(503)
    );
    assert_eq!(client().get_component_season(HttpOutcome::Failure), Err(400));
}
