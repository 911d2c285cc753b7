use nhl_rs::http::HttpOutcome;
use nhl_rs::{Client, ClientBuilder};

fn client() -> Client {
    ClientBuilder::new().build()
}

#[test]
fn upstream_404_yields_404() {
    let outcome = HttpOutcome::Response { status: 404, body: String::from("not found") };
    let r = client().get_countries(outcome);
    assert_eq!(r, Err(404));
}

#[test]
fn upstream_500_yields_500() {
    let outcome = HttpOutcome::Response { status: 500, body: String::from("{}") };
    let r = client().get_glossary(outcome);
    assert_eq!(r, Err(500));
}

#[test]
fn upstream_error_status_propagates_for_each_accessor() {
    let c = client();
    let body = || String::from("{}");
    assert_eq!(c.get_countries(HttpOutcome::Response { status: 403, body: body() }), Err(403));
    assert_eq!(c.get_franchises(HttpOutcome::Response { status: 410, body: body() }), Err(410));
    assert_eq!(c.get_games(HttpOutcome::Response { status: 502, body: body() }), Err(502));
    assert_eq!(c.get_glossary(HttpOutcome::Response { status: 503, body: body() }), Err(503));
    assert_eq!(
        c.get_component_season(HttpOutcome::Response { status: 404, body: body() }),
        Err(404)
    );
    assert_eq!(
        c.get_game_metadata(HttpOutcome::Response { status: 418, body: body() }),
        Err(418)
    );
    assert_eq!(c.ping(HttpOutcome::Response { status: 500, body: body() }), Err(500));
}

#[test]
fn failure_with_status_propagates_that_status() {
    let r = client().get_countries(HttpOutcome::FailureWithStatus { status: 429 });
    assert_eq!(r, Err(429));
}

#[test]
fn network_failure_without_status_yields_400() {
    let c = client();
    assert_eq!(c.get_countries(HttpOutcome::Failure), Err(400));
    assert_eq!(c.get_glossary(HttpOutcome::Failure), Err(400));
    assert_eq!(c.ping(HttpOutcome::Failure), Err(400));
}

#[test]
fn unparseable_body_yields_400() {
    let outcome = HttpOutcome::Response { status: 200, body: String::from("this is not json") };
    assert_eq!(client().get_countries(outcome), Err(400));
}

#[test]
fn wrong_shape_body_yields_400() {
    let outcome = HttpOutcome::Response { status: 200, body: String::from("{\"other\": 3}") };
    assert_eq!(client().get_countries(outcome), Err(400));
}

#[test]
fn wrong_shape_body_yields_400_for_lookups() {
    let c = client();
    let body = || String::from("[1, 2, 3]");
    assert_eq!(
        c.get_country_by_id(HttpOutcome::Response { status: 200, body: body() }, "CAN"),
        Err(400)
    );
    assert_eq!(
        c.get_glossary_item_by_id(HttpOutcome::Response { status: 200, body: body() }, 1),
        Err(400)
    );
    assert_eq!(
        c.get_franchise_by_id(HttpOutcome::Response { status: 200, body: body() }, 1),
        Err(400)
    );
    assert_eq!(
        c.get_games_for_team_by_team_id(HttpOutcome::Response { status: 200, body: body() }, 1),
        Err(400)
    );
}

#[test]
fn ok_status_with_good_body_succeeds() {
    let body = String::from("{\"data\": [], \"total\": 0}");
    let r = client().get_countries(HttpOutcome::Response { status: 200, body });
    assert_eq!(r, Ok(vec![]));
}

#[test]
fn total_count_is_not_checked_against_the_data() {
    let body = String::from("{\"data\": [], \"total\": 5}");
    let r = client().get_countries(HttpOutcome::Response { status: 200, body });
    assert_eq!(r, Ok(vec![]));
}

#[test]
fn envelope_without_total_yields_400() {
    let body = String::from("{\"data\": []}");
    let r = client().get_countries(HttpOutcome::Response { status: 200, body });
    assert_eq!(r, Err(400));
}
