use nhl_rs::awards::AwardsClient;
use nhl_rs::conferences::ConferencesClient;
use nhl_rs::http::HttpOutcome;
use nhl_rs::ClientBuilder;

#[test]
fn builder_defaults_to_english() {
    let client = ClientBuilder::new().build();
    assert_eq!(client.language, "en");
    assert_eq!(client.base_url, "https://api-web.nhle.com");
    assert_eq!(client.stats_base_url, "https://api.nhle.com/stats/rest");
}

#[test]
fn builder_keeps_a_chosen_language() {
    let client = ClientBuilder::new().language(String::from("fr")).build();
    assert_eq!(client.language, "fr");
}

#[test]
fn resource_urls_embed_the_language() {
    let client = ClientBuilder::new().build();
    assert_eq!(client.countries_url(), "https://api.nhle.com/stats/rest/en/country");
    assert_eq!(client.glossary_url(), "https://api.nhle.com/stats/rest/en/glossary");
    assert_eq!(client.franchises_url(), "https://api.nhle.com/stats/rest/en/franchise");
    assert_eq!(client.games_url(), "https://api.nhle.com/stats/rest/en/game");
    assert_eq!(client.game_metadata_url(), "https://api.nhle.com/stats/rest/en/game/meta");
    assert_eq!(
        client.component_season_url(),
        "https://api.nhle.com/stats/rest/en/componentSeason"
    );
    assert_eq!(client.ping_url(), "https://api.nhle.com/stats/rest/ping");

    let french = ClientBuilder::new().language(String::from("fr")).build();
    assert_eq!(french.countries_url(), "https://api.nhle.com/stats/rest/fr/country");
}

#[test]
fn awards_client_scopes_requests() {
    let mut awards = AwardsClient::new();
    assert_eq!(awards.url(), "https://statsapi.web.nhl.com/api/v1/awards/");
    awards.get_by_id(17);
    assert_eq!(awards.id, Some(17));
    assert_eq!(awards.url(), "https://statsapi.web.nhl.com/api/v1/awards/17");
    awards.all();
    assert_eq!(awards.id, None);
    assert_eq!(awards.url(), "https://statsapi.web.nhl.com/api/v1/awards/");
    awards.get_by_id(-3);
    assert_eq!(awards.url(), "https://statsapi.web.nhl.com/api/v1/awards/-3");
}

#[test]
fn conferences_client_scopes_requests() {
    let mut conferences = ConferencesClient::new();
    assert_eq!(conferences.url(), "https://statsapi.web.nhl.com/api/v1/conferences/");
    conferences.get_by_id(6);
    assert_eq!(conferences.url(), "https://statsapi.web.nhl.com/api/v1/conferences/6");
    conferences.all();
    assert_eq!(conferences.id, None);
}

#[test]
fn awards_send_decodes_the_envelope() {
    let body = String::from(
        "{\"copyright\":\"NHL\",\"awards\":[{\"name\":\"Stanley Cup\",\"shortName\":\"Cup\",\
         \"description\":\"The championship trophy\",\"recipientType\":\"Team\",\"history\":null,\
         \"imageUrl\":\"http://img\",\"homePageUrl\":\"http://home\",\"link\":\"/awards/1\"}]}",
    );
    let awards = AwardsClient::new();
    let resp = awards.send(HttpOutcome::Response { status: 200, body }).unwrap();
    assert_eq!(resp.copyright, "NHL");
    assert_eq!(resp.awards.len(), 1);
    assert_eq!(resp.awards[0].name, "Stanley Cup");
    assert_eq!(resp.awards[0].history, None);
}

#[test]
fn awards_send_propagates_errors() {
    let awards = AwardsClient::new();
    assert_eq!(
        awards.send(HttpOutcome::Response { status: 404, body: String::from("") }),
        Err(404)
    );
    assert_eq!(awards.send(HttpOutcome::Failure), Err(400));
    assert_eq!(
        awards.send(HttpOutcome::Response { status: 200, body: String::from("{}") }),
        Err(400)
    );
}

#[test]
fn conferences_send_decodes_the_envelope() {
    let body = String::from(
        "{\"copyright\":\"NHL\",\"conferences\":[{\"id\":6,\"name\":\"Eastern\",\"link\":\
         \"/conferences/6\",\"abbreviation\":\"E\",\"shortName\":\"East\",\"active\":true}]}",
    );
    let conferences = ConferencesClient::new();
    let resp = conferences.send(HttpOutcome::Response { status: 200, body }).unwrap();
    assert_eq!(resp.conferences.len(), 1);
    assert_eq!(resp.conferences[0].id, 6);
    assert!(resp.conferences[0].active);
}
