use nhl_rs::http::HttpOutcome;
use nhl_rs::{Client, ClientBuilder};

fn client() -> Client {
    ClientBuilder::new().build()
}

fn fixture() -> String {
    String::from(
        "{\"data\":[{\"id\":1315,\"abbreviation\":\"GR W\",\"definition\":\"Goals per regulation \
         win\",\"firstSeasonForStat\":null,\"fullName\":\"Goals per regulation \
         win\",\"languageCode\":\"en\",\"lastUpdated\":\"2021-01-01\"}],\"total\":1}",
    )
}

fn ok(body: String) -> HttpOutcome {
    HttpOutcome::Response { status: 200, body }
}

#[test]
fn glossary_item_by_id_finds_the_item() {
    let r = client().get_glossary_item_by_id(ok(fixture()), 1315);
    let item = r.unwrap().unwrap();
    assert_eq!(item.id, 1315);
    assert_eq!(item.abbreviation.as_deref(), Some("GR W"));
    assert_eq!(item.definition, "Goals per regulation win");
    assert_eq!(item.first_season_for_stat, None);
    assert_eq!(item.language_code, "en");
}

#[test]
fn glossary_item_by_abbreviation_is_case_insensitive() {
    let by_id = client().get_glossary_item_by_id(ok(fixture()), 1315).unwrap().unwrap();
    let by_abbr = client()
        .get_glossary_item_by_abbreviation(ok(fixture()), "gr w")
        .unwrap()
        .unwrap();
    assert_eq!(by_id, by_abbr);
}

#[test]
fn glossary_item_absent_is_none_not_error() {
    assert_eq!(client().get_glossary_item_by_id(ok(fixture()), 9999), Ok(None));
    assert_eq!(
        client().get_glossary_item_by_abbreviation(ok(fixture()), "XYZ"),
        Ok(None)
    );
}

#[test]
fn glossary_missing_abbreviation_matches_empty() {
    let body = String::from(
        "{\"data\":[{\"id\":7,\"abbreviation\":null,\"definition\":\"d\",\"firstSeasonForStat\":\
         19171918,\"fullName\":\"f\",\"languageCode\":\"en\",\"lastUpdated\":\"t\"}],\"total\":1}",
    );
    let found = client().get_glossary_item_by_abbreviation(ok(body), "").unwrap().unwrap();
    assert_eq!(found.id, 7);
    assert_eq!(found.abbreviation, None);
    assert_eq!(found.first_season_for_stat, Some(19171918));
}

#[test]
fn glossary_returns_all_items_in_order() {
    let body = String::from(
        "{\"data\":[{\"id\":1,\"abbreviation\":\"A\",\"definition\":\"d1\",\"fullName\":\"f1\",\
         \"languageCode\":\"en\",\"lastUpdated\":\"t\"},{\"id\":2,\"abbreviation\":\"B\",\
         \"definition\":\"d2\",\"fullName\":\"f2\",\"languageCode\":\"en\",\"lastUpdated\":\"t\"}],\
         \"total\":2}",
    );
    let items = client().get_glossary(ok(body)).unwrap();
    assert_eq!(items.len(), 2);
    assert_eq!(items[0].id, 1);
    assert_eq!(items[1].id, 2);
}

#[test]
fn glossary_first_match_wins_on_duplicate_ids() {
    let body = String::from(
        "{\"data\":[{\"id\":5,\"abbreviation\":\"A\",\"definition\":\"first\",\"fullName\":\"f\",\
         \"languageCode\":\"en\",\"lastUpdated\":\"t\"},{\"id\":5,\"abbreviation\":\"B\",\
         \"definition\":\"second\",\"fullName\":\"f\",\"languageCode\":\"en\",\"lastUpdated\":\
         \"t\"}],\"total\":2}",
    );
    let item = client().get_glossary_item_by_id(ok(body), 5).unwrap().unwrap();
    assert_eq!(item.definition, "first");
}

#[test]
fn glossary_bad_item_fails_whole_decode() {
    let body = String::from(
        "{\"data\":[{\"id\":\"not a number\",\"abbreviation\":\"A\",\"definition\":\"d\",\
         \"fullName\":\"f\",\"languageCode\":\"en\",\"lastUpdated\":\"t\"}],\"total\":1}",
    );
    assert_eq!(client().get_glossary(ok(body)), Err(400));
}
