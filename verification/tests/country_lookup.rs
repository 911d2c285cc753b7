use nhl_rs::http::HttpOutcome;
use nhl_rs::{Client, ClientBuilder};

fn client() -> Client {
    ClientBuilder::new().build()
}

fn country_json(id: &str, name: &str, ioc: &str, active: i64) -> String {
    format!(
        "{{\"id\":\"{}\",\"country3Code\":\"{}\",\"countryCode\":\"xx\",\"countryName\":\"{}\",\
         \"hasPlayerStats\":1,\"imageUrl\":null,\"iocCode\":\"{}\",\"isActive\":{},\
         \"nationalityName\":\"n\",\"olympicUrl\":null,\"thumbnailUrl\":null}}",
        id, id, name, ioc, active
    )
}

fn fixture() -> String {
    format!(
        "{{\"data\":[{},{},{}],\"total\":3}}",
        country_json("CAN", "Canada", "CAN", 1),
        country_json("SWE", "Sweden", "SWE", 1),
        country_json("URS", "Soviet Union", "URS", 0),
    )
}

fn ok(body: String) -> HttpOutcome {
    HttpOutcome::Response { status: 200, body }
}

#[test]
fn countries_decode_in_order() {
    let cs = client().get_countries(ok(fixture())).unwrap();
    assert_eq!(cs.len(), 3);
    assert_eq!(cs[0].id, "CAN");
    assert_eq!(cs[1].country_name, "Sweden");
    assert_eq!(cs[2].is_active, 0);
    assert_eq!(cs[0].image_url, None);
}

#[test]
fn country_by_id_matches_case_insensitively() {
    let c = client().get_country_by_id(ok(fixture()), "can").unwrap().unwrap();
    assert_eq!(c.country_name, "Canada");
    let c2 = client().get_country_by_id(ok(fixture()), "CAN").unwrap().unwrap();
    assert_eq!(c, c2);
}

#[test]
fn country_by_name_matches_case_insensitively() {
    let c = client()
        .get_country_by_country_name(ok(fixture()), "sweden")
        .unwrap()
        .unwrap();
    assert_eq!(c.id, "SWE");
}

#[test]
fn country_by_ioc_code_matches() {
    let c = client().get_country_by_ioc_code(ok(fixture()), "urs").unwrap().unwrap();
    assert_eq!(c.country_name, "Soviet Union");
}

#[test]
fn country_absent_is_none_not_error() {
    assert_eq!(client().get_country_by_id(ok(fixture()), "ZZZ"), Ok(None));
    assert_eq!(
        client().get_country_by_country_name(ok(fixture()), "Atlantis"),
        Ok(None)
    );
}

#[test]
fn active_and_inactive_partition_the_collection() {
    let all = client().get_countries(ok(fixture())).unwrap();
    let active = client().get_active_countries(ok(fixture())).unwrap();
    let inactive = client().get_inactive_countries(ok(fixture())).unwrap();
    assert_eq!(active.len() + inactive.len(), all.len());
    for c in &active {
        assert_eq!(c.is_active, 1);
        assert!(all.contains(c));
        assert!(!inactive.contains(c));
    }
    for c in &inactive {
        assert_eq!(c.is_active, 0);
        assert!(all.contains(c));
        assert!(!active.contains(c));
    }
    for c in &all {
        assert!(active.contains(c) || inactive.contains(c));
    }
    assert_eq!(active.len(), 2);
    assert_eq!(inactive.len(), 1);
    assert_eq!(inactive[0].id, "URS");
}

#[test]
fn optional_country_urls_decode_when_present() {
    let body = String::from(
        "{\"data\":[{\"id\":\"FIN\",\"country3Code\":\"FIN\",\"countryCode\":\"fi\",\
         \"countryName\":\"Finland\",\"hasPlayerStats\":1,\"imageUrl\":\"http://img\",\
         \"iocCode\":\"FIN\",\"isActive\":1,\"nationalityName\":\"Finnish\",\"olympicUrl\":\
         \"http://oly\",\"thumbnailUrl\":null}],\"total\":1}",
    );
    let cs = client().get_countries(ok(body)).unwrap();
    assert_eq!(cs[0].image_url.as_deref(), Some("http://img"));
    assert_eq!(cs[0].olympic_url.as_deref(), Some("http://oly"));
    assert_eq!(cs[0].thumbnail_url, None);
}

#[test]
fn country_with_wrong_optional_type_fails_decode() {
    let body = String::from(
        "{\"data\":[{\"id\":\"FIN\",\"country3Code\":\"FIN\",\"countryCode\":\"fi\",\
         \"countryName\":\"Finland\",\"hasPlayerStats\":1,\"imageUrl\":7,\"iocCode\":\"FIN\",\
         \"isActive\":1,\"nationalityName\":\"Finnish\",\"olympicUrl\":null,\"thumbnailUrl\":\
         null}],\"total\":1}",
    );
    assert_eq!(client().get_countries(ok(body)), Err(400));
}

#[test]
fn country_missing_required_field_fails_decode() {
    let body = String::from(
        "{\"data\":[{\"id\":\"FIN\",\"countryCode\":\"fi\",\"countryName\":\"Finland\",\
         \"hasPlayerStats\":1,\"imageUrl\":null,\"iocCode\":\"FIN\",\"isActive\":1,\
         \"nationalityName\":\"Finnish\",\"olympicUrl\":null,\"thumbnailUrl\":null}],\"total\":1}",
    );
    assert_eq!(client().get_countries(ok(body)), Err(400));
}
