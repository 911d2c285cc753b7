use nhl_rs::http::HttpOutcome;
use nhl_rs::{Client, ClientBuilder};

fn client() -> Client {
    ClientBuilder::new().build()
}

fn franchise_json(id: i64, full: &str, common: &str, place: &str) -> String {
    format!(
        "{{\"id\":{},\"fullName\":\"{}\",\"teamCommonName\":\"{}\",\"teamPlaceName\":\"{}\"}}",
        id, full, common, place
    )
}

fn fixture() -> String {
    format!(
        "{{\"data\":[{},{}],\"total\":2}}",
        franchise_json(4, "St. Louis Eagles", "Eagles", "St. Louis"),
        franchise_json(16, "Hamilton Tigers", "Tigers", "Hamilton"),
    )
}

fn ok(body: String) -> HttpOutcome {
    HttpOutcome::Response { status: 200, body }
}

#[test]
fn franchises_decode_in_order() {
    let fs = client().get_franchises(ok(fixture())).unwrap();
    assert_eq!(fs.len(), 2);
    assert_eq!(fs[0].id, 4);
    assert_eq!(fs[1].full_name, "Hamilton Tigers");
}

#[test]
fn franchise_by_id_finds_the_franchise() {
    let f = client().get_franchise_by_id(ok(fixture()), 16).unwrap().unwrap();
    assert_eq!(f.team_common_name, "Tigers");
    assert_eq!(client().get_franchise_by_id(ok(fixture()), 99), Ok(None));
}

#[test]
fn franchise_by_full_name_is_case_insensitive() {
    let f = client()
        .get_franchise_by_full_name(ok(fixture()), "st. louis eagles")
        .unwrap()
        .unwrap();
    assert_eq!(f.id, 4);
}

#[test]
fn franchise_by_team_common_name_is_case_insensitive() {
    let f = client()
        .get_franchise_by_team_common_name(ok(fixture()), "TIGERS")
        .unwrap()
        .unwrap();
    assert_eq!(f.id, 16);
}

#[test]
fn franchise_by_team_place_name_is_case_insensitive() {
    let f = client()
        .get_franchise_by_team_place_name(ok(fixture()), "hamilton")
        .unwrap()
        .unwrap();
    assert_eq!(f.id, 16);
    assert_eq!(
        client().get_franchise_by_team_place_name(ok(fixture()), "Nowhere"),
        Ok(None)
    );
}
