use person_server::json::Json;
use person_server::person::{
    create_database, decoded_or_raw, extract_name_from_request, handle_delete, handle_get,
    handle_patch, handle_post, handle_put, person_from_body, raw_name_from_request,
    strings_among, strings_of_all, Person, PersonPatch,
};

fn text(s: &str) -> Json {
    Json::Text(s.to_string())
}

fn object(members: Vec<(&str, Json)>) -> Json {
    Json::Object(members.into_iter().map(|(k, v)| (k.to_string(), v)).collect())
}

fn person(name: &str, age: u32, drinks: &[&str]) -> Person {
    Person { name: name.to_string(), age, drinks: drinks.iter().map(|d| d.to_string()).collect() }
}

#[test]
fn member_of_an_object() {
    let j = object(vec![("a", Json::Null), ("b", Json::Bool(true))]);
    assert!(matches!(j.get("a"), Some(Json::Null)));
    assert!(matches!(j.get("b"), Some(Json::Bool(true))));
    assert!(j.get("c").is_none());
    assert!(Json::Array(vec![]).get("a").is_none());
    assert!(text("a").get("a").is_none());
}

#[test]
fn person_from_a_document() {
    let j = object(vec![
        ("age", Json::Number(Some(30))),
        ("drinks", Json::Array(vec![text("Water"), text("Tea")])),
        ("extra", Json::Null),
        ("name", text("John")),
    ]);
    let p = Person::from_json(&j).unwrap();
    assert_eq!(p.name, "John");
    assert_eq!(p.age, 30);
    assert_eq!(p.drinks, vec!["Water".to_string(), "Tea".to_string()]);
}

#[test]
fn person_without_drinks_has_none() {
    let j = object(vec![("age", Json::Number(Some(0))), ("name", text(""))]);
    let p = Person::from_json(&j).unwrap();
    assert_eq!(p.name, "");
    assert_eq!(p.age, 0);
    assert!(p.drinks.is_empty());
}

#[test]
fn person_of_another_shape_is_refused() {
    let age = || ("age", Json::Number(Some(1)));
    let name = || ("name", text("A"));
    assert!(Person::from_json(&object(vec![age()])).is_none());
    assert!(Person::from_json(&object(vec![name()])).is_none());
    assert!(Person::from_json(&object(vec![("age", Json::Number(None)), name()])).is_none());
    assert!(Person::from_json(&object(vec![("age", text("1")), name()])).is_none());
    assert!(Person::from_json(&object(vec![age(), ("name", Json::Null)])).is_none());
    assert!(Person::from_json(&object(vec![age(), ("drinks", Json::Null), name()])).is_none());
    assert!(Person::from_json(&object(vec![
        age(),
        ("drinks", Json::Array(vec![text("a"), Json::Number(Some(1))])),
        name()
    ]))
    .is_none());
    assert!(Person::from_json(&Json::Array(vec![text("A"), Json::Number(Some(1))])).is_none());
    assert!(Person::from_json(&Json::Null).is_none());
}

#[test]
fn person_age_fits_thirty_two_bits() {
    let with_age = |age: u64| object(vec![("age", Json::Number(Some(age))), ("name", text("A"))]);
    assert_eq!(Person::from_json(&with_age(4294967295)).unwrap().age, u32::MAX);
    assert!(Person::from_json(&with_age(4294967296)).is_none());
    assert!(Person::from_json(&with_age(u64::MAX)).is_none());
}

#[test]
fn patch_from_a_document() {
    let j = object(vec![
        ("age", Json::Number(Some(27))),
        ("drinks", Json::Array(vec![text("a"), Json::Number(Some(1)), text("b"), Json::Null])),
        ("name", text("N")),
    ]);
    let f = PersonPatch::from_json(&j).unwrap();
    assert_eq!(f.name, Some("N".to_string()));
    assert_eq!(f.age, Some(27));
    assert_eq!(f.drinks, Some(vec!["a".to_string(), "b".to_string()]));
}

#[test]
fn patch_passes_over_fields_of_another_type() {
    let j = object(vec![
        ("age", text("27")),
        ("drinks", text("Water")),
        ("name", Json::Number(Some(1))),
    ]);
    let f = PersonPatch::from_json(&j).unwrap();
    assert_eq!(f.name, None);
    assert_eq!(f.age, None);
    assert_eq!(f.drinks, None);
    let f = PersonPatch::from_json(&Json::Array(vec![])).unwrap();
    assert_eq!((f.name, f.age, f.drinks), (None, None, None));
    let f = PersonPatch::from_json(&object(vec![("age", Json::Number(None))])).unwrap();
    assert_eq!(f.age, None);
}

#[test]
fn patch_age_fits_thirty_two_bits() {
    let with_age = |age: u64| object(vec![("age", Json::Number(Some(age))), ("name", text("N"))]);
    assert_eq!(PersonPatch::from_json(&with_age(0)).unwrap().age, Some(0));
    assert_eq!(PersonPatch::from_json(&with_age(4294967295)).unwrap().age, Some(u32::MAX));
    assert!(PersonPatch::from_json(&with_age(4294967296)).is_none());
    assert!(PersonPatch::from_json(&with_age(4294967296 + 5)).is_none());
    assert!(PersonPatch::from_json(&with_age(u64::MAX)).is_none());
}

#[test]
fn patch_with_an_age_above_thirty_two_bits_is_a_bad_request() {
    let mut db = create_database();
    handle_post(r#"{"name": "A", "age": 25, "drinks": ["Water"]}"#, &mut db);
    let response = handle_patch("PATCH /person/A HTTP/1.1", r#"{"age": 4294967296}"#, &mut db);
    assert_eq!(response, "HTTP/1.1 400 Bad Request\r\n\r\nInvalid JSON data.");
    assert_eq!(db.get("A").unwrap().age, 25);
    let response = handle_patch("PATCH /person/A HTTP/1.1", r#"{"age": 4294967295}"#, &mut db);
    assert_eq!(
        response,
        "HTTP/1.1 200 OK\r\nContent-Type: application/json\r\n\r\n{\"name\":\"A\",\"age\":4294967295,\"drinks\":[\"Water\"]}"
    );
}

#[test]
fn strings_of_a_list() {
    let items = vec![text("a"), Json::Null, text("b")];
    assert_eq!(strings_among(&items), vec!["a".to_string(), "b".to_string()]);
    assert_eq!(strings_of_all(&items), None);
    let items = vec![text("a"), text("b")];
    assert_eq!(strings_of_all(&items), Some(vec!["a".to_string(), "b".to_string()]));
    assert_eq!(strings_of_all(&Vec::new()), Some(vec![]));
}

#[test]
fn record_as_json_text() {
    assert_eq!(person("John Doe", 30, &[]).to_json(), "{\"name\":\"John Doe\",\"age\":30,\"drinks\":[]}");
    assert_eq!(
        person("J", 0, &["Water", "Tea", "Mate"]).to_json(),
        "{\"name\":\"J\",\"age\":0,\"drinks\":[\"Water\",\"Tea\",\"Mate\"]}"
    );
    assert_eq!(
        person("", u32::MAX, &[""]).to_json(),
        "{\"name\":\"\",\"age\":4294967295,\"drinks\":[\"\"]}"
    );
}

#[test]
fn json_text_escapes_what_json_asks_for() {
    let p = person("a\"b\\c\n\r\t\u{8}\u{c}\u{1}\u{1f}\u{7f}/\u{e9}", 1, &["x\"y"]);
    assert_eq!(
        p.to_json(),
        "{\"name\":\"a\\\"b\\\\c\\n\\r\\t\\b\\f\\u0001\\u001f\u{7f}/\u{e9}\",\"age\":1,\"drinks\":[\"x\\\"y\"]}"
    );
}

#[test]
fn body_that_denotes_a_person() {
    let p = person_from_body(r#" { "drinks" : ["a"], "age" : 7, "name" : "N", "x": {"y": [1, 2.5, -3]} } "#).unwrap();
    assert_eq!((p.name.as_str(), p.age, p.drinks.len()), ("N", 7, 1));
    let p = person_from_body(r#"{"name": "é\n", "age": 7}"#).unwrap();
    assert_eq!(p.name, "\u{e9}\n");
}

#[test]
fn body_that_denotes_no_person() {
    for body in [
        "",
        "{",
        "not json",
        r#"{"name": "A"}"#,
        r#"{"name": "A", "age": -1}"#,
        r#"{"name": "A", "age": 1.5}"#,
        r#"{"name": "A", "age": 1e2}"#,
        r#"{"name": "A", "age": "1"}"#,
        r#"{"name": "A", "age": 4294967296}"#,
        r#"{"name": 1, "age": 1}"#,
        r#"{"name": "A", "age": 1, "drinks": "Water"}"#,
        r#"{"name": "A", "age": 1, "drinks": [1]}"#,
        r#"{"name": "A", "age": 1} trailing"#,
        r#"["A", 1, []]"#,
        "null",
    ] {
        assert!(person_from_body(body).is_none(), "{:?}", body);
    }
}

#[test]
fn name_of_a_request() {
    assert_eq!(raw_name_from_request("GET /person/Jane%20Doe HTTP/1.1"), "Jane%20Doe");
    assert_eq!(extract_name_from_request("GET /person/Jane%20Doe HTTP/1.1"), "Jane Doe");
    assert_eq!(extract_name_from_request("GET /person/A HTTP/1.1\r\nHost: /person/B\r\n"), "A");
    assert_eq!(extract_name_from_request("GET /person//person/A"), "A");
    assert_eq!(extract_name_from_request("GET /other/A HTTP/1.1"), "/other/A");
    assert_eq!(extract_name_from_request("GET"), "");
    assert_eq!(extract_name_from_request(""), "");
    assert_eq!(extract_name_from_request("GET /person/a+b%2Bc%C3%A9"), "a+b+c\u{e9}");
}

#[test]
fn name_that_cannot_be_decoded_stays_raw() {
    // %FF is no UTF-8
    assert_eq!(extract_name_from_request("GET /person/a%FFb HTTP/1.1"), "a%FFb");
    // a broken escape is kept as written
    assert_eq!(extract_name_from_request("GET /person/100%zz HTTP/1.1"), "100%zz");
    assert_eq!(extract_name_from_request("GET /person/100% HTTP/1.1"), "100%");
}

#[test]
fn decoded_or_raw_prefers_the_decoded_text() {
    assert_eq!(decoded_or_raw(Some("a b".to_string()), "a%20b".to_string()), "a b");
    assert_eq!(decoded_or_raw(None, "a%FF".to_string()), "a%FF");
}

#[test]
fn post_with_a_bad_body_is_a_bad_request() {
    let mut db = create_database();
    let response = handle_post("{\"name\": \"A\"", &mut db);
    assert_eq!(response, "HTTP/1.1 400 Bad Request\r\n\r\nInvalid JSON data.");
    assert!(db.is_empty());
}

#[test]
fn post_of_a_taken_name_is_a_conflict() {
    let mut db = create_database();
    handle_post(r#"{"name": "A", "age": 1}"#, &mut db);
    let response = handle_post(r#"{"name": "A", "age": 2}"#, &mut db);
    assert_eq!(response, "HTTP/1.1 409 Conflict\r\n\r\nPerson already exists.");
    assert_eq!(db.get("A").unwrap().age, 1);
}

#[test]
fn post_stores_under_the_name_as_given() {
    let mut db = create_database();
    let response = handle_post(r#"{"name": "Jane%20Doe", "age": 1}"#, &mut db);
    assert_eq!(
        response,
        "HTTP/1.1 201 Created\r\nContent-Type: application/json\r\n\r\n{\"name\":\"Jane%20Doe\",\"age\":1,\"drinks\":[]}"
    );
    assert!(db.contains_key("Jane%20Doe"));
    assert!(!db.contains_key("Jane Doe"));
    // a second create of the stored name is a conflict
    let response = handle_post(r#"{"name": "Jane%20Doe", "age": 2}"#, &mut db);
    assert_eq!(response, "HTTP/1.1 409 Conflict\r\n\r\nPerson already exists.");
    // the name with a space is another name
    let response = handle_post(r#"{"name": "Jane Doe", "age": 3}"#, &mut db);
    assert_eq!(
        response,
        "HTTP/1.1 201 Created\r\nContent-Type: application/json\r\n\r\n{\"name\":\"Jane Doe\",\"age\":3,\"drinks\":[]}"
    );
    // a read of the created name, percent-encoded in the path, returns the record
    assert_eq!(
        handle_get("GET /person/Jane%2520Doe HTTP/1.1", &db),
        "HTTP/1.1 200 OK\r\nContent-Type: application/json\r\n\r\n{\"name\":\"Jane%20Doe\",\"age\":1,\"drinks\":[]}"
    );
    assert_eq!(
        handle_get("GET /person/Jane%20Doe HTTP/1.1", &db),
        "HTTP/1.1 200 OK\r\nContent-Type: application/json\r\n\r\n{\"name\":\"Jane Doe\",\"age\":3,\"drinks\":[]}"
    );
}

#[test]
fn put_with_a_bad_body_is_a_bad_request() {
    let mut db = create_database();
    handle_post(r#"{"name": "A", "age": 1}"#, &mut db);
    let response = handle_put("PUT /person/A HTTP/1.1", "{}", &mut db);
    assert_eq!(response, "HTTP/1.1 400 Bad Request\r\n\r\nInvalid JSON data.");
    assert_eq!(db.get("A").unwrap().age, 1);
    // the body is read before the key is looked up
    let response = handle_put("PUT /person/Missing HTTP/1.1", "{}", &mut db);
    assert_eq!(response, "HTTP/1.1 400 Bad Request\r\n\r\nInvalid JSON data.");
}

#[test]
fn put_that_renames_moves_the_record() {
    let mut db = create_database();
    handle_post(r#"{"name": "A", "age": 25, "drinks": ["Water"]}"#, &mut db);
    let response = handle_put("PUT /person/A HTTP/1.1", r#"{"name": "B", "age": 1, "drinks": []}"#, &mut db);
    assert_eq!(
        response,
        "HTTP/1.1 200 OK\r\nContent-Type: application/json\r\n\r\n{\"name\":\"B\",\"age\":1,\"drinks\":[]}"
    );
    assert_eq!(handle_get("GET /person/A HTTP/1.1", &db), "HTTP/1.1 404 Not Found\r\n\r\nPerson not found.");
    assert_eq!(
        handle_get("GET /person/B HTTP/1.1", &db),
        "HTTP/1.1 200 OK\r\nContent-Type: application/json\r\n\r\n{\"name\":\"B\",\"age\":1,\"drinks\":[]}"
    );
}

#[test]
fn patch_with_a_bad_body_is_a_bad_request() {
    let mut db = create_database();
    handle_post(r#"{"name": "A", "age": 1}"#, &mut db);
    let response = handle_patch("PATCH /person/A HTTP/1.1", "{\"age\": ", &mut db);
    assert_eq!(response, "HTTP/1.1 400 Bad Request\r\n\r\nInvalid JSON data.");
    assert_eq!(db.get("A").unwrap().age, 1);
    // the key is looked up before the body is read
    let response = handle_patch("PATCH /person/Missing HTTP/1.1", "{\"age\": ", &mut db);
    assert_eq!(response, "HTTP/1.1 404 Not Found\r\n\r\nPerson not found.");
}

#[test]
fn patch_of_name_and_drinks() {
    let mut db = create_database();
    handle_post(r#"{"name": "A", "age": 25, "drinks": ["Water"]}"#, &mut db);
    let response = handle_patch(
        "PATCH /person/A HTTP/1.1",
        r#"{"name": "B", "drinks": ["Tea", 5, "Mate"], "age": "old"}"#,
        &mut db,
    );
    assert_eq!(
        response,
        "HTTP/1.1 200 OK\r\nContent-Type: application/json\r\n\r\n{\"name\":\"B\",\"age\":25,\"drinks\":[\"Tea\",\"Mate\"]}"
    );
    // the record stands under its new name
    assert!(db.contains_key("B"));
    assert!(!db.contains_key("A"));
    assert_eq!(db.get("B").unwrap().name, "B");
    assert_eq!(handle_get("GET /person/A HTTP/1.1", &db), "HTTP/1.1 404 Not Found\r\n\r\nPerson not found.");
}

#[test]
fn patch_with_a_document_that_is_no_object_changes_nothing() {
    let mut db = create_database();
    handle_post(r#"{"name": "A", "age": 25, "drinks": ["Water"]}"#, &mut db);
    let response = handle_patch("PATCH /person/A HTTP/1.1", "[1, 2]", &mut db);
    assert_eq!(
        response,
        "HTTP/1.1 200 OK\r\nContent-Type: application/json\r\n\r\n{\"name\":\"A\",\"age\":25,\"drinks\":[\"Water\"]}"
    );
}

#[test]
fn delete_twice_is_not_found() {
    let mut db = create_database();
    handle_post(r#"{"name": "A", "age": 25}"#, &mut db);
    assert_eq!(
        handle_delete("DELETE /person/A HTTP/1.1", &mut db),
        "HTTP/1.1 200 OK\r\n\r\nPerson A deleted successfully."
    );
    assert_eq!(
        handle_delete("DELETE /person/A HTTP/1.1", &mut db),
        "HTTP/1.1 404 Not Found\r\n\r\nPerson not found."
    );
    assert_eq!(handle_get("GET /person/A HTTP/1.1", &db), "HTTP/1.1 404 Not Found\r\n\r\nPerson not found.");
}

fn raw_name_by_string_methods(request: &str) -> String {
    let url = request.lines().next().unwrap_or("").split_whitespace().nth(1).unwrap_or("");
    url.trim_start_matches("/person/").to_string()
}

#[test]
fn raw_name_agrees_with_the_string_methods() {
    let requests = [
        "",
        "GET",
        "GET /person/",
        "GET /person/A HTTP/1.1\r\n",
        "GET  /person//person//person/A",
        "GET /person/person/A",
        "GET /person",
        "GET\t/person/\u{e9}\u{a0}x",
        "GET /Person/A",
        "GET /person/A/person/",
        "\r\nGET /person/A",
        "GET /person/%2Fperson%2FA",
    ];
    for request in requests {
        assert_eq!(raw_name_from_request(request), raw_name_by_string_methods(request), "{:?}", request);
    }
}
