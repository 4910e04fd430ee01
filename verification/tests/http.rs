use phonebook::http::Route;
use phonebook::http::add_record;
use phonebook::http::delete_record;
use phonebook::http::dispatch;
use phonebook::http::get_record;
use phonebook::http::get_records;
use phonebook::http::route;
use phonebook::http::update_record;
use phonebook::store::Store;

#[test]
fn post_empty_name_yields_400() {
    let mut store = Store::new();
    let r = add_record(&mut store, "{\"name\":\"\",\"phone\":\"555\"}");
    assert_eq!(r.status, 400);
    assert_eq!(r.body, "empty name or phone");
    assert_eq!(store.show(None).len(), 0);
}

#[test]
fn post_then_get_by_new_id_returns_the_record() {
    let mut store = Store::new();
    let r = add_record(&mut store, "{\"name\":\"Ann\",\"phone\":\"555\"}");
    assert_eq!(r.status, 201);
    assert_eq!(r.body, "");
    let r = get_record(&store, "1");
    assert_eq!(r.status, 200);
    assert!(r.json);
    assert_eq!(r.body, "{\"id\":1,\"name\":\"Ann\",\"phone\":\"555\"}");
}

#[test]
fn post_bad_json_yields_400() {
    let mut store = Store::new();
    let r = add_record(&mut store, "not json");
    assert_eq!(r.status, 400);
    assert_eq!(r.body, "couldn't decode JSON");
}

#[test]
fn get_record_non_numeric_id_yields_400() {
    let store = Store::new();
    let r = get_record(&store, "abc");
    assert_eq!(r.status, 400);
    assert_eq!(r.body, "bad id");
}

#[test]
fn get_record_missing_yields_500() {
    let store = Store::new();
    let r = get_record(&store, "5");
    assert_eq!(r.status, 500);
    assert_eq!(r.body, "couldn't read records from database");
}

#[test]
fn get_records_without_query_lists_all() {
    let mut store = Store::new();
    add_record(&mut store, "{\"name\":\"Ann\",\"phone\":\"1\"}");
    add_record(&mut store, "{\"name\":\"Bob\",\"phone\":\"2\"}");
    let r = get_records(&store, None);
    assert_eq!(r.status, 200);
    assert!(r.json);
    assert_eq!(
        r.body,
        "[{\"id\":1,\"name\":\"Ann\",\"phone\":\"1\"},{\"id\":2,\"name\":\"Bob\",\"phone\":\"2\"}]"
    );
}

#[test]
fn get_records_empty_store_is_empty_array() {
    let store = Store::new();
    let r = get_records(&store, None);
    assert_eq!(r.status, 200);
    assert_eq!(r.body, "[]");
}

#[test]
fn get_records_with_name_filter() {
    let mut store = Store::new();
    add_record(&mut store, "{\"name\":\"Diana\",\"phone\":\"1\"}");
    add_record(&mut store, "{\"name\":\"Bob\",\"phone\":\"2\"}");
    let r = get_records(&store, Some("name=ana"));
    assert_eq!(r.status, 200);
    assert_eq!(r.body, "[{\"id\":1,\"name\":\"Diana\",\"phone\":\"1\"}]");
}

#[test]
fn get_records_with_other_parameter_yields_400() {
    let store = Store::new();
    let r = get_records(&store, Some("phone=5"));
    assert_eq!(r.status, 400);
    assert_eq!(r.body, "passed more than one parameter or no parameters at all");
}

#[test]
fn get_records_with_repeated_parameter_yields_400() {
    let store = Store::new();
    let r = get_records(&store, Some("name=a&name=b"));
    assert_eq!(r.status, 400);
}

#[test]
fn get_records_with_empty_query_yields_400() {
    let store = Store::new();
    let r = get_records(&store, Some(""));
    assert_eq!(r.status, 400);
}

#[test]
fn put_updates_and_yields_204() {
    let mut store = Store::new();
    add_record(&mut store, "{\"name\":\"Ann\",\"phone\":\"1\"}");
    let r = update_record(&mut store, "1", "{\"name\":\"Anne\",\"phone\":\"9\"}");
    assert_eq!(r.status, 204);
    let r = get_record(&store, "1");
    assert_eq!(r.body, "{\"id\":1,\"name\":\"Anne\",\"phone\":\"9\"}");
}

#[test]
fn put_bad_id_yields_400() {
    let mut store = Store::new();
    let r = update_record(&mut store, "x1", "{\"name\":\"A\",\"phone\":\"9\"}");
    assert_eq!(r.status, 400);
    assert_eq!(r.body, "bad id");
}

#[test]
fn put_empty_field_yields_400() {
    let mut store = Store::new();
    add_record(&mut store, "{\"name\":\"Ann\",\"phone\":\"1\"}");
    let r = update_record(&mut store, "1", "{\"name\":\"Ann\",\"phone\":\"\"}");
    assert_eq!(r.status, 400);
    assert_eq!(r.body, "empty name or phone");
}

#[test]
fn delete_yields_204_then_get_fails() {
    let mut store = Store::new();
    add_record(&mut store, "{\"name\":\"Ann\",\"phone\":\"1\"}");
    let r = delete_record(&mut store, "1");
    assert_eq!(r.status, 204);
    let r = get_record(&store, "1");
    assert_eq!(r.status, 500);
}

#[test]
fn delete_missing_id_still_yields_204() {
    let mut store = Store::new();
    let r = delete_record(&mut store, "9");
    assert_eq!(r.status, 204);
}

#[test]
fn delete_bad_id_yields_400() {
    let mut store = Store::new();
    let r = delete_record(&mut store, "1a");
    assert_eq!(r.status, 400);
}

#[test]
fn route_matches_collection_and_item() {
    assert!(matches!(route("/api/v1/records"), Route::Records));
    match route("/api/v1/records/17") {
        Route::RecordById(sid) => assert_eq!(sid, "17"),
        _ => panic!("expected an item route"),
    }
    assert!(matches!(route("/api/v1/records/"), Route::NoRoute));
    assert!(matches!(route("/api/v1/records/1/2"), Route::NoRoute));
    assert!(matches!(route("/other"), Route::NoRoute));
}

#[test]
fn dispatch_serves_the_whole_api() {
    let mut store = Store::new();
    let r = dispatch(&mut store, "POST", "/api/v1/records", None, "{\"name\":\"Ann\",\"phone\":\"5\"}");
    assert_eq!(r.status, 201);
    let r = dispatch(&mut store, "GET", "/api/v1/records", None, "");
    assert_eq!(r.status, 200);
    assert_eq!(r.body, "[{\"id\":1,\"name\":\"Ann\",\"phone\":\"5\"}]");
    let r = dispatch(&mut store, "GET", "/api/v1/records/abc", None, "");
    assert_eq!(r.status, 400);
    let r = dispatch(&mut store, "PUT", "/api/v1/records/1", None, "{\"name\":\"An\",\"phone\":\"6\"}");
    assert_eq!(r.status, 204);
    let r = dispatch(&mut store, "DELETE", "/api/v1/records/1", None, "");
    assert_eq!(r.status, 204);
    let r = dispatch(&mut store, "GET", "/api/v1/records/1", None, "");
    assert_eq!(r.status, 500);
    let r = dispatch(&mut store, "PATCH", "/api/v1/records", None, "");
    assert_eq!(r.status, 404);
    let r = dispatch(&mut store, "GET", "/nowhere", None, "");
    assert_eq!(r.status, 404);
}
