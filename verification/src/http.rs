use vstd::prelude::*;

use crate::json::encode_record;
use crate::json::encode_records;
use crate::json::json_record;
use crate::json::json_records;
use crate::json::parse_record_body;
use crate::json::spec_parse_body;
use crate::nums::int_literal_value;
use crate::nums::parse_i32;
use crate::nums::valid_i32;
use crate::query::pairs_view;
use crate::query::parse_query;
use crate::query::query_pairs;
use crate::store::Store;
use crate::store::StoreView;
use crate::store::spec_insert;
use crate::store::spec_list;
use crate::store::spec_read_one;
use crate::store::spec_remove;
use crate::store::spec_update;
use crate::text::find_char;
use crate::text::first_at;
use crate::text::str_eq;

verus! {

/// An HTTP response as the handlers decide it: the status code, the
/// body, and whether the body is JSON.
pub struct Response {
    pub status: u16,
    pub json: bool,
    pub body: String,
}

/// The mathematical value of a [`Response`].
#[verifier::ext_equal]
pub ghost struct ResponseView {
    pub status: int,
    pub json: bool,
    pub body: Seq<char>,
}

impl View for Response {
    type V = ResponseView;

    open spec fn view(&self) -> ResponseView {
        ResponseView { status: self.status as int, json: self.json, body: self.body@ }
    }
}

/// A response view in one expression.
pub open spec fn resp(status: int, json: bool, body: Seq<char>) -> ResponseView {
    ResponseView { status, json, body }
}

/// The view of an optional borrowed string, as the handlers take the
/// raw query string.
pub open spec fn opt_view(o: Option<&str>) -> Option<Seq<char>> {
    match o {
        None => None,
        Some(s) => Some(s@),
    }
}

/// Where a request path leads: the record collection, one record
/// (with the raw id segment), or nowhere.
pub enum Route {
    Records,
    RecordById(String),
    NoRoute,
}

/// The mathematical value of a [`Route`].
pub ghost enum RouteView {
    Records,
    RecordById(Seq<char>),
    NoRoute,
}

impl View for Route {
    type V = RouteView;

    open spec fn view(&self) -> RouteView {
        match self {
            Route::Records => RouteView::Records,
            Route::RecordById(sid) => RouteView::RecordById(sid@),
            Route::NoRoute => RouteView::NoRoute,
        }
    }
}

/// The routing table: the collection path exactly, or the collection
/// path, a slash, and one non-empty segment without further slashes.
pub open spec fn spec_route(p: Seq<char>) -> RouteView {
    if p == "/api/v1/records"@ {
        RouteView::Records
    } else if p.len() > 16 && p.subrange(0, 16) == "/api/v1/records/"@ && first_at(p, 16, '/')
        == p.len() {
        RouteView::RecordById(p.subrange(16, p.len() as int))
    } else {
        RouteView::NoRoute
    }
}

/// Matches a request path against the routing table.
pub fn route(path: &str) -> (r: Route)
    ensures
        r@ == spec_route(path@),
{
    if str_eq(path, "/api/v1/records") {
        return Route::Records;
    }
    let n = path.unicode_len();
    if n > 16 {
        let prefix = path.substring_char(0, 16);
        if str_eq(prefix, "/api/v1/records/") {
            if find_char(path, 16, '/') == n {
                let seg = path.substring_char(16, n).to_owned();
                return Route::RecordById(seg);
            }
        }
    }
    Route::NoRoute
}

/// What the collection GET does with the raw query string: no string
/// at all lists everything, exactly one `name` parameter filters, and
/// anything else is a client error.
pub ghost enum QueryDecision {
    NoFilter,
    Filter(Seq<char>),
    BadQuery,
}

pub open spec fn query_decision(q: Option<Seq<char>>) -> QueryDecision {
    match q {
        None => QueryDecision::NoFilter,
        Some(s) => {
            let ps = query_pairs(s);
            if ps.len() == 1 && ps[0].0 == "name"@ {
                QueryDecision::Filter(ps[0].1)
            } else {
                QueryDecision::BadQuery
            }
        },
    }
}

/// The response of `GET /api/v1/records`: 200 with the JSON array of
/// the matching rows, or 400 for a bad query string.
pub open spec fn spec_get_records(v: StoreView, q: Option<Seq<char>>) -> ResponseView {
    match query_decision(q) {
        QueryDecision::BadQuery => resp(
            400,
            false,
            "passed more than one parameter or no parameters at all"@,
        ),
        QueryDecision::NoFilter => resp(200, true, json_records(spec_list(v.rows, None))),
        QueryDecision::Filter(f) => resp(200, true, json_records(spec_list(v.rows, Some(f)))),
    }
}

/// The response of `GET /api/v1/records/:id`: 400 for a malformed id,
/// 200 with the JSON object, or 500 when the row is not found.
pub open spec fn spec_get_record(v: StoreView, sid: Seq<char>) -> ResponseView {
    if !valid_i32(sid) {
        resp(400, false, "bad id"@)
    } else {
        match spec_read_one(v.rows, int_literal_value(sid)) {
            Some(rv) => resp(200, true, json_record(rv)),
            None => resp(500, false, "couldn't read records from database"@),
        }
    }
}

/// The response of `POST /api/v1/records`: 400 for a body outside the
/// grammar or with an empty field, 201 when the record is inserted.
pub open spec fn spec_add_response(d: Option<(Seq<char>, Seq<char>)>) -> ResponseView {
    match d {
        None => resp(400, false, "couldn't decode JSON"@),
        Some((n, p)) => if n.len() == 0 || p.len() == 0 {
            resp(400, false, "empty name or phone"@)
        } else {
            resp(201, false, Seq::empty())
        },
    }
}

/// What `POST /api/v1/records` does to the store: an insert exactly
/// when the body is accepted.
pub open spec fn spec_add_effect(v: StoreView, d: Option<(Seq<char>, Seq<char>)>) -> StoreView {
    match d {
        None => v,
        Some((n, p)) => if n.len() == 0 || p.len() == 0 {
            v
        } else {
            spec_insert(v, n, p)
        },
    }
}

/// The response of `PUT /api/v1/records/:id`: 400 for a malformed id,
/// body or empty field, 204 when the update ran (matching no row is
/// not distinguished from success).
pub open spec fn spec_update_response(sid: Seq<char>, d: Option<(Seq<char>, Seq<char>)>) -> ResponseView {
    if !valid_i32(sid) {
        resp(400, false, "bad id"@)
    } else {
        match d {
            None => resp(400, false, "couldn't decode JSON"@),
            Some((n, p)) => if n.len() == 0 || p.len() == 0 {
                resp(400, false, "empty name or phone"@)
            } else {
                resp(204, false, Seq::empty())
            },
        }
    }
}

/// What `PUT /api/v1/records/:id` does to the store.
pub open spec fn spec_update_effect(
    v: StoreView,
    sid: Seq<char>,
    d: Option<(Seq<char>, Seq<char>)>,
) -> StoreView {
    if !valid_i32(sid) {
        v
    } else {
        match d {
            None => v,
            Some((n, p)) => if n.len() == 0 || p.len() == 0 {
                v
            } else {
                StoreView { rows: spec_update(v.rows, int_literal_value(sid), n, p), ..v }
            },
        }
    }
}

/// The response of `DELETE /api/v1/records/:id`: 400 for a malformed
/// id, 204 otherwise (deleting an absent id is a silent no-op).
pub open spec fn spec_delete_response(sid: Seq<char>) -> ResponseView {
    if !valid_i32(sid) {
        resp(400, false, "bad id"@)
    } else {
        resp(204, false, Seq::empty())
    }
}

/// What `DELETE /api/v1/records/:id` does to the store.
pub open spec fn spec_delete_effect(v: StoreView, sid: Seq<char>) -> StoreView {
    if !valid_i32(sid) {
        v
    } else {
        StoreView {
            rows: spec_remove(v.rows, seq![int_literal_value(sid) as i32]),
            ..v
        }
    }
}


/// 400 for a malformed id segment.
pub fn bad_id_response() -> (r: Response)
    ensures
        r@ == resp(400, false, "bad id"@),
{
    Response { status: 400, json: false, body: "bad id".to_owned() }
}

/// 400 for a query string that is not exactly one `name` parameter.
pub fn bad_query_response() -> (r: Response)
    ensures
        r@ == resp(400, false, "passed more than one parameter or no parameters at all"@),
{
    Response {
        status: 400,
        json: false,
        body: "passed more than one parameter or no parameters at all".to_owned(),
    }
}

/// 400 for a request body outside the record grammar.
pub fn bad_json_response() -> (r: Response)
    ensures
        r@ == resp(400, false, "couldn't decode JSON"@),
{
    Response { status: 400, json: false, body: "couldn't decode JSON".to_owned() }
}

/// 400 for an empty name or phone.
pub fn empty_field_response() -> (r: Response)
    ensures
        r@ == resp(400, false, "empty name or phone"@),
{
    Response { status: 400, json: false, body: "empty name or phone".to_owned() }
}

/// 201 with an empty body, after a successful insert.
pub fn created_response() -> (r: Response)
    ensures
        r@ == resp(201, false, Seq::<char>::empty()),
{
    let r = Response { status: 201, json: false, body: String::new() };
    proof {
        assert(r@ =~= resp(201, false, Seq::<char>::empty()));
    }
    r
}

/// 204 with an empty body, after a successful update or delete.
pub fn no_content_response() -> (r: Response)
    ensures
        r@ == resp(204, false, Seq::<char>::empty()),
{
    let r = Response { status: 204, json: false, body: String::new() };
    proof {
        assert(r@ =~= resp(204, false, Seq::<char>::empty()));
    }
    r
}

/// 404 with an empty body, for paths and methods outside the routing
/// table.
pub fn not_found_response() -> (r: Response)
    ensures
        r@ == resp(404, false, Seq::<char>::empty()),
{
    let r = Response { status: 404, json: false, body: String::new() };
    proof {
        assert(r@ =~= resp(404, false, Seq::<char>::empty()));
    }
    r
}

/// 200 with a JSON body.
pub fn json_ok_response(body: String) -> (r: Response)
    ensures
        r@ == resp(200, true, body@),
{
    Response { status: 200, json: true, body }
}

/// The recovery for a backing store that fails while reading, or for a
/// point query that finds no row: a 500, and the process keeps
/// serving.
pub fn read_failure_response() -> (r: Response)
    ensures
        r@ == resp(500, false, "couldn't read records from database"@),
{
    Response { status: 500, json: false, body: "couldn't read records from database".to_owned() }
}

/// The recovery for a backing store that fails while inserting: a 500.
pub fn insert_failure_response() -> (r: Response)
    ensures
        r@ == resp(500, false, "couldn't insert record"@),
{
    Response { status: 500, json: false, body: "couldn't insert record".to_owned() }
}

/// The recovery for a backing store that fails while updating: a 404,
/// though the failure need not be a missing row.
pub fn update_failure_response() -> (r: Response)
    ensures
        r@ == resp(404, false, "couldn't update record"@),
{
    Response { status: 404, json: false, body: "couldn't update record".to_owned() }
}

/// The recovery for a backing store that fails while deleting: a 404,
/// under the same message as a failed update.
pub fn delete_failure_response() -> (r: Response)
    ensures
        r@ == resp(404, false, "couldn't update record"@),
{
    Response { status: 404, json: false, body: "couldn't update record".to_owned() }
}

/// Decides the list filter from the raw query string: the substring to
/// filter by, no filter, or the 400 for a bad query.
pub fn list_filter(query: Option<&str>) -> (r: Result<Option<String>, Response>)
    ensures
        match r {
            Ok(f) => match query_decision(opt_view(query)) {
                QueryDecision::NoFilter => f is None,
                QueryDecision::Filter(sub) => f matches Some(s) && s@ == sub,
                QueryDecision::BadQuery => false,
            },
            Err(e) => query_decision(opt_view(query)) is BadQuery && e@ == resp(
                400,
                false,
                "passed more than one parameter or no parameters at all"@,
            ),
        },
{
    match query {
        None => Ok(None),
        Some(q) => {
            let mut ps = parse_query(q);
            if ps.len() == 1 {
                proof {
                    assert(pairs_view(ps@)[0] == (ps@[0].0@, ps@[0].1@));
                }
                let key_is_name = str_eq(ps[0].0.as_str(), "name");
                if key_is_name {
                    match ps.pop() {
                        Some(p) => Ok(Some(p.1)),
                        None => Err(bad_query_response()),
                    }
                } else {
                    Err(bad_query_response())
                }
            } else {
                Err(bad_query_response())
            }
        },
    }
}

/// Validates a create or update body: the parsed non-empty name and
/// phone, or the 400 the request gets instead.
pub fn validate_record_body(body: &str) -> (r: Result<(String, String), Response>)
    ensures
        match r {
            Ok(p) => {
                &&& spec_parse_body(body@) == Some((p.0@, p.1@))
                &&& p.0@.len() > 0
                &&& p.1@.len() > 0
            },
            Err(e) => {
                &&& e@ == spec_add_response(spec_parse_body(body@))
                &&& match spec_parse_body(body@) {
                    None => true,
                    Some((n, p)) => n.len() == 0 || p.len() == 0,
                }
            },
        },
{
    match parse_record_body(body) {
        None => Err(bad_json_response()),
        Some((name, phone)) => {
            if name.as_str().is_empty() || phone.as_str().is_empty() {
                Err(empty_field_response())
            } else {
                Ok((name, phone))
            }
        },
    }
}

/// `GET /api/v1/records`, with the raw query string if the request
/// had one.
pub fn get_records(store: &Store, query: Option<&str>) -> (r: Response)
    requires
        store.wf(),
    ensures
        r@ == spec_get_records(store@, opt_view(query)),
{
    match list_filter(query) {
        Err(e) => e,
        Ok(f) => {
            let rows = match f {
                None => store.show(None),
                Some(sub) => store.show(Some(sub.as_str())),
            };
            json_ok_response(encode_records(&rows))
        },
    }
}

/// `GET /api/v1/records/:id`, with the raw id segment.
pub fn get_record(store: &Store, sid: &str) -> (r: Response)
    requires
        store.wf(),
    ensures
        r@ == spec_get_record(store@, sid@),
{
    match parse_i32(sid) {
        None => bad_id_response(),
        Some(id) => match store.read_one(id) {
            Ok(rec) => json_ok_response(encode_record(&rec)),
            Err(()) => read_failure_response(),
        },
    }
}

/// `POST /api/v1/records`, with the request body.
pub fn add_record(store: &mut Store, body: &str) -> (r: Response)
    requires
        old(store).wf(),
        old(store)@.next_id < 0x7fff_ffff,
    ensures
        final(store).wf(),
        r@ == spec_add_response(spec_parse_body(body@)),
        final(store)@ == spec_add_effect(old(store)@, spec_parse_body(body@)),
{
    match validate_record_body(body) {
        Err(e) => e,
        Ok((name, phone)) => {
            let _count = store.insert(name.as_str(), phone.as_str());
            created_response()
        },
    }
}

/// `PUT /api/v1/records/:id`, with the raw id segment and the request
/// body.
pub fn update_record(store: &mut Store, sid: &str, body: &str) -> (r: Response)
    requires
        old(store).wf(),
    ensures
        final(store).wf(),
        r@ == spec_update_response(sid@, spec_parse_body(body@)),
        final(store)@ == spec_update_effect(old(store)@, sid@, spec_parse_body(body@)),
{
    match parse_i32(sid) {
        None => bad_id_response(),
        Some(id) => match validate_record_body(body) {
            Err(e) => e,
            Ok((name, phone)) => {
                store.update(id, name.as_str(), phone.as_str());
                no_content_response()
            },
        },
    }
}

/// `DELETE /api/v1/records/:id`, with the raw id segment.
pub fn delete_record(store: &mut Store, sid: &str) -> (r: Response)
    requires
        old(store).wf(),
    ensures
        final(store).wf(),
        r@ == spec_delete_response(sid@),
        final(store)@ == spec_delete_effect(old(store)@, sid@),
{
    match parse_i32(sid) {
        None => bad_id_response(),
        Some(id) => {
            let mut ids: Vec<i32> = Vec::new();
            ids.push(id);
            proof {
                assert(ids@ =~= seq![id]);
            }
            store.remove(ids.as_slice());
            no_content_response()
        },
    }
}

/// What the whole API does with one request: the response and the
/// store it leaves behind.  Unknown paths and methods get an empty
/// 404.
pub open spec fn spec_handle(
    v: StoreView,
    m: Seq<char>,
    p: Seq<char>,
    q: Option<Seq<char>>,
    b: Seq<char>,
) -> (ResponseView, StoreView) {
    match spec_route(p) {
        RouteView::Records => {
            if m == "GET"@ {
                (spec_get_records(v, q), v)
            } else if m == "POST"@ {
                (spec_add_response(spec_parse_body(b)), spec_add_effect(v, spec_parse_body(b)))
            } else {
                (resp(404, false, Seq::empty()), v)
            }
        },
        RouteView::RecordById(sid) => {
            if m == "GET"@ {
                (spec_get_record(v, sid), v)
            } else if m == "PUT"@ {
                (
                    spec_update_response(sid, spec_parse_body(b)),
                    spec_update_effect(v, sid, spec_parse_body(b)),
                )
            } else if m == "DELETE"@ {
                (spec_delete_response(sid), spec_delete_effect(v, sid))
            } else {
                (resp(404, false, Seq::empty()), v)
            }
        },
        RouteView::NoRoute => (resp(404, false, Seq::empty()), v),
    }
}

/// Serves one request against the store: routes on method and path and
/// runs the matching handler.
pub fn dispatch(store: &mut Store, method: &str, path: &str, query: Option<&str>, body: &str) -> (r:
    Response)
    requires
        old(store).wf(),
        old(store)@.next_id < 0x7fff_ffff,
    ensures
        final(store).wf(),
        r@ == spec_handle(old(store)@, method@, path@, opt_view(query), body@).0,
        final(store)@ == spec_handle(old(store)@, method@, path@, opt_view(query), body@).1,
{
    match route(path) {
        Route::Records => {
            if str_eq(method, "GET") {
                get_records(&*store, query)
            } else if str_eq(method, "POST") {
                add_record(store, body)
            } else {
                not_found_response()
            }
        },
        Route::RecordById(sid) => {
            if str_eq(method, "GET") {
                get_record(&*store, sid.as_str())
            } else if str_eq(method, "PUT") {
                update_record(store, sid.as_str(), body)
            } else if str_eq(method, "DELETE") {
                delete_record(store, sid.as_str())
            } else {
                not_found_response()
            }
        },
        Route::NoRoute => not_found_response(),
    }
}

} // verus!
