//! The HTTP layer: one handler per route over the repository operations, the
//! two fixed catch bodies, and the dispatch that maps a routed request to a
//! response.
//!
//! A handler's whole effect is specified as a function of the table value and
//! the request: the resulting table value and the response, status and body
//! text both.

use vstd::prelude::*;
use crate::models::NewTemplate;
use crate::models::Template;
use crate::models::TemplateView;
use crate::repository::Store;
use crate::repository::StoreError;
use crate::repository::StoreView;
use crate::repository::TemplateRepository;
use crate::repository::contains_id;
use crate::repository::lemma_find_contains;
use crate::repository::lemma_find_none;
use crate::repository::spec_find;
use crate::json::error_body;
use crate::json::spec_error_body;
use crate::json::spec_list_json;
use crate::json::spec_template_json;
use crate::json::template_to_json;
use crate::json::templates_to_json;

verus! {

/// An HTTP response: status code and body text.
pub struct HttpResponse {
    pub status: u16,
    pub body: String,
}

/// Mathematical value of a response.
#[verifier::ext_equal]
pub ghost struct ResponseView {
    pub status: int,
    pub body: Seq<char>,
}

impl View for HttpResponse {
    type V = ResponseView;

    open spec fn view(&self) -> ResponseView {
        ResponseView { status: self.status as int, body: self.body@ }
    }
}

/// A routed request as the framework hands it over: the route's parameters,
/// with `None` for a body that did not deserialize, and the two conditions
/// the framework reports itself (a preflight probe and an unmatched route).
pub enum Request {
    ListTemplates,
    ViewTemplate(i32),
    CreateTemplate(Option<NewTemplate>),
    UpdateTemplate(i32, Option<Template>),
    DeleteTemplate(i32),
    Preflight,
    Unmatched,
}

/// What a list query returns: the first 100 rows.
pub open spec fn spec_listing(rows: Seq<TemplateView>) -> Seq<TemplateView> {
    if rows.len() <= 100 {
        rows
    } else {
        rows.take(100)
    }
}

/// The fixed body of the catch-all not-found response.
pub open spec fn spec_not_found_body() -> Seq<char> {
    "{\"status\":404,\"title\":\"Not Found\",\"description\":\"The resource couldn't be found\"}"@
}

/// The fixed body of the unprocessable-entity response.
pub open spec fn spec_unprocessable_body() -> Seq<char> {
    "{\"status\":422,\"title\":\"Unprocessable Entity\",\"description\":\"The request was well-formed but one or more attributes are missing.\"}"@
}

/// The 500 response wrapping a store error message.
pub open spec fn spec_error_response(e: StoreError) -> ResponseView {
    ResponseView { status: 500, body: spec_error_body(e.spec_message()) }
}

/// Response of the list route: always 200 with the listing as a JSON array.
pub open spec fn spec_get_templates(s: StoreView) -> ResponseView {
    ResponseView { status: 200, body: spec_list_json(spec_listing(s.rows)) }
}

/// Response of the read route: the record as JSON, or 500 when the id is
/// absent.
pub open spec fn spec_view_template(s: StoreView, id: int) -> ResponseView {
    match spec_find(s.rows, id) {
        Some(t) => ResponseView { status: 200, body: spec_template_json(t) },
        None => spec_error_response(StoreError::NotFound),
    }
}

/// The row an insert performed on table value `s` produces.
pub open spec fn spec_created_row(s: StoreView, nt: crate::models::NewTemplateView) -> TemplateView {
    TemplateView { id: s.next_id, name: nt.name, content: nt.content, created_at: s.clock }
}

/// Effect of the create route: append the new row and return it as JSON, or
/// report the store error when no id is left.
pub open spec fn spec_create_template(s: StoreView, nt: crate::models::NewTemplateView) -> (
    StoreView,
    ResponseView,
) {
    if s.next_id < i32::MAX {
        let row = spec_created_row(s, nt);
        (
            StoreView { rows: s.rows.push(row), next_id: s.next_id + 1, clock: s.clock },
            ResponseView { status: 200, body: spec_template_json(row) },
        )
    } else {
        (s, spec_error_response(StoreError::Full))
    }
}

/// Effect of an update on the rows: every row carrying the record's id takes
/// its name and content, keeping its own id and creation timestamp.
pub open spec fn spec_update_rows(rows: Seq<TemplateView>, t: TemplateView) -> Seq<TemplateView> {
    rows.map_values(
        |r: TemplateView|
            if r.id == t.id {
                TemplateView { id: r.id, name: t.name, content: t.content, created_at: r.created_at }
            } else {
                r
            },
    )
}

/// Effect of the update route: rewrite the matching row and return the
/// re-read record as JSON; when no row matches, nothing changes and the
/// failed re-read is reported as 500.
pub open spec fn spec_update_template(s: StoreView, t: TemplateView) -> (StoreView, ResponseView) {
    let rows2 = spec_update_rows(s.rows, t);
    let s2 = StoreView { rows: rows2, next_id: s.next_id, clock: s.clock };
    match spec_find(rows2, t.id) {
        Some(row) => (s2, ResponseView { status: 200, body: spec_template_json(row) }),
        None => (s2, spec_error_response(StoreError::NotFound)),
    }
}

/// Effect of a delete on the rows: the row carrying the id leaves; with no
/// such row the rows stay as they are.
pub open spec fn spec_delete_rows(rows: Seq<TemplateView>, id: int) -> Seq<TemplateView> {
    if contains_id(rows, id) {
        rows.remove(choose|i: int| 0 <= i < rows.len() && (#[trigger] rows[i]).id == id)
    } else {
        rows
    }
}

/// Effect of the delete route: 204 with an empty body after removing the
/// row, or 404 with an empty body and no change when the id is absent.
pub open spec fn spec_delete_template(s: StoreView, id: int) -> (StoreView, ResponseView) {
    let s2 = StoreView { rows: spec_delete_rows(s.rows, id), next_id: s.next_id, clock: s.clock };
    if contains_id(s.rows, id) {
        (s2, ResponseView { status: 204, body: Seq::empty() })
    } else {
        (s2, ResponseView { status: 404, body: Seq::empty() })
    }
}

/// The whole service as one transition: what each routed request does to the
/// table and what it answers. A request whose body did not deserialize gets
/// the fixed 422 body; an unmatched route gets the fixed 404 body; a
/// preflight probe is answered 200 with no body. None of those three touch
/// the table.
pub open spec fn spec_handle(s: StoreView, req: Request) -> (StoreView, ResponseView) {
    match req {
        Request::ListTemplates => (s, spec_get_templates(s)),
        Request::ViewTemplate(id) => (s, spec_view_template(s, id as int)),
        Request::CreateTemplate(Some(nt)) => spec_create_template(s, nt@),
        Request::CreateTemplate(None) => (
            s,
            ResponseView { status: 422, body: spec_unprocessable_body() },
        ),
        Request::UpdateTemplate(_, Some(t)) => spec_update_template(s, t@),
        Request::UpdateTemplate(_, None) => (
            s,
            ResponseView { status: 422, body: spec_unprocessable_body() },
        ),
        Request::DeleteTemplate(id) => spec_delete_template(s, id as int),
        Request::Preflight => (s, ResponseView { status: 200, body: Seq::empty() }),
        Request::Unmatched => (s, ResponseView { status: 404, body: spec_not_found_body() }),
    }
}

/// GET /templates: 200 with the listing as a JSON array.
pub fn get_templates(s: &Store) -> (r: HttpResponse)
    requires
        s.wf(),
    ensures
        r@ == spec_get_templates(s@),
{
    let v = TemplateRepository::load_all(s);
    proof {
        let m = v@.map_values(|t: Template| t@);
        assert forall|i: int| 0 <= i < m.len() implies m[i] == spec_listing(s@.rows)[i] by {
            assert(v@[i]@ == s@.rows[i]);
        }
        assert(m =~= spec_listing(s@.rows));
    }
    let body = templates_to_json(&v);
    HttpResponse { status: 200, body }
}

/// GET /templates/{id}: 200 with the record as JSON, or 500 with the store
/// error when the id is absent.
pub fn view_template(s: &Store, id: i32) -> (r: HttpResponse)
    requires
        s.wf(),
    ensures
        r@ == spec_view_template(s@, id as int),
{
    match TemplateRepository::find_one(s, id) {
        Ok(t) => HttpResponse { status: 200, body: template_to_json(&t) },
        Err(e) => HttpResponse { status: 500, body: error_body(e.message().as_str()) },
    }
}

/// POST /templates: insert the payload, 200 with the created record as JSON;
/// 500 with the store error when the insert fails.
pub fn create_template(s: &mut Store, new_template: NewTemplate) -> (r: HttpResponse)
    requires
        old(s).wf(),
    ensures
        final(s).wf(),
        final(s)@ == spec_create_template(old(s)@, new_template@).0,
        r@ == spec_create_template(old(s)@, new_template@).1,
{
    let ghost nt = new_template@;
    match TemplateRepository::create(s, new_template) {
        Ok(t) => {
            proof {
                assert(s@ =~= spec_create_template(old(s)@, nt).0);
            }
            let body = template_to_json(&t);
            HttpResponse { status: 200, body }
        },
        Err(e) => HttpResponse { status: 500, body: error_body(e.message().as_str()) },
    }
}

/// PUT /templates/{id}: rewrite the record carrying the body's id (the path
/// id plays no part), 200 with the re-read record as JSON; 500 with the
/// store error when no record carries it.
pub fn update_template(s: &mut Store, _id: i32, template: Template) -> (r: HttpResponse)
    requires
        old(s).wf(),
    ensures
        final(s).wf(),
        final(s)@ == spec_update_template(old(s)@, template@).0,
        r@ == spec_update_template(old(s)@, template@).1,
{
    let ghost tv = template@;
    match TemplateRepository::save(s, template) {
        Ok(t) => {
            proof {
                let i = choose|i: int|
                    {
                        &&& 0 <= i < old(s)@.rows.len()
                        &&& (#[trigger] old(s)@.rows[i]).id == tv.id
                        &&& t@ == (TemplateView {
                            id: old(s)@.rows[i].id,
                            name: tv.name,
                            content: tv.content,
                            created_at: old(s)@.rows[i].created_at,
                        })
                        &&& s@.rows == old(s)@.rows.update(i, t@)
                        &&& spec_find(s@.rows, tv.id) == Some(t@)
                    };
                assert forall|j: int| 0 <= j < s@.rows.len() implies s@.rows[j] == spec_update_rows(
                    old(s)@.rows,
                    tv,
                )[j] by {
                    if j != i {
                        assert(s@.rows[j] == old(s)@.rows[j]);
                        if old(s)@.rows[j].id == tv.id {
                            if j < i {
                                assert(old(s)@.rows[j].id < old(s)@.rows[i].id);
                            } else {
                                assert(old(s)@.rows[i].id < old(s)@.rows[j].id);
                            }
                        }
                    }
                }
                assert(s@.rows =~= spec_update_rows(old(s)@.rows, tv));
                assert(s@ =~= spec_update_template(old(s)@, tv).0);
            }
            let body = template_to_json(&t);
            HttpResponse { status: 200, body }
        },
        Err(e) => {
            proof {
                assert forall|j: int| 0 <= j < s@.rows.len() implies s@.rows[j] == spec_update_rows(
                    old(s)@.rows,
                    tv,
                )[j] by {
                    assert(!(0 <= j < old(s)@.rows.len() && (#[trigger] old(s)@.rows[j]).id
                        == tv.id));
                }
                assert(s@.rows =~= spec_update_rows(old(s)@.rows, tv));
                lemma_find_contains(spec_update_rows(old(s)@.rows, tv), tv.id);
                assert forall|j: int|
                    0 <= j < spec_update_rows(old(s)@.rows, tv).len() implies (
                #[trigger] spec_update_rows(old(s)@.rows, tv)[j]).id != tv.id by {
                    assert(spec_update_rows(old(s)@.rows, tv)[j] == old(s)@.rows[j]);
                }
                lemma_find_none(spec_update_rows(old(s)@.rows, tv), tv.id);
                assert(s@ =~= spec_update_template(old(s)@, tv).0);
            }
            HttpResponse { status: 500, body: error_body(e.message().as_str()) }
        },
    }
}

/// DELETE /templates/{id}: 204 with an empty body after removing the record;
/// 404 with an empty body and no change when the id is absent.
pub fn delete_template(s: &mut Store, id: i32) -> (r: HttpResponse)
    requires
        old(s).wf(),
    ensures
        final(s).wf(),
        final(s)@ == spec_delete_template(old(s)@, id as int).0,
        r@ == spec_delete_template(old(s)@, id as int).1,
{
    if TemplateRepository::delete(s, id) {
        proof {
            let i = choose|i: int|
                {
                    &&& 0 <= i < old(s)@.rows.len()
                    &&& (#[trigger] old(s)@.rows[i]).id == id as int
                    &&& s@.rows == old(s)@.rows.remove(i)
                };
            let c = choose|c: int|
                0 <= c < old(s)@.rows.len() && (#[trigger] old(s)@.rows[c]).id == id as int;
            if i < c {
                assert(old(s)@.rows[i].id < old(s)@.rows[c].id);
            } else if c < i {
                assert(old(s)@.rows[c].id < old(s)@.rows[i].id);
            }
            assert(i == c);
            assert(s@ =~= spec_delete_template(old(s)@, id as int).0);
        }
        HttpResponse { status: 204, body: String::new() }
    } else {
        proof {
            assert(s@ =~= spec_delete_template(old(s)@, id as int).0);
        }
        HttpResponse { status: 404, body: String::new() }
    }
}

/// Catch for unmatched routes: the fixed not-found JSON body.
pub fn not_found() -> (r: HttpResponse)
    ensures
        r@.status == 404,
        r@.body == spec_not_found_body(),
{
    HttpResponse {
        status: 404,
        body: String::from_str(
            "{\"status\":404,\"title\":\"Not Found\",\"description\":\"The resource couldn't be found\"}",
        ),
    }
}

/// Catch for bodies that did not deserialize: the fixed unprocessable-entity
/// JSON body.
pub fn unprocessable_entity() -> (r: HttpResponse)
    ensures
        r@.status == 422,
        r@.body == spec_unprocessable_body(),
{
    HttpResponse {
        status: 422,
        body: String::from_str(
            "{\"status\":422,\"title\":\"Unprocessable Entity\",\"description\":\"The request was well-formed but one or more attributes are missing.\"}",
        ),
    }
}

/// Serve one routed request: perform its operation on the table and answer
/// as `spec_handle` lays down.
pub fn handle_request(s: &mut Store, req: Request) -> (r: HttpResponse)
    requires
        old(s).wf(),
    ensures
        final(s).wf(),
        final(s)@ == spec_handle(old(s)@, req).0,
        r@ == spec_handle(old(s)@, req).1,
{
    match req {
        Request::ListTemplates => get_templates(s),
        Request::ViewTemplate(id) => view_template(s, id),
        Request::CreateTemplate(Some(nt)) => create_template(s, nt),
        Request::CreateTemplate(None) => unprocessable_entity(),
        Request::UpdateTemplate(path_id, Some(t)) => update_template(s, path_id, t),
        Request::UpdateTemplate(_, None) => unprocessable_entity(),
        Request::DeleteTemplate(id) => delete_template(s, id),
        Request::Preflight => HttpResponse { status: 200, body: String::new() },
        Request::Unmatched => not_found(),
    }
}

} // verus!
