use template_service::http::handle_request;
use template_service::http::not_found;
use template_service::http::unprocessable_entity;
use template_service::http::Request;
use template_service::models::NewTemplate;
use template_service::models::Template;
use template_service::repository::Store;
use template_service::repository::StoreError;
use template_service::repository::TemplateRepository;

fn new_template(name: &str, content: &str) -> NewTemplate {
    NewTemplate { name: String::from(name), content: String::from(content) }
}

#[test]
fn create_then_read_back() {
    let mut s = Store::new();
    let created = TemplateRepository::create(&mut s, new_template("A", "B")).unwrap();
    assert!(created.id >= 1);
    assert_eq!(created.name, "A");
    assert_eq!(created.content, "B");
    assert!(!created.created_at.is_empty());
    let read = TemplateRepository::find_one(&s, created.id).unwrap();
    assert_eq!(read.id, created.id);
    assert_eq!(read.name, "A");
    assert_eq!(read.content, "B");
    assert_eq!(read.created_at, created.created_at);
}

#[test]
fn create_stamps_the_clock() {
    let mut s = Store::new();
    s.set_clock(String::from("2021-06-01 12:00:00"));
    let created = TemplateRepository::create(&mut s, new_template("A", "B")).unwrap();
    assert_eq!(created.created_at, "2021-06-01 12:00:00");
}

#[test]
fn listing_returns_each_created_record() {
    let mut s = Store::new();
    for i in 0..3 {
        let t = new_template(&format!("name {}", i), &format!("content {}", i));
        TemplateRepository::create(&mut s, t).unwrap();
    }
    let all = TemplateRepository::load_all(&s);
    assert_eq!(all.len(), 3);
    for (i, t) in all.iter().enumerate() {
        assert_eq!(t.id, (i + 1) as i32);
        assert_eq!(t.name, format!("name {}", i));
        assert_eq!(t.content, format!("content {}", i));
    }
}

#[test]
fn listing_stops_at_one_hundred() {
    let mut s = Store::new();
    for i in 0..150 {
        let t = new_template(&format!("name {}", i), "c");
        TemplateRepository::create(&mut s, t).unwrap();
    }
    let all = TemplateRepository::load_all(&s);
    assert_eq!(all.len(), 100);
    assert_eq!(all[0].id, 1);
    assert_eq!(all[99].id, 100);
}

#[test]
fn reading_a_missing_id_is_a_500() {
    let s = Store::new();
    let r = template_service::http::view_template(&s, 7);
    assert_eq!(r.status, 500);
    assert_eq!(r.body, "{\"error\":\"record not found\"}");
}

#[test]
fn find_one_reports_not_found() {
    let s = Store::new();
    assert_eq!(TemplateRepository::find_one(&s, 1).unwrap_err(), StoreError::NotFound);
}

#[test]
fn update_then_read_back() {
    let mut s = Store::new();
    s.set_clock(String::from("2021-06-01 12:00:00"));
    let created = TemplateRepository::create(&mut s, new_template("A", "B")).unwrap();
    s.set_clock(String::from("2022-01-01 00:00:00"));
    let body = Template {
        id: created.id,
        name: String::from("A2"),
        content: String::from("B2"),
        created_at: String::new(),
    };
    let saved = TemplateRepository::save(&mut s, body).unwrap();
    assert_eq!(saved.id, created.id);
    assert_eq!(saved.name, "A2");
    assert_eq!(saved.content, "B2");
    assert_eq!(saved.created_at, "2021-06-01 12:00:00");
    let read = TemplateRepository::find_one(&s, created.id).unwrap();
    assert_eq!(read.name, "A2");
    assert_eq!(read.content, "B2");
    assert_eq!(read.created_at, "2021-06-01 12:00:00");
}

#[test]
fn update_of_a_missing_id_changes_nothing() {
    let mut s = Store::new();
    TemplateRepository::create(&mut s, new_template("A", "B")).unwrap();
    let body = Template {
        id: 9,
        name: String::from("X"),
        content: String::from("Y"),
        created_at: String::new(),
    };
    assert_eq!(TemplateRepository::save(&mut s, body).unwrap_err(), StoreError::NotFound);
    let read = TemplateRepository::find_one(&s, 1).unwrap();
    assert_eq!(read.name, "A");
    assert_eq!(read.content, "B");
}

#[test]
fn delete_then_read_fails() {
    let mut s = Store::new();
    let created = TemplateRepository::create(&mut s, new_template("A", "B")).unwrap();
    let r = template_service::http::delete_template(&mut s, created.id);
    assert_eq!(r.status, 204);
    assert_eq!(r.body, "");
    assert!(TemplateRepository::find_one(&s, created.id).is_err());
    let again = template_service::http::view_template(&s, created.id);
    assert_eq!(again.status, 500);
}

#[test]
fn delete_of_a_missing_id_is_a_404_and_no_change() {
    let mut s = Store::new();
    TemplateRepository::create(&mut s, new_template("A", "B")).unwrap();
    let r = template_service::http::delete_template(&mut s, 9);
    assert_eq!(r.status, 404);
    assert_eq!(r.body, "");
    assert_eq!(TemplateRepository::load_all(&s).len(), 1);
    assert_eq!(TemplateRepository::find_one(&s, 1).unwrap().name, "A");
}

#[test]
fn deleted_ids_are_not_reused() {
    let mut s = Store::new();
    let first = TemplateRepository::create(&mut s, new_template("A", "B")).unwrap();
    assert!(TemplateRepository::delete(&mut s, first.id));
    let second = TemplateRepository::create(&mut s, new_template("C", "D")).unwrap();
    assert_eq!(second.id, first.id + 1);
}

#[test]
fn missing_body_is_a_422_with_the_fixed_shape() {
    let mut s = Store::new();
    let r = handle_request(&mut s, Request::CreateTemplate(None));
    assert_eq!(r.status, 422);
    assert_eq!(
        r.body,
        "{\"status\":422,\"title\":\"Unprocessable Entity\",\"description\":\"The request was well-formed but one or more attributes are missing.\"}"
    );
    assert_eq!(TemplateRepository::load_all(&s).len(), 0);
}

#[test]
fn unmatched_route_is_a_404_with_the_fixed_shape() {
    let mut s = Store::new();
    let r = handle_request(&mut s, Request::Unmatched);
    assert_eq!(r.status, 404);
    assert_eq!(
        r.body,
        "{\"status\":404,\"title\":\"Not Found\",\"description\":\"The resource couldn't be found\"}"
    );
}

#[test]
fn catchers_answer_with_the_fixed_bodies() {
    let nf = not_found();
    assert_eq!(nf.status, 404);
    assert_eq!(
        nf.body,
        "{\"status\":404,\"title\":\"Not Found\",\"description\":\"The resource couldn't be found\"}"
    );
    let ue = unprocessable_entity();
    assert_eq!(ue.status, 422);
    assert_eq!(
        ue.body,
        "{\"status\":422,\"title\":\"Unprocessable Entity\",\"description\":\"The request was well-formed but one or more attributes are missing.\"}"
    );
}

#[test]
fn preflight_is_answered_with_an_empty_200() {
    let mut s = Store::new();
    let r = handle_request(&mut s, Request::Preflight);
    assert_eq!(r.status, 200);
    assert_eq!(r.body, "");
}

#[test]
fn created_record_is_serialized_exactly() {
    let mut s = Store::new();
    s.set_clock(String::from("2021-06-01 12:00:00"));
    let r = handle_request(&mut s, Request::CreateTemplate(Some(new_template("A", "B"))));
    assert_eq!(r.status, 200);
    assert_eq!(
        r.body,
        "{\"id\":1,\"name\":\"A\",\"content\":\"B\",\"created_at\":\"2021-06-01 12:00:00\"}"
    );
}

#[test]
fn listing_is_serialized_exactly() {
    let mut s = Store::new();
    s.set_clock(String::from("2021-06-01 12:00:00"));
    let empty = handle_request(&mut s, Request::ListTemplates);
    assert_eq!(empty.status, 200);
    assert_eq!(empty.body, "[]");
    handle_request(&mut s, Request::CreateTemplate(Some(new_template("A", "B"))));
    handle_request(&mut s, Request::CreateTemplate(Some(new_template("C", "D"))));
    let two = handle_request(&mut s, Request::ListTemplates);
    assert_eq!(two.status, 200);
    assert_eq!(
        two.body,
        "[{\"id\":1,\"name\":\"A\",\"content\":\"B\",\"created_at\":\"2021-06-01 12:00:00\"},{\"id\":2,\"name\":\"C\",\"content\":\"D\",\"created_at\":\"2021-06-01 12:00:00\"}]"
    );
}

#[test]
fn string_values_are_escaped() {
    let mut s = Store::new();
    s.set_clock(String::from("2021-06-01 12:00:00"));
    let nt = new_template("a\"b\\c", "line\nbreak\ttab\u{1f}unit");
    let r = handle_request(&mut s, Request::CreateTemplate(Some(nt)));
    assert_eq!(r.status, 200);
    assert_eq!(
        r.body,
        "{\"id\":1,\"name\":\"a\\\"b\\\\c\",\"content\":\"line\\nbreak\\ttab\\u001funit\",\"created_at\":\"2021-06-01 12:00:00\"}"
    );
}

#[test]
fn update_through_the_handler_ignores_the_path_id() {
    let mut s = Store::new();
    s.set_clock(String::from("2021-06-01 12:00:00"));
    handle_request(&mut s, Request::CreateTemplate(Some(new_template("A", "B"))));
    let body = Template {
        id: 1,
        name: String::from("A2"),
        content: String::from("B2"),
        created_at: String::new(),
    };
    let r = handle_request(&mut s, Request::UpdateTemplate(42, Some(body)));
    assert_eq!(r.status, 200);
    assert_eq!(
        r.body,
        "{\"id\":1,\"name\":\"A2\",\"content\":\"B2\",\"created_at\":\"2021-06-01 12:00:00\"}"
    );
}

#[test]
fn record_serialization_handles_any_id() {
    let t = Template {
        id: -507,
        name: String::from("n"),
        content: String::from("c"),
        created_at: String::from("t"),
    };
    assert_eq!(
        template_service::json::template_to_json(&t),
        "{\"id\":-507,\"name\":\"n\",\"content\":\"c\",\"created_at\":\"t\"}"
    );
}

#[test]
fn reading_through_the_dispatch_returns_the_record() {
    let mut s = Store::new();
    s.set_clock(String::from("2021-06-01 12:00:00"));
    handle_request(&mut s, Request::CreateTemplate(Some(new_template("A", "B"))));
    let r = handle_request(&mut s, Request::ViewTemplate(1));
    assert_eq!(r.status, 200);
    assert_eq!(
        r.body,
        "{\"id\":1,\"name\":\"A\",\"content\":\"B\",\"created_at\":\"2021-06-01 12:00:00\"}"
    );
    let missing = handle_request(&mut s, Request::ViewTemplate(2));
    assert_eq!(missing.status, 500);
    assert_eq!(missing.body, "{\"error\":\"record not found\"}");
}

#[test]
fn error_messages_name_each_failure() {
    assert_eq!(StoreError::NotFound.message(), "record not found");
    assert_eq!(StoreError::Full.message(), "id space exhausted");
}
