use server_scaffold::newsletter_form::{
    publish_newsletter_form, render_newsletter_form, FORM_PAGE_HEAD, FORM_PAGE_MIDDLE,
    FORM_PAGE_TAIL,
};
use server_scaffold::publish::{publish_newsletter_at, success_message, FormData};
use server_scaffold::response::{see_other, status_only};
use server_scaffold::startup::{report_exit, ApplicationBaseUrl, TaskOutcome};
use server_scaffold::store::Store;

#[test]
fn see_other_is_a_303_with_a_location_header() {
    let r = see_other("/admin/newsletters");
    assert_eq!(r.status_code, 303);
    assert_eq!(r.headers, vec![("Location".to_string(), "/admin/newsletters".to_string())]);
    assert_eq!(r.body, "");
}

#[test]
fn status_only_carries_nothing_but_the_status() {
    let r = status_only(500);
    assert_eq!(r.status_code, 500);
    assert!(r.headers.is_empty());
    assert_eq!(r.body, "");
}

#[test]
fn duplicate_is_an_exact_copy() {
    let r = see_other("/somewhere");
    assert_eq!(r.duplicate(), r);
}

#[test]
fn the_form_page_renders_messages_and_key_in_order() {
    let messages = vec![success_message()];
    let r = render_newsletter_form(&messages, "abc");
    assert_eq!(r.status_code, 200);
    assert_eq!(
        r.headers,
        vec![("Content-Type".to_string(), "text/html; charset=utf-8".to_string())]
    );
    let expected = format!(
        "{}<p><i>The newsletter issue has been published!</i></p>\n{}abc{}",
        FORM_PAGE_HEAD, FORM_PAGE_MIDDLE, FORM_PAGE_TAIL
    );
    assert_eq!(r.body, expected);
}

#[test]
fn the_form_page_embeds_a_fresh_usable_idempotency_key() {
    let r = publish_newsletter_form(&Vec::new());
    assert_eq!(r.status_code, 200);

    // Extract the hidden field's token and use it to publish: the token
    // must be 36 characters and pass key validation.
    let marker = "name=\"idempotency_key\" value=";
    let at = r.body.find(marker).expect("the form holds the hidden key field") + marker.len();
    let token: String = r.body[at..].chars().take(36).collect();
    assert_eq!(token.len(), 36);

    let other = publish_newsletter_form(&Vec::new());
    assert_ne!(other.body, r.body, "each rendering embeds a fresh token");

    let mut store = Store::new();
    let form = FormData {
        title: "Newsletter title".to_string(),
        text_content: "Newsletter body as plain text.".to_string(),
        html_content: "<p>Newsletter body as HTML.</p>".to_string(),
        idempotency_key: token,
    };
    assert!(publish_newsletter_at(&mut store, 7, &form, 100).is_ok());
}

#[test]
fn report_exit_names_the_task_and_how_it_ended() {
    assert_eq!(report_exit("API", &TaskOutcome::Completed), "API has exited");
    assert_eq!(
        report_exit("Background worker", &TaskOutcome::Failed("boom".to_string())),
        "Background worker failed"
    );
    assert_eq!(
        report_exit("API", &TaskOutcome::Panicked("cancelled".to_string())),
        "API' task failed to complete"
    );
}

#[test]
fn the_base_url_is_plain_data() {
    let base = ApplicationBaseUrl("http://127.0.0.1:8000".to_string());
    assert_eq!(base.0, "http://127.0.0.1:8000");
}

#[test]
fn the_success_message_matches_the_flash_text() {
    assert_eq!(success_message(), "The newsletter issue has been published!");
}
