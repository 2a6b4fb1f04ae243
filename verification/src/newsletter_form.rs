//! The publish form page.
//!
//! The page shows any flash messages and a form whose hidden
//! `idempotency_key` field carries a fresh token, so that a double submit
//! of the same form replays instead of publishing twice.

use vstd::prelude::*;

use vstd::utf8::encode_utf8;

use crate::response::{HttpResponseDescriptor, ResponseModel};

verus! {

/// Relies on `uuid::Uuid::new_v4` and its display form: a fresh random
/// version-4 UUID, formatted as the 36-character hyphenated lowercase
/// form, which is ASCII, so 36 characters and 36 bytes. Nothing more is
/// promised of the value.
#[verifier::external_body]
fn fresh_idempotency_token() -> (r: String)
    ensures
        r@.len() == 36,
        encode_utf8(r@).len() == 36,
{
    uuid::Uuid::new_v4().to_string()
}

/// The views of a list of messages.
pub open spec fn message_views(messages: Seq<String>) -> Seq<Seq<char>> {
    messages.map_values(|m: String| m@)
}

/// The flash messages rendered as HTML paragraphs, in order.
pub open spec fn messages_html(messages: Seq<Seq<char>>) -> Seq<char>
    decreases messages.len(),
{
    if messages.len() == 0 {
        Seq::empty()
    } else {
        messages_html(messages.drop_last()) + "<p><i>"@ + messages.last() + "</i></p>\n"@
    }
}

/// The form page's body: the messages, then the form with the given
/// idempotency key in its hidden field.
pub open spec fn form_page_body(messages: Seq<Seq<char>>, idempotency_key: Seq<char>) -> Seq<
    char,
> {
    FORM_PAGE_HEAD@ + messages_html(messages) + FORM_PAGE_MIDDLE@ + idempotency_key
        + FORM_PAGE_TAIL@
}

/// The form page as a response: HTML, status 200.
pub open spec fn form_page_model(messages: Seq<Seq<char>>, idempotency_key: Seq<char>) -> ResponseModel {
    ResponseModel {
        status_code: 200,
        headers: seq![("Content-Type"@, "text/html; charset=utf-8"@)],
        body: form_page_body(messages, idempotency_key),
    }
}

pub const FORM_PAGE_HEAD: &'static str = "<!DOCTYPE html>\n<html lang=\"en\">\n<head>\n<meta http-equiv=\"content-type\" content=\"text/html; charset=utf-8\">\n<title>Newsletter</title>\n</head>\n<body>\n";

pub const FORM_PAGE_MIDDLE: &'static str = "<form action=\"/admin/newsletters\" method=\"post\">\n<label>Title\n<input type=\"text\" placeholder=\"Enter Title\" name=\"title\">\n</label>\n<label>TextContent\n<input type=\"text\" placeholder=\"Enter Text Content\" name=\"text_content\">\n</label>\n<label>HtmlContent\n<input type=\"text\" placeholder=\"Enter Html Content\" name=\"html_content\">\n</label>\n<input hidden type=\"text\" name=\"idempotency_key\" value=";

pub const FORM_PAGE_TAIL: &'static str =
    "/>\n<button type=\"submit\">Publish</button>\n</form>\n</body>\n</html>\n";

/// Renders the form page around the given flash messages and idempotency
/// key.
pub fn render_newsletter_form(flash_messages: &Vec<String>, idempotency_key: &str) -> (r:
    HttpResponseDescriptor)
    ensures
        r@ == form_page_model(message_views(flash_messages@), idempotency_key@),
{
    let ghost all = message_views(flash_messages@);
    let n = flash_messages.len();
    let mut msg_html = String::new();
    let mut i: usize = 0;
    while i < n
        invariant
            n == flash_messages.len(),
            i <= n,
            msg_html@ =~= messages_html(message_views(flash_messages@).take(i as int)),
        decreases n - i,
    {
        let ghost all = message_views(flash_messages@);
        msg_html.append("<p><i>");
        msg_html.append(flash_messages[i].as_str());
        msg_html.append("</i></p>\n");
        proof {
            assert(all.take(i + 1).drop_last() =~= all.take(i as int));
            assert(all.take(i + 1).last() == flash_messages@[i as int]@);
            assert(msg_html@ =~= messages_html(all.take(i + 1)));
        }
        i = i + 1;
    }
    proof {
        assert(all.take(n as int) =~= all);
    }
    let mut body = String::from_str(FORM_PAGE_HEAD);
    body.append(msg_html.as_str());
    body.append(FORM_PAGE_MIDDLE);
    body.append(idempotency_key);
    body.append(FORM_PAGE_TAIL);
    let mut headers: Vec<(String, String)> = Vec::new();
    headers.push(
        (String::from_str("Content-Type"), String::from_str("text/html; charset=utf-8")),
    );
    let r = HttpResponseDescriptor { status_code: 200, headers, body };
    proof {
        let target = form_page_model(all, idempotency_key@);
        assert(r@.headers =~= target.headers);
        assert(r@.body =~= target.body);
        assert(r@ =~= target);
    }
    r
}

/// Renders the publish form with a fresh idempotency key in its hidden
/// field: some 36-character token, different on every rendering.
pub fn publish_newsletter_form(flash_messages: &Vec<String>) -> (r: HttpResponseDescriptor)
    ensures
        exists|key: Seq<char>|
            #![trigger form_page_model(message_views(flash_messages@), key)]
            {
                &&& key.len() == 36
                &&& r@ == form_page_model(message_views(flash_messages@), key)
            },
{
    let token = fresh_idempotency_token();
    let r = render_newsletter_form(flash_messages, token.as_str());
    proof {
        let key = token@;
        assert(key.len() == 36 && r@ == form_page_model(message_views(flash_messages@), key));
    }
    r
}

} // verus!
