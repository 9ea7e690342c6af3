//! Logging in.

use crate::gui::auth::same_bytes;
use crate::gui::auth::AuthState;
use crate::gui::reply::text_reply;
use crate::gui::reply::typed_reply;
use crate::gui::reply::Reply;
use crate::gui::reply::ReplyView;
use vstd::prelude::*;
use vstd::string::StringExecFns;

verus! {

/// What the login page sends.
#[derive(Debug)]
pub struct LoginRequest {
    pub password: String,
}

/// The cookie that a browser gets when it has logged in. It lasts a year.
pub open spec fn auth_cookie(token: Seq<char>) -> Seq<char> {
    "auth="@ + token + "; HttpOnly; Path=/; SameSite=Lax; Max-Age=31536000"@
}

/// The answer to the right password.
pub open spec fn welcome(token: Seq<char>) -> ReplyView {
    ReplyView {
        status: 200,
        headers: seq![
            ("set-cookie"@, auth_cookie(token)),
            ("content-type"@, "application/json"@),
        ],
        body: "{\"status\":\"ok\"}"@,
    }
}

/// The login page.
pub fn get_login(login_html: &str) -> (reply: Reply)
    ensures
        reply@ == typed_reply(200, "text/html; charset=utf-8"@, login_html@),
{
    Reply::typed(200, "text/html; charset=utf-8", login_html.to_string())
}

/// Hands out the cookie for the right password, and for no other.
pub fn post_login(state: &AuthState, body: &LoginRequest) -> (reply: Reply)
    ensures
        reply@ == (if body.password@ == state.password@ {
            welcome(state.token@)
        } else {
            text_reply(401, "Wrong password"@)
        }),
{
    let given = body.password.as_str().as_bytes();
    let expected = state.password.as_str().as_bytes();
    let ok = given.len() == expected.len() && same_bytes(given, expected);
    proof {
        vstd::utf8::encode_utf8_decode_utf8(body.password@);
        vstd::utf8::encode_utf8_decode_utf8(state.password@);
    }
    if !ok {
        return Reply::text(401, "Wrong password".to_string());
    }
    let mut cookie = "auth=".to_string();
    cookie.append(state.token.as_str());
    cookie.append("; HttpOnly; Path=/; SameSite=Lax; Max-Age=31536000");
    let reply = Reply::bare(200, "{\"status\":\"ok\"}".to_string()).with_header(
        "set-cookie",
        cookie,
    ).with_header("content-type", "application/json".to_string());
    assert(reply@.headers =~= welcome(state.token@).headers);
    reply
}

/// Whoever knows the password gets the cookie with the token, which scripts cannot read, which is
/// good for the whole site and for a year; whoever does not is told so, and gets no cookie.
pub proof fn law_cookie_for_the_password_alone(
    state: AuthState,
    body: LoginRequest,
    reply: Reply,
)
    requires
        call_ensures(post_login, (&state, &body), reply),
    ensures
        body.password@ == state.password@ ==> {
            &&& reply@.status == 200
            &&& reply@.headers == seq![
                (
                    "set-cookie"@,
                    "auth="@ + state.token@
                        + "; HttpOnly; Path=/; SameSite=Lax; Max-Age=31536000"@,
                ),
                ("content-type"@, "application/json"@),
            ]
            &&& reply@.body == "{\"status\":\"ok\"}"@
        },
        body.password@ != state.password@ ==> {
            &&& reply@.status == 401
            &&& reply@.headers == seq![("content-type"@, "text/plain; charset=utf-8"@)]
            &&& reply@.body == "Wrong password"@
        },
{
}

/// The login page is shown as it is, as HTML.
pub proof fn law_login_page_is_shown(login_html: &str, reply: Reply)
    requires
        call_ensures(get_login, (login_html,), reply),
    ensures
        reply@.status == 200,
        reply@.headers == seq![("content-type"@, "text/html; charset=utf-8"@)],
        reply@.body == login_html@,
{
}

} // verus!
