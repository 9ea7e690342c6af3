use base64::Engine;
use stream_playback::gui::auth::{auth_middleware, check_credentials, Access, AuthState};
use stream_playback::gui::login::{get_login, post_login, LoginRequest};
use stream_playback::gui::reply::Reply;
use stream_playback::gui::server::{
    generate_token, serve_css, serve_html, serve_js, start_gui, GuiConfig, GuiStart,
};

fn state(password: &str) -> AuthState {
    AuthState { password: password.to_string(), token: "0123abcd".to_string() }
}

fn basic(credentials: &[u8]) -> Vec<u8> {
    let encoded = base64::engine::general_purpose::STANDARD.encode(credentials);
    format!("Basic {}", encoded).into_bytes()
}

fn granted(password: &str, authorization: Option<&[u8]>) -> bool {
    match auth_middleware(&state(password), authorization) {
        Access::Granted => true,
        Access::Refused(reply) => {
            assert_eq!(reply.status, 401);
            assert_eq!(reply.body, "Unauthorized");
            assert_eq!(
                headers(&reply),
                vec![("www-authenticate", "Basic realm=\"stream-playback\"")]
            );
            false
        }
    }
}

fn headers(reply: &Reply) -> Vec<(&str, &str)> {
    reply.headers.iter().map(|h| (h.name.as_str(), h.value.as_str())).collect()
}

#[test]
fn right_password_is_let_in() {
    assert!(granted("test", Some(&basic(b"anyone:test"))));
    assert!(granted("test", Some(&basic(b":test"))));
    assert!(granted("a:b", Some(&basic(b"user:a:b"))));
    assert!(granted("p\u{e4}ss", Some(&basic("us\u{e9}r:p\u{e4}ss".as_bytes()))));
    // As a browser sends it.
    assert!(granted("test", Some(b"Basic dXNlcjp0ZXN0")));
}

#[test]
fn wrong_credentials_are_refused() {
    assert!(!granted("test", None));
    assert!(!granted("test", Some(&basic(b"user:Test"))));
    assert!(!granted("test", Some(&basic(b"user:test1"))));
    assert!(!granted("test", Some(&basic(b"user:tes"))));
    assert!(!granted("test", Some(&basic(b"user:"))));
    assert!(!granted("test", Some(&basic(b"test"))));
    assert!(!granted("b", Some(&basic(b"user:a:b"))));
    assert!(!granted("test", Some(&basic(b""))));
    // The user is no UTF-8.
    assert!(!granted("test", Some(&basic(b"\xff:test"))));
}

#[test]
fn malformed_headers_are_refused() {
    assert!(!granted("test", Some(b"")));
    assert!(!granted("test", Some(b"Basic")));
    assert!(!granted("test", Some(b"basic dXNlcjp0ZXN0")));
    assert!(!granted("test", Some(b"Bearer dXNlcjp0ZXN0")));
    assert!(!granted("test", Some(b"Basic  dXNlcjp0ZXN0")));
    assert!(!granted("test", Some(b"Basic dXNlcjp0ZXN0=")));
    assert!(!granted("test", Some(b"Basic dXNlcjp0ZXN")));
    assert!(!granted("test", Some(b"Basic user:test")));
    assert!(!granted("test", Some(b"Basic dXNlcjp0ZXN0\x7f")));
    assert!(!granted("test", Some(b"Basic \xc3\xa4")));
}

#[test]
fn empty_password_lets_everyone_in() {
    assert!(granted("", None));
    assert!(granted("", Some(b"anything")));
}

#[test]
fn credentials_are_user_and_password() {
    assert!(check_credentials("test", b"user:test"));
    assert!(!check_credentials("test", b"test"));
    assert!(!check_credentials("", b"user"));
    assert!(check_credentials("", b"user:"));
    assert!(!check_credentials("x", b"\xc3:x"));
}

#[test]
fn login_with_the_password() {
    let body = LoginRequest { password: "test".to_string() };
    let reply = post_login(&state("test"), &body);
    assert_eq!(reply.status, 200);
    assert_eq!(reply.body, r#"{"status":"ok"}"#);
    assert_eq!(
        headers(&reply),
        vec![
            ("set-cookie", "auth=0123abcd; HttpOnly; Path=/; SameSite=Lax; Max-Age=31536000"),
            ("content-type", "application/json"),
        ]
    );
}

#[test]
fn login_with_another_password() {
    for given in ["", "tes", "test ", "TEST"] {
        let body = LoginRequest { password: given.to_string() };
        let reply = post_login(&state("test"), &body);
        assert_eq!(reply.status, 401);
        assert_eq!(reply.body, "Wrong password");
        assert_eq!(headers(&reply), vec![("content-type", "text/plain; charset=utf-8")]);
    }
    let body = LoginRequest { password: String::new() };
    assert_eq!(post_login(&state(""), &body).status, 200);
}

#[test]
fn pages_have_their_types() {
    let reply = serve_html("<p>");
    assert_eq!((reply.status, reply.body.as_str()), (200, "<p>"));
    assert_eq!(headers(&reply), vec![("content-type", "text/html; charset=utf-8")]);
    let reply = serve_js("1;");
    assert_eq!((reply.status, reply.body.as_str()), (200, "1;"));
    assert_eq!(headers(&reply), vec![("content-type", "application/javascript; charset=utf-8")]);
    let reply = serve_css("a{}");
    assert_eq!((reply.status, reply.body.as_str()), (200, "a{}"));
    assert_eq!(headers(&reply), vec![("content-type", "text/css; charset=utf-8")]);
    let reply = get_login("<form>");
    assert_eq!((reply.status, reply.body.as_str()), (200, "<form>"));
    assert_eq!(headers(&reply), vec![("content-type", "text/html; charset=utf-8")]);
}

#[test]
fn token_of_random_bytes() {
    let mut bytes = [0u8; 32];
    for (i, b) in bytes.iter_mut().enumerate() {
        *b = (i * 7) as u8;
    }
    let token = generate_token(Some(bytes), 1, 2);
    let expected: String = bytes.iter().map(|b| format!("{:02x}", b)).collect();
    assert_eq!(token, expected);
    assert_eq!(token.len(), 64);
    bytes[31] = 1;
    assert_ne!(generate_token(Some(bytes), 1, 2), token);
}

#[test]
fn token_without_random_bytes() {
    let nanos = 0x0123_4567_89ab_cdef_0011_2233_4455_6677u128;
    let address = 0x1000_0000usize;
    let token = generate_token(None, nanos, address);
    let mix = nanos ^ (address as u128);
    let expected: String =
        (0..32).map(|i| format!("{:02x}", ((mix >> (i * 4)) & 0xff) as u8)).collect();
    assert_eq!(token, expected);
}

fn gui(enabled: bool, bind_addr: &str, password: &str) -> GuiStart {
    start_gui(&GuiConfig {
        enabled,
        bind_addr: bind_addr.to_string(),
        port: 8081,
        password: password.to_string(),
    })
}

#[test]
fn gui_listens_where_it_should() {
    assert!(matches!(gui(false, "0.0.0.0", ""), GuiStart::Disabled));
    for (bind_addr, password, open) in [
        ("0.0.0.0", "test", false),
        ("0.0.0.0", "", true),
        ("127.0.0.1", "", false),
        ("127.0.0.1", "test", false),
    ] {
        match gui(true, bind_addr, password) {
            GuiStart::Listen { address, open_to_all } => {
                assert_eq!(address, format!("{}:8081", bind_addr));
                assert_eq!(open_to_all, open);
            }
            GuiStart::Disabled => panic!("disabled"),
        }
    }
}
