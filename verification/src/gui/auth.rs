//! Access by password.

use crate::gui::reply::Reply;
use crate::gui::reply::ReplyView;
use base64::Engine;
use subtle::ConstantTimeEq;
use vstd::prelude::*;
use vstd::utf8::encode_utf8;
use vstd::utf8::valid_utf8;

verus! {

/// What the web interface was started with.
#[derive(Debug)]
pub struct AuthState {
    /// The password. Where it is empty, everyone may come in.
    pub password: String,
    /// What a browser that has logged in is given to keep.
    pub token: String,
}

/// The answer to a request: let it through, or refuse it.
#[derive(Debug)]
pub enum Access {
    Granted,
    Refused(Reply),
}

/// `ConstantTimeEq::ct_eq` on byte slices: whether they hold the same bytes.
#[verifier::external_body]
pub(crate) fn same_bytes(a: &[u8], b: &[u8]) -> (same: bool)
    ensures
        same == (a@ == b@),
{
    a.ct_eq(b).into()
}

/// What the standard alphabet of base64, with padding, makes of `text`; nothing where `text` is
/// not base64.
pub uninterp spec fn base64_decoded(text: Seq<u8>) -> Option<Seq<u8>>;

/// `Engine::decode` with `general_purpose::STANDARD`: what it decodes, or nothing where it reports
/// an error, is a function of the text.
#[verifier::external_body]
fn decode_base64(text: &[u8]) -> (decoded: Option<Vec<u8>>)
    ensures
        match decoded {
            Some(bytes) => base64_decoded(text@) == Some(bytes@),
            None => base64_decoded(text@) is None,
        },
{
    base64::engine::general_purpose::STANDARD.decode(text).ok()
}

/// `str::from_utf8` of the standard library: it succeeds on valid UTF-8, and on nothing else.
#[verifier::external_body]
fn is_utf8(bytes: &[u8]) -> (valid: bool)
    ensures
        valid == valid_utf8(bytes@),
{
    match std::str::from_utf8(bytes) {
        Ok(_) => true,
        Err(_) => false,
    }
}

/// `Basic `, in ASCII.
pub open spec fn basic_prefix() -> Seq<u8> {
    seq![66u8, 97u8, 115u8, 105u8, 99u8, 32u8]
}

/// Nothing but visible ASCII characters, spaces and tabs.
pub open spec fn is_header_text(value: Seq<u8>) -> bool {
    forall|i: int| 0 <= i < value.len() ==> 32 <= #[trigger] value[i] < 127 || value[i] == 9
}

/// What stands behind the first colon.
pub open spec fn after_colon(bytes: Seq<u8>) -> Option<Seq<u8>>
    decreases bytes.len(),
{
    if bytes.len() == 0 {
        None
    } else if bytes[0] == 58 {
        Some(bytes.skip(1))
    } else {
        after_colon(bytes.skip(1))
    }
}

/// These credentials, `user:password`, open the door: they are text, and the password is right.
/// The user may have any name.
pub open spec fn credentials_open(password: Seq<char>, credentials: Seq<u8>) -> bool {
    &&& valid_utf8(credentials)
    &&& after_colon(credentials) == Some(encode_utf8(password))
}

/// The value of an `Authorization` header opens the door.
pub open spec fn header_opens(password: Seq<char>, value: Seq<u8>) -> bool {
    &&& is_header_text(value)
    &&& basic_prefix().is_prefix_of(value)
    &&& base64_decoded(value.skip(6)) matches Some(credentials)
    &&& credentials_open(password, credentials)
}

/// The answer to a request that is not let in.
pub open spec fn unauthorized() -> ReplyView {
    ReplyView {
        status: 401,
        headers: seq![("www-authenticate"@, "Basic realm=\"stream-playback\""@)],
        body: "Unauthorized"@,
    }
}

/// The bytes of a header value, where there is one.
pub open spec fn given_bytes(value: Option<&[u8]>) -> Option<Seq<u8>> {
    match value {
        Some(value) => Some(value@),
        None => None,
    }
}

/// Whether a request with this `Authorization` header, if it has one, is let in.
pub open spec fn is_granted(password: Seq<char>, authorization: Option<Seq<u8>>) -> bool {
    password.len() == 0 || (authorization matches Some(value) && header_opens(password, value))
}

/// Whether a request with this `Authorization` header, if it has one, is let in, and the answer
/// if it is not.
pub fn auth_middleware(state: &AuthState, authorization: Option<&[u8]>) -> (access: Access)
    ensures
        match access {
            Access::Granted => is_granted(state.password@, given_bytes(authorization)),
            Access::Refused(reply) => {
                &&& !is_granted(state.password@, given_bytes(authorization))
                &&& reply@ == unauthorized()
            },
        },
{
    if state.password.as_str().is_empty() {
        return Access::Granted;
    }
    if let Some(value) = authorization {
        if header_text(value) && starts_with_basic(value) {
            if let Some(credentials) = decode_base64(
                vstd::slice::slice_subrange(value, 6, value.len()),
            ) {
                if check_credentials(state.password.as_str(), credentials.as_slice()) {
                    return Access::Granted;
                }
            }
        }
    }
    let reply = Reply::bare(401, "Unauthorized".to_string()).with_header(
        "www-authenticate",
        "Basic realm=\"stream-playback\"".to_string(),
    );
    Access::Refused(reply)
}

/// Whether credentials, `user:password`, open the door.
pub fn check_credentials(password: &str, credentials: &[u8]) -> (open: bool)
    ensures
        open == credentials_open(password@, credentials@),
{
    if !is_utf8(credentials) {
        return false;
    }
    let size: usize = credentials.len();
    match find_colon(credentials) {
        Some(colon) => {
            let given = vstd::slice::slice_subrange(credentials, colon + 1, size);
            let expected = password.as_bytes();
            given.len() == expected.len() && same_bytes(given, expected)
        },
        None => false,
    }
}

/// Where the first colon stands.
fn find_colon(bytes: &[u8]) -> (colon: Option<usize>)
    ensures
        match colon {
            Some(colon) => colon < bytes@.len() && after_colon(bytes@) == Some(
                bytes@.subrange(colon + 1, bytes@.len() as int),
            ),
            None => after_colon(bytes@) is None,
        },
{
    let mut i: usize = 0;
    assert(bytes@.skip(0) =~= bytes@);
    while i < bytes.len()
        invariant
            i <= bytes@.len(),
            after_colon(bytes@) == after_colon(bytes@.skip(i as int)),
        decreases bytes@.len() - i,
    {
        assert(bytes@.skip(i as int).skip(1) =~= bytes@.skip(i + 1));
        if bytes[i] == 58 {
            return Some(i);
        }
        i = i + 1;
    }
    None
}

fn header_text(value: &[u8]) -> (text: bool)
    ensures
        text == is_header_text(value@),
{
    let mut i: usize = 0;
    while i < value.len()
        invariant
            i <= value@.len(),
            forall|j: int| 0 <= j < i ==> 32 <= #[trigger] value@[j] < 127 || value@[j] == 9,
        decreases value@.len() - i,
    {
        let b: u8 = value[i];
        if !(b >= 32 && b < 127 || b == 9) {
            return false;
        }
        i = i + 1;
    }
    true
}

fn starts_with_basic(value: &[u8]) -> (starts: bool)
    ensures
        starts == basic_prefix().is_prefix_of(value@),
{
    value.len() >= 6 && value[0] == 66 && value[1] == 97 && value[2] == 115 && value[3] == 105
        && value[4] == 99 && value[5] == 32
}

/// The right password opens the door to any user, whatever the password is made of.
pub proof fn law_right_password_opens(user: Seq<u8>, password: Seq<char>)
    requires
        valid_utf8(user),
        !user.contains(58),
    ensures
        credentials_open(password, user + seq![58u8] + encode_utf8(password)),
{
    lemma_credentials_are_text(user, password);
    lemma_after_colon(user, encode_utf8(password));
}

/// A request whose header carries the right password, in base64, is let in.
pub proof fn law_request_with_password_is_granted(
    value: Seq<u8>,
    user: Seq<u8>,
    password: Seq<char>,
)
    requires
        valid_utf8(user),
        !user.contains(58),
        is_header_text(value),
        basic_prefix().is_prefix_of(value),
        base64_decoded(value.skip(6)) == Some(user + seq![58u8] + encode_utf8(password)),
    ensures
        is_granted(password, Some(value)),
{
    law_right_password_opens(user, password);
}

/// No other password opens it.
pub proof fn law_wrong_password_stays_out(user: Seq<u8>, given: Seq<char>, password: Seq<char>)
    requires
        !user.contains(58),
        given != password,
    ensures
        !credentials_open(password, user + seq![58u8] + encode_utf8(given)),
{
    lemma_after_colon(user, encode_utf8(given));
    vstd::utf8::encode_utf8_decode_utf8(given);
    vstd::utf8::encode_utf8_decode_utf8(password);
}

proof fn lemma_after_colon(user: Seq<u8>, rest: Seq<u8>)
    requires
        !user.contains(58),
    ensures
        after_colon(user + seq![58u8] + rest) == Some(rest),
    decreases user.len(),
{
    if user.len() > 0 {
        let tail = user.skip(1);
        lemma_after_colon(tail, rest);
        assert((user + seq![58u8] + rest).skip(1) =~= tail + seq![58u8] + rest);
    }
}

proof fn lemma_credentials_are_text(user: Seq<u8>, password: Seq<char>)
    requires
        valid_utf8(user),
    ensures
        valid_utf8(user + seq![58u8] + encode_utf8(password)),
{
    let colon = seq![58u8];
    assert(valid_utf8(colon)) by {
        vstd::utf8::encode_utf8_valid_utf8(seq![':']);
        vstd::utf8::is_ascii_chars_encode_utf8(seq![':']);
    }
    vstd::utf8::encode_utf8_valid_utf8(password);
    vstd::utf8::valid_utf8_concat(user, colon);
    vstd::utf8::valid_utf8_concat(user + colon, encode_utf8(password));
}

/// Without a password everyone is let in.
pub proof fn law_no_password_lets_everyone_in(
    state: AuthState,
    authorization: Option<&[u8]>,
    access: Access,
)
    requires
        call_ensures(auth_middleware, (&state, authorization), access),
        state.password@ == Seq::<char>::empty(),
    ensures
        access is Granted,
{
}

/// Whoever sends the password is let in, however long the header is: `Basic ` and then what
/// decodes to any user without a colon, a colon, and the password. The header may hold any visible
/// ASCII characters, spaces and tabs.
pub proof fn law_password_lets_in(
    state: AuthState,
    value: &[u8],
    access: Access,
    user: Seq<u8>,
)
    requires
        call_ensures(auth_middleware, (&state, Some(value)), access),
        forall|i: int|
            0 <= i < value@.len() ==> 32 <= #[trigger] value@[i] <= 126 || value@[i] == 9,
        value@.len() >= 6,
        value@[0] == 'B' as u8,
        value@[1] == 'a' as u8,
        value@[2] == 's' as u8,
        value@[3] == 'i' as u8,
        value@[4] == 'c' as u8,
        value@[5] == ' ' as u8,
        base64_decoded(value@.skip(6)) == Some(
            user + seq![':' as u8] + encode_utf8(state.password@),
        ),
        valid_utf8(user),
        !user.contains(':' as u8),
    ensures
        access is Granted,
{
    law_right_password_opens(user, state.password@);
    assert(given_bytes(Some(value)) == Some(value@));
}

/// What a browser sends is made of the characters of base64: with the password it is let in.
pub proof fn law_browser_with_password_is_let_in(
    state: AuthState,
    value: &[u8],
    access: Access,
    user: Seq<u8>,
    text: Seq<u8>,
)
    requires
        call_ensures(auth_middleware, (&state, Some(value)), access),
        value@ == seq![
            'B' as u8,
            'a' as u8,
            's' as u8,
            'i' as u8,
            'c' as u8,
            ' ' as u8,
        ] + text,
        forall|i: int|
            0 <= i < text.len() ==> {
                ||| 'A' as u8 <= #[trigger] text[i] <= 'Z' as u8
                ||| 'a' as u8 <= text[i] <= 'z' as u8
                ||| '0' as u8 <= text[i] <= '9' as u8
                ||| text[i] == '+' as u8
                ||| text[i] == '/' as u8
                ||| text[i] == '=' as u8
            },
        base64_decoded(text) == Some(user + seq![':' as u8] + encode_utf8(state.password@)),
        valid_utf8(user),
        !user.contains(':' as u8),
    ensures
        access is Granted,
{
    assert(value@.skip(6) =~= text);
    assert forall|i: int| 0 <= i < value@.len() implies 32 <= #[trigger] value@[i] <= 126
        || value@[i] == 9 by {
        if i >= 6 {
            assert(value@[i] == text[i - 6]);
        }
    }
    law_password_lets_in(state, value, access, user);
}

/// Where there is a password, nobody is let in without it: whoever is let in has sent a header of
/// visible ASCII characters, spaces and tabs, `Basic ` and then what decodes to a text of a user
/// without a colon, a colon, and the password. So it does not matter who the user is, and no other
/// header, and no header at all, will do.
pub proof fn law_nobody_gets_in_without_the_password(
    state: AuthState,
    authorization: Option<&[u8]>,
    access: Access,
) -> (user: Seq<u8>)
    requires
        call_ensures(auth_middleware, (&state, authorization), access),
        state.password@ != Seq::<char>::empty(),
        access is Granted,
    ensures
        authorization matches Some(value) && {
            &&& forall|i: int|
                0 <= i < value@.len() ==> 32 <= #[trigger] value@[i] <= 126 || value@[i] == 9
            &&& value@.len() >= 6
            &&& value@[0] == 'B' as u8
            &&& value@[1] == 'a' as u8
            &&& value@[2] == 's' as u8
            &&& value@[3] == 'i' as u8
            &&& value@[4] == 'c' as u8
            &&& value@[5] == ' ' as u8
            &&& base64_decoded(value@.skip(6)) == Some(
                user + seq![':' as u8] + encode_utf8(state.password@),
            )
            &&& valid_utf8(user + seq![':' as u8] + encode_utf8(state.password@))
            &&& !user.contains(':' as u8)
        },
{
    assert(state.password@.len() > 0) by {
        if state.password@.len() == 0 {
            assert(state.password@ =~= Seq::<char>::empty());
        }
    }
    let value = authorization->0@;
    let prefix = basic_prefix();
    assert(forall|i: int| 0 <= i < 6 ==> prefix[i] == #[trigger] value[i]);
    let credentials = base64_decoded(value.skip(6))->0;
    lemma_user_before_colon(credentials)
}

/// Who is not let in is asked for the password.
pub proof fn law_who_is_refused_is_asked_for_the_password(
    state: AuthState,
    authorization: Option<&[u8]>,
    access: Access,
)
    requires
        call_ensures(auth_middleware, (&state, authorization), access),
    ensures
        access matches Access::Refused(reply) ==> {
            &&& reply@.status == 401
            &&& reply@.headers == seq![
                ("www-authenticate"@, "Basic realm=\"stream-playback\""@),
            ]
            &&& reply@.body == "Unauthorized"@
        },
{
}

/// Credentials are right exactly where they are a text of a user without a colon, a colon, and the
/// password.
pub proof fn law_right_credentials(
    password: &str,
    credentials: &[u8],
    open: bool,
)
    requires
        call_ensures(check_credentials, (password, credentials), open),
    ensures
        open <==> valid_utf8(credentials@) && exists|user: Seq<u8>|
            !user.contains(':' as u8) && credentials@ == #[trigger] (user + seq![':' as u8]
                + encode_utf8(password@)),
{
    if open {
        let user = lemma_user_before_colon(credentials@);
        assert(credentials@ == user + seq![':' as u8] + encode_utf8(password@));
    }
    if exists|user: Seq<u8>|
        !user.contains(':' as u8) && credentials@ == #[trigger] (user + seq![':' as u8]
            + encode_utf8(password@)) {
        let user = choose|user: Seq<u8>|
            !user.contains(':' as u8) && credentials@ == #[trigger] (user + seq![':' as u8]
                + encode_utf8(password@));
        lemma_after_colon(user, encode_utf8(password@));
    }
}

proof fn lemma_user_before_colon(bytes: Seq<u8>) -> (user: Seq<u8>)
    requires
        after_colon(bytes) is Some,
    ensures
        !user.contains(58),
        bytes == user + seq![58u8] + after_colon(bytes)->0,
    decreases bytes.len(),
{
    if bytes[0] == 58 {
        let user = Seq::<u8>::empty();
        assert(bytes =~= user + seq![58u8] + bytes.skip(1));
        user
    } else {
        let rest = lemma_user_before_colon(bytes.skip(1));
        let user = seq![bytes[0]] + rest;
        assert(bytes =~= seq![bytes[0]] + bytes.skip(1));
        assert(bytes =~= user + seq![58u8] + after_colon(bytes)->0);
        assert(!user.contains(58)) by {
            assert forall|i: int| 0 <= i < user.len() implies user[i] != 58 by {
                if i > 0 {
                    assert(user[i] == rest[i - 1]);
                }
            }
        }
        user
    }
}

} // verus!
