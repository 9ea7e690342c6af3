//! Starting the web interface, and its pages.

use crate::gui::reply::typed_reply;
use crate::gui::reply::Reply;
use crate::text::decimal;
use crate::text::hex;
use crate::text::hex_digit;
use crate::text::host_and_port;
use crate::text::host_port;
use crate::text::is_decimal;
use crate::text::law_decimal_reads_back;
use crate::text::law_hex_digits_of_each_byte;
use crate::text::push_hex;
use vstd::prelude::*;

verus! {

/// No request may have a body of more bytes than this.
pub const BODY_LIMIT: usize = 65536;

/// Settings of the web interface.
#[derive(Debug)]
pub struct GuiConfig {
    pub enabled: bool,
    pub bind_addr: String,
    pub port: u16,
    pub password: String,
}

/// What to do to start the web interface.
#[derive(Debug)]
pub enum GuiStart {
    /// Nothing: it is switched off.
    Disabled,
    /// Listen on `address`. `open_to_all` tells that anyone in the network can get in.
    Listen { address: String, open_to_all: bool },
}

/// How to start the web interface.
pub fn start_gui(cfg: &GuiConfig) -> (start: GuiStart)
    ensures
        match start {
            GuiStart::Disabled => !cfg.enabled,
            GuiStart::Listen { address, open_to_all } => {
                &&& cfg.enabled
                &&& address@ == host_and_port(cfg.bind_addr@, cfg.port as nat)
                &&& open_to_all == (cfg.password@.len() == 0 && cfg.bind_addr@ == "0.0.0.0"@)
            },
        },
{
    if !cfg.enabled {
        return GuiStart::Disabled;
    }
    let open_to_all = cfg.password.as_str().is_empty() && cfg.bind_addr == "0.0.0.0".to_string();
    GuiStart::Listen { address: host_port(cfg.bind_addr.as_str(), cfg.port), open_to_all }
}

/// The page.
pub fn serve_html(index_html: &str) -> (reply: Reply)
    ensures
        reply@ == typed_reply(200, "text/html; charset=utf-8"@, index_html@),
{
    Reply::typed(200, "text/html; charset=utf-8", index_html.to_string())
}

/// The script of the page.
pub fn serve_js(app_js: &str) -> (reply: Reply)
    ensures
        reply@ == typed_reply(200, "application/javascript; charset=utf-8"@, app_js@),
{
    Reply::typed(200, "application/javascript; charset=utf-8", app_js.to_string())
}

/// The style of the page.
pub fn serve_css(style_css: &str) -> (reply: Reply)
    ensures
        reply@ == typed_reply(200, "text/css; charset=utf-8"@, style_css@),
{
    Reply::typed(200, "text/css; charset=utf-8", style_css.to_string())
}

/// Thirty-two bytes out of a number: each is what the number holds four bits further up.
pub open spec fn spread(mix: u128) -> Seq<u8> {
    Seq::new(32, |i: int| ((mix >> ((i * 4) as u128)) & 0xff) as u8)
}

/// The token for a start of the web interface: random bytes where there are any, and else bytes
/// out of the time, in nanoseconds since the epoch, and an address in memory.
pub fn generate_token(random: Option<[u8; 32]>, nanos: u128, address: usize) -> (token: String)
    ensures
        token@ == hex(
            match random {
                Some(bytes) => bytes@,
                None => spread(nanos ^ (address as u128)),
            },
        ),
{
    let mut token = String::new();
    match random {
        Some(bytes) => push_hex(&mut token, &bytes),
        None => {
            let bytes = spread_bytes(nanos ^ (address as u128));
            push_hex(&mut token, bytes.as_slice());
        },
    }
    token
}

fn spread_bytes(mix: u128) -> (bytes: Vec<u8>)
    ensures
        bytes@ == spread(mix),
{
    let mut bytes: Vec<u8> = Vec::new();
    let mut i: usize = 0;
    while i < 32
        invariant
            i <= 32,
            bytes@.len() == i,
            forall|j: int| 0 <= j < i ==> #[trigger] bytes@[j] == spread(mix)[j],
        decreases 32 - i,
    {
        bytes.push(((mix >> ((i * 4) as u128)) & 0xff) as u8);
        i = i + 1;
    }
    bytes
}

/// A token has two characters for each of its bytes, all of them hexadecimal digits: nothing in it
/// can end a cookie.
pub proof fn law_token_is_hexadecimal(bytes: Seq<u8>)
    ensures
        hex(bytes).len() == 2 * bytes.len(),
        forall|i: int| 0 <= i < hex(bytes).len() ==> is_hex_digit(#[trigger] hex(bytes)[i]),
    decreases bytes.len(),
{
    if bytes.len() > 0 {
        law_token_is_hexadecimal(bytes.drop_last());
    }
}

/// One of `0` to `9` and `a` to `f`.
pub open spec fn is_hex_digit(c: char) -> bool {
    '0' <= c <= '9' || 'a' <= c <= 'f'
}

/// Different random bytes give different tokens.
pub proof fn law_tokens_tell_bytes_apart(a: Seq<u8>, b: Seq<u8>)
    requires
        hex(a) == hex(b),
    ensures
        a == b,
    decreases a.len(),
{
    law_token_is_hexadecimal(a);
    law_token_is_hexadecimal(b);
    if a.len() > 0 {
        let n = hex(a).len() as int;
        law_token_is_hexadecimal(a.drop_last());
        law_token_is_hexadecimal(b.drop_last());
        assert(hex(a).subrange(0, n - 2) =~= hex(a.drop_last()));
        assert(hex(b).subrange(0, n - 2) =~= hex(b.drop_last()));
        law_tokens_tell_bytes_apart(a.drop_last(), b.drop_last());
        assert(hex(a)[n - 2] == hex_digit(a.last() as int / 16));
        assert(hex(b)[n - 2] == hex_digit(b.last() as int / 16));
        assert(hex(a)[n - 1] == hex_digit(a.last() as int % 16));
        assert(hex(b)[n - 1] == hex_digit(b.last() as int % 16));
        lemma_hex_digits_differ(a.last() as int / 16, b.last() as int / 16);
        lemma_hex_digits_differ(a.last() as int % 16, b.last() as int % 16);
        assert(a =~= a.drop_last().push(a.last()));
        assert(b =~= b.drop_last().push(b.last()));
    }
}

proof fn lemma_hex_digits_differ(d: int, e: int)
    requires
        0 <= d < 16,
        0 <= e < 16,
        hex_digit(d) == hex_digit(e),
    ensures
        d == e,
{
}

/// The web interface is started unless it is switched off, on the address and the port of its
/// settings, and with a warning exactly where it listens to everyone and has no password. It takes
/// no request body of more than 64 KiB.
pub proof fn law_interface_starts_where_it_is_told(cfg: GuiConfig, start: GuiStart)
    requires
        call_ensures(start_gui, (&cfg,), start),
    ensures
        BODY_LIMIT == 64 * 1024,
        start is Disabled <==> !cfg.enabled,
        start matches GuiStart::Listen { address, open_to_all } ==> {
            &&& address@.len() > cfg.bind_addr@.len()
            &&& address@.take(cfg.bind_addr@.len() as int) == cfg.bind_addr@
            &&& address@[cfg.bind_addr@.len() as int] == ':'
            &&& is_decimal(address@.skip(1 + cfg.bind_addr@.len() as int), cfg.port as int)
            &&& open_to_all <==> cfg.password@ == Seq::<char>::empty() && cfg.bind_addr@
                == "0.0.0.0"@
        },
{
    if let GuiStart::Listen { address, open_to_all } = start {
        law_decimal_reads_back(cfg.port as nat);
        assert(address@.take(cfg.bind_addr@.len() as int) =~= cfg.bind_addr@);
        assert(address@.skip(1 + cfg.bind_addr@.len() as int) =~= decimal(cfg.port as nat));
        if cfg.password@.len() == 0 {
            assert(cfg.password@ =~= Seq::<char>::empty());
        }
    }
}

/// The page, its script and its style are shown as they are, each as what it is.
pub proof fn law_pages_are_shown(
    html: &str,
    js: &str,
    css: &str,
    page: Reply,
    script: Reply,
    style: Reply,
)
    requires
        call_ensures(serve_html, (html,), page),
        call_ensures(serve_js, (js,), script),
        call_ensures(serve_css, (css,), style),
    ensures
        page@.status == 200,
        page@.headers == seq![("content-type"@, "text/html; charset=utf-8"@)],
        page@.body == html@,
        script@.status == 200,
        script@.headers == seq![("content-type"@, "application/javascript; charset=utf-8"@)],
        script@.body == js@,
        style@.status == 200,
        style@.headers == seq![("content-type"@, "text/css; charset=utf-8"@)],
        style@.body == css@,
{
}

/// A token is sixty-four characters long: two hexadecimal digits for each of thirty-two bytes. Byte
/// `i` is the random one where there are random bytes, and else the eight bits of time and address
/// from bit `4 * i` on.
pub proof fn law_token_spells_its_bytes(
    random: Option<[u8; 32]>,
    nanos: u128,
    address: usize,
    token: String,
    i: int,
    byte: u8,
)
    requires
        call_ensures(generate_token, (random, nanos, address), token),
        0 <= i < 32,
        random matches Some(bytes) ==> byte == bytes@[i],
        random is None ==> byte == ((nanos ^ (address as u128)) >> ((4 * i) as u128)) & 0xff,
    ensures
        token@.len() == 64,
        token@[2 * i] as int == (if byte / 16 < 10 {
            '0' as int + byte / 16
        } else {
            'a' as int + byte / 16 - 10
        }),
        token@[2 * i + 1] as int == (if byte % 16 < 10 {
            '0' as int + byte % 16
        } else {
            'a' as int + byte % 16 - 10
        }),
{
    match random {
        Some(bytes) => {
            law_hex_digits_of_each_byte(bytes@, i);
        },
        None => {
            law_hex_digits_of_each_byte(spread(nanos ^ (address as u128)), i);
        },
    }
}

} // verus!
