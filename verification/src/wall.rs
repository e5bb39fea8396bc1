//! The unlock server of the wall: which request gets which answer, the
//! session token, the page for the phone and the QR code that leads to it.

use crate::digits::{decimal, hex16, push_bytes, push_decimal, push_hex16};
use crate::text::{
    after, find, first_occurrence, has_prefix, same_bytes, starts_with, take_after, take_until,
    until,
};
use base64::engine::general_purpose::STANDARD;
use base64::Engine;
use qrcode::render::svg;
use qrcode::types::QrError;
use qrcode::QrCode;
use vstd::prelude::*;
use vstd::slice::slice_subrange;
use vstd::string::{StringExecFns, StringSliceAdditionalSpecFns};
use vstd::utf8::encode_utf8;

verus! {

/// After this many milliseconds without an unlock the wall opens by itself.
pub const FALLBACK_MS: u64 = 60_000;

/// The least side of the QR image, in pixels.
pub const QR_MIN_SIDE: u32 = 200;

/// The largest least side that a QR image can be asked for.
pub const MAX_QR_SIDE: u32 = 1_000_000_000;

/// What the frontend is told when the unlock server starts.
#[derive(Debug, Clone)]
pub struct WallServerInfo {
    /// The QR code, as a `data:` URL of an SVG image.
    pub qr_svg: String,
    /// The address that the phone is to visit.
    pub url: String,
}

/// The token that the request `url` carries: what follows the first `token=`,
/// up to the next `token=` or `&`. Without `token=` it is empty.
pub open spec fn token_of(url: Seq<u8>) -> Seq<u8> {
    until(
        until(after(url, "token=".spec_bytes()), "token=".spec_bytes()),
        "&".spec_bytes(),
    )
}

/// The token that the request `url` carries.
pub fn extract_token<'a>(url: &'a [u8]) -> (token: &'a [u8])
    ensures
        token@ == token_of(url@),
{
    let rest = take_after(url, "token=".as_bytes());
    let piece = take_until(rest, "token=".as_bytes());
    take_until(piece, "&".as_bytes())
}

/// What a request is answered with.
#[derive(Debug, Clone, Copy, PartialEq, Eq, Structural)]
pub enum Route {
    /// The page that watches the motion of the phone.
    ShakePage,
    /// The wall is unlocked.
    Unlock,
    /// The answer to a cross-origin preflight.
    Preflight,
    /// The token is wrong.
    Forbidden,
    /// There is nothing at this address.
    NotFound,
}

/// The answer to the request for `url`, by a client that holds or does not
/// hold the session token `token`. `is_options` says whether the method is
/// `OPTIONS`.
pub open spec fn route_of(url: Seq<u8>, is_options: bool, token: Seq<u8>) -> Route {
    let shake = has_prefix(url, "/shake".spec_bytes());
    let unlock = has_prefix(url, "/unlock".spec_bytes());
    let authorised = token_of(url) == token;
    if shake && authorised {
        Route::ShakePage
    } else if unlock && authorised {
        Route::Unlock
    } else if is_options {
        Route::Preflight
    } else if shake || unlock {
        Route::Forbidden
    } else {
        Route::NotFound
    }
}

/// Decides the answer to the request for `url`.
pub fn dispatch_request(url: &[u8], is_options: bool, token: &[u8]) -> (route: Route)
    ensures
        route == route_of(url@, is_options, token@),
{
    let shake = starts_with(url, "/shake".as_bytes());
    let unlock = starts_with(url, "/unlock".as_bytes());
    let authorised = same_bytes(extract_token(url), token);
    if shake && authorised {
        Route::ShakePage
    } else if unlock && authorised {
        Route::Unlock
    } else if is_options {
        Route::Preflight
    } else if shake || unlock {
        Route::Forbidden
    } else {
        Route::NotFound
    }
}

impl Route {
    /// The status code of the answer.
    pub open spec fn status_spec(self) -> u16 {
        match self {
            Route::Forbidden => 403,
            Route::NotFound => 404,
            _ => 200,
        }
    }

    /// The status code of the answer.
    pub fn status(self) -> (code: u16)
        ensures
            code == self.status_spec(),
    {
        match self {
            Route::Forbidden => 403,
            Route::NotFound => 404,
            _ => 200,
        }
    }

    /// Whether the answer unlocks the wall and ends the server.
    pub fn unlocks(self) -> (yes: bool)
        ensures
            yes == (self == Route::Unlock),
    {
        match self {
            Route::Unlock => true,
            _ => false,
        }
    }

    /// The body of the answer, but for the page, which `build_shake_html`
    /// makes.
    pub fn plain_body(self) -> (body: &'static str)
        ensures
            body@ == match self {
                Route::ShakePage => ""@,
                Route::Unlock => "{\"status\":\"unlocked\"}"@,
                Route::Preflight => ""@,
                Route::Forbidden => "Forbidden"@,
                Route::NotFound => "Not Found"@,
            },
    {
        match self {
            Route::ShakePage => "",
            Route::Unlock => "{\"status\":\"unlocked\"}",
            Route::Preflight => "",
            Route::Forbidden => "Forbidden",
            Route::NotFound => "Not Found",
        }
    }
}

/// What the server does next.
#[derive(Debug, Clone, Copy, PartialEq, Eq, Structural)]
pub enum ServerStep {
    /// The fallback time has passed: unlock the wall and stop.
    AutoUnlock,
    /// The server was told to stop.
    Stop,
    /// Wait for the next request.
    Serve,
}

/// What the server does next, `elapsed_ms` after its start.
pub fn next_step(elapsed_ms: u64, shutdown: bool) -> (step: ServerStep)
    ensures
        step == if elapsed_ms > FALLBACK_MS {
            ServerStep::AutoUnlock
        } else if shutdown {
            ServerStep::Stop
        } else {
            ServerStep::Serve
        },
{
    if elapsed_ms > FALLBACK_MS {
        ServerStep::AutoUnlock
    } else if shutdown {
        ServerStep::Stop
    } else {
        ServerStep::Serve
    }
}

/// The session token made of two 64-bit numbers: 32 hexadecimal digits.
pub open spec fn token_text(v1: u64, v2: u64) -> Seq<u8> {
    hex16(v1) + hex16(v2)
}

/// The session token made of two 64-bit numbers.
pub fn format_token(v1: u64, v2: u64) -> (token: Vec<u8>)
    ensures
        token@ == token_text(v1, v2),
        token@.len() == 32,
{
    let mut token: Vec<u8> = Vec::new();
    push_hex16(&mut token, v1);
    push_hex16(&mut token, v2);
    proof {
        crate::digits::lemma_fixed_digits_len(v1 as int, 16, 16);
        crate::digits::lemma_fixed_digits_len(v2 as int, 16, 16);
    }
    token
}

/// Whether `c` is the ASCII code of a lower-case hexadecimal digit.
pub open spec fn is_hex_digit(c: u8) -> bool {
    48 <= c <= 57 || 97 <= c <= 102
}

/// Whether `s` holds lower-case hexadecimal digits only.
pub open spec fn is_hex(s: Seq<u8>) -> bool {
    forall|i: int| 0 <= i < s.len() ==> is_hex_digit(#[trigger] s[i])
}

/// Sixteen digits in base 16 are hexadecimal digits.
proof fn lemma_fixed_digits_are_hex(value: int, width: nat)
    requires
        0 <= value,
    ensures
        is_hex(crate::digits::fixed_digits(value, 16, width)),
        crate::digits::fixed_digits(value, 16, width).len() == width,
    decreases width,
{
    if width > 0 {
        lemma_fixed_digits_are_hex(value / 16, (width - 1) as nat);
    }
}

/// A session token holds 32 hexadecimal digits.
pub proof fn token_text_is_hex(v1: u64, v2: u64)
    ensures
        is_hex(token_text(v1, v2)),
        token_text(v1, v2).len() == 32,
{
    lemma_fixed_digits_are_hex(v1 as int, 16);
    lemma_fixed_digits_are_hex(v2 as int, 16);
}

/// A byte string of hexadecimal digits holds neither `token=` nor `&`.
proof fn lemma_hex_holds_no_marker(token: Seq<u8>)
    requires
        is_hex(token),
    ensures
        first_occurrence(token, "token=".spec_bytes()) == None::<int>,
        first_occurrence(token, "&".spec_bytes()) == None::<int>,
{
    reveal_strlit("token=");
    reveal_strlit("&");
    vstd::utf8::is_ascii_chars_encode_utf8("token="@);
    vstd::utf8::is_ascii_chars_encode_utf8("&"@);
    let marker = "token=".spec_bytes();
    let amp = "&".spec_bytes();
    assert(marker[0] == 116 && amp[0] == 38);
    assert forall|j: int| !crate::text::occurs_at(token, marker, j) by {
        if crate::text::occurs_at(token, marker, j) {
            assert(token.subrange(j, j + marker.len())[0] == token[j]);
            assert(is_hex_digit(token[j]));
        }
    }
    assert forall|j: int| !crate::text::occurs_at(token, amp, j) by {
        if crate::text::occurs_at(token, amp, j) {
            assert(token.subrange(j, j + amp.len())[0] == token[j]);
            assert(is_hex_digit(token[j]));
        }
    }
}

/// The server answers the address that it hands out: a request for
/// `/shake?token=` with the session token gets the page, and one for
/// `/unlock?token=` with it unlocks the wall, whatever the method.
pub proof fn own_address_is_served(token: Seq<u8>, is_options: bool)
    requires
        is_hex(token),
    ensures
        route_of("/shake?token=".spec_bytes() + token, is_options, token) == Route::ShakePage,
        route_of("/unlock?token=".spec_bytes() + token, is_options, token) == Route::Unlock,
{
    reveal_strlit("token=");
    reveal_strlit("/shake");
    reveal_strlit("/unlock");
    reveal_strlit("/shake?token=");
    reveal_strlit("/unlock?token=");
    vstd::utf8::is_ascii_chars_encode_utf8("token="@);
    vstd::utf8::is_ascii_chars_encode_utf8("/shake"@);
    vstd::utf8::is_ascii_chars_encode_utf8("/unlock"@);
    vstd::utf8::is_ascii_chars_encode_utf8("/shake?token="@);
    vstd::utf8::is_ascii_chars_encode_utf8("/unlock?token="@);
    lemma_hex_holds_no_marker(token);
    let marker = "token=".spec_bytes();
    let shake = "/shake".spec_bytes();
    let unlock = "/unlock".spec_bytes();

    let page = "/shake?token=".spec_bytes() + token;
    assert(page.subrange(0, 6) =~= shake);
    assert(page.subrange(7, 13) =~= marker);
    assert forall|j: int| 0 <= j < 7 implies !crate::text::occurs_at(page, marker, j) by {
        if crate::text::occurs_at(page, marker, j) {
            assert(page.subrange(j, j + 6)[0] == page[j]);
        }
    }
    crate::text::lemma_first_occurrence_is_unique(page, marker, 7);
    assert(page.subrange(13, page.len() as int) =~= token);

    let open = "/unlock?token=".spec_bytes() + token;
    assert(open.subrange(0, 7) =~= unlock);
    assert(open.subrange(0, 6)[1] == open[1]);
    assert(open.subrange(8, 14) =~= marker);
    assert forall|j: int| 0 <= j < 8 implies !crate::text::occurs_at(open, marker, j) by {
        if crate::text::occurs_at(open, marker, j) {
            assert(open.subrange(j, j + 6)[0] == open[j]);
        }
    }
    crate::text::lemma_first_occurrence_is_unique(open, marker, 8);
    assert(open.subrange(14, open.len() as int) =~= token);
}

/// Without the session token no request gets the page or unlocks the wall.
pub proof fn wrong_token_opens_nothing(url: Seq<u8>, is_options: bool, token: Seq<u8>)
    requires
        token_of(url) != token,
    ensures
        route_of(url, is_options, token) != Route::ShakePage,
        route_of(url, is_options, token) != Route::Unlock,
{
}

/// The address of the server: `http://<ip>:<port>`.
pub open spec fn server_url_text(ip: Seq<u8>, port: u16) -> Seq<u8> {
    "http://".spec_bytes() + ip + ":".spec_bytes() + decimal(port as int, 1)
}

/// The address of the server.
pub fn server_url(ip: &[u8], port: u16) -> (url: Vec<u8>)
    ensures
        url@ == server_url_text(ip@, port),
{
    let mut url: Vec<u8> = Vec::new();
    push_bytes(&mut url, "http://".as_bytes());
    push_bytes(&mut url, ip);
    push_bytes(&mut url, ":".as_bytes());
    push_decimal(&mut url, port as u64, 1);
    url
}

/// The address that the phone is to visit:
/// `http://<ip>:<port>/shake?token=<token>`.
pub open spec fn shake_url_text(ip: Seq<u8>, port: u16, token: Seq<u8>) -> Seq<u8> {
    server_url_text(ip, port) + "/shake?token=".spec_bytes() + token
}

/// The address that the phone is to visit.
pub fn shake_url(ip: &[u8], port: u16, token: &[u8]) -> (url: Vec<u8>)
    ensures
        url@ == shake_url_text(ip@, port, token@),
{
    let mut url = server_url(ip, port);
    push_bytes(&mut url, "/shake?token=".as_bytes());
    push_bytes(&mut url, token);
    url
}

/// `hay` with every occurrence of `from` replaced by `to`, found from left to
/// right and not overlapping. An empty `from` occurs nowhere.
pub open spec fn replaced(hay: Seq<u8>, from: Seq<u8>, to: Seq<u8>) -> Seq<u8>
    decreases hay.len(),
{
    match first_occurrence(hay, from) {
        Some(i) => if from.len() > 0 && 0 <= i && i + from.len() <= hay.len() {
            hay.subrange(0, i) + to + replaced(
                hay.subrange(i + from.len(), hay.len() as int),
                from,
                to,
            )
        } else {
            hay
        },
        None => hay,
    }
}

/// `hay` with every occurrence of `from` replaced by `to`.
pub fn replace_all(hay: &[u8], from: &[u8], to: &[u8]) -> (out: Vec<u8>)
    ensures
        out@ == replaced(hay@, from@, to@),
{
    let mut out: Vec<u8> = Vec::new();
    if from.len() == 0 {
        push_bytes(&mut out, hay);
        return out;
    }
    let mut rest = hay;
    loop
        invariant
            from@.len() > 0,
            out@ + replaced(rest@, from@, to@) == replaced(hay@, from@, to@),
        decreases rest@.len(),
    {
        match find(rest, from) {
            Some(i) => {
                assert(i + from@.len() <= rest@.len() == rest.len());
                push_bytes(&mut out, slice_subrange(rest, 0, i));
                push_bytes(&mut out, to);
                rest = slice_subrange(rest, i + from.len(), rest.len());
            },
            None => {
                push_bytes(&mut out, rest);
                return out;
            },
        }
    }
}

/// The page that watches the motion of the phone, before the address of the
/// server and the token are filled in.
pub const SHAKE_HTML_TEMPLATE: &'static str = r##"<!DOCTYPE html>
<html lang="en">
<head>
<meta charset="UTF-8">
<meta name="viewport" content="width=device-width, initial-scale=1.0, user-scalable=no">
<title>GSE - Unlock</title>
<style>
*{margin:0;padding:0;box-sizing:border-box}
body{
  font-family:-apple-system,BlinkMacSystemFont,'Segoe UI',sans-serif;
  background:#0f172a;color:#f8fafc;
  display:flex;flex-direction:column;align-items:center;justify-content:center;
  height:100vh;height:100dvh;padding:1.5rem;text-align:center;
  -webkit-user-select:none;user-select:none;
}
h1{font-size:1.4rem;margin-bottom:0.5rem}
.sub{font-size:0.95rem;opacity:0.7;margin-bottom:1.5rem}
.progress-bg{
  width:80%;max-width:280px;height:20px;
  background:rgba(255,255,255,0.1);border-radius:10px;
  overflow:hidden;margin:1rem 0;
}
.progress-fill{
  height:100%;background:#4ade80;border-radius:10px;
  transition:width 0.3s ease;width:0%;
}
.btn{
  padding:0.9rem 2.2rem;font-size:1.1rem;
  background:#4ade80;color:#0f172a;border:none;
  border-radius:10px;cursor:pointer;font-weight:700;
  -webkit-tap-highlight-color:transparent;
}
.btn:disabled{opacity:0.4;cursor:not-allowed}
.status{font-size:1rem;margin:0.8rem 0;min-height:2.5em;opacity:0.85}
.icon{font-size:3rem;margin-bottom:0.8rem}
.done{color:#4ade80;font-size:1.5rem;font-weight:700}
</style>
</head>
<body>
<div class="icon" id="icon">📱</div>
<h1>Shake or Walk to Unlock</h1>
<p class="sub">Move your phone to dismiss the Wall on your computer</p>
<div class="progress-bg"><div class="progress-fill" id="progress"></div></div>
<p class="status" id="status">Tap the button to start</p>
<button class="btn" id="startBtn">Start</button>

<script>
(function(){
  var THRESHOLD=3.0,REQUIRED=8,WINDOW=5000;
  var SERVER='__SERVER_URL__',TOKEN='__TOKEN__';
  var shakes=[],unlocked=false;
  var statusEl=document.getElementById('status');
  var progressEl=document.getElementById('progress');
  var iconEl=document.getElementById('icon');
  var btnEl=document.getElementById('startBtn');

  function update(){
    var now=Date.now();
    shakes=shakes.filter(function(t){return now-t<WINDOW});
    var pct=Math.min(100,(shakes.length/REQUIRED)*100);
    progressEl.style.width=pct+'%';
    if(shakes.length>=REQUIRED&&!unlocked) doUnlock();
  }

  function doUnlock(){
    unlocked=true;
    statusEl.textContent='Unlocked! Return to your computer.';
    statusEl.className='status done';
    iconEl.textContent='\u2705';
    btnEl.style.display='none';
    fetch(SERVER+'/unlock?token='+TOKEN,{method:'POST'}).catch(function(){
      statusEl.textContent='Signal sent. Wall will auto-dismiss in 60s if needed.';
    });
  }

  function onMotion(e){
    if(unlocked)return;
    var a=e.accelerationIncludingGravity;
    if(!a||a.x===null)return;
    var mag=Math.sqrt(a.x*a.x+a.y*a.y+a.z*a.z);
    var delta=Math.abs(mag-9.81);
    if(delta>THRESHOLD){shakes.push(Date.now())}
    update();
  }

  btnEl.addEventListener('click',function(){
    // iOS 13+ requires permission via user gesture
    if(typeof DeviceMotionEvent!=='undefined'&&
       typeof DeviceMotionEvent.requestPermission==='function'){
      DeviceMotionEvent.requestPermission().then(function(p){
        if(p==='granted'){startListening()}
        else{statusEl.textContent='Motion permission denied. Please allow and retry.'}
      }).catch(function(err){
        statusEl.textContent='Permission error: '+err.message;
      });
    } else {
      startListening();
    }
  });

  function startListening(){
    window.addEventListener('devicemotion',onMotion);
    btnEl.disabled=true;
    btnEl.textContent='Detecting...';
    statusEl.textContent='Shake your phone or walk around!';
  }
})();
</script>
</body>
</html>
"##;

/// The page for the phone: the template with the address of the server and
/// the token filled in.
pub open spec fn shake_html(server_url: Seq<u8>, token: Seq<u8>) -> Seq<u8> {
    replaced(
        replaced(SHAKE_HTML_TEMPLATE.spec_bytes(), "__SERVER_URL__".spec_bytes(), server_url),
        "__TOKEN__".spec_bytes(),
        token,
    )
}

/// The page for the phone.
pub fn build_shake_html(server_url: &[u8], token: &[u8]) -> (page: Vec<u8>)
    ensures
        page@ == shake_html(server_url@, token@),
{
    let with_url = replace_all(
        SHAKE_HTML_TEMPLATE.as_bytes(),
        "__SERVER_URL__".as_bytes(),
        server_url,
    );
    replace_all(with_url.as_slice(), "__TOKEN__".as_bytes(), token)
}

/// Why no QR image was made.
#[derive(Debug, Clone, Copy, PartialEq, Eq, Structural)]
pub enum QrFailure {
    /// The data is too long for a QR code.
    DataTooLong,
    /// The version and the error correction level do not go together.
    InvalidVersion,
    /// The data holds characters that the version cannot encode.
    UnsupportedCharacterSet,
    /// The ECI designator is out of range.
    InvalidEciDesignator,
    /// The data holds a character outside the character set.
    InvalidCharacter,
    /// The image is too large to be encoded in base64.
    ImageTooLarge,
}

impl QrFailure {
    /// The failure in words.
    pub fn message(self) -> (text: &'static str)
        ensures
            text@ == match self {
                QrFailure::DataTooLong => "QR encode failed: data too long"@,
                QrFailure::InvalidVersion => "QR encode failed: invalid version"@,
                QrFailure::UnsupportedCharacterSet =>
                    "QR encode failed: unsupported character set"@,
                QrFailure::InvalidEciDesignator => "QR encode failed: invalid ECI designator"@,
                QrFailure::InvalidCharacter => "QR encode failed: invalid character"@,
                QrFailure::ImageTooLarge => "QR encode failed: image too large"@,
            },
    {
        match self {
            QrFailure::DataTooLong => "QR encode failed: data too long",
            QrFailure::InvalidVersion => "QR encode failed: invalid version",
            QrFailure::UnsupportedCharacterSet => "QR encode failed: unsupported character set",
            QrFailure::InvalidEciDesignator => "QR encode failed: invalid ECI designator",
            QrFailure::InvalidCharacter => "QR encode failed: invalid character",
            QrFailure::ImageTooLarge => "QR encode failed: image too large",
        }
    }
}

/// Why `data` has no QR code with medium error correction, as
/// `qrcode::QrCode::new` says; `None` where it has one.
pub uninterp spec fn qr_failure(data: Seq<u8>) -> Option<QrFailure>;

/// The SVG image of the QR code of `data` with medium error correction, as
/// the renderer of the `qrcode` crate draws it: each side at least `min_side`
/// pixels, dark modules in the colour `dark`, light ones in `light`. It says
/// something only of data that has a QR code.
pub uninterp spec fn qr_svg(data: Seq<u8>, min_side: u32, dark: Seq<char>, light: Seq<char>)
    -> Seq<char>;

/// `data` in base64, with the standard alphabet and padding, as the `base64`
/// crate encodes it.
pub uninterp spec fn base64_standard(data: Seq<u8>) -> Seq<char>;

/// Calls `qrcode::QrCode::new` on `data` and renders the code with the SVG
/// renderer of the crate (`render`, `min_dimensions`, `dark_color`,
/// `light_color`, `build`). The contract claims only that the outcome is a
/// function of the arguments: the failure is the one that `qr_failure`
/// names, and never `ImageTooLarge`, which the crate does not know; the
/// image is the one that `qr_svg` names. `min_side` is bounded because the
/// renderer adds the width of the code to it in 32 bits.
#[verifier::external_body]
fn render_qr_svg(data: &[u8], min_side: u32, dark: &str, light: &str) -> (r: Result<
    String,
    QrFailure,
>)
    requires
        min_side <= MAX_QR_SIDE,
    ensures
        match r {
            Ok(image) => qr_failure(data@) is None && image@ == qr_svg(
                data@,
                min_side,
                dark@,
                light@,
            ),
            Err(e) => qr_failure(data@) == Some(e) && e != QrFailure::ImageTooLarge,
        },
{
    match QrCode::new(data) {
        Ok(code) => Ok(
            code.render::<svg::Color>().min_dimensions(min_side, min_side).dark_color(
                svg::Color(dark),
            ).light_color(svg::Color(light)).build(),
        ),
        Err(QrError::DataTooLong) => Err(QrFailure::DataTooLong),
        Err(QrError::InvalidVersion) => Err(QrFailure::InvalidVersion),
        Err(QrError::UnsupportedCharacterSet) => Err(QrFailure::UnsupportedCharacterSet),
        Err(QrError::InvalidEciDesignator) => Err(QrFailure::InvalidEciDesignator),
        Err(QrError::InvalidCharacter) => Err(QrFailure::InvalidCharacter),
    }
}

/// Whether `len` bytes can be encoded in base64: the length of the text,
/// four characters for every three bytes begun, fits the machine.
pub open spec fn fits_base64(len: int) -> bool {
    len / 3 * 4 + 4 <= usize::MAX
}

/// Calls `base64::Engine::encode` of the engine
/// `base64::engine::general_purpose::STANDARD` on `data`. The contract
/// claims only that the text is a function of `data`, the one that
/// `base64_standard` names. The crate panics where the length of the text
/// does not fit the machine; such data is left out.
#[verifier::external_body]
fn encode_base64(data: &[u8]) -> (text: String)
    requires
        fits_base64(data@.len() as int),
    ensures
        text@ == base64_standard(data@),
{
    STANDARD.encode(data)
}

/// The `data:` URL of an SVG image whose base64 text is `encoded`.
pub fn svg_data_url(encoded: &str) -> (url: String)
    ensures
        url@ == "data:image/svg+xml;base64,"@ + encoded@,
{
    String::from_str("data:image/svg+xml;base64,").concat(encoded)
}

/// The image of the QR code of `url`, in black on white, each side at least
/// `QR_MIN_SIDE` pixels.
pub open spec fn qr_image(url: Seq<u8>) -> Seq<char> {
    qr_svg(url, QR_MIN_SIDE, "#000000"@, "#ffffff"@)
}

/// The QR code of `url` as a `data:` URL of its SVG image. It fails where
/// `url` has no QR code, with the reason, and where the image is too large
/// to be encoded.
pub fn generate_qr_data_url(url: &[u8]) -> (r: Result<String, QrFailure>)
    ensures
        match qr_failure(url@) {
            Some(failure) => r == Err::<String, QrFailure>(failure),
            None => if fits_base64(encode_utf8(qr_image(url@)).len() as int) {
                r matches Ok(text) && text@ == "data:image/svg+xml;base64,"@ + base64_standard(
                    encode_utf8(qr_image(url@)),
                )
            } else {
                r == Err::<String, QrFailure>(QrFailure::ImageTooLarge)
            },
        },
{
    match render_qr_svg(url, QR_MIN_SIDE, "#000000", "#ffffff") {
        Ok(image) => {
            let bytes = image.as_str().as_bytes();
            if bytes.len() / 3 > (usize::MAX - 4) / 4 {
                return Err(QrFailure::ImageTooLarge);
            }
            let encoded = encode_base64(bytes);
            Ok(svg_data_url(encoded.as_str()))
        },
        Err(e) => Err(e),
    }
}

} // verus!
