//! Handler decisions of the in-app driver: window and element resolution, input
//! mapping (modifiers, keystrokes), queries, visual-state fingerprints and screenshot payloads.

use vstd::prelude::*;
use vstd::string::*;
use crate::codec::{base64_encode, base64_encoded, base64_decoded};
use crate::protocol::{ClickParams, ErrorKind, FocusParams, InfoResult, Modifier, MouseButton, PROTOCOL_VERSION, QueryParams};
use crate::server::{HandlerError, internal};
use crate::picture::{encode_png, png_encoding, png_encoding_error};
use crate::text::{chars_of, contains_str, contains_text, debug_quoted, debug_text, decimal, decimal_string, lowercase, owned, push_char, str_equal, to_lowercase};
use crate::tree::{NodeRecord, RecordView, records_view, opt_text};

verus! {

// ---- windows ----

/// Resolves a `window_id` to an index into the windows' id list, or fails with
/// `window_not_found`.
pub fn select_window(ids: &[u64], window_id: u64) -> (r: Result<usize, HandlerError>)
    ensures
        match r {
            Ok(i) => window_id == 0 ==> i == 0 && ids.len() > 0,
            Err(_) => true,
        },
        match r {
            Ok(i) => i < ids.len() && (window_id != 0 ==> ids@[i as int] == window_id
                && forall|j: int| 0 <= j < i ==> ids@[j] != window_id),
            Err(e) => e.0 == ErrorKind::WindowNotFound && e.1@ == "no window with id "@ + decimal(window_id as nat)
                && (window_id == 0 ==> ids.len() == 0)
                && (window_id != 0 ==> forall|j: int| 0 <= j < ids.len() ==> ids@[j] != window_id),
        },
{
    if window_id == 0 {
        if ids.len() > 0 {
            return Ok(0);
        }
    } else {
        let mut i: usize = 0;
        while i < ids.len()
            invariant
                window_id != 0,
                i <= ids.len(),
                forall|j: int| 0 <= j < i ==> ids@[j] != window_id,
            decreases ids.len() - i,
        {
            if ids[i] == window_id {
                return Ok(i);
            }
            i = i + 1;
        }
    }
    let mut m = owned("no window with id ");
    let d = decimal_string(window_id);
    m.append(d.as_str());
    Err((ErrorKind::WindowNotFound, m))
}

// ---- elements ----

/// The index of the last record with driver id `id`: if an id is (incorrectly)
/// duplicated, the one drawn last, i.e. topmost, wins.
pub fn find_record<B>(records: &[NodeRecord<B>], id: &str) -> (r: Option<usize>)
    ensures
        match r {
            Some(i) => i < records.len() && records@[i as int].id@ == id@
                && forall|j: int| i < j < records.len() ==> records@[j].id@ != id@,
            None => forall|j: int| 0 <= j < records.len() ==> records@[j].id@ != id@,
        },
{
    let mut i: usize = records.len();
    while i > 0
        invariant
            i <= records.len(),
            forall|j: int| i <= j < records.len() ==> records@[j].id@ != id@,
        decreases i,
    {
        i = i - 1;
        if str_equal(records[i].id.as_str(), id) {
            return Some(i);
        }
    }
    None
}

/// Resolves a driver id to the record to act on, or fails with `element_not_found`.
pub fn locate_element<B>(records: &[NodeRecord<B>], id: &str) -> (r: Result<usize, HandlerError>)
    ensures
        match r {
            Ok(i) => i < records.len() && records@[i as int].id@ == id@
                && forall|j: int| i < j < records.len() ==> records@[j].id@ != id@,
            Err(e) => e.0 == ErrorKind::ElementNotFound
                && e.1@ == "no element with driver id "@ + debug_text(id@)
                && forall|j: int| 0 <= j < records.len() ==> records@[j].id@ != id@,
        },
{
    match find_record(records, id) {
        Some(i) => Ok(i),
        None => {
            let mut m = owned("no element with driver id ");
            let q = debug_quoted(id);
            m.append(q.as_str());
            Err((ErrorKind::ElementNotFound, m))
        },
    }
}

// ---- input ----

/// Modifier keys held during a synthetic click.
#[derive(Debug, Clone, Copy, PartialEq, Eq, Structural)]
pub struct ModifierFlags {
    pub control: bool,
    pub alt: bool,
    pub shift: bool,
    pub platform: bool,
    pub function: bool,
}

/// Each flag is set exactly when its modifier is listed (`cmd` is the platform key).
pub open spec fn flags_for(mods: Seq<Modifier>) -> ModifierFlags {
    ModifierFlags {
        control: mods.contains(Modifier::Ctrl),
        alt: mods.contains(Modifier::Alt),
        shift: mods.contains(Modifier::Shift),
        platform: mods.contains(Modifier::Cmd),
        function: mods.contains(Modifier::Fn),
    }
}

/// The modifier state that a list of click modifiers asks for.
pub fn modifier_flags(modifiers: &[Modifier]) -> (f: ModifierFlags)
    ensures
        f == flags_for(modifiers@),
{
    let mut f = ModifierFlags { control: false, alt: false, shift: false, platform: false, function: false };
    let mut i: usize = 0;
    while i < modifiers.len()
        invariant
            i <= modifiers.len(),
            f == flags_for(modifiers@.subrange(0, i as int)),
        decreases modifiers.len() - i,
    {
        let ghost pre = modifiers@.subrange(0, i as int);
        let m = modifiers[i];
        match m {
            Modifier::Ctrl => f.control = true,
            Modifier::Alt => f.alt = true,
            Modifier::Shift => f.shift = true,
            Modifier::Cmd => f.platform = true,
            Modifier::Fn => f.function = true,
        }
        proof {
            let post = modifiers@.subrange(0, i + 1);
            assert(post =~= pre.push(m));
            assert forall|x: Modifier| post.contains(x) <==> pre.contains(x) || x == m by {
                if post.contains(x) {
                    let k = choose|k: int| 0 <= k < post.len() && post[k] == x;
                    if k < pre.len() {
                        assert(pre[k] == x);
                    }
                }
                if pre.contains(x) {
                    let k = choose|k: int| 0 <= k < pre.len() && pre[k] == x;
                    assert(post[k] == x);
                }
                if x == m {
                    assert(post[i as int] == x);
                }
            }
        }
        i = i + 1;
    }
    assert(modifiers@.subrange(0, modifiers.len() as int) =~= modifiers@);
    f
}

/// Focus is a left click without modifiers on the element's center (v0 semantics):
/// the click params that a focus request stands for.
pub fn focus_click(p: FocusParams) -> (c: ClickParams)
    ensures
        c.token@ == p.token@,
        c.window_id == p.window_id,
        c.id@ == p.id@,
        c.button == MouseButton::Left,
        c.modifiers@.len() == 0,
{
    ClickParams { token: p.token, window_id: p.window_id, id: p.id, button: MouseButton::Left, modifiers: Vec::new() }
}

/// The GPUI keystroke name of a character: space, newline, tab and minus have names;
/// every other character stands for itself.
pub open spec fn keystroke_text(ch: char) -> Seq<char> {
    if ch == ' ' {
        "space"@
    } else if ch == '\n' {
        "enter"@
    } else if ch == '\t' {
        "tab"@
    } else if ch == '-' {
        "minus"@
    } else {
        seq![ch]
    }
}

/// Maps a plain character to GPUI keystroke syntax.
pub fn keystroke_for_char(ch: char) -> (s: String)
    ensures
        s@ == keystroke_text(ch),
{
    if ch == ' ' {
        owned("space")
    } else if ch == '\n' {
        owned("enter")
    } else if ch == '\t' {
        owned("tab")
    } else if ch == '-' {
        owned("minus")
    } else {
        let mut s = String::new();
        push_char(&mut s, ch);
        s
    }
}

/// The keystrokes that type `text`, one per character, in order.
pub fn keystrokes_for_text(text: &str) -> (ks: Vec<String>)
    ensures
        ks.len() == text@.len(),
        forall|i: int| 0 <= i < ks.len() ==> #[trigger] ks@[i]@ == keystroke_text(text@[i]),
{
    let chars = chars_of(text);
    let mut ks: Vec<String> = Vec::new();
    let mut i: usize = 0;
    while i < chars.len()
        invariant
            chars@ == text@,
            i <= chars.len(),
            ks.len() == i,
            forall|k: int| 0 <= k < i ==> #[trigger] ks@[k]@ == keystroke_text(text@[k]),
        decreases chars.len() - i,
    {
        let k = keystroke_for_char(chars[i]);
        ks.push(k);
        i = i + 1;
    }
    ks
}

// ---- info ----

/// The `info` result for an app.
pub fn info_result(app_name: &str, app_version: &str, driver_version: &str) -> (r: InfoResult)
    ensures
        r.app_name@ == app_name@,
        r.app_version@ == app_version@,
        r.protocol_version == PROTOCOL_VERSION,
        r.gpui_driver_version@ == driver_version@,
{
    InfoResult {
        app_name: owned(app_name),
        app_version: owned(app_version),
        protocol_version: PROTOCOL_VERSION,
        gpui_driver_version: owned(driver_version),
    }
}

// ---- query ----

/// A query needs at least one of `text_contains` and `id_contains`.
pub fn validate_query(p: &QueryParams) -> (r: Result<(), HandlerError>)
    ensures
        r is Ok <==> (p.text_contains is Some || p.id_contains is Some),
        r matches Err(e) ==> e.0 == ErrorKind::Internal
            && e.1@ == "query needs text_contains and/or id_contains"@,
{
    if p.text_contains.is_none() && p.id_contains.is_none() {
        return Err((ErrorKind::Internal, owned("query needs text_contains and/or id_contains")));
    }
    Ok(())
}

/// A record matches a query when each given needle occurs, case-insensitively, in
/// the record's text (which it must have) and driver id respectively.
pub open spec fn query_matches_record<B>(r: RecordView<B>, text: Option<Seq<char>>, id: Option<Seq<char>>) -> bool {
    &&& (text matches Some(t) ==> (r.text matches Some(rt) && contains_text(lowercase(rt), lowercase(t))))
    &&& (id matches Some(n) ==> contains_text(lowercase(r.id), lowercase(n)))
}

/// The indices, in increasing order, of the records that match the query.
pub open spec fn query_hits<B>(recs: Seq<RecordView<B>>, text: Option<Seq<char>>, id: Option<Seq<char>>, upto: int) -> Seq<usize>
    decreases upto,
{
    if upto <= 0 {
        Seq::empty()
    } else if query_matches_record(recs[upto - 1], text, id) {
        query_hits(recs, text, id, upto - 1).push((upto - 1) as usize)
    } else {
        query_hits(recs, text, id, upto - 1)
    }
}

/// The records that match a query, by index in record order.
pub fn query_matches<B>(records: &[NodeRecord<B>], p: &QueryParams) -> (hits: Vec<usize>)
    ensures
        hits@ == query_hits(records_view(records@), opt_text(p.text_contains), opt_text(p.id_contains), records.len() as int),
{
    let ghost recs = records_view(records@);
    let text_needle = match &p.text_contains {
        Some(t) => Some(to_lowercase(t.as_str())),
        None => None,
    };
    let id_needle = match &p.id_contains {
        Some(t) => Some(to_lowercase(t.as_str())),
        None => None,
    };
    let mut hits: Vec<usize> = Vec::new();
    let mut i: usize = 0;
    while i < records.len()
        invariant
            i <= records.len(),
            recs == records_view(records@),
            hits@ == query_hits(recs, opt_text(p.text_contains), opt_text(p.id_contains), i as int),
            match text_needle {
                Some(n) => opt_text(p.text_contains) matches Some(t) && n@ == lowercase(t),
                None => p.text_contains is None,
            },
            match id_needle {
                Some(n) => opt_text(p.id_contains) matches Some(t) && n@ == lowercase(t),
                None => p.id_contains is None,
            },
        decreases records.len() - i,
    {
        let r = &records[i];
        assert(recs[i as int] == r@);
        let text_ok = match &text_needle {
            None => true,
            Some(needle) => match &r.text {
                Some(t) => {
                    let lower = to_lowercase(t.as_str());
                    contains_str(lower.as_str(), needle.as_str())
                },
                None => false,
            },
        };
        let id_ok = match &id_needle {
            None => true,
            Some(needle) => {
                let lower = to_lowercase(r.id.as_str());
                contains_str(lower.as_str(), needle.as_str())
            },
        };
        if text_ok && id_ok {
            hits.push(i);
        }
        i = i + 1;
    }
    hits
}

// ---- visual state fingerprint ----

/// The 64-bit FNV-1a hash of `bytes`.
pub open spec fn fnv1a_hash(bytes: Seq<u8>) -> u64
    decreases bytes.len(),
{
    if bytes.len() == 0 {
        0xcbf2_9ce4_8422_2325u64
    } else {
        (fnv1a_hash(bytes.drop_last()) ^ (bytes.last() as u64)).wrapping_mul(0x0000_0100_0000_01b3u64)
    }
}

/// FNV-1a over a byte sequence, used to fingerprint a window's visual state.
pub fn fnv1a(bytes: &[u8]) -> (h: u64)
    ensures
        h == fnv1a_hash(bytes@),
{
    let mut hash: u64 = 0xcbf2_9ce4_8422_2325;
    let mut i: usize = 0;
    while i < bytes.len()
        invariant
            i <= bytes.len(),
            hash == fnv1a_hash(bytes@.subrange(0, i as int)),
        decreases bytes.len() - i,
    {
        let b = bytes[i];
        proof {
            let pre = bytes@.subrange(0, i as int);
            let post = bytes@.subrange(0, i + 1);
            assert(post.drop_last() =~= pre);
            assert(post.last() == b);
        }
        hash = hash ^ (b as u64);
        hash = hash.wrapping_mul(0x0000_0100_0000_01b3);
        i = i + 1;
    }
    assert(bytes@.subrange(0, bytes.len() as int) =~= bytes@);
    hash
}

// ---- screenshot ----

/// What the capture does next, given how the renderer readback went.
pub enum CaptureStep {
    /// The renderer readback succeeded: use its image.
    Renderer,
    /// The readback exists but failed: report this error, with no fallback.
    Fail(ErrorKind, String),
    /// Fall back to PrintWindow; the text says why the renderer was not used.
    Fallback(String),
}

/// The reason reported when the renderer readback is skipped on request.
pub open spec fn forced_skip_text() -> Seq<char> {
    "renderer capture skipped (GPUI_DRIVER_FORCE_PRINTWINDOW=1)"@
}

/// Decides the capture path. With the fallback forced the renderer is not consulted;
/// otherwise a successful readback is used, a "not implemented" failure (stock
/// backend without readback) falls back, and any other failure is an `internal`
/// error: the readback exists but broke, which a fallback would hide.
pub fn capture_step(forced: bool, renderer: Result<(), String>) -> (s: CaptureStep)
    ensures
        forced ==> (s matches CaptureStep::Fallback(w) && w@ == forced_skip_text()),
        !forced ==> match renderer {
            Ok(_) => s is Renderer,
            Err(e) => if contains_text(e@, "not implemented"@) {
                s matches CaptureStep::Fallback(w) && w@ == e@
            } else {
                s matches CaptureStep::Fail(k, m) && k == ErrorKind::Internal && m@ == "screenshot failed: "@ + e@
            },
        },
{
    if forced {
        return CaptureStep::Fallback(owned("renderer capture skipped (GPUI_DRIVER_FORCE_PRINTWINDOW=1)"));
    }
    match renderer {
        Ok(()) => CaptureStep::Renderer,
        Err(e) => {
            if contains_str(e.as_str(), "not implemented") {
                CaptureStep::Fallback(e)
            } else {
                let mut m = owned("screenshot failed: ");
                m.append(e.as_str());
                CaptureStep::Fail(ErrorKind::Internal, m)
            }
        },
    }
}

/// The outcome of the PrintWindow fallback: its capture method, or an `unsupported`
/// error naming both failures.
pub fn fallback_outcome(renderer_err: &str, fallback: Result<(), String>) -> (r: Result<String, HandlerError>)
    ensures
        fallback is Ok ==> (r matches Ok(m) && m@ == "printwindow"@),
        fallback matches Err(f) ==> (r matches Err(e) && e.0 == ErrorKind::Unsupported && e.1@ == "screenshot failed: "@
            + renderer_err@ + "; PrintWindow fallback: "@ + f@),
{
    match fallback {
        Ok(()) => Ok(owned("printwindow")),
        Err(f) => {
            let mut m = owned("screenshot failed: ");
            m.append(renderer_err);
            m.append("; PrintWindow fallback: ");
            m.append(f.as_str());
            Err((ErrorKind::Unsupported, m))
        },
    }
}

/// A screenshot result without its scale factor.
pub struct ScreenshotPayload {
    pub format: String,
    pub data_base64: String,
    pub width: u32,
    pub height: u32,
    pub method: String,
}

/// Packs a captured PNG: `format` is `"png"`, `data_base64` its base64 text, which
/// decodes back to exactly `png`.
pub fn screenshot_payload(png: &[u8], width: u32, height: u32, method: &str) -> (p: ScreenshotPayload)
    ensures
        p.format@ == "png"@,
        p.data_base64@ == base64_encoded(png@),
        base64_decoded(p.data_base64@) == Some(png@),
        p.width == width,
        p.height == height,
        p.method@ == method@,
{
    ScreenshotPayload {
        format: owned("png"),
        data_base64: base64_encode(png),
        width,
        height,
        method: owned(method),
    }
}

/// Encodes captured RGBA pixels (four bytes per pixel, row-major) as PNG and packs
/// them. An image with a zero width or height cannot be encoded: that is an
/// `internal` error carrying the encoder's message.
pub fn screenshot_from_rgba(rgba: Vec<u8>, width: u32, height: u32, method: &str) -> (r: Result<ScreenshotPayload, HandlerError>)
    requires
        rgba@.len() == 4 * width * height,
    ensures
        width > 0 && height > 0 ==> (r matches Ok(p) && p.format@ == "png"@
            && p.data_base64@ == base64_encoded(png_encoding(width, height, rgba@)) && p.width == width
            && p.height == height && p.method@ == method@),
        !(width > 0 && height > 0) ==> (r matches Err(e) && e.0 == ErrorKind::Internal
            && e.1@ == png_encoding_error(width, height)),
{
    match encode_png(width, height, rgba) {
        Ok(png) => Ok(screenshot_payload(png.as_slice(), width, height, method)),
        Err(message) => Err(internal(message)),
    }
}

} // verus!
