//! Client-side logic: error classification and exit codes, request preparation,
//! response interpretation, app selection among discovery files, and screenshot
//! payload extraction.

use vstd::prelude::*;
use vstd::string::*;
use crate::codec::{base64_decode, base64_decode_error, base64_decoded};
use crate::json::{get_text_member, has_text_member_over, text_member, with_text_member};
use crate::protocol::{DiscoveryFile, ErrorKind, RpcRequest, RpcResponse, kind_variant_name, kind_wire_name};
use crate::text::{debug_quoted, debug_text, decimal, decimal_string, owned, str_equal};

verus! {

/// A filesystem path (`std::path::PathBuf`), carried through unchanged.
#[verifier::external_type_specification]
#[verifier::external_body]
pub struct ExPathBuf(std::path::PathBuf);

/// Failures that map onto the CLI's documented exit codes.
#[derive(Debug)]
pub enum CliError {
    /// The app responded with a JSON-RPC error.
    Rpc { kind: Option<ErrorKind>, message: String },
    /// No (matching) live instrumented app was found.
    NoApp(String),
    /// Transport/serialization trouble.
    Protocol(String),
}

pub const EXIT_OK: i32 = 0;
pub const EXIT_NOT_FOUND: i32 = 2;
pub const EXIT_TIMEOUT: i32 = 3;
pub const EXIT_NO_APP: i32 = 4;
pub const EXIT_PROTOCOL: i32 = 5;

/// The documented exit code of each failure: 2 element/window not found (or not
/// visible), 3 timeout, 4 no app, 5 protocol/transport/auth and everything else.
pub open spec fn exit_code_of(err: CliError) -> int {
    match err {
        CliError::NoApp(_) => 4,
        CliError::Protocol(_) => 5,
        CliError::Rpc { kind, .. } => match kind {
            Some(ErrorKind::ElementNotFound) | Some(ErrorKind::ElementNotVisible) | Some(
                ErrorKind::WindowNotFound,
            ) => 2,
            Some(ErrorKind::Timeout) => 3,
            _ => 5,
        },
    }
}

/// The process exit code for a failure.
pub fn exit_code(err: &CliError) -> (code: i32)
    ensures
        code == exit_code_of(*err),
{
    match err {
        CliError::NoApp(_) => EXIT_NO_APP,
        CliError::Protocol(_) => EXIT_PROTOCOL,
        CliError::Rpc { kind, .. } => match kind {
            Some(ErrorKind::ElementNotFound) | Some(ErrorKind::ElementNotVisible) | Some(
                ErrorKind::WindowNotFound,
            ) => EXIT_NOT_FOUND,
            Some(ErrorKind::Timeout) => EXIT_TIMEOUT,
            _ => EXIT_PROTOCOL,
        },
    }
}

/// The human-readable text of a failure: the message, followed by ` (Kind)` for an
/// RPC error that carries a kind.
pub open spec fn describe_text(err: CliError) -> Seq<char> {
    match err {
        CliError::Rpc { kind, message } => match kind {
            Some(k) => message@ + " ("@ + kind_variant_name(k) + ")"@,
            None => message@,
        },
        CliError::NoApp(message) => message@,
        CliError::Protocol(message) => message@,
    }
}

/// The machine-readable `kind` reported in JSON mode: the wire name of an RPC
/// error's kind, `no_app`, or `protocol`.
pub open spec fn kind_label_text(err: CliError) -> Option<Seq<char>> {
    match err {
        CliError::Rpc { kind, .. } => match kind {
            Some(k) => Some(kind_wire_name(k)),
            None => None,
        },
        CliError::NoApp(_) => Some("no_app"@),
        CliError::Protocol(_) => Some("protocol"@),
    }
}

impl CliError {
    /// The text the CLI prints for this failure.
    pub fn describe(&self) -> (s: String)
        ensures
            s@ == describe_text(*self),
    {
        match self {
            CliError::Rpc { kind, message } => match kind {
                Some(k) => {
                    let mut s = message.clone();
                    s.append(" (");
                    let name = k.variant_name();
                    s.append(name.as_str());
                    s.append(")");
                    s
                },
                None => message.clone(),
            },
            CliError::NoApp(message) => message.clone(),
            CliError::Protocol(message) => message.clone(),
        }
    }

    /// The `kind` reported alongside the error in JSON mode.
    pub fn kind_label(&self) -> (l: Option<String>)
        ensures
            match l {
                Some(s) => kind_label_text(*self) == Some(s@),
                None => kind_label_text(*self) is None,
            },
    {
        match self {
            CliError::Rpc { kind, .. } => match kind {
                Some(k) => Some(k.wire_name()),
                None => None,
            },
            CliError::NoApp(_) => Some(owned("no_app")),
            CliError::Protocol(_) => Some(owned("protocol")),
        }
    }
}

/// Per-connection request state: the auth token and the next request id.
pub struct CallState {
    token: String,
    next_id: u64,
}

impl CallState {
    pub closed spec fn token(&self) -> Seq<char> {
        self.token@
    }

    pub closed spec fn next_id(&self) -> u64 {
        self.next_id
    }

    /// Fresh state for a connection authenticated by `token`; ids start at 1.
    pub fn new(token: String) -> (s: Self)
        ensures
            s.token() == token@,
            s.next_id() == 1,
    {
        CallState { token, next_id: 1 }
    }

    /// Whether another request id is available.
    pub fn can_call(&self) -> (b: bool)
        ensures
            b == (self.next_id() < u64::MAX),
    {
        self.next_id < u64::MAX
    }

    /// Builds the next request: it takes the next id, and its params are `params`
    /// (an empty object if `params` is not an object) with the member `token` set to
    /// the connection's token.
    pub fn begin_call(&mut self, method: &str, params: serde_json::Value) -> (req: RpcRequest)
        requires
            old(self).next_id() < u64::MAX,
        ensures
            req.jsonrpc@ == "2.0"@,
            req.id == old(self).next_id(),
            req.method@ == method@,
            has_text_member_over(req.params, params, "token"@, old(self).token()),
            final(self).next_id() == old(self).next_id() + 1,
            final(self).token() == old(self).token(),
    {
        let params = with_text_member(params, "token", self.token.clone());
        let id = self.next_id;
        self.next_id = self.next_id + 1;
        RpcRequest::new(id, method, params)
    }
}

/// What a response means to the caller: its `result`, or the RPC error it carries.
pub open spec fn response_outcome_ok(resp: RpcResponse, r: Result<serde_json::Value, CliError>) -> bool {
    match resp.error {
        Some(e) => r matches Err(CliError::Rpc { kind, message }) && message@ == e.message@
            && kind == match e.data {
            Some(d) => Some(d.kind),
            None => None,
        },
        None => match resp.result {
            Some(v) => r == Ok::<serde_json::Value, CliError>(v),
            None => r matches Err(CliError::Protocol(m)) && m@
                == "response had neither result nor error"@,
        },
    }
}

/// Interprets a response: the error (with its structured kind) wins over the result;
/// a response with neither is a protocol error.
pub fn response_result(resp: RpcResponse) -> (r: Result<serde_json::Value, CliError>)
    ensures
        response_outcome_ok(resp, r),
{
    match resp.error {
        Some(error) => {
            let kind = match error.data {
                Some(d) => Some(d.kind),
                None => None,
            };
            Err(CliError::Rpc { kind, message: error.message })
        },
        None => match resp.result {
            Some(v) => Ok(v),
            None => Err(CliError::Protocol(owned("response had neither result nor error"))),
        },
    }
}

/// A parseable discovery file and where it was found.
pub struct Discovered {
    pub file: DiscoveryFile,
    pub path: std::path::PathBuf,
}

pub open spec fn opt_str(s: Option<&str>) -> Option<Seq<char>> {
    match s {
        Some(t) => Some(t@),
        None => None,
    }
}

/// A discovery file passes the `--app` and `--pid` filters that are given.
pub open spec fn selects(f: DiscoveryFile, app: Option<Seq<char>>, pid: Option<u32>) -> bool {
    &&& (app matches Some(a) ==> f.app_name@ == a)
    &&& (pid matches Some(p) ==> f.pid == p)
}

/// The entries of `s` that pass the filters, in order.
pub open spec fn selected(s: Seq<Discovered>, app: Option<Seq<char>>, pid: Option<u32>) -> Seq<Discovered>
    decreases s.len(),
{
    if s.len() == 0 {
        Seq::empty()
    } else if selects(s[0].file, app, pid) {
        seq![s[0]] + selected(s.drop_first(), app, pid)
    } else {
        selected(s.drop_first(), app, pid)
    }
}

/// Keeps the discovery entries whose app name and pid match the given filters.
pub fn filter_candidates(found: Vec<Discovered>, app: Option<&str>, pid: Option<u32>) -> (c: Vec<Discovered>)
    ensures
        c@ == selected(found@, opt_str(app), pid),
{
    let ghost all = found@;
    let mut rest = found;
    let mut kept: Vec<Discovered> = Vec::new();
    while rest.len() > 0
        invariant
            kept@ + selected(rest@, opt_str(app), pid) == selected(all, opt_str(app), pid),
        decreases rest.len(),
    {
        let ghost before = rest@;
        let d = rest.remove(0);
        assert(before.drop_first() =~= rest@);
        let name_ok = match app {
            Some(a) => str_equal(d.file.app_name.as_str(), a),
            None => true,
        };
        let pid_ok = match pid {
            Some(p) => d.file.pid == p,
            None => true,
        };
        if name_ok && pid_ok {
            let ghost k = kept@;
            kept.push(d);
            assert(kept@ + selected(rest@, opt_str(app), pid) =~= k + (seq![d] + selected(rest@, opt_str(app), pid)));
        }
    }
    assert(kept@ + selected(rest@, opt_str(app), pid) =~= kept@);
    kept
}

/// Whether an entry's pid is `p`.
pub open spec fn pid_is(p: u32) -> spec_fn(Discovered) -> bool {
    |d: Discovered| d.file.pid == p
}

/// The entries of `s` whose pid is `p`, in their order in `s`.
pub open spec fn with_pid(s: Seq<Discovered>, p: u32) -> Seq<Discovered> {
    s.filter(pid_is(p))
}

proof fn lemma_filter_none<A>(s: Seq<A>, pred: spec_fn(A) -> bool)
    requires
        forall|i: int| 0 <= i < s.len() ==> !pred(#[trigger] s[i]),
    ensures
        s.filter(pred) == Seq::<A>::empty(),
    decreases s.len(),
{
    reveal(Seq::filter);
    if s.len() > 0 {
        lemma_filter_none(s.drop_last(), pred);
    }
}

/// Sorts discovery entries by pid, stably: entries with equal pids keep their order.
pub fn sort_by_pid(found: Vec<Discovered>) -> (s: Vec<Discovered>)
    ensures
        forall|i: int, j: int| 0 <= i <= j < s.len() ==> s@[i].file.pid <= s@[j].file.pid,
        forall|p: u32| #[trigger] with_pid(s@, p) == with_pid(found@, p),
        s@.to_multiset() == found@.to_multiset(),
{
    broadcast use vstd::seq_lib::group_to_multiset_ensures;
    broadcast use vstd::multiset::group_multiset_axioms;
    let ghost all = found@;
    let mut rest = found;
    let mut sorted: Vec<Discovered> = Vec::new();
    assert(sorted@.to_multiset() =~= vstd::multiset::Multiset::empty());
    assert(all.subrange(rest.len() as int, all.len() as int) =~= Seq::<Discovered>::empty());
    assert forall|p: u32| #[trigger] with_pid(sorted@, p) == with_pid(all.subrange(rest.len() as int, all.len() as int), p) by {
        assert(with_pid(sorted@, p) =~= Seq::<Discovered>::empty());
    }
    while rest.len() > 0
        invariant
            rest@ == all.subrange(0, rest.len() as int),
            rest.len() <= all.len(),
            sorted@.to_multiset().add(rest@.to_multiset()) == all.to_multiset(),
            forall|i: int, j: int| 0 <= i <= j < sorted.len() ==> sorted@[i].file.pid <= sorted@[j].file.pid,
            forall|p: u32| #[trigger] with_pid(sorted@, p) == with_pid(all.subrange(rest.len() as int, all.len() as int), p),
        decreases rest.len(),
    {
        let ghost before = rest@;
        let ghost done = all.subrange(rest.len() as int, all.len() as int);
        let d = rest.pop().unwrap();
        assert(before =~= rest@.push(d));
        let mut k: usize = sorted.len();
        while k > 0 && sorted[k - 1].file.pid >= d.file.pid
            invariant
                k <= sorted.len(),
                forall|i: int| k <= i < sorted.len() ==> sorted@[i].file.pid >= d.file.pid,
            decreases k,
        {
            k = k - 1;
        }
        let ghost s0 = sorted@;
        sorted.insert(k, d);
        assert(sorted@ == s0.insert(k as int, d));
        proof {
            vstd::seq_lib::to_multiset_insert(s0, k as int, d);
            vstd::seq_lib::to_multiset_build(rest@, d);
            let now_done = all.subrange(rest.len() as int, all.len() as int);
            assert(now_done =~= seq![d] + done);
            assert forall|p: u32| #[trigger] with_pid(sorted@, p) == with_pid(now_done, p) by {
                let pred = pid_is(p);
                let lo = s0.subrange(0, k as int);
                let hi = s0.subrange(k as int, s0.len() as int);
                assert(s0 =~= lo + hi);
                assert(sorted@ =~= lo + (seq![d] + hi));
                Seq::filter_distributes_over_add(lo, seq![d] + hi, pred);
                Seq::filter_distributes_over_add(lo, hi, pred);
                hi.lemma_filter_prepend(d, pred);
                done.lemma_filter_prepend(d, pred);
                assert(with_pid(s0, p) == with_pid(done, p));
                if p == d.file.pid {
                    assert forall|i: int| 0 <= i < lo.len() implies !pred(#[trigger] lo[i]) by {
                        assert(s0[k - 1].file.pid < d.file.pid);
                    }
                    lemma_filter_none(lo, pred);
                    assert(with_pid(sorted@, p) =~= seq![d] + hi.filter(pred));
                    assert(with_pid(s0, p) =~= hi.filter(pred));
                    assert(with_pid(now_done, p) =~= seq![d] + with_pid(done, p));
                } else {
                    assert(with_pid(sorted@, p) =~= lo.filter(pred) + hi.filter(pred));
                    assert(with_pid(now_done, p) =~= with_pid(done, p));
                }
            }
        }
        assert(sorted@.to_multiset().add(rest@.to_multiset()) =~= s0.to_multiset().add(before.to_multiset()));
        assert forall|i: int, j: int| 0 <= i <= j < sorted.len() implies sorted@[i].file.pid <= sorted@[j].file.pid by {
            if k > 0 && i < k {
                assert(s0[k - 1].file.pid < d.file.pid);
            }
        }
    }
    assert(rest@.to_multiset() =~= vstd::multiset::Multiset::empty());
    assert(all.subrange(0, all.len() as int) =~= all);
    sorted
}

/// How one app is listed in an ambiguity message: `name (pid N)`.
pub open spec fn app_entry(f: DiscoveryFile) -> Seq<char> {
    f.app_name@ + " (pid "@ + decimal(f.pid as nat) + ")"@
}

/// The entries of `s` joined by `", "`.
pub open spec fn app_listing(s: Seq<DiscoveryFile>) -> Seq<char>
    decreases s.len(),
{
    if s.len() == 0 {
        Seq::empty()
    } else if s.len() == 1 {
        app_entry(s[0])
    } else {
        app_listing(s.drop_last()) + ", "@ + app_entry(s.last())
    }
}

/// The message when no live app matches the filters.
pub open spec fn none_found_message(app: Option<Seq<char>>, pid: Option<u32>, dir: Seq<char>) -> Seq<char> {
    "no running instrumented app found"@ + match app {
        Some(a) => " with name "@ + debug_text(a),
        None => Seq::empty(),
    } + match pid {
        Some(p) => " with pid "@ + decimal(p as nat),
        None => Seq::empty(),
    } + " (discovery dir: "@ + dir + ")"@
}

/// The message when several live apps match the filters.
pub open spec fn ambiguous_message(files: Seq<DiscoveryFile>) -> Seq<char> {
    decimal(files.len()) + " instrumented apps are running; disambiguate with --app <name> or --pid <pid>: "@
        + app_listing(files)
}

pub open spec fn live_files<C>(live: Seq<(Discovered, C)>) -> Seq<DiscoveryFile> {
    live.map_values(|e: (Discovered, C)| e.0.file)
}

fn app_entry_string(f: &DiscoveryFile) -> (s: String)
    ensures
        s@ == app_entry(*f),
{
    let mut s = f.app_name.clone();
    s.append(" (pid ");
    let n = decimal_string(f.pid as u64);
    s.append(n.as_str());
    s.append(")");
    s
}

/// Picks the single live candidate. Zero live candidates, or more than one, is a
/// `NoApp` error naming the filters (or listing the candidates).
pub fn choose_live<C>(live: Vec<(Discovered, C)>, app: Option<&str>, pid: Option<u32>, dir: &str) -> (r: Result<(Discovered, C), CliError>)
    ensures
        live.len() == 1 ==> r == Ok::<(Discovered, C), CliError>(live@[0]),
        live.len() == 0 ==> (r matches Err(CliError::NoApp(m)) && m@ == none_found_message(opt_str(app), pid, dir@)),
        live.len() > 1 ==> (r matches Err(CliError::NoApp(m)) && m@ == ambiguous_message(live_files(live@))),
{
    let n = live.len();
    if n == 1 {
        let mut live = live;
        let chosen = live.remove(0);
        return Ok(chosen);
    }
    if n == 0 {
        let mut m = owned("no running instrumented app found");
        match app {
            Some(a) => {
                m.append(" with name ");
                let q = debug_quoted(a);
                m.append(q.as_str());
            },
            None => {},
        }
        match pid {
            Some(p) => {
                m.append(" with pid ");
                let d = decimal_string(p as u64);
                m.append(d.as_str());
            },
            None => {},
        }
        m.append(" (discovery dir: ");
        m.append(dir);
        m.append(")");
        return Err(CliError::NoApp(m));
    }
    let ghost files = live_files(live@);
    let mut listing = String::new();
    let mut i: usize = 0;
    while i < n
        invariant
            n == live.len(),
            files == live_files(live@),
            i <= n,
            listing@ == app_listing(files.subrange(0, i as int)),
        decreases n - i,
    {
        let entry = app_entry_string(&live[i].0.file);
        if i > 0 {
            listing.append(", ");
        }
        listing.append(entry.as_str());
        assert(files.subrange(0, i + 1).drop_last() =~= files.subrange(0, i as int));
        i = i + 1;
    }
    assert(files.subrange(0, n as int) =~= files);
    let mut m = decimal_string(n as u64);
    m.append(" instrumented apps are running; disambiguate with --app <name> or --pid <pid>: ");
    m.append(listing.as_str());
    Err(CliError::NoApp(m))
}

/// The PNG bytes a screenshot result carries in `data_base64`.
pub open spec fn screenshot_outcome_ok(result: serde_json::Value, r: Result<Vec<u8>, CliError>) -> bool {
    match text_member(result, "data_base64"@) {
        None => r matches Err(CliError::Protocol(m)) && m@ == "screenshot response missing data"@,
        Some(t) => match base64_decoded(t) {
            Some(png) => r matches Ok(bytes) && bytes@ == png,
            None => r matches Err(CliError::Protocol(m)) && m@ == "invalid base64 image data: "@ + base64_decode_error(t),
        },
    }
}

/// Decodes the image of a screenshot result.
pub fn screenshot_png(result: &serde_json::Value) -> (r: Result<Vec<u8>, CliError>)
    ensures
        screenshot_outcome_ok(*result, r),
{
    match get_text_member(result, "data_base64") {
        None => Err(CliError::Protocol(owned("screenshot response missing data"))),
        Some(data) => match base64_decode(data.as_str()) {
            Ok(png) => Ok(png),
            Err(e) => {
                let mut m = owned("invalid base64 image data: ");
                m.append(e.as_str());
                Err(CliError::Protocol(m))
            },
        },
    }
}

/// How a screenshot was captured: the result's `method`, or `"renderer"` when an
/// older server omits it.
pub fn screenshot_method(result: &serde_json::Value) -> (m: String)
    ensures
        m@ == match text_member(*result, "method"@) {
            Some(t) => t,
            None => "renderer"@,
        },
{
    match get_text_member(result, "method") {
        Some(m) => m,
        None => owned("renderer"),
    }
}

/// Whether the image came from the best-effort PrintWindow fallback.
pub fn is_fallback_capture(method: &str) -> (b: bool)
    ensures
        b == (method@ == "printwindow"@),
{
    str_equal(method, "printwindow")
}

} // verus!
