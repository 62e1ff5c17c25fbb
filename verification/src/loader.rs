//! Bundle resolution and the Vite dev-server protocol decisions.
//!
//! Three modes cover the lifetime of an app: dev (a Vite server with HMR),
//! prod from disk (a loose file) and prod embedded (`include_str!`). `Auto`
//! picks one from the environment at run time.
//!
//! The library decides; the caller reads environment variables and files,
//! talks HTTP and WebSocket, and sleeps.
use vstd::prelude::*;
use vstd::string::*;

use crate::text::{has_prefix, starts_with, strip_prefix, to_owned_string};

verus! {

/// The bundle used when nothing is configured: it only logs a hint, so the
/// window still opens.
pub const NO_APP_BUNDLE: &'static str = "\n__host_log(\"[valhalla] no bundle configured. Set VALHALLA_DEV=http://localhost:5173 or VALHALLA_BUNDLE=/path/to/bundle.js, or call .bundle() explicitly.\");\n";

/// Where to load JavaScript from.
#[derive(Debug, Clone)]
pub enum Bundle {
    /// Compile-time embed via `include_str!`: single-binary distribution.
    Embedded(&'static str),
    /// Read from disk at startup.
    File(String),
    /// Connect to a running Vite dev server.
    Vite { url: String },
    /// Inspect the environment: `VALHALLA_DEV` means Vite, `VALHALLA_BUNDLE`
    /// a file, otherwise the tiny empty bundle.
    Auto,
}

/// A resolved bundle: where its source comes from.
#[derive(Debug, Clone)]
pub enum ResolvedBundle {
    /// The source text, ready to evaluate once at startup.
    Source(String),
    /// The source is the text of this file.
    File(String),
    /// A live dev session with the Vite server at this base URL.
    Live(String),
}

/// Why a bundle cannot be resolved.
#[derive(Debug, Clone, PartialEq, Eq)]
pub enum BundleError {
    /// `Bundle::Vite` in a build without the dev loader.
    ViteRequiresDevLoader,
}

impl BundleError {
    /// The error message.
    pub fn message(&self) -> (m: String)
        ensures
            m@ == "Bundle::Vite requires the `dev-loader` feature"@,
    {
        to_owned_string("Bundle::Vite requires the `dev-loader` feature")
    }
}

/// `Bundle::Auto` resolved from the values of `VALHALLA_DEV` and
/// `VALHALLA_BUNDLE` (each `None` when unset).
pub fn resolve_auto_bundle(dev_url: Option<String>, bundle_path: Option<String>) -> (b: Bundle)
    ensures
        match dev_url {
            Some(url) => b == Bundle::Vite { url },
            None => match bundle_path {
                Some(p) => b == Bundle::File(p),
                None => b == Bundle::Embedded(NO_APP_BUNDLE),
            },
        },
{
    match dev_url {
        Some(url) => Bundle::Vite { url },
        None => match bundle_path {
            Some(p) => Bundle::File(p),
            None => Bundle::Embedded(NO_APP_BUNDLE),
        },
    }
}

impl Bundle {
    /// Resolves the bundle: `Auto` through `resolve_auto_bundle` with the
    /// given environment values, then embedded text as the source, a file
    /// as the file to read, and a Vite URL as a live session, which needs a
    /// build with the dev loader.
    pub fn resolve(
        self,
        dev_url: Option<String>,
        bundle_path: Option<String>,
        dev_loader: bool,
    ) -> (r: Result<ResolvedBundle, BundleError>)
        ensures
            ({
                let b = match self {
                    Bundle::Auto => match dev_url {
                        Some(url) => Bundle::Vite { url },
                        None => match bundle_path {
                            Some(p) => Bundle::File(p),
                            None => Bundle::Embedded(NO_APP_BUNDLE),
                        },
                    },
                    other => other,
                };
                match b {
                    Bundle::Embedded(s) => r matches Ok(ResolvedBundle::Source(t)) && t@ == s@,
                    Bundle::File(p) => r == Ok::<ResolvedBundle, BundleError>(
                        ResolvedBundle::File(p),
                    ),
                    Bundle::Vite { url } => if dev_loader {
                        r == Ok::<ResolvedBundle, BundleError>(ResolvedBundle::Live(url))
                    } else {
                        r == Err::<ResolvedBundle, BundleError>(
                            BundleError::ViteRequiresDevLoader,
                        )
                    },
                    Bundle::Auto => false,
                }
            }),
    {
        let resolved = match self {
            Bundle::Auto => resolve_auto_bundle(dev_url, bundle_path),
            other => other,
        };
        match resolved {
            Bundle::Embedded(s) => Ok(ResolvedBundle::Source(to_owned_string(s))),
            Bundle::File(p) => Ok(ResolvedBundle::File(p)),
            Bundle::Vite { url } => if dev_loader {
                Ok(ResolvedBundle::Live(url))
            } else {
                Err(BundleError::ViteRequiresDevLoader)
            },
            Bundle::Auto => Ok(ResolvedBundle::Source(to_owned_string(NO_APP_BUNDLE))),
        }
    }
}

/// Number of trailing `/` of `s`.
pub open spec fn trailing_slashes(s: Seq<char>) -> nat
    decreases s.len(),
{
    if s.len() > 0 && s.last() == '/' {
        1 + trailing_slashes(s.drop_last())
    } else {
        0
    }
}

/// `s.trim_end_matches('/')`.
pub open spec fn without_trailing_slashes(s: Seq<char>) -> Seq<char> {
    s.take(s.len() - trailing_slashes(s))
}

proof fn lemma_trailing_slashes(s: Seq<char>, k: int)
    requires
        0 <= k <= s.len(),
        forall|j: int| s.len() - k <= j < s.len() ==> s[j] == '/',
        k == s.len() || s[s.len() - k - 1] != '/',
    ensures
        trailing_slashes(s) == k,
    decreases k,
{
    if k > 0 {
        lemma_trailing_slashes(s.drop_last(), k - 1);
    }
}

/// `s.trim_end_matches('/')`.
pub fn trim_trailing_slashes(s: &str) -> (r: &str)
    ensures
        r@ == without_trailing_slashes(s@),
{
    let n = s.unicode_len();
    let mut k: usize = 0;
    while k < n && s.get_char(n - 1 - k) == '/'
        invariant
            n == s@.len(),
            k <= n,
            forall|j: int| n - k <= j < n ==> s@[j] == '/',
        decreases n - k,
    {
        k += 1;
    }
    proof {
        lemma_trailing_slashes(s@, k as int);
    }
    let r = s.substring_char(0, n - k);
    assert(r@ =~= without_trailing_slashes(s@));
    r
}

/// The WebSocket URL of Vite's HMR channel for a dev server's HTTP URL:
/// `http://` becomes `ws://`, `https://` becomes `wss://`, and a URL with
/// neither gets `ws://`; trailing slashes go.
pub open spec fn ws_url(http: Seq<char>) -> Seq<char> {
    let s = without_trailing_slashes(http);
    if has_prefix(s, "http://"@) {
        "ws://"@ + s.skip(7)
    } else if has_prefix(s, "https://"@) {
        "wss://"@ + s.skip(8)
    } else {
        "ws://"@ + s
    }
}

/// The WebSocket URL of Vite's HMR channel for a dev server's HTTP URL.
pub fn ws_url_from_http(http: &str) -> (r: String)
    ensures
        r@ == ws_url(http@),
{
    let stripped = trim_trailing_slashes(http);
    proof {
        reveal_strlit("http://");
        reveal_strlit("https://");
    }
    if let Some(rest) = strip_prefix(stripped, "http://") {
        let mut r = to_owned_string("ws://");
        r.append(rest);
        r
    } else if let Some(rest) = strip_prefix(stripped, "https://") {
        let mut r = to_owned_string("wss://");
        r.append(rest);
        r
    } else {
        let mut r = to_owned_string("ws://");
        r.append(stripped);
        r
    }
}

/// The URL that checks whether the dev server is up: the base URL without
/// trailing slashes, then `/`.
pub fn probe_url(base_url: &str) -> (r: String)
    ensures
        r@ == without_trailing_slashes(base_url@) + "/"@,
{
    let mut r = to_owned_string(trim_trailing_slashes(base_url));
    r.append("/");
    r
}

/// The URL of a module path: an `http://` or `https://` URL as is, a path
/// starting with `/` after the base URL, any other path after the base URL
/// and a `/`; the base URL loses its trailing slashes.
pub open spec fn module_url_spec(base_url: Seq<char>, path: Seq<char>) -> Seq<char> {
    if has_prefix(path, "http://"@) || has_prefix(path, "https://"@) {
        path
    } else if has_prefix(path, "/"@) {
        without_trailing_slashes(base_url) + path
    } else {
        without_trailing_slashes(base_url) + "/"@ + path
    }
}

/// The URL to fetch a module from (`ViteSession::fetch_module`).
pub fn module_url(base_url: &str, path: &str) -> (r: String)
    ensures
        r@ == module_url_spec(base_url@, path@),
{
    if starts_with(path, "http://") || starts_with(path, "https://") {
        to_owned_string(path)
    } else if starts_with(path, "/") {
        let mut r = to_owned_string(trim_trailing_slashes(base_url));
        r.append(path);
        r
    } else {
        let mut r = to_owned_string(trim_trailing_slashes(base_url));
        r.append("/");
        r.append(path);
        r
    }
}

/// A message of the HMR channel.
#[derive(Debug, Clone, PartialEq, Eq)]
pub enum HmrMessage {
    /// A raw JSON payload from Vite, forwarded verbatim to JS.
    Frame(String),
    /// The connection dropped: the UI should show "dev server offline".
    Disconnected,
}

/// What the HMR socket produced.
#[derive(Debug, Clone, PartialEq, Eq)]
pub enum SocketEvent {
    /// A text message.
    Text(String),
    /// A close frame.
    Close,
    /// Any other message (binary, ping, pong).
    Other,
    /// A read error.
    Error,
}

/// What the HMR loop does next.
#[derive(Debug, Clone, PartialEq, Eq)]
pub enum HmrStep {
    /// Send this message to JS and keep reading.
    Forward(HmrMessage),
    /// Keep reading.
    Ignore,
    /// Leave the socket: report `Disconnected`, wait, connect again.
    Reconnect,
}

/// The step the HMR loop takes on a socket event: text is forwarded as a
/// frame, a close or an error ends the connection, anything else is ignored.
pub fn on_socket_event(e: SocketEvent) -> (s: HmrStep)
    ensures
        match e {
            SocketEvent::Text(p) => s == HmrStep::Forward(HmrMessage::Frame(p)),
            SocketEvent::Close | SocketEvent::Error => s == HmrStep::Reconnect,
            SocketEvent::Other => s == HmrStep::Ignore,
        },
{
    match e {
        SocketEvent::Text(p) => HmrStep::Forward(HmrMessage::Frame(p)),
        SocketEvent::Close | SocketEvent::Error => HmrStep::Reconnect,
        SocketEvent::Other => HmrStep::Ignore,
    }
}

/// How an attempt to open the HMR socket went.
#[derive(Debug, Clone, Copy, PartialEq, Eq)]
pub enum ConnectOutcome {
    /// The URL is no valid WebSocket request.
    BadUrl,
    /// The connection failed.
    Failed,
    /// The socket is open.
    Open,
}

/// What the HMR loop does after an attempt to connect.
#[derive(Debug, Clone, Copy, PartialEq, Eq)]
pub enum ConnectStep {
    /// Report `Disconnected` and end the loop: retrying cannot help.
    GiveUp,
    /// Start the backoff over and read the socket.
    Read,
    /// Report `Disconnected`, wait the backoff and try again.
    Retry,
}

/// The step after an attempt to connect: a bad URL ends the loop, a failed
/// connection is retried, an open socket is read.
pub fn on_connect(outcome: ConnectOutcome) -> (s: ConnectStep)
    ensures
        s == match outcome {
            ConnectOutcome::BadUrl => ConnectStep::GiveUp,
            ConnectOutcome::Failed => ConnectStep::Retry,
            ConnectOutcome::Open => ConnectStep::Read,
        },
{
    match outcome {
        ConnectOutcome::BadUrl => ConnectStep::GiveUp,
        ConnectOutcome::Failed => ConnectStep::Retry,
        ConnectOutcome::Open => ConnectStep::Read,
    }
}

/// What the HMR loop does after handing a message to JS.
#[derive(Debug, Clone, Copy, PartialEq, Eq)]
pub enum SendStep {
    /// Go on.
    Continue,
    /// End the loop.
    Stop,
}

/// The step after a send on the HMR channel: the loop ends once the
/// receiving side is gone, since nobody would read what follows.
pub fn after_send(delivered: bool) -> (s: SendStep)
    ensures
        s == if delivered {
            SendStep::Continue
        } else {
            SendStep::Stop
        },
{
    if delivered {
        SendStep::Continue
    } else {
        SendStep::Stop
    }
}

/// The first reconnect delay, in ms.
pub const HMR_BACKOFF_START_MS: u64 = 250;

/// The longest reconnect delay, in ms.
pub const HMR_BACKOFF_MAX_MS: u64 = 5000;

/// The delay after `k` reconnects without a successful connection.
pub open spec fn backoff_after(k: nat) -> nat
    decreases k,
{
    if k == 0 {
        HMR_BACKOFF_START_MS as nat
    } else {
        let d = 2 * backoff_after((k - 1) as nat);
        if d < HMR_BACKOFF_MAX_MS {
            d
        } else {
            HMR_BACKOFF_MAX_MS as nat
        }
    }
}

/// The reconnect delay of the HMR loop: it starts at 250 ms, doubles after
/// each failed attempt up to 5 s, and starts over after a connection.
#[derive(Debug)]
pub struct HmrBackoff {
    delay_ms: u64,
}

impl HmrBackoff {
    #[verifier::type_invariant]
    spec fn within_max(&self) -> bool {
        self.delay_ms <= HMR_BACKOFF_MAX_MS
    }

    /// The current delay, in ms.
    pub closed spec fn delay(&self) -> nat {
        self.delay_ms as nat
    }

    /// A backoff at its first delay.
    pub fn new() -> (b: Self)
        ensures
            b.delay() == backoff_after(0),
    {
        HmrBackoff { delay_ms: HMR_BACKOFF_START_MS }
    }

    /// A connection succeeded: the next delay is the first one again.
    pub fn connected(&mut self)
        ensures
            final(self).delay() == backoff_after(0),
    {
        self.delay_ms = HMR_BACKOFF_START_MS;
    }

    /// The connection is gone: returns how long to wait before trying again
    /// and doubles the next delay, up to the longest.
    pub fn next_delay(&mut self) -> (wait_ms: u64)
        ensures
            wait_ms == old(self).delay(),
            final(self).delay() == if 2 * old(self).delay() < HMR_BACKOFF_MAX_MS {
                2 * old(self).delay()
            } else {
                HMR_BACKOFF_MAX_MS as nat
            },
    {
        proof {
            use_type_invariant(&*self);
        }
        let wait_ms = self.delay_ms;
        let doubled = self.delay_ms * 2;
        self.delay_ms = if doubled < HMR_BACKOFF_MAX_MS {
            doubled
        } else {
            HMR_BACKOFF_MAX_MS
        };
        wait_ms
    }
}

/// The delay never leaves `[250, 5000]` ms, and after `k` failed attempts
/// in a row it is `min(250 * 2^k, 5000)`: 250, 500, 1000, 2000, 4000, then
/// 5000 from the fifth attempt on.
pub proof fn law_backoff_is_capped_doubling(k: nat)
    ensures
        HMR_BACKOFF_START_MS <= backoff_after(k) <= HMR_BACKOFF_MAX_MS,
        backoff_after(k + 1) == if 2 * backoff_after(k) < HMR_BACKOFF_MAX_MS {
            2 * backoff_after(k)
        } else {
            HMR_BACKOFF_MAX_MS as nat
        },
        k >= 5 ==> backoff_after(k) == HMR_BACKOFF_MAX_MS,
    decreases k,
{
    if k > 0 {
        law_backoff_is_capped_doubling((k - 1) as nat);
    }
    if k >= 5 {
        law_backoff_is_capped_doubling(4);
        assert(backoff_after(0) == 250);
        assert(backoff_after(1) == 500);
        assert(backoff_after(2) == 1000);
        assert(backoff_after(3) == 2000);
        assert(backoff_after(4) == 4000);
        assert(backoff_after(5) == 5000);
        lemma_backoff_stays_max(5, k);
    }
}

proof fn lemma_backoff_stays_max(i: nat, k: nat)
    requires
        i <= k,
        backoff_after(i) == HMR_BACKOFF_MAX_MS,
    ensures
        backoff_after(k) == HMR_BACKOFF_MAX_MS,
    decreases k - i,
{
    if i < k {
        assert(backoff_after(i + 1) == HMR_BACKOFF_MAX_MS);
        lemma_backoff_stays_max(i + 1, k);
    }
}

} // verus!
