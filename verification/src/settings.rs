//! The options of a session, as the crawl engine is to take them.
//!
//! Each `with_*` method of a session turns what the caller asked for into
//! one [`Setting`]; whoever owns the engine applies it.

use std::collections::HashMap;
use vstd::prelude::*;

verus! {

/// Nanoseconds in a second.
pub const NANOS_PER_SEC: u32 = 1_000_000_000;

/// Milliseconds in a second.
pub const MILLIS_PER_SEC: u64 = 1_000;

/// Nanoseconds in a millisecond.
pub const NANOS_PER_MILLI: u32 = 1_000_000;

/// A span of time in whole seconds and the nanoseconds beyond them.
#[derive(Debug, Clone, Copy, PartialEq, Eq, Structural)]
pub struct Span {
    /// The whole seconds.
    pub secs: u64,
    /// The nanoseconds beyond the whole seconds: less than a second.
    pub nanos: u32,
}

impl Span {
    /// The nanoseconds stay below one second.
    pub open spec fn wf(&self) -> bool {
        self.nanos < NANOS_PER_SEC
    }

    /// The length of the span in nanoseconds.
    pub open spec fn total_nanos(&self) -> int {
        self.secs * NANOS_PER_SEC + self.nanos
    }

    /// The span of `secs` seconds and `nanos` nanoseconds more. Nanoseconds
    /// that fill a second are carried over into the seconds, which must have
    /// room for them.
    pub fn new(secs: u64, nanos: u32) -> (span: Span)
        requires
            secs + nanos / NANOS_PER_SEC <= u64::MAX,
        ensures
            span.wf(),
            span.secs == secs + nanos / NANOS_PER_SEC,
            span.nanos == nanos % NANOS_PER_SEC,
            span.total_nanos() == secs * NANOS_PER_SEC + nanos,
    {
        let carry: u32 = nanos / NANOS_PER_SEC;
        let rest: u32 = nanos % NANOS_PER_SEC;
        assert(nanos == carry * NANOS_PER_SEC + rest) by (nonlinear_arith)
            requires
                carry == nanos / NANOS_PER_SEC,
                rest == nanos % NANOS_PER_SEC,
        ;
        assert((secs + carry) * NANOS_PER_SEC == secs * NANOS_PER_SEC + carry * NANOS_PER_SEC)
            by (nonlinear_arith);
        Span { secs: secs + carry as u64, nanos: rest }
    }

    /// The span of `millis` milliseconds.
    pub fn from_millis(millis: u64) -> (span: Span)
        ensures
            span.wf(),
            span == millis_span(millis),
            span.total_nanos() == millis * NANOS_PER_MILLI,
    {
        let secs: u64 = millis / MILLIS_PER_SEC;
        let rest: u64 = millis % MILLIS_PER_SEC;
        assert(millis == secs * MILLIS_PER_SEC + rest) by (nonlinear_arith)
            requires
                secs == millis / MILLIS_PER_SEC,
                rest == millis % MILLIS_PER_SEC,
        ;
        assert((secs * 1_000 + rest) * 1_000_000 == secs * 1_000_000_000 + rest * 1_000_000)
            by (nonlinear_arith);
        let nanos: u32 = rest as u32 * NANOS_PER_MILLI;
        Span { secs, nanos }
    }
}

/// The span of `millis` milliseconds: the whole seconds in them, and what
/// is left over as nanoseconds.
pub open spec fn millis_span(millis: u64) -> Span {
    Span {
        secs: millis / MILLIS_PER_SEC,
        nanos: ((millis % MILLIS_PER_SEC) * NANOS_PER_MILLI) as u32,
    }
}

/// How the engine follows redirects.
#[derive(Debug, Clone, Copy, PartialEq, Eq, Structural)]
pub enum RedirectPolicy {
    /// A redirect may lead anywhere.
    Loose,
    /// A redirect must stay on the host that was asked.
    Strict,
}

/// What a recurring run does each time it is due.
#[derive(Debug, Clone, Copy, PartialEq, Eq, Structural)]
pub enum CronType {
    /// It crawls: links are collected.
    Crawl,
    /// It scrapes: pages are kept.
    Scrape,
}

/// A wait for an element to show up.
#[derive(Debug, Clone, PartialEq, Eq)]
pub struct SelectorWait {
    /// How long to wait at most.
    pub timeout: Span,
    /// The CSS selector of the element.
    pub selector: String,
}

/// What AI-assisted extraction is to use.
#[derive(Debug, Clone, PartialEq, Eq)]
pub struct GptConfigs {
    /// The name of the model; empty where none was named.
    pub model: String,
    /// Whether prompts were given for single urls.
    pub prompt_url_map: bool,
}

/// The format of a screenshot.
#[derive(Debug, Clone, Copy, PartialEq, Eq, Structural)]
pub enum ImageFormat {
    /// JPEG.
    Jpeg,
    /// PNG.
    Png,
    /// WebP.
    Webp,
}

/// How screenshots of pages are taken and kept. The region to capture is
/// not part of it: that stays with the runtime.
#[derive(Debug, Clone, PartialEq, Eq)]
pub struct ScreenShotConfig {
    /// The image format; the browser's own choice where none is given.
    pub format: Option<ImageFormat>,
    /// The compression quality, for formats that have one.
    pub quality: Option<i64>,
    /// Whether the surface is captured rather than the view.
    pub from_surface: Option<bool>,
    /// Whether what lies beyond the viewport is captured too.
    pub capture_beyond_viewport: Option<bool>,
    /// Whether the whole page is taken.
    pub full_page: Option<bool>,
    /// Whether the background is left transparent.
    pub omit_background: Option<bool>,
    /// Whether the bytes of the screenshot go out with the page.
    pub bytes: bool,
    /// Whether the screenshot is stored on disk.
    pub save: bool,
    /// The directory to store it in.
    pub output_dir: Option<String>,
}

/// One option of a session in the form in which the engine takes it.
#[derive(Debug, Clone, PartialEq, Eq)]
pub enum Setting {
    /// The headers to send with each request; `None` sends no extra ones.
    Headers(Option<Vec<(String, String)>>),
    /// The user agent to send.
    UserAgent(Option<String>),
    /// Whether `robots.txt` is obeyed.
    RespectRobotsTxt(bool),
    /// Whether every resource of a page is collected.
    FullResources(bool),
    /// Whether requests of the browser are intercepted so that only what
    /// belongs to the host gets through, and whether images are blocked.
    ChromeIntercept {
        /// Interception is on.
        enabled: bool,
        /// Images and other visuals are blocked.
        block_visuals: bool,
    },
    /// The address of a browser to connect to; `None` starts one.
    ChromeConnection(Option<String>),
    /// Whether the `Host` header is kept as it was given.
    PreserveHostHeader(bool),
    /// Whether subdomains belong to the crawl.
    Subdomains(bool),
    /// Whether other top-level domains of the same name belong to the crawl.
    Tld(bool),
    /// Whether HTTP/2 is spoken without negotiation.
    Http2PriorKnowledge(bool),
    /// The longest a request may take; `None` sets no limit.
    RequestTimeout(Option<Span>),
    /// The other domains that belong to the crawl.
    ExternalDomains(Option<Vec<String>>),
    /// Whether the browser hides that it is driven.
    Stealth(bool),
    /// Whether invalid TLS certificates are accepted.
    DangerAcceptInvalidCerts(bool),
    /// How many pages may be fetched under each path pattern.
    Budget(HashMap<String, u32>),
    /// How many redirects a request may follow.
    RedirectLimit(usize),
    /// How redirects are followed.
    RedirectPolicy(RedirectPolicy),
    /// Patterns of urls that are not fetched.
    BlacklistUrl(Option<Vec<String>>),
    /// Patterns of urls that alone are fetched.
    WhitelistUrl(Option<Vec<String>>),
    /// A fixed wait before a page is read.
    WaitForDelay(Option<Span>),
    /// A wait for an element before a page is read.
    WaitForSelector(Option<SelectorWait>),
    /// A wait for the network to fall idle before a page is read.
    WaitForIdleNetwork(Option<Span>),
    /// A recurring run.
    Cron {
        /// When the run is due, as a cron expression.
        expression: String,
        /// What the run does.
        kind: CronType,
    },
    /// AI-assisted extraction.
    OpenAi(GptConfigs),
    /// Screenshots.
    Screenshot(ScreenShotConfig),
    /// The pause between two requests, in milliseconds.
    Delay(u64),
    /// How deep the crawl goes; 0 sets no limit.
    Depth(usize),
    /// Whether the links of a page go out with its event.
    ReturnPageLinks(bool),
    /// Whether responses are cached by the rules of HTTP.
    Caching(bool),
    /// The url of the sitemap.
    Sitemap(Option<String>),
    /// The proxies to send requests through.
    Proxies(Option<Vec<String>>),
}

/// A wait of up to `seconds` seconds and `nanos` nanoseconds, where at
/// least one of the two is given; the one that is not given counts as 0.
pub open spec fn wait_span(seconds: Option<u32>, nanos: Option<u32>) -> Option<Span> {
    if seconds is Some || nanos is Some {
        let s: u32 = if seconds is Some {
            seconds->0
        } else {
            0
        };
        let n: u32 = if nanos is Some {
            nanos->0
        } else {
            0
        };
        Some(Span { secs: (s + n / NANOS_PER_SEC) as u64, nanos: n % NANOS_PER_SEC })
    } else {
        None
    }
}

/// The wait that `seconds` and `nanos` ask for: see [`wait_span`].
pub fn wait_for(seconds: Option<u32>, nanos: Option<u32>) -> (wait: Option<Span>)
    ensures
        wait == wait_span(seconds, nanos),
        wait is Some ==> wait->0.wf(),
{
    if seconds.is_some() || nanos.is_some() {
        let s: u32 = match seconds {
            Some(s) => s,
            None => 0,
        };
        let n: u32 = match nanos {
            Some(n) => n,
            None => 0,
        };
        Some(Span::new(s as u64, n))
    } else {
        None
    }
}

} // verus!
