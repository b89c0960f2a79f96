//! The options of a session: each method turns what the caller asks for
//! into the [`Setting`] that the engine is to take.

use crate::headers::accept_headers;
use crate::headers::kept_headers;
use crate::settings::millis_span;
use crate::settings::wait_for;
use crate::settings::wait_span;
use crate::settings::CronType;
use crate::settings::GptConfigs;
use crate::settings::RedirectPolicy;
use crate::settings::ScreenShotConfig;
use crate::settings::SelectorWait;
use crate::settings::Setting;
use crate::settings::Span;
use crate::website::Website;
use std::collections::HashMap;
use vstd::prelude::*;

verus! {

/// The kind of a recurring run: a scrape where the caller says `scrape`,
/// a crawl for anything else and where the caller says nothing.
pub open spec fn cron_kind(cron_type: Option<Seq<char>>) -> CronType {
    if cron_type == Some("scrape"@) {
        CronType::Scrape
    } else {
        CronType::Crawl
    }
}

/// Whether a configuration of AI-assisted extraction says anything: it
/// names a model, or it has prompts for single urls.
pub open spec fn is_populated(configs: GptConfigs) -> bool {
    configs.model@.len() > 0 || configs.prompt_url_map
}

impl Website {
    /// The headers to send with each request. Of the headers asked for,
    /// those stay whose name is a header name and whose value is a header
    /// value; each goes under its name in canonical form. `None` sends no
    /// extra headers.
    pub fn with_headers(&self, headers: Option<Vec<(String, String)>>) -> (setting: Setting)
        ensures
            setting matches Setting::Headers(kept) && kept.deep_view() == match headers {
                Some(asked) => Some(kept_headers(asked.deep_view())),
                None => None,
            },
    {
        match headers {
            Some(asked) => Setting::Headers(Some(accept_headers(&asked))),
            None => Setting::Headers(None),
        }
    }

    /// The user agent to send.
    pub fn with_user_agent(&self, user_agent: Option<&str>) -> (setting: Setting)
        ensures
            setting matches Setting::UserAgent(agent) && agent.deep_view() == user_agent.deep_view(),
    {
        match user_agent {
            Some(agent) => Setting::UserAgent(Some(agent.to_owned())),
            None => Setting::UserAgent(None),
        }
    }

    /// Whether `robots.txt` is obeyed.
    pub fn with_respect_robots_txt(&self, respect_robots_txt: bool) -> (setting: Setting)
        ensures
            setting == Setting::RespectRobotsTxt(respect_robots_txt),
    {
        Setting::RespectRobotsTxt(respect_robots_txt)
    }

    /// Whether every resource of a page is collected.
    pub fn with_full_resources(&self, full_resources: bool) -> (setting: Setting)
        ensures
            setting == Setting::FullResources(full_resources),
    {
        Setting::FullResources(full_resources)
    }

    /// Whether requests of the browser are intercepted, and whether images
    /// are blocked.
    pub fn with_chrome_intercept(&self, chrome_intercept: bool, block_images: bool) -> (setting:
        Setting)
        ensures
            setting == (Setting::ChromeIntercept {
                enabled: chrome_intercept,
                block_visuals: block_images,
            }),
    {
        Setting::ChromeIntercept { enabled: chrome_intercept, block_visuals: block_images }
    }

    /// The address of the browser to connect to. An empty address asks for
    /// a browser of the engine's own.
    pub fn with_chrome_connection(&self, chrome_connection: String) -> (setting: Setting)
        ensures
            setting == Setting::ChromeConnection(
                if chrome_connection@.len() == 0 {
                    None
                } else {
                    Some(chrome_connection)
                },
            ),
    {
        if chrome_connection.as_str().is_empty() {
            Setting::ChromeConnection(None)
        } else {
            Setting::ChromeConnection(Some(chrome_connection))
        }
    }

    /// Whether the `Host` header is kept as it was given.
    pub fn with_preserve_host_header(&self, preserve_host: bool) -> (setting: Setting)
        ensures
            setting == Setting::PreserveHostHeader(preserve_host),
    {
        Setting::PreserveHostHeader(preserve_host)
    }

    /// Whether subdomains belong to the crawl.
    pub fn with_subdomains(&self, subdomains: bool) -> (setting: Setting)
        ensures
            setting == Setting::Subdomains(subdomains),
    {
        Setting::Subdomains(subdomains)
    }

    /// Whether other top-level domains of the same name belong to the crawl.
    pub fn with_tld(&self, tld: bool) -> (setting: Setting)
        ensures
            setting == Setting::Tld(tld),
    {
        Setting::Tld(tld)
    }

    /// Whether HTTP/2 is spoken without negotiation.
    pub fn with_http2_prior_knowledge(&self, http2_prior_knowledge: bool) -> (setting: Setting)
        ensures
            setting == Setting::Http2PriorKnowledge(http2_prior_knowledge),
    {
        Setting::Http2PriorKnowledge(http2_prior_knowledge)
    }

    /// The longest a request may take, in milliseconds. `None` sets no
    /// limit.
    pub fn with_request_timeout(&self, request_timeout: Option<u32>) -> (setting: Setting)
        ensures
            setting == Setting::RequestTimeout(
                match request_timeout {
                    Some(millis) => Some(millis_span(millis as u64)),
                    None => None,
                },
            ),
    {
        match request_timeout {
            Some(millis) => Setting::RequestTimeout(Some(Span::from_millis(millis as u64))),
            None => Setting::RequestTimeout(None),
        }
    }

    /// The other domains that belong to the crawl.
    pub fn with_external_domains(&self, external_domains: Option<Vec<String>>) -> (setting: Setting)
        ensures
            setting == Setting::ExternalDomains(external_domains),
    {
        Setting::ExternalDomains(external_domains)
    }

    /// Whether the browser hides that it is driven; not, where nothing is
    /// said.
    pub fn with_stealth(&self, stealth_mode: Option<bool>) -> (setting: Setting)
        ensures
            setting == Setting::Stealth(stealth_mode == Some(true)),
    {
        match stealth_mode {
            Some(stealth) => Setting::Stealth(stealth),
            None => Setting::Stealth(false),
        }
    }

    /// Whether invalid TLS certificates are accepted; not, where nothing
    /// is said.
    pub fn with_danger_accept_invalid_certs(&self, accept_invalid_certs: Option<bool>) -> (setting:
        Setting)
        ensures
            setting == Setting::DangerAcceptInvalidCerts(accept_invalid_certs == Some(true)),
    {
        match accept_invalid_certs {
            Some(accept) => Setting::DangerAcceptInvalidCerts(accept),
            None => Setting::DangerAcceptInvalidCerts(false),
        }
    }

    /// How many pages may be fetched under each path pattern. Without a
    /// budget there is nothing to set.
    pub fn with_budget(&self, budget: Option<HashMap<String, u32>>) -> (setting: Option<Setting>)
        ensures
            setting == match budget {
                Some(limits) => Some(Setting::Budget(limits)),
                None => None,
            },
    {
        match budget {
            Some(limits) => Some(Setting::Budget(limits)),
            None => None,
        }
    }

    /// How many redirects a request may follow.
    pub fn with_redirect_limit(&self, redirect_limit: u32) -> (setting: Setting)
        ensures
            setting == Setting::RedirectLimit(redirect_limit as usize),
    {
        Setting::RedirectLimit(redirect_limit as usize)
    }

    /// How redirects are followed: strictly, or loosely.
    pub fn with_redirect_policy(&self, strict: bool) -> (setting: Setting)
        ensures
            setting == Setting::RedirectPolicy(
                if strict {
                    RedirectPolicy::Strict
                } else {
                    RedirectPolicy::Loose
                },
            ),
    {
        if strict {
            Setting::RedirectPolicy(RedirectPolicy::Strict)
        } else {
            Setting::RedirectPolicy(RedirectPolicy::Loose)
        }
    }

    /// Patterns of urls that are not fetched.
    pub fn with_blacklist_url(&self, blacklist_url: Option<Vec<String>>) -> (setting: Setting)
        ensures
            setting == Setting::BlacklistUrl(blacklist_url),
    {
        Setting::BlacklistUrl(blacklist_url)
    }

    /// Patterns of urls that alone are fetched.
    pub fn with_whitelist_url(&self, whitelist_url: Option<Vec<String>>) -> (setting: Setting)
        ensures
            setting == Setting::WhitelistUrl(whitelist_url),
    {
        Setting::WhitelistUrl(whitelist_url)
    }

    /// A fixed wait before a page is read. There is a wait where seconds
    /// or nanoseconds are given.
    pub fn with_wait_for_delay(&self, seconds: Option<u32>, nanos: Option<u32>) -> (setting: Setting)
        ensures
            setting == Setting::WaitForDelay(wait_span(seconds, nanos)),
    {
        Setting::WaitForDelay(wait_for(seconds, nanos))
    }

    /// A wait for an element before a page is read. There is a wait where
    /// seconds or nanoseconds are given; a selector that is not given
    /// counts as empty.
    pub fn with_wait_for_selector(&self, selector: Option<&str>, seconds: Option<u32>, nanos: Option<u32>) -> (setting: Setting)
        ensures
            setting matches Setting::WaitForSelector(wait) && match wait_span(seconds, nanos) {
                Some(timeout) => wait is Some && wait->0.timeout == timeout && wait->0.selector@
                    == match selector {
                    Some(text) => text@,
                    None => Seq::<char>::empty(),
                },
                None => wait is None,
            },
    {
        match wait_for(seconds, nanos) {
            Some(timeout) => {
                let selector = match selector {
                    Some(text) => text.to_owned(),
                    None => String::new(),
                };
                Setting::WaitForSelector(Some(SelectorWait { timeout, selector }))
            },
            None => Setting::WaitForSelector(None),
        }
    }

    /// A wait for the network to fall idle before a page is read. There is
    /// a wait where seconds or nanoseconds are given.
    pub fn with_wait_for_idle_network(&self, seconds: Option<u32>, nanos: Option<u32>) -> (setting:
        Setting)
        ensures
            setting == Setting::WaitForIdleNetwork(wait_span(seconds, nanos)),
    {
        Setting::WaitForIdleNetwork(wait_for(seconds, nanos))
    }

    /// A recurring run: when it is due, and whether it crawls or scrapes.
    pub fn with_cron(&self, cron_str: String, cron_type: Option<String>) -> (setting: Setting)
        ensures
            setting == (Setting::Cron {
                expression: cron_str,
                kind: cron_kind(cron_type.deep_view()),
            }),
    {
        let scrape = "scrape".to_owned();
        let kind = match cron_type {
            Some(text) => {
                if text == scrape {
                    CronType::Scrape
                } else {
                    CronType::Crawl
                }
            },
            None => CronType::Crawl,
        };
        Setting::Cron { expression: cron_str, kind }
    }

    /// AI-assisted extraction. A configuration that says nothing is
    /// passed over, and so is none at all.
    pub fn with_openai(&self, openai_configs: Option<GptConfigs>) -> (setting: Option<Setting>)
        ensures
            setting == match openai_configs {
                Some(configs) => if is_populated(configs) {
                    Some(Setting::OpenAi(configs))
                } else {
                    None
                },
                None => None,
            },
    {
        match openai_configs {
            Some(configs) => {
                if !configs.model.as_str().is_empty() || configs.prompt_url_map {
                    Some(Setting::OpenAi(configs))
                } else {
                    None
                }
            },
            None => None,
        }
    }

    /// Screenshots. Without a configuration there is nothing to set.
    pub fn with_screenshot(&self, screenshot_configs: Option<ScreenShotConfig>) -> (setting: Option<
        Setting,
    >)
        ensures
            setting == match screenshot_configs {
                Some(configs) => Some(Setting::Screenshot(configs)),
                None => None,
            },
    {
        match screenshot_configs {
            Some(configs) => Some(Setting::Screenshot(configs)),
            None => None,
        }
    }

    /// The pause between two requests, in milliseconds.
    pub fn with_delay(&self, delay: u32) -> (setting: Setting)
        ensures
            setting == Setting::Delay(delay as u64),
    {
        Setting::Delay(delay as u64)
    }

    /// How deep the crawl goes; 0 sets no limit.
    pub fn with_depth(&self, depth: u32) -> (setting: Setting)
        ensures
            setting == Setting::Depth(depth as usize),
    {
        Setting::Depth(depth as usize)
    }

    /// Whether the links of a page go out with its event.
    pub fn with_return_page_links(&self, return_page_links: bool) -> (setting: Setting)
        ensures
            setting == Setting::ReturnPageLinks(return_page_links),
    {
        Setting::ReturnPageLinks(return_page_links)
    }

    /// Whether responses are cached by the rules of HTTP.
    pub fn with_caching(&self, cache: bool) -> (setting: Setting)
        ensures
            setting == Setting::Caching(cache),
    {
        Setting::Caching(cache)
    }

    /// The url of the sitemap.
    pub fn with_sitemap(&self, sitemap: Option<&str>) -> (setting: Setting)
        ensures
            setting matches Setting::Sitemap(url) && url.deep_view() == sitemap.deep_view(),
    {
        match sitemap {
            Some(url) => Setting::Sitemap(Some(url.to_owned())),
            None => Setting::Sitemap(None),
        }
    }

    /// The proxies to send requests through.
    pub fn with_proxies(&self, proxies: Option<Vec<String>>) -> (setting: Setting)
        ensures
            setting == Setting::Proxies(proxies),
    {
        Setting::Proxies(proxies)
    }
}

} // verus!
