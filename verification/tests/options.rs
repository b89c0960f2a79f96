use crawl_session::settings::wait_for;
use crawl_session::settings::CronType;
use crawl_session::settings::GptConfigs;
use crawl_session::settings::ImageFormat;
use crawl_session::settings::RedirectPolicy;
use crawl_session::settings::ScreenShotConfig;
use crawl_session::settings::SelectorWait;
use crawl_session::settings::Setting;
use crawl_session::settings::Span;
use crawl_session::settings::MILLIS_PER_SEC;
use crawl_session::settings::NANOS_PER_MILLI;
use crawl_session::settings::NANOS_PER_SEC;
use crawl_session::website::Website;
use std::collections::HashMap;
use std::time::Duration;

fn session() -> Website {
    Website::new("https://example.com".to_string(), None)
}

fn strings(items: &[&str]) -> Vec<String> {
    items.iter().map(|item| item.to_string()).collect()
}

#[test]
fn the_units_of_time() {
    assert_eq!(NANOS_PER_SEC, 1_000_000_000);
    assert_eq!(MILLIS_PER_SEC, 1_000);
    assert_eq!(NANOS_PER_MILLI, 1_000_000);
}

#[test]
fn a_span_carries_full_seconds_over() {
    assert_eq!(Span::new(0, 0), Span { secs: 0, nanos: 0 });
    assert_eq!(Span::new(5, 999_999_999), Span { secs: 5, nanos: 999_999_999 });
    assert_eq!(Span::new(5, 1_000_000_000), Span { secs: 6, nanos: 0 });
    assert_eq!(Span::new(1, 2_500_000_000), Span { secs: 3, nanos: 500_000_000 });
    assert_eq!(Span::new(0, u32::MAX), Span { secs: 4, nanos: 294_967_295 });
    assert_eq!(Span::new(u64::MAX - 4, u32::MAX), Span { secs: u64::MAX, nanos: 294_967_295 });
    assert_eq!(Span::new(u64::MAX, 999_999_999), Span { secs: u64::MAX, nanos: 999_999_999 });
}

#[test]
fn a_span_is_what_the_standard_duration_makes_of_it() {
    for (secs, nanos) in [(0u64, 0u32), (1, 2_500_000_000), (7, 1_000_000_000), (3, u32::MAX)] {
        let span = Span::new(secs, nanos);
        let duration = Duration::new(secs, nanos);
        assert_eq!(span.secs, duration.as_secs());
        assert_eq!(span.nanos, duration.subsec_nanos());
    }
    for millis in [0u64, 1, 999, 1_000, 1_500, 4_294_967_295, u64::MAX] {
        let span = Span::from_millis(millis);
        let duration = Duration::from_millis(millis);
        assert_eq!(span.secs, duration.as_secs());
        assert_eq!(span.nanos, duration.subsec_nanos());
    }
}

#[test]
fn a_span_of_milliseconds() {
    assert_eq!(Span::from_millis(0), Span { secs: 0, nanos: 0 });
    assert_eq!(Span::from_millis(1), Span { secs: 0, nanos: 1_000_000 });
    assert_eq!(Span::from_millis(999), Span { secs: 0, nanos: 999_000_000 });
    assert_eq!(Span::from_millis(1_500), Span { secs: 1, nanos: 500_000_000 });
    assert_eq!(
        Span::from_millis(u64::MAX),
        Span { secs: 18_446_744_073_709_551, nanos: 615_000_000 }
    );
}

#[test]
fn there_is_a_wait_where_seconds_or_nanoseconds_are_given() {
    assert_eq!(wait_for(None, None), None);
    assert_eq!(wait_for(Some(0), None), Some(Span { secs: 0, nanos: 0 }));
    assert_eq!(wait_for(None, Some(0)), Some(Span { secs: 0, nanos: 0 }));
    assert_eq!(wait_for(Some(30), None), Some(Span { secs: 30, nanos: 0 }));
    assert_eq!(wait_for(None, Some(500)), Some(Span { secs: 0, nanos: 500 }));
    assert_eq!(wait_for(Some(2), Some(1_500_000_000)), Some(Span { secs: 3, nanos: 500_000_000 }));
    assert_eq!(
        wait_for(Some(u32::MAX), Some(u32::MAX)),
        Some(Span { secs: 4_294_967_299, nanos: 294_967_295 })
    );
}

#[test]
fn headers() {
    let website = session();
    assert_eq!(website.with_headers(None), Setting::Headers(None));
    assert_eq!(website.with_headers(Some(Vec::new())), Setting::Headers(Some(Vec::new())));
    let asked = vec![
        ("Accept".to_string(), "text/html".to_string()),
        ("no good".to_string(), "x".to_string()),
        ("x-b".to_string(), "bad\r\nvalue".to_string()),
        ("X-C".to_string(), String::new()),
    ];
    assert_eq!(
        website.with_headers(Some(asked)),
        Setting::Headers(Some(vec![
            ("accept".to_string(), "text/html".to_string()),
            ("x-c".to_string(), String::new())
        ]))
    );
}

#[test]
fn user_agent() {
    let website = session();
    assert_eq!(website.with_user_agent(None), Setting::UserAgent(None));
    assert_eq!(website.with_user_agent(Some("bot/1")), Setting::UserAgent(Some("bot/1".to_string())));
    assert_eq!(website.with_user_agent(Some("")), Setting::UserAgent(Some(String::new())));
}

#[test]
fn flags() {
    let website = session();
    for flag in [true, false] {
        assert_eq!(website.with_respect_robots_txt(flag), Setting::RespectRobotsTxt(flag));
        assert_eq!(website.with_full_resources(flag), Setting::FullResources(flag));
        assert_eq!(website.with_preserve_host_header(flag), Setting::PreserveHostHeader(flag));
        assert_eq!(website.with_subdomains(flag), Setting::Subdomains(flag));
        assert_eq!(website.with_tld(flag), Setting::Tld(flag));
        assert_eq!(website.with_http2_prior_knowledge(flag), Setting::Http2PriorKnowledge(flag));
        assert_eq!(website.with_return_page_links(flag), Setting::ReturnPageLinks(flag));
        assert_eq!(website.with_caching(flag), Setting::Caching(flag));
    }
}

#[test]
fn chrome_intercept() {
    let website = session();
    assert_eq!(
        website.with_chrome_intercept(true, false),
        Setting::ChromeIntercept { enabled: true, block_visuals: false }
    );
    assert_eq!(
        website.with_chrome_intercept(false, true),
        Setting::ChromeIntercept { enabled: false, block_visuals: true }
    );
}

#[test]
fn chrome_connection() {
    let website = session();
    assert_eq!(website.with_chrome_connection(String::new()), Setting::ChromeConnection(None));
    assert_eq!(
        website.with_chrome_connection("ws://127.0.0.1:9222".to_string()),
        Setting::ChromeConnection(Some("ws://127.0.0.1:9222".to_string()))
    );
    assert_eq!(
        website.with_chrome_connection(" ".to_string()),
        Setting::ChromeConnection(Some(" ".to_string()))
    );
}

#[test]
fn request_timeout() {
    let website = session();
    assert_eq!(website.with_request_timeout(None), Setting::RequestTimeout(None));
    assert_eq!(
        website.with_request_timeout(Some(0)),
        Setting::RequestTimeout(Some(Span { secs: 0, nanos: 0 }))
    );
    assert_eq!(
        website.with_request_timeout(Some(1_500)),
        Setting::RequestTimeout(Some(Span { secs: 1, nanos: 500_000_000 }))
    );
    assert_eq!(
        website.with_request_timeout(Some(u32::MAX)),
        Setting::RequestTimeout(Some(Span { secs: 4_294_967, nanos: 295_000_000 }))
    );
}

#[test]
fn lists_go_over_as_they_are() {
    let website = session();
    assert_eq!(website.with_external_domains(None), Setting::ExternalDomains(None));
    assert_eq!(
        website.with_external_domains(Some(strings(&["a.com", "b.com"]))),
        Setting::ExternalDomains(Some(strings(&["a.com", "b.com"])))
    );
    assert_eq!(website.with_blacklist_url(None), Setting::BlacklistUrl(None));
    assert_eq!(
        website.with_blacklist_url(Some(strings(&["/private", "^/tmp"]))),
        Setting::BlacklistUrl(Some(strings(&["/private", "^/tmp"])))
    );
    assert_eq!(website.with_whitelist_url(None), Setting::WhitelistUrl(None));
    assert_eq!(
        website.with_whitelist_url(Some(strings(&["/blog"]))),
        Setting::WhitelistUrl(Some(strings(&["/blog"])))
    );
    assert_eq!(website.with_proxies(None), Setting::Proxies(None));
    assert_eq!(
        website.with_proxies(Some(strings(&["http://p:1"]))),
        Setting::Proxies(Some(strings(&["http://p:1"])))
    );
    assert_eq!(website.with_proxies(Some(Vec::new())), Setting::Proxies(Some(Vec::new())));
}

#[test]
fn what_is_not_said_is_off() {
    let website = session();
    assert_eq!(website.with_stealth(None), Setting::Stealth(false));
    assert_eq!(website.with_stealth(Some(false)), Setting::Stealth(false));
    assert_eq!(website.with_stealth(Some(true)), Setting::Stealth(true));
    assert_eq!(
        website.with_danger_accept_invalid_certs(None),
        Setting::DangerAcceptInvalidCerts(false)
    );
    assert_eq!(
        website.with_danger_accept_invalid_certs(Some(false)),
        Setting::DangerAcceptInvalidCerts(false)
    );
    assert_eq!(
        website.with_danger_accept_invalid_certs(Some(true)),
        Setting::DangerAcceptInvalidCerts(true)
    );
}

#[test]
fn budget() {
    let website = session();
    assert_eq!(website.with_budget(None), None);
    let mut limits = HashMap::new();
    limits.insert("*".to_string(), 100);
    limits.insert("/blog".to_string(), 10);
    assert_eq!(website.with_budget(Some(limits.clone())), Some(Setting::Budget(limits)));
    assert_eq!(website.with_budget(Some(HashMap::new())), Some(Setting::Budget(HashMap::new())));
}

#[test]
fn redirects() {
    let website = session();
    assert_eq!(website.with_redirect_limit(0), Setting::RedirectLimit(0));
    assert_eq!(website.with_redirect_limit(7), Setting::RedirectLimit(7));
    assert_eq!(website.with_redirect_limit(u32::MAX), Setting::RedirectLimit(4_294_967_295));
    assert_eq!(website.with_redirect_policy(true), Setting::RedirectPolicy(RedirectPolicy::Strict));
    assert_eq!(website.with_redirect_policy(false), Setting::RedirectPolicy(RedirectPolicy::Loose));
}

#[test]
fn wait_for_delay() {
    let website = session();
    assert_eq!(website.with_wait_for_delay(None, None), Setting::WaitForDelay(None));
    assert_eq!(
        website.with_wait_for_delay(Some(2), None),
        Setting::WaitForDelay(Some(Span { secs: 2, nanos: 0 }))
    );
    assert_eq!(
        website.with_wait_for_delay(None, Some(1_200_000_000)),
        Setting::WaitForDelay(Some(Span { secs: 1, nanos: 200_000_000 }))
    );
}

#[test]
fn wait_for_idle_network() {
    let website = session();
    assert_eq!(website.with_wait_for_idle_network(None, None), Setting::WaitForIdleNetwork(None));
    assert_eq!(
        website.with_wait_for_idle_network(Some(30), Some(5)),
        Setting::WaitForIdleNetwork(Some(Span { secs: 30, nanos: 5 }))
    );
}

#[test]
fn wait_for_selector() {
    let website = session();
    assert_eq!(website.with_wait_for_selector(None, None, None), Setting::WaitForSelector(None));
    assert_eq!(
        website.with_wait_for_selector(Some("#app"), None, None),
        Setting::WaitForSelector(None)
    );
    assert_eq!(
        website.with_wait_for_selector(Some("#app"), Some(3), None),
        Setting::WaitForSelector(Some(SelectorWait {
            timeout: Span { secs: 3, nanos: 0 },
            selector: "#app".to_string()
        }))
    );
    assert_eq!(
        website.with_wait_for_selector(None, None, Some(2_000_000_001)),
        Setting::WaitForSelector(Some(SelectorWait {
            timeout: Span { secs: 2, nanos: 1 },
            selector: String::new()
        }))
    );
}

#[test]
fn cron() {
    let website = session();
    assert_eq!(
        website.with_cron("1/5 * * * * *".to_string(), None),
        Setting::Cron { expression: "1/5 * * * * *".to_string(), kind: CronType::Crawl }
    );
    assert_eq!(
        website.with_cron("0 0 * * *".to_string(), Some("scrape".to_string())),
        Setting::Cron { expression: "0 0 * * *".to_string(), kind: CronType::Scrape }
    );
    for other in ["crawl", "Scrape", "scrape ", "", "scrap", "scrapes"] {
        assert_eq!(
            website.with_cron("x".to_string(), Some(other.to_string())),
            Setting::Cron { expression: "x".to_string(), kind: CronType::Crawl }
        );
    }
}

#[test]
fn openai() {
    let website = session();
    assert_eq!(website.with_openai(None), None);
    let empty = GptConfigs { model: String::new(), prompt_url_map: false };
    assert_eq!(website.with_openai(Some(empty)), None);
    let named = GptConfigs { model: "gpt-4o".to_string(), prompt_url_map: false };
    assert_eq!(website.with_openai(Some(named.clone())), Some(Setting::OpenAi(named)));
    let mapped = GptConfigs { model: String::new(), prompt_url_map: true };
    assert_eq!(website.with_openai(Some(mapped.clone())), Some(Setting::OpenAi(mapped)));
    let both = GptConfigs { model: "m".to_string(), prompt_url_map: true };
    assert_eq!(website.with_openai(Some(both.clone())), Some(Setting::OpenAi(both)));
}

#[test]
fn screenshot() {
    let website = session();
    assert_eq!(website.with_screenshot(None), None);
    let configs = ScreenShotConfig {
        format: Some(ImageFormat::Webp),
        quality: Some(80),
        from_surface: Some(true),
        capture_beyond_viewport: None,
        full_page: Some(true),
        omit_background: Some(false),
        bytes: true,
        save: true,
        output_dir: Some("shots".to_string()),
    };
    assert_eq!(website.with_screenshot(Some(configs.clone())), Some(Setting::Screenshot(configs)));
    let bare = ScreenShotConfig {
        format: None,
        quality: None,
        from_surface: None,
        capture_beyond_viewport: None,
        full_page: None,
        omit_background: None,
        bytes: false,
        save: false,
        output_dir: None,
    };
    assert_eq!(website.with_screenshot(Some(bare.clone())), Some(Setting::Screenshot(bare)));
}

#[test]
fn numbers() {
    let website = session();
    assert_eq!(website.with_delay(0), Setting::Delay(0));
    assert_eq!(website.with_delay(250), Setting::Delay(250));
    assert_eq!(website.with_delay(u32::MAX), Setting::Delay(4_294_967_295));
    assert_eq!(website.with_depth(0), Setting::Depth(0));
    assert_eq!(website.with_depth(3), Setting::Depth(3));
    assert_eq!(website.with_depth(u32::MAX), Setting::Depth(4_294_967_295));
}

#[test]
fn sitemap() {
    let website = session();
    assert_eq!(website.with_sitemap(None), Setting::Sitemap(None));
    assert_eq!(
        website.with_sitemap(Some("/sitemap.xml")),
        Setting::Sitemap(Some("/sitemap.xml".to_string()))
    );
}

#[test]
fn options_leave_the_session_as_it_is() {
    let website = Website::new("u".to_string(), Some(true));
    website.with_delay(1);
    website.with_headers(None);
    website.with_cron("x".to_string(), None);
    assert_eq!(website.url(), "u");
    assert!(website.raw_content());
    assert!(!website.running_in_background());
    assert!(website.records().is_empty());
}
