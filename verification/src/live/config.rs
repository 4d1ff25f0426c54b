//! Endpoint presets of the grid networks and the builder that overrides them.

use std::time::Duration;

use vstd::prelude::*;

use crate::error::{is_validation, GridError};
use crate::text::{lower, push_str_list_entry, strip_end, trim, str_eq_ignore_ascii_case, trim_str, strip_end_str, views};

verus! {

/// Name of the development network preset.
pub const DEV_NETWORK: &'static str = "dev";
/// Name of the QA network preset.
pub const QA_NETWORK: &'static str = "qa";
/// Name of the test network preset.
pub const TEST_NETWORK: &'static str = "test";
/// Name of the main network preset.
pub const MAIN_NETWORK: &'static str = "main";

/// A duration of `secs` seconds, as `Duration::from_secs` gives it.
pub uninterp spec fn secs_duration(secs: u64) -> Duration;

/// `Duration::from_secs`.
#[verifier::external_body]
fn duration_from_secs(secs: u64) -> (d: Duration)
    ensures
        d == secs_duration(secs),
{
    Duration::from_secs(secs)
}

/// `Duration` is `Copy`: its clone is the same duration.
pub assume_specification[ <Duration as Clone>::clone ](d: &Duration) -> (r: Duration)
    ensures
        r == *d,
;

/// Endpoints and timeouts used to reach one grid network.
#[derive(Debug, Clone)]
pub struct GridClientConfig {
    pub network: String,
    pub substrate_url: String,
    pub substrate_urls: Vec<String>,
    pub grid_proxy_url: String,
    pub grid_proxy_urls: Vec<String>,
    pub graphql_url: String,
    pub graphql_urls: Vec<String>,
    pub relay_url: String,
    pub relay_urls: Vec<String>,
    pub kyc_url: String,
    pub sentry_dsn: String,
    pub http_timeout: Duration,
    pub rmb_timeout: Duration,
}

/// The mathematical content of a [`GridClientConfig`].
#[verifier::ext_equal]
pub struct ConfigView {
    pub network: Seq<char>,
    pub substrate_url: Seq<char>,
    pub substrate_urls: Seq<Seq<char>>,
    pub grid_proxy_url: Seq<char>,
    pub grid_proxy_urls: Seq<Seq<char>>,
    pub graphql_url: Seq<char>,
    pub graphql_urls: Seq<Seq<char>>,
    pub relay_url: Seq<char>,
    pub relay_urls: Seq<Seq<char>>,
    pub kyc_url: Seq<char>,
    pub sentry_dsn: Seq<char>,
    pub http_timeout: Duration,
    pub rmb_timeout: Duration,
}

impl View for GridClientConfig {
    type V = ConfigView;

    open spec fn view(&self) -> ConfigView {
        ConfigView {
            network: self.network@,
            substrate_url: self.substrate_url@,
            substrate_urls: views(self.substrate_urls@),
            grid_proxy_url: self.grid_proxy_url@,
            grid_proxy_urls: views(self.grid_proxy_urls@),
            graphql_url: self.graphql_url@,
            graphql_urls: views(self.graphql_urls@),
            relay_url: self.relay_url@,
            relay_urls: views(self.relay_urls@),
            kyc_url: self.kyc_url@,
            sentry_dsn: self.sentry_dsn@,
            http_timeout: self.http_timeout,
            rmb_timeout: self.rmb_timeout,
        }
    }
}

/// The canonical preset name that `name` selects: it is trimmed and
/// lower-cased, and `devnet`, `qanet`, `testnet`, `mainnet` are aliases.
pub open spec fn canonical_network(name: Seq<char>) -> Option<Seq<char>> {
    let key = lower(trim(name));
    if key == "dev"@ || key == "devnet"@ {
        Some("dev"@)
    } else if key == "qa"@ || key == "qanet"@ {
        Some("qa"@)
    } else if key == "test"@ || key == "testnet"@ {
        Some("test"@)
    } else if key == "main"@ || key == "mainnet"@ {
        Some("main"@)
    } else {
        None
    }
}

/// The endpoint preset of a canonical network name (`dev` for any other).
pub open spec fn preset(network: Seq<char>) -> ConfigView {
    if network == "qa"@ {
        qa_preset()
    } else if network == "test"@ {
        test_preset()
    } else if network == "main"@ {
        main_preset()
    } else {
        dev_preset()
    }
}

/// The endpoint preset of the `qa` network.
pub open spec fn qa_preset() -> ConfigView {
    ConfigView {
        network: "qa"@,
        substrate_url: "wss://tfchain.qa.grid.tf/ws"@,
        substrate_urls: seq!["wss://tfchain.qa.grid.tf/ws"@, "wss://tfchain.02.qa.grid.tf/ws"@],
        grid_proxy_url: "https://gridproxy.qa.grid.tf"@,
        grid_proxy_urls: seq!["https://gridproxy.qa.grid.tf"@, "https://gridproxy.02.qa.grid.tf"@],
        graphql_url: "https://graphql.qa.grid.tf/graphql"@,
        graphql_urls: seq!["https://graphql.qa.grid.tf/graphql"@, "https://graphql.02.qa.grid.tf/graphql"@],
        relay_url: "wss://relay.qa.grid.tf"@,
        relay_urls: seq!["wss://relay.qa.grid.tf"@, "wss://relay.02.qa.grid.tf"@],
        kyc_url: "https://kyc.qa.grid.tf"@,
        sentry_dsn: "https://sentry.qa.grid.tf"@,
        http_timeout: secs_duration(30),
        rmb_timeout: secs_duration(30),
    }
}

/// The endpoint preset of the `test` network.
pub open spec fn test_preset() -> ConfigView {
    ConfigView {
        network: "test"@,
        substrate_url: "wss://tfchain.test.grid.tf/ws"@,
        substrate_urls: seq!["wss://tfchain.test.grid.tf/ws"@, "wss://tfchain.02.test.grid.tf/ws"@],
        grid_proxy_url: "https://gridproxy.test.grid.tf"@,
        grid_proxy_urls: seq!["https://gridproxy.test.grid.tf"@, "https://gridproxy.02.test.grid.tf"@],
        graphql_url: "https://graphql.test.grid.tf/graphql"@,
        graphql_urls: seq!["https://graphql.test.grid.tf/graphql"@, "https://graphql.02.test.grid.tf/graphql"@],
        relay_url: "wss://relay.test.grid.tf"@,
        relay_urls: seq!["wss://relay.test.grid.tf"@, "wss://relay.02.test.grid.tf"@],
        kyc_url: "https://kyc.test.grid.tf"@,
        sentry_dsn: "https://sentry.test.grid.tf"@,
        http_timeout: secs_duration(30),
        rmb_timeout: secs_duration(30),
    }
}

/// The endpoint preset of the `main` network.
pub open spec fn main_preset() -> ConfigView {
    ConfigView {
        network: "main"@,
        substrate_url: "wss://tfchain.grid.tf/ws"@,
        substrate_urls: seq![
            "wss://tfchain.grid.tf/ws"@,
            "wss://tfchain.us.grid.tf/ws"@,
            "wss://02.tfchain.grid.tf/ws"@,
            "wss://03.tfchain.grid.tf/ws"@,
            "wss://04.tfchain.grid.tf/ws"@,
            "wss://tfchain.grid.tf:443"@,
        ],
        grid_proxy_url: "https://gridproxy.grid.tf"@,
        grid_proxy_urls: seq![
            "https://gridproxy.grid.tf"@,
            "https://gridproxy.02.grid.tf"@,
            "https://gridproxy.us.grid.tf"@,
        ],
        graphql_url: "https://graphql.grid.tf/graphql"@,
        graphql_urls: seq!["https://graphql.grid.tf/graphql"@, "https://graphql.02.grid.tf/graphql"@],
        relay_url: "wss://relay.grid.tf"@,
        relay_urls: seq!["wss://relay.grid.tf"@, "wss://relay.02.grid.tf"@],
        kyc_url: "https://kyc.grid.tf"@,
        sentry_dsn: "https://sentry.grid.tf"@,
        http_timeout: secs_duration(30),
        rmb_timeout: secs_duration(30),
    }
}

/// The endpoint preset of the `dev` network.
pub open spec fn dev_preset() -> ConfigView {
    ConfigView {
        network: "dev"@,
        substrate_url: "wss://tfchain.dev.grid.tf/ws"@,
        substrate_urls: seq!["wss://tfchain.dev.grid.tf/ws"@, "wss://tfchain.02.dev.grid.tf/ws"@],
        grid_proxy_url: "https://gridproxy.dev.grid.tf"@,
        grid_proxy_urls: seq![
            "https://gridproxy.dev.grid.tf"@,
            "https://gridproxy.02.dev.grid.tf"@,
            "https://gridproxy.03.dev.grid.tf"@,
        ],
        graphql_url: "https://graphql.dev.grid.tf/graphql"@,
        graphql_urls: seq!["https://graphql.dev.grid.tf/graphql"@, "https://graphql.02.dev.grid.tf/graphql"@],
        relay_url: "wss://relay.dev.grid.tf"@,
        relay_urls: seq!["wss://relay.dev.grid.tf"@, "wss://relay.02.dev.grid.tf"@],
        kyc_url: "https://kyc.dev.grid.tf"@,
        sentry_dsn: "https://sentry.dev.grid.tf"@,
        http_timeout: secs_duration(30),
        rmb_timeout: secs_duration(30),
    }
}

/// How an endpoint URL is normalized before use: surrounding whitespace and
/// trailing `/` are removed.
pub open spec fn normalize_url(url: Seq<char>) -> Seq<char> {
    strip_end(trim(url), '/')
}

/// A candidate list after normalization: every entry normalized, and entries
/// that normalize to the empty string dropped.
pub open spec fn normalize_urls(urls: Seq<Seq<char>>) -> Seq<Seq<char>>
    decreases urls.len(),
{
    if urls.len() == 0 {
        seq![]
    } else {
        let rest = normalize_urls(urls.drop_last());
        let u = normalize_url(urls.last());
        if u.len() == 0 {
            rest
        } else {
            rest.push(u)
        }
    }
}

/// `c` with the substrate endpoint pinned to `url`, normalized.
pub open spec fn with_substrate_url(c: ConfigView, url: Seq<char>) -> ConfigView {
    ConfigView { substrate_url: normalize_url(url), ..c }
}

/// `c` with the substrate candidates replaced by `urls`, normalized;
/// the first one, if any, becomes the primary.
pub open spec fn with_substrate_urls(c: ConfigView, urls: Seq<Seq<char>>) -> ConfigView {
    let list = normalize_urls(urls);
    ConfigView { substrate_url: if list.len() > 0 { list[0] } else { c.substrate_url }, substrate_urls: list, ..c }
}

/// `c` with the grid proxy endpoint pinned to `url`, normalized.
pub open spec fn with_grid_proxy_url(c: ConfigView, url: Seq<char>) -> ConfigView {
    ConfigView { grid_proxy_url: normalize_url(url), ..c }
}

/// `c` with the grid proxy candidates replaced by `urls`, normalized;
/// the first one, if any, becomes the primary.
pub open spec fn with_grid_proxy_urls(c: ConfigView, urls: Seq<Seq<char>>) -> ConfigView {
    let list = normalize_urls(urls);
    ConfigView { grid_proxy_url: if list.len() > 0 { list[0] } else { c.grid_proxy_url }, grid_proxy_urls: list, ..c }
}

/// `c` with the graphql endpoint pinned to `url`, normalized.
pub open spec fn with_graphql_url(c: ConfigView, url: Seq<char>) -> ConfigView {
    ConfigView { graphql_url: normalize_url(url), ..c }
}

/// `c` with the graphql candidates replaced by `urls`, normalized;
/// the first one, if any, becomes the primary.
pub open spec fn with_graphql_urls(c: ConfigView, urls: Seq<Seq<char>>) -> ConfigView {
    let list = normalize_urls(urls);
    ConfigView { graphql_url: if list.len() > 0 { list[0] } else { c.graphql_url }, graphql_urls: list, ..c }
}

/// `c` with the relay endpoint pinned to `url`, normalized.
pub open spec fn with_relay_url(c: ConfigView, url: Seq<char>) -> ConfigView {
    ConfigView { relay_url: normalize_url(url), ..c }
}

/// `c` with the relay candidates replaced by `urls`, normalized;
/// the first one, if any, becomes the primary.
pub open spec fn with_relay_urls(c: ConfigView, urls: Seq<Seq<char>>) -> ConfigView {
    let list = normalize_urls(urls);
    ConfigView { relay_url: if list.len() > 0 { list[0] } else { c.relay_url }, relay_urls: list, ..c }
}
/// A primary endpoint pinned after a candidate list is replaced is the
/// primary, and the candidate list stays as given, for every endpoint kind.
pub proof fn law_pinned_primary_wins(c: ConfigView, urls: Seq<Seq<char>>, url: Seq<char>)
    ensures
        with_substrate_url(with_substrate_urls(c, urls), url).substrate_url == normalize_url(url),
        with_substrate_url(with_substrate_urls(c, urls), url).substrate_urls == normalize_urls(urls),
        with_grid_proxy_url(with_grid_proxy_urls(c, urls), url).grid_proxy_url == normalize_url(url),
        with_grid_proxy_url(with_grid_proxy_urls(c, urls), url).grid_proxy_urls == normalize_urls(urls),
        with_graphql_url(with_graphql_urls(c, urls), url).graphql_url == normalize_url(url),
        with_graphql_url(with_graphql_urls(c, urls), url).graphql_urls == normalize_urls(urls),
        with_relay_url(with_relay_urls(c, urls), url).relay_url == normalize_url(url),
        with_relay_url(with_relay_urls(c, urls), url).relay_urls == normalize_urls(urls),
{
}

/// A candidate list replaces a primary pinned before it, as soon as one of
/// its entries survives normalization.
pub proof fn law_candidates_replace_earlier_primary(c: ConfigView, url: Seq<char>, urls: Seq<Seq<char>>)
    requires
        normalize_urls(urls).len() > 0,
    ensures
        with_substrate_urls(with_substrate_url(c, url), urls).substrate_url == normalize_urls(urls)[0],
        with_grid_proxy_urls(with_grid_proxy_url(c, url), urls).grid_proxy_url == normalize_urls(urls)[0],
        with_graphql_urls(with_graphql_url(c, url), urls).graphql_url == normalize_urls(urls)[0],
        with_relay_urls(with_relay_url(c, url), urls).relay_url == normalize_urls(urls)[0],
{
}

/// Every candidate kept is the normalization of a given one and is not
/// empty.
pub proof fn law_candidates_are_normalized(urls: Seq<Seq<char>>)
    ensures
        normalize_urls(urls).len() <= urls.len(),
        forall|i: int| 0 <= i < normalize_urls(urls).len() ==> #[trigger] normalize_urls(urls)[i].len() > 0
            && exists|j: int| 0 <= j < urls.len() && normalize_urls(urls)[i] == normalize_url(#[trigger] urls[j]),
    decreases urls.len(),
{
    if urls.len() > 0 {
        let rest = urls.drop_last();
        law_candidates_are_normalized(rest);
        let out = normalize_urls(urls);
        assert forall|i: int| 0 <= i < out.len() implies #[trigger] out[i].len() > 0
            && exists|j: int| 0 <= j < urls.len() && out[i] == normalize_url(#[trigger] urls[j]) by {
            if i < normalize_urls(rest).len() {
                assert(out[i] == normalize_urls(rest)[i]);
                assert(normalize_urls(rest)[i].len() > 0);
                let j = choose|j: int| 0 <= j < rest.len() && normalize_urls(rest)[i] == normalize_url(#[trigger] rest[j]);
                assert(urls[j] == rest[j]);
            } else {
                assert(urls[urls.len() - 1] == urls.last());
            }
        }
    }
}

/// Normalizes one endpoint URL.
pub fn normalize_endpoint(url: &str) -> (r: String)
    ensures
        r@ == normalize_url(url@),
{
    let t = trim_str(url);
    strip_end_str(t.as_str(), '/')
}

/// Normalizes a candidate list of endpoint URLs.
pub fn normalize_endpoints(urls: &Vec<String>) -> (r: Vec<String>)
    ensures
        views(r@) == normalize_urls(views(urls@)),
{
    let mut out: Vec<String> = Vec::new();
    let mut i: usize = 0;
    while i < urls.len()
        invariant
            i <= urls.len(),
            views(out@) == normalize_urls(views(urls@).take(i as int)),
        decreases urls.len() - i,
    {
        let u = normalize_endpoint(urls[i].as_str());
        proof {
            assert(views(urls@).take(i + 1).drop_last() =~= views(urls@).take(i as int));
            assert(views(urls@).take(i + 1).last() == urls@[i as int]@);
        }
        if u.unicode_len() != 0 {
            let ghost before = out@;
            out.push(u);
            assert(views(out@) =~= views(before).push(u@));
        }
        i = i + 1;
    }
    assert(views(urls@).take(urls.len() as int) =~= views(urls@));
    out
}

fn preset_config(network: &str) -> (r: GridClientConfig)
    ensures
        r@ == preset(network@),
{
    if crate::text::str_eq(network, "qa") {
        qa_config()
    } else if crate::text::str_eq(network, "test") {
        test_config()
    } else if crate::text::str_eq(network, "main") {
        main_config()
    } else {
        dev_config()
    }
}

fn qa_config() -> (r: GridClientConfig)
    ensures
        r@ == qa_preset(),
{
    let mut substrate_urls: Vec<String> = Vec::new();
    let mut grid_proxy_urls: Vec<String> = Vec::new();
    let mut graphql_urls: Vec<String> = Vec::new();
    let mut relay_urls: Vec<String> = Vec::new();
    assert(views(substrate_urls@) =~= Seq::<Seq<char>>::empty());
    assert(views(grid_proxy_urls@) =~= Seq::<Seq<char>>::empty());
    assert(views(graphql_urls@) =~= Seq::<Seq<char>>::empty());
    assert(views(relay_urls@) =~= Seq::<Seq<char>>::empty());
    push_str_list_entry(&mut substrate_urls, "wss://tfchain.qa.grid.tf/ws");
    push_str_list_entry(&mut substrate_urls, "wss://tfchain.02.qa.grid.tf/ws");
    push_str_list_entry(&mut grid_proxy_urls, "https://gridproxy.qa.grid.tf");
    push_str_list_entry(&mut grid_proxy_urls, "https://gridproxy.02.qa.grid.tf");
    push_str_list_entry(&mut graphql_urls, "https://graphql.qa.grid.tf/graphql");
    push_str_list_entry(&mut graphql_urls, "https://graphql.02.qa.grid.tf/graphql");
    push_str_list_entry(&mut relay_urls, "wss://relay.qa.grid.tf");
    push_str_list_entry(&mut relay_urls, "wss://relay.02.qa.grid.tf");
    GridClientConfig {
        network: String::from_str("qa"),
        substrate_url: String::from_str("wss://tfchain.qa.grid.tf/ws"),
        substrate_urls,
        grid_proxy_url: String::from_str("https://gridproxy.qa.grid.tf"),
        grid_proxy_urls,
        graphql_url: String::from_str("https://graphql.qa.grid.tf/graphql"),
        graphql_urls,
        relay_url: String::from_str("wss://relay.qa.grid.tf"),
        relay_urls,
        kyc_url: String::from_str("https://kyc.qa.grid.tf"),
        sentry_dsn: String::from_str("https://sentry.qa.grid.tf"),
        http_timeout: duration_from_secs(30),
        rmb_timeout: duration_from_secs(30),
    }
}

fn test_config() -> (r: GridClientConfig)
    ensures
        r@ == test_preset(),
{
    let mut substrate_urls: Vec<String> = Vec::new();
    let mut grid_proxy_urls: Vec<String> = Vec::new();
    let mut graphql_urls: Vec<String> = Vec::new();
    let mut relay_urls: Vec<String> = Vec::new();
    assert(views(substrate_urls@) =~= Seq::<Seq<char>>::empty());
    assert(views(grid_proxy_urls@) =~= Seq::<Seq<char>>::empty());
    assert(views(graphql_urls@) =~= Seq::<Seq<char>>::empty());
    assert(views(relay_urls@) =~= Seq::<Seq<char>>::empty());
    push_str_list_entry(&mut substrate_urls, "wss://tfchain.test.grid.tf/ws");
    push_str_list_entry(&mut substrate_urls, "wss://tfchain.02.test.grid.tf/ws");
    push_str_list_entry(&mut grid_proxy_urls, "https://gridproxy.test.grid.tf");
    push_str_list_entry(&mut grid_proxy_urls, "https://gridproxy.02.test.grid.tf");
    push_str_list_entry(&mut graphql_urls, "https://graphql.test.grid.tf/graphql");
    push_str_list_entry(&mut graphql_urls, "https://graphql.02.test.grid.tf/graphql");
    push_str_list_entry(&mut relay_urls, "wss://relay.test.grid.tf");
    push_str_list_entry(&mut relay_urls, "wss://relay.02.test.grid.tf");
    GridClientConfig {
        network: String::from_str("test"),
        substrate_url: String::from_str("wss://tfchain.test.grid.tf/ws"),
        substrate_urls,
        grid_proxy_url: String::from_str("https://gridproxy.test.grid.tf"),
        grid_proxy_urls,
        graphql_url: String::from_str("https://graphql.test.grid.tf/graphql"),
        graphql_urls,
        relay_url: String::from_str("wss://relay.test.grid.tf"),
        relay_urls,
        kyc_url: String::from_str("https://kyc.test.grid.tf"),
        sentry_dsn: String::from_str("https://sentry.test.grid.tf"),
        http_timeout: duration_from_secs(30),
        rmb_timeout: duration_from_secs(30),
    }
}

fn main_config() -> (r: GridClientConfig)
    ensures
        r@ == main_preset(),
{
    let mut substrate_urls: Vec<String> = Vec::new();
    let mut grid_proxy_urls: Vec<String> = Vec::new();
    let mut graphql_urls: Vec<String> = Vec::new();
    let mut relay_urls: Vec<String> = Vec::new();
    assert(views(substrate_urls@) =~= Seq::<Seq<char>>::empty());
    assert(views(grid_proxy_urls@) =~= Seq::<Seq<char>>::empty());
    assert(views(graphql_urls@) =~= Seq::<Seq<char>>::empty());
    assert(views(relay_urls@) =~= Seq::<Seq<char>>::empty());
    push_str_list_entry(&mut substrate_urls, "wss://tfchain.grid.tf/ws");
    push_str_list_entry(&mut substrate_urls, "wss://tfchain.us.grid.tf/ws");
    push_str_list_entry(&mut substrate_urls, "wss://02.tfchain.grid.tf/ws");
    push_str_list_entry(&mut substrate_urls, "wss://03.tfchain.grid.tf/ws");
    push_str_list_entry(&mut substrate_urls, "wss://04.tfchain.grid.tf/ws");
    push_str_list_entry(&mut substrate_urls, "wss://tfchain.grid.tf:443");
    push_str_list_entry(&mut grid_proxy_urls, "https://gridproxy.grid.tf");
    push_str_list_entry(&mut grid_proxy_urls, "https://gridproxy.02.grid.tf");
    push_str_list_entry(&mut grid_proxy_urls, "https://gridproxy.us.grid.tf");
    push_str_list_entry(&mut graphql_urls, "https://graphql.grid.tf/graphql");
    push_str_list_entry(&mut graphql_urls, "https://graphql.02.grid.tf/graphql");
    push_str_list_entry(&mut relay_urls, "wss://relay.grid.tf");
    push_str_list_entry(&mut relay_urls, "wss://relay.02.grid.tf");
    GridClientConfig {
        network: String::from_str("main"),
        substrate_url: String::from_str("wss://tfchain.grid.tf/ws"),
        substrate_urls,
        grid_proxy_url: String::from_str("https://gridproxy.grid.tf"),
        grid_proxy_urls,
        graphql_url: String::from_str("https://graphql.grid.tf/graphql"),
        graphql_urls,
        relay_url: String::from_str("wss://relay.grid.tf"),
        relay_urls,
        kyc_url: String::from_str("https://kyc.grid.tf"),
        sentry_dsn: String::from_str("https://sentry.grid.tf"),
        http_timeout: duration_from_secs(30),
        rmb_timeout: duration_from_secs(30),
    }
}

fn dev_config() -> (r: GridClientConfig)
    ensures
        r@ == dev_preset(),
{
    let mut substrate_urls: Vec<String> = Vec::new();
    let mut grid_proxy_urls: Vec<String> = Vec::new();
    let mut graphql_urls: Vec<String> = Vec::new();
    let mut relay_urls: Vec<String> = Vec::new();
    assert(views(substrate_urls@) =~= Seq::<Seq<char>>::empty());
    assert(views(grid_proxy_urls@) =~= Seq::<Seq<char>>::empty());
    assert(views(graphql_urls@) =~= Seq::<Seq<char>>::empty());
    assert(views(relay_urls@) =~= Seq::<Seq<char>>::empty());
    push_str_list_entry(&mut substrate_urls, "wss://tfchain.dev.grid.tf/ws");
    push_str_list_entry(&mut substrate_urls, "wss://tfchain.02.dev.grid.tf/ws");
    push_str_list_entry(&mut grid_proxy_urls, "https://gridproxy.dev.grid.tf");
    push_str_list_entry(&mut grid_proxy_urls, "https://gridproxy.02.dev.grid.tf");
    push_str_list_entry(&mut grid_proxy_urls, "https://gridproxy.03.dev.grid.tf");
    push_str_list_entry(&mut graphql_urls, "https://graphql.dev.grid.tf/graphql");
    push_str_list_entry(&mut graphql_urls, "https://graphql.02.dev.grid.tf/graphql");
    push_str_list_entry(&mut relay_urls, "wss://relay.dev.grid.tf");
    push_str_list_entry(&mut relay_urls, "wss://relay.02.dev.grid.tf");
    GridClientConfig {
        network: String::from_str("dev"),
        substrate_url: String::from_str("wss://tfchain.dev.grid.tf/ws"),
        substrate_urls,
        grid_proxy_url: String::from_str("https://gridproxy.dev.grid.tf"),
        grid_proxy_urls,
        graphql_url: String::from_str("https://graphql.dev.grid.tf/graphql"),
        graphql_urls,
        relay_url: String::from_str("wss://relay.dev.grid.tf"),
        relay_urls,
        kyc_url: String::from_str("https://kyc.dev.grid.tf"),
        sentry_dsn: String::from_str("https://sentry.dev.grid.tf"),
        http_timeout: duration_from_secs(30),
        rmb_timeout: duration_from_secs(30),
    }
}

impl GridClientConfig {
    /// The development network preset.
    pub fn devnet() -> (r: GridClientConfig)
        ensures
            r@ == preset("dev"@),
    {
        preset_config("dev")
    }

    /// The QA network preset.
    pub fn qanet() -> (r: GridClientConfig)
        ensures
            r@ == preset("qa"@),
    {
        preset_config("qa")
    }

    /// The test network preset.
    pub fn testnet() -> (r: GridClientConfig)
        ensures
            r@ == preset("test"@),
    {
        preset_config("test")
    }

    /// The main network preset.
    pub fn mainnet() -> (r: GridClientConfig)
        ensures
            r@ == preset("main"@),
    {
        preset_config("main")
    }

    /// The preset that `name` selects (see [`canonical_network`]); any other
    /// name is refused.
    pub fn from_network(name: &str) -> (r: Result<GridClientConfig, GridError>)
        ensures
            match canonical_network(name@) {
                Some(net) => r matches Ok(c) && c@ == preset(net),
                None => r matches Err(e) && is_validation(
                    e,
                    "unsupported network preset `"@ + trim(name@) + "`"@,
                ),
            },
    {
        let key = trim_str(name);
        let k = key.as_str();
        if str_eq_ignore_ascii_case(k, "dev") || str_eq_ignore_ascii_case(k, "devnet") {
            proof { lemma_lower_literals(); }
            Ok(preset_config("dev"))
        } else if str_eq_ignore_ascii_case(k, "qa") || str_eq_ignore_ascii_case(k, "qanet") {
            proof { lemma_lower_literals(); }
            Ok(preset_config("qa"))
        } else if str_eq_ignore_ascii_case(k, "test") || str_eq_ignore_ascii_case(k, "testnet") {
            proof { lemma_lower_literals(); }
            Ok(preset_config("test"))
        } else if str_eq_ignore_ascii_case(k, "main") || str_eq_ignore_ascii_case(k, "mainnet") {
            proof { lemma_lower_literals(); }
            Ok(preset_config("main"))
        } else {
            proof { lemma_lower_literals(); }
            let msg = String::from_str("unsupported network preset `").concat(k).concat("`");
            Err(GridError::Validation(msg))
        }
    }

    /// A builder that starts from the development network preset.
    pub fn builder() -> (r: GridClientConfigBuilder)
        ensures
            r.config@ == preset("dev"@),
    {
        GridClientConfigBuilder { config: preset_config("dev") }
    }
}

/// The lower-cased preset names and aliases are their own lower-casing.
proof fn lemma_lower_literals()
    ensures
        lower("dev"@) == "dev"@,
        lower("devnet"@) == "devnet"@,
        lower("qa"@) == "qa"@,
        lower("qanet"@) == "qanet"@,
        lower("test"@) == "test"@,
        lower("testnet"@) == "testnet"@,
        lower("main"@) == "main"@,
        lower("mainnet"@) == "mainnet"@,
{
    reveal_strlit("dev");
    reveal_strlit("devnet");
    reveal_strlit("qa");
    reveal_strlit("qanet");
    reveal_strlit("test");
    reveal_strlit("testnet");
    reveal_strlit("main");
    reveal_strlit("mainnet");
    assert(lower("dev"@) =~= "dev"@);
    assert(lower("devnet"@) =~= "devnet"@);
    assert(lower("qa"@) =~= "qa"@);
    assert(lower("qanet"@) =~= "qanet"@);
    assert(lower("test"@) =~= "test"@);
    assert(lower("testnet"@) =~= "testnet"@);
    assert(lower("main"@) =~= "main"@);
    assert(lower("mainnet"@) =~= "mainnet"@);
}

/// Builds a [`GridClientConfig`] from a preset with overrides applied in
/// call order.
#[derive(Debug, Clone)]
pub struct GridClientConfigBuilder {
    pub config: GridClientConfig,
}

impl GridClientConfigBuilder {
    /// Starts over from the preset that `network` selects; a name that selects
    /// no preset leaves the builder unchanged.
    pub fn network(self, network: &str) -> (r: GridClientConfigBuilder)
        ensures
            match canonical_network(network@) {
                Some(net) => r.config@ == preset(net),
                None => r.config@ == self.config@,
            },
    {
        match GridClientConfig::from_network(network) {
            Ok(config) => GridClientConfigBuilder { config },
            Err(_) => self,
        }
    }

    /// Pins the primary substrate endpoint.
    pub fn substrate_url(self, substrate_url: &str) -> (r: GridClientConfigBuilder)
        ensures
            r.config@ == with_substrate_url(self.config@, substrate_url@),
    {
        let mut config = self.config;
        config.substrate_url = normalize_endpoint(substrate_url);
        GridClientConfigBuilder { config }
    }

    /// Replaces the substrate candidates; the first one becomes the primary.
    pub fn substrate_urls(self, substrate_urls: Vec<String>) -> (r: GridClientConfigBuilder)
        ensures
            r.config@ == with_substrate_urls(self.config@, views(substrate_urls@)),
    {
        let mut config = self.config;
        let list = normalize_endpoints(&substrate_urls);
        if list.len() > 0 {
            config.substrate_url = list[0].clone();
        }
        config.substrate_urls = list;
        GridClientConfigBuilder { config }
    }

    /// Pins the primary grid proxy endpoint.
    pub fn grid_proxy_url(self, grid_proxy_url: &str) -> (r: GridClientConfigBuilder)
        ensures
            r.config@ == with_grid_proxy_url(self.config@, grid_proxy_url@),
    {
        let mut config = self.config;
        config.grid_proxy_url = normalize_endpoint(grid_proxy_url);
        GridClientConfigBuilder { config }
    }

    /// Replaces the grid proxy candidates; the first one becomes the primary.
    pub fn grid_proxy_urls(self, grid_proxy_urls: Vec<String>) -> (r: GridClientConfigBuilder)
        ensures
            r.config@ == with_grid_proxy_urls(self.config@, views(grid_proxy_urls@)),
    {
        let mut config = self.config;
        let list = normalize_endpoints(&grid_proxy_urls);
        if list.len() > 0 {
            config.grid_proxy_url = list[0].clone();
        }
        config.grid_proxy_urls = list;
        GridClientConfigBuilder { config }
    }

    /// Pins the primary GraphQL endpoint.
    pub fn graphql_url(self, graphql_url: &str) -> (r: GridClientConfigBuilder)
        ensures
            r.config@ == with_graphql_url(self.config@, graphql_url@),
    {
        let mut config = self.config;
        config.graphql_url = normalize_endpoint(graphql_url);
        GridClientConfigBuilder { config }
    }

    /// Replaces the GraphQL candidates; the first one becomes the primary.
    pub fn graphql_urls(self, graphql_urls: Vec<String>) -> (r: GridClientConfigBuilder)
        ensures
            r.config@ == with_graphql_urls(self.config@, views(graphql_urls@)),
    {
        let mut config = self.config;
        let list = normalize_endpoints(&graphql_urls);
        if list.len() > 0 {
            config.graphql_url = list[0].clone();
        }
        config.graphql_urls = list;
        GridClientConfigBuilder { config }
    }

    /// Pins the primary relay endpoint.
    pub fn relay_url(self, relay_url: &str) -> (r: GridClientConfigBuilder)
        ensures
            r.config@ == with_relay_url(self.config@, relay_url@),
    {
        let mut config = self.config;
        config.relay_url = normalize_endpoint(relay_url);
        GridClientConfigBuilder { config }
    }

    /// Replaces the relay candidates; the first one becomes the primary.
    pub fn relay_urls(self, relay_urls: Vec<String>) -> (r: GridClientConfigBuilder)
        ensures
            r.config@ == with_relay_urls(self.config@, views(relay_urls@)),
    {
        let mut config = self.config;
        let list = normalize_endpoints(&relay_urls);
        if list.len() > 0 {
            config.relay_url = list[0].clone();
        }
        config.relay_urls = list;
        GridClientConfigBuilder { config }
    }

    /// Overrides the KYC endpoint.
    pub fn kyc_url(self, kyc_url: &str) -> (r: GridClientConfigBuilder)
        ensures
            r.config@ == (ConfigView { kyc_url: normalize_url(kyc_url@), ..self.config@ }),
    {
        let mut config = self.config;
        config.kyc_url = normalize_endpoint(kyc_url);
        GridClientConfigBuilder { config }
    }

    /// Overrides the sentry DSN.
    pub fn sentry_dsn(self, sentry_dsn: &str) -> (r: GridClientConfigBuilder)
        ensures
            r.config@ == (ConfigView { sentry_dsn: trim(sentry_dsn@), ..self.config@ }),
    {
        let mut config = self.config;
        config.sentry_dsn = trim_str(sentry_dsn);
        GridClientConfigBuilder { config }
    }

    /// Overrides the HTTP timeout.
    pub fn http_timeout(self, http_timeout: Duration) -> (r: GridClientConfigBuilder)
        ensures
            r.config@ == (ConfigView { http_timeout, ..self.config@ }),
    {
        let mut config = self.config;
        config.http_timeout = http_timeout;
        GridClientConfigBuilder { config }
    }

    /// Overrides the RMB timeout.
    pub fn rmb_timeout(self, rmb_timeout: Duration) -> (r: GridClientConfigBuilder)
        ensures
            r.config@ == (ConfigView { rmb_timeout, ..self.config@ }),
    {
        let mut config = self.config;
        config.rmb_timeout = rmb_timeout;
        GridClientConfigBuilder { config }
    }

    /// The configuration built so far.
    pub fn build(self) -> (r: GridClientConfig)
        ensures
            r@ == self.config@,
    {
        self.config
    }
}

} // verus!
