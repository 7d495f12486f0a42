//! The tracker and ad domains blocked at the server, and the set that holds them.

use vstd::prelude::*;
use crate::text::string_from_chars;
use vstd::hash_set::StringHashSet;

verus! {

/// A set of domain names: a std `HashSet<String>`, held through vstd's `StringHashSet`,
/// which gives its operations their contracts.
pub struct TrackerSet {
    entries: StringHashSet,
}

impl View for TrackerSet {
    type V = Set<Seq<char>>;

    closed spec fn view(&self) -> Set<Seq<char>> {
        self.entries@
    }
}

impl TrackerSet {
    /// An empty set.
    pub fn new() -> (s: TrackerSet)
        ensures
            s@ == Set::<Seq<char>>::empty(),
    {
        TrackerSet { entries: StringHashSet::new() }
    }

    /// Whether `name` is in the set.
    pub fn contains_chars(&self, name: &[char]) -> (b: bool)
        ensures
            b == self@.contains(name@),
    {
        let s = string_from_chars(name);
        self.entries.contains(s.as_str())
    }

    /// Whether `name` is in the set.
    pub fn contains(&self, name: &str) -> (b: bool)
        ensures
            b == self@.contains(name@),
    {
        self.entries.contains(name)
    }

    /// Adds `name` to the set.
    pub fn insert(&mut self, name: &str)
        ensures
            final(self)@ == old(self)@.insert(name@),
    {
        self.entries.insert(name.to_owned());
    }
}

/// The blocked domains: analytics, tag managers, ad networks, pixels, session recorders,
/// error trackers, content recommenders, share widgets, chat widgets, push services,
/// cookie-consent services and mobile attribution.
pub open spec fn tracker_domain_names() -> Seq<Seq<char>> {
    seq![
            "google-analytics.com"@, "googletagmanager.com"@, "googleadservices.com"@,
            "googlesyndication.com"@, "doubleclick.net"@, "googletagservices.com"@,
            "pagead2.googlesyndication.com"@, "adservice.google.com"@, "stats.g.doubleclick.net"@,
            "cm.g.doubleclick.net"@, "facebook.net"@, "connect.facebook.net"@, "pixel.facebook.com"@,
            "graph.facebook.com"@, "an.facebook.com"@, "analytics.twitter.com"@, "ads-twitter.com"@,
            "static.ads-twitter.com"@, "t.co"@, "bat.bing.com"@, "ads.linkedin.com"@, "snap.licdn.com"@,
            "clarity.ms"@, "mc.yandex.ru"@, "metrika.yandex.ru"@, "hotjar.com"@, "static.hotjar.com"@,
            "fullstory.com"@, "mouseflow.com"@, "luckyorange.com"@, "newrelic.com"@, "nr-data.net"@,
            "bam.nr-data.net"@, "sentry.io"@, "browser.sentry-cdn.com"@, "bugsnag.com"@, "segment.io"@,
            "segment.com"@, "cdn.segment.com"@, "mixpanel.com"@, "api.mixpanel.com"@, "cdn.mxpnl.com"@,
            "amplitude.com"@, "api.amplitude.com"@, "heapanalytics.com"@, "app.pendo.io"@,
            "plausible.io"@, "matomo.cloud"@, "chartbeat.com"@, "parsely.com"@,
            "scorecardresearch.com"@, "sb.scorecardresearch.com"@, "b.scorecardresearch.com"@,
            "quantserve.com"@, "secure.quantserve.com"@, "pixel.quantserve.com"@, "crazyegg.com"@,
            "optimizely.com"@, "cdn.optimizely.com"@, "cloudflareinsights.com"@, "adsrvr.org"@,
            "adnxs.com"@, "openx.net"@, "pubmatic.com"@, "rubiconproject.com"@, "contextweb.com"@,
            "indexexchange.com"@, "casalemedia.com"@, "moatads.com"@, "doubleverify.com"@,
            "adsafeprotected.com"@, "serving-sys.com"@, "turn.com"@, "amazon-adsystem.com"@,
            "media.net"@, "criteo.com"@, "criteo.net"@, "adroll.com"@, "perfectaudience.com"@,
            "steelhousemedia.com"@, "taboola.com"@, "outbrain.com"@, "mgid.com"@, "revcontent.com"@,
            "sharethis.com"@, "addthis.com"@, "shareaholic.com"@, "disqus.com"@, "disquscdn.com"@,
            "spot.im"@, "intercom.io"@, "widget.intercom.io"@, "crisp.chat"@, "drift.com"@, "tawk.to"@,
            "zendesk.com"@, "onesignal.com"@, "pusher.com"@, "pushwoosh.com"@, "cookiebot.com"@,
            "cookieinformation.com"@, "onetrust.com"@, "cookielaw.org"@, "trustarc.com"@, "evidon.com"@,
            "branch.io"@, "app.link"@, "adjust.com"@, "appsflyer.com"@, "kochava.com"@, "singular.net"@,
            "demdex.net"@, "omtrdc.net"@, "2o7.net"@, "sc.omtrdc.net"@, "recaptcha.net"@,
            "cdn.embedly.com"@, "static.chartbeat.com"@, "widgets.outbrain.com"@, "cdn.taboola.com"@,
    ]
}

/// Law: the blocked domains number over a hundred and take in Google Analytics, Tag
/// Manager and ads, the Facebook pixel, Twitter analytics, Adobe, Yandex, Hotjar,
/// Segment, Mixpanel, DoubleClick, AdRoll, Criteo, Taboola, Outbrain, OneTrust,
/// Cookiebot, Intercom, Drift and Crisp.
pub proof fn lemma_blocked_domains()
    ensures
        tracker_domain_names().len() > 100,
        forall|d: Seq<char>|
            #![trigger tracker_domain_names().to_set().contains(d)]
            seq![
                "google-analytics.com"@, "googletagmanager.com"@, "googlesyndication.com"@,
                "doubleclick.net"@, "facebook.net"@, "pixel.facebook.com"@,
                "analytics.twitter.com"@, "omtrdc.net"@, "mc.yandex.ru"@, "hotjar.com"@,
                "segment.com"@, "mixpanel.com"@, "adroll.com"@, "criteo.com"@, "taboola.com"@,
                "outbrain.com"@, "onetrust.com"@, "cookiebot.com"@, "intercom.io"@, "drift.com"@,
                "crisp.chat"@,
            ].contains(d) ==> tracker_domain_names().to_set().contains(d),
{
    let all = tracker_domain_names();
    assert(all[0] == "google-analytics.com"@);
    assert(all[1] == "googletagmanager.com"@);
    assert(all[3] == "googlesyndication.com"@);
    assert(all[4] == "doubleclick.net"@);
    assert(all[10] == "facebook.net"@);
    assert(all[12] == "pixel.facebook.com"@);
    assert(all[15] == "analytics.twitter.com"@);
    assert(all[112] == "omtrdc.net"@);
    assert(all[23] == "mc.yandex.ru"@);
    assert(all[25] == "hotjar.com"@);
    assert(all[37] == "segment.com"@);
    assert(all[39] == "mixpanel.com"@);
    assert(all[77] == "adroll.com"@);
    assert(all[75] == "criteo.com"@);
    assert(all[80] == "taboola.com"@);
    assert(all[81] == "outbrain.com"@);
    assert(all[101] == "onetrust.com"@);
    assert(all[99] == "cookiebot.com"@);
    assert(all[90] == "intercom.io"@);
    assert(all[93] == "drift.com"@);
    assert(all[92] == "crisp.chat"@);
}

/// The blocked domains, as string slices.
pub fn tracker_domain_list() -> (v: Vec<&'static str>)
    ensures
        v@.map_values(|s: &str| s@) == tracker_domain_names(),
{
    let v = vec![
        "google-analytics.com", "googletagmanager.com", "googleadservices.com",
        "googlesyndication.com", "doubleclick.net", "googletagservices.com",
        "pagead2.googlesyndication.com", "adservice.google.com", "stats.g.doubleclick.net",
        "cm.g.doubleclick.net", "facebook.net", "connect.facebook.net", "pixel.facebook.com",
        "graph.facebook.com", "an.facebook.com", "analytics.twitter.com", "ads-twitter.com",
        "static.ads-twitter.com", "t.co", "bat.bing.com", "ads.linkedin.com", "snap.licdn.com",
        "clarity.ms", "mc.yandex.ru", "metrika.yandex.ru", "hotjar.com", "static.hotjar.com",
        "fullstory.com", "mouseflow.com", "luckyorange.com", "newrelic.com", "nr-data.net",
        "bam.nr-data.net", "sentry.io", "browser.sentry-cdn.com", "bugsnag.com", "segment.io",
        "segment.com", "cdn.segment.com", "mixpanel.com", "api.mixpanel.com", "cdn.mxpnl.com",
        "amplitude.com", "api.amplitude.com", "heapanalytics.com", "app.pendo.io",
        "plausible.io", "matomo.cloud", "chartbeat.com", "parsely.com",
        "scorecardresearch.com", "sb.scorecardresearch.com", "b.scorecardresearch.com",
        "quantserve.com", "secure.quantserve.com", "pixel.quantserve.com", "crazyegg.com",
        "optimizely.com", "cdn.optimizely.com", "cloudflareinsights.com", "adsrvr.org",
        "adnxs.com", "openx.net", "pubmatic.com", "rubiconproject.com", "contextweb.com",
        "indexexchange.com", "casalemedia.com", "moatads.com", "doubleverify.com",
        "adsafeprotected.com", "serving-sys.com", "turn.com", "amazon-adsystem.com",
        "media.net", "criteo.com", "criteo.net", "adroll.com", "perfectaudience.com",
        "steelhousemedia.com", "taboola.com", "outbrain.com", "mgid.com", "revcontent.com",
        "sharethis.com", "addthis.com", "shareaholic.com", "disqus.com", "disquscdn.com",
        "spot.im", "intercom.io", "widget.intercom.io", "crisp.chat", "drift.com", "tawk.to",
        "zendesk.com", "onesignal.com", "pusher.com", "pushwoosh.com", "cookiebot.com",
        "cookieinformation.com", "onetrust.com", "cookielaw.org", "trustarc.com", "evidon.com",
        "branch.io", "app.link", "adjust.com", "appsflyer.com", "kochava.com", "singular.net",
        "demdex.net", "omtrdc.net", "2o7.net", "sc.omtrdc.net", "recaptcha.net",
        "cdn.embedly.com", "static.chartbeat.com", "widgets.outbrain.com", "cdn.taboola.com",
    ];
    assert(v@.map_values(|s: &str| s@) == tracker_domain_names());
    v
}

/// The set of blocked domains.
pub fn tracker_domains() -> (set: TrackerSet)
    ensures
        set@ == tracker_domain_names().to_set(),
{
    let names = tracker_domain_list();
    let ghost all = names@.map_values(|s: &str| s@);
    let mut set = TrackerSet::new();
    let mut i: usize = 0;
    while i < names.len()
        invariant
            i <= names@.len(),
            all == names@.map_values(|s: &str| s@),
            set@ == all.take(i as int).to_set(),
        decreases names@.len() - i,
    {
        set.insert(names[i]);
        assert(all.take(i + 1) == all.take(i as int).push(names@[i as int]@));
        assert(all.take(i as int).push(names@[i as int]@).to_set() == all.take(
            i as int,
        ).to_set().insert(names@[i as int]@)) by {
            broadcast use vstd::seq_lib::group_seq_properties;
        }
        i = i + 1;
    }
    assert(all.take(names@.len() as int) == all);
    set
}

} // verus!
