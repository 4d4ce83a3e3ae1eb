//! The bundled catalog of well-known services, searchable by name, id and
//! alias without an unlocked vault (it holds nothing secret).

use vstd::prelude::*;

use crate::text::{chars_of, contains, contains_chars, lowercase, to_lowercase, trim, trimmed};

verus! {

/// A service of the built-in catalog.
#[derive(Debug, PartialEq, Eq)]
pub struct CatalogService {
    /// Stable identifier, also the name of its bundled icon.
    pub id: String,
    /// Display name.
    pub name: String,
    /// Other names the service is searched by.
    pub aliases: Vec<String>,
}

/// The abstract content of a [`CatalogService`].
pub struct CatalogServiceSpec {
    pub id: Seq<char>,
    pub name: Seq<char>,
    pub aliases: Seq<Seq<char>>,
}

impl View for CatalogService {
    type V = CatalogServiceSpec;

    open spec fn view(&self) -> CatalogServiceSpec {
        CatalogServiceSpec { id: self.id@, name: self.name@, aliases: self.aliases@.map_values(|a: String| a@) }
    }
}

impl Clone for CatalogService {
    fn clone(&self) -> (r: Self)
        ensures
            r@ == self@,
    {
        let mut aliases: Vec<String> = Vec::new();
        let mut i: usize = 0;
        while i < self.aliases.len()
            invariant
                i <= self.aliases@.len(),
                aliases@.len() == i,
                forall|k: int| 0 <= k < i ==> (#[trigger] aliases@[k])@ == self.aliases@[k]@,
            decreases self.aliases@.len() - i,
        {
            aliases.push(self.aliases[i].clone());
            i = i + 1;
        }
        let r = CatalogService { id: self.id.clone(), name: self.name.clone(), aliases };
        assert(r@.aliases =~= self@.aliases);
        r
    }
}

/// The views of a list of catalog services.
pub open spec fn catalog_view(s: Seq<CatalogService>) -> Seq<CatalogServiceSpec> {
    s.map_values(|c: CatalogService| c@)
}

fn service(id: &str, name: &str, aliases: &[&str]) -> (s: CatalogService)
    ensures
        s@.id == id@,
        s@.name == name@,
        s@.aliases == aliases@.map_values(|a: &str| a@),
{
    let mut list: Vec<String> = Vec::new();
    let mut i: usize = 0;
    while i < aliases.len()
        invariant
            i <= aliases@.len(),
            list@.len() == i,
            forall|k: int| 0 <= k < i ==> (#[trigger] list@[k])@ == aliases@[k]@,
        decreases aliases@.len() - i,
    {
        list.push(aliases[i].to_string());
        i = i + 1;
    }
    let s = CatalogService { id: id.to_string(), name: name.to_string(), aliases: list };
    assert(s@.aliases =~= aliases@.map_values(|a: &str| a@));
    s
}

/// The ids and display names of the built-in catalog, in display order.
pub open spec fn builtin_names() -> Seq<(Seq<char>, Seq<char>)> {
    seq![
        ("google"@, "Google"@),
        ("facebook"@, "Facebook"@),
        ("instagram"@, "Instagram"@),
        ("threads"@, "Threads"@),
        ("twitter"@, "X (Twitter)"@),
        ("tiktok"@, "TikTok"@),
        ("linkedin"@, "LinkedIn"@),
        ("reddit"@, "Reddit"@),
        ("discord"@, "Discord"@),
        ("telegram"@, "Telegram"@),
        ("whatsapp"@, "WhatsApp"@),
        ("snapchat"@, "Snapchat"@),
        ("pinterest"@, "Pinterest"@),
        ("microsoft"@, "Microsoft"@),
        ("apple"@, "Apple"@),
        ("amazon"@, "Amazon"@),
        ("netflix"@, "Netflix"@),
        ("spotify"@, "Spotify"@),
        ("steam"@, "Steam"@),
        ("epic-games"@, "Epic Games"@),
        ("social-club"@, "Social Club"@),
        ("ea"@, "EA"@),
        ("playstation"@, "PlayStation Network"@),
        ("nintendo"@, "Nintendo Account"@),
        ("twitch"@, "Twitch"@),
        ("github"@, "GitHub"@),
        ("gitlab"@, "GitLab"@),
        ("dropbox"@, "Dropbox"@),
        ("slack"@, "Slack"@),
        ("zoom"@, "Zoom"@),
        ("paypal"@, "PayPal"@),
        ("payoneer"@, "Payoneer"@),
        ("wise"@, "Wise"@),
        ("coinbase"@, "Coinbase"@),
        ("binance"@, "Binance"@),
        ("okx"@, "OKX"@),
        ("metamask"@, "MetaMask"@),
        ("coins-ph"@, "Coins.ph"@),
        ("gcash"@, "GCash"@),
        ("maya"@, "Maya"@),
        ("bdo"@, "BDO"@),
        ("bpi"@, "BPI"@),
        ("rcbc"@, "RCBC"@),
        ("pldt"@, "PLDT"@),
        ("globe"@, "Globe"@),
        ("shopee"@, "Shopee"@),
        ("lazada"@, "Lazada"@),
        ("ebay"@, "eBay"@),
        ("sellix"@, "Sellix"@),
        ("chatgpt"@, "ChatGPT"@),
        ("kiro"@, "Kiro"@),
        ("notion"@, "Notion"@),
        ("canva"@, "Canva"@),
        ("adobe"@, "Adobe"@),
        ("yahoo"@, "Yahoo"@),
        ("proton"@, "Proton"@),
        ("datablitz"@, "DataBlitz"@),
        ("onlinejobs-ph"@, "OnlineJobs.ph"@),
        ("upwork"@, "Upwork"@),
        ("airbnb"@, "Airbnb"@),
    ]
}

/// The aliases of the built-in catalog's services, in display order.
pub open spec fn builtin_aliases() -> Seq<Seq<Seq<char>>> {
    seq![
        seq!["gmail"@, "youtube"@, "google account"@],
        seq!["fb"@, "meta"@],
        seq!["ig"@],
        seq!["instagram threads"@],
        seq!["twitter"@, "x"@],
        Seq::empty(),
        Seq::empty(),
        Seq::empty(),
        Seq::empty(),
        Seq::empty(),
        Seq::empty(),
        Seq::empty(),
        Seq::empty(),
        seq!["outlook"@, "hotmail"@, "xbox"@, "office 365"@],
        seq!["icloud"@, "apple id"@],
        seq!["aws"@, "prime video"@],
        Seq::empty(),
        Seq::empty(),
        seq!["valve"@],
        seq!["fortnite"@],
        seq!["rockstar"@, "gta"@],
        seq!["origin"@, "ea app"@, "electronic arts"@],
        seq!["psn"@, "sony"@],
        seq!["switch"@],
        Seq::empty(),
        Seq::empty(),
        Seq::empty(),
        Seq::empty(),
        Seq::empty(),
        Seq::empty(),
        Seq::empty(),
        Seq::empty(),
        seq!["transferwise"@],
        Seq::empty(),
        Seq::empty(),
        Seq::empty(),
        seq!["wallet"@],
        seq!["coins"@],
        Seq::empty(),
        seq!["paymaya"@],
        seq!["banco de oro"@],
        seq!["bank of the philippine islands"@],
        Seq::empty(),
        seq!["home fiber"@],
        Seq::empty(),
        Seq::empty(),
        Seq::empty(),
        Seq::empty(),
        Seq::empty(),
        seq!["openai"@],
        Seq::empty(),
        Seq::empty(),
        Seq::empty(),
        seq!["creative cloud"@, "photoshop"@],
        seq!["yahoo mail"@],
        seq!["protonmail"@, "proton mail"@],
        Seq::empty(),
        seq!["onlinejobs"@],
        Seq::empty(),
        Seq::empty(),
    ]
}

/// The built-in catalog: its ids, names and aliases, in display order.
pub open spec fn builtin_catalog_spec() -> Seq<CatalogServiceSpec> {
    Seq::new(60, |i: int| CatalogServiceSpec { id: builtin_names()[i].0, name: builtin_names()[i].1, aliases: builtin_aliases()[i] })
}

/// The id and display name of a catalog service.
pub open spec fn id_and_name(s: CatalogServiceSpec) -> (Seq<char>, Seq<char>) {
    (s.id, s.name)
}

/// The built-in catalog, in display order.
#[verifier::rlimit(60)]
pub fn builtin_catalog() -> (r: Vec<CatalogService>)
    ensures
        catalog_view(r@) == builtin_catalog_spec(),
{
    let mut out: Vec<CatalogService> = Vec::new();
    out.push(service("google", "Google", &["gmail", "youtube", "google account"]));
    out.push(service("facebook", "Facebook", &["fb", "meta"]));
    out.push(service("instagram", "Instagram", &["ig"]));
    out.push(service("threads", "Threads", &["instagram threads"]));
    out.push(service("twitter", "X (Twitter)", &["twitter", "x"]));
    out.push(service("tiktok", "TikTok", &[]));
    out.push(service("linkedin", "LinkedIn", &[]));
    out.push(service("reddit", "Reddit", &[]));
    out.push(service("discord", "Discord", &[]));
    out.push(service("telegram", "Telegram", &[]));
    out.push(service("whatsapp", "WhatsApp", &[]));
    out.push(service("snapchat", "Snapchat", &[]));
    out.push(service("pinterest", "Pinterest", &[]));
    out.push(service("microsoft", "Microsoft", &["outlook", "hotmail", "xbox", "office 365"]));
    out.push(service("apple", "Apple", &["icloud", "apple id"]));
    out.push(service("amazon", "Amazon", &["aws", "prime video"]));
    out.push(service("netflix", "Netflix", &[]));
    out.push(service("spotify", "Spotify", &[]));
    out.push(service("steam", "Steam", &["valve"]));
    out.push(service("epic-games", "Epic Games", &["fortnite"]));
    out.push(service("social-club", "Social Club", &["rockstar", "gta"]));
    out.push(service("ea", "EA", &["origin", "ea app", "electronic arts"]));
    out.push(service("playstation", "PlayStation Network", &["psn", "sony"]));
    out.push(service("nintendo", "Nintendo Account", &["switch"]));
    out.push(service("twitch", "Twitch", &[]));
    out.push(service("github", "GitHub", &[]));
    out.push(service("gitlab", "GitLab", &[]));
    out.push(service("dropbox", "Dropbox", &[]));
    out.push(service("slack", "Slack", &[]));
    out.push(service("zoom", "Zoom", &[]));
    out.push(service("paypal", "PayPal", &[]));
    out.push(service("payoneer", "Payoneer", &[]));
    out.push(service("wise", "Wise", &["transferwise"]));
    out.push(service("coinbase", "Coinbase", &[]));
    out.push(service("binance", "Binance", &[]));
    out.push(service("okx", "OKX", &[]));
    out.push(service("metamask", "MetaMask", &["wallet"]));
    out.push(service("coins-ph", "Coins.ph", &["coins"]));
    out.push(service("gcash", "GCash", &[]));
    out.push(service("maya", "Maya", &["paymaya"]));
    out.push(service("bdo", "BDO", &["banco de oro"]));
    out.push(service("bpi", "BPI", &["bank of the philippine islands"]));
    out.push(service("rcbc", "RCBC", &[]));
    out.push(service("pldt", "PLDT", &["home fiber"]));
    out.push(service("globe", "Globe", &[]));
    out.push(service("shopee", "Shopee", &[]));
    out.push(service("lazada", "Lazada", &[]));
    out.push(service("ebay", "eBay", &[]));
    out.push(service("sellix", "Sellix", &[]));
    out.push(service("chatgpt", "ChatGPT", &["openai"]));
    out.push(service("kiro", "Kiro", &[]));
    out.push(service("notion", "Notion", &[]));
    out.push(service("canva", "Canva", &[]));
    out.push(service("adobe", "Adobe", &["creative cloud", "photoshop"]));
    out.push(service("yahoo", "Yahoo", &["yahoo mail"]));
    out.push(service("proton", "Proton", &["protonmail", "proton mail"]));
    out.push(service("datablitz", "DataBlitz", &[]));
    out.push(service("onlinejobs-ph", "OnlineJobs.ph", &["onlinejobs"]));
    out.push(service("upwork", "Upwork", &[]));
    out.push(service("airbnb", "Airbnb", &[]));
    assert(catalog_view(out@).map_values(|s: CatalogServiceSpec| id_and_name(s)) =~= builtin_names());
    assert(catalog_view(out@).map_values(|s: CatalogServiceSpec| s.aliases) =~~= builtin_aliases());
    proof {
        let v = catalog_view(out@);
        let names = v.map_values(|s: CatalogServiceSpec| id_and_name(s));
        let aliases = v.map_values(|s: CatalogServiceSpec| s.aliases);
        assert forall|i: int| 0 <= i < 60 implies #[trigger] v[i] == builtin_catalog_spec()[i] by {
            assert(names[i] == id_and_name(v[i]));
            assert(aliases[i] == v[i].aliases);
        }
        assert(v =~= builtin_catalog_spec());
    }
    out
}

/// Whether catalog service `s` matches the normalised (trimmed, lower-cased)
/// query `q`: every service matches the empty query; otherwise `q` must occur
/// in the lower-cased name, in the id, or in a lower-cased alias.
pub open spec fn catalog_matches(s: CatalogServiceSpec, q: Seq<char>) -> bool {
    ||| q.len() == 0
    ||| contains(lowercase(s.name), q)
    ||| contains(s.id, q)
    ||| exists|k: int| 0 <= k < s.aliases.len() && contains(lowercase(#[trigger] s.aliases[k]), q)
}

/// The services of `all` that match `q`, in order.
pub open spec fn catalog_hits(all: Seq<CatalogServiceSpec>, q: Seq<char>) -> Seq<CatalogServiceSpec>
    decreases all.len(),
{
    if all.len() == 0 {
        Seq::empty()
    } else {
        let rest = catalog_hits(all.drop_last(), q);
        if catalog_matches(all.last(), q) {
            rest.push(all.last())
        } else {
            rest
        }
    }
}

/// The normalised form of a catalog query: trimmed and lower-cased.
pub open spec fn catalog_query(query: Seq<char>) -> Seq<char> {
    lowercase(trimmed(query))
}

fn service_matches(s: &CatalogService, q: &Vec<char>) -> (r: bool)
    ensures
        r == catalog_matches(s@, q@),
{
    if q.len() == 0 {
        return true;
    }
    let name = to_lowercase(s.name.as_str());
    if contains_chars(&chars_of(name.as_str()), q) {
        return true;
    }
    if contains_chars(&chars_of(s.id.as_str()), q) {
        return true;
    }
    let mut k: usize = 0;
    while k < s.aliases.len()
        invariant
            k <= s.aliases@.len(),
            q@.len() > 0,
            forall|j: int| 0 <= j < k ==> !contains(lowercase(#[trigger] s@.aliases[j]), q@),
        decreases s.aliases@.len() - k,
    {
        let alias = to_lowercase(s.aliases[k].as_str());
        assert(s@.aliases[k as int] == s.aliases@[k as int]@);
        if contains_chars(&chars_of(alias.as_str()), q) {
            return true;
        }
        k = k + 1;
    }
    false
}

/// The services of `all` that match `query` (trimmed and lower-cased), in
/// order. A blank query returns them all.
pub fn search_services(all: &Vec<CatalogService>, query: &str) -> (r: Vec<CatalogService>)
    ensures
        catalog_view(r@) == catalog_hits(catalog_view(all@), catalog_query(query@)),
{
    let t = trim(query);
    let lower = to_lowercase(t.as_str());
    let q = chars_of(lower.as_str());
    let ghost whole = catalog_view(all@);
    let mut out: Vec<CatalogService> = Vec::new();
    let mut i: usize = 0;
    while i < all.len()
        invariant
            i <= all@.len(),
            whole == catalog_view(all@),
            q@ == catalog_query(query@),
            catalog_view(out@) == catalog_hits(whole.subrange(0, i as int), q@),
        decreases all@.len() - i,
    {
        proof {
            assert(whole.subrange(0, i + 1).drop_last() =~= whole.subrange(0, i as int));
            assert(whole.subrange(0, i + 1).last() == all@[i as int]@);
        }
        if service_matches(&all[i], &q) {
            let ghost before = catalog_view(out@);
            out.push(all[i].clone());
            assert(catalog_view(out@) =~= before.push(all@[i as int]@));
        }
        i = i + 1;
    }
    assert(whole.subrange(0, all@.len() as int) =~= whole);
    out
}

/// Search the built-in catalog: the services whose lower-cased name, id or
/// lower-cased alias contains the trimmed, lower-cased query, in catalog
/// order; every service for a blank query.
pub fn search_catalog(query: &str) -> (r: Vec<CatalogService>)
    ensures
        catalog_view(r@) == catalog_hits(builtin_catalog_spec(), catalog_query(query@)),
{
    let all = builtin_catalog();
    let r = search_services(&all, query);
    assert(catalog_view(r@) == catalog_hits(catalog_view(all@), catalog_query(query@)));
    r
}

/// Search finds by name, id or alias regardless of letter case: a service of
/// `all` whose lower-cased name, id or some lower-cased alias contains the
/// trimmed, lower-cased query (or any service, for a blank query) is among
/// the results.
pub proof fn lemma_catalog_search_finds(all: Seq<CatalogServiceSpec>, query: Seq<char>, k: int)
    requires
        0 <= k < all.len(),
        ({
            let q = lowercase(trimmed(query));
            let s = all[k];
            ||| q.len() == 0
            ||| contains(lowercase(s.name), q)
            ||| contains(s.id, q)
            ||| exists|a: int| 0 <= a < s.aliases.len() && contains(lowercase(#[trigger] s.aliases[a]), q)
        }),
    ensures
        catalog_hits(all, catalog_query(query)).contains(all[k]),
    decreases all.len(),
{
    let q = catalog_query(query);
    let rest = catalog_hits(all.drop_last(), q);
    if k == all.len() - 1 {
        assert(catalog_matches(all.last(), q));
        assert(catalog_hits(all, q) == rest.push(all.last()));
        assert(catalog_hits(all, q)[rest.len() as int] == all[k]);
    } else {
        assert(all.drop_last()[k] == all[k]);
        lemma_catalog_search_finds(all.drop_last(), query, k);
        let j = choose|j: int| 0 <= j < rest.len() && rest[j] == all[k];
        if catalog_matches(all.last(), q) {
            assert(catalog_hits(all, q)[j] == all[k]);
        }
    }
}

/// Search returns nothing else: every result is a service of `all` whose
/// lower-cased name, id or some lower-cased alias contains the trimmed,
/// lower-cased query, unless that query is blank.
pub proof fn lemma_catalog_search_sound(all: Seq<CatalogServiceSpec>, query: Seq<char>, j: int)
    requires
        0 <= j < catalog_hits(all, catalog_query(query)).len(),
    ensures
        all.contains(catalog_hits(all, catalog_query(query))[j]),
        ({
            let q = lowercase(trimmed(query));
            let s = catalog_hits(all, catalog_query(query))[j];
            ||| q.len() == 0
            ||| contains(lowercase(s.name), q)
            ||| contains(s.id, q)
            ||| exists|a: int| 0 <= a < s.aliases.len() && contains(lowercase(#[trigger] s.aliases[a]), q)
        }),
    decreases all.len(),
{
    let q = catalog_query(query);
    let rest = catalog_hits(all.drop_last(), q);
    if j < rest.len() {
        lemma_catalog_search_sound(all.drop_last(), query, j);
        if catalog_matches(all.last(), q) {
            assert(catalog_hits(all, q)[j] == rest[j]);
        }
        let i = choose|i: int| 0 <= i < all.drop_last().len() && all.drop_last()[i] == rest[j];
        assert(all[i] == rest[j]);
    } else {
        assert(catalog_matches(all.last(), q));
        assert(catalog_hits(all, q)[j] == all.last());
        assert(all[all.len() - 1] == all.last());
    }
}

} // verus!
