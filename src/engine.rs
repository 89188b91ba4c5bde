use vstd::prelude::*;

use crate::filters::{ParsedRule, RuleType};
use crate::text::{
    ascii_lower, ascii_lower_chars, chars_eq, chars_of, contains, contains_chars, split,
    split_chars, string_of, Separator,
};
use crate::utils::{matches_wildcard_pattern, wildcard_matches};

verus! {

/// Relies on `url::Url::parse` and `url::Url::host_str`: `None` where the
/// text is no absolute URL, `Some(None)` where it is one without a host,
/// `Some(Some(h))` where its host is `h`.
pub uninterp spec fn url_host(s: Seq<char>) -> Option<Option<Seq<char>>>;

/// Relies on `url::Url::parse` and `url::Url::host_str`. Without a `:`
/// there is no scheme, and a text whose first character is `:` has none
/// either: neither parses without a base URL.
#[verifier::external_body]
pub(crate) fn parse_url_host(s: &str) -> (r: Option<Option<String>>)
    ensures
        match r {
            None => url_host(s@) is None,
            Some(None) => url_host(s@) == Some(None::<Seq<char>>),
            Some(Some(h)) => url_host(s@) == Some(Some(h@)),
        },
        !s@.contains(':') ==> r is None,
        s@.len() > 0 && s@[0] == ':' ==> r is None,
{
    match url::Url::parse(s) {
        Ok(u) => Some(u.host_str().map(|h| h.to_string())),
        Err(_) => None,
    }
}

pub open spec fn scheme_separator() -> Seq<char> {
    seq![':', '/', '/']
}

/// The host of a request URL: the URL parser's host where the text parses;
/// otherwise, for a text without `://`, the text up to its first `/`; else
/// none.
pub open spec fn host_of(url: Seq<char>) -> Option<Seq<char>> {
    match url_host(url) {
        Some(h) => h,
        None => if contains(url, scheme_separator()) {
            None
        } else {
            Some(split(url, Separator::Slash)[0])
        },
    }
}

/// Text the URL parser rejects without a base: no `:` at all, or a `:`
/// first.
pub open spec fn unparsable(url: Seq<char>) -> bool {
    !url.contains(':') || (url.len() > 0 && url[0] == ':')
}

/// The host taken from a text that does not parse: the text up to its
/// first `/`, or none where it holds `://`.
pub open spec fn fallback_host(url: Seq<char>) -> Option<Seq<char>> {
    if contains(url, scheme_separator()) {
        None
    } else {
        Some(split(url, Separator::Slash)[0])
    }
}

/// Trailing dots removed.
pub open spec fn strip_dots(d: Seq<char>) -> Seq<char>
    decreases d.len(),
{
    if d.len() > 0 && d.last() == '.' {
        strip_dots(d.drop_last())
    } else {
        d
    }
}

/// The form in which domains are stored and looked up: lower case, no
/// trailing dot.
pub open spec fn normalize_domain(d: Seq<char>) -> Seq<char> {
    ascii_lower(strip_dots(d))
}

/// The key under which a request's host is looked up in the domain sets:
/// the host as extracted, unchanged.
pub open spec fn request_host(url: Seq<char>) -> Option<Seq<char>> {
    host_of(url)
}

/// The verdict for a request whose extracted host is `host`.
pub open spec fn blocks_with_host(
    allow: Seq<Seq<char>>,
    block: Seq<Seq<char>>,
    patterns: Seq<Seq<char>>,
    host: Option<Seq<char>>,
    url: Seq<char>,
) -> bool {
    if host is Some && allow.contains(host->0) {
        false
    } else if host is Some && block.contains(host->0) {
        true
    } else {
        any_pattern_hit(patterns, url)
    }
}

/// Wildcard patterns (with `*` or `?`) match the whole URL; the others
/// match where they occur in it, case-sensitively.
pub open spec fn is_wildcard(p: Seq<char>) -> bool {
    p.contains('*') || p.contains('?')
}

pub open spec fn pattern_hit(p: Seq<char>, url: Seq<char>) -> bool {
    if is_wildcard(p) {
        wildcard_matches(p, url)
    } else {
        contains(url, p)
    }
}

pub open spec fn any_pattern_hit(patterns: Seq<Seq<char>>, url: Seq<char>) -> bool {
    exists|i: int| 0 <= i < patterns.len() && pattern_hit(#[trigger] patterns[i], url)
}

/// The verdict, `true` for block: a host in the allow set is allowed, else
/// a host in the block set is blocked, else the URL is blocked exactly when
/// some pattern matches it.
pub open spec fn blocks(
    allow: Seq<Seq<char>>,
    block: Seq<Seq<char>>,
    patterns: Seq<Seq<char>>,
    url: Seq<char>,
) -> bool {
    blocks_with_host(allow, block, patterns, request_host(url), url)
}

pub open spec fn views(v: Seq<Vec<char>>) -> Seq<Seq<char>> {
    v.map_values(|x: Vec<char>| x@)
}

/// Finds the host of a request URL, as `host_of` says.
pub fn extract_domain(url: &str) -> (r: Option<String>)
    ensures
        match r {
            Some(h) => host_of(url@) == Some(h@),
            None => host_of(url@) is None,
        },
        unparsable(url@) ==> host_of(url@) == fallback_host(url@),
{
    match parse_url_host(url) {
        Some(h) => h,
        None => {
            let chars = chars_of(url);
            let sep: Vec<char> = vec![':', '/', '/'];
            assert(sep@ =~= scheme_separator());
            if contains_chars(&chars, &sep) {
                None
            } else {
                let pieces = split_chars(&chars, Separator::Slash);
                proof {
                    crate::text::lemma_split_nonempty(url@, Separator::Slash);
                }
                Some(string_of(pieces[0].as_slice()))
            }
        },
    }
}

fn strip_dots_chars(d: &Vec<char>) -> (r: Vec<char>)
    ensures
        r@ == strip_dots(d@),
{
    let mut n = d.len();
    assert(d@.take(d@.len() as int) =~= d@);
    while n > 0 && d[n - 1] == '.'
        invariant
            n <= d@.len(),
            strip_dots(d@) == strip_dots(d@.take(n as int)),
        decreases n,
    {
        assert(d@.take(n as int).drop_last() =~= d@.take(n - 1));
        n = n - 1;
    }
    assert(d@.take(d@.len() as int) =~= d@);
    crate::text::slice_chars(d, 0, n)
}

/// A domain in stored form.
pub fn normalize_domain_chars(d: &Vec<char>) -> (r: Vec<char>)
    ensures
        r@ == normalize_domain(d@),
{
    ascii_lower_chars(&strip_dots_chars(d))
}

fn member(set: &Vec<Vec<char>>, x: &Vec<char>) -> (r: bool)
    ensures
        r == views(set@).contains(x@),
{
    let mut i: usize = 0;
    while i < set.len()
        invariant
            i <= set@.len(),
            forall|k: int| 0 <= k < i ==> (#[trigger] set@[k])@ != x@,
        decreases set@.len() - i,
    {
        if chars_eq(&set[i], x) {
            assert(views(set@)[i as int] == x@);
            return true;
        }
        i = i + 1;
    }
    assert(!views(set@).contains(x@)) by {
        if views(set@).contains(x@) {
            let k = choose|k: int| 0 <= k < views(set@).len() && views(set@)[k] == x@;
            assert(set@[k]@ == x@);
        }
    }
    false
}

fn has_wildcard(p: &Vec<char>) -> (r: bool)
    ensures
        r == is_wildcard(p@),
{
    let mut i: usize = 0;
    while i < p.len()
        invariant
            i <= p@.len(),
            forall|k: int| 0 <= k < i ==> p@[k] != '*' && p@[k] != '?',
        decreases p@.len() - i,
    {
        if p[i] == '*' || p[i] == '?' {
            assert(p@.contains(p@[i as int]));
            return true;
        }
        i = i + 1;
    }
    false
}

fn hit(p: &Vec<char>, url: &str, url_chars: &Vec<char>) -> (r: bool)
    requires
        url_chars@ == url@,
    ensures
        r == pattern_hit(p@, url@),
{
    if has_wildcard(p) {
        let ps = string_of(p.as_slice());
        matches_wildcard_pattern(url, ps.as_str())
    } else {
        contains_chars(url_chars, p)
    }
}

/// The rule store and the decision over it.
#[derive(Debug)]
pub struct FilterEngine {
    domain_blocklist: Vec<Vec<char>>,
    domain_allowlist: Vec<Vec<char>>,
    patterns: Vec<Vec<char>>,
}

pub open spec fn all_normalized(s: Seq<Seq<char>>) -> bool {
    forall|i: int| 0 <= i < s.len() ==> #[trigger] normalize_domain(s[i]) == s[i]
}

fn to_chars_all(v: &Vec<String>) -> (r: Vec<Vec<char>>)
    ensures
        views(r@) == v@.map_values(|s: String| s@),
{
    let mut r: Vec<Vec<char>> = Vec::new();
    let mut i: usize = 0;
    while i < v.len()
        invariant
            i <= v@.len(),
            views(r@) == v@.take(i as int).map_values(|s: String| s@),
        decreases v@.len() - i,
    {
        let ghost prev = r@;
        r.push(chars_of(v[i].as_str()));
        assert(views(r@) =~= views(prev).push(v@[i as int]@));
        assert(v@.take(i + 1).map_values(|s: String| s@) =~= v@.take(i as int).map_values(
            |s: String| s@,
        ).push(v@[i as int]@));
        i = i + 1;
    }
    assert(v@.take(v@.len() as int) =~= v@);
    r
}

pub proof fn lemma_normalize_idempotent(d: Seq<char>)
    ensures
        normalize_domain(normalize_domain(d)) == normalize_domain(d),
{
    let s = strip_dots(d);
    lemma_strip_dots_ends(d);
    let l = ascii_lower(s);
    assert(l.len() == s.len());
    if l.len() > 0 {
        assert(l.last() == crate::text::ascii_lower_char(s.last()));
        assert(l.last() != '.');
    }
    assert(strip_dots(l) == l);
    assert(ascii_lower(l) =~= l);
}

proof fn lemma_strip_dots_ends(d: Seq<char>)
    ensures
        strip_dots(d).len() == 0 || strip_dots(d).last() != '.',
    decreases d.len(),
{
    if d.len() > 0 && d.last() == '.' {
        lemma_strip_dots_ends(d.drop_last());
    }
}

fn normalize_all(v: &Vec<String>) -> (r: Vec<Vec<char>>)
    ensures
        views(r@) == v@.map_values(|s: String| normalize_domain(s@)),
        all_normalized(views(r@)),
{
    let mut r: Vec<Vec<char>> = Vec::new();
    let mut i: usize = 0;
    while i < v.len()
        invariant
            i <= v@.len(),
            views(r@) == v@.take(i as int).map_values(|s: String| normalize_domain(s@)),
            all_normalized(views(r@)),
        decreases v@.len() - i,
    {
        let n = normalize_domain_chars(&chars_of(v[i].as_str()));
        proof {
            lemma_normalize_idempotent(v@[i as int]@);
        }
        let ghost prev = r@;
        r.push(n);
        assert(views(r@) =~= views(prev).push(normalize_domain(v@[i as int]@)));
        assert(v@.take(i + 1).map_values(|s: String| normalize_domain(s@)) =~= v@.take(
            i as int,
        ).map_values(|s: String| normalize_domain(s@)).push(normalize_domain(v@[i as int]@)));
        i = i + 1;
    }
    assert(v@.take(v@.len() as int) =~= v@);
    r
}

impl FilterEngine {
    /// The stored domain sets hold normalized domains only.
    pub open spec fn wf(&self) -> bool {
        &&& all_normalized(self.block_domains())
        &&& all_normalized(self.allow_domains())
    }

    pub closed spec fn block_domains(&self) -> Seq<Seq<char>> {
        views(self.domain_blocklist@)
    }

    pub closed spec fn allow_domains(&self) -> Seq<Seq<char>> {
        views(self.domain_allowlist@)
    }

    pub closed spec fn pattern_rules(&self) -> Seq<Seq<char>> {
        views(self.patterns@)
    }

    /// The verdict of this store on `url`.
    pub open spec fn decides_block(&self, url: Seq<char>) -> bool {
        blocks(self.allow_domains(), self.block_domains(), self.pattern_rules(), url)
    }

    /// A store seeded with the given domains, normalized, and patterns.
    pub fn with_rules(
        block_domains: &Vec<String>,
        allow_domains: &Vec<String>,
        patterns: &Vec<String>,
    ) -> (r: Self)
        ensures
            r.wf(),
            r.block_domains() == block_domains@.map_values(|s: String| normalize_domain(s@)),
            r.allow_domains() == allow_domains@.map_values(|s: String| normalize_domain(s@)),
            r.pattern_rules() == patterns@.map_values(|s: String| s@),
    {
        FilterEngine {
            domain_blocklist: normalize_all(block_domains),
            domain_allowlist: normalize_all(allow_domains),
            patterns: to_chars_all(patterns),
        }
    }

    /// A store seeded with the built-in lists: five advertising and
    /// analytics domains blocked, two developer sites allowed, and the
    /// patterns `ads`, `analytics`, `tracking`, `adnxs`, `adsystem`.
    pub fn new() -> (r: Self)
        ensures
            r.wf(),
            r.block_domains() == seq![
                "googleadservices.com"@,
                "doubleclick.net"@,
                "googlesyndication.com"@,
                "facebook.com"@,
                "analytics.google.com"@,
            ].map_values(|s: Seq<char>| normalize_domain(s)),
            r.allow_domains() == seq!["github.com"@, "stackoverflow.com"@].map_values(
                |s: Seq<char>| normalize_domain(s),
            ),
            r.pattern_rules() == seq![
                "ads"@,
                "analytics"@,
                "tracking"@,
                "adnxs"@,
                "adsystem"@,
            ],
    {
        let block: Vec<String> = vec![
            "googleadservices.com".to_string(),
            "doubleclick.net".to_string(),
            "googlesyndication.com".to_string(),
            "facebook.com".to_string(),
            "analytics.google.com".to_string(),
        ];
        let allow: Vec<String> = vec!["github.com".to_string(), "stackoverflow.com".to_string()];
        let patterns: Vec<String> = vec![
            "ads".to_string(),
            "analytics".to_string(),
            "tracking".to_string(),
            "adnxs".to_string(),
            "adsystem".to_string(),
        ];
        let r = Self::with_rules(&block, &allow, &patterns);
        assert(r.block_domains() =~= seq![
            "googleadservices.com"@,
            "doubleclick.net"@,
            "googlesyndication.com"@,
            "facebook.com"@,
            "analytics.google.com"@,
        ].map_values(|s: Seq<char>| normalize_domain(s)));
        assert(r.allow_domains() =~= seq!["github.com"@, "stackoverflow.com"@].map_values(
            |s: Seq<char>| normalize_domain(s),
        ));
        assert(r.pattern_rules() =~= seq!["ads"@, "analytics"@, "tracking"@, "adnxs"@, "adsystem"@]);
        r
    }

    /// Rule refreshes run outside the request path, driven by the caller;
    /// there is nothing to start here.
    pub fn start_background_tasks(&self) -> (r: Result<(), crate::error::AuboError>)
        ensures
            r is Ok,
    {
        Ok(())
    }

    /// Counterpart of `start_background_tasks`; nothing to stop.
    pub fn stop_background_tasks(&self) -> (r: Result<(), crate::error::AuboError>)
        ensures
            r is Ok,
    {
        Ok(())
    }

    /// The number of rules in the store: domains of both sets and patterns
    /// (saturating at the largest `usize`).
    pub fn get_loaded_filter_count(&self) -> (r: usize)
        ensures
            r as int == rule_total(*self),
    {
        let a = self.domain_blocklist.len();
        let b = self.domain_allowlist.len();
        let c = self.patterns.len();
        if a > usize::MAX - b || a + b > usize::MAX - c {
            usize::MAX
        } else {
            a + b + c
        }
    }

    /// Whether the request should be blocked: the host in the allow set
    /// wins over everything, then the host in the block set, then any
    /// pattern matching the URL. A URL without a host is judged by the
    /// patterns alone; no input makes this fail.
    pub fn should_block(&self, url: &str, request_type: &str, origin: &str) -> (r: bool)
        ensures
            r == self.decides_block(url@),
            unparsable(url@) ==> r == blocks_with_host(
                self.allow_domains(),
                self.block_domains(),
                self.pattern_rules(),
                fallback_host(url@),
                url@,
            ),
    {
        let host = extract_domain(url);
        match &host {
            Some(h) => self.decide_for_host(Some(h.as_str()), url, request_type, origin),
            None => self.decide_for_host(None, url, request_type, origin),
        }
    }

    /// The verdict for a request whose extracted host is `host` (`None`
    /// where no host could be extracted): a host in the allow set is
    /// allowed, else a host in the block set is blocked, else the URL is
    /// blocked exactly when a pattern matches it.
    pub fn decide_for_host(
        &self,
        host: Option<&str>,
        url: &str,
        request_type: &str,
        origin: &str,
    ) -> (r: bool)
        ensures
            r == blocks_with_host(
                self.allow_domains(),
                self.block_domains(),
                self.pattern_rules(),
                match host {
                    Some(h) => Some(h@),
                    None => None,
                },
                url@,
            ),
    {
        match host {
            Some(h) => {
                let hc = chars_of(h);
                if member(&self.domain_allowlist, &hc) {
                    return false;
                }
                if member(&self.domain_blocklist, &hc) {
                    return true;
                }
            },
            None => {},
        }
        self.check_pattern_rules(url, request_type, origin)
    }

    /// Whether some pattern rule matches `url`.
    fn check_pattern_rules(&self, url: &str, _request_type: &str, _origin: &str) -> (r: bool)
        ensures
            r == any_pattern_hit(self.pattern_rules(), url@),
    {
        let url_chars = chars_of(url);
        let mut i: usize = 0;
        while i < self.patterns.len()
            invariant
                i <= self.patterns@.len(),
                url_chars@ == url@,
                forall|k: int|
                    0 <= k < i ==> !pattern_hit(#[trigger] self.pattern_rules()[k], url@),
            decreases self.patterns@.len() - i,
        {
            if hit(&self.patterns[i], url, &url_chars) {
                assert(pattern_hit(self.pattern_rules()[i as int], url@));
                return true;
            }
            i = i + 1;
        }
        false
    }

    /// Rebuilds the pattern rules from `base` and the block rules of a
    /// filter list, in order; allow rules of a list take no part in the
    /// verdict, the allow domain set being the only allow signal. The domain
    /// sets are kept. The new store is built aside and swapped in whole.
    pub fn load_rules(&mut self, base: &Vec<String>, rules: &Vec<ParsedRule>)
        requires
            old(self).wf(),
        ensures
            final(self).wf(),
            final(self).block_domains() == old(self).block_domains(),
            final(self).allow_domains() == old(self).allow_domains(),
            final(self).pattern_rules() == base@.map_values(|s: String| s@) + block_patterns(
                rules@,
            ),
    {
        let mut fresh = to_chars_all(base);
        let ghost start = views(fresh@);
        let mut i: usize = 0;
        assert(rules@.take(0) =~= Seq::<ParsedRule>::empty());
        while i < rules.len()
            invariant
                i <= rules@.len(),
                views(fresh@) == start + block_patterns(rules@.take(i as int)),
            decreases rules@.len() - i,
        {
            assert(rules@.take(i + 1).drop_last() =~= rules@.take(i as int));
            if matches!(rules[i].rule_type, RuleType::Block) {
                let p = chars_of(rules[i].pattern.as_str());
                let ghost prev = fresh@;
                fresh.push(p);
                assert(views(fresh@) =~= views(prev).push(rules@[i as int].pattern@));
                assert(views(fresh@) =~= start + block_patterns(rules@.take(i + 1)));
            }
            i = i + 1;
        }
        assert(rules@.take(rules@.len() as int) =~= rules@);
        self.patterns = fresh;
    }
}

/// The number of domains of both sets and patterns, at most the largest
/// `usize`.
pub open spec fn rule_total(e: FilterEngine) -> int {
    let n = e.block_domains().len() + e.allow_domains().len() + e.pattern_rules().len();
    if n > usize::MAX {
        usize::MAX as int
    } else {
        n as int
    }
}

/// The patterns of the block rules, in order.
pub open spec fn block_patterns(rules: Seq<ParsedRule>) -> Seq<Seq<char>>
    decreases rules.len(),
{
    if rules.len() == 0 {
        Seq::empty()
    } else if rules.last().rule_type == RuleType::Block {
        block_patterns(rules.drop_last()).push(rules.last().pattern@)
    } else {
        block_patterns(rules.drop_last())
    }
}

/// A malformed URL never fails the decision: where its fallback host (if
/// any) is in neither domain set and no pattern matches, it is allowed.
pub proof fn lemma_malformed_url_allowed(e: FilterEngine, url: Seq<char>)
    requires
        fallback_host(url) is None || (!e.allow_domains().contains(fallback_host(url)->0)
            && !e.block_domains().contains(fallback_host(url)->0)),
        !any_pattern_hit(e.pattern_rules(), url),
    ensures
        !blocks_with_host(e.allow_domains(), e.block_domains(), e.pattern_rules(), fallback_host(url), url),
{
}

/// A request whose host is in the allow set is allowed, whatever block
/// domain or pattern it also matches.
pub proof fn lemma_allow_dominates(e: FilterEngine, url: Seq<char>)
    requires
        request_host(url) is Some,
        e.allow_domains().contains(request_host(url)->0),
    ensures
        !e.decides_block(url),
{
}

/// A request whose host is in the block set and not in the allow set is
/// blocked.
pub proof fn lemma_block_domain(e: FilterEngine, url: Seq<char>)
    requires
        request_host(url) is Some,
        e.block_domains().contains(request_host(url)->0),
        !e.allow_domains().contains(request_host(url)->0),
    ensures
        e.decides_block(url),
{
}

/// Any other request is blocked exactly when some pattern matches its URL.
pub proof fn lemma_patterns_decide(e: FilterEngine, url: Seq<char>)
    requires
        request_host(url) is None || (!e.allow_domains().contains(request_host(url)->0)
            && !e.block_domains().contains(request_host(url)->0)),
    ensures
        e.decides_block(url) == (exists|i: int|
            0 <= i < e.pattern_rules().len() && pattern_hit(#[trigger] e.pattern_rules()[i], url)),
{
}

} // verus!
