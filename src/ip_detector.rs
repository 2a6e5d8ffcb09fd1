//! Public address detection: the text checks that an echo answer must pass,
//! the order in which the strategies are tried, and the shared cache.

use vstd::prelude::*;
use crate::error::AppError;
use crate::models::{clone_opt, opt_view, IPInfo};
use crate::text::{contains_char, parses_as_u8, split_on, trim_bounds, trimmed, range_parses_as_u8};

verus! {

/// An IPv4 address in dotted form: after trimming, no colon, and four
/// dot-separated pieces that each parse as a `u8`.
pub open spec fn valid_ipv4_text(s: Seq<char>) -> bool {
    let t = trimmed(s);
    let parts = split_on(t, '.');
    !contains_char(t, ':') && parts.len() == 4 && forall|k: int|
        0 <= k < 4 ==> #[trigger] parses_as_u8(parts[k])
}

/// An IPv6 address as the echo services write it: after trimming, it holds a
/// colon, and an opening bracket is matched by a closing one at the end.
pub open spec fn valid_ipv6_text(s: Seq<char>) -> bool {
    let t = trimmed(s);
    contains_char(t, ':') && (t.len() > 0 && t[0] == '[' ==> t.last() == ']')
}

/// The HTTP echo strategy: plain-text "what is my IP" endpoints.
pub struct ApiDetectionMethod;

impl ApiDetectionMethod {
    /// Whether `ip` is an IPv4 address in dotted decimal form.
    pub fn is_valid_ipv4(ip: &str) -> (r: bool)
        ensures
            r == valid_ipv4_text(ip@),
    {
        let (lo, hi) = trim_bounds(ip);
        let ghost t = ip@.subrange(lo as int, hi as int);
        let mut i = lo;
        let mut part_start = lo;
        let mut count: usize = 0;
        let mut ok = true;
        assert(ip@.subrange(lo as int, lo as int) =~= Seq::<char>::empty());
        while i < hi
            invariant
                lo <= part_start <= i <= hi <= ip@.len(),
                t == ip@.subrange(lo as int, hi as int),
                t == trimmed(ip@),
                count <= i - lo,
                split_on(ip@.subrange(lo as int, i as int), '.').len() == count + 1,
                split_on(ip@.subrange(lo as int, i as int), '.').last() == ip@.subrange(
                    part_start as int,
                    i as int,
                ),
                ok == forall|k: int|
                    0 <= k < count ==> #[trigger] parses_as_u8(
                        split_on(ip@.subrange(lo as int, i as int), '.')[k],
                    ),
                !contains_char(ip@.subrange(lo as int, i as int), ':'),
            decreases hi - i,
        {
            let c = ip.get_char(i);
            let ghost pre = ip@.subrange(lo as int, i as int);
            let ghost next = ip@.subrange(lo as int, i + 1);
            assert(next.drop_last() =~= pre);
            assert(next.last() == c);
            if c == ':' {
                assert(t[i - lo] == ':');
                assert(contains_char(t, ':'));
                assert(!valid_ipv4_text(ip@));
                return false;
            }
            if c == '.' {
                let piece_ok = range_parses_as_u8(ip, part_start, i);
                ok = ok && piece_ok;
                proof {
                    let old_parts = split_on(pre, '.');
                    let new_parts = split_on(next, '.');
                    assert(new_parts == old_parts.push(Seq::<char>::empty()));
                    assert forall|k: int| 0 <= k < count implies new_parts[k] == old_parts[k] by {}
                    assert(new_parts[count as int] == old_parts.last());
                }
                count = count + 1;
                part_start = i + 1;
                assert(ip@.subrange(part_start as int, i + 1) =~= Seq::<char>::empty());
            } else {
                proof {
                    let old_parts = split_on(pre, '.');
                    let new_parts = split_on(next, '.');
                    assert(new_parts == old_parts.update(
                        old_parts.len() - 1,
                        old_parts.last().push(c),
                    ));
                    assert forall|k: int| 0 <= k < count implies new_parts[k] == old_parts[k] by {}
                }
                assert(ip@.subrange(part_start as int, i + 1) =~= ip@.subrange(
                    part_start as int,
                    i as int,
                ).push(c));
            }
            assert forall|j: int| 0 <= j < next.len() implies next[j] != ':' by {
                if j < pre.len() {
                    assert(next[j] == pre[j]);
                }
            }
            i = i + 1;
        }
        assert(ip@.subrange(lo as int, i as int) =~= t);
        if count != 3 {
            return false;
        }
        let last_ok = range_parses_as_u8(ip, part_start, hi);
        ok && last_ok
    }

    /// Whether `ip` looks like an IPv6 address: it holds a colon and is not
    /// an unterminated bracketed form.
    pub fn is_valid_ipv6(ip: &str) -> (r: bool)
        ensures
            r == valid_ipv6_text(ip@),
    {
        let (lo, hi) = trim_bounds(ip);
        let ghost t = ip@.subrange(lo as int, hi as int);
        let mut i = lo;
        let mut has_colon = false;
        while i < hi
            invariant
                lo <= i <= hi <= ip@.len(),
                t == ip@.subrange(lo as int, hi as int),
                t == trimmed(ip@),
                has_colon == contains_char(ip@.subrange(lo as int, i as int), ':'),
            decreases hi - i,
        {
            let c = ip.get_char(i);
            let ghost pre = ip@.subrange(lo as int, i as int);
            let ghost next = ip@.subrange(lo as int, i + 1);
            assert(next =~= pre.push(c));
            if c == ':' {
                assert(next[i - lo] == ':');
            }
            proof {
                if contains_char(next, ':') && c != ':' {
                    let j = choose|j: int| 0 <= j < next.len() && next[j] == ':';
                    assert(pre[j] == ':');
                }
                if contains_char(pre, ':') {
                    let j = choose|j: int| 0 <= j < pre.len() && pre[j] == ':';
                    assert(next[j] == ':');
                }
            }
            has_colon = has_colon || c == ':';
            i = i + 1;
        }
        assert(ip@.subrange(lo as int, i as int) =~= t);
        if !has_colon {
            return false;
        }
        let opens = ip.get_char(lo) == '[';
        let closes = ip.get_char(hi - 1) == ']';
        !opens || closes
    }
}

/// The address family a detection asks for.
#[derive(Debug, Clone, Copy, PartialEq, Eq, Structural)]
pub enum IpFamily {
    V4,
    V6,
}

/// Whether `s` is a valid address of the family.
pub open spec fn valid_for(family: IpFamily, s: Seq<char>) -> bool {
    match family {
        IpFamily::V4 => valid_ipv4_text(s),
        IpFamily::V6 => valid_ipv6_text(s),
    }
}

/// The detection strategies, most authoritative first.
#[derive(Debug, Clone, Copy, PartialEq, Eq, Structural)]
pub enum Strategy {
    /// Plain-text echo endpoints over HTTP.
    Api,
    /// A resolver that answers with the querying client's address.
    Dns,
    /// The first non-loopback local interface address.
    Interface,
}

pub open spec fn strategy_name(s: Strategy) -> Seq<char> {
    match s {
        Strategy::Api => "api"@,
        Strategy::Dns => "dns"@,
        Strategy::Interface => "interface"@,
    }
}

impl Strategy {
    /// The name that `detection_method` carries for results of the strategy.
    pub fn method_name(&self) -> (r: &'static str)
        ensures
            r@ == strategy_name(*self),
    {
        match self {
            Strategy::Api => "api",
            Strategy::Dns => "dns",
            Strategy::Interface => "interface",
        }
    }
}

/// One outside step of a detection.
#[derive(Debug, Clone, Copy, PartialEq, Eq, Structural)]
pub enum Probe {
    /// Fetch the echo endpoint with this index in the family's list.
    Http(usize),
    /// Resolve the well-known name through the echoing resolver.
    Dns,
    /// Read the local interface address.
    Interface,
}

pub open spec fn probe_strategy(p: Probe) -> Strategy {
    match p {
        Probe::Http(_) => Strategy::Api,
        Probe::Dns => Strategy::Dns,
        Probe::Interface => Strategy::Interface,
    }
}

/// How many echo endpoints a family has.
pub open spec fn endpoint_count(family: IpFamily) -> nat {
    match family {
        IpFamily::V4 => 4,
        IpFamily::V6 => 2,
    }
}

/// The probes of a detection in the order they are tried: every echo
/// endpoint, then the resolver, then the local interface.
pub open spec fn probe_plan(family: IpFamily) -> Seq<Probe> {
    Seq::new(endpoint_count(family), |i: int| Probe::Http(i as usize)) + seq![
        Probe::Dns,
        Probe::Interface,
    ]
}

/// The echo endpoints of a family, in the order they are tried.
pub fn http_endpoints(family: IpFamily) -> (r: Vec<&'static str>)
    ensures
        r@.len() == endpoint_count(family),
{
    match family {
        IpFamily::V4 => vec![
            "https://api.ipify.org",
            "https://checkip.amazonaws.com",
            "https://icanhazip.com",
            "https://ifconfig.me/ip",
        ],
        IpFamily::V6 => vec!["https://api64.ipify.org", "https://ifconfig.me/ip"],
    }
}

/// The name whose A or AAAA record the echoing resolver answers with the
/// client's own address.
pub fn dns_echo_host() -> (r: &'static str)
    ensures
        r@ == "myip.opendns.com"@,
{
    "myip.opendns.com"
}

/// Whether `ip` is a valid address of the family.
pub fn is_valid_for(family: IpFamily, ip: &str) -> (r: bool)
    ensures
        r == valid_for(family, ip@),
{
    match family {
        IpFamily::V4 => ApiDetectionMethod::is_valid_ipv4(ip),
        IpFamily::V6 => ApiDetectionMethod::is_valid_ipv6(ip),
    }
}

/// The text with surrounding whitespace removed.
pub fn trim_text(s: &str) -> (r: String)
    ensures
        r@ == trimmed(s@),
{
    let (lo, hi) = trim_bounds(s);
    s.substring_char(lo, hi).to_string()
}

/// A detection in progress: the family asked for and how many probes of the
/// plan have failed so far.
pub struct DetectionRun {
    family: IpFamily,
    step: usize,
}

/// A snapshot with `ip` in the field of the family and nothing in the other.
pub open spec fn holds_only(info: IPInfo, family: IpFamily, ip: Seq<char>) -> bool {
    match family {
        IpFamily::V4 => opt_view(info.ipv4) == Some(ip) && info.ipv6.is_none(),
        IpFamily::V6 => opt_view(info.ipv6) == Some(ip) && info.ipv4.is_none(),
    }
}

/// A snapshot holding `ip` for the family.
pub fn snapshot_for(family: IpFamily, ip: String, method: String, now: i64) -> (r: IPInfo)
    ensures
        holds_only(r, family, ip@),
        r.detection_method == method,
        r.timestamp == now,
{
    match family {
        IpFamily::V4 => IPInfo::new_at(Some(ip), None, method, now),
        IpFamily::V6 => IPInfo::new_at(None, Some(ip), method, now),
    }
}

impl DetectionRun {
    pub closed spec fn family(&self) -> IpFamily {
        self.family
    }

    /// How many probes have failed.
    pub closed spec fn step(&self) -> nat {
        self.step as nat
    }

    /// A detection that has tried nothing yet.
    pub fn begin(family: IpFamily) -> (r: Self)
        ensures
            r.family() == family,
            r.step() == 0,
    {
        DetectionRun { family, step: 0 }
    }

    pub fn family_of(&self) -> (r: IpFamily)
        ensures
            r == self.family(),
    {
        self.family
    }

    /// The probe to run next, or `None` once every strategy has failed.
    pub fn next_probe(&self) -> (r: Option<Probe>)
        ensures
            self.step() < probe_plan(self.family()).len() ==> r == Some(
                probe_plan(self.family())[self.step() as int],
            ),
            self.step() >= probe_plan(self.family()).len() ==> r.is_none(),
    {
        let n: usize = match self.family {
            IpFamily::V4 => 4,
            IpFamily::V6 => 2,
        };
        let ghost plan = probe_plan(self.family);
        if self.step < n {
            assert(plan[self.step as int] == Probe::Http(self.step));
            Some(Probe::Http(self.step))
        } else if self.step == n {
            assert(plan[self.step as int] == Probe::Dns);
            Some(Probe::Dns)
        } else if self.step == n + 1 {
            assert(plan[self.step as int] == Probe::Interface);
            Some(Probe::Interface)
        } else {
            None
        }
    }

    /// Takes the answer of the probe that `next_probe` named: `None` when it
    /// failed, else the text it returned. A text that, once trimmed, is a
    /// valid address of the family ends the detection with a snapshot tagged
    /// with the probe's strategy; anything else moves on to the next probe.
    pub fn on_answer(&mut self, answer: Option<String>, now: i64) -> (r: Option<IPInfo>)
        requires
            old(self).step() < probe_plan(old(self).family()).len(),
        ensures
            final(self).family() == old(self).family(),
            ({
                let probe = probe_plan(old(self).family())[old(self).step() as int];
                match answer {
                    Some(a) if valid_for(old(self).family(), a@) => {
                        &&& r.is_some()
                        &&& holds_only(r.unwrap(), old(self).family(), trimmed(a@))
                        &&& r.unwrap().detection_method@ == strategy_name(probe_strategy(probe))
                        &&& r.unwrap().timestamp == now
                        &&& final(self).step() == old(self).step()
                    },
                    _ => r.is_none() && final(self).step() == old(self).step() + 1,
                }
            }),
    {
        let probe = match self.next_probe() {
            Some(p) => p,
            None => return None,
        };
        let accepted = match &answer {
            Some(a) => is_valid_for(self.family, a.as_str()),
            None => false,
        };
        if !accepted {
            self.step = self.step + 1;
            return None;
        }
        let text = match answer {
            Some(a) => a,
            None => return None,
        };
        let ip = trim_text(text.as_str());
        let strategy = match probe {
            Probe::Http(_) => Strategy::Api,
            Probe::Dns => Strategy::Dns,
            Probe::Interface => Strategy::Interface,
        };
        Some(snapshot_for(self.family, ip, strategy.method_name().to_string(), now))
    }

    /// The error a detection ends with once every strategy has failed.
    pub fn exhausted_error(&self) -> (r: AppError)
        ensures
            r is IPDetection,
    {
        AppError::IPDetection("every detection strategy failed".to_string())
    }
}

/// When every echo endpoint has failed, the resolver is tried next and the
/// local interface only after it; each probe's result is tagged with the
/// strategy that ran it.
pub proof fn lemma_fallback_order(family: IpFamily)
    ensures
        forall|i: int| 0 <= i < endpoint_count(family) ==> probe_strategy(#[trigger] probe_plan(family)[i]) == Strategy::Api,
        probe_plan(family)[endpoint_count(family) as int] == Probe::Dns,
        probe_plan(family)[endpoint_count(family) + 1int] == Probe::Interface,
        probe_plan(family).len() == endpoint_count(family) + 2,
{
    let plan = probe_plan(family);
    assert forall|i: int| 0 <= i < endpoint_count(family) implies probe_strategy(#[trigger] plan[i]) == Strategy::Api by {
        assert(plan[i] == Probe::Http(i as usize));
    }
}

/// The abstract content of the address cache.
pub struct CacheView {
    pub ipv4: Option<Seq<char>>,
    pub ipv6: Option<Seq<char>>,
    pub captured_at: int,
    pub ttl: int,
}

/// What a lookup at time `now` finds for the family: the cached address,
/// while the entry is younger than its time to live.
pub open spec fn cache_lookup(c: CacheView, family: IpFamily, now: int) -> Option<Seq<char>> {
    if now - c.captured_at < c.ttl {
        match family {
            IpFamily::V4 => c.ipv4,
            IpFamily::V6 => c.ipv6,
        }
    } else {
        None
    }
}

/// The cache after a fresh detection of `ip` at time `now`: only the
/// family's field changes, and the capture time is refreshed.
pub open spec fn cache_recorded(c: CacheView, family: IpFamily, ip: Seq<char>, now: int) -> CacheView {
    match family {
        IpFamily::V4 => CacheView { ipv4: Some(ip), captured_at: now, ..c },
        IpFamily::V6 => CacheView { ipv6: Some(ip), captured_at: now, ..c },
    }
}

/// The cache after it was cleared.
pub open spec fn cache_cleared(c: CacheView) -> CacheView {
    CacheView { ipv4: None, ipv6: None, captured_at: 0, ttl: c.ttl }
}

/// The shared address cache.
#[derive(Debug, Clone)]
pub struct IPCache {
    ipv4: Option<String>,
    ipv6: Option<String>,
    timestamp: i64,
    ttl: i64,
}

impl IPCache {
    pub closed spec fn view(&self) -> CacheView {
        CacheView {
            ipv4: opt_view(self.ipv4),
            ipv6: opt_view(self.ipv6),
            captured_at: self.timestamp as int,
            ttl: self.ttl as int,
        }
    }

    /// An empty cache whose entries live `ttl` seconds.
    pub fn new(ttl: i64) -> (r: Self)
        ensures
            r.view() == (CacheView { ipv4: None, ipv6: None, captured_at: 0, ttl: ttl as int }),
    {
        IPCache { ipv4: None, ipv6: None, timestamp: 0, ttl }
    }

    /// Whether the entry is still fresh at time `now`.
    pub fn is_valid_at(&self, now: i64) -> (r: bool)
        ensures
            r == (now - self.view().captured_at < self.view().ttl),
    {
        (now as i128) - (self.timestamp as i128) < self.ttl as i128
    }

    /// The cached address of the family at time `now`, if fresh, as a
    /// snapshot tagged `cache`.
    pub fn lookup_at(&self, family: IpFamily, now: i64) -> (r: Option<IPInfo>)
        ensures
            match cache_lookup(self.view(), family, now as int) {
                Some(ip) => r.is_some() && holds_only(r.unwrap(), family, ip) && r.unwrap().detection_method@ == "cache"@,
                None => r.is_none(),
            },
    {
        if !self.is_valid_at(now) {
            return None;
        }
        let hit = match family {
            IpFamily::V4 => clone_opt(&self.ipv4),
            IpFamily::V6 => clone_opt(&self.ipv6),
        };
        match hit {
            Some(ip) => Some(snapshot_for(family, ip, "cache".to_string(), now)),
            None => None,
        }
    }

    /// Records a fresh detection of `ip` at time `now`.
    pub fn record(&mut self, family: IpFamily, ip: String, now: i64)
        ensures
            final(self).view() == cache_recorded(old(self).view(), family, ip@, now as int),
    {
        match family {
            IpFamily::V4 => self.ipv4 = Some(ip),
            IpFamily::V6 => self.ipv6 = Some(ip),
        }
        self.timestamp = now;
    }

    /// Forgets every cached address.
    pub fn clear(&mut self)
        ensures
            final(self).view() == cache_cleared(old(self).view()),
    {
        self.ipv4 = None;
        self.ipv6 = None;
        self.timestamp = 0;
    }
}

/// A second lookup within the time to live finds exactly the address that
/// the fresh detection recorded, so no probe runs.
pub proof fn lemma_cache_hit_within_ttl(c: CacheView, family: IpFamily, ip: Seq<char>, t: int, later: int)
    requires
        t <= later,
        later - t < c.ttl,
    ensures
        cache_lookup(cache_recorded(c, family, ip, t), family, later) == Some(ip),
{
}

/// Once the time to live has passed, a lookup finds nothing and detection
/// runs again.
pub proof fn lemma_cache_miss_after_ttl(c: CacheView, family: IpFamily, ip: Seq<char>, t: int, later: int)
    requires
        later - t >= c.ttl,
    ensures
        cache_lookup(cache_recorded(c, family, ip, t), family, later).is_none(),
{
}

/// After clearing, a lookup finds nothing and detection runs again.
pub proof fn lemma_cache_miss_after_clear(c: CacheView, family: IpFamily, now: int)
    ensures
        cache_lookup(cache_cleared(c), family, now).is_none(),
{
}

/// A fresh detection of one family keeps the other family's cached address.
pub proof fn lemma_record_keeps_other_family(c: CacheView, ip: Seq<char>, now: int)
    ensures
        cache_recorded(c, IpFamily::V4, ip, now).ipv6 == c.ipv6,
        cache_recorded(c, IpFamily::V6, ip, now).ipv4 == c.ipv4,
{
}

/// How a detection starts: with a cached snapshot, or with a run of probes.
pub enum DetectStart {
    Cached(IPInfo),
    Probe(DetectionRun),
}

/// The detection service: the strategies in their order, and the shared
/// cache.
pub struct IPDetectorService {
    pub cache: IPCache,
}

impl IPDetectorService {
    /// A service whose cache entries live 60 seconds.
    pub fn new() -> (r: Self)
        ensures
            r.cache.view() == (CacheView { ipv4: None, ipv6: None, captured_at: 0, ttl: 60 }),
    {
        IPDetectorService::with_cache_ttl(60)
    }

    /// A service whose cache entries live `ttl` seconds.
    pub fn with_cache_ttl(ttl: i64) -> (r: Self)
        ensures
            r.cache.view() == (CacheView { ipv4: None, ipv6: None, captured_at: 0, ttl: ttl as int }),
    {
        IPDetectorService { cache: IPCache::new(ttl) }
    }

    /// Starts a detection of the family at time `now`: a fresh cache entry
    /// answers at once; otherwise a run of probes begins.
    pub fn begin_detect(&self, family: IpFamily, now: i64) -> (r: DetectStart)
        ensures
            match cache_lookup(self.cache.view(), family, now as int) {
                Some(ip) => r is Cached && holds_only(r->Cached_0, family, ip)
                    && r->Cached_0.detection_method@ == "cache"@,
                None => r is Probe && r->Probe_0.family() == family && r->Probe_0.step() == 0,
            },
    {
        match self.cache.lookup_at(family, now) {
            Some(info) => DetectStart::Cached(info),
            None => DetectStart::Probe(DetectionRun::begin(family)),
        }
    }

    /// Records the address a run found, so later lookups hit the cache.
    pub fn finish_detect(&mut self, family: IpFamily, ip: String, now: i64)
        ensures
            final(self).cache.view() == cache_recorded(old(self).cache.view(), family, ip@, now as int),
    {
        self.cache.record(family, ip, now);
    }

    /// Forgets every cached address, so the next detection probes again.
    pub fn clear_cache(&mut self)
        ensures
            final(self).cache.view() == cache_cleared(old(self).cache.view()),
    {
        self.cache.clear();
    }

    /// Joins the results of the two families' detections: succeeds when at
    /// least one family resolved, tagged `combined`.
    pub fn combine_all(v4: Result<IPInfo, AppError>, v6: Result<IPInfo, AppError>, now: i64) -> (r: Result<IPInfo, AppError>)
        ensures
            ({
                let a = match v4 { Ok(i) => i.ipv4, Err(_) => None };
                let b = match v6 { Ok(i) => i.ipv6, Err(_) => None };
                if a.is_none() && b.is_none() {
                    r is Err && r->Err_0 is IPDetection
                } else {
                    r is Ok && r->Ok_0.ipv4 == a && r->Ok_0.ipv6 == b
                        && r->Ok_0.detection_method@ == "combined"@ && r->Ok_0.timestamp == now
                }
            }),
    {
        let a = match v4 {
            Ok(i) => i.ipv4,
            Err(_) => None,
        };
        let b = match v6 {
            Ok(i) => i.ipv6,
            Err(_) => None,
        };
        if a.is_none() && b.is_none() {
            return Err(AppError::IPDetection("no address detected".to_string()));
        }
        Ok(IPInfo::new_at(a, b, "combined".to_string(), now))
    }
}

} // verus!
