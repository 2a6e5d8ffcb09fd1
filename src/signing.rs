//! Canonical request signing shared by the HMAC-signed vendors: a parameter
//! set with unique keys, its canonical query string (empty values dropped,
//! keys sorted, keys and values percent-encoded per RFC 3986, pairs joined
//! with `&`), and the HMAC-SHA1 signature over the vendor's string to sign.

use base64::Engine;
use hmac::Mac;
use vstd::prelude::*;
use vstd::utf8::encode_utf8;
use crate::text::str_eq;

verus! {

// ---------------------------------------------------------------------------
// Percent-encoding.
// ---------------------------------------------------------------------------

/// The upper-case hexadecimal digit of `n` (below 16).
pub open spec fn hex_upper(n: u8) -> char {
    if n < 10 {
        ((48 + n) as u8) as char
    } else {
        ((55 + n) as u8) as char
    }
}

/// ASCII letters and digits.
pub open spec fn is_alnum_byte(b: u8) -> bool {
    (48 <= b <= 57) || (65 <= b <= 90) || (97 <= b <= 122)
}

/// The unreserved marks of RFC 3986: `-`, `.`, `_` and `~`.
pub open spec fn is_mark_byte(b: u8) -> bool {
    b == 45 || b == 46 || b == 95 || b == 126
}

/// One byte, kept when unreserved, else written `%XX`.
pub open spec fn escape_byte(b: u8) -> Seq<char> {
    if is_alnum_byte(b) || is_mark_byte(b) {
        seq![b as char]
    } else {
        seq!['%', hex_upper(b / 16), hex_upper(b % 16)]
    }
}

pub open spec fn escape_bytes(bs: Seq<u8>) -> Seq<char>
    decreases bs.len(),
{
    if bs.len() == 0 {
        Seq::empty()
    } else {
        escape_bytes(bs.drop_last()) + escape_byte(bs.last())
    }
}

/// The RFC 3986 percent-encoding of a text's UTF-8 bytes: every byte but
/// the unreserved ones becomes `%` and two upper-case hex digits.
pub open spec fn rfc3986_encoded(s: Seq<char>) -> Seq<char> {
    escape_bytes(encode_utf8(s))
}

/// Relies on urlencoding's `encode`: every byte of the UTF-8 form except
/// ASCII letters, digits and `-`, `.`, `_`, `~` becomes `%` and two
/// upper-case hex digits.
#[verifier::external_body]
pub(crate) fn url_encode_text(s: &str) -> (r: String)
    ensures
        r@ == rfc3986_encoded(s@),
{
    urlencoding::encode(s).into_owned()
}

// ---------------------------------------------------------------------------
// Digest and text encoding of the signature.
// ---------------------------------------------------------------------------

/// What HMAC-SHA1 computes for a key and a message.
pub uninterp spec fn hmac_sha1_of(key: Seq<u8>, data: Seq<u8>) -> Seq<u8>;

/// What standard base64 (with padding) writes for some bytes.
pub uninterp spec fn base64_of(data: Seq<u8>) -> Seq<char>;

/// Relies on hmac's `Hmac<Sha1>`: keyed with `key` (any length is
/// accepted), fed `data`, its 20-byte tag.
#[verifier::external_body]
fn hmac_sha1(key: &[u8], data: &[u8]) -> (r: Vec<u8>)
    ensures
        r@ == hmac_sha1_of(key@, data@),
        r@.len() == 20,
{
    let mut mac = <hmac::Hmac<sha1::Sha1> as Mac>::new_from_slice(key).expect("any key length");
    mac.update(data);
    mac.finalize().into_bytes().to_vec()
}

/// Relies on base64's `STANDARD` engine: the padded standard encoding.
#[verifier::external_body]
fn base64_encode(data: &[u8]) -> (r: String)
    ensures
        r@ == base64_of(data@),
{
    base64::engine::general_purpose::STANDARD.encode(data)
}

/// The signature of a string to sign under a shared secret: HMAC-SHA1 keyed
/// with the secret followed by `&`, base64-encoded.
pub open spec fn signature_of(secret: Seq<char>, string_to_sign: Seq<char>) -> Seq<char> {
    base64_of(hmac_sha1_of(encode_utf8(secret + "&"@), encode_utf8(string_to_sign)))
}

/// Signs `string_to_sign` with `secret`.
pub fn sign(secret: &str, string_to_sign: &str) -> (r: String)
    ensures
        r@ == signature_of(secret@, string_to_sign@),
{
    let key = secret.to_string().concat("&");
    let mac = hmac_sha1(key.as_str().as_bytes(), string_to_sign.as_bytes());
    base64_encode(mac.as_slice())
}

// ---------------------------------------------------------------------------
// Key order.
// ---------------------------------------------------------------------------

/// Lexicographic order on texts, character by character; it agrees with the
/// byte order of their UTF-8 forms.
pub open spec fn key_lt(a: Seq<char>, b: Seq<char>) -> bool
    decreases a.len(),
{
    if a.len() == 0 {
        b.len() > 0
    } else if b.len() == 0 {
        false
    } else if a[0] != b[0] {
        a[0] < b[0]
    } else {
        key_lt(a.drop_first(), b.drop_first())
    }
}

proof fn lemma_key_lt_total(a: Seq<char>, b: Seq<char>)
    requires
        a != b,
    ensures
        key_lt(a, b) || key_lt(b, a),
    decreases a.len(),
{
    if a.len() == 0 {
        if b.len() == 0 {
            assert(a =~= b);
        }
    } else if b.len() == 0 {
    } else if a[0] == b[0] {
        if a.drop_first() =~= b.drop_first() {
            assert forall|i: int| 0 <= i < a.len() implies a[i] == b[i] by {
                if i > 0 {
                    assert(a[i] == a.drop_first()[i - 1]);
                    assert(b[i] == b.drop_first()[i - 1]);
                }
            }
            assert(a =~= b);
        } else {
            lemma_key_lt_total(a.drop_first(), b.drop_first());
        }
    }
}

proof fn lemma_key_lt_irreflexive(a: Seq<char>)
    ensures
        !key_lt(a, a),
    decreases a.len(),
{
    if a.len() > 0 {
        lemma_key_lt_irreflexive(a.drop_first());
    }
}

proof fn lemma_key_lt_transitive(a: Seq<char>, b: Seq<char>, c: Seq<char>)
    requires
        key_lt(a, b),
        key_lt(b, c),
    ensures
        key_lt(a, c),
    decreases a.len(),
{
    if a.len() > 0 && b.len() > 0 && c.len() > 0 && a[0] == b[0] && b[0] == c[0] {
        lemma_key_lt_transitive(a.drop_first(), b.drop_first(), c.drop_first());
    }
}

/// Whether `a` orders before `b`.
pub fn key_less(a: &str, b: &str) -> (r: bool)
    ensures
        r == key_lt(a@, b@),
{
    let n = a.unicode_len();
    let m = b.unicode_len();
    let mut i: usize = 0;
    assert(a@.subrange(0, n as int) =~= a@);
    assert(b@.subrange(0, m as int) =~= b@);
    while i < n && i < m && a.get_char(i) == b.get_char(i)
        invariant
            n == a@.len(),
            m == b@.len(),
            i <= n,
            i <= m,
            key_lt(a@, b@) == key_lt(a@.subrange(i as int, n as int), b@.subrange(i as int, m as int)),
        decreases n - i,
    {
        let ghost sa = a@.subrange(i as int, n as int);
        let ghost sb = b@.subrange(i as int, m as int);
        assert(sa.drop_first() =~= a@.subrange(i + 1, n as int));
        assert(sb.drop_first() =~= b@.subrange(i + 1, m as int));
        i = i + 1;
    }
    if i == n {
        i < m
    } else if i == m {
        false
    } else {
        let ghost sa = a@.subrange(i as int, n as int);
        let ghost sb = b@.subrange(i as int, m as int);
        assert(sa[0] == a@[i as int]);
        assert(sb[0] == b@[i as int]);
        a.get_char(i) < b.get_char(i)
    }
}

// ---------------------------------------------------------------------------
// Parameter sets.
// ---------------------------------------------------------------------------

pub open spec fn pair_view(p: (String, String)) -> (Seq<char>, Seq<char>) {
    (p.0@, p.1@)
}

pub open spec fn pairs_view(v: Seq<(String, String)>) -> Seq<(Seq<char>, Seq<char>)> {
    v.map_values(|p: (String, String)| pair_view(p))
}

pub open spec fn keys_distinct(s: Seq<(Seq<char>, Seq<char>)>) -> bool {
    forall|i: int, j: int| 0 <= i < s.len() && 0 <= j < s.len() && i != j ==> s[i].0 != s[j].0
}

/// Each key orders before the next one.
pub open spec fn sorted_by_key(s: Seq<(Seq<char>, Seq<char>)>) -> bool {
    forall|i: int| 0 <= i < s.len() - 1 ==> #[trigger] key_lt(s[i].0, s[i + 1].0)
}

/// `s` lists exactly the pairs of `params` whose value is not empty, in key
/// order.
pub open spec fn is_canonical_listing(
    s: Seq<(Seq<char>, Seq<char>)>,
    params: Seq<(Seq<char>, Seq<char>)>,
) -> bool {
    &&& sorted_by_key(s)
    &&& forall|p: (Seq<char>, Seq<char>)| s.contains(p) <==> (params.contains(p) && p.1.len() > 0)
}

/// `key=value`, both encoded.
pub open spec fn encoded_pair(p: (Seq<char>, Seq<char>)) -> Seq<char> {
    rfc3986_encoded(p.0) + "="@ + rfc3986_encoded(p.1)
}

/// The encoded pairs joined with `&`.
pub open spec fn query_of(s: Seq<(Seq<char>, Seq<char>)>) -> Seq<char>
    decreases s.len(),
{
    if s.len() == 0 {
        Seq::empty()
    } else if s.len() == 1 {
        encoded_pair(s[0])
    } else {
        query_of(s.drop_last()) + "&"@ + encoded_pair(s.last())
    }
}

/// The canonical query strings of a parameter set: those of its canonical
/// listings (there is exactly one: see `lemma_canonical_query_unique`).
pub open spec fn is_canonical_query(q: Seq<char>, params: Seq<(Seq<char>, Seq<char>)>) -> bool {
    exists|s: Seq<(Seq<char>, Seq<char>)>| is_canonical_listing(s, params) && q == query_of(s)
}

proof fn lemma_sorted_strict(s: Seq<(Seq<char>, Seq<char>)>, i: int, j: int)
    requires
        sorted_by_key(s),
        0 <= i < j < s.len(),
    ensures
        key_lt(s[i].0, s[j].0),
    decreases j - i,
{
    if j > i + 1 {
        lemma_sorted_strict(s, i, j - 1);
        assert(key_lt(s[j - 1].0, s[j - 1 + 1].0));
        lemma_key_lt_transitive(s[i].0, s[j - 1].0, s[j].0);
    }
}

proof fn lemma_sorted_tail(s: Seq<(Seq<char>, Seq<char>)>)
    requires
        sorted_by_key(s),
        s.len() > 0,
    ensures
        sorted_by_key(s.drop_first()),
        !s.drop_first().contains(s[0]),
        forall|p: (Seq<char>, Seq<char>)| s.drop_first().contains(p) <==> (s.contains(p) && p != s[0]),
{
    let t = s.drop_first();
    assert forall|i: int| 0 <= i < t.len() - 1 implies #[trigger] key_lt(t[i].0, t[i + 1].0) by {
        assert(key_lt(s[i + 1].0, s[i + 1 + 1].0));
    }
    assert forall|p: (Seq<char>, Seq<char>)| t.contains(p) <==> (s.contains(p) && p != s[0]) by {
        if t.contains(p) {
            let k = choose|k: int| 0 <= k < t.len() && t[k] == p;
            assert(s[k + 1] == p);
            lemma_sorted_strict(s, 0, k + 1);
            lemma_key_lt_irreflexive(s[0].0);
        }
        if s.contains(p) && p != s[0] {
            let k = choose|k: int| 0 <= k < s.len() && s[k] == p;
            assert(t[k - 1] == p);
        }
    }
}

/// Two key-sorted listings with the same pairs are the same listing.
proof fn lemma_sorted_listing_unique(s1: Seq<(Seq<char>, Seq<char>)>, s2: Seq<(Seq<char>, Seq<char>)>)
    requires
        sorted_by_key(s1),
        sorted_by_key(s2),
        forall|p: (Seq<char>, Seq<char>)| s1.contains(p) <==> s2.contains(p),
    ensures
        s1 == s2,
    decreases s1.len(),
{
    if s1.len() == 0 {
        if s2.len() > 0 {
            assert(s2.contains(s2[0]));
        }
        assert(s1 =~= s2);
    } else {
        assert(s1.contains(s1[0]));
        let k = choose|k: int| 0 <= k < s2.len() && s2[k] == s1[0];
        assert(s2.contains(s2[0]));
        let m = choose|m: int| 0 <= m < s1.len() && s1[m] == s2[0];
        if k > 0 {
            lemma_sorted_strict(s2, 0, k);
            if m > 0 {
                lemma_sorted_strict(s1, 0, m);
                lemma_key_lt_transitive(s1[0].0, s2[0].0, s1[0].0);
            }
            lemma_key_lt_irreflexive(s1[0].0);
        }
        assert(s1[0] == s2[0]);
        lemma_sorted_tail(s1);
        lemma_sorted_tail(s2);
        assert forall|p: (Seq<char>, Seq<char>)| s1.drop_first().contains(p) <==> s2.drop_first().contains(p) by {
            assert(s1.drop_first().contains(p) <==> (s1.contains(p) && p != s1[0]));
            assert(s2.drop_first().contains(p) <==> (s2.contains(p) && p != s2[0]));
        }
        lemma_sorted_listing_unique(s1.drop_first(), s2.drop_first());
        assert(s1 =~= seq![s1[0]] + s1.drop_first());
        assert(s2 =~= seq![s2[0]] + s2.drop_first());
    }
}

/// The canonical query string of a parameter set.
pub open spec fn canonical_query_of(params: Seq<(Seq<char>, Seq<char>)>) -> Seq<char> {
    query_of(choose|s: Seq<(Seq<char>, Seq<char>)>| is_canonical_listing(s, params))
}

/// A parameter set has one canonical query string: the signature computed
/// over it depends on the set alone, not on the order the fields were set.
pub proof fn lemma_canonical_query_unique(
    q1: Seq<char>,
    q2: Seq<char>,
    params: Seq<(Seq<char>, Seq<char>)>,
)
    requires
        is_canonical_query(q1, params),
        is_canonical_query(q2, params),
    ensures
        q1 == q2,
{
    let s1 = choose|s: Seq<(Seq<char>, Seq<char>)>| is_canonical_listing(s, params) && q1 == query_of(s);
    let s2 = choose|s: Seq<(Seq<char>, Seq<char>)>| is_canonical_listing(s, params) && q2 == query_of(s);
    lemma_sorted_listing_unique(s1, s2);
}

/// Request parameters, at most one value per key, in insertion order.
pub struct ParamSet {
    entries: Vec<(String, String)>,
}

impl ParamSet {
    pub closed spec fn view(&self) -> Seq<(Seq<char>, Seq<char>)> {
        pairs_view(self.entries@)
    }

    pub closed spec fn wf(&self) -> bool {
        keys_distinct(self.view())
    }

    /// The value of `key` among the pairs, if set.
    pub open spec fn value_of_seq(s: Seq<(Seq<char>, Seq<char>)>, key: Seq<char>) -> Option<Seq<char>> {
        if exists|i: int| 0 <= i < s.len() && s[i].0 == key {
            Some(s[choose|i: int| 0 <= i < s.len() && s[i].0 == key].1)
        } else {
            None
        }
    }

    /// The value of `key`, if set.
    pub open spec fn value_of(&self, key: Seq<char>) -> Option<Seq<char>> {
        ParamSet::value_of_seq(self.view(), key)
    }

    /// Whether `key` is set.
    pub fn contains_key(&self, key: &str) -> (r: bool)
        ensures
            r == self.value_of(key@).is_some(),
    {
        match self.find(key) {
            Some(_) => true,
            None => false,
        }
    }

    /// An empty set.
    pub fn new() -> (r: Self)
        ensures
            r.wf(),
            r.view().len() == 0,
    {
        let r = ParamSet { entries: Vec::new() };
        assert(r.view() =~= Seq::<(Seq<char>, Seq<char>)>::empty());
        r
    }

    /// The position of `key`, if set.
    fn find(&self, key: &str) -> (r: Option<usize>)
        ensures
            match r {
                Some(i) => i < self.view().len() && self.view()[i as int].0 == key@,
                None => forall|i: int| 0 <= i < self.view().len() ==> self.view()[i].0 != key@,
            },
    {
        let mut i: usize = 0;
        while i < self.entries.len()
            invariant
                i <= self.entries@.len(),
                self.view().len() == self.entries@.len(),
                forall|k: int| 0 <= k < i ==> self.view()[k].0 != key@,
            decreases self.entries@.len() - i,
        {
            if str_eq(self.entries[i].0.as_str(), key) {
                assert(self.view()[i as int] == pair_view(self.entries@[i as int]));
                return Some(i);
            }
            assert(self.view()[i as int] == pair_view(self.entries@[i as int]));
            i = i + 1;
        }
        None
    }

    /// Sets `key` to `value`, replacing an earlier value of the key.
    pub fn insert(&mut self, key: String, value: String)
        requires
            old(self).wf(),
        ensures
            final(self).wf(),
            final(self).value_of(key@) == Some(value@),
            forall|k: Seq<char>| k != key@ ==> final(self).value_of(k) == old(self).value_of(k),
            forall|i: int| 0 <= i < old(self).view().len() && old(self).view()[i].0 == key@
                ==> final(self).view() == old(self).view().update(i, (key@, value@)),
            (forall|i: int| 0 <= i < old(self).view().len() ==> old(self).view()[i].0 != key@)
                ==> final(self).view() == old(self).view().push((key@, value@)),
    {
        let ghost before = self.view();
        let ghost k0 = key@;
        let ghost v0 = value@;
        let ghost at: int;
        match self.find(key.as_str()) {
            Some(i) => {
                self.entries.set(i, (key, value));
                assert(self.view() =~= before.update(i as int, (k0, v0)));
                assert forall|j: int| 0 <= j < before.len() && before[j].0 == k0 implies j == i by {
                }
                proof { at = i as int; }
            },
            None => {
                self.entries.push((key, value));
                assert(self.view() =~= before.push((k0, v0)));
                proof { at = before.len() as int; }
            },
        }
        let ghost after = self.view();
        assert(after[at] == (k0, v0));
        assert(forall|j: int| 0 <= j < after.len() && j != at ==> after[j] == before[j]);
        assert(after.len() >= before.len());
        proof {
            let ia = choose|j: int| 0 <= j < after.len() && after[j].0 == k0;
            assert(ia == at);
            assert forall|k: Seq<char>| k != k0 implies self.value_of(k) == ParamSet::value_of_seq(before, k) by {
                if exists|j: int| 0 <= j < after.len() && after[j].0 == k {
                    let j1 = choose|j: int| 0 <= j < after.len() && after[j].0 == k;
                    assert(j1 != at);
                    assert(before[j1].0 == k);
                    let j2 = choose|j: int| 0 <= j < before.len() && before[j].0 == k;
                    assert(j1 == j2);
                } else {
                    if exists|j: int| 0 <= j < before.len() && before[j].0 == k {
                        let j2 = choose|j: int| 0 <= j < before.len() && before[j].0 == k;
                        assert(j2 != at);
                        assert(after[j2].0 == k);
                    }
                }
            }
        }
    }

    /// The set pairs with a non-empty value, in key order.
    #[verifier::loop_isolation(false)]
    pub fn canonical_pairs(&self) -> (r: Vec<(String, String)>)
        requires
            self.wf(),
        ensures
            is_canonical_listing(pairs_view(r@), self.view()),
    {
        let mut out: Vec<(String, String)> = Vec::new();
        let mut i: usize = 0;
        while i < self.entries.len()
            invariant
                self.wf(),
                i <= self.entries@.len(),
                self.view().len() == self.entries@.len(),
                sorted_by_key(pairs_view(out@)),
                forall|p: (Seq<char>, Seq<char>)| #[trigger] pairs_view(out@).contains(p) <==> (
                    self.view().subrange(0, i as int).contains(p) && p.1.len() > 0),
            decreases self.entries@.len() - i,
        {
            let ghost before = pairs_view(out@);
            let ghost pre = self.view().subrange(0, i as int);
            let ghost e = self.view()[i as int];
            assert(self.view().subrange(0, i + 1) =~= pre.push(e));
            assert(e == pair_view(self.entries@[i as int]));
            let key = &self.entries[i].0;
            let value = &self.entries[i].1;
            if value.as_str().unicode_len() > 0 {
                // the first position whose key orders after this one
                let mut j: usize = 0;
                while j < out.len() && !key_less(key.as_str(), out[j].0.as_str())
                    invariant
                        j <= out@.len(),
                        before == pairs_view(out@),
                        e.0 == key@,
                        forall|k: int| 0 <= k < j ==> !key_lt(key@, #[trigger] before[k].0),
                    decreases out@.len() - j,
                {
                    assert(before[j as int] == pair_view(out@[j as int]));
                    j = j + 1;
                }
                proof {
                    // no listed key equals this one: keys of the set are distinct
                    assert forall|k: int| 0 <= k < before.len() implies before[k].0 != e.0 by {
                        assert(before.contains(before[k]));
                        let m = choose|m: int| 0 <= m < pre.len() && pre[m] == before[k];
                        assert(pre[m] == self.view()[m]);
                    }
                    if j > 0 {
                        lemma_key_lt_total(key@, before[j - 1].0);
                        assert(!key_lt(key@, before[j - 1].0));
                        assert(key_lt(before[j - 1].0, e.0));
                    }
                    if j < before.len() {
                        assert(before[j as int] == pair_view(out@[j as int]));
                        assert(key_lt(e.0, before[j as int].0));
                    }
                }
                out.insert(j, (key.clone(), value.clone()));
                let ghost after = pairs_view(out@);
                assert(after =~= before.insert(j as int, e));
                proof {
                    assert forall|k: int| 0 <= k < after.len() - 1 implies #[trigger] key_lt(after[k].0, after[k + 1].0) by {
                        if k < j - 1 {
                            assert(after[k] == before[k] && after[k + 1] == before[k + 1]);
                            assert(key_lt(before[k].0, before[k + 1].0));
                        } else if k == j - 1 {
                            assert(after[k] == before[k] && after[k + 1] == e);
                        } else if k == j {
                            assert(after[k] == e && after[k + 1] == before[k]);
                        } else {
                            assert(after[k] == before[k - 1] && after[k + 1] == before[k]);
                            assert(key_lt(before[k - 1].0, before[k - 1 + 1].0));
                        }
                    }
                    assert forall|p: (Seq<char>, Seq<char>)| #[trigger] after.contains(p) <==> (
                        pre.push(e).contains(p) && p.1.len() > 0) by {
                        if after.contains(p) {
                            let k = choose|k: int| 0 <= k < after.len() && after[k] == p;
                            if k < j {
                                assert(before[k] == p);
                                assert(before.contains(p));
                            } else if k == j {
                                assert(pre.push(e)[i as int] == p);
                            } else {
                                assert(before[k - 1] == p);
                                assert(before.contains(p));
                            }
                            if pre.contains(p) {
                                let m = choose|m: int| 0 <= m < pre.len() && pre[m] == p;
                                assert(pre.push(e)[m] == p);
                            }
                        }
                        if pre.push(e).contains(p) && p.1.len() > 0 {
                            let m = choose|m: int| 0 <= m < pre.len() + 1 && pre.push(e)[m] == p;
                            if m == pre.len() {
                                assert(after[j as int] == p);
                            } else {
                                assert(pre[m] == p);
                                assert(pre.contains(p));
                                assert(before.contains(p));
                                let k = choose|k: int| 0 <= k < before.len() && before[k] == p;
                                if k < j {
                                    assert(after[k] == p);
                                } else {
                                    assert(after[k + 1] == p);
                                }
                            }
                        }
                    }
                }
            } else {
                proof {
                    assert forall|p: (Seq<char>, Seq<char>)| #[trigger] before.contains(p) <==> (
                        pre.push(e).contains(p) && p.1.len() > 0) by {
                        if pre.push(e).contains(p) && p.1.len() > 0 {
                            let m = choose|m: int| 0 <= m < pre.len() + 1 && pre.push(e)[m] == p;
                            assert(m != pre.len());
                            assert(pre[m] == p);
                        }
                        if pre.contains(p) {
                            let m = choose|m: int| 0 <= m < pre.len() && pre[m] == p;
                            assert(pre.push(e)[m] == p);
                        }
                    }
                }
            }
            i = i + 1;
        }
        assert(self.view().subrange(0, i as int) =~= self.view());
        out
    }

    /// The canonical query string: non-empty pairs in key order, keys and
    /// values percent-encoded, joined with `&`.
    pub fn canonical_query(&self) -> (r: String)
        requires
            self.wf(),
        ensures
            r@ == canonical_query_of(self.view()),
    {
        let pairs = self.canonical_pairs();
        let r = encode_query(&pairs);
        proof {
            let s = choose|s: Seq<(Seq<char>, Seq<char>)>| is_canonical_listing(s, self.view());
            lemma_sorted_listing_unique(pairs_view(pairs@), s);
        }
        r
    }
}

/// The pairs written `key=value`, encoded, joined with `&`.
pub fn encode_query(pairs: &Vec<(String, String)>) -> (r: String)
    ensures
        r@ == query_of(pairs_view(pairs@)),
{
    let mut out = String::new();
    let mut i: usize = 0;
    while i < pairs.len()
        invariant
            i <= pairs@.len(),
            out@ == query_of(pairs_view(pairs@).subrange(0, i as int)),
        decreases pairs@.len() - i,
    {
        let ghost pre = pairs_view(pairs@).subrange(0, i as int);
        let ghost next = pairs_view(pairs@).subrange(0, i + 1);
        assert(next.drop_last() =~= pre);
        assert(next.last() == pair_view(pairs@[i as int]));
        let k = url_encode_text(pairs[i].0.as_str());
        let v = url_encode_text(pairs[i].1.as_str());
        if i > 0 {
            out.append("&");
        }
        out.append(k.as_str());
        out.append("=");
        out.append(v.as_str());
        proof {
            if i == 0 {
                assert(pre.len() == 0);
                assert(out@ =~= encoded_pair(next[0]));
            } else {
                assert(out@ =~= query_of(pre) + "&"@ + encoded_pair(next.last()));
            }
        }
        i = i + 1;
    }
    assert(pairs_view(pairs@).subrange(0, i as int) =~= pairs_view(pairs@));
    out
}

// ---------------------------------------------------------------------------
// Decimal numbers.
// ---------------------------------------------------------------------------

pub open spec fn digit_char(d: nat) -> char {
    ((48 + d) as u8) as char
}

/// The decimal form of `n`, without leading zeros.
pub open spec fn decimal_of(n: nat) -> Seq<char>
    decreases n,
{
    if n < 10 {
        seq![digit_char(n)]
    } else {
        decimal_of(n / 10).push(digit_char(n % 10))
    }
}

fn digit_text(d: u64) -> (r: &'static str)
    requires
        d < 10,
    ensures
        r@ == seq![digit_char(d as nat)],
{
    proof {
        reveal_strlit("0");
        reveal_strlit("1");
        reveal_strlit("2");
        reveal_strlit("3");
        reveal_strlit("4");
        reveal_strlit("5");
        reveal_strlit("6");
        reveal_strlit("7");
        reveal_strlit("8");
        reveal_strlit("9");
    }
    let r = if d == 0 {
        "0"
    } else if d == 1 {
        "1"
    } else if d == 2 {
        "2"
    } else if d == 3 {
        "3"
    } else if d == 4 {
        "4"
    } else if d == 5 {
        "5"
    } else if d == 6 {
        "6"
    } else if d == 7 {
        "7"
    } else if d == 8 {
        "8"
    } else {
        "9"
    };
    assert(r@ =~= seq![digit_char(d as nat)]);
    r
}

/// The decimal form of `n`.
pub fn decimal(n: u64) -> (r: String)
    ensures
        r@ == decimal_of(n as nat),
    decreases n,
{
    if n < 10 {
        digit_text(n).to_string()
    } else {
        let mut head = decimal(n / 10);
        head.append(digit_text(n % 10));
        head
    }
}

} // verus!
