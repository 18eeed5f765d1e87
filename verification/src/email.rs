//! Email addresses: the domain part, the disposable-domain blocklist, and the
//! decisions of the DNS deliverability check.

use vstd::prelude::*;

use crate::text::{
    chars_of, is_space, split_ranges, split_spec, str_eq, string_of, to_lowercase, trim,
    trim_bounds, unicode_lowercase,
};

verus! {

/// The index of the last `c` in `s`.
pub open spec fn last_index_of(s: Seq<char>, c: char) -> Option<int>
    decreases s.len(),
{
    if s.len() == 0 {
        None
    } else if s.last() == c {
        Some(s.len() - 1)
    } else {
        last_index_of(s.drop_last(), c)
    }
}

/// `s` with every trailing `c` removed.
pub open spec fn trim_end_char(s: Seq<char>, c: char) -> Seq<char>
    decreases s.len(),
{
    if s.len() > 0 && s.last() == c {
        trim_end_char(s.drop_last(), c)
    } else {
        s
    }
}

/// The UTF-8 length of a text, which `str::len` reports.
pub open spec fn byte_len(s: Seq<char>) -> int {
    vstd::utf8::encode_utf8(s).len() as int
}

/// The text after the last `@` of an address, trimmed, without trailing dots.
pub open spec fn domain_candidate(email: Seq<char>) -> Option<Seq<char>> {
    match last_index_of(email, '@') {
        Some(k) => Some(trim_end_char(trim(email.subrange(k + 1, email.len() as int)), '.')),
        None => None,
    }
}

/// Whether a domain is plausible: non-empty, at most 253 bytes, dotted, and
/// every dot-separated label non-empty and at most 63 bytes.
pub open spec fn plausible_domain(d: Seq<char>) -> bool {
    &&& d.len() > 0
    &&& byte_len(d) <= 253
    &&& d.contains('.')
    &&& forall|k: int|
        0 <= k < split_spec(d, '.').len() ==> (#[trigger] split_spec(d, '.')[k]).len() > 0
            && byte_len(split_spec(d, '.')[k]) <= 63
}

/// The normalized domain of an address, when it is plausible.
pub open spec fn extract_domain_spec(email: Seq<char>) -> Option<Seq<char>> {
    match domain_candidate(email) {
        Some(d) => if plausible_domain(d) {
            Some(d)
        } else {
            None
        },
        None => None,
    }
}

proof fn lemma_last_index(s: Seq<char>, c: char, k: int)
    requires
        -1 <= k < s.len(),
        forall|m: int| k < m < s.len() ==> s[m] != c,
        k >= 0 ==> s[k] == c,
    ensures
        last_index_of(s, c) == if k >= 0 {
            Some(k)
        } else {
            None::<int>
        },
    decreases s.len(),
{
    if s.len() > 0 && k < s.len() - 1 {
        lemma_last_index(s.drop_last(), c, k);
    }
}

proof fn lemma_trim_end_char(s: Seq<char>, c: char, j: int)
    requires
        0 <= j <= s.len(),
        forall|m: int| j <= m < s.len() ==> s[m] == c,
        j == 0 || s[j - 1] != c,
    ensures
        trim_end_char(s, c) == s.subrange(0, j),
    decreases s.len(),
{
    if j < s.len() {
        lemma_trim_end_char(s.drop_last(), c, j);
        assert(s.drop_last().subrange(0, j) == s.subrange(0, j));
    } else {
        assert(s.subrange(0, j) =~= s);
    }
}

/// Extract the normalized domain portion of an email address: after the last
/// `@`, trimmed, trailing dots removed, and refused unless it is a plausible
/// dotted domain.
pub fn extract_domain(email: &str) -> (r: Option<&str>)
    ensures
        match r {
            Some(d) => extract_domain_spec(email@) == Some(d@),
            None => extract_domain_spec(email@) is None,
        },
{
    let v = chars_of(email);
    let n = v.len();
    let mut k = n;
    while k > 0 && v[k - 1] != '@'
        invariant
            k <= n == v@.len(),
            forall|m: int| k <= m < n ==> v@[m] != '@',
        decreases k,
    {
        k = k - 1;
    }
    if k == 0 {
        proof {
            lemma_last_index(v@, '@', -1);
        }
        return None;
    }
    proof {
        lemma_last_index(v@, '@', k - 1);
    }
    let (a, b0) = trim_bounds(&v, k, n);
    let mut b = b0;
    while b > a && v[b - 1] == '.'
        invariant
            a <= b <= b0 <= n == v@.len(),
            forall|m: int| b <= m < b0 ==> v@[m] == '.',
        decreases b,
    {
        b = b - 1;
    }
    let ghost t = v@.subrange(a as int, b0 as int);
    proof {
        lemma_trim_end_char(t, '.', b - a);
        assert(t.subrange(0, b - a) =~= v@.subrange(a as int, b as int));
    }
    let ghost d = v@.subrange(a as int, b as int);
    assert(domain_candidate(email@) == Some(d));
    let dom: &str = email.substring_char(a, b);
    if a == b || dom.as_bytes().len() > 253 {
        return None;
    }
    let mut has_dot = false;
    let mut m = a;
    while m < b
        invariant
            a <= m <= b <= v@.len(),
            has_dot == exists|x: int| a <= x < m && v@[x] == '.',
        decreases b - m,
    {
        if v[m] == '.' {
            has_dot = true;
        }
        m = m + 1;
    }
    if !has_dot {
        assert(!d.contains('.')) by {
            if d.contains('.') {
                let x = choose|x: int| 0 <= x < d.len() && d[x] == '.';
                assert(v@[x + a] == '.');
            }
        }
        return None;
    }
    assert(d.contains('.')) by {
        let x = choose|x: int| a <= x < m && v@[x] == '.';
        assert(d[x - a] == '.');
    }
    let labels = split_ranges(&v, a, b, '.');
    let mut i: usize = 0;
    while i < labels.len()
        invariant
            i <= labels@.len(),
            labels@.len() == split_spec(d, '.').len(),
            d == v@.subrange(a as int, b as int),
            v@ == email@,
            b <= v@.len(),
            dom@ == d,
            d.len() > 0,
            byte_len(d) <= 253,
            d.contains('.'),
            domain_candidate(email@) == Some(d),
            forall|q: int|
                0 <= q < labels@.len() ==> a <= (#[trigger] labels@[q]).0 <= labels@[q].1 <= b
                    && v@.subrange(labels@[q].0 as int, labels@[q].1 as int) == split_spec(
                    d,
                    '.',
                )[q],
            forall|q: int|
                0 <= q < i ==> (#[trigger] split_spec(d, '.')[q]).len() > 0 && byte_len(
                    split_spec(d, '.')[q],
                ) <= 63,
        decreases labels@.len() - i,
    {
        let (lo, hi) = labels[i];
        if lo == hi {
            assert(split_spec(d, '.')[i as int].len() == 0);
            return None;
        }
        let label: &str = email.substring_char(lo, hi);
        if label.as_bytes().len() > 63 {
            assert(byte_len(split_spec(d, '.')[i as int]) > 63);
            return None;
        }
        i = i + 1;
    }
    Some(dom)
}

/// The domains of a blocklist text: its lines, trimmed, without blank lines
/// and `#` comments.
pub open spec fn listed(raw: Seq<char>, d: Seq<char>) -> bool {
    exists|k: int|
        0 <= k < split_spec(raw, '\n').len() && #[trigger] trim(split_spec(raw, '\n')[k]) == d
            && d.len() > 0 && d[0] != '#'
}

/// A disposable-email-domain blocklist, matched on the exact lowercased domain.
pub struct Blocklist {
    domains: Vec<String>,
}

impl View for Blocklist {
    type V = Set<Seq<char>>;

    closed spec fn view(&self) -> Set<Seq<char>> {
        domain_texts(self.domains@).to_set()
    }
}

/// The domain that is looked up for an address: after its last `@`, trimmed,
/// lowercased.
pub open spec fn blocklist_key(email: Seq<char>) -> Option<Seq<char>> {
    match last_index_of(email, '@') {
        Some(k) => Some(unicode_lowercase(trim(email.subrange(k + 1, email.len() as int)))),
        None => None,
    }
}

spec fn in_list(domains: Seq<String>, d: Seq<char>) -> bool {
    exists|k: int| 0 <= k < domains.len() && #[trigger] domains[k]@ == d
}

spec fn domain_texts(domains: Seq<String>) -> Seq<Seq<char>> {
    domains.map_values(|s: String| s@)
}

proof fn lemma_in_list_texts(domains: Seq<String>, d: Seq<char>)
    ensures
        in_list(domains, d) == domain_texts(domains).contains(d),
{
    if in_list(domains, d) {
        let k = choose|k: int| 0 <= k < domains.len() && #[trigger] domains[k]@ == d;
        assert(domain_texts(domains)[k] == d);
    }
    if domain_texts(domains).contains(d) {
        let k = choose|k: int| 0 <= k < domain_texts(domains).len() && domain_texts(domains)[k] == d;
        assert(domains[k]@ == d);
    }
}

spec fn listed_before(ls: Seq<Seq<char>>, i: int, d: Seq<char>) -> bool {
    exists|k: int| 0 <= k < i && #[trigger] trim(ls[k]) == d && d.len() > 0 && d[0] != '#'
}

/// Whether `v[a..b]` is one of `domains`.
fn holds_range(domains: &Vec<String>, v: &Vec<char>, a: usize, b: usize) -> (r: bool)
    requires
        a <= b <= v.len(),
    ensures
        r == in_list(domains@, v@.subrange(a as int, b as int)),
{
    let t = string_of(v, a, b);
    let mut k: usize = 0;
    while k < domains.len()
        invariant
            k <= domains@.len(),
            t@ == v@.subrange(a as int, b as int),
            forall|m: int| 0 <= m < k ==> domains@[m]@ != t@,
        decreases domains.len() - k,
    {
        if str_eq(domains[k].as_str(), t.as_str()) {
            return true;
        }
        k = k + 1;
    }
    false
}

impl Blocklist {
    /// Read a blocklist: one domain per line, blank lines and `#` comments
    /// skipped.
    pub fn parse(raw: &str) -> (b: Blocklist)
        ensures
            forall|d: Seq<char>| #[trigger] b@.contains(d) <==> listed(raw@, d),
    {
        let v = chars_of(raw);
        assert(v@.subrange(0, v.len() as int) =~= raw@);
        let lines = split_ranges(&v, 0, v.len(), '\n');
        let ghost ls = split_spec(raw@, '\n');
        let mut domains: Vec<String> = Vec::new();
        let mut i: usize = 0;
        while i < lines.len()
            invariant
                i <= lines@.len() == ls.len(),
                v@ == raw@,
                ls == split_spec(raw@, '\n'),
                forall|q: int|
                    0 <= q < lines@.len() ==> (#[trigger] lines@[q]).0 <= lines@[q].1 <= v@.len()
                        && v@.subrange(lines@[q].0 as int, lines@[q].1 as int) == ls[q],
                forall|d: Seq<char>| #[trigger] in_list(domains@, d) <==> listed_before(ls, i as int, d),
                domain_texts(domains@).no_duplicates(),
            decreases lines@.len() - i,
        {
            let (lo, hi) = lines[i];
            let (a, b) = trim_bounds(&v, lo, hi);
            let ghost old_domains = domains@;
            let keep = a < b && v[a] != '#';
            let seen = keep && holds_range(&domains, &v, a, b);
            if seen {
                proof {
                    assert forall|d: Seq<char>| #[trigger] in_list(domains@, d) <==> listed_before(ls, i + 1, d) by {
                        if listed_before(ls, i + 1, d) {
                            let k = choose|k: int| 0 <= k < i + 1 && #[trigger] trim(ls[k]) == d && d.len() > 0 && d[0] != '#';
                            if k < i {
                                assert(listed_before(ls, i as int, d));
                            }
                        }
                    }
                }
            } else if keep {
                let s = string_of(&v, a, b);
                domains.push(s);
                proof {
                    let dt = domain_texts(domains@);
                    assert(dt.drop_last() =~= domain_texts(old_domains));
                    assert forall|x: int, y: int| 0 <= x < dt.len() && 0 <= y < dt.len() && x != y implies dt[x] != dt[y] by {
                        if x == dt.len() - 1 || y == dt.len() - 1 {
                            let o = if x == dt.len() - 1 { y } else { x };
                            if dt[x] == dt[y] {
                                assert(old_domains[o]@ == v@.subrange(a as int, b as int));
                                assert(in_list(old_domains, v@.subrange(a as int, b as int)));
                            }
                        } else {
                            assert(dt[x] == domain_texts(old_domains)[x]);
                            assert(dt[y] == domain_texts(old_domains)[y]);
                        }
                    }
                    assert forall|d: Seq<char>| #[trigger] in_list(domains@, d) <==> listed_before(ls, i + 1, d) by {
                        if in_list(domains@, d) {
                            let k = choose|k: int| 0 <= k < domains@.len() && #[trigger] domains@[k]@ == d;
                            if k < old_domains.len() {
                                assert(old_domains[k]@ == d);
                                assert(in_list(old_domains, d));
                            }
                        }
                        if listed_before(ls, i + 1, d) {
                            let k = choose|k: int| 0 <= k < i + 1 && #[trigger] trim(ls[k]) == d && d.len() > 0 && d[0] != '#';
                            if k == i {
                                assert(domains@[old_domains.len() as int]@ == d);
                            } else {
                                assert(listed_before(ls, i as int, d));
                                assert(in_list(old_domains, d));
                                let j = choose|j: int| 0 <= j < old_domains.len() && #[trigger] old_domains[j]@ == d;
                                assert(domains@[j]@ == d);
                            }
                        }
                    }
                }
            } else {
                proof {
                    assert forall|d: Seq<char>| #[trigger] in_list(domains@, d) <==> listed_before(ls, i + 1, d) by {
                        if listed_before(ls, i + 1, d) {
                            let k = choose|k: int| 0 <= k < i + 1 && #[trigger] trim(ls[k]) == d && d.len() > 0 && d[0] != '#';
                            assert(k != i);
                            assert(listed_before(ls, i as int, d));
                        }
                    }
                }
            }
            i = i + 1;
        }
        let b = Blocklist { domains };
        assert forall|d: Seq<char>| #[trigger] b@.contains(d) <==> listed(raw@, d) by {
            lemma_in_list_texts(b.domains@, d);
            assert(b@.contains(d) == in_list(b.domains@, d));
            assert(listed(raw@, d) == listed_before(ls, ls.len() as int, d));
        }
        b
    }

    /// No domain is held twice.
    #[verifier::type_invariant]
    spec fn distinct(self) -> bool {
        domain_texts(self.domains@).no_duplicates()
    }

    /// How many distinct domains are listed.
    pub fn len(&self) -> (n: usize)
        ensures
            n == self@.len(),
    {
        proof {
            use_type_invariant(self);
            domain_texts(self.domains@).unique_seq_to_set();
        }
        self.domains.len()
    }

    /// Whether `domain` is listed exactly.
    pub fn contains(&self, domain: &str) -> (r: bool)
        ensures
            r == self@.contains(domain@),
    {
        let mut i: usize = 0;
        while i < self.domains.len()
            invariant
                i <= self.domains@.len(),
                forall|k: int| 0 <= k < i ==> self.domains@[k]@ != domain@,
            decreases self.domains@.len() - i,
        {
            if str_eq(self.domains[i].as_str(), domain) {
                proof {
                    lemma_in_list_texts(self.domains@, domain@);
                    assert(self.domains@[i as int]@ == domain@);
                }
                return true;
            }
            i = i + 1;
        }
        proof {
            lemma_in_list_texts(self.domains@, domain@);
        }
        false
    }

    /// Whether an email's domain is a known disposable-inbox provider. The
    /// domain is lowercased and matched exactly; a value with no `@` is not
    /// disposable (it is rejected earlier as an invalid address).
    pub fn is_disposable_email(&self, email: &str) -> (r: bool)
        ensures
            r == match blocklist_key(email@) {
                Some(d) => self@.contains(d),
                None => false,
            },
    {
        let v = chars_of(email);
        let n = v.len();
        let mut k = n;
        while k > 0 && v[k - 1] != '@'
            invariant
                k <= n == v@.len(),
                forall|m: int| k <= m < n ==> v@[m] != '@',
            decreases k,
        {
            k = k - 1;
        }
        if k == 0 {
            proof {
                lemma_last_index(v@, '@', -1);
            }
            return false;
        }
        proof {
            lemma_last_index(v@, '@', k - 1);
        }
        let (a, b) = trim_bounds(&v, k, n);
        let t = string_of(&v, a, b);
        let lowered = to_lowercase(t.as_str());
        self.contains(lowered.as_str())
    }
}

/// Whether an email's domain is on the given disposable-inbox blocklist.
pub fn is_disposable_email(list: &Blocklist, email: &str) -> (r: bool)
    ensures
        r == match blocklist_key(email@) {
            Some(d) => list@.contains(d),
            None => false,
        },
{
    list.is_disposable_email(email)
}

/// What a failed DNS lookup says about a domain.
#[derive(Debug, Clone, Copy, PartialEq, Eq, Structural)]
pub enum DnsOutcome {
    /// The domain does not exist or the name is invalid: definitive.
    NxDomainOrInvalid,
    /// The domain exists but has no records of the asked type.
    NoRecords,
    /// A timeout, server failure or network problem: says nothing.
    Transient,
}

/// The response code of a DNS answer, as far as the check tells codes apart.
#[derive(Debug, Clone, Copy, PartialEq, Eq, Structural)]
pub enum ResponseCode {
    NoError,
    NxDomain,
    Other,
}

/// A DNS lookup failure, in the shapes the check tells apart.
#[derive(Debug, Clone, Copy, PartialEq, Eq, Structural)]
pub enum LookupFailure {
    /// The query could not even be formed (an invalid name).
    Protocol,
    /// The server answered with an error code.
    Response(ResponseCode),
    /// The server answered with no records, under this code.
    NoRecordsFound(ResponseCode),
    /// Anything else: timeouts, busy, I/O.
    Other,
}

/// The outcome a lookup failure stands for.
pub open spec fn classify_spec(err: LookupFailure) -> DnsOutcome {
    match err {
        LookupFailure::Protocol => DnsOutcome::NxDomainOrInvalid,
        LookupFailure::Response(ResponseCode::NxDomain) => DnsOutcome::NxDomainOrInvalid,
        LookupFailure::NoRecordsFound(ResponseCode::NxDomain) => DnsOutcome::NxDomainOrInvalid,
        LookupFailure::NoRecordsFound(ResponseCode::NoError) => DnsOutcome::NoRecords,
        _ => DnsOutcome::Transient,
    }
}

/// Classify a lookup failure: only a protocol error, NXDOMAIN, or an empty
/// NXDOMAIN answer is definitive; an empty NOERROR answer means no records;
/// everything else is transient.
pub fn classify_error(err: &LookupFailure) -> (r: DnsOutcome)
    ensures
        r == classify_spec(*err),
{
    match err {
        LookupFailure::Protocol => DnsOutcome::NxDomainOrInvalid,
        LookupFailure::Response(ResponseCode::NxDomain) => DnsOutcome::NxDomainOrInvalid,
        LookupFailure::NoRecordsFound(code) => match code {
            ResponseCode::NxDomain => DnsOutcome::NxDomainOrInvalid,
            ResponseCode::NoError => DnsOutcome::NoRecords,
            ResponseCode::Other => DnsOutcome::Transient,
        },
        _ => DnsOutcome::Transient,
    }
}

/// One MX answer: its preference and whether its exchange is the root name.
#[derive(Debug, Clone, Copy)]
pub struct MxRecord {
    pub preference: u16,
    pub exchange_is_root: bool,
}

/// An RFC 7505 "null MX": preference 0 pointing at the root.
pub open spec fn is_null_mx(r: MxRecord) -> bool {
    r.preference == 0 && r.exchange_is_root
}

/// What the MX step of the check concludes.
#[derive(Debug, Clone, Copy, PartialEq, Eq, Structural)]
pub enum MxFinding {
    Deliverable,
    Undeliverable,
    /// No verdict from MX: look for A/AAAA records instead.
    CheckAddresses,
}

/// The finding for a successful MX answer: only null MX records refuse the
/// domain, any real exchange accepts it, and no MX at all falls back to the
/// address records.
pub open spec fn mx_spec(records: Seq<MxRecord>) -> MxFinding {
    let has_null = exists|k: int| 0 <= k < records.len() && is_null_mx(#[trigger] records[k]);
    let has_valid = exists|k: int| 0 <= k < records.len() && !is_null_mx(#[trigger] records[k]);
    if has_null && !has_valid {
        MxFinding::Undeliverable
    } else if has_valid {
        MxFinding::Deliverable
    } else {
        MxFinding::CheckAddresses
    }
}

/// Decide from a successful MX lookup.
pub fn mx_finding(records: &Vec<MxRecord>) -> (r: MxFinding)
    ensures
        r == mx_spec(records@),
{
    let mut has_null = false;
    let mut has_valid = false;
    let mut i: usize = 0;
    while i < records.len()
        invariant
            i <= records@.len(),
            has_null == exists|k: int| 0 <= k < i && is_null_mx(#[trigger] records@[k]),
            has_valid == exists|k: int| 0 <= k < i && !is_null_mx(#[trigger] records@[k]),
        decreases records@.len() - i,
    {
        let r = records[i];
        if r.preference == 0 && r.exchange_is_root {
            has_null = true;
        } else {
            has_valid = true;
        }
        i = i + 1;
    }
    if has_null && !has_valid {
        MxFinding::Undeliverable
    } else if has_valid {
        MxFinding::Deliverable
    } else {
        MxFinding::CheckAddresses
    }
}

/// The finding of a failed MX lookup: a definitive failure refuses the
/// domain, an empty answer falls back to the address records, a transient one
/// fails open.
pub open spec fn mx_failure_finding_spec(outcome: DnsOutcome) -> MxFinding {
    match outcome {
        DnsOutcome::NxDomainOrInvalid => MxFinding::Undeliverable,
        DnsOutcome::NoRecords => MxFinding::CheckAddresses,
        DnsOutcome::Transient => MxFinding::Deliverable,
    }
}

/// Decide from a failed MX lookup.
pub fn mx_failure_finding(outcome: DnsOutcome) -> (r: MxFinding)
    ensures
        r == mx_failure_finding_spec(outcome),
{
    match outcome {
        DnsOutcome::NxDomainOrInvalid => MxFinding::Undeliverable,
        DnsOutcome::NoRecords => MxFinding::CheckAddresses,
        DnsOutcome::Transient => MxFinding::Deliverable,
    }
}

/// What an MX lookup came back with.
pub enum MxLookup {
    /// The MX records of the answer.
    Answer(Vec<MxRecord>),
    Failed(LookupFailure),
}

/// The finding of the MX step, from whatever the lookup came back with.
pub open spec fn mx_step_spec(lookup: MxLookup) -> MxFinding {
    match lookup {
        MxLookup::Answer(records) => mx_spec(records@),
        MxLookup::Failed(err) => mx_failure_finding_spec(classify_spec(err)),
    }
}

/// The MX step of the deliverability check.
pub fn mx_step(lookup: &MxLookup) -> (r: MxFinding)
    ensures
        r == mx_step_spec(*lookup),
{
    match lookup {
        MxLookup::Answer(records) => mx_finding(records),
        MxLookup::Failed(err) => mx_failure_finding(classify_error(err)),
    }
}

/// What an A/AAAA lookup came back with.
#[derive(Debug, Clone, Copy)]
pub enum AddressLookup {
    /// An answer, and whether it held any address.
    Answer(bool),
    Failed(LookupFailure),
}

/// The verdict of the address fallback: any address accepts the domain; a
/// definitive or empty failure refuses it; a transient one fails open.
pub open spec fn address_spec(lookup: AddressLookup) -> bool {
    match lookup {
        AddressLookup::Answer(any) => any,
        AddressLookup::Failed(err) => classify_spec(err) == DnsOutcome::Transient,
    }
}

/// The address fallback of the deliverability check.
pub fn address_step(lookup: AddressLookup) -> (deliverable: bool)
    ensures
        deliverable == address_spec(lookup),
{
    match lookup {
        AddressLookup::Answer(any) => any,
        AddressLookup::Failed(err) => classify_error(&err) == DnsOutcome::Transient,
    }
}

/// The absolute name a domain is looked up as (a trailing dot, so no local
/// search domain is appended).
pub fn fqdn(domain: &str) -> (r: String)
    ensures
        r@ == domain@.push('.'),
{
    let mut s = String::new();
    crate::text::push_str(&mut s, domain);
    crate::text::push_char(&mut s, '.');
    s
}

/// The check fails closed only on definitive evidence: the MX step refuses a
/// domain only for an answer holding nothing but null MX records or a lookup
/// failure that says the domain does not exist or is invalid, and a transient
/// failure at either step counts as deliverable.
pub proof fn law_fails_closed_only_on_evidence(lookup: MxLookup, fallback: LookupFailure)
    ensures
        mx_step_spec(lookup) == MxFinding::Undeliverable ==> match lookup {
            MxLookup::Answer(records) => records@.len() > 0 && forall|k: int|
                0 <= k < records@.len() ==> is_null_mx(#[trigger] records@[k]),
            MxLookup::Failed(err) => classify_spec(err) == DnsOutcome::NxDomainOrInvalid,
        },
        lookup matches MxLookup::Failed(err) && classify_spec(err) == DnsOutcome::Transient
            ==> mx_step_spec(lookup) == MxFinding::Deliverable,
        classify_spec(fallback) == DnsOutcome::Transient ==> address_spec(
            AddressLookup::Failed(fallback),
        ),
{
    if let MxLookup::Answer(records) = lookup {
        if mx_spec(records@) == MxFinding::Undeliverable {
            let k0 = choose|k: int| 0 <= k < records@.len() && is_null_mx(#[trigger] records@[k]);
            assert forall|k: int| 0 <= k < records@.len() implies is_null_mx(
                #[trigger] records@[k],
            ) by {
                if !is_null_mx(records@[k]) {
                    assert(exists|j: int| 0 <= j < records@.len() && !is_null_mx(
                        #[trigger] records@[j],
                    ));
                }
            }
        }
    }
}

} // verus!
