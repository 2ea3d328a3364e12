//! Configuration for a reverse proxy: which port patterns map to which
//! actions, and the check that every rule is reachable.

use vstd::prelude::*;

use vstd::string::StrSliceExecFns;
use vstd::string::StringExecFns;
use vstd::string::StringSliceAdditionalSpecFns;

verus! {

/// An error encountered while parsing or applying a proxy configuration.
#[derive(Clone, Copy, PartialEq, Eq, Structural, Debug)]
pub enum ProxyConfigError {
    /// A proxy target had an unrecognized type keyword.
    UnrecognizedTargetType,
    /// A target address could not be parsed.
    InvalidTargetAddr,
    /// A source port could not be parsed as a number.
    InvalidPort,
    /// A source port was zero.
    ZeroPort,
    /// A port range was empty.
    EmptyPortRange,
}

/// True when `c` is an ASCII digit byte.
pub open spec fn spec_is_digit(c: u8) -> bool {
    48 <= c <= 57
}

/// The numeric value of a digit string, most significant digit first.
pub open spec fn spec_digits_val(s: Seq<u8>) -> int
    decreases s.len(),
{
    if s.len() == 0 {
        0
    } else {
        spec_digits_val(s.drop_last()) * 10 + (s.last() - 48)
    }
}

/// The text with an optional leading plus sign removed.
pub open spec fn spec_sign_stripped(s: Seq<u8>) -> Seq<u8> {
    if s.len() > 0 && s[0] == 43 {
        s.drop_first()
    } else {
        s
    }
}

/// What `u16` parsing accepts: an optional leading plus sign, then one or
/// more digits whose value fits.
pub open spec fn spec_parse_u16(s: Seq<u8>) -> Option<u16> {
    let digits = spec_sign_stripped(s);
    if digits.len() > 0 && (forall|i: int| 0 <= i < digits.len() ==> spec_is_digit(
        #[trigger] digits[i],
    )) && spec_digits_val(digits) <= u16::MAX {
        Some(spec_digits_val(digits) as u16)
    } else {
        None
    }
}

/// A digit string's value is never negative.
proof fn lemma_digits_val_nonneg(s: Seq<u8>)
    requires
        forall|i: int| 0 <= i < s.len() ==> spec_is_digit(#[trigger] s[i]),
    ensures
        spec_digits_val(s) >= 0,
    decreases s.len(),
{
    if s.len() > 0 {
        lemma_digits_val_nonneg(s.drop_last());
    }
}

/// A digit string's value is at least the value of any of its prefixes.
proof fn lemma_digits_val_prefix_le(s: Seq<u8>, i: int)
    requires
        0 <= i <= s.len(),
        forall|j: int| 0 <= j < s.len() ==> spec_is_digit(#[trigger] s[j]),
    ensures
        spec_digits_val(s.take(i)) <= spec_digits_val(s),
    decreases s.len() - i,
{
    if i < s.len() {
        assert(s.take(i + 1).drop_last() =~= s.take(i));
        lemma_digits_val_nonneg(s.take(i));
        lemma_digits_val_prefix_le(s, i + 1);
    } else {
        assert(s.take(i) =~= s);
    }
}

/// Parse a `u16` from bytes: an optional leading plus sign, then digits.
pub fn parse_u16(s: &[u8]) -> (r: Option<u16>)
    ensures
        r == spec_parse_u16(s@),
{
    let slen = s.len();
    let start: usize = if slen > 0 && s[0] == 43 {
        1
    } else {
        0
    };
    let ghost digits = spec_sign_stripped(s@);
    proof {
        assert(digits =~= s@.skip(start as int));
    }
    if slen == start {
        return None;
    }
    let mut acc: u32 = 0;
    let mut i: usize = start;
    while i < slen
        invariant
            start <= i <= slen,
            slen == s@.len(),
            digits == s@.skip(start as int),
            digits == spec_sign_stripped(s@),
            forall|j: int| 0 <= j < i - start ==> spec_is_digit(#[trigger] digits[j]),
            acc == spec_digits_val(digits.take(i - start)),
            acc <= u16::MAX,
        decreases slen - i,
    {
        let c = s[i];
        proof {
            assert(digits[i - start] == s@[i as int]);
            assert(digits.take(i - start + 1).drop_last() =~= digits.take(i - start));
            assert(digits.take(i - start + 1).last() == digits[i - start]);
        }
        if c < 48 || c > 57 {
            return None;
        }
        let d = (c - 48) as u32;
        let next = acc * 10 + d;
        if next > u16::MAX as u32 {
            proof {
                if forall|j: int| 0 <= j < digits.len() ==> spec_is_digit(#[trigger] digits[j]) {
                    lemma_digits_val_prefix_le(digits, i - start + 1);
                }
            }
            return None;
        }
        acc = next;
        i = i + 1;
    }
    proof {
        assert(digits.take(slen - start) =~= digits);
    }
    Some(acc as u16)
}

/// The character for one decimal digit.
pub open spec fn spec_digit_char(d: int) -> char {
    if d == 0 {
        '0'
    } else if d == 1 {
        '1'
    } else if d == 2 {
        '2'
    } else if d == 3 {
        '3'
    } else if d == 4 {
        '4'
    } else if d == 5 {
        '5'
    } else if d == 6 {
        '6'
    } else if d == 7 {
        '7'
    } else if d == 8 {
        '8'
    } else {
        '9'
    }
}

/// The decimal digits of `n`, most significant first.
pub open spec fn spec_decimal(n: int) -> Seq<char>
    decreases n,
{
    if n < 10 {
        seq![spec_digit_char(n)]
    } else {
        spec_decimal(n / 10).push(spec_digit_char(n % 10))
    }
}

/// Append the character for one decimal digit to `s`.
fn push_digit(s: &mut String, d: u16)
    requires
        d < 10,
    ensures
        final(s)@ == old(s)@.push(spec_digit_char(d as int)),
{
    if d == 0 {
        proof {
            reveal_strlit("0");
        }
        s.append("0");
    } else if d == 1 {
        proof {
            reveal_strlit("1");
        }
        s.append("1");
    } else if d == 2 {
        proof {
            reveal_strlit("2");
        }
        s.append("2");
    } else if d == 3 {
        proof {
            reveal_strlit("3");
        }
        s.append("3");
    } else if d == 4 {
        proof {
            reveal_strlit("4");
        }
        s.append("4");
    } else if d == 5 {
        proof {
            reveal_strlit("5");
        }
        s.append("5");
    } else if d == 6 {
        proof {
            reveal_strlit("6");
        }
        s.append("6");
    } else if d == 7 {
        proof {
            reveal_strlit("7");
        }
        s.append("7");
    } else if d == 8 {
        proof {
            reveal_strlit("8");
        }
        s.append("8");
    } else {
        proof {
            reveal_strlit("9");
        }
        s.append("9");
    }
    proof {
        assert(s@ =~= old(s)@.push(spec_digit_char(d as int)));
    }
}

/// Append the decimal digits of `n` to `s`.
fn append_decimal(s: &mut String, n: u16)
    ensures
        final(s)@ == old(s)@ + spec_decimal(n as int),
    decreases n,
{
    if n < 10 {
        push_digit(s, n);
        proof {
            assert(old(s)@.push(spec_digit_char(n as int)) =~= old(s)@ + spec_decimal(n as int));
        }
    } else {
        append_decimal(s, n / 10);
        push_digit(s, n % 10);
        proof {
            assert((old(s)@ + spec_decimal(n as int / 10)).push(spec_digit_char(n as int % 10))
                =~= old(s)@ + spec_decimal(n as int));
        }
    }
}

/// The decimal text of `n`.
pub fn u16_decimal(n: u16) -> (s: String)
    ensures
        s@ == spec_decimal(n as int),
{
    let mut s = String::new();
    append_decimal(&mut s, n);
    proof {
        assert(Seq::<char>::empty() + spec_decimal(n as int) =~= spec_decimal(n as int));
    }
    s
}

/// The position of the first byte equal to `x` at or after `from`.
pub open spec fn spec_find_byte(b: Seq<u8>, from: int, x: u8) -> Option<int>
    decreases b.len() - from,
{
    if from < 0 || from >= b.len() {
        None
    } else if b[from] == x {
        Some(from)
    } else {
        spec_find_byte(b, from + 1, x)
    }
}

/// If nothing before `k` equals `x` and `b[k]` does, `k` is the first
/// position.
proof fn lemma_find_byte_found(b: Seq<u8>, start: int, k: int, x: u8)
    requires
        0 <= start <= k < b.len(),
        forall|j: int| start <= j < k ==> b[j] != x,
        b[k] == x,
    ensures
        spec_find_byte(b, start, x) == Some(k),
    decreases k - start,
{
    if start < k {
        lemma_find_byte_found(b, start + 1, k, x);
    }
}

/// If no byte from `start` on equals `x`, there is no first position.
proof fn lemma_find_byte_none(b: Seq<u8>, start: int, x: u8)
    requires
        0 <= start,
        forall|j: int| start <= j < b.len() ==> b[j] != x,
    ensures
        spec_find_byte(b, start, x) is None,
    decreases b.len() - start,
{
    if start < b.len() {
        lemma_find_byte_none(b, start + 1, x);
    }
}

/// Find the first byte equal to `x` in `b`.
pub fn find_byte(b: &[u8], x: u8) -> (r: Option<usize>)
    ensures
        (match r {
            Some(k) => spec_find_byte(b@, 0, x) == Some(k as int) && k < b@.len()
                && b@[k as int] == x,
            None => spec_find_byte(b@, 0, x) is None,
        }),
{
    let n = b.len();
    let mut i: usize = 0;
    while i < n
        invariant
            i <= n,
            n == b@.len(),
            forall|j: int| 0 <= j < i ==> b@[j] != x,
        decreases n - i,
    {
        if b[i] == x {
            proof {
                lemma_find_byte_found(b@, 0, i as int, x);
            }
            return Some(i);
        }
        i = i + 1;
    }
    proof {
        lemma_find_byte_none(b@, 0, x);
    }
    None
}

/// A set of ports: every port from the first bound to the second,
/// inclusive.  Constructed values always satisfy `1 <= lo <= hi`.
#[derive(Clone, Copy, PartialEq, Eq, Structural, Debug)]
pub struct ProxyPattern(pub u16, pub u16);

/// What pattern checking yields for a pair of bounds: a zero upper bound
/// is rejected, a zero lower bound is raised to one, and an empty range is
/// rejected.
pub open spec fn spec_pattern_check(start: u16, end: u16) -> Result<
    ProxyPattern,
    ProxyConfigError,
> {
    if end == 0 {
        Err(ProxyConfigError::ZeroPort)
    } else if start == 0 {
        Ok(ProxyPattern(1, end))
    } else if start > end {
        Err(ProxyConfigError::EmptyPortRange)
    } else {
        Ok(ProxyPattern(start, end))
    }
}

/// What pattern parsing yields for the given text: a lone star is the
/// full range; text around the first dash is a bounded range; anything
/// else is a single port.
pub open spec fn spec_pattern_parse(b: Seq<u8>) -> Result<ProxyPattern, ProxyConfigError> {
    if b.len() == 1 && b[0] == 42 {
        Ok(ProxyPattern(1, 65535))
    } else {
        match spec_find_byte(b, 0, 45) {
            Some(k) => match (spec_parse_u16(b.take(k)), spec_parse_u16(b.skip(k + 1))) {
                (Some(l), Some(r)) => spec_pattern_check(l, r),
                _ => Err(ProxyConfigError::InvalidPort),
            },
            None => match spec_parse_u16(b) {
                Some(p) => spec_pattern_check(p, p),
                None => Err(ProxyConfigError::InvalidPort),
            },
        }
    }
}

/// The display text of a pattern: a single port as its number, the full
/// range as a star, and any other range as its dash-separated bounds.
pub open spec fn spec_pattern_display(p: ProxyPattern) -> Seq<char> {
    if p.0 == p.1 {
        spec_decimal(p.0 as int)
    } else if p.0 == 1 && p.1 == 65535 {
        seq!['*']
    } else {
        spec_decimal(p.0 as int) + seq!['-'] + spec_decimal(p.1 as int)
    }
}

impl ProxyPattern {
    /// True when the bounds are a constructible pattern.
    pub open spec fn spec_wf(&self) -> bool {
        1 <= self.0 <= self.1
    }

    /// The pattern matching every port.
    pub fn all_ports() -> (r: Self)
        ensures
            r == ProxyPattern(1u16, 65535u16),
    {
        ProxyPattern(1, 65535)
    }

    /// The pattern matching a single port; an error when the port is zero.
    pub fn one_port(port: u16) -> (r: Result<Self, ProxyConfigError>)
        ensures
            r == spec_pattern_check(port, port),
    {
        Self::check(port, port)
    }

    /// The pattern matching every port from `low` to `high` inclusive; an
    /// error unless `0 < low <= high` (a zero `low` is raised to one).
    pub fn port_range(low: u16, high: u16) -> (r: Result<Self, ProxyConfigError>)
        ensures
            r == spec_pattern_check(low, high),
    {
        Self::check(low, high)
    }

    /// True when this pattern includes `port`.
    pub fn matches_port(&self, port: u16) -> (r: bool)
        ensures
            r == (self.0 <= port <= self.1),
    {
        self.0 <= port && port <= self.1
    }

    /// Wrap the bounds as a pattern when they are valid.
    fn check(start: u16, end: u16) -> (r: Result<ProxyPattern, ProxyConfigError>)
        ensures
            r == spec_pattern_check(start, end),
            r matches Ok(p) ==> p.spec_wf(),
    {
        if end == 0 {
            Err(ProxyConfigError::ZeroPort)
        } else if start == 0 {
            Ok(ProxyPattern(1, end))
        } else if start > end {
            Err(ProxyConfigError::EmptyPortRange)
        } else {
            Ok(ProxyPattern(start, end))
        }
    }

    /// Parse a pattern from text: a star, a single port, or a dash
    /// separated range.
    pub fn from_str(s: &str) -> (r: Result<Self, ProxyConfigError>)
        ensures
            r == spec_pattern_parse(s.spec_bytes()),
            r matches Ok(p) ==> p.spec_wf(),
    {
        let b = s.as_bytes();
        if b.len() == 1 && b[0] == 42 {
            return Ok(ProxyPattern(1, 65535));
        }
        match find_byte(b, 45) {
            Some(k) => {
                let left = parse_u16(vstd::slice::slice_subrange(b, 0, k));
                let blen = b.len();
                let right = parse_u16(vstd::slice::slice_subrange(b, k + 1, blen));
                proof {
                    assert(b@.subrange(0, k as int) =~= b@.take(k as int));
                    assert(b@.subrange(k + 1 as int, b@.len() as int) =~= b@.skip(k + 1 as int));
                }
                match (left, right) {
                    (Some(l), Some(r)) => Self::check(l, r),
                    _ => Err(ProxyConfigError::InvalidPort),
                }
            },
            None => {
                match parse_u16(b) {
                    Some(p) => Self::check(p, p),
                    None => Err(ProxyConfigError::InvalidPort),
                }
            },
        }
    }

    /// The display text of this pattern.
    pub fn display_string(&self) -> (s: String)
        ensures
            s@ == spec_pattern_display(*self),
    {
        if self.0 == self.1 {
            u16_decimal(self.0)
        } else if self.0 == 1 && self.1 == 65535 {
            proof {
                reveal_strlit("*");
            }
            let mut s = String::new();
            s.append("*");
            proof {
                assert(s@ =~= seq!['*']);
            }
            s
        } else {
            let mut s = u16_decimal(self.0);
            proof {
                reveal_strlit("-");
            }
            s.append("-");
            append_decimal(&mut s, self.1);
            proof {
                assert(s@ =~= spec_pattern_display(*self));
            }
            s
        }
    }
}

/// A socket address held as plain values: the raw IP bytes and the port.
#[derive(Debug)]
pub enum SockAddr {
    /// An IPv4 address and port.
    V4(Vec<u8>, u16),
    /// An IPv6 address and port.
    V6(Vec<u8>, u16),
}

/// The address a forwarded connection is sent to.
#[derive(Debug)]
pub enum TargetAddr {
    /// An address reachable over the network.
    Inet(SockAddr),
    /// A local socket path.
    Unix(String),
}

/// How a forwarded request is encapsulated.
#[derive(Clone, Copy, PartialEq, Eq, Structural, Debug)]
pub enum Encapsulation {
    /// Open a local socket to the target and forward the contents
    /// verbatim.
    Simple,
}

impl Default for Encapsulation {
    /// The default encapsulation forwards verbatim.
    fn default() -> (r: Self)
        ensures
            r == Encapsulation::Simple,
    {
        Encapsulation::Simple
    }
}

/// The action to take on an incoming request.
#[derive(Debug)]
pub enum ProxyAction {
    /// Close the circuit immediately with an error.
    DestroyCircuit,
    /// Forward the request to a target address.
    Forward(Encapsulation, TargetAddr),
    /// Close the stream immediately with an error.
    RejectStream,
    /// Ignore the stream request.
    IgnoreStream,
}

impl Default for ProxyAction {
    /// The default action destroys the circuit.
    fn default() -> (r: Self)
        ensures
            r is DestroyCircuit,
    {
        ProxyAction::DestroyCircuit
    }
}

impl ProxyAction {
    /// Recognize the three keyword actions.  Target addresses are handed
    /// back as `None` for the caller to parse.
    pub fn parse_keyword(s: &str) -> (r: Option<ProxyAction>)
        ensures
            (s@ == "destroy"@ ==> (r matches Some(a) && a is DestroyCircuit)),
            (s@ == "reject"@ ==> (r matches Some(a) && a is RejectStream)),
            (s@ == "ignore"@ ==> (r matches Some(a) && a is IgnoreStream)),
            (s@ != "destroy"@ && s@ != "reject"@ && s@ != "ignore"@ ==> r is None),
    {
        proof {
            reveal_strlit("destroy");
            reveal_strlit("reject");
            reveal_strlit("ignore");
            assert("reject"@ != "destroy"@) by {
                assert("reject"@.len() == 6);
                assert("destroy"@.len() == 7);
            }
            assert("ignore"@ != "destroy"@) by {
                assert("ignore"@.len() == 6);
                assert("destroy"@.len() == 7);
            }
            assert("reject"@ != "ignore"@) by {
                assert("reject"@[0] == 'r');
                assert("ignore"@[0] == 'i');
            }
        }
        let owned = String::from_str(s);
        if owned.eq(&String::from_str("destroy")) {
            Some(ProxyAction::DestroyCircuit)
        } else if owned.eq(&String::from_str("reject")) {
            Some(ProxyAction::RejectStream)
        } else if owned.eq(&String::from_str("ignore")) {
            Some(ProxyAction::IgnoreStream)
        } else {
            None
        }
    }
}

/// One rule: when the pattern matches the port, take the action.
#[derive(Debug)]
pub struct ProxyRule {
    /// The ports this rule applies to.
    pub source: ProxyPattern,
    /// What to do when it applies.
    pub target: ProxyAction,
}

impl ProxyRule {
    /// Create a new rule mapping `source` to `target`.
    pub fn new(source: ProxyPattern, target: ProxyAction) -> (r: Self)
        ensures
            r.source == source,
            r.target == target,
    {
        ProxyRule { source, target }
    }
}

/// An error from building a configuration.
#[derive(Debug)]
pub enum ConfigBuildError {
    /// A field of the configuration is invalid, with the problem in words.
    Invalid {
        /// The field at fault.
        field: String,
        /// What is wrong with it.
        problem: String,
    },
}

#[verifier::external_type_specification]
#[verifier::external_body]
#[verifier::reject_recursive_types(T)]
#[verifier::reject_recursive_types(StepFnsT)]
pub struct ExRangeInclusiveSet<T, StepFnsT>(rangemap::RangeInclusiveSet<T, StepFnsT>);

/// The set of ports a port-range set covers.
pub uninterp spec fn coverage_ports(s: rangemap::RangeInclusiveSet<u16, u16>) -> Set<u16>;

/// Relies on rangemap::RangeInclusiveSet::new: a new set covers nothing.
#[verifier::external_body]
fn ports_new() -> (s: rangemap::RangeInclusiveSet<u16>)
    ensures
        coverage_ports(s) == Set::<u16>::empty(),
{
    rangemap::RangeInclusiveSet::new()
}

/// Relies on rangemap::RangeInclusiveSet::insert: afterwards the set covers
/// exactly what it covered before plus the inserted range (coalescing of
/// adjacent ranges changes the representation, not the covered values).
#[verifier::external_body]
fn ports_insert(s: &mut rangemap::RangeInclusiveSet<u16>, lo: u16, hi: u16)
    requires
        lo <= hi,
    ensures
        coverage_ports(*final(s)) == coverage_ports(*old(s)).union(
            (Set::new(|p: u16| lo <= p <= hi)),
        ),
{
    s.insert(lo..=hi)
}

/// Relies on rangemap::RangeInclusiveSet::gaps: the iterator yields the
/// maximal uncovered spans within the given range, so yielding nothing
/// means every value of the range is covered.
#[verifier::external_body]
fn ports_covered(s: &rangemap::RangeInclusiveSet<u16>, lo: u16, hi: u16) -> (r: bool)
    requires
        lo <= hi,
    ensures
        r == (forall|p: u16| lo <= p <= hi ==> coverage_ports(*s).contains(p)),
{
    s.gaps(&(lo..=hi)).next().is_none()
}

/// The ports one rule applies to.
pub open spec fn spec_rule_ports(r: ProxyRule) -> Set<u16> {
    Set::new(|p: u16| r.source.0 <= p <= r.source.1)
}

/// The ports covered by the first `k` rules together.
pub open spec fn spec_ports_before(rules: Seq<ProxyRule>, k: int) -> Set<u16>
    decreases k,
{
    if k <= 0 {
        Set::empty()
    } else {
        spec_ports_before(rules, k - 1).union(spec_rule_ports(rules[k - 1]))
    }
}

/// True when rule `k` is unreachable: every port it applies to is already
/// covered by some earlier rule.
pub open spec fn spec_rule_shadowed(rules: Seq<ProxyRule>, k: int) -> bool {
    &&& 0 <= k < rules.len()
    &&& forall|p: u16|
        rules[k].source.0 <= p <= rules[k].source.1 ==> spec_ports_before(rules, k).contains(p)
}

/// True when rule `k` is the first unreachable rule.
pub open spec fn spec_first_shadowed_at(rules: Seq<ProxyRule>, k: int) -> bool {
    spec_rule_shadowed(rules, k) && (forall|j: int| 0 <= j < k ==> !spec_rule_shadowed(rules, j))
}

/// True when every rule's pattern has valid bounds; the constructors only
/// produce such patterns.
pub open spec fn spec_rules_wf(rules: Seq<ProxyRule>) -> bool {
    forall|k: int| 0 <= k < rules.len() ==> (#[trigger] rules[k]).source.spec_wf()
}

/// True when rule `i` is the first whose pattern includes `port`.
pub open spec fn spec_first_rule_match_at(rules: Seq<ProxyRule>, port: u16, i: int) -> bool {
    &&& 0 <= i < rules.len()
    &&& rules[i].source.0 <= port <= rules[i].source.1
    &&& forall|j: int|
        0 <= j < i ==> !((#[trigger] rules[j]).source.0 <= port <= rules[j].source.1)
}

/// Configuration for a reverse proxy: rules applied to incoming requests
/// in order.  A request matching no rule destroys the circuit.
#[derive(Debug)]
pub struct ProxyConfig {
    /// The rules, in the order they are consulted.
    pub proxy_ports: Vec<ProxyRule>,
}

impl ProxyConfig {
    /// Build a configuration from rules, checking that every rule is
    /// reachable: a rule whose whole port range is covered by earlier
    /// rules can never apply, and is reported as invalid.
    pub fn new(proxy_ports: Vec<ProxyRule>) -> (r: Result<ProxyConfig, ConfigBuildError>)
        requires
            spec_rules_wf(proxy_ports@),
        ensures
            (forall|k: int| !spec_rule_shadowed(proxy_ports@, k)) ==> (r matches Ok(c)
                && c.proxy_ports == proxy_ports),
            forall|k: int|
                #[trigger] spec_first_shadowed_at(proxy_ports@, k) ==> (r matches Err(e) && (
                e matches ConfigBuildError::Invalid { field, problem } && field@ == "proxy_ports"@
                    && problem@ == "Port pattern "@ + spec_pattern_display(
                    proxy_ports@[k].source,
                ) + " is not reachable"@)),
    {
        let ghost rules = proxy_ports@;
        let mut covered = ports_new();
        let n = proxy_ports.len();
        let mut i: usize = 0;
        while i < n
            invariant
                i <= n,
                n == rules.len(),
                proxy_ports@ == rules,
                spec_rules_wf(rules),
                coverage_ports(covered) == spec_ports_before(rules, i as int),
                forall|j: int| 0 <= j < i ==> !spec_rule_shadowed(rules, j),
            decreases n - i,
        {
            let lo = proxy_ports[i].source.0;
            let hi = proxy_ports[i].source.1;
            proof {
                assert(rules[i as int].source.spec_wf());
            }
            if ports_covered(&covered, lo, hi) {
                proof {
                    assert(spec_rule_shadowed(rules, i as int));
                    assert(spec_first_shadowed_at(rules, i as int));
                    assert forall|k: int|
                        spec_first_shadowed_at(rules, k) implies k == i as int by {
                        if k < i as int {
                            assert(spec_rule_shadowed(rules, k));
                        } else if k > i as int {
                            assert(!spec_rule_shadowed(rules, i as int));
                        }
                    }
                }
                let mut problem = String::from_str("Port pattern ");
                let disp = proxy_ports[i].source.display_string();
                problem.append(disp.as_str());
                problem.append(" is not reachable");
                let field = String::from_str("proxy_ports");
                return Err(ConfigBuildError::Invalid { field, problem });
            }
            ports_insert(&mut covered, lo, hi);
            proof {
                assert((Set::new(|p: u16| lo <= p <= hi)) =~= spec_rule_ports(rules[i as int]));
                assert(coverage_ports(covered) == spec_ports_before(rules, i + 1 as int));
            }
            i = i + 1;
        }
        proof {
            assert forall|k: int| !spec_rule_shadowed(rules, k) by {
                if 0 <= k < rules.len() {
                    assert(!spec_rule_shadowed(rules, k));
                }
            }
        }
        Ok(ProxyConfig { proxy_ports })
    }

    /// The action configured for a connection request on `port`: the
    /// target of the first rule whose pattern includes it, if any.
    pub fn resolve_port_for_begin(&self, port: u16) -> (r: Option<&ProxyAction>)
        ensures
            (match r {
                Some(a) => exists|i: int|
                    #[trigger] spec_first_rule_match_at(self.proxy_ports@, port, i) && *a
                        == self.proxy_ports@[i].target,
                None => forall|i: int|
                    0 <= i < self.proxy_ports@.len() ==> !((#[trigger] self.proxy_ports@[i])
                        .source.0 <= port <= self.proxy_ports@[i].source.1),
            }),
    {
        let n = self.proxy_ports.len();
        let mut i: usize = 0;
        while i < n
            invariant
                i <= n,
                n == self.proxy_ports@.len(),
                forall|j: int|
                    0 <= j < i ==> !((#[trigger] self.proxy_ports@[j]).source.0 <= port
                        <= self.proxy_ports@[j].source.1),
            decreases n - i,
        {
            if self.proxy_ports[i].source.matches_port(port) {
                proof {
                    assert(spec_first_rule_match_at(self.proxy_ports@, port, i as int));
                }
                return Some(&self.proxy_ports[i].target);
            }
            i = i + 1;
        }
        None
    }
}

} // verus!
