//! Usage of processor and memory: quantities, sums, and when the metrics API is
//! asked.
use crate::lists::{
    lemma_named_from, lemma_put_then_find, named_at, put_entry, with_entry, Named,
};
use crate::mappers::cluster::{is_ready, is_ready_condition, node_is_ready, Condition};
use crate::numbers::{count_i32, lemma_wrapped_again, wrapped, wrapped_i32, wrapping_sum};
use crate::text::{
    cat3, char_from, has_suffix, is_space, lemma_char_from, same, split_once, strip_suffix, trim,
    trimmed,
};
use vstd::prelude::*;

verus! {

/// How often usage is asked for, in seconds, where nothing else is set.
pub const METRICS_INTERVAL: u64 = 15;

/// How often the status of the cluster is asked for, in seconds, where nothing else
/// is set.
pub const STATUS_INTERVAL: u64 = 10;

/// How often to ask, in seconds.
#[derive(Clone, Copy, Debug, PartialEq, Eq, Structural)]
pub struct PollIntervals {
    pub metrics: u64,
    pub status: u64,
}

impl Default for PollIntervals {
    fn default() -> (r: PollIntervals)
        ensures
            r.metrics == METRICS_INTERVAL,
            r.status == STATUS_INTERVAL,
    {
        PollIntervals { metrics: METRICS_INTERVAL, status: STATUS_INTERVAL }
    }
}

/// One point of the history of a pod.
#[derive(Clone, Copy, Debug, PartialEq, Eq, Structural)]
pub struct PodSample {
    /// Milliseconds since 1970.
    pub ts: i64,
    pub cpu_millis: i64,
    pub mem_bytes: i64,
}

/// A list that the metrics API answers with.
#[derive(Clone, Debug)]
pub struct MetricsList<T> {
    pub items: Vec<T>,
}

/// What usage is that of.
#[derive(Clone, Debug)]
pub struct MetaName {
    pub name: String,
    pub namespace: String,
}

/// Usage, as quantities.
#[derive(Clone, Debug)]
pub struct Usage {
    pub cpu: String,
    pub memory: String,
}

#[derive(Clone, Debug)]
pub struct PodMetric {
    pub metadata: MetaName,
    pub containers: Vec<ContainerUsage>,
}

#[derive(Clone, Debug)]
pub struct ContainerUsage {
    pub usage: Usage,
}

#[derive(Clone, Debug)]
pub struct NodeMetric {
    pub metadata: MetaName,
    pub usage: Usage,
}

// ---------------------------------------------------------------------------
// Quantities
// ---------------------------------------------------------------------------

/// A decimal digit.
pub open spec fn is_digit(c: char) -> bool {
    '0' <= c && c <= '9'
}

/// A text of digits alone.
pub open spec fn all_digits(s: Seq<char>) -> bool {
    forall|i: int| 0 <= i < s.len() ==> is_digit(#[trigger] s[i])
}

/// The number that digits write.
pub open spec fn digits_value(s: Seq<char>) -> nat
    decreases s.len(),
{
    if s.len() == 0 {
        0
    } else {
        10 * digits_value(s.drop_last()) + (s.last() as int - '0' as int) as nat
    }
}

/// A decimal number: its sign, its digits as a number, and how many of them stand
/// behind the point.
pub struct Decimal {
    pub negative: bool,
    pub digits: nat,
    pub places: nat,
}

/// A text without the sign that it may start with.
pub open spec fn unsigned(s: Seq<char>) -> Seq<char> {
    if s.len() > 0 && (s[0] == '-' || s[0] == '+') {
        s.skip(1)
    } else {
        s
    }
}

/// The decimal number that a text writes, if it writes one: a sign or none, digits,
/// and at most one point among them.
pub open spec fn decimal(s: Seq<char>) -> Option<Decimal> {
    let negative = s.len() > 0 && s[0] == '-';
    let body = unsigned(s);
    match char_from(body, '.', 0) {
        None => if body.len() > 0 && all_digits(body) {
            Some(Decimal { negative, digits: digits_value(body), places: 0 })
        } else {
            None
        },
        Some(i) => {
            let all = body.take(i) + body.skip(i + 1);
            if all.len() > 0 && all_digits(all) {
                Some(
                    Decimal {
                        negative,
                        digits: digits_value(all),
                        places: body.skip(i + 1).len(),
                    },
                )
            } else {
                None
            }
        },
    }
}

/// Ten to the power of `k`.
pub open spec fn ten_to(k: nat) -> nat
    decreases k,
{
    if k == 0 {
        1
    } else {
        10 * ten_to((k - 1) as nat)
    }
}

/// The whole number nearest to `n / d`, the greater of two.
pub open spec fn nearest(n: int, d: int) -> int {
    (2 * n + d) / (2 * d)
}

/// `n / d` lies in the middle between two whole numbers.
pub open spec fn is_middle(n: int, d: int) -> bool {
    (2 * n) % (2 * d) == d
}

/// The most that whole numbers are counted up to exactly.
pub const EXACT: u64 = 0x20_0000_0000_0000;

/// The number that a text writes, times `num` over `den`, to the nearest whole
/// number, away from zero from the middle. Nothing where the text is no plain
/// decimal number, or the result lies where binary fractions decide it: beyond what
/// they hold exactly, or in the middle between two whole numbers.
pub open spec fn scaled(s: Seq<char>, num: int, den: int) -> Option<int> {
    match decimal(s) {
        None => None,
        Some(x) => if x.digits > EXACT || x.places > 15 {
            None
        } else {
            let n = x.digits * num;
            let d = den * ten_to(x.places);
            if n > EXACT || (d != 1 && (4 * n >= EXACT || (x.places > 0 && is_middle(n, d)))) {
                None
            } else if x.negative {
                Some(-nearest(n, d))
            } else {
                Some(nearest(n, d))
            }
        },
    }
}

proof fn lemma_digits_bound(s: Seq<char>, i: int)
    requires
        0 <= i <= s.len(),
        all_digits(s),
    ensures
        digits_value(s.take(i)) <= digits_value(s),
    decreases s.len(),
{
    if i < s.len() {
        let front = s.drop_last();
        assert(all_digits(front)) by {
            assert forall|k: int| 0 <= k < front.len() implies is_digit(#[trigger] front[k]) by {
                assert(front[k] == s[k]);
            }
        }
        lemma_digits_bound(front, i);
        assert(front.take(i) =~= s.take(i));
    } else {
        assert(s.take(i) =~= s);
    }
}

/// The number that digits write, where they are digits and the number is exact.
fn read_digits(s: &str) -> (r: Option<u64>)
    ensures
        match r {
            Some(n) => all_digits(s@) && n == digits_value(s@) && n <= EXACT,
            None => !all_digits(s@) || digits_value(s@) > EXACT,
        },
{
    let len = s.unicode_len();
    let mut n: u64 = 0;
    let mut i: usize = 0;
    assert(s@.take(0) =~= Seq::empty());
    while i < len
        invariant
            i <= len,
            len == s@.len(),
            n == digits_value(s@.take(i as int)),
            n <= EXACT,
            forall|k: int| 0 <= k < i ==> is_digit(#[trigger] s@[k]),
        decreases len - i,
    {
        let c = s.get_char(i);
        if !('0' <= c && c <= '9') {
            assert(!is_digit(s@[i as int]));
            return None;
        }
        assert(s@.take(i + 1).drop_last() =~= s@.take(i as int));
        n = 10 * n + (c as u64 - '0' as u64);
        i += 1;
        if n > EXACT {
            proof {
                if all_digits(s@) {
                    lemma_digits_bound(s@, i as int);
                }
            }
            return None;
        }
    }
    assert(s@.take(i as int) =~= s@);
    Some(n)
}

fn power_of_ten(k: usize) -> (r: u128)
    requires
        k <= 15,
    ensures
        r == ten_to(k as nat),
        1 <= r <= 1_000_000_000_000_000,
{
    proof {
        reveal_with_fuel(ten_to, 16);
    }
    let mut r: u128 = 1;
    let mut i: usize = 0;
    while i < k
        invariant
            i <= k <= 15,
            r == ten_to(i as nat),
            1 <= r,
            r * ten_to((15 - i) as nat) == 1_000_000_000_000_000,
            ten_to((15 - i) as nat) >= 1,
        decreases k - i,
    {
        proof {
            let rest = ten_to((14 - i) as nat);
            assert(ten_to((15 - i) as nat) == 10 * rest);
            assert((10 * r) * rest == r * (10 * rest)) by (nonlinear_arith);
            assert(rest >= 1);
            assert(10 * r <= 1_000_000_000_000_000) by (nonlinear_arith)
                requires
                    (10 * r) * rest == 1_000_000_000_000_000,
                    rest >= 1,
            ;
        }
        r = 10 * r;
        i += 1;
    }
    proof {
        let rest = ten_to((15 - i) as nat);
        assert(r <= 1_000_000_000_000_000) by (nonlinear_arith)
            requires
                r * rest == 1_000_000_000_000_000,
                rest >= 1,
        ;
    }
    r
}

/// The digits of a number in one, with the point left out.
fn without_point(s: &str) -> (r: (String, usize))
    ensures
        match char_from(s@, '.', 0) {
            None => r.0@ == s@ && r.1 == 0,
            Some(i) => r.0@ == s@.take(i) + s@.skip(i + 1) && r.1 == s@.skip(i + 1).len(),
        },
{
    match split_once(s, '.') {
        None => (s.to_owned(), 0),
        Some((a, b)) => {
            let mut t = a.to_owned();
            t.append(b);
            let n = b.unicode_len();
            (t, n)
        },
    }
}

/// The number that a text writes, times `num` over `den`, to the nearest whole
/// number; nothing where binary fractions would decide it.
fn scale(s: &str, num: u64, den: u64) -> (r: Option<i64>)
    requires
        1 <= num <= 0x4_0000_0000_0000,
        1 <= den <= 1_000_000,
    ensures
        match (r, scaled(s@, num as int, den as int)) {
            (Some(n), Some(m)) => n == m,
            (None, None) => true,
            _ => false,
        },
{
    let len = s.unicode_len();
    let negative = len > 0 && s.get_char(0) == '-';
    let body = if len > 0 && (s.get_char(0) == '-' || s.get_char(0) == '+') {
        s.substring_char(1, len)
    } else {
        s
    };
    assert(body@ =~= unsigned(s@));
    let (digits, places) = without_point(body);
    if digits.as_str().is_empty() {
        return None;
    }
    let x = match read_digits(digits.as_str()) {
        Some(x) => x,
        None => {
            return None;
        },
    };
    if places > 15 {
        return None;
    }
    let ten = power_of_ten(places);
    assert(x * num <= 0x20_0000_0000_0000 * 0x4_0000_0000_0000) by (nonlinear_arith)
        requires
            0 <= x <= 0x20_0000_0000_0000,
            0 <= num <= 0x4_0000_0000_0000,
    ;
    let n: u128 = x as u128 * num as u128;
    assert(1 <= den * ten <= 1_000_000 * 1_000_000_000_000_000) by (nonlinear_arith)
        requires
            1 <= den <= 1_000_000,
            1 <= ten <= 1_000_000_000_000_000,
    ;
    let d: u128 = den as u128 * ten;
    if n > EXACT as u128 {
        return None;
    }
    if d != 1 && (4 * n >= EXACT as u128 || (places > 0 && (2 * n) % (2 * d) == d)) {
        return None;
    }
    let q: u128 = (2 * n + d) / (2 * d);
    assert(q <= n + 1) by (nonlinear_arith)
        requires
            q == (2 * n + d) / (2 * d),
            d >= 1,
            n >= 0,
    ;
    if negative {
        Some(-(q as i64))
    } else {
        Some(q as i64)
    }
}

/// What the suffix of a quantity of the processor makes of its number to give
/// thousandths: what it is multiplied with, what it is divided by, and how long the
/// suffix is.
pub open spec fn cpu_unit(t: Seq<char>) -> (int, int, int) {
    if has_suffix(t, "n"@) {
        (1, 1_000_000, 1)
    } else if has_suffix(t, "u"@) {
        (1, 1000, 1)
    } else if has_suffix(t, "m"@) {
        (1, 1, 1)
    } else {
        (1000, 1, 0)
    }
}

/// A quantity of the processor in thousandths.
pub open spec fn cpu_quantity(s: Seq<char>) -> Option<int> {
    let t = trimmed(s);
    if t.len() == 0 {
        Some(0)
    } else {
        let (num, den, len) = cpu_unit(t);
        scaled(t.take(t.len() - len), num, den)
    }
}

/// The number of a quantity of the processor, and what it is multiplied with and
/// divided by to give thousandths.
pub fn cpu_parts<'a>(s: &'a str) -> (r: (&'a str, u64, u64))
    ensures
        r.0@ == trimmed(s@).take(trimmed(s@).len() - cpu_unit(trimmed(s@)).2),
        r.1 == cpu_unit(trimmed(s@)).0,
        r.2 == cpu_unit(trimmed(s@)).1,
        1 <= r.1 <= 1000,
        1 <= r.2 <= 1_000_000,
{
    proof {
        reveal_strlit("n");
        reveal_strlit("u");
        reveal_strlit("m");
    }
    let t = trim(s);
    if let Some(v) = strip_suffix(t, "n") {
        return (v, 1, 1_000_000);
    }
    if let Some(v) = strip_suffix(t, "u") {
        return (v, 1, 1000);
    }
    if let Some(v) = strip_suffix(t, "m") {
        return (v, 1, 1);
    }
    assert(t@.take(t@.len() as int) =~= t@);
    (t, 1000, 1)
}

/// A quantity of the processor in thousandths: `123456n`, `500u`, `212m`, `2` or
/// `1.5`. Nothing where it is no plain number, or one that takes binary fractions to
/// round.
pub fn parse_cpu_millis(s: &str) -> (r: Option<i64>)
    ensures
        match (r, cpu_quantity(s@)) {
            (Some(n), Some(m)) => n == m,
            (None, None) => true,
            _ => false,
        },
{
    if trim(s).is_empty() {
        return Some(0);
    }
    let (number, num, den) = cpu_parts(s);
    scale(number, num, den)
}

/// What the suffix of a quantity of memory stands for, and how long it is.
pub open spec fn mem_unit(t: Seq<char>) -> (int, int) {
    if has_suffix(t, "Ki"@) {
        (0x400, 2)
    } else if has_suffix(t, "Mi"@) {
        (0x10_0000, 2)
    } else if has_suffix(t, "Gi"@) {
        (0x4000_0000, 2)
    } else if has_suffix(t, "Ti"@) {
        (0x100_0000_0000, 2)
    } else if has_suffix(t, "Pi"@) {
        (0x4_0000_0000_0000, 2)
    } else if has_suffix(t, "k"@) {
        (1_000, 1)
    } else if has_suffix(t, "M"@) {
        (1_000_000, 1)
    } else if has_suffix(t, "G"@) {
        (1_000_000_000, 1)
    } else if has_suffix(t, "T"@) {
        (1_000_000_000_000, 1)
    } else if has_suffix(t, "P"@) {
        (1_000_000_000_000_000, 1)
    } else {
        (1, 0)
    }
}

/// A quantity of memory in bytes.
pub open spec fn mem_quantity(s: Seq<char>) -> Option<int> {
    let t = trimmed(s);
    if t.len() == 0 {
        Some(0)
    } else {
        let (unit, len) = mem_unit(t);
        scaled(t.take(t.len() - len), unit, 1)
    }
}

/// The number of a quantity of memory, and what it is multiplied with to give bytes.
pub fn mem_parts<'a>(s: &'a str) -> (r: (&'a str, u64))
    ensures
        r.0@ == trimmed(s@).take(trimmed(s@).len() - mem_unit(trimmed(s@)).1),
        r.1 == mem_unit(trimmed(s@)).0,
        1 <= r.1 <= 0x4_0000_0000_0000,
{
    proof {
        reveal_strlit("Ki");
        reveal_strlit("Mi");
        reveal_strlit("Gi");
        reveal_strlit("Ti");
        reveal_strlit("Pi");
        reveal_strlit("k");
        reveal_strlit("M");
        reveal_strlit("G");
        reveal_strlit("T");
        reveal_strlit("P");
    }
    let t = trim(s);
    if let Some(v) = strip_suffix(t, "Ki") {
        return (v, 0x400);
    }
    if let Some(v) = strip_suffix(t, "Mi") {
        return (v, 0x10_0000);
    }
    if let Some(v) = strip_suffix(t, "Gi") {
        return (v, 0x4000_0000);
    }
    if let Some(v) = strip_suffix(t, "Ti") {
        return (v, 0x100_0000_0000);
    }
    if let Some(v) = strip_suffix(t, "Pi") {
        return (v, 0x4_0000_0000_0000);
    }
    if let Some(v) = strip_suffix(t, "k") {
        return (v, 1_000);
    }
    if let Some(v) = strip_suffix(t, "M") {
        return (v, 1_000_000);
    }
    if let Some(v) = strip_suffix(t, "G") {
        return (v, 1_000_000_000);
    }
    if let Some(v) = strip_suffix(t, "T") {
        return (v, 1_000_000_000_000);
    }
    if let Some(v) = strip_suffix(t, "P") {
        return (v, 1_000_000_000_000_000);
    }
    assert(t@.take(t@.len() as int) =~= t@);
    (t, 1)
}

/// A quantity of memory in bytes: with a binary suffix (`Ki` to `Pi`), a decimal one
/// (`k` to `P`), or none. Nothing where it is no plain number, or one that takes
/// binary fractions to round.
pub fn parse_mem_bytes(s: &str) -> (r: Option<i64>)
    ensures
        match (r, mem_quantity(s@)) {
            (Some(n), Some(m)) => n == m,
            (None, None) => true,
            _ => false,
        },
{
    if trim(s).is_empty() {
        return Some(0);
    }
    let (number, unit) = mem_parts(s);
    scale(number, unit, 1)
}

/// A quantity as it is counted: the quantity itself where it is a
/// plain one, else what rounding it in binary fractions gives.
pub fn counted(plain: Option<i64>, rounded: i64) -> (r: i64)
    ensures
        r == (match plain {
            Some(n) => n,
            None => rounded,
        }),
{
    match plain {
        Some(n) => n,
        None => rounded,
    }
}

// ---------------------------------------------------------------------------
// Usage
// ---------------------------------------------------------------------------

/// The sum of some numbers.
pub open spec fn sum_of(s: Seq<i64>) -> int
    decreases s.len(),
{
    if s.len() == 0 {
        0
    } else {
        sum_of(s.drop_last()) + s.last()
    }
}

/// The sum of some numbers, wrapped around where it is out of range.
pub open spec fn total_of(s: Seq<i64>) -> int {
    wrapped(sum_of(s))
}

/// The sum of some numbers, wrapped around where it is out of range.
pub fn total(v: &Vec<i64>) -> (r: i64)
    ensures
        r == total_of(v@),
{
    let mut sum: i64 = 0;
    let mut i: usize = 0;
    while i < v.len()
        invariant
            i <= v@.len(),
            sum == wrapped(sum_of(v@.take(i as int))),
        decreases v@.len() - i,
    {
        proof {
            assert(v@.take(i + 1).drop_last() =~= v@.take(i as int));
            lemma_wrapped_again(sum_of(v@.take(i as int)), v@[i as int] as int);
        }
        sum = wrapping_sum(sum, v[i]);
        i += 1;
    }
    assert(v@.take(i as int) =~= v@);
    sum
}

/// The usage of a pod.
#[derive(Clone, Debug)]
pub struct PodUsage {
    /// Namespace and name of the pod.
    pub key: String,
    pub cpu_millis: i64,
    pub mem_bytes: i64,
    /// When it was taken, in milliseconds since 1970.
    pub ts: i64,
}

impl Named for PodUsage {
    open spec fn key(&self) -> Seq<char> {
        self.key@
    }

    fn key_str(&self) -> (r: &str) {
        self.key.as_str()
    }
}

/// What is known of a pod's usage: that of each of its containers.
pub struct PodReading {
    pub namespace: String,
    pub name: String,
    pub cpu_millis: Vec<i64>,
    pub mem_bytes: Vec<i64>,
}

/// The usage of a pod is that of its containers together.
pub open spec fn is_usage_of(u: PodUsage, p: PodReading, now: i64) -> bool {
    &&& u.key@ == p.namespace@ + "/"@ + p.name@
    &&& u.cpu_millis == total_of(p.cpu_millis@)
    &&& u.mem_bytes == total_of(p.mem_bytes@)
    &&& u.ts == now
}

/// The usage of pods is that of their readings; of two readings of one pod the
/// later counts.
pub open spec fn is_usage(us: Seq<PodUsage>, ps: Seq<PodReading>, now: i64) -> bool
    decreases ps.len(),
{
    if ps.len() == 0 {
        us.len() == 0
    } else {
        exists|before: Seq<PodUsage>, u: PodUsage|
            #![trigger with_entry(before, u)]
            is_usage(before, ps.drop_last(), now) && is_usage_of(u, ps.last(), now) && us
                == with_entry(before, u)
    }
}

/// The usage of pods, at the time `now`.
pub fn pod_usage(readings: &Vec<PodReading>, now: i64) -> (r: Vec<PodUsage>)
    ensures
        is_usage(r@, readings@, now),
{
    let mut out: Vec<PodUsage> = Vec::new();
    let mut i: usize = 0;
    assert(readings@.take(0) =~= Seq::empty());
    while i < readings.len()
        invariant
            i <= readings@.len(),
            is_usage(out@, readings@.take(i as int), now),
        decreases readings@.len() - i,
    {
        let p = &readings[i];
        let u = PodUsage {
            key: cat3(p.namespace.as_str(), "/", p.name.as_str()),
            cpu_millis: total(&p.cpu_millis),
            mem_bytes: total(&p.mem_bytes),
            ts: now,
        };
        let ghost before = out@;
        let ghost put = u;
        put_entry(&mut out, u);
        proof {
            let t = readings@.take(i + 1);
            assert(t.drop_last() =~= readings@.take(i as int));
            assert(t.last() == readings@[i as int]);
            assert(is_usage_of(put, t.last(), now));
            assert(out@ == with_entry(before, put));
        }
        i += 1;
    }
    assert(readings@.take(i as int) =~= readings@);
    out
}

/// The usage of a node, and what it has.
#[derive(Clone, Debug)]
pub struct NodeReading {
    pub name: String,
    pub cpu_millis: i64,
    pub mem_bytes: i64,
}

/// What a node has to give.
#[derive(Clone, Debug)]
pub struct NodeCapacity {
    pub name: String,
    pub cpu_millis: i64,
    pub mem_bytes: i64,
}

impl Named for NodeCapacity {
    open spec fn key(&self) -> Seq<char> {
        self.name@
    }

    fn key_str(&self) -> (r: &str) {
        self.name.as_str()
    }
}

/// What the node `name` has to give: processor and memory; nothing where that is not
/// known. Of two entries the later counts.
pub open spec fn capacity_of(s: Seq<NodeCapacity>, name: Seq<char>) -> (i64, i64)
    decreases s.len(),
{
    if s.len() == 0 {
        (0, 0)
    } else if s.last().name@ == name {
        (s.last().cpu_millis, s.last().mem_bytes)
    } else {
        capacity_of(s.drop_last(), name)
    }
}

/// What the node `name` has to give: processor and memory.
pub fn node_capacity(v: &Vec<NodeCapacity>, name: &str) -> (r: (i64, i64))
    ensures
        r == capacity_of(v@, name@),
{
    let mut i: usize = v.len();
    assert(v@.take(i as int) =~= v@);
    while i > 0
        invariant
            i <= v@.len(),
            capacity_of(v@, name@) == capacity_of(v@.take(i as int), name@),
        decreases i,
    {
        assert(v@.take(i as int).last() == v@[i - 1]);
        assert(v@.take(i as int).drop_last() =~= v@.take(i - 1));
        if same(v[i - 1].name.as_str(), name) {
            return (v[i - 1].cpu_millis, v[i - 1].mem_bytes);
        }
        i -= 1;
    }
    (0, 0)
}

/// What all nodes use and have, processor and memory each.
#[derive(Clone, Copy, Debug, PartialEq, Eq, Structural)]
pub struct ClusterUse {
    pub used_cpu: i64,
    pub used_mem: i64,
    pub capacity_cpu: i64,
    pub capacity_mem: i64,
}

/// What the nodes use of the processor.
pub open spec fn cpus(s: Seq<NodeReading>) -> Seq<i64> {
    Seq::new(s.len(), |i: int| s[i].cpu_millis)
}

/// What the nodes use of the memory.
pub open spec fn mems(s: Seq<NodeReading>) -> Seq<i64> {
    Seq::new(s.len(), |i: int| s[i].mem_bytes)
}

/// What the nodes have of the processor.
pub open spec fn cpu_capacities(s: Seq<NodeReading>, c: Seq<NodeCapacity>) -> Seq<i64> {
    Seq::new(s.len(), |i: int| capacity_of(c, s[i].name@).0)
}

/// What the nodes have of the memory.
pub open spec fn mem_capacities(s: Seq<NodeReading>, c: Seq<NodeCapacity>) -> Seq<i64> {
    Seq::new(s.len(), |i: int| capacity_of(c, s[i].name@).1)
}

/// What all nodes that were read use and have.
pub fn cluster_use(readings: &Vec<NodeReading>, capacities: &Vec<NodeCapacity>) -> (r: ClusterUse)
    ensures
        r.used_cpu == total_of(cpus(readings@)),
        r.used_mem == total_of(mems(readings@)),
        r.capacity_cpu == total_of(cpu_capacities(readings@, capacities@)),
        r.capacity_mem == total_of(mem_capacities(readings@, capacities@)),
{
    let mut a: Vec<i64> = Vec::new();
    let mut b: Vec<i64> = Vec::new();
    let mut c: Vec<i64> = Vec::new();
    let mut d: Vec<i64> = Vec::new();
    let mut i: usize = 0;
    while i < readings.len()
        invariant
            i <= readings@.len(),
            a@ == cpus(readings@).take(i as int),
            b@ == mems(readings@).take(i as int),
            c@ == cpu_capacities(readings@, capacities@).take(i as int),
            d@ == mem_capacities(readings@, capacities@).take(i as int),
        decreases readings@.len() - i,
    {
        let (cpu, mem) = node_capacity(capacities, readings[i].name.as_str());
        a.push(readings[i].cpu_millis);
        b.push(readings[i].mem_bytes);
        c.push(cpu);
        d.push(mem);
        i += 1;
        proof {
            assert(a@ =~= cpus(readings@).take(i as int));
            assert(b@ =~= mems(readings@).take(i as int));
            assert(c@ =~= cpu_capacities(readings@, capacities@).take(i as int));
            assert(d@ =~= mem_capacities(readings@, capacities@).take(i as int));
        }
    }
    proof {
        assert(cpus(readings@).take(i as int) =~= cpus(readings@));
        assert(mems(readings@).take(i as int) =~= mems(readings@));
        assert(cpu_capacities(readings@, capacities@).take(i as int) =~= cpu_capacities(
            readings@,
            capacities@,
        ));
        assert(mem_capacities(readings@, capacities@).take(i as int) =~= mem_capacities(
            readings@,
            capacities@,
        ));
    }
    ClusterUse {
        used_cpu: total(&a),
        used_mem: total(&b),
        capacity_cpu: total(&c),
        capacity_mem: total(&d),
    }
}

// ---------------------------------------------------------------------------
// Asking
// ---------------------------------------------------------------------------

/// Whether the metrics API is asked this time. While it is not there, only every
/// fourth time.
pub fn should_probe(misses: u32) -> (r: bool)
    ensures
        r == (misses % 4 == 0),
{
    misses % 4 == 0
}

/// One more time that the metrics API was not there.
pub open spec fn one_more(misses: u32) -> u32 {
    if misses == u32::MAX {
        0
    } else {
        (misses + 1) as u32
    }
}

/// How many times in a row the metrics API was not there, after one more time.
/// `answered` is whether it was, where it was asked.
pub fn next_misses(misses: u32, answered: bool) -> (r: u32)
    ensures
        r == (if answered && misses % 4 == 0 {
            0
        } else {
            one_more(misses)
        }),
{
    if answered && misses % 4 == 0 {
        0
    } else {
        misses.wrapping_add(1)
    }
}

/// How many nodes are ready.
pub open spec fn ready_nodes(s: Seq<Vec<Condition>>) -> nat
    decreases s.len(),
{
    if s.len() == 0 {
        0
    } else {
        ready_nodes(s.drop_last()) + (if is_ready(s.last()@) {
            1nat
        } else {
            0
        })
    }
}

/// How many nodes are ready and how many there are, by the conditions of each.
pub fn count_ready_nodes(nodes: &Vec<Vec<Condition>>) -> (r: (i32, i32))
    ensures
        r.0 == wrapped_i32(ready_nodes(nodes@) as int),
        r.1 == wrapped_i32(nodes@.len() as int),
{
    let mut ready: usize = 0;
    let mut i: usize = 0;
    while i < nodes.len()
        invariant
            i <= nodes@.len(),
            ready <= i,
            ready == ready_nodes(nodes@.take(i as int)),
        decreases nodes@.len() - i,
    {
        assert(nodes@.take(i + 1).drop_last() =~= nodes@.take(i as int));
        if node_is_ready(&nodes[i]) {
            ready += 1;
        }
        i += 1;
    }
    assert(nodes@.take(i as int) =~= nodes@);
    (count_i32(ready), count_i32(nodes.len()))
}

// ---------------------------------------------------------------------------
// Laws
// ---------------------------------------------------------------------------

/// A quantity of whole units is what it says, exactly, as far as that can be held.
pub proof fn law_whole_quantities_are_exact(s: Seq<char>, unit: int)
    requires
        s.len() > 0,
        all_digits(s),
        unit >= 1,
        digits_value(s) * unit <= EXACT,
    ensures
        scaled(s, unit, 1) == Some(digits_value(s) * unit),
{
    assert(is_digit(s[0]));
    assert(unsigned(s) == s);
    lemma_char_from(s, '.', 0);
    match char_from(s, '.', 0) {
        Some(i) => {
            assert(is_digit(s[i]));
        },
        None => {},
    }
    let x = digits_value(s) as int;
    assert(x <= EXACT) by (nonlinear_arith)
        requires
            x * unit <= EXACT,
            unit >= 1,
            x >= 0,
    ;
    assert(ten_to(0) == 1);
    let n = x * unit;
    assert((2 * n + 1) / 2 == n);
    assert(nearest(n, 1) == n);
}

/// While the metrics API is not there, it is asked again at least every fourth time.
pub proof fn law_metrics_are_asked_again(misses: u32)
    ensures
        ({
            let second = one_more(misses);
            let third = one_more(second);
            let fourth = one_more(third);
            misses % 4 == 0 || second % 4 == 0 || third % 4 == 0 || fourth % 4 == 0
        }),
{
}

proof fn lemma_sum_of(s: Seq<i64>)
    ensures
        sum_of(s) == s.fold_left(0int, |n: int, x: i64| n + x),
    decreases s.len(),
{
    if s.len() > 0 {
        lemma_sum_of(s.drop_last());
    }
}

proof fn lemma_sum_concat(a: Seq<i64>, b: Seq<i64>)
    ensures
        sum_of(a + b) == sum_of(a) + sum_of(b),
    decreases b.len(),
{
    if b.len() == 0 {
        assert(a + b =~= a);
    } else {
        lemma_sum_concat(a, b.drop_last());
        assert((a + b).drop_last() =~= a + b.drop_last());
    }
}

proof fn lemma_total_concat(a: Seq<i64>, b: Seq<i64>)
    ensures
        i64::MIN <= total_of(a) + total_of(b) <= i64::MAX ==> total_of(a + b) == total_of(a)
            + total_of(b),
{
    lemma_sum_concat(a, b);
    lemma_wrapped_again(sum_of(a), sum_of(b));
    lemma_wrapped_again(sum_of(b), total_of(a));
    let n = total_of(a) + total_of(b);
    assert(i64::MIN <= n <= i64::MAX ==> wrapped(n) == n);
}

/// A total is the sum of all the numbers, where it can be held.
pub proof fn law_total_is_the_sum(v: Vec<i64>, r: i64)
    requires
        call_ensures(total, (&v,), r),
    ensures
        ({
            let sum = v@.fold_left(0int, |n: int, x: i64| n + x);
            i64::MIN <= sum <= i64::MAX ==> r == sum
        }),
{
    lemma_sum_of(v@);
}

/// What a cluster uses and has is what its nodes use and have, all of them: that of two
/// sets of nodes together is that of the one and that of the other, where it can be held.
pub proof fn law_cluster_use_adds_up(
    a: Vec<NodeReading>,
    b: Vec<NodeReading>,
    both: Vec<NodeReading>,
    capacities: Vec<NodeCapacity>,
    of_a: ClusterUse,
    of_b: ClusterUse,
    r: ClusterUse,
)
    requires
        both@ == a@ + b@,
        call_ensures(cluster_use, (&a, &capacities), of_a),
        call_ensures(cluster_use, (&b, &capacities), of_b),
        call_ensures(cluster_use, (&both, &capacities), r),
    ensures
        i64::MIN <= of_a.used_cpu + of_b.used_cpu <= i64::MAX ==> r.used_cpu == of_a.used_cpu
            + of_b.used_cpu,
        i64::MIN <= of_a.used_mem + of_b.used_mem <= i64::MAX ==> r.used_mem == of_a.used_mem
            + of_b.used_mem,
        i64::MIN <= of_a.capacity_cpu + of_b.capacity_cpu <= i64::MAX ==> r.capacity_cpu
            == of_a.capacity_cpu + of_b.capacity_cpu,
        i64::MIN <= of_a.capacity_mem + of_b.capacity_mem <= i64::MAX ==> r.capacity_mem
            == of_a.capacity_mem + of_b.capacity_mem,
{
    let c = capacities@;
    assert(cpus(a@ + b@) =~= cpus(a@) + cpus(b@));
    assert(mems(a@ + b@) =~= mems(a@) + mems(b@));
    assert(cpu_capacities(a@ + b@, c) =~= cpu_capacities(a@, c) + cpu_capacities(b@, c));
    assert(mem_capacities(a@ + b@, c) =~= mem_capacities(a@, c) + mem_capacities(b@, c));
    lemma_total_concat(cpus(a@), cpus(b@));
    lemma_total_concat(mems(a@), mems(b@));
    lemma_total_concat(cpu_capacities(a@, c), cpu_capacities(b@, c));
    lemma_total_concat(mem_capacities(a@, c), mem_capacities(b@, c));
}

/// A cluster of one node uses what the node uses and has what the node has, and one of no
/// nodes uses and has nothing.
pub proof fn law_cluster_of_one_node(
    readings: Vec<NodeReading>,
    capacities: Vec<NodeCapacity>,
    name: &str,
    capacity: (i64, i64),
    r: ClusterUse,
)
    requires
        call_ensures(cluster_use, (&readings, &capacities), r),
        readings@.len() <= 1,
        readings@.len() == 1 ==> name@ == readings@[0].name@,
        call_ensures(node_capacity, (&capacities, name), capacity),
    ensures
        readings@.len() == 0 ==> r.used_cpu == 0 && r.used_mem == 0 && r.capacity_cpu == 0
            && r.capacity_mem == 0,
        readings@.len() == 1 ==> r.used_cpu == readings@[0].cpu_millis && r.used_mem
            == readings@[0].mem_bytes && r.capacity_cpu == capacity.0 && r.capacity_mem
            == capacity.1,
{
    reveal_with_fuel(sum_of, 3);
}

/// What a node has is what the last entry of its name says, and nothing where none does.
pub proof fn law_capacity_is_that_of_the_node(
    v: Vec<NodeCapacity>,
    name: &str,
    r: (i64, i64),
    i: int,
)
    requires
        call_ensures(node_capacity, (&v, name), r),
    ensures
        0 <= i < v@.len() && v@[i].name@ == name@ && (forall|k: int|
            i < k < v@.len() ==> (#[trigger] v@[k]).name@ != name@) ==> r == (
            v@[i].cpu_millis,
            v@[i].mem_bytes,
        ),
        (forall|k: int| 0 <= k < v@.len() ==> (#[trigger] v@[k]).name@ != name@) ==> r == (
            0i64,
            0i64,
        ),
{
    lemma_capacity_of(v@, name@, i);
}

proof fn lemma_capacity_of(s: Seq<NodeCapacity>, name: Seq<char>, i: int)
    ensures
        0 <= i < s.len() && s[i].name@ == name && (forall|k: int|
            i < k < s.len() ==> (#[trigger] s[k]).name@ != name) ==> capacity_of(s, name) == (
            s[i].cpu_millis,
            s[i].mem_bytes,
        ),
        (forall|k: int| 0 <= k < s.len() ==> (#[trigger] s[k]).name@ != name) ==> capacity_of(
            s,
            name,
        ) == (0i64, 0i64),
    decreases s.len(),
{
    if s.len() > 0 {
        let front = s.drop_last();
        lemma_capacity_of(front, name, i);
        assert(s[s.len() - 1] == s.last());
        assert forall|k: int| 0 <= k < front.len() implies front[k] == #[trigger] s[k] by {}
        if forall|k: int| 0 <= k < s.len() ==> (#[trigger] s[k]).name@ != name {
            assert forall|k: int| 0 <= k < front.len() implies (#[trigger] front[k]).name@
                != name by {
                assert(s[k].name@ != name);
            }
        }
        if 0 <= i < s.len() - 1 && s[i].name@ == name && (forall|k: int|
            i < k < s.len() ==> (#[trigger] s[k]).name@ != name) {
            assert forall|k: int| i < k < front.len() implies (#[trigger] front[k]).name@
                != name by {
                assert(s[k].name@ != name);
            }
        }
    }
}

proof fn lemma_usage(us: Seq<PodUsage>, ps: Seq<PodReading>, now: i64, i: int)
    requires
        is_usage(us, ps, now),
        0 <= i < ps.len(),
        forall|k: int|
            i < k < ps.len() ==> (#[trigger] ps[k]).namespace@ + "/"@ + ps[k].name@
                != ps[i].namespace@ + "/"@ + ps[i].name@,
    ensures
        named_at(us, ps[i].namespace@ + "/"@ + ps[i].name@) matches Some(j) && 0 <= j < us.len()
            && is_usage_of(us[j], ps[i], now),
    decreases ps.len(),
{
    let front = ps.drop_last();
    let key = ps[i].namespace@ + "/"@ + ps[i].name@;
    let (before, u) = choose|before: Seq<PodUsage>, u: PodUsage|
        #![trigger with_entry(before, u)]
        is_usage(before, front, now) && is_usage_of(u, ps.last(), now) && us == with_entry(
            before,
            u,
        );
    lemma_put_then_find(before, u, key);
    lemma_named_from(us, key, 0);
    assert(ps[ps.len() - 1] == ps.last());
    if i < front.len() {
        assert(front[i] == ps[i]);
        assert forall|k: int| i < k < front.len() implies (#[trigger] front[k]).namespace@ + "/"@
            + front[k].name@ != front[i].namespace@ + "/"@ + front[i].name@ by {
            assert(front[k] == ps[k]);
        }
        lemma_usage(before, front, now, i);
    }
}

/// The usage of a pod is there under its namespace and name, as of now: what its
/// containers use together, each of them counted. Of two readings of one pod the later
/// counts.
pub proof fn law_usage_of_a_pod_is_that_of_its_containers(
    readings: Vec<PodReading>,
    now: i64,
    r: Vec<PodUsage>,
    i: int,
)
    requires
        call_ensures(pod_usage, (&readings, now), r),
        0 <= i < readings@.len(),
        forall|k: int|
            i < k < readings@.len() ==> (#[trigger] readings@[k]).namespace@ + "/"@
                + readings@[k].name@ != readings@[i].namespace@ + "/"@ + readings@[i].name@,
    ensures
        exists|j: int|
            #![trigger r@[j]]
            0 <= j < r@.len() && r@[j].key@ == readings@[i].namespace@ + "/"@ + readings@[i].name@
                && r@[j].ts == now && ({
                let cpu = readings@[i].cpu_millis@.fold_left(0int, |n: int, x: i64| n + x);
                let mem = readings@[i].mem_bytes@.fold_left(0int, |n: int, x: i64| n + x);
                &&& i64::MIN <= cpu <= i64::MAX ==> r@[j].cpu_millis == cpu
                &&& i64::MIN <= mem <= i64::MAX ==> r@[j].mem_bytes == mem
            }),
{
    lemma_usage(r@, readings@, now, i);
    lemma_sum_of(readings@[i].cpu_millis@);
    lemma_sum_of(readings@[i].mem_bytes@);
}

proof fn lemma_plain_text(s: Seq<char>)
    requires
        s.len() > 0,
        !is_space(s[0]),
        !is_space(s.last()),
    ensures
        trimmed(s) == s,
{
}

proof fn lemma_last_letter(d: Seq<char>, unit: Seq<char>, other: Seq<char>)
    requires
        unit.len() > 0,
        other.len() > 0,
        unit.last() != other.last(),
    ensures
        !has_suffix(d + unit, other),
{
    let t = d + unit;
    if has_suffix(t, other) {
        assert(t.skip(t.len() - other.len())[other.len() - 1] == other.last());
        assert(t[t.len() - 1] == unit.last());
    }
}

/// A quantity of the processor is in thousandths: plain numbers are whole processors,
/// `m` marks thousandths, `u` millionths and `n` billionths, each to the nearest.
pub proof fn law_cpu_units(s: &str, d: Seq<char>, unit: Seq<char>, r: Option<i64>)
    requires
        call_ensures(parse_cpu_millis, (s,), r),
        s@ == d + unit,
        d.len() > 0,
        all_digits(d),
        digits_value(d) <= 1_000_000_000_000,
    ensures
        unit.len() == 0 ==> r == Some((digits_value(d) * 1000) as i64),
        unit == "m"@ ==> r == Some(digits_value(d) as i64),
        unit == "u"@ ==> r == Some(((2 * digits_value(d) + 1000) / 2000) as i64),
        unit == "n"@ ==> r == Some(((2 * digits_value(d) + 1_000_000) / 2_000_000) as i64),
{
    reveal_strlit("n");
    reveal_strlit("u");
    reveal_strlit("m");
    assert(is_digit(d[0]));
    assert(is_digit(d[d.len() - 1]));
    if unit.len() == 0 || unit == "m"@ || unit == "u"@ || unit == "n"@ {
        let t = s@;
        assert(t[0] == d[0]);
        assert(unit.len() == 0 ==> t =~= d);
        lemma_plain_text(t);
        assert(t.take(d.len() as int) =~= d);
        assert(unit.len() > 0 ==> t.skip(t.len() - 1) =~= unit);
        if unit.len() == 0 {
            lemma_last_letter(Seq::empty(), d, "n"@);
            lemma_last_letter(Seq::empty(), d, "u"@);
            lemma_last_letter(Seq::empty(), d, "m"@);
            assert(Seq::empty() + d =~= d);
            law_whole_quantities_are_exact(d, 1000);
        } else if unit == "m"@ {
            lemma_last_letter(d, unit, "n"@);
            lemma_last_letter(d, unit, "u"@);
            law_whole_quantities_are_exact(d, 1);
        } else if unit == "u"@ {
            lemma_last_letter(d, unit, "n"@);
            lemma_digits_scaled(d, 1000);
        } else {
            lemma_digits_scaled(d, 1_000_000);
        }
    }
}

proof fn lemma_digits_scaled(d: Seq<char>, den: int)
    requires
        d.len() > 0,
        all_digits(d),
        den > 1,
        4 * digits_value(d) < EXACT,
    ensures
        scaled(d, 1, den) == Some((2 * digits_value(d) + den) / (2 * den)),
{
    assert(is_digit(d[0]));
    assert(unsigned(d) == d);
    lemma_char_from(d, '.', 0);
    match char_from(d, '.', 0) {
        Some(i) => {
            assert(is_digit(d[i]));
        },
        None => {},
    }
    assert(ten_to(0) == 1);
    assert(den * 1 == den);
}

spec fn unit_size(unit: Seq<char>) -> Option<int> {
    if unit.len() == 0 {
        Some(1)
    } else if unit == "Ki"@ {
        Some(1024)
    } else if unit == "Mi"@ {
        Some(1024int * 1024)
    } else if unit == "Gi"@ {
        Some(1024int * 1024 * 1024)
    } else if unit == "Ti"@ {
        Some(1024int * 1024 * 1024 * 1024)
    } else if unit == "Pi"@ {
        Some(1024int * 1024 * 1024 * 1024 * 1024)
    } else if unit == "k"@ {
        Some(1000)
    } else if unit == "M"@ {
        Some(1000int * 1000)
    } else if unit == "G"@ {
        Some(1000int * 1000 * 1000)
    } else if unit == "T"@ {
        Some(1000int * 1000 * 1000 * 1000)
    } else if unit == "P"@ {
        Some(1000int * 1000 * 1000 * 1000 * 1000)
    } else {
        None
    }
}

proof fn lemma_binary_unit(d: Seq<char>, unit: Seq<char>, other: Seq<char>)
    requires
        unit.len() == 2,
        other.len() == 2,
        unit[0] != other[0],
    ensures
        !has_suffix(d + unit, other),
{
    let t = d + unit;
    if has_suffix(t, other) {
        assert(t.skip(t.len() - 2)[0] == other[0]);
        assert(t[t.len() - 2] == unit[0]);
    }
}

proof fn lemma_mem_unit(d: Seq<char>, unit: Seq<char>)
    requires
        d.len() > 0,
        all_digits(d),
        unit_size(unit) is Some,
    ensures
        mem_unit(d + unit) == (unit_size(unit)->0, unit.len() as int),
        unit.len() <= 2,
        unit.len() > 0 ==> !is_space(unit.last()),
{
    reveal_strlit("Ki");
    reveal_strlit("Mi");
    reveal_strlit("Gi");
    reveal_strlit("Ti");
    reveal_strlit("Pi");
    reveal_strlit("k");
    reveal_strlit("M");
    reveal_strlit("G");
    reveal_strlit("T");
    reveal_strlit("P");
    assert("Ki"@.len() == 2 && "Mi"@.len() == 2 && "Gi"@.len() == 2 && "Ti"@.len() == 2
        && "Pi"@.len() == 2);
    assert("k"@.len() == 1 && "M"@.len() == 1 && "G"@.len() == 1 && "T"@.len() == 1 && "P"@.len()
        == 1);
    let t = d + unit;
    assert(is_digit(d[d.len() - 1]));
    let last = t.last();
    assert(last == if unit.len() > 0 {
        unit.last()
    } else {
        d.last()
    });
    if unit.len() > 0 {
        assert(t.skip(t.len() - unit.len()) =~= unit);
    }
    lemma_suffix_last(t, "Ki"@);
    lemma_suffix_last(t, "Mi"@);
    lemma_suffix_last(t, "Gi"@);
    lemma_suffix_last(t, "Ti"@);
    lemma_suffix_last(t, "Pi"@);
    lemma_suffix_last(t, "k"@);
    lemma_suffix_last(t, "M"@);
    lemma_suffix_last(t, "G"@);
    lemma_suffix_last(t, "T"@);
    lemma_suffix_last(t, "P"@);
    if unit.len() == 2 {
        if unit != "Ki"@ {
            lemma_binary_unit(d, unit, "Ki"@);
        }
        if unit != "Mi"@ {
            lemma_binary_unit(d, unit, "Mi"@);
        }
        if unit != "Gi"@ {
            lemma_binary_unit(d, unit, "Gi"@);
        }
        if unit != "Ti"@ {
            lemma_binary_unit(d, unit, "Ti"@);
        }
    }
}

proof fn lemma_suffix_last(t: Seq<char>, p: Seq<char>)
    requires
        p.len() > 0,
    ensures
        has_suffix(t, p) ==> t.len() > 0 && t.last() == p.last(),
{
    if has_suffix(t, p) {
        assert(t.skip(t.len() - p.len())[p.len() - 1] == p.last());
    }
}

proof fn lemma_unit_size(unit: Seq<char>, size: int)
    requires
        ({
            ||| unit.len() == 0 && size == 1
            ||| unit == "Ki"@ && size == 1024
            ||| unit == "Mi"@ && size == 1024 * 1024
            ||| unit == "Gi"@ && size == 1024 * 1024 * 1024
            ||| unit == "Ti"@ && size == 1024 * 1024 * 1024 * 1024
            ||| unit == "Pi"@ && size == 1024 * 1024 * 1024 * 1024 * 1024
            ||| unit == "k"@ && size == 1000
            ||| unit == "M"@ && size == 1000 * 1000
            ||| unit == "G"@ && size == 1000 * 1000 * 1000
            ||| unit == "T"@ && size == 1000 * 1000 * 1000 * 1000
            ||| unit == "P"@ && size == 1000 * 1000 * 1000 * 1000 * 1000
        }),
    ensures
        unit_size(unit) == Some(size),
{
    lemma_units_differ();
}

proof fn lemma_mem_quantity(s: &str, d: Seq<char>, unit: Seq<char>, size: int, r: Option<i64>)
    requires
        call_ensures(parse_mem_bytes, (s,), r),
        s@ == d + unit,
        d.len() > 0,
        all_digits(d),
        unit_size(unit) == Some(size),
        digits_value(d) * size <= EXACT,
    ensures
        r == Some((digits_value(d) * size) as i64),
{
    lemma_mem_unit(d, unit);
    let t = s@;
    assert(is_digit(d[0]));
    assert(is_digit(d[d.len() - 1]));
    assert(t[0] == d[0]);
    assert(unit.len() == 0 ==> t =~= d);
    lemma_plain_text(t);
    assert(t.take(d.len() as int) =~= d);
    law_whole_quantities_are_exact(d, size);
}

/// A quantity of memory is in bytes: a plain number, or one with a unit, the binary ones
/// in powers of 1024 and the others in powers of 1000.
pub proof fn law_mem_units(s: &str, d: Seq<char>, unit: Seq<char>, size: int, r: Option<i64>)
    requires
        call_ensures(parse_mem_bytes, (s,), r),
        s@ == d + unit,
        d.len() > 0,
        all_digits(d),
        ({
            ||| unit.len() == 0 && size == 1
            ||| unit == "Ki"@ && size == 1024
            ||| unit == "Mi"@ && size == 1024 * 1024
            ||| unit == "Gi"@ && size == 1024 * 1024 * 1024
            ||| unit == "Ti"@ && size == 1024 * 1024 * 1024 * 1024
            ||| unit == "Pi"@ && size == 1024 * 1024 * 1024 * 1024 * 1024
            ||| unit == "k"@ && size == 1000
            ||| unit == "M"@ && size == 1000 * 1000
            ||| unit == "G"@ && size == 1000 * 1000 * 1000
            ||| unit == "T"@ && size == 1000 * 1000 * 1000 * 1000
            ||| unit == "P"@ && size == 1000 * 1000 * 1000 * 1000 * 1000
        }),
        digits_value(d) * size <= EXACT,
    ensures
        r == Some((digits_value(d) * size) as i64),
{
    lemma_unit_size(unit, size);
    lemma_mem_quantity(s, d, unit, size, r);
}

proof fn lemma_units_differ()
    ensures
        "Ki"@ != "Mi"@ && "Ki"@ != "Gi"@ && "Ki"@ != "Ti"@ && "Ki"@ != "Pi"@,
        "Mi"@ != "Gi"@ && "Mi"@ != "Ti"@ && "Mi"@ != "Pi"@,
        "Gi"@ != "Ti"@ && "Gi"@ != "Pi"@ && "Ti"@ != "Pi"@,
        "k"@ != "M"@ && "k"@ != "G"@ && "k"@ != "T"@ && "k"@ != "P"@,
        "M"@ != "G"@ && "M"@ != "T"@ && "M"@ != "P"@ && "G"@ != "T"@ && "G"@ != "P"@ && "T"@ != "P"@,
        "Ki"@.len() == 2 && "Mi"@.len() == 2 && "Gi"@.len() == 2 && "Ti"@.len() == 2 && "Pi"@.len()
            == 2,
        "k"@.len() == 1 && "M"@.len() == 1 && "G"@.len() == 1 && "T"@.len() == 1 && "P"@.len() == 1,
{
    reveal_strlit("Ki");
    reveal_strlit("Mi");
    reveal_strlit("Gi");
    reveal_strlit("Ti");
    reveal_strlit("Pi");
    reveal_strlit("k");
    reveal_strlit("M");
    reveal_strlit("G");
    reveal_strlit("T");
    reveal_strlit("P");
    assert("Ki"@[0] == 'K' && "Mi"@[0] == 'M' && "Gi"@[0] == 'G' && "Ti"@[0] == 'T' && "Pi"@[0]
        == 'P');
    assert("k"@[0] == 'k' && "M"@[0] == 'M' && "G"@[0] == 'G' && "T"@[0] == 'T' && "P"@[0] == 'P');
}

proof fn lemma_ready_nodes(s: Seq<Vec<Condition>>)
    ensures
        ready_nodes(s) == s.filter(|c: Vec<Condition>| is_ready(c@)).len(),
    decreases s.len(),
{
    reveal(Seq::filter);
    if s.len() > 0 {
        lemma_ready_nodes(s.drop_last());
    }
}

/// The nodes are counted, and those of them that are ready: whose condition `Ready` is
/// `True`.
pub proof fn law_ready_nodes_are_counted(nodes: Vec<Vec<Condition>>, r: (i32, i32))
    requires
        call_ensures(count_ready_nodes, (&nodes,), r),
        nodes@.len() <= i32::MAX,
    ensures
        r.1 == nodes@.len(),
        r.0 == nodes@.filter(
            |c: Vec<Condition>|
                exists|i: int|
                    0 <= i < c@.len() && (#[trigger] c@[i]).type_@ == "Ready"@ && c@[i].status@
                        == "True"@,
        ).len(),
{
    lemma_ready_nodes(nodes@);
    let f = |c: Vec<Condition>| is_ready(c@);
    let g = |c: Vec<Condition>|
        exists|i: int|
            0 <= i < c@.len() && (#[trigger] c@[i]).type_@ == "Ready"@ && c@[i].status@ == "True"@;
    assert forall|c: Vec<Condition>| #[trigger] f(c) == g(c) by {
        if f(c) {
            let i = choose|i: int| 0 <= i < c@.len() && is_ready_condition(#[trigger] c@[i]);
            assert(c@[i].type_@ == "Ready"@);
        }
        if g(c) {
            let i = choose|i: int|
                0 <= i < c@.len() && (#[trigger] c@[i]).type_@ == "Ready"@ && c@[i].status@
                    == "True"@;
            assert(is_ready_condition(c@[i]));
        }
    }
    assert(f =~= g);
    nodes@.lemma_filter_len(f);
}

/// After a miss three turns pass before the next probe; an answer ends the waiting.
pub proof fn law_probes_come_every_fourth_turn(
    misses: u32,
    probe: bool,
    answered: u32,
    missed: u32,
)
    requires
        call_ensures(should_probe, (misses,), probe),
        call_ensures(next_misses, (misses, true), answered),
        call_ensures(next_misses, (misses, false), missed),
    ensures
        probe <==> misses % 4 == 0,
        probe ==> answered == 0,
        misses < u32::MAX ==> missed == misses + 1,
        !probe ==> answered == missed,
{
}

/// A minus before a number turns the sign of the quantity, and a plus does nothing, in every
/// unit.
pub proof fn law_sign_of_a_quantity(s: Seq<char>, num: int, den: int)
    requires
        s.len() > 0,
        s[0] != '-',
        s[0] != '+',
    ensures
        scaled(s, num, den) matches Some(n) ==> scaled(seq!['-'] + s, num, den) == Some(-n),
        scaled(s, num, den) is None ==> scaled(seq!['-'] + s, num, den) is None,
        scaled(seq!['+'] + s, num, den) == scaled(s, num, den),
{
    let minus = seq!['-'] + s;
    let plus = seq!['+'] + s;
    assert(minus.skip(1) =~= s);
    assert(plus.skip(1) =~= s);
    assert(unsigned(minus) == s);
    assert(unsigned(plus) == s);
    assert(unsigned(s) == s);
}

/// What a number with a fraction gives is the whole number next to it: it differs from the
/// quantity by half of one at most. The fraction counts by its places.
pub proof fn law_fractions_are_rounded(a: Seq<char>, b: Seq<char>, num: int, n: int)
    requires
        all_digits(a),
        all_digits(b),
        a.len() > 0,
        num >= 1,
        scaled(a + seq!['.'] + b, num, 1) == Some(n),
    ensures
        -ten_to(b.len()) <= 2 * (n * ten_to(b.len())) - 2 * (digits_value(a + b) * num) <= ten_to(
            b.len(),
        ),
{
    let s = a + seq!['.'] + b;
    assert(is_digit(a[0]));
    assert(s[0] == a[0]);
    assert(unsigned(s) == s);
    lemma_char_from(s, '.', 0);
    assert(s[a.len() as int] == '.');
    let i = char_from(s, '.', 0)->0;
    if i < a.len() {
        assert(is_digit(a[i]));
        assert(s[i] == a[i]);
    }
    assert(s.take(i) =~= a);
    assert(s.skip(i + 1) =~= b);
    lemma_ten_to_positive(b.len());
    let d = ten_to(b.len()) as int;
    let m = digits_value(a + b) * num;
    assert(1 * d == d);
    assert(n == nearest(m, d));
    lemma_nearest(m, d);
    assert(n * d == d * n) by (nonlinear_arith);
}

proof fn lemma_ten_to_positive(k: nat)
    ensures
        ten_to(k) >= 1,
    decreases k,
{
    if k > 0 {
        lemma_ten_to_positive((k - 1) as nat);
    }
}

proof fn lemma_nearest(m: int, d: int)
    requires
        d >= 1,
    ensures
        -d <= 2 * (d * nearest(m, d)) - 2 * m <= d,
{
    let q = (2 * m + d) / (2 * d);
    let rest = (2 * m + d) % (2 * d);
    vstd::arithmetic::div_mod::lemma_fundamental_div_mod(2 * m + d, 2 * d);
    vstd::arithmetic::div_mod::lemma_mod_bound(2 * m + d, 2 * d);
    assert(2 * m + d == (2 * d) * q + rest);
    assert(0 <= rest < 2 * d);
    assert((2 * d) * q == 2 * (d * q)) by (nonlinear_arith);
}

} // verus!
