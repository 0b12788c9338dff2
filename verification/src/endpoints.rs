//! EndpointSlices as rows: one row per slice, and one per address of a slice.
use crate::lists::{lemma_views_push, text_or_empty, views, TextMap};
use crate::text::{cat3, dec_i64, dec_int, lemma_texts_push, or_empty, same, text_or_nothing, texts};
use vstd::prelude::*;

verus! {

/// The label that names the Service a slice belongs to.
pub const SERVICE_NAME_LABEL: &'static str = "kubernetes.io/service-name";

/// The object an endpoint points to.
#[derive(Clone, Debug)]
pub struct TargetRef {
    pub kind: Option<String>,
    pub name: Option<String>,
}

/// One endpoint of a slice.
#[derive(Clone, Debug)]
pub struct SliceEndpoint {
    pub addresses: Vec<String>,
    /// The `ready` condition, where there is one.
    pub ready: Option<bool>,
    pub node_name: Option<String>,
    pub target: Option<TargetRef>,
}

/// An EndpointSlice, as far as the views read it.
#[derive(Clone, Debug)]
pub struct Slice {
    pub name: String,
    pub namespace: Option<String>,
    pub labels: Option<TextMap>,
    /// The port numbers of the slice; each applies to every address.
    pub ports: Vec<Option<i32>>,
    pub endpoints: Vec<SliceEndpoint>,
    /// The creation time as text.
    pub created: Option<String>,
}

/// One row of the Endpoints table.
#[derive(Clone, Debug)]
pub struct EndpointRow {
    pub name: String,
    pub namespace: String,
    /// The Service this slice is for (the `kubernetes.io/service-name` label).
    pub service: String,
    /// Number of ready addresses in this slice.
    pub ready: i64,
    /// Total addresses (ready and not ready).
    pub total: i64,
    /// The addresses, as `ip:port` where the slice has a port.
    pub addresses: Vec<String>,
    pub age: String,
}

/// One row of the per-address view.
#[derive(Clone, Debug)]
pub struct EndpointAddress {
    pub address: String,
    pub ready: bool,
    pub node_name: String,
    pub target_ref_kind: String,
    pub target_ref_name: String,
}

/// What an address row says.
pub struct AddressView {
    pub address: Seq<char>,
    pub ready: bool,
    pub node_name: Seq<char>,
    pub kind: Seq<char>,
    pub name: Seq<char>,
}

impl View for EndpointAddress {
    type V = AddressView;

    open spec fn view(&self) -> AddressView {
        AddressView {
            address: self.address@,
            ready: self.ready,
            node_name: self.node_name@,
            kind: self.target_ref_kind@,
            name: self.target_ref_name@,
        }
    }
}

/// An endpoint serves unless it says that it does not.
pub open spec fn serves(e: SliceEndpoint) -> bool {
    e.ready != Some(false)
}

/// The port shown with the addresses: that of the first port entry.
pub open spec fn slice_port(ports: Seq<Option<i32>>) -> Option<i32> {
    if ports.len() == 0 {
        None
    } else {
        ports[0]
    }
}

/// An address as shown.
pub open spec fn shown(address: Seq<char>, port: Option<i32>) -> Seq<char> {
    match port {
        Some(p) => address + ":"@ + dec_int(p as int),
        None => address,
    }
}

/// The addresses of a slice's endpoints as shown, in order.
pub open spec fn shown_addresses(eps: Seq<SliceEndpoint>, port: Option<i32>) -> Seq<Seq<char>>
    decreases eps.len(),
{
    if eps.len() == 0 {
        Seq::empty()
    } else {
        let a = eps.last().addresses@;
        shown_addresses(eps.drop_last(), port) + Seq::new(a.len(), |i: int| shown(a[i]@, port))
    }
}

/// How many addresses the endpoints have.
pub open spec fn total_addresses(eps: Seq<SliceEndpoint>) -> nat
    decreases eps.len(),
{
    if eps.len() == 0 {
        0
    } else {
        total_addresses(eps.drop_last()) + eps.last().addresses@.len()
    }
}

/// How many addresses the serving endpoints have.
pub open spec fn ready_addresses(eps: Seq<SliceEndpoint>) -> nat
    decreases eps.len(),
{
    if eps.len() == 0 {
        0
    } else {
        ready_addresses(eps.drop_last()) + (if serves(eps.last()) {
            eps.last().addresses@.len()
        } else {
            0
        })
    }
}

/// `n`, or `limit` where `n` is larger: what a counter that stops at `limit` shows.
pub open spec fn capped(n: nat, limit: int) -> int {
    if n <= limit {
        n as int
    } else {
        limit
    }
}

/// The Service a slice is for, empty where no label says so.
pub open spec fn slice_service(labels: Option<TextMap>) -> Seq<char> {
    match labels {
        Some(m) => text_or_empty(m@, SERVICE_NAME_LABEL@),
        None => Seq::empty(),
    }
}

/// Whether an endpoint serves.
pub fn is_serving(e: &SliceEndpoint) -> (r: bool)
    ensures
        r == serves(*e),
{
    match e.ready {
        Some(b) => b,
        None => true,
    }
}

fn add_addresses(out: &mut Vec<String>, addresses: &Vec<String>, port: Option<i32>)
    ensures
        texts(final(out)@) == texts(old(out)@) + Seq::new(
            addresses@.len(),
            |i: int| shown(addresses@[i]@, port),
        ),
{
    let ghost before = texts(out@);
    let mut i: usize = 0;
    assert(texts(out@) =~= before + Seq::new(0, |k: int| shown(addresses@[k]@, port)));
    while i < addresses.len()
        invariant
            i <= addresses@.len(),
            texts(out@) == before + Seq::new(i as nat, |k: int| shown(addresses@[k]@, port)),
        decreases addresses@.len() - i,
    {
        let t = match port {
            Some(p) => {
                let n = dec_i64(p as i64);
                cat3(addresses[i].as_str(), ":", n.as_str())
            },
            None => addresses[i].clone(),
        };
        proof {
            lemma_texts_push(out@, t);
        }
        out.push(t);
        i += 1;
        assert(texts(out@) =~= before + Seq::new(i as nat, |k: int| shown(addresses@[k]@, port)));
    }
}

/// `n + more`, stopping at the largest number.
fn count_on(n: i64, more: usize) -> (r: i64)
    requires
        0 <= n,
    ensures
        r == capped((n + more) as nat, i64::MAX as int),
{
    if more as u128 > (i64::MAX - n) as u128 {
        i64::MAX
    } else {
        n + more as i64
    }
}

/// The row for one slice. A missing `ready` condition means ready, and addresses
/// are counted one by one, so that `ready` is on the same scale as `total`.
pub fn map_slice(s: &Slice) -> (r: EndpointRow)
    ensures
        r.name@ == s.name@,
        r.namespace@ == text_or_nothing(s.namespace),
        r.service@ == slice_service(s.labels),
        r.ready == capped(ready_addresses(s.endpoints@), i64::MAX as int),
        r.total == capped(total_addresses(s.endpoints@), i64::MAX as int),
        texts(r.addresses@) == shown_addresses(s.endpoints@, slice_port(s.ports@)),
        r.age@ == text_or_nothing(s.created),
{
    let port: Option<i32> = if s.ports.len() > 0 {
        s.ports[0]
    } else {
        None
    };
    let mut ready: i64 = 0;
    let mut total: i64 = 0;
    let mut addresses: Vec<String> = Vec::new();
    let mut i: usize = 0;
    assert(texts(addresses@) =~= shown_addresses(s.endpoints@.take(0), port));
    while i < s.endpoints.len()
        invariant
            i <= s.endpoints@.len(),
            ready == capped(ready_addresses(s.endpoints@.take(i as int)), i64::MAX as int),
            total == capped(total_addresses(s.endpoints@.take(i as int)), i64::MAX as int),
            texts(addresses@) == shown_addresses(s.endpoints@.take(i as int), port),
        decreases s.endpoints@.len() - i,
    {
        let e = &s.endpoints[i];
        assert(s.endpoints@.take(i + 1).drop_last() =~= s.endpoints@.take(i as int));
        let n: usize = e.addresses.len();
        add_addresses(&mut addresses, &e.addresses, port);
        if is_serving(e) {
            ready = count_on(ready, n);
        }
        total = count_on(total, n);
        i += 1;
    }
    assert(s.endpoints@.take(i as int) =~= s.endpoints@);
    let service = match &s.labels {
        Some(m) => m.get_or_empty(SERVICE_NAME_LABEL),
        None => String::new(),
    };
    EndpointRow {
        name: s.name.clone(),
        namespace: or_empty(&s.namespace),
        service,
        ready,
        total,
        addresses,
        age: or_empty(&s.created),
    }
}

/// What each address of an endpoint shows.
pub open spec fn endpoint_rows(e: SliceEndpoint) -> Seq<AddressView> {
    Seq::new(
        e.addresses@.len(),
        |i: int|
            AddressView {
                address: e.addresses@[i]@,
                ready: serves(e),
                node_name: text_or_nothing(e.node_name),
                kind: match e.target {
                    Some(t) => text_or_nothing(t.kind),
                    None => Seq::empty(),
                },
                name: match e.target {
                    Some(t) => text_or_nothing(t.name),
                    None => Seq::empty(),
                },
            },
    )
}

/// What each address of a slice shows.
pub open spec fn address_rows(eps: Seq<SliceEndpoint>) -> Seq<AddressView>
    decreases eps.len(),
{
    if eps.len() == 0 {
        Seq::empty()
    } else {
        address_rows(eps.drop_last()) + endpoint_rows(eps.last())
    }
}

/// The per-address rows of one slice: each address with its readiness and the
/// object that it points to.
pub fn addresses_for(s: &Slice) -> (r: Vec<EndpointAddress>)
    ensures
        views(r@) == address_rows(s.endpoints@),
{
    let mut out: Vec<EndpointAddress> = Vec::new();
    let mut i: usize = 0;
    assert(views(out@) =~= address_rows(s.endpoints@.take(0)));
    while i < s.endpoints.len()
        invariant
            i <= s.endpoints@.len(),
            views(out@) == address_rows(s.endpoints@.take(i as int)),
        decreases s.endpoints@.len() - i,
    {
        let e = &s.endpoints[i];
        let ghost before = views(out@);
        assert(s.endpoints@.take(i + 1).drop_last() =~= s.endpoints@.take(i as int));
        let mut k: usize = 0;
        assert(views(out@) =~= before + endpoint_rows(*e).take(0));
        while k < e.addresses.len()
            invariant
                k <= e.addresses@.len(),
                views(out@) == before + endpoint_rows(*e).take(k as int),
            decreases e.addresses@.len() - k,
        {
            let (kind, name) = match &e.target {
                Some(t) => (or_empty(&t.kind), or_empty(&t.name)),
                None => (String::new(), String::new()),
            };
            let row = EndpointAddress {
                address: e.addresses[k].clone(),
                ready: is_serving(e),
                node_name: or_empty(&e.node_name),
                target_ref_kind: kind,
                target_ref_name: name,
            };
            proof {
                lemma_views_push(out@, row);
                assert(row@ == endpoint_rows(*e)[k as int]);
                assert(endpoint_rows(*e).take(k + 1) =~= endpoint_rows(*e).take(k as int).push(
                    row@,
                ));
            }
            out.push(row);
            k += 1;
            assert(views(out@) =~= before + endpoint_rows(*e).take(k as int));
        }
        assert(endpoint_rows(*e).take(k as int) =~= endpoint_rows(*e));
        i += 1;
    }
    assert(s.endpoints@.take(i as int) =~= s.endpoints@);
    out
}

/// Whether a slice belongs to the Service `service`.
pub open spec fn belongs_to(s: Slice, service: Seq<char>) -> bool {
    s.labels matches Some(m) && m@.contains_key(SERVICE_NAME_LABEL@) && m@[SERVICE_NAME_LABEL@]
        == service
}

/// How many ready addresses the slices of a Service have.
pub open spec fn service_addresses(slices: Seq<Slice>, service: Seq<char>) -> nat
    decreases slices.len(),
{
    if slices.len() == 0 {
        0
    } else {
        service_addresses(slices.drop_last(), service) + (if belongs_to(slices.last(), service) {
            ready_addresses(slices.last().endpoints@)
        } else {
            0
        })
    }
}

/// Counts the ready addresses of one slice, up to the largest number that the
/// result can hold.
fn ready_of(eps: &Vec<SliceEndpoint>, start: usize) -> (r: usize)
    ensures
        r == capped(start as nat + ready_addresses(eps@), usize::MAX as int),
{
    let mut n: usize = start;
    let mut i: usize = 0;
    while i < eps.len()
        invariant
            i <= eps@.len(),
            n == capped(
                start as nat + ready_addresses(eps@.take(i as int)),
                usize::MAX as int,
            ),
        decreases eps@.len() - i,
    {
        assert(eps@.take(i + 1).drop_last() =~= eps@.take(i as int));
        if is_serving(&eps[i]) {
            n = n.saturating_add(eps[i].addresses.len());
        }
        i += 1;
    }
    assert(eps@.take(i as int) =~= eps@);
    n
}

/// Counts the ready addresses over the slices of the Service `service_name`.
pub fn count_ready_addresses(slices: &Vec<Slice>, service_name: &str) -> (r: usize)
    ensures
        r == capped(service_addresses(slices@, service_name@), usize::MAX as int),
{
    let mut n: usize = 0;
    let mut i: usize = 0;
    while i < slices.len()
        invariant
            i <= slices@.len(),
            n == capped(
                service_addresses(slices@.take(i as int), service_name@),
                usize::MAX as int,
            ),
        decreases slices@.len() - i,
    {
        assert(slices@.take(i + 1).drop_last() =~= slices@.take(i as int));
        let mine = match &slices[i].labels {
            Some(m) => match m.get(SERVICE_NAME_LABEL) {
                Some(v) => same(v.as_str(), service_name),
                None => false,
            },
            None => false,
        };
        if mine {
            n = ready_of(&slices[i].endpoints, n);
        }
        i += 1;
    }
    assert(slices@.take(i as int) =~= slices@);
    n
}

// ---------------------------------------------------------------------------
// Laws
// ---------------------------------------------------------------------------

/// The counts of a slice are on one scale: there are never more ready addresses than
/// addresses, and both the row of a slice and the per-address view hold every address
/// once.
pub proof fn law_ready_is_part_of_total(eps: Seq<SliceEndpoint>, port: Option<i32>)
    ensures
        ready_addresses(eps) <= total_addresses(eps),
        shown_addresses(eps, port).len() == total_addresses(eps),
        address_rows(eps).len() == total_addresses(eps),
    decreases eps.len(),
{
    if eps.len() > 0 {
        law_ready_is_part_of_total(eps.drop_last(), port);
    }
}

proof fn lemma_ready_rows(rows: Seq<AddressView>, more: Seq<AddressView>)
    ensures
        ready_rows(rows + more) == ready_rows(rows) + ready_rows(more),
    decreases more.len(),
{
    if more.len() == 0 {
        assert(rows + more =~= rows);
    } else {
        lemma_ready_rows(rows, more.drop_last());
        assert((rows + more).drop_last() =~= rows + more.drop_last());
        assert((rows + more).last() == more.last());
    }
}

/// How many of the address rows are ready.
pub open spec fn ready_rows(rows: Seq<AddressView>) -> nat
    decreases rows.len(),
{
    if rows.len() == 0 {
        0
    } else {
        ready_rows(rows.drop_last()) + (if rows.last().ready {
            1nat
        } else {
            0
        })
    }
}

proof fn lemma_ready_endpoint(e: SliceEndpoint, n: int)
    requires
        0 <= n <= e.addresses@.len(),
    ensures
        ready_rows(endpoint_rows(e).take(n)) == (if serves(e) {
            n as nat
        } else {
            0
        }),
    decreases n,
{
    let rows = endpoint_rows(e).take(n);
    if n > 0 {
        lemma_ready_endpoint(e, n - 1);
        assert(rows.drop_last() =~= endpoint_rows(e).take(n - 1));
        assert(rows.last() == endpoint_rows(e)[n - 1]);
    }
}

/// The two views agree: as many rows of the per-address view are ready as the row of
/// the slice counts.
pub proof fn law_views_count_the_same(eps: Seq<SliceEndpoint>)
    ensures
        ready_rows(address_rows(eps)) == ready_addresses(eps),
    decreases eps.len(),
{
    if eps.len() > 0 {
        let e = eps.last();
        law_views_count_the_same(eps.drop_last());
        lemma_ready_endpoint(e, e.addresses@.len() as int);
        assert(endpoint_rows(e).take(e.addresses@.len() as int) =~= endpoint_rows(e));
        lemma_ready_rows(address_rows(eps.drop_last()), endpoint_rows(e));
    }
}

proof fn lemma_address_counts(eps: Seq<SliceEndpoint>)
    ensures
        total_addresses(eps) == eps.fold_left(
            0int,
            |n: int, e: SliceEndpoint| n + e.addresses@.len(),
        ),
        ready_addresses(eps) == eps.fold_left(
            0int,
            |n: int, e: SliceEndpoint|
                n + (if e.ready == Some(false) {
                    0
                } else {
                    e.addresses@.len() as int
                }),
        ),
    decreases eps.len(),
{
    if eps.len() > 0 {
        lemma_address_counts(eps.drop_last());
    }
}

/// The row of a slice counts its addresses one by one, and as ready all those of
/// endpoints that do not say they are not. It names the Service that its label names.
pub proof fn law_slice_row_counts_addresses(s: Slice, r: EndpointRow)
    requires
        call_ensures(map_slice, (&s,), r),
    ensures
        ({
            let total = s.endpoints@.fold_left(
                0int,
                |n: int, e: SliceEndpoint| n + e.addresses@.len(),
            );
            let ready = s.endpoints@.fold_left(
                0int,
                |n: int, e: SliceEndpoint|
                    n + (if e.ready == Some(false) {
                        0
                    } else {
                        e.addresses@.len() as int
                    }),
            );
            &&& r.addresses@.len() == total
            &&& total <= i64::MAX ==> r.total == total
            &&& ready <= i64::MAX ==> r.ready == ready
        }),
        r.name@ == s.name@,
        s.namespace matches Some(n) ==> r.namespace@ == n@,
        s.created matches Some(t) ==> r.age@ == t@,
        s.labels matches Some(m) ==> (m@.contains_key("kubernetes.io/service-name"@) ==> r.service@
            == m@["kubernetes.io/service-name"@]),
        s.labels matches Some(m) ==> (!m@.contains_key("kubernetes.io/service-name"@)
            ==> r.service@.len() == 0),
        s.labels is None ==> r.service@.len() == 0,
{
    lemma_address_counts(s.endpoints@);
    law_ready_is_part_of_total(s.endpoints@, slice_port(s.ports@));
    assert(texts(r.addresses@).len() == r.addresses@.len());
}

/// Every address of a slice is listed, with the slice's first port where it has one.
pub proof fn law_every_address_is_listed(s: Slice, r: EndpointRow, k: int, i: int)
    requires
        call_ensures(map_slice, (&s,), r),
        0 <= k < s.endpoints@.len(),
        0 <= i < s.endpoints@[k].addresses@.len(),
    ensures
        texts(r.addresses@).contains(
            if s.ports@.len() > 0 && s.ports@[0] is Some {
                s.endpoints@[k].addresses@[i]@ + ":"@ + dec_int(s.ports@[0]->0 as int)
            } else {
                s.endpoints@[k].addresses@[i]@
            },
        ),
{
    lemma_shown_address(s.endpoints@, slice_port(s.ports@), k, i);
}

proof fn lemma_shown_address(eps: Seq<SliceEndpoint>, port: Option<i32>, k: int, i: int)
    requires
        0 <= k < eps.len(),
        0 <= i < eps[k].addresses@.len(),
    ensures
        shown_addresses(eps, port).contains(shown(eps[k].addresses@[i]@, port)),
    decreases eps.len(),
{
    broadcast use vstd::seq_lib::lemma_seq_concat_contains_all_elements;

    let a = eps.last().addresses@;
    let last = Seq::new(a.len(), |j: int| shown(a[j]@, port));
    if k == eps.len() - 1 {
        assert(last[i] == shown(a[i]@, port));
        assert(last.contains(shown(a[i]@, port)));
    } else {
        assert(eps.drop_last()[k] == eps[k]);
        lemma_shown_address(eps.drop_last(), port, k, i);
    }
}

/// Each address of a slice has a row, as many as there are addresses: ready unless its
/// endpoint says that it is not, with the node and the object of its endpoint.
pub proof fn law_every_address_has_its_row(s: Slice, r: Vec<EndpointAddress>, k: int, i: int)
    requires
        call_ensures(addresses_for, (&s,), r),
        0 <= k < s.endpoints@.len(),
        0 <= i < s.endpoints@[k].addresses@.len(),
    ensures
        r@.len() == s.endpoints@.fold_left(
            0int,
            |n: int, e: SliceEndpoint| n + e.addresses@.len(),
        ),
        exists|j: int|
            #![trigger r@[j]]
            0 <= j < r@.len() && ({
                let e = s.endpoints@[k];
                &&& r@[j].address@ == e.addresses@[i]@
                &&& r@[j].ready <==> e.ready != Some(false)
                &&& e.node_name matches Some(n) ==> r@[j].node_name@ == n@
                &&& e.target matches Some(t) ==> (t.kind matches Some(x) ==> r@[j].target_ref_kind@
                    == x@)
                &&& e.target matches Some(t) ==> (t.name matches Some(x) ==> r@[j].target_ref_name@
                    == x@)
                &&& e.target is None ==> r@[j].target_ref_name@.len() == 0
            }),
{
    lemma_address_counts(s.endpoints@);
    law_ready_is_part_of_total(s.endpoints@, None);
    let v = views(r@);
    assert(v.len() == r@.len());
    lemma_address_row(s.endpoints@, k, i);
    let x = endpoint_rows(s.endpoints@[k])[i];
    let j = choose|j: int| 0 <= j < v.len() && v[j] == x;
    assert(v[j] == r@[j]@);
}

proof fn lemma_address_row(eps: Seq<SliceEndpoint>, k: int, i: int)
    requires
        0 <= k < eps.len(),
        0 <= i < eps[k].addresses@.len(),
    ensures
        address_rows(eps).contains(endpoint_rows(eps[k])[i]),
    decreases eps.len(),
{
    broadcast use vstd::seq_lib::lemma_seq_concat_contains_all_elements;

    if k == eps.len() - 1 {
        assert(endpoint_rows(eps.last()).contains(endpoint_rows(eps[k])[i]));
    } else {
        assert(eps.drop_last()[k] == eps[k]);
        lemma_address_row(eps.drop_last(), k, i);
    }
}

/// The ready addresses of a Service are those of its slices, all of them and no others:
/// those of two lists of slices together are those of the one and those of the other, and
/// a slice counts exactly where its label names the Service.
pub proof fn law_ready_addresses_add_up(
    a: Vec<Slice>,
    b: Vec<Slice>,
    both: Vec<Slice>,
    service: &str,
    of_a: usize,
    of_b: usize,
    r: usize,
)
    requires
        both@ == a@ + b@,
        call_ensures(count_ready_addresses, (&a, service), of_a),
        call_ensures(count_ready_addresses, (&b, service), of_b),
        call_ensures(count_ready_addresses, (&both, service), r),
    ensures
        of_a + of_b <= usize::MAX ==> of_a < usize::MAX && of_b < usize::MAX ==> r == of_a + of_b,
        a@.len() == 0 ==> of_a == 0,
        a@.len() == 1 ==> {
            let ready = a@[0].endpoints@.fold_left(
                0int,
                |n: int, e: SliceEndpoint|
                    n + (if e.ready == Some(false) {
                        0
                    } else {
                        e.addresses@.len() as int
                    }),
            );
            let label = "kubernetes.io/service-name"@;
            let ours = a@[0].labels matches Some(m) && m@.contains_key(label) && m@[label]
                == service@;
            &&& ours && ready <= usize::MAX ==> of_a == ready
            &&& !ours ==> of_a == 0
        },
{
    lemma_service_addresses(a@, b@, service@);
    if a@.len() == 1 {
        lemma_address_counts(a@[0].endpoints@);
        reveal_with_fuel(service_addresses, 2);
    }
}

proof fn lemma_service_addresses(a: Seq<Slice>, b: Seq<Slice>, service: Seq<char>)
    ensures
        service_addresses(a + b, service) == service_addresses(a, service) + service_addresses(
            b,
            service,
        ),
    decreases b.len(),
{
    if b.len() == 0 {
        assert(a + b =~= a);
    } else {
        assert((a + b).drop_last() =~= a + b.drop_last());
        lemma_service_addresses(a, b.drop_last(), service);
    }
}

} // verus!
