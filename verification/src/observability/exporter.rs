//! What is read out of a node-exporter's metrics.
//!
//! Most of what an exporter serves is not wanted, so a scrape is one pass that
//! picks the plotted families. The values stay text here: whoever plots them
//! turns them into numbers.
use crate::lists::{
    by_text, lemma_by_text_ranks, lemma_named_from, lemma_put_names_differ, lemma_put_then_find,
    lemma_sorted_in_order, lemma_sorted_members, lemma_sorted_names, named_at, names_differ,
    position, put_entry, sort, sorted_by, views, with_entry, Named,
};
use crate::text::{
    cat2, char_from, find, find_char, find_from, has_prefix, has_suffix, last_char, lemma_char_from,
    lemma_sorts_total, less, lines, lines_of, no_texts, opt_text, push_text, rsplit_once, same,
    sorts_before, split_once, starts_with, texts, trim_end_char, without_end,
};
use vstd::prelude::*;

verus! {

// ---------------------------------------------------------------------------
// Samples
// ---------------------------------------------------------------------------

/// A node's metrics at one instant; `V` is the type of the plotted numbers.
#[derive(Clone, Debug)]
pub struct NodeSample<V> {
    /// When, in milliseconds of the epoch.
    pub ts: i64,
    /// The share of CPU time that was busy, in percent.
    pub cpu_percent: V,
    pub mem_used_bytes: V,
    pub mem_total_bytes: V,
    /// Bytes per second over the physical interfaces.
    pub net_rx_bps: V,
    pub net_tx_bps: V,
    pub load1: V,
    pub load5: V,
    pub load15: V,
    pub filesystems: Vec<Filesystem<V>>,
}

/// One mounted filesystem.
#[derive(Clone, Debug)]
pub struct Filesystem<V> {
    pub mountpoint: String,
    pub used_bytes: V,
    pub size_bytes: V,
}

// ---------------------------------------------------------------------------
// What is worth counting
// ---------------------------------------------------------------------------

/// How the names of interfaces begin that are no real ones: counting them too
/// would count every packet of a pod twice.
pub open spec fn virtual_ifaces() -> Seq<Seq<char>> {
    seq![
        "lo"@,
        "veth"@,
        "docker"@,
        "br-"@,
        "cni"@,
        "flannel"@,
        "kube-ipvs"@,
        "tunl"@,
        "dummy"@,
        "virbr"@,
        "tap"@,
        "vxlan"@,
        "nodelocaldns"@,
        "cali"@,
        "wg"@,
    ]
}

/// Types of filesystems that are no real storage.
pub open spec fn virtual_fstypes() -> Seq<Seq<char>> {
    seq![
        "tmpfs"@,
        "devtmpfs"@,
        "ramfs"@,
        "overlay"@,
        "squashfs"@,
        "iso9660"@,
        "autofs"@,
        "binfmt_misc"@,
        "cgroup"@,
        "cgroup2"@,
        "proc"@,
        "sysfs"@,
        "debugfs"@,
        "tracefs"@,
        "fuse.portal"@,
        "nsfs"@,
    ]
}

/// How mount points begin that are interfaces of the kernel or churn.
pub open spec fn other_mounts() -> Seq<Seq<char>> {
    seq![
        "/proc"@,
        "/sys"@,
        "/dev"@,
        "/run"@,
        "/var/lib/kubelet"@,
        "/var/lib/docker"@,
        "/host/proc"@,
        "/host/sys"@,
    ]
}

/// Whether `s` begins with one of `prefixes`.
pub open spec fn begins_with_any(s: Seq<char>, prefixes: Seq<Seq<char>>) -> bool {
    exists|i: int| 0 <= i < prefixes.len() && has_prefix(s, #[trigger] prefixes[i])
}

fn begins_with_one(s: &str, prefixes: &Vec<String>) -> (r: bool)
    ensures
        r == begins_with_any(s@, texts(prefixes@)),
{
    let mut i: usize = 0;
    while i < prefixes.len()
        invariant
            i <= prefixes@.len(),
            forall|k: int| 0 <= k < i ==> !has_prefix(s@, #[trigger] texts(prefixes@)[k]),
        decreases prefixes@.len() - i,
    {
        if starts_with(s, prefixes[i].as_str()) {
            assert(has_prefix(s@, texts(prefixes@)[i as int]));
            return true;
        }
        i += 1;
    }
    false
}

/// How the names of interfaces begin that are no real ones.
pub fn virtual_iface_prefixes() -> (r: Vec<String>)
    ensures
        texts(r@) == virtual_ifaces(),
{
    let mut v = no_texts();
    push_text(&mut v, "lo");
    push_text(&mut v, "veth");
    push_text(&mut v, "docker");
    push_text(&mut v, "br-");
    push_text(&mut v, "cni");
    push_text(&mut v, "flannel");
    push_text(&mut v, "kube-ipvs");
    push_text(&mut v, "tunl");
    push_text(&mut v, "dummy");
    push_text(&mut v, "virbr");
    push_text(&mut v, "tap");
    push_text(&mut v, "vxlan");
    push_text(&mut v, "nodelocaldns");
    push_text(&mut v, "cali");
    push_text(&mut v, "wg");
    assert(texts(v@) =~= virtual_ifaces());
    v
}

fn virtual_fstype_names() -> (r: Vec<String>)
    ensures
        texts(r@) == virtual_fstypes(),
{
    let mut v = no_texts();
    push_text(&mut v, "tmpfs");
    push_text(&mut v, "devtmpfs");
    push_text(&mut v, "ramfs");
    push_text(&mut v, "overlay");
    push_text(&mut v, "squashfs");
    push_text(&mut v, "iso9660");
    push_text(&mut v, "autofs");
    push_text(&mut v, "binfmt_misc");
    push_text(&mut v, "cgroup");
    push_text(&mut v, "cgroup2");
    push_text(&mut v, "proc");
    push_text(&mut v, "sysfs");
    push_text(&mut v, "debugfs");
    push_text(&mut v, "tracefs");
    push_text(&mut v, "fuse.portal");
    push_text(&mut v, "nsfs");
    assert(texts(v@) =~= virtual_fstypes());
    v
}

fn other_mount_prefixes() -> (r: Vec<String>)
    ensures
        texts(r@) == other_mounts(),
{
    let mut v = no_texts();
    push_text(&mut v, "/proc");
    push_text(&mut v, "/sys");
    push_text(&mut v, "/dev");
    push_text(&mut v, "/run");
    push_text(&mut v, "/var/lib/kubelet");
    push_text(&mut v, "/var/lib/docker");
    push_text(&mut v, "/host/proc");
    push_text(&mut v, "/host/sys");
    assert(texts(v@) =~= other_mounts());
    v
}

/// Whether the bytes of an interface count.
pub fn is_physical_iface(dev: &str) -> (r: bool)
    ensures
        r == !begins_with_any(dev@, virtual_ifaces()),
{
    let prefixes = virtual_iface_prefixes();
    !begins_with_one(dev, &prefixes)
}

/// Whether a filesystem is worth showing.
pub open spec fn is_storage(fstype: Seq<char>, mountpoint: Seq<char>) -> bool {
    !virtual_fstypes().contains(fstype) && !begins_with_any(mountpoint, other_mounts())
}

fn is_among(s: &str, all: &Vec<String>) -> (r: bool)
    ensures
        r == texts(all@).contains(s@),
{
    let mut i: usize = 0;
    while i < all.len()
        invariant
            i <= all@.len(),
            forall|k: int| 0 <= k < i ==> (#[trigger] texts(all@)[k]) != s@,
        decreases all@.len() - i,
    {
        if same(all[i].as_str(), s) {
            assert(texts(all@)[i as int] == s@);
            return true;
        }
        i += 1;
    }
    false
}

/// Whether a filesystem is worth showing.
pub fn is_real_filesystem(fstype: &str, mountpoint: &str) -> (r: bool)
    ensures
        r == is_storage(fstype@, mountpoint@),
{
    let fstypes = virtual_fstype_names();
    if is_among(fstype, &fstypes) {
        return false;
    }
    let mounts = other_mount_prefixes();
    !begins_with_one(mountpoint, &mounts)
}

// ---------------------------------------------------------------------------
// Lines
// ---------------------------------------------------------------------------

/// The value of the label `key` among `labels`: what stands in quotes after the
/// first `key=`. Values may hold commas.
pub open spec fn label_of(labels: Seq<char>, key: Seq<char>) -> Option<Seq<char>> {
    let needle = key + "=\""@;
    match find_from(labels, needle, 0) {
        Some(i) => {
            let rest = labels.skip(i + needle.len());
            match char_from(rest, '"', 0) {
                Some(end) => Some(rest.take(end)),
                None => None,
            }
        },
        None => None,
    }
}

/// The value of the label `key` among `labels`.
pub fn label(labels: &str, key: &str) -> (r: Option<String>)
    ensures
        opt_text(r) == label_of(labels@, key@),
{
    let needle = cat2(key, "=\"");
    let ghost n = key@ + "=\""@;
    match find(labels, needle.as_str()) {
        Some(i) => {
            proof {
                crate::text::lemma_find_from(labels@, n, 0);
            }
            let total: usize = labels.unicode_len();
            let start: usize = i + needle.as_str().unicode_len();
            let rest = labels.substring_char(start, total);
            assert(rest@ =~= labels@.skip(i + n.len()));
            match find_char(rest, '"') {
                Some(end) => {
                    proof {
                        crate::text::lemma_char_from(rest@, '"', 0);
                    }
                    let t = rest.substring_char(0, end);
                    assert(t@ =~= rest@.take(end as int));
                    Some(t.to_owned())
                },
                None => None,
            }
        },
        None => None,
    }
}

/// The parts of a metric line.
pub struct LineView {
    pub name: Seq<char>,
    pub labels: Seq<char>,
    pub value: Seq<char>,
}

/// The parts of a metric line `name{labels} value`: the value stands after the
/// last space.
pub open spec fn line_parts(line: Seq<char>) -> Option<LineView> {
    match last_char(line, ' ') {
        Some(i) => {
            let head = line.take(i);
            let value = line.skip(i + 1);
            Some(
                match char_from(head, '{', 0) {
                    Some(k) => LineView {
                        name: head.take(k),
                        labels: without_end(head.skip(k + 1), '}'),
                        value,
                    },
                    None => LineView { name: head, labels: Seq::empty(), value },
                },
            )
        },
        None => None,
    }
}

/// Splits a metric line into its name, its labels and the text of its value.
pub fn split_line<'a>(line: &'a str) -> (r: Option<(&'a str, &'a str, &'a str)>)
    ensures
        match r {
            Some((name, labels, value)) => line_parts(line@) == Some(
                LineView { name: name@, labels: labels@, value: value@ },
            ),
            None => line_parts(line@) is None,
        },
{
    proof {
        reveal_strlit("");
    }
    match rsplit_once(line, ' ') {
        Some((head, value)) => match split_once(head, '{') {
            Some((name, rest)) => Some((name, trim_end_char(rest, '}'), value)),
            None => {
                assert(""@ =~= Seq::<char>::empty());
                Some((head, "", value))
            },
        },
        None => None,
    }
}

// ---------------------------------------------------------------------------
// Scrapes
// ---------------------------------------------------------------------------

/// What a metric line tells.
#[derive(Clone, Debug)]
pub enum Family {
    /// CPU seconds in a mode; the lines of the cores add up.
    Cpu(String),
    MemTotal,
    MemAvailable,
    /// Bytes received by a physical interface; the lines add up.
    NetRx,
    /// Bytes sent by a physical interface; the lines add up.
    NetTx,
    Load1,
    Load5,
    Load15,
    /// The size of the filesystem mounted there.
    FsSize(String),
    /// What is free of the filesystem mounted there.
    FsAvail(String),
}

/// What a metric line tells.
pub enum FamilyView {
    Cpu(Seq<char>),
    MemTotal,
    MemAvailable,
    NetRx,
    NetTx,
    Load1,
    Load5,
    Load15,
    FsSize(Seq<char>),
    FsAvail(Seq<char>),
}

impl View for Family {
    type V = FamilyView;

    open spec fn view(&self) -> FamilyView {
        match self {
            Family::Cpu(m) => FamilyView::Cpu(m@),
            Family::MemTotal => FamilyView::MemTotal,
            Family::MemAvailable => FamilyView::MemAvailable,
            Family::NetRx => FamilyView::NetRx,
            Family::NetTx => FamilyView::NetTx,
            Family::Load1 => FamilyView::Load1,
            Family::Load5 => FamilyView::Load5,
            Family::Load15 => FamilyView::Load15,
            Family::FsSize(m) => FamilyView::FsSize(m@),
            Family::FsAvail(m) => FamilyView::FsAvail(m@),
        }
    }
}

/// A plotted line of a scrape: what it tells, and the text of its value.
#[derive(Clone, Debug)]
pub struct Reading {
    pub family: Family,
    pub value: String,
}

/// What a reading says.
pub struct ReadingView {
    pub family: FamilyView,
    pub value: Seq<char>,
}

impl View for Reading {
    type V = ReadingView;

    open spec fn view(&self) -> ReadingView {
        ReadingView { family: self.family@, value: self.value@ }
    }
}

/// Whether the labels name a physical interface.
pub open spec fn on_physical_iface(labels: Seq<char>) -> bool {
    label_of(labels, "device"@) matches Some(d) && !begins_with_any(d, virtual_ifaces())
}

/// Where the storage is mounted that the labels name, if they name one.
pub open spec fn storage_mount(labels: Seq<char>) -> Option<Seq<char>> {
    match (label_of(labels, "mountpoint"@), label_of(labels, "fstype"@)) {
        (Some(mount), Some(fstype)) => if is_storage(fstype, mount) {
            Some(mount)
        } else {
            None
        },
        _ => None,
    }
}

/// What a metric tells; nothing where it is not plotted.
pub open spec fn family_of(name: Seq<char>, labels: Seq<char>) -> Option<FamilyView> {
    if name == "node_cpu_seconds_total"@ {
        match label_of(labels, "mode"@) {
            Some(mode) => Some(FamilyView::Cpu(mode)),
            None => None,
        }
    } else if name == "node_memory_MemTotal_bytes"@ {
        Some(FamilyView::MemTotal)
    } else if name == "node_memory_MemAvailable_bytes"@ {
        Some(FamilyView::MemAvailable)
    } else if name == "node_network_receive_bytes_total"@ {
        if on_physical_iface(labels) {
            Some(FamilyView::NetRx)
        } else {
            None
        }
    } else if name == "node_network_transmit_bytes_total"@ {
        if on_physical_iface(labels) {
            Some(FamilyView::NetTx)
        } else {
            None
        }
    } else if name == "node_load1"@ {
        Some(FamilyView::Load1)
    } else if name == "node_load5"@ {
        Some(FamilyView::Load5)
    } else if name == "node_load15"@ {
        Some(FamilyView::Load15)
    } else if name == "node_filesystem_size_bytes"@ {
        match storage_mount(labels) {
            Some(mount) => Some(FamilyView::FsSize(mount)),
            None => None,
        }
    } else if name == "node_filesystem_avail_bytes"@ {
        match storage_mount(labels) {
            Some(mount) => Some(FamilyView::FsAvail(mount)),
            None => None,
        }
    } else {
        None
    }
}

fn physical(labels: &str) -> (r: bool)
    ensures
        r == on_physical_iface(labels@),
{
    match label(labels, "device") {
        Some(d) => is_physical_iface(d.as_str()),
        None => false,
    }
}

fn mount_of(labels: &str) -> (r: Option<String>)
    ensures
        opt_text(r) == storage_mount(labels@),
{
    match (label(labels, "mountpoint"), label(labels, "fstype")) {
        (Some(mount), Some(fstype)) => if is_real_filesystem(fstype.as_str(), mount.as_str()) {
            Some(mount)
        } else {
            None
        },
        _ => None,
    }
}

/// What a metric tells.
pub fn family(name: &str, labels: &str) -> (r: Option<Family>)
    ensures
        match r {
            Some(f) => family_of(name@, labels@) == Some(f@),
            None => family_of(name@, labels@) is None,
        },
{
    if same(name, "node_cpu_seconds_total") {
        match label(labels, "mode") {
            Some(mode) => Some(Family::Cpu(mode)),
            None => None,
        }
    } else if same(name, "node_memory_MemTotal_bytes") {
        Some(Family::MemTotal)
    } else if same(name, "node_memory_MemAvailable_bytes") {
        Some(Family::MemAvailable)
    } else if same(name, "node_network_receive_bytes_total") {
        if physical(labels) {
            Some(Family::NetRx)
        } else {
            None
        }
    } else if same(name, "node_network_transmit_bytes_total") {
        if physical(labels) {
            Some(Family::NetTx)
        } else {
            None
        }
    } else if same(name, "node_load1") {
        Some(Family::Load1)
    } else if same(name, "node_load5") {
        Some(Family::Load5)
    } else if same(name, "node_load15") {
        Some(Family::Load15)
    } else if same(name, "node_filesystem_size_bytes") {
        match mount_of(labels) {
            Some(mount) => Some(Family::FsSize(mount)),
            None => None,
        }
    } else if same(name, "node_filesystem_avail_bytes") {
        match mount_of(labels) {
            Some(mount) => Some(Family::FsAvail(mount)),
            None => None,
        }
    } else {
        None
    }
}

/// What a line of a scrape tells: nothing where it is a comment, no metric line
/// or not plotted.
pub open spec fn reading_of(line: Seq<char>) -> Option<ReadingView> {
    if has_prefix(line, "#"@) {
        None
    } else {
        match line_parts(line) {
            Some(p) => match family_of(p.name, p.labels) {
                Some(f) => Some(ReadingView { family: f, value: p.value }),
                None => None,
            },
            None => None,
        }
    }
}

/// What the lines of a scrape tell, in order.
pub open spec fn readings_of(lines: Seq<Seq<char>>) -> Seq<ReadingView>
    decreases lines.len(),
{
    if lines.len() == 0 {
        Seq::empty()
    } else {
        match reading_of(lines.last()) {
            Some(x) => readings_of(lines.drop_last()).push(x),
            None => readings_of(lines.drop_last()),
        }
    }
}

fn read_line(line: &str) -> (r: Option<Reading>)
    ensures
        match r {
            Some(x) => reading_of(line@) == Some(x@),
            None => reading_of(line@) is None,
        },
{
    if starts_with(line, "#") {
        return None;
    }
    match split_line(line) {
        Some((name, labels, value)) => match family(name, labels) {
            Some(f) => Some(Reading { family: f, value: value.to_owned() }),
            None => None,
        },
        None => None,
    }
}

/// Picks the plotted lines out of a scrape.
pub fn parse(text: &str) -> (r: Vec<Reading>)
    ensures
        views(r@) == readings_of(lines_of(text@)),
{
    let all = lines(text);
    let mut out: Vec<Reading> = Vec::new();
    let mut i: usize = 0;
    assert(crate::lists::views(out@) =~= readings_of(texts(all@).take(0)));
    while i < all.len()
        invariant
            i <= all@.len(),
            crate::lists::views(out@) == readings_of(texts(all@).take(i as int)),
        decreases all@.len() - i,
    {
        assert(texts(all@).take(i + 1).drop_last() =~= texts(all@).take(i as int));
        if let Some(x) = read_line(all[i].as_str()) {
            proof {
                crate::lists::lemma_views_push(out@, x);
            }
            out.push(x);
        }
        i += 1;
    }
    assert(texts(all@).take(i as int) =~= texts(all@));
    out
}

// ---------------------------------------------------------------------------
// From scrape to scrape
// ---------------------------------------------------------------------------

/// A number that was read for a mount point.
#[derive(Clone, Debug)]
pub struct MountValue<V> {
    pub mount: String,
    pub value: V,
}

impl<V> Named for MountValue<V> {
    open spec fn key(&self) -> Seq<char> {
        self.mount@
    }

    fn key_str(&self) -> (r: &str) {
        self.mount.as_str()
    }
}

/// A mounted filesystem: how large it is, and what is free of it.
#[derive(Clone, Debug)]
pub struct Mounted<V> {
    pub mountpoint: String,
    pub size: V,
    pub avail: V,
}

/// The last number that was read for each mount point.
pub open spec fn last_values<V>(s: Seq<MountValue<V>>) -> Seq<MountValue<V>>
    decreases s.len(),
{
    if s.len() == 0 {
        s
    } else {
        with_entry(last_values(s.drop_last()), s.last())
    }
}

/// Mount points in their order.
pub open spec fn by_mount<V>() -> spec_fn(MountValue<V>, MountValue<V>) -> bool {
    by_text(|m: MountValue<V>| m.mount@)
}

/// The mount points with a size for which something is also known to be free: mount
/// point, size, and what is free.
pub open spec fn paired<V>(sizes: Seq<MountValue<V>>, free: Seq<MountValue<V>>) -> Seq<
    (Seq<char>, V, V),
>
    decreases sizes.len(),
{
    if sizes.len() == 0 {
        Seq::empty()
    } else {
        let front = paired(sizes.drop_last(), free);
        let m = sizes.last();
        match named_at(free, m.mount@) {
            Some(i) => front.push((m.mount@, m.value, free[i].value)),
            None => front,
        }
    }
}

/// What mounted filesystems say.
pub open spec fn mounted_views<V>(s: Seq<Mounted<V>>) -> Seq<(Seq<char>, V, V)> {
    Seq::new(s.len(), |i: int| (s[i].mountpoint@, s[i].size, s[i].avail))
}

fn keep_last<V>(v: Vec<MountValue<V>>) -> (r: Vec<MountValue<V>>)
    ensures
        r@ == last_values(v@),
{
    let ghost all = v@;
    let mut out: Vec<MountValue<V>> = Vec::new();
    assert(all.take(0) =~= Seq::<MountValue<V>>::empty());
    for m in it: v
        invariant
            it.seq() == all,
            out@ == last_values(all.take(it.index())),
    {
        proof {
            let n = it.index();
            assert(all.take(n + 1).drop_last() =~= all.take(n));
            assert(all.take(n + 1).last() == m);
        }
        put_entry(&mut out, m);
    }
    assert(all.take(all.len() as int) =~= all);
    out
}

fn mount_before<V>(a: &MountValue<V>, b: &MountValue<V>) -> (r: bool)
    ensures
        r == by_mount()(*a, *b),
{
    less(a.mount.as_str(), b.mount.as_str())
}

/// The filesystems of a scrape, in the order of their mount points, from the sizes and
/// the free bytes as they were read. Where a mount point was read twice, the last
/// number counts; one without a size, or without what is free, is left out.
pub fn filesystems<V: Copy>(sizes: Vec<MountValue<V>>, free: Vec<MountValue<V>>) -> (r: Vec<
    Mounted<V>,
>)
    ensures
        mounted_views(r@) == paired(
            sorted_by(last_values(sizes@), by_mount()),
            last_values(free@),
        ),
{
    let free = keep_last(free);
    let sizes = sort(keep_last(sizes), mount_before, Ghost(by_mount()));
    let mut out: Vec<Mounted<V>> = Vec::new();
    let mut i: usize = 0;
    assert(sizes@.take(0) =~= Seq::<MountValue<V>>::empty());
    assert(mounted_views(out@) =~= paired(sizes@.take(0), free@));
    while i < sizes.len()
        invariant
            i <= sizes@.len(),
            mounted_views(out@) == paired(sizes@.take(i as int), free@),
        decreases sizes@.len() - i,
    {
        let m = &sizes[i];
        let ghost before = mounted_views(out@);
        proof {
            assert(sizes@.take(i + 1).drop_last() =~= sizes@.take(i as int));
            assert(sizes@.take(i + 1).last() == *m);
        }
        if let Some(j) = position(&free, m.mount.as_str()) {
            out.push(
                Mounted { mountpoint: m.mount.clone(), size: m.value, avail: free[j].value },
            );
            assert(mounted_views(out@) =~= before.push((m.mount@, m.value, free@[j as int].value)));
        }
        i += 1;
    }
    assert(sizes@.take(i as int) =~= sizes@);
    out
}

/// Holds the last scrape of a node, so that counters can be turned into rates. `R` is
/// what a scrape brought.
pub struct Sampler<R> {
    /// When the last scrape was, in milliseconds, and what it brought.
    pub prev: Option<(i64, R)>,
}

impl<R> Sampler<R> {
    /// A sampler that has seen no scrape.
    pub fn new() -> (r: Sampler<R>)
        ensures
            r.prev is None,
    {
        Sampler { prev: None }
    }

    /// Takes a scrape, and returns the one before it and how many milliseconds passed
    /// since. The first scrape is a baseline and no more; nor is there a rate where no
    /// time has passed, or the clock went back.
    pub fn push(&mut self, ts: i64, raw: R) -> (r: Option<(R, u64)>)
        ensures
            final(self).prev == Some((ts, raw)),
            match old(self).prev {
                Some((before, last)) => if ts > before {
                    r matches Some((x, passed)) && x == last && passed == ts - before
                } else {
                    r is None
                },
                None => r is None,
            },
    {
        let mut last = Some((ts, raw));
        std::mem::swap(&mut self.prev, &mut last);
        match last {
            Some((before, x)) => if ts > before {
                Some((x, (ts as i128 - before as i128) as u64))
            } else {
                None
            },
            None => None,
        }
    }
}

// ---------------------------------------------------------------------------
// Laws
// ---------------------------------------------------------------------------

/// A label is found by its key, wherever among the labels it stands: where `key`
/// first begins a label, the value comes out whole, commas and all.
pub proof fn law_label_value_comes_out_whole(
    before: Seq<char>,
    key: Seq<char>,
    value: Seq<char>,
    after: Seq<char>,
)
    requires
        !value.contains('"'),
        find_from(before + key + "=\""@ + value + "\""@ + after, key + "=\""@, 0) == Some(
            before.len() as int,
        ),
    ensures
        label_of(before + key + "=\""@ + value + "\""@ + after, key) == Some(value),
{
    reveal_strlit("=\"");
    reveal_strlit("\"");
    let needle = key + "=\""@;
    let labels = before + key + "=\""@ + value + "\""@ + after;
    let rest = labels.skip((before.len() + needle.len()) as int);
    assert(rest =~= value + "\""@ + after);
    crate::text::lemma_char_from(rest, '"', 0);
    assert(rest[value.len() as int] == '"');
    assert forall|i: int| 0 <= i < value.len() implies rest[i] != '"' by {
        assert(rest[i] == value[i]);
    }
    assert(char_from(rest, '"', 0) == Some(value.len() as int));
    assert(rest.take(value.len() as int) =~= value);
}

proof fn lemma_paired_from<V>(sizes: Seq<MountValue<V>>, free: Seq<MountValue<V>>, k: int) -> (i: int)
    requires
        0 <= k < paired(sizes, free).len(),
    ensures
        0 <= i < sizes.len(),
        sizes[i].mount@ == paired(sizes, free)[k].0,
        sizes[i].value == paired(sizes, free)[k].1,
        named_at(free, sizes[i].mount@) matches Some(j) && free[j].value == paired(sizes, free)[k].2,
        forall|l: int|
            #![trigger paired(sizes, free)[l]]
            0 <= l < k ==> exists|h: int|
                0 <= h < i && #[trigger] sizes[h].mount@ == paired(sizes, free)[l].0,
    decreases sizes.len(),
{
    let front = sizes.drop_last();
    let before = paired(front, free);
    let all = paired(sizes, free);
    if k < before.len() {
        let i = lemma_paired_from(front, free, k);
        assert(all[k] == before[k]);
        assert forall|l: int| #![trigger all[l]] 0 <= l < k implies exists|h: int|
            0 <= h < i && #[trigger] sizes[h].mount@ == all[l].0 by {
            assert(all[l] == before[l]);
            let h = choose|h: int| 0 <= h < i && #[trigger] front[h].mount@ == before[l].0;
            assert(sizes[h].mount@ == all[l].0);
        }
        i
    } else {
        assert forall|l: int| #![trigger all[l]] 0 <= l < k implies exists|h: int|
            0 <= h < sizes.len() - 1 && #[trigger] sizes[h].mount@ == all[l].0 by {
            assert(all[l] == before[l]);
            let h = lemma_paired_from(front, free, l);
            assert(sizes[h].mount@ == all[l].0);
        }
        sizes.len() - 1
    }
}

proof fn lemma_last_values_differ<V>(s: Seq<MountValue<V>>)
    ensures
        names_differ(last_values(s)),
    decreases s.len(),
{
    if s.len() > 0 {
        lemma_last_values_differ(s.drop_last());
        lemma_put_names_differ(last_values(s.drop_last()), s.last());
    }
}

/// Filesystems come out in the order of their mount points, each mount point once.
pub proof fn law_filesystems_are_in_order<V>(
    sizes: Seq<MountValue<V>>,
    free: Seq<MountValue<V>>,
    k: int,
    l: int,
)
    requires
        0 <= k < l < paired(sorted_by(last_values(sizes), by_mount()), free).len(),
    ensures
        sorts_before(
            paired(sorted_by(last_values(sizes), by_mount()), free)[k].0,
            paired(sorted_by(last_values(sizes), by_mount()), free)[l].0,
        ),
{
    let s = sorted_by(last_values(sizes), by_mount::<V>());
    let all = paired(s, free);
    lemma_last_values_differ(sizes);
    lemma_sorted_names(last_values(sizes), by_mount::<V>());
    lemma_by_text_ranks(|m: MountValue<V>| m.mount@);
    lemma_sorted_in_order(last_values(sizes), by_mount::<V>());
    let j = lemma_paired_from(s, free, l);
    assert(all[k] == all[k]);
    let i = choose|h: int| 0 <= h < j && #[trigger] s[h].mount@ == all[k].0;
    assert(s[i].key() != s[j].key());
    assert(!by_mount::<V>()(s[j], s[i]));
    lemma_sorts_total(s[i].mount@, s[j].mount@);
}

/// The bytes of an interface count unless its name begins as those of loopbacks, bridges,
/// tunnels and the interfaces of containers do.
pub proof fn law_which_interfaces_count(dev: &str, r: bool)
    requires
        call_ensures(is_physical_iface, (dev,), r),
    ensures
        r <==> !(has_prefix(dev@, "lo"@) || has_prefix(dev@, "veth"@) || has_prefix(dev@, "docker"@)
            || has_prefix(dev@, "br-"@) || has_prefix(dev@, "cni"@) || has_prefix(dev@, "flannel"@)
            || has_prefix(dev@, "kube-ipvs"@) || has_prefix(dev@, "tunl"@) || has_prefix(
            dev@,
            "dummy"@,
        ) || has_prefix(dev@, "virbr"@) || has_prefix(dev@, "tap"@) || has_prefix(dev@, "vxlan"@)
            || has_prefix(dev@, "nodelocaldns"@) || has_prefix(dev@, "cali"@) || has_prefix(
            dev@,
            "wg"@,
        )),
{
    let v = virtual_ifaces();
    assert(v.len() == 15);
    assert(v[0] == "lo"@ && v[1] == "veth"@ && v[2] == "docker"@ && v[3] == "br-"@ && v[4] == "cni"@
        && v[5] == "flannel"@ && v[6] == "kube-ipvs"@ && v[7] == "tunl"@ && v[8] == "dummy"@ && v[9]
        == "virbr"@ && v[10] == "tap"@ && v[11] == "vxlan"@ && v[12] == "nodelocaldns"@ && v[13]
        == "cali"@ && v[14] == "wg"@);
}

/// A filesystem counts unless it is of a type that is no storage, or mounted below a
/// directory of the kernel or of the container runtime.
pub proof fn law_which_filesystems_count(fstype: &str, mountpoint: &str, r: bool)
    requires
        call_ensures(is_real_filesystem, (fstype, mountpoint), r),
    ensures
        r <==> !(fstype@ == "tmpfs"@ || fstype@ == "devtmpfs"@ || fstype@ == "ramfs"@ || fstype@
            == "overlay"@ || fstype@ == "squashfs"@ || fstype@ == "iso9660"@ || fstype@
            == "autofs"@ || fstype@ == "binfmt_misc"@ || fstype@ == "cgroup"@ || fstype@
            == "cgroup2"@ || fstype@ == "proc"@ || fstype@ == "sysfs"@ || fstype@ == "debugfs"@
            || fstype@ == "tracefs"@ || fstype@ == "fuse.portal"@ || fstype@ == "nsfs"@) && !(
        has_prefix(mountpoint@, "/proc"@) || has_prefix(mountpoint@, "/sys"@) || has_prefix(
            mountpoint@,
            "/dev"@,
        ) || has_prefix(mountpoint@, "/run"@) || has_prefix(mountpoint@, "/var/lib/kubelet"@)
            || has_prefix(mountpoint@, "/var/lib/docker"@) || has_prefix(mountpoint@, "/host/proc"@)
            || has_prefix(mountpoint@, "/host/sys"@)),
{
    lemma_fstypes(fstype@);
    let v = other_mounts();
    assert(v.len() == 8);
    assert(v[0] == "/proc"@ && v[1] == "/sys"@ && v[2] == "/dev"@ && v[3] == "/run"@ && v[4]
        == "/var/lib/kubelet"@ && v[5] == "/var/lib/docker"@ && v[6] == "/host/proc"@ && v[7]
        == "/host/sys"@);
}

proof fn lemma_fstypes(s: Seq<char>)
    ensures
        virtual_fstypes().contains(s) <==> s == "tmpfs"@ || s == "devtmpfs"@ || s == "ramfs"@ || s
            == "overlay"@ || s == "squashfs"@ || s == "iso9660"@ || s == "autofs"@ || s
            == "binfmt_misc"@ || s == "cgroup"@ || s == "cgroup2"@ || s == "proc"@ || s == "sysfs"@
            || s == "debugfs"@ || s == "tracefs"@ || s == "fuse.portal"@ || s == "nsfs"@,
{
    let v = virtual_fstypes();
    assert(v.len() == 16);
    assert(v[0] == "tmpfs"@ && v[1] == "devtmpfs"@ && v[2] == "ramfs"@ && v[3] == "overlay"@ && v[4]
        == "squashfs"@ && v[5] == "iso9660"@ && v[6] == "autofs"@ && v[7] == "binfmt_misc"@ && v[8]
        == "cgroup"@ && v[9] == "cgroup2"@ && v[10] == "proc"@ && v[11] == "sysfs"@ && v[12]
        == "debugfs"@ && v[13] == "tracefs"@ && v[14] == "fuse.portal"@ && v[15] == "nsfs"@);
}

proof fn lemma_last_space(head: Seq<char>, value: Seq<char>)
    requires
        !value.contains(' '),
    ensures
        last_char(head + seq![' '] + value, ' ') == Some(head.len() as int),
    decreases value.len(),
{
    let s = head + seq![' '] + value;
    if value.len() == 0 {
        assert(s.last() == ' ');
    } else {
        let v = value.drop_last();
        assert forall|k: int| 0 <= k < v.len() implies v[k] != ' ' by {
            assert(value.contains(value[k]));
        }
        assert(value.contains(value.last()));
        assert(s.last() == value.last());
        assert(s.drop_last() =~= head + seq![' '] + v);
        lemma_last_space(head, v);
    }
}

/// A metric line is a name, its labels in braces, a blank and a value.
pub proof fn law_a_metric_line_comes_apart<'a>(
    line: &'a str,
    name: Seq<char>,
    labels: Seq<char>,
    value: Seq<char>,
    r: Option<(&'a str, &'a str, &'a str)>,
)
    requires
        call_ensures(split_line, (line,), r),
        !name.contains('{'),
        !value.contains(' '),
    ensures
        line@ == name + seq!['{'] + labels + seq!['}'] + seq![' '] + value && (labels.len() == 0
            || labels.last() != '}') ==> (r matches Some((n, l, v)) && n@ == name && l@ == labels
            && v@ == value),
        line@ == name + seq![' '] + value ==> (r matches Some((n, l, v)) && n@ == name && l@.len() == 0
            && v@ == value),
        !line@.contains(' ') ==> r is None,
{
    if line@ == name + seq!['{'] + labels + seq!['}'] + seq![' '] + value && (labels.len() == 0
        || labels.last() != '}') {
        let head = name + seq!['{'] + labels + seq!['}'];
        lemma_last_space(head, value);
        assert(line@ =~= head + seq![' '] + value);
        assert(line@.take(head.len() as int) =~= head);
        assert(line@.skip(head.len() as int + 1) =~= value);
        let n = name.len() as int;
        lemma_char_from(head, '{', 0);
        assert(head[n] == '{');
        let k = char_from(head, '{', 0)->0;
        if k < n {
            assert(name[k] == '{');
            assert(name.contains(name[k]));
        }
        assert(head.take(n) =~= name);
        let inside = head.skip(n + 1);
        assert(inside =~= labels + seq!['}']);
        assert(inside.last() == '}');
        assert(inside.drop_last() =~= labels);
        reveal_with_fuel(without_end, 2);
    }
    if line@ == name + seq![' '] + value {
        lemma_last_space(name, value);
        assert(line@.take(name.len() as int) =~= name);
        assert(line@.skip(name.len() as int + 1) =~= value);
        lemma_char_from(name, '{', 0);
        if char_from(name, '{', 0) is Some {
            assert(name.contains(name[char_from(name, '{', 0)->0]));
        }
    }
    if !line@.contains(' ') {
        lemma_no_last(line@, ' ');
    }
}

proof fn lemma_no_last(s: Seq<char>, c: char)
    requires
        !s.contains(c),
    ensures
        last_char(s, c) is None,
    decreases s.len(),
{
    if s.len() > 0 {
        assert(s.contains(s.last()));
        assert forall|k: int| 0 <= k < s.drop_last().len() implies s.drop_last()[k] != c by {
            assert(s.contains(s[k]));
        }
        lemma_no_last(s.drop_last(), c);
    }
}

/// Each metric is taken for what its name says: processor time by its mode, memory, the bytes
/// of interfaces that count, the load over one, five and fifteen minutes, and the space of
/// filesystems that count, by where they are mounted.
pub proof fn law_metrics_are_what_their_names_say(
    name: &str,
    labels: &str,
    r: Option<Family>,
    mode: &str,
    mode_label: Option<String>,
    device: &str,
    device_label: Option<String>,
    counts: bool,
    dev: &str,
)
    requires
        call_ensures(family, (name, labels), r),
        mode@ == "mode"@,
        call_ensures(label, (labels, mode), mode_label),
        device@ == "device"@,
        call_ensures(label, (labels, device), device_label),
        device_label is Some ==> dev@ == device_label->0@,
        call_ensures(is_physical_iface, (dev,), counts),
    ensures
        name@ == "node_cpu_seconds_total"@ && mode_label is Some ==> (r matches Some(Family::Cpu(m))
            && m@ == mode_label->0@),
        name@ == "node_cpu_seconds_total"@ && mode_label is None ==> r is None,
        name@ == "node_memory_MemTotal_bytes"@ ==> r == Some(Family::MemTotal),
        name@ == "node_memory_MemAvailable_bytes"@ ==> r == Some(Family::MemAvailable),
        name@ == "node_network_receive_bytes_total"@ ==> (device_label is Some && counts <==> r
            == Some(Family::NetRx)) && (r is None || r == Some(Family::NetRx)),
        name@ == "node_network_transmit_bytes_total"@ ==> (device_label is Some && counts <==> r
            == Some(Family::NetTx)) && (r is None || r == Some(Family::NetTx)),
        name@ == "node_load1"@ ==> r == Some(Family::Load1),
        name@ == "node_load5"@ ==> r == Some(Family::Load5),
        name@ == "node_load15"@ ==> r == Some(Family::Load15),
        r matches Some(Family::MemTotal) ==> name@ == "node_memory_MemTotal_bytes"@,
        r matches Some(Family::Load1) ==> name@ == "node_load1"@,
{
    lemma_metric_names();
}

proof fn lemma_metric_names()
    ensures
        "node_cpu_seconds_total"@ != "node_memory_MemTotal_bytes"@,
        ({
            let all = seq![
                "node_cpu_seconds_total"@,
                "node_memory_MemTotal_bytes"@,
                "node_memory_MemAvailable_bytes"@,
                "node_network_receive_bytes_total"@,
                "node_network_transmit_bytes_total"@,
                "node_load1"@,
                "node_load5"@,
                "node_load15"@,
                "node_filesystem_size_bytes"@,
                "node_filesystem_avail_bytes"@,
            ];
            &&& all[0].len() == 22
            &&& all[1].len() == 26
            &&& all[2].len() == 30
            &&& all[3].len() == 32
            &&& all[4].len() == 33
            &&& all[5].len() == 10
            &&& all[6].len() == 10
            &&& all[7].len() == 11
            &&& all[8].len() == 26
            &&& all[9].len() == 27
            &&& all[5][9] == '1'
            &&& all[6][9] == '5'
            &&& all[1][5] == 'm'
            &&& all[8][5] == 'f'
        }),
{
    reveal_strlit("node_cpu_seconds_total");
    reveal_strlit("node_memory_MemTotal_bytes");
    reveal_strlit("node_memory_MemAvailable_bytes");
    reveal_strlit("node_network_receive_bytes_total");
    reveal_strlit("node_network_transmit_bytes_total");
    reveal_strlit("node_load1");
    reveal_strlit("node_load5");
    reveal_strlit("node_load15");
    reveal_strlit("node_filesystem_size_bytes");
    reveal_strlit("node_filesystem_avail_bytes");
}

/// The space of a filesystem is read under the place where it is mounted, where it counts.
pub proof fn law_space_is_read_by_mount_point(
    size: &str,
    avail: &str,
    labels: &str,
    of_size: Option<Family>,
    of_avail: Option<Family>,
    mount_key: &str,
    type_key: &str,
    mount_label: Option<String>,
    type_label: Option<String>,
    mount: &str,
    fstype: &str,
    counts: bool,
)
    requires
        size@ == "node_filesystem_size_bytes"@,
        avail@ == "node_filesystem_avail_bytes"@,
        call_ensures(family, (size, labels), of_size),
        call_ensures(family, (avail, labels), of_avail),
        mount_key@ == "mountpoint"@,
        type_key@ == "fstype"@,
        call_ensures(label, (labels, mount_key), mount_label),
        call_ensures(label, (labels, type_key), type_label),
        mount_label is Some ==> mount@ == mount_label->0@,
        type_label is Some ==> fstype@ == type_label->0@,
        call_ensures(is_real_filesystem, (fstype, mount), counts),
    ensures
        mount_label is Some && type_label is Some && counts ==> (of_size matches Some(
            Family::FsSize(m),
        ) && m@ == mount@) && (of_avail matches Some(Family::FsAvail(m)) && m@ == mount@),
        mount_label is None || type_label is None || !counts ==> of_size is None && of_avail is None,
{
    lemma_metric_names();
}

proof fn lemma_readings(ls: Seq<Seq<char>>, x: ReadingView)
    ensures
        readings_of(ls).contains(x) <==> exists|i: int|
            #![trigger ls[i]]
            0 <= i < ls.len() && reading_of(ls[i]) == Some(x),
        readings_of(ls).len() <= ls.len(),
    decreases ls.len(),
{
    if ls.len() > 0 {
        let t = ls.drop_last();
        let front = readings_of(t);
        let all = readings_of(ls);
        lemma_readings(t, x);
        if all.contains(x) {
            let k = choose|k: int| 0 <= k < all.len() && all[k] == x;
            if k < front.len() {
                assert(front[k] == x);
                let i = choose|i: int|
                    #![trigger t[i]]
                    0 <= i < t.len() && reading_of(t[i]) == Some(x);
                assert(ls[i] == t[i]);
            } else {
                assert(ls[ls.len() - 1] == ls.last());
            }
        }
        if exists|i: int| #![trigger ls[i]] 0 <= i < ls.len() && reading_of(ls[i]) == Some(x) {
            let i = choose|i: int|
                #![trigger ls[i]]
                0 <= i < ls.len() && reading_of(ls[i]) == Some(x);
            if i < t.len() {
                assert(t[i] == ls[i]);
                let k = choose|k: int| 0 <= k < front.len() && front[k] == x;
                assert(all[k] == x);
            } else {
                assert(all[all.len() - 1] == x);
            }
        }
    }
}

/// Every line of a scrape that is no comment and tells something is read, with its value.
pub proof fn law_every_plotted_line_is_read(
    text: &str,
    r: Vec<Reading>,
    i: int,
    line: &str,
    name: &str,
    labels: &str,
    value: &str,
    told: Option<Family>,
)
    requires
        call_ensures(parse, (text,), r),
        0 <= i < lines_of(text@).len(),
        line@ == lines_of(text@)[i],
        line@.len() > 0,
        line@[0] != '#',
        call_ensures(split_line, (line,), Some((name, labels, value))),
        call_ensures(family, (name, labels), told),
        told is Some,
    ensures
        exists|k: int|
            0 <= k < r@.len() && (#[trigger] r@[k]).family@ == told->0@ && r@[k].value@
                == value@,
{
    let ls = lines_of(text@);
    let v = views(r@);
    reveal_strlit("#");
    assert("#"@.len() == 1 && "#"@[0] == '#');
    if has_prefix(line@, "#"@) {
        assert(line@.take(1)[0] == '#');
    }
    let x = ReadingView { family: told->0@, value: value@ };
    lemma_readings(ls, x);
    assert(reading_of(ls[i]) == Some(x));
    assert(v.contains(x));
    assert(v.len() == r@.len());
    let k = choose|k: int| 0 <= k < v.len() && v[k] == x;
    assert(v[k] == r@[k]@);
}

/// What is read of a scrape stands on one of its lines, and no comment is read.
pub proof fn law_only_lines_of_the_scrape_are_read(text: &str, r: Vec<Reading>, k: int)
    requires
        call_ensures(parse, (text,), r),
        0 <= k < r@.len(),
    ensures
        exists|i: int|
            #![trigger lines_of(text@)[i]]
            0 <= i < lines_of(text@).len() && lines_of(text@)[i].len() > 0 && lines_of(text@)[i][0]
                != '#' && has_suffix(lines_of(text@)[i], r@[k].value@),
{
    let ls = lines_of(text@);
    let v = views(r@);
    assert(v.len() == r@.len());
    assert(v[k] == r@[k]@);
    assert(v.contains(v[k]));
    lemma_readings(ls, v[k]);
    let i = choose|i: int|
        #![trigger ls[i]]
        0 <= i < ls.len() && reading_of(ls[i]) == Some(v[k]);
    let line = ls[i];
    reveal_strlit("#");
    assert("#"@ =~= seq!['#']);
    lemma_last_is_inside(line, ' ');
    let n = last_char(line, ' ')->0;
    assert(line.take(1) =~= seq![line[0]]);
    assert(line[0] != '#');
    assert(line.skip(line.len() - r@[k].value@.len()) =~= line.skip(n + 1));
    assert(lines_of(text@)[i] == line);
}

proof fn lemma_last_is_inside(s: Seq<char>, c: char)
    ensures
        last_char(s, c) matches Some(i) ==> 0 <= i < s.len(),
    decreases s.len(),
{
    if s.len() > 0 {
        lemma_last_is_inside(s.drop_last(), c);
    }
}

proof fn lemma_last_value_is_found<V>(s: Seq<MountValue<V>>, name: Seq<char>)
    ensures
        match named_at(last_values(s), name) {
            Some(k) => exists|i: int|
                #![trigger s[i]]
                0 <= i < s.len() && s[i] == last_values(s)[k] && s[i].mount@ == name && (forall|
                    j: int,
                |
                    i < j < s.len() ==> (#[trigger] s[j]).mount@ != name),
            None => forall|j: int| 0 <= j < s.len() ==> (#[trigger] s[j]).mount@ != name,
        },
    decreases s.len(),
{
    if s.len() > 0 {
        let t = s.drop_last();
        lemma_last_value_is_found(t, name);
        lemma_put_then_find(last_values(t), s.last(), name);
        assert(s.last().key() == s.last().mount@);
        assert(s[s.len() - 1] == s.last());
        if name != s.last().mount@ {
            if let Some(k) = named_at(last_values(t), name) {
                let i = choose|i: int|
                    #![trigger t[i]]
                    0 <= i < t.len() && t[i] == last_values(t)[k] && t[i].mount@ == name && (forall|
                        j: int,
                    |
                        i < j < t.len() ==> (#[trigger] t[j]).mount@ != name);
                assert(s[i] == t[i]);
                assert forall|j: int| i < j < s.len() implies (#[trigger] s[j]).mount@ != name by {
                    if j < t.len() {
                        assert(t[j] == s[j]);
                    }
                }
            } else {
                assert forall|j: int| 0 <= j < s.len() implies (#[trigger] s[j]).mount@ != name by {
                    if j < t.len() {
                        assert(t[j] == s[j]);
                    }
                }
            }
        }
    }
}

proof fn lemma_paired_holds<V>(sizes: Seq<MountValue<V>>, free: Seq<MountValue<V>>, i: int)
    requires
        0 <= i < sizes.len(),
        named_at(free, sizes[i].mount@) is Some,
    ensures
        paired(sizes, free).contains(
            (sizes[i].mount@, sizes[i].value, free[named_at(free, sizes[i].mount@)->0].value),
        ),
    decreases sizes.len(),
{
    broadcast use vstd::seq_lib::lemma_seq_contains_after_push;

    if i < sizes.len() - 1 {
        assert(sizes.drop_last()[i] == sizes[i]);
        lemma_paired_holds(sizes.drop_last(), free, i);
    }
}

/// Every mount point that was read with its size and with what is free of it is shown, with
/// the last of each that was read.
pub proof fn law_every_filesystem_is_shown<V: Copy>(
    sizes: Vec<MountValue<V>>,
    free: Vec<MountValue<V>>,
    r: Vec<Mounted<V>>,
    i: int,
    j: int,
)
    requires
        call_ensures(filesystems::<V>, (sizes, free), r),
        0 <= i < sizes@.len(),
        0 <= j < free@.len(),
        sizes@[i].mount@ == free@[j].mount@,
        forall|k: int| i < k < sizes@.len() ==> (#[trigger] sizes@[k]).mount@ != sizes@[i].mount@,
        forall|k: int| j < k < free@.len() ==> (#[trigger] free@[k]).mount@ != sizes@[i].mount@,
    ensures
        exists|k: int|
            0 <= k < r@.len() && (#[trigger] r@[k]).mountpoint@ == sizes@[i].mount@ && r@[k].size
                == sizes@[i].value && r@[k].avail == free@[j].value,
{
    let name = sizes@[i].mount@;
    let ls = last_values(sizes@);
    let lf = last_values(free@);
    let sorted = sorted_by(ls, by_mount());
    lemma_last_value_is_found(sizes@, name);
    lemma_last_value_is_found(free@, name);
    let a = named_at(ls, name)->0;
    let b = named_at(lf, name)->0;
    lemma_named_from(ls, name, 0);
    lemma_named_from(lf, name, 0);
    let i2 = choose|i: int|
        #![trigger sizes@[i]]
        0 <= i < sizes@.len() && sizes@[i] == ls[a] && sizes@[i].mount@ == name && (forall|j: int|
            i < j < sizes@.len() ==> (#[trigger] sizes@[j]).mount@ != name);
    assert(i2 == i);
    let j2 = choose|i: int|
        #![trigger free@[i]]
        0 <= i < free@.len() && free@[i] == lf[b] && free@[i].mount@ == name && (forall|j: int|
            i < j < free@.len() ==> (#[trigger] free@[j]).mount@ != name);
    assert(j2 == j);
    lemma_sorted_members(ls, by_mount());
    assert(ls.contains(ls[a]));
    assert(sorted.contains(ls[a]));
    let c = choose|c: int| 0 <= c < sorted.len() && sorted[c] == ls[a];
    lemma_paired_holds(sorted, lf, c);
    let v = mounted_views(r@);
    assert(v.len() == r@.len());
    let x = (name, sizes@[i].value, free@[j].value);
    assert(v.contains(x));
    let k = choose|k: int| 0 <= k < v.len() && v[k] == x;
    assert(v[k] == (r@[k].mountpoint@, r@[k].size, r@[k].avail));
}

/// No filesystem is shown of which either was not read, and they stand in the order of their
/// mount points, each once.
pub proof fn law_only_filesystems_read_are_shown<V: Copy>(
    sizes: Vec<MountValue<V>>,
    free: Vec<MountValue<V>>,
    r: Vec<Mounted<V>>,
    k: int,
)
    requires
        call_ensures(filesystems::<V>, (sizes, free), r),
        0 <= k < r@.len(),
    ensures
        exists|i: int|
            0 <= i < sizes@.len() && (#[trigger] sizes@[i]).mount@ == r@[k].mountpoint@
                && sizes@[i].value == r@[k].size,
        exists|j: int|
            0 <= j < free@.len() && (#[trigger] free@[j]).mount@ == r@[k].mountpoint@
                && free@[j].value == r@[k].avail,
        forall|l: int|
            k < l < r@.len() ==> sorts_before(r@[k].mountpoint@, (#[trigger] r@[l]).mountpoint@),
{
    let ls = last_values(sizes@);
    let lf = last_values(free@);
    let sorted = sorted_by(ls, by_mount());
    let v = mounted_views(r@);
    assert(v.len() == r@.len());
    assert(v[k] == (r@[k].mountpoint@, r@[k].size, r@[k].avail));
    let i = lemma_paired_from(sorted, lf, k);
    let name = r@[k].mountpoint@;
    lemma_sorted_members(ls, by_mount());
    assert(sorted.contains(sorted[i]));
    let a = choose|a: int| 0 <= a < ls.len() && ls[a] == sorted[i];
    lemma_last_values_differ(sizes@);
    lemma_named_from(ls, name, 0);
    assert(ls[a].key() == name);
    let n = named_at(ls, name)->0;
    assert(n == a) by {
        assert(ls[n].key() == name);
        if n < a {
            assert(ls[n].key() != ls[a].key());
        }
        if a < n {
            assert(ls[a].key() != ls[n].key());
        }
    }
    lemma_last_value_is_found(sizes@, name);
    lemma_last_value_is_found(free@, name);
    assert forall|l: int| k < l < r@.len() implies sorts_before(
        r@[k].mountpoint@,
        (#[trigger] r@[l]).mountpoint@,
    ) by {
        assert(v[l] == (r@[l].mountpoint@, r@[l].size, r@[l].avail));
        law_filesystems_are_in_order(sizes@, lf, k, l);
    }
}

} // verus!
