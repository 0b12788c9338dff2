//! Kubeconfig contexts: what a parsed kubeconfig holds, and the entries of the
//! cluster switcher.
use crate::lists::{lemma_views_push, views, Named};
use crate::paths::home_dir;
use crate::text::{pieces, same, split, text_or_nothing, texts};
use vstd::prelude::*;

verus! {

/// A kubeconfig context entry for the cluster switcher.
#[derive(Clone, Debug)]
pub struct ContextInfo {
    pub name: String,
    /// Cluster this context points at.
    pub cluster: String,
    /// True for the kubeconfig's current context.
    pub current: bool,
}

/// Result of a successful connect.
#[derive(Clone, Debug)]
pub struct ClusterInfo {
    pub context: String,
    pub cluster_name: String,
    /// API server URL.
    pub server: String,
    /// Server git version (e.g. "v1.31.2").
    pub version: String,
}

/// What a switcher entry says.
pub struct ContextView {
    pub name: Seq<char>,
    pub cluster: Seq<char>,
    pub current: bool,
}

impl View for ContextInfo {
    type V = ContextView;

    open spec fn view(&self) -> ContextView {
        ContextView { name: self.name@, cluster: self.cluster@, current: self.current }
    }
}

/// The body of a context.
#[derive(Clone, Debug)]
pub struct ContextBody {
    pub cluster: String,
    pub user: Option<String>,
}

/// A named context.
#[derive(Clone, Debug)]
pub struct NamedContext {
    pub name: String,
    pub context: Option<ContextBody>,
}

/// The body of a cluster: its address, and which ways to trust it are set.
#[derive(Clone, Debug)]
pub struct ClusterBody {
    pub server: Option<String>,
    pub certificate_authority: bool,
    pub certificate_authority_data: bool,
    pub insecure_skip_tls_verify: Option<bool>,
}

/// A named cluster.
#[derive(Clone, Debug)]
pub struct NamedCluster {
    pub name: String,
    pub cluster: Option<ClusterBody>,
}

/// Which credentials a user sets.
#[derive(Clone, Debug)]
pub struct AuthInfo {
    pub token: bool,
    pub token_file: bool,
    pub client_certificate: bool,
    pub client_certificate_data: bool,
    pub username: bool,
    pub password: bool,
    pub auth_provider: bool,
    pub exec_plugin: bool,
}

/// A named user.
#[derive(Clone, Debug)]
pub struct NamedAuthInfo {
    pub name: String,
    pub auth_info: Option<AuthInfo>,
}

/// A parsed kubeconfig, as far as the library reads it.
#[derive(Clone, Debug)]
pub struct Kubeconfig {
    pub contexts: Vec<NamedContext>,
    pub clusters: Vec<NamedCluster>,
    pub auth_infos: Vec<NamedAuthInfo>,
    pub current_context: Option<String>,
}

impl Named for NamedContext {
    open spec fn key(&self) -> Seq<char> {
        self.name@
    }

    fn key_str(&self) -> (r: &str) {
        self.name.as_str()
    }
}

impl Named for NamedCluster {
    open spec fn key(&self) -> Seq<char> {
        self.name@
    }

    fn key_str(&self) -> (r: &str) {
        self.name.as_str()
    }
}

impl Named for NamedAuthInfo {
    open spec fn key(&self) -> Seq<char> {
        self.name@
    }

    fn key_str(&self) -> (r: &str) {
        self.name.as_str()
    }
}

/// The switcher entry of a context. `current` names the current context, where
/// there is such a notion.
pub open spec fn context_entry(c: NamedContext, current: Option<Seq<char>>) -> ContextView {
    ContextView {
        name: c.name@,
        cluster: match c.context {
            Some(b) => b.cluster@,
            None => Seq::empty(),
        },
        current: current == Some(c.name@),
    }
}

/// The switcher entries of all contexts, in order.
pub open spec fn context_entries(s: Seq<NamedContext>, current: Option<Seq<char>>) -> Seq<
    ContextView,
> {
    Seq::new(s.len(), |i: int| context_entry(s[i], current))
}

fn entries(list: &Vec<NamedContext>, current: Option<&str>) -> (r: Vec<ContextInfo>)
    ensures
        views(r@) == context_entries(
            list@,
            (match current {
                Some(c) => Some(c@),
                None => None,
            }),
        ),
{
    let ghost cur: Option<Seq<char>> = match current {
        Some(c) => Some(c@),
        None => None,
    };
    let mut out: Vec<ContextInfo> = Vec::new();
    let mut i: usize = 0;
    assert(views(out@) =~= context_entries(list@, cur).take(0));
    while i < list.len()
        invariant
            i <= list@.len(),
            cur == (match current {
                Some(c) => Some(c@),
                None => None,
            }),
            views(out@) == context_entries(list@, cur).take(i as int),
        decreases list@.len() - i,
    {
        let c = &list[i];
        let info = ContextInfo {
            name: c.name.clone(),
            cluster: match &c.context {
                Some(b) => b.cluster.clone(),
                None => String::new(),
            },
            current: match current {
                Some(n) => same(c.name.as_str(), n),
                None => false,
            },
        };
        proof {
            lemma_views_push(out@, info);
            assert(context_entries(list@, cur).take(i + 1) =~= context_entries(list@, cur).take(
                i as int,
            ).push(info@));
        }
        out.push(info);
        i += 1;
    }
    assert(context_entries(list@, cur).take(i as int) =~= context_entries(list@, cur));
    out
}

/// The contexts of the default kubeconfig, flagging the current one. There are
/// none where no kubeconfig could be read.
pub fn list_contexts(kubeconfig: &Option<Kubeconfig>) -> (r: Vec<ContextInfo>)
    ensures
        views(r@) == (match *kubeconfig {
            Some(kc) => context_entries(
                kc.contexts@,
                Some(text_or_nothing(kc.current_context)),
            ),
            None => Seq::empty(),
        }),
{
    match kubeconfig {
        Some(kc) => {
            let current = match &kc.current_context {
                Some(c) => c.clone(),
                None => String::new(),
            };
            entries(&kc.contexts, Some(current.as_str()))
        },
        None => {
            let r: Vec<ContextInfo> = Vec::new();
            assert(views(r@) =~= Seq::empty());
            r
        },
    }
}

/// The switcher entries of an imported kubeconfig. None of them is current: that
/// notion belongs to the default kubeconfig.
pub fn contexts_from_kubeconfig(kubeconfig: &Kubeconfig) -> (r: Vec<ContextInfo>)
    ensures
        views(r@) == context_entries(kubeconfig.contexts@, None),
        forall|i: int| 0 <= i < r@.len() ==> !(#[trigger] r@[i]).current,
{
    let r = entries(&kubeconfig.contexts, None);
    assert(views(r@).len() == kubeconfig.contexts@.len());
    assert forall|i: int| 0 <= i < r@.len() implies !(#[trigger] r@[i]).current by {
        assert(views(r@)[i] == r@[i]@);
        assert(context_entries(kubeconfig.contexts@, None)[i] == context_entry(
            kubeconfig.contexts@[i],
            None,
        ));
    }
    r
}

/// The first piece of a list of pieces that is not empty.
pub open spec fn first_nonempty(s: Seq<Seq<char>>) -> Option<Seq<char>>
    decreases s.len(),
{
    if s.len() == 0 {
        None
    } else if s[0].len() > 0 {
        Some(s[0])
    } else {
        first_nonempty(s.drop_first())
    }
}

/// The first entry of a `KUBECONFIG` path list whose entries `sep` separates.
pub fn first_kubeconfig_path(list: &str, sep: char) -> (r: Option<String>)
    ensures
        match r {
            Some(p) => first_nonempty(pieces(list@, sep)) == Some(p@),
            None => first_nonempty(pieces(list@, sep)) is None,
        },
{
    let parts = split(list, sep);
    let ghost ps = pieces(list@, sep);
    let mut i: usize = 0;
    assert(ps.skip(0) =~= ps);
    while i < parts.len()
        invariant
            i <= parts@.len(),
            texts(parts@) == ps,
            ps == pieces(list@, sep),
            first_nonempty(ps) == first_nonempty(ps.skip(i as int)),
        decreases parts@.len() - i,
    {
        assert(ps[i as int] == parts@[i as int]@);
        if !parts[i].as_str().is_empty() {
            return Some(parts[i].clone());
        }
        assert(ps.skip(i as int).drop_first() =~= ps.skip(i + 1));
        i += 1;
    }
    None
}

/// Where the default kubeconfig is looked for.
#[derive(Clone, Debug)]
pub enum KubeconfigPath {
    /// At this path.
    At(String),
    /// At `.kube/config` below this home directory.
    Below(String),
    /// Nowhere: no home directory is known.
    Unknown,
}

/// What separates the entries of `KUBECONFIG`: on Windows a colon would split a
/// drive letter off.
pub open spec fn list_separator(windows: bool) -> char {
    if windows {
        ';'
    } else {
        ':'
    }
}

/// The first entry of a `KUBECONFIG` that is set, where it has one.
pub open spec fn given_path(kubeconfig: Option<&str>, windows: bool) -> Option<Seq<char>> {
    match kubeconfig {
        Some(list) => first_nonempty(pieces(list@, list_separator(windows))),
        None => None,
    }
}

/// Where the default kubeconfig is: the first entry of `KUBECONFIG`, or else
/// below what `HOME` says, or `USERPROFILE` where `HOME` is not set.
pub fn default_kubeconfig_path(
    kubeconfig: Option<&str>,
    home: Option<&str>,
    profile: Option<&str>,
    windows: bool,
) -> (r: KubeconfigPath)
    ensures
        match (given_path(kubeconfig, windows), home, profile) {
            (Some(p), _, _) => r matches KubeconfigPath::At(q) && q@ == p,
            (None, Some(h), _) => if h@.len() > 0 {
                r matches KubeconfigPath::Below(d) && d@ == h@
            } else {
                r is Unknown
            },
            (None, None, Some(h)) => if h@.len() > 0 {
                r matches KubeconfigPath::Below(d) && d@ == h@
            } else {
                r is Unknown
            },
            (None, None, None) => r is Unknown,
        },
{
    if let Some(list) = kubeconfig {
        let sep = if windows {
            ';'
        } else {
            ':'
        };
        if let Some(first) = first_kubeconfig_path(list, sep) {
            return KubeconfigPath::At(first);
        }
    }
    match home_dir(home, profile) {
        Some(h) => if h.is_empty() {
            KubeconfigPath::Unknown
        } else {
            KubeconfigPath::Below(h.to_owned())
        },
        None => KubeconfigPath::Unknown,
    }
}

// ---------------------------------------------------------------------------
// Laws
// ---------------------------------------------------------------------------

/// The switcher has an entry for every context, in order, with the name and the cluster of
/// the context. The current one is the one that the kubeconfig names.
pub proof fn law_every_context_has_its_entry(kc: Kubeconfig, r: Vec<ContextInfo>, i: int)
    requires
        call_ensures(list_contexts, (&Some(kc),), r),
        0 <= i < kc.contexts@.len(),
    ensures
        r@.len() == kc.contexts@.len(),
        r@[i].name@ == kc.contexts@[i].name@,
        kc.contexts@[i].context matches Some(b) ==> r@[i].cluster@ == b.cluster@,
        kc.contexts@[i].context is None ==> r@[i].cluster@.len() == 0,
        kc.current_context matches Some(c) ==> (r@[i].current <==> c@ == kc.contexts@[i].name@),
        kc.current_context is None && kc.contexts@[i].name@.len() > 0 ==> !r@[i].current,
{
    let v = views(r@);
    assert(v.len() == r@.len());
    assert(v[i] == r@[i]@);
}

/// An imported kubeconfig has an entry for every context too, none of them current.
pub proof fn law_imported_contexts_are_not_current(kc: Kubeconfig, r: Vec<ContextInfo>, i: int)
    requires
        call_ensures(contexts_from_kubeconfig, (&kc,), r),
        0 <= i < kc.contexts@.len(),
    ensures
        r@.len() == kc.contexts@.len(),
        r@[i].name@ == kc.contexts@[i].name@,
        kc.contexts@[i].context matches Some(b) ==> r@[i].cluster@ == b.cluster@,
        !r@[i].current,
{
    let v = views(r@);
    assert(v.len() == r@.len());
    assert(v[i] == r@[i]@);
}

proof fn lemma_first_nonempty(s: Seq<Seq<char>>, i: int)
    requires
        0 <= i < s.len(),
        s[i].len() > 0,
        forall|k: int| 0 <= k < i ==> (#[trigger] s[k]).len() == 0,
    ensures
        first_nonempty(s) == Some(s[i]),
    decreases i,
{
    if i > 0 {
        assert(s[0].len() == 0);
        assert forall|k: int| 0 <= k < i - 1 implies (#[trigger] s.drop_first()[k]).len() == 0 by {
            assert(s[k + 1].len() == 0);
        }
        lemma_first_nonempty(s.drop_first(), i - 1);
    }
}

/// A `KUBECONFIG` that is set is followed before any home directory: its first entry that
/// is not empty is the path. Its entries are separated by semicolons on Windows and by
/// colons elsewhere.
pub proof fn law_kubeconfig_variable_comes_first(
    list: &str,
    home: Option<&str>,
    profile: Option<&str>,
    windows: bool,
    r: KubeconfigPath,
    entries: Seq<Seq<char>>,
    i: int,
)
    requires
        call_ensures(default_kubeconfig_path, (Some(list), home, profile, windows), r),
        entries == (if windows {
            pieces(list@, ';')
        } else {
            pieces(list@, ':')
        }),
        0 <= i < entries.len(),
        entries[i].len() > 0,
        forall|k: int| 0 <= k < i ==> (#[trigger] entries[k]).len() == 0,
    ensures
        r matches KubeconfigPath::At(p) && p@ == entries[i],
{
    lemma_first_nonempty(entries, i);
}

} // verus!
