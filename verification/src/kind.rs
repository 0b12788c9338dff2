//! The kinds of resources that are watched.
use crate::text::same;
use vstd::prelude::*;

verus! {

/// A kind of resource.
#[derive(Clone, Copy, Debug, PartialEq, Eq, Hash, Structural)]
pub enum ResourceKind {
    Pods,
    Deployments,
    /// The generation of a Deployment that runs.
    Replicasets,
    Statefulsets,
    Daemonsets,
    Jobs,
    Cronjobs,
    Services,
    Ingresses,
    /// What handles an Ingress (cluster-scoped).
    Ingressclasses,
    Configmaps,
    Secrets,
    /// The identity a pod runs as.
    Serviceaccounts,
    /// Claims of storage (namespaced).
    Persistentvolumeclaims,
    /// The volumes behind claims (cluster-scoped).
    Persistentvolumes,
    /// What claims are provisioned from (cluster-scoped).
    Storageclasses,
    /// Which pods can talk to which (namespaced).
    Networkpolicies,
    /// Scale a workload by its metrics (namespaced).
    Horizontalpodautoscalers,
    /// Caps of a namespace as a whole (namespaced).
    Resourcequotas,
    /// Caps of each pod or container (namespaced).
    Limitranges,
    Nodes,
    Namespaces,
    /// The feed of events of the whole cluster; read only.
    Events,
    /// Helm releases, decoded from their Secrets; read only.
    Helm,
    /// Permissions (namespaced).
    Roles,
    /// Permissions (cluster-scoped).
    Clusterroles,
    /// Who has a role (namespaced).
    Rolebindings,
    /// Who has a cluster role (cluster-scoped).
    Clusterrolebindings,
    /// Limits of voluntary disruptions (namespaced).
    Poddisruptionbudgets,
    /// Admission webhooks that change objects (cluster-scoped).
    Mutatingwebhookconfigurations,
    /// Admission webhooks that check objects (cluster-scoped).
    Validatingwebhookconfigurations,
    /// Aggregated API servers (cluster-scoped).
    Apiservices,
}

/// A resource of the API, as far as requests need to know it.
#[derive(Clone, Debug)]
pub struct ApiResource {
    /// Empty for the core group.
    pub group: String,
    pub version: String,
    /// Group and version in one.
    pub api_version: String,
    pub kind: String,
    pub plural: String,
}

/// Group and version in one: the version alone in the core group.
pub open spec fn joint_version(group: Seq<char>, version: Seq<char>) -> Seq<char> {
    if group.len() == 0 {
        version
    } else {
        group + "/"@ + version
    }
}

/// `kube::core::ApiResource::from_gvk_with_plural` of
/// `kube::core::GroupVersionKind::gvk`: the four texts as they are, and the group
/// and the version in one.
#[verifier::external_body]
fn kube_resource(group: &str, version: &str, kind: &str, plural: &str) -> (r: ApiResource)
    ensures
        r.group@ == group@,
        r.version@ == version@,
        r.api_version@ == joint_version(group@, version@),
        r.kind@ == kind@,
        r.plural@ == plural@,
{
    let gvk = kube::core::GroupVersionKind::gvk(group, version, kind);
    let r = kube::core::ApiResource::from_gvk_with_plural(&gvk, plural);
    ApiResource {
        group: r.group,
        version: r.version,
        api_version: r.api_version,
        kind: r.kind,
        plural: r.plural,
    }
}

impl ResourceKind {
    /// The id of a kind, in lower case.
    pub open spec fn id_text(self) -> Seq<char> {
        match self {
            ResourceKind::Pods => "pods"@,
            ResourceKind::Deployments => "deployments"@,
            ResourceKind::Replicasets => "replicasets"@,
            ResourceKind::Statefulsets => "statefulsets"@,
            ResourceKind::Daemonsets => "daemonsets"@,
            ResourceKind::Jobs => "jobs"@,
            ResourceKind::Cronjobs => "cronjobs"@,
            ResourceKind::Services => "services"@,
            ResourceKind::Ingresses => "ingresses"@,
            ResourceKind::Ingressclasses => "ingressclasses"@,
            ResourceKind::Configmaps => "configmaps"@,
            ResourceKind::Secrets => "secrets"@,
            ResourceKind::Serviceaccounts => "serviceaccounts"@,
            ResourceKind::Persistentvolumeclaims => "persistentvolumeclaims"@,
            ResourceKind::Persistentvolumes => "persistentvolumes"@,
            ResourceKind::Storageclasses => "storageclasses"@,
            ResourceKind::Networkpolicies => "networkpolicies"@,
            ResourceKind::Horizontalpodautoscalers => "horizontalpodautoscalers"@,
            ResourceKind::Resourcequotas => "resourcequotas"@,
            ResourceKind::Limitranges => "limitranges"@,
            ResourceKind::Nodes => "nodes"@,
            ResourceKind::Namespaces => "namespaces"@,
            ResourceKind::Events => "events"@,
            ResourceKind::Helm => "helm"@,
            ResourceKind::Roles => "roles"@,
            ResourceKind::Clusterroles => "clusterroles"@,
            ResourceKind::Rolebindings => "rolebindings"@,
            ResourceKind::Clusterrolebindings => "clusterrolebindings"@,
            ResourceKind::Poddisruptionbudgets => "poddisruptionbudgets"@,
            ResourceKind::Mutatingwebhookconfigurations => "mutatingwebhookconfigurations"@,
            ResourceKind::Validatingwebhookconfigurations => "validatingwebhookconfigurations"@,
            ResourceKind::Apiservices => "apiservices"@,
        }
    }

    /// The API group of a kind; empty for the core group.
    pub open spec fn group_text(self) -> Seq<char> {
        match self {
            ResourceKind::Deployments | ResourceKind::Replicasets | ResourceKind::Statefulsets | ResourceKind::Daemonsets => "apps"@,
            ResourceKind::Jobs | ResourceKind::Cronjobs => "batch"@,
            ResourceKind::Ingresses | ResourceKind::Ingressclasses | ResourceKind::Networkpolicies => "networking.k8s.io"@,
            ResourceKind::Storageclasses => "storage.k8s.io"@,
            ResourceKind::Horizontalpodautoscalers => "autoscaling"@,
            ResourceKind::Roles | ResourceKind::Clusterroles | ResourceKind::Rolebindings | ResourceKind::Clusterrolebindings => "rbac.authorization.k8s.io"@,
            ResourceKind::Poddisruptionbudgets => "policy"@,
            ResourceKind::Mutatingwebhookconfigurations | ResourceKind::Validatingwebhookconfigurations => "admissionregistration.k8s.io"@,
            ResourceKind::Apiservices => "apiregistration.k8s.io"@,
            _ => ""@,
        }
    }

    /// The API version of a kind.
    pub open spec fn version_text(self) -> Seq<char> {
        match self {
            ResourceKind::Horizontalpodautoscalers => "v2"@,
            _ => "v1"@,
        }
    }

    /// The name of a kind, as manifests have it.
    pub open spec fn name_text(self) -> Seq<char> {
        match self {
            ResourceKind::Pods => "Pod"@,
            ResourceKind::Deployments => "Deployment"@,
            ResourceKind::Replicasets => "ReplicaSet"@,
            ResourceKind::Statefulsets => "StatefulSet"@,
            ResourceKind::Daemonsets => "DaemonSet"@,
            ResourceKind::Jobs => "Job"@,
            ResourceKind::Cronjobs => "CronJob"@,
            ResourceKind::Services => "Service"@,
            ResourceKind::Ingresses => "Ingress"@,
            ResourceKind::Ingressclasses => "IngressClass"@,
            ResourceKind::Configmaps => "ConfigMap"@,
            ResourceKind::Secrets => "Secret"@,
            ResourceKind::Serviceaccounts => "ServiceAccount"@,
            ResourceKind::Persistentvolumeclaims => "PersistentVolumeClaim"@,
            ResourceKind::Persistentvolumes => "PersistentVolume"@,
            ResourceKind::Storageclasses => "StorageClass"@,
            ResourceKind::Networkpolicies => "NetworkPolicy"@,
            ResourceKind::Horizontalpodautoscalers => "HorizontalPodAutoscaler"@,
            ResourceKind::Resourcequotas => "ResourceQuota"@,
            ResourceKind::Limitranges => "LimitRange"@,
            ResourceKind::Nodes => "Node"@,
            ResourceKind::Namespaces => "Namespace"@,
            ResourceKind::Events => "Event"@,
            ResourceKind::Helm => "HelmRelease"@,
            ResourceKind::Roles => "Role"@,
            ResourceKind::Clusterroles => "ClusterRole"@,
            ResourceKind::Rolebindings => "RoleBinding"@,
            ResourceKind::Clusterrolebindings => "ClusterRoleBinding"@,
            ResourceKind::Poddisruptionbudgets => "PodDisruptionBudget"@,
            ResourceKind::Mutatingwebhookconfigurations => "MutatingWebhookConfiguration"@,
            ResourceKind::Validatingwebhookconfigurations => "ValidatingWebhookConfiguration"@,
            ResourceKind::Apiservices => "APIService"@,
        }
    }

    /// Resources of a kind belong to the cluster as a whole.
    pub open spec fn is_cluster_scoped(self) -> bool {
        self == ResourceKind::Nodes
            || self == ResourceKind::Persistentvolumes
            || self == ResourceKind::Storageclasses
            || self == ResourceKind::Ingressclasses
            || self == ResourceKind::Namespaces
            || self == ResourceKind::Events
            || self == ResourceKind::Helm
            || self == ResourceKind::Clusterroles
            || self == ResourceKind::Clusterrolebindings
            || self == ResourceKind::Mutatingwebhookconfigurations
            || self == ResourceKind::Validatingwebhookconfigurations
            || self == ResourceKind::Apiservices
    }

    /// The id of a kind, in lower case.
    pub fn id(&self) -> (r: &'static str)
        ensures
            r@ == self.id_text(),
    {
        match self {
            ResourceKind::Pods => "pods",
            ResourceKind::Deployments => "deployments",
            ResourceKind::Replicasets => "replicasets",
            ResourceKind::Statefulsets => "statefulsets",
            ResourceKind::Daemonsets => "daemonsets",
            ResourceKind::Jobs => "jobs",
            ResourceKind::Cronjobs => "cronjobs",
            ResourceKind::Services => "services",
            ResourceKind::Ingresses => "ingresses",
            ResourceKind::Ingressclasses => "ingressclasses",
            ResourceKind::Configmaps => "configmaps",
            ResourceKind::Secrets => "secrets",
            ResourceKind::Serviceaccounts => "serviceaccounts",
            ResourceKind::Persistentvolumeclaims => "persistentvolumeclaims",
            ResourceKind::Persistentvolumes => "persistentvolumes",
            ResourceKind::Storageclasses => "storageclasses",
            ResourceKind::Networkpolicies => "networkpolicies",
            ResourceKind::Horizontalpodautoscalers => "horizontalpodautoscalers",
            ResourceKind::Resourcequotas => "resourcequotas",
            ResourceKind::Limitranges => "limitranges",
            ResourceKind::Nodes => "nodes",
            ResourceKind::Namespaces => "namespaces",
            ResourceKind::Events => "events",
            ResourceKind::Helm => "helm",
            ResourceKind::Roles => "roles",
            ResourceKind::Clusterroles => "clusterroles",
            ResourceKind::Rolebindings => "rolebindings",
            ResourceKind::Clusterrolebindings => "clusterrolebindings",
            ResourceKind::Poddisruptionbudgets => "poddisruptionbudgets",
            ResourceKind::Mutatingwebhookconfigurations => "mutatingwebhookconfigurations",
            ResourceKind::Validatingwebhookconfigurations => "validatingwebhookconfigurations",
            ResourceKind::Apiservices => "apiservices",
        }
    }

    /// The API group of a kind; empty for the core group.
    pub fn group(&self) -> (r: &'static str)
        ensures
            r@ == self.group_text(),
    {
        match self {
            ResourceKind::Deployments | ResourceKind::Replicasets | ResourceKind::Statefulsets | ResourceKind::Daemonsets => "apps",
            ResourceKind::Jobs | ResourceKind::Cronjobs => "batch",
            ResourceKind::Ingresses | ResourceKind::Ingressclasses | ResourceKind::Networkpolicies => "networking.k8s.io",
            ResourceKind::Storageclasses => "storage.k8s.io",
            ResourceKind::Horizontalpodautoscalers => "autoscaling",
            ResourceKind::Roles | ResourceKind::Clusterroles | ResourceKind::Rolebindings | ResourceKind::Clusterrolebindings => "rbac.authorization.k8s.io",
            ResourceKind::Poddisruptionbudgets => "policy",
            ResourceKind::Mutatingwebhookconfigurations | ResourceKind::Validatingwebhookconfigurations => "admissionregistration.k8s.io",
            ResourceKind::Apiservices => "apiregistration.k8s.io",
            _ => "",
        }
    }

    /// The API version of a kind.
    pub fn version(&self) -> (r: &'static str)
        ensures
            r@ == self.version_text(),
    {
        match self {
            ResourceKind::Horizontalpodautoscalers => "v2",
            _ => "v1",
        }
    }

    /// The plural name of a kind, which is its id.
    pub fn plural(&self) -> (r: &'static str)
        ensures
            r@ == self.id_text(),
    {
        self.id()
    }

    /// The name of a kind, as manifests have it.
    pub fn kind_name(&self) -> (r: &'static str)
        ensures
            r@ == self.name_text(),
    {
        match self {
            ResourceKind::Pods => "Pod",
            ResourceKind::Deployments => "Deployment",
            ResourceKind::Replicasets => "ReplicaSet",
            ResourceKind::Statefulsets => "StatefulSet",
            ResourceKind::Daemonsets => "DaemonSet",
            ResourceKind::Jobs => "Job",
            ResourceKind::Cronjobs => "CronJob",
            ResourceKind::Services => "Service",
            ResourceKind::Ingresses => "Ingress",
            ResourceKind::Ingressclasses => "IngressClass",
            ResourceKind::Configmaps => "ConfigMap",
            ResourceKind::Secrets => "Secret",
            ResourceKind::Serviceaccounts => "ServiceAccount",
            ResourceKind::Persistentvolumeclaims => "PersistentVolumeClaim",
            ResourceKind::Persistentvolumes => "PersistentVolume",
            ResourceKind::Storageclasses => "StorageClass",
            ResourceKind::Networkpolicies => "NetworkPolicy",
            ResourceKind::Horizontalpodautoscalers => "HorizontalPodAutoscaler",
            ResourceKind::Resourcequotas => "ResourceQuota",
            ResourceKind::Limitranges => "LimitRange",
            ResourceKind::Nodes => "Node",
            ResourceKind::Namespaces => "Namespace",
            ResourceKind::Events => "Event",
            ResourceKind::Helm => "HelmRelease",
            ResourceKind::Roles => "Role",
            ResourceKind::Clusterroles => "ClusterRole",
            ResourceKind::Rolebindings => "RoleBinding",
            ResourceKind::Clusterrolebindings => "ClusterRoleBinding",
            ResourceKind::Poddisruptionbudgets => "PodDisruptionBudget",
            ResourceKind::Mutatingwebhookconfigurations => "MutatingWebhookConfiguration",
            ResourceKind::Validatingwebhookconfigurations => "ValidatingWebhookConfiguration",
            ResourceKind::Apiservices => "APIService",
        }
    }

    /// Whether resources of a kind belong to a namespace.
    pub fn is_namespaced(&self) -> (r: bool)
        ensures
            r == !self.is_cluster_scoped(),
    {
        match self {
            ResourceKind::Nodes => false,
            ResourceKind::Persistentvolumes => false,
            ResourceKind::Storageclasses => false,
            ResourceKind::Ingressclasses => false,
            ResourceKind::Namespaces => false,
            ResourceKind::Events => false,
            ResourceKind::Helm => false,
            ResourceKind::Clusterroles => false,
            ResourceKind::Clusterrolebindings => false,
            ResourceKind::Mutatingwebhookconfigurations => false,
            ResourceKind::Validatingwebhookconfigurations => false,
            ResourceKind::Apiservices => false,
            _ => true,
        }
    }

    /// The kind with this id. Custom kinds have none here.
    pub fn from_id(text: &str) -> (r: Option<ResourceKind>)
        ensures
            match r {
                Some(k) => k.id_text() == text@,
                None => forall|k: ResourceKind| k.id_text() != text@,
            },
    {
        if same(text, "pods") {
            Some(ResourceKind::Pods)
        } else if same(text, "deployments") {
            Some(ResourceKind::Deployments)
        } else if same(text, "replicasets") {
            Some(ResourceKind::Replicasets)
        } else if same(text, "statefulsets") {
            Some(ResourceKind::Statefulsets)
        } else if same(text, "daemonsets") {
            Some(ResourceKind::Daemonsets)
        } else if same(text, "jobs") {
            Some(ResourceKind::Jobs)
        } else if same(text, "cronjobs") {
            Some(ResourceKind::Cronjobs)
        } else if same(text, "services") {
            Some(ResourceKind::Services)
        } else if same(text, "ingresses") {
            Some(ResourceKind::Ingresses)
        } else if same(text, "ingressclasses") {
            Some(ResourceKind::Ingressclasses)
        } else if same(text, "configmaps") {
            Some(ResourceKind::Configmaps)
        } else if same(text, "secrets") {
            Some(ResourceKind::Secrets)
        } else if same(text, "serviceaccounts") {
            Some(ResourceKind::Serviceaccounts)
        } else if same(text, "persistentvolumeclaims") {
            Some(ResourceKind::Persistentvolumeclaims)
        } else if same(text, "persistentvolumes") {
            Some(ResourceKind::Persistentvolumes)
        } else if same(text, "storageclasses") {
            Some(ResourceKind::Storageclasses)
        } else if same(text, "networkpolicies") {
            Some(ResourceKind::Networkpolicies)
        } else if same(text, "horizontalpodautoscalers") {
            Some(ResourceKind::Horizontalpodautoscalers)
        } else if same(text, "resourcequotas") {
            Some(ResourceKind::Resourcequotas)
        } else if same(text, "limitranges") {
            Some(ResourceKind::Limitranges)
        } else if same(text, "nodes") {
            Some(ResourceKind::Nodes)
        } else if same(text, "namespaces") {
            Some(ResourceKind::Namespaces)
        } else if same(text, "events") {
            Some(ResourceKind::Events)
        } else if same(text, "helm") {
            Some(ResourceKind::Helm)
        } else if same(text, "roles") {
            Some(ResourceKind::Roles)
        } else if same(text, "clusterroles") {
            Some(ResourceKind::Clusterroles)
        } else if same(text, "rolebindings") {
            Some(ResourceKind::Rolebindings)
        } else if same(text, "clusterrolebindings") {
            Some(ResourceKind::Clusterrolebindings)
        } else if same(text, "poddisruptionbudgets") {
            Some(ResourceKind::Poddisruptionbudgets)
        } else if same(text, "mutatingwebhookconfigurations") {
            Some(ResourceKind::Mutatingwebhookconfigurations)
        } else if same(text, "validatingwebhookconfigurations") {
            Some(ResourceKind::Validatingwebhookconfigurations)
        } else if same(text, "apiservices") {
            Some(ResourceKind::Apiservices)
        } else {
            None
        }
    }

    /// The kind with this name. Custom kinds have none here.
    pub fn from_kind_name(text: &str) -> (r: Option<ResourceKind>)
        ensures
            match r {
                Some(k) => k.name_text() == text@,
                None => forall|k: ResourceKind| k.name_text() != text@,
            },
    {
        if same(text, "Pod") {
            Some(ResourceKind::Pods)
        } else if same(text, "Deployment") {
            Some(ResourceKind::Deployments)
        } else if same(text, "ReplicaSet") {
            Some(ResourceKind::Replicasets)
        } else if same(text, "StatefulSet") {
            Some(ResourceKind::Statefulsets)
        } else if same(text, "DaemonSet") {
            Some(ResourceKind::Daemonsets)
        } else if same(text, "Job") {
            Some(ResourceKind::Jobs)
        } else if same(text, "CronJob") {
            Some(ResourceKind::Cronjobs)
        } else if same(text, "Service") {
            Some(ResourceKind::Services)
        } else if same(text, "Ingress") {
            Some(ResourceKind::Ingresses)
        } else if same(text, "IngressClass") {
            Some(ResourceKind::Ingressclasses)
        } else if same(text, "ConfigMap") {
            Some(ResourceKind::Configmaps)
        } else if same(text, "Secret") {
            Some(ResourceKind::Secrets)
        } else if same(text, "ServiceAccount") {
            Some(ResourceKind::Serviceaccounts)
        } else if same(text, "PersistentVolumeClaim") {
            Some(ResourceKind::Persistentvolumeclaims)
        } else if same(text, "PersistentVolume") {
            Some(ResourceKind::Persistentvolumes)
        } else if same(text, "StorageClass") {
            Some(ResourceKind::Storageclasses)
        } else if same(text, "NetworkPolicy") {
            Some(ResourceKind::Networkpolicies)
        } else if same(text, "HorizontalPodAutoscaler") {
            Some(ResourceKind::Horizontalpodautoscalers)
        } else if same(text, "ResourceQuota") {
            Some(ResourceKind::Resourcequotas)
        } else if same(text, "LimitRange") {
            Some(ResourceKind::Limitranges)
        } else if same(text, "Node") {
            Some(ResourceKind::Nodes)
        } else if same(text, "Namespace") {
            Some(ResourceKind::Namespaces)
        } else if same(text, "Event") {
            Some(ResourceKind::Events)
        } else if same(text, "HelmRelease") {
            Some(ResourceKind::Helm)
        } else if same(text, "Role") {
            Some(ResourceKind::Roles)
        } else if same(text, "ClusterRole") {
            Some(ResourceKind::Clusterroles)
        } else if same(text, "RoleBinding") {
            Some(ResourceKind::Rolebindings)
        } else if same(text, "ClusterRoleBinding") {
            Some(ResourceKind::Clusterrolebindings)
        } else if same(text, "PodDisruptionBudget") {
            Some(ResourceKind::Poddisruptionbudgets)
        } else if same(text, "MutatingWebhookConfiguration") {
            Some(ResourceKind::Mutatingwebhookconfigurations)
        } else if same(text, "ValidatingWebhookConfiguration") {
            Some(ResourceKind::Validatingwebhookconfigurations)
        } else if same(text, "APIService") {
            Some(ResourceKind::Apiservices)
        } else {
            None
        }
    }

    /// The resource of the API that a kind is.
    pub fn api_resource(&self) -> (r: ApiResource)
        ensures
            r.group@ == self.group_text(),
            r.version@ == self.version_text(),
            r.api_version@ == joint_version(self.group_text(), self.version_text()),
            r.kind@ == self.name_text(),
            r.plural@ == self.id_text(),
    {
        kube_resource(self.group(), self.version(), self.kind_name(), self.plural())
    }
}

// ---------------------------------------------------------------------------
// Laws
// ---------------------------------------------------------------------------

/// The length and the first letter of the id of a kind.
spec fn id_shape(k: ResourceKind) -> (int, char) {
    match k {
        ResourceKind::Pods => (4, 'p'),
        ResourceKind::Deployments => (11, 'd'),
        ResourceKind::Replicasets => (11, 'r'),
        ResourceKind::Statefulsets => (12, 's'),
        ResourceKind::Daemonsets => (10, 'd'),
        ResourceKind::Jobs => (4, 'j'),
        ResourceKind::Cronjobs => (8, 'c'),
        ResourceKind::Services => (8, 's'),
        ResourceKind::Ingresses => (9, 'i'),
        ResourceKind::Ingressclasses => (14, 'i'),
        ResourceKind::Configmaps => (10, 'c'),
        ResourceKind::Secrets => (7, 's'),
        ResourceKind::Serviceaccounts => (15, 's'),
        ResourceKind::Persistentvolumeclaims => (22, 'p'),
        ResourceKind::Persistentvolumes => (17, 'p'),
        ResourceKind::Storageclasses => (14, 's'),
        ResourceKind::Networkpolicies => (15, 'n'),
        ResourceKind::Horizontalpodautoscalers => (24, 'h'),
        ResourceKind::Resourcequotas => (14, 'r'),
        ResourceKind::Limitranges => (11, 'l'),
        ResourceKind::Nodes => (5, 'n'),
        ResourceKind::Namespaces => (10, 'n'),
        ResourceKind::Events => (6, 'e'),
        ResourceKind::Helm => (4, 'h'),
        ResourceKind::Roles => (5, 'r'),
        ResourceKind::Clusterroles => (12, 'c'),
        ResourceKind::Rolebindings => (12, 'r'),
        ResourceKind::Clusterrolebindings => (19, 'c'),
        ResourceKind::Poddisruptionbudgets => (20, 'p'),
        ResourceKind::Mutatingwebhookconfigurations => (29, 'm'),
        ResourceKind::Validatingwebhookconfigurations => (31, 'v'),
        ResourceKind::Apiservices => (11, 'a'),
    }
}

proof fn lemma_id_shape(k: ResourceKind)
    ensures
        k.id_text().len() == id_shape(k).0,
        k.id_text()[0] == id_shape(k).1,
{
    match k {
        ResourceKind::Pods => {
            reveal_strlit("pods");
        },
        ResourceKind::Deployments => {
            reveal_strlit("deployments");
        },
        ResourceKind::Replicasets => {
            reveal_strlit("replicasets");
        },
        ResourceKind::Statefulsets => {
            reveal_strlit("statefulsets");
        },
        ResourceKind::Daemonsets => {
            reveal_strlit("daemonsets");
        },
        ResourceKind::Jobs => {
            reveal_strlit("jobs");
        },
        ResourceKind::Cronjobs => {
            reveal_strlit("cronjobs");
        },
        ResourceKind::Services => {
            reveal_strlit("services");
        },
        ResourceKind::Ingresses => {
            reveal_strlit("ingresses");
        },
        ResourceKind::Ingressclasses => {
            reveal_strlit("ingressclasses");
        },
        ResourceKind::Configmaps => {
            reveal_strlit("configmaps");
        },
        ResourceKind::Secrets => {
            reveal_strlit("secrets");
        },
        ResourceKind::Serviceaccounts => {
            reveal_strlit("serviceaccounts");
        },
        ResourceKind::Persistentvolumeclaims => {
            reveal_strlit("persistentvolumeclaims");
        },
        ResourceKind::Persistentvolumes => {
            reveal_strlit("persistentvolumes");
        },
        ResourceKind::Storageclasses => {
            reveal_strlit("storageclasses");
        },
        ResourceKind::Networkpolicies => {
            reveal_strlit("networkpolicies");
        },
        ResourceKind::Horizontalpodautoscalers => {
            reveal_strlit("horizontalpodautoscalers");
        },
        ResourceKind::Resourcequotas => {
            reveal_strlit("resourcequotas");
        },
        ResourceKind::Limitranges => {
            reveal_strlit("limitranges");
        },
        ResourceKind::Nodes => {
            reveal_strlit("nodes");
        },
        ResourceKind::Namespaces => {
            reveal_strlit("namespaces");
        },
        ResourceKind::Events => {
            reveal_strlit("events");
        },
        ResourceKind::Helm => {
            reveal_strlit("helm");
        },
        ResourceKind::Roles => {
            reveal_strlit("roles");
        },
        ResourceKind::Clusterroles => {
            reveal_strlit("clusterroles");
        },
        ResourceKind::Rolebindings => {
            reveal_strlit("rolebindings");
        },
        ResourceKind::Clusterrolebindings => {
            reveal_strlit("clusterrolebindings");
        },
        ResourceKind::Poddisruptionbudgets => {
            reveal_strlit("poddisruptionbudgets");
        },
        ResourceKind::Mutatingwebhookconfigurations => {
            reveal_strlit("mutatingwebhookconfigurations");
        },
        ResourceKind::Validatingwebhookconfigurations => {
            reveal_strlit("validatingwebhookconfigurations");
        },
        ResourceKind::Apiservices => {
            reveal_strlit("apiservices");
        },
    }
}

/// The length and the first letter of the name of a kind.
spec fn name_shape(k: ResourceKind) -> (int, char) {
    match k {
        ResourceKind::Pods => (3, 'P'),
        ResourceKind::Deployments => (10, 'D'),
        ResourceKind::Replicasets => (10, 'R'),
        ResourceKind::Statefulsets => (11, 'S'),
        ResourceKind::Daemonsets => (9, 'D'),
        ResourceKind::Jobs => (3, 'J'),
        ResourceKind::Cronjobs => (7, 'C'),
        ResourceKind::Services => (7, 'S'),
        ResourceKind::Ingresses => (7, 'I'),
        ResourceKind::Ingressclasses => (12, 'I'),
        ResourceKind::Configmaps => (9, 'C'),
        ResourceKind::Secrets => (6, 'S'),
        ResourceKind::Serviceaccounts => (14, 'S'),
        ResourceKind::Persistentvolumeclaims => (21, 'P'),
        ResourceKind::Persistentvolumes => (16, 'P'),
        ResourceKind::Storageclasses => (12, 'S'),
        ResourceKind::Networkpolicies => (13, 'N'),
        ResourceKind::Horizontalpodautoscalers => (23, 'H'),
        ResourceKind::Resourcequotas => (13, 'R'),
        ResourceKind::Limitranges => (10, 'L'),
        ResourceKind::Nodes => (4, 'N'),
        ResourceKind::Namespaces => (9, 'N'),
        ResourceKind::Events => (5, 'E'),
        ResourceKind::Helm => (11, 'H'),
        ResourceKind::Roles => (4, 'R'),
        ResourceKind::Clusterroles => (11, 'C'),
        ResourceKind::Rolebindings => (11, 'R'),
        ResourceKind::Clusterrolebindings => (18, 'C'),
        ResourceKind::Poddisruptionbudgets => (19, 'P'),
        ResourceKind::Mutatingwebhookconfigurations => (28, 'M'),
        ResourceKind::Validatingwebhookconfigurations => (30, 'V'),
        ResourceKind::Apiservices => (10, 'A'),
    }
}

proof fn lemma_name_shape(k: ResourceKind)
    ensures
        k.name_text().len() == name_shape(k).0,
        k.name_text()[0] == name_shape(k).1,
{
    match k {
        ResourceKind::Pods => {
            reveal_strlit("Pod");
        },
        ResourceKind::Deployments => {
            reveal_strlit("Deployment");
        },
        ResourceKind::Replicasets => {
            reveal_strlit("ReplicaSet");
        },
        ResourceKind::Statefulsets => {
            reveal_strlit("StatefulSet");
        },
        ResourceKind::Daemonsets => {
            reveal_strlit("DaemonSet");
        },
        ResourceKind::Jobs => {
            reveal_strlit("Job");
        },
        ResourceKind::Cronjobs => {
            reveal_strlit("CronJob");
        },
        ResourceKind::Services => {
            reveal_strlit("Service");
        },
        ResourceKind::Ingresses => {
            reveal_strlit("Ingress");
        },
        ResourceKind::Ingressclasses => {
            reveal_strlit("IngressClass");
        },
        ResourceKind::Configmaps => {
            reveal_strlit("ConfigMap");
        },
        ResourceKind::Secrets => {
            reveal_strlit("Secret");
        },
        ResourceKind::Serviceaccounts => {
            reveal_strlit("ServiceAccount");
        },
        ResourceKind::Persistentvolumeclaims => {
            reveal_strlit("PersistentVolumeClaim");
        },
        ResourceKind::Persistentvolumes => {
            reveal_strlit("PersistentVolume");
        },
        ResourceKind::Storageclasses => {
            reveal_strlit("StorageClass");
        },
        ResourceKind::Networkpolicies => {
            reveal_strlit("NetworkPolicy");
        },
        ResourceKind::Horizontalpodautoscalers => {
            reveal_strlit("HorizontalPodAutoscaler");
        },
        ResourceKind::Resourcequotas => {
            reveal_strlit("ResourceQuota");
        },
        ResourceKind::Limitranges => {
            reveal_strlit("LimitRange");
        },
        ResourceKind::Nodes => {
            reveal_strlit("Node");
        },
        ResourceKind::Namespaces => {
            reveal_strlit("Namespace");
        },
        ResourceKind::Events => {
            reveal_strlit("Event");
        },
        ResourceKind::Helm => {
            reveal_strlit("HelmRelease");
        },
        ResourceKind::Roles => {
            reveal_strlit("Role");
        },
        ResourceKind::Clusterroles => {
            reveal_strlit("ClusterRole");
        },
        ResourceKind::Rolebindings => {
            reveal_strlit("RoleBinding");
        },
        ResourceKind::Clusterrolebindings => {
            reveal_strlit("ClusterRoleBinding");
        },
        ResourceKind::Poddisruptionbudgets => {
            reveal_strlit("PodDisruptionBudget");
        },
        ResourceKind::Mutatingwebhookconfigurations => {
            reveal_strlit("MutatingWebhookConfiguration");
        },
        ResourceKind::Validatingwebhookconfigurations => {
            reveal_strlit("ValidatingWebhookConfiguration");
        },
        ResourceKind::Apiservices => {
            reveal_strlit("APIService");
        },
    }
}

/// Ids tell kinds apart: a kind is found again by its id, and by no other.
pub proof fn law_ids_tell_kinds_apart(a: ResourceKind, b: ResourceKind)
    requires
        a.id_text() == b.id_text(),
    ensures
        a == b,
{
    lemma_id_shape(a);
    lemma_id_shape(b);
}

/// Names tell kinds apart: a kind is found again by its name, and by no other.
pub proof fn law_names_tell_kinds_apart(a: ResourceKind, b: ResourceKind)
    requires
        a.name_text() == b.name_text(),
    ensures
        a == b,
{
    lemma_name_shape(a);
    lemma_name_shape(b);
}

/// A resource of the API is addressed by the group and the version of its kind together,
/// and its plural is the id of the kind.
pub proof fn law_resource_is_addressed_by_group_and_version(
    k: ResourceKind,
    r: ApiResource,
    group: &'static str,
    version: &'static str,
    id: &'static str,
    plural: &'static str,
    name: &'static str,
)
    requires
        call_ensures(ResourceKind::api_resource, (&k,), r),
        call_ensures(ResourceKind::group, (&k,), group),
        call_ensures(ResourceKind::version, (&k,), version),
        call_ensures(ResourceKind::id, (&k,), id),
        call_ensures(ResourceKind::plural, (&k,), plural),
        call_ensures(ResourceKind::kind_name, (&k,), name),
    ensures
        r.group@ == group@,
        r.version@ == version@,
        group@.len() > 0 ==> r.api_version@ == group@ + "/"@ + version@,
        group@.len() == 0 ==> r.api_version@ == version@,
        r.kind@ == name@,
        r.plural@ == id@,
        plural@ == id@,
{
}

/// A kind is found again by its id and by its name, and a text that is neither finds none.
pub proof fn law_kinds_are_found_again(
    k: ResourceKind,
    id: &'static str,
    name: &'static str,
    by_id: Option<ResourceKind>,
    by_name: Option<ResourceKind>,
)
    requires
        call_ensures(ResourceKind::id, (&k,), id),
        call_ensures(ResourceKind::kind_name, (&k,), name),
        call_ensures(ResourceKind::from_id, (id,), by_id),
        call_ensures(ResourceKind::from_kind_name, (name,), by_name),
    ensures
        by_id == Some(k),
        by_name == Some(k),
{
    if let Some(x) = by_id {
        law_ids_tell_kinds_apart(x, k);
    }
    if let Some(x) = by_name {
        law_names_tell_kinds_apart(x, k);
    }
}

/// Which kinds belong to a namespace: workloads, what they are reached by, configured with
/// and limited by, and the permissions of one namespace. Nodes, volumes, classes, the
/// permissions, webhooks and API servers of the whole cluster do not, nor do the two feeds
/// that are read for all namespaces at once.
pub proof fn law_which_kinds_are_namespaced(k: ResourceKind, r: bool)
    requires
        call_ensures(ResourceKind::is_namespaced, (&k,), r),
    ensures
        match k {
            ResourceKind::Pods => r,
            ResourceKind::Deployments => r,
            ResourceKind::Replicasets => r,
            ResourceKind::Statefulsets => r,
            ResourceKind::Daemonsets => r,
            ResourceKind::Jobs => r,
            ResourceKind::Cronjobs => r,
            ResourceKind::Services => r,
            ResourceKind::Ingresses => r,
            ResourceKind::Configmaps => r,
            ResourceKind::Secrets => r,
            ResourceKind::Serviceaccounts => r,
            ResourceKind::Persistentvolumeclaims => r,
            ResourceKind::Networkpolicies => r,
            ResourceKind::Horizontalpodautoscalers => r,
            ResourceKind::Resourcequotas => r,
            ResourceKind::Limitranges => r,
            ResourceKind::Roles => r,
            ResourceKind::Rolebindings => r,
            ResourceKind::Poddisruptionbudgets => r,
            ResourceKind::Nodes => !r,
            ResourceKind::Namespaces => !r,
            ResourceKind::Persistentvolumes => !r,
            ResourceKind::Storageclasses => !r,
            ResourceKind::Ingressclasses => !r,
            ResourceKind::Events => !r,
            ResourceKind::Helm => !r,
            ResourceKind::Clusterroles => !r,
            ResourceKind::Clusterrolebindings => !r,
            ResourceKind::Mutatingwebhookconfigurations => !r,
            ResourceKind::Validatingwebhookconfigurations => !r,
            ResourceKind::Apiservices => !r,
        },
{
}

/// Kinds of one family share their API group, and the kinds of the core have none. All are
/// at their first version but the autoscalers, which are at their second.
pub proof fn law_families_share_their_group(k: ResourceKind, r: ApiResource)
    requires
        call_ensures(ResourceKind::api_resource, (&k,), r),
    ensures
        r.group@ == "apps"@ <==> (k is Deployments || k is Replicasets || k is Statefulsets
            || k is Daemonsets),
        r.group@ == "batch"@ <==> (k is Jobs || k is Cronjobs),
        r.group@ == "networking.k8s.io"@ <==> (k is Ingresses || k is Ingressclasses
            || k is Networkpolicies),
        r.group@ == "storage.k8s.io"@ <==> k is Storageclasses,
        r.group@ == "autoscaling"@ <==> k is Horizontalpodautoscalers,
        r.group@ == "rbac.authorization.k8s.io"@ <==> (k is Roles || k is Clusterroles
            || k is Rolebindings || k is Clusterrolebindings),
        r.group@ == "policy"@ <==> k is Poddisruptionbudgets,
        r.group@ == "admissionregistration.k8s.io"@ <==> (k is Mutatingwebhookconfigurations
            || k is Validatingwebhookconfigurations),
        r.group@ == "apiregistration.k8s.io"@ <==> k is Apiservices,
        r.group@.len() == 0 <==> (k is Pods || k is Services || k is Configmaps || k is Secrets
            || k is Serviceaccounts || k is Persistentvolumeclaims || k is Persistentvolumes
            || k is Resourcequotas || k is Limitranges || k is Nodes || k is Namespaces
            || k is Events || k is Helm),
        r.version@ == (if k is Horizontalpodautoscalers {
            "v2"@
        } else {
            "v1"@
        }),
{
    reveal_strlit("apps");
    reveal_strlit("batch");
    reveal_strlit("networking.k8s.io");
    reveal_strlit("storage.k8s.io");
    reveal_strlit("autoscaling");
    reveal_strlit("rbac.authorization.k8s.io");
    reveal_strlit("policy");
    reveal_strlit("admissionregistration.k8s.io");
    reveal_strlit("apiregistration.k8s.io");
    reveal_strlit("");
    assert("apps"@.len() == 4);
    assert("batch"@.len() == 5);
    assert("networking.k8s.io"@.len() == 17);
    assert("storage.k8s.io"@.len() == 14);
    assert("autoscaling"@.len() == 11);
    assert("rbac.authorization.k8s.io"@.len() == 25);
    assert("policy"@.len() == 6);
    assert("admissionregistration.k8s.io"@.len() == 28);
    assert("apiregistration.k8s.io"@.len() == 22);
    assert(""@.len() == 0);
}

} // verus!
