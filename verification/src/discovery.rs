//! Bookkeeping of the service instances this node announces for discovery.

use vstd::prelude::*;
use crate::config::{DiscoveryConfig, ServiceConfig};
use crate::text::same_text;

verus! {

/// The health of a service instance.
#[derive(Debug)]
pub enum HealthStatus {
    Healthy,
    Unhealthy(String),
    Unknown,
}

/// The value of a [`HealthStatus`].
pub enum HealthStatusView {
    Healthy,
    Unhealthy(Seq<char>),
    Unknown,
}

impl View for HealthStatus {
    type V = HealthStatusView;

    open spec fn view(&self) -> HealthStatusView {
        match self {
            HealthStatus::Healthy => HealthStatusView::Healthy,
            HealthStatus::Unhealthy(reason) => HealthStatusView::Unhealthy(reason@),
            HealthStatus::Unknown => HealthStatusView::Unknown,
        }
    }
}

impl Clone for HealthStatus {
    fn clone(&self) -> (res: Self)
        ensures
            res@ == self@,
    {
        match self {
            HealthStatus::Healthy => HealthStatus::Healthy,
            HealthStatus::Unhealthy(reason) => HealthStatus::Unhealthy(reason.clone()),
            HealthStatus::Unknown => HealthStatus::Unknown,
        }
    }
}

/// One running instance of a service, as discovery publishes it.
#[derive(Debug)]
pub struct ServiceInstance {
    pub id: String,
    pub name: String,
    pub address: String,
    pub port: u16,
    pub tags: Vec<String>,
    /// Key-value metadata, in the order it was recorded.
    pub meta: Vec<(String, String)>,
    pub status: HealthStatus,
}

/// The value of a [`ServiceInstance`].
pub struct InstanceView {
    pub id: Seq<char>,
    pub name: Seq<char>,
    pub address: Seq<char>,
    pub port: u16,
    pub tags: Seq<Seq<char>>,
    pub meta: Seq<(Seq<char>, Seq<char>)>,
    pub status: HealthStatusView,
}

/// The values of metadata pairs.
pub open spec fn meta_views(meta: Seq<(String, String)>) -> Seq<(Seq<char>, Seq<char>)> {
    meta.map_values(|p: (String, String)| (p.0@, p.1@))
}

impl View for ServiceInstance {
    type V = InstanceView;

    open spec fn view(&self) -> InstanceView {
        InstanceView {
            id: self.id@,
            name: self.name@,
            address: self.address@,
            port: self.port,
            tags: self.tags.deep_view(),
            meta: meta_views(self.meta@),
            status: self.status@,
        }
    }
}

/// A copy of a vector of strings.
fn clone_strings(v: &Vec<String>) -> (res: Vec<String>)
    ensures
        res.deep_view() == v.deep_view(),
{
    let mut out: Vec<String> = Vec::new();
    let mut i: usize = 0;
    while i < v.len()
        invariant
            i <= v@.len(),
            out@.len() == i,
            forall|j: int| 0 <= j < i ==> #[trigger] out@[j]@ == v@[j]@,
        decreases v@.len() - i,
    {
        out.push(v[i].clone());
        i = i + 1;
    }
    assert(out.deep_view() =~= v.deep_view());
    out
}

/// A copy of metadata pairs.
fn clone_meta(v: &Vec<(String, String)>) -> (res: Vec<(String, String)>)
    ensures
        meta_views(res@) == meta_views(v@),
{
    let mut out: Vec<(String, String)> = Vec::new();
    let mut i: usize = 0;
    while i < v.len()
        invariant
            i <= v@.len(),
            out@.len() == i,
            forall|j: int| 0 <= j < i ==> #[trigger] out@[j].0@ == v@[j].0@ && out@[j].1@ == v@[j].1@,
        decreases v@.len() - i,
    {
        let pair = &v[i];
        out.push((pair.0.clone(), pair.1.clone()));
        i = i + 1;
    }
    assert(meta_views(out@) =~= meta_views(v@));
    out
}

impl Clone for ServiceInstance {
    fn clone(&self) -> (res: Self)
        ensures
            res@ == self@,
    {
        ServiceInstance {
            id: self.id.clone(),
            name: self.name.clone(),
            address: self.address.clone(),
            port: self.port,
            tags: clone_strings(&self.tags),
            meta: clone_meta(&self.meta),
            status: self.status.clone(),
        }
    }
}


/// The values of a sequence of instances.
pub open spec fn instance_views(s: Seq<ServiceInstance>) -> Seq<InstanceView> {
    s.map_values(|x: ServiceInstance| x@)
}

/// No two instances share an id.
pub open spec fn distinct_ids(s: Seq<InstanceView>) -> bool {
    forall|i: int, j: int| 0 <= i < j < s.len() ==> s[i].id != s[j].id
}

/// The instances of `s`, keyed by id.
pub open spec fn registry_map(s: Seq<InstanceView>) -> Map<Seq<char>, InstanceView>
    decreases s.len(),
{
    if s.len() == 0 {
        Map::empty()
    } else {
        registry_map(s.drop_last()).insert(s.last().id, s.last())
    }
}

proof fn lemma_registry_keys(s: Seq<InstanceView>)
    ensures
        forall|k: Seq<char>|
            #[trigger] registry_map(s).dom().contains(k) <==> exists|i: int|
                0 <= i < s.len() && s[i].id == k,
    decreases s.len(),
{
    if s.len() > 0 {
        let t = s.drop_last();
        lemma_registry_keys(t);
        assert(registry_map(s) == registry_map(t).insert(s.last().id, s.last()));
        assert forall|k: Seq<char>|
            #[trigger] registry_map(s).dom().contains(k) <==> exists|i: int|
                0 <= i < s.len() && s[i].id == k by {
            if registry_map(s).dom().contains(k) {
                if k == s.last().id {
                    assert(s[s.len() - 1].id == k);
                } else {
                    assert(registry_map(t).dom().contains(k));
                    let i = choose|i: int| 0 <= i < t.len() && t[i].id == k;
                    assert(s[i].id == k);
                }
            }
            if exists|i: int| 0 <= i < s.len() && s[i].id == k {
                let i = choose|i: int| 0 <= i < s.len() && s[i].id == k;
                if i < s.len() - 1 {
                    assert(t[i].id == k);
                    assert(registry_map(t).dom().contains(k));
                }
            }
        }
    }
}

proof fn lemma_registry_values(s: Seq<InstanceView>)
    requires
        distinct_ids(s),
    ensures
        forall|i: int| 0 <= i < s.len() ==> #[trigger] registry_map(s)[s[i].id] == s[i],
    decreases s.len(),
{
    if s.len() > 0 {
        let t = s.drop_last();
        assert(distinct_ids(t)) by {
            assert forall|a: int, b: int| 0 <= a < b < t.len() implies t[a].id != t[b].id by {
                assert(t[a] == s[a] && t[b] == s[b]);
            }
        }
        lemma_registry_values(t);
        assert(registry_map(s) == registry_map(t).insert(s.last().id, s.last()));
        assert forall|i: int| 0 <= i < s.len() implies #[trigger] registry_map(s)[s[i].id]
            == s[i] by {
            if i < s.len() - 1 {
                assert(t[i] == s[i]);
                assert(s[i].id != s[s.len() - 1].id);
                assert(registry_map(t)[t[i].id] == t[i]);
            }
        }
    }
}

/// The registry of the instances this node announces.
pub struct ServiceDiscovery {
    config: DiscoveryConfig,
    service: ServiceConfig,
    instances: Vec<ServiceInstance>,
}

/// The instance that a node announces: named after the discovery namespace,
/// reachable at the service's address, tagged as discovery says, healthy.
pub open spec fn announced_instance(
    config: DiscoveryConfig,
    service: ServiceConfig,
    node_id: Seq<char>,
    version: Seq<char>,
) -> InstanceView {
    InstanceView {
        id: node_id,
        name: config.namespace@,
        address: service.host@,
        port: service.port,
        tags: config.tags.deep_view(),
        meta: seq![
            ("version"@, version),
            ("runtime"@, "rust"@),
            ("protocol"@, "grpc"@),
            ("service"@, service.name@),
        ],
        status: HealthStatusView::Healthy,
    }
}

impl ServiceDiscovery {
    #[verifier::type_invariant]
    spec fn ids_are_distinct(self) -> bool {
        distinct_ids(instance_views(self.instances@))
    }

    /// The announced instances, keyed by id.
    pub closed spec fn instances(&self) -> Map<Seq<char>, InstanceView> {
        registry_map(instance_views(self.instances@))
    }

    /// The discovery settings.
    pub closed spec fn discovery_config(&self) -> DiscoveryConfig {
        self.config
    }

    /// The settings of the service being announced.
    pub closed spec fn service_config(&self) -> ServiceConfig {
        self.service
    }

    /// A registry with nothing announced.
    pub fn new(config: DiscoveryConfig, service: ServiceConfig) -> (res: Self)
        ensures
            res.discovery_config() == config,
            res.service_config() == service,
            res.instances() == Map::<Seq<char>, InstanceView>::empty(),
    {
        let res = ServiceDiscovery { config, service, instances: Vec::new() };
        assert(instance_views(res.instances@) =~= Seq::<InstanceView>::empty());
        res
    }

    /// The position of the instance with id `node_id`, if any.
    fn position_of(&self, node_id: &str) -> (res: Option<usize>)
        ensures
            match res {
                Some(i) => i < self.instances@.len() && self.instances@[i as int]@.id == node_id@,
                None => forall|i: int|
                    0 <= i < self.instances@.len() ==> #[trigger] self.instances@[i]@.id
                        != node_id@,
            },
    {
        let mut i: usize = 0;
        while i < self.instances.len()
            invariant
                i <= self.instances@.len(),
                forall|j: int| 0 <= j < i ==> #[trigger] self.instances@[j]@.id != node_id@,
            decreases self.instances@.len() - i,
        {
            if same_text(self.instances[i].id.as_str(), node_id) {
                return Some(i);
            }
            i = i + 1;
        }
        None
    }

    /// The instance this node announces under `node_id`.
    fn make_instance(&self, node_id: &str, version: &str) -> (res: ServiceInstance)
        ensures
            res@ == announced_instance(self.config, self.service, node_id@, version@),
    {
        let mut meta: Vec<(String, String)> = Vec::new();
        meta.push((String::from_str("version"), String::from_str(version)));
        meta.push((String::from_str("runtime"), String::from_str("rust")));
        meta.push((String::from_str("protocol"), String::from_str("grpc")));
        meta.push((String::from_str("service"), self.service.name.clone()));
        let res = ServiceInstance {
            id: String::from_str(node_id),
            name: self.config.namespace.clone(),
            address: self.service.host.clone(),
            port: self.service.port,
            tags: clone_strings(&self.config.tags),
            meta,
            status: HealthStatus::Healthy,
        };
        assert(res@.meta =~= announced_instance(self.config, self.service, node_id@, version@).meta);
        res
    }

    /// Announces this node under `node_id`, replacing an earlier announcement
    /// under the same id; `version` is the running software's version.
    pub fn announce(&mut self, node_id: &str, version: &str)
        ensures
            final(self).instances() == old(self).instances().insert(
                node_id@,
                announced_instance(
                    old(self).discovery_config(),
                    old(self).service_config(),
                    node_id@,
                    version@,
                ),
            ),
            final(self).discovery_config() == old(self).discovery_config(),
            final(self).service_config() == old(self).service_config(),
    {
        proof {
            use_type_invariant(&*self);
        }
        let instance = self.make_instance(node_id, version);
        let ghost x = instance@;
        let ghost before = instance_views(self.instances@);
        let pos = self.position_of(node_id);
        proof {
            lemma_registry_keys(before);
            lemma_registry_values(before);
        }
        match pos {
            Some(i) => {
                let ghost after = before.update(i as int, x);
                assert(distinct_ids(after)) by {
                    assert forall|a: int, b: int| 0 <= a < b < after.len() implies after[a].id
                        != after[b].id by {
                        assert(after[a].id == before[a].id);
                        assert(after[b].id == before[b].id);
                    }
                }
                proof {
                    lemma_registry_keys(after);
                    lemma_registry_values(after);
                    assert forall|k: Seq<char>| #[trigger]
                        registry_map(after).dom().contains(k) <==> registry_map(
                            before,
                        ).insert(node_id@, x).dom().contains(k) by {
                        if registry_map(before).insert(node_id@, x).dom().contains(k) {
                            if k == node_id@ {
                                assert(after[i as int].id == k);
                            } else {
                                assert(registry_map(before).dom().contains(k));
                                let j = choose|j: int| 0 <= j < before.len() && before[j].id == k;
                                assert(after[j].id == k);
                            }
                        }
                        if registry_map(after).dom().contains(k) {
                            let j = choose|j: int| 0 <= j < after.len() && after[j].id == k;
                            if j != i {
                                assert(before[j].id == k);
                                assert(registry_map(before).dom().contains(k));
                            }
                        }
                    }
                    assert forall|k: Seq<char>| #[trigger]
                        registry_map(after).dom().contains(k) implies registry_map(after)[k]
                        == registry_map(before).insert(node_id@, x)[k] by {
                        let j = choose|j: int| 0 <= j < after.len() && after[j].id == k;
                        if j != i {
                            assert(after[j] == before[j]);
                            assert(registry_map(before)[before[j].id] == before[j]);
                        }
                    }
                    assert(registry_map(after) =~= registry_map(before).insert(node_id@, x));
                }
                let mut list: Vec<ServiceInstance> = Vec::new();
                std::mem::swap(&mut list, &mut self.instances);
                list.set(i, instance);
                assert(instance_views(list@) =~= after);
                self.instances = list;
            },
            None => {
                let ghost after = before.push(x);
                assert(distinct_ids(after)) by {
                    assert forall|a: int, b: int| 0 <= a < b < after.len() implies after[a].id
                        != after[b].id by {
                        assert(after[a] == before[a]);
                        if b < before.len() {
                            assert(after[b] == before[b]);
                        } else {
                            assert(before[a].id != node_id@);
                        }
                    }
                }
                assert(after.drop_last() =~= before);
                let mut list: Vec<ServiceInstance> = Vec::new();
                std::mem::swap(&mut list, &mut self.instances);
                list.push(instance);
                assert(instance_views(list@) =~= after);
                self.instances = list;
            },
        }
    }

    /// Withdraws the announcement under `node_id`, if there is one.
    pub fn withdraw(&mut self, node_id: &str)
        ensures
            final(self).instances() == old(self).instances().remove(node_id@),
            final(self).discovery_config() == old(self).discovery_config(),
            final(self).service_config() == old(self).service_config(),
    {
        proof {
            use_type_invariant(&*self);
        }
        let ghost before = instance_views(self.instances@);
        let pos = self.position_of(node_id);
        proof {
            lemma_registry_keys(before);
            lemma_registry_values(before);
        }
        match pos {
            Some(i) => {
                let ghost after = before.remove(i as int);
                assert(distinct_ids(after)) by {
                    assert forall|a: int, b: int| 0 <= a < b < after.len() implies after[a].id
                        != after[b].id by {
                        let a2 = if a < i { a } else { a + 1 };
                        let b2 = if b < i { b } else { b + 1 };
                        assert(after[a] == before[a2]);
                        assert(after[b] == before[b2]);
                    }
                }
                proof {
                    lemma_registry_keys(after);
                    lemma_registry_values(after);
                    assert forall|k: Seq<char>| #[trigger]
                        registry_map(after).dom().contains(k) <==> registry_map(
                            before,
                        ).remove(node_id@).dom().contains(k) by {
                        if registry_map(before).remove(node_id@).dom().contains(k) {
                            assert(registry_map(before).dom().contains(k));
                            let j = choose|j: int| 0 <= j < before.len() && before[j].id == k;
                            assert(j != i);
                            if j < i {
                                assert(after[j].id == k);
                            } else if j > i {
                                assert(after[j - 1].id == k);
                            }
                        }
                        if registry_map(after).dom().contains(k) {
                            let j = choose|j: int| 0 <= j < after.len() && after[j].id == k;
                            if j < i {
                                assert(before[j].id == k);
                                assert(before[i as int].id != k);
                            } else {
                                assert(before[j + 1].id == k);
                                assert(before[i as int].id != k);
                            }
                            assert(registry_map(before).dom().contains(k));
                        }
                    }
                    assert forall|k: Seq<char>| #[trigger]
                        registry_map(after).dom().contains(k) implies registry_map(after)[k]
                        == registry_map(before).remove(node_id@)[k] by {
                        let j = choose|j: int| 0 <= j < after.len() && after[j].id == k;
                        let j2 = if j < i { j } else { j + 1 };
                        assert(after[j] == before[j2]);
                        assert(registry_map(before)[before[j2].id] == before[j2]);
                    }
                    assert(registry_map(after) =~= registry_map(before).remove(node_id@));
                }
                let mut list: Vec<ServiceInstance> = Vec::new();
                std::mem::swap(&mut list, &mut self.instances);
                list.remove(i);
                assert(instance_views(list@) =~= after);
                self.instances = list;
            },
            None => {
                assert(registry_map(before) =~= registry_map(before).remove(node_id@));
            },
        }
    }

    /// Copies of the announced instances, each once, in no particular order.
    pub fn get_instances(&self) -> (res: Vec<ServiceInstance>)
        ensures
            distinct_ids(instance_views(res@)),
            forall|k: Seq<char>|
                self.instances().dom().contains(k) <==> exists|i: int|
                    0 <= i < res@.len() && #[trigger] res@[i]@.id == k,
            forall|i: int|
                0 <= i < res@.len() ==> self.instances()[#[trigger] res@[i]@.id] == res@[i]@,
    {
        proof {
            use_type_invariant(self);
        }
        let mut out: Vec<ServiceInstance> = Vec::new();
        let mut i: usize = 0;
        while i < self.instances.len()
            invariant
                i <= self.instances@.len(),
                out@.len() == i,
                forall|j: int| 0 <= j < i ==> #[trigger] out@[j]@ == self.instances@[j]@,
            decreases self.instances@.len() - i,
        {
            out.push(self.instances[i].clone());
            i = i + 1;
        }
        let ghost s = instance_views(self.instances@);
        assert(instance_views(out@) =~= s);
        proof {
            lemma_registry_keys(s);
            lemma_registry_values(s);
            assert forall|k: Seq<char>|
                self.instances().dom().contains(k) <==> exists|i: int|
                    0 <= i < out@.len() && #[trigger] out@[i]@.id == k by {
                if exists|i: int| 0 <= i < out@.len() && #[trigger] out@[i]@.id == k {
                    let i = choose|i: int| 0 <= i < out@.len() && #[trigger] out@[i]@.id == k;
                    assert(s[i].id == k);
                }
                if self.instances().dom().contains(k) {
                    let i = choose|i: int| 0 <= i < s.len() && s[i].id == k;
                    assert(out@[i]@.id == k);
                }
            }
            assert forall|i: int| 0 <= i < out@.len() implies self.instances()[#[trigger] out@[
                i
            ]@.id] == out@[i]@ by {
                assert(s[i] == out@[i]@);
            }
        }
        out
    }
}

/// Withdrawing a node that was not announced before its announcement leaves
/// the registry as it was.
pub proof fn lemma_withdraw_undoes_announce(
    before: Map<Seq<char>, InstanceView>,
    node_id: Seq<char>,
    instance: InstanceView,
)
    requires
        !before.dom().contains(node_id),
    ensures
        before.insert(node_id, instance).remove(node_id) == before,
{
    assert(before.insert(node_id, instance).remove(node_id) =~= before);
}

/// Announcing the same node twice has the effect of the last announcement.
pub proof fn lemma_announce_overwrites(
    before: Map<Seq<char>, InstanceView>,
    node_id: Seq<char>,
    first: InstanceView,
    second: InstanceView,
)
    ensures
        before.insert(node_id, first).insert(node_id, second) == before.insert(node_id, second),
{
    assert(before.insert(node_id, first).insert(node_id, second) =~= before.insert(
        node_id,
        second,
    ));
}

} // verus!
