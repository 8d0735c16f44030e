//! The handles of the running sandboxes, by pod and by container.

use crate::keyed::{lemma_bound_map_len, KeyedMap};
use crate::manifest::{ContainerKey, ContainerKeyView, PodKey, PodKeyView};
use vstd::prelude::*;

verus! {

/// The handles of all running sandboxes: for each pod that has one, the
/// handles of its containers. The entry of a pod is made when the first of its
/// containers registers.
#[derive(Debug)]
pub struct HandleRegistry<H> {
    pods: KeyedMap<PodKey, KeyedMap<ContainerKey, H>>,
}

impl<H> View for HandleRegistry<H> {
    type V = Map<PodKeyView, Map<ContainerKeyView, H>>;

    closed spec fn view(&self) -> Map<PodKeyView, Map<ContainerKeyView, H>> {
        Map::new(|pod: PodKeyView| self.pods@.contains_key(pod), |pod: PodKeyView| self.pods@[pod]@)
    }
}

/// The handles that `registry` holds for `pod`: none where it has no entry for the pod.
pub open spec fn handles_of<H>(
    registry: Map<PodKeyView, Map<ContainerKeyView, H>>,
    pod: PodKeyView,
) -> Map<ContainerKeyView, H> {
    if registry.contains_key(pod) {
        registry[pod]
    } else {
        Map::empty()
    }
}

/// The registry after `handle` was registered for `container` of `pod`.
pub open spec fn registered<H>(
    registry: Map<PodKeyView, Map<ContainerKeyView, H>>,
    pod: PodKeyView,
    container: ContainerKeyView,
    handle: H,
) -> Map<PodKeyView, Map<ContainerKeyView, H>> {
    registry.insert(pod, handles_of(registry, pod).insert(container, handle))
}

/// The registry after the containers of `pod` registered one after another, in
/// the order of `registrations`.
pub open spec fn registered_all<H>(
    registry: Map<PodKeyView, Map<ContainerKeyView, H>>,
    pod: PodKeyView,
    registrations: Seq<(ContainerKeyView, H)>,
) -> Map<PodKeyView, Map<ContainerKeyView, H>>
    decreases registrations.len(),
{
    if registrations.len() == 0 {
        registry
    } else {
        registered(
            registered_all(registry, pod, registrations.drop_last()),
            pod,
            registrations.last().0,
            registrations.last().1,
        )
    }
}

/// No container registers twice.
pub open spec fn distinct_containers<H>(registrations: Seq<(ContainerKeyView, H)>) -> bool {
    forall|i: int, j: int|
        0 <= i < j < registrations.len() ==> (#[trigger] registrations[i]).0 != (
        #[trigger] registrations[j]).0
}

/// Some registration is for `container`.
pub open spec fn registers<H>(
    registrations: Seq<(ContainerKeyView, H)>,
    container: ContainerKeyView,
) -> bool {
    exists|i: int| 0 <= i < registrations.len() && (#[trigger] registrations[i]).0 == container
}

impl<H> HandleRegistry<H> {
    /// A registry without any pod.
    pub fn new() -> (registry: Self)
        ensures
            registry@ == Map::<PodKeyView, Map<ContainerKeyView, H>>::empty(),
    {
        let registry = HandleRegistry { pods: KeyedMap::new() };
        assert(registry@ =~= Map::<PodKeyView, Map<ContainerKeyView, H>>::empty());
        registry
    }

    /// Registers `handle` for `container` of `pod`. The entry of the pod is made
    /// if this is the first of its containers to register; the handles of its
    /// other containers, and all other pods, stay as they are.
    pub fn register(&mut self, pod: PodKey, container: ContainerKey, handle: H)
        ensures
            final(self)@ == registered(old(self)@, pod@, container@, handle),
    {
        let mut handles = match self.pods.remove(&pod) {
            Some(handles) => handles,
            None => KeyedMap::new(),
        };
        handles.insert(container, handle);
        self.pods.insert(pod, handles);
        assert(self@ =~= registered(old(self)@, pod@, container@, handle));
    }

    /// The number of pods that have an entry.
    pub fn pod_count(&self) -> (n: usize)
        ensures
            self@.dom().finite(),
            n == self@.len(),
    {
        let n = self.pods.len();
        assert(self@.dom() =~= self.pods@.dom());
        n
    }

    /// The number of handles registered for `pod`.
    pub fn handle_count(&self, pod: &PodKey) -> (n: usize)
        ensures
            handles_of(self@, pod@).dom().finite(),
            n == handles_of(self@, pod@).len(),
    {
        match self.pods.get(pod) {
            Some(handles) => handles.len(),
            None => 0,
        }
    }

    /// The handle registered for `container` of `pod`, if there is one.
    pub fn get(&self, pod: &PodKey, container: &ContainerKey) -> (r: Option<&H>)
        ensures
            r == (if handles_of(self@, pod@).contains_key(container@) {
                Some(&handles_of(self@, pod@)[container@])
            } else {
                None
            }),
    {
        match self.pods.get(pod) {
            Some(handles) => handles.get(container),
            None => None,
        }
    }
}

/// What a run of registrations for one pod leaves behind, whatever their
/// order: the pod has an entry, the entry holds the handle of each container
/// that registered and whatever it held before for other containers, and the
/// entries of all other pods are untouched.
pub proof fn lemma_registered_all<H>(
    registry: Map<PodKeyView, Map<ContainerKeyView, H>>,
    pod: PodKeyView,
    registrations: Seq<(ContainerKeyView, H)>,
)
    requires
        distinct_containers(registrations),
    ensures
        registrations.len() > 0 ==> registered_all(registry, pod, registrations).dom()
            == registry.dom().insert(pod),
        registrations.len() == 0 ==> registered_all(registry, pod, registrations) == registry,
        forall|other: PodKeyView|
            other != pod && registry.contains_key(other) ==> #[trigger] registered_all(
                registry,
                pod,
                registrations,
            )[other] == registry[other],
        forall|i: int|
            #![trigger registrations[i]]
            0 <= i < registrations.len() ==> {
                &&& handles_of(registered_all(registry, pod, registrations), pod).contains_key(
                    registrations[i].0,
                )
                &&& handles_of(registered_all(registry, pod, registrations), pod)[registrations[i].0]
                    == registrations[i].1
            },
        forall|container: ContainerKeyView|
            !registers(registrations, container) ==> {
                &&& #[trigger] handles_of(
                    registered_all(registry, pod, registrations),
                    pod,
                ).contains_key(container) == handles_of(registry, pod).contains_key(container)
                &&& handles_of(registry, pod).contains_key(container) ==> handles_of(
                    registered_all(registry, pod, registrations),
                    pod,
                )[container] == handles_of(registry, pod)[container]
            },
    decreases registrations.len(),
{
    if registrations.len() > 0 {
        let before = registrations.drop_last();
        let last = registrations.last();
        let n = registrations.len() as int;
        assert forall|i: int, j: int| 0 <= i < j < before.len() implies (#[trigger] before[i]).0 != (
        #[trigger] before[j]).0 by {
            assert(before[i] == registrations[i] && before[j] == registrations[j]);
        }
        lemma_registered_all(registry, pod, before);
        let mid = registered_all(registry, pod, before);
        let after = registered_all(registry, pod, registrations);
        assert(after == registered(mid, pod, last.0, last.1));
        assert(after.dom() =~= registry.dom().insert(pod));
        assert forall|i: int|
            #![trigger registrations[i]]
            0 <= i < n implies {
            &&& handles_of(after, pod).contains_key(registrations[i].0)
            &&& handles_of(after, pod)[registrations[i].0] == registrations[i].1
        } by {
            if i < n - 1 {
                assert(before[i] == registrations[i]);
                assert(registrations[i].0 != registrations[n - 1].0);
            }
        }
        assert forall|container: ContainerKeyView| !registers(registrations, container) implies {
            &&& #[trigger] handles_of(after, pod).contains_key(container) == handles_of(
                registry,
                pod,
            ).contains_key(container)
            &&& handles_of(registry, pod).contains_key(container) ==> handles_of(
                after,
                pod,
            )[container] == handles_of(registry, pod)[container]
        } by {
            assert(registrations[n - 1].0 != container);
            if registers(before, container) {
                let i = choose|i: int| 0 <= i < before.len() && (#[trigger] before[i]).0 == container;
                assert(before[i] == registrations[i]);
                assert(registrations[i].0 == container);
            }
        }
    }
}

/// The containers of one pod may register in any order: two runs of the same
/// registrations leave the same registry behind.
pub proof fn lemma_registration_order<H>(
    registry: Map<PodKeyView, Map<ContainerKeyView, H>>,
    pod: PodKeyView,
    first: Seq<(ContainerKeyView, H)>,
    second: Seq<(ContainerKeyView, H)>,
)
    requires
        distinct_containers(first),
        distinct_containers(second),
        forall|i: int| 0 <= i < first.len() ==> second.contains(#[trigger] first[i]),
        forall|i: int| 0 <= i < second.len() ==> first.contains(#[trigger] second[i]),
    ensures
        registered_all(registry, pod, first) == registered_all(registry, pod, second),
{
    lemma_registered_all(registry, pod, first);
    lemma_registered_all(registry, pod, second);
    let a = registered_all(registry, pod, first);
    let b = registered_all(registry, pod, second);
    if first.len() == 0 {
        if second.len() > 0 {
            assert(first.contains(second[0]));
        }
    } else {
        assert(second.contains(first[0]));
        assert(a.dom() =~= b.dom());
        assert(a.contains_key(pod) && b.contains_key(pod));
        let ha = handles_of(a, pod);
        let hb = handles_of(b, pod);
        assert forall|container: ContainerKeyView|
            #[trigger] ha.contains_key(container) == hb.contains_key(container) && (
            ha.contains_key(container) ==> ha[container] == hb[container]) by {
            assert(!registers(first, container) ==> ha.contains_key(container) == handles_of(
                registry,
                pod,
            ).contains_key(container));
            assert(!registers(second, container) ==> hb.contains_key(container) == handles_of(
                registry,
                pod,
            ).contains_key(container));
            if registers(first, container) {
                let i = choose|i: int| 0 <= i < first.len() && (#[trigger] first[i]).0 == container;
                assert(second.contains(first[i]));
                let j = choose|j: int| 0 <= j < second.len() && second[j] == first[i];
                assert(second[j].0 == container);
            } else {
                if registers(second, container) {
                    let j = choose|j: int|
                        0 <= j < second.len() && (#[trigger] second[j]).0 == container;
                    assert(first.contains(second[j]));
                    let i = choose|i: int| 0 <= i < first.len() && first[i] == second[j];
                    assert(first[i].0 == container);
                }
            }
        }
        assert(ha =~= hb);
        assert forall|other: PodKeyView| a.contains_key(other) implies #[trigger] a[other]
            == b[other] by {
            if other != pod {
                assert(registry.contains_key(other));
                assert(a[other] == registry[other]);
                assert(b[other] == registry[other]);
            } else {
                assert(a[pod] == ha && b[pod] == hb);
            }
        }
        assert(a =~= b);
    }
}

/// Where the containers of a pod that has no entry yet register, each once and
/// in any order, exactly one entry is made, and it holds exactly one handle
/// for each of them: none is lost.
pub proof fn lemma_siblings_share_one_entry<H>(
    registry: Map<PodKeyView, Map<ContainerKeyView, H>>,
    pod: PodKeyView,
    registrations: Seq<(ContainerKeyView, H)>,
)
    requires
        registry.dom().finite(),
        !registry.contains_key(pod),
        distinct_containers(registrations),
        registrations.len() > 0,
    ensures
        registered_all(registry, pod, registrations).dom() == registry.dom().insert(pod),
        registered_all(registry, pod, registrations).len() == registry.len() + 1,
        registered_all(registry, pod, registrations)[pod].dom().finite(),
        registered_all(registry, pod, registrations)[pod].len() == registrations.len(),
        forall|i: int|
            #![trigger registrations[i]]
            0 <= i < registrations.len() ==> {
                &&& registered_all(registry, pod, registrations)[pod].contains_key(
                    registrations[i].0,
                )
                &&& registered_all(registry, pod, registrations)[pod][registrations[i].0]
                    == registrations[i].1
            },
    decreases registrations.len(),
{
    lemma_registered_all(registry, pod, registrations);
    let after = registered_all(registry, pod, registrations);
    assert(after.contains_key(pod));
    assert(handles_of(after, pod) == after[pod]);
    let before = registrations.drop_last();
    let last = registrations.last();
    let n = registrations.len() as int;
    assert forall|i: int, j: int| 0 <= i < j < before.len() implies (#[trigger] before[i]).0 != (
    #[trigger] before[j]).0 by {
        assert(before[i] == registrations[i] && before[j] == registrations[j]);
    }
    let mid = registered_all(registry, pod, before);
    lemma_registered_all(registry, pod, before);
    if before.len() == 0 {
        assert(mid == registry);
        assert(after[pod] =~= Map::<ContainerKeyView, H>::empty().insert(last.0, last.1));
    } else {
        lemma_siblings_share_one_entry(registry, pod, before);
        assert(handles_of(mid, pod) == mid[pod]);
        if registers(before, last.0) {
            let i = choose|i: int| 0 <= i < before.len() && (#[trigger] before[i]).0 == last.0;
            assert(before[i] == registrations[i]);
            assert(registrations[i].0 != registrations[n - 1].0);
        }
        assert(!handles_of(registry, pod).contains_key(last.0));
        assert(!mid[pod].contains_key(last.0));
        assert(after[pod] == mid[pod].insert(last.0, last.1));
    }
}

} // verus!
