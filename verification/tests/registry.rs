use wasi_provider::manifest::{ContainerKey, Pod, PodKey};
use wasi_provider::keyed::KeyedMap;
use wasi_provider::registry::HandleRegistry;

fn pod_key(name: &str) -> PodKey {
    PodKey { namespace: "default".to_string(), name: name.to_string() }
}

fn app(i: usize) -> ContainerKey {
    ContainerKey::App(format!("container-{}", i))
}

#[test]
fn an_empty_registry_holds_nothing() {
    let registry: HandleRegistry<u64> = HandleRegistry::new();
    assert_eq!(registry.pod_count(), 0);
    assert_eq!(registry.handle_count(&pod_key("a")), 0);
    assert_eq!(registry.get(&pod_key("a"), &app(0)), None);
}

#[test]
fn fifty_siblings_share_one_entry() {
    let mut registry: HandleRegistry<usize> = HandleRegistry::new();
    // 50 containers of one pod, in an order that is not the declared one.
    let mut order: Vec<usize> = Vec::new();
    for i in 0..50 {
        order.push((i * 37 + 11) % 50);
    }
    for &i in &order {
        registry.register(pod_key("mypod"), app(i), 1000 + i);
    }
    assert_eq!(registry.pod_count(), 1);
    assert_eq!(registry.handle_count(&pod_key("mypod")), 50);
    for i in 0..50 {
        assert_eq!(registry.get(&pod_key("mypod"), &app(i)), Some(&(1000 + i)));
    }
    assert_eq!(registry.get(&pod_key("mypod"), &app(50)), None);
}

#[test]
fn any_order_gives_the_same_registry() {
    let mut forth: HandleRegistry<usize> = HandleRegistry::new();
    let mut back: HandleRegistry<usize> = HandleRegistry::new();
    for i in 0..10 {
        forth.register(pod_key("mypod"), app(i), i);
        back.register(pod_key("mypod"), app(9 - i), 9 - i);
    }
    assert_eq!(forth.pod_count(), back.pod_count());
    assert_eq!(forth.handle_count(&pod_key("mypod")), back.handle_count(&pod_key("mypod")));
    for i in 0..10 {
        assert_eq!(forth.get(&pod_key("mypod"), &app(i)), back.get(&pod_key("mypod"), &app(i)));
    }
}

#[test]
fn pods_do_not_share_entries() {
    let mut registry: HandleRegistry<&str> = HandleRegistry::new();
    registry.register(pod_key("a"), app(0), "a0");
    registry.register(pod_key("b"), app(0), "b0");
    registry.register(pod_key("a"), app(1), "a1");
    let other = PodKey { namespace: "other".to_string(), name: "a".to_string() };
    registry.register(other.clone(), app(0), "other-a0");
    assert_eq!(registry.pod_count(), 3);
    assert_eq!(registry.handle_count(&pod_key("a")), 2);
    assert_eq!(registry.handle_count(&pod_key("b")), 1);
    assert_eq!(registry.handle_count(&other), 1);
    assert_eq!(registry.get(&pod_key("a"), &app(0)), Some(&"a0"));
    assert_eq!(registry.get(&pod_key("b"), &app(0)), Some(&"b0"));
    assert_eq!(registry.get(&other, &app(0)), Some(&"other-a0"));
    assert_eq!(registry.get(&pod_key("b"), &app(1)), None);
}

#[test]
fn init_and_app_containers_are_distinct() {
    let mut registry: HandleRegistry<u8> = HandleRegistry::new();
    registry.register(pod_key("a"), ContainerKey::Init("setup".to_string()), 1);
    registry.register(pod_key("a"), ContainerKey::App("setup".to_string()), 2);
    assert_eq!(registry.handle_count(&pod_key("a")), 2);
    assert_eq!(registry.get(&pod_key("a"), &ContainerKey::Init("setup".to_string())), Some(&1));
    assert_eq!(registry.get(&pod_key("a"), &ContainerKey::App("setup".to_string())), Some(&2));
}

#[test]
fn registering_again_replaces_the_handle() {
    let mut registry: HandleRegistry<u8> = HandleRegistry::new();
    registry.register(pod_key("a"), app(0), 1);
    registry.register(pod_key("a"), app(0), 2);
    assert_eq!(registry.pod_count(), 1);
    assert_eq!(registry.handle_count(&pod_key("a")), 1);
    assert_eq!(registry.get(&pod_key("a"), &app(0)), Some(&2));
}

#[test]
fn the_key_of_a_pod_is_its_namespace_and_name() {
    let pod = Pod {
        namespace: "kube-system".to_string(),
        name: "dns".to_string(),
        annotations: KeyedMap::new(),
    };
    assert_eq!(pod.key(), PodKey { namespace: "kube-system".to_string(), name: "dns".to_string() });
}
