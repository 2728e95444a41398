use sslb::policy::{
    create_policy, AnyPolicy, HashedIpPolicy, Policy, PolicyType, RandomPolicy,
    SimpleRoundRobinPolicy, VectorSet,
};

fn endpoints(names: &[&str]) -> Vec<String> {
    names.iter().map(|s| s.to_string()).collect()
}

#[test]
fn values_persist() {
    let vals = vec![1, 2, 3, 4];
    let vecset = VectorSet::new(vals);
    assert!(vecset.contains(&1));
    assert!(vecset.contains(&2));
    assert!(vecset.contains(&3));
    assert!(vecset.contains(&4));
}

#[test]
fn remove_elements() {
    let vals = vec![1, 2, 3, 4];
    let mut vecset = VectorSet::new(vals);
    assert!(vecset.contains(&1));
    assert!(vecset.contains(&2));
    assert!(vecset.contains(&3));
    assert!(vecset.contains(&4));

    vecset.remove(&1);
    assert!(!vecset.contains(&1));
    assert!(vecset.contains(&2));
    assert!(vecset.contains(&3));
    assert!(vecset.contains(&4));

    vecset.remove(&2);
    assert!(!vecset.contains(&1));
    assert!(!vecset.contains(&2));
    assert!(vecset.contains(&3));
    assert!(vecset.contains(&4));

    vecset.remove(&3);
    assert!(!vecset.contains(&1));
    assert!(!vecset.contains(&2));
    assert!(!vecset.contains(&3));
    assert!(vecset.contains(&4));

    vecset.remove(&4);
    assert!(!vecset.contains(&1));
    assert!(!vecset.contains(&2));
    assert!(!vecset.contains(&3));
    assert!(!vecset.contains(&4));
}

#[test]
fn remove_changes_len_only_when_present() {
    let mut vecset = VectorSet::new(endpoints(&["a:1", "b:2", "c:3"]));
    assert_eq!(vecset.len(), 3);
    vecset.remove(&"absent:9".to_string());
    assert_eq!(vecset.len(), 3);
    vecset.remove(&"b:2".to_string());
    assert_eq!(vecset.len(), 2);
    assert!(!vecset.contains(&"b:2".to_string()));
    assert!(vecset.contains(&"a:1".to_string()));
    assert!(vecset.contains(&"c:3".to_string()));
    vecset.remove(&"b:2".to_string());
    assert_eq!(vecset.len(), 2);
}

#[test]
fn construction_reaches_every_input_exactly_once() {
    let input = endpoints(&["a:1", "b:2", "c:3", "d:4"]);
    let vecset = VectorSet::new(input.clone());
    assert_eq!(vecset.len(), input.len());
    let mut seen: Vec<String> = Vec::new();
    for i in 0..vecset.len() {
        let el = vecset.index(i).clone();
        assert!(input.contains(&el));
        assert!(!seen.contains(&el), "two indices yielded the same element");
        seen.push(el);
    }
    for el in &input {
        assert!(seen.contains(el), "input element unreachable by index");
    }
}

#[test]
fn round_robin_cycles_in_order() {
    let mut policy = SimpleRoundRobinPolicy::new(endpoints(&["a:1", "b:2", "c:3"]));
    assert_eq!(policy.select("k1"), Some("a:1".to_string()));
    assert_eq!(policy.select("k2"), Some("b:2".to_string()));
    assert_eq!(policy.select("k1"), Some("c:3".to_string()));
    assert_eq!(policy.select("k3"), Some("a:1".to_string()));
}

#[test]
fn hashed_affinity_is_stable() {
    let mut policy = HashedIpPolicy::new(endpoints(&["a:1", "b:2", "c:3", "d:4"]));
    let first = policy.select("10.0.0.7:4711").expect("set is non-empty");
    for _ in 0..20 {
        assert_eq!(policy.select("10.0.0.7:4711"), Some(first.clone()));
    }
    assert!(["a:1", "b:2", "c:3", "d:4"].contains(&first.as_str()));
}

#[test]
fn random_selection_stays_within_set() {
    let eps = endpoints(&["a:1", "b:2", "c:3"]);
    let mut policy = RandomPolicy::new(eps.clone());
    for _ in 0..50 {
        let picked = policy.select("ignored").expect("set is non-empty");
        assert!(eps.contains(&picked));
    }
    let mut single = RandomPolicy::new(endpoints(&["only:1"]));
    for _ in 0..10 {
        assert_eq!(single.select("ignored"), Some("only:1".to_string()));
    }
}

#[test]
fn every_policy_exhausts_to_none() {
    let eps = endpoints(&["a:1", "b:2"]);
    let mut rr = SimpleRoundRobinPolicy::new(eps.clone());
    let mut random = RandomPolicy::new(eps.clone());
    let mut hashed = HashedIpPolicy::new(eps.clone());
    for el in &eps {
        rr.remove(el);
        random.remove(el);
        hashed.remove(el);
    }
    assert_eq!(rr.select("k"), None);
    assert_eq!(random.select("k"), None);
    assert_eq!(hashed.select("k"), None);
}

#[test]
fn selection_never_returns_a_removed_endpoint() {
    let eps = endpoints(&["a:1", "b:2", "c:3"]);
    let mut rr = SimpleRoundRobinPolicy::new(eps.clone());
    rr.remove("b:2");
    for _ in 0..6 {
        let picked = rr.select("k").expect("two endpoints remain");
        assert_ne!(picked, "b:2");
        assert!(eps.contains(&picked));
    }
}

#[test]
fn policy_names_parse() {
    assert!(matches!(
        PolicyType::try_from("round-robin".to_string()),
        Ok(PolicyType::SimpleRoundRobin)
    ));
    assert!(matches!(PolicyType::try_from("random".to_string()), Ok(PolicyType::Random)));
    assert!(matches!(PolicyType::try_from("hashed-ip".to_string()), Ok(PolicyType::HashedIp)));
}

#[test]
fn unknown_policy_name_is_an_error() {
    let err = PolicyType::try_from("least-connections".to_string()).unwrap_err();
    assert_eq!(err, "Unknown policy type \"least-connections\"");
}

#[test]
fn create_policy_builds_the_requested_kind() {
    let eps = endpoints(&["a:1", "b:2"]);
    assert!(matches!(
        create_policy(PolicyType::SimpleRoundRobin, eps.clone()),
        AnyPolicy::RoundRobin(_)
    ));
    assert!(matches!(create_policy(PolicyType::Random, eps.clone()), AnyPolicy::Random(_)));
    assert!(matches!(create_policy(PolicyType::HashedIp, eps.clone()), AnyPolicy::HashedIp(_)));
}

#[test]
fn create_policy_deduplicates_endpoints() {
    let mut policy = create_policy(
        PolicyType::SimpleRoundRobin,
        endpoints(&["a:1", "a:1", "b:2", "a:1"]),
    );
    assert_eq!(policy.select("k"), Some("a:1".to_string()));
    assert_eq!(policy.select("k"), Some("b:2".to_string()));
    assert_eq!(policy.select("k"), Some("a:1".to_string()));
}
