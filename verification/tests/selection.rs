use proxy_pipeline::candidate::Proxy;
use proxy_pipeline::selector::{select, take_prefix};

fn supply(n: usize) -> Vec<Proxy> {
    (0..n).map(|i| Proxy { ip: format!("10.0.0.{}", i), port: format!("{}", 8000 + i) }).collect()
}

fn sorted_pairs(candidates: &[Proxy]) -> Vec<(String, String)> {
    let mut pairs: Vec<(String, String)> =
        candidates.iter().map(|p| (p.ip.clone(), p.port.clone())).collect();
    pairs.sort();
    pairs
}

#[test]
fn prefix_is_the_first_few_in_order() {
    let taken = take_prefix(supply(5), 2);
    assert_eq!(taken.len(), 2);
    assert_eq!(taken[0].ip, "10.0.0.0");
    assert_eq!(taken[1].ip, "10.0.0.1");
}

#[test]
fn prefix_of_a_short_supply_is_all_of_it() {
    let taken = take_prefix(supply(3), 50);
    assert_eq!(taken.len(), 3);
    assert_eq!(taken[2].port, "8002");
    assert!(take_prefix(supply(3), 0).is_empty());
    assert!(take_prefix(Vec::new(), 4).is_empty());
}

#[test]
fn sample_has_the_requested_size() {
    for amount in [1usize, 7, 49, 50] {
        assert_eq!(select(supply(50), amount).len(), amount);
    }
}

#[test]
fn sample_never_exceeds_the_supply() {
    assert_eq!(select(supply(3), 50).len(), 3);
    assert_eq!(select(Vec::new(), 5).len(), 0);
}

#[test]
fn short_supply_comes_back_whole() {
    let sample = select(supply(10), 10);
    assert_eq!(sorted_pairs(&sample), sorted_pairs(&supply(10)));
    let sample = select(supply(4), 50);
    assert_eq!(sorted_pairs(&sample), sorted_pairs(&supply(4)));
}

#[test]
fn sample_is_drawn_from_the_supply_without_repeats() {
    let all = sorted_pairs(&supply(30));
    for _ in 0..20 {
        let sample = sorted_pairs(&select(supply(30), 12));
        assert_eq!(sample.len(), 12);
        for w in sample.windows(2) {
            assert_ne!(w[0], w[1]);
        }
        for p in &sample {
            assert!(all.contains(p));
        }
    }
}

#[test]
fn duplicates_in_the_supply_are_drawn_no_more_often_than_given() {
    let mut supply: Vec<Proxy> = Vec::new();
    for _ in 0..3 {
        supply.push(Proxy { ip: "a".to_string(), port: "1".to_string() });
    }
    supply.push(Proxy { ip: "b".to_string(), port: "2".to_string() });
    let sample = select(supply, 4);
    let a = sample.iter().filter(|p| p.ip == "a").count();
    let b = sample.iter().filter(|p| p.ip == "b").count();
    assert_eq!((a, b), (3, 1));
}

#[test]
fn order_changes_between_calls() {
    let first: Vec<String> = select(supply(40), 40).into_iter().map(|p| p.ip).collect();
    let mut changed = false;
    for _ in 0..20 {
        let next: Vec<String> = select(supply(40), 40).into_iter().map(|p| p.ip).collect();
        if next != first {
            changed = true;
        }
    }
    assert!(changed);
}
