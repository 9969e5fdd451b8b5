use finalgo::value_map::ValueMap;

#[test]
fn added_values_read_back() {
    let mut m: ValueMap<i64> = ValueMap::new();
    m.add("loss_total".to_string(), 3);
    m.add("loss_decision".to_string(), 7);
    assert_eq!(m.len(), 2);
    assert_eq!(m.get(&"loss_total".to_string()), Some(&3));
    assert_eq!(m.get(&"loss_decision".to_string()), Some(&7));
    assert_eq!(m.get(&"missing".to_string()), None);
    assert!(m.contains_key(&"loss_total".to_string()));
    assert!(!m.contains_key(&"loss".to_string()));
}

#[test]
fn entries_keep_insertion_order() {
    let m = ValueMap::new()
        .with("zeta".to_string(), 1)
        .with("alpha".to_string(), 2)
        .with("mu".to_string(), 3);
    let keys: Vec<&str> = (0..m.len()).map(|i| m.key_at(i).as_str()).collect();
    assert_eq!(keys, vec!["zeta", "alpha", "mu"]);
    let values: Vec<i32> = (0..m.len()).map(|i| *m.value_at(i)).collect();
    assert_eq!(values, vec![1, 2, 3]);
}

#[test]
fn merge_appends_in_order() {
    let mut a = ValueMap::new().with("precision_long".to_string(), 10).with("precision_short".to_string(), 20);
    let b = ValueMap::new().with("pnl_sharpe".to_string(), 30).with("pnl_win_rate".to_string(), 40);
    a.merge(b);
    assert_eq!(a.len(), 4);
    let keys: Vec<String> = (0..a.len()).map(|i| a.key_at(i).clone()).collect();
    assert_eq!(keys, vec!["precision_long", "precision_short", "pnl_sharpe", "pnl_win_rate"]);
    assert_eq!(a.get(&"pnl_sharpe".to_string()), Some(&30));
    assert_eq!(a.get(&"precision_short".to_string()), Some(&20));
}

#[test]
fn empty_map_has_nothing() {
    let m: ValueMap<String> = ValueMap::new();
    assert_eq!(m.len(), 0);
    assert!(!m.contains_key(&String::new()));
    assert_eq!(m.get(&"x".to_string()), None);
}

#[test]
fn replacing_keeps_key_and_position() {
    let mut m = ValueMap::new().with("trend".to_string(), 1).with("final".to_string(), 2);
    let prev = m.replace_at(0, 10);
    assert_eq!(prev, 1);
    assert_eq!(m.key_at(0), "trend");
    assert_eq!(m.get(&"trend".to_string()), Some(&10));
    assert_eq!(m.get(&"final".to_string()), Some(&2));
    assert_eq!(m.len(), 2);
}
