use rust_lib::encoder::Encoder;

const CYCLE: [(bool, bool); 4] = [(false, false), (false, true), (true, true), (true, false)];

#[test]
fn forward_cycle_counts_up_one_per_edge() {
    let mut enc = Encoder::new();
    let mut total = 0;
    for k in 1..=8 {
        let c = enc.scan(CYCLE[k % 4]);
        assert_eq!(c, 1);
        total += c;
    }
    assert_eq!(total, 8);
}

#[test]
fn backward_cycle_counts_down_one_per_edge() {
    let mut enc = Encoder::new();
    let mut total = 0;
    for k in 1..=4 {
        let c = enc.scan(CYCLE[(4 - k) % 4]);
        assert_eq!(c, -1);
        total += c;
    }
    assert_eq!(total, -4);
}

#[test]
fn repeated_or_skipped_inputs_count_zero() {
    let mut enc = Encoder::new();
    assert_eq!(enc.scan((false, false)), 0);
    assert_eq!(enc.scan((true, true)), 0);
    assert_eq!(enc.scan((true, true)), 0);
    assert_eq!(enc.scan((false, false)), 0);
    assert_eq!(enc.scan((true, false)), -1);
    assert_eq!(enc.scan((false, true)), 0);
}

#[test]
fn reversal_gives_opposite_count() {
    for a in CYCLE.iter() {
        for b in CYCLE.iter() {
            let mut e1 = Encoder::new();
            e1.scan(*a);
            let forward = e1.scan(*b);
            let mut e2 = Encoder::new();
            e2.scan(*b);
            let back = e2.scan(*a);
            assert_eq!(forward, -back);
            assert!(forward >= -1 && forward <= 1);
        }
    }
}
