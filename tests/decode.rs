use ge_pso::{DecodeError, ScalarOps, Velocity};

fn scalar_size(s: &ScalarOps) -> usize {
    match s {
        ScalarOps::Mul(l, r) | ScalarOps::Add(l, r) | ScalarOps::Sub(l, r) => {
            scalar_size(l) + scalar_size(r) + 1
        }
        _ => 1,
    }
}

fn size(v: &Velocity) -> usize {
    match v {
        Velocity::Mul(l, k) => size(l) + scalar_size(k) + 1,
        Velocity::Add(l, r) | Velocity::Sub(l, r) => size(l) + size(r) + 1,
        _ => 1,
    }
}

fn scalar_leaves(s: &ScalarOps) -> usize {
    match s {
        ScalarOps::Mul(l, r) | ScalarOps::Add(l, r) | ScalarOps::Sub(l, r) => {
            scalar_leaves(l) + scalar_leaves(r)
        }
        _ => 1,
    }
}

fn leaves(v: &Velocity) -> usize {
    match v {
        Velocity::Mul(l, k) => leaves(l) + scalar_leaves(k),
        Velocity::Add(l, r) | Velocity::Sub(l, r) => leaves(l) + leaves(r),
        _ => 1,
    }
}

fn depth(v: &Velocity) -> usize {
    match v {
        Velocity::Mul(l, _) | Velocity::Add(l, _) | Velocity::Sub(l, _) => {
            let right = match v {
                Velocity::Mul(_, k) => scalar_depth(k),
                Velocity::Add(_, r) | Velocity::Sub(_, r) => depth(r),
                _ => 0,
            };
            depth(l).max(right) + 1
        }
        _ => 1,
    }
}

fn scalar_depth(s: &ScalarOps) -> usize {
    match s {
        ScalarOps::Mul(l, r) | ScalarOps::Add(l, r) | ScalarOps::Sub(l, r) => {
            scalar_depth(l).max(scalar_depth(r)) + 1
        }
        _ => 1,
    }
}

fn b<T>(x: T) -> Box<T> {
    Box::new(x)
}

#[test]
fn empty_chromosome_is_invalid() {
    assert_eq!(Velocity::generate(&[]), Err(DecodeError::InvalidGenome));
}

#[test]
fn every_single_codon_chromosome_decodes() {
    for codon in 0..=255u8 {
        let rule = Velocity::generate(&[codon]).expect("non-empty chromosome decodes");
        let n = size(&rule);
        assert!(n >= 1 && n <= 9, "codon {codon}: {n} nodes");
        assert!(depth(&rule) <= 5, "codon {codon}");
    }
}

#[test]
fn terminal_codons_pick_table_entries() {
    let expected = [
        Velocity::CurrentCoords,
        Velocity::BestCoords,
        Velocity::CurrentBestCoords,
        Velocity::BestBestCoords,
        Velocity::CurrentVelocity,
        Velocity::BestVelocity,
    ];
    for (codon, want) in expected.into_iter().enumerate() {
        assert_eq!(Velocity::generate(&[codon as u8]).unwrap(), want);
        assert_eq!(Velocity::generate(&[codon as u8 + 9]).unwrap(), want);
    }
}

#[test]
fn scalar_terminal_codons_pick_table_entries() {
    let expected = [
        ScalarOps::Cognitive,
        ScalarOps::Social,
        ScalarOps::InertiaWeight,
        ScalarOps::Rand,
    ];
    for (codon, want) in expected.into_iter().enumerate() {
        let mut pos: usize = 0;
        assert_eq!(ScalarOps::generate_helper(&mut pos, &[codon as u8 + 7]), want);
        assert_eq!(pos, 1);
    }
}

#[test]
fn scalar_codons_follow_the_table_order() {
    for (codon, want) in [
        (0u8, ScalarOps::Cognitive),
        (2, ScalarOps::InertiaWeight),
        (3, ScalarOps::Rand),
    ] {
        let mut pos: usize = 0;
        assert_eq!(ScalarOps::generate_helper(&mut pos, &[codon]), want);
        assert_eq!(pos, 1);
    }
}

#[test]
fn single_mul_codon_wraps_into_terminals() {
    // wraps 0..=3 choose Mul; the fifth read is restricted to terminals
    let rule = Velocity::generate(&[6]).unwrap();
    // a restricted scalar read of codon 6 picks entry 6 % 4 == 2
    let inner = Velocity::Mul(b(Velocity::CurrentCoords), b(ScalarOps::InertiaWeight));
    let inner = Velocity::Mul(b(inner), b(ScalarOps::InertiaWeight));
    let inner = Velocity::Mul(b(inner), b(ScalarOps::InertiaWeight));
    let expected = Velocity::Mul(b(inner), b(ScalarOps::InertiaWeight));
    assert_eq!(rule, expected);
    assert_eq!(size(&rule), 9);
}

#[test]
fn shared_cursor_runs_through_both_grammars() {
    let rule = Velocity::generate(&[6, 3]).unwrap();
    // codon 3 reads as Rand; the last, restricted read of codon 6 as InertiaWeight
    let scalar = ScalarOps::Sub(b(ScalarOps::Rand), b(ScalarOps::InertiaWeight));
    let scalar = ScalarOps::Sub(b(ScalarOps::Rand), b(scalar));
    let scalar = ScalarOps::Sub(b(ScalarOps::Rand), b(scalar));
    let expected = Velocity::Mul(b(Velocity::BestBestCoords), b(scalar));
    assert_eq!(rule, expected);

    let mut pos: usize = 0;
    let again = Velocity::generate_helper(&mut pos, &[6, 3]);
    assert_eq!(again, expected);
    assert_eq!(pos, 9);
}

#[test]
fn add_and_sub_decode_both_children() {
    // 7 -> Add, then 10 -> 10 % 9 == 1 -> BestCoords, 13 -> 13 % 9 == 4
    let rule = Velocity::generate(&[7, 10, 13]).unwrap();
    assert_eq!(
        rule,
        Velocity::Add(b(Velocity::BestCoords), b(Velocity::CurrentVelocity))
    );
    let rule = Velocity::generate(&[8, 0, 5]).unwrap();
    assert_eq!(
        rule,
        Velocity::Sub(b(Velocity::CurrentCoords), b(Velocity::BestVelocity))
    );
}

#[test]
fn restricted_cursor_reads_one_terminal() {
    // a cursor past the fourth wrap only offers the six terminals
    let mut pos: usize = 4;
    assert_eq!(
        Velocity::generate_helper(&mut pos, &[8]),
        Velocity::CurrentBestCoords
    );
    assert_eq!(pos, 5);
    let mut pos: usize = 12;
    assert_eq!(
        ScalarOps::generate_helper(&mut pos, &[1, 2, 6]),
        ScalarOps::Social
    );
    assert_eq!(pos, 13);
}

#[test]
fn unrestricted_cursor_may_recurse() {
    let mut pos: usize = 3;
    let rule = Velocity::generate_helper(&mut pos, &[7]);
    assert_eq!(
        rule,
        Velocity::Add(b(Velocity::BestCoords), b(Velocity::BestCoords))
    );
    assert_eq!(pos, 6);
}

#[test]
fn recursive_codons_stop_after_the_fourth_wrap() {
    for len in 1..=6usize {
        for codon in [6u8, 7, 8, 15, 16, 17] {
            let chromosome = vec![codon; len];
            let mut pos: usize = 0;
            let rule = Velocity::generate_helper(&mut pos, &chromosome);
            // every codon is recursive: 4 * len inner nodes, 4 * len + 1 leaves
            assert_eq!(pos, size(&rule));
            assert_eq!(pos, 8 * len + 1);
            assert_eq!(leaves(&rule), 4 * len + 1);
            assert!(depth(&rule) <= 4 * len + 1);
        }
    }
}

#[test]
fn decoding_twice_gives_the_same_rule() {
    let chromosome = [200u8, 17, 6, 99, 3, 254, 7, 8, 0, 13];
    let first = Velocity::generate(&chromosome).unwrap();
    let second = Velocity::generate(&chromosome).unwrap();
    assert_eq!(first, second);
}
