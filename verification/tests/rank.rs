use dino_cli::rank::{rank_descending, total_order_key_of};

fn bits(v: &[f64]) -> Vec<u64> {
    v.iter().map(|x| x.to_bits()).collect()
}

#[test]
fn highest_first() {
    let s = bits(&[0.1, 0.9, -0.5, 0.4]);
    assert_eq!(rank_descending(&s, 10), vec![1, 3, 0, 2]);
    assert_eq!(rank_descending(&s, 2), vec![1, 3]);
    assert_eq!(rank_descending(&s, 0), Vec::<usize>::new());
}

#[test]
fn ties_keep_input_order() {
    let s = bits(&[0.5, 0.7, 0.5, 0.7]);
    assert_eq!(rank_descending(&s, 4), vec![1, 3, 0, 2]);
}

#[test]
fn total_order_of_special_values() {
    let s = bits(&[-0.0, 0.0, f64::NAN, f64::NEG_INFINITY, f64::INFINITY, -f64::NAN]);
    assert_eq!(rank_descending(&s, 6), vec![2, 4, 1, 0, 3, 5]);
}

#[test]
fn key_matches_total_cmp() {
    let vals = [-f64::NAN, f64::NEG_INFINITY, -1.5, -0.0, 0.0, 1e-300, 2.0, f64::INFINITY, f64::NAN];
    for a in vals {
        for b in vals {
            let ka = total_order_key_of(a.to_bits());
            let kb = total_order_key_of(b.to_bits());
            assert_eq!(ka.cmp(&kb), a.total_cmp(&b));
        }
    }
}

#[test]
fn more_results_extend_fewer() {
    let s = bits(&[3.0, 1.0, 4.0, 1.0, 5.0, 9.0, 2.0, 6.0]);
    let all = rank_descending(&s, 8);
    for k in 0..=8 {
        assert_eq!(rank_descending(&s, k), all[..k].to_vec());
    }
}
