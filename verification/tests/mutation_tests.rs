use genetics::Gene;
use genetics::Mutation;
use rand::thread_rng;
use rand::Rng;
use rand_distr::StandardNormal;

fn sample_bits() -> u32 {
    let v: f32 = thread_rng().sample(StandardNormal);
    v.to_bits()
}

fn sample_gene(num_markers: u16) -> Gene {
    let values: Vec<u32> = (0..num_markers as usize + 1).map(|_| sample_bits()).collect();
    Gene::new(num_markers, values).unwrap()
}

fn stored_bits(gene: &Gene) -> Vec<u32> {
    gene.markers.iter().map(|m| m.bits).collect()
}

#[test]
fn forced_delete_zeroes_one_slot() {
    let mut gene = Gene::new(2, vec![0x11111111, 0x22222222, 0x33333333]).unwrap();
    gene.apply_mutation(&Mutation::Delete { target: 1 });
    assert_eq!(stored_bits(&gene), vec![0x11111111, 0x00000000, 0x33333333]);
}

#[test]
fn forced_duplication_copies_one_value() {
    let mut gene = Gene::new(2, vec![0x11111111, 0x22222222, 0x33333333]).unwrap();
    gene.apply_mutation(&Mutation::Duplication {
        target: 0,
        dup_target: 2,
    });
    assert_eq!(stored_bits(&gene), vec![0x11111111, 0x22222222, 0x11111111]);
}

#[test]
fn forced_new_replaces_one_value() {
    let mut gene = Gene::new(2, vec![0x11111111, 0x22222222, 0x33333333]).unwrap();
    gene.apply_mutation(&Mutation::New {
        target: 1,
        bits: 0xabcdef01,
    });
    assert_eq!(stored_bits(&gene), vec![0x11111111, 0xabcdef01, 0x33333333]);
}

#[test]
fn forced_reversal_swaps_two_values() {
    let mut gene = Gene::new(2, vec![0x11111111, 0x22222222, 0x33333333]).unwrap();
    gene.apply_mutation(&Mutation::Reversal {
        target: 1,
        swap_target: 2,
    });
    assert_eq!(stored_bits(&gene), vec![0x11111111, 0x33333333, 0x22222222]);
}

#[test]
fn forced_reversal_on_same_slot_is_noop() {
    let mut gene = Gene::new(2, vec![0x11111111, 0x22222222, 0x33333333]).unwrap();
    gene.apply_mutation(&Mutation::Reversal {
        target: 2,
        swap_target: 2,
    });
    assert_eq!(stored_bits(&gene), vec![0x11111111, 0x22222222, 0x33333333]);
}

#[test]
fn forced_shift_keeps_every_marker() {
    let mut gene = Gene::new(4, vec![1, 2, 3, 4, 5]).unwrap();
    gene.apply_mutation(&Mutation::Shift);
    let mut after = stored_bits(&gene);
    after.sort();
    assert_eq!(after, vec![1, 2, 3, 4, 5]);
}

#[test]
fn mutate_applies_exactly_one_edit_shape() {
    for _ in 0..200 {
        let mut gene = sample_gene(3);
        let before = stored_bits(&gene);
        let fresh = sample_bits();
        let m = gene.mutate(fresh);
        let after = stored_bits(&gene);
        assert_eq!(after.len(), before.len());
        match m {
            Mutation::Delete { target } => {
                assert!(target < before.len());
                let mut expected = before.clone();
                expected[target] = 0;
                assert_eq!(after, expected);
            }
            Mutation::Duplication { target, dup_target } => {
                assert!(target < before.len());
                assert!(dup_target >= 1 && dup_target < before.len());
                let mut expected = before.clone();
                expected[dup_target] = before[target];
                assert_eq!(after, expected);
            }
            Mutation::New { target, bits } => {
                assert!(target < before.len());
                assert_eq!(bits, fresh);
                let mut expected = before.clone();
                expected[target] = fresh;
                assert_eq!(after, expected);
            }
            Mutation::Reversal {
                target,
                swap_target,
            } => {
                assert!(target < before.len());
                assert!(swap_target >= 1 && swap_target < before.len());
                let mut expected = before.clone();
                expected[swap_target] = before[target];
                expected[target] = before[swap_target];
                assert_eq!(after, expected);
            }
            Mutation::Shift => {
                let mut sorted_before = before.clone();
                let mut sorted_after = after.clone();
                sorted_before.sort();
                sorted_after.sort();
                assert_eq!(sorted_after, sorted_before);
            }
        }
    }
}
