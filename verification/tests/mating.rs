use particle_sim::mating::{assemble_parents, parent_count_range, select_parents};

#[test]
fn parent_range_cases() {
    // too few willing neighbours
    assert_eq!(parent_count_range(3, 4, 1), None);
    // the initiator alone is enough when one parent is required
    assert_eq!(parent_count_range(0, 0, 0), Some((1, 1)));
    assert_eq!(parent_count_range(1, 3, 0), Some((1, 1)));
    // capped by the available number
    assert_eq!(parent_count_range(2, 5, 2), Some((2, 3)));
    // a maximum below the minimum is raised to it
    assert_eq!(parent_count_range(3, 1, 6), Some((3, 3)));
    assert_eq!(parent_count_range(2, 4, 9), Some((2, 4)));
}

#[test]
fn assemble_takes_initiator_then_prefix() {
    assert_eq!(assemble_parents(9, &vec![1, 2, 3], 3), vec![9, 1, 2]);
    assert_eq!(assemble_parents(9, &vec![1, 2, 3], 1), vec![9]);
    assert_eq!(assemble_parents(9, &vec![1, 2, 3], 4), vec![9, 1, 2, 3]);
    assert_eq!(assemble_parents(9, &vec![], 1), vec![9]);
}

#[test]
fn select_parents_refuses_when_too_few() {
    let mut rng = rand::thread_rng();
    assert_eq!(select_parents(&mut rng, 1, vec![2], 3, 5), None);
}

#[test]
fn select_parents_forms_groups_within_bounds() {
    let mut rng = rand::thread_rng();
    let eligible: Vec<u64> = vec![10, 11, 12, 13, 14, 15];
    for _ in 0..200 {
        let group = select_parents(&mut rng, 1, eligible.clone(), 2, 4).unwrap();
        assert!(group.len() >= 2 && group.len() <= 4);
        assert_eq!(group[0], 1);
        let mut rest = group[1..].to_vec();
        rest.sort();
        rest.dedup();
        assert_eq!(rest.len(), group.len() - 1);
        assert!(rest.iter().all(|id| eligible.contains(id)));
    }
}

#[test]
fn select_parents_uses_fixed_size_and_shuffles() {
    let mut rng = rand::thread_rng();
    let eligible: Vec<u64> = (100..120).collect();
    let mut firsts = std::collections::BTreeSet::new();
    for _ in 0..300 {
        let group = select_parents(&mut rng, 7, eligible.clone(), 3, 3).unwrap();
        assert_eq!(group.len(), 3);
        assert_eq!(group[0], 7);
        firsts.insert(group[1]);
    }
    // the partners are not always the first neighbours in the list
    assert!(firsts.len() > 1);
}

#[test]
fn select_parents_takes_everyone_when_max_exceeds_available() {
    let mut rng = rand::thread_rng();
    let group = select_parents(&mut rng, 5, vec![6, 7], 3, 10).unwrap();
    assert_eq!(group.len(), 3);
    let mut rest = group[1..].to_vec();
    rest.sort();
    assert_eq!(rest, vec![6, 7]);
}
