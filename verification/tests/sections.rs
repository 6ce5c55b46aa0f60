use stegs::sections::{change_section, fill_tight_gaps, generate_section_list, max_layer};

#[test]
fn should_generate_section_list_clockwise_continuous() {
    let sections = generate_section_list(10, 0, 5, true);
    assert_eq!(sections, vec![0, 1, 2, 3, 4, 5]);
}

#[test]
fn should_generate_section_list_anti_clockwise_continuous() {
    let sections = generate_section_list(10, 5, 0, false);
    assert_eq!(sections, vec![5, 4, 3, 2, 1, 0]);
}

#[test]
fn should_generate_section_list_clockwise_not_continuous() {
    let sections = generate_section_list(10, 8, 4, true);
    assert_eq!(sections, vec![8, 9, 0, 1, 2, 3, 4]);
}

#[test]
fn should_generate_section_list_anti_clockwise_not_continuous() {
    let sections = generate_section_list(10, 4, 8, false);
    assert_eq!(sections, vec![4, 3, 2, 1, 0, 9, 8]);
}

#[test]
fn section_list_to_itself_goes_once_round() {
    assert_eq!(generate_section_list(4, 2, 2, true), vec![2, 3, 0, 1, 2]);
    assert_eq!(generate_section_list(4, 2, 2, false), vec![2, 1, 0, 3, 2]);
}

#[test]
fn section_walk_steps_are_neighbours() {
    let walk = generate_section_list(56, 50, 6, true);
    assert_eq!(walk[0], 50);
    assert_eq!(*walk.last().unwrap(), 6);
    for pair in walk.windows(2) {
        assert_eq!(pair[1], change_section(56, pair[0], 1, true));
    }
    let walk = generate_section_list(56, 6, 50, false);
    for pair in walk.windows(2) {
        assert_eq!(pair[1], change_section(56, pair[0], 1, false));
    }
}

#[test]
fn neighbours_wrap_round_the_ring() {
    assert_eq!(change_section(56, 55, 1, true), 0);
    assert_eq!(change_section(56, 0, 1, false), 55);
    assert_eq!(change_section(56, 0, -1, true), 55);
    assert_eq!(change_section(56, 55, -1, false), 0);
    assert_eq!(change_section(56, 10, 1, true), 11);
    assert_eq!(change_section(56, 10, 1, false), 9);
}

#[test]
fn fill_tight_gaps_raises_single_pits() {
    let mut heights = vec![3, 1, 2, 5, 4, 5];
    fill_tight_gaps(&mut heights);
    assert_eq!(heights, vec![3, 2, 2, 5, 5, 5]);
    let mut wrapped = vec![1, 4, 4, 4];
    fill_tight_gaps(&mut wrapped);
    assert_eq!(wrapped, vec![4, 4, 4, 4]);
}

#[test]
fn fill_tight_gaps_keeps_flat_profiles() {
    let mut heights = vec![2; 56];
    fill_tight_gaps(&mut heights);
    assert_eq!(heights, vec![2; 56]);
}

#[test]
fn max_layer_is_highest_or_zero() {
    assert_eq!(max_layer(&vec![1, 7, 3]), 7);
    assert_eq!(max_layer(&vec![-4, -2]), 0);
    assert_eq!(max_layer(&vec![]), 0);
}
