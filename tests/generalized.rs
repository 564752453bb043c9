use libafl_core::{GeneralizedInput, GeneralizedItem, HasBytesVec, HasLen, HasTargetBytes, Input};

fn bytes(b: &[u8]) -> GeneralizedItem {
    GeneralizedItem::Bytes(b.to_vec())
}

#[test]
fn from_options_splits_runs_at_gaps() {
    let mut input = GeneralizedInput::new(vec![9]);
    input.generalized_from_options(&[Some(1), Some(2), None, Some(3)]);
    assert_eq!(
        input.generalized().unwrap(),
        &[GeneralizedItem::Gap, bytes(&[1, 2]), GeneralizedItem::Gap, bytes(&[3]), GeneralizedItem::Gap][..]
    );
    assert_eq!(input.bytes(), &[9]);
}

#[test]
fn from_options_leading_gap_is_not_doubled() {
    let mut input = GeneralizedInput::new(vec![]);
    input.generalized_from_options(&[None, Some(7), None]);
    assert_eq!(
        input.generalized().unwrap(),
        &[GeneralizedItem::Gap, bytes(&[7]), GeneralizedItem::Gap][..]
    );
}

#[test]
fn from_options_of_nothing_is_one_gap() {
    let mut input = GeneralizedInput::new(vec![]);
    input.generalized_from_options(&[]);
    assert_eq!(input.generalized().unwrap(), &[GeneralizedItem::Gap][..]);
}

#[test]
fn extend_merges_touching_gaps() {
    let mut input = GeneralizedInput::new(vec![]);
    input.generalized_extend(&[GeneralizedItem::Gap, bytes(&[1]), GeneralizedItem::Gap]);
    input.generalized_extend(&[GeneralizedItem::Gap, bytes(&[2])]);
    assert_eq!(
        input.generalized().unwrap(),
        &[GeneralizedItem::Gap, bytes(&[1]), GeneralizedItem::Gap, bytes(&[2])][..]
    );
}

#[test]
fn extend_keeps_gap_after_bytes() {
    let mut input = GeneralizedInput::new(vec![]);
    input.generalized_extend(&[bytes(&[1])]);
    input.generalized_extend(&[GeneralizedItem::Gap]);
    assert_eq!(input.generalized().unwrap(), &[bytes(&[1]), GeneralizedItem::Gap][..]);
}

#[test]
fn generalized_len_counts_bytes_and_gaps() {
    let mut input = GeneralizedInput::new(vec![]);
    assert_eq!(input.generalized_len(), 0);
    input.generalized_from_options(&[Some(1), Some(2), None, Some(3)]);
    assert_eq!(input.generalized_len(), 6);
}

#[test]
fn generalized_to_bytes_drops_gaps() {
    let mut input = GeneralizedInput::new(vec![]);
    assert!(input.generalized_to_bytes().is_empty());
    input.generalized_from_options(&[Some(1), Some(2), None, Some(3)]);
    assert_eq!(input.generalized_to_bytes(), vec![1, 2, 3]);
}

#[test]
fn target_bytes_follow_the_mutation_level() {
    let mut input = GeneralizedInput::new(vec![5, 6]);
    input.generalized_from_options(&[Some(1), None, Some(2)]);
    assert_eq!(input.target_bytes(), vec![5, 6]);
    input.grimoire_mutated = true;
    assert_eq!(input.target_bytes(), vec![1, 2]);
    input.set_grimoire_mutated(false);
    assert_eq!(input.target_bytes(), vec![5, 6]);
}

#[test]
fn wrapped_as_testcase_drops_template_after_byte_mutation() {
    let mut input = GeneralizedInput::new(vec![1]);
    input.generalized_from_options(&[Some(1)]);
    input.wrapped_as_testcase();
    assert!(input.generalized().is_none());
    assert!(!input.grimoire_mutated);
}

#[test]
fn wrapped_as_testcase_keeps_template_after_template_mutation() {
    let mut input = GeneralizedInput::new(vec![1]);
    input.generalized_from_options(&[Some(1)]);
    input.grimoire_mutated = true;
    input.wrapped_as_testcase();
    assert!(input.generalized().is_some());
    assert!(!input.grimoire_mutated);
}

#[test]
fn generated_name_is_sixteen_hex_digits_of_the_bytes() {
    let a = GeneralizedInput::new(vec![1, 2, 3]);
    let name = a.generate_name(0);
    assert_eq!(name.len(), 16);
    assert!(name.chars().all(|c| c.is_ascii_hexdigit() && !c.is_ascii_uppercase()));
    let mut b = GeneralizedInput::new(vec![1, 2, 3]);
    b.generalized_from_options(&[None]);
    assert_eq!(b.generate_name(7), name);
    let c = GeneralizedInput::new(vec![1, 2, 4]);
    assert_ne!(c.generate_name(0), name);
}

#[test]
fn bytes_mut_len_and_clone() {
    let mut input = GeneralizedInput::default();
    assert_eq!(input.len(), 0);
    input.bytes_mut().push(4);
    input.bytes_mut().push(5);
    assert_eq!(input.len(), 2);
    input.generalized_from_options(&[Some(4), None]);
    let copy = input.clone();
    assert_eq!(copy.bytes(), &[4, 5]);
    assert_eq!(copy.generalized(), input.generalized());
}

#[test]
fn generalized_mut_replaces_template() {
    let mut input = GeneralizedInput::new(vec![]);
    *input.generalized_mut() = Some(vec![bytes(&[8])]);
    assert_eq!(input.generalized_to_bytes(), vec![8]);
}

#[test]
fn items_compare_by_content() {
    assert_eq!(GeneralizedItem::Gap, GeneralizedItem::Gap);
    assert_eq!(bytes(&[1, 2]), bytes(&[1, 2]));
    assert_ne!(bytes(&[1, 2]), bytes(&[1, 3]));
    assert_ne!(bytes(&[]), GeneralizedItem::Gap);
}
