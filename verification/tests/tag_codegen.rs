use dropset::tag_codegen::{
    assign_discriminants, contiguous_ranges, discriminant_ranges, discriminants_fit, PrimitiveArg,
};

#[test]
fn implicit_discriminants_follow_explicit_ones() {
    assert_eq!(assign_discriminants(&vec![None, None, None]), vec![0, 1, 2]);
    assert_eq!(assign_discriminants(&vec![None, Some(5), None, Some(2), None]), vec![0, 5, 6, 2, 3]);
    assert_eq!(assign_discriminants(&vec![]), Vec::<u8>::new());
}

#[test]
fn contiguous_runs_of_sorted_values() {
    assert_eq!(contiguous_ranges(&vec![0, 1, 2, 3, 4]), vec![(0, 4)]);
    assert_eq!(contiguous_ranges(&vec![0, 1, 3, 4, 7]), vec![(0, 1), (3, 4), (7, 7)]);
    assert_eq!(contiguous_ranges(&vec![254, 255]), vec![(254, 255)]);
    assert_eq!(contiguous_ranges(&vec![]), vec![]);
}

#[test]
fn discriminant_ranges_sort_first() {
    let ranges = discriminant_ranges(vec![7, 3, 4, 0, 1, 2, 99]);
    assert_eq!(ranges, vec![(0, 4), (7, 7), (99, 99)]);
    for x in 0..=u8::MAX {
        let covered = ranges.iter().any(|(a, b)| *a <= x && x <= *b);
        assert_eq!(covered, [7, 3, 4, 0, 1, 2, 99].contains(&x));
    }
}

#[test]
fn primitive_arg_sizes() {
    assert_eq!(PrimitiveArg::U8.size(), 1);
    assert_eq!(PrimitiveArg::U16.size(), 2);
    assert_eq!(PrimitiveArg::U32.size(), 4);
    assert_eq!(PrimitiveArg::U64.size(), 8);
    assert_eq!(PrimitiveArg::U128.size(), 16);
}

#[test]
fn discriminants_that_would_overflow() {
    assert!(discriminants_fit(&vec![None, Some(254)]));
    assert!(!discriminants_fit(&vec![Some(255)]));
    assert!(!discriminants_fit(&vec![Some(250), None, None, None, None, None]));
    assert!(discriminants_fit(&vec![Some(250), None, None, None, None]));
}

#[test]
fn duplicate_discriminants_form_separate_runs() {
    assert_eq!(discriminant_ranges(vec![3, 3, 4]), vec![(3, 3), (3, 4)]);
}
