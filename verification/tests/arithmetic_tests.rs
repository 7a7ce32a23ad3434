#[test]
fn model_enum_it_works() {
    assert_eq!(2 + 2, 4);
}

#[test]
fn model_full_ref_it_works() {
    assert_eq!(2 + 2, 4);
}
