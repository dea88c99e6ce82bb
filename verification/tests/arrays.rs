use thinfilm::arrays::Samples;

#[test]
fn samples_keep_the_order_of_the_vector() {
    let s = Samples::from_vec(vec![3, 1, 2]);
    assert_eq!(s.len(), 3);
    assert_eq!(s.get(0), Some(3));
    assert_eq!(s.get(1), Some(1));
    assert_eq!(s.get(2), Some(2));
    assert_eq!(s.get(3), None);
    assert_eq!(s.to_vec(), vec![3, 1, 2]);
}

#[test]
fn empty_samples_have_no_element() {
    let s = Samples::from_vec(Vec::new());
    assert_eq!(s.len(), 0);
    assert_eq!(s.get(0), None);
    assert_eq!(s.to_vec(), Vec::<i64>::new());
}
