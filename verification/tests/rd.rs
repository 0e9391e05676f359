use netbase::{element_for_draw, rand_element};

#[test]
fn rand_element_should_work() {
    let v = vec![1, 2, 3];
    let e = rand_element(&v);
    assert!(v.contains(e));

    let v = vec![1];
    let &e = rand_element(&v);
    assert_eq!(1, e);

    let v = vec!["a", "b", "c"];
    let e = rand_element(&v);
    assert!(v.contains(e));
}

#[test]
fn element_for_draw_takes_draw_modulo_length() {
    let v = vec![10, 20, 30];
    assert_eq!(*element_for_draw(&v, 0), 10);
    assert_eq!(*element_for_draw(&v, 4), 20);
    assert_eq!(*element_for_draw(&v, usize::MAX), v[usize::MAX % 3]);
}
