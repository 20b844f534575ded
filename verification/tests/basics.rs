use parser::model::Direction;

#[test]
fn it_works() {
    let result = 4;
    assert_eq!(result, 4);
}

#[test]
fn direction_labels() {
    assert_eq!(Direction::Credit.label(), "Credit");
    assert_eq!(Direction::Debit.label(), "Debit");
}
