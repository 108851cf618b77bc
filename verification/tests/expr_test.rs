use rsql::node::{Branch, Leaf};
use rsql::Comparison;
use rsql::Constraint;
use rsql::Expr;
use rsql::Operator;
use rsql::ParserError;

#[test]
fn expr_test_node() {
    let const1 = Expr::Item(Constraint::new("select1", Comparison::EQUAL(), &["test1a"]).unwrap());
    let const2 =
        Expr::Item(Constraint::new("select2", Comparison::NOT_EQUAL(), &["test2a"]).unwrap());
    let const3 =
        Expr::Item(Constraint::new("select3", Comparison::GREATER_THAN(), &["test3a"]).unwrap());
    let const4 =
        Expr::Item(Constraint::new("select4", Comparison::IN(), &["test4a", "test4b"]).unwrap());

    let node1 = Expr::Node(Operator::And, Box::new(const1), Box::new(const3));
    let node2 = Expr::Node(Operator::Or, Box::new(const2), Box::new(const4));
    let root = Expr::Node(Operator::And, Box::new(node1), Box::new(node2));

    assert_eq!(
        root.to_string(),
        "select1==test1a;select3=gt=test3a;(select2!=test2a,select4=in=(test4a,test4b))"
    );
}

#[test]
fn node_test_node() {
    let const1 = Leaf(Constraint::new("select1", Comparison::EQUAL(), &["test1a"]).unwrap());
    let const2 = Leaf(Constraint::new("select2", Comparison::NOT_EQUAL(), &["test2a"]).unwrap());
    let const3 = Leaf(Constraint::new("select3", Comparison::GREATER_THAN(), &["test3a"]).unwrap());
    let const4 = Leaf(Constraint::new("select4", Comparison::IN(), &["test4a", "test4b"]).unwrap());

    let branch1 = Branch::new(Operator::And, Some(const1), Some(const3));
    let branch2 = Branch::new(Operator::And, Some(const2), Some(const4));

    let root = Branch::new(Operator::Or, Some(branch1), Some(branch2));

    println!("root: {:?}", root);
}

#[test]
fn boxed_item_checks_cardinality() {
    let leaf = Expr::boxed_item("name", Comparison::EQUAL(), &["value"]).unwrap();
    assert_eq!(leaf.to_string(), "name==value");
    assert!(Expr::boxed_item("name", Comparison::EQUAL(), &["a", "b"]).is_err());
    assert!(Expr::boxed_item("genres", Comparison::IN(), &["only"]).is_err());
}

#[test]
fn invalid_pair_rule_helper() {
    let r: Result<i32, ParserError> = ParserError::invalid_pair_rule();
    assert!(matches!(r, Err(ParserError::InvalidPairRule)));
}
