use rsql::Comparison;
use rsql::ParserError;

#[test]
fn test_valid() {
    let symbols = vec!["==", "=eq="];
    Comparison::new(&symbols, false).unwrap();
}

#[test]
fn test_invalid() {
    assert!(Comparison::new(&["~="], false).is_err());
    assert!(Comparison::new(&["><="], false).is_err());
    assert!(Comparison::new(&["test="], false).is_err());
}

#[test]
fn empty_symbol_list_is_refused() {
    let symbols: Vec<&str> = vec![];
    assert!(matches!(
        Comparison::new(&symbols, false),
        Err(ParserError::EmptySymbol)
    ));
}

#[test]
fn first_invalid_symbol_is_reported() {
    match Comparison::new(&["==", "~=", "!!"], false) {
        Err(ParserError::InvalidComparison(sym)) => assert_eq!(sym, "~="),
        other => panic!("expected InvalidComparison, got {:?}", other),
    }
}

#[test]
fn builtin_canonical_symbols() {
    assert_eq!(Comparison::EQUAL().to_string(), "==");
    assert_eq!(Comparison::NOT_EQUAL().to_string(), "!=");
    assert_eq!(Comparison::GREATER_THAN().to_string(), "=gt=");
    assert_eq!(Comparison::GREATER_THAN_OR_EQUAL().to_string(), "=ge=");
    assert_eq!(Comparison::LESS_THAN().to_string(), "=lt=");
    assert_eq!(Comparison::LESS_THAN_OR_EQUAL().to_string(), "=le=");
    assert_eq!(Comparison::IN().to_string(), "=in=");
    assert_eq!(Comparison::OUT().to_string(), "=out=");
    assert!(Comparison::IN().is_multi());
    assert!(Comparison::OUT().is_multi());
    assert!(!Comparison::EQUAL().is_multi());
}

#[test]
fn symbols_are_kept_in_order() {
    let c = Comparison::new(&["=ge=", ">="], false).unwrap();
    let syms = c.get_symbols();
    assert_eq!(syms.len(), 2);
    assert_eq!(syms[0], "=ge=");
    assert_eq!(syms[1], ">=");
}
