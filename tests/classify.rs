use arbgen::classify::{LeafKind, LeafTable, Strategy};
use arbgen::schema::FieldType;

#[test]
fn standard_table_matches_known_leaves() {
    let t = LeafTable::standard();
    assert_eq!(t.lookup("Span"), Some(LeafKind::Span));
    assert_eq!(t.lookup("Ident"), Some(LeafKind::Ident));
    assert_eq!(t.lookup("TokenStream"), Some(LeafKind::TokenStream));
    assert_eq!(t.lookup("Literal"), Some(LeafKind::Literal));
    assert_eq!(t.lookup("proc_macro2::Span"), Some(LeafKind::Span));
    assert_eq!(t.lookup("Lifetime"), None);
    assert_eq!(t.lookup(""), None);
}

#[test]
fn first_matching_rule_wins() {
    let t = LeafTable::standard();
    assert_eq!(t.lookup("IdentSpan"), Some(LeafKind::Span));
    assert_eq!(t.lookup("LiteralIdent"), Some(LeafKind::Ident));
}

#[test]
fn added_rule_extends_table() {
    let mut t = LeafTable::standard();
    assert_eq!(t.lookup("Lifetime"), None);
    t.add_rule("Lifetime".to_string(), LeafKind::Ident);
    assert_eq!(t.rules.len(), 5);
    assert_eq!(t.lookup("Lifetime"), Some(LeafKind::Ident));
    assert_eq!(t.lookup("Span"), Some(LeafKind::Span));
}

#[test]
fn classify_strategies() {
    let t = LeafTable::standard();
    assert_eq!(t.classify(&FieldType::Leaf("Literal".to_string())), Some(Strategy::Leaf(LeafKind::Literal)));
    assert_eq!(t.classify(&FieldType::Leaf("Unknown".to_string())), None);
    assert_eq!(t.classify(&FieldType::Optional(Box::new(FieldType::Node("A".to_string())))), Some(Strategy::Optional));
    assert_eq!(t.classify(&FieldType::Indirect(Box::new(FieldType::Node("A".to_string())))), Some(Strategy::Indirect));
    assert_eq!(t.classify(&FieldType::Tuple(vec![])), Some(Strategy::Tuple));
    assert_eq!(t.classify(&FieldType::Sequence(Box::new(FieldType::Node("A".to_string())))), Some(Strategy::Delegate));
    assert_eq!(t.classify(&FieldType::Node("A".to_string())), Some(Strategy::Delegate));
    assert_eq!(t.classify(&FieldType::Container("Punctuated".to_string())), Some(Strategy::Delegate));
}
