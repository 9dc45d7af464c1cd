use arbgen::classify::{LeafKind, LeafTable};
use arbgen::compile::{generate, Body, Recipe, SchemaError};
use arbgen::schema::{Field, FieldType, NodeShape, Schema, TypeNode, Variant};

fn node(ident: &str, shape: NodeShape) -> TypeNode {
    TypeNode { ident: ident.to_string(), shape, features: vec!["full".to_string()] }
}

fn field(name: &str, ty: FieldType) -> Field {
    Field { name: name.to_string(), ty }
}

fn variant(name: &str, fields: Vec<FieldType>) -> Variant {
    Variant { name: name.to_string(), fields }
}

fn leaf(name: &str) -> FieldType {
    FieldType::Leaf(name.to_string())
}

fn refer(name: &str) -> FieldType {
    FieldType::Node(name.to_string())
}

#[test]
fn struct_fields_compile_in_declaration_order() {
    let schema = Schema {
        nodes: vec![node(
            "Item",
            NodeShape::Struct(vec![
                field("name", leaf("Ident")),
                field("span", leaf("Span")),
                field("attr", FieldType::Optional(Box::new(FieldType::Indirect(Box::new(refer("Item")))))),
                field("pair", FieldType::Tuple(vec![leaf("Literal"), leaf("TokenStream")])),
                field("items", FieldType::Sequence(Box::new(refer("Item")))),
                field("list", FieldType::Container("Punctuated".to_string())),
            ]),
        )],
    };
    let procs = generate(&LeafTable::standard(), &schema).unwrap();
    assert_eq!(procs.len(), 1);
    assert_eq!(procs[0].ident, "Item");
    assert_eq!(procs[0].features, vec!["full".to_string()]);
    match &procs[0].body {
        Body::Struct(fs) => {
            let names: Vec<&str> = fs.iter().map(|f| f.name.as_str()).collect();
            assert_eq!(names, vec!["name", "span", "attr", "pair", "items", "list"]);
            assert_eq!(fs[0].recipe, Recipe::Leaf(LeafKind::Ident));
            assert_eq!(fs[1].recipe, Recipe::Leaf(LeafKind::Span));
            assert_eq!(fs[2].recipe, Recipe::Present(Box::new(Recipe::Boxed(Box::new(Recipe::Delegate)))));
            assert_eq!(
                fs[3].recipe,
                Recipe::Tuple(vec![Recipe::Leaf(LeafKind::Literal), Recipe::Leaf(LeafKind::TokenStream)])
            );
            assert_eq!(fs[4].recipe, Recipe::Delegate);
            assert_eq!(fs[5].recipe, Recipe::Delegate);
        }
        _ => panic!("expected a struct body"),
    }
}

#[test]
fn enum_compiles_to_counted_arms() {
    let schema = Schema {
        nodes: vec![
            node(
                "Expr",
                NodeShape::Enum(vec![
                    variant("Lit", vec![leaf("Literal")]),
                    variant("Paren", vec![leaf("Span"), FieldType::Indirect(Box::new(refer("Expr")))]),
                    variant("Verbatim", vec![]),
                ]),
            ),
        ],
    };
    let procs = generate(&LeafTable::standard(), &schema).unwrap();
    assert_eq!(procs.len(), 1);
    match &procs[0].body {
        Body::Enum { count, arms } => {
            assert_eq!(*count, 3);
            assert_eq!(arms.len(), 3);
            assert_eq!(arms[0].name, "Lit");
            assert_eq!(arms[0].fields, vec![Recipe::Leaf(LeafKind::Literal)]);
            assert_eq!(arms[1].name, "Paren");
            assert_eq!(
                arms[1].fields,
                vec![Recipe::Leaf(LeafKind::Span), Recipe::Boxed(Box::new(Recipe::Delegate))]
            );
            assert_eq!(arms[2].name, "Verbatim");
            assert!(arms[2].fields.is_empty());
        }
        _ => panic!("expected an enum body"),
    }
}

#[test]
fn opaque_nodes_get_no_procedure() {
    let schema = Schema {
        nodes: vec![
            node("A", NodeShape::Struct(vec![])),
            node("Hidden", NodeShape::Opaque),
            node("B", NodeShape::Enum(vec![variant("X", vec![])])),
        ],
    };
    let procs = generate(&LeafTable::standard(), &schema).unwrap();
    assert_eq!(procs.len(), 2);
    assert_eq!(procs[0].ident, "A");
    assert_eq!(procs[1].ident, "B");
}

#[test]
fn zero_variant_enum_is_rejected() {
    let schema = Schema { nodes: vec![node("Empty", NodeShape::Enum(vec![]))] };
    assert_eq!(
        generate(&LeafTable::standard(), &schema).unwrap_err(),
        SchemaError::ZeroVariants("Empty".to_string())
    );
}

#[test]
fn unknown_leaf_is_rejected() {
    let schema = Schema {
        nodes: vec![node("S", NodeShape::Struct(vec![field("x", FieldType::Tuple(vec![leaf("Span"), leaf("Lifetime")]))]))],
    };
    assert_eq!(
        generate(&LeafTable::standard(), &schema).unwrap_err(),
        SchemaError::UnknownLeaf("Lifetime".to_string())
    );
}

#[test]
fn unknown_node_is_rejected() {
    let schema = Schema {
        nodes: vec![node("S", NodeShape::Struct(vec![field("x", FieldType::Optional(Box::new(refer("Missing"))))]))],
    };
    assert_eq!(
        generate(&LeafTable::standard(), &schema).unwrap_err(),
        SchemaError::UnknownNode("Missing".to_string())
    );
}

#[test]
fn first_error_in_schema_order_is_reported() {
    let schema = Schema {
        nodes: vec![
            node("Fine", NodeShape::Struct(vec![field("s", leaf("Span"))])),
            node("Bad", NodeShape::Enum(vec![variant("V", vec![refer("Nowhere"), leaf("Weird")])])),
            node("Empty", NodeShape::Enum(vec![])),
        ],
    };
    assert_eq!(
        generate(&LeafTable::standard(), &schema).unwrap_err(),
        SchemaError::UnknownNode("Nowhere".to_string())
    );
}

#[test]
fn self_referential_struct_compiles() {
    let schema = Schema {
        nodes: vec![node(
            "Chain",
            NodeShape::Struct(vec![field("next", FieldType::Optional(Box::new(FieldType::Indirect(Box::new(refer("Chain"))))))]),
        )],
    };
    let procs = generate(&LeafTable::standard(), &schema).unwrap();
    assert_eq!(procs.len(), 1);
    match &procs[0].body {
        Body::Struct(fs) => {
            assert_eq!(fs[0].recipe, Recipe::Present(Box::new(Recipe::Boxed(Box::new(Recipe::Delegate)))));
        }
        _ => panic!("expected a struct body"),
    }
}
