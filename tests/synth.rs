use arbgen::classify::LeafTable;
use arbgen::schema::{Field, FieldType, NodeShape, Schema, TypeNode, Variant};
use arbgen::source::{ByteSource, GenError};
use arbgen::synth::{synth_ty, synthesize, Value};

fn node(ident: &str, shape: NodeShape) -> TypeNode {
    TypeNode { ident: ident.to_string(), shape, features: vec![] }
}

fn field(name: &str, ty: FieldType) -> Field {
    Field { name: name.to_string(), ty }
}

fn leaf(name: &str) -> FieldType {
    FieldType::Leaf(name.to_string())
}

fn refer(name: &str) -> FieldType {
    FieldType::Node(name.to_string())
}

fn list_schema() -> Schema {
    Schema {
        nodes: vec![node(
            "List",
            NodeShape::Enum(vec![
                Variant { name: "Nil".to_string(), fields: vec![] },
                Variant { name: "Cons".to_string(), fields: vec![leaf("Ident"), FieldType::Indirect(Box::new(refer("List")))] },
            ]),
        )],
    }
}

fn run(schema: &Schema, name: &str, bytes: Vec<u8>, depth: u64) -> (Result<Value, GenError>, usize) {
    let mut src = ByteSource::new(bytes);
    let r = synthesize(&LeafTable::standard(), schema, &name.to_string(), &mut src, depth);
    (r, src.pos)
}

#[test]
fn draws_read_little_endian_and_fail_when_short() {
    let mut src = ByteSource::new(vec![1, 2, 3, 4, 5, 6, 7]);
    assert_eq!(src.draw_u32(), Ok(0x0403_0201));
    assert_eq!(src.remaining(), 3);
    assert_eq!(src.draw_u32(), Err(GenError::Exhausted));
    assert_eq!(src.pos, 4);
    assert_eq!(src.draw_byte(), Ok(5));
    assert_eq!(src.draw(3), Err(GenError::Exhausted));
    assert_eq!(src.draw(2), Ok(vec![6, 7]));
    assert_eq!(src.draw_byte(), Err(GenError::Exhausted));
    assert_eq!(src.draw(0), Ok(vec![]));
}

#[test]
fn enum_variant_follows_selector() {
    let bytes = vec![0xff, 0xff, 0xff, 0xff, 2, b'a', b'b', 0, 0, 0, 0];
    let (r, pos) = run(&list_schema(), "List", bytes, 8);
    assert_eq!(
        r,
        Ok(Value::Variant(
            1,
            vec![Value::Ident(vec![b'a', b'b']), Value::Boxed(Box::new(Value::Variant(0, vec![])))]
        ))
    );
    assert_eq!(pos, 11);
}

#[test]
fn identical_streams_give_identical_values() {
    let bytes = vec![0x90, 0x00, 0x00, 0x80, 1, b'z', 0x00, 0x00, 0x00, 0x00];
    let (a, pa) = run(&list_schema(), "List", bytes.clone(), 8);
    let (b, pb) = run(&list_schema(), "List", bytes, 8);
    assert!(a.is_ok());
    assert_eq!(a, b);
    assert_eq!(pa, pb);
}

#[test]
fn short_stream_fails_with_exhaustion() {
    let full = vec![0xff, 0xff, 0xff, 0xff, 2, b'a', b'b', 0, 0, 0, 0];
    assert!(run(&list_schema(), "List", full.clone(), 8).0.is_ok());
    for k in 0..full.len() {
        let (r, _) = run(&list_schema(), "List", full[..k].to_vec(), 8);
        assert_eq!(r, Err(GenError::Exhausted));
    }
}

#[test]
fn text_leaf_longer_than_stream_is_exhausted() {
    let schema = Schema { nodes: vec![node("S", NodeShape::Struct(vec![field("lit", leaf("Literal"))]))] };
    assert_eq!(run(&schema, "S", vec![5, b'a', b'b'], 4).0, Err(GenError::Exhausted));
    assert_eq!(run(&schema, "S", vec![], 4).0, Err(GenError::Exhausted));
    assert_eq!(
        run(&schema, "S", vec![2, b'a', b'b', 9], 4),
        (Ok(Value::Struct(vec![Value::Literal(vec![b'a', b'b'])])), 3)
    );
}

#[test]
fn reordering_fields_moves_bytes_between_fields() {
    let before = Schema {
        nodes: vec![node("P", NodeShape::Struct(vec![field("a", leaf("Ident")), field("b", leaf("Ident"))]))],
    };
    let after = Schema {
        nodes: vec![node("P", NodeShape::Struct(vec![field("b", leaf("Ident")), field("a", leaf("Ident"))]))],
    };
    let bytes = vec![1, b'x', 2, b'y', b'z'];
    let (r1, _) = run(&before, "P", bytes.clone(), 4);
    let (r2, _) = run(&after, "P", bytes, 4);
    let (v1, v2) = match (r1, r2) {
        (Ok(Value::Struct(v1)), Ok(Value::Struct(v2))) => (v1, v2),
        _ => panic!("expected two structs"),
    };
    let a_before = &v1[0];
    let a_after = &v2[1];
    assert_eq!(*a_before, Value::Ident(vec![b'x']));
    assert_eq!(*a_after, Value::Ident(vec![b'y', b'z']));
    assert_ne!(a_before, a_after);
}

#[test]
fn self_referential_struct_stops_at_depth_bound() {
    let schema = Schema {
        nodes: vec![node(
            "Chain",
            NodeShape::Struct(vec![field("next", FieldType::Optional(Box::new(FieldType::Indirect(Box::new(refer("Chain"))))))]),
        )],
    };
    assert_eq!(run(&schema, "Chain", vec![1, 2, 3], 6).0, Err(GenError::DepthLimit));
    assert_eq!(run(&schema, "Chain", vec![], 0).0, Err(GenError::DepthLimit));
}

#[test]
fn self_referential_enum_stops_on_exhaustion() {
    let bytes = vec![0xff, 0xff, 0xff, 0xff, 0, 0xff, 0xff, 0xff, 0xff, 0];
    let (r, _) = run(&list_schema(), "List", bytes, 100);
    assert_eq!(r, Err(GenError::Exhausted));
}

#[test]
fn leaves_without_input_consume_nothing() {
    let table = LeafTable::standard();
    let schema = Schema { nodes: vec![] };
    let ty = FieldType::Tuple(vec![leaf("Span"), leaf("TokenStream"), FieldType::Optional(Box::new(leaf("Span")))]);
    let mut src = ByteSource::new(vec![7]);
    let r = synth_ty(&table, &schema, &ty, &mut src, 0);
    assert_eq!(
        r,
        Ok(Value::Tuple(vec![Value::Span, Value::TokenStream, Value::Present(Box::new(Value::Span))]))
    );
    assert_eq!(src.pos, 0);
}

#[test]
fn types_without_generator_are_reported() {
    let table = LeafTable::standard();
    let schema = Schema { nodes: vec![node("Hidden", NodeShape::Opaque), node("Empty", NodeShape::Enum(vec![]))] };
    let mut src = ByteSource::new(vec![0; 16]);
    assert_eq!(
        synth_ty(&table, &schema, &FieldType::Sequence(Box::new(leaf("Span"))), &mut src, 3),
        Err(GenError::NoGenerator)
    );
    assert_eq!(
        synth_ty(&table, &schema, &FieldType::Container("Punctuated".to_string()), &mut src, 3),
        Err(GenError::NoGenerator)
    );
    assert_eq!(synth_ty(&table, &schema, &refer("Hidden"), &mut src, 3), Err(GenError::NoGenerator));
    assert_eq!(synth_ty(&table, &schema, &refer("Empty"), &mut src, 3), Err(GenError::Unresolved));
    assert_eq!(synth_ty(&table, &schema, &refer("Missing"), &mut src, 3), Err(GenError::Unresolved));
    assert_eq!(synth_ty(&table, &schema, &leaf("Lifetime"), &mut src, 3), Err(GenError::Unresolved));
}
