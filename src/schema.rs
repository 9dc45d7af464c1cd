use vstd::prelude::*;

verus! {

/// The type of one field, as the schema describes it.
#[derive(Debug, PartialEq, Eq)]
pub enum FieldType {
    /// A leaf of an outside library, known by name; its construction comes
    /// from the leaf table.
    Leaf(String),
    /// A value that may be absent.
    Optional(Box<FieldType>),
    /// An owned indirection to a value of the inner type.
    Indirect(Box<FieldType>),
    /// A fixed tuple of field types.
    Tuple(Vec<FieldType>),
    /// A homogeneous sequence of the inner type.
    Sequence(Box<FieldType>),
    /// A reference to another node of the schema.
    Node(String),
    /// A composite type that the schema does not describe; it brings its own
    /// generator.
    Container(String),
}

/// One enum variant: its name and the types of its fields, in order.
#[derive(Debug, PartialEq, Eq)]
pub struct Variant {
    pub name: String,
    pub fields: Vec<FieldType>,
}

/// One named struct field.
#[derive(Debug, PartialEq, Eq)]
pub struct Field {
    pub name: String,
    pub ty: FieldType,
}

/// The shape of a node.
#[derive(Debug, PartialEq, Eq)]
pub enum NodeShape {
    /// Variants in order; the order fixes each variant's index.
    Enum(Vec<Variant>),
    /// Fields in declaration order.
    Struct(Vec<Field>),
    /// A node whose structure is not modelled; it gets no generator.
    Opaque,
}

/// One type of the schema, with the feature tags that gate it.
#[derive(Debug, PartialEq, Eq)]
pub struct TypeNode {
    pub ident: String,
    pub shape: NodeShape,
    pub features: Vec<String>,
}

/// An ordered sequence of type nodes.
#[derive(Debug, PartialEq, Eq)]
pub struct Schema {
    pub nodes: Vec<TypeNode>,
}

impl Schema {
    /// Some node is called `name`.
    pub open spec fn has_node(&self, name: Seq<char>) -> bool {
        exists|i: int| 0 <= i < self.nodes@.len() && #[trigger] self.nodes@[i].ident@ == name
    }

    /// The position of the node called `name`, if there is one.
    pub fn find_node(&self, name: &String) -> (r: Option<usize>)
        ensures
            r matches Some(i) ==> i < self.nodes@.len() && self.nodes@[i as int].ident@ == name@
                && forall|k: int| 0 <= k < i ==> #[trigger] self.nodes@[k].ident@ != name@,
            r is None <==> !self.has_node(name@),
    {
        let mut i: usize = 0;
        while i < self.nodes.len()
            invariant
                i <= self.nodes@.len(),
                forall|k: int| 0 <= k < i ==> #[trigger] self.nodes@[k].ident@ != name@,
            decreases self.nodes@.len() - i,
        {
            if self.nodes[i].ident == *name {
                return Some(i);
            }
            i = i + 1;
        }
        None
    }
}

} // verus!
