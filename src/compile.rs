use vstd::prelude::*;
use crate::classify::{spec_lookup, LeafKind, LeafTable};
use crate::schema::{Field, FieldType, NodeShape, Schema, TypeNode, Variant};

verus! {

broadcast use vstd::std_specs::vec::group_vec_axioms;

/// Why a schema cannot be compiled.
#[derive(Debug, PartialEq, Eq)]
pub enum SchemaError {
    /// The enum node of this name has no variants to select from.
    ZeroVariants(String),
    /// No leaf rule matches this leaf name.
    UnknownLeaf(String),
    /// No node of the schema has this name.
    UnknownNode(String),
}

/// How one value of a field type is constructed.
#[derive(Debug, PartialEq, Eq)]
pub enum Recipe {
    /// By the rule of a leaf category.
    Leaf(LeafKind),
    /// As a present optional value, built by the inner recipe.
    Present(Box<Recipe>),
    /// As an owned indirection to the value of the inner recipe.
    Boxed(Box<Recipe>),
    /// Element by element, in order.
    Tuple(Vec<Recipe>),
    /// By the generator of the field's own type.
    Delegate,
}

/// The recipe of one enum variant.
#[derive(Debug, PartialEq, Eq)]
pub struct Arm {
    pub name: String,
    pub fields: Vec<Recipe>,
}

/// The recipe of one struct field.
#[derive(Debug, PartialEq, Eq)]
pub struct FieldRecipe {
    pub name: String,
    pub recipe: Recipe,
}

/// How a value of a node is constructed.
#[derive(Debug, PartialEq, Eq)]
pub enum Body {
    /// Draw 32 bits, select one of `count` arms, and build its fields.
    Enum { count: u64, arms: Vec<Arm> },
    /// Build the fields in declaration order.
    Struct(Vec<FieldRecipe>),
}

/// The generator of one node, with the node's feature tags.
#[derive(Debug, PartialEq, Eq)]
pub struct Procedure {
    pub ident: String,
    pub features: Vec<String>,
    pub body: Body,
}

/// The first error met in `ty`, in pre-order.
pub open spec fn ty_error(table: LeafTable, schema: Schema, ty: FieldType) -> Option<SchemaError>
    decreases ty,
{
    match ty {
        FieldType::Leaf(name) => if spec_lookup(table.rules@, name@) is None {
            Some(SchemaError::UnknownLeaf(name))
        } else {
            None
        },
        FieldType::Optional(t) => ty_error(table, schema, *t),
        FieldType::Indirect(t) => ty_error(table, schema, *t),
        FieldType::Sequence(t) => ty_error(table, schema, *t),
        FieldType::Tuple(v) => tys_error(table, schema, v@),
        FieldType::Node(name) => if schema.has_node(name@) {
            None
        } else {
            Some(SchemaError::UnknownNode(name))
        },
        FieldType::Container(_) => None,
    }
}

/// The first error met in `tys`, in order.
pub open spec fn tys_error(table: LeafTable, schema: Schema, tys: Seq<FieldType>) -> Option<
    SchemaError,
>
    decreases tys,
{
    if tys.len() == 0 {
        None
    } else {
        match ty_error(table, schema, tys[0]) {
            Some(e) => Some(e),
            None => tys_error(table, schema, tys.subrange(1, tys.len() as int)),
        }
    }
}

/// `r` constructs values of `ty`: leaves by their table rule, wrappers
/// around the recipe of their inner type, tuples element by element, and
/// every other type by its own generator.
pub open spec fn recipe_of(table: LeafTable, ty: FieldType, r: Recipe) -> bool
    decreases ty,
{
    match ty {
        FieldType::Leaf(name) => match r {
            Recipe::Leaf(k) => spec_lookup(table.rules@, name@) == Some(k),
            _ => false,
        },
        FieldType::Optional(t) => match r {
            Recipe::Present(inner) => recipe_of(table, *t, *inner),
            _ => false,
        },
        FieldType::Indirect(t) => match r {
            Recipe::Boxed(inner) => recipe_of(table, *t, *inner),
            _ => false,
        },
        FieldType::Tuple(v) => match r {
            Recipe::Tuple(rs) => recipes_of(table, v@, rs@),
            _ => false,
        },
        _ => r is Delegate,
    }
}

/// `rs` holds a recipe for each of `tys`, in order.
pub open spec fn recipes_of(table: LeafTable, tys: Seq<FieldType>, rs: Seq<Recipe>) -> bool
    decreases tys,
{
    if tys.len() == 0 {
        rs.len() == 0
    } else {
        rs.len() == tys.len() && recipe_of(table, tys[0], rs[0]) && recipes_of(
            table,
            tys.subrange(1, tys.len() as int),
            rs.subrange(1, rs.len() as int),
        )
    }
}

proof fn lemma_recipes_push(
    table: LeafTable,
    tys: Seq<FieldType>,
    rs: Seq<Recipe>,
    t: FieldType,
    r: Recipe,
)
    requires
        recipes_of(table, tys, rs),
        recipe_of(table, t, r),
    ensures
        recipes_of(table, tys.push(t), rs.push(r)),
    decreases tys.len(),
{
    assert(tys.push(t)[0] == if tys.len() > 0 { tys[0] } else { t });
    assert(rs.push(r)[0] == if rs.len() > 0 { rs[0] } else { r });
    if tys.len() > 0 {
        lemma_recipes_push(
            table,
            tys.subrange(1, tys.len() as int),
            rs.subrange(1, rs.len() as int),
            t,
            r,
        );
        assert(tys.push(t).subrange(1, tys.len() + 1int) =~= tys.subrange(1, tys.len() as int).push(
            t,
        ));
        assert(rs.push(r).subrange(1, rs.len() + 1int) =~= rs.subrange(1, rs.len() as int).push(r));
        assert(recipe_of(table, tys.push(t)[0], rs.push(r)[0]));
        assert(recipes_of(table, tys.push(t).subrange(1, tys.push(t).len() as int), rs.push(r).subrange(1, rs.push(r).len() as int)));
    } else {
        assert(tys.push(t).subrange(1, 1) =~= Seq::<FieldType>::empty());
        assert(rs.push(r).subrange(1, 1) =~= Seq::<Recipe>::empty());
        assert(recipes_of(table, tys.push(t).subrange(1, 1), rs.push(r).subrange(1, 1)));
    }
}

proof fn lemma_tys_error_split(table: LeafTable, schema: Schema, tys: Seq<FieldType>, i: int)
    requires
        0 <= i < tys.len(),
        forall|k: int| 0 <= k < i ==> ty_error(table, schema, #[trigger] tys[k]) is None,
    ensures
        tys_error(table, schema, tys) == tys_error(table, schema, tys.subrange(i, tys.len() as int)),
    decreases i,
{
    if i > 0 {
        let rest = tys.subrange(1, tys.len() as int);
        assert forall|k: int| 0 <= k < i - 1 implies ty_error(table, schema, #[trigger] rest[k]) is None by {
            assert(rest[k] == tys[k + 1]);
        }
        lemma_tys_error_split(table, schema, rest, i - 1);
        assert(rest.subrange(i - 1, rest.len() as int) =~= tys.subrange(i, tys.len() as int));
    } else {
        assert(tys.subrange(0, tys.len() as int) =~= tys);
    }
}

/// Compiles a field type into its recipe, or reports the first error in it.
pub fn ty_to_recipe(table: &LeafTable, schema: &Schema, ty: &FieldType) -> (r: Result<
    Recipe,
    SchemaError,
>)
    ensures
        match ty_error(*table, *schema, *ty) {
            Some(e) => r == Err::<Recipe, SchemaError>(e),
            None => r matches Ok(rec) && recipe_of(*table, *ty, rec),
        },
    decreases ty,
{
    match ty {
        FieldType::Leaf(name) => match table.lookup(name.as_str()) {
            Some(k) => Ok(Recipe::Leaf(k)),
            None => Err(SchemaError::UnknownLeaf(name.clone())),
        },
        FieldType::Optional(t) => match ty_to_recipe(table, schema, t) {
            Ok(inner) => Ok(Recipe::Present(Box::new(inner))),
            Err(e) => Err(e),
        },
        FieldType::Indirect(t) => match ty_to_recipe(table, schema, t) {
            Ok(inner) => Ok(Recipe::Boxed(Box::new(inner))),
            Err(e) => Err(e),
        },
        FieldType::Sequence(t) => match ty_to_recipe(table, schema, t) {
            Ok(_) => Ok(Recipe::Delegate),
            Err(e) => Err(e),
        },
        FieldType::Tuple(tys) => match tys_to_recipes(table, schema, tys) {
            Ok(rs) => Ok(Recipe::Tuple(rs)),
            Err(e) => Err(e),
        },
        FieldType::Node(name) => match schema.find_node(name) {
            Some(_) => Ok(Recipe::Delegate),
            None => Err(SchemaError::UnknownNode(name.clone())),
        },
        FieldType::Container(_) => Ok(Recipe::Delegate),
    }
}

/// Compiles each of `tys` into its recipe, in order, or reports the first
/// error among them.
pub fn tys_to_recipes(table: &LeafTable, schema: &Schema, tys: &Vec<FieldType>) -> (r: Result<
    Vec<Recipe>,
    SchemaError,
>)
    ensures
        match tys_error(*table, *schema, tys@) {
            Some(e) => r == Err::<Vec<Recipe>, SchemaError>(e),
            None => r matches Ok(rs) && recipes_of(*table, tys@, rs@),
        },
    decreases tys,
{
    let mut rs: Vec<Recipe> = Vec::new();
    let mut i: usize = 0;
    assert(tys@.subrange(0, 0) =~= Seq::<FieldType>::empty());
    while i < tys.len()
        invariant
            i <= tys@.len(),
            rs@.len() == i,
            forall|k: int| 0 <= k < i ==> ty_error(*table, *schema, #[trigger] tys@[k]) is None,
            recipes_of(*table, tys@.subrange(0, i as int), rs@),
        decreases tys@.len() - i,
    {
        proof {
            lemma_tys_error_split(*table, *schema, tys@, i as int);
            let rest = tys@.subrange(i as int, tys@.len() as int);
            assert(rest[0] == tys@[i as int]);
            assert(decreases_to!(*tys => (*tys)[i as int]));
        }
        match ty_to_recipe(table, schema, &tys[i]) {
            Ok(rec) => {
                proof {
                    lemma_recipes_push(*table, tys@.subrange(0, i as int), rs@, tys@[i as int], rec);
                    assert(tys@.subrange(0, i as int).push(tys@[i as int]) =~= tys@.subrange(0, i + 1));
                }
                rs.push(rec);
            },
            Err(e) => {
                proof {
                    let rest = tys@.subrange(i as int, tys@.len() as int);
                    assert(tys_error(*table, *schema, rest) == Some(e));
                }
                return Err(e);
            },
        }
        i = i + 1;
    }
    proof {
        assert(tys@.subrange(0, tys@.len() as int) =~= tys@);
        lemma_tys_error_none(*table, *schema, tys@);
    }
    Ok(rs)
}

proof fn lemma_tys_error_none(table: LeafTable, schema: Schema, tys: Seq<FieldType>)
    requires
        forall|k: int| 0 <= k < tys.len() ==> ty_error(table, schema, #[trigger] tys[k]) is None,
    ensures
        tys_error(table, schema, tys) is None,
    decreases tys.len(),
{
    if tys.len() > 0 {
        let rest = tys.subrange(1, tys.len() as int);
        assert forall|k: int| 0 <= k < rest.len() implies ty_error(table, schema, #[trigger] rest[k]) is None by {
            assert(rest[k] == tys[k + 1]);
        }
        lemma_tys_error_none(table, schema, rest);
    }
}

/// The first error that `f` reports over `s`, in order.
pub open spec fn first_error<A>(s: Seq<A>, f: spec_fn(A) -> Option<SchemaError>) -> Option<
    SchemaError,
>
    decreases s.len(),
{
    if s.len() == 0 {
        None
    } else {
        match f(s[0]) {
            Some(e) => Some(e),
            None => first_error(s.subrange(1, s.len() as int), f),
        }
    }
}

proof fn lemma_first_error_split<A>(s: Seq<A>, f: spec_fn(A) -> Option<SchemaError>, i: int)
    requires
        0 <= i <= s.len(),
        forall|k: int| 0 <= k < i ==> f(#[trigger] s[k]) is None,
    ensures
        first_error(s, f) == first_error(s.subrange(i, s.len() as int), f),
    decreases i,
{
    if i > 0 {
        let rest = s.subrange(1, s.len() as int);
        assert forall|k: int| 0 <= k < i - 1 implies f(#[trigger] rest[k]) is None by {
            assert(rest[k] == s[k + 1]);
        }
        lemma_first_error_split(rest, f, i - 1);
        assert(rest.subrange(i - 1, rest.len() as int) =~= s.subrange(i, s.len() as int));
    } else {
        assert(s.subrange(0, s.len() as int) =~= s);
    }
}

/// The error check of one variant: the first error among its fields.
pub open spec fn variant_check(table: LeafTable, schema: Schema) -> spec_fn(Variant) -> Option<
    SchemaError,
> {
    |v: Variant| tys_error(table, schema, v.fields@)
}

/// The error check of one struct field.
pub open spec fn field_check(table: LeafTable, schema: Schema) -> spec_fn(Field) -> Option<
    SchemaError,
> {
    |f: Field| ty_error(table, schema, f.ty)
}

/// The first error met in `node`: an enum without variants, then the first
/// error among its variants or fields, in order.
pub open spec fn node_error(table: LeafTable, schema: Schema, node: TypeNode) -> Option<
    SchemaError,
> {
    match node.shape {
        NodeShape::Enum(vs) => if vs@.len() == 0 {
            Some(SchemaError::ZeroVariants(node.ident))
        } else {
            first_error(vs@, variant_check(table, schema))
        },
        NodeShape::Struct(fs) => first_error(fs@, field_check(table, schema)),
        NodeShape::Opaque => None,
    }
}

/// The error check of one node.
pub open spec fn node_check(table: LeafTable, schema: Schema) -> spec_fn(TypeNode) -> Option<
    SchemaError,
> {
    |n: TypeNode| node_error(table, schema, n)
}

/// The first error met in the schema, node by node in order.
pub open spec fn schema_error(table: LeafTable, schema: Schema) -> Option<SchemaError> {
    first_error(schema.nodes@, node_check(table, schema))
}

/// `a` builds variant `v`: same name, a recipe for each field.
pub open spec fn arm_of(table: LeafTable, v: Variant, a: Arm) -> bool {
    a.name@ == v.name@ && recipes_of(table, v.fields@, a.fields@)
}

/// `fr` builds field `f`: same name, a recipe for its type.
pub open spec fn field_recipe_of(table: LeafTable, f: Field, fr: FieldRecipe) -> bool {
    fr.name@ == f.name@ && recipe_of(table, f.ty, fr.recipe)
}

/// `b` builds values of a node of shape `shape`: an enum selects among as
/// many arms as it has variants, in variant order; a struct builds its
/// fields in declaration order.
pub open spec fn body_of(table: LeafTable, shape: NodeShape, b: Body) -> bool {
    match shape {
        NodeShape::Enum(vs) => match b {
            Body::Enum { count, arms } => count == vs@.len() && arms@.len() == vs@.len()
                && forall|i: int| 0 <= i < vs@.len() ==> arm_of(table, #[trigger] vs@[i], arms@[i]),
            _ => false,
        },
        NodeShape::Struct(fs) => match b {
            Body::Struct(frs) => frs@.len() == fs@.len() && forall|i: int|
                0 <= i < fs@.len() ==> field_recipe_of(table, #[trigger] fs@[i], frs@[i]),
            _ => false,
        },
        NodeShape::Opaque => false,
    }
}

/// `p` is the generator of `node`.
pub open spec fn procedure_of(table: LeafTable, node: TypeNode, p: Procedure) -> bool {
    p.ident@ == node.ident@ && p.features@ == node.features@ && body_of(table, node.shape, p.body)
}

/// The nodes that get a generator: every node but the opaque ones, in order.
pub open spec fn generated_nodes(nodes: Seq<TypeNode>) -> Seq<TypeNode>
    decreases nodes.len(),
{
    if nodes.len() == 0 {
        Seq::empty()
    } else {
        let rest = generated_nodes(nodes.drop_last());
        if nodes.last().shape is Opaque {
            rest
        } else {
            rest.push(nodes.last())
        }
    }
}

fn clone_strings(v: &Vec<String>) -> (r: Vec<String>)
    ensures
        r@ == v@,
{
    let mut r: Vec<String> = Vec::new();
    let mut i: usize = 0;
    while i < v.len()
        invariant
            i <= v@.len(),
            r@ == v@.subrange(0, i as int),
        decreases v@.len() - i,
    {
        r.push(v[i].clone());
        i = i + 1;
        assert(r@ =~= v@.subrange(0, i as int));
    }
    assert(v@.subrange(0, v@.len() as int) =~= v@);
    r
}

/// Compiles the body of a node that is not opaque, or reports the first
/// error in it.
pub fn expand_impl_body(table: &LeafTable, schema: &Schema, node: &TypeNode) -> (r: Result<
    Body,
    SchemaError,
>)
    requires
        !(node.shape is Opaque),
    ensures
        match node_error(*table, *schema, *node) {
            Some(e) => r == Err::<Body, SchemaError>(e),
            None => r matches Ok(b) && body_of(*table, node.shape, b),
        },
{
    match &node.shape {
        NodeShape::Enum(variants) => {
            if variants.len() == 0 {
                return Err(SchemaError::ZeroVariants(node.ident.clone()));
            }
            let ghost f = variant_check(*table, *schema);
            let mut arms: Vec<Arm> = Vec::new();
            let mut i: usize = 0;
            while i < variants.len()
                invariant
                    node.shape == NodeShape::Enum(*variants),
                    variants@.len() > 0,
                    f == variant_check(*table, *schema),
                    i <= variants@.len(),
                    arms@.len() == i,
                    forall|k: int| 0 <= k < i ==> f(#[trigger] variants@[k]) is None,
                    forall|k: int| 0 <= k < i ==> arm_of(*table, #[trigger] variants@[k], arms@[k]),
                decreases variants@.len() - i,
            {
                proof {
                    lemma_first_error_split(variants@, f, i as int);
                }
                let v = &variants[i];
                match tys_to_recipes(table, schema, &v.fields) {
                    Ok(fields) => {
                        arms.push(Arm { name: v.name.clone(), fields });
                    },
                    Err(e) => {
                        return Err(e);
                    },
                }
                i = i + 1;
            }
            proof {
                lemma_first_error_split(variants@, f, i as int);
            }
            Ok(Body::Enum { count: variants.len() as u64, arms })
        },
        NodeShape::Struct(fields) => {
            let ghost f = field_check(*table, *schema);
            let mut frs: Vec<FieldRecipe> = Vec::new();
            let mut i: usize = 0;
            while i < fields.len()
                invariant
                    node.shape == NodeShape::Struct(*fields),
                    f == field_check(*table, *schema),
                    i <= fields@.len(),
                    frs@.len() == i,
                    forall|k: int| 0 <= k < i ==> f(#[trigger] fields@[k]) is None,
                    forall|k: int|
                        0 <= k < i ==> field_recipe_of(*table, #[trigger] fields@[k], frs@[k]),
                decreases fields@.len() - i,
            {
                proof {
                    lemma_first_error_split(fields@, f, i as int);
                }
                let fld = &fields[i];
                match ty_to_recipe(table, schema, &fld.ty) {
                    Ok(recipe) => {
                        frs.push(FieldRecipe { name: fld.name.clone(), recipe });
                    },
                    Err(e) => {
                        return Err(e);
                    },
                }
                i = i + 1;
            }
            proof {
                lemma_first_error_split(fields@, f, i as int);
            }
            Ok(Body::Struct(frs))
        },
        NodeShape::Opaque => vstd::pervasive::unreached(),
    }
}

/// Compiles the generator of one node: none for an opaque node, else its
/// procedure, or the first error in it.
pub fn expand_impl(table: &LeafTable, schema: &Schema, node: &TypeNode) -> (r: Result<
    Option<Procedure>,
    SchemaError,
>)
    ensures
        match node_error(*table, *schema, *node) {
            Some(e) => r == Err::<Option<Procedure>, SchemaError>(e),
            None => r matches Ok(op) && (node.shape is Opaque <==> op is None) && (op matches Some(
                p,
            ) ==> procedure_of(*table, *node, p)),
        },
{
    if let NodeShape::Opaque = &node.shape {
        return Ok(None);
    }
    match expand_impl_body(table, schema, node) {
        Ok(body) => Ok(Some(Procedure { ident: node.ident.clone(), features: clone_strings(&node.features), body })),
        Err(e) => Err(e),
    }
}

/// Compiles every node of the schema: one procedure per node that is not
/// opaque, in schema order, or the first error met, node by node. Nothing is
/// returned in part.
pub fn generate(table: &LeafTable, schema: &Schema) -> (r: Result<Vec<Procedure>, SchemaError>)
    ensures
        match schema_error(*table, *schema) {
            Some(e) => r == Err::<Vec<Procedure>, SchemaError>(e),
            None => r matches Ok(ps) && ps@.len() == generated_nodes(schema.nodes@).len()
                && forall|k: int|
                0 <= k < ps@.len() ==> procedure_of(
                    *table,
                    #[trigger] generated_nodes(schema.nodes@)[k],
                    ps@[k],
                ),
        },
{
    let ghost f = node_check(*table, *schema);
    let ghost nodes = schema.nodes@;
    let mut ps: Vec<Procedure> = Vec::new();
    let mut i: usize = 0;
    assert(nodes.subrange(0, 0) =~= Seq::<TypeNode>::empty());
    while i < schema.nodes.len()
        invariant
            nodes == schema.nodes@,
            f == node_check(*table, *schema),
            i <= nodes.len(),
            forall|k: int| 0 <= k < i ==> f(#[trigger] nodes[k]) is None,
            ps@.len() == generated_nodes(nodes.subrange(0, i as int)).len(),
            forall|k: int|
                0 <= k < ps@.len() ==> procedure_of(
                    *table,
                    #[trigger] generated_nodes(nodes.subrange(0, i as int))[k],
                    ps@[k],
                ),
        decreases nodes.len() - i,
    {
        proof {
            lemma_first_error_split(nodes, f, i as int);
        }
        let ghost prev = generated_nodes(nodes.subrange(0, i as int));
        proof {
            let next = nodes.subrange(0, i + 1);
            assert(next.drop_last() =~= nodes.subrange(0, i as int));
            assert(next.last() == nodes[i as int]);
        }
        match expand_impl(table, schema, &schema.nodes[i]) {
            Ok(Some(p)) => {
                ps.push(p);
            },
            Ok(None) => {},
            Err(e) => {
                return Err(e);
            },
        }
        i = i + 1;
        proof {
            let cur = generated_nodes(nodes.subrange(0, i as int));
            assert forall|k: int| 0 <= k < ps@.len() implies procedure_of(
                *table,
                #[trigger] cur[k],
                ps@[k],
            ) by {
                if k < prev.len() {
                    assert(cur[k] == prev[k]);
                }
            }
        }
    }
    proof {
        lemma_first_error_split(nodes, f, i as int);
        assert(nodes.subrange(0, nodes.len() as int) =~= nodes);
    }
    Ok(ps)
}

} // verus!
