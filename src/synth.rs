use vstd::prelude::*;
use crate::classify::{spec_lookup, LeafKind, LeafTable};
use crate::schema::{Field, FieldType, NodeShape, Schema};
use crate::select::{select, spec_select};
use crate::source::{le_u32, ByteSource, GenError};

verus! {

broadcast use vstd::std_specs::vec::group_vec_axioms;

/// A generated value.
#[derive(Debug, PartialEq, Eq)]
pub enum Value {
    Span,
    Ident(Vec<u8>),
    TokenStream,
    Literal(Vec<u8>),
    Present(Box<Value>),
    Boxed(Box<Value>),
    Tuple(Vec<Value>),
    /// The index of the selected variant and its field values.
    Variant(u64, Vec<Value>),
    /// Field values in declaration order.
    Struct(Vec<Value>),
}

/// The mathematical form of a generated value.
pub enum Val {
    Span,
    Ident(Seq<u8>),
    TokenStream,
    Literal(Seq<u8>),
    Present(Box<Val>),
    Boxed(Box<Val>),
    Tuple(Seq<Val>),
    Variant(int, Seq<Val>),
    Struct(Seq<Val>),
}

impl Value {
    /// The mathematical form of this value.
    pub open spec fn model(&self) -> Val
        decreases *self,
    {
        match *self {
            Value::Span => Val::Span,
            Value::Ident(b) => Val::Ident(b@),
            Value::TokenStream => Val::TokenStream,
            Value::Literal(b) => Val::Literal(b@),
            Value::Present(v) => Val::Present(Box::new((*v).model())),
            Value::Boxed(v) => Val::Boxed(Box::new((*v).model())),
            Value::Tuple(vs) => Val::Tuple(models(vs@)),
            Value::Variant(i, vs) => Val::Variant(i as int, models(vs@)),
            Value::Struct(vs) => Val::Struct(models(vs@)),
        }
    }
}

/// The mathematical forms of `vs`, in order.
pub open spec fn models(vs: Seq<Value>) -> Seq<Val>
    decreases vs,
{
    if vs.len() == 0 {
        Seq::empty()
    } else {
        seq![vs[0].model()] + models(vs.subrange(1, vs.len() as int))
    }
}

/// A text leaf: one length byte `n`, then `n` bytes of text.
pub open spec fn gen_text(data: Seq<u8>, pos: nat) -> Result<(Seq<u8>, nat), GenError> {
    if pos + 1 > data.len() {
        Err(GenError::Exhausted)
    } else if pos + 1 + data[pos as int] > data.len() {
        Err(GenError::Exhausted)
    } else {
        let end = (pos + 1 + data[pos as int]) as nat;
        Ok((data.subrange(pos + 1int, end as int), end))
    }
}

/// A leaf of kind `k` read from `data` at `pos`, with the position after it.
pub open spec fn gen_leaf(k: LeafKind, data: Seq<u8>, pos: nat) -> Result<(Val, nat), GenError> {
    match k {
        LeafKind::Span => Ok((Val::Span, pos)),
        LeafKind::TokenStream => Ok((Val::TokenStream, pos)),
        LeafKind::Ident => match gen_text(data, pos) {
            Ok((t, p)) => Ok((Val::Ident(t), p)),
            Err(e) => Err(e),
        },
        LeafKind::Literal => match gen_text(data, pos) {
            Ok((t, p)) => Ok((Val::Literal(t), p)),
            Err(e) => Err(e),
        },
    }
}

/// The position of the first node called `name`.
pub open spec fn first_node(schema: Schema, name: Seq<char>) -> int {
    choose|i: int|
        0 <= i < schema.nodes@.len() && schema.nodes@[i].ident@ == name && forall|k: int|
            0 <= k < i ==> #[trigger] schema.nodes@[k].ident@ != name
}

/// The types of `fs`, in declaration order.
pub open spec fn field_types(fs: Seq<Field>) -> Seq<FieldType> {
    fs.map_values(|f: Field| f.ty)
}

/// The value of type `ty` generated from `data` at `pos`, with the position
/// after it. `depth` bounds how many node references may nest.
pub open spec fn gen_ty(
    table: LeafTable,
    schema: Schema,
    data: Seq<u8>,
    ty: FieldType,
    pos: nat,
    depth: nat,
) -> Result<(Val, nat), GenError>
    decreases depth, ty,
{
    match ty {
        FieldType::Leaf(name) => match spec_lookup(table.rules@, name@) {
            Some(k) => gen_leaf(k, data, pos),
            None => Err(GenError::Unresolved),
        },
        FieldType::Optional(t) => match gen_ty(table, schema, data, *t, pos, depth) {
            Ok((v, p)) => Ok((Val::Present(Box::new(v)), p)),
            Err(e) => Err(e),
        },
        FieldType::Indirect(t) => match gen_ty(table, schema, data, *t, pos, depth) {
            Ok((v, p)) => Ok((Val::Boxed(Box::new(v)), p)),
            Err(e) => Err(e),
        },
        FieldType::Tuple(v) => match gen_tys(table, schema, data, v@, pos, depth) {
            Ok((vs, p)) => Ok((Val::Tuple(vs), p)),
            Err(e) => Err(e),
        },
        FieldType::Node(name) => if depth == 0 {
            Err(GenError::DepthLimit)
        } else if !schema.has_node(name@) {
            Err(GenError::Unresolved)
        } else {
            match schema.nodes@[first_node(schema, name@)].shape {
                NodeShape::Struct(fs) => match gen_tys(
                    table,
                    schema,
                    data,
                    field_types(fs@),
                    pos,
                    (depth - 1) as nat,
                ) {
                    Ok((vs, p)) => Ok((Val::Struct(vs), p)),
                    Err(e) => Err(e),
                },
                NodeShape::Enum(variants) => if variants@.len() == 0 {
                    Err(GenError::Unresolved)
                } else if pos + 4 > data.len() {
                    Err(GenError::Exhausted)
                } else {
                    let idx = spec_select(le_u32(data, pos as int), variants@.len() as int);
                    match gen_tys(
                        table,
                        schema,
                        data,
                        variants@[idx].fields@,
                        pos + 4,
                        (depth - 1) as nat,
                    ) {
                        Ok((vs, p)) => Ok((Val::Variant(idx, vs), p)),
                        Err(e) => Err(e),
                    }
                },
                NodeShape::Opaque => Err(GenError::NoGenerator),
            }
        },
        FieldType::Sequence(_) => Err(GenError::NoGenerator),
        FieldType::Container(_) => Err(GenError::NoGenerator),
    }
}

/// The values of `tys`, generated one after the other from `pos`.
pub open spec fn gen_tys(
    table: LeafTable,
    schema: Schema,
    data: Seq<u8>,
    tys: Seq<FieldType>,
    pos: nat,
    depth: nat,
) -> Result<(Seq<Val>, nat), GenError>
    decreases depth, tys,
{
    if tys.len() == 0 {
        Ok((Seq::empty(), pos))
    } else {
        match gen_ty(table, schema, data, tys[0], pos, depth) {
            Ok((v, p)) => match gen_tys(
                table,
                schema,
                data,
                tys.subrange(1, tys.len() as int),
                p,
                depth,
            ) {
                Ok((vs, q)) => Ok((seq![v] + vs, q)),
                Err(e) => Err(e),
            },
            Err(e) => Err(e),
        }
    }
}

/// Puts `pre` in front of the values of a successful result.
pub open spec fn prepend(pre: Seq<Val>, r: Result<(Seq<Val>, nat), GenError>) -> Result<
    (Seq<Val>, nat),
    GenError,
> {
    match r {
        Ok((vs, p)) => Ok((pre + vs, p)),
        Err(e) => Err(e),
    }
}

proof fn lemma_models_push(vs: Seq<Value>, v: Value)
    ensures
        models(vs.push(v)) == models(vs).push(v.model()),
    decreases vs.len(),
{
    if vs.len() == 0 {
        assert(vs.push(v).subrange(1, 1) =~= Seq::<Value>::empty());
        assert(vs.push(v)[0] == v);
        assert(models(Seq::<Value>::empty()) == Seq::<Val>::empty());
        assert(models(vs) == Seq::<Val>::empty());
        assert(models(vs.push(v)) =~= models(vs).push(v.model()));
    } else {
        let rest = vs.subrange(1, vs.len() as int);
        lemma_models_push(rest, v);
        assert(vs.push(v).subrange(1, vs.len() + 1int) =~= rest.push(v));
        assert(vs.push(v)[0] == vs[0]);
        assert(models(vs.push(v)) == seq![vs[0].model()] + models(rest.push(v)));
        assert(models(vs) == seq![vs[0].model()] + models(rest));
        assert(models(vs.push(v)) =~= models(vs).push(v.model()));
    }
}

proof fn lemma_first_node(schema: Schema, name: Seq<char>, i: int)
    requires
        0 <= i < schema.nodes@.len(),
        schema.nodes@[i].ident@ == name,
        forall|k: int| 0 <= k < i ==> #[trigger] schema.nodes@[k].ident@ != name,
    ensures
        first_node(schema, name) == i,
{
    let j = first_node(schema, name);
    assert(schema.nodes@[j].ident@ == name && forall|k: int|
        0 <= k < j ==> #[trigger] schema.nodes@[k].ident@ != name);
    if j < i {
        assert(schema.nodes@[j].ident@ != name);
    }
    if i < j {
        assert(schema.nodes@[i].ident@ != name);
    }
}

fn synth_text(src: &mut ByteSource) -> (r: Result<Vec<u8>, GenError>)
    requires
        old(src).wf(),
    ensures
        final(src).wf(),
        final(src).data@ == old(src).data@,
        match gen_text(old(src).data@, old(src).pos as nat) {
            Ok((t, p)) => r matches Ok(b) && b@ == t && final(src).pos == p,
            Err(e) => r == Err::<Vec<u8>, GenError>(e),
        },
{
    match src.draw_byte() {
        Ok(n) => src.draw(n as usize),
        Err(e) => Err(e),
    }
}

fn synth_leaf(k: LeafKind, src: &mut ByteSource) -> (r: Result<Value, GenError>)
    requires
        old(src).wf(),
    ensures
        final(src).wf(),
        final(src).data@ == old(src).data@,
        match gen_leaf(k, old(src).data@, old(src).pos as nat) {
            Ok((m, p)) => r matches Ok(v) && v.model() == m && final(src).pos == p,
            Err(e) => r == Err::<Value, GenError>(e),
        },
{
    match k {
        LeafKind::Span => Ok(Value::Span),
        LeafKind::TokenStream => Ok(Value::TokenStream),
        LeafKind::Ident => match synth_text(src) {
            Ok(b) => Ok(Value::Ident(b)),
            Err(e) => Err(e),
        },
        LeafKind::Literal => match synth_text(src) {
            Ok(b) => Ok(Value::Literal(b)),
            Err(e) => Err(e),
        },
    }
}

/// Generates a value of type `ty` from the bytes of `src`, consuming them
/// front to back; `depth` bounds how many node references may nest. The
/// result is exactly `gen_ty` of the bytes not yet drawn.
pub fn synth_ty(
    table: &LeafTable,
    schema: &Schema,
    ty: &FieldType,
    src: &mut ByteSource,
    depth: u64,
) -> (r: Result<Value, GenError>)
    requires
        old(src).wf(),
    ensures
        final(src).wf(),
        final(src).data@ == old(src).data@,
        match gen_ty(*table, *schema, old(src).data@, *ty, old(src).pos as nat, depth as nat) {
            Ok((m, p)) => r matches Ok(v) && v.model() == m && final(src).pos == p,
            Err(e) => r == Err::<Value, GenError>(e),
        },
    decreases depth, 1int, ty,
{
    match ty {
        FieldType::Leaf(name) => match table.lookup(name.as_str()) {
            Some(k) => synth_leaf(k, src),
            None => Err(GenError::Unresolved),
        },
        FieldType::Optional(t) => match synth_ty(table, schema, t, src, depth) {
            Ok(v) => Ok(Value::Present(Box::new(v))),
            Err(e) => Err(e),
        },
        FieldType::Indirect(t) => match synth_ty(table, schema, t, src, depth) {
            Ok(v) => Ok(Value::Boxed(Box::new(v))),
            Err(e) => Err(e),
        },
        FieldType::Tuple(tys) => match synth_tys(table, schema, tys, src, depth) {
            Ok(vs) => Ok(Value::Tuple(vs)),
            Err(e) => Err(e),
        },
        FieldType::Node(name) => {
            if depth == 0 {
                return Err(GenError::DepthLimit);
            }
            match schema.find_node(name) {
                None => Err(GenError::Unresolved),
                Some(i) => {
                    proof {
                        lemma_first_node(*schema, name@, i as int);
                    }
                    match &schema.nodes[i].shape {
                        NodeShape::Struct(fs) => match synth_fields(
                            table,
                            schema,
                            fs,
                            src,
                            depth,
                        ) {
                            Ok(vs) => Ok(Value::Struct(vs)),
                            Err(e) => Err(e),
                        },
                        NodeShape::Enum(variants) => {
                            if variants.len() == 0 {
                                return Err(GenError::Unresolved);
                            }
                            match src.draw_u32() {
                                Ok(x) => {
                                    let idx = select(x, variants.len() as u64);
                                    match synth_tys(
                                        table,
                                        schema,
                                        &variants[idx as usize].fields,
                                        src,
                                        depth - 1,
                                    ) {
                                        Ok(vs) => Ok(Value::Variant(idx, vs)),
                                        Err(e) => Err(e),
                                    }
                                },
                                Err(e) => Err(e),
                            }
                        },
                        NodeShape::Opaque => Err(GenError::NoGenerator),
                    }
                },
            }
        },
        FieldType::Sequence(_) => Err(GenError::NoGenerator),
        FieldType::Container(_) => Err(GenError::NoGenerator),
    }
}

/// Generates the values of `tys` one after the other.
fn synth_tys(
    table: &LeafTable,
    schema: &Schema,
    tys: &Vec<FieldType>,
    src: &mut ByteSource,
    depth: u64,
) -> (r: Result<Vec<Value>, GenError>)
    requires
        old(src).wf(),
    ensures
        final(src).wf(),
        final(src).data@ == old(src).data@,
        match gen_tys(*table, *schema, old(src).data@, tys@, old(src).pos as nat, depth as nat) {
            Ok((m, p)) => r matches Ok(vs) && models(vs@) == m && final(src).pos == p,
            Err(e) => r == Err::<Vec<Value>, GenError>(e),
        },
    decreases depth, 1int, tys,
{
    let ghost data = src.data@;
    let ghost whole = gen_tys(*table, *schema, data, tys@, src.pos as nat, depth as nat);
    let mut out: Vec<Value> = Vec::new();
    let mut i: usize = 0;
    assert(tys@.subrange(0, tys@.len() as int) =~= tys@);
    assert(models(out@) + Seq::<Val>::empty() =~= Seq::<Val>::empty());
    while i < tys.len()
        invariant
            data == old(src).data@,
            src.wf(),
            src.data@ == data,
            i <= tys@.len(),
            whole == gen_tys(*table, *schema, data, tys@, old(src).pos as nat, depth as nat),
            whole == prepend(
                models(out@),
                gen_tys(
                    *table,
                    *schema,
                    data,
                    tys@.subrange(i as int, tys@.len() as int),
                    src.pos as nat,
                    depth as nat,
                ),
            ),
        decreases tys@.len() - i,
    {
        let ghost sub = tys@.subrange(i as int, tys@.len() as int);
        proof {
            assert(sub[0] == tys@[i as int]);
            assert(sub.subrange(1, sub.len() as int) =~= tys@.subrange(i + 1, tys@.len() as int));
            assert(decreases_to!(*tys => (*tys)[i as int]));
        }
        match synth_ty(table, schema, &tys[i], src, depth) {
            Ok(v) => {
                proof {
                    lemma_models_push(out@, v);
                    let rest = gen_tys(
                        *table,
                        *schema,
                        data,
                        tys@.subrange(i + 1, tys@.len() as int),
                        src.pos as nat,
                        depth as nat,
                    );
                    if let Ok((vs, q)) = rest {
                        assert(models(out@) + (seq![v.model()] + vs) =~= models(out@).push(
                            v.model(),
                        ) + vs);
                    }
                }
                out.push(v);
            },
            Err(e) => {
                return Err(e);
            },
        }
        i = i + 1;
    }
    proof {
        assert(models(out@) + Seq::<Val>::empty() =~= models(out@));
    }
    Ok(out)
}

/// Generates the values of the fields `fs` in declaration order, one level
/// of nesting below `depth`.
fn synth_fields(
    table: &LeafTable,
    schema: &Schema,
    fs: &Vec<Field>,
    src: &mut ByteSource,
    depth: u64,
) -> (r: Result<Vec<Value>, GenError>)
    requires
        old(src).wf(),
        depth > 0,
    ensures
        final(src).wf(),
        final(src).data@ == old(src).data@,
        match gen_tys(
            *table,
            *schema,
            old(src).data@,
            field_types(fs@),
            old(src).pos as nat,
            (depth - 1) as nat,
        ) {
            Ok((m, p)) => r matches Ok(vs) && models(vs@) == m && final(src).pos == p,
            Err(e) => r == Err::<Vec<Value>, GenError>(e),
        },
    decreases depth, 0int, fs,
{
    let ghost data = src.data@;
    let ghost tys = field_types(fs@);
    let ghost whole = gen_tys(*table, *schema, data, tys, src.pos as nat, (depth - 1) as nat);
    let mut out: Vec<Value> = Vec::new();
    let mut i: usize = 0;
    assert(tys.subrange(0, tys.len() as int) =~= tys);
    assert(models(out@) + Seq::<Val>::empty() =~= Seq::<Val>::empty());
    while i < fs.len()
        invariant
            tys == field_types(fs@),
            data == old(src).data@,
            src.wf(),
            src.data@ == data,
            i <= fs@.len(),
            depth > 0,
            whole == gen_tys(*table, *schema, data, tys, old(src).pos as nat, (depth - 1) as nat),
            whole == prepend(
                models(out@),
                gen_tys(
                    *table,
                    *schema,
                    data,
                    tys.subrange(i as int, tys.len() as int),
                    src.pos as nat,
                    (depth - 1) as nat,
                ),
            ),
        decreases fs@.len() - i,
    {
        let ghost sub = tys.subrange(i as int, tys.len() as int);
        proof {
            assert(sub[0] == fs@[i as int].ty);
            assert(sub.subrange(1, sub.len() as int) =~= tys.subrange(i + 1, tys.len() as int));
        }
        match synth_ty(table, schema, &fs[i].ty, src, depth - 1) {
            Ok(v) => {
                proof {
                    lemma_models_push(out@, v);
                    let rest = gen_tys(
                        *table,
                        *schema,
                        data,
                        tys.subrange(i + 1, tys.len() as int),
                        src.pos as nat,
                        (depth - 1) as nat,
                    );
                    if let Ok((vs, q)) = rest {
                        assert(models(out@) + (seq![v.model()] + vs) =~= models(out@).push(
                            v.model(),
                        ) + vs);
                    }
                }
                out.push(v);
            },
            Err(e) => {
                return Err(e);
            },
        }
        i = i + 1;
    }
    proof {
        assert(models(out@) + Seq::<Val>::empty() =~= models(out@));
    }
    Ok(out)
}

/// Generates a value of the node called `name` from the bytes of `src`;
/// `depth` bounds how many node references may nest, this one included.
pub fn synthesize(
    table: &LeafTable,
    schema: &Schema,
    name: &String,
    src: &mut ByteSource,
    depth: u64,
) -> (r: Result<Value, GenError>)
    requires
        old(src).wf(),
    ensures
        final(src).wf(),
        final(src).data@ == old(src).data@,
        match gen_ty(
            *table,
            *schema,
            old(src).data@,
            FieldType::Node(*name),
            old(src).pos as nat,
            depth as nat,
        ) {
            Ok((m, p)) => r matches Ok(v) && v.model() == m && final(src).pos == p,
            Err(e) => r == Err::<Value, GenError>(e),
        },
{
    let ty = FieldType::Node(name.clone());
    synth_ty(table, schema, &ty, src, depth)
}

/// What a source cut to its first `k` bytes yields, next to the full source:
/// the same value where the value ends by `k`, else `Exhausted`.
pub open spec fn cut_agrees<A>(full: Result<(A, nat), GenError>, cut: Result<(A, nat), GenError>, pos: nat, len: nat, k: nat) -> bool {
    match full {
        Ok((v, p)) => pos <= p <= len && (p <= k ==> cut == full) && (k < p ==> cut == Err::<
            (A, nat),
            GenError,
        >(GenError::Exhausted)),
        Err(_) => true,
    }
}

proof fn lemma_cut_text(data: Seq<u8>, pos: nat, k: nat)
    requires
        pos <= k <= data.len(),
    ensures
        cut_agrees(gen_text(data, pos), gen_text(data.subrange(0, k as int), pos), pos, data.len(), k),
{
    let cut = data.subrange(0, k as int);
    if pos + 1 <= k {
        assert(cut[pos as int] == data[pos as int]);
        let end = pos + 1 + data[pos as int];
        if end <= k {
            assert(cut.subrange(pos + 1int, end) =~= data.subrange(pos + 1int, end));
        }
    }
}

proof fn lemma_cut_ty(
    table: LeafTable,
    schema: Schema,
    data: Seq<u8>,
    ty: FieldType,
    pos: nat,
    depth: nat,
    k: nat,
)
    requires
        pos <= k <= data.len(),
    ensures
        cut_agrees(
            gen_ty(table, schema, data, ty, pos, depth),
            gen_ty(table, schema, data.subrange(0, k as int), ty, pos, depth),
            pos,
            data.len(),
            k,
        ),
    decreases depth, ty,
{
    let cut = data.subrange(0, k as int);
    match ty {
        FieldType::Leaf(name) => {
            lemma_cut_text(data, pos, k);
        },
        FieldType::Optional(t) => {
            lemma_cut_ty(table, schema, data, *t, pos, depth, k);
        },
        FieldType::Indirect(t) => {
            lemma_cut_ty(table, schema, data, *t, pos, depth, k);
        },
        FieldType::Tuple(v) => {
            lemma_cut_tys(table, schema, data, v@, pos, depth, k);
        },
        FieldType::Node(name) => {
            if depth > 0 && schema.has_node(name@) {
                match schema.nodes@[first_node(schema, name@)].shape {
                    NodeShape::Struct(fs) => {
                        lemma_cut_tys(table, schema, data, field_types(fs@), pos, (depth - 1) as nat, k);
                    },
                    NodeShape::Enum(variants) => {
                        if variants@.len() > 0 && pos + 4 <= data.len() {
                            let idx = spec_select(le_u32(data, pos as int), variants@.len() as int);
                            lemma_cut_tys(
                                table,
                                schema,
                                data,
                                variants@[idx].fields@,
                                pos + 4,
                                (depth - 1) as nat,
                                if pos + 4 <= k { k } else { pos + 4 },
                            );
                            if pos + 4 <= k {
                                assert(le_u32(cut, pos as int) == le_u32(data, pos as int));
                                lemma_cut_tys(
                                    table,
                                    schema,
                                    data,
                                    variants@[idx].fields@,
                                    pos + 4,
                                    (depth - 1) as nat,
                                    k,
                                );
                            }
                        }
                    },
                    NodeShape::Opaque => {},
                }
            }
        },
        _ => {},
    }
}

proof fn lemma_cut_tys(
    table: LeafTable,
    schema: Schema,
    data: Seq<u8>,
    tys: Seq<FieldType>,
    pos: nat,
    depth: nat,
    k: nat,
)
    requires
        pos <= k <= data.len(),
    ensures
        cut_agrees(
            gen_tys(table, schema, data, tys, pos, depth),
            gen_tys(table, schema, data.subrange(0, k as int), tys, pos, depth),
            pos,
            data.len(),
            k,
        ),
    decreases depth, tys,
{
    if tys.len() > 0 {
        lemma_cut_ty(table, schema, data, tys[0], pos, depth, k);
        if let Ok((v, p)) = gen_ty(table, schema, data, tys[0], pos, depth) {
            let rest = tys.subrange(1, tys.len() as int);
            if p <= k {
                lemma_cut_tys(table, schema, data, rest, p, depth, k);
            } else {
                lemma_cut_tys(table, schema, data, rest, p, depth, p);
            }
        }
    }
}

/// Generation never pads: when a value of `ty` needs the bytes of `data`
/// from `pos` (a position within `data`) up to `p`, a source cut to its
/// first `k` bytes, with `pos <= k < p`, fails with `Exhausted`.
pub proof fn lemma_exhaustion(
    table: LeafTable,
    schema: Schema,
    data: Seq<u8>,
    ty: FieldType,
    pos: nat,
    depth: nat,
    k: nat,
)
    requires
        pos <= data.len(),
        gen_ty(table, schema, data, ty, pos, depth) matches Ok((v, p)) && pos <= k < p,
    ensures
        gen_ty(table, schema, data.subrange(0, k as int), ty, pos, depth) == Err::<
            (Val, nat),
            GenError,
        >(GenError::Exhausted),
{
    lemma_cut_ty(table, schema, data, ty, pos, depth, data.len());
    lemma_cut_ty(table, schema, data, ty, pos, depth, k);
}

/// Generation is deterministic: byte-identical streams read from the same
/// position against the same schema give the same value and stop at the
/// same place.
pub proof fn lemma_deterministic(
    table: LeafTable,
    schema: Schema,
    ty: FieldType,
    a: ByteSource,
    b: ByteSource,
    depth: nat,
)
    requires
        a.data@ == b.data@,
        a.pos == b.pos,
    ensures
        gen_ty(table, schema, a.data@, ty, a.pos as nat, depth) == gen_ty(
            table,
            schema,
            b.data@,
            ty,
            b.pos as nat,
            depth,
        ),
{
}

} // verus!
