use vstd::prelude::*;
use crate::schema::FieldType;

verus! {

/// The categories of outside leaves whose construction is a hand-written rule.
#[derive(Clone, Copy, Debug, PartialEq, Eq, Structural)]
pub enum LeafKind {
    /// A source-position marker; built without input.
    Span,
    /// An identifier token; built from input text.
    Ident,
    /// A lexical token stream; built empty.
    TokenStream,
    /// A literal token; built as a string literal from input text.
    Literal,
}

/// A leaf rule: a leaf whose name holds `pattern` is built as `kind`.
#[derive(Debug, PartialEq, Eq)]
pub struct LeafRule {
    pub pattern: String,
    pub kind: LeafKind,
}

/// An ordered table of leaf rules; the first rule that matches wins.
#[derive(Debug, PartialEq, Eq)]
pub struct LeafTable {
    pub rules: Vec<LeafRule>,
}

/// How a field type is constructed.
#[derive(Clone, Copy, Debug, PartialEq, Eq, Structural)]
pub enum Strategy {
    /// By the rule of a leaf category.
    Leaf(LeafKind),
    /// As a present value of the wrapped type.
    Optional,
    /// As an owned indirection to a value of the wrapped type.
    Indirect,
    /// Element by element, in order.
    Tuple,
    /// By the generator of the type itself.
    Delegate,
}

/// `p` occurs in `s` as a contiguous run.
pub open spec fn has_substring(s: Seq<char>, p: Seq<char>) -> bool {
    exists|i: int| 0 <= i && i + p.len() <= s.len() && #[trigger] s.subrange(i, i + p.len()) == p
}

/// Relies on `str::contains` with a `&str` pattern: true exactly when the
/// pattern occurs in the string as a contiguous run.
#[verifier::external_body]
fn str_contains(s: &str, p: &str) -> (r: bool)
    ensures
        r == has_substring(s@, p@),
{
    s.contains(p)
}

/// The kind of the first rule whose pattern occurs in `name`.
pub open spec fn spec_lookup(rules: Seq<LeafRule>, name: Seq<char>) -> Option<LeafKind>
    decreases rules.len(),
{
    if rules.len() == 0 {
        None
    } else if has_substring(name, rules[0].pattern@) {
        Some(rules[0].kind)
    } else {
        spec_lookup(rules.subrange(1, rules.len() as int), name)
    }
}

/// The strategy for `ty`; `None` for a leaf that no rule matches.
pub open spec fn spec_classify(table: LeafTable, ty: FieldType) -> Option<Strategy> {
    match ty {
        FieldType::Leaf(name) => match spec_lookup(table.rules@, name@) {
            Some(k) => Some(Strategy::Leaf(k)),
            None => None,
        },
        FieldType::Optional(_) => Some(Strategy::Optional),
        FieldType::Indirect(_) => Some(Strategy::Indirect),
        FieldType::Tuple(_) => Some(Strategy::Tuple),
        _ => Some(Strategy::Delegate),
    }
}

impl LeafTable {
    /// The standard table: span markers, identifiers, token streams and
    /// literals, tried in that order.
    pub fn standard() -> (r: LeafTable)
        ensures
            r.rules@.len() == 4,
            r.rules@[0].pattern@ == "Span"@ && r.rules@[0].kind == LeafKind::Span,
            r.rules@[1].pattern@ == "Ident"@ && r.rules@[1].kind == LeafKind::Ident,
            r.rules@[2].pattern@ == "TokenStream"@ && r.rules@[2].kind == LeafKind::TokenStream,
            r.rules@[3].pattern@ == "Literal"@ && r.rules@[3].kind == LeafKind::Literal,
    {
        let mut rules: Vec<LeafRule> = Vec::new();
        rules.push(LeafRule { pattern: "Span".to_owned(), kind: LeafKind::Span });
        rules.push(LeafRule { pattern: "Ident".to_owned(), kind: LeafKind::Ident });
        rules.push(LeafRule { pattern: "TokenStream".to_owned(), kind: LeafKind::TokenStream });
        rules.push(LeafRule { pattern: "Literal".to_owned(), kind: LeafKind::Literal });
        LeafTable { rules }
    }

    /// Adds a rule after the existing ones.
    pub fn add_rule(&mut self, pattern: String, kind: LeafKind)
        ensures
            final(self).rules@ == old(self).rules@.push(LeafRule { pattern, kind }),
    {
        self.rules.push(LeafRule { pattern, kind });
    }

    /// The kind of the first rule whose pattern occurs in `name`.
    pub fn lookup(&self, name: &str) -> (r: Option<LeafKind>)
        ensures
            r == spec_lookup(self.rules@, name@),
    {
        let mut i: usize = 0;
        assert(self.rules@.subrange(0, self.rules@.len() as int) =~= self.rules@);
        while i < self.rules.len()
            invariant
                i <= self.rules@.len(),
                spec_lookup(self.rules@, name@) == spec_lookup(
                    self.rules@.subrange(i as int, self.rules@.len() as int),
                    name@,
                ),
            decreases self.rules@.len() - i,
        {
            let ghost rest = self.rules@.subrange(i as int, self.rules@.len() as int);
            assert(rest.subrange(1, rest.len() as int) =~= self.rules@.subrange(
                i + 1,
                self.rules@.len() as int,
            ));
            if str_contains(name, self.rules[i].pattern.as_str()) {
                return Some(self.rules[i].kind);
            }
            i = i + 1;
        }
        None
    }

    /// The strategy for `ty`, or `None` for a leaf that no rule matches.
    pub fn classify(&self, ty: &FieldType) -> (r: Option<Strategy>)
        ensures
            r == spec_classify(*self, *ty),
    {
        match ty {
            FieldType::Leaf(name) => match self.lookup(name.as_str()) {
                Some(k) => Some(Strategy::Leaf(k)),
                None => None,
            },
            FieldType::Optional(_) => Some(Strategy::Optional),
            FieldType::Indirect(_) => Some(Strategy::Indirect),
            FieldType::Tuple(_) => Some(Strategy::Tuple),
            _ => Some(Strategy::Delegate),
        }
    }
}

} // verus!
