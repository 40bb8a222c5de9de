//! The statement tree that the rewrite rules work on.
//!
//! A statement is a tree of [`Node`]s. The head of a node holds what the rules
//! read of one construct, its children are the constructs inside it, and its
//! tag stands for everything else that the construct holds. A rule that keeps a
//! node keeps its tag; a node that a rule makes has the tag [`NEW_NODE`].
use crate::text;
use vstd::prelude::*;

verus! {

/// The tag of a node that a rule made: it holds nothing beside its head and its
/// children.
pub const NEW_NODE: u64 = 0;

/// The quotes that an identifier can be written in.
#[derive(Clone, Copy, Debug, PartialEq, Eq, Structural)]
pub enum Quote {
    Double,
    Single,
    Backtick,
    Bracket,
}

/// An identifier with the quotes that it was written in, if any.
#[derive(Debug, PartialEq, Eq)]
pub struct Ident {
    pub value: String,
    pub quote_style: Option<Quote>,
}

/// One part of a dotted name. A part that is no identifier is known by a number.
#[derive(Debug, PartialEq, Eq)]
pub enum NamePart {
    Identifier(Ident),
    Function(u64),
}

/// The comparison and regular-expression operators that the rules tell apart.
#[derive(Debug, PartialEq, Eq)]
pub enum BinaryOperator {
    Eq,
    NotEq,
    PGRegexMatch,
    PGRegexIMatch,
    PGRegexNotMatch,
    PGRegexNotIMatch,
    /// `OPERATOR(schema.name)`: the dotted parts inside the brackets.
    PGCustomBinaryOperator(Vec<String>),
    /// Any other operator, known by a number.
    Other(u64),
}

/// What the rules read of the element type of an array type.
#[derive(Clone, Copy, Debug, PartialEq, Eq, Structural)]
pub enum ArrayElem {
    Text,
    Varchar,
    Char,
    StringType,
    /// Another element type.
    Other,
    /// An array type that names no element type.
    Untyped,
}

/// The target type of a cast: its SQL text, of an array type its element, and of a
/// type that is known by its name the name.
#[derive(Debug, PartialEq, Eq)]
pub struct CastType {
    pub text: String,
    pub array: Option<ArrayElem>,
    pub name: Option<Vec<NamePart>>,
}

/// How a function call writes its arguments.
#[derive(Clone, Copy, Debug, PartialEq, Eq, Structural)]
pub enum FunctionArguments {
    /// No argument list at all, as in `current_user`.
    Absent,
    /// An argument list of this length.
    List(u64),
    /// A subquery in place of the list.
    Subquery,
}

/// What the rules read of one construct.
#[derive(Debug, PartialEq, Eq)]
#[allow(inconsistent_fields)]
pub enum Head {
    /// A query as a statement. Its child is the query.
    QueryStatement,
    /// `INSERT`. The table is there when it is given by a plain name. The first
    /// child is the source query, where there is one.
    Insert { table: Option<Vec<NamePart>>, columns: Vec<Vec<NamePart>>, has_source: bool },
    /// A query, and whether it has a `FETCH` clause. Its body is its first child.
    Query { fetch: bool },
    /// A `SELECT` that is the body of a query. Its children are select items,
    /// tables with their joins, a selection, and the rest.
    Select,
    /// `VALUES`. Its children are rows.
    Values,
    /// One row of `VALUES`.
    Row,
    /// The expressions of an `ORDER BY`.
    OrderBy,
    /// A limit clause.
    Limit,
    /// A select item that is an expression.
    UnnamedExpr,
    /// A select item that is an expression with an alias.
    ExprWithAlias { alias: Ident },
    /// `name.*`; the name is there unless an expression stands in its place.
    QualifiedWildcard { name: Option<Vec<Ident>> },
    /// `*` as a select item.
    Wildcard,
    /// A relation and its joins, in this order.
    TableWithJoins,
    /// A join. Its first child is the joined relation.
    Join,
    /// A table, or a call of a table function.
    Table { name: Vec<NamePart>, has_args: bool, alias: Option<Ident> },
    /// The `WHERE` clause of a select.
    Selection,
    Identifier(Ident),
    CompoundIdentifier(Vec<Ident>),
    SingleQuotedString(String),
    Number(String),
    Placeholder(String),
    Null,
    /// An array expression, and whether `ARRAY` is written before it.
    Array { named: bool },
    /// A function call. Its arguments are its first children.
    Function { name: Vec<NamePart>, args: FunctionArguments },
    BinaryOp(BinaryOperator),
    /// `NOT`.
    Not,
    /// The minus sign before a number. The number is the child.
    Minus,
    /// `left op ANY (right)`, the two operands in this order.
    AnyOp(BinaryOperator),
    /// `left op ALL (right)`, the two operands in this order.
    AllOp(BinaryOperator),
    /// A cast, and whether it is written with `::`. The operand is the first child.
    Cast { double_colon: bool, data_type: CastType },
    /// `COLLATE`. The operand is the first child.
    Collate,
    /// A query in the place of an expression. The query is the child.
    Subquery,
    /// Any other construct.
    Other,
}

/// One construct of a statement.
#[derive(Debug, PartialEq, Eq)]
pub struct Node {
    pub head: Head,
    pub tag: u64,
    pub kids: Vec<Node>,
}

/// The model of an [`Ident`].
#[verifier::ext_equal]
pub struct IdentV {
    pub value: Seq<char>,
    pub quote_style: Option<Quote>,
}

/// The model of a [`NamePart`].
#[verifier::ext_equal]
pub enum PartV {
    Identifier(IdentV),
    Function(u64),
}

/// The model of a [`BinaryOperator`].
#[verifier::ext_equal]
pub enum OperatorV {
    Eq,
    NotEq,
    PGRegexMatch,
    PGRegexIMatch,
    PGRegexNotMatch,
    PGRegexNotIMatch,
    PGCustomBinaryOperator(Seq<Seq<char>>),
    Other(u64),
}

/// The model of a [`CastType`].
#[verifier::ext_equal]
pub struct CastTypeV {
    pub text: Seq<char>,
    pub array: Option<ArrayElem>,
    pub name: Option<Seq<PartV>>,
}

/// The model of a [`Head`].
#[verifier::ext_equal]
#[allow(inconsistent_fields)]
pub enum HeadV {
    QueryStatement,
    Insert { table: Option<Seq<PartV>>, columns: Seq<Seq<PartV>>, has_source: bool },
    Query { fetch: bool },
    Select,
    Values,
    Row,
    OrderBy,
    Limit,
    UnnamedExpr,
    ExprWithAlias { alias: IdentV },
    QualifiedWildcard { name: Option<Seq<IdentV>> },
    Wildcard,
    TableWithJoins,
    Join,
    Table { name: Seq<PartV>, has_args: bool, alias: Option<IdentV> },
    Selection,
    Identifier(IdentV),
    CompoundIdentifier(Seq<IdentV>),
    SingleQuotedString(Seq<char>),
    Number(Seq<char>),
    Placeholder(Seq<char>),
    Null,
    Array { named: bool },
    Function { name: Seq<PartV>, args: FunctionArguments },
    BinaryOp(OperatorV),
    Not,
    Minus,
    AnyOp(OperatorV),
    AllOp(OperatorV),
    Cast { double_colon: bool, data_type: CastTypeV },
    Collate,
    Subquery,
    Other,
}

/// The model of a [`Node`].
#[verifier::ext_equal]
pub struct NodeV {
    pub head: HeadV,
    pub tag: u64,
    pub kids: Seq<NodeV>,
}

impl View for Ident {
    type V = IdentV;

    open spec fn view(&self) -> IdentV {
        IdentV { value: self.value@, quote_style: self.quote_style }
    }
}

impl View for NamePart {
    type V = PartV;

    open spec fn view(&self) -> PartV {
        match *self {
            NamePart::Identifier(i) => PartV::Identifier(i@),
            NamePart::Function(k) => PartV::Function(k),
        }
    }
}

impl View for BinaryOperator {
    type V = OperatorV;

    open spec fn view(&self) -> OperatorV {
        match *self {
            BinaryOperator::Eq => OperatorV::Eq,
            BinaryOperator::NotEq => OperatorV::NotEq,
            BinaryOperator::PGRegexMatch => OperatorV::PGRegexMatch,
            BinaryOperator::PGRegexIMatch => OperatorV::PGRegexIMatch,
            BinaryOperator::PGRegexNotMatch => OperatorV::PGRegexNotMatch,
            BinaryOperator::PGRegexNotIMatch => OperatorV::PGRegexNotIMatch,
            BinaryOperator::PGCustomBinaryOperator(ops) => OperatorV::PGCustomBinaryOperator(
                text::views(ops@),
            ),
            BinaryOperator::Other(k) => OperatorV::Other(k),
        }
    }
}

impl View for CastType {
    type V = CastTypeV;

    open spec fn view(&self) -> CastTypeV {
        CastTypeV { text: self.text@, array: self.array, name: opt_name_view(self.name) }
    }
}

/// The model of a dotted name.
pub open spec fn name_view(v: Seq<NamePart>) -> Seq<PartV> {
    v.map_values(|p: NamePart| p@)
}

/// The model of a list of identifiers.
pub open spec fn idents_view(v: Seq<Ident>) -> Seq<IdentV> {
    v.map_values(|p: Ident| p@)
}

/// The model of a list of dotted names.
pub open spec fn names_view(v: Seq<Vec<NamePart>>) -> Seq<Seq<PartV>> {
    v.map_values(|p: Vec<NamePart>| name_view(p@))
}

/// The model of an optional identifier.
pub open spec fn opt_ident_view(o: Option<Ident>) -> Option<IdentV> {
    match o {
        Some(i) => Some(i@),
        None => None,
    }
}

/// The model of an optional dotted name.
pub open spec fn opt_name_view(o: Option<Vec<NamePart>>) -> Option<Seq<PartV>> {
    match o {
        Some(i) => Some(name_view(i@)),
        None => None,
    }
}

impl View for Head {
    type V = HeadV;

    open spec fn view(&self) -> HeadV {
        match *self {
            Head::QueryStatement => HeadV::QueryStatement,
            Head::Insert { table, columns, has_source } => HeadV::Insert {
                table: opt_name_view(table),
                columns: names_view(columns@),
                has_source,
            },
            Head::Query { fetch } => HeadV::Query { fetch },
            Head::Select => HeadV::Select,
            Head::Values => HeadV::Values,
            Head::Row => HeadV::Row,
            Head::OrderBy => HeadV::OrderBy,
            Head::Limit => HeadV::Limit,
            Head::UnnamedExpr => HeadV::UnnamedExpr,
            Head::ExprWithAlias { alias } => HeadV::ExprWithAlias { alias: alias@ },
            Head::QualifiedWildcard { name } => HeadV::QualifiedWildcard {
                name: match name {
                    Some(idents) => Some(idents_view(idents@)),
                    None => None,
                },
            },
            Head::Wildcard => HeadV::Wildcard,
            Head::TableWithJoins => HeadV::TableWithJoins,
            Head::Join => HeadV::Join,
            Head::Table { name, has_args, alias } => HeadV::Table {
                name: name_view(name@),
                has_args,
                alias: opt_ident_view(alias),
            },
            Head::Selection => HeadV::Selection,
            Head::Identifier(i) => HeadV::Identifier(i@),
            Head::CompoundIdentifier(v) => HeadV::CompoundIdentifier(idents_view(v@)),
            Head::SingleQuotedString(s) => HeadV::SingleQuotedString(s@),
            Head::Number(s) => HeadV::Number(s@),
            Head::Placeholder(s) => HeadV::Placeholder(s@),
            Head::Null => HeadV::Null,
            Head::Array { named } => HeadV::Array { named },
            Head::Function { name, args } => HeadV::Function { name: name_view(name@), args },
            Head::BinaryOp(op) => HeadV::BinaryOp(op@),
            Head::Not => HeadV::Not,
            Head::Minus => HeadV::Minus,
            Head::AnyOp(op) => HeadV::AnyOp(op@),
            Head::AllOp(op) => HeadV::AllOp(op@),
            Head::Cast { double_colon, data_type } => HeadV::Cast {
                double_colon,
                data_type: data_type@,
            },
            Head::Collate => HeadV::Collate,
            Head::Subquery => HeadV::Subquery,
            Head::Other => HeadV::Other,
        }
    }
}

impl Node {
    /// The model of this node and of everything below it.
    pub open spec fn model(self) -> NodeV
        decreases self,
    {
        NodeV {
            head: self.head@,
            tag: self.tag,
            kids: Seq::new(
                self.kids@.len(),
                |i: int|
                    if 0 <= i < self.kids@.len() {
                        self.kids@[i].model()
                    } else {
                        arbitrary()
                    },
            ),
        }
    }
}

impl View for Node {
    type V = NodeV;

    open spec fn view(&self) -> NodeV {
        self.model()
    }
}

/// The models of a list of nodes.
pub open spec fn nodes_view(v: Seq<Node>) -> Seq<NodeV> {
    v.map_values(|n: Node| n@)
}

/// A node's model is its head, its tag and the models of its children.
pub proof fn lemma_model(n: Node)
    ensures
        n@ == (NodeV { head: n.head@, tag: n.tag, kids: nodes_view(n.kids@) }),
{
    assert(n@.kids == nodes_view(n.kids@));
}

impl Ident {
    /// An identifier without quotes.
    pub fn new(value: &str) -> (r: Ident)
        ensures
            r@ == (IdentV { value: value@, quote_style: None }),
    {
        Ident { value: value.to_owned(), quote_style: None }
    }

    /// A copy of this identifier.
    pub fn copy(&self) -> (r: Ident)
        ensures
            r == *self,
    {
        Ident { value: self.value.clone(), quote_style: self.quote_style }
    }
}

impl NamePart {
    /// A copy of this part.
    pub fn copy(&self) -> (r: NamePart)
        ensures
            r == *self,
    {
        match self {
            NamePart::Identifier(i) => NamePart::Identifier(i.copy()),
            NamePart::Function(k) => NamePart::Function(*k),
        }
    }
}

impl CastType {
    /// A copy of this type.
    pub fn copy(&self) -> (r: CastType)
        ensures
            r@ == self@,
    {
        CastType {
            text: self.text.clone(),
            array: self.array,
            name: match &self.name {
                Some(name) => Some(copy_name(name)),
                None => None,
            },
        }
    }
}

/// A copy of a dotted name.
pub fn copy_name(v: &Vec<NamePart>) -> (r: Vec<NamePart>)
    ensures
        r@ == v@,
{
    let mut out: Vec<NamePart> = Vec::new();
    let mut i: usize = 0;
    while i < v.len()
        invariant
            i <= v@.len(),
            out@ == v@.take(i as int),
        decreases v@.len() - i,
    {
        out.push(v[i].copy());
        i += 1;
        assert(v@.take(i as int) == v@.take(i - 1).push(v@[i - 1]));
    }
    assert(v@.take(v@.len() as int) == v@);
    out
}

/// A copy of a list of texts.
pub fn copy_texts(v: &Vec<String>) -> (r: Vec<String>)
    ensures
        r@ == v@,
{
    let mut out: Vec<String> = Vec::new();
    let mut i: usize = 0;
    while i < v.len()
        invariant
            i <= v@.len(),
            out@ == v@.take(i as int),
        decreases v@.len() - i,
    {
        out.push(v[i].clone());
        i += 1;
        assert(v@.take(i as int) == v@.take(i - 1).push(v@[i - 1]));
    }
    assert(v@.take(v@.len() as int) == v@);
    out
}

fn copy_idents(v: &Vec<Ident>) -> (r: Vec<Ident>)
    ensures
        r@ == v@,
{
    let mut out: Vec<Ident> = Vec::new();
    let mut i: usize = 0;
    while i < v.len()
        invariant
            i <= v@.len(),
            out@ == v@.take(i as int),
        decreases v@.len() - i,
    {
        out.push(v[i].copy());
        i += 1;
        assert(v@.take(i as int) == v@.take(i - 1).push(v@[i - 1]));
    }
    assert(v@.take(v@.len() as int) == v@);
    out
}

fn copy_names(v: &Vec<Vec<NamePart>>) -> (r: Vec<Vec<NamePart>>)
    ensures
        names_view(r@) == names_view(v@),
{
    let mut out: Vec<Vec<NamePart>> = Vec::new();
    let mut i: usize = 0;
    while i < v.len()
        invariant
            i <= v@.len(),
            names_view(out@) == names_view(v@).take(i as int),
        decreases v@.len() - i,
    {
        let ghost before = out@;
        out.push(copy_name(&v[i]));
        assert(names_view(out@) == names_view(before).push(name_view(v@[i as int]@)));
        i += 1;
        assert(names_view(v@).take(i as int) == names_view(v@).take(i - 1).push(
            names_view(v@)[i - 1],
        ));
    }
    assert(names_view(v@).take(v@.len() as int) == names_view(v@));
    out
}

impl BinaryOperator {
    /// A copy of this operator.
    pub fn copy(&self) -> (r: BinaryOperator)
        ensures
            r@ == self@,
    {
        match self {
            BinaryOperator::Eq => BinaryOperator::Eq,
            BinaryOperator::NotEq => BinaryOperator::NotEq,
            BinaryOperator::PGRegexMatch => BinaryOperator::PGRegexMatch,
            BinaryOperator::PGRegexIMatch => BinaryOperator::PGRegexIMatch,
            BinaryOperator::PGRegexNotMatch => BinaryOperator::PGRegexNotMatch,
            BinaryOperator::PGRegexNotIMatch => BinaryOperator::PGRegexNotIMatch,
            BinaryOperator::PGCustomBinaryOperator(ops) => BinaryOperator::PGCustomBinaryOperator(
                copy_texts(ops),
            ),
            BinaryOperator::Other(k) => BinaryOperator::Other(*k),
        }
    }
}

impl Head {
    /// A copy of this head.
    pub fn copy(&self) -> (r: Head)
        ensures
            r@ == self@,
    {
        match self {
            Head::QueryStatement => Head::QueryStatement,
            Head::Insert { table, columns, has_source } => Head::Insert {
                table: match table {
                    Some(name) => Some(copy_name(name)),
                    None => None,
                },
                columns: copy_names(columns),
                has_source: *has_source,
            },
            Head::Query { fetch } => Head::Query { fetch: *fetch },
            Head::Select => Head::Select,
            Head::Values => Head::Values,
            Head::Row => Head::Row,
            Head::OrderBy => Head::OrderBy,
            Head::Limit => Head::Limit,
            Head::UnnamedExpr => Head::UnnamedExpr,
            Head::ExprWithAlias { alias } => Head::ExprWithAlias { alias: alias.copy() },
            Head::QualifiedWildcard { name } => Head::QualifiedWildcard {
                name: match name {
                    Some(idents) => Some(copy_idents(idents)),
                    None => None,
                },
            },
            Head::Wildcard => Head::Wildcard,
            Head::TableWithJoins => Head::TableWithJoins,
            Head::Join => Head::Join,
            Head::Table { name, has_args, alias } => Head::Table {
                name: copy_name(name),
                has_args: *has_args,
                alias: match alias {
                    Some(alias) => Some(alias.copy()),
                    None => None,
                },
            },
            Head::Selection => Head::Selection,
            Head::Identifier(i) => Head::Identifier(i.copy()),
            Head::CompoundIdentifier(v) => Head::CompoundIdentifier(copy_idents(v)),
            Head::SingleQuotedString(s) => Head::SingleQuotedString(s.clone()),
            Head::Number(s) => Head::Number(s.clone()),
            Head::Placeholder(s) => Head::Placeholder(s.clone()),
            Head::Null => Head::Null,
            Head::Array { named } => Head::Array { named: *named },
            Head::Function { name, args } => Head::Function { name: copy_name(name), args: *args },
            Head::BinaryOp(op) => Head::BinaryOp(op.copy()),
            Head::Not => Head::Not,
            Head::Minus => Head::Minus,
            Head::AnyOp(op) => Head::AnyOp(op.copy()),
            Head::AllOp(op) => Head::AllOp(op.copy()),
            Head::Cast { double_colon, data_type } => Head::Cast {
                double_colon: *double_colon,
                data_type: data_type.copy(),
            },
            Head::Collate => Head::Collate,
            Head::Subquery => Head::Subquery,
            Head::Other => Head::Other,
        }
    }
}

impl Node {
    /// A node without children.
    pub fn leaf(head: Head) -> (r: Node)
        ensures
            r@ == leaf_view(head@),
    {
        let r = Node { head, tag: NEW_NODE, kids: Vec::new() };
        proof {
            lemma_model(r);
            assert(r@.kids == Seq::<NodeV>::empty());
        }
        r
    }

    /// A copy of this node and of everything below it.
    pub fn copy(&self) -> (r: Node)
        ensures
            r@ == self@,
        decreases self,
    {
        let mut kids: Vec<Node> = Vec::new();
        let mut i: usize = 0;
        while i < self.kids.len()
            invariant
                i <= self.kids@.len(),
                kids@.len() == i,
                forall|j: int| 0 <= j < i ==> (#[trigger] kids@[j])@ == self.kids@[j]@,
            decreases self.kids@.len() - i,
        {
            let kid = self.kids[i].copy();
            kids.push(kid);
            i += 1;
        }
        let r = Node { head: self.head.copy(), tag: self.tag, kids };
        proof {
            lemma_model(r);
            lemma_model(*self);
            assert(nodes_view(r.kids@) == nodes_view(self.kids@));
        }
        r
    }
}

/// The model of a node that a rule makes and that has no children.
pub open spec fn leaf_view(head: HeadV) -> NodeV {
    NodeV { head, tag: NEW_NODE, kids: Seq::empty() }
}

/// The text of a string literal.
pub open spec fn string_literal(n: NodeV) -> Option<Seq<char>> {
    match n.head {
        HeadV::SingleQuotedString(s) => Some(s),
        _ => None,
    }
}

} // verus!
