//! The abstract syntax tree: nodes for a project, its namespaces and items,
//! function bodies, statements, expressions and types, together with the
//! mathematical view of each node that the parser contracts speak of.

use vstd::prelude::*;

use crate::tokens::{Assignments, Literals, Punctuations};

verus! {

/// A type annotation: for now a raw identifier.
#[derive(Debug)]
pub struct TypeNode {
    pub raw: String,
}

/// Model of a type annotation.
pub struct TypeV {
    pub raw: Seq<char>,
}

impl View for TypeNode {
    type V = TypeV;

    open spec fn view(&self) -> TypeV {
        TypeV { raw: self.raw@ }
    }
}

/// An expression.
#[derive(Debug)]
pub struct ExpressionNode {
    pub kind: ExpressionKind,
}

/// The expression variants.
#[derive(Debug)]
pub enum ExpressionKind {
    Literal { kind: Literals, value: String },
    Identifier { name: String },
    Call { res: Box<ExpressionNode>, args: Vec<ExpressionNode> },
    Resolution {
        left: Box<ExpressionNode>,
        right: Box<ExpressionNode>,
        kind: ResolutionExpressionKind,
    },
    Binary {
        kind: BinaryExpressionKind,
        left: Box<ExpressionNode>,
        op: Punctuations,
        right: Box<ExpressionNode>,
    },
    Unary { kind: UnaryExpressionKind, op: Punctuations, right: Box<ExpressionNode> },
    Assignment { left: Box<ExpressionNode>, op: Assignments, right: Box<ExpressionNode> },
}

/// Model of an expression.
pub enum ExprV {
    Literal { kind: Literals, value: Seq<char> },
    Identifier { name: Seq<char> },
    Call { res: Box<ExprV>, args: Seq<ExprV> },
    Resolution { left: Box<ExprV>, right: Box<ExprV>, kind: ResolutionExpressionKind },
    Binary { kind: BinaryExpressionKind, left: Box<ExprV>, op: Punctuations, right: Box<ExprV> },
    Unary { kind: UnaryExpressionKind, op: Punctuations, right: Box<ExprV> },
    Assignment { left: Box<ExprV>, op: Assignments, right: Box<ExprV> },
}

/// The model of a sequence of expression nodes.
pub open spec fn exprs_view(s: Seq<ExpressionNode>) -> Seq<ExprV>
    decreases s, 0int,
{
    if s.len() == 0 {
        Seq::empty()
    } else {
        seq![expr_view(s[0])] + exprs_view(s.subrange(1, s.len() as int))
    }
}

/// The model of an expression node.
pub open spec fn expr_view(e: ExpressionNode) -> ExprV
    decreases e, 1int,
{
    match e.kind {
        ExpressionKind::Literal { kind, value } => ExprV::Literal { kind, value: value@ },
        ExpressionKind::Identifier { name } => ExprV::Identifier { name: name@ },
        ExpressionKind::Call { res, args } => ExprV::Call {
            res: Box::new(expr_view(*res)),
            args: exprs_view(args@),
        },
        ExpressionKind::Resolution { left, right, kind } => ExprV::Resolution {
            left: Box::new(expr_view(*left)),
            right: Box::new(expr_view(*right)),
            kind,
        },
        ExpressionKind::Binary { kind, left, op, right } => ExprV::Binary {
            kind,
            left: Box::new(expr_view(*left)),
            op,
            right: Box::new(expr_view(*right)),
        },
        ExpressionKind::Unary { kind, op, right } => ExprV::Unary {
            kind,
            op,
            right: Box::new(expr_view(*right)),
        },
        ExpressionKind::Assignment { left, op, right } => ExprV::Assignment {
            left: Box::new(expr_view(*left)),
            op,
            right: Box::new(expr_view(*right)),
        },
    }
}

impl View for ExpressionNode {
    type V = ExprV;

    open spec fn view(&self) -> ExprV {
        expr_view(*self)
    }
}

impl DeepView for ExpressionNode {
    type V = ExprV;

    open spec fn deep_view(&self) -> ExprV {
        expr_view(*self)
    }
}

/// The unary operators.
#[derive(Debug, Clone, Copy, PartialEq, Eq, Structural)]
pub enum UnaryExpressionKind {
    ArithmeticNegation,
    LogicalNegation,
}

/// The unary operator denoted by a punctuation, if any.
pub open spec fn unary_kind_of(p: Punctuations) -> Option<UnaryExpressionKind> {
    match p {
        Punctuations::OperatorMinus => Some(UnaryExpressionKind::ArithmeticNegation),
        Punctuations::OperatorNot => Some(UnaryExpressionKind::LogicalNegation),
        _ => None,
    }
}

impl UnaryExpressionKind {
    /// The unary operator for a punctuation.
    pub fn from_punct(opr: &Punctuations) -> (r: Result<UnaryExpressionKind, ()>)
        ensures
            r == match unary_kind_of(*opr) {
                Some(k) => Result::<UnaryExpressionKind, ()>::Ok(k),
                None => Result::<UnaryExpressionKind, ()>::Err(()),
            },
    {
        match opr {
            Punctuations::OperatorMinus => Ok(UnaryExpressionKind::ArithmeticNegation),
            Punctuations::OperatorNot => Ok(UnaryExpressionKind::LogicalNegation),
            _ => Err(()),
        }
    }
}

/// The binary precedence levels, loosest first.
#[derive(Debug, Clone, Copy, PartialEq, Eq, Structural)]
pub enum BinaryExpressionKind {
    LogicalAnd,
    LogicalOr,
    Equality,
    Relational,
    Additive,
    Multiplicative,
    Exponential,
}

/// The binary level a punctuation belongs to, if any.
pub open spec fn binary_kind_of(p: Punctuations) -> Option<BinaryExpressionKind> {
    match p {
        Punctuations::OperatorAnd => Some(BinaryExpressionKind::LogicalAnd),
        Punctuations::OperatorOr => Some(BinaryExpressionKind::LogicalOr),
        Punctuations::OperatorEqual => Some(BinaryExpressionKind::Equality),
        Punctuations::OperatorNotEqual => Some(BinaryExpressionKind::Equality),
        Punctuations::AngleOpen => Some(BinaryExpressionKind::Relational),
        Punctuations::AngleClose => Some(BinaryExpressionKind::Relational),
        Punctuations::OperatorLessEqual => Some(BinaryExpressionKind::Relational),
        Punctuations::OperatorGreaterEqual => Some(BinaryExpressionKind::Relational),
        Punctuations::OperatorPlus => Some(BinaryExpressionKind::Additive),
        Punctuations::OperatorMinus => Some(BinaryExpressionKind::Additive),
        Punctuations::OperatorMultiply => Some(BinaryExpressionKind::Multiplicative),
        Punctuations::OperatorDivide => Some(BinaryExpressionKind::Multiplicative),
        Punctuations::OperatorModulo => Some(BinaryExpressionKind::Multiplicative),
        Punctuations::OperatorPower => Some(BinaryExpressionKind::Exponential),
        _ => None,
    }
}

/// The precedence of a binary level: loosest is `-4`, tightest is `2`.
pub open spec fn spec_precedence(k: BinaryExpressionKind) -> int {
    match k {
        BinaryExpressionKind::LogicalAnd => -4,
        BinaryExpressionKind::LogicalOr => -3,
        BinaryExpressionKind::Equality => -2,
        BinaryExpressionKind::Relational => -1,
        BinaryExpressionKind::Additive => 0,
        BinaryExpressionKind::Multiplicative => 1,
        BinaryExpressionKind::Exponential => 2,
    }
}

/// The binary level at a precedence, if the precedence is in range.
pub open spec fn kind_of_precedence(p: int) -> Option<BinaryExpressionKind> {
    if p == -4 {
        Some(BinaryExpressionKind::LogicalAnd)
    } else if p == -3 {
        Some(BinaryExpressionKind::LogicalOr)
    } else if p == -2 {
        Some(BinaryExpressionKind::Equality)
    } else if p == -1 {
        Some(BinaryExpressionKind::Relational)
    } else if p == 0 {
        Some(BinaryExpressionKind::Additive)
    } else if p == 1 {
        Some(BinaryExpressionKind::Multiplicative)
    } else if p == 2 {
        Some(BinaryExpressionKind::Exponential)
    } else {
        None
    }
}

impl BinaryExpressionKind {
    /// The binary level of a punctuation.
    pub fn from_punct(opr: &Punctuations) -> (r: Result<BinaryExpressionKind, ()>)
        ensures
            r == match binary_kind_of(*opr) {
                Some(k) => Result::<BinaryExpressionKind, ()>::Ok(k),
                None => Result::<BinaryExpressionKind, ()>::Err(()),
            },
    {
        match opr {
            Punctuations::OperatorAnd => Ok(BinaryExpressionKind::LogicalAnd),
            Punctuations::OperatorOr => Ok(BinaryExpressionKind::LogicalOr),
            Punctuations::OperatorEqual => Ok(BinaryExpressionKind::Equality),
            Punctuations::OperatorNotEqual => Ok(BinaryExpressionKind::Equality),
            Punctuations::AngleOpen => Ok(BinaryExpressionKind::Relational),
            Punctuations::AngleClose => Ok(BinaryExpressionKind::Relational),
            Punctuations::OperatorLessEqual => Ok(BinaryExpressionKind::Relational),
            Punctuations::OperatorGreaterEqual => Ok(BinaryExpressionKind::Relational),
            Punctuations::OperatorPlus => Ok(BinaryExpressionKind::Additive),
            Punctuations::OperatorMinus => Ok(BinaryExpressionKind::Additive),
            Punctuations::OperatorMultiply => Ok(BinaryExpressionKind::Multiplicative),
            Punctuations::OperatorDivide => Ok(BinaryExpressionKind::Multiplicative),
            Punctuations::OperatorModulo => Ok(BinaryExpressionKind::Multiplicative),
            Punctuations::OperatorPower => Ok(BinaryExpressionKind::Exponential),
            _ => Err(()),
        }
    }

    /// The loosest binary level, where expression parsing starts.
    pub fn lowest() -> (r: BinaryExpressionKind)
        ensures
            r == BinaryExpressionKind::LogicalAnd,
    {
        BinaryExpressionKind::LogicalAnd
    }

    /// The binary level at a precedence.
    pub fn from_precedence(precedence: isize) -> (r: Result<BinaryExpressionKind, ()>)
        ensures
            r == match kind_of_precedence(precedence as int) {
                Some(k) => Result::<BinaryExpressionKind, ()>::Ok(k),
                None => Result::<BinaryExpressionKind, ()>::Err(()),
            },
    {
        match precedence {
            -4 => Ok(BinaryExpressionKind::LogicalAnd),
            -3 => Ok(BinaryExpressionKind::LogicalOr),
            -2 => Ok(BinaryExpressionKind::Equality),
            -1 => Ok(BinaryExpressionKind::Relational),
            0 => Ok(BinaryExpressionKind::Additive),
            1 => Ok(BinaryExpressionKind::Multiplicative),
            2 => Ok(BinaryExpressionKind::Exponential),
            _ => Err(()),
        }
    }

    /// The precedence of this binary level.
    pub fn precedence(&self) -> (r: isize)
        ensures
            r as int == spec_precedence(*self),
    {
        match self {
            BinaryExpressionKind::LogicalAnd => -4,
            BinaryExpressionKind::LogicalOr => -3,
            BinaryExpressionKind::Equality => -2,
            BinaryExpressionKind::Relational => -1,
            BinaryExpressionKind::Additive => 0,
            BinaryExpressionKind::Multiplicative => 1,
            BinaryExpressionKind::Exponential => 2,
        }
    }
}

/// Member (`.`) versus namespace (`::`) resolution.
#[derive(Debug, Clone, Copy, PartialEq, Eq, Structural)]
pub enum ResolutionExpressionKind {
    Namespace,
    Member,
}

/// A function argument: a name with a type annotation, a default value, or
/// both.
#[derive(Debug)]
pub struct ArgumentNode {
    pub name: String,
    pub ty: Option<TypeNode>,
    pub default: Option<ExpressionNode>,
}

/// Model of a function argument.
pub struct ArgV {
    pub name: Seq<char>,
    pub ty: Option<TypeV>,
    pub default: Option<ExprV>,
}

/// The model of an optional type annotation.
pub open spec fn opt_type_view(t: Option<TypeNode>) -> Option<TypeV> {
    match t {
        Some(t) => Some(t@),
        None => None,
    }
}

/// The model of an optional string.
pub open spec fn opt_string_view(s: Option<String>) -> Option<Seq<char>> {
    match s {
        Some(s) => Some(s@),
        None => None,
    }
}

/// The model of an optional expression.
pub open spec fn opt_expr_view(e: Option<ExpressionNode>) -> Option<ExprV> {
    match e {
        Some(e) => Some(expr_view(e)),
        None => None,
    }
}

impl DeepView for ArgumentNode {
    type V = ArgV;

    open spec fn deep_view(&self) -> ArgV {
        self.view()
    }
}

impl View for ArgumentNode {
    type V = ArgV;

    open spec fn view(&self) -> ArgV {
        ArgV {
            name: self.name@,
            ty: opt_type_view(self.ty),
            default: opt_expr_view(self.default),
        }
    }
}

/// A function: named arguments, an optional return type, an optional named
/// return variable, and a body.
#[derive(Debug)]
pub struct FunctionNode {
    pub name: String,
    pub args: Vec<ArgumentNode>,
    pub ty: Option<TypeNode>,
    pub return_var: Option<String>,
    pub body: BodyNode,
}

/// Model of a function.
pub struct FunctionV {
    pub name: Seq<char>,
    pub args: Seq<ArgV>,
    pub ty: Option<TypeV>,
    pub return_var: Option<Seq<char>>,
    pub body: BodyV,
}

/// A function body.
#[derive(Debug)]
pub struct BodyNode {
    pub kind: BodyKind,
}

/// The two body shapes: one element after `=>`, or braced elements.
#[derive(Debug)]
pub enum BodyKind {
    Inline(Box<BodyElementNode>),
    Multiline(Vec<BodyElementNode>),
}

/// One element of a body.
#[derive(Debug)]
pub struct BodyElementNode {
    pub kind: BodyElementKind,
}

/// A body element: a statement, a nested body, or a stray semicolon.
#[derive(Debug)]
pub enum BodyElementKind {
    Statement(StatementNode),
    Body(BodyNode),
    Empty,
}

/// Model of a body.
pub enum BodyV {
    Inline(Box<ElemV>),
    Multiline(Seq<ElemV>),
}

/// Model of a body element.
pub enum ElemV {
    Statement(StmtV),
    Body(Box<BodyV>),
    Empty,
}

/// A statement.
#[derive(Debug)]
pub struct StatementNode {
    pub kind: StatementKind,
}

/// The statement variants.
#[derive(Debug)]
pub enum StatementKind {
    Expression(ExpressionNode),
    VariableDeclaration(VariableDeclarationNode),
    FunctionDeclaration(FunctionNode),
    If(IfNode),
    WhileLoop(WhileLoopNode),
    Return(ExpressionNode),
}

/// Model of a statement.
pub enum StmtV {
    Expression(ExprV),
    VariableDeclaration(VarDeclV),
    FunctionDeclaration(Box<FunctionV>),
    If(Box<IfV>),
    WhileLoop(Box<WhileV>),
    Return(ExprV),
}

/// A variable declaration: a type annotation, an initial value, or both.
#[derive(Debug)]
pub struct VariableDeclarationNode {
    pub name: String,
    pub ty: Option<TypeNode>,
    pub value: Option<ExpressionNode>,
    pub mutable: bool,
}

/// Model of a variable declaration.
pub struct VarDeclV {
    pub name: Seq<char>,
    pub ty: Option<TypeV>,
    pub value: Option<ExprV>,
    pub mutable: bool,
}

impl View for VariableDeclarationNode {
    type V = VarDeclV;

    open spec fn view(&self) -> VarDeclV {
        VarDeclV {
            name: self.name@,
            ty: opt_type_view(self.ty),
            value: opt_expr_view(self.value),
            mutable: self.mutable,
        }
    }
}

/// An `if` statement; a chained `else if` is a nested `IfNode`.
#[derive(Debug)]
pub struct IfNode {
    pub kind: IfKind,
    pub body: BodyNode,
}

/// A conditional arm, or the final unconditional `else`.
#[derive(Debug)]
pub enum IfKind {
    If { cond: ExpressionNode, else_branch: Option<Box<IfNode>> },
    Else,
}

/// Model of an `if` statement.
pub struct IfV {
    pub kind: IfKindV,
    pub body: BodyV,
}

/// Model of a conditional arm.
pub enum IfKindV {
    If { cond: ExprV, else_branch: Option<Box<IfV>> },
    Else,
}

/// A `while` loop; a chained `else while` is a nested `WhileLoopNode`.
#[derive(Debug)]
pub struct WhileLoopNode {
    pub kind: WhileLoopKind,
    pub body: BodyNode,
}

/// A loop arm, or the final unconditional `else`.
#[derive(Debug)]
pub enum WhileLoopKind {
    While { cond: ExpressionNode, else_branch: Option<Box<WhileLoopNode>> },
    Else,
}

/// Model of a `while` loop.
pub struct WhileV {
    pub kind: WhileKindV,
    pub body: BodyV,
}

/// Model of a loop arm.
pub enum WhileKindV {
    While { cond: ExprV, else_branch: Option<Box<WhileV>> },
    Else,
}

/// The model of a body.
pub open spec fn body_view(b: BodyNode) -> BodyV
    decreases b, 1int,
{
    match b.kind {
        BodyKind::Inline(e) => BodyV::Inline(Box::new(elem_view(*e))),
        BodyKind::Multiline(els) => BodyV::Multiline(elems_view(els@)),
    }
}

/// The model of a sequence of body elements.
pub open spec fn elems_view(s: Seq<BodyElementNode>) -> Seq<ElemV>
    decreases s, 0int,
{
    if s.len() == 0 {
        Seq::empty()
    } else {
        seq![elem_view(s[0])] + elems_view(s.subrange(1, s.len() as int))
    }
}

/// The model of a body element.
pub open spec fn elem_view(e: BodyElementNode) -> ElemV
    decreases e, 1int,
{
    match e.kind {
        BodyElementKind::Statement(s) => ElemV::Statement(stmt_view(s)),
        BodyElementKind::Body(b) => ElemV::Body(Box::new(body_view(b))),
        BodyElementKind::Empty => ElemV::Empty,
    }
}

/// The model of a statement.
pub open spec fn stmt_view(s: StatementNode) -> StmtV
    decreases s, 1int,
{
    match s.kind {
        StatementKind::Expression(e) => StmtV::Expression(expr_view(e)),
        StatementKind::VariableDeclaration(v) => StmtV::VariableDeclaration(v@),
        StatementKind::FunctionDeclaration(f) => StmtV::FunctionDeclaration(
            Box::new(function_view(f)),
        ),
        StatementKind::If(i) => StmtV::If(Box::new(if_view(i))),
        StatementKind::WhileLoop(w) => StmtV::WhileLoop(Box::new(while_view(w))),
        StatementKind::Return(e) => StmtV::Return(expr_view(e)),
    }
}

/// The model of an `if` statement.
pub open spec fn if_view(i: IfNode) -> IfV
    decreases i, 1int,
{
    IfV {
        kind: match i.kind {
            IfKind::If { cond, else_branch } => IfKindV::If {
                cond: expr_view(cond),
                else_branch: match else_branch {
                    Some(e) => Some(Box::new(if_view(*e))),
                    None => None,
                },
            },
            IfKind::Else => IfKindV::Else,
        },
        body: body_view(i.body),
    }
}

/// The model of a `while` loop.
pub open spec fn while_view(w: WhileLoopNode) -> WhileV
    decreases w, 1int,
{
    WhileV {
        kind: match w.kind {
            WhileLoopKind::While { cond, else_branch } => WhileKindV::While {
                cond: expr_view(cond),
                else_branch: match else_branch {
                    Some(e) => Some(Box::new(while_view(*e))),
                    None => None,
                },
            },
            WhileLoopKind::Else => WhileKindV::Else,
        },
        body: body_view(w.body),
    }
}

/// The model of a sequence of arguments.
pub open spec fn args_view(s: Seq<ArgumentNode>) -> Seq<ArgV>
    decreases s, 0int,
{
    if s.len() == 0 {
        Seq::empty()
    } else {
        seq![s[0]@] + args_view(s.subrange(1, s.len() as int))
    }
}

/// The model of a function.
pub open spec fn function_view(f: FunctionNode) -> FunctionV
    decreases f, 1int,
{
    FunctionV {
        name: f.name@,
        args: args_view(f.args@),
        ty: opt_type_view(f.ty),
        return_var: opt_string_view(f.return_var),
        body: body_view(f.body),
    }
}

impl View for BodyNode {
    type V = BodyV;

    open spec fn view(&self) -> BodyV {
        body_view(*self)
    }
}

impl DeepView for BodyElementNode {
    type V = ElemV;

    open spec fn deep_view(&self) -> ElemV {
        elem_view(*self)
    }
}

impl View for BodyElementNode {
    type V = ElemV;

    open spec fn view(&self) -> ElemV {
        elem_view(*self)
    }
}

impl View for StatementNode {
    type V = StmtV;

    open spec fn view(&self) -> StmtV {
        stmt_view(*self)
    }
}

impl View for IfNode {
    type V = IfV;

    open spec fn view(&self) -> IfV {
        if_view(*self)
    }
}

impl View for WhileLoopNode {
    type V = WhileV;

    open spec fn view(&self) -> WhileV {
        while_view(*self)
    }
}

impl View for FunctionNode {
    type V = FunctionV;

    open spec fn view(&self) -> FunctionV {
        function_view(*self)
    }
}

/// A top-level item with its visibility.
#[derive(Debug)]
pub struct ItemNode {
    pub kind: ItemKind,
    pub public: bool,
}

/// The item variants: constants, statics and functions.
#[derive(Debug)]
pub enum ItemKind {
    Constant(ConstantNode),
    Static(StaticNode),
    Function(FunctionNode),
}

/// A constant: always typed, always initialized.
#[derive(Debug)]
pub struct ConstantNode {
    pub name: String,
    pub ty: TypeNode,
    pub value: ExpressionNode,
}

/// A static: optionally typed, always initialized, optionally mutable.
#[derive(Debug)]
pub struct StaticNode {
    pub name: String,
    pub ty: Option<TypeNode>,
    pub value: ExpressionNode,
    pub mutable: bool,
}

/// Model of an item.
pub struct ItemV {
    pub kind: ItemKindV,
    pub public: bool,
}

/// Model of the item variants.
pub enum ItemKindV {
    Constant(ConstV),
    Static(StaticV),
    Function(FunctionV),
}

/// Model of a constant.
pub struct ConstV {
    pub name: Seq<char>,
    pub ty: TypeV,
    pub value: ExprV,
}

/// Model of a static.
pub struct StaticV {
    pub name: Seq<char>,
    pub ty: Option<TypeV>,
    pub value: ExprV,
    pub mutable: bool,
}

impl View for ConstantNode {
    type V = ConstV;

    open spec fn view(&self) -> ConstV {
        ConstV { name: self.name@, ty: self.ty@, value: expr_view(self.value) }
    }
}

impl View for StaticNode {
    type V = StaticV;

    open spec fn view(&self) -> StaticV {
        StaticV {
            name: self.name@,
            ty: opt_type_view(self.ty),
            value: expr_view(self.value),
            mutable: self.mutable,
        }
    }
}

impl DeepView for ItemNode {
    type V = ItemV;

    open spec fn deep_view(&self) -> ItemV {
        self.view()
    }
}

impl View for ItemNode {
    type V = ItemV;

    open spec fn view(&self) -> ItemV {
        ItemV {
            kind: match self.kind {
                ItemKind::Constant(c) => ItemKindV::Constant(c@),
                ItemKind::Static(s) => ItemKindV::Static(s@),
                ItemKind::Function(f) => ItemKindV::Function(function_view(f)),
            },
            public: self.public,
        }
    }
}

/// The model of a sequence of items.
pub open spec fn items_view(s: Seq<ItemNode>) -> Seq<ItemV>
    decreases s,
{
    if s.len() == 0 {
        Seq::empty()
    } else {
        seq![s[0]@] + items_view(s.subrange(1, s.len() as int))
    }
}

/// A dot-free path of namespace names.
#[derive(Debug)]
pub struct NamespacePath {
    names: Vec<String>,
}

impl NamespacePath {
    /// The names along the path.
    pub closed spec fn names_view(&self) -> Seq<Seq<char>> {
        self.names.deep_view()
    }

    /// A path from its names.
    pub fn new(names: Vec<String>) -> (p: NamespacePath)
        ensures
            p.names_view() == names.deep_view(),
    {
        NamespacePath { names }
    }

    /// The last name of the path.
    pub fn name(&self) -> (r: String)
        requires
            self.names_view().len() > 0,
        ensures
            r@ == self.names_view().last(),
    {
        let r = self.names[self.names.len() - 1].clone();
        proof {
            assert(r@ == self.names@[self.names@.len() - 1]@);
        }
        r
    }

    /// The path with the last name removed, or `None` at the root.
    pub fn parent(&self) -> (r: Option<NamespacePath>)
        requires
            self.names_view().len() > 0,
        ensures
            match r {
                Some(p) => self.names_view().len() > 1 && p.names_view() == self.names_view()
                    .drop_last(),
                None => self.names_view().len() == 1,
            },
    {
        if self.names.len() == 1 {
            None
        } else {
            let mut names: Vec<String> = Vec::new();
            let mut i: usize = 0;
            while i < self.names.len() - 1
                invariant
                    i <= self.names@.len() - 1,
                    names@.len() == i,
                    forall|j: int| 0 <= j < i ==> names@[j]@ == self.names@[j]@,
                decreases self.names@.len() - i,
            {
                let c = self.names[i].clone();
                proof {
                    assert(c@ == self.names@[i as int]@);
                }
                names.push(c);
                i += 1;
            }
            proof {
                assert forall|j: int| 0 <= j < names@.len() implies names.deep_view()[j]
                    == self.names.deep_view().subrange(0, self.names@.len() - 1)[j] by {
                    assert(names@[j]@ == self.names@[j]@);
                }
                assert(names.deep_view() =~= self.names.deep_view().subrange(
                    0,
                    self.names@.len() - 1,
                ));
            }
            proof {
                assert(self.names.deep_view().subrange(0, self.names@.len() - 1)
                    =~= self.names_view().drop_last());
            }
            Some(NamespacePath::new(names))
        }
    }
}

/// A namespace: the root, or a named sub-namespace.
#[derive(Debug)]
pub enum NamespaceKind {
    Root,
    Sub(NamespacePath),
}

/// A namespace and the items declared in it.
#[derive(Debug)]
pub struct NamespaceNode {
    pub kind: NamespaceKind,
    pub items: Vec<ItemNode>,
}

impl NamespaceNode {
    /// A namespace from its kind and items.
    pub fn new(kind: NamespaceKind, items: Vec<ItemNode>) -> (n: NamespaceNode)
        ensures
            n.kind == kind,
            n.items@ == items@,
    {
        NamespaceNode { kind, items }
    }
}

/// Whether a project is a library or a runnable program.
#[derive(Debug, Clone, Copy, PartialEq, Eq, Structural)]
pub enum ProjectKind {
    Package,
    Program,
}

/// A parsed project: its name, kind, and root namespace.
#[derive(Debug)]
pub struct ProjectNode {
    pub name: String,
    pub kind: ProjectKind,
    pub root: NamespaceNode,
}

impl Default for ProjectNode {
    /// An unnamed program with an empty root namespace.
    fn default() -> (p: ProjectNode)
        ensures
            p.name@ == Seq::<char>::empty(),
            p.kind == ProjectKind::Program,
            p.root.kind == NamespaceKind::Root,
            p.root.items@ == Seq::<ItemNode>::empty(),
    {
        ProjectNode {
            name: String::new(),
            kind: ProjectKind::Program,
            root: NamespaceNode { kind: NamespaceKind::Root, items: Vec::new() },
        }
    }
}

/// The element-wise reading of `exprs_view`.
pub proof fn lemma_exprs_view_elems(s: Seq<ExpressionNode>)
    ensures
        exprs_view(s).len() == s.len(),
        forall|i: int| 0 <= i < s.len() ==> exprs_view(s)[i] == expr_view(#[trigger] s[i]),
    decreases s.len(),
{
    if s.len() > 0 {
        lemma_exprs_view_elems(s.subrange(1, s.len() as int));
        assert forall|i: int| 0 <= i < s.len() implies exprs_view(s)[i] == expr_view(
            #[trigger] s[i],
        ) by {
            if i > 0 {
                assert(s.subrange(1, s.len() as int)[i - 1] == s[i]);
            }
        }
    }
}

/// The element-wise reading of `args_view`.
pub proof fn lemma_args_view_elems(s: Seq<ArgumentNode>)
    ensures
        args_view(s).len() == s.len(),
        forall|i: int| 0 <= i < s.len() ==> args_view(s)[i] == (#[trigger] s[i])@,
    decreases s.len(),
{
    if s.len() > 0 {
        lemma_args_view_elems(s.subrange(1, s.len() as int));
        assert forall|i: int| 0 <= i < s.len() implies args_view(s)[i] == (#[trigger] s[i])@ by {
            if i > 0 {
                assert(s.subrange(1, s.len() as int)[i - 1] == s[i]);
            }
        }
    }
}

/// The element-wise reading of `elems_view`.
pub proof fn lemma_elems_view_elems(s: Seq<BodyElementNode>)
    ensures
        elems_view(s).len() == s.len(),
        forall|i: int| 0 <= i < s.len() ==> elems_view(s)[i] == elem_view(#[trigger] s[i]),
    decreases s.len(),
{
    if s.len() > 0 {
        lemma_elems_view_elems(s.subrange(1, s.len() as int));
        assert forall|i: int| 0 <= i < s.len() implies elems_view(s)[i] == elem_view(
            #[trigger] s[i],
        ) by {
            if i > 0 {
                assert(s.subrange(1, s.len() as int)[i - 1] == s[i]);
            }
        }
    }
}

/// The element-wise reading of `items_view`.
pub proof fn lemma_items_view_elems(s: Seq<ItemNode>)
    ensures
        items_view(s).len() == s.len(),
        forall|i: int| 0 <= i < s.len() ==> items_view(s)[i] == (#[trigger] s[i])@,
    decreases s.len(),
{
    if s.len() > 0 {
        lemma_items_view_elems(s.subrange(1, s.len() as int));
        assert forall|i: int| 0 <= i < s.len() implies items_view(s)[i] == (#[trigger] s[i])@ by {
            if i > 0 {
                assert(s.subrange(1, s.len() as int)[i - 1] == s[i]);
            }
        }
    }
}

/// At-least-one-of: an argument carries a type annotation or a default.
pub open spec fn wf_arg(a: ArgV) -> bool {
    a.ty is Some || a.default is Some
}

/// At-least-one-of: a variable declaration carries a type or a value.
pub open spec fn wf_var_decl(v: VarDeclV) -> bool {
    v.ty is Some || v.value is Some
}

/// Every argument and variable declaration under a body keeps the
/// at-least-one-of invariant.
pub open spec fn wf_body(b: BodyV) -> bool
    decreases b, 1int,
{
    match b {
        BodyV::Inline(e) => wf_elem(*e),
        BodyV::Multiline(els) => wf_elems(els),
    }
}

/// Well-formedness of a sequence of body elements.
pub open spec fn wf_elems(s: Seq<ElemV>) -> bool
    decreases s, 0int,
{
    if s.len() == 0 {
        true
    } else {
        wf_elem(s[0]) && wf_elems(s.subrange(1, s.len() as int))
    }
}

/// Well-formedness of a body element.
pub open spec fn wf_elem(e: ElemV) -> bool
    decreases e, 1int,
{
    match e {
        ElemV::Statement(s) => wf_stmt(s),
        ElemV::Body(b) => wf_body(*b),
        ElemV::Empty => true,
    }
}

/// Well-formedness of a statement.
pub open spec fn wf_stmt(s: StmtV) -> bool
    decreases s, 1int,
{
    match s {
        StmtV::Expression(_) => true,
        StmtV::VariableDeclaration(v) => wf_var_decl(v),
        StmtV::FunctionDeclaration(f) => wf_function(*f),
        StmtV::If(i) => wf_if(*i),
        StmtV::WhileLoop(w) => wf_while(*w),
        StmtV::Return(_) => true,
    }
}

/// Well-formedness of an `if` chain.
pub open spec fn wf_if(i: IfV) -> bool
    decreases i, 1int,
{
    wf_body(i.body) && match i.kind {
        IfKindV::If { cond: _, else_branch } => match else_branch {
            Some(e) => wf_if(*e),
            None => true,
        },
        IfKindV::Else => true,
    }
}

/// Well-formedness of a `while` chain.
pub open spec fn wf_while(w: WhileV) -> bool
    decreases w, 1int,
{
    wf_body(w.body) && match w.kind {
        WhileKindV::While { cond: _, else_branch } => match else_branch {
            Some(e) => wf_while(*e),
            None => true,
        },
        WhileKindV::Else => true,
    }
}

/// Well-formedness of a sequence of arguments.
pub open spec fn wf_args(s: Seq<ArgV>) -> bool {
    forall|i: int| 0 <= i < s.len() ==> wf_arg(#[trigger] s[i])
}

/// Well-formedness of a function.
pub open spec fn wf_function(f: FunctionV) -> bool
    decreases f, 1int,
{
    wf_args(f.args) && wf_body(f.body)
}

/// Well-formedness of an item.
pub open spec fn wf_item(i: ItemV) -> bool
    decreases i,
{
    match i.kind {
        ItemKindV::Constant(_) => true,
        ItemKindV::Static(_) => true,
        ItemKindV::Function(f) => wf_function(f),
    }
}

/// Well-formedness of a sequence of items.
pub open spec fn wf_items(s: Seq<ItemV>) -> bool {
    forall|i: int| 0 <= i < s.len() ==> wf_item(#[trigger] s[i])
}

} // verus!
