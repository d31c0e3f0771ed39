use vstd::prelude::*;

use crate::common::path::NamePath;
use crate::common::position::Position;
use crate::common::string::Utf16String;

verus! {

/// Where a node starts and ends in the source.
#[derive(Clone, Copy, Debug, PartialEq, Eq, Structural)]
pub struct Loc {
    pub start: Position,
    pub end: Position,
}

/// A top-level node.
#[derive(Debug)]
pub enum Node {
    Ns(Namespace),
    Meta(Meta),
    Statement(Statement),
    Expr(Expression),
    Attr(Attribute),
    TypeSource(TypeSource),
}

/// A statement or an expression, where either may stand.
#[derive(Debug)]
pub enum StatementOrExpression {
    Statement(Statement),
    Expression(Expression),
}

/// `:: Name { ... }`
#[derive(Debug)]
pub struct Namespace {
    pub loc: Loc,
    pub name: Utf16String,
    pub members: Vec<NamespaceMember>,
}

/// A member of a namespace: a definition or a nested namespace.
#[derive(Debug)]
pub enum NamespaceMember {
    Def(Definition),
    Ns(Namespace),
}

/// `### name value`
#[derive(Debug)]
pub struct Meta {
    pub loc: Loc,
    pub name: Option<Utf16String>,
    pub value: Expression,
}

/// The statements.
#[derive(Debug)]
pub enum Statement {
    Def(Definition),
    Return(Return),
    Each(Each),
    For(For),
    Loop(Loop),
    Break(Break),
    Continue(Continue),
    Assign(Assign),
}

/// `let`/`var` definitions and function definitions.
#[derive(Debug)]
pub struct Definition {
    pub loc: Loc,
    pub dest: Expression,
    pub var_type: Option<TypeSource>,
    pub expr: Expression,
    pub is_mut: bool,
    pub attr: Vec<Attribute>,
}

/// `#[name value]`
#[derive(Debug)]
pub struct Attribute {
    pub loc: Loc,
    pub name: Utf16String,
    pub value: Expression,
}

/// `return expr`
#[derive(Debug)]
pub struct Return {
    pub loc: Loc,
    pub expr: Expression,
}

/// `each let var, items body`
#[derive(Debug)]
pub struct Each {
    pub loc: Loc,
    pub var: Expression,
    pub items: Expression,
    pub for_statement: Box<StatementOrExpression>,
}

/// `for` loops.
#[derive(Debug)]
pub struct For {
    pub loc: Loc,
    pub iter: ForIterator,
    pub for_statement: Box<StatementOrExpression>,
}

/// What a `for` loop runs over.
#[derive(Debug)]
pub enum ForIterator {
    Range { var: Utf16String, from: Expression, to: Expression },
    Times { times: Expression },
}

/// `loop { ... }`
#[derive(Debug)]
pub struct Loop {
    pub loc: Loc,
    pub statements: Vec<StatementOrExpression>,
}

/// `break`
#[derive(Debug)]
pub struct Break {
    pub loc: Loc,
}

/// `continue`
#[derive(Debug)]
pub struct Continue {
    pub loc: Loc,
}

/// The assignment operators.
#[derive(Clone, Copy, Debug, PartialEq, Eq, Structural)]
pub enum AssignOperator {
    Assign,
    AddAssign,
    SubAssign,
}

/// `dest = expr`, `dest += expr`, `dest -= expr`
#[derive(Debug)]
pub struct Assign {
    pub loc: Loc,
    pub op: AssignOperator,
    pub dest: Expression,
    pub expr: Expression,
}

/// The expressions.
#[derive(Debug)]
pub enum Expression {
    If(If),
    Fn(Fn),
    Match(Match),
    Block(Block),
    Exists(Exists),
    Tmpl(Tmpl),
    Str(Str),
    Num(Num),
    Bool(Bool),
    Null(Null),
    Obj(Obj),
    Arr(Arr),
    Not(Not),
    Identifier(Identifier),
    Call(Call),
    Index(Index),
    Prop(Prop),
    Binary(Binary),
}

/// `if cond ... elif cond ... else ...`
#[derive(Debug)]
pub struct If {
    pub loc: Loc,
    pub cond: Box<Expression>,
    pub then_statement: Box<StatementOrExpression>,
    pub elseif: Vec<Elseif>,
    pub else_statement: Option<Box<StatementOrExpression>>,
}

/// `elif cond ...`
#[derive(Debug)]
pub struct Elseif {
    pub cond: Expression,
    pub then_statement: StatementOrExpression,
}

/// `@(args) { children }`
#[derive(Debug)]
pub struct Fn {
    pub loc: Loc,
    pub args: Vec<FnArg>,
    pub ret_type: Option<TypeSource>,
    pub children: Vec<StatementOrExpression>,
}

/// A parameter of a function.
#[derive(Debug)]
pub struct FnArg {
    pub dest: Expression,
    pub value: FnArgValue,
    pub arg_type: Option<TypeSource>,
}

/// Whether a parameter is optional or has a default.
#[derive(Debug)]
pub enum FnArgValue {
    Optional,
    Required { default: Option<Expression> },
}

/// `match about { q => a, ... }`
#[derive(Debug)]
pub struct Match {
    pub loc: Loc,
    pub about: Box<Expression>,
    pub qs: Vec<(Expression, StatementOrExpression)>,
    pub default: Option<Box<StatementOrExpression>>,
}

/// `eval { statements }`
#[derive(Debug)]
pub struct Block {
    pub loc: Loc,
    pub statements: Vec<StatementOrExpression>,
}

/// `exists identifier`
#[derive(Debug)]
pub struct Exists {
    pub loc: Loc,
    pub identifier: Identifier,
}

/// A template string.
#[derive(Debug)]
pub struct Tmpl {
    pub loc: Loc,
    pub tmpl: Vec<Expression>,
}

/// A string literal.
#[derive(Debug)]
pub struct Str {
    pub loc: Loc,
    pub value: Utf16String,
}

/// A number literal; `value` holds the IEEE-754 bits of the number.
#[derive(Debug)]
pub struct Num {
    pub loc: Loc,
    pub value: u64,
}

/// `true` or `false`
#[derive(Debug)]
pub struct Bool {
    pub loc: Loc,
    pub value: bool,
}

/// `null`
#[derive(Debug)]
pub struct Null {
    pub loc: Loc,
}

/// An object literal; its entries in source order.
#[derive(Debug)]
pub struct Obj {
    pub loc: Loc,
    pub value: Vec<(Utf16String, Expression)>,
}

/// An array literal.
#[derive(Debug)]
pub struct Arr {
    pub loc: Loc,
    pub value: Vec<Expression>,
}

/// `!expr`
#[derive(Debug)]
pub struct Not {
    pub loc: Loc,
    pub expr: Box<Expression>,
}

/// A variable reference.
#[derive(Debug)]
pub struct Identifier {
    pub loc: Loc,
    pub name: NamePath,
}

/// `target(args)`
#[derive(Debug)]
pub struct Call {
    pub loc: Loc,
    pub target: Box<Expression>,
    pub args: Vec<Expression>,
}

/// `target[index]`
#[derive(Debug)]
pub struct Index {
    pub loc: Loc,
    pub target: Box<Expression>,
    pub index: Box<Expression>,
}

/// `target.name`
#[derive(Debug)]
pub struct Prop {
    pub loc: Loc,
    pub target: Box<Expression>,
    pub name: Utf16String,
}

/// `left op right`
#[derive(Debug)]
pub struct Binary {
    pub loc: Loc,
    pub op: BinaryOperator,
    pub left: Box<Expression>,
    pub right: Box<Expression>,
}

/// The binary operators.
#[derive(Clone, Copy, Debug, PartialEq, Eq, Structural)]
pub enum BinaryOperator {
    Arithmetic(BinaryArithmeticOperator),
    Logical(BinaryLogicalOperator),
}

/// The arithmetic and comparison operators.
#[derive(Clone, Copy, Debug, PartialEq, Eq, Structural)]
pub enum BinaryArithmeticOperator {
    Pow,
    Mul,
    Div,
    Rem,
    Add,
    Sub,
    Lt,
    Lteq,
    Gt,
    Gteq,
    Eq,
    Neq,
}

/// The short-circuit operators.
#[derive(Clone, Copy, Debug, PartialEq, Eq, Structural)]
pub enum BinaryLogicalOperator {
    And,
    Or,
}

/// A type annotation as written.
#[derive(Debug)]
pub enum TypeSource {
    NamedTypeSource(NamedTypeSource),
    FnTypeSource(FnTypeSource),
}

/// `name` or `name<inner>`
#[derive(Debug)]
pub struct NamedTypeSource {
    pub loc: Loc,
    pub name: Utf16String,
    pub inner: Option<Box<TypeSource>>,
}

/// `@(args) => result`
#[derive(Debug)]
pub struct FnTypeSource {
    pub loc: Loc,
    pub args: Vec<TypeSource>,
    pub result: Box<TypeSource>,
}

impl BinaryOperator {
    /// How tightly the operator binds, from `||` (loosest) to `^` (tightest).
    pub open spec fn precedence(self) -> u8 {
        match self {
            BinaryOperator::Logical(BinaryLogicalOperator::Or) => 0,
            BinaryOperator::Logical(BinaryLogicalOperator::And) => 1,
            BinaryOperator::Arithmetic(a) => match a {
                BinaryArithmeticOperator::Eq | BinaryArithmeticOperator::Neq => 2,
                BinaryArithmeticOperator::Lt | BinaryArithmeticOperator::Lteq
                | BinaryArithmeticOperator::Gt | BinaryArithmeticOperator::Gteq => 3,
                BinaryArithmeticOperator::Add | BinaryArithmeticOperator::Sub => 4,
                BinaryArithmeticOperator::Mul | BinaryArithmeticOperator::Div
                | BinaryArithmeticOperator::Rem => 5,
                BinaryArithmeticOperator::Pow => 6,
            },
        }
    }

    /// How the operator is written in the source.
    pub open spec fn symbol(self) -> Seq<char> {
        match self {
            BinaryOperator::Logical(BinaryLogicalOperator::Or) => "||"@,
            BinaryOperator::Logical(BinaryLogicalOperator::And) => "&&"@,
            BinaryOperator::Arithmetic(a) => match a {
                BinaryArithmeticOperator::Pow => "^"@,
                BinaryArithmeticOperator::Mul => "*"@,
                BinaryArithmeticOperator::Div => "/"@,
                BinaryArithmeticOperator::Rem => "%"@,
                BinaryArithmeticOperator::Add => "+"@,
                BinaryArithmeticOperator::Sub => "-"@,
                BinaryArithmeticOperator::Lt => "<"@,
                BinaryArithmeticOperator::Lteq => "<="@,
                BinaryArithmeticOperator::Gt => ">"@,
                BinaryArithmeticOperator::Gteq => ">="@,
                BinaryArithmeticOperator::Eq => "=="@,
                BinaryArithmeticOperator::Neq => "!="@,
            },
        }
    }
}

impl Expression {
    /// Where the expression is in the source.
    pub open spec fn loc_spec(&self) -> Loc {
        match self {
            Expression::If(n) => n.loc,
            Expression::Fn(n) => n.loc,
            Expression::Match(n) => n.loc,
            Expression::Block(n) => n.loc,
            Expression::Exists(n) => n.loc,
            Expression::Tmpl(n) => n.loc,
            Expression::Str(n) => n.loc,
            Expression::Num(n) => n.loc,
            Expression::Bool(n) => n.loc,
            Expression::Null(n) => n.loc,
            Expression::Obj(n) => n.loc,
            Expression::Arr(n) => n.loc,
            Expression::Not(n) => n.loc,
            Expression::Identifier(n) => n.loc,
            Expression::Call(n) => n.loc,
            Expression::Index(n) => n.loc,
            Expression::Prop(n) => n.loc,
            Expression::Binary(n) => n.loc,
        }
    }

    /// Where the expression is in the source.
    pub fn loc(&self) -> (r: Loc)
        ensures
            r == self.loc_spec(),
    {
        match self {
            Expression::If(n) => n.loc,
            Expression::Fn(n) => n.loc,
            Expression::Match(n) => n.loc,
            Expression::Block(n) => n.loc,
            Expression::Exists(n) => n.loc,
            Expression::Tmpl(n) => n.loc,
            Expression::Str(n) => n.loc,
            Expression::Num(n) => n.loc,
            Expression::Bool(n) => n.loc,
            Expression::Null(n) => n.loc,
            Expression::Obj(n) => n.loc,
            Expression::Arr(n) => n.loc,
            Expression::Not(n) => n.loc,
            Expression::Identifier(n) => n.loc,
            Expression::Call(n) => n.loc,
            Expression::Index(n) => n.loc,
            Expression::Prop(n) => n.loc,
            Expression::Binary(n) => n.loc,
        }
    }
}

impl Statement {
    /// Where the statement is in the source.
    pub open spec fn loc_spec(&self) -> Loc {
        match self {
            Statement::Def(n) => n.loc,
            Statement::Return(n) => n.loc,
            Statement::Each(n) => n.loc,
            Statement::For(n) => n.loc,
            Statement::Loop(n) => n.loc,
            Statement::Break(n) => n.loc,
            Statement::Continue(n) => n.loc,
            Statement::Assign(n) => n.loc,
        }
    }

    /// Where the statement is in the source.
    pub fn loc(&self) -> (r: Loc)
        ensures
            r == self.loc_spec(),
    {
        match self {
            Statement::Def(n) => n.loc,
            Statement::Return(n) => n.loc,
            Statement::Each(n) => n.loc,
            Statement::For(n) => n.loc,
            Statement::Loop(n) => n.loc,
            Statement::Break(n) => n.loc,
            Statement::Continue(n) => n.loc,
            Statement::Assign(n) => n.loc,
        }
    }
}

impl StatementOrExpression {
    /// Where the node is in the source.
    pub open spec fn loc_spec(&self) -> Loc {
        match self {
            StatementOrExpression::Statement(s) => s.loc_spec(),
            StatementOrExpression::Expression(e) => e.loc_spec(),
        }
    }

    /// Where the node is in the source.
    pub fn loc(&self) -> (r: Loc)
        ensures
            r == self.loc_spec(),
    {
        match self {
            StatementOrExpression::Statement(s) => s.loc(),
            StatementOrExpression::Expression(e) => e.loc(),
        }
    }
}

impl TypeSource {
    /// Where the type annotation is in the source.
    pub open spec fn loc_spec(&self) -> Loc {
        match self {
            TypeSource::NamedTypeSource(n) => n.loc,
            TypeSource::FnTypeSource(n) => n.loc,
        }
    }
}

} // verus!
