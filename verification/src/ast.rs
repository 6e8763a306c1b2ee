//! The syntax tree of a program, and the mathematical value (`view`) of each
//! kind of node, over which every contract of the library is stated.

use vstd::prelude::*;
use vstd::string::*;
use crate::text::{integer_string, integer_text, join3};

verus! {

/// A place in a source text: a line and a column, both counted from 1.
#[derive(Debug, Clone, Copy, PartialEq, Eq, Structural)]
pub struct Position {
    pub line: usize,
    pub column: usize,
}

/// The four primitive types of the language.
#[derive(Debug, Clone, Copy, PartialEq, Eq, Structural)]
pub enum Type {
    Inteiro,
    Decimal,
    Texto,
    Logico,
}

#[derive(Debug, Clone, Copy, PartialEq, Eq, Structural)]
pub enum BinaryOperator {
    Add,
    Subtract,
    Multiply,
    Divide,
    Modulo,
    Equal,
    NotEqual,
    Less,
    LessEqual,
    Greater,
    GreaterEqual,
    And,
    Or,
}

#[derive(Debug, Clone, Copy, PartialEq, Eq, Structural)]
pub enum UnaryOperator {
    Negate,
    Plus,
    Not,
}

/// A literal value. A decimal literal is kept as the digits that were
/// written (`12.50`), so that no rounding happens before code generation.
#[derive(Debug, Clone, PartialEq)]
pub enum Literal {
    Inteiro(i64),
    Decimal(String),
    Texto(String),
    Logico(bool),
}

#[derive(Debug, Clone, PartialEq)]
pub struct Parameter {
    pub param_type: Type,
    pub name: String,
}

#[derive(Debug, PartialEq)]
pub struct Block {
    pub statements: Vec<Statement>,
}

#[derive(Debug, PartialEq)]
pub enum Expr {
    Literal(Literal),
    Variable(String),
    Call(CallExpr),
    BinaryOp(BinaryOperator, Box<Expr>, Box<Expr>),
    UnaryOp(UnaryOperator, Box<Expr>),
}

#[derive(Debug, PartialEq)]
pub struct CallExpr {
    pub function: String,
    pub arguments: Vec<Expr>,
}

#[derive(Debug, PartialEq)]
pub struct VariableDecl {
    /// The place of the first token.
    pub position: Position,
    pub var_type: Type,
    pub name: String,
    pub initializer: Option<Expr>,
}

#[derive(Debug, PartialEq)]
pub struct ExprStmt {
    /// The place of the first token.
    pub position: Position,
    pub expr: Expr,
}

#[derive(Debug, PartialEq)]
pub struct IfStmt {
    /// The place of the first token.
    pub position: Position,
    pub condition: Expr,
    pub then_branch: Block,
    pub else_branch: Option<Block>,
}

#[derive(Debug, PartialEq)]
pub struct WhileStmt {
    /// The place of the first token.
    pub position: Position,
    pub condition: Expr,
    pub body: Block,
}

#[derive(Debug, PartialEq)]
pub struct ForStmt {
    /// The place of the first token.
    pub position: Position,
    pub variable: String,
    pub start: Expr,
    pub end: Expr,
    pub body: Block,
}

#[derive(Debug, PartialEq)]
pub struct ReturnStmt {
    /// The place of the first token.
    pub position: Position,
    pub value: Option<Expr>,
}

#[derive(Debug, PartialEq)]
pub struct WriteStmt {
    /// The place of the first token.
    pub position: Position,
    pub arguments: Vec<Expr>,
}

#[derive(Debug, PartialEq)]
pub struct ReadStmt {
    /// The place of the first token.
    pub position: Position,
    pub target: Expr,
}

#[derive(Debug, PartialEq)]
pub enum Statement {
    VariableDecl(VariableDecl),
    ExprStmt(ExprStmt),
    IfStmt(IfStmt),
    WhileStmt(WhileStmt),
    ForStmt(ForStmt),
    ReturnStmt(ReturnStmt),
    WriteStmt(WriteStmt),
    ReadStmt(ReadStmt),
}

#[derive(Debug, PartialEq)]
pub struct FunctionDecl {
    /// The place of the first token.
    pub position: Position,
    pub return_type: Option<Type>,
    pub name: String,
    pub parameters: Vec<Parameter>,
    pub body: Block,
}

#[derive(Debug, PartialEq)]
pub struct Program {
    pub functions: Vec<FunctionDecl>,
    pub statements: Vec<Statement>,
}

/// The value of a literal.
pub enum LiteralView {
    Inteiro(i64),
    Decimal(Seq<char>),
    Texto(Seq<char>),
    Logico(bool),
}

/// The value of an expression: a finite tree.
pub enum ExprView {
    Literal(LiteralView),
    Variable(Seq<char>),
    Call(Seq<char>, Seq<ExprView>),
    BinaryOp(BinaryOperator, Box<ExprView>, Box<ExprView>),
    UnaryOp(UnaryOperator, Box<ExprView>),
}

/// The value of a statement; a block is the sequence of its statements.
pub enum StatementView {
    VariableDecl { position: Position, var_type: Type, name: Seq<char>, initializer: Option<ExprView> },
    ExprStmt { position: Position, expr: ExprView },
    IfStmt { position: Position,
        condition: ExprView,
        then_branch: Seq<StatementView>,
        else_branch: Option<Seq<StatementView>>,
    },
    WhileStmt { position: Position, condition: ExprView, body: Seq<StatementView> },
    ForStmt { position: Position, variable: Seq<char>, start: ExprView, end: ExprView, body: Seq<StatementView> },
    ReturnStmt { position: Position, value: Option<ExprView> },
    WriteStmt { position: Position, arguments: Seq<ExprView> },
    ReadStmt { position: Position, target: ExprView },
}

pub struct ParameterView {
    pub param_type: Type,
    pub name: Seq<char>,
}

pub struct FunctionDeclView {
    pub position: Position,
    pub return_type: Option<Type>,
    pub name: Seq<char>,
    pub parameters: Seq<ParameterView>,
    pub body: Seq<StatementView>,
}

pub struct ProgramView {
    pub functions: Seq<FunctionDeclView>,
    pub statements: Seq<StatementView>,
}

impl View for Literal {
    type V = LiteralView;

    open spec fn view(&self) -> LiteralView {
        match self {
            Literal::Inteiro(n) => LiteralView::Inteiro(*n),
            Literal::Decimal(d) => LiteralView::Decimal(d@),
            Literal::Texto(s) => LiteralView::Texto(s@),
            Literal::Logico(b) => LiteralView::Logico(*b),
        }
    }
}

impl View for Parameter {
    type V = ParameterView;

    open spec fn view(&self) -> ParameterView {
        ParameterView { param_type: self.param_type, name: self.name@ }
    }
}

/// The value of an expression.
pub open spec fn expr_view(e: Expr) -> ExprView
    decreases e,
{
    match e {
        Expr::Literal(l) => ExprView::Literal(l@),
        Expr::Variable(n) => ExprView::Variable(n@),
        Expr::Call(c) => ExprView::Call(
            c.function@,
            Seq::new(
                c.arguments@.len(),
                |i: int|
                    if 0 <= i < c.arguments@.len() {
                        expr_view(c.arguments@[i])
                    } else {
                        ExprView::Variable(Seq::empty())
                    },
            ),
        ),
        Expr::BinaryOp(op, l, r) => ExprView::BinaryOp(
            op,
            Box::new(expr_view(*l)),
            Box::new(expr_view(*r)),
        ),
        Expr::UnaryOp(op, o) => ExprView::UnaryOp(op, Box::new(expr_view(*o))),
    }
}

impl View for Expr {
    type V = ExprView;

    open spec fn view(&self) -> ExprView {
        expr_view(*self)
    }
}

/// The values of a sequence of expressions, in order.
pub open spec fn exprs_view(v: Seq<Expr>) -> Seq<ExprView> {
    Seq::new(v.len(), |i: int| expr_view(v[i]))
}

/// The value of a statement.
pub open spec fn statement_view(s: Statement) -> StatementView
    decreases s,
{
    match s {
        Statement::VariableDecl(d) => StatementView::VariableDecl { position: d.position,
            var_type: d.var_type,
            name: d.name@,
            initializer: match d.initializer {
                Some(e) => Some(expr_view(e)),
                None => None,
            },
        },
        Statement::ExprStmt(x) => StatementView::ExprStmt { position: x.position, expr: expr_view(x.expr) },
        Statement::IfStmt(x) => StatementView::IfStmt { position: x.position,
            condition: expr_view(x.condition),
            then_branch: block_view(x.then_branch),
            else_branch: match x.else_branch {
                Some(b) => Some(block_view(b)),
                None => None,
            },
        },
        Statement::WhileStmt(x) => StatementView::WhileStmt { position: x.position,
            condition: expr_view(x.condition),
            body: block_view(x.body),
        },
        Statement::ForStmt(x) => StatementView::ForStmt { position: x.position,
            variable: x.variable@,
            start: expr_view(x.start),
            end: expr_view(x.end),
            body: block_view(x.body),
        },
        Statement::ReturnStmt(x) => StatementView::ReturnStmt { position: x.position,
            value: match x.value {
                Some(e) => Some(expr_view(e)),
                None => None,
            },
        },
        Statement::WriteStmt(x) => StatementView::WriteStmt { position: x.position, arguments: exprs_view(x.arguments@) },
        Statement::ReadStmt(x) => StatementView::ReadStmt { position: x.position, target: expr_view(x.target) },
    }
}

/// The value of a block: the values of its statements, in order.
pub open spec fn block_view(b: Block) -> Seq<StatementView>
    decreases b,
{
    Seq::new(
        b.statements@.len(),
        |i: int|
            if 0 <= i < b.statements@.len() {
                statement_view(b.statements@[i])
            } else {
                StatementView::ReturnStmt { position: Position { line: 0, column: 0 }, value: None }
            },
    )
}

/// The values of a sequence of statements, in order.
pub open spec fn statements_view(v: Seq<Statement>) -> Seq<StatementView> {
    Seq::new(v.len(), |i: int| statement_view(v[i]))
}

impl View for Statement {
    type V = StatementView;

    open spec fn view(&self) -> StatementView {
        statement_view(*self)
    }
}

impl View for Block {
    type V = Seq<StatementView>;

    open spec fn view(&self) -> Seq<StatementView> {
        block_view(*self)
    }
}

impl View for FunctionDecl {
    type V = FunctionDeclView;

    open spec fn view(&self) -> FunctionDeclView {
        FunctionDeclView {
            position: self.position,
            return_type: self.return_type,
            name: self.name@,
            parameters: self.parameters@.map_values(|p: Parameter| p@),
            body: self.body@,
        }
    }
}

impl View for Program {
    type V = ProgramView;

    open spec fn view(&self) -> ProgramView {
        ProgramView {
            functions: self.functions@.map_values(|f: FunctionDecl| f@),
            statements: statements_view(self.statements@),
        }
    }
}

/// The value of a call holds the values of its arguments, in order.
pub proof fn lemma_call_view(c: CallExpr)
    ensures
        expr_view(Expr::Call(c)) == ExprView::Call(c.function@, exprs_view(c.arguments@)),
{
    assert(expr_view(Expr::Call(c))->Call_1 =~= exprs_view(c.arguments@));
}

/// The value of a block holds the values of its statements, in order.
pub proof fn lemma_block_view(b: Block)
    ensures
        block_view(b) == statements_view(b.statements@),
{
    assert(block_view(b) =~= statements_view(b.statements@));
}

impl Literal {
    /// The type of a literal is fixed by its form.
    pub open spec fn spec_type(v: LiteralView) -> Type {
        match v {
            LiteralView::Inteiro(_) => Type::Inteiro,
            LiteralView::Decimal(_) => Type::Decimal,
            LiteralView::Texto(_) => Type::Texto,
            LiteralView::Logico(_) => Type::Logico,
        }
    }

    /// The literal as a program writes it: a text between double quotes,
    /// a logical value as `true` or `false`.
    pub open spec fn text(v: LiteralView) -> Seq<char> {
        match v {
            LiteralView::Inteiro(n) => integer_text(n as int),
            LiteralView::Decimal(d) => d,
            LiteralView::Texto(t) => "\""@ + t + "\""@,
            LiteralView::Logico(b) => if b {
                "true"@
            } else {
                "false"@
            },
        }
    }

    /// The literal as a program writes it.
    pub fn to_string(&self) -> (r: String)
        ensures
            r@ == Self::text(self@),
    {
        match self {
            Literal::Inteiro(n) => integer_string(*n),
            Literal::Decimal(d) => d.clone(),
            Literal::Texto(t) => join3("\"", t.as_str(), "\""),
            Literal::Logico(b) => if *b {
                String::from_str("true")
            } else {
                String::from_str("false")
            },
        }
    }

    /// A copy with the same value.
    pub fn duplicate(&self) -> (r: Literal)
        ensures
            r@ == self@,
    {
        match self {
            Literal::Inteiro(n) => Literal::Inteiro(*n),
            Literal::Decimal(d) => Literal::Decimal(d.clone()),
            Literal::Texto(t) => Literal::Texto(t.clone()),
            Literal::Logico(b) => Literal::Logico(*b),
        }
    }
}

impl Parameter {
    /// A copy with the same value.
    pub fn duplicate(&self) -> (r: Parameter)
        ensures
            r@ == self@,
    {
        Parameter { param_type: self.param_type, name: self.name.clone() }
    }
}

/// Copies a list of parameters.
pub fn duplicate_parameters(v: &Vec<Parameter>) -> (r: Vec<Parameter>)
    ensures
        r@.map_values(|p: Parameter| p@) == v@.map_values(|p: Parameter| p@),
{
    let mut out: Vec<Parameter> = Vec::new();
    let mut i: usize = 0;
    while i < v.len()
        invariant
            i <= v.len(),
            out@.len() == i,
            forall|k: int| 0 <= k < i ==> out@[k]@ == v@[k]@,
        decreases v.len() - i,
    {
        out.push(v[i].duplicate());
        i += 1;
    }
    assert(out@.map_values(|p: Parameter| p@) =~= v@.map_values(|p: Parameter| p@));
    out
}

impl Expr {
    /// A copy with the same value.
    pub fn duplicate(&self) -> (r: Expr)
        ensures
            r@ == self@,
        decreases self,
    {
        match self {
            Expr::Literal(l) => Expr::Literal(l.duplicate()),
            Expr::Variable(n) => Expr::Variable(n.clone()),
            Expr::Call(c) => {
                let mut args: Vec<Expr> = Vec::new();
                let mut i: usize = 0;
                while i < c.arguments.len()
                    invariant
                        i <= c.arguments.len(),
                        args@.len() == i,
                        self is Call,
                        self->Call_0 == *c,
                        forall|k: int| 0 <= k < i ==> args@[k]@ == c.arguments@[k]@,
                    decreases c.arguments.len() - i,
                {
                    proof {
                        assert(self->Call_0 == *c);
                        assert(decreases_to!(*self => self->Call_0));
                    }
                    args.push(c.arguments[i].duplicate());
                    i += 1;
                }
                let r = Expr::Call(CallExpr { function: c.function.clone(), arguments: args });
                proof {
                    assert(r@->Call_1 =~= self@->Call_1);
                }
                r
            },
            Expr::BinaryOp(op, l, r) => Expr::BinaryOp(
                *op,
                Box::new(l.duplicate()),
                Box::new(r.duplicate()),
            ),
            Expr::UnaryOp(op, o) => Expr::UnaryOp(*op, Box::new(o.duplicate())),
        }
    }
}

/// Copies a list of expressions.
pub fn duplicate_exprs(v: &Vec<Expr>) -> (r: Vec<Expr>)
    ensures
        exprs_view(r@) == exprs_view(v@),
{
    let mut out: Vec<Expr> = Vec::new();
    let mut i: usize = 0;
    while i < v.len()
        invariant
            i <= v.len(),
            out@.len() == i,
            forall|k: int| 0 <= k < i ==> out@[k]@ == v@[k]@,
        decreases v.len() - i,
    {
        out.push(v[i].duplicate());
        i += 1;
    }
    assert(exprs_view(out@) =~= exprs_view(v@));
    out
}

/// Copies an optional expression.
pub fn duplicate_opt_expr(e: &Option<Expr>) -> (r: Option<Expr>)
    ensures
        r is Some == e is Some,
        r is Some ==> r->0@ == e->0@,
{
    match e {
        Some(x) => Some(x.duplicate()),
        None => None,
    }
}

impl Statement {
    /// A copy with the same value.
    pub fn duplicate(&self) -> (r: Statement)
        ensures
            r@ == self@,
        decreases self, 0nat,
    {
        match self {
            Statement::VariableDecl(d) => Statement::VariableDecl(
                VariableDecl { position: d.position,
                    var_type: d.var_type,
                    name: d.name.clone(),
                    initializer: duplicate_opt_expr(&d.initializer),
                },
            ),
            Statement::ExprStmt(x) => Statement::ExprStmt(ExprStmt { position: x.position, expr: x.expr.duplicate() }),
            Statement::IfStmt(x) => {
                let else_branch = match &x.else_branch {
                    Some(b) => Some(b.duplicate()),
                    None => None,
                };
                Statement::IfStmt(
                    IfStmt { position: x.position,
                        condition: x.condition.duplicate(),
                        then_branch: x.then_branch.duplicate(),
                        else_branch,
                    },
                )
            },
            Statement::WhileStmt(x) => Statement::WhileStmt(
                WhileStmt { position: x.position, condition: x.condition.duplicate(), body: x.body.duplicate() },
            ),
            Statement::ForStmt(x) => Statement::ForStmt(
                ForStmt { position: x.position,
                    variable: x.variable.clone(),
                    start: x.start.duplicate(),
                    end: x.end.duplicate(),
                    body: x.body.duplicate(),
                },
            ),
            Statement::ReturnStmt(x) => Statement::ReturnStmt(
                ReturnStmt { position: x.position, value: duplicate_opt_expr(&x.value) },
            ),
            Statement::WriteStmt(x) => Statement::WriteStmt(
                WriteStmt { position: x.position, arguments: duplicate_exprs(&x.arguments) },
            ),
            Statement::ReadStmt(x) => Statement::ReadStmt(ReadStmt { position: x.position, target: x.target.duplicate() }),
        }
    }
}

impl Block {
    /// A copy with the same value.
    pub fn duplicate(&self) -> (r: Block)
        ensures
            r@ == self@,
        decreases self, 1nat,
    {
        let mut out: Vec<Statement> = Vec::new();
        let mut i: usize = 0;
        while i < self.statements.len()
            invariant
                i <= self.statements.len(),
                out@.len() == i,
                forall|k: int| 0 <= k < i ==> out@[k]@ == self.statements@[k]@,
            decreases self.statements.len() - i,
        {
            out.push(self.statements[i].duplicate());
            i += 1;
        }
        let r = Block { statements: out };
        assert(r@ =~= self@);
        r
    }
}

impl FunctionDecl {
    /// A copy with the same value.
    pub fn duplicate(&self) -> (r: FunctionDecl)
        ensures
            r@ == self@,
    {
        FunctionDecl {
            position: self.position,
            return_type: self.return_type,
            name: self.name.clone(),
            parameters: duplicate_parameters(&self.parameters),
            body: self.body.duplicate(),
        }
    }
}

impl Type {
    /// The keyword that names the type.
    pub open spec fn text(self) -> Seq<char> {
        match self {
            Type::Inteiro => "inteiro"@,
            Type::Decimal => "decimal"@,
            Type::Texto => "texto"@,
            Type::Logico => "logico"@,
        }
    }

    /// The keyword that names the type.
    pub fn as_str(&self) -> (r: &'static str)
        ensures
            r@ == self.text(),
    {
        match self {
            Type::Inteiro => "inteiro",
            Type::Decimal => "decimal",
            Type::Texto => "texto",
            Type::Logico => "logico",
        }
    }

    /// The keyword that names the type, as an owned string.
    pub fn to_string(&self) -> (r: String)
        ensures
            r@ == self.text(),
    {
        String::from_str(self.as_str())
    }

    /// Whether the type is one of the two numeric types.
    pub open spec fn is_numeric(self) -> bool {
        self == Type::Inteiro || self == Type::Decimal
    }
}

impl BinaryOperator {
    /// The operator as it is written in a program.
    pub open spec fn text(self) -> Seq<char> {
        match self {
            BinaryOperator::Add => "+"@,
            BinaryOperator::Subtract => "-"@,
            BinaryOperator::Multiply => "*"@,
            BinaryOperator::Divide => "/"@,
            BinaryOperator::Modulo => "%"@,
            BinaryOperator::Equal => "=="@,
            BinaryOperator::NotEqual => "!="@,
            BinaryOperator::Less => "<"@,
            BinaryOperator::LessEqual => "<="@,
            BinaryOperator::Greater => ">"@,
            BinaryOperator::GreaterEqual => ">="@,
            BinaryOperator::And => "&&"@,
            BinaryOperator::Or => "||"@,
        }
    }

    /// The operator as it is written in a program.
    pub fn as_str(&self) -> (r: &'static str)
        ensures
            r@ == self.text(),
    {
        match self {
            BinaryOperator::Add => "+",
            BinaryOperator::Subtract => "-",
            BinaryOperator::Multiply => "*",
            BinaryOperator::Divide => "/",
            BinaryOperator::Modulo => "%",
            BinaryOperator::Equal => "==",
            BinaryOperator::NotEqual => "!=",
            BinaryOperator::Less => "<",
            BinaryOperator::LessEqual => "<=",
            BinaryOperator::Greater => ">",
            BinaryOperator::GreaterEqual => ">=",
            BinaryOperator::And => "&&",
            BinaryOperator::Or => "||",
        }
    }

    /// The operator as it is written in a program, as an owned string.
    pub fn to_string(&self) -> (r: String)
        ensures
            r@ == self.text(),
    {
        String::from_str(self.as_str())
    }
}

impl UnaryOperator {
    /// The operator as it is written in a program.
    pub open spec fn text(self) -> Seq<char> {
        match self {
            UnaryOperator::Negate => "-"@,
            UnaryOperator::Plus => "+"@,
            UnaryOperator::Not => "!"@,
        }
    }

    /// The name of the operator, as diagnostics give it.
    pub open spec fn name_text(self) -> Seq<char> {
        match self {
            UnaryOperator::Negate => "Negate"@,
            UnaryOperator::Plus => "Plus"@,
            UnaryOperator::Not => "Not"@,
        }
    }

    /// The operator as it is written in a program.
    pub fn as_str(&self) -> (r: &'static str)
        ensures
            r@ == self.text(),
    {
        match self {
            UnaryOperator::Negate => "-",
            UnaryOperator::Plus => "+",
            UnaryOperator::Not => "!",
        }
    }

    /// The name of the operator, as diagnostics give it.
    pub fn name(&self) -> (r: &'static str)
        ensures
            r@ == self.name_text(),
    {
        match self {
            UnaryOperator::Negate => "Negate",
            UnaryOperator::Plus => "Plus",
            UnaryOperator::Not => "Not",
        }
    }

    /// The operator as it is written in a program, as an owned string.
    pub fn to_string(&self) -> (r: String)
        ensures
            r@ == self.text(),
    {
        String::from_str(self.as_str())
    }
}

} // verus!
