//! Abstract syntax tree of SuperC programs.
//!
//! Every tree type comes with a mathematical model (`ExprView`, `StmtView`,
//! ...) in which names are character sequences and lists are sequences. The
//! contracts of the parser, the interpreter and the emitters are stated over
//! these models.

use vstd::prelude::*;

verus! {

/// Data types of the language.
#[derive(Debug, PartialEq, Eq)]
pub enum DataType {
    I32,
    I64,
    F32,
    F64,
    Bool,
    /// Element type and number of elements.
    Array(Box<DataType>, usize),
    Void,
}

impl DataType {
    /// A copy of this type.
    pub fn duplicate(&self) -> (r: DataType)
        ensures
            r == *self,
        decreases self,
    {
        match self {
            DataType::I32 => DataType::I32,
            DataType::I64 => DataType::I64,
            DataType::F32 => DataType::F32,
            DataType::F64 => DataType::F64,
            DataType::Bool => DataType::Bool,
            DataType::Array(elem, size) => DataType::Array(Box::new(elem.duplicate()), *size),
            DataType::Void => DataType::Void,
        }
    }
}

impl Clone for DataType {
    fn clone(&self) -> (r: DataType)
        ensures
            r == *self,
    {
        self.duplicate()
    }
}

/// Binary operators.
#[derive(Debug, Clone, Copy, PartialEq, Eq, Structural)]
pub enum BinOp {
    Add,
    Sub,
    Mul,
    Div,
    Mod,
    Eq,
    NotEq,
    Lt,
    Gt,
    LtEq,
    GtEq,
    And,
    Or,
}

/// Unary operators.
#[derive(Debug, Clone, Copy, PartialEq, Eq, Structural)]
pub enum UnaryOp {
    Neg,
    Not,
}

/// Reduction operators.
#[derive(Debug, Clone, Copy, PartialEq, Eq, Structural)]
pub enum ReduceOp {
    Sum,
    Max,
    Min,
    Prod,
}

/// Expressions. A float literal keeps its source text (digits, a point,
/// digits); an integer literal keeps its value.
#[derive(Debug, PartialEq, Eq)]
pub enum Expr {
    IntLit(i64),
    FloatLit(String),
    BoolLit(bool),
    StringLit(String),
    Ident(String),
    /// `array[index]`
    Index(Box<Expr>, Box<Expr>),
    BinOp(Box<Expr>, BinOp, Box<Expr>),
    UnaryOp(UnaryOp, Box<Expr>),
    Call(String, Vec<Expr>),
    Reduce(ReduceOp, Box<Expr>),
}

/// Execution target that tags a block.
#[derive(Debug, Clone, Copy, PartialEq, Eq, Structural)]
pub enum ExecTarget {
    Parallel,
    /// The `seq` target.
    Sequential,
    Gpu,
    Asm,
}

/// Statements.
#[derive(Debug, PartialEq, Eq)]
pub enum Stmt {
    DataDecl { name: String, dtype: DataType },
    Assign { target: String, index: Option<Expr>, value: Expr },
    ExecBlock { target: ExecTarget, body: Vec<Stmt> },
    If { cond: Expr, then_body: Vec<Stmt>, else_body: Option<Vec<Stmt>> },
    For { var: String, start: Expr, end: Expr, body: Vec<Stmt> },
    ExprStmt(Expr),
    Return(Option<Expr>),
}

/// A function parameter.
#[derive(Debug, Clone, PartialEq, Eq)]
pub struct Param {
    pub name: String,
    pub dtype: DataType,
}

/// A function definition.
#[derive(Debug, PartialEq, Eq)]
pub struct FnDef {
    pub name: String,
    pub params: Vec<Param>,
    pub ret_type: DataType,
    pub body: Vec<Stmt>,
}

/// A whole program: function definitions and top-level statements.
#[derive(Debug, PartialEq, Eq)]
pub struct Program {
    pub functions: Vec<FnDef>,
    pub statements: Vec<Stmt>,
}

/// Model of [`Expr`].
pub enum ExprView {
    IntLit(i64),
    FloatLit(Seq<char>),
    BoolLit(bool),
    StringLit(Seq<char>),
    Ident(Seq<char>),
    Index(Box<ExprView>, Box<ExprView>),
    BinOp(Box<ExprView>, BinOp, Box<ExprView>),
    UnaryOp(UnaryOp, Box<ExprView>),
    Call(Seq<char>, Seq<ExprView>),
    Reduce(ReduceOp, Box<ExprView>),
}

/// Model of [`Stmt`].
pub enum StmtView {
    DataDecl { name: Seq<char>, dtype: DataType },
    Assign { target: Seq<char>, index: Option<ExprView>, value: ExprView },
    ExecBlock { target: ExecTarget, body: Seq<StmtView> },
    If { cond: ExprView, then_body: Seq<StmtView>, else_body: Option<Seq<StmtView>> },
    For { var: Seq<char>, start: ExprView, end: ExprView, body: Seq<StmtView> },
    ExprStmt(ExprView),
    Return(Option<ExprView>),
}

/// Model of [`Param`].
pub struct ParamView {
    pub name: Seq<char>,
    pub dtype: DataType,
}

/// Model of [`FnDef`].
pub struct FnDefView {
    pub name: Seq<char>,
    pub params: Seq<ParamView>,
    pub ret_type: DataType,
    pub body: Seq<StmtView>,
}

/// Model of [`Program`].
pub struct ProgramView {
    pub functions: Seq<FnDefView>,
    pub statements: Seq<StmtView>,
}

/// The model of an expression.
pub open spec fn expr_view(e: Expr) -> ExprView
    decreases e,
{
    match e {
        Expr::IntLit(n) => ExprView::IntLit(n),
        Expr::FloatLit(t) => ExprView::FloatLit(t@),
        Expr::BoolLit(b) => ExprView::BoolLit(b),
        Expr::StringLit(t) => ExprView::StringLit(t@),
        Expr::Ident(name) => ExprView::Ident(name@),
        Expr::Index(array, index) => ExprView::Index(
            Box::new(expr_view(*array)),
            Box::new(expr_view(*index)),
        ),
        Expr::BinOp(left, op, right) => ExprView::BinOp(
            Box::new(expr_view(*left)),
            op,
            Box::new(expr_view(*right)),
        ),
        Expr::UnaryOp(op, inner) => ExprView::UnaryOp(op, Box::new(expr_view(*inner))),
        Expr::Call(name, args) => ExprView::Call(
            name@,
            Seq::new(
                args@.len(),
                |i: int|
                    if 0 <= i < args@.len() {
                        expr_view(args@[i])
                    } else {
                        ExprView::BoolLit(false)
                    },
            ),
        ),
        Expr::Reduce(op, array) => ExprView::Reduce(op, Box::new(expr_view(*array))),
    }
}

/// The model of an optional expression.
pub open spec fn opt_expr_view(e: Option<Expr>) -> Option<ExprView> {
    match e {
        Some(x) => Some(expr_view(x)),
        None => None,
    }
}

/// The models of a list of expressions, in order.
pub open spec fn exprs_view(es: Seq<Expr>) -> Seq<ExprView> {
    Seq::new(es.len(), |i: int| expr_view(es[i]))
}

/// The model of a statement.
pub open spec fn stmt_view(s: Stmt) -> StmtView
    decreases s,
{
    match s {
        Stmt::DataDecl { name, dtype } => StmtView::DataDecl { name: name@, dtype },
        Stmt::Assign { target, index, value } => StmtView::Assign {
            target: target@,
            index: opt_expr_view(index),
            value: expr_view(value),
        },
        Stmt::ExecBlock { target, body } => StmtView::ExecBlock {
            target,
            body: Seq::new(
                body@.len(),
                |i: int|
                    if 0 <= i < body@.len() {
                        stmt_view(body@[i])
                    } else {
                        StmtView::Return(None)
                    },
            ),
        },
        Stmt::If { cond, then_body, else_body } => StmtView::If {
            cond: expr_view(cond),
            then_body: Seq::new(
                then_body@.len(),
                |i: int|
                    if 0 <= i < then_body@.len() {
                        stmt_view(then_body@[i])
                    } else {
                        StmtView::Return(None)
                    },
            ),
            else_body: match else_body {
                Some(stmts) => Some(
                    Seq::new(
                        stmts@.len(),
                        |i: int|
                            if 0 <= i < stmts@.len() {
                                stmt_view(stmts@[i])
                            } else {
                                StmtView::Return(None)
                            },
                    ),
                ),
                None => None,
            },
        },
        Stmt::For { var, start, end, body } => StmtView::For {
            var: var@,
            start: expr_view(start),
            end: expr_view(end),
            body: Seq::new(
                body@.len(),
                |i: int|
                    if 0 <= i < body@.len() {
                        stmt_view(body@[i])
                    } else {
                        StmtView::Return(None)
                    },
            ),
        },
        Stmt::ExprStmt(e) => StmtView::ExprStmt(expr_view(e)),
        Stmt::Return(e) => StmtView::Return(opt_expr_view(e)),
    }
}

/// The models of a list of statements, in order.
pub open spec fn stmts_view(ss: Seq<Stmt>) -> Seq<StmtView> {
    Seq::new(ss.len(), |i: int| stmt_view(ss[i]))
}

/// The models of a list of parameters, in order.
pub open spec fn params_view(ps: Seq<Param>) -> Seq<ParamView> {
    Seq::new(ps.len(), |i: int| ps[i]@)
}

/// The models of a list of function definitions, in order.
pub open spec fn fns_view(fs: Seq<FnDef>) -> Seq<FnDefView> {
    Seq::new(fs.len(), |i: int| fs[i]@)
}

impl View for Expr {
    type V = ExprView;

    open spec fn view(&self) -> ExprView {
        expr_view(*self)
    }
}

impl View for Stmt {
    type V = StmtView;

    open spec fn view(&self) -> StmtView {
        stmt_view(*self)
    }
}

impl View for Param {
    type V = ParamView;

    open spec fn view(&self) -> ParamView {
        ParamView { name: self.name@, dtype: self.dtype }
    }
}

impl View for FnDef {
    type V = FnDefView;

    open spec fn view(&self) -> FnDefView {
        FnDefView {
            name: self.name@,
            params: params_view(self.params@),
            ret_type: self.ret_type,
            body: stmts_view(self.body@),
        }
    }
}

impl View for Program {
    type V = ProgramView;

    open spec fn view(&self) -> ProgramView {
        ProgramView {
            functions: fns_view(self.functions@),
            statements: stmts_view(self.statements@),
        }
    }
}

/// The model of a call has the models of the arguments as its arguments.
pub proof fn lemma_call_view(name: String, args: Vec<Expr>)
    ensures
        expr_view(Expr::Call(name, args)) == ExprView::Call(name@, exprs_view(args@)),
{
    assert(expr_view(Expr::Call(name, args))->Call_1 =~= exprs_view(args@));
}

/// The model of a block statement has the models of its statements as body.
pub proof fn lemma_stmt_view_bodies(s: Stmt)
    ensures
        match s {
            Stmt::ExecBlock { target, body } => stmt_view(s) == (StmtView::ExecBlock {
                target,
                body: stmts_view(body@),
            }),
            Stmt::If { cond, then_body, else_body } => stmt_view(s) == (StmtView::If {
                cond: expr_view(cond),
                then_body: stmts_view(then_body@),
                else_body: match else_body {
                    Some(stmts) => Some(stmts_view(stmts@)),
                    None => None,
                },
            }),
            Stmt::For { var, start, end, body } => stmt_view(s) == (StmtView::For {
                var: var@,
                start: expr_view(start),
                end: expr_view(end),
                body: stmts_view(body@),
            }),
            _ => true,
        },
{
    match s {
        Stmt::ExecBlock { target, body } => {
            assert(stmt_view(s)->ExecBlock_body =~= stmts_view(body@));
        },
        Stmt::If { cond, then_body, else_body } => {
            assert(stmt_view(s)->If_then_body =~= stmts_view(then_body@));
            match else_body {
                Some(stmts) => {
                    assert(stmt_view(s)->If_else_body->0 =~= stmts_view(stmts@));
                },
                None => {},
            }
        },
        Stmt::For { var, start, end, body } => {
            assert(stmt_view(s)->For_body =~= stmts_view(body@));
        },
        _ => {},
    }
}

/// A copy of a list of expressions.
fn duplicate_exprs(es: &Vec<Expr>) -> (r: Vec<Expr>)
    ensures
        exprs_view(r@) == exprs_view(es@),
    decreases es, 0nat,
{
    let mut out: Vec<Expr> = Vec::new();
    let mut i: usize = 0;
    while i < es.len()
        invariant
            i <= es.len(),
            out.len() == i,
            forall|j: int| 0 <= j < i ==> expr_view(out@[j]) == expr_view(es@[j]),
        decreases es.len() - i,
    {
        out.push(es[i].duplicate());
        i += 1;
    }
    assert(exprs_view(out@) =~= exprs_view(es@));
    out
}

impl Expr {
    /// A copy of this expression.
    pub fn duplicate(&self) -> (r: Expr)
        ensures
            r@ == self@,
        decreases self, 1nat,
    {
        match self {
            Expr::IntLit(n) => Expr::IntLit(*n),
            Expr::FloatLit(t) => Expr::FloatLit(t.clone()),
            Expr::BoolLit(b) => Expr::BoolLit(*b),
            Expr::StringLit(t) => Expr::StringLit(t.clone()),
            Expr::Ident(name) => Expr::Ident(name.clone()),
            Expr::Index(array, index) => Expr::Index(
                Box::new(array.duplicate()),
                Box::new(index.duplicate()),
            ),
            Expr::BinOp(left, op, right) => Expr::BinOp(
                Box::new(left.duplicate()),
                *op,
                Box::new(right.duplicate()),
            ),
            Expr::UnaryOp(op, inner) => Expr::UnaryOp(*op, Box::new(inner.duplicate())),
            Expr::Call(name, args) => {
                let copy = duplicate_exprs(args);
                let name_copy = name.clone();
                proof {
                    lemma_call_view(*name, *args);
                    lemma_call_view(name_copy, copy);
                }
                Expr::Call(name_copy, copy)
            },
            Expr::Reduce(op, array) => Expr::Reduce(*op, Box::new(array.duplicate())),
        }
    }
}

impl Clone for Expr {
    fn clone(&self) -> (r: Expr)
        ensures
            r@ == self@,
    {
        self.duplicate()
    }
}

/// A copy of a list of statements.
fn duplicate_stmts(ss: &Vec<Stmt>) -> (r: Vec<Stmt>)
    ensures
        stmts_view(r@) == stmts_view(ss@),
    decreases ss, 0nat,
{
    let mut out: Vec<Stmt> = Vec::new();
    let mut i: usize = 0;
    while i < ss.len()
        invariant
            i <= ss.len(),
            out.len() == i,
            forall|j: int| 0 <= j < i ==> stmt_view(out@[j]) == stmt_view(ss@[j]),
        decreases ss.len() - i,
    {
        out.push(ss[i].duplicate());
        i += 1;
    }
    assert(stmts_view(out@) =~= stmts_view(ss@));
    out
}

impl Stmt {
    /// A copy of this statement.
    pub fn duplicate(&self) -> (r: Stmt)
        ensures
            r@ == self@,
        decreases self, 1nat,
    {
        let copy = match self {
            Stmt::DataDecl { name, dtype } => Stmt::DataDecl {
                name: name.clone(),
                dtype: dtype.duplicate(),
            },
            Stmt::Assign { target, index, value } => Stmt::Assign {
                target: target.clone(),
                index: match index {
                    Some(e) => Some(e.duplicate()),
                    None => None,
                },
                value: value.duplicate(),
            },
            Stmt::ExecBlock { target, body } => Stmt::ExecBlock {
                target: *target,
                body: duplicate_stmts(body),
            },
            Stmt::If { cond, then_body, else_body } => Stmt::If {
                cond: cond.duplicate(),
                then_body: duplicate_stmts(then_body),
                else_body: match else_body {
                    Some(stmts) => Some(duplicate_stmts(stmts)),
                    None => None,
                },
            },
            Stmt::For { var, start, end, body } => Stmt::For {
                var: var.clone(),
                start: start.duplicate(),
                end: end.duplicate(),
                body: duplicate_stmts(body),
            },
            Stmt::ExprStmt(e) => Stmt::ExprStmt(e.duplicate()),
            Stmt::Return(value) => Stmt::Return(
                match value {
                    Some(e) => Some(e.duplicate()),
                    None => None,
                },
            ),
        };
        proof {
            lemma_stmt_view_bodies(*self);
            lemma_stmt_view_bodies(copy);
        }
        copy
    }
}

impl Clone for Stmt {
    fn clone(&self) -> (r: Stmt)
        ensures
            r@ == self@,
    {
        self.duplicate()
    }
}

impl Clone for FnDef {
    fn clone(&self) -> (r: FnDef)
        ensures
            r@ == self@,
    {
        let mut params: Vec<Param> = Vec::new();
        let mut i: usize = 0;
        while i < self.params.len()
            invariant
                i <= self.params.len(),
                params.len() == i,
                forall|j: int| 0 <= j < i ==> params@[j]@ == self.params@[j]@,
            decreases self.params.len() - i,
        {
            params.push(
                Param { name: self.params[i].name.clone(), dtype: self.params[i].dtype.duplicate() },
            );
            i += 1;
        }
        assert(params_view(params@) =~= params_view(self.params@));
        FnDef {
            name: self.name.clone(),
            params,
            ret_type: self.ret_type.duplicate(),
            body: duplicate_stmts(&self.body),
        }
    }
}

impl Clone for Program {
    fn clone(&self) -> (r: Program)
        ensures
            r@ == self@,
    {
        let mut functions: Vec<FnDef> = Vec::new();
        let mut i: usize = 0;
        while i < self.functions.len()
            invariant
                i <= self.functions.len(),
                functions.len() == i,
                forall|j: int| 0 <= j < i ==> functions@[j]@ == self.functions@[j]@,
            decreases self.functions.len() - i,
        {
            functions.push(self.functions[i].clone());
            i += 1;
        }
        assert(fns_view(functions@) =~= fns_view(self.functions@));
        Program { functions, statements: duplicate_stmts(&self.statements) }
    }
}

impl Program {
    /// An empty program.
    pub fn new() -> (r: Self)
        ensures
            r@.functions == Seq::<FnDefView>::empty(),
            r@.statements == Seq::<StmtView>::empty(),
    {
        let r = Self { functions: Vec::new(), statements: Vec::new() };
        assert(r@.functions =~= Seq::<FnDefView>::empty());
        assert(r@.statements =~= Seq::<StmtView>::empty());
        r
    }
}

impl Default for Program {
    fn default() -> (r: Self)
        ensures
            r@.functions == Seq::<FnDefView>::empty(),
            r@.statements == Seq::<StmtView>::empty(),
    {
        Self::new()
    }
}

} // verus!
