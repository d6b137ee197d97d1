use vstd::prelude::*;
use crate::diagnostics::{diagnostic_text, push_signed_dec, render_diagnostic, signed_dec};
use crate::grammar::{
    SProgram, p_items, p_program, program_view,
    SObject, function_view, functions_view, method_functions, methods_view, object_acc, object_section_of,
    object_view, p_constructor, p_function_def, p_members, p_method_def, p_object_def, p_object_sections,
    SParam, fields_view, p_declaration, p_external_symbol, p_field_list, p_module_def, p_param, p_params,
    p_params_loop, p_struct_def, params_view,
    p_array_length, p_opt_init,
    opt_expr_view, opt_type_view, p_assign_like, p_execute, p_import, p_let, p_opt_var_type, p_return,
    p_var_decl, var_decl_view,
    Stop, branches_view, cases_view, lemma_stmt_view_lists, p_block, p_if, p_if_rest, p_loop, p_select,
    p_select_cases, p_stmt, p_stmts, stops,
    lemma_expr_view_lists,
    field_inits_view,
    binop_at,
    p_array, p_binary, p_binary_rest, p_call_args, p_expr, p_expr_list, p_object_create, p_postfix,
    p_postfix_rest, p_primary, p_struct_fields, p_struct_lit, p_take_value, p_type, p_unary,
    expect_assign, expect_ident, expect_tok,
    PState, adv, lemma_adv_measure, measure, opt_str, span_end, start_state,
    SExpr, SLoop, SStmt, expr_view, exprs_view, stmt_view,
    stmts_view,
};
use crate::lexer::{Lexer, Span, SpecToken, Token, find_char, token_eq};
use crate::text::{
    chars_to_string, concat3, copy_string, is_whitespace, is_ws, owned, push_str, same, str_chars,
    str_is, string_push,
};

verus! {

broadcast use vstd::string::group_string_axioms;

/// A whole parsed source file.
#[derive(Debug, Clone, PartialEq)]
pub struct Program {
    pub has_entry: bool,
    pub modules: Vec<ModuleDef>,
    pub imports: Vec<ImportDecl>,
    pub structs: Vec<StructDef>,
    pub objects: Vec<ObjectDef>,
    pub functions: Vec<FunctionDef>,
}

#[derive(Debug, Clone, PartialEq)]
pub struct ModuleDef {
    pub name: String,
}

#[derive(Debug, Clone, PartialEq)]
pub struct ImportDecl {
    pub path: String,
    pub alias: Option<String>,
}

#[derive(Debug, Clone, PartialEq)]
pub struct StructDef {
    pub name: String,
    pub fields: Vec<StructField>,
}

#[derive(Debug, Clone, PartialEq)]
pub struct StructField {
    pub name: String,
    pub field_type: Type,
}

#[derive(Debug, Clone, PartialEq)]
pub struct ObjectDef {
    pub name: String,
    pub fields: Vec<StructField>,
    pub constructor: Option<ConstructorDef>,
    pub methods: Vec<ObjectMethod>,
}

#[derive(Debug, Clone, PartialEq)]
pub struct ConstructorDef {
    pub params: Vec<Param>,
    pub body: Vec<Stmt>,
}

#[derive(Debug, Clone, PartialEq)]
pub struct ObjectMethod {
    pub access: MemberAccess,
    pub function: FunctionDef,
}

#[derive(Debug, Clone, Copy, PartialEq, Eq, Structural)]
pub enum MemberAccess {
    Public,
    Private,
}

#[derive(Debug, Clone, PartialEq)]
pub struct FunctionDef {
    /// The function's name as written in the source.
    pub name: String,
    /// Module path containing this function, if any.
    pub module_name: Option<String>,
    pub params: Vec<Param>,
    pub return_type: Type,
    /// True if this function is the program entry point.
    pub is_entry: bool,
    /// True if this function is implemented outside 问源 source.
    pub is_external: bool,
    /// Explicit native symbol for an external function.
    pub external_symbol: Option<String>,
    pub body: Vec<Stmt>,
}

#[derive(Debug, PartialEq)]
pub enum Stmt {
    VarDecl(VarDecl),
    Assign(AssignStmt),
    ArrayAssign(ArrayAssignStmt),
    FieldAssign(FieldAssignStmt),
    Return(ReturnStmt),
    Import(ImportDecl),
    Execute(ExecuteStmt),
    If(IfStmt),
    Select(SelectStmt),
    Loop(LoopStmt),
}

#[derive(Debug, Clone, PartialEq)]
pub struct AssignStmt {
    pub name: String,
    pub name_span: Span,
    pub span: Span,
    pub value: Expr,
}

#[derive(Debug, Clone, PartialEq)]
pub struct ArrayAssignStmt {
    pub name: String,
    pub name_span: Span,
    pub index: Expr,
    pub span: Span,
    pub value: Expr,
}

#[derive(Debug, Clone, PartialEq)]
pub struct FieldAssignStmt {
    pub base: Expr,
    pub field: String,
    pub span: Span,
    pub value: Expr,
}

#[derive(Debug, Clone, PartialEq)]
pub struct ReturnStmt {
    pub value: Option<Expr>,
}

#[derive(Debug, Clone, PartialEq)]
pub struct ExecuteStmt {
    pub target: String,
    pub args: Vec<Expr>,
}

#[derive(Debug, Clone, PartialEq)]
pub struct VarDecl {
    pub name: String,
    /// Source span of the variable name.
    pub name_span: Span,
    /// Source span of the whole declaration.
    pub span: Span,
    /// Explicit type; `None` when inferred from the initializer.
    pub var_type: Option<Type>,
    pub is_mutable: bool,
    pub init: Option<Expr>,
}

#[derive(Debug, Clone, PartialEq)]
pub struct IfStmt {
    pub branches: Vec<IfBranch>,
    pub else_body: Option<Vec<Stmt>>,
}

#[derive(Debug, Clone, PartialEq)]
pub struct IfBranch {
    pub condition: Expr,
    pub body: Vec<Stmt>,
}

#[derive(Debug, Clone, PartialEq)]
pub struct SelectStmt {
    pub target: String,
    pub cases: Vec<SelectCase>,
    pub default_body: Option<Vec<Stmt>>,
}

#[derive(Debug, Clone, PartialEq)]
pub struct SelectCase {
    pub value: Expr,
    pub body: Vec<Stmt>,
}

#[derive(Debug, Clone, PartialEq)]
pub enum LoopStmt {
    Count { var_name: String, end: Expr, body: Vec<Stmt> },
    Iterate { var_name: String, start: Expr, end: Expr, body: Vec<Stmt> },
    Condition { condition: Expr, body: Vec<Stmt> },
}

/// Expressions. A decimal literal keeps its source text (digits, `.`,
/// digits); its numeric value is taken by the code generator.
#[allow(inconsistent_fields)]
#[derive(Debug, PartialEq)]
pub enum Expr {
    IntLiteral(i64),
    DoubleLiteral(String),
    StringLiteral(String),
    FormattedString(Vec<FormatPart>),
    ArrayLiteral(Vec<Expr>),
    StructLiteral { name: String, fields: Vec<(String, Expr)> },
    ObjectCreate { name: String, args: Vec<Expr> },
    Ident(String),
    Index { array: Box<Expr>, index: Box<Expr> },
    FieldAccess { base: Box<Expr>, field: String },
    MethodCall { receiver: Box<Expr>, method: String, args: Vec<Expr> },
    Call { target: String, type_arg: Option<Type>, args: Vec<Expr> },
    Unary { op: UnaryOp, expr: Box<Expr> },
    Binary { left: Box<Expr>, op: BinaryOp, right: Box<Expr> },
}

#[derive(Debug, Clone, Copy, PartialEq, Eq, Structural)]
pub enum UnaryOp {
    Neg,
    Not,
}

#[derive(Debug, Clone, Copy, PartialEq, Eq, Structural)]
pub enum BinaryOp {
    Add,
    Sub,
    Mul,
    Div,
    Rem,
    Eq,
    NotEq,
    Less,
    LessEq,
    Greater,
    GreaterEq,
    And,
    Or,
}

#[derive(Debug, Clone, PartialEq)]
pub enum FormatPart {
    Text(String),
    Placeholder(String),
}

#[derive(Debug, Clone, PartialEq)]
pub struct Param {
    pub name: String,
    pub param_type: Type,
}

#[derive(Debug, PartialEq)]
pub enum Type {
    Void,
    Int,
    Double,
    Float,
    Bool,
    Char,
    String,
    Struct(String),
    Array { element_type: Box<Type>, length: Option<usize> },
}

/// The mathematical value of a type: names become character sequences.
pub enum SpecType {
    Void,
    Int,
    Double,
    Float,
    Bool,
    Char,
    String,
    Struct(Seq<char>),
    Array { element_type: Box<SpecType>, length: Option<usize> },
}

pub open spec fn type_view(t: Type) -> SpecType
    decreases t,
{
    match t {
        Type::Void => SpecType::Void,
        Type::Int => SpecType::Int,
        Type::Double => SpecType::Double,
        Type::Float => SpecType::Float,
        Type::Bool => SpecType::Bool,
        Type::Char => SpecType::Char,
        Type::String => SpecType::String,
        Type::Struct(n) => SpecType::Struct(n@),
        Type::Array { element_type, length } => SpecType::Array {
            element_type: Box::new(type_view(*element_type)),
            length,
        },
    }
}

impl View for Type {
    type V = SpecType;

    open spec fn view(&self) -> SpecType {
        type_view(*self)
    }
}

impl Type {
    /// The type named by a type keyword; `整型` is another name for `整数`.
    pub fn from_token(tok: &Token) -> (r: Option<Type>)
        ensures
            match r {
                Some(t) => type_keyword(tok@) == Some(t@),
                None => type_keyword(tok@) is None,
            },
    {
        match tok {
            Token::VoidKw => Some(Type::Void),
            Token::IntKw => Some(Type::Int),
            Token::DoubleKw => Some(Type::Double),
            Token::FloatKw => Some(Type::Float),
            Token::BoolKw => Some(Type::Bool),
            Token::CharKw => Some(Type::Char),
            Token::StringKw => Some(Type::String),
            Token::IntTypeKw => Some(Type::Int),
            _ => None,
        }
    }
}

/// The type a type keyword names.
pub open spec fn type_keyword(t: SpecToken) -> Option<SpecType> {
    match t {
        SpecToken::VoidKw => Some(SpecType::Void),
        SpecToken::IntKw => Some(SpecType::Int),
        SpecToken::DoubleKw => Some(SpecType::Double),
        SpecToken::FloatKw => Some(SpecType::Float),
        SpecToken::BoolKw => Some(SpecType::Bool),
        SpecToken::CharKw => Some(SpecType::Char),
        SpecToken::StringKw => Some(SpecType::String),
        SpecToken::IntTypeKw => Some(SpecType::Int),
        _ => None,
    }
}

/// An exact copy of a type.
pub fn copy_type(t: &Type) -> (r: Type)
    ensures
        r@ == t@,
    decreases t,
{
    match t {
        Type::Void => Type::Void,
        Type::Int => Type::Int,
        Type::Double => Type::Double,
        Type::Float => Type::Float,
        Type::Bool => Type::Bool,
        Type::Char => Type::Char,
        Type::String => Type::String,
        Type::Struct(n) => Type::Struct(copy_string(n)),
        Type::Array { element_type, length } => Type::Array {
            element_type: Box::new(copy_type(element_type)),
            length: *length,
        },
    }
}

/// Whether two types are the same.
pub fn type_eq(a: &Type, b: &Type) -> (r: bool)
    ensures
        r == (a@ == b@),
    decreases a,
{
    match (a, b) {
        (Type::Void, Type::Void) => true,
        (Type::Int, Type::Int) => true,
        (Type::Double, Type::Double) => true,
        (Type::Float, Type::Float) => true,
        (Type::Bool, Type::Bool) => true,
        (Type::Char, Type::Char) => true,
        (Type::String, Type::String) => true,
        (Type::Struct(x), Type::Struct(y)) => same(x, y),
        (
            Type::Array { element_type: ea, length: la },
            Type::Array { element_type: eb, length: lb },
        ) => {
            let same_len = match (la, lb) {
                (Some(x), Some(y)) => *x == *y,
                (None, None) => true,
                _ => false,
            };
            same_len && type_eq(ea, eb)
        },
        _ => false,
    }
}

impl Clone for Type {
    fn clone(&self) -> (r: Self)
        ensures
            r@ == self@,
    {
        copy_type(self)
    }
}

fn copy_exprs(v: &Vec<Expr>) -> (r: Vec<Expr>)
    ensures
        r@.len() == v@.len(),
        forall|k: int| 0 <= k < v@.len() ==> expr_view(#[trigger] r@[k]) == expr_view(v@[k]),
        exprs_view(r@) == exprs_view(v@),
    decreases v, 0nat,
{
    let mut r: Vec<Expr> = Vec::new();
    let mut i: usize = 0;
    while i < v.len()
        invariant
            i <= v@.len(),
            r@.len() == i,
            forall|k: int| 0 <= k < i ==> expr_view(#[trigger] r@[k]) == expr_view(v@[k]),
        decreases v@.len() - i,
    {
        proof {
            assert(decreases_to!(v => v@[i as int]));
        }
        r.push(copy_expr(&v[i]));
        i += 1;
    }
    proof {
        assert(exprs_view(r@) =~= exprs_view(v@));
    }
    r
}

fn copy_format_parts(v: &Vec<FormatPart>) -> (r: Vec<FormatPart>)
    ensures
        parts_view(r@) == parts_view(v@),
{
    let mut r: Vec<FormatPart> = Vec::new();
    let mut i: usize = 0;
    while i < v.len()
        invariant
            i <= v@.len(),
            r@.len() == i,
            forall|k: int| 0 <= k < i ==> (#[trigger] r@[k])@ == v@[k]@,
        decreases v@.len() - i,
    {
        let part = match &v[i] {
            FormatPart::Text(t) => FormatPart::Text(copy_string(t)),
            FormatPart::Placeholder(p) => FormatPart::Placeholder(copy_string(p)),
        };
        r.push(part);
        i += 1;
    }
    assert(parts_view(r@) =~= parts_view(v@));
    r
}

fn copy_field_inits(v: &Vec<(String, Expr)>) -> (r: Vec<(String, Expr)>)
    ensures
        r@.len() == v@.len(),
        forall|k: int| 0 <= k < v@.len() ==> (#[trigger] r@[k]).0@ == v@[k].0@ && expr_view(r@[k].1) == expr_view(v@[k].1),
    decreases v, 0nat,
{
    let mut r: Vec<(String, Expr)> = Vec::new();
    let mut i: usize = 0;
    while i < v.len()
        invariant
            i <= v@.len(),
            r@.len() == i,
            forall|k: int| 0 <= k < i ==> (#[trigger] r@[k]).0@ == v@[k].0@ && expr_view(r@[k].1) == expr_view(v@[k].1),
        decreases v@.len() - i,
    {
        proof {
            assert(decreases_to!(v => v@[i as int]));
            assert(decreases_to!(v@[i as int] => v@[i as int].1));
        }
        let (name, value) = &v[i];
        r.push((copy_string(name), copy_expr(value)));
        i += 1;
    }
    r
}

fn copy_opt_type(t: &Option<Type>) -> (r: Option<Type>)
    ensures
        match (r, *t) {
            (Some(a), Some(b)) => a@ == b@,
            (None, None) => true,
            _ => false,
        },
{
    match t {
        Some(t) => Some(copy_type(t)),
        None => None,
    }
}

/// A deep copy of an expression.
fn copy_expr(e: &Expr) -> (r: Expr)
    ensures
        expr_view(r) == expr_view(*e),
    decreases e, 1nat,
{
    match e {
        Expr::IntLiteral(v) => Expr::IntLiteral(*v),
        Expr::DoubleLiteral(v) => Expr::DoubleLiteral(copy_string(v)),
        Expr::StringLiteral(v) => Expr::StringLiteral(copy_string(v)),
        Expr::FormattedString(parts) => Expr::FormattedString(copy_format_parts(parts)),
        Expr::ArrayLiteral(elements) => {
            let c = copy_exprs(elements);
            let r = Expr::ArrayLiteral(c);
            assert(expr_view(r)->Array_0 =~= expr_view(*e)->Array_0);
            r
        },
        Expr::StructLiteral { name, fields } => {
            let r = Expr::StructLiteral { name: copy_string(name), fields: copy_field_inits(fields) };
            assert(expr_view(r)->StructLit_fields =~= expr_view(*e)->StructLit_fields);
            r
        },
        Expr::ObjectCreate { name, args } => {
            let r = Expr::ObjectCreate { name: copy_string(name), args: copy_exprs(args) };
            assert(expr_view(r)->ObjectCreate_args =~= expr_view(*e)->ObjectCreate_args);
            r
        },
        Expr::Ident(n) => Expr::Ident(copy_string(n)),
        Expr::Index { array, index } => Expr::Index {
            array: Box::new(copy_expr(array)),
            index: Box::new(copy_expr(index)),
        },
        Expr::FieldAccess { base, field } => Expr::FieldAccess {
            base: Box::new(copy_expr(base)),
            field: copy_string(field),
        },
        Expr::MethodCall { receiver, method, args } => {
            let r = Expr::MethodCall {
                receiver: Box::new(copy_expr(receiver)),
                method: copy_string(method),
                args: copy_exprs(args),
            };
            assert(expr_view(r)->MethodCall_args =~= expr_view(*e)->MethodCall_args);
            r
        },
        Expr::Call { target, type_arg, args } => {
            let r = Expr::Call {
                target: copy_string(target),
                type_arg: copy_opt_type(type_arg),
                args: copy_exprs(args),
            };
            assert(expr_view(r)->Call_args =~= expr_view(*e)->Call_args);
            r
        },
        Expr::Unary { op, expr } => Expr::Unary { op: *op, expr: Box::new(copy_expr(expr)) },
        Expr::Binary { left, op, right } => Expr::Binary {
            left: Box::new(copy_expr(left)),
            op: *op,
            right: Box::new(copy_expr(right)),
        },
    }
}

impl Clone for Expr {
    fn clone(&self) -> (r: Self)
        ensures
            expr_view(r) == expr_view(*self),
    {
        copy_expr(self)
    }
}

fn copy_opt_expr(e: &Option<Expr>) -> (r: Option<Expr>)
    ensures
        match (r, *e) {
            (Some(a), Some(b)) => expr_view(a) == expr_view(b),
            (None, None) => true,
            _ => false,
        },
{
    match e {
        Some(e) => Some(copy_expr(e)),
        None => None,
    }
}

fn copy_opt_stmts(v: &Option<Vec<Stmt>>) -> (r: Option<Vec<Stmt>>)
    ensures
        match (r, *v) {
            (Some(a), Some(b)) => a@.len() == b@.len() && forall|k: int| 0 <= k < b@.len() ==> stmt_view(#[trigger] a@[k]) == stmt_view(b@[k]),
            (None, None) => true,
            _ => false,
        },
    decreases v, 2nat,
{
    match v {
        Some(body) => Some(copy_stmts(body)),
        None => None,
    }
}

fn copy_if_branches(v: &Vec<IfBranch>) -> (r: Vec<IfBranch>)
    ensures
        r@.len() == v@.len(),
        forall|k: int| 0 <= k < v@.len() ==> expr_view((#[trigger] r@[k]).condition) == expr_view(v@[k].condition)
            && r@[k].body@.len() == v@[k].body@.len()
            && forall|j: int| 0 <= j < v@[k].body@.len() ==> stmt_view(#[trigger] r@[k].body@[j]) == stmt_view(v@[k].body@[j]),
    decreases v, 2nat,
{
    let mut r: Vec<IfBranch> = Vec::new();
    let mut i: usize = 0;
    while i < v.len()
        invariant
            i <= v@.len(),
            r@.len() == i,
            forall|k: int| 0 <= k < i ==> expr_view((#[trigger] r@[k]).condition) == expr_view(v@[k].condition)
                && r@[k].body@.len() == v@[k].body@.len()
                && forall|j: int| 0 <= j < v@[k].body@.len() ==> stmt_view(#[trigger] r@[k].body@[j]) == stmt_view(v@[k].body@[j]),
        decreases v@.len() - i,
    {
        proof {
            assert(decreases_to!(v => v@[i as int]));
            assert(decreases_to!(v@[i as int] => v@[i as int].body));
        }
        let b = &v[i];
        r.push(IfBranch { condition: copy_expr(&b.condition), body: copy_stmts(&b.body) });
        i += 1;
    }
    r
}

fn copy_select_cases(v: &Vec<SelectCase>) -> (r: Vec<SelectCase>)
    ensures
        r@.len() == v@.len(),
        forall|k: int| 0 <= k < v@.len() ==> expr_view((#[trigger] r@[k]).value) == expr_view(v@[k].value)
            && r@[k].body@.len() == v@[k].body@.len()
            && forall|j: int| 0 <= j < v@[k].body@.len() ==> stmt_view(#[trigger] r@[k].body@[j]) == stmt_view(v@[k].body@[j]),
    decreases v, 2nat,
{
    let mut r: Vec<SelectCase> = Vec::new();
    let mut i: usize = 0;
    while i < v.len()
        invariant
            i <= v@.len(),
            r@.len() == i,
            forall|k: int| 0 <= k < i ==> expr_view((#[trigger] r@[k]).value) == expr_view(v@[k].value)
                && r@[k].body@.len() == v@[k].body@.len()
                && forall|j: int| 0 <= j < v@[k].body@.len() ==> stmt_view(#[trigger] r@[k].body@[j]) == stmt_view(v@[k].body@[j]),
        decreases v@.len() - i,
    {
        proof {
            assert(decreases_to!(v => v@[i as int]));
            assert(decreases_to!(v@[i as int] => v@[i as int].body));
        }
        let c = &v[i];
        r.push(SelectCase { value: copy_expr(&c.value), body: copy_stmts(&c.body) });
        i += 1;
    }
    r
}

/// A deep copy of a statement list.
fn copy_stmts(v: &Vec<Stmt>) -> (r: Vec<Stmt>)
    ensures
        r@.len() == v@.len(),
        forall|k: int| 0 <= k < v@.len() ==> stmt_view(#[trigger] r@[k]) == stmt_view(v@[k]),
        stmts_view(r@) == stmts_view(v@),
    decreases v, 1nat,
{
    let mut r: Vec<Stmt> = Vec::new();
    let mut i: usize = 0;
    while i < v.len()
        invariant
            i <= v@.len(),
            r@.len() == i,
            forall|k: int| 0 <= k < i ==> stmt_view(#[trigger] r@[k]) == stmt_view(v@[k]),
        decreases v@.len() - i,
    {
        proof {
            assert(decreases_to!(v => v@[i as int]));
        }
        r.push(copy_stmt(&v[i]));
        i += 1;
    }
    proof {
        assert(stmts_view(r@) =~= stmts_view(v@));
    }
    r
}

/// A deep copy of a statement.
fn copy_stmt(s: &Stmt) -> (r: Stmt)
    ensures
        stmt_view(r) == stmt_view(*s),
    decreases s, 3nat,
{
    match s {
        Stmt::VarDecl(v) => Stmt::VarDecl(
            VarDecl {
                name: copy_string(&v.name),
                name_span: v.name_span,
                span: v.span,
                var_type: copy_opt_type(&v.var_type),
                is_mutable: v.is_mutable,
                init: copy_opt_expr(&v.init),
            },
        ),
        Stmt::Assign(a) => Stmt::Assign(
            AssignStmt {
                name: copy_string(&a.name),
                name_span: a.name_span,
                span: a.span,
                value: copy_expr(&a.value),
            },
        ),
        Stmt::ArrayAssign(a) => Stmt::ArrayAssign(
            ArrayAssignStmt {
                name: copy_string(&a.name),
                name_span: a.name_span,
                index: copy_expr(&a.index),
                span: a.span,
                value: copy_expr(&a.value),
            },
        ),
        Stmt::FieldAssign(a) => Stmt::FieldAssign(
            FieldAssignStmt {
                base: copy_expr(&a.base),
                field: copy_string(&a.field),
                span: a.span,
                value: copy_expr(&a.value),
            },
        ),
        Stmt::Return(r) => Stmt::Return(ReturnStmt { value: copy_opt_expr(&r.value) }),
        Stmt::Import(i) => Stmt::Import(
            ImportDecl { path: copy_string(&i.path), alias: copy_opt_string(&i.alias) },
        ),
        Stmt::Execute(e) => {
            let r = Stmt::Execute(ExecuteStmt { target: copy_string(&e.target), args: copy_exprs(&e.args) });
            assert(stmt_view(r)->Execute_args =~= stmt_view(*s)->Execute_args);
            r
        },
        Stmt::If(i) => {
            proof {
                assert(decreases_to!(s => i.branches));
                assert(decreases_to!(s => i.else_body));
            }
            let r = Stmt::If(
                IfStmt { branches: copy_if_branches(&i.branches), else_body: copy_opt_stmts(&i.else_body) },
            );
            proof {
                let a = stmt_view(r)->If_branches;
                let b = stmt_view(*s)->If_branches;
                assert forall|k: int| 0 <= k < a.len() implies a[k] == b[k] by {
                    assert(a[k].1 =~= b[k].1);
                }
                assert(a =~= b);
                if stmt_view(r)->If_else_body is Some {
                    assert(stmt_view(r)->If_else_body->0 =~= stmt_view(*s)->If_else_body->0);
                }
            }
            r
        },
        Stmt::Select(c) => {
            proof {
                assert(decreases_to!(s => c.cases));
                assert(decreases_to!(s => c.default_body));
            }
            let r = Stmt::Select(
                SelectStmt {
                    target: copy_string(&c.target),
                    cases: copy_select_cases(&c.cases),
                    default_body: copy_opt_stmts(&c.default_body),
                },
            );
            proof {
                let a = stmt_view(r)->Select_cases;
                let b = stmt_view(*s)->Select_cases;
                assert forall|k: int| 0 <= k < a.len() implies a[k] == b[k] by {
                    assert(a[k].1 =~= b[k].1);
                }
                assert(a =~= b);
                if stmt_view(r)->Select_default_body is Some {
                    assert(stmt_view(r)->Select_default_body->0 =~= stmt_view(*s)->Select_default_body->0);
                }
            }
            r
        },
        Stmt::Loop(l) => {
            let nl = match l {
                LoopStmt::Count { var_name, end, body } => LoopStmt::Count {
                    var_name: copy_string(var_name),
                    end: copy_expr(end),
                    body: copy_stmts(body),
                },
                LoopStmt::Iterate { var_name, start, end, body } => LoopStmt::Iterate {
                    var_name: copy_string(var_name),
                    start: copy_expr(start),
                    end: copy_expr(end),
                    body: copy_stmts(body),
                },
                LoopStmt::Condition { condition, body } => LoopStmt::Condition {
                    condition: copy_expr(condition),
                    body: copy_stmts(body),
                },
            };
            let r = Stmt::Loop(nl);
            proof {
                let a = stmt_view(r)->Loop_0;
                let b = stmt_view(*s)->Loop_0;
                match a {
                    SLoop::Count { .. } => {
                        assert(a->Count_body =~= b->Count_body);
                    },
                    SLoop::Iterate { .. } => {
                        assert(a->Iterate_body =~= b->Iterate_body);
                    },
                    SLoop::Condition { .. } => {
                        assert(a->Condition_body =~= b->Condition_body);
                    },
                }
            }
            r
        },
    }
}

impl Clone for Stmt {
    fn clone(&self) -> (r: Self)
        ensures
            stmt_view(r) == stmt_view(*self),
    {
        copy_stmt(self)
    }
}

/// The path of the module that holds an object's methods: `对象-<name>`.
pub open spec fn object_module_name_spec(object_name: Seq<char>) -> Seq<char> {
    "对象-"@ + object_name
}

pub fn object_module_name(object_name: &str) -> (r: String)
    ensures
        r@ == object_module_name_spec(object_name@),
{
    let mut s = owned("对象-");
    push_str(&mut s, object_name);
    s
}

/// The mathematical value of a part of a formatted string.
pub enum SpecFormatPart {
    Text(Seq<char>),
    Placeholder(Seq<char>),
}

impl View for FormatPart {
    type V = SpecFormatPart;

    open spec fn view(&self) -> SpecFormatPart {
        match self {
            FormatPart::Text(t) => SpecFormatPart::Text(t@),
            FormatPart::Placeholder(p) => SpecFormatPart::Placeholder(p@),
        }
    }
}

pub open spec fn parts_view(v: Seq<FormatPart>) -> Seq<SpecFormatPart> {
    v.map_values(|p: FormatPart| p@)
}

/// The offset of the first non-whitespace character at or after `i`.
pub open spec fn trim_front(s: Seq<char>, i: int) -> int
    decreases s.len() - i,
{
    if 0 <= i < s.len() && is_ws(s[i]) {
        trim_front(s, i + 1)
    } else {
        i
    }
}

/// The end of `s[..j]` once trailing whitespace at or after `lo` is removed.
pub open spec fn trim_back(s: Seq<char>, lo: int, j: int) -> int
    decreases j - lo,
{
    if lo < j && j <= s.len() && is_ws(s[j - 1]) {
        trim_back(s, lo, j - 1)
    } else {
        j
    }
}

/// `s` without leading and trailing whitespace.
pub open spec fn trim(s: Seq<char>) -> Seq<char> {
    let lo = trim_front(s, 0);
    s.subrange(lo, trim_back(s, lo, s.len() as int))
}

/// Text parts accumulate characters; `{{` and `}}` stand for `{` and `}`;
/// `{name}` is a placeholder whose name is trimmed and must not be empty.
pub open spec fn format_parts_from(
    s: Seq<char>,
    i: int,
    parts: Seq<SpecFormatPart>,
    text: Seq<char>,
) -> Result<Seq<SpecFormatPart>, Seq<char>>
    decreases s.len() - i,
{
    if i < 0 || i >= s.len() {
        Ok(if text.len() > 0 { parts.push(SpecFormatPart::Text(text)) } else { parts })
    } else if s[i] == '{' {
        if i + 1 < s.len() && s[i + 1] == '{' {
            format_parts_from(s, i + 2, parts, text.push('{'))
        } else {
            let flushed = if text.len() > 0 { parts.push(SpecFormatPart::Text(text)) } else { parts };
            let e = find_char(s, i + 1, '}');
            if e >= s.len() || e < i + 1 {
                Err("Unclosed placeholder in formatted string"@)
            } else {
                let name = trim(s.subrange(i + 1, e));
                if name.len() == 0 {
                    Err("Empty placeholder in formatted string"@)
                } else {
                    format_parts_from(s, e + 1, flushed.push(SpecFormatPart::Placeholder(name)), Seq::empty())
                }
            }
        }
    } else if s[i] == '}' {
        if i + 1 < s.len() && s[i + 1] == '}' {
            format_parts_from(s, i + 2, parts, text.push('}'))
        } else {
            Err("Single '}' in formatted string"@)
        }
    } else {
        format_parts_from(s, i + 1, parts, text.push(s[i]))
    }
}

/// The parts of a formatted string literal's body.
pub open spec fn format_parts_spec(s: Seq<char>) -> Result<Seq<SpecFormatPart>, Seq<char>> {
    format_parts_from(s, 0, Seq::empty(), Seq::empty())
}

proof fn lemma_trim_front_stops(s: Seq<char>, i: int)
    requires
        0 <= i <= s.len(),
    ensures
        i <= trim_front(s, i) <= s.len(),
        trim_front(s, i) < s.len() ==> !is_ws(s[trim_front(s, i)]),
    decreases s.len() - i,
{
    if i < s.len() && is_ws(s[i]) {
        lemma_trim_front_stops(s, i + 1);
    }
}

proof fn lemma_trim_back_stops(s: Seq<char>, lo: int, j: int)
    requires
        0 <= lo <= j <= s.len(),
    ensures
        lo <= trim_back(s, lo, j) <= j,
        lo < trim_back(s, lo, j) ==> !is_ws(s[trim_back(s, lo, j) - 1]),
    decreases j - lo,
{
    if lo < j && is_ws(s[j - 1]) {
        lemma_trim_back_stops(s, lo, j - 1);
    }
}

/// A trimmed text neither starts nor ends with whitespace.
pub proof fn lemma_trim_ends(s: Seq<char>)
    ensures
        trim(s).len() > 0 ==> !is_ws(trim(s)[0]) && !is_ws(trim(s).last()),
{
    lemma_trim_front_stops(s, 0);
    let lo = trim_front(s, 0);
    lemma_trim_back_stops(s, lo, s.len() as int);
}

/// A part as parsing leaves it: text is never empty, and a placeholder names
/// something without surrounding whitespace.
pub open spec fn part_well_formed(p: SpecFormatPart) -> bool {
    match p {
        SpecFormatPart::Text(t) => t.len() > 0,
        SpecFormatPart::Placeholder(n) => n.len() > 0 && !is_ws(n[0]) && !is_ws(n.last()),
    }
}

proof fn lemma_format_parts_from_well_formed(
    s: Seq<char>,
    i: int,
    parts: Seq<SpecFormatPart>,
    text: Seq<char>,
)
    requires
        forall|k: int| 0 <= k < parts.len() ==> part_well_formed(#[trigger] parts[k]),
    ensures
        format_parts_from(s, i, parts, text) matches Ok(r) ==> forall|k: int| 0 <= k < r.len() ==> part_well_formed(#[trigger] r[k]),
    decreases s.len() - i,
{
    if i < 0 || i >= s.len() {
    } else if s[i] == '{' {
        if i + 1 < s.len() && s[i + 1] == '{' {
            lemma_format_parts_from_well_formed(s, i + 2, parts, text.push('{'));
        } else {
            let flushed = if text.len() > 0 { parts.push(SpecFormatPart::Text(text)) } else { parts };
            let e = find_char(s, i + 1, '}');
            if !(e >= s.len() || e < i + 1) {
                let name = trim(s.subrange(i + 1, e));
                lemma_trim_ends(s.subrange(i + 1, e));
                if name.len() > 0 {
                    let next = flushed.push(SpecFormatPart::Placeholder(name));
                    assert forall|k: int| 0 <= k < next.len() implies part_well_formed(#[trigger] next[k]) by {
                        if k < parts.len() {
                            assert(next[k] == parts[k]);
                        }
                    }
                    lemma_format_parts_from_well_formed(s, e + 1, next, Seq::empty());
                }
            }
        }
    } else if s[i] == '}' {
        if i + 1 < s.len() && s[i + 1] == '}' {
            lemma_format_parts_from_well_formed(s, i + 2, parts, text.push('}'));
        }
    } else {
        lemma_format_parts_from_well_formed(s, i + 1, parts, text.push(s[i]));
    }
}

/// Splitting a formatted string gives no empty text part, and every
/// placeholder names something without surrounding whitespace.
pub proof fn lemma_format_parts_well_formed(s: Seq<char>)
    ensures
        format_parts_spec(s) matches Ok(r) ==> forall|k: int| 0 <= k < r.len() ==> part_well_formed(#[trigger] r[k]),
{
    lemma_format_parts_from_well_formed(s, 0, Seq::empty(), Seq::empty());
}

/// The first malformed place of a formatted string's body from `i` on,
/// scanning left to right with `{{` and `}}` as escapes: a `{` with no `}`
/// after it, a placeholder whose name is blank, or a single `}` outside a
/// placeholder. `None` when there is none.
pub open spec fn format_scan_error(s: Seq<char>, i: int) -> Option<Seq<char>>
    decreases s.len() - i,
{
    if i < 0 || i >= s.len() {
        None
    } else if s[i] == '{' {
        if i + 1 < s.len() && s[i + 1] == '{' {
            format_scan_error(s, i + 2)
        } else {
            let e = find_char(s, i + 1, '}');
            if e >= s.len() || e < i + 1 {
                Some("Unclosed placeholder in formatted string"@)
            } else if trim(s.subrange(i + 1, e)).len() == 0 {
                Some("Empty placeholder in formatted string"@)
            } else {
                format_scan_error(s, e + 1)
            }
        }
    } else if s[i] == '}' {
        if i + 1 < s.len() && s[i + 1] == '}' {
            format_scan_error(s, i + 2)
        } else {
            Some("Single '}' in formatted string"@)
        }
    } else {
        format_scan_error(s, i + 1)
    }
}

proof fn lemma_format_parts_from_errors(s: Seq<char>, i: int, parts: Seq<SpecFormatPart>, text: Seq<char>)
    ensures
        match format_parts_from(s, i, parts, text) {
            Ok(_) => format_scan_error(s, i) is None,
            Err(m) => format_scan_error(s, i) == Some(m),
        },
    decreases s.len() - i,
{
    if i < 0 || i >= s.len() {
    } else if s[i] == '{' {
        if i + 1 < s.len() && s[i + 1] == '{' {
            lemma_format_parts_from_errors(s, i + 2, parts, text.push('{'));
        } else {
            let flushed = if text.len() > 0 { parts.push(SpecFormatPart::Text(text)) } else { parts };
            let e = find_char(s, i + 1, '}');
            if !(e >= s.len() || e < i + 1) {
                let name = trim(s.subrange(i + 1, e));
                if name.len() > 0 {
                    lemma_format_parts_from_errors(s, e + 1, flushed.push(SpecFormatPart::Placeholder(name)), Seq::empty());
                }
            }
        }
    } else if s[i] == '}' {
        if i + 1 < s.len() && s[i + 1] == '}' {
            lemma_format_parts_from_errors(s, i + 2, parts, text.push('}'));
        }
    } else {
        lemma_format_parts_from_errors(s, i + 1, parts, text.push(s[i]));
    }
}

/// Splitting a formatted string fails exactly at its first malformed place
/// (see `format_scan_error`), with that place's message.
pub proof fn lemma_format_parts_errors(s: Seq<char>)
    ensures
        format_parts_spec(s) is Err <==> format_scan_error(s, 0) is Some,
        format_parts_spec(s) matches Err(m) ==> format_scan_error(s, 0) == Some(m),
{
    lemma_format_parts_from_errors(s, 0, Seq::empty(), Seq::empty());
}

/// No two text parts follow each other.
pub open spec fn no_adjacent_text(r: Seq<SpecFormatPart>) -> bool {
    forall|k: int| 0 <= k < r.len() - 1 ==> !(#[trigger] r[k] is Text && r[k + 1] is Text)
}

proof fn lemma_format_parts_from_alternate(
    s: Seq<char>,
    i: int,
    parts: Seq<SpecFormatPart>,
    text: Seq<char>,
)
    requires
        no_adjacent_text(parts),
        parts.len() > 0 ==> parts.last() is Placeholder,
    ensures
        format_parts_from(s, i, parts, text) matches Ok(r) ==> no_adjacent_text(r),
    decreases s.len() - i,
{
    let flushed = if text.len() > 0 { parts.push(SpecFormatPart::Text(text)) } else { parts };
    assert(no_adjacent_text(flushed)) by {
        assert forall|k: int| 0 <= k < flushed.len() - 1 implies !(#[trigger] flushed[k] is Text && flushed[k + 1] is Text) by {
            if k + 1 < parts.len() {
                assert(flushed[k] == parts[k] && flushed[k + 1] == parts[k + 1]);
            } else {
                assert(flushed[k] == parts[k]);
            }
        }
    }
    if i < 0 || i >= s.len() {
    } else if s[i] == '{' {
        if i + 1 < s.len() && s[i + 1] == '{' {
            lemma_format_parts_from_alternate(s, i + 2, parts, text.push('{'));
        } else {
            let e = find_char(s, i + 1, '}');
            if !(e >= s.len() || e < i + 1) {
                let name = trim(s.subrange(i + 1, e));
                if name.len() > 0 {
                    let next = flushed.push(SpecFormatPart::Placeholder(name));
                    assert forall|k: int| 0 <= k < next.len() - 1 implies !(#[trigger] next[k] is Text && next[k + 1] is Text) by {
                        if k + 1 < flushed.len() {
                            assert(next[k] == flushed[k] && next[k + 1] == flushed[k + 1]);
                        }
                    }
                    lemma_format_parts_from_alternate(s, e + 1, next, Seq::empty());
                }
            }
        }
    } else if s[i] == '}' {
        if i + 1 < s.len() && s[i + 1] == '}' {
            lemma_format_parts_from_alternate(s, i + 2, parts, text.push('}'));
        }
    } else {
        lemma_format_parts_from_alternate(s, i + 1, parts, text.push(s[i]));
    }
}

/// Splitting a formatted string never gives two text parts in a row: the
/// text between two placeholders is one part.
pub proof fn lemma_format_parts_alternate(s: Seq<char>)
    ensures
        format_parts_spec(s) matches Ok(r) ==> no_adjacent_text(r),
{
    lemma_format_parts_from_alternate(s, 0, Seq::empty(), Seq::empty());
}

pub(crate) fn trimmed_bounds(v: &Vec<char>, lo: usize, hi: usize) -> (r: (usize, usize))
    requires
        lo <= hi <= v@.len(),
    ensures
        lo <= r.0 <= r.1 <= hi,
        v@.subrange(r.0 as int, r.1 as int) == trim(v@.subrange(lo as int, hi as int)),
{
    let ghost n = v@.subrange(lo as int, hi as int);
    let mut a = lo;
    while a < hi && is_whitespace(v[a])
        invariant
            lo <= a <= hi <= v@.len(),
            n == v@.subrange(lo as int, hi as int),
            trim_front(n, a - lo) == trim_front(n, 0),
        decreases hi - a,
    {
        a += 1;
    }
    let mut b = hi;
    while b > a && is_whitespace(v[b - 1])
        invariant
            lo <= a <= b <= hi <= v@.len(),
            n == v@.subrange(lo as int, hi as int),
            trim_front(n, 0) == a - lo,
            trim_back(n, a - lo, b - lo) == trim_back(n, a - lo, hi - lo),
        decreases b - a,
    {
        b -= 1;
    }
    assert(v@.subrange(a as int, b as int) =~= n.subrange(a - lo, b - lo));
    (a, b)
}

/// Splits the body of a formatted string literal into text and placeholders.
pub fn parse_format_parts(source: &str) -> (r: Result<Vec<FormatPart>, String>)
    ensures
        match (r, format_parts_spec(source@)) {
            (Ok(parts), Ok(expected)) => parts_view(parts@) == expected,
            (Err(msg), Err(expected)) => msg@ == expected,
            _ => false,
        },
{
    let chars = str_chars(source);
    let mut parts: Vec<FormatPart> = Vec::new();
    let mut text = String::new();
    let mut i: usize = 0;
    assert(parts_view(parts@) =~= Seq::<SpecFormatPart>::empty());
    while i < chars.len()
        invariant
            i <= chars@.len(),
            chars@ == source@,
            format_parts_from(chars@, i as int, parts_view(parts@), text@) == format_parts_spec(source@),
        decreases chars@.len() - i,
    {
        let c = chars[i];
        let ghost s = chars@;
        let ghost pv = parts_view(parts@);
        let ghost tv = text@;
        if c == '{' {
            if i + 1 < chars.len() && chars[i + 1] == '{' {
                string_push(&mut text, '{');
                i += 2;
                continue;
            }
            let ghost flushed = if tv.len() > 0 { pv.push(SpecFormatPart::Text(tv)) } else { pv };
            if text.as_str().unicode_len() > 0 {
                parts.push(FormatPart::Text(text));
                text = String::new();
                assert(parts_view(parts@) =~= flushed);
            }
            assert(parts_view(parts@) == flushed);
            assert(text@ == Seq::<char>::empty());
            let e = find_char_in(&chars, i + 1, '}');
            if e >= chars.len() {
                return Err(owned("Unclosed placeholder in formatted string"));
            }
            let (a, b) = trimmed_bounds(&chars, i + 1, e);
            if a == b {
                return Err(owned("Empty placeholder in formatted string"));
            }
            let name = chars_to_string(&chars, a, b);
            let ghost nv = name@;
            parts.push(FormatPart::Placeholder(name));
            assert(parts_view(parts@) =~= flushed.push(SpecFormatPart::Placeholder(nv)));
            i = e + 1;
        } else if c == '}' {
            if i + 1 < chars.len() && chars[i + 1] == '}' {
                string_push(&mut text, '}');
                i += 2;
            } else {
                return Err(owned("Single '}' in formatted string"));
            }
        } else {
            string_push(&mut text, c);
            i += 1;
        }
    }
    if text.as_str().unicode_len() > 0 {
        let ghost before = parts@;
        parts.push(FormatPart::Text(text));
        assert(parts_view(parts@) =~= parts_view(before).push(parts@.last()@));
    }
    Ok(parts)
}

fn find_char_in(src: &Vec<char>, p: usize, c: char) -> (r: usize)
    requires
        p <= src@.len(),
    ensures
        r as int == find_char(src@, p as int, c),
        p <= r <= src@.len(),
{
    let mut q = p;
    while q < src.len() && src[q] != c
        invariant
            p <= q <= src@.len(),
            find_char(src@, q as int, c) == find_char(src@, p as int, c),
        decreases src@.len() - q,
    {
        q += 1;
    }
    q
}

/// The display name of a token in diagnostics.
pub open spec fn token_name_spec(t: SpecToken) -> Seq<char> {
    match t {
        SpecToken::At => "@"@,
        SpecToken::Declare => "声明"@,
        SpecToken::Entry => "入口"@,
        SpecToken::External => "外部"@,
        SpecToken::Define => "定义"@,
        SpecToken::Method => "方法"@,
        SpecToken::Module => "模块"@,
        SpecToken::StructKw => "结构"@,
        SpecToken::ObjectKw => "对象"@,
        SpecToken::Construct => "构造"@,
        SpecToken::Create => "创建"@,
        SpecToken::ReturnKw => "返回"@,
        SpecToken::If => "判断"@,
        SpecToken::ElseIf => "若"@,
        SpecToken::Else => "否则"@,
        SpecToken::Current => "当前"@,
        SpecToken::Case => "取"@,
        SpecToken::Otherwise => "此外"@,
        SpecToken::TakeValue => "取值"@,
        SpecToken::Loop => "循环"@,
        SpecToken::Count => "计数"@,
        SpecToken::Condition => "条件"@,
        SpecToken::Iterate => "迭代"@,
        SpecToken::VoidKw => "无"@,
        SpecToken::IntKw => "整数"@,
        SpecToken::DoubleKw => "小数"@,
        SpecToken::FloatKw => "浮点"@,
        SpecToken::BoolKw => "布尔"@,
        SpecToken::CharKw => "字符"@,
        SpecToken::StringKw => "字符串"@,
        SpecToken::ArrayKw => "数组"@,
        SpecToken::IntTypeKw => "整型"@,
        SpecToken::Variable => "变量"@,
        SpecToken::Mutable => "可变"@,
        SpecToken::Let => "设"@,
        SpecToken::Hash => "#"@,
        SpecToken::Import => "引用"@,
        SpecToken::AsKw => "为"@,
        SpecToken::Execute => "执行"@,
        SpecToken::LParen => "("@,
        SpecToken::RParen => ")"@,
        SpecToken::LBracket => "["@,
        SpecToken::RBracket => "]"@,
        SpecToken::Colon => ":"@,
        SpecToken::ScopeEnd => "。。"@,
        SpecToken::Comma => ","@,
        SpecToken::Equals => "="@,
        SpecToken::Plus => "+"@,
        SpecToken::Minus => "-"@,
        SpecToken::Star => "*"@,
        SpecToken::Slash => "/"@,
        SpecToken::Percent => "%"@,
        SpecToken::EqEq => "=="@,
        SpecToken::NotEq => "!="@,
        SpecToken::Less => "<"@,
        SpecToken::LessEq => "<="@,
        SpecToken::Greater => ">"@,
        SpecToken::GreaterEq => ">="@,
        SpecToken::AndAnd => "&&"@,
        SpecToken::OrOr => "||"@,
        SpecToken::Bang => "!"@,
        SpecToken::Arrow => "->"@,
        SpecToken::Ident(name) => "标识符 `"@ + name + "`"@,
        SpecToken::IntLiteral(v) => "整数 `"@ + signed_dec(v as int) + "`"@,
        SpecToken::DoubleLiteral(text) => "小数 `"@ + text + "`"@,
        SpecToken::StringLiteral(_) => "字符串字面量"@,
        SpecToken::FormattedStringLiteral(_) => "格式化字符串"@,
        SpecToken::Error(m) => "错误 token（"@ + m + "）"@,
        SpecToken::Eof => "文件结束"@,
    }
}

/// The display name of a token in diagnostics.
pub fn token_name(t: &Token) -> (r: String)
    ensures
        r@ == token_name_spec(t@),
{
    match t {
        Token::At => owned("@"),
        Token::Declare => owned("声明"),
        Token::Entry => owned("入口"),
        Token::External => owned("外部"),
        Token::Define => owned("定义"),
        Token::Method => owned("方法"),
        Token::Module => owned("模块"),
        Token::StructKw => owned("结构"),
        Token::ObjectKw => owned("对象"),
        Token::Construct => owned("构造"),
        Token::Create => owned("创建"),
        Token::ReturnKw => owned("返回"),
        Token::If => owned("判断"),
        Token::ElseIf => owned("若"),
        Token::Else => owned("否则"),
        Token::Current => owned("当前"),
        Token::Case => owned("取"),
        Token::Otherwise => owned("此外"),
        Token::TakeValue => owned("取值"),
        Token::Loop => owned("循环"),
        Token::Count => owned("计数"),
        Token::Condition => owned("条件"),
        Token::Iterate => owned("迭代"),
        Token::VoidKw => owned("无"),
        Token::IntKw => owned("整数"),
        Token::DoubleKw => owned("小数"),
        Token::FloatKw => owned("浮点"),
        Token::BoolKw => owned("布尔"),
        Token::CharKw => owned("字符"),
        Token::StringKw => owned("字符串"),
        Token::ArrayKw => owned("数组"),
        Token::IntTypeKw => owned("整型"),
        Token::Variable => owned("变量"),
        Token::Mutable => owned("可变"),
        Token::Let => owned("设"),
        Token::Hash => owned("#"),
        Token::Import => owned("引用"),
        Token::AsKw => owned("为"),
        Token::Execute => owned("执行"),
        Token::LParen => owned("("),
        Token::RParen => owned(")"),
        Token::LBracket => owned("["),
        Token::RBracket => owned("]"),
        Token::Colon => owned(":"),
        Token::ScopeEnd => owned("。。"),
        Token::Comma => owned(","),
        Token::Equals => owned("="),
        Token::Plus => owned("+"),
        Token::Minus => owned("-"),
        Token::Star => owned("*"),
        Token::Slash => owned("/"),
        Token::Percent => owned("%"),
        Token::EqEq => owned("=="),
        Token::NotEq => owned("!="),
        Token::Less => owned("<"),
        Token::LessEq => owned("<="),
        Token::Greater => owned(">"),
        Token::GreaterEq => owned(">="),
        Token::AndAnd => owned("&&"),
        Token::OrOr => owned("||"),
        Token::Bang => owned("!"),
        Token::Arrow => owned("->"),
        Token::Ident(name) => concat3("标识符 `", name.as_str(), "`"),
        Token::IntLiteral(v) => {
            let mut s = owned("整数 `");
            push_signed_dec(&mut s, *v);
            push_str(&mut s, "`");
            s
        },
        Token::DoubleLiteral(text) => concat3("小数 `", text.as_str(), "`"),
        Token::StringLiteral(_) => owned("字符串字面量"),
        Token::FormattedStringLiteral(_) => owned("格式化字符串"),
        Token::Error(m) => concat3("错误 token（", m.as_str(), "）"),
        Token::Eof => owned("文件结束"),
    }
}

/// The help of a lexical error.
pub open spec fn lexical_help() -> Seq<char> {
    "编译器在这里无法继续稳定地切分 token；请先修正这个字符或字面量。"@
}

/// The parser: a recursive-descent reader over the lexer's tokens.
pub struct Parser {
    lexer: Lexer,
    current: Token,
    /// The next function definition is the entry point.
    next_is_entry: bool,
    /// Whether an entry point was defined.
    has_entry: bool,
    /// The next function definition is an external declaration.
    next_is_external: bool,
    /// Explicit native symbol for the next external function definition.
    next_external_symbol: Option<String>,
    /// Module path for following top-level function definitions.
    current_module: Option<String>,
}

/// Where a list of statements ends.
#[derive(Clone, Copy)]
enum StopAt {
    Scope,
    IfBranch,
    SelectCase,
    ObjectSection,
}

impl View for StopAt {
    type V = Stop;

    closed spec fn view(&self) -> Stop {
        match self {
            StopAt::Scope => Stop::Scope,
            StopAt::IfBranch => Stop::IfBranch,
            StopAt::SelectCase => Stop::SelectCase,
            StopAt::ObjectSection => Stop::ObjectSection,
        }
    }
}

impl StopAt {
    /// Whether `t` ends the statements.
    fn ends(&self, t: &Token) -> (r: bool)
        ensures
            r == stops(self@, t@),
    {
        match self {
            StopAt::Scope => matches!(t, Token::ScopeEnd | Token::Eof),
            StopAt::IfBranch => matches!(t, Token::ElseIf | Token::Else | Token::ScopeEnd | Token::Eof),
            StopAt::SelectCase => matches!(t, Token::Case | Token::Otherwise | Token::ScopeEnd | Token::Eof),
            StopAt::ObjectSection => match t {
                Token::StructKw | Token::Construct | Token::ScopeEnd | Token::Eof => true,
                Token::Ident(s) => str_is(s, "公共成员") || str_is(s, "私有成员"),
                _ => false,
            },
        }
    }
}

/// Whether a parse step left the flags that govern function definitions as
/// they were.
pub open spec fn same_flags(a: Parser, b: Parser) -> bool {
    &&& b.entry_seen() == a.entry_seen()
    &&& b.entry_pending() == a.entry_pending()
    &&& b.external_pending() == a.external_pending()
}

/// The facts every function definition of a parsed program satisfies.
pub open spec fn function_shape(f: FunctionDef) -> bool {
    &&& f.is_external ==> f.body@.len() == 0
    &&& f.external_symbol is Some ==> f.is_external
}

/// The shape of a method read inside an object definition: it lives in the
/// object's module, takes the object as its first parameter `当前`, and is
/// neither an entry point nor external.
pub open spec fn method_shape(f: FunctionDef, object_name: Seq<char>) -> bool {
    &&& f.module_name matches Some(p) && p@ == object_module_name_spec(object_name)
    &&& f.params@.len() >= 1
    &&& f.params@[0].name@ == "当前"@
    &&& f.params@[0].param_type@ == SpecType::Struct(object_name)
    &&& !f.is_entry
    &&& !f.is_external
    &&& f.external_symbol is None
}

/// The laws a parsed program satisfies.
pub open spec fn program_shape(p: Program) -> bool {
    &&& p.has_entry == exists|i: int| 0 <= i < p.functions@.len() && #[trigger] p.functions@[i].is_entry
    &&& forall|i: int| 0 <= i < p.functions@.len() ==> function_shape(#[trigger] p.functions@[i])
    &&& forall|i: int, j: int|
        0 <= i < p.objects@.len() && 0 <= j < p.objects@[i].methods@.len() ==> method_shape(
            #[trigger] p.objects@[i].methods@[j].function,
            p.objects@[i].name@,
        )
}

/// The function list of a program read so far: `has_entry` tells whether
/// one of them is the entry point, and each has the shape of a function.
pub open spec fn functions_shape(has_entry: bool, fs: Seq<FunctionDef>) -> bool {
    &&& has_entry == exists|i: int| 0 <= i < fs.len() && #[trigger] fs[i].is_entry
    &&& forall|i: int| 0 <= i < fs.len() ==> function_shape(#[trigger] fs[i])
}

/// Each method of each object has the shape of a method of that object.
pub open spec fn objects_shape(os: Seq<ObjectDef>) -> bool {
    forall|i: int, j: int|
        0 <= i < os.len() && 0 <= j < os[i].methods@.len() ==> method_shape(
            #[trigger] os[i].methods@[j].function,
            os[i].name@,
        )
}

proof fn lemma_functions_push(fs: Seq<FunctionDef>, f: FunctionDef, has_entry: bool)
    requires
        functions_shape(has_entry, fs),
        function_shape(f),
    ensures
        functions_shape(has_entry || f.is_entry, fs.push(f)),
{
    let gs = fs.push(f);
    assert forall|i: int| 0 <= i < gs.len() implies function_shape(#[trigger] gs[i]) by {
        if i < fs.len() {
            assert(gs[i] == fs[i]);
        }
    }
    if f.is_entry {
        assert(gs[fs.len() as int].is_entry);
    } else if has_entry {
        let k = choose|i: int| 0 <= i < fs.len() && #[trigger] fs[i].is_entry;
        assert(gs[k] == fs[k]);
    } else {
        assert forall|i: int| 0 <= i < gs.len() implies !(#[trigger] gs[i]).is_entry by {
            if i < fs.len() {
                assert(gs[i] == fs[i]);
            }
        }
    }
}

proof fn lemma_functions_append(fs: Seq<FunctionDef>, more: Seq<FunctionDef>, has_entry: bool, object_name: Seq<char>)
    requires
        functions_shape(has_entry, fs),
        forall|j: int| 0 <= j < more.len() ==> method_shape(#[trigger] more[j], object_name),
    ensures
        functions_shape(has_entry, fs + more),
{
    let gs = fs + more;
    assert forall|i: int| 0 <= i < gs.len() implies function_shape(#[trigger] gs[i]) by {
        if i >= fs.len() {
            assert(gs[i] == more[i - fs.len()]);
            assert(method_shape(more[i - fs.len()], object_name));
        } else {
            assert(gs[i] == fs[i]);
        }
    }
    if has_entry {
        let k = choose|i: int| 0 <= i < fs.len() && #[trigger] fs[i].is_entry;
        assert(gs[k] == fs[k]);
        assert(gs[k].is_entry);
    } else {
        assert forall|i: int| 0 <= i < gs.len() implies !(#[trigger] gs[i]).is_entry by {
            if i >= fs.len() {
                assert(gs[i] == more[i - fs.len()]);
                assert(method_shape(more[i - fs.len()], object_name));
            } else {
                assert(gs[i] == fs[i]);
            }
        }
    }
}

proof fn lemma_objects_push(os: Seq<ObjectDef>, o: ObjectDef)
    requires
        objects_shape(os),
        forall|j: int| 0 <= j < o.methods@.len() ==> method_shape(#[trigger] o.methods@[j].function, o.name@),
    ensures
        objects_shape(os.push(o)),
{
    let ps = os.push(o);
    assert forall|i: int, j: int|
        0 <= i < ps.len() && 0 <= j < ps[i].methods@.len() implies method_shape(
            #[trigger] ps[i].methods@[j].function,
            ps[i].name@,
        ) by {
        if i < os.len() {
            assert(ps[i] == os[i]);
        }
    }
}

/// Tokens that end the statements of an `判断` branch.
pub open spec fn ends_if_branch(t: SpecToken) -> bool {
    t is ElseIf || t is Else || t is ScopeEnd || t is Eof
}

/// Tokens that end the statements of a `取` case.
pub open spec fn ends_select_case(t: SpecToken) -> bool {
    t is Case || t is Otherwise || t is ScopeEnd || t is Eof
}

/// Tokens after which `返回` has no value.
pub open spec fn ends_return(t: SpecToken) -> bool {
    t is ScopeEnd || t is ElseIf || t is Else || t is Case || t is Otherwise || t is Eof
}

/// Tokens that end a section of an object definition.
pub open spec fn is_section_boundary(t: SpecToken) -> bool {
    ||| t is StructKw || t is Construct || t is ScopeEnd || t is Eof
    ||| t matches SpecToken::Ident(s) && (s == "公共成员"@ || s == "私有成员"@)
}

impl Parser {
    /// What is left to read: the unread characters, and the current token
    /// unless it is the end of input. Every successful step lowers it.
    pub closed spec fn measure(self) -> nat {
        measure(self.pstate())
    }

    /// The parser's position, as the grammar sees it.
    pub closed spec fn pstate(self) -> PState {
        PState {
            src: self.lexer.chars(),
            off: self.lexer.offset(),
            cur: self.current@,
            span: self.lexer.span(),
            entry_pending: self.next_is_entry,
            has_entry: self.has_entry,
            external_pending: self.next_is_external,
            ext_symbol: opt_str(self.next_external_symbol),
            module: opt_str(self.current_module),
        }
    }

    pub closed spec fn entry_seen(self) -> bool {
        self.has_entry
    }

    pub closed spec fn entry_pending(self) -> bool {
        self.next_is_entry
    }

    pub closed spec fn external_pending(self) -> bool {
        self.next_is_external
    }

    /// A parser positioned on the first token of the lexer's input.
    pub fn new(lexer: Lexer) -> (p: Self)
        ensures
            !p.entry_seen(),
            !p.entry_pending(),
            !p.external_pending(),
            p.pstate() == start_state(lexer.chars(), lexer.offset(), lexer.span()),
    {
        proof {
            reveal(adv);
        }
        let mut lexer = lexer;
        let current = lexer.next_token();
        Parser {
            lexer,
            current,
            next_is_entry: false,
            has_entry: false,
            next_is_external: false,
            next_external_symbol: None,
            current_module: None,
        }
    }

    fn advance(&mut self)
        ensures
            final(self).pstate() == adv(old(self).pstate()),
            final(self).measure() <= old(self).measure(),
            !(old(self).current@ is Eof) ==> final(self).measure() < old(self).measure(),
            same_flags(*old(self), *final(self)),
            final(self).current_module == old(self).current_module,
    {
        proof {
            lemma_adv_measure(self.pstate());
            reveal(adv);
        }
        self.current = self.lexer.next_token();
    }

    /// The span of the current token.
    fn cur_span(&self) -> (r: Span)
        ensures
            r == self.pstate().span,
    {
        self.lexer.last_span()
    }

    /// The diagnostic of the given kind, title and help at the current
    /// token, quoting its source line; only the title where the source is
    /// too long to index.
    pub closed spec fn diagnostic(self, kind: Seq<char>, title: Seq<char>, help: Seq<char>) -> Seq<char> {
        if self.lexer.chars().len() < usize::MAX {
            diagnostic_text(kind, title, self.lexer.name(), self.lexer.chars(), self.lexer.span(), Some(help))
        } else {
            title
        }
    }

    fn render(&self, kind: &str, title: String, help: String) -> (r: String)
        ensures
            r@ == self.diagnostic(kind@, title@, help@),
    {
        let src = self.lexer.source_chars();
        if src.len() < usize::MAX {
            render_diagnostic(kind, title, self.lexer.source_name(), src, self.lexer.last_span(), Some(help))
        } else {
            title
        }
    }

    fn error(&self, title: String, help: &str) -> (r: String)
        ensures
            r@ == self.diagnostic("解析错误"@, title@, help@),
    {
        self.render("解析错误", title, owned(help))
    }

    fn lexical_error(&self, message: &String) -> (r: String)
        ensures
            r@ == self.diagnostic("词法错误"@, message@, lexical_help()),
    {
        self.render(
            "词法错误",
            copy_string(message),
            owned("编译器在这里无法继续稳定地切分 token；请先修正这个字符或字面量。"),
        )
    }

    /// An error for the current token: a lexical error when the lexer
    /// reported one, else a parse error with the given title and help.
    fn error_here(&self, title: String, help: &str) -> (r: String)
        ensures
            r@ == match self.current@ {
                SpecToken::Error(m) => self.diagnostic("词法错误"@, m, lexical_help()),
                _ => self.diagnostic("解析错误"@, title@, help@),
            },
    {
        match &self.current {
            Token::Error(message) => self.lexical_error(message),
            _ => self.error(title, help),
        }
    }

    fn found(&self, before: &str, after: &str) -> (r: String)
        ensures
            r@ == before@ + token_name_spec(self.current@) + after@,
    {
        let name = token_name(&self.current);
        concat3(before, name.as_str(), after)
    }

    /// Consumes `expected`, or fails without moving.
    fn expect(&mut self, expected: &Token) -> (r: Result<(), String>)
        requires
            !(expected@ is Eof),
        ensures
            r is Ok <==> old(self).current@ == expected@,
            r is Ok ==> expect_tok(old(self).pstate(), expected@) == Some(final(self).pstate()),
            r is Err ==> expect_tok(old(self).pstate(), expected@) is None,
            r is Ok ==> final(self).measure() < old(self).measure(),
            final(self).measure() <= old(self).measure(),
            r is Err ==> *final(self) == *old(self),
            same_flags(*old(self), *final(self)),
            final(self).current_module == old(self).current_module,
    {
        if token_eq(&self.current, expected) {
            self.advance();
            Ok(())
        } else {
            let name = token_name(expected);
            let mut title = owned("期望 `");
            push_str(&mut title, name.as_str());
            push_str(&mut title, "`，但找到了 `");
            let found = token_name(&self.current);
            push_str(&mut title, found.as_str());
            push_str(&mut title, "`");
            let mut help = owned("在这里补上 `");
            push_str(&mut help, name.as_str());
            push_str(&mut help, "`，或检查前一行是否少写了分隔符。");
            Err(self.error_here(title, help.as_str()))
        }
    }

    /// Consumes `=` or `为`.
    fn expect_assignment_operator(&mut self) -> (r: Result<(), String>)
        ensures
            r is Ok <==> (old(self).current@ is Equals || old(self).current@ is AsKw),
            r is Ok ==> expect_assign(old(self).pstate()) == Some(final(self).pstate()),
            r is Err ==> expect_assign(old(self).pstate()) is None,
            r is Ok ==> final(self).measure() < old(self).measure(),
            final(self).measure() <= old(self).measure(),
            r is Err ==> *final(self) == *old(self),
            same_flags(*old(self), *final(self)),
            final(self).current_module == old(self).current_module,
    {
        match &self.current {
            Token::Equals | Token::AsKw => {
                self.advance();
                Ok(())
            },
            _ => {
                let title = self.found("期望赋值符号 `=` 或 `为`，但找到了 `", "`");
                Err(self.error_here(title, "赋值可以写成 `名称=表达式`，也可以写成 `名称为表达式`。"))
            },
        }
    }

    fn is_assignment_operator(&self) -> (r: bool)
        ensures
            r == (self.current@ is Equals || self.current@ is AsKw),
    {
        matches!(self.current, Token::Equals | Token::AsKw)
    }

    fn expect_ident(&mut self) -> (r: Result<String, String>)
        ensures
            r is Ok <==> (old(self).current@ is Ident || old(self).current@ is Current),
            r matches Ok(name) ==> name@ == ident_text(old(self).current@),
            r matches Ok(name) ==> (expect_ident(old(self).pstate()) matches Some((n, _, s1)) && n == name@
                && s1 == final(self).pstate()),
            r is Err ==> expect_ident(old(self).pstate()) is None,
            r is Ok ==> final(self).measure() < old(self).measure(),
            final(self).measure() <= old(self).measure(),
            same_flags(*old(self), *final(self)),
            final(self).current_module == old(self).current_module,
    {
        let (name, _) = self.expect_ident_span()?;
        Ok(name)
    }

    /// Consumes an identifier (or `当前`, read as the name `当前`).
    fn expect_ident_span(&mut self) -> (r: Result<(String, Span), String>)
        ensures
            r is Ok <==> (old(self).current@ is Ident || old(self).current@ is Current),
            r matches Ok((name, span)) ==> name@ == ident_text(old(self).current@) && span
                == old(self).pstate().span,
            r matches Ok((name, span)) ==> expect_ident(old(self).pstate()) == Some(
                (name@, span, final(self).pstate()),
            ),
            r is Err ==> expect_ident(old(self).pstate()) is None,
            r is Ok ==> final(self).measure() < old(self).measure(),
            final(self).measure() <= old(self).measure(),
            same_flags(*old(self), *final(self)),
            final(self).current_module == old(self).current_module,
    {
        let span = self.cur_span();
        match &self.current {
            Token::Ident(name) => {
                let name = copy_string(name);
                self.advance();
                Ok((name, span))
            },
            Token::Current => {
                self.advance();
                Ok((owned("当前"), span))
            },
            _ => {
                let title = self.found("期望标识符，但找到了 `", "`");
                Err(
                    self.error_here(
                        title,
                        "标识符通常是方法名、变量名或模块路径，例如 `测试`、`结果`、`标准库-输入输出`。",
                    ),
                )
            },
        }
    }

    /// Parses a whole program.
    pub fn parse_program(self) -> (r: Result<Program, String>)
        requires
            !self.entry_seen(),
            !self.entry_pending(),
            !self.external_pending(),
        ensures
            match r {
                Ok(p) => p_program(self.pstate()) == Some(program_view(p)),
                Err(_) => p_program(self.pstate()) is None,
            },
            r matches Ok(p) ==> program_shape(p),
    {
        let ghost s0 = self.pstate();
        let mut this = self;
        let mut program = Program {
            has_entry: false,
            modules: Vec::new(),
            imports: Vec::new(),
            structs: Vec::new(),
            objects: Vec::new(),
            functions: Vec::new(),
        };
        assert(program_view(program) =~= SProgram {
            has_entry: false,
            modules: Seq::empty(),
            imports: Seq::empty(),
            structs: Seq::empty(),
            objects: Seq::empty(),
            functions: Seq::empty(),
        });
        while !matches!(this.current, Token::Eof)
            invariant
                s0 == self.pstate(),
                p_program(s0) == p_items(this.pstate(), program_view(program)),
                !program.has_entry,
                functions_shape(this.has_entry, program.functions@),
                objects_shape(program.objects@),
            decreases this.measure(),
        {
            let ghost st = this.pstate();
            let ghost pv = program_view(program);
            match this.parse_item(&mut program) {
                Ok(()) => {},
                Err(e) => {
                    assert(p_items(st, pv) is None);
                    return Err(e);
                },
            }
        }
        program.has_entry = this.has_entry;
        Ok(program)
    }

    /// Reads one top-level item into `program`: a module or import
    /// declaration, an `@声明`, or a definition.
    fn parse_item(&mut self, program: &mut Program) -> (r: Result<(), String>)
        requires
            !(old(self).current@ is Eof),
            !old(program).has_entry,
            functions_shape(old(self).has_entry, old(program).functions@),
            objects_shape(old(program).objects@),
        ensures
            match r {
                Ok(_) => p_items(old(self).pstate(), program_view(*old(program))) == p_items(
                    final(self).pstate(),
                    program_view(*final(program)),
                ),
                Err(_) => p_items(old(self).pstate(), program_view(*old(program))) is None,
            },
            r is Ok ==> final(self).measure() < old(self).measure(),
            !final(program).has_entry,
            r is Ok ==> functions_shape(final(self).has_entry, final(program).functions@),
            r is Ok ==> objects_shape(final(program).objects@),
    {
        let ghost acc = program_view(*program);
        match &self.current {
            Token::Hash => {
                let module = self.parse_module_def()?;
                self.current_module = Some(copy_string(&module.name));
                let ghost name = module.name@;
                program.modules.push(module);
                assert(program_view(*program) =~= SProgram { modules: acc.modules.push(name), ..acc });
            },
            Token::Import => {
                let import = self.parse_import_decl()?;
                let ghost item = (import.path@, opt_str(import.alias));
                program.imports.push(import);
                assert(program_view(*program) =~= SProgram { imports: acc.imports.push(item), ..acc });
            },
            Token::At => {
                self.parse_declaration()?;
            },
            Token::Define => {
                self.expect(&Token::Define)?;
                match &self.current {
                    Token::Method => {
                        let ghost before = program.functions@;
                        let func = self.parse_function_def_after_define()?;
                        program.functions.push(func);
                        assert(program_view(*program) =~= SProgram {
                            functions: acc.functions.push(function_view(func)),
                            ..acc
                        });
                        proof {
                            lemma_functions_push(before, func, old(self).has_entry);
                        }
                    },
                    Token::StructKw => {
                        let struct_def = self.parse_struct_def_after_define()?;
                        let ghost item = (struct_def.name@, fields_view(struct_def.fields@));
                        program.structs.push(struct_def);
                        assert(program_view(*program) =~= SProgram { structs: acc.structs.push(item), ..acc });
                    },
                    Token::ObjectKw => {
                        let ghost before = program.functions@;
                        let ghost before_objects = program.objects@;
                        let (object_def, object_functions) = self.parse_object_def_after_define()?;
                        let mut object_functions = object_functions;
                        let ghost fns = object_functions@;
                        program.functions.append(&mut object_functions);
                        program.objects.push(object_def);
                        assert(functions_view(program.functions@) =~= functions_view(before) + functions_view(fns));
                        assert(program_view(*program) =~= SProgram {
                            objects: acc.objects.push(object_view(object_def)),
                            functions: acc.functions + method_functions(object_view(object_def).methods),
                            ..acc
                        });
                        proof {
                            lemma_functions_append(before, fns, self.has_entry, object_def.name@);
                            lemma_objects_push(before_objects, object_def);
                        }
                    },
                    _ => {
                        let title = self.found("`定义` 后期望 `方法` 或 `结构`，但找到了 `", "`");
                        return Err(
                            self.error_here(
                                title,
                                "顶层可以写 `定义 方法 名称（...）返回 ...：...。。` 或 `定义结构名称：字段：类型。。`。",
                            ),
                        );
                    },
                }
            },
            _ => {
                let title = self.found("顶层不允许出现 `", "`");
                return Err(
                    self.error_here(
                        title,
                        "顶层只能写模块声明 `#模块 ...`、引用声明 `引用 模块：...`、`@声明 ...` 或 `定义 方法 ...`。",
                    ),
                );
            },
        }
        Ok(())
    }

    /// Parses `#模块 path`.
    fn parse_module_def(&mut self) -> (r: Result<ModuleDef, String>)
        ensures
            match r {
                Ok(x) => p_module_def(old(self).pstate()) == Some((x.name@, final(self).pstate())),
                Err(_) => p_module_def(old(self).pstate()) is None,
            },
            final(self).current_module == old(self).current_module,
            r is Ok ==> final(self).measure() < old(self).measure(),
            final(self).measure() <= old(self).measure(),
            same_flags(*old(self), *final(self)),
    {
        self.expect(&Token::Hash)?;
        self.expect(&Token::Module)?;
        let name = self.expect_ident()?;
        Ok(ModuleDef { name })
    }

    /// Parses `引用 模块：path [为 alias]`.
    fn parse_import_decl(&mut self) -> (r: Result<ImportDecl, String>)
        ensures
            match r {
                Ok(x) => p_import(old(self).pstate()) == Some(((x.path@, opt_str(x.alias)), final(self).pstate())),
                Err(_) => p_import(old(self).pstate()) is None,
            },
            r is Ok ==> final(self).measure() < old(self).measure(),
            final(self).measure() <= old(self).measure(),
            same_flags(*old(self), *final(self)),
            final(self).current_module == old(self).current_module,
    {
        self.expect(&Token::Import)?;
        self.expect(&Token::Module)?;
        self.expect(&Token::Colon)?;
        let path = self.expect_ident()?;
        let alias = if matches!(self.current, Token::AsKw) {
            self.advance();
            Some(self.expect_ident()?)
        } else {
            None
        };
        Ok(ImportDecl { path, alias })
    }

    /// Parses `@声明 入口` or `@声明 外部[("symbol")]`.
    fn parse_declaration(&mut self) -> (r: Result<(), String>)
        ensures
            match r {
                Ok(_) => p_declaration(old(self).pstate()) == Some(final(self).pstate()),
                Err(_) => p_declaration(old(self).pstate()) is None,
            },
            final(self).current_module == old(self).current_module,
            r is Ok ==> final(self).measure() < old(self).measure(),
            final(self).measure() <= old(self).measure(),
            final(self).entry_seen() == old(self).entry_seen(),
    {
        self.expect(&Token::At)?;
        self.expect(&Token::Declare)?;
        match &self.current {
            Token::Entry => {
                self.advance();
                self.next_is_entry = true;
                Ok(())
            },
            Token::External => {
                self.advance();
                self.next_is_external = true;
                self.next_external_symbol = self.parse_optional_external_symbol()?;
                Ok(())
            },
            _ => {
                let title = self.found("@声明 后只能写 `入口` 或 `外部`，但找到了 `", "`");
                Err(
                    self.error_here(
                        title,
                        "如果要声明入口点，请写 `@声明 入口`；如果要声明外部函数，请写 `@声明 外部`。",
                    ),
                )
            },
        }
    }

    fn parse_optional_external_symbol(&mut self) -> (r: Result<Option<String>, String>)
        ensures
            match r {
                Ok(x) => p_external_symbol(old(self).pstate()) == Some((opt_str(x), final(self).pstate())),
                Err(_) => p_external_symbol(old(self).pstate()) is None,
            },
            final(self).current_module == old(self).current_module,
            final(self).measure() <= old(self).measure(),
            same_flags(*old(self), *final(self)),
    {
        if !matches!(self.current, Token::LParen) {
            return Ok(None);
        }
        self.advance();
        let symbol = match &self.current {
            Token::StringLiteral(symbol) => {
                let symbol = copy_string(symbol);
                self.advance();
                symbol
            },
            _ => {
                let title = self.found("外部符号名必须是字符串，但找到了 `", "`");
                return Err(self.error_here(title, "外部函数可以写成 `@声明 外部(\"rust_symbol\")`。"));
            },
        };
        self.expect(&Token::RParen)?;
        Ok(Some(symbol))
    }

    /// Parses `方法 name（params）返回 type：body。。` after `定义`; an external
    /// declaration has no body.
    fn parse_function_def_after_define(&mut self) -> (r: Result<FunctionDef, String>)
        ensures
            match r {
                Ok(x) => p_function_def(old(self).pstate()) == Some((function_view(x), final(self).pstate())),
                Err(_) => p_function_def(old(self).pstate()) is None,
            },
            r is Ok ==> final(self).measure() < old(self).measure(),
            final(self).measure() <= old(self).measure(),
            r matches Ok(f) ==> {
                &&& f.is_entry == old(self).next_is_entry
                &&& f.is_external == old(self).next_is_external
                &&& function_shape(f)
                &&& final(self).has_entry == (old(self).has_entry || f.is_entry)
            },
            r is Ok ==> !final(self).entry_pending() && !final(self).external_pending(),
    {
        match &self.current {
            Token::Method => {
                self.advance();
            },
            _ => {
                let title = self.found("`定义` 后期望 `方法`，但找到了 `", "`");
                return Err(
                    self.error_here(
                        title,
                        "方法定义形如 `定义 方法 名称（参数：类型）返回 类型：...。。`；变量定义只能写在方法体里。",
                    ),
                );
            },
        }
        let name = self.expect_ident()?;
        self.expect(&Token::LParen)?;
        let params = self.parse_params()?;
        self.expect(&Token::RParen)?;
        self.expect(&Token::ReturnKw)?;
        let return_type = self.parse_type()?;
        let is_entry = self.next_is_entry;
        if is_entry {
            self.has_entry = true;
            self.next_is_entry = false;
        }
        let is_external = self.next_is_external;
        let external_symbol = if is_external {
            let s = self.next_external_symbol.take();
            s
        } else {
            None
        };
        if is_external {
            self.next_is_external = false;
        }
        let body = if is_external {
            Vec::new()
        } else {
            self.expect(&Token::Colon)?;
            self.parse_body()?
        };
        let module_name = match &self.current_module {
            Some(m) => Some(copy_string(m)),
            None => None,
        };
        Ok(
            FunctionDef {
                name,
                module_name,
                params,
                return_type,
                is_entry,
                is_external,
                external_symbol,
                body,
            },
        )
    }

    fn parse_struct_def_after_define(&mut self) -> (r: Result<StructDef, String>)
        ensures
            match r {
                Ok(x) => p_struct_def(old(self).pstate()) == Some(((x.name@, fields_view(x.fields@)), final(self).pstate())),
                Err(_) => p_struct_def(old(self).pstate()) is None,
            },
            r is Ok ==> final(self).measure() < old(self).measure(),
            final(self).measure() <= old(self).measure(),
            same_flags(*old(self), *final(self)),
            final(self).current_module == old(self).current_module,
    {
        self.expect(&Token::StructKw)?;
        let name = self.expect_ident()?;
        self.expect(&Token::Colon)?;
        let fields = self.parse_field_list(StopAt::Scope)?;
        self.expect(&Token::ScopeEnd)?;
        Ok(StructDef { name, fields })
    }

    /// Parses `对象 name：` followed by sections: `结构：` fields, one
    /// `构造方法（...）：` constructor, `公共成员：` and `私有成员：` methods.
    /// The methods are returned a second time as functions of the program.
    #[verifier::loop_isolation(false)]
    fn parse_object_def_after_define(&mut self) -> (r: Result<(ObjectDef, Vec<FunctionDef>), String>)
        ensures
            match r {
                Ok((o, fs)) => p_object_def(old(self).pstate()) == Some((object_view(o), final(self).pstate()))
                    && functions_view(fs@) == method_functions(methods_view(o.methods@)),
                Err(_) => p_object_def(old(self).pstate()) is None,
            },
            r is Ok ==> final(self).measure() < old(self).measure(),
            final(self).measure() <= old(self).measure(),
            same_flags(*old(self), *final(self)),
            final(self).current_module == old(self).current_module,
            r matches Ok((o, fs)) ==> {
                &&& forall|j: int| 0 <= j < o.methods@.len() ==> method_shape(#[trigger] o.methods@[j].function, o.name@)
                &&& forall|j: int| 0 <= j < fs@.len() ==> method_shape(#[trigger] fs@[j], o.name@)
            },
    {
        self.expect(&Token::ObjectKw)?;
        let name = self.expect_ident()?;
        self.expect(&Token::Colon)?;
        let ghost s3 = self.pstate();
        let mut fields: Vec<StructField> = Vec::new();
        let mut constructor: Option<ConstructorDef> = None;
        let mut methods: Vec<ObjectMethod> = Vec::new();
        let mut functions: Vec<FunctionDef> = Vec::new();
        let ghost acc0 = SObject { name: name@, fields: Seq::empty(), constructor: None, methods: Seq::empty() };
        assert(object_acc(name@, fields@, constructor, methods@) =~= acc0);
        assert(functions_view(functions@) =~= method_functions(methods_view(methods@)));
        while !matches!(self.current, Token::ScopeEnd | Token::Eof)
            invariant
                p_object_sections(s3, acc0) == p_object_sections(
                    self.pstate(),
                    object_acc(name@, fields@, constructor, methods@),
                ),
                functions_view(functions@) == method_functions(methods_view(methods@)),
                self.measure() < old(self).measure(),
                same_flags(*old(self), *self),
                self.current_module == old(self).current_module,
                forall|j: int| 0 <= j < methods@.len() ==> method_shape(#[trigger] methods@[j].function, name@),
                forall|j: int| 0 <= j < functions@.len() ==> method_shape(#[trigger] functions@[j], name@),
            decreases self.measure(),
        {
            let section = self.object_section();
            if section == 1 {
                self.advance();
                self.expect(&Token::Colon)?;
                fields = self.parse_field_list(StopAt::ObjectSection)?;
            } else if section == 2 {
                if constructor.is_some() {
                    let mut title = owned("对象 `");
                    push_str(&mut title, name.as_str());
                    push_str(&mut title, "` 只能定义一个构造方法");
                    return Err(self.error(title, "请保留一个 `构造方法（...）：...。。`。"));
                }
                constructor = Some(self.parse_constructor_def()?);
            } else if section == 3 || section == 4 {
                let access = if section == 3 {
                    MemberAccess::Public
                } else {
                    MemberAccess::Private
                };
                self.advance();
                self.expect(&Token::Colon)?;
                self.parse_object_member_section(name.as_str(), access, &mut methods, &mut functions)?;
            } else {
                let title = self.found("对象定义中不允许出现 `", "`");
                return Err(
                    self.error_here(
                        title,
                        "对象定义可以包含 `结构：`、`构造方法（...）：`、`公共成员：` 或 `私有成员：`。",
                    ),
                );
            }
        }
        self.expect(&Token::ScopeEnd)?;
        Ok((ObjectDef { name, fields, constructor, methods }, functions))
    }

    /// Which section of an object definition the current token opens:
    /// 1 fields, 2 constructor, 3 public members, 4 private members, 0 none.
    fn object_section(&self) -> (r: u8)
        ensures
            r as int == object_section_of(self.current@),
    {
        match &self.current {
            Token::StructKw => 1,
            Token::Construct => 2,
            Token::Ident(section) => {
                let public = str_is(section, "公共成员");
                let private = str_is(section, "私有成员");
                if public {
                    3
                } else if private {
                    4
                } else {
                    0
                }
            },
            _ => 0,
        }
    }

    fn parse_constructor_def(&mut self) -> (r: Result<ConstructorDef, String>)
        ensures
            match r {
                Ok(x) => p_constructor(old(self).pstate()) == Some(((params_view(x.params@), stmts_view(x.body@)), final(self).pstate())),
                Err(_) => p_constructor(old(self).pstate()) is None,
            },
            r is Ok ==> final(self).measure() < old(self).measure(),
            final(self).measure() <= old(self).measure(),
            same_flags(*old(self), *final(self)),
            final(self).current_module == old(self).current_module,
    {
        self.expect(&Token::Construct)?;
        self.expect(&Token::Method)?;
        self.expect(&Token::LParen)?;
        let params = self.parse_params()?;
        self.expect(&Token::RParen)?;
        self.expect(&Token::Colon)?;
        let body = self.parse_statements_until(StopAt::ObjectSection)?;
        if matches!(self.current, Token::ScopeEnd) {
            self.advance();
        }
        Ok(ConstructorDef { params, body })
    }

    #[verifier::loop_isolation(false)]
    fn parse_object_member_section(
        &mut self,
        object_name: &str,
        access: MemberAccess,
        methods: &mut Vec<ObjectMethod>,
        functions: &mut Vec<FunctionDef>,
    ) -> (r: Result<(), String>)
        requires
            forall|j: int| 0 <= j < old(methods)@.len() ==> method_shape(#[trigger] old(methods)@[j].function, object_name@),
            forall|j: int| 0 <= j < old(functions)@.len() ==> method_shape(#[trigger] old(functions)@[j], object_name@),
            functions_view(old(functions)@) == method_functions(methods_view(old(methods)@)),
        ensures
            match r {
                Ok(_) => p_members(old(self).pstate(), object_name@, access, methods_view(old(methods)@)) == Some(
                    (methods_view(final(methods)@), final(self).pstate()),
                ),
                Err(_) => p_members(old(self).pstate(), object_name@, access, methods_view(old(methods)@)) is None,
            },
            functions_view(final(functions)@) == method_functions(methods_view(final(methods)@)),
            final(self).measure() <= old(self).measure(),
            same_flags(*old(self), *final(self)),
            final(self).current_module == old(self).current_module,
            forall|j: int| 0 <= j < final(methods)@.len() ==> method_shape(#[trigger] final(methods)@[j].function, object_name@),
            forall|j: int| 0 <= j < final(functions)@.len() ==> method_shape(#[trigger] final(functions)@[j], object_name@),
    {
        let ghost s0 = self.pstate();
        let ghost m0 = methods_view(methods@);
        while !StopAt::ObjectSection.ends(&self.current)
            invariant
                p_members(s0, object_name@, access, m0) == p_members(self.pstate(), object_name@, access, methods_view(methods@)),
                functions_view(functions@) == method_functions(methods_view(methods@)),
                self.measure() <= old(self).measure(),
                same_flags(*old(self), *self),
                self.current_module == old(self).current_module,
                forall|j: int| 0 <= j < methods@.len() ==> method_shape(#[trigger] methods@[j].function, object_name@),
                forall|j: int| 0 <= j < functions@.len() ==> method_shape(#[trigger] functions@[j], object_name@),
            decreases self.measure(),
        {
            let ghost mb = methods@;
            let ghost fb = functions@;
            self.expect(&Token::Define)?;
            let function = self.parse_object_method_after_define(object_name)?;
            let copy = copy_function(&function);
            methods.push(ObjectMethod { access, function: copy });
            functions.push(function);
            assert(methods_view(methods@) =~= methods_view(mb).push((access, function_view(function))));
            assert(functions_view(functions@) =~= functions_view(fb).push(function_view(function)));
            assert(method_functions(methods_view(methods@)) =~= method_functions(methods_view(mb)).push(
                function_view(function),
            ));
        }
        Ok(())
    }

    fn parse_object_method_after_define(&mut self, object_name: &str) -> (r: Result<FunctionDef, String>)
        ensures
            match r {
                Ok(x) => p_method_def(old(self).pstate(), object_name@) == Some((function_view(x), final(self).pstate())),
                Err(_) => p_method_def(old(self).pstate(), object_name@) is None,
            },
            r is Ok ==> final(self).measure() < old(self).measure(),
            final(self).measure() <= old(self).measure(),
            same_flags(*old(self), *final(self)),
            final(self).current_module == old(self).current_module,
            r matches Ok(f) ==> method_shape(f, object_name@),
    {
        self.expect(&Token::Method)?;
        let name = self.expect_ident()?;
        self.expect(&Token::LParen)?;
        let mut params: Vec<Param> = Vec::new();
        params.push(Param { name: owned("当前"), param_type: Type::Struct(owned(object_name)) });
        let mut rest = self.parse_params()?;
        let ghost rest_view = params_view(rest@);
        params.append(&mut rest);
        assert(params_view(params@) =~= seq![("当前"@, SpecType::Struct(object_name@))] + rest_view);
        self.expect(&Token::RParen)?;
        self.expect(&Token::ReturnKw)?;
        let return_type = self.parse_type()?;
        self.expect(&Token::Colon)?;
        let body = self.parse_body()?;
        Ok(
            FunctionDef {
                name,
                module_name: Some(object_module_name(object_name)),
                params,
                return_type,
                is_entry: false,
                is_external: false,
                external_symbol: None,
                body,
            },
        )
    }

    /// Parses a comma-separated parameter list, possibly empty.
    fn parse_params(&mut self) -> (r: Result<Vec<Param>, String>)
        ensures
            match r {
                Ok(x) => p_params(old(self).pstate()) == Some((params_view(x@), final(self).pstate())),
                Err(_) => p_params(old(self).pstate()) is None,
            },
            final(self).measure() <= old(self).measure(),
            same_flags(*old(self), *final(self)),
            final(self).current_module == old(self).current_module,
    {
        let mut params: Vec<Param> = Vec::new();
        assert(params_view(params@) =~= Seq::<SParam>::empty());
        if matches!(self.current, Token::RParen) {
            return Ok(params);
        }
        loop
            invariant_except_break
                p_params(old(self).pstate()) == p_params_loop(self.pstate(), params_view(params@)),
            invariant
                !(old(self).pstate().cur is RParen),
                self.measure() <= old(self).measure(),
                same_flags(*old(self), *self),
                self.current_module == old(self).current_module,
            ensures
                p_params(old(self).pstate()) == Some((params_view(params@), self.pstate())),
                self.measure() <= old(self).measure(),
                same_flags(*old(self), *self),
                self.current_module == old(self).current_module,
            decreases self.measure(),
        {
            let ghost before = params@;
            let param = self.parse_param()?;
            params.push(param);
            assert(params_view(params@) =~= params_view(before).push((param.name@, param.param_type@)));
            if matches!(self.current, Token::Comma) {
                self.advance();
            } else {
                break;
            }
        }
        Ok(params)
    }

    /// Parses `name：type`.
    fn parse_param(&mut self) -> (r: Result<Param, String>)
        ensures
            match r {
                Ok(x) => p_param(old(self).pstate()) == Some(((x.name@, x.param_type@), final(self).pstate())),
                Err(_) => p_param(old(self).pstate()) is None,
            },
            r is Ok ==> final(self).measure() < old(self).measure(),
            final(self).measure() <= old(self).measure(),
            same_flags(*old(self), *final(self)),
            final(self).current_module == old(self).current_module,
    {
        let name = self.expect_ident()?;
        self.expect(&Token::Colon)?;
        let param_type = self.parse_type()?;
        Ok(Param { name, param_type })
    }

    /// `name：type` entries, each optionally followed by `，`, up to the
    /// token that ends them.
    fn parse_field_list(&mut self, stop: StopAt) -> (r: Result<Vec<StructField>, String>)
        ensures
            match r {
                Ok(x) => p_field_list(old(self).pstate(), stop@, Seq::empty()) == Some((fields_view(x@), final(self).pstate())),
                Err(_) => p_field_list(old(self).pstate(), stop@, Seq::empty()) is None,
            },
            final(self).measure() <= old(self).measure(),
            same_flags(*old(self), *final(self)),
            final(self).current_module == old(self).current_module,
    {
        let mut fields: Vec<StructField> = Vec::new();
        assert(fields_view(fields@) =~= Seq::<SParam>::empty());
        while !stop.ends(&self.current)
            invariant
                p_field_list(old(self).pstate(), stop@, Seq::empty()) == p_field_list(
                    self.pstate(),
                    stop@,
                    fields_view(fields@),
                ),
                self.measure() <= old(self).measure(),
                same_flags(*old(self), *self),
                self.current_module == old(self).current_module,
            decreases self.measure(),
        {
            let ghost before = fields@;
            let param = self.parse_param()?;
            let field = StructField { name: param.name, field_type: param.param_type };
            fields.push(field);
            assert(fields_view(fields@) =~= fields_view(before).push((field.name@, field.field_type@)));
            if matches!(self.current, Token::Comma) {
                self.advance();
            }
        }
        Ok(fields)
    }

    /// Parses a type: a type keyword, or any identifier as a struct or
    /// object name.
    fn parse_type(&mut self) -> (r: Result<Type, String>)
        ensures
            match r {
                Ok(x) => p_type(old(self).pstate()) == Some((x@, final(self).pstate())),
                Err(_) => p_type(old(self).pstate()) is None,
            },
            r is Ok <==> (type_keyword(old(self).current@) is Some || old(self).current@ is Ident),
            r matches Ok(t) ==> t@ == match type_keyword(old(self).current@) {
                Some(k) => k,
                None => SpecType::Struct(ident_text(old(self).current@)),
            },
            r is Ok ==> final(self).measure() < old(self).measure(),
            final(self).measure() <= old(self).measure(),
            same_flags(*old(self), *final(self)),
            final(self).current_module == old(self).current_module,
    {
        match Type::from_token(&self.current) {
            Some(t) => {
                self.advance();
                Ok(t)
            },
            None => {
                if let Token::Ident(name) = &self.current {
                    let name = copy_string(name);
                    self.advance();
                    return Ok(Type::Struct(name));
                }
                let title = self.found("期望类型关键字，但找到了 `", "`");
                Err(self.error_here(title, "可用类型包括 `无`、`整数`、`小数`、`浮点`、`布尔`、`字符`、`字符串`。"))
            },
        }
    }

    /// Parses statements up to and including the closing `。。`.
    fn parse_body(&mut self) -> (r: Result<Vec<Stmt>, String>)
        ensures
            match r {
                Ok(x) => p_block(old(self).pstate()) == Some((stmts_view(x@), final(self).pstate())),
                Err(_) => p_block(old(self).pstate()) is None,
            },
            r is Ok ==> final(self).measure() < old(self).measure(),
            final(self).measure() <= old(self).measure(),
            same_flags(*old(self), *final(self)),
            final(self).current_module == old(self).current_module,
        decreases old(self).measure(), 41nat,
    {
        let stmts = self.parse_statements_until(StopAt::Scope)?;
        self.expect(&Token::ScopeEnd)?;
        Ok(stmts)
    }

    /// Parses statements up to the token that ends them.
    fn parse_statements_until(&mut self, stop: StopAt) -> (r: Result<Vec<Stmt>, String>)
        ensures
            match r {
                Ok(x) => p_stmts(old(self).pstate(), stop@, Seq::empty()) == Some((stmts_view(x@), final(self).pstate())),
                Err(_) => p_stmts(old(self).pstate(), stop@, Seq::empty()) is None,
            },
            final(self).measure() <= old(self).measure(),
            same_flags(*old(self), *final(self)),
            final(self).current_module == old(self).current_module,
        decreases old(self).measure(), 40nat,
    {
        let mut stmts: Vec<Stmt> = Vec::new();
        assert(stmts_view(stmts@) =~= Seq::<SStmt>::empty());
        while !stop.ends(&self.current)
            invariant
                p_stmts(old(self).pstate(), stop@, Seq::empty()) == p_stmts(self.pstate(), stop@, stmts_view(stmts@)),
                self.measure() <= old(self).measure(),
                same_flags(*old(self), *self),
                self.current_module == old(self).current_module,
            decreases self.measure(),
        {
            let ghost before = stmts@;
            let stmt = self.parse_stmt()?;
            stmts.push(stmt);
            assert(stmts_view(stmts@) =~= stmts_view(before).push(stmt_view(stmt)));
        }
        Ok(stmts)
    }

    /// Parses one statement of a method body.
    #[verifier::rlimit(60)]
    fn parse_stmt(&mut self) -> (r: Result<Stmt, String>)
        ensures
            match r {
                Ok(x) => p_stmt(old(self).pstate()) == Some((stmt_view(x), final(self).pstate())),
                Err(_) => p_stmt(old(self).pstate()) is None,
            },
            r is Ok ==> final(self).measure() < old(self).measure(),
            final(self).measure() <= old(self).measure(),
            same_flags(*old(self), *final(self)),
            final(self).current_module == old(self).current_module,
            r matches Ok(Stmt::VarDecl(v)) ==> (v.init is None ==> v.is_mutable),
        decreases old(self).measure(), 39nat,
    {
        match &self.current {
            Token::Define => {
                let v = self.parse_var_decl()?;
                Ok(Stmt::VarDecl(v))
            },
            Token::Let => self.parse_let_stmt(),
            Token::ReturnKw => {
                let v = self.parse_return_stmt()?;
                Ok(Stmt::Return(v))
            },
            Token::Ident(_) => self.parse_assign_like_stmt(),
            Token::Import => {
                let v = self.parse_import_decl()?;
                Ok(Stmt::Import(v))
            },
            Token::Execute => {
                let v = self.parse_execute_stmt()?;
                Ok(Stmt::Execute(v))
            },
            Token::If => {
                let v = self.parse_if_stmt()?;
                Ok(Stmt::If(v))
            },
            Token::Current => {
                let v = self.parse_select_stmt()?;
                Ok(Stmt::Select(v))
            },
            Token::Loop => {
                let v = self.parse_loop_stmt()?;
                Ok(Stmt::Loop(v))
            },
            _ => {
                let title = self.found("方法体内不能以 `", "` 开始一条语句");
                Err(
                    self.error_here(
                        title,
                        "这里可以写变量定义、赋值、返回、执行、判断、选择、循环或局部引用语句。",
                    ),
                )
            },
        }
    }

    /// Parses `判断 condition：... [若 condition：...]* [否则：...]。。`.
    #[verifier::loop_isolation(false)]
    #[verifier::rlimit(60)]
    fn parse_if_stmt(&mut self) -> (r: Result<IfStmt, String>)
        ensures
            match r {
                Ok(x) => p_if(old(self).pstate()) == Some((stmt_view(Stmt::If(x)), final(self).pstate())),
                Err(_) => p_if(old(self).pstate()) is None,
            },
            r is Ok ==> final(self).measure() < old(self).measure(),
            final(self).measure() <= old(self).measure(),
            same_flags(*old(self), *final(self)),
            final(self).current_module == old(self).current_module,
            r matches Ok(s) ==> s.branches@.len() >= 1,
        decreases old(self).measure(), 38nat,
    {
        self.expect(&Token::If)?;
        let condition = self.parse_expr()?;
        self.expect(&Token::Colon)?;
        let body = self.parse_statements_until(StopAt::IfBranch)?;
        let ghost s4 = self.pstate();
        let ghost first = (expr_view(condition), stmts_view(body@));
        let mut branches: Vec<IfBranch> = Vec::new();
        branches.push(IfBranch { condition, body });
        assert(branches_view(branches@) =~= seq![first]);
        while matches!(self.current, Token::ElseIf)
            invariant
                p_if_rest(s4, seq![first]) == p_if_rest(self.pstate(), branches_view(branches@)),
                self.measure() < old(self).measure(),
                branches@.len() >= 1,
                same_flags(*old(self), *self),
                self.current_module == old(self).current_module,
            decreases self.measure(),
        {
            let ghost before = branches@;
            self.advance();
            let condition = self.parse_expr()?;
            self.expect(&Token::Colon)?;
            let body = self.parse_statements_until(StopAt::IfBranch)?;
            let ghost item = (expr_view(condition), stmts_view(body@));
            branches.push(IfBranch { condition, body });
            assert(branches_view(branches@) =~= branches_view(before).push(item));
        }
        let else_body = if matches!(self.current, Token::Else) {
            self.advance();
            self.expect(&Token::Colon)?;
            Some(self.parse_statements_until(StopAt::IfBranch)?)
        } else {
            None
        };
        self.expect(&Token::ScopeEnd)?;
        let res = IfStmt { branches, else_body };
        proof {
            lemma_stmt_view_lists(Stmt::If(res));
        }
        Ok(res)
    }

    /// Parses `当前 x：取 value：...[此外：...]。。`; at least one case is needed.
    #[verifier::loop_isolation(false)]
    fn parse_select_stmt(&mut self) -> (r: Result<SelectStmt, String>)
        ensures
            match r {
                Ok(x) => p_select(old(self).pstate()) == Some((stmt_view(Stmt::Select(x)), final(self).pstate())),
                Err(_) => p_select(old(self).pstate()) is None,
            },
            r is Ok ==> final(self).measure() < old(self).measure(),
            final(self).measure() <= old(self).measure(),
            same_flags(*old(self), *final(self)),
            final(self).current_module == old(self).current_module,
            r matches Ok(s) ==> s.cases@.len() >= 1,
        decreases old(self).measure(), 38nat,
    {
        self.expect(&Token::Current)?;
        let target = self.expect_ident()?;
        self.expect(&Token::Colon)?;
        let ghost s3 = self.pstate();
        let mut cases: Vec<SelectCase> = Vec::new();
        assert(cases_view(cases@) =~= Seq::<(SExpr, Seq<SStmt>)>::empty());
        while matches!(self.current, Token::Case)
            invariant
                p_select_cases(s3, Seq::empty()) == p_select_cases(self.pstate(), cases_view(cases@)),
                self.measure() < old(self).measure(),
                same_flags(*old(self), *self),
                self.current_module == old(self).current_module,
            decreases self.measure(),
        {
            let ghost before = cases@;
            self.advance();
            let value = self.parse_expr()?;
            self.expect(&Token::Colon)?;
            let body = self.parse_statements_until(StopAt::SelectCase)?;
            let ghost item = (expr_view(value), stmts_view(body@));
            cases.push(SelectCase { value, body });
            assert(cases_view(cases@) =~= cases_view(before).push(item));
        }
        if cases.len() == 0 {
            return Err(
                self.error(
                    owned("`当前` 选择语句至少需要一个 `取` 分支"),
                    "选择语句形如 `当前x：取1：...此外：...。。`。",
                ),
            );
        }
        let default_body = if matches!(self.current, Token::Otherwise) {
            self.advance();
            self.expect(&Token::Colon)?;
            Some(self.parse_statements_until(StopAt::SelectCase)?)
        } else {
            None
        };
        self.expect(&Token::ScopeEnd)?;
        let res = SelectStmt { target, cases, default_body };
        proof {
            lemma_stmt_view_lists(Stmt::Select(res));
        }
        Ok(res)
    }

    /// Parses `循环计数 i<end：...。。`, `循环迭代 i<start..end：...。。` or
    /// `循环条件 condition：...。。`.
    #[verifier::rlimit(60)]
    fn parse_loop_stmt(&mut self) -> (r: Result<LoopStmt, String>)
        ensures
            match r {
                Ok(x) => p_loop(old(self).pstate()) == Some((stmt_view(Stmt::Loop(x)), final(self).pstate())),
                Err(_) => p_loop(old(self).pstate()) is None,
            },
            r is Ok ==> final(self).measure() < old(self).measure(),
            final(self).measure() <= old(self).measure(),
            same_flags(*old(self), *final(self)),
            final(self).current_module == old(self).current_module,
        decreases old(self).measure(), 38nat,
    {
        self.expect(&Token::Loop)?;
        let res = match &self.current {
            Token::Count => {
                self.advance();
                let var_name = self.expect_ident()?;
                self.expect(&Token::Less)?;
                let end = self.parse_expr()?;
                self.expect(&Token::Colon)?;
                let body = self.parse_body()?;
                LoopStmt::Count { var_name, end, body }
            },
            Token::Iterate => {
                self.advance();
                let var_name = self.expect_ident()?;
                self.expect(&Token::Less)?;
                let start = self.parse_expr()?;
                self.expect(&Token::ScopeEnd)?;
                let end = self.parse_expr()?;
                self.expect(&Token::Colon)?;
                let body = self.parse_body()?;
                LoopStmt::Iterate { var_name, start, end, body }
            },
            Token::Condition => {
                self.advance();
                let condition = self.parse_expr()?;
                self.expect(&Token::Colon)?;
                let body = self.parse_body()?;
                LoopStmt::Condition { condition, body }
            },
            _ => {
                let title = self.found("`循环` 后期望 `计数`、`迭代` 或 `条件`，但找到了 `", "`");
                return Err(
                    self.error_here(
                        title,
                        "计数循环形如 `循环计数i<10：...。。`；迭代循环形如 `循环迭代i<1..5：...。。`；条件循环形如 `循环条件 x<10：...。。`。",
                    ),
                );
            },
        };
        proof {
            lemma_stmt_view_lists(Stmt::Loop(res));
        }
        Ok(res)
    }

    /// Parses `定义 [可变] 变量：[type] name [(=|为) expr]`. A declaration
    /// without an initializer is mutable.
    #[verifier::rlimit(60)]
    fn parse_var_decl(&mut self) -> (r: Result<VarDecl, String>)
        ensures
            match r {
                Ok(x) => p_var_decl(old(self).pstate()) == Some((var_decl_view(x), final(self).pstate())),
                Err(_) => p_var_decl(old(self).pstate()) is None,
            },
            r is Ok ==> final(self).measure() < old(self).measure(),
            final(self).measure() <= old(self).measure(),
            r matches Ok(v) ==> (v.init is None ==> v.is_mutable),
            same_flags(*old(self), *final(self)),
            final(self).current_module == old(self).current_module,
        decreases old(self).measure(), 37nat,
    {
        let start = self.cur_span().start;
        self.expect(&Token::Define)?;
        let explicit_mutable = if matches!(self.current, Token::Mutable) {
            self.advance();
            true
        } else {
            false
        };
        self.expect(&Token::Variable)?;
        self.expect(&Token::Colon)?;
        let mut var_type = self.parse_optional_var_type();
        let (name, name_span) = self.expect_ident_span()?;
        let ghost s6 = self.pstate();
        let ghost vt = opt_type_view(var_type);
        let unsized_array = match &var_type {
            Some(Type::Array { length: None, .. }) => true,
            _ => false,
        };
        if unsized_array && matches!(self.current, Token::LBracket) {
            self.advance();
            let length = self.expect_array_length()?;
            self.expect(&Token::RBracket)?;
            var_type = Some(Type::Array { element_type: Box::new(Type::Int), length: Some(length) });
            assert(type_view(Type::Int) == SpecType::Int);
        }
        assert(p_array_length(vt, s6) == Some((opt_type_view(var_type), self.pstate())));
        let ghost s7 = self.pstate();
        let init = if self.is_assignment_operator() {
            self.expect_assignment_operator()?;
            Some(self.parse_expr()?)
        } else {
            None
        };
        assert(p_opt_init(s7) == Some((opt_expr_view(init), self.pstate())));
        let is_mutable = explicit_mutable || init.is_none();
        let end = if self.cur_span().start >= name_span.end {
            self.cur_span().start
        } else {
            name_span.end
        };
        Ok(VarDecl { name, name_span, span: Span { start, end }, var_type, is_mutable, init })
    }

    /// An optional type before a variable name: `数组` is an integer array
    /// of unknown length.
    fn parse_optional_var_type(&mut self) -> (r: Option<Type>)
        ensures
            (opt_type_view(r), final(self).pstate()) == p_opt_var_type(old(self).pstate()),
            final(self).measure() <= old(self).measure(),
            same_flags(*old(self), *final(self)),
            final(self).current_module == old(self).current_module,
    {
        if matches!(self.current, Token::ArrayKw) {
            self.advance();
            let t = Type::Array { element_type: Box::new(Type::Int), length: None };
            assert(type_view(Type::Int) == SpecType::Int);
            return Some(t);
        }
        let var_type = Type::from_token(&self.current);
        if var_type.is_some() {
            self.advance();
        }
        var_type
    }

    /// A positive integer literal as an array length.
    fn expect_array_length(&mut self) -> (r: Result<usize, String>)
        ensures
            r matches Ok(n) ==> old(self).current@ matches SpecToken::IntLiteral(v) && v > 0 && v <= usize::MAX
                && n == v as usize,
            r is Ok ==> final(self).pstate() == adv(old(self).pstate()),
            r is Err ==> !(old(self).current@ matches SpecToken::IntLiteral(v) && v > 0 && v <= usize::MAX),
            r is Ok ==> final(self).measure() < old(self).measure(),
            final(self).measure() <= old(self).measure(),
            same_flags(*old(self), *final(self)),
            final(self).current_module == old(self).current_module,
    {
        match &self.current {
            Token::IntLiteral(value) => {
                let value = *value;
                if value > 0 && value as u64 <= usize::MAX as u64 {
                    self.advance();
                    Ok(value as usize)
                } else {
                    Err(
                        self.error(
                            owned("数组长度必须大于 0"),
                            "数组预定义形如 `定义 变量：数组 arr[10]`，方括号里需要正整数长度。",
                        ),
                    )
                }
            },
            _ => {
                let title = self.found("期望数组长度，但找到了 `", "`");
                Err(
                    self.error_here(
                        title,
                        "数组预定义形如 `定义 变量：数组 arr[10]`，方括号里需要正整数长度。",
                    ),
                )
            },
        }
    }

    /// Parses `设 name (=|为) expr` (a mutable variable), `设 name->field = expr`
    /// or `设 name[index] = expr`.
    fn parse_let_stmt(&mut self) -> (r: Result<Stmt, String>)
        ensures
            match r {
                Ok(x) => p_let(old(self).pstate()) == Some((stmt_view(x), final(self).pstate())),
                Err(_) => p_let(old(self).pstate()) is None,
            },
            r is Ok ==> final(self).measure() < old(self).measure(),
            final(self).measure() <= old(self).measure(),
            r matches Ok(Stmt::VarDecl(v)) ==> v.is_mutable && v.init is Some && v.var_type is None,
            same_flags(*old(self), *final(self)),
            final(self).current_module == old(self).current_module,
        decreases old(self).measure(), 37nat,
    {
        let start = self.cur_span().start;
        self.expect(&Token::Let)?;
        let (name, name_span) = self.expect_ident_span()?;
        if matches!(self.current, Token::Arrow) {
            self.advance();
            let field = self.expect_ident()?;
            self.expect_assignment_operator()?;
            let value = self.parse_expr()?;
            let span = Span { start, end: self.span_end(name_span) };
            return Ok(Stmt::FieldAssign(FieldAssignStmt { base: Expr::Ident(name), field, span, value }));
        }
        if matches!(self.current, Token::LBracket) {
            self.advance();
            let index = self.parse_expr()?;
            self.expect(&Token::RBracket)?;
            self.expect_assignment_operator()?;
            let value = self.parse_expr()?;
            let span = Span { start, end: self.span_end(name_span) };
            return Ok(Stmt::ArrayAssign(ArrayAssignStmt { name, name_span, index, span, value }));
        }
        self.expect_assignment_operator()?;
        let init = self.parse_expr()?;
        let span = Span { start, end: self.span_end(name_span) };
        Ok(
            Stmt::VarDecl(
                VarDecl { name, name_span, span, var_type: None, is_mutable: true, init: Some(init) },
            ),
        )
    }

    /// The end of a statement span: the start of the current token, but not
    /// before the end of the name.
    fn span_end(&self, name_span: Span) -> (r: usize)
        ensures
            r == span_end(self.pstate(), name_span),
    {
        if self.cur_span().start >= name_span.end {
            self.cur_span().start
        } else {
            name_span.end
        }
    }

    /// Parses `name (=|为) expr` or `name->field (=|为) expr`.
    fn parse_assign_like_stmt(&mut self) -> (r: Result<Stmt, String>)
        ensures
            match r {
                Ok(x) => p_assign_like(old(self).pstate()) == Some((stmt_view(x), final(self).pstate())),
                Err(_) => p_assign_like(old(self).pstate()) is None,
            },
            r is Ok ==> final(self).measure() < old(self).measure(),
            final(self).measure() <= old(self).measure(),
            r matches Ok(s) ==> !(s is VarDecl),
            same_flags(*old(self), *final(self)),
            final(self).current_module == old(self).current_module,
        decreases old(self).measure(), 37nat,
    {
        let start = self.cur_span().start;
        let (name, name_span) = self.expect_ident_span()?;
        if matches!(self.current, Token::Arrow) {
            self.advance();
            let field = self.expect_ident()?;
            self.expect_assignment_operator()?;
            let value = self.parse_expr()?;
            let span = Span { start, end: self.span_end(name_span) };
            return Ok(Stmt::FieldAssign(FieldAssignStmt { base: Expr::Ident(name), field, span, value }));
        }
        self.expect_assignment_operator()?;
        let value = self.parse_expr()?;
        let span = Span { start, end: self.span_end(name_span) };
        Ok(Stmt::Assign(AssignStmt { name, name_span, span, value }))
    }

    /// Parses `返回` or `返回 expr`.
    fn parse_return_stmt(&mut self) -> (r: Result<ReturnStmt, String>)
        ensures
            match r {
                Ok(x) => p_return(old(self).pstate()) == Some((opt_expr_view(x.value), final(self).pstate())),
                Err(_) => p_return(old(self).pstate()) is None,
            },
            r is Ok ==> final(self).measure() < old(self).measure(),
            final(self).measure() <= old(self).measure(),
            same_flags(*old(self), *final(self)),
            final(self).current_module == old(self).current_module,
        decreases old(self).measure(), 37nat,
    {
        self.expect(&Token::ReturnKw)?;
        let value = if matches!(
            self.current,
            Token::ScopeEnd | Token::ElseIf | Token::Else | Token::Case | Token::Otherwise | Token::Eof
        ) {
            None
        } else {
            Some(self.parse_expr()?)
        };
        Ok(ReturnStmt { value })
    }

    /// Parses `执行 target：arg，arg`.
    fn parse_execute_stmt(&mut self) -> (r: Result<ExecuteStmt, String>)
        ensures
            match r {
                Ok(x) => p_execute(old(self).pstate()) == Some((stmt_view(Stmt::Execute(x)), final(self).pstate())),
                Err(_) => p_execute(old(self).pstate()) is None,
            },
            r is Ok ==> final(self).measure() < old(self).measure(),
            final(self).measure() <= old(self).measure(),
            same_flags(*old(self), *final(self)),
            final(self).current_module == old(self).current_module,
        decreases old(self).measure(), 37nat,
    {
        self.expect(&Token::Execute)?;
        let target = self.expect_ident()?;
        self.expect(&Token::Colon)?;
        let args = if matches!(self.current, Token::ScopeEnd | Token::Eof) {
            let args: Vec<Expr> = Vec::new();
            assert(exprs_view(args@) =~= Seq::<SExpr>::empty());
            args
        } else {
            self.parse_expr_list()?
        };
        let res = ExecuteStmt { target, args };
        proof {
            lemma_stmt_view_lists(Stmt::Execute(res));
        }
        Ok(res)
    }

    /// Parses an expression. Precedence, loosest first: `||`/`或`,
    /// `&&`/`且`, `==` `!=`, `<` `<=` `>` `>=`, `+` `-`, `*` `/` `%`, unary
    /// `-` `!`, then postfix `[index]` and `->field` / `->method(args)`.
    /// Binary operators associate to the left.
    fn parse_expr(&mut self) -> (r: Result<Expr, String>)
        ensures
            match r {
                Ok(x) => p_expr(old(self).pstate()) == Some((expr_view(x), final(self).pstate())),
                Err(_) => p_expr(old(self).pstate()) is None,
            },
            r is Ok ==> final(self).measure() < old(self).measure(),
            final(self).measure() <= old(self).measure(),
            same_flags(*old(self), *final(self)),
            final(self).current_module == old(self).current_module,
        decreases old(self).measure(), 20nat,
    {
        self.parse_logical_or()
    }

    fn parse_logical_or(&mut self) -> (r: Result<Expr, String>)
        ensures
            match r {
                Ok(x) => p_binary(old(self).pstate(), 19) == Some((expr_view(x), final(self).pstate())),
                Err(_) => p_binary(old(self).pstate(), 19) is None,
            },
            r is Ok ==> final(self).measure() < old(self).measure(),
            final(self).measure() <= old(self).measure(),
            same_flags(*old(self), *final(self)),
            final(self).current_module == old(self).current_module,
        decreases old(self).measure(), 19nat,
    {
        let mut expr = self.parse_logical_and()?;
        while matches!(self.current, Token::OrOr)
            invariant
                p_binary(old(self).pstate(), 19) == p_binary_rest(self.pstate(), 19, expr_view(expr)),
                self.measure() < old(self).measure(),
                same_flags(*old(self), *self),
                self.current_module == old(self).current_module,
            decreases self.measure(),
        {
            self.advance();
            let right = self.parse_logical_and()?;
            expr = Expr::Binary { left: Box::new(expr), op: BinaryOp::Or, right: Box::new(right) };
        }
        Ok(expr)
    }

    fn parse_logical_and(&mut self) -> (r: Result<Expr, String>)
        ensures
            match r {
                Ok(x) => p_binary(old(self).pstate(), 18) == Some((expr_view(x), final(self).pstate())),
                Err(_) => p_binary(old(self).pstate(), 18) is None,
            },
            r is Ok ==> final(self).measure() < old(self).measure(),
            final(self).measure() <= old(self).measure(),
            same_flags(*old(self), *final(self)),
            final(self).current_module == old(self).current_module,
        decreases old(self).measure(), 18nat,
    {
        let mut expr = self.parse_equality()?;
        while matches!(self.current, Token::AndAnd)
            invariant
                p_binary(old(self).pstate(), 18) == p_binary_rest(self.pstate(), 18, expr_view(expr)),
                self.measure() < old(self).measure(),
                same_flags(*old(self), *self),
                self.current_module == old(self).current_module,
            decreases self.measure(),
        {
            self.advance();
            let right = self.parse_equality()?;
            expr = Expr::Binary { left: Box::new(expr), op: BinaryOp::And, right: Box::new(right) };
        }
        Ok(expr)
    }

    fn parse_equality(&mut self) -> (r: Result<Expr, String>)
        ensures
            match r {
                Ok(x) => p_binary(old(self).pstate(), 17) == Some((expr_view(x), final(self).pstate())),
                Err(_) => p_binary(old(self).pstate(), 17) is None,
            },
            r is Ok ==> final(self).measure() < old(self).measure(),
            final(self).measure() <= old(self).measure(),
            same_flags(*old(self), *final(self)),
            final(self).current_module == old(self).current_module,
        decreases old(self).measure(), 17nat,
    {
        let mut expr = self.parse_comparison()?;
        loop
            invariant
                p_binary(old(self).pstate(), 17) == p_binary_rest(self.pstate(), 17, expr_view(expr)),
                self.measure() < old(self).measure(),
                same_flags(*old(self), *self),
                self.current_module == old(self).current_module,
            ensures
                p_binary(old(self).pstate(), 17) == p_binary_rest(self.pstate(), 17, expr_view(expr)),
                binop_at(17, self.pstate().cur) is None,
                self.measure() < old(self).measure(),
                same_flags(*old(self), *self),
                self.current_module == old(self).current_module,
            decreases self.measure(),
        {
            let op = match self.current {
                Token::EqEq => BinaryOp::Eq,
                Token::NotEq => BinaryOp::NotEq,
                _ => break,
            };
            self.advance();
            let right = self.parse_comparison()?;
            expr = Expr::Binary { left: Box::new(expr), op, right: Box::new(right) };
        }
        Ok(expr)
    }

    fn parse_comparison(&mut self) -> (r: Result<Expr, String>)
        ensures
            match r {
                Ok(x) => p_binary(old(self).pstate(), 16) == Some((expr_view(x), final(self).pstate())),
                Err(_) => p_binary(old(self).pstate(), 16) is None,
            },
            r is Ok ==> final(self).measure() < old(self).measure(),
            final(self).measure() <= old(self).measure(),
            same_flags(*old(self), *final(self)),
            final(self).current_module == old(self).current_module,
        decreases old(self).measure(), 16nat,
    {
        let mut expr = self.parse_term()?;
        loop
            invariant
                p_binary(old(self).pstate(), 16) == p_binary_rest(self.pstate(), 16, expr_view(expr)),
                self.measure() < old(self).measure(),
                same_flags(*old(self), *self),
                self.current_module == old(self).current_module,
            ensures
                p_binary(old(self).pstate(), 16) == p_binary_rest(self.pstate(), 16, expr_view(expr)),
                binop_at(16, self.pstate().cur) is None,
                self.measure() < old(self).measure(),
                same_flags(*old(self), *self),
                self.current_module == old(self).current_module,
            decreases self.measure(),
        {
            let op = match self.current {
                Token::Less => BinaryOp::Less,
                Token::LessEq => BinaryOp::LessEq,
                Token::Greater => BinaryOp::Greater,
                Token::GreaterEq => BinaryOp::GreaterEq,
                _ => break,
            };
            self.advance();
            let right = self.parse_term()?;
            expr = Expr::Binary { left: Box::new(expr), op, right: Box::new(right) };
        }
        Ok(expr)
    }

    fn parse_term(&mut self) -> (r: Result<Expr, String>)
        ensures
            match r {
                Ok(x) => p_binary(old(self).pstate(), 15) == Some((expr_view(x), final(self).pstate())),
                Err(_) => p_binary(old(self).pstate(), 15) is None,
            },
            r is Ok ==> final(self).measure() < old(self).measure(),
            final(self).measure() <= old(self).measure(),
            same_flags(*old(self), *final(self)),
            final(self).current_module == old(self).current_module,
        decreases old(self).measure(), 15nat,
    {
        let mut expr = self.parse_factor()?;
        loop
            invariant
                p_binary(old(self).pstate(), 15) == p_binary_rest(self.pstate(), 15, expr_view(expr)),
                self.measure() < old(self).measure(),
                same_flags(*old(self), *self),
                self.current_module == old(self).current_module,
            ensures
                p_binary(old(self).pstate(), 15) == p_binary_rest(self.pstate(), 15, expr_view(expr)),
                binop_at(15, self.pstate().cur) is None,
                self.measure() < old(self).measure(),
                same_flags(*old(self), *self),
                self.current_module == old(self).current_module,
            decreases self.measure(),
        {
            let op = match self.current {
                Token::Plus => BinaryOp::Add,
                Token::Minus => BinaryOp::Sub,
                _ => break,
            };
            self.advance();
            let right = self.parse_factor()?;
            expr = Expr::Binary { left: Box::new(expr), op, right: Box::new(right) };
        }
        Ok(expr)
    }

    fn parse_factor(&mut self) -> (r: Result<Expr, String>)
        ensures
            match r {
                Ok(x) => p_binary(old(self).pstate(), 14) == Some((expr_view(x), final(self).pstate())),
                Err(_) => p_binary(old(self).pstate(), 14) is None,
            },
            r is Ok ==> final(self).measure() < old(self).measure(),
            final(self).measure() <= old(self).measure(),
            same_flags(*old(self), *final(self)),
            final(self).current_module == old(self).current_module,
        decreases old(self).measure(), 14nat,
    {
        let mut expr = self.parse_unary()?;
        loop
            invariant
                p_binary(old(self).pstate(), 14) == p_binary_rest(self.pstate(), 14, expr_view(expr)),
                self.measure() < old(self).measure(),
                same_flags(*old(self), *self),
                self.current_module == old(self).current_module,
            ensures
                p_binary(old(self).pstate(), 14) == p_binary_rest(self.pstate(), 14, expr_view(expr)),
                binop_at(14, self.pstate().cur) is None,
                self.measure() < old(self).measure(),
                same_flags(*old(self), *self),
                self.current_module == old(self).current_module,
            decreases self.measure(),
        {
            let op = match self.current {
                Token::Star => BinaryOp::Mul,
                Token::Slash => BinaryOp::Div,
                Token::Percent => BinaryOp::Rem,
                _ => break,
            };
            self.advance();
            let right = self.parse_unary()?;
            expr = Expr::Binary { left: Box::new(expr), op, right: Box::new(right) };
        }
        Ok(expr)
    }

    fn parse_unary(&mut self) -> (r: Result<Expr, String>)
        ensures
            match r {
                Ok(x) => p_unary(old(self).pstate()) == Some((expr_view(x), final(self).pstate())),
                Err(_) => p_unary(old(self).pstate()) is None,
            },
            r is Ok ==> final(self).measure() < old(self).measure(),
            final(self).measure() <= old(self).measure(),
            same_flags(*old(self), *final(self)),
            final(self).current_module == old(self).current_module,
        decreases old(self).measure(), 13nat,
    {
        match self.current {
            Token::Minus => {
                self.advance();
                let inner = self.parse_unary()?;
                Ok(Expr::Unary { op: UnaryOp::Neg, expr: Box::new(inner) })
            },
            Token::Bang => {
                self.advance();
                let inner = self.parse_unary()?;
                Ok(Expr::Unary { op: UnaryOp::Not, expr: Box::new(inner) })
            },
            _ => self.parse_postfix(),
        }
    }

    #[verifier::rlimit(40)]
    fn parse_postfix(&mut self) -> (r: Result<Expr, String>)
        ensures
            match r {
                Ok(x) => p_postfix(old(self).pstate()) == Some((expr_view(x), final(self).pstate())),
                Err(_) => p_postfix(old(self).pstate()) is None,
            },
            r is Ok ==> final(self).measure() < old(self).measure(),
            final(self).measure() <= old(self).measure(),
            same_flags(*old(self), *final(self)),
            final(self).current_module == old(self).current_module,
        decreases old(self).measure(), 12nat,
    {
        let (mut expr, _) = self.parse_primary_with_span()?;
        loop
            invariant
                p_postfix(old(self).pstate()) == p_postfix_rest(self.pstate(), expr_view(expr)),
                self.measure() < old(self).measure(),
                same_flags(*old(self), *self),
                self.current_module == old(self).current_module,
            ensures
                p_postfix(old(self).pstate()) == p_postfix_rest(self.pstate(), expr_view(expr)),
                !(self.pstate().cur is LBracket || self.pstate().cur is Arrow),
                self.measure() < old(self).measure(),
                same_flags(*old(self), *self),
                self.current_module == old(self).current_module,
            decreases self.measure(),
        {
            match self.current {
                Token::LBracket => {
                    self.advance();
                    let index = self.parse_expr()?;
                    self.expect(&Token::RBracket)?;
                    expr = Expr::Index { array: Box::new(expr), index: Box::new(index) };
                },
                Token::Arrow => {
                    self.advance();
                    let field = match &self.current {
                        Token::Ident(field) => copy_string(field),
                        _ => {
                            return Err(
                                self.error(
                                    owned("结构体字段访问 `->` 后必须接字段名"),
                                    "字段访问形如 `原点->x`。",
                                ),
                            );
                        },
                    };
                    self.advance();
                    if matches!(self.current, Token::LParen) {
                        self.advance();
                        let args = self.parse_call_args()?;
                        expr = Expr::MethodCall { receiver: Box::new(expr), method: field, args };
                        proof { lemma_expr_view_lists(expr); }
                    } else {
                        expr = Expr::FieldAccess { base: Box::new(expr), field };
                    }
                },
                _ => break,
            }
        }
        Ok(expr)
    }

    /// A formatted string literal, split into text and placeholders.
    fn parse_formatted_string(&mut self) -> (r: Result<(Expr, usize), String>)
        requires
            old(self).current@ is FormattedStringLiteral,
        ensures
            match r {
                Ok(x) => p_primary(old(self).pstate()) == Some((expr_view(x.0), final(self).pstate())),
                Err(_) => p_primary(old(self).pstate()) is None,
            },
            r is Ok ==> final(self).measure() < old(self).measure(),
            final(self).measure() <= old(self).measure(),
            same_flags(*old(self), *final(self)),
            final(self).current_module == old(self).current_module,
    {
        let start_span = self.cur_span();
        let parts = match &self.current {
            Token::FormattedStringLiteral(val) => parse_format_parts(val.as_str()),
            _ => Ok(Vec::new()),
        };
        match parts {
            Ok(parts) => {
                self.advance();
                Ok((Expr::FormattedString(parts), start_span.end))
            },
            Err(msg) => {
                let title = concat3("格式化字符串无效：", msg.as_str(), "");
                Err(
                    self.error(
                        title,
                        "占位符需要写成 `{变量名}`；普通 `{` 和 `}` 请分别写成 `{{` 和 `}}`。",
                    ),
                )
            },
        }
    }

    /// A name, or a call `name（args）`.
    fn parse_name_or_call(&mut self) -> (r: Result<(Expr, usize), String>)
        requires
            old(self).current@ is Ident,
        ensures
            match r {
                Ok(x) => p_primary(old(self).pstate()) == Some((expr_view(x.0), final(self).pstate())),
                Err(_) => p_primary(old(self).pstate()) is None,
            },
            r is Ok ==> final(self).measure() < old(self).measure(),
            final(self).measure() <= old(self).measure(),
            same_flags(*old(self), *final(self)),
            final(self).current_module == old(self).current_module,
        decreases old(self).measure(), 10nat,
    {
        let start_span = self.cur_span();
        let name = match &self.current {
            Token::Ident(name) => copy_string(name),
            _ => String::new(),
        };
        self.advance();
        if matches!(self.current, Token::LParen) {
            self.advance();
            let args = self.parse_call_args()?;
            let end = self.cur_span().end;
            let r = Expr::Call { target: name, type_arg: None, args };
            proof {
                lemma_expr_view_lists(r);
            }
            Ok((r, end))
        } else {
            Ok((Expr::Ident(name), start_span.end))
        }
    }

    /// `（expr）`.
    fn parse_parenthesized(&mut self) -> (r: Result<(Expr, usize), String>)
        requires
            old(self).current@ is LParen,
        ensures
            match r {
                Ok(x) => p_primary(old(self).pstate()) == Some((expr_view(x.0), final(self).pstate())),
                Err(_) => p_primary(old(self).pstate()) is None,
            },
            r is Ok ==> final(self).measure() < old(self).measure(),
            final(self).measure() <= old(self).measure(),
            same_flags(*old(self), *final(self)),
            final(self).current_module == old(self).current_module,
        decreases old(self).measure(), 10nat,
    {
        self.advance();
        let expr = self.parse_expr()?;
        let end = self.cur_span().end;
        self.expect(&Token::RParen)?;
        Ok((expr, end))
    }

    /// A primary expression and the offset where it ends.
    #[verifier::rlimit(80)]
    #[verifier::spinoff_prover]
    fn parse_primary_with_span(&mut self) -> (r: Result<(Expr, usize), String>)
        ensures
            match r {
                Ok(x) => p_primary(old(self).pstate()) == Some((expr_view(x.0), final(self).pstate())),
                Err(_) => p_primary(old(self).pstate()) is None,
            },
            r is Ok ==> final(self).measure() < old(self).measure(),
            final(self).measure() <= old(self).measure(),
            same_flags(*old(self), *final(self)),
            final(self).current_module == old(self).current_module,
        decreases old(self).measure(), 11nat,
    {
        let start_span = self.cur_span();
        match &self.current {
            Token::IntLiteral(val) => {
                let val = *val;
                self.advance();
                Ok((Expr::IntLiteral(val), start_span.end))
            },
            Token::DoubleLiteral(val) => {
                let val = copy_string(val);
                self.advance();
                Ok((Expr::DoubleLiteral(val), start_span.end))
            },
            Token::StringLiteral(val) => {
                let val = copy_string(val);
                self.advance();
                Ok((Expr::StringLiteral(val), start_span.end))
            },
            Token::FormattedStringLiteral(_) => self.parse_formatted_string(),
            Token::LBracket => {
                let expr = self.parse_array_literal()?;
                Ok((expr, self.cur_span().start))
            },
            Token::Construct => {
                let expr = self.parse_struct_literal()?;
                Ok((expr, self.cur_span().start))
            },
            Token::Create => {
                let expr = self.parse_object_create()?;
                Ok((expr, self.cur_span().start))
            },
            Token::Current => {
                self.advance();
                Ok((Expr::Ident(owned("当前")), start_span.end))
            },
            Token::Ident(_) => self.parse_name_or_call(),
            Token::TakeValue => {
                let expr = self.parse_take_value_expr()?;
                Ok((expr, self.cur_span().start))
            },
            Token::LParen => self.parse_parenthesized(),
            _ => {
                let title = self.found("期望表达式，但找到了 `", "`");
                Err(
                    self.error_here(
                        title,
                        "表达式可以是整数、字符串、数组字面量、变量名、方法调用、括号表达式或一元/二元运算。",
                    ),
                )
            },
        }
    }

    /// One or more expressions separated by `,`.
    fn parse_expr_list(&mut self) -> (r: Result<Vec<Expr>, String>)
        ensures
            match r {
                Ok(x) => p_expr_list(old(self).pstate(), Seq::empty()) == Some((exprs_view(x@), final(self).pstate())),
                Err(_) => p_expr_list(old(self).pstate(), Seq::empty()) is None,
            },
            r is Ok ==> final(self).measure() < old(self).measure(),
            final(self).measure() <= old(self).measure(),
            same_flags(*old(self), *final(self)),
            final(self).current_module == old(self).current_module,
        decreases old(self).measure(), 21nat,
    {
        let mut args: Vec<Expr> = Vec::new();
        assert(exprs_view(args@) =~= Seq::<SExpr>::empty());
        loop
            invariant_except_break
                p_expr_list(old(self).pstate(), Seq::empty()) == p_expr_list(self.pstate(), exprs_view(args@)),
            invariant
                self.measure() <= old(self).measure(),
                same_flags(*old(self), *self),
                self.current_module == old(self).current_module,
            ensures
                p_expr_list(old(self).pstate(), Seq::empty()) == Some((exprs_view(args@), self.pstate())),
                self.measure() < old(self).measure(),
                same_flags(*old(self), *self),
                self.current_module == old(self).current_module,
            decreases self.measure(),
        {
            let ghost before = args@;
            let arg = self.parse_expr()?;
            args.push(arg);
            assert(exprs_view(args@) =~= exprs_view(before).push(expr_view(arg)));
            if matches!(self.current, Token::Comma) {
                self.advance();
            } else {
                break;
            }
        }
        Ok(args)
    }

    /// Parses the arguments of a call after `(`, up to and including `)`.
    fn parse_call_args(&mut self) -> (r: Result<Vec<Expr>, String>)
        ensures
            match r {
                Ok(x) => p_call_args(old(self).pstate()) == Some((exprs_view(x@), final(self).pstate())),
                Err(_) => p_call_args(old(self).pstate()) is None,
            },
            r is Ok ==> final(self).measure() < old(self).measure(),
            final(self).measure() <= old(self).measure(),
            same_flags(*old(self), *final(self)),
            final(self).current_module == old(self).current_module,
        decreases old(self).measure(), 22nat,
    {
        if matches!(self.current, Token::RParen) {
            self.advance();
            let args: Vec<Expr> = Vec::new();
            assert(exprs_view(args@) =~= Seq::<SExpr>::empty());
            return Ok(args);
        }
        let args = self.parse_expr_list()?;
        self.expect(&Token::RParen)?;
        Ok(args)
    }

    /// Parses `[e, e, ...]`.
    fn parse_array_literal(&mut self) -> (r: Result<Expr, String>)
        ensures
            match r {
                Ok(x) => p_array(old(self).pstate()) == Some((expr_view(x), final(self).pstate())),
                Err(_) => p_array(old(self).pstate()) is None,
            },
            r is Ok ==> final(self).measure() < old(self).measure(),
            final(self).measure() <= old(self).measure(),
            r matches Ok(e) ==> e is ArrayLiteral,
            same_flags(*old(self), *final(self)),
            final(self).current_module == old(self).current_module,
        decreases old(self).measure(), 10nat,
    {
        self.expect(&Token::LBracket)?;
        if matches!(self.current, Token::RBracket) {
            self.advance();
            let r = Expr::ArrayLiteral(Vec::new());
            proof { lemma_expr_view_lists(r); }
            assert(exprs_view(Seq::<Expr>::empty()) =~= Seq::<SExpr>::empty());
            return Ok(r);
        }
        let elements = self.parse_expr_list()?;
        self.expect(&Token::RBracket)?;
        let r = Expr::ArrayLiteral(elements);
        proof { lemma_expr_view_lists(r); }
        Ok(r)
    }

    /// Parses `构造 Name：field：expr，...。。`.
    #[verifier::loop_isolation(false)]
    #[verifier::rlimit(40)]
    fn parse_struct_literal(&mut self) -> (r: Result<Expr, String>)
        ensures
            match r {
                Ok(x) => p_struct_lit(old(self).pstate()) == Some((expr_view(x), final(self).pstate())),
                Err(_) => p_struct_lit(old(self).pstate()) is None,
            },
            r is Ok ==> final(self).measure() < old(self).measure(),
            final(self).measure() <= old(self).measure(),
            r matches Ok(e) ==> e is StructLiteral,
            same_flags(*old(self), *final(self)),
            final(self).current_module == old(self).current_module,
        decreases old(self).measure(), 10nat,
    {
        let ghost s0 = self.pstate();
        self.expect(&Token::Construct)?;
        let ghost s1 = self.pstate();
        let name = self.expect_ident()?;
        let ghost s2 = self.pstate();
        self.expect(&Token::Colon)?;
        let ghost s3 = self.pstate();
        proof {
            lemma_adv_measure(s0);
            lemma_adv_measure(s1);
            lemma_adv_measure(s2);
        }
        let mut fields: Vec<(String, Expr)> = Vec::new();
        assert(field_inits_view(fields@) =~= Seq::<(Seq<char>, SExpr)>::empty());
        while !matches!(self.current, Token::ScopeEnd | Token::Eof)
            invariant
                p_struct_fields(s3, Seq::empty()) == p_struct_fields(self.pstate(), field_inits_view(fields@)),
                self.measure() < old(self).measure(),
                same_flags(*old(self), *self),
                self.current_module == old(self).current_module,
            decreases self.measure(),
        {
            let ghost before = fields@;
            let ghost h = self.pstate();
            let field_name = self.expect_ident()?;
            let ghost h1 = self.pstate();
            self.expect(&Token::Colon)?;
            let ghost h2 = self.pstate();
            proof {
                lemma_adv_measure(h);
                lemma_adv_measure(h1);
            }
            let value = self.parse_expr()?;
            fields.push((field_name, value));
            assert(field_inits_view(fields@) =~= field_inits_view(before).push((field_name@, expr_view(value))));
            if matches!(self.current, Token::Comma) {
                self.advance();
            }
            assert(p_struct_fields(h, field_inits_view(before)) == p_struct_fields(
                self.pstate(),
                field_inits_view(fields@),
            ));
        }
        self.expect(&Token::ScopeEnd)?;
        let r = Expr::StructLiteral { name, fields };
        proof { lemma_expr_view_lists(r); }
        Ok(r)
    }

    /// Parses `创建 Name（args）`.
    fn parse_object_create(&mut self) -> (r: Result<Expr, String>)
        ensures
            match r {
                Ok(x) => p_object_create(old(self).pstate()) == Some((expr_view(x), final(self).pstate())),
                Err(_) => p_object_create(old(self).pstate()) is None,
            },
            r is Ok ==> final(self).measure() < old(self).measure(),
            final(self).measure() <= old(self).measure(),
            r matches Ok(e) ==> e is ObjectCreate,
            same_flags(*old(self), *final(self)),
            final(self).current_module == old(self).current_module,
        decreases old(self).measure(), 10nat,
    {
        self.expect(&Token::Create)?;
        let name = self.expect_ident()?;
        self.expect(&Token::LParen)?;
        let args = self.parse_call_args()?;
        let r = Expr::ObjectCreate { name, args };
        proof { lemma_expr_view_lists(r); }
        Ok(r)
    }

    /// Parses `取值 target[->type][：arg，arg]`, a call that yields a value.
    #[verifier::rlimit(40)]
    fn parse_take_value_expr(&mut self) -> (r: Result<Expr, String>)
        ensures
            match r {
                Ok(x) => p_take_value(old(self).pstate()) == Some((expr_view(x), final(self).pstate())),
                Err(_) => p_take_value(old(self).pstate()) is None,
            },
            r is Ok ==> final(self).measure() < old(self).measure(),
            final(self).measure() <= old(self).measure(),
            r matches Ok(e) ==> e is Call,
            same_flags(*old(self), *final(self)),
            final(self).current_module == old(self).current_module,
        decreases old(self).measure(), 10nat,
    {
        self.expect(&Token::TakeValue)?;
        let target = self.expect_ident()?;
        let type_arg = if matches!(self.current, Token::Arrow) {
            self.advance();
            Some(self.parse_type()?)
        } else {
            None
        };
        if !matches!(self.current, Token::Colon) {
            let r = Expr::Call { target, type_arg, args: Vec::new() };
            proof { lemma_expr_view_lists(r); }
            assert(exprs_view(Seq::<Expr>::empty()) =~= Seq::<SExpr>::empty());
            return Ok(r);
        }
        self.expect(&Token::Colon)?;
        if matches!(
            self.current,
            Token::ScopeEnd | Token::ElseIf | Token::Else | Token::Case | Token::Otherwise | Token::Eof
        ) {
            let r = Expr::Call { target, type_arg, args: Vec::new() };
            proof { lemma_expr_view_lists(r); }
            assert(exprs_view(Seq::<Expr>::empty()) =~= Seq::<SExpr>::empty());
            return Ok(r);
        }
        let args = self.parse_expr_list()?;
        let r = Expr::Call { target, type_arg, args };
        proof { lemma_expr_view_lists(r); }
        Ok(r)
    }
}

/// The name an identifier-like token stands for.
pub open spec fn ident_text(t: SpecToken) -> Seq<char> {
    match t {
        SpecToken::Ident(s) => s,
        SpecToken::Current => "当前"@,
        _ => Seq::empty(),
    }
}

fn copy_params(ps: &Vec<Param>) -> (r: Vec<Param>)
    ensures
        r@.len() == ps@.len(),
        forall|i: int| 0 <= i < ps@.len() ==> (#[trigger] r@[i]).name@ == ps@[i].name@ && r@[i].param_type@ == ps@[i].param_type@,
        params_view(r@) == params_view(ps@),
{
    let mut r: Vec<Param> = Vec::new();
    let mut i: usize = 0;
    while i < ps.len()
        invariant
            i <= ps@.len(),
            r@.len() == i,
            forall|k: int| 0 <= k < i ==> (#[trigger] r@[k]).name@ == ps@[k].name@ && r@[k].param_type@ == ps@[k].param_type@,
        decreases ps@.len() - i,
    {
        r.push(Param { name: copy_string(&ps[i].name), param_type: copy_type(&ps[i].param_type) });
        i += 1;
    }
    assert(params_view(r@) =~= params_view(ps@));
    r
}

fn copy_opt_string(s: &Option<String>) -> (r: Option<String>)
    ensures
        match (s, r) {
            (Some(a), Some(b)) => a@ == b@,
            (None, None) => true,
            _ => false,
        },
{
    match s {
        Some(a) => Some(copy_string(a)),
        None => None,
    }
}

/// A copy of a function definition; names, parameters, types and flags are
/// copied exactly.
fn copy_function(f: &FunctionDef) -> (r: FunctionDef)
    ensures
        r.name@ == f.name@,
        match (f.module_name, r.module_name) {
            (Some(a), Some(b)) => a@ == b@,
            (None, None) => true,
            _ => false,
        },
        r.params@.len() == f.params@.len(),
        forall|i: int| 0 <= i < f.params@.len() ==> (#[trigger] r.params@[i]).name@ == f.params@[i].name@ && r.params@[i].param_type@ == f.params@[i].param_type@,
        r.return_type@ == f.return_type@,
        r.is_entry == f.is_entry,
        r.is_external == f.is_external,
        r.external_symbol is Some <==> f.external_symbol is Some,
        function_view(r) == function_view(*f),
{
    FunctionDef {
        name: copy_string(&f.name),
        module_name: copy_opt_string(&f.module_name),
        params: copy_params(&f.params),
        return_type: copy_type(&f.return_type),
        is_entry: f.is_entry,
        is_external: f.is_external,
        external_symbol: copy_opt_string(&f.external_symbol),
        body: copy_stmts(&f.body),
    }
}

} // verus!
