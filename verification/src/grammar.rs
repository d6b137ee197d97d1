use vstd::prelude::*;
use crate::lexer::{
    Span, SpecToken, lemma_lex_token_advances, lemma_skip_trivia_bounds, next_token_at,
    skip_trivia, span_after,
};
use crate::parser::{
    ArrayAssignStmt, AssignStmt, BinaryOp, ConstructorDef, ExecuteStmt, Expr, FieldAssignStmt,
    FunctionDef, IfBranch, IfStmt, ImportDecl, LoopStmt, MemberAccess, ModuleDef, ObjectDef,
    ObjectMethod, Param, Program, ReturnStmt, SelectCase, SelectStmt, SpecFormatPart, SpecType,
    Stmt, StructDef, StructField, Type, UnaryOp, VarDecl, ends_if_branch, ends_return,
    ends_select_case, format_parts_spec, ident_text, is_section_boundary, object_module_name_spec,
    parts_view, type_keyword,
};

verus! {

// ---------------------------------------------------------------------------
// The grammar of 问源, as a function of the parser's position.
//
// A position is the lexer's offset, the current token with its span, and the
// flags that the declarations `@声明 入口` / `@声明 外部` and `#模块` set for
// the definitions that follow. Each rule gives the syntax tree it reads and
// the position after it, or `None` where the parser reports an error.
//
// A rule that repeats goes on only while what is left to read (`measure`)
// shrinks. The parser's contracts show that each of its steps reads
// something, so this guard turns down no source that the parser accepts.
// ---------------------------------------------------------------------------

/// The parser's position in the source.
pub struct PState {
    pub src: Seq<char>,
    pub off: int,
    pub cur: SpecToken,
    pub span: Span,
    pub entry_pending: bool,
    pub has_entry: bool,
    pub external_pending: bool,
    pub ext_symbol: Option<Seq<char>>,
    pub module: Option<Seq<char>>,
}

/// The position after reading one more token.
#[verifier::opaque]
pub open spec fn adv(st: PState) -> PState {
    PState {
        off: next_token_at(st.src, st.off).1,
        cur: next_token_at(st.src, st.off).0,
        span: span_after(st.src, st.off, st.span),
        ..st
    }
}

/// What is left to read: the unread characters and the current token.
pub open spec fn measure(st: PState) -> nat {
    let rem: nat = if 0 <= st.off <= st.src.len() { (st.src.len() - st.off) as nat } else { 0 };
    if st.cur is Eof {
        rem
    } else {
        rem + 1
    }
}

/// Reading a token never adds to what is left, and reading any token but
/// the end of input takes something away.
pub proof fn lemma_adv_measure(st: PState)
    ensures
        measure(adv(st)) <= measure(st),
        !(st.cur is Eof) ==> measure(adv(st)) < measure(st),
{
    reveal(adv);
    if 0 <= st.off <= st.src.len() {
        lemma_skip_trivia_bounds(st.src, st.off, false);
        let q = skip_trivia(st.src, st.off);
        if q < st.src.len() {
            lemma_lex_token_advances(st.src, q);
        }
    }
}

// ---------------------------------------------------------------------------
// Syntax trees as values.
// ---------------------------------------------------------------------------

#[verifier::ext_equal]
pub enum SExpr {
    Int(i64),
    Double(Seq<char>),
    Str(Seq<char>),
    Formatted(Seq<SpecFormatPart>),
    Array(Seq<SExpr>),
    StructLit { name: Seq<char>, fields: Seq<(Seq<char>, SExpr)> },
    ObjectCreate { name: Seq<char>, args: Seq<SExpr> },
    Ident(Seq<char>),
    Index { array: Box<SExpr>, index: Box<SExpr> },
    Field { base: Box<SExpr>, field: Seq<char> },
    MethodCall { receiver: Box<SExpr>, method: Seq<char>, args: Seq<SExpr> },
    Call { target: Seq<char>, type_arg: Option<SpecType>, args: Seq<SExpr> },
    Unary { op: UnaryOp, expr: Box<SExpr> },
    Binary { left: Box<SExpr>, op: BinaryOp, right: Box<SExpr> },
}

#[verifier::ext_equal]
pub struct SVarDecl {
    pub name: Seq<char>,
    pub name_span: Span,
    pub span: Span,
    pub var_type: Option<SpecType>,
    pub is_mutable: bool,
    pub init: Option<SExpr>,
}

#[verifier::ext_equal]
pub enum SLoop {
    Count { var_name: Seq<char>, end: SExpr, body: Seq<SStmt> },
    Iterate { var_name: Seq<char>, start: SExpr, end: SExpr, body: Seq<SStmt> },
    Condition { condition: SExpr, body: Seq<SStmt> },
}

#[verifier::ext_equal]
pub enum SStmt {
    VarDecl(SVarDecl),
    Assign { name: Seq<char>, name_span: Span, span: Span, value: SExpr },
    ArrayAssign { name: Seq<char>, name_span: Span, index: SExpr, span: Span, value: SExpr },
    FieldAssign { base: SExpr, field: Seq<char>, span: Span, value: SExpr },
    Return(Option<SExpr>),
    Import(Seq<char>, Option<Seq<char>>),
    Execute { target: Seq<char>, args: Seq<SExpr> },
    If { branches: Seq<(SExpr, Seq<SStmt>)>, else_body: Option<Seq<SStmt>> },
    Select { target: Seq<char>, cases: Seq<(SExpr, Seq<SStmt>)>, default_body: Option<Seq<SStmt>> },
    Loop(SLoop),
}

/// A parameter or a field: its name and type.
pub type SParam = (Seq<char>, SpecType);

#[verifier::ext_equal]
pub struct SFunction {
    pub name: Seq<char>,
    pub module_name: Option<Seq<char>>,
    pub params: Seq<SParam>,
    pub return_type: SpecType,
    pub is_entry: bool,
    pub is_external: bool,
    pub external_symbol: Option<Seq<char>>,
    pub body: Seq<SStmt>,
}

#[verifier::ext_equal]
pub struct SObject {
    pub name: Seq<char>,
    pub fields: Seq<SParam>,
    pub constructor: Option<(Seq<SParam>, Seq<SStmt>)>,
    pub methods: Seq<(MemberAccess, SFunction)>,
}

#[verifier::ext_equal]
pub struct SProgram {
    pub has_entry: bool,
    pub modules: Seq<Seq<char>>,
    pub imports: Seq<(Seq<char>, Option<Seq<char>>)>,
    pub structs: Seq<(Seq<char>, Seq<SParam>)>,
    pub objects: Seq<SObject>,
    pub functions: Seq<SFunction>,
}

pub open spec fn opt_str(o: Option<String>) -> Option<Seq<char>> {
    match o {
        Some(s) => Some(s@),
        None => None,
    }
}

pub open spec fn expr_view(e: Expr) -> SExpr
    decreases e,
{
    match e {
        Expr::IntLiteral(v) => SExpr::Int(v),
        Expr::DoubleLiteral(t) => SExpr::Double(t@),
        Expr::StringLiteral(t) => SExpr::Str(t@),
        Expr::FormattedString(parts) => SExpr::Formatted(parts_view(parts@)),
        Expr::ArrayLiteral(v) => SExpr::Array(
            Seq::new(v@.len(), |i: int| if 0 <= i < v@.len() { expr_view(v@[i]) } else { SExpr::Int(0) }),
        ),
        Expr::StructLiteral { name, fields } => SExpr::StructLit {
            name: name@,
            fields: Seq::new(
                fields@.len(),
                |i: int| if 0 <= i < fields@.len() { (fields@[i].0@, expr_view(fields@[i].1)) } else { (Seq::empty(), SExpr::Int(0)) },
            ),
        },
        Expr::ObjectCreate { name, args } => SExpr::ObjectCreate {
            name: name@,
            args: Seq::new(args@.len(), |i: int| if 0 <= i < args@.len() { expr_view(args@[i]) } else { SExpr::Int(0) }),
        },
        Expr::Ident(n) => SExpr::Ident(n@),
        Expr::Index { array, index } => SExpr::Index { array: Box::new(expr_view(*array)), index: Box::new(expr_view(*index)) },
        Expr::FieldAccess { base, field } => SExpr::Field { base: Box::new(expr_view(*base)), field: field@ },
        Expr::MethodCall { receiver, method, args } => SExpr::MethodCall {
            receiver: Box::new(expr_view(*receiver)),
            method: method@,
            args: Seq::new(args@.len(), |i: int| if 0 <= i < args@.len() { expr_view(args@[i]) } else { SExpr::Int(0) }),
        },
        Expr::Call { target, type_arg, args } => SExpr::Call {
            target: target@,
            type_arg: match type_arg {
                Some(t) => Some(t@),
                None => None,
            },
            args: Seq::new(args@.len(), |i: int| if 0 <= i < args@.len() { expr_view(args@[i]) } else { SExpr::Int(0) }),
        },
        Expr::Unary { op, expr } => SExpr::Unary { op, expr: Box::new(expr_view(*expr)) },
        Expr::Binary { left, op, right } => SExpr::Binary {
            left: Box::new(expr_view(*left)),
            op,
            right: Box::new(expr_view(*right)),
        },
    }
}

pub open spec fn exprs_view(v: Seq<Expr>) -> Seq<SExpr> {
    Seq::new(v.len(), |i: int| expr_view(v[i]))
}

/// The `name: value` entries of a struct literal as values.
pub open spec fn field_inits_view(v: Seq<(String, Expr)>) -> Seq<(Seq<char>, SExpr)> {
    Seq::new(v.len(), |i: int| (v[i].0@, expr_view(v[i].1)))
}

/// The view of an expression that holds a list, with the list viewed as a
/// whole.
pub proof fn lemma_expr_view_lists(e: Expr)
    ensures
        match e {
            Expr::ArrayLiteral(v) => expr_view(e) == SExpr::Array(exprs_view(v@)),
            Expr::StructLiteral { name, fields } => expr_view(e) == SExpr::StructLit {
                name: name@,
                fields: field_inits_view(fields@),
            },
            Expr::ObjectCreate { name, args } => expr_view(e) == SExpr::ObjectCreate {
                name: name@,
                args: exprs_view(args@),
            },
            Expr::MethodCall { receiver, method, args } => expr_view(e) == SExpr::MethodCall {
                receiver: Box::new(expr_view(*receiver)),
                method: method@,
                args: exprs_view(args@),
            },
            Expr::Call { target, type_arg, args } => expr_view(e) == SExpr::Call {
                target: target@,
                type_arg: match type_arg {
                    Some(t) => Some(t@),
                    None => None,
                },
                args: exprs_view(args@),
            },
            _ => true,
        },
{
    match e {
        Expr::ArrayLiteral(v) => {
            assert(expr_view(e)->Array_0 =~= exprs_view(v@));
        },
        Expr::StructLiteral { name, fields } => {
            assert(expr_view(e)->StructLit_fields =~= field_inits_view(fields@));
        },
        Expr::ObjectCreate { name, args } => {
            assert(expr_view(e)->ObjectCreate_args =~= exprs_view(args@));
        },
        Expr::MethodCall { receiver, method, args } => {
            assert(expr_view(e)->MethodCall_args =~= exprs_view(args@));
        },
        Expr::Call { target, type_arg, args } => {
            assert(expr_view(e)->Call_args =~= exprs_view(args@));
        },
        _ => {},
    }
}

pub open spec fn params_view(v: Seq<Param>) -> Seq<SParam> {
    Seq::new(v.len(), |i: int| (v[i].name@, v[i].param_type@))
}

pub open spec fn fields_view(v: Seq<StructField>) -> Seq<SParam> {
    Seq::new(v.len(), |i: int| (v[i].name@, v[i].field_type@))
}

pub open spec fn opt_expr_view(e: Option<Expr>) -> Option<SExpr> {
    match e {
        Some(e) => Some(expr_view(e)),
        None => None,
    }
}

pub open spec fn opt_type_view(t: Option<Type>) -> Option<SpecType> {
    match t {
        Some(t) => Some(t@),
        None => None,
    }
}

pub open spec fn var_decl_view(v: VarDecl) -> SVarDecl {
    SVarDecl {
        name: v.name@,
        name_span: v.name_span,
        span: v.span,
        var_type: opt_type_view(v.var_type),
        is_mutable: v.is_mutable,
        init: opt_expr_view(v.init),
    }
}

pub open spec fn stmt_view(s: Stmt) -> SStmt
    decreases s,
{
    match s {
        Stmt::VarDecl(v) => SStmt::VarDecl(var_decl_view(v)),
        Stmt::Assign(a) => SStmt::Assign { name: a.name@, name_span: a.name_span, span: a.span, value: expr_view(a.value) },
        Stmt::ArrayAssign(a) => SStmt::ArrayAssign {
            name: a.name@,
            name_span: a.name_span,
            index: expr_view(a.index),
            span: a.span,
            value: expr_view(a.value),
        },
        Stmt::FieldAssign(a) => SStmt::FieldAssign { base: expr_view(a.base), field: a.field@, span: a.span, value: expr_view(a.value) },
        Stmt::Return(r) => SStmt::Return(
            match r.value {
                Some(e) => Some(expr_view(e)),
                None => None,
            },
        ),
        Stmt::Import(i) => SStmt::Import(i.path@, opt_str(i.alias)),
        Stmt::Execute(x) => SStmt::Execute {
            target: x.target@,
            args: Seq::new(x.args@.len(), |i: int| if 0 <= i < x.args@.len() { expr_view(x.args@[i]) } else { SExpr::Int(0) }),
        },
        Stmt::If(x) => SStmt::If {
            branches: Seq::new(
                x.branches@.len(),
                |i: int| if 0 <= i < x.branches@.len() {
                    (
                        expr_view(x.branches@[i].condition),
                        Seq::new(
                            x.branches@[i].body@.len(),
                            |j: int| if 0 <= j < x.branches@[i].body@.len() { stmt_view(x.branches@[i].body@[j]) } else { SStmt::Return(None) },
                        ),
                    )
                } else {
                    (SExpr::Int(0), Seq::empty())
                },
            ),
            else_body: match x.else_body {
                Some(b) => Some(Seq::new(b@.len(), |j: int| if 0 <= j < b@.len() { stmt_view(b@[j]) } else { SStmt::Return(None) })),
                None => None,
            },
        },
        Stmt::Select(x) => SStmt::Select {
            target: x.target@,
            cases: Seq::new(
                x.cases@.len(),
                |i: int| if 0 <= i < x.cases@.len() {
                    (
                        expr_view(x.cases@[i].value),
                        Seq::new(
                            x.cases@[i].body@.len(),
                            |j: int| if 0 <= j < x.cases@[i].body@.len() { stmt_view(x.cases@[i].body@[j]) } else { SStmt::Return(None) },
                        ),
                    )
                } else {
                    (SExpr::Int(0), Seq::empty())
                },
            ),
            default_body: match x.default_body {
                Some(b) => Some(Seq::new(b@.len(), |j: int| if 0 <= j < b@.len() { stmt_view(b@[j]) } else { SStmt::Return(None) })),
                None => None,
            },
        },
        Stmt::Loop(l) => SStmt::Loop(
            match l {
                LoopStmt::Count { var_name, end, body } => SLoop::Count {
                    var_name: var_name@,
                    end: expr_view(end),
                    body: Seq::new(body@.len(), |j: int| if 0 <= j < body@.len() { stmt_view(body@[j]) } else { SStmt::Return(None) }),
                },
                LoopStmt::Iterate { var_name, start, end, body } => SLoop::Iterate {
                    var_name: var_name@,
                    start: expr_view(start),
                    end: expr_view(end),
                    body: Seq::new(body@.len(), |j: int| if 0 <= j < body@.len() { stmt_view(body@[j]) } else { SStmt::Return(None) }),
                },
                LoopStmt::Condition { condition, body } => SLoop::Condition {
                    condition: expr_view(condition),
                    body: Seq::new(body@.len(), |j: int| if 0 <= j < body@.len() { stmt_view(body@[j]) } else { SStmt::Return(None) }),
                },
            },
        ),
    }
}

pub open spec fn stmts_view(v: Seq<Stmt>) -> Seq<SStmt> {
    Seq::new(v.len(), |i: int| stmt_view(v[i]))
}

pub open spec fn branches_view(v: Seq<IfBranch>) -> Seq<(SExpr, Seq<SStmt>)> {
    Seq::new(v.len(), |i: int| (expr_view(v[i].condition), stmts_view(v[i].body@)))
}

pub open spec fn cases_view(v: Seq<SelectCase>) -> Seq<(SExpr, Seq<SStmt>)> {
    Seq::new(v.len(), |i: int| (expr_view(v[i].value), stmts_view(v[i].body@)))
}

pub open spec fn opt_stmts_view(o: Option<Vec<Stmt>>) -> Option<Seq<SStmt>> {
    match o {
        Some(b) => Some(stmts_view(b@)),
        None => None,
    }
}

pub open spec fn loop_view(l: LoopStmt) -> SLoop {
    match l {
        LoopStmt::Count { var_name, end, body } => SLoop::Count {
            var_name: var_name@,
            end: expr_view(end),
            body: stmts_view(body@),
        },
        LoopStmt::Iterate { var_name, start, end, body } => SLoop::Iterate {
            var_name: var_name@,
            start: expr_view(start),
            end: expr_view(end),
            body: stmts_view(body@),
        },
        LoopStmt::Condition { condition, body } => SLoop::Condition {
            condition: expr_view(condition),
            body: stmts_view(body@),
        },
    }
}

/// The view of a statement that holds lists, with each list viewed as a
/// whole.
pub proof fn lemma_stmt_view_lists(s: Stmt)
    ensures
        match s {
            Stmt::Execute(x) => stmt_view(s) == SStmt::Execute { target: x.target@, args: exprs_view(x.args@) },
            Stmt::If(x) => stmt_view(s) == SStmt::If {
                branches: branches_view(x.branches@),
                else_body: opt_stmts_view(x.else_body),
            },
            Stmt::Select(x) => stmt_view(s) == SStmt::Select {
                target: x.target@,
                cases: cases_view(x.cases@),
                default_body: opt_stmts_view(x.default_body),
            },
            Stmt::Loop(l) => stmt_view(s) == SStmt::Loop(loop_view(l)),
            _ => true,
        },
{
    match s {
        Stmt::Execute(x) => {
            assert(stmt_view(s)->Execute_args =~= exprs_view(x.args@));
        },
        Stmt::If(x) => {
            let a = stmt_view(s)->If_branches;
            let b = branches_view(x.branches@);
            assert forall|k: int| 0 <= k < a.len() implies a[k] == b[k] by {
                assert(a[k].1 =~= b[k].1);
            }
            assert(a =~= b);
            if x.else_body is Some {
                assert(stmt_view(s)->If_else_body->0 =~= opt_stmts_view(x.else_body)->0);
            }
        },
        Stmt::Select(x) => {
            let a = stmt_view(s)->Select_cases;
            let b = cases_view(x.cases@);
            assert forall|k: int| 0 <= k < a.len() implies a[k] == b[k] by {
                assert(a[k].1 =~= b[k].1);
            }
            assert(a =~= b);
            if x.default_body is Some {
                assert(stmt_view(s)->Select_default_body->0 =~= opt_stmts_view(x.default_body)->0);
            }
        },
        Stmt::Loop(l) => {
            let a = stmt_view(s)->Loop_0;
            match l {
                LoopStmt::Count { body, .. } => {
                    assert(a->Count_body =~= stmts_view(body@));
                },
                LoopStmt::Iterate { body, .. } => {
                    assert(a->Iterate_body =~= stmts_view(body@));
                },
                LoopStmt::Condition { body, .. } => {
                    assert(a->Condition_body =~= stmts_view(body@));
                },
            }
        },
        _ => {},
    }
}

pub open spec fn function_view(f: FunctionDef) -> SFunction {
    SFunction {
        name: f.name@,
        module_name: opt_str(f.module_name),
        params: params_view(f.params@),
        return_type: f.return_type@,
        is_entry: f.is_entry,
        is_external: f.is_external,
        external_symbol: opt_str(f.external_symbol),
        body: stmts_view(f.body@),
    }
}

pub open spec fn functions_view(v: Seq<FunctionDef>) -> Seq<SFunction> {
    Seq::new(v.len(), |i: int| function_view(v[i]))
}

pub open spec fn methods_view(v: Seq<ObjectMethod>) -> Seq<(MemberAccess, SFunction)> {
    Seq::new(v.len(), |i: int| (v[i].access, function_view(v[i].function)))
}

pub open spec fn constructor_view(c: Option<ConstructorDef>) -> Option<(Seq<SParam>, Seq<SStmt>)> {
    match c {
        Some(c) => Some((params_view(c.params@), stmts_view(c.body@))),
        None => None,
    }
}

/// An object as read so far: its name and the sections seen.
pub open spec fn object_acc(
    name: Seq<char>,
    fields: Seq<StructField>,
    constructor: Option<ConstructorDef>,
    methods: Seq<ObjectMethod>,
) -> SObject {
    SObject {
        name,
        fields: fields_view(fields),
        constructor: constructor_view(constructor),
        methods: methods_view(methods),
    }
}

pub open spec fn object_view(o: ObjectDef) -> SObject {
    object_acc(o.name@, o.fields@, o.constructor, o.methods@)
}

pub open spec fn program_view(p: Program) -> SProgram {
    SProgram {
        has_entry: p.has_entry,
        modules: Seq::new(p.modules@.len(), |i: int| p.modules@[i].name@),
        imports: Seq::new(p.imports@.len(), |i: int| (p.imports@[i].path@, opt_str(p.imports@[i].alias))),
        structs: Seq::new(p.structs@.len(), |i: int| (p.structs@[i].name@, fields_view(p.structs@[i].fields@))),
        objects: Seq::new(p.objects@.len(), |i: int| object_view(p.objects@[i])),
        functions: functions_view(p.functions@),
    }
}


// ---------------------------------------------------------------------------
// Tokens.
// ---------------------------------------------------------------------------

/// The current token is `t`: read it.
pub open spec fn expect_tok(st: PState, t: SpecToken) -> Option<PState> {
    if st.cur == t {
        Some(adv(st))
    } else {
        None
    }
}

/// `=` or `为`.
pub open spec fn expect_assign(st: PState) -> Option<PState> {
    if st.cur is Equals || st.cur is AsKw {
        Some(adv(st))
    } else {
        None
    }
}

/// An identifier, or `当前` read as the name `当前`, with its span.
pub open spec fn expect_ident(st: PState) -> Option<(Seq<char>, Span, PState)> {
    if st.cur is Ident || st.cur is Current {
        Some((ident_text(st.cur), st.span, adv(st)))
    } else {
        None
    }
}

/// A type keyword, or any identifier as a struct or object name.
pub open spec fn p_type(st: PState) -> Option<(SpecType, PState)> {
    match type_keyword(st.cur) {
        Some(k) => Some((k, adv(st))),
        None => match st.cur {
            SpecToken::Ident(n) => Some((SpecType::Struct(n), adv(st))),
            _ => None,
        },
    }
}

// ---------------------------------------------------------------------------
// Expressions. Precedence, loosest first: `||`, `&&`, `==` `!=`,
// `<` `<=` `>` `>=`, `+` `-`, `*` `/` `%`, unary `-` `!`, postfix `[i]`,
// `->field` and `->method(args)`. Binary operators associate to the left.
// ---------------------------------------------------------------------------

/// The binary operator of precedence level `k` (19 loosest, 14 tightest)
/// that `t` spells.
pub open spec fn binop_at(k: nat, t: SpecToken) -> Option<BinaryOp> {
    if k == 19 {
        if t is OrOr { Some(BinaryOp::Or) } else { None }
    } else if k == 18 {
        if t is AndAnd { Some(BinaryOp::And) } else { None }
    } else if k == 17 {
        match t {
            SpecToken::EqEq => Some(BinaryOp::Eq),
            SpecToken::NotEq => Some(BinaryOp::NotEq),
            _ => None,
        }
    } else if k == 16 {
        match t {
            SpecToken::Less => Some(BinaryOp::Less),
            SpecToken::LessEq => Some(BinaryOp::LessEq),
            SpecToken::Greater => Some(BinaryOp::Greater),
            SpecToken::GreaterEq => Some(BinaryOp::GreaterEq),
            _ => None,
        }
    } else if k == 15 {
        match t {
            SpecToken::Plus => Some(BinaryOp::Add),
            SpecToken::Minus => Some(BinaryOp::Sub),
            _ => None,
        }
    } else {
        match t {
            SpecToken::Star => Some(BinaryOp::Mul),
            SpecToken::Slash => Some(BinaryOp::Div),
            SpecToken::Percent => Some(BinaryOp::Rem),
            _ => None,
        }
    }
}

/// Each binary operator token stands for its own operator at its own
/// precedence level, loosest first: `||` or; `&&` and; `==` `!=`;
/// `<` `<=` `>` `>=`; `+` add, `-` subtract; `*` multiply, `/` divide,
/// `%` remainder. No other token is a binary operator at those levels.
pub proof fn lemma_binary_operator_table(t: SpecToken)
    ensures
        binop_at(19, SpecToken::OrOr) == Some(BinaryOp::Or),
        binop_at(18, SpecToken::AndAnd) == Some(BinaryOp::And),
        binop_at(17, SpecToken::EqEq) == Some(BinaryOp::Eq),
        binop_at(17, SpecToken::NotEq) == Some(BinaryOp::NotEq),
        binop_at(16, SpecToken::Less) == Some(BinaryOp::Less),
        binop_at(16, SpecToken::LessEq) == Some(BinaryOp::LessEq),
        binop_at(16, SpecToken::Greater) == Some(BinaryOp::Greater),
        binop_at(16, SpecToken::GreaterEq) == Some(BinaryOp::GreaterEq),
        binop_at(15, SpecToken::Plus) == Some(BinaryOp::Add),
        binop_at(15, SpecToken::Minus) == Some(BinaryOp::Sub),
        binop_at(14, SpecToken::Star) == Some(BinaryOp::Mul),
        binop_at(14, SpecToken::Slash) == Some(BinaryOp::Div),
        binop_at(14, SpecToken::Percent) == Some(BinaryOp::Rem),
        binop_at(19, t) is Some ==> t is OrOr,
        binop_at(18, t) is Some ==> t is AndAnd,
        binop_at(17, t) is Some ==> t is EqEq || t is NotEq,
        binop_at(16, t) is Some ==> t is Less || t is LessEq || t is Greater || t is GreaterEq,
        binop_at(15, t) is Some ==> t is Plus || t is Minus,
        binop_at(14, t) is Some ==> t is Star || t is Slash || t is Percent,
{
}

/// One operator and its right operand after `acc`, with no further operator
/// of the same level, make one binary expression with `acc` on the left.
pub proof fn lemma_binary_rest_single(s: PState, k: nat, acc: SExpr)
    requires
        14 <= k <= 19,
        binop_at(k, s.cur) is Some,
        (if k == 14 { p_unary(adv(s)) } else { p_binary(adv(s), (k - 1) as nat) }) matches Some((r, s2)) && measure(s2)
            < measure(s) && binop_at(k, s2.cur) is None,
    ensures
        match (if k == 14 { p_unary(adv(s)) } else { p_binary(adv(s), (k - 1) as nat) }) {
            Some((r, _)) => p_binary_rest(s, k, acc) matches Some((e, _)) && e == (SExpr::Binary {
                left: Box::new(acc),
                op: binop_at(k, s.cur)->0,
                right: Box::new(r),
            }),
            None => true,
        },
{
    lemma_adv_measure(s);
    reveal_with_fuel(p_binary_rest, 2);
}

/// `-` negates and `!` is logical not, applied to the operand after them.
pub proof fn lemma_unary_operators(st: PState)
    ensures
        st.cur is Minus ==> match p_unary(adv(st)) {
            Some((e, s1)) => p_unary(st) == Some((SExpr::Unary { op: UnaryOp::Neg, expr: Box::new(e) }, s1)),
            None => p_unary(st) is None,
        },
        st.cur is Bang ==> match p_unary(adv(st)) {
            Some((e, s1)) => p_unary(st) == Some((SExpr::Unary { op: UnaryOp::Not, expr: Box::new(e) }, s1)),
            None => p_unary(st) is None,
        },
{
}

/// The type keywords and what they name: `无` void, `整数` and `整型`
/// integer, `小数` double, `浮点` float, `布尔` boolean, `字符` character,
/// `字符串` string; any other name is a struct or object type.
pub proof fn lemma_type_keywords(st: PState)
    ensures
        type_keyword(SpecToken::VoidKw) == Some(SpecType::Void),
        type_keyword(SpecToken::IntKw) == Some(SpecType::Int),
        type_keyword(SpecToken::IntTypeKw) == Some(SpecType::Int),
        type_keyword(SpecToken::DoubleKw) == Some(SpecType::Double),
        type_keyword(SpecToken::FloatKw) == Some(SpecType::Float),
        type_keyword(SpecToken::BoolKw) == Some(SpecType::Bool),
        type_keyword(SpecToken::CharKw) == Some(SpecType::Char),
        type_keyword(SpecToken::StringKw) == Some(SpecType::String),
        st.cur matches SpecToken::Ident(n) ==> p_type(st) == Some((SpecType::Struct(n), adv(st))),
{
}

/// A statement is of the kind its first token announces: `定义` a variable
/// declaration, `返回` a return, `引用` an import, `执行` a call, `判断` a
/// conditional, `当前` a selection, `循环` a loop; `循环计数`,
/// `循环迭代` and `循环条件` are the three kinds of loop.
pub proof fn lemma_statement_kinds(st: PState)
    ensures
        p_stmt(st) matches Some((x, _)) ==> {
            &&& st.cur is Define ==> x is VarDecl
            &&& st.cur is ReturnKw ==> x is Return
            &&& st.cur is Import ==> x is Import
            &&& st.cur is Execute ==> x is Execute
            &&& st.cur is If ==> x is If
            &&& st.cur is Current ==> x is Select
            &&& st.cur is Loop ==> x is Loop
        },
        p_loop(st) matches Some((x, _)) ==> {
            &&& adv(st).cur is Count ==> (x matches SStmt::Loop(SLoop::Count { .. }))
            &&& adv(st).cur is Iterate ==> (x matches SStmt::Loop(SLoop::Iterate { .. }))
            &&& adv(st).cur is Condition ==> (x matches SStmt::Loop(SLoop::Condition { .. }))
        },
{
}

/// An expression.
pub open spec fn p_expr(st: PState) -> Option<(SExpr, PState)>
    decreases measure(st), 43nat,
{
    p_binary(st, 19)
}

/// A chain of operands of level `k - 1` joined by operators of level `k`.
pub open spec fn p_binary(st: PState, k: nat) -> Option<(SExpr, PState)>
    decreases measure(st), 2 * k + 1,
{
    if k < 14 || k > 19 {
        None
    } else {
        let first = if k == 14 { p_unary(st) } else { p_binary(st, (k - 1) as nat) };
        match first {
            Some((e, s1)) => if measure(s1) < measure(st) {
                p_binary_rest(s1, k, e)
            } else {
                None
            },
            None => None,
        }
    }
}

/// The operators of level `k` and their right operands after `acc`.
pub open spec fn p_binary_rest(s: PState, k: nat, acc: SExpr) -> Option<(SExpr, PState)>
    decreases measure(s), 2 * k,
{
    if k < 14 || k > 19 {
        None
    } else {
        match binop_at(k, s.cur) {
            Some(op) => {
                let s1 = adv(s);
                proof {
                    lemma_adv_measure(s);
                }
                let right = if k == 14 { p_unary(s1) } else { p_binary(s1, (k - 1) as nat) };
                match right {
                    Some((r, s2)) => if measure(s2) < measure(s) {
                        p_binary_rest(s2, k, SExpr::Binary { left: Box::new(acc), op, right: Box::new(r) })
                    } else {
                        None
                    },
                    None => None,
                }
            },
            None => Some((acc, s)),
        }
    }
}

/// `-` and `!` before a postfix expression.
pub open spec fn p_unary(st: PState) -> Option<(SExpr, PState)>
    decreases measure(st), 24nat,
{
    match st.cur {
        SpecToken::Minus => {
            proof {
                lemma_adv_measure(st);
            }
            match p_unary(adv(st)) {
                Some((e, s1)) => Some((SExpr::Unary { op: UnaryOp::Neg, expr: Box::new(e) }, s1)),
                None => None,
            }
        },
        SpecToken::Bang => {
            proof {
                lemma_adv_measure(st);
            }
            match p_unary(adv(st)) {
                Some((e, s1)) => Some((SExpr::Unary { op: UnaryOp::Not, expr: Box::new(e) }, s1)),
                None => None,
            }
        },
        _ => p_postfix(st),
    }
}

/// A primary expression with its indexes, field accesses and method calls.
pub open spec fn p_postfix(st: PState) -> Option<(SExpr, PState)>
    decreases measure(st), 22nat,
{
    match p_primary(st) {
        Some((e, s1)) => if measure(s1) < measure(st) {
            p_postfix_rest(s1, e)
        } else {
            None
        },
        None => None,
    }
}

pub open spec fn p_postfix_rest(s: PState, acc: SExpr) -> Option<(SExpr, PState)>
    decreases measure(s), 21nat,
{
    match s.cur {
        SpecToken::LBracket => {
            let s1 = adv(s);
            proof {
                lemma_adv_measure(s);
            }
            match p_expr(s1) {
                Some((idx, s2)) => match expect_tok(s2, SpecToken::RBracket) {
                    Some(s3) => if measure(s3) < measure(s) {
                        p_postfix_rest(s3, SExpr::Index { array: Box::new(acc), index: Box::new(idx) })
                    } else {
                        None
                    },
                    None => None,
                },
                None => None,
            }
        },
        SpecToken::Arrow => {
            let s1 = adv(s);
            match s1.cur {
                SpecToken::Ident(f) => {
                    let s2 = adv(s1);
                    proof {
                        lemma_adv_measure(s);
                        lemma_adv_measure(s1);
                        lemma_adv_measure(s2);
                    }
                    if s2.cur is LParen {
                        match p_call_args(adv(s2)) {
                            Some((args, s3)) => if measure(s3) < measure(s) {
                                p_postfix_rest(s3, SExpr::MethodCall { receiver: Box::new(acc), method: f, args })
                            } else {
                                None
                            },
                            None => None,
                        }
                    } else {
                        p_postfix_rest(s2, SExpr::Field { base: Box::new(acc), field: f })
                    }
                },
                _ => None,
            }
        },
        _ => Some((acc, s)),
    }
}

/// A literal, a name or call, a parenthesised expression, or one of the
/// bracketed forms.
pub open spec fn p_primary(st: PState) -> Option<(SExpr, PState)>
    decreases measure(st), 20nat,
{
    proof {
        lemma_adv_measure(st);
        lemma_adv_measure(adv(st));
    }
    match st.cur {
        SpecToken::IntLiteral(v) => Some((SExpr::Int(v), adv(st))),
        SpecToken::DoubleLiteral(t) => Some((SExpr::Double(t), adv(st))),
        SpecToken::StringLiteral(t) => Some((SExpr::Str(t), adv(st))),
        SpecToken::FormattedStringLiteral(t) => match format_parts_spec(t) {
            Ok(parts) => Some((SExpr::Formatted(parts), adv(st))),
            Err(_) => None,
        },
        SpecToken::LBracket => p_array(st),
        SpecToken::Construct => p_struct_lit(st),
        SpecToken::Create => p_object_create(st),
        SpecToken::Current => Some((SExpr::Ident("当前"@), adv(st))),
        SpecToken::Ident(n) => {
            let s1 = adv(st);
            if s1.cur is LParen {
                match p_call_args(adv(s1)) {
                    Some((args, s2)) => Some((SExpr::Call { target: n, type_arg: None, args }, s2)),
                    None => None,
                }
            } else {
                Some((SExpr::Ident(n), s1))
            }
        },
        SpecToken::TakeValue => p_take_value(st),
        SpecToken::LParen => match p_expr(adv(st)) {
            Some((e, s1)) => match expect_tok(s1, SpecToken::RParen) {
                Some(s2) => Some((e, s2)),
                None => None,
            },
            None => None,
        },
        _ => None,
    }
}

/// One or more expressions separated by `,`, after `acc`.
pub open spec fn p_expr_list(s: PState, acc: Seq<SExpr>) -> Option<(Seq<SExpr>, PState)>
    decreases measure(s), 44nat,
{
    match p_expr(s) {
        Some((e, s1)) => if s1.cur is Comma {
            let s2 = adv(s1);
            if measure(s2) < measure(s) {
                p_expr_list(s2, acc.push(e))
            } else {
                None
            }
        } else {
            Some((acc.push(e), s1))
        },
        None => None,
    }
}

/// The arguments of a call after `(`, up to and including `)`.
pub open spec fn p_call_args(st: PState) -> Option<(Seq<SExpr>, PState)>
    decreases measure(st), 45nat,
{
    if st.cur is RParen {
        Some((Seq::empty(), adv(st)))
    } else {
        match p_expr_list(st, Seq::empty()) {
            Some((args, s1)) => match expect_tok(s1, SpecToken::RParen) {
                Some(s2) => Some((args, s2)),
                None => None,
            },
            None => None,
        }
    }
}

/// `[e, e, ...]`.
pub open spec fn p_array(st: PState) -> Option<(SExpr, PState)>
    decreases measure(st), 10nat,
{
    match expect_tok(st, SpecToken::LBracket) {
        Some(s1) => {
            proof {
                lemma_adv_measure(st);
            }
            if s1.cur is RBracket {
                Some((SExpr::Array(Seq::empty()), adv(s1)))
            } else {
                match p_expr_list(s1, Seq::empty()) {
                    Some((es, s2)) => match expect_tok(s2, SpecToken::RBracket) {
                        Some(s3) => Some((SExpr::Array(es), s3)),
                        None => None,
                    },
                    None => None,
                }
            }
        },
        None => None,
    }
}

/// `构造 Name：field：expr，...。。`.
pub open spec fn p_struct_lit(st: PState) -> Option<(SExpr, PState)>
    decreases measure(st), 10nat,
{
    match expect_tok(st, SpecToken::Construct) {
        Some(s1) => match expect_ident(s1) {
            Some((name, _, s2)) => match expect_tok(s2, SpecToken::Colon) {
                Some(s3) => {
                    proof {
                        lemma_adv_measure(st);
                        lemma_adv_measure(s1);
                        lemma_adv_measure(s2);
                    }
                    match p_struct_fields(s3, Seq::empty()) {
                        Some((fields, s4)) => match expect_tok(s4, SpecToken::ScopeEnd) {
                            Some(s5) => Some((SExpr::StructLit { name, fields }, s5)),
                            None => None,
                        },
                        None => None,
                    }
                },
                None => None,
            },
            None => None,
        },
        None => None,
    }
}

/// The `field：expr` entries of a struct literal, after `acc`.
pub open spec fn p_struct_fields(s: PState, acc: Seq<(Seq<char>, SExpr)>) -> Option<(Seq<(Seq<char>, SExpr)>, PState)>
    decreases measure(s), 11nat,
{
    if s.cur is ScopeEnd || s.cur is Eof {
        Some((acc, s))
    } else {
        match expect_ident(s) {
            Some((f, _, s1)) => match expect_tok(s1, SpecToken::Colon) {
                Some(s2) => {
                    proof {
                        lemma_adv_measure(s);
                        lemma_adv_measure(s1);
                    }
                    match p_expr(s2) {
                        Some((v, s3)) => {
                            let s4 = if s3.cur is Comma { adv(s3) } else { s3 };
                            if measure(s4) < measure(s) {
                                p_struct_fields(s4, acc.push((f, v)))
                            } else {
                                None
                            }
                        },
                        None => None,
                    }
                },
                None => None,
            },
            None => None,
        }
    }
}

/// `创建 Name（args）`.
pub open spec fn p_object_create(st: PState) -> Option<(SExpr, PState)>
    decreases measure(st), 10nat,
{
    match expect_tok(st, SpecToken::Create) {
        Some(s1) => match expect_ident(s1) {
            Some((name, _, s2)) => match expect_tok(s2, SpecToken::LParen) {
                Some(s3) => {
                    proof {
                        lemma_adv_measure(st);
                        lemma_adv_measure(s1);
                        lemma_adv_measure(s2);
                    }
                    match p_call_args(s3) {
                        Some((args, s4)) => Some((SExpr::ObjectCreate { name, args }, s4)),
                        None => None,
                    }
                },
                None => None,
            },
            None => None,
        },
        None => None,
    }
}

/// `取值 target[->type][：arg，arg]`, a call that yields a value.
pub open spec fn p_take_value(st: PState) -> Option<(SExpr, PState)>
    decreases measure(st), 10nat,
{
    match expect_tok(st, SpecToken::TakeValue) {
        Some(s1) => match expect_ident(s1) {
            Some((target, _, s2)) => {
                let typed: Option<(Option<SpecType>, PState)> = if s2.cur is Arrow {
                    match p_type(adv(s2)) {
                        Some((t, s3)) => Some((Some(t), s3)),
                        None => None,
                    }
                } else {
                    Some((None, s2))
                };
                match typed {
                    Some((type_arg, s3)) => if !(s3.cur is Colon) {
                        Some((SExpr::Call { target, type_arg, args: Seq::empty() }, s3))
                    } else {
                        let s4 = adv(s3);
                        if ends_return(s4.cur) {
                            Some((SExpr::Call { target, type_arg, args: Seq::empty() }, s4))
                        } else if measure(s4) < measure(st) {
                            match p_expr_list(s4, Seq::empty()) {
                                Some((args, s5)) => Some((SExpr::Call { target, type_arg, args }, s5)),
                                None => None,
                            }
                        } else {
                            None
                        }
                    },
                    None => None,
                }
            },
            None => None,
        },
        None => None,
    }
}


// ---------------------------------------------------------------------------
// Statements.
// ---------------------------------------------------------------------------

/// Where a list of statements ends.
pub enum Stop {
    /// `。。` or the end of input.
    Scope,
    /// The end of a `判断` branch.
    IfBranch,
    /// The end of a `取` case.
    SelectCase,
    /// The next section of an object definition.
    ObjectSection,
}

pub open spec fn stops(stop: Stop, t: SpecToken) -> bool {
    match stop {
        Stop::Scope => t is ScopeEnd || t is Eof,
        Stop::IfBranch => ends_if_branch(t),
        Stop::SelectCase => ends_select_case(t),
        Stop::ObjectSection => is_section_boundary(t),
    }
}

/// The end of a statement's span: the start of the current token, but not
/// before the end of the name.
pub open spec fn span_end(s: PState, name_span: Span) -> usize {
    if s.span.start >= name_span.end {
        s.span.start
    } else {
        name_span.end
    }
}

/// Statements up to `stop`, after `acc`.
pub open spec fn p_stmts(s: PState, stop: Stop, acc: Seq<SStmt>) -> Option<(Seq<SStmt>, PState)>
    decreases measure(s), 61nat,
{
    if stops(stop, s.cur) {
        Some((acc, s))
    } else {
        match p_stmt(s) {
            Some((x, s1)) => if measure(s1) < measure(s) {
                p_stmts(s1, stop, acc.push(x))
            } else {
                None
            },
            None => None,
        }
    }
}

/// Statements up to and including `。。`.
pub open spec fn p_block(s: PState) -> Option<(Seq<SStmt>, PState)>
    decreases measure(s), 62nat,
{
    match p_stmts(s, Stop::Scope, Seq::empty()) {
        Some((b, s1)) => match expect_tok(s1, SpecToken::ScopeEnd) {
            Some(s2) => Some((b, s2)),
            None => None,
        },
        None => None,
    }
}

/// One statement of a method body.
pub open spec fn p_stmt(st: PState) -> Option<(SStmt, PState)>
    decreases measure(st), 60nat,
{
    match st.cur {
        SpecToken::Define => match p_var_decl(st) {
            Some((v, s1)) => Some((SStmt::VarDecl(v), s1)),
            None => None,
        },
        SpecToken::Let => p_let(st),
        SpecToken::ReturnKw => match p_return(st) {
            Some((v, s1)) => Some((SStmt::Return(v), s1)),
            None => None,
        },
        SpecToken::Ident(_) => p_assign_like(st),
        SpecToken::Import => match p_import(st) {
            Some(((path, alias), s1)) => Some((SStmt::Import(path, alias), s1)),
            None => None,
        },
        SpecToken::Execute => p_execute(st),
        SpecToken::If => p_if(st),
        SpecToken::Current => p_select(st),
        SpecToken::Loop => p_loop(st),
        _ => None,
    }
}

/// `判断 condition：... [若 condition：...]* [否则：...]。。`.
pub open spec fn p_if(st: PState) -> Option<(SStmt, PState)>
    decreases measure(st), 55nat,
{
    match expect_tok(st, SpecToken::If) {
        Some(s1) => {
            proof {
                lemma_adv_measure(st);
            }
            match p_expr(s1) {
                Some((c, s2)) => match expect_tok(s2, SpecToken::Colon) {
                    Some(s3) => if measure(s3) < measure(st) {
                        match p_stmts(s3, Stop::IfBranch, Seq::empty()) {
                            Some((body, s4)) => if measure(s4) < measure(st) {
                                match p_if_rest(s4, seq![(c, body)]) {
                                    Some((branches, s5)) => if measure(s5) < measure(st) {
                                        if s5.cur is Else {
                                            let s6 = adv(s5);
                                            proof {
                                                lemma_adv_measure(s5);
                                                lemma_adv_measure(s6);
                                            }
                                            match expect_tok(s6, SpecToken::Colon) {
                                                Some(s7) => match p_stmts(s7, Stop::IfBranch, Seq::empty()) {
                                                    Some((else_body, s8)) => match expect_tok(s8, SpecToken::ScopeEnd) {
                                                        Some(s9) => Some((SStmt::If { branches, else_body: Some(else_body) }, s9)),
                                                        None => None,
                                                    },
                                                    None => None,
                                                },
                                                None => None,
                                            }
                                        } else {
                                            match expect_tok(s5, SpecToken::ScopeEnd) {
                                                Some(s6) => Some((SStmt::If { branches, else_body: None }, s6)),
                                                None => None,
                                            }
                                        }
                                    } else {
                                        None
                                    },
                                    None => None,
                                }
                            } else {
                                None
                            },
                            None => None,
                        }
                    } else {
                        None
                    },
                    None => None,
                },
                None => None,
            }
        },
        None => None,
    }
}

/// The `若 condition：...` branches after `acc`.
pub open spec fn p_if_rest(s: PState, acc: Seq<(SExpr, Seq<SStmt>)>) -> Option<(Seq<(SExpr, Seq<SStmt>)>, PState)>
    decreases measure(s), 54nat,
{
    if s.cur is ElseIf {
        let s1 = adv(s);
        proof {
            lemma_adv_measure(s);
        }
        match p_expr(s1) {
            Some((c, s2)) => match expect_tok(s2, SpecToken::Colon) {
                Some(s3) => if measure(s3) < measure(s) {
                    match p_stmts(s3, Stop::IfBranch, Seq::empty()) {
                        Some((body, s4)) => if measure(s4) < measure(s) {
                            p_if_rest(s4, acc.push((c, body)))
                        } else {
                            None
                        },
                        None => None,
                    }
                } else {
                    None
                },
                None => None,
            },
            None => None,
        }
    } else {
        Some((acc, s))
    }
}

/// `当前 x：取 value：...[此外：...]。。`, with at least one case.
pub open spec fn p_select(st: PState) -> Option<(SStmt, PState)>
    decreases measure(st), 55nat,
{
    match expect_tok(st, SpecToken::Current) {
        Some(s1) => match expect_ident(s1) {
            Some((target, _, s2)) => match expect_tok(s2, SpecToken::Colon) {
                Some(s3) => {
                    proof {
                        lemma_adv_measure(st);
                        lemma_adv_measure(s1);
                        lemma_adv_measure(s2);
                    }
                    match p_select_cases(s3, Seq::empty()) {
                        Some((cases, s4)) => if cases.len() == 0 {
                            None
                        } else if measure(s4) < measure(st) {
                            if s4.cur is Otherwise {
                                let s5 = adv(s4);
                                proof {
                                    lemma_adv_measure(s4);
                                    lemma_adv_measure(s5);
                                }
                                match expect_tok(s5, SpecToken::Colon) {
                                    Some(s6) => match p_stmts(s6, Stop::SelectCase, Seq::empty()) {
                                        Some((default_body, s7)) => match expect_tok(s7, SpecToken::ScopeEnd) {
                                            Some(s8) => Some((SStmt::Select { target, cases, default_body: Some(default_body) }, s8)),
                                            None => None,
                                        },
                                        None => None,
                                    },
                                    None => None,
                                }
                            } else {
                                match expect_tok(s4, SpecToken::ScopeEnd) {
                                    Some(s5) => Some((SStmt::Select { target, cases, default_body: None }, s5)),
                                    None => None,
                                }
                            }
                        } else {
                            None
                        },
                        None => None,
                    }
                },
                None => None,
            },
            None => None,
        },
        None => None,
    }
}

/// The `取 value：...` cases after `acc`.
pub open spec fn p_select_cases(s: PState, acc: Seq<(SExpr, Seq<SStmt>)>) -> Option<(Seq<(SExpr, Seq<SStmt>)>, PState)>
    decreases measure(s), 54nat,
{
    if s.cur is Case {
        let s1 = adv(s);
        proof {
            lemma_adv_measure(s);
        }
        match p_expr(s1) {
            Some((v, s2)) => match expect_tok(s2, SpecToken::Colon) {
                Some(s3) => if measure(s3) < measure(s) {
                    match p_stmts(s3, Stop::SelectCase, Seq::empty()) {
                        Some((body, s4)) => if measure(s4) < measure(s) {
                            p_select_cases(s4, acc.push((v, body)))
                        } else {
                            None
                        },
                        None => None,
                    }
                } else {
                    None
                },
                None => None,
            },
            None => None,
        }
    } else {
        Some((acc, s))
    }
}

/// `循环计数 i<end：...。。`, `循环迭代 i<start..end：...。。` or
/// `循环条件 condition：...。。`.
pub open spec fn p_loop(st: PState) -> Option<(SStmt, PState)>
    decreases measure(st), 55nat,
{
    match expect_tok(st, SpecToken::Loop) {
        Some(s1) => {
            let s2 = adv(s1);
            proof {
                lemma_adv_measure(st);
                lemma_adv_measure(s1);
            }
            match s1.cur {
                SpecToken::Count => match expect_ident(s2) {
                    Some((var_name, _, s3)) => match expect_tok(s3, SpecToken::Less) {
                        Some(s4) => match p_expr(s4) {
                            Some((end, s5)) => match expect_tok(s5, SpecToken::Colon) {
                                Some(s6) => if measure(s6) < measure(st) {
                                    match p_block(s6) {
                                        Some((body, s7)) => Some((SStmt::Loop(SLoop::Count { var_name, end, body }), s7)),
                                        None => None,
                                    }
                                } else {
                                    None
                                },
                                None => None,
                            },
                            None => None,
                        },
                        None => None,
                    },
                    None => None,
                },
                SpecToken::Iterate => match expect_ident(s2) {
                    Some((var_name, _, s3)) => match expect_tok(s3, SpecToken::Less) {
                        Some(s4) => match p_expr(s4) {
                            Some((start, s5)) => match expect_tok(s5, SpecToken::ScopeEnd) {
                                Some(s6) => match p_expr(s6) {
                                    Some((end, s7)) => match expect_tok(s7, SpecToken::Colon) {
                                        Some(s8) => if measure(s8) < measure(st) {
                                            match p_block(s8) {
                                                Some((body, s9)) => Some(
                                                    (SStmt::Loop(SLoop::Iterate { var_name, start, end, body }), s9),
                                                ),
                                                None => None,
                                            }
                                        } else {
                                            None
                                        },
                                        None => None,
                                    },
                                    None => None,
                                },
                                None => None,
                            },
                            None => None,
                        },
                        None => None,
                    },
                    None => None,
                },
                SpecToken::Condition => match p_expr(s2) {
                    Some((condition, s3)) => match expect_tok(s3, SpecToken::Colon) {
                        Some(s4) => if measure(s4) < measure(st) {
                            match p_block(s4) {
                                Some((body, s5)) => Some((SStmt::Loop(SLoop::Condition { condition, body }), s5)),
                                None => None,
                            }
                        } else {
                            None
                        },
                        None => None,
                    },
                    None => None,
                },
                _ => None,
            }
        },
        None => None,
    }
}

/// An optional type before a variable name: `数组` is an integer array of
/// unknown length.
pub open spec fn p_opt_var_type(s: PState) -> (Option<SpecType>, PState) {
    if s.cur is ArrayKw {
        (Some(SpecType::Array { element_type: Box::new(SpecType::Int), length: None }), adv(s))
    } else {
        match type_keyword(s.cur) {
            Some(k) => (Some(k), adv(s)),
            None => (None, s),
        }
    }
}

/// An array of unknown length takes its length from `[n]`, a positive
/// integer literal.
pub open spec fn p_array_length(var_type: Option<SpecType>, s: PState) -> Option<(Option<SpecType>, PState)> {
    if (var_type matches Some(SpecType::Array { length: None, .. })) && s.cur is LBracket {
        let s1 = adv(s);
        match s1.cur {
            SpecToken::IntLiteral(v) => if v > 0 && v <= usize::MAX {
                match expect_tok(adv(s1), SpecToken::RBracket) {
                    Some(s2) => Some(
                        (Some(SpecType::Array { element_type: Box::new(SpecType::Int), length: Some(v as usize) }), s2),
                    ),
                    None => None,
                }
            } else {
                None
            },
            _ => None,
        }
    } else {
        Some((var_type, s))
    }
}

/// An optional `(=|为) expr`.
pub open spec fn p_opt_init(s: PState) -> Option<(Option<SExpr>, PState)> {
    if s.cur is Equals || s.cur is AsKw {
        match p_expr(adv(s)) {
            Some((e, s1)) => Some((Some(e), s1)),
            None => None,
        }
    } else {
        Some((None, s))
    }
}

/// `定义 [可变] 变量：[type] name [(=|为) expr]`; a declaration without an
/// initializer is mutable.
pub open spec fn p_var_decl(st: PState) -> Option<(SVarDecl, PState)> {
    let start = st.span.start;
    match expect_tok(st, SpecToken::Define) {
        Some(s1) => {
            let explicit_mutable = s1.cur is Mutable;
            let s2 = if explicit_mutable { adv(s1) } else { s1 };
            match expect_tok(s2, SpecToken::Variable) {
                Some(s3) => match expect_tok(s3, SpecToken::Colon) {
                    Some(s4) => {
                        let (vt, s5) = p_opt_var_type(s4);
                        match expect_ident(s5) {
                            Some((name, name_span, s6)) => match p_array_length(vt, s6) {
                                Some((var_type, s7)) => match p_opt_init(s7) {
                                    Some((init, s8)) => Some(
                                        (
                                            SVarDecl {
                                                name,
                                                name_span,
                                                span: Span { start, end: span_end(s8, name_span) },
                                                var_type,
                                                is_mutable: explicit_mutable || init is None,
                                                init,
                                            },
                                            s8,
                                        ),
                                    ),
                                    None => None,
                                },
                                None => None,
                            },
                            None => None,
                        }
                    },
                    None => None,
                },
                None => None,
            }
        },
        None => None,
    }
}

/// `name->field (=|为) expr` after the name, as a statement.
pub open spec fn p_field_assign(start: usize, name: Seq<char>, name_span: Span, s: PState) -> Option<(SStmt, PState)> {
    match expect_ident(adv(s)) {
        Some((field, _, s1)) => match expect_assign(s1) {
            Some(s2) => match p_expr(s2) {
                Some((value, s3)) => Some(
                    (
                        SStmt::FieldAssign {
                            base: SExpr::Ident(name),
                            field,
                            span: Span { start, end: span_end(s3, name_span) },
                            value,
                        },
                        s3,
                    ),
                ),
                None => None,
            },
            None => None,
        },
        None => None,
    }
}

/// `设 name (=|为) expr` (a mutable variable), `设 name->field = expr` or
/// `设 name[index] = expr`.
pub open spec fn p_let(st: PState) -> Option<(SStmt, PState)> {
    let start = st.span.start;
    match expect_tok(st, SpecToken::Let) {
        Some(s1) => match expect_ident(s1) {
            Some((name, name_span, s2)) => if s2.cur is Arrow {
                p_field_assign(start, name, name_span, s2)
            } else if s2.cur is LBracket {
                match p_expr(adv(s2)) {
                    Some((index, s3)) => match expect_tok(s3, SpecToken::RBracket) {
                        Some(s4) => match expect_assign(s4) {
                            Some(s5) => match p_expr(s5) {
                                Some((value, s6)) => Some(
                                    (
                                        SStmt::ArrayAssign {
                                            name,
                                            name_span,
                                            index,
                                            span: Span { start, end: span_end(s6, name_span) },
                                            value,
                                        },
                                        s6,
                                    ),
                                ),
                                None => None,
                            },
                            None => None,
                        },
                        None => None,
                    },
                    None => None,
                }
            } else {
                match expect_assign(s2) {
                    Some(s3) => match p_expr(s3) {
                        Some((init, s4)) => Some(
                            (
                                SStmt::VarDecl(
                                    SVarDecl {
                                        name,
                                        name_span,
                                        span: Span { start, end: span_end(s4, name_span) },
                                        var_type: None,
                                        is_mutable: true,
                                        init: Some(init),
                                    },
                                ),
                                s4,
                            ),
                        ),
                        None => None,
                    },
                    None => None,
                }
            },
            None => None,
        },
        None => None,
    }
}

/// A `设` statement that declares a variable declares it mutable, without a
/// written type and with an initial value.
pub proof fn lemma_let_declares_mutable(st: PState)
    ensures
        p_let(st) matches Some((SStmt::VarDecl(v), _)) ==> v.is_mutable && v.var_type is None && v.init is Some,
{
}

/// `name (=|为) expr` or `name->field (=|为) expr`.
pub open spec fn p_assign_like(st: PState) -> Option<(SStmt, PState)> {
    let start = st.span.start;
    match expect_ident(st) {
        Some((name, name_span, s1)) => if s1.cur is Arrow {
            p_field_assign(start, name, name_span, s1)
        } else {
            match expect_assign(s1) {
                Some(s2) => match p_expr(s2) {
                    Some((value, s3)) => Some(
                        (SStmt::Assign { name, name_span, span: Span { start, end: span_end(s3, name_span) }, value }, s3),
                    ),
                    None => None,
                },
                None => None,
            }
        },
        None => None,
    }
}

/// `返回` or `返回 expr`.
pub open spec fn p_return(st: PState) -> Option<(Option<SExpr>, PState)> {
    match expect_tok(st, SpecToken::ReturnKw) {
        Some(s1) => if ends_return(s1.cur) {
            Some((None, s1))
        } else {
            match p_expr(s1) {
                Some((e, s2)) => Some((Some(e), s2)),
                None => None,
            }
        },
        None => None,
    }
}

/// `执行 target：arg，arg`.
pub open spec fn p_execute(st: PState) -> Option<(SStmt, PState)> {
    match expect_tok(st, SpecToken::Execute) {
        Some(s1) => match expect_ident(s1) {
            Some((target, _, s2)) => match expect_tok(s2, SpecToken::Colon) {
                Some(s3) => if s3.cur is ScopeEnd || s3.cur is Eof {
                    Some((SStmt::Execute { target, args: Seq::empty() }, s3))
                } else {
                    match p_expr_list(s3, Seq::empty()) {
                        Some((args, s4)) => Some((SStmt::Execute { target, args }, s4)),
                        None => None,
                    }
                },
                None => None,
            },
            None => None,
        },
        None => None,
    }
}

/// `引用 模块：path [为 alias]`.
pub open spec fn p_import(st: PState) -> Option<((Seq<char>, Option<Seq<char>>), PState)> {
    match expect_tok(st, SpecToken::Import) {
        Some(s1) => match expect_tok(s1, SpecToken::Module) {
            Some(s2) => match expect_tok(s2, SpecToken::Colon) {
                Some(s3) => match expect_ident(s3) {
                    Some((path, _, s4)) => if s4.cur is AsKw {
                        match expect_ident(adv(s4)) {
                            Some((alias, _, s5)) => Some(((path, Some(alias)), s5)),
                            None => None,
                        }
                    } else {
                        Some(((path, None), s4))
                    },
                    None => None,
                },
                None => None,
            },
            None => None,
        },
        None => None,
    }
}


// ---------------------------------------------------------------------------
// Definitions and programs.
// ---------------------------------------------------------------------------

/// `name：type`.
pub open spec fn p_param(s: PState) -> Option<(SParam, PState)> {
    match expect_ident(s) {
        Some((name, _, s1)) => match expect_tok(s1, SpecToken::Colon) {
            Some(s2) => match p_type(s2) {
                Some((t, s3)) => Some(((name, t), s3)),
                None => None,
            },
            None => None,
        },
        None => None,
    }
}

pub open spec fn p_params_loop(s: PState, acc: Seq<SParam>) -> Option<(Seq<SParam>, PState)>
    decreases measure(s),
{
    match p_param(s) {
        Some((p, s1)) => if s1.cur is Comma {
            let s2 = adv(s1);
            if measure(s2) < measure(s) {
                p_params_loop(s2, acc.push(p))
            } else {
                None
            }
        } else {
            Some((acc.push(p), s1))
        },
        None => None,
    }
}

/// A comma-separated parameter list, possibly empty, before `)`.
pub open spec fn p_params(s: PState) -> Option<(Seq<SParam>, PState)> {
    if s.cur is RParen {
        Some((Seq::empty(), s))
    } else {
        p_params_loop(s, Seq::empty())
    }
}

/// `方法 name（params）返回 type：body。。` after `定义`. A pending entry
/// declaration makes it the entry point; a pending external declaration
/// makes it external, with no body.
pub open spec fn p_function_def(st: PState) -> Option<(SFunction, PState)> {
    match expect_tok(st, SpecToken::Method) {
        Some(s1) => match expect_ident(s1) {
            Some((name, _, s2)) => match expect_tok(s2, SpecToken::LParen) {
                Some(s3) => match p_params(s3) {
                    Some((params, s4)) => match expect_tok(s4, SpecToken::RParen) {
                        Some(s5) => match expect_tok(s5, SpecToken::ReturnKw) {
                            Some(s6) => match p_type(s6) {
                                Some((return_type, s7)) => {
                                    let is_entry = s7.entry_pending;
                                    let s8 = if is_entry { PState { has_entry: true, entry_pending: false, ..s7 } } else { s7 };
                                    let is_external = s8.external_pending;
                                    let external_symbol = if is_external { s8.ext_symbol } else { None };
                                    let s9 = if is_external {
                                        PState { ext_symbol: None, external_pending: false, ..s8 }
                                    } else {
                                        s8
                                    };
                                    if is_external {
                                        Some(
                                            (
                                                SFunction {
                                                    name,
                                                    module_name: s9.module,
                                                    params,
                                                    return_type,
                                                    is_entry,
                                                    is_external,
                                                    external_symbol,
                                                    body: Seq::empty(),
                                                },
                                                s9,
                                            ),
                                        )
                                    } else {
                                        match expect_tok(s9, SpecToken::Colon) {
                                            Some(s10) => match p_block(s10) {
                                                Some((body, s11)) => Some(
                                                    (
                                                        SFunction {
                                                            name,
                                                            module_name: s11.module,
                                                            params,
                                                            return_type,
                                                            is_entry,
                                                            is_external,
                                                            external_symbol,
                                                            body,
                                                        },
                                                        s11,
                                                    ),
                                                ),
                                                None => None,
                                            },
                                            None => None,
                                        }
                                    }
                                },
                                None => None,
                            },
                            None => None,
                        },
                        None => None,
                    },
                    None => None,
                },
                None => None,
            },
            None => None,
        },
        None => None,
    }
}

/// `name：type` entries, each optionally followed by `，`, until `stop`.
pub open spec fn p_field_list(s: PState, stop: Stop, acc: Seq<SParam>) -> Option<(Seq<SParam>, PState)>
    decreases measure(s),
{
    if stops(stop, s.cur) {
        Some((acc, s))
    } else {
        match p_param(s) {
            Some((f, s1)) => {
                let s2 = if s1.cur is Comma { adv(s1) } else { s1 };
                if measure(s2) < measure(s) {
                    p_field_list(s2, stop, acc.push(f))
                } else {
                    None
                }
            },
            None => None,
        }
    }
}

/// `结构 name：field：type，...。。` after `定义`.
pub open spec fn p_struct_def(st: PState) -> Option<((Seq<char>, Seq<SParam>), PState)> {
    match expect_tok(st, SpecToken::StructKw) {
        Some(s1) => match expect_ident(s1) {
            Some((name, _, s2)) => match expect_tok(s2, SpecToken::Colon) {
                Some(s3) => match p_field_list(s3, Stop::Scope, Seq::empty()) {
                    Some((fields, s4)) => match expect_tok(s4, SpecToken::ScopeEnd) {
                        Some(s5) => Some(((name, fields), s5)),
                        None => None,
                    },
                    None => None,
                },
                None => None,
            },
            None => None,
        },
        None => None,
    }
}

/// `构造方法（params）：body` up to the next section, with an optional `。。`.
pub open spec fn p_constructor(st: PState) -> Option<((Seq<SParam>, Seq<SStmt>), PState)> {
    match expect_tok(st, SpecToken::Construct) {
        Some(s1) => match expect_tok(s1, SpecToken::Method) {
            Some(s2) => match expect_tok(s2, SpecToken::LParen) {
                Some(s3) => match p_params(s3) {
                    Some((params, s4)) => match expect_tok(s4, SpecToken::RParen) {
                        Some(s5) => match expect_tok(s5, SpecToken::Colon) {
                            Some(s6) => match p_stmts(s6, Stop::ObjectSection, Seq::empty()) {
                                Some((body, s7)) => {
                                    let s8 = if s7.cur is ScopeEnd { adv(s7) } else { s7 };
                                    Some(((params, body), s8))
                                },
                                None => None,
                            },
                            None => None,
                        },
                        None => None,
                    },
                    None => None,
                },
                None => None,
            },
            None => None,
        },
        None => None,
    }
}

/// `方法 name（params）返回 type：body。。` inside an object: it lives in the
/// object's module and takes the object as its first parameter `当前`.
pub open spec fn p_method_def(st: PState, object_name: Seq<char>) -> Option<(SFunction, PState)> {
    match expect_tok(st, SpecToken::Method) {
        Some(s1) => match expect_ident(s1) {
            Some((name, _, s2)) => match expect_tok(s2, SpecToken::LParen) {
                Some(s3) => match p_params(s3) {
                    Some((rest, s4)) => match expect_tok(s4, SpecToken::RParen) {
                        Some(s5) => match expect_tok(s5, SpecToken::ReturnKw) {
                            Some(s6) => match p_type(s6) {
                                Some((return_type, s7)) => match expect_tok(s7, SpecToken::Colon) {
                                    Some(s8) => match p_block(s8) {
                                        Some((body, s9)) => Some(
                                            (
                                                SFunction {
                                                    name,
                                                    module_name: Some(object_module_name_spec(object_name)),
                                                    params: seq![("当前"@, SpecType::Struct(object_name))] + rest,
                                                    return_type,
                                                    is_entry: false,
                                                    is_external: false,
                                                    external_symbol: None,
                                                    body,
                                                },
                                                s9,
                                            ),
                                        ),
                                        None => None,
                                    },
                                    None => None,
                                },
                                None => None,
                            },
                            None => None,
                        },
                        None => None,
                    },
                    None => None,
                },
                None => None,
            },
            None => None,
        },
        None => None,
    }
}

/// The `定义 方法 ...` members of a member section, after `acc`.
pub open spec fn p_members(
    s: PState,
    object_name: Seq<char>,
    access: MemberAccess,
    acc: Seq<(MemberAccess, SFunction)>,
) -> Option<(Seq<(MemberAccess, SFunction)>, PState)>
    decreases measure(s),
{
    if is_section_boundary(s.cur) {
        Some((acc, s))
    } else {
        match expect_tok(s, SpecToken::Define) {
            Some(s1) => match p_method_def(s1, object_name) {
                Some((f, s2)) => if measure(s2) < measure(s) {
                    p_members(s2, object_name, access, acc.push((access, f)))
                } else {
                    None
                },
                None => None,
            },
            None => None,
        }
    }
}

/// Which section of an object definition a token opens: 1 fields,
/// 2 constructor, 3 public members, 4 private members, 0 none.
pub open spec fn object_section_of(t: SpecToken) -> int {
    match t {
        SpecToken::StructKw => 1,
        SpecToken::Construct => 2,
        SpecToken::Ident(n) => if n == "公共成员"@ {
            3
        } else if n == "私有成员"@ {
            4
        } else {
            0
        },
        _ => 0,
    }
}

/// The sections of an object definition, read into `acc`: a later `结构：`
/// section replaces the fields, and a second constructor is an error.
pub open spec fn p_object_sections(s: PState, acc: SObject) -> Option<(SObject, PState)>
    decreases measure(s),
{
    if s.cur is ScopeEnd || s.cur is Eof {
        Some((acc, s))
    } else {
        let section = object_section_of(s.cur);
        if section == 1 {
            match expect_tok(adv(s), SpecToken::Colon) {
                Some(s1) => match p_field_list(s1, Stop::ObjectSection, Seq::empty()) {
                    Some((fields, s2)) => if measure(s2) < measure(s) {
                        p_object_sections(s2, SObject { fields, ..acc })
                    } else {
                        None
                    },
                    None => None,
                },
                None => None,
            }
        } else if section == 2 {
            if acc.constructor is Some {
                None
            } else {
                match p_constructor(s) {
                    Some((c, s1)) => if measure(s1) < measure(s) {
                        p_object_sections(s1, SObject { constructor: Some(c), ..acc })
                    } else {
                        None
                    },
                    None => None,
                }
            }
        } else if section == 3 || section == 4 {
            let access = if section == 3 { MemberAccess::Public } else { MemberAccess::Private };
            match expect_tok(adv(s), SpecToken::Colon) {
                Some(s1) => match p_members(s1, acc.name, access, acc.methods) {
                    Some((methods, s2)) => if measure(s2) < measure(s) {
                        p_object_sections(s2, SObject { methods, ..acc })
                    } else {
                        None
                    },
                    None => None,
                },
                None => None,
            }
        } else {
            None
        }
    }
}

/// `对象 name：sections。。` after `定义`.
pub open spec fn p_object_def(st: PState) -> Option<(SObject, PState)> {
    match expect_tok(st, SpecToken::ObjectKw) {
        Some(s1) => match expect_ident(s1) {
            Some((name, _, s2)) => match expect_tok(s2, SpecToken::Colon) {
                Some(s3) => match p_object_sections(
                    s3,
                    SObject { name, fields: Seq::empty(), constructor: None, methods: Seq::empty() },
                ) {
                    Some((object, s4)) => match expect_tok(s4, SpecToken::ScopeEnd) {
                        Some(s5) => Some((object, s5)),
                        None => None,
                    },
                    None => None,
                },
                None => None,
            },
            None => None,
        },
        None => None,
    }
}

/// `#模块 path`.
pub open spec fn p_module_def(st: PState) -> Option<(Seq<char>, PState)> {
    match expect_tok(st, SpecToken::Hash) {
        Some(s1) => match expect_tok(s1, SpecToken::Module) {
            Some(s2) => match expect_ident(s2) {
                Some((name, _, s3)) => Some((name, s3)),
                None => None,
            },
            None => None,
        },
        None => None,
    }
}

/// An optional `("symbol")` after `@声明 外部`.
pub open spec fn p_external_symbol(s: PState) -> Option<(Option<Seq<char>>, PState)> {
    if !(s.cur is LParen) {
        Some((None, s))
    } else {
        let s1 = adv(s);
        match s1.cur {
            SpecToken::StringLiteral(symbol) => match expect_tok(adv(s1), SpecToken::RParen) {
                Some(s2) => Some((Some(symbol), s2)),
                None => None,
            },
            _ => None,
        }
    }
}

/// `@声明 入口` or `@声明 外部[("symbol")]`: the flag for the next
/// definition.
pub open spec fn p_declaration(st: PState) -> Option<PState> {
    match expect_tok(st, SpecToken::At) {
        Some(s1) => match expect_tok(s1, SpecToken::Declare) {
            Some(s2) => match s2.cur {
                SpecToken::Entry => Some(PState { entry_pending: true, ..adv(s2) }),
                SpecToken::External => match p_external_symbol(PState { external_pending: true, ..adv(s2) }) {
                    Some((symbol, s3)) => Some(PState { ext_symbol: symbol, ..s3 }),
                    None => None,
                },
                _ => None,
            },
            None => None,
        },
        None => None,
    }
}

/// The methods of an object as functions of the program.
pub open spec fn method_functions(methods: Seq<(MemberAccess, SFunction)>) -> Seq<SFunction> {
    Seq::new(methods.len(), |i: int| methods[i].1)
}

/// The top-level items from `s` on, read into `acc`; the program has an
/// entry point when an entry declaration was used.
pub open spec fn p_items(s: PState, acc: SProgram) -> Option<SProgram>
    decreases measure(s),
{
    if s.cur is Eof {
        Some(SProgram { has_entry: s.has_entry, ..acc })
    } else {
        match s.cur {
            SpecToken::Hash => match p_module_def(s) {
                Some((name, s1)) => if measure(s1) < measure(s) {
                    p_items(PState { module: Some(name), ..s1 }, SProgram { modules: acc.modules.push(name), ..acc })
                } else {
                    None
                },
                None => None,
            },
            SpecToken::Import => match p_import(s) {
                Some((import, s1)) => if measure(s1) < measure(s) {
                    p_items(s1, SProgram { imports: acc.imports.push(import), ..acc })
                } else {
                    None
                },
                None => None,
            },
            SpecToken::At => match p_declaration(s) {
                Some(s1) => if measure(s1) < measure(s) {
                    p_items(s1, acc)
                } else {
                    None
                },
                None => None,
            },
            SpecToken::Define => {
                let s1 = adv(s);
                match s1.cur {
                    SpecToken::Method => match p_function_def(s1) {
                        Some((f, s2)) => if measure(s2) < measure(s) {
                            p_items(s2, SProgram { functions: acc.functions.push(f), ..acc })
                        } else {
                            None
                        },
                        None => None,
                    },
                    SpecToken::StructKw => match p_struct_def(s1) {
                        Some((d, s2)) => if measure(s2) < measure(s) {
                            p_items(s2, SProgram { structs: acc.structs.push(d), ..acc })
                        } else {
                            None
                        },
                        None => None,
                    },
                    SpecToken::ObjectKw => match p_object_def(s1) {
                        Some((o, s2)) => if measure(s2) < measure(s) {
                            p_items(
                                s2,
                                SProgram {
                                    objects: acc.objects.push(o),
                                    functions: acc.functions + method_functions(o.methods),
                                    ..acc
                                },
                            )
                        } else {
                            None
                        },
                        None => None,
                    },
                    _ => None,
                }
            },
            _ => None,
        }
    }
}

// ---------------------------------------------------------------------------
// What reading leaves alone: the pending declarations, the entry point seen
// and the current module.
// ---------------------------------------------------------------------------

/// `b` has the flags and module of `a`.
pub open spec fn flags_kept(a: PState, b: PState) -> bool {
    &&& b.entry_pending == a.entry_pending
    &&& b.has_entry == a.has_entry
    &&& b.external_pending == a.external_pending
    &&& b.ext_symbol == a.ext_symbol
    &&& b.module == a.module
}

/// A parse from `st` that succeeds ends in a position with `st`'s flags.
pub open spec fn keeps<T>(st: PState, r: Option<(T, PState)>) -> bool {
    r matches Some((_, s)) ==> flags_kept(st, s)
}

pub broadcast proof fn lemma_adv_keeps_flags(st: PState)
    ensures
        flags_kept(st, #[trigger] adv(st)),
{
    reveal(adv);
}

proof fn lemma_expr_flags(st: PState)
    ensures
        keeps(st, p_expr(st)),
    decreases measure(st), 43nat,
{
    lemma_binary_flags(st, 19);
}

proof fn lemma_binary_flags(st: PState, k: nat)
    ensures
        keeps(st, p_binary(st, k)),
    decreases measure(st), 2 * k + 1,
{
    if 14 <= k <= 19 {
        let first = if k == 14 { p_unary(st) } else { p_binary(st, (k - 1) as nat) };
        if k == 14 {
            lemma_unary_flags(st);
        } else {
            lemma_binary_flags(st, (k - 1) as nat);
        }
        match first {
            Some((e, s1)) => if measure(s1) < measure(st) {
                lemma_binary_rest_flags(s1, k, e);
            },
            None => {},
        }
    }
}

proof fn lemma_binary_rest_flags(s: PState, k: nat, acc: SExpr)
    ensures
        keeps(s, p_binary_rest(s, k, acc)),
    decreases measure(s), 2 * k,
{
    broadcast use lemma_adv_keeps_flags;
    if 14 <= k <= 19 {
        match binop_at(k, s.cur) {
            Some(op) => {
                let s1 = adv(s);
                lemma_adv_measure(s);
                let right = if k == 14 { p_unary(s1) } else { p_binary(s1, (k - 1) as nat) };
                if k == 14 {
                    lemma_unary_flags(s1);
                } else {
                    lemma_binary_flags(s1, (k - 1) as nat);
                }
                match right {
                    Some((r, s2)) => if measure(s2) < measure(s) {
                        lemma_binary_rest_flags(s2, k, SExpr::Binary { left: Box::new(acc), op, right: Box::new(r) });
                    },
                    None => {},
                }
            },
            None => {},
        }
    }
}

proof fn lemma_unary_flags(st: PState)
    ensures
        keeps(st, p_unary(st)),
    decreases measure(st), 24nat,
{
    broadcast use lemma_adv_keeps_flags;
    match st.cur {
        SpecToken::Minus => {
            lemma_adv_measure(st);
            lemma_unary_flags(adv(st));
        },
        SpecToken::Bang => {
            lemma_adv_measure(st);
            lemma_unary_flags(adv(st));
        },
        _ => lemma_postfix_flags(st),
    }
}

proof fn lemma_postfix_flags(st: PState)
    ensures
        keeps(st, p_postfix(st)),
    decreases measure(st), 22nat,
{
    lemma_primary_flags(st);
    match p_primary(st) {
        Some((e, s1)) => if measure(s1) < measure(st) {
            lemma_postfix_rest_flags(s1, e);
        },
        None => {},
    }
}

proof fn lemma_postfix_rest_flags(s: PState, acc: SExpr)
    ensures
        keeps(s, p_postfix_rest(s, acc)),
    decreases measure(s), 21nat,
{
    broadcast use lemma_adv_keeps_flags;
    match s.cur {
        SpecToken::LBracket => {
            let s1 = adv(s);
            lemma_adv_measure(s);
            lemma_expr_flags(s1);
            match p_expr(s1) {
                Some((idx, s2)) => match expect_tok(s2, SpecToken::RBracket) {
                    Some(s3) => if measure(s3) < measure(s) {
                        lemma_postfix_rest_flags(s3, SExpr::Index { array: Box::new(acc), index: Box::new(idx) });
                    },
                    None => {},
                },
                None => {},
            }
        },
        SpecToken::Arrow => {
            let s1 = adv(s);
            match s1.cur {
                SpecToken::Ident(f) => {
                    let s2 = adv(s1);
                    lemma_adv_measure(s);
                    lemma_adv_measure(s1);
                    lemma_adv_measure(s2);
                    if s2.cur is LParen {
                        lemma_call_args_flags(adv(s2));
                        match p_call_args(adv(s2)) {
                            Some((args, s3)) => if measure(s3) < measure(s) {
                                lemma_postfix_rest_flags(s3, SExpr::MethodCall { receiver: Box::new(acc), method: f, args });
                            },
                            None => {},
                        }
                    } else {
                        lemma_postfix_rest_flags(s2, SExpr::Field { base: Box::new(acc), field: f });
                    }
                },
                _ => {},
            }
        },
        _ => {},
    }
}

proof fn lemma_primary_flags(st: PState)
    ensures
        keeps(st, p_primary(st)),
    decreases measure(st), 20nat,
{
    broadcast use lemma_adv_keeps_flags;
    lemma_adv_measure(st);
    lemma_adv_measure(adv(st));
    match st.cur {
        SpecToken::LBracket => lemma_array_flags(st),
        SpecToken::Construct => lemma_struct_lit_flags(st),
        SpecToken::Create => lemma_object_create_flags(st),
        SpecToken::Ident(n) => {
            let s1 = adv(st);
            if s1.cur is LParen {
                lemma_call_args_flags(adv(s1));
            }
        },
        SpecToken::TakeValue => lemma_take_value_flags(st),
        SpecToken::LParen => lemma_expr_flags(adv(st)),
        _ => {},
    }
}

proof fn lemma_expr_list_flags(s: PState, acc: Seq<SExpr>)
    ensures
        keeps(s, p_expr_list(s, acc)),
    decreases measure(s), 44nat,
{
    broadcast use lemma_adv_keeps_flags;
    lemma_expr_flags(s);
    match p_expr(s) {
        Some((e, s1)) => if s1.cur is Comma {
            let s2 = adv(s1);
            if measure(s2) < measure(s) {
                lemma_expr_list_flags(s2, acc.push(e));
            }
        },
        None => {},
    }
}

proof fn lemma_call_args_flags(st: PState)
    ensures
        keeps(st, p_call_args(st)),
    decreases measure(st), 45nat,
{
    broadcast use lemma_adv_keeps_flags;
    if !(st.cur is RParen) {
        lemma_expr_list_flags(st, Seq::empty());
    }
}

proof fn lemma_array_flags(st: PState)
    ensures
        keeps(st, p_array(st)),
    decreases measure(st), 10nat,
{
    broadcast use lemma_adv_keeps_flags;
    match expect_tok(st, SpecToken::LBracket) {
        Some(s1) => {
            lemma_adv_measure(st);
            if !(s1.cur is RBracket) {
                lemma_expr_list_flags(s1, Seq::empty());
            }
        },
        None => {},
    }
}

proof fn lemma_struct_lit_flags(st: PState)
    ensures
        keeps(st, p_struct_lit(st)),
    decreases measure(st), 10nat,
{
    broadcast use lemma_adv_keeps_flags;
    match expect_tok(st, SpecToken::Construct) {
        Some(s1) => match expect_ident(s1) {
            Some((name, _, s2)) => match expect_tok(s2, SpecToken::Colon) {
                Some(s3) => {
                    lemma_adv_measure(st);
                    lemma_adv_measure(s1);
                    lemma_adv_measure(s2);
                    lemma_struct_fields_flags(s3, Seq::empty());
                },
                None => {},
            },
            None => {},
        },
        None => {},
    }
}

proof fn lemma_struct_fields_flags(s: PState, acc: Seq<(Seq<char>, SExpr)>)
    ensures
        keeps(s, p_struct_fields(s, acc)),
    decreases measure(s), 11nat,
{
    broadcast use lemma_adv_keeps_flags;
    if !(s.cur is ScopeEnd || s.cur is Eof) {
        match expect_ident(s) {
            Some((f, _, s1)) => match expect_tok(s1, SpecToken::Colon) {
                Some(s2) => {
                    lemma_adv_measure(s);
                    lemma_adv_measure(s1);
                    lemma_expr_flags(s2);
                    match p_expr(s2) {
                        Some((v, s3)) => {
                            let s4 = if s3.cur is Comma { adv(s3) } else { s3 };
                            if measure(s4) < measure(s) {
                                lemma_struct_fields_flags(s4, acc.push((f, v)));
                            }
                        },
                        None => {},
                    }
                },
                None => {},
            },
            None => {},
        }
    }
}

proof fn lemma_object_create_flags(st: PState)
    ensures
        keeps(st, p_object_create(st)),
    decreases measure(st), 10nat,
{
    broadcast use lemma_adv_keeps_flags;
    match expect_tok(st, SpecToken::Create) {
        Some(s1) => match expect_ident(s1) {
            Some((name, _, s2)) => match expect_tok(s2, SpecToken::LParen) {
                Some(s3) => {
                    lemma_adv_measure(st);
                    lemma_adv_measure(s1);
                    lemma_adv_measure(s2);
                    lemma_call_args_flags(s3);
                },
                None => {},
            },
            None => {},
        },
        None => {},
    }
}

proof fn lemma_take_value_flags(st: PState)
    ensures
        keeps(st, p_take_value(st)),
    decreases measure(st), 10nat,
{
    broadcast use lemma_adv_keeps_flags;
    match expect_tok(st, SpecToken::TakeValue) {
        Some(s1) => match expect_ident(s1) {
            Some((target, _, s2)) => {
                let typed: Option<(Option<SpecType>, PState)> = if s2.cur is Arrow {
                    match p_type(adv(s2)) {
                        Some((t, s3)) => Some((Some(t), s3)),
                        None => None,
                    }
                } else {
                    Some((None, s2))
                };
                match typed {
                    Some((type_arg, s3)) => if s3.cur is Colon {
                        let s4 = adv(s3);
                        if !ends_return(s4.cur) && measure(s4) < measure(st) {
                            lemma_expr_list_flags(s4, Seq::empty());
                        }
                    },
                    None => {},
                }
            },
            None => {},
        },
        None => {},
    }
}

pub broadcast proof fn lemma_expr_keeps_flags(st: PState)
    ensures
        keeps(st, #[trigger] p_expr(st)),
{
    lemma_expr_flags(st);
}

pub broadcast proof fn lemma_expr_list_keeps_flags(s: PState, acc: Seq<SExpr>)
    ensures
        keeps(s, #[trigger] p_expr_list(s, acc)),
{
    lemma_expr_list_flags(s, acc);
}

proof fn lemma_stmts_flags(s: PState, stop: Stop, acc: Seq<SStmt>)
    ensures
        keeps(s, p_stmts(s, stop, acc)),
    decreases measure(s), 61nat,
{
    if !stops(stop, s.cur) {
        lemma_stmt_flags(s);
        match p_stmt(s) {
            Some((x, s1)) => if measure(s1) < measure(s) {
                lemma_stmts_flags(s1, stop, acc.push(x));
            },
            None => {},
        }
    }
}

proof fn lemma_block_flags(s: PState)
    ensures
        keeps(s, p_block(s)),
    decreases measure(s), 62nat,
{
    broadcast use lemma_adv_keeps_flags;
    lemma_stmts_flags(s, Stop::Scope, Seq::empty());
}

proof fn lemma_stmt_flags(st: PState)
    ensures
        keeps(st, p_stmt(st)),
    decreases measure(st), 60nat,
{
    broadcast use lemma_adv_keeps_flags, lemma_expr_keeps_flags, lemma_expr_list_keeps_flags;
    match st.cur {
        SpecToken::If => lemma_if_flags(st),
        SpecToken::Current => lemma_select_flags(st),
        SpecToken::Loop => lemma_loop_flags(st),
        _ => {},
    }
}

proof fn lemma_if_rest_flags(s: PState, acc: Seq<(SExpr, Seq<SStmt>)>)
    ensures
        keeps(s, p_if_rest(s, acc)),
    decreases measure(s), 54nat,
{
    broadcast use lemma_adv_keeps_flags, lemma_expr_keeps_flags;
    if s.cur is ElseIf {
        let s1 = adv(s);
        lemma_adv_measure(s);
        match p_expr(s1) {
            Some((c, s2)) => match expect_tok(s2, SpecToken::Colon) {
                Some(s3) => if measure(s3) < measure(s) {
                    lemma_stmts_flags(s3, Stop::IfBranch, Seq::empty());
                    match p_stmts(s3, Stop::IfBranch, Seq::empty()) {
                        Some((body, s4)) => if measure(s4) < measure(s) {
                            lemma_if_rest_flags(s4, acc.push((c, body)));
                        },
                        None => {},
                    }
                },
                None => {},
            },
            None => {},
        }
    }
}

proof fn lemma_if_flags(st: PState)
    ensures
        keeps(st, p_if(st)),
    decreases measure(st), 55nat,
{
    broadcast use lemma_adv_keeps_flags, lemma_expr_keeps_flags;
    match expect_tok(st, SpecToken::If) {
        Some(s1) => {
            lemma_adv_measure(st);
            match p_expr(s1) {
                Some((c, s2)) => match expect_tok(s2, SpecToken::Colon) {
                    Some(s3) => if measure(s3) < measure(st) {
                        lemma_stmts_flags(s3, Stop::IfBranch, Seq::empty());
                        match p_stmts(s3, Stop::IfBranch, Seq::empty()) {
                            Some((body, s4)) => if measure(s4) < measure(st) {
                                lemma_if_rest_flags(s4, seq![(c, body)]);
                                match p_if_rest(s4, seq![(c, body)]) {
                                    Some((branches, s5)) => if measure(s5) < measure(st) {
                                        if s5.cur is Else {
                                            let s6 = adv(s5);
                                            lemma_adv_measure(s5);
                                            lemma_adv_measure(s6);
                                            match expect_tok(s6, SpecToken::Colon) {
                                                Some(s7) => lemma_stmts_flags(s7, Stop::IfBranch, Seq::empty()),
                                                None => {},
                                            }
                                        }
                                    },
                                    None => {},
                                }
                            },
                            None => {},
                        }
                    },
                    None => {},
                },
                None => {},
            }
        },
        None => {},
    }
}

proof fn lemma_select_cases_flags(s: PState, acc: Seq<(SExpr, Seq<SStmt>)>)
    ensures
        keeps(s, p_select_cases(s, acc)),
    decreases measure(s), 54nat,
{
    broadcast use lemma_adv_keeps_flags, lemma_expr_keeps_flags;
    if s.cur is Case {
        let s1 = adv(s);
        lemma_adv_measure(s);
        match p_expr(s1) {
            Some((v, s2)) => match expect_tok(s2, SpecToken::Colon) {
                Some(s3) => if measure(s3) < measure(s) {
                    lemma_stmts_flags(s3, Stop::SelectCase, Seq::empty());
                    match p_stmts(s3, Stop::SelectCase, Seq::empty()) {
                        Some((body, s4)) => if measure(s4) < measure(s) {
                            lemma_select_cases_flags(s4, acc.push((v, body)));
                        },
                        None => {},
                    }
                },
                None => {},
            },
            None => {},
        }
    }
}

proof fn lemma_select_flags(st: PState)
    ensures
        keeps(st, p_select(st)),
    decreases measure(st), 55nat,
{
    broadcast use lemma_adv_keeps_flags;
    match expect_tok(st, SpecToken::Current) {
        Some(s1) => match expect_ident(s1) {
            Some((target, _, s2)) => match expect_tok(s2, SpecToken::Colon) {
                Some(s3) => {
                    lemma_adv_measure(st);
                    lemma_adv_measure(s1);
                    lemma_adv_measure(s2);
                    lemma_select_cases_flags(s3, Seq::empty());
                    match p_select_cases(s3, Seq::empty()) {
                        Some((cases, s4)) => if cases.len() != 0 && measure(s4) < measure(st) {
                            if s4.cur is Otherwise {
                                let s5 = adv(s4);
                                lemma_adv_measure(s4);
                                lemma_adv_measure(s5);
                                match expect_tok(s5, SpecToken::Colon) {
                                    Some(s6) => lemma_stmts_flags(s6, Stop::SelectCase, Seq::empty()),
                                    None => {},
                                }
                            }
                        },
                        None => {},
                    }
                },
                None => {},
            },
            None => {},
        },
        None => {},
    }
}

proof fn lemma_loop_flags(st: PState)
    ensures
        keeps(st, p_loop(st)),
    decreases measure(st), 55nat,
{
    broadcast use lemma_adv_keeps_flags, lemma_expr_keeps_flags;
    match expect_tok(st, SpecToken::Loop) {
        Some(s1) => {
            let s2 = adv(s1);
            lemma_adv_measure(st);
            lemma_adv_measure(s1);
            match s1.cur {
                SpecToken::Count => match expect_ident(s2) {
                    Some((var_name, _, s3)) => match expect_tok(s3, SpecToken::Less) {
                        Some(s4) => match p_expr(s4) {
                            Some((end, s5)) => match expect_tok(s5, SpecToken::Colon) {
                                Some(s6) => if measure(s6) < measure(st) {
                                    lemma_block_flags(s6);
                                },
                                None => {},
                            },
                            None => {},
                        },
                        None => {},
                    },
                    None => {},
                },
                SpecToken::Iterate => match expect_ident(s2) {
                    Some((var_name, _, s3)) => match expect_tok(s3, SpecToken::Less) {
                        Some(s4) => match p_expr(s4) {
                            Some((start, s5)) => match expect_tok(s5, SpecToken::ScopeEnd) {
                                Some(s6) => match p_expr(s6) {
                                    Some((end, s7)) => match expect_tok(s7, SpecToken::Colon) {
                                        Some(s8) => if measure(s8) < measure(st) {
                                            lemma_block_flags(s8);
                                        },
                                        None => {},
                                    },
                                    None => {},
                                },
                                None => {},
                            },
                            None => {},
                        },
                        None => {},
                    },
                    None => {},
                },
                SpecToken::Condition => match p_expr(s2) {
                    Some((condition, s3)) => match expect_tok(s3, SpecToken::Colon) {
                        Some(s4) => if measure(s4) < measure(st) {
                            lemma_block_flags(s4);
                        },
                        None => {},
                    },
                    None => {},
                },
                _ => {},
            }
        },
        None => {},
    }
}

proof fn lemma_params_loop_flags(s: PState, acc: Seq<SParam>)
    ensures
        keeps(s, p_params_loop(s, acc)),
    decreases measure(s),
{
    broadcast use lemma_adv_keeps_flags;
    match p_param(s) {
        Some((p, s1)) => if s1.cur is Comma {
            let s2 = adv(s1);
            if measure(s2) < measure(s) {
                lemma_params_loop_flags(s2, acc.push(p));
            }
        },
        None => {},
    }
}

/// An entry declaration marks only the next method definition: the method
/// is the entry point exactly when a declaration is pending, and after it
/// no declaration is pending; the program has an entry point from then on
/// when it had one or this method is it.
pub proof fn lemma_entry_mark_taken(st: PState)
    ensures
        p_function_def(st) matches Some((f, s)) ==> {
            &&& f.is_entry == st.entry_pending
            &&& !s.entry_pending
            &&& !s.external_pending
            &&& s.has_entry == (st.has_entry || st.entry_pending)
        },
{
    broadcast use lemma_adv_keeps_flags;
    match expect_tok(st, SpecToken::Method) {
        Some(s1) => match expect_ident(s1) {
            Some((name, _, s2)) => match expect_tok(s2, SpecToken::LParen) {
                Some(s3) => {
                    if !(s3.cur is RParen) {
                        lemma_params_loop_flags(s3, Seq::empty());
                    }
                    match p_params(s3) {
                        Some((params, s4)) => match expect_tok(s4, SpecToken::RParen) {
                            Some(s5) => match expect_tok(s5, SpecToken::ReturnKw) {
                                Some(s6) => match p_type(s6) {
                                    Some((return_type, s7)) => {
                                        let is_entry = s7.entry_pending;
                                        let s8 = if is_entry { PState { has_entry: true, entry_pending: false, ..s7 } } else { s7 };
                                        let s9 = if s8.external_pending {
                                            PState { ext_symbol: None, external_pending: false, ..s8 }
                                        } else {
                                            s8
                                        };
                                        if !s8.external_pending {
                                            match expect_tok(s9, SpecToken::Colon) {
                                                Some(s10) => lemma_block_flags(s10),
                                                None => {},
                                            }
                                        }
                                    },
                                    None => {},
                                },
                                None => {},
                            },
                            None => {},
                        },
                        None => {},
                    }
                },
                None => {},
            },
            None => {},
        },
        None => {},
    }
}

/// A variable declared without an initial value is mutable.
pub open spec fn decl_flags_ok(v: SVarDecl) -> bool {
    v.init is Some || v.is_mutable
}

/// Every variable declaration in a statement, at any depth, satisfies
/// `decl_flags_ok`.
pub open spec fn stmt_decls_ok(s: SStmt) -> bool
    decreases s,
{
    match s {
        SStmt::VarDecl(v) => decl_flags_ok(v),
        SStmt::If { branches, else_body } => {
            &&& forall|i: int, j: int| 0 <= i < branches.len() && 0 <= j < branches[i].1.len() ==> stmt_decls_ok(#[trigger] branches[i].1[j])
            &&& else_body matches Some(b) ==> forall|j: int| 0 <= j < b.len() ==> stmt_decls_ok(#[trigger] b[j])
        },
        SStmt::Select { cases, default_body, .. } => {
            &&& forall|i: int, j: int| 0 <= i < cases.len() && 0 <= j < cases[i].1.len() ==> stmt_decls_ok(#[trigger] cases[i].1[j])
            &&& default_body matches Some(b) ==> forall|j: int| 0 <= j < b.len() ==> stmt_decls_ok(#[trigger] b[j])
        },
        SStmt::Loop(l) => match l {
            SLoop::Count { body, .. } => forall|j: int| 0 <= j < body.len() ==> stmt_decls_ok(#[trigger] body[j]),
            SLoop::Iterate { body, .. } => forall|j: int| 0 <= j < body.len() ==> stmt_decls_ok(#[trigger] body[j]),
            SLoop::Condition { body, .. } => forall|j: int| 0 <= j < body.len() ==> stmt_decls_ok(#[trigger] body[j]),
        },
        _ => true,
    }
}

/// Every statement of a body satisfies `stmt_decls_ok`.
pub open spec fn body_decls_ok(b: Seq<SStmt>) -> bool {
    forall|j: int| 0 <= j < b.len() ==> stmt_decls_ok(#[trigger] b[j])
}

/// Every body of a list of branches or cases satisfies `body_decls_ok`.
pub open spec fn arms_decls_ok(arms: Seq<(SExpr, Seq<SStmt>)>) -> bool {
    forall|i: int, j: int| 0 <= i < arms.len() && 0 <= j < arms[i].1.len() ==> stmt_decls_ok(#[trigger] arms[i].1[j])
}

/// A `定义 [可变] 变量` declaration is mutable exactly when `可变` is written
/// or it has no initial value.
pub proof fn lemma_var_decl_mutability(st: PState)
    ensures
        p_var_decl(st) matches Some((v, _)) ==> v.is_mutable == (expect_tok(st, SpecToken::Define)->0.cur is Mutable || v.init is None),
{
}

proof fn lemma_stmts_decls(s: PState, stop: Stop, acc: Seq<SStmt>)
    requires
        body_decls_ok(acc),
    ensures
        p_stmts(s, stop, acc) matches Some((b, _)) ==> body_decls_ok(b),
    decreases measure(s), 61nat,
{
    if !stops(stop, s.cur) {
        lemma_stmt_decls(s);
        match p_stmt(s) {
            Some((x, s1)) => if measure(s1) < measure(s) {
                let next = acc.push(x);
                assert forall|j: int| 0 <= j < next.len() implies stmt_decls_ok(#[trigger] next[j]) by {
                    if j < acc.len() {
                        assert(next[j] == acc[j]);
                    }
                }
                lemma_stmts_decls(s1, stop, next);
            },
            None => {},
        }
    }
}

proof fn lemma_block_decls(s: PState)
    ensures
        p_block(s) matches Some((b, _)) ==> body_decls_ok(b),
    decreases measure(s), 62nat,
{
    lemma_stmts_decls(s, Stop::Scope, Seq::empty());
}

proof fn lemma_stmt_decls(st: PState)
    ensures
        p_stmt(st) matches Some((x, _)) ==> stmt_decls_ok(x),
    decreases measure(st), 60nat,
{
    match st.cur {
        SpecToken::Let => lemma_let_declares_mutable(st),
        SpecToken::If => lemma_if_decls(st),
        SpecToken::Current => lemma_select_decls(st),
        SpecToken::Loop => lemma_loop_decls(st),
        _ => {},
    }
}

proof fn lemma_if_rest_decls(s: PState, acc: Seq<(SExpr, Seq<SStmt>)>)
    requires
        arms_decls_ok(acc),
    ensures
        p_if_rest(s, acc) matches Some((b, _)) ==> arms_decls_ok(b),
    decreases measure(s), 54nat,
{
    if s.cur is ElseIf {
        let s1 = adv(s);
        lemma_adv_measure(s);
        match p_expr(s1) {
            Some((c, s2)) => match expect_tok(s2, SpecToken::Colon) {
                Some(s3) => if measure(s3) < measure(s) {
                    lemma_stmts_decls(s3, Stop::IfBranch, Seq::empty());
                    match p_stmts(s3, Stop::IfBranch, Seq::empty()) {
                        Some((body, s4)) => if measure(s4) < measure(s) {
                            let next = acc.push((c, body));
                            assert forall|i: int, j: int| 0 <= i < next.len() && 0 <= j < next[i].1.len() implies stmt_decls_ok(#[trigger] next[i].1[j]) by {
                                if i < acc.len() {
                                    assert(next[i] == acc[i]);
                                }
                            }
                            lemma_if_rest_decls(s4, next);
                        },
                        None => {},
                    }
                },
                None => {},
            },
            None => {},
        }
    }
}

proof fn lemma_if_decls(st: PState)
    ensures
        p_if(st) matches Some((x, _)) ==> stmt_decls_ok(x),
    decreases measure(st), 55nat,
{
    match expect_tok(st, SpecToken::If) {
        Some(s1) => {
            lemma_adv_measure(st);
            match p_expr(s1) {
                Some((c, s2)) => match expect_tok(s2, SpecToken::Colon) {
                    Some(s3) => if measure(s3) < measure(st) {
                        lemma_stmts_decls(s3, Stop::IfBranch, Seq::empty());
                        match p_stmts(s3, Stop::IfBranch, Seq::empty()) {
                            Some((body, s4)) => if measure(s4) < measure(st) {
                                let first = seq![(c, body)];
                                assert forall|i: int, j: int| 0 <= i < first.len() && 0 <= j < first[i].1.len() implies stmt_decls_ok(#[trigger] first[i].1[j]) by {
                                    assert(first[i] == (c, body));
                                }
                                lemma_if_rest_decls(s4, first);
                                match p_if_rest(s4, first) {
                                    Some((branches, s5)) => if measure(s5) < measure(st) {
                                        if s5.cur is Else {
                                            let s6 = adv(s5);
                                            lemma_adv_measure(s5);
                                            lemma_adv_measure(s6);
                                            match expect_tok(s6, SpecToken::Colon) {
                                                Some(s7) => lemma_stmts_decls(s7, Stop::IfBranch, Seq::empty()),
                                                None => {},
                                            }
                                        }
                                    },
                                    None => {},
                                }
                            },
                            None => {},
                        }
                    },
                    None => {},
                },
                None => {},
            }
        },
        None => {},
    }
}

proof fn lemma_select_cases_decls(s: PState, acc: Seq<(SExpr, Seq<SStmt>)>)
    requires
        arms_decls_ok(acc),
    ensures
        p_select_cases(s, acc) matches Some((b, _)) ==> arms_decls_ok(b),
    decreases measure(s), 54nat,
{
    if s.cur is Case {
        let s1 = adv(s);
        lemma_adv_measure(s);
        match p_expr(s1) {
            Some((v, s2)) => match expect_tok(s2, SpecToken::Colon) {
                Some(s3) => if measure(s3) < measure(s) {
                    lemma_stmts_decls(s3, Stop::SelectCase, Seq::empty());
                    match p_stmts(s3, Stop::SelectCase, Seq::empty()) {
                        Some((body, s4)) => if measure(s4) < measure(s) {
                            let next = acc.push((v, body));
                            assert forall|i: int, j: int| 0 <= i < next.len() && 0 <= j < next[i].1.len() implies stmt_decls_ok(#[trigger] next[i].1[j]) by {
                                if i < acc.len() {
                                    assert(next[i] == acc[i]);
                                }
                            }
                            lemma_select_cases_decls(s4, next);
                        },
                        None => {},
                    }
                },
                None => {},
            },
            None => {},
        }
    }
}

proof fn lemma_select_decls(st: PState)
    ensures
        p_select(st) matches Some((x, _)) ==> stmt_decls_ok(x),
    decreases measure(st), 55nat,
{
    match expect_tok(st, SpecToken::Current) {
        Some(s1) => match expect_ident(s1) {
            Some((target, _, s2)) => match expect_tok(s2, SpecToken::Colon) {
                Some(s3) => {
                    lemma_adv_measure(st);
                    lemma_adv_measure(s1);
                    lemma_adv_measure(s2);
                    lemma_select_cases_decls(s3, Seq::empty());
                    match p_select_cases(s3, Seq::empty()) {
                        Some((cases, s4)) => if cases.len() != 0 && measure(s4) < measure(st) {
                            if s4.cur is Otherwise {
                                let s5 = adv(s4);
                                lemma_adv_measure(s4);
                                lemma_adv_measure(s5);
                                match expect_tok(s5, SpecToken::Colon) {
                                    Some(s6) => lemma_stmts_decls(s6, Stop::SelectCase, Seq::empty()),
                                    None => {},
                                }
                            }
                        },
                        None => {},
                    }
                },
                None => {},
            },
            None => {},
        },
        None => {},
    }
}

proof fn lemma_loop_decls(st: PState)
    ensures
        p_loop(st) matches Some((x, _)) ==> stmt_decls_ok(x),
    decreases measure(st), 55nat,
{
    match expect_tok(st, SpecToken::Loop) {
        Some(s1) => {
            let s2 = adv(s1);
            lemma_adv_measure(st);
            lemma_adv_measure(s1);
            match s1.cur {
                SpecToken::Count => match expect_ident(s2) {
                    Some((var_name, _, s3)) => match expect_tok(s3, SpecToken::Less) {
                        Some(s4) => match p_expr(s4) {
                            Some((end, s5)) => match expect_tok(s5, SpecToken::Colon) {
                                Some(s6) => if measure(s6) < measure(st) {
                                    lemma_block_decls(s6);
                                },
                                None => {},
                            },
                            None => {},
                        },
                        None => {},
                    },
                    None => {},
                },
                SpecToken::Iterate => match expect_ident(s2) {
                    Some((var_name, _, s3)) => match expect_tok(s3, SpecToken::Less) {
                        Some(s4) => match p_expr(s4) {
                            Some((start, s5)) => match expect_tok(s5, SpecToken::ScopeEnd) {
                                Some(s6) => match p_expr(s6) {
                                    Some((end, s7)) => match expect_tok(s7, SpecToken::Colon) {
                                        Some(s8) => if measure(s8) < measure(st) {
                                            lemma_block_decls(s8);
                                        },
                                        None => {},
                                    },
                                    None => {},
                                },
                                None => {},
                            },
                            None => {},
                        },
                        None => {},
                    },
                    None => {},
                },
                SpecToken::Condition => match p_expr(s2) {
                    Some((condition, s3)) => match expect_tok(s3, SpecToken::Colon) {
                        Some(s4) => if measure(s4) < measure(st) {
                            lemma_block_decls(s4);
                        },
                        None => {},
                    },
                    None => {},
                },
                _ => {},
            }
        },
        None => {},
    }
}

/// Every body of an object (its constructor's and its methods') satisfies
/// `body_decls_ok`.
pub open spec fn object_decls_ok(o: SObject) -> bool {
    &&& o.constructor matches Some(c) ==> body_decls_ok(c.1)
    &&& forall|j: int| 0 <= j < o.methods.len() ==> body_decls_ok(#[trigger] o.methods[j].1.body)
}

/// Every variable declaration of a program, in any body and at any depth,
/// satisfies `decl_flags_ok`.
pub open spec fn program_decls_ok(p: SProgram) -> bool {
    &&& forall|i: int| 0 <= i < p.functions.len() ==> body_decls_ok(#[trigger] p.functions[i].body)
    &&& forall|i: int| 0 <= i < p.objects.len() ==> object_decls_ok(#[trigger] p.objects[i])
}

proof fn lemma_function_def_decls(st: PState)
    ensures
        p_function_def(st) matches Some((f, _)) ==> body_decls_ok(f.body),
{
    match expect_tok(st, SpecToken::Method) {
        Some(s1) => match expect_ident(s1) {
            Some((name, _, s2)) => match expect_tok(s2, SpecToken::LParen) {
                Some(s3) => match p_params(s3) {
                    Some((params, s4)) => match expect_tok(s4, SpecToken::RParen) {
                        Some(s5) => match expect_tok(s5, SpecToken::ReturnKw) {
                            Some(s6) => match p_type(s6) {
                                Some((return_type, s7)) => {
                                    let is_entry = s7.entry_pending;
                                    let s8 = if is_entry { PState { has_entry: true, entry_pending: false, ..s7 } } else { s7 };
                                    let s9 = if s8.external_pending {
                                        PState { ext_symbol: None, external_pending: false, ..s8 }
                                    } else {
                                        s8
                                    };
                                    if !s8.external_pending {
                                        match expect_tok(s9, SpecToken::Colon) {
                                            Some(s10) => lemma_block_decls(s10),
                                            None => {},
                                        }
                                    }
                                },
                                None => {},
                            },
                            None => {},
                        },
                        None => {},
                    },
                    None => {},
                },
                None => {},
            },
            None => {},
        },
        None => {},
    }
}

proof fn lemma_method_def_decls(st: PState, object_name: Seq<char>)
    ensures
        p_method_def(st, object_name) matches Some((f, _)) ==> body_decls_ok(f.body),
{
    match expect_tok(st, SpecToken::Method) {
        Some(s1) => match expect_ident(s1) {
            Some((name, _, s2)) => match expect_tok(s2, SpecToken::LParen) {
                Some(s3) => match p_params(s3) {
                    Some((rest, s4)) => match expect_tok(s4, SpecToken::RParen) {
                        Some(s5) => match expect_tok(s5, SpecToken::ReturnKw) {
                            Some(s6) => match p_type(s6) {
                                Some((return_type, s7)) => match expect_tok(s7, SpecToken::Colon) {
                                    Some(s8) => lemma_block_decls(s8),
                                    None => {},
                                },
                                None => {},
                            },
                            None => {},
                        },
                        None => {},
                    },
                    None => {},
                },
                None => {},
            },
            None => {},
        },
        None => {},
    }
}

proof fn lemma_members_decls(s: PState, object_name: Seq<char>, access: MemberAccess, acc: Seq<(MemberAccess, SFunction)>)
    requires
        forall|j: int| 0 <= j < acc.len() ==> body_decls_ok(#[trigger] acc[j].1.body),
    ensures
        p_members(s, object_name, access, acc) matches Some((m, _)) ==> forall|j: int| 0 <= j < m.len() ==> body_decls_ok(#[trigger] m[j].1.body),
    decreases measure(s),
{
    if !is_section_boundary(s.cur) {
        match expect_tok(s, SpecToken::Define) {
            Some(s1) => {
                lemma_method_def_decls(s1, object_name);
                match p_method_def(s1, object_name) {
                    Some((f, s2)) => if measure(s2) < measure(s) {
                        let next = acc.push((access, f));
                        assert forall|j: int| 0 <= j < next.len() implies body_decls_ok(#[trigger] next[j].1.body) by {
                            if j < acc.len() {
                                assert(next[j] == acc[j]);
                            }
                        }
                        lemma_members_decls(s2, object_name, access, next);
                    },
                    None => {},
                }
            },
            None => {},
        }
    }
}

proof fn lemma_constructor_decls(st: PState)
    ensures
        p_constructor(st) matches Some((c, _)) ==> body_decls_ok(c.1),
{
    match expect_tok(st, SpecToken::Construct) {
        Some(s1) => match expect_tok(s1, SpecToken::Method) {
            Some(s2) => match expect_tok(s2, SpecToken::LParen) {
                Some(s3) => match p_params(s3) {
                    Some((params, s4)) => match expect_tok(s4, SpecToken::RParen) {
                        Some(s5) => match expect_tok(s5, SpecToken::Colon) {
                            Some(s6) => lemma_stmts_decls(s6, Stop::ObjectSection, Seq::empty()),
                            None => {},
                        },
                        None => {},
                    },
                    None => {},
                },
                None => {},
            },
            None => {},
        },
        None => {},
    }
}

proof fn lemma_object_sections_decls(s: PState, acc: SObject)
    requires
        object_decls_ok(acc),
    ensures
        p_object_sections(s, acc) matches Some((o, _)) ==> object_decls_ok(o),
    decreases measure(s),
{
    if !(s.cur is ScopeEnd || s.cur is Eof) {
        let section = object_section_of(s.cur);
        if section == 1 {
            match expect_tok(adv(s), SpecToken::Colon) {
                Some(s1) => match p_field_list(s1, Stop::ObjectSection, Seq::empty()) {
                    Some((fields, s2)) => if measure(s2) < measure(s) {
                        lemma_object_sections_decls(s2, SObject { fields, ..acc });
                    },
                    None => {},
                },
                None => {},
            }
        } else if section == 2 {
            if acc.constructor is None {
                lemma_constructor_decls(s);
                match p_constructor(s) {
                    Some((c, s1)) => if measure(s1) < measure(s) {
                        lemma_object_sections_decls(s1, SObject { constructor: Some(c), ..acc });
                    },
                    None => {},
                }
            }
        } else if section == 3 || section == 4 {
            let access = if section == 3 { MemberAccess::Public } else { MemberAccess::Private };
            match expect_tok(adv(s), SpecToken::Colon) {
                Some(s1) => {
                    lemma_members_decls(s1, acc.name, access, acc.methods);
                    match p_members(s1, acc.name, access, acc.methods) {
                        Some((methods, s2)) => if measure(s2) < measure(s) {
                            lemma_object_sections_decls(s2, SObject { methods, ..acc });
                        },
                        None => {},
                    }
                },
                None => {},
            }
        }
    }
}

proof fn lemma_object_def_decls(st: PState)
    ensures
        p_object_def(st) matches Some((o, _)) ==> object_decls_ok(o),
{
    match expect_tok(st, SpecToken::ObjectKw) {
        Some(s1) => match expect_ident(s1) {
            Some((name, _, s2)) => match expect_tok(s2, SpecToken::Colon) {
                Some(s3) => lemma_object_sections_decls(
                    s3,
                    SObject { name, fields: Seq::empty(), constructor: None, methods: Seq::empty() },
                ),
                None => {},
            },
            None => {},
        },
        None => {},
    }
}

proof fn lemma_items_decls(s: PState, acc: SProgram)
    requires
        program_decls_ok(acc),
    ensures
        p_items(s, acc) matches Some(r) ==> program_decls_ok(r),
    decreases measure(s),
{
    if !(s.cur is Eof) {
        match s.cur {
            SpecToken::Hash => match p_module_def(s) {
                Some((name, s1)) => if measure(s1) < measure(s) {
                    lemma_items_decls(PState { module: Some(name), ..s1 }, SProgram { modules: acc.modules.push(name), ..acc });
                },
                None => {},
            },
            SpecToken::Import => match p_import(s) {
                Some((import, s1)) => if measure(s1) < measure(s) {
                    lemma_items_decls(s1, SProgram { imports: acc.imports.push(import), ..acc });
                },
                None => {},
            },
            SpecToken::At => match p_declaration(s) {
                Some(s1) => if measure(s1) < measure(s) {
                    lemma_items_decls(s1, acc);
                },
                None => {},
            },
            SpecToken::Define => {
                let s1 = adv(s);
                match s1.cur {
                    SpecToken::Method => {
                        lemma_function_def_decls(s1);
                        match p_function_def(s1) {
                            Some((f, s2)) => if measure(s2) < measure(s) {
                                let fs = acc.functions.push(f);
                                assert forall|i: int| 0 <= i < fs.len() implies body_decls_ok(#[trigger] fs[i].body) by {
                                    if i < acc.functions.len() {
                                        assert(fs[i] == acc.functions[i]);
                                    }
                                }
                                lemma_items_decls(s2, SProgram { functions: fs, ..acc });
                            },
                            None => {},
                        }
                    },
                    SpecToken::StructKw => match p_struct_def(s1) {
                        Some((d, s2)) => if measure(s2) < measure(s) {
                            lemma_items_decls(s2, SProgram { structs: acc.structs.push(d), ..acc });
                        },
                        None => {},
                    },
                    SpecToken::ObjectKw => {
                        lemma_object_def_decls(s1);
                        match p_object_def(s1) {
                            Some((o, s2)) => if measure(s2) < measure(s) {
                                let os = acc.objects.push(o);
                                let fs = acc.functions + method_functions(o.methods);
                                assert forall|i: int| 0 <= i < os.len() implies object_decls_ok(#[trigger] os[i]) by {
                                    if i < acc.objects.len() {
                                        assert(os[i] == acc.objects[i]);
                                    }
                                }
                                assert forall|i: int| 0 <= i < fs.len() implies body_decls_ok(#[trigger] fs[i].body) by {
                                    if i < acc.functions.len() {
                                        assert(fs[i] == acc.functions[i]);
                                    } else {
                                        let j = i - acc.functions.len();
                                        assert(fs[i] == o.methods[j].1);
                                        assert(body_decls_ok(o.methods[j].1.body));
                                    }
                                }
                                lemma_items_decls(s2, SProgram { objects: os, functions: fs, ..acc });
                            },
                            None => {},
                        }
                    },
                    _ => {},
                }
            },
            _ => {},
        }
    }
}

/// In a parsed program every variable declared without an initial value is
/// mutable, in every function, constructor and method body and at any
/// depth of nesting; with `lemma_let_declares_mutable` and
/// `lemma_var_decl_mutability`, this is the mutability of declarations.
pub proof fn lemma_program_decl_flags(st: PState)
    ensures
        p_program(st) matches Some(r) ==> program_decls_ok(r),
{
    lemma_items_decls(
        st,
        SProgram {
            has_entry: false,
            modules: Seq::empty(),
            imports: Seq::empty(),
            structs: Seq::empty(),
            objects: Seq::empty(),
            functions: Seq::empty(),
        },
    );
}

/// `f` is one of the functions.
pub open spec fn listed(functions: Seq<SFunction>, f: SFunction) -> bool {
    exists|k: int| 0 <= k < functions.len() && functions[k] == f
}

/// Every method of every object is also one of the functions.
pub open spec fn methods_listed(objects: Seq<SObject>, functions: Seq<SFunction>) -> bool {
    forall|i: int, j: int|
        0 <= i < objects.len() && 0 <= j < objects[i].methods.len() ==> #[trigger] listed(functions, objects[i].methods[j].1)
}

proof fn lemma_listed_more(objects: Seq<SObject>, functions: Seq<SFunction>, more: Seq<SFunction>)
    requires
        methods_listed(objects, functions),
    ensures
        methods_listed(objects, functions + more),
{
    assert forall|i: int, j: int| 0 <= i < objects.len() && 0 <= j < objects[i].methods.len() implies #[trigger] listed(functions + more, objects[i].methods[j].1) by {
        assert(listed(functions, objects[i].methods[j].1));
        let k = choose|k: int| 0 <= k < functions.len() && functions[k] == objects[i].methods[j].1;
        assert((functions + more)[k] == functions[k]);
        assert(listed(functions + more, objects[i].methods[j].1));
    }
}

proof fn lemma_listed_object(objects: Seq<SObject>, functions: Seq<SFunction>, o: SObject)
    requires
        methods_listed(objects, functions),
    ensures
        methods_listed(objects.push(o), functions + method_functions(o.methods)),
{
    let mf = method_functions(o.methods);
    let os = objects.push(o);
    let fs = functions + mf;
    lemma_listed_more(objects, functions, mf);
    assert forall|i: int, j: int| 0 <= i < os.len() && 0 <= j < os[i].methods.len() implies #[trigger] listed(fs, os[i].methods[j].1) by {
        if i < objects.len() {
            assert(os[i] == objects[i]);
            assert(listed(fs, objects[i].methods[j].1));
        } else {
            assert(os[i] == o);
            let k = functions.len() + j;
            assert(fs[k] == mf[j]);
            assert(listed(fs, os[i].methods[j].1));
        }
    }
}

proof fn lemma_items_list_methods(s: PState, acc: SProgram)
    requires
        methods_listed(acc.objects, acc.functions),
    ensures
        p_items(s, acc) matches Some(r) ==> methods_listed(r.objects, r.functions),
    decreases measure(s),
{
    if s.cur is Eof {
    } else {
        match s.cur {
            SpecToken::Hash => match p_module_def(s) {
                Some((name, s1)) => if measure(s1) < measure(s) {
                    lemma_items_list_methods(PState { module: Some(name), ..s1 }, SProgram { modules: acc.modules.push(name), ..acc });
                },
                None => {},
            },
            SpecToken::Import => match p_import(s) {
                Some((import, s1)) => if measure(s1) < measure(s) {
                    lemma_items_list_methods(s1, SProgram { imports: acc.imports.push(import), ..acc });
                },
                None => {},
            },
            SpecToken::At => match p_declaration(s) {
                Some(s1) => if measure(s1) < measure(s) {
                    lemma_items_list_methods(s1, acc);
                },
                None => {},
            },
            SpecToken::Define => {
                let s1 = adv(s);
                match s1.cur {
                    SpecToken::Method => match p_function_def(s1) {
                        Some((f, s2)) => if measure(s2) < measure(s) {
                            lemma_listed_more(acc.objects, acc.functions, seq![f]);
                            assert(acc.functions + seq![f] =~= acc.functions.push(f));
                            lemma_items_list_methods(s2, SProgram { functions: acc.functions.push(f), ..acc });
                        },
                        None => {},
                    },
                    SpecToken::StructKw => match p_struct_def(s1) {
                        Some((d, s2)) => if measure(s2) < measure(s) {
                            lemma_items_list_methods(s2, SProgram { structs: acc.structs.push(d), ..acc });
                        },
                        None => {},
                    },
                    SpecToken::ObjectKw => match p_object_def(s1) {
                        Some((o, s2)) => if measure(s2) < measure(s) {
                            lemma_listed_object(acc.objects, acc.functions, o);
                            lemma_items_list_methods(
                                s2,
                                SProgram { objects: acc.objects.push(o), functions: acc.functions + method_functions(o.methods), ..acc },
                            );
                        },
                        None => {},
                    },
                    _ => {},
                }
            },
            _ => {},
        }
    }
}

/// In a parsed program every method of an object is also one of the
/// program's functions.
pub proof fn lemma_program_lists_methods(st: PState)
    ensures
        p_program(st) matches Some(r) ==> methods_listed(r.objects, r.functions),
{
    lemma_items_list_methods(
        st,
        SProgram {
            has_entry: false,
            modules: Seq::empty(),
            imports: Seq::empty(),
            structs: Seq::empty(),
            objects: Seq::empty(),
            functions: Seq::empty(),
        },
    );
}

/// The program read from position `st`, or `None` where parsing fails.
pub open spec fn p_program(st: PState) -> Option<SProgram> {
    p_items(
        st,
        SProgram {
            has_entry: false,
            modules: Seq::empty(),
            imports: Seq::empty(),
            structs: Seq::empty(),
            objects: Seq::empty(),
            functions: Seq::empty(),
        },
    )
}

/// The position of a parser made on a lexer at `off` with span `span`: the
/// first token is read and no declaration is pending.
pub open spec fn start_state(src: Seq<char>, off: int, span: Span) -> PState {
    adv(
        PState {
            src,
            off,
            cur: SpecToken::Eof,
            span,
            entry_pending: false,
            has_entry: false,
            external_pending: false,
            ext_symbol: None,
            module: None,
        },
    )
}

/// What parsing a whole source text gives.
pub open spec fn parse_source_spec(src: Seq<char>) -> Option<SProgram> {
    p_program(start_state(src, 0, Span { start: 0, end: 0 }))
}

} // verus!
