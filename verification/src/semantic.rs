use vstd::prelude::*;
use crate::diagnostics::{
    dec, line_bounds, line_col, line_col_spec, line_text, location_text, push_chars, push_location,
    push_repeat, push_signed_dec, push_snippet, repeat, signed_dec, snippet_text, usize_to_string,
};
use crate::lexer::Span;
use crate::parser::{
    ArrayAssignStmt, AssignStmt, BinaryOp, ConstructorDef, Expr, FieldAssignStmt, FormatPart, FunctionDef,
    IfBranch, ImportDecl, LoopStmt, MemberAccess, ObjectDef, ObjectMethod, Param, Program,
    ReturnStmt, SelectCase, SpecType, Stmt, StructDef, StructField, Type, UnaryOp, VarDecl,
    copy_type, method_shape, object_module_name, object_module_name_spec, program_shape, trim,
    trimmed_bounds, type_eq, type_view,
};
use crate::text::{cat, chars_to_string, concat3, copy_string, owned, push_str, same, str_chars};

verus! {

broadcast use vstd::string::group_string_axioms;

// ---------------------------------------------------------------------------
// The typing rules, stated over the program's values.
// ---------------------------------------------------------------------------

/// An import as names: the path and the optional alias.
pub type ImportView = (Seq<char>, Option<Seq<char>>);

pub open spec fn import_view(i: ImportDecl) -> ImportView {
    (i.path@, match i.alias {
        Some(a) => Some(a@),
        None => None,
    })
}

pub open spec fn imports_view(v: Seq<ImportDecl>) -> Seq<ImportView> {
    v.map_values(|i: ImportDecl| import_view(i))
}

/// A local variable as the rules see it: its type and whether it may be
/// assigned.
pub type LocalView = (SpecType, bool, Option<Span>);

/// What the rules need of the function whose body is checked: its module and
/// its return type.
pub struct FnCtx {
    pub module: Option<Seq<char>>,
    pub ret: SpecType,
}

pub open spec fn fn_ctx(f: FunctionDef) -> FnCtx {
    FnCtx {
        module: match f.module_name {
            Some(m) => Some(m@),
            None => None,
        },
        ret: f.return_type@,
    }
}

/// The qualified path of a function: `module-name`, or the bare name.
pub open spec fn function_path_spec(f: FunctionDef) -> Seq<char> {
    match f.module_name {
        Some(m) => m@ + "-"@ + f.name@,
        None => f.name@,
    }
}

pub open spec fn is_callable(p: Program, path: Seq<char>) -> bool {
    exists|i: int| 0 <= i < p.functions@.len() && function_path_spec(#[trigger] p.functions@[i]) == path
}

pub open spec fn is_module(p: Program, path: Seq<char>) -> bool {
    exists|i: int| 0 <= i < p.modules@.len() && (#[trigger] p.modules@[i]).name@ == path
}

/// An import names a module or a function of the program.
pub open spec fn import_target_exists(p: Program, path: Seq<char>) -> bool {
    is_module(p, path) || is_callable(p, path)
}

pub open spec fn has_prefix(s: Seq<char>, pre: Seq<char>) -> bool {
    s.len() >= pre.len() && s.subrange(0, pre.len() as int) == pre
}

pub open spec fn contains_char(s: Seq<char>, c: char) -> bool {
    exists|i: int| 0 <= i < s.len() && s[i] == c
}

/// `path-rest` when `target` is `prefix-rest`, the module `path` exists
/// and `path-rest` is a function.
pub open spec fn resolve_through(p: Program, target: Seq<char>, prefix: Seq<char>, path: Seq<char>) -> Option<Seq<char>> {
    let pre = prefix + "-"@;
    if has_prefix(target, pre) {
        let resolved = path + "-"@ + target.subrange(pre.len() as int, target.len() as int);
        if is_module(p, path) && is_callable(p, resolved) {
            Some(resolved)
        } else {
            None
        }
    } else {
        None
    }
}

/// Resolution of a call target through the imports, in order: an alias
/// naming a function, `alias-rest` in an aliased module, the import path
/// itself, or `path-rest` in an imported module.
pub open spec fn resolve_imported(p: Program, imports: Seq<ImportView>, target: Seq<char>, i: int) -> Option<Seq<char>>
    decreases imports.len() - i,
{
    if i < 0 || i >= imports.len() {
        None
    } else {
        let (path, alias) = imports[i];
        let by_alias = match alias {
            Some(a) => if a == target && is_callable(p, path) {
                Some(path)
            } else {
                resolve_through(p, target, a, path)
            },
            None => None,
        };
        if by_alias is Some {
            by_alias
        } else if path == target && is_callable(p, target) {
            Some(target)
        } else if resolve_through(p, target, path, path) is Some {
            resolve_through(p, target, path, path)
        } else {
            resolve_imported(p, imports, target, i + 1)
        }
    }
}

/// The function a call or `执行` names: through the imports first, then a
/// function of that bare name, then one in the caller's own module.
pub open spec fn resolve_target(p: Program, ctx: FnCtx, imports: Seq<ImportView>, target: Seq<char>) -> Option<Seq<char>> {
    if resolve_imported(p, imports, target, 0) is Some {
        resolve_imported(p, imports, target, 0)
    } else if !contains_char(target, '-') && is_callable(p, target) {
        Some(target)
    } else {
        match ctx.module {
            Some(m) => if !contains_char(target, '-') && is_callable(p, m + "-"@ + target) {
                Some(m + "-"@ + target)
            } else {
                None
            },
            None => None,
        }
    }
}

/// The first function whose path is `path`, from index `i`.
pub open spec fn find_function(p: Program, path: Seq<char>, i: int) -> Option<int>
    decreases p.functions@.len() - i,
{
    if i < 0 || i >= p.functions@.len() {
        None
    } else if function_path_spec(p.functions@[i]) == path {
        Some(i)
    } else {
        find_function(p, path, i + 1)
    }
}

pub open spec fn find_struct(p: Program, name: Seq<char>, i: int) -> Option<int>
    decreases p.structs@.len() - i,
{
    if i < 0 || i >= p.structs@.len() {
        None
    } else if p.structs@[i].name@ == name {
        Some(i)
    } else {
        find_struct(p, name, i + 1)
    }
}

pub open spec fn find_object(p: Program, name: Seq<char>, i: int) -> Option<int>
    decreases p.objects@.len() - i,
{
    if i < 0 || i >= p.objects@.len() {
        None
    } else if p.objects@[i].name@ == name {
        Some(i)
    } else {
        find_object(p, name, i + 1)
    }
}

/// The type of the first field called `name`.
pub open spec fn find_field(fields: Seq<StructField>, name: Seq<char>, i: int) -> Option<SpecType>
    decreases fields.len() - i,
{
    if i < 0 || i >= fields.len() {
        None
    } else if fields[i].name@ == name {
        Some(fields[i].field_type@)
    } else {
        find_field(fields, name, i + 1)
    }
}

/// The first method called `name`.
pub open spec fn find_method(methods: Seq<ObjectMethod>, name: Seq<char>, i: int) -> Option<int>
    decreases methods.len() - i,
{
    if i < 0 || i >= methods.len() {
        None
    } else if methods[i].function.name@ == name {
        Some(i)
    } else {
        find_method(methods, name, i + 1)
    }
}

/// The object whose method body is being checked, if any.
pub open spec fn current_object(ctx: FnCtx) -> Option<Seq<char>> {
    match ctx.module {
        Some(m) => if has_prefix(m, "对象-"@) {
            Some(m.subrange(("对象-"@).len() as int, m.len() as int))
        } else {
            None
        },
        None => None,
    }
}

/// Object fields are private: only the object's own methods reach them.
pub open spec fn field_access_allowed(p: Program, ctx: FnCtx, type_text: Seq<char>) -> bool {
    !(find_object(p, type_text, 0) is Some && current_object(ctx) != Some(type_text))
}

/// The type of a field of a struct or object.
pub open spec fn field_type(p: Program, type_text: Seq<char>, field: Seq<char>) -> Option<SpecType> {
    match find_struct(p, type_text, 0) {
        Some(i) => find_field(p.structs@[i].fields@, field, 0),
        None => match find_object(p, type_text, 0) {
            Some(j) => find_field(p.objects@[j].fields@, field, 0),
            None => None,
        },
    }
}

/// The type of `base->field`.
pub open spec fn field_access_type(p: Program, ctx: FnCtx, base: Option<SpecType>, field: Seq<char>) -> Option<SpecType> {
    match base {
        Some(SpecType::Struct(n)) => if field_access_allowed(p, ctx, n) {
            field_type(p, n, field)
        } else {
            None
        },
        _ => None,
    }
}

pub open spec fn is_int_or_bool(t: SpecType) -> bool {
    t is Int || t is Bool
}

/// The type of a unary operation on an operand of type `t`.
pub open spec fn unary_type(op: UnaryOp, t: SpecType) -> Option<SpecType> {
    match op {
        UnaryOp::Neg => if t is Int {
            Some(SpecType::Int)
        } else if t is Double {
            Some(SpecType::Double)
        } else {
            None
        },
        UnaryOp::Not => if is_int_or_bool(t) {
            Some(SpecType::Bool)
        } else {
            None
        },
    }
}

/// The type of a binary operation: arithmetic needs two integers or two
/// decimals; equality two operands of one type; comparison two integers or
/// two decimals; logic integers or booleans.
pub open spec fn binary_type(op: BinaryOp, l: SpecType, r: SpecType) -> Option<SpecType> {
    match op {
        BinaryOp::Add | BinaryOp::Sub | BinaryOp::Mul | BinaryOp::Div | BinaryOp::Rem => {
            if l is Int && r is Int {
                Some(SpecType::Int)
            } else if l is Double && r is Double {
                Some(SpecType::Double)
            } else {
                None
            }
        },
        BinaryOp::Eq | BinaryOp::NotEq => if l == r {
            Some(SpecType::Bool)
        } else {
            None
        },
        BinaryOp::Less | BinaryOp::LessEq | BinaryOp::Greater | BinaryOp::GreaterEq => {
            if (l is Int && r is Int) || (l is Double && r is Double) {
                Some(SpecType::Bool)
            } else {
                None
            }
        },
        BinaryOp::And | BinaryOp::Or => if is_int_or_bool(l) && is_int_or_bool(r) {
            Some(SpecType::Bool)
        } else {
            None
        },
    }
}

/// What operators accept and give. Arithmetic (`+ - * / %`) takes two
/// integers or two decimals and gives that type; comparisons take two
/// integers or two decimals and give a boolean; `==` and `!=` take two
/// operands of one type and give a boolean; `&&` and `||` take integers or
/// booleans and give a boolean. Operands of two different types are
/// rejected by every operator but the logical ones.
pub proof fn lemma_operator_typing(op: BinaryOp, l: SpecType, r: SpecType)
    ensures
        (op is Add || op is Sub || op is Mul || op is Div || op is Rem) ==> binary_type(op, l, r) == (if l == SpecType::Int && r == SpecType::Int {
            Some(SpecType::Int)
        } else if l == SpecType::Double && r == SpecType::Double {
            Some(SpecType::Double)
        } else {
            None
        }),
        (op is Less || op is LessEq || op is Greater || op is GreaterEq) ==> binary_type(op, l, r) == (if (l == SpecType::Int
            && r == SpecType::Int) || (l == SpecType::Double && r == SpecType::Double) {
            Some(SpecType::Bool)
        } else {
            None
        }),
        (op is Eq || op is NotEq) ==> binary_type(op, l, r) == (if l == r {
            Some(SpecType::Bool)
        } else {
            None
        }),
        (op is And || op is Or) ==> binary_type(op, l, r) == (if (l == SpecType::Int || l == SpecType::Bool) && (r
            == SpecType::Int || r == SpecType::Bool) {
            Some(SpecType::Bool)
        } else {
            None
        }),
        !(op is And || op is Or) && l != r ==> binary_type(op, l, r) is None,
        unary_type(UnaryOp::Neg, l) == (if l == SpecType::Int {
            Some(SpecType::Int)
        } else if l == SpecType::Double {
            Some(SpecType::Double)
        } else {
            None
        }),
        unary_type(UnaryOp::Not, l) == (if l == SpecType::Int || l == SpecType::Bool {
            Some(SpecType::Bool)
        } else {
            None
        }),
{
}

/// A literal index outside `[0, length)` of an array of known length.
pub open spec fn literal_out_of_bounds(length: Option<usize>, index: Expr) -> bool {
    match (length, index) {
        (Some(l), Expr::IntLiteral(v)) => v < 0 || v >= l,
        _ => false,
    }
}

/// The element type of `array[index]`.
pub open spec fn index_type(array: Option<SpecType>, index_ty: Option<SpecType>, index: Expr) -> Option<SpecType> {
    match (array, index_ty) {
        (Some(at), Some(it)) => if !(it is Int) {
            None
        } else {
            match at {
                SpecType::Array { element_type, length } => if literal_out_of_bounds(length, index) {
                    None
                } else {
                    Some(*element_type)
                },
                _ => None,
            }
        },
        _ => None,
    }
}

/// The type of an expression, or `None` when it is ill-typed.
pub open spec fn expr_type(p: Program, ctx: FnCtx, imports: Seq<ImportView>, locals: Map<Seq<char>, LocalView>, e: Expr) -> Option<SpecType>
    decreases e, 0int,
{
    match e {
        Expr::IntLiteral(_) => Some(SpecType::Int),
        Expr::DoubleLiteral(_) => Some(SpecType::Double),
        Expr::StringLiteral(_) => Some(SpecType::String),
        Expr::Ident(n) => if locals.contains_key(n@) {
            Some(locals[n@].0)
        } else {
            None
        },
        Expr::FormattedString(parts) => if placeholders_ok(p, ctx, locals, parts@) {
            Some(SpecType::String)
        } else {
            None
        },
        Expr::Call { target, type_arg, args } => match resolve_target(p, ctx, imports, target@) {
            Some(path) => match find_function(p, path, 0) {
                Some(k) => {
                    let callee = p.functions@[k];
                    if callee.return_type@ is Void {
                        None
                    } else if type_arg matches Some(t) && t@ != callee.return_type@ {
                        None
                    } else if args_match(p, ctx, imports, locals, args, callee.params@, 0) {
                        Some(callee.return_type@)
                    } else {
                        None
                    }
                },
                None => None,
            },
            None => None,
        },
        Expr::ArrayLiteral(elements) => if elements@.len() > 0 && all_int(p, ctx, imports, locals, elements, 0) {
            Some(SpecType::Array { element_type: Box::new(SpecType::Int), length: Some(elements@.len() as usize) })
        } else {
            None
        },
        Expr::StructLiteral { name, fields } => match find_struct(p, name@, 0) {
            Some(i) => if struct_fields_ok(p, ctx, imports, locals, fields, p.structs@[i].fields@, 0)
                && distinct_names(fields@) && covers_fields(fields@, p.structs@[i].fields@) {
                Some(SpecType::Struct(name@))
            } else {
                None
            },
            None => None,
        },
        Expr::ObjectCreate { name, args } => match find_object(p, name@, 0) {
            Some(i) => {
                let params = match p.objects@[i].constructor {
                    Some(c) => c.params@,
                    None => Seq::empty(),
                };
                if args_match(p, ctx, imports, locals, args, params, 0) {
                    Some(SpecType::Struct(name@))
                } else {
                    None
                }
            },
            None => None,
        },
        Expr::Index { array, index } => if !(*array is Ident) {
            None
        } else {
            index_type(
                expr_type(p, ctx, imports, locals, *array),
                expr_type(p, ctx, imports, locals, *index),
                *index,
            )
        },
        Expr::FieldAccess { base, field } => field_access_type(
            p,
            ctx,
            expr_type(p, ctx, imports, locals, *base),
            field@,
        ),
        Expr::MethodCall { receiver, method, args } => match expr_type(p, ctx, imports, locals, *receiver) {
            Some(SpecType::Struct(o)) => match find_object(p, o, 0) {
                Some(oi) => match find_method(p.objects@[oi].methods@, method@, 0) {
                    Some(mi) => {
                        let m = p.objects@[oi].methods@[mi];
                        if m.access is Private && current_object(ctx) != Some(o) {
                            None
                        } else if m.function.params@.len() >= 1 && args_match(
                            p,
                            ctx,
                            imports,
                            locals,
                            args,
                            m.function.params@.skip(1),
                            0,
                        ) {
                            Some(m.function.return_type@)
                        } else {
                            None
                        }
                    },
                    None => None,
                },
                None => None,
            },
            _ => None,
        },
        Expr::Unary { op, expr } => match expr_type(p, ctx, imports, locals, *expr) {
            Some(t) => unary_type(op, t),
            None => None,
        },
        Expr::Binary { left, op, right } => match (
            expr_type(p, ctx, imports, locals, *left),
            expr_type(p, ctx, imports, locals, *right),
        ) {
            (Some(l), Some(r)) => binary_type(op, l, r),
            _ => None,
        },
    }
}

/// The arguments from `i` on are as many as the parameters and have their
/// types.
pub open spec fn args_match(p: Program, ctx: FnCtx, imports: Seq<ImportView>, locals: Map<Seq<char>, LocalView>, args: Vec<Expr>, params: Seq<Param>, i: int) -> bool
    decreases args, args@.len() - i,
{
    if args@.len() != params.len() {
        false
    } else if i < 0 || i >= args@.len() {
        true
    } else {
        expr_type(p, ctx, imports, locals, args@[i]) == Some(params[i].param_type@)
            && args_match(p, ctx, imports, locals, args, params, i + 1)
    }
}

/// Every element from `i` on is an integer.
pub open spec fn all_int(p: Program, ctx: FnCtx, imports: Seq<ImportView>, locals: Map<Seq<char>, LocalView>, elements: Vec<Expr>, i: int) -> bool
    decreases elements, elements@.len() - i,
{
    if i < 0 || i >= elements@.len() {
        true
    } else {
        expr_type(p, ctx, imports, locals, elements@[i]) == Some(SpecType::Int)
            && all_int(p, ctx, imports, locals, elements, i + 1)
    }
}

/// Every initialised field from `i` on exists in the struct and gets a value
/// of its type.
pub open spec fn struct_fields_ok(p: Program, ctx: FnCtx, imports: Seq<ImportView>, locals: Map<Seq<char>, LocalView>, fields: Vec<(String, Expr)>, decl: Seq<StructField>, i: int) -> bool
    decreases fields, fields@.len() - i,
{
    if i < 0 || i >= fields@.len() {
        true
    } else {
        &&& find_field(decl, fields@[i].0@, 0) is Some
        &&& expr_type(p, ctx, imports, locals, fields@[i].1) == find_field(decl, fields@[i].0@, 0)
        &&& struct_fields_ok(p, ctx, imports, locals, fields, decl, i + 1)
    }
}

/// No field is initialised twice.
pub open spec fn distinct_names(fields: Seq<(String, Expr)>) -> bool {
    forall|a: int, b: int| 0 <= a < b < fields.len() ==> fields[a].0@ != fields[b].0@
}

/// Every declared field is initialised.
pub open spec fn covers_fields(fields: Seq<(String, Expr)>, decl: Seq<StructField>) -> bool {
    forall|k: int| 0 <= k < decl.len() ==> exists|a: int| 0 <= a < fields.len() && fields[a].0@ == (#[trigger] decl[k]).name@
}

/// Every placeholder of a formatted string names a variable in scope, or is
/// `base->field` of an accessible field.
pub open spec fn placeholders_ok(p: Program, ctx: FnCtx, locals: Map<Seq<char>, LocalView>, parts: Seq<FormatPart>) -> bool {
    forall|k: int| 0 <= k < parts.len() ==> match #[trigger] parts[k] {
        FormatPart::Placeholder(n) => placeholder_type(p, ctx, locals, n@) is Some,
        FormatPart::Text(_) => true,
    }
}

/// The first offset of `->` in `s`, or `s.len()`.
pub open spec fn find_arrow(s: Seq<char>, i: int) -> int
    decreases s.len() - i,
{
    if i < 0 || i + 1 >= s.len() {
        s.len() as int
    } else if s[i] == '-' && s[i + 1] == '>' {
        i
    } else {
        find_arrow(s, i + 1)
    }
}

/// The type of a placeholder: `base->field`, trimmed on both sides, or a
/// variable.
pub open spec fn placeholder_type(p: Program, ctx: FnCtx, locals: Map<Seq<char>, LocalView>, name: Seq<char>) -> Option<SpecType> {
    let a = find_arrow(name, 0);
    if a < name.len() {
        let base = trim(name.subrange(0, a));
        let field = trim(name.subrange(a + 2, name.len() as int));
        field_access_type(
            p,
            ctx,
            if locals.contains_key(base) {
                Some(locals[base].0)
            } else {
                None
            },
            field,
        )
    } else if locals.contains_key(name) {
        Some(locals[name].0)
    } else {
        None
    }
}
/// Whether a condition has an integer or boolean type.
pub open spec fn condition_ok(p: Program, ctx: FnCtx, imports: Seq<ImportView>, locals: Map<Seq<char>, LocalView>, e: Expr) -> bool {
    match expr_type(p, ctx, imports, locals, e) {
        Some(t) => is_int_or_bool(t),
        None => false,
    }
}

/// A declared type matches an inferred one; an array of unknown length takes
/// the length of the array it is given.
pub open spec fn resolve_declared_type_spec(declared: SpecType, inferred: SpecType) -> Option<SpecType> {
    match (declared, inferred) {
        (
            SpecType::Array { element_type: de, length: None },
            SpecType::Array { element_type: ie, length: Some(l) },
        ) => if de == ie {
            Some(SpecType::Array { element_type: de, length: Some(l) })
        } else {
            None
        },
        _ => if declared == inferred {
            Some(declared)
        } else {
            None
        },
    }
}

pub open spec fn is_unsized_array_spec(t: SpecType) -> bool {
    t matches SpecType::Array { length: None, .. }
}

/// The type a variable declaration gives its variable.
pub open spec fn var_decl_type(p: Program, ctx: FnCtx, imports: Seq<ImportView>, locals: Map<Seq<char>, LocalView>, v: VarDecl) -> Option<SpecType> {
    match (v.var_type, v.init) {
        (Some(t), Some(init)) => match expr_type(p, ctx, imports, locals, init) {
            Some(it) => resolve_declared_type_spec(t@, it),
            None => None,
        },
        (Some(t), None) => if is_unsized_array_spec(t@) {
            None
        } else {
            Some(t@)
        },
        (None, Some(init)) => expr_type(p, ctx, imports, locals, init),
        (None, None) => None,
    }
}

/// The scope after one statement, or `None` when it is rejected. Imports
/// and declarations extend the scope; branches and loop bodies are checked in
/// a copy of it.
pub open spec fn stmt_scope(p: Program, ctx: FnCtx, imports: Seq<ImportView>, locals: Map<Seq<char>, LocalView>, s: Stmt) -> Option<(Seq<ImportView>, Map<Seq<char>, LocalView>)>
    decreases s, 0int,
{
    match s {
        Stmt::Import(i) => if import_target_exists(p, i.path@) {
            Some((imports.push(import_view(i)), locals))
        } else {
            None
        },
        Stmt::Execute(x) => if resolve_target(p, ctx, imports, x.target@) is Some && all_typed(p, ctx, imports, locals, x.args, 0) {
            Some((imports, locals))
        } else {
            None
        },
        Stmt::VarDecl(v) => match var_decl_type(p, ctx, imports, locals, v) {
            Some(t) => Some((imports, locals.insert(v.name@, (t, v.is_mutable, Some(v.name_span))))),
            None => None,
        },
        Stmt::Assign(a) => if locals.contains_key(a.name@) && locals[a.name@].1
            && expr_type(p, ctx, imports, locals, a.value) == Some(locals[a.name@].0) {
            Some((imports, locals))
        } else {
            None
        },
        Stmt::ArrayAssign(a) => if locals.contains_key(a.name@) && locals[a.name@].1 {
            match locals[a.name@].0 {
                SpecType::Array { element_type, length } => if expr_type(p, ctx, imports, locals, a.index) == Some(SpecType::Int)
                    && !literal_out_of_bounds(length, a.index)
                    && expr_type(p, ctx, imports, locals, a.value) == Some(*element_type) {
                    Some((imports, locals))
                } else {
                    None
                },
                _ => None,
            }
        } else {
            None
        },
        Stmt::FieldAssign(a) => match expr_type(p, ctx, imports, locals, a.base) {
            Some(SpecType::Struct(n)) => if field_access_allowed(p, ctx, n) && field_type(p, n, a.field@) is Some
                && expr_type(p, ctx, imports, locals, a.value) == field_type(p, n, a.field@) {
                Some((imports, locals))
            } else {
                None
            },
            _ => None,
        },
        Stmt::Return(r) => if match r.value {
            None => ctx.ret is Void,
            Some(e) => !(ctx.ret is Void) && expr_type(p, ctx, imports, locals, e) == Some(ctx.ret),
        } {
            Some((imports, locals))
        } else {
            None
        },
        Stmt::If(i) => if branches_ok(p, ctx, imports, locals, i.branches, 0) && match i.else_body {
            Some(body) => block_ok(p, ctx, imports, locals, body),
            None => true,
        } {
            Some((imports, locals))
        } else {
            None
        },
        Stmt::Select(c) => if locals.contains_key(c.target@) && cases_ok(p, ctx, imports, locals, locals[c.target@].0, c.cases, 0)
            && match c.default_body {
            Some(body) => block_ok(p, ctx, imports, locals, body),
            None => true,
        } {
            Some((imports, locals))
        } else {
            None
        },
        Stmt::Loop(l) => if match l {
            LoopStmt::Count { var_name, end, body } => expr_type(p, ctx, imports, locals, end) == Some(SpecType::Int)
                && block_ok(p, ctx, imports, locals.insert(var_name@, (SpecType::Int, false, None)), body),
            LoopStmt::Iterate { var_name, start, end, body } => expr_type(p, ctx, imports, locals, start) == Some(SpecType::Int)
                && expr_type(p, ctx, imports, locals, end) == Some(SpecType::Int)
                && block_ok(p, ctx, imports, locals.insert(var_name@, (SpecType::Int, false, None)), body),
            LoopStmt::Condition { condition, body } => condition_ok(p, ctx, imports, locals, condition)
                && block_ok(p, ctx, imports, locals, body),
        } {
            Some((imports, locals))
        } else {
            None
        },
    }
}

/// Assignment and declaration: assigning to a variable that is not in scope
/// or is immutable is rejected; assigning a value of the variable's type to
/// a mutable variable is accepted and leaves the scope as it was; an
/// accepted declaration binds its name, with its mutability and its
/// declaration's place, and nothing else.
pub proof fn lemma_assignment_rules(p: Program, ctx: FnCtx, imports: Seq<ImportView>, locals: Map<Seq<char>, LocalView>, a: AssignStmt, v: VarDecl)
    ensures
        !locals.contains_key(a.name@) ==> stmt_scope(p, ctx, imports, locals, Stmt::Assign(a)) is None,
        locals.contains_key(a.name@) && !locals[a.name@].1 ==> stmt_scope(p, ctx, imports, locals, Stmt::Assign(a)) is None,
        locals.contains_key(a.name@) && locals[a.name@].1 && expr_type(p, ctx, imports, locals, a.value) == Some(locals[a.name@].0)
            ==> stmt_scope(p, ctx, imports, locals, Stmt::Assign(a)) == Some((imports, locals)),
        stmt_scope(p, ctx, imports, locals, Stmt::VarDecl(v)) matches Some((i2, l2)) ==> i2 == imports && l2.dom() == locals.dom().insert(v.name@)
            && l2[v.name@].1 == v.is_mutable && l2[v.name@].2 == Some(v.name_span) && forall|n: Seq<char>| #[trigger] locals.contains_key(n)
            && n != v.name@ ==> l2[n] == locals[n],
{
}

/// Every argument from `i` on is well-typed.
pub open spec fn all_typed(p: Program, ctx: FnCtx, imports: Seq<ImportView>, locals: Map<Seq<char>, LocalView>, args: Vec<Expr>, i: int) -> bool
    decreases args, args@.len() - i,
{
    if i < 0 || i >= args@.len() {
        true
    } else {
        expr_type(p, ctx, imports, locals, args@[i]) is Some && all_typed(p, ctx, imports, locals, args, i + 1)
    }
}

/// The scope after the statements from `i` on, checked in order.
pub open spec fn stmts_scope(p: Program, ctx: FnCtx, imports: Seq<ImportView>, locals: Map<Seq<char>, LocalView>, body: Vec<Stmt>, i: int) -> Option<(Seq<ImportView>, Map<Seq<char>, LocalView>)>
    decreases body, body@.len() - i,
{
    if i < 0 || i >= body@.len() {
        Some((imports, locals))
    } else {
        match stmt_scope(p, ctx, imports, locals, body@[i]) {
            Some((imports2, locals2)) => stmts_scope(p, ctx, imports2, locals2, body, i + 1),
            None => None,
        }
    }
}

/// A block is accepted when all its statements are.
pub open spec fn block_ok(p: Program, ctx: FnCtx, imports: Seq<ImportView>, locals: Map<Seq<char>, LocalView>, body: Vec<Stmt>) -> bool
    decreases body, body@.len() + 1,
{
    stmts_scope(p, ctx, imports, locals, body, 0) is Some
}

/// Every `判断` branch from `i` on has a valid condition and body.
pub open spec fn branches_ok(p: Program, ctx: FnCtx, imports: Seq<ImportView>, locals: Map<Seq<char>, LocalView>, branches: Vec<IfBranch>, i: int) -> bool
    decreases branches, branches@.len() - i,
{
    if i < 0 || i >= branches@.len() {
        true
    } else {
        condition_ok(p, ctx, imports, locals, branches@[i].condition)
            && block_ok(p, ctx, imports, locals, branches@[i].body)
            && branches_ok(p, ctx, imports, locals, branches, i + 1)
    }
}

/// Every `取` case from `i` on has a value of the selected variable's type
/// and a valid body.
pub open spec fn cases_ok(p: Program, ctx: FnCtx, imports: Seq<ImportView>, locals: Map<Seq<char>, LocalView>, target: SpecType, cases: Vec<SelectCase>, i: int) -> bool
    decreases cases, cases@.len() - i,
{
    if i < 0 || i >= cases@.len() {
        true
    } else {
        expr_type(p, ctx, imports, locals, cases@[i].value) == Some(target)
            && block_ok(p, ctx, imports, locals, cases@[i].body)
            && cases_ok(p, ctx, imports, locals, target, cases, i + 1)
    }
}

/// A type names only structs and objects that exist.
pub open spec fn type_declared(t: SpecType, structs: Seq<StructDef>, objects: Seq<ObjectDef>) -> bool
    decreases t,
{
    match t {
        SpecType::Struct(n) => (exists|i: int| 0 <= i < structs.len() && (#[trigger] structs[i]).name@ == n)
            || (exists|i: int| 0 <= i < objects.len() && (#[trigger] objects[i]).name@ == n),
        SpecType::Array { element_type, .. } => type_declared(*element_type, structs, objects),
        _ => true,
    }
}

/// No two fields share a name.
pub open spec fn distinct_fields(fields: Seq<StructField>) -> bool {
    forall|a: int, b: int| 0 <= a < b < fields.len() ==> fields[a].name@ != fields[b].name@
}

/// Struct definitions: unique names, none shared with an object, at least one
/// field, unique field names, declared field types.
pub open spec fn structs_ok(structs: Seq<StructDef>, objects: Seq<ObjectDef>) -> bool {
    &&& forall|a: int, b: int| 0 <= a < b < structs.len() ==> structs[a].name@ != structs[b].name@
    &&& forall|a: int, b: int| 0 <= a < structs.len() && 0 <= b < objects.len() ==> structs[a].name@ != objects[b].name@
    &&& forall|a: int| 0 <= a < structs.len() ==> (#[trigger] structs[a]).fields@.len() > 0 && distinct_fields(structs[a].fields@)
    &&& forall|a: int, k: int| 0 <= a < structs.len() && 0 <= k < structs[a].fields@.len() ==> type_declared(
        (#[trigger] structs[a].fields@[k]).field_type@,
        structs,
        objects,
    )
}

/// The scope a constructor body starts in: its parameters and `当前`, all
/// immutable.
pub open spec fn params_scope(params: Seq<Param>, i: int) -> Map<Seq<char>, LocalView>
    decreases i,
{
    if i <= 0 || i > params.len() {
        Map::empty()
    } else {
        params_scope(params, i - 1).insert(params[i - 1].name@, (params[i - 1].param_type@, false, None))
    }
}

pub open spec fn constructor_ctx(name: Seq<char>) -> FnCtx {
    FnCtx { module: Some(object_module_name_spec(name)), ret: SpecType::Void }
}

/// Object definitions: unique names, at least one field, unique declared
/// fields, and a constructor body valid in the scope of its parameters and
/// `当前`.
pub open spec fn objects_ok(p: Program) -> bool {
    &&& forall|a: int, b: int| 0 <= a < b < p.objects@.len() ==> p.objects@[a].name@ != p.objects@[b].name@
    &&& forall|a: int| 0 <= a < p.objects@.len() ==> (#[trigger] p.objects@[a]).fields@.len() > 0 && distinct_fields(p.objects@[a].fields@)
    &&& forall|a: int, k: int| 0 <= a < p.objects@.len() && 0 <= k < p.objects@[a].fields@.len() ==> type_declared(
        (#[trigger] p.objects@[a].fields@[k]).field_type@,
        p.structs@,
        p.objects@,
    )
    &&& forall|a: int| 0 <= a < p.objects@.len() ==> match (#[trigger] p.objects@[a]).constructor {
        Some(c) => block_ok(
            p,
            constructor_ctx(p.objects@[a].name@),
            imports_view(p.imports@),
            params_scope(c.params@, c.params@.len() as int).insert("当前"@, (SpecType::Struct(p.objects@[a].name@), false, None)),
            c.body,
        ),
        None => true,
    }
}

/// A function: declared parameter and return types, and a body valid in the
/// scope of its parameters.
pub open spec fn function_ok(p: Program, f: FunctionDef) -> bool {
    &&& forall|k: int| 0 <= k < f.params@.len() ==> type_declared((#[trigger] f.params@[k]).param_type@, p.structs@, p.objects@)
    &&& type_declared(f.return_type@, p.structs@, p.objects@)
    &&& block_ok(p, fn_ctx(f), imports_view(p.imports@), params_scope(f.params@, f.params@.len() as int), f.body)
}

/// The program is accepted by semantic analysis.
pub open spec fn program_ok(p: Program) -> bool {
    &&& forall|i: int| 0 <= i < p.imports@.len() ==> import_target_exists(p, (#[trigger] p.imports@[i]).path@)
    &&& structs_ok(p.structs@, p.objects@)
    &&& objects_ok(p)
    &&& forall|i: int| 0 <= i < p.functions@.len() ==> function_ok(p, #[trigger] p.functions@[i])
}

/// Every method of every object takes the object as a first parameter, as
/// parsed programs do.
pub open spec fn methods_have_receiver(p: Program) -> bool {
    forall|i: int, j: int| 0 <= i < p.objects@.len() && 0 <= j < p.objects@[i].methods@.len() ==> (#[trigger] p.objects@[i].methods@[j]).function.params@.len() >= 1
}

/// A parsed program can be handed to the analysis: its methods take the
/// object as their first parameter.
pub proof fn lemma_shape_has_receiver(p: Program)
    requires
        program_shape(p),
    ensures
        methods_have_receiver(p),
{
    assert forall|i: int, j: int| 0 <= i < p.objects@.len() && 0 <= j < p.objects@[i].methods@.len() implies (#[trigger] p.objects@[i].methods@[j]).function.params@.len() >= 1 by {
        assert(method_shape(p.objects@[i].methods@[j].function, p.objects@[i].name@));
    }
}
// ---------------------------------------------------------------------------
// Names and scopes.
// ---------------------------------------------------------------------------

/// A local variable: its type, whether it may be assigned, and where it was
/// declared (for diagnostics).
pub struct LocalInfo {
    pub ty: Type,
    pub is_mutable: bool,
    pub declaration_span: Option<Span>,
}

/// The variables in scope. A later binding of a name hides an earlier one.
pub struct Locals {
    entries: Vec<(String, LocalInfo)>,
}

pub open spec fn entries_map(e: Seq<(String, LocalInfo)>) -> Map<Seq<char>, LocalView>
    decreases e.len(),
{
    if e.len() == 0 {
        Map::empty()
    } else {
        entries_map(e.drop_last()).insert(e.last().0@, (e.last().1.ty@, e.last().1.is_mutable, e.last().1.declaration_span))
    }
}

impl View for Locals {
    type V = Map<Seq<char>, LocalView>;

    closed spec fn view(&self) -> Map<Seq<char>, LocalView> {
        entries_map(self.entries@)
    }
}

impl Locals {
    pub fn new() -> (r: Locals)
        ensures
            r@ == Map::<Seq<char>, LocalView>::empty(),
    {
        let r = Locals { entries: Vec::new() };
        assert(r@ =~= Map::<Seq<char>, LocalView>::empty());
        r
    }

    pub fn insert(&mut self, name: String, info: LocalInfo)
        ensures
            final(self)@ == old(self)@.insert(name@, (info.ty@, info.is_mutable, info.declaration_span)),
    {
        let ghost old_entries = self.entries@;
        self.entries.push((name, info));
        assert(self.entries@.drop_last() =~= old_entries);
    }

    /// The binding of `name`, if any.
    pub fn get(&self, name: &String) -> (r: Option<&LocalInfo>)
        ensures
            match r {
                Some(info) => self@.contains_key(name@) && self@[name@] == (info.ty@, info.is_mutable, info.declaration_span),
                None => !self@.contains_key(name@),
            },
    {
        let mut j = self.entries.len();
        assert(self.entries@.take(j as int) =~= self.entries@);
        while j > 0
            invariant
                j <= self.entries@.len(),
                entries_map(self.entries@).contains_key(name@) == entries_map(self.entries@.take(j as int)).contains_key(name@),
                entries_map(self.entries@.take(j as int)).contains_key(name@) ==> entries_map(self.entries@)[name@]
                    == entries_map(self.entries@.take(j as int))[name@],
            decreases j,
        {
            let ghost prefix = self.entries@.take(j as int);
            assert(prefix.drop_last() =~= self.entries@.take(j - 1));
            if same(&self.entries[j - 1].0, name) {
                return Some(&self.entries[j - 1].1);
            }
            j -= 1;
        }
        assert(self.entries@.take(0) =~= Seq::<(String, LocalInfo)>::empty());
        None
    }

    /// A copy of the scope, for a branch or loop body.
    pub fn copy(&self) -> (r: Locals)
        ensures
            r@ == self@,
    {
        let mut entries: Vec<(String, LocalInfo)> = Vec::new();
        let mut i: usize = 0;
        while i < self.entries.len()
            invariant
                i <= self.entries@.len(),
                entries@.len() == i,
                forall|k: int| 0 <= k < i ==> (#[trigger] entries@[k]).0@ == self.entries@[k].0@
                    && entries@[k].1.ty@ == self.entries@[k].1.ty@ && entries@[k].1.is_mutable
                    == self.entries@[k].1.is_mutable && entries@[k].1.declaration_span
                    == self.entries@[k].1.declaration_span,
            decreases self.entries@.len() - i,
        {
            let (name, info) = &self.entries[i];
            entries.push(
                (
                    copy_string(name),
                    LocalInfo {
                        ty: copy_type(&info.ty),
                        is_mutable: info.is_mutable,
                        declaration_span: info.declaration_span,
                    },
                ),
            );
            i += 1;
        }
        proof {
            lemma_entries_map_same(entries@, self.entries@);
        }
        Locals { entries }
    }
}

proof fn lemma_entries_map_same(a: Seq<(String, LocalInfo)>, b: Seq<(String, LocalInfo)>)
    requires
        a.len() == b.len(),
        forall|k: int| 0 <= k < a.len() ==> (#[trigger] a[k]).0@ == b[k].0@ && a[k].1.ty@ == b[k].1.ty@
            && a[k].1.is_mutable == b[k].1.is_mutable && a[k].1.declaration_span == b[k].1.declaration_span,
    ensures
        entries_map(a) == entries_map(b),
    decreases a.len(),
{
    if a.len() > 0 {
        assert(a.drop_last().len() == b.drop_last().len());
        assert forall|k: int| 0 <= k < a.drop_last().len() implies (#[trigger] a.drop_last()[k]).0@ == b.drop_last()[k].0@
            && a.drop_last()[k].1.ty@ == b.drop_last()[k].1.ty@ && a.drop_last()[k].1.is_mutable == b.drop_last()[k].1.is_mutable
            && a.drop_last()[k].1.declaration_span == b.drop_last()[k].1.declaration_span by {
            assert(a.drop_last()[k] == a[k]);
            assert(b.drop_last()[k] == b[k]);
        }
        lemma_entries_map_same(a.drop_last(), b.drop_last());
        assert(a.last() == a[a.len() - 1]);
    }
}

/// The scope of a parameter list: each parameter, immutable.
fn params_locals(params: &Vec<Param>) -> (r: Locals)
    ensures
        r@ == params_scope(params@, params@.len() as int),
{
    let mut locals = Locals::new();
    let mut i: usize = 0;
    while i < params.len()
        invariant
            i <= params@.len(),
            locals@ == params_scope(params@, i as int),
        decreases params@.len() - i,
    {
        let param = &params[i];
        locals.insert(
            copy_string(&param.name),
            LocalInfo { ty: copy_type(&param.param_type), is_mutable: false, declaration_span: None },
        );
        i += 1;
    }
    locals
}

/// The modules and callable function paths of a program.
pub struct ModuleRegistry {
    modules: Vec<String>,
    callables: Vec<String>,
}

impl ModuleRegistry {
    /// The registry describes the program's modules and functions.
    pub closed spec fn models(&self, p: Program) -> bool {
        &&& self.modules@.len() == p.modules@.len()
        &&& forall|i: int| 0 <= i < p.modules@.len() ==> (#[trigger] self.modules@[i])@ == p.modules@[i].name@
        &&& self.callables@.len() == p.functions@.len()
        &&& forall|i: int| 0 <= i < p.functions@.len() ==> (#[trigger] self.callables@[i])@ == function_path_spec(p.functions@[i])
    }

    pub fn from_program(program: &Program) -> (r: ModuleRegistry)
        ensures
            r.models(*program),
    {
        let mut modules: Vec<String> = Vec::new();
        let mut i: usize = 0;
        while i < program.modules.len()
            invariant
                i <= program.modules@.len(),
                modules@.len() == i,
                forall|k: int| 0 <= k < i ==> (#[trigger] modules@[k])@ == program.modules@[k].name@,
            decreases program.modules@.len() - i,
        {
            modules.push(copy_string(&program.modules[i].name));
            i += 1;
        }
        let mut callables: Vec<String> = Vec::new();
        let mut j: usize = 0;
        while j < program.functions.len()
            invariant
                j <= program.functions@.len(),
                callables@.len() == j,
                forall|k: int| 0 <= k < j ==> (#[trigger] callables@[k])@ == function_path_spec(program.functions@[k]),
            decreases program.functions@.len() - j,
        {
            callables.push(function_path(&program.functions[j]));
            j += 1;
        }
        ModuleRegistry { modules, callables }
    }

    pub fn has_module(&self, path: &String) -> (r: bool)
        requires
            exists|p: Program| self.models(p),
        ensures
            forall|p: Program| self.models(p) ==> r == is_module(p, path@),
    {
        let mut i: usize = 0;
        while i < self.modules.len()
            invariant
                i <= self.modules@.len(),
                forall|k: int| 0 <= k < i ==> (#[trigger] self.modules@[k])@ != path@,
            decreases self.modules@.len() - i,
        {
            if same(&self.modules[i], path) {
                proof {
                    assert forall|p: Program| self.models(p) implies is_module(p, path@) by {
                        assert(p.modules@[i as int].name@ == path@);
                    }
                }
                return true;
            }
            i += 1;
        }
        proof {
            assert forall|p: Program| self.models(p) implies !is_module(p, path@) by {
                if is_module(p, path@) {
                    let k = choose|k: int| 0 <= k < p.modules@.len() && (#[trigger] p.modules@[k]).name@ == path@;
                    assert(self.modules@[k]@ == path@);
                }
            }
        }
        false
    }

    pub fn has_callable(&self, path: &String) -> (r: bool)
        requires
            exists|p: Program| self.models(p),
        ensures
            forall|p: Program| self.models(p) ==> r == is_callable(p, path@),
    {
        let mut i: usize = 0;
        while i < self.callables.len()
            invariant
                i <= self.callables@.len(),
                forall|k: int| 0 <= k < i ==> (#[trigger] self.callables@[k])@ != path@,
            decreases self.callables@.len() - i,
        {
            if same(&self.callables[i], path) {
                proof {
                    assert forall|p: Program| self.models(p) implies is_callable(p, path@) by {
                        assert(function_path_spec(p.functions@[i as int]) == path@);
                    }
                }
                return true;
            }
            i += 1;
        }
        proof {
            assert forall|p: Program| self.models(p) implies !is_callable(p, path@) by {
                if is_callable(p, path@) {
                    let k = choose|k: int| 0 <= k < p.functions@.len() && function_path_spec(#[trigger] p.functions@[k]) == path@;
                    assert(self.callables@[k]@ == path@);
                }
            }
        }
        false
    }

    /// Whether an import names a module or a function.
    pub fn import_exists(&self, path: &String) -> (r: bool)
        requires
            exists|p: Program| self.models(p),
        ensures
            forall|p: Program| self.models(p) ==> r == import_target_exists(p, path@),
    {
        self.has_module(path) || self.has_callable(path)
    }
}

/// The qualified path of a function.
pub fn function_path(func: &FunctionDef) -> (r: String)
    ensures
        r@ == function_path_spec(*func),
{
    match &func.module_name {
        Some(module_name) => {
            let mut s = copy_string(module_name);
            push_str(&mut s, "-");
            push_str(&mut s, func.name.as_str());
            s
        },
        None => copy_string(&func.name),
    }
}

/// `s` with the prefix `pre` removed, when `s` starts with it.
fn strip_prefix(s: &String, pre: &String) -> (r: Option<String>)
    ensures
        match r {
            Some(rest) => has_prefix(s@, pre@) && rest@ == s@.subrange(pre@.len() as int, s@.len() as int),
            None => !has_prefix(s@, pre@),
        },
{
    let a = str_chars(s.as_str());
    let b = str_chars(pre.as_str());
    if b.len() > a.len() {
        return None;
    }
    let mut i: usize = 0;
    while i < b.len()
        invariant
            b@.len() <= a@.len(),
            i <= b@.len(),
            a@ == s@,
            b@ == pre@,
            forall|k: int| 0 <= k < i ==> a@[k] == b@[k],
        decreases b@.len() - i,
    {
        if a[i] != b[i] {
            assert(s@.subrange(0, pre@.len() as int)[i as int] != pre@[i as int]);
            return None;
        }
        i += 1;
    }
    assert(s@.subrange(0, pre@.len() as int) =~= pre@);
    Some(chars_to_string(&a, b.len(), a.len()))
}

/// Whether `s` holds the character `c`.
fn has_char(s: &String, c: char) -> (r: bool)
    ensures
        r == contains_char(s@, c),
{
    let a = str_chars(s.as_str());
    let mut i: usize = 0;
    while i < a.len()
        invariant
            i <= a@.len(),
            a@ == s@,
            forall|k: int| 0 <= k < i ==> a@[k] != c,
        decreases a@.len() - i,
    {
        if a[i] == c {
            return true;
        }
        i += 1;
    }
    false
}

fn join_dash(a: &String, b: &String) -> (r: String)
    ensures
        r@ == a@ + "-"@ + b@,
{
    let mut s = copy_string(a);
    push_str(&mut s, "-");
    push_str(&mut s, b.as_str());
    s
}

fn resolve_through_exec(reg: &ModuleRegistry, target: &String, prefix: &String, path: &String) -> (r: Option<String>)
    requires
        exists|p: Program| reg.models(p),
    ensures
        forall|p: Program| reg.models(p) ==> match r {
            Some(x) => resolve_through(p, target@, prefix@, path@) == Some(x@),
            None => resolve_through(p, target@, prefix@, path@) is None,
        },
{
    let mut pre = copy_string(prefix);
    push_str(&mut pre, "-");
    match strip_prefix(target, &pre) {
        Some(suffix) => {
            let resolved = join_dash(path, &suffix);
            if reg.has_module(path) && reg.has_callable(&resolved) {
                Some(resolved)
            } else {
                None
            }
        },
        None => None,
    }
}

/// Resolves a call target through the imports (see `resolve_imported`).
pub fn resolve_imported_target(imports: &[ImportDecl], target: &String, registry: &ModuleRegistry) -> (r: Option<String>)
    requires
        exists|p: Program| registry.models(p),
    ensures
        forall|p: Program| registry.models(p) ==> match r {
            Some(x) => resolve_imported(p, imports_view(imports@), target@, 0) == Some(x@),
            None => resolve_imported(p, imports_view(imports@), target@, 0) is None,
        },
{
    let ghost iv = imports_view(imports@);
    let mut i: usize = 0;
    while i < imports.len()
        invariant
            i <= imports@.len(),
            iv == imports_view(imports@),
            exists|p: Program| registry.models(p),
            forall|p: Program| registry.models(p) ==> resolve_imported(p, iv, target@, i as int) == resolve_imported(p, iv, target@, 0),
        decreases imports@.len() - i,
    {
        let import = &imports[i];
        assert(iv[i as int] == import_view(*import));
        if let Some(alias) = &import.alias {
            if same(alias, target) && registry.has_callable(&import.path) {
                return Some(copy_string(&import.path));
            }
            if let Some(resolved) = resolve_through_exec(registry, target, alias, &import.path) {
                return Some(resolved);
            }
        }
        if same(&import.path, target) && registry.has_callable(target) {
            return Some(copy_string(target));
        }
        if let Some(resolved) = resolve_through_exec(registry, target, &import.path, &import.path) {
            return Some(resolved);
        }
        i += 1;
    }
    None
}

/// The function a call or `执行` in `current_func` names (see
/// `resolve_target`), as its qualified path.
pub fn resolve_execute_target(program: &Program, current_func: &FunctionDef, imports: &[ImportDecl], target: &str) -> (r: Option<String>)
    ensures
        match r {
            Some(x) => resolve_target(*program, fn_ctx(*current_func), imports_view(imports@), target@) == Some(x@),
            None => resolve_target(*program, fn_ctx(*current_func), imports_view(imports@), target@) is None,
        },
{
    let registry = ModuleRegistry::from_program(program);
    let target = &owned(target);
    if let Some(resolved) = resolve_imported_target(imports, target, &registry) {
        return Some(resolved);
    }
    let dashed = has_char(target, '-');
    if !dashed && registry.has_callable(target) {
        return Some(copy_string(target));
    }
    if let Some(module_name) = &current_func.module_name {
        let local_path = join_dash(module_name, target);
        if !dashed && registry.has_callable(&local_path) {
            return Some(local_path);
        }
    }
    None
}
// ---------------------------------------------------------------------------
// Names of types and operators in diagnostics.
// ---------------------------------------------------------------------------

/// The display name of a type.
pub open spec fn type_text_spec(t: SpecType) -> Seq<char>
    decreases t,
{
    match t {
        SpecType::Void => "无"@,
        SpecType::Int => "整数"@,
        SpecType::Double => "小数"@,
        SpecType::Float => "浮点"@,
        SpecType::Bool => "布尔"@,
        SpecType::Char => "字符"@,
        SpecType::String => "字符串"@,
        SpecType::Struct(n) => "结构"@ + n,
        SpecType::Array { element_type, length } => match length {
            Some(l) => type_text_spec(*element_type) + "数组["@ + dec(l as nat) + "]"@,
            None => type_text_spec(*element_type) + "数组"@,
        },
    }
}

pub fn type_text(ty: &Type) -> (r: String)
    ensures
        r@ == type_text_spec(ty@),
    decreases ty,
{
    match ty {
        Type::Void => owned("无"),
        Type::Int => owned("整数"),
        Type::Double => owned("小数"),
        Type::Float => owned("浮点"),
        Type::Bool => owned("布尔"),
        Type::Char => owned("字符"),
        Type::String => owned("字符串"),
        Type::Struct(name) => {
            let r = concat3("结构", name.as_str(), "");
            proof {
                reveal_strlit("");
            }
            assert(r@ =~= "结构"@ + name@);
            r
        },
        Type::Array { element_type, length } => {
            let mut s = type_text(element_type);
            match length {
                Some(l) => {
                    push_str(&mut s, "数组[");
                    let n = usize_to_string(*l);
                    push_str(&mut s, n.as_str());
                    push_str(&mut s, "]");
                },
                None => {
                    push_str(&mut s, "数组");
                },
            }
            s
        },
    }
}

/// The source spelling of a binary operator.
pub open spec fn binary_op_name_spec(op: BinaryOp) -> Seq<char> {
    match op {
        BinaryOp::Add => "+"@,
        BinaryOp::Sub => "-"@,
        BinaryOp::Mul => "*"@,
        BinaryOp::Div => "/"@,
        BinaryOp::Rem => "%"@,
        BinaryOp::Eq => "=="@,
        BinaryOp::NotEq => "!="@,
        BinaryOp::Less => "<"@,
        BinaryOp::LessEq => "<="@,
        BinaryOp::Greater => ">"@,
        BinaryOp::GreaterEq => ">="@,
        BinaryOp::And => "&&"@,
        BinaryOp::Or => "||"@,
    }
}

pub fn binary_op_name(op: &BinaryOp) -> (r: &'static str)
    ensures
        r@ == binary_op_name_spec(*op),
{
    match op {
        BinaryOp::Add => "+",
        BinaryOp::Sub => "-",
        BinaryOp::Mul => "*",
        BinaryOp::Div => "/",
        BinaryOp::Rem => "%",
        BinaryOp::Eq => "==",
        BinaryOp::NotEq => "!=",
        BinaryOp::Less => "<",
        BinaryOp::LessEq => "<=",
        BinaryOp::Greater => ">",
        BinaryOp::GreaterEq => ">=",
        BinaryOp::And => "&&",
        BinaryOp::Or => "||",
    }
}

// ---------------------------------------------------------------------------
// Lookups.
// ---------------------------------------------------------------------------

pub(crate) fn find_function_index(program: &Program, path: &String) -> (r: Option<usize>)
    ensures
        match r {
            Some(k) => k < program.functions@.len() && find_function(*program, path@, 0) == Some(k as int),
            None => find_function(*program, path@, 0) is None,
        },
{
    let mut i: usize = 0;
    while i < program.functions.len()
        invariant
            i <= program.functions@.len(),
            find_function(*program, path@, i as int) == find_function(*program, path@, 0),
        decreases program.functions@.len() - i,
    {
        let fp = function_path(&program.functions[i]);
        if same(&fp, path) {
            return Some(i);
        }
        i += 1;
    }
    None
}

pub(crate) fn find_struct_index(program: &Program, name: &String) -> (r: Option<usize>)
    ensures
        match r {
            Some(k) => k < program.structs@.len() && find_struct(*program, name@, 0) == Some(k as int),
            None => find_struct(*program, name@, 0) is None,
        },
{
    let mut i: usize = 0;
    while i < program.structs.len()
        invariant
            i <= program.structs@.len(),
            find_struct(*program, name@, i as int) == find_struct(*program, name@, 0),
        decreases program.structs@.len() - i,
    {
        if same(&program.structs[i].name, name) {
            return Some(i);
        }
        i += 1;
    }
    None
}

pub(crate) fn find_object_index(program: &Program, name: &String) -> (r: Option<usize>)
    ensures
        match r {
            Some(k) => k < program.objects@.len() && find_object(*program, name@, 0) == Some(k as int),
            None => find_object(*program, name@, 0) is None,
        },
{
    let mut i: usize = 0;
    while i < program.objects.len()
        invariant
            i <= program.objects@.len(),
            find_object(*program, name@, i as int) == find_object(*program, name@, 0),
        decreases program.objects@.len() - i,
    {
        if same(&program.objects[i].name, name) {
            return Some(i);
        }
        i += 1;
    }
    None
}

pub(crate) fn find_field_type(fields: &Vec<StructField>, name: &String) -> (r: Option<Type>)
    ensures
        match r {
            Some(t) => find_field(fields@, name@, 0) == Some(t@),
            None => find_field(fields@, name@, 0) is None,
        },
{
    let mut i: usize = 0;
    while i < fields.len()
        invariant
            i <= fields@.len(),
            find_field(fields@, name@, i as int) == find_field(fields@, name@, 0),
        decreases fields@.len() - i,
    {
        if same(&fields[i].name, name) {
            return Some(copy_type(&fields[i].field_type));
        }
        i += 1;
    }
    None
}

pub(crate) fn find_method_index(methods: &Vec<ObjectMethod>, name: &String) -> (r: Option<usize>)
    ensures
        match r {
            Some(k) => k < methods@.len() && find_method(methods@, name@, 0) == Some(k as int),
            None => find_method(methods@, name@, 0) is None,
        },
{
    let mut i: usize = 0;
    while i < methods.len()
        invariant
            i <= methods@.len(),
            find_method(methods@, name@, i as int) == find_method(methods@, name@, 0),
        decreases methods@.len() - i,
    {
        if same(&methods[i].function.name, name) {
            return Some(i);
        }
        i += 1;
    }
    None
}

/// The object whose methods `func` belongs to.
fn current_object_name(func: &FunctionDef) -> (r: Option<String>)
    ensures
        match r {
            Some(n) => current_object(fn_ctx(*func)) == Some(n@),
            None => current_object(fn_ctx(*func)) is None,
        },
{
    match &func.module_name {
        Some(path) => {
            let pre = owned("对象-");
            strip_prefix(path, &pre)
        },
        None => None,
    }
}

fn same_opt(a: &Option<String>, b: &String) -> (r: bool)
    ensures
        r == (match a {
            Some(x) => Some(x@),
            None => None::<Seq<char>>,
        } == Some(b@)),
{
    match a {
        Some(x) => same(x, b),
        None => false,
    }
}

fn ensure_object_field_access_allowed(program: &Program, func: &FunctionDef, type_name_value: &String, field: &String) -> (r: Result<(), String>)
    ensures
        r is Ok <==> field_access_allowed(*program, fn_ctx(*func), type_name_value@),
        r matches Err(m) ==> m@ == "对象 `"@ + type_name_value@ + "` 的结构字段 `"@ + field@ + "` 默认私有，不能在对象外访问"@,
{
    proof {
        reveal_with_fuel(crate::text::concat_all, 12);
    }
    if find_object_index(program, type_name_value).is_some() && !same_opt(&current_object_name(func), type_name_value) {
        return Err(cat(&["对象 `", type_name_value.as_str(), "` 的结构字段 `", field.as_str(), "` 默认私有，不能在对象外访问"]));
    }
    Ok(())
}

/// The position and type of a field of a struct or object.
fn aggregate_field_info(program: &Program, type_name_value: &String, field: &String) -> (r: Result<Type, String>)
    ensures
        match r {
            Ok(t) => field_type(*program, type_name_value@, field@) == Some(t@),
            Err(_) => field_type(*program, type_name_value@, field@) is None,
        },
        r matches Err(m) ==> m@ == field_info_error(*program, type_name_value@, field@),
{
    proof {
        reveal_with_fuel(crate::text::concat_all, 12);
    }
    if let Some(i) = find_struct_index(program, type_name_value) {
        return match find_field_type(&program.structs[i].fields, field) {
            Some(t) => Ok(t),
            None => Err(cat(&["结构 `", type_name_value.as_str(), "` 没有字段 `", field.as_str(), "`"])),
        };
    }
    if let Some(j) = find_object_index(program, type_name_value) {
        return match find_field_type(&program.objects[j].fields, field) {
            Some(t) => Ok(t),
            None => Err(cat(&["对象 `", type_name_value.as_str(), "` 没有字段 `", field.as_str(), "`"])),
        };
    }
    Err(cat(&["未定义的结构或对象 `", type_name_value.as_str(), "`"]))
}

/// The type of `base->field` for a base of type `base_type`.
fn field_access(program: &Program, func: &FunctionDef, base_type: Type, field: &String) -> (r: Result<Type, String>)
    ensures
        match r {
            Ok(t) => field_access_type(*program, fn_ctx(*func), Some(base_type@), field@) == Some(t@),
            Err(_) => field_access_type(*program, fn_ctx(*func), Some(base_type@), field@) is None,
        },
        r matches Err(m) ==> m@ == field_access_error(*program, fn_ctx(*func), base_type@, field@),
{
    proof {
        reveal_with_fuel(crate::text::concat_all, 12);
    }
    match base_type {
        Type::Struct(struct_name) => {
            ensure_object_field_access_allowed(program, func, &struct_name, field)?;
            aggregate_field_info(program, &struct_name, field)
        },
        other => {
            let n = type_text(&other);
            Err(cat(&["不能对 ", n.as_str(), " 类型使用字段访问\n  = 帮助: 字段访问形如 `结构变量->字段名`。"]))
        },
    }
}
// ---------------------------------------------------------------------------
// The diagnostics of ill-typed expressions.
// ---------------------------------------------------------------------------

/// The message for a name that is not in scope.
pub open spec fn undefined_variable_message(name: Seq<char>) -> Seq<char> {
    "未定义的变量 `"@ + name + "`\n  = 帮助: 请确认名字拼写一致，并且声明出现在使用之前。"@
}

/// The message for a field that cannot be read: the base is no struct or
/// object, the field is private, or it does not exist.
pub open spec fn field_access_error(p: Program, ctx: FnCtx, base: SpecType, field: Seq<char>) -> Seq<char> {
    match base {
        SpecType::Struct(n) => if !field_access_allowed(p, ctx, n) {
            "对象 `"@ + n + "` 的结构字段 `"@ + field + "` 默认私有，不能在对象外访问"@
        } else {
            field_info_error(p, n, field)
        },
        _ => "不能对 "@ + type_text_spec(base) + " 类型使用字段访问\n  = 帮助: 字段访问形如 `结构变量->字段名`。"@,
    }
}

/// The message for a field that a struct or object does not have.
pub open spec fn field_info_error(p: Program, name: Seq<char>, field: Seq<char>) -> Seq<char> {
    match find_struct(p, name, 0) {
        Some(_) => "结构 `"@ + name + "` 没有字段 `"@ + field + "`"@,
        None => match find_object(p, name, 0) {
            Some(_) => "对象 `"@ + name + "` 没有字段 `"@ + field + "`"@,
            None => "未定义的结构或对象 `"@ + name + "`"@,
        },
    }
}

/// The message for a placeholder that names nothing readable.
pub open spec fn placeholder_error(p: Program, ctx: FnCtx, locals: Map<Seq<char>, LocalView>, name: Seq<char>) -> Seq<char> {
    let a = find_arrow(name, 0);
    if a < name.len() {
        let base = trim(name.subrange(0, a));
        let field = trim(name.subrange(a + 2, name.len() as int));
        if locals.contains_key(base) {
            field_access_error(p, ctx, locals[base].0, field)
        } else {
            "未定义的变量 `"@ + base + "`\n  = 帮助: 请确认名字拼写一致，并且声明出现在使用之前。"@
        }
    } else {
        "未定义的格式化变量 `"@ + name + "`\n  = 帮助: 格式化字符串 `{...}` 中只能引用当前作用域内已声明的变量。"@
    }
}

/// The message for the first placeholder, from `i` on, that names nothing
/// readable.
pub open spec fn placeholders_error(p: Program, ctx: FnCtx, locals: Map<Seq<char>, LocalView>, parts: Seq<FormatPart>, i: int) -> Seq<char>
    decreases parts.len() - i,
{
    if i < 0 || i >= parts.len() {
        Seq::empty()
    } else {
        match parts[i] {
            FormatPart::Placeholder(n) => if placeholder_type(p, ctx, locals, n@) is None {
                placeholder_error(p, ctx, locals, n@)
            } else {
                placeholders_error(p, ctx, locals, parts, i + 1)
            },
            FormatPart::Text(_) => placeholders_error(p, ctx, locals, parts, i + 1),
        }
    }
}

/// The message for operands that a binary operator does not take.
pub open spec fn binary_error(op: BinaryOp, l: SpecType, r: SpecType) -> Seq<char> {
    let kind = match op {
        BinaryOp::Add | BinaryOp::Sub | BinaryOp::Mul | BinaryOp::Div | BinaryOp::Rem => "算术运算符 `"@,
        BinaryOp::Eq | BinaryOp::NotEq => "相等运算符 `"@,
        BinaryOp::Less | BinaryOp::LessEq | BinaryOp::Greater | BinaryOp::GreaterEq => "比较运算符 `"@,
        BinaryOp::And | BinaryOp::Or => "逻辑运算符 `"@,
    };
    let rule = match op {
        BinaryOp::Add | BinaryOp::Sub | BinaryOp::Mul | BinaryOp::Div | BinaryOp::Rem => "` 需要同类型数字操作数\n  = 左侧: "@,
        BinaryOp::Eq | BinaryOp::NotEq => "` 两侧类型必须相同\n  = 左侧: "@,
        BinaryOp::Less | BinaryOp::LessEq | BinaryOp::Greater | BinaryOp::GreaterEq => "` 需要同类型数字操作数\n  = 左侧: "@,
        BinaryOp::And | BinaryOp::Or => "` 需要整数或布尔操作数\n  = 左侧: "@,
    };
    kind + binary_op_name_spec(op) + rule + type_text_spec(l) + "\n  = 右侧: "@ + type_text_spec(r)
}

/// The message for an index outside an array of known length.
pub open spec fn out_of_bounds_message(length: usize, index: i64) -> Seq<char> {
    "数组下标越界\n  = 数组长度: "@ + dec(length as nat) + "\n  = 下标: "@ + signed_dec(index as int) + "\n  = 帮助: 数组下标从 0 开始。"@
}

/// The message for an index that is not an integer.
pub open spec fn index_type_message(t: SpecType) -> Seq<char> {
    "数组下标类型不匹配\n  = 期望: 整数\n  = 实际: "@ + type_text_spec(t)
}

/// The message that checking an ill-typed expression gives: the first
/// failing check, in the order in which the checker makes them.
pub open spec fn expr_error(p: Program, ctx: FnCtx, imports: Seq<ImportView>, locals: Map<Seq<char>, LocalView>, e: Expr) -> Seq<char>
    decreases e, 1int,
{
    match e {
        Expr::Ident(n) => undefined_variable_message(n@),
        Expr::FormattedString(parts) => placeholders_error(p, ctx, locals, parts@, 0),
        Expr::Call { target, type_arg, args } => match resolve_target(p, ctx, imports, target@) {
            None => "未找到模块或方法 `"@ + target@ + "`\n  = 帮助: 如果这是外部模块中的方法，请先写 `引用 模块：路径`，或使用引用别名。"@,
            Some(path) => match find_function(p, path, 0) {
                None => "未找到方法: "@ + path,
                Some(k) => {
                    let callee = p.functions@[k];
                    if callee.return_type@ is Void {
                        "方法 `"@ + target@ + "` 没有返回值\n  = 实际返回类型: 无\n  = 帮助: `无` 返回值的方法只能用 `执行` 调用，不能放在表达式里。"@
                    } else if type_arg matches Some(t) && t@ != callee.return_type@ {
                        "方法 `"@ + target@ + "` 的泛型类型不匹配\n  = `->` 指定: "@ + type_text_spec(type_arg->0@) + "\n  = 实际返回: "@
                            + type_text_spec(callee.return_type@)
                    } else {
                        args_error(p, ctx, imports, locals, "方法"@, target@, args, callee.params@, 0)
                    }
                },
            },
        },
        Expr::ArrayLiteral(elements) => if elements@.len() == 0 {
            "数组字面量不能为空\n  = 帮助: 请至少提供一个元素，例如 `【1，2，3】`。"@
        } else {
            elements_error(p, ctx, imports, locals, elements, 0)
        },
        Expr::StructLiteral { name, fields } => match find_struct(p, name@, 0) {
            None => "未定义的结构 `"@ + name@ + "`\n  = 帮助: 请先在顶层写 `定义结构"@ + name@ + "：...。。`。"@,
            Some(si) => fields_error(p, ctx, imports, locals, name@, fields, p.structs@[si].fields@, 0),
        },
        Expr::ObjectCreate { name, args } => match find_object(p, name@, 0) {
            None => "未定义的对象 `"@ + name@ + "`\n  = 帮助: 请先在顶层写 `定义对象"@ + name@ + "：...。。`。"@,
            Some(i) => args_error(
                p,
                ctx,
                imports,
                locals,
                "创建"@,
                name@,
                args,
                match p.objects@[i].constructor {
                    Some(c) => c.params@,
                    None => Seq::empty(),
                },
                0,
            ),
        },
        Expr::Index { array, index } => if !(*array is Ident) {
            "当前只支持通过变量名访问数组\n  = 帮助: 请写成 `arr[n]`。"@
        } else {
            match expr_type(p, ctx, imports, locals, *array) {
                None => expr_error(p, ctx, imports, locals, *array),
                Some(at) => match expr_type(p, ctx, imports, locals, *index) {
                    None => expr_error(p, ctx, imports, locals, *index),
                    Some(it) => if !(it is Int) {
                        index_type_message(it)
                    } else {
                        match at {
                            SpecType::Array { element_type, length } => match (length, *index) {
                                (Some(l), Expr::IntLiteral(v)) => out_of_bounds_message(l, v),
                                _ => Seq::empty(),
                            },
                            _ => "不能对 "@ + type_text_spec(at) + " 类型使用数组访问\n  = 帮助: 数组访问形如 `arr[n]`，左侧必须是数组。"@,
                        }
                    },
                },
            }
        },
        Expr::FieldAccess { base, field } => match expr_type(p, ctx, imports, locals, *base) {
            None => expr_error(p, ctx, imports, locals, *base),
            Some(bt) => field_access_error(p, ctx, bt, field@),
        },
        Expr::MethodCall { receiver, method, args } => match expr_type(p, ctx, imports, locals, *receiver) {
            None => expr_error(p, ctx, imports, locals, *receiver),
            Some(SpecType::Struct(o)) => {
                let not_found = "对象 `"@ + o + "` 没有方法 `"@ + method@ + "`"@;
                match find_object(p, o, 0) {
                    None => not_found,
                    Some(oi) => match find_method(p.objects@[oi].methods@, method@, 0) {
                        None => not_found,
                        Some(mi) => {
                            let m = p.objects@[oi].methods@[mi];
                            if m.access is Private && current_object(ctx) != Some(o) {
                                "对象 `"@ + o + "` 的私有方法 `"@ + method@ + "` 不能在这里调用"@
                            } else if m.function.params@.len() < 1 {
                                "方法 `"@ + method@ + "` 缺少接收者参数"@
                            } else {
                                args_error(p, ctx, imports, locals, "方法"@, method@, args, m.function.params@.skip(1), 0)
                            }
                        },
                    },
                }
            },
            Some(rt) => "不能对 "@ + type_text_spec(rt) + " 类型调用对象方法\n  = 帮助: 方法调用形如 `对象变量->方法（参数）`。"@,
        },
        Expr::Unary { op, expr } => match expr_type(p, ctx, imports, locals, *expr) {
            None => expr_error(p, ctx, imports, locals, *expr),
            Some(t) => match op {
                UnaryOp::Neg => "一元 `-` 不支持 "@ + type_text_spec(t) + " 类型"@,
                UnaryOp::Not => "一元 `!` 不支持 "@ + type_text_spec(t) + " 类型"@,
            },
        },
        Expr::Binary { left, op, right } => match expr_type(p, ctx, imports, locals, *left) {
            None => expr_error(p, ctx, imports, locals, *left),
            Some(l) => match expr_type(p, ctx, imports, locals, *right) {
                None => expr_error(p, ctx, imports, locals, *right),
                Some(r) => binary_error(op, l, r),
            },
        },
        _ => Seq::empty(),
    }
}

/// The message for arguments that do not match the parameters: their number
/// first, then the first argument, from `i` on, that is ill-typed or of
/// another type than its parameter.
pub open spec fn args_error(
    p: Program,
    ctx: FnCtx,
    imports: Seq<ImportView>,
    locals: Map<Seq<char>, LocalView>,
    what: Seq<char>,
    callee: Seq<char>,
    args: Vec<Expr>,
    params: Seq<Param>,
    i: int,
) -> Seq<char>
    decreases args, args@.len() - i,
{
    if args@.len() != params.len() {
        what + " `"@ + callee + "` 的参数数量不匹配\n  = 期望: "@ + dec(params.len()) + " 个\n  = 实际: "@ + dec(args@.len()) + " 个"@
    } else if i < 0 || i >= args@.len() {
        Seq::empty()
    } else {
        match expr_type(p, ctx, imports, locals, args@[i]) {
            None => expr_error(p, ctx, imports, locals, args@[i]),
            Some(t) => if t != params[i].param_type@ {
                what + " `"@ + callee + "` 的参数 `"@ + params[i].name@ + "` 类型不匹配\n  = 期望: "@ + type_text_spec(params[i].param_type@)
                    + "\n  = 实际: "@ + type_text_spec(t)
            } else {
                args_error(p, ctx, imports, locals, what, callee, args, params, i + 1)
            },
        }
    }
}

/// The message for the first array element, from `i` on, that is ill-typed
/// or not an integer.
pub open spec fn elements_error(p: Program, ctx: FnCtx, imports: Seq<ImportView>, locals: Map<Seq<char>, LocalView>, elements: Vec<Expr>, i: int) -> Seq<char>
    decreases elements, elements@.len() - i,
{
    if i < 0 || i >= elements@.len() {
        Seq::empty()
    } else {
        match expr_type(p, ctx, imports, locals, elements@[i]) {
            None => expr_error(p, ctx, imports, locals, elements@[i]),
            Some(t) => if !(t is Int) {
                "数组元素类型不匹配\n  = 期望: 整数\n  = 实际: "@ + type_text_spec(t) + "\n  = 帮助: 当前数组先支持整数元素。"@
            } else {
                elements_error(p, ctx, imports, locals, elements, i + 1)
            },
        }
    }
}

/// Whether a field name occurs among the first `i` initialised fields.
pub open spec fn name_before(fields: Seq<(String, Expr)>, name: Seq<char>, i: int) -> bool {
    exists|k: int| 0 <= k < i && (#[trigger] fields[k]).0@ == name
}

/// The message for the first initialised field, from `i` on, that repeats
/// one, is not declared, or has an ill-typed value or one of another type;
/// past the last, for the first declared field left out.
pub open spec fn fields_error(
    p: Program,
    ctx: FnCtx,
    imports: Seq<ImportView>,
    locals: Map<Seq<char>, LocalView>,
    name: Seq<char>,
    fields: Vec<(String, Expr)>,
    decl: Seq<StructField>,
    i: int,
) -> Seq<char>
    decreases fields, fields@.len() - i,
{
    if i < 0 || i >= fields@.len() {
        missing_field_error(name, fields@, decl, 0)
    } else {
        let f = fields@[i].0@;
        if name_before(fields@, f, i) {
            "构造 `"@ + name + "` 时字段 `"@ + f + "` 重复赋值"@
        } else {
            match find_field(decl, f, 0) {
                None => "结构 `"@ + name + "` 没有字段 `"@ + f + "`"@,
                Some(ft) => match expr_type(p, ctx, imports, locals, fields@[i].1) {
                    None => expr_error(p, ctx, imports, locals, fields@[i].1),
                    Some(vt) => if vt != ft {
                        "构造 `"@ + name + "` 的字段 `"@ + f + "` 类型不匹配\n  = 字段类型: "@ + type_text_spec(ft) + "\n  = 表达式类型: "@
                            + type_text_spec(vt)
                    } else {
                        fields_error(p, ctx, imports, locals, name, fields, decl, i + 1)
                    },
                },
            }
        }
    }
}

/// The message for the first declared field, from `j` on, that is not
/// initialised.
pub open spec fn missing_field_error(name: Seq<char>, fields: Seq<(String, Expr)>, decl: Seq<StructField>, j: int) -> Seq<char>
    decreases decl.len() - j,
{
    if j < 0 || j >= decl.len() {
        Seq::empty()
    } else if !(exists|a: int| 0 <= a < fields.len() && fields[a].0@ == (#[trigger] decl[j]).name@) {
        "构造 `"@ + name + "` 缺少字段 `"@ + decl[j].name@ + "`"@
    } else {
        missing_field_error(name, fields, decl, j + 1)
    }
}

// ---------------------------------------------------------------------------
// Expressions.
// ---------------------------------------------------------------------------

/// Checks that the arguments match the parameters from `skip` on in number
/// and type.
fn check_args(
    what: &str,
    callee: &String,
    args: &Vec<Expr>,
    params: &Vec<Param>,
    skip: usize,
    program: &Program,
    func: &FunctionDef,
    imports: &Vec<ImportDecl>,
    locals: &Locals,
) -> (r: Result<(), String>)
    requires
        skip <= params@.len(),
    ensures
        r is Ok <==> args_match(*program, fn_ctx(*func), imports_view(imports@), locals@, *args, params@.skip(skip as int), 0),
        r matches Err(m) ==> m@ == args_error(*program, fn_ctx(*func), imports_view(imports@), locals@, what@, callee@, *args, params@.skip(skip as int), 0),
    decreases args, 0int,
{
    proof {
        reveal_with_fuel(crate::text::concat_all, 12);
    }
    let ghost ps = params@.skip(skip as int);
    assert(ps.len() + skip == params@.len());
    let ghost ctx = fn_ctx(*func);
    let ghost iv = imports_view(imports@);
    let expected = params.len() - skip;
    if args.len() != expected {
        let e = usize_to_string(expected);
        let a = usize_to_string(args.len());
        return Err(cat(&[what, " `", callee.as_str(), "` 的参数数量不匹配\n  = 期望: ", e.as_str(), " 个\n  = 实际: ", a.as_str(), " 个"]));
    }
    let mut i: usize = 0;
    while i < args.len()
        invariant
            i <= args@.len(),
            args@.len() == ps.len(),
            ps.len() + skip == params@.len(),
            params@.len() <= usize::MAX,
            ps == params@.skip(skip as int),
            skip <= params@.len(),
            ctx == fn_ctx(*func),
            iv == imports_view(imports@),
            args_match(*program, ctx, iv, locals@, *args, ps, i as int) == args_match(*program, ctx, iv, locals@, *args, ps, 0),
            args_error(*program, ctx, iv, locals@, what@, callee@, *args, ps, i as int) == args_error(*program, ctx, iv, locals@, what@, callee@, *args, ps, 0),
        decreases args@.len() - i,
    {
        proof {
            reveal_with_fuel(crate::text::concat_all, 12);
        }
        proof {
            assert(decreases_to!(args => args@[i as int]));
        }
        let arg_type = validate_expr(&args[i], program, func, imports, locals)?;
        let param = &params[skip + i];
        assert(ps[i as int] == params@[skip + i]);
        if !type_eq(&arg_type, &param.param_type) {
            let expected_name = type_text(&param.param_type);
            let actual_name = type_text(&arg_type);
            return Err(cat(&[what, " `", callee.as_str(), "` 的参数 `", param.name.as_str(), "` 类型不匹配\n  = 期望: ", expected_name.as_str(), "\n  = 实际: ", actual_name.as_str()]));
        }
        i += 1;
    }
    Ok(())
}

/// Checks that every element of an array literal is an integer.
fn validate_array_literal(
    elements: &Vec<Expr>,
    program: &Program,
    func: &FunctionDef,
    imports: &Vec<ImportDecl>,
    locals: &Locals,
) -> (r: Result<Type, String>)
    ensures
        match r {
            Ok(t) => elements@.len() > 0 && all_int(*program, fn_ctx(*func), imports_view(imports@), locals@, *elements, 0)
                && t@ == (SpecType::Array { element_type: Box::new(SpecType::Int), length: Some(elements@.len() as usize) }),
            Err(_) => !(elements@.len() > 0 && all_int(*program, fn_ctx(*func), imports_view(imports@), locals@, *elements, 0)),
        },
        r matches Err(m) ==> m@ == expr_error(*program, fn_ctx(*func), imports_view(imports@), locals@, Expr::ArrayLiteral(*elements)),
    decreases elements, 0int,
{
    proof {
        reveal_with_fuel(crate::text::concat_all, 12);
    }
    let ghost ctx = fn_ctx(*func);
    let ghost iv = imports_view(imports@);
    if elements.len() == 0 {
        return Err(owned("数组字面量不能为空\n  = 帮助: 请至少提供一个元素，例如 `【1，2，3】`。"));
    }
    let mut i: usize = 0;
    while i < elements.len()
        invariant
            i <= elements@.len(),
            ctx == fn_ctx(*func),
            iv == imports_view(imports@),
            all_int(*program, ctx, iv, locals@, *elements, i as int) == all_int(*program, ctx, iv, locals@, *elements, 0),
            elements_error(*program, ctx, iv, locals@, *elements, i as int) == elements_error(*program, ctx, iv, locals@, *elements, 0),
        decreases elements@.len() - i,
    {
        proof {
            reveal_with_fuel(crate::text::concat_all, 12);
        }
        proof {
            assert(decreases_to!(elements => elements@[i as int]));
        }
        let element_type = validate_expr(&elements[i], program, func, imports, locals)?;
        if !matches!(element_type, Type::Int) {
            let n = type_text(&element_type);
            return Err(cat(&["数组元素类型不匹配\n  = 期望: 整数\n  = 实际: ", n.as_str(), "\n  = 帮助: 当前数组先支持整数元素。"]));
        }
        i += 1;
    }
    assert(type_view(Type::Int) == SpecType::Int);
    Ok(Type::Array { element_type: Box::new(Type::Int), length: Some(elements.len()) })
}

fn contains_name(names: &Vec<String>, name: &String) -> (r: bool)
    ensures
        r == exists|k: int| 0 <= k < names@.len() && (#[trigger] names@[k])@ == name@,
{
    let mut i: usize = 0;
    while i < names.len()
        invariant
            i <= names@.len(),
            forall|k: int| 0 <= k < i ==> (#[trigger] names@[k])@ != name@,
        decreases names@.len() - i,
    {
        if same(&names[i], name) {
            return true;
        }
        i += 1;
    }
    false
}

/// Checks `构造 Name：field：value，...`: every field of the struct set once,
/// with a value of its type.
fn validate_struct_literal(
    name: &String,
    fields: &Vec<(String, Expr)>,
    program: &Program,
    func: &FunctionDef,
    imports: &Vec<ImportDecl>,
    locals: &Locals,
) -> (r: Result<Type, String>)
    ensures
        match r {
            Ok(t) => expr_type(*program, fn_ctx(*func), imports_view(imports@), locals@, Expr::StructLiteral { name: *name, fields: *fields }) == Some(t@),
            Err(_) => expr_type(*program, fn_ctx(*func), imports_view(imports@), locals@, Expr::StructLiteral { name: *name, fields: *fields }) is None,
        },
        r matches Err(m) ==> m@ == expr_error(*program, fn_ctx(*func), imports_view(imports@), locals@, Expr::StructLiteral { name: *name, fields: *fields }),
    decreases fields, 0int,
{
    proof {
        reveal_with_fuel(crate::text::concat_all, 12);
    }
    let ghost ctx = fn_ctx(*func);
    let ghost iv = imports_view(imports@);
    let si = match find_struct_index(program, name) {
        Some(si) => si,
        None => {
            return Err(cat(&["未定义的结构 `", name.as_str(), "`\n  = 帮助: 请先在顶层写 `定义结构", name.as_str(), "：...。。`。"]));
        },
    };
    let decl = &program.structs[si].fields;
    let mut seen: Vec<String> = Vec::new();
    let mut i: usize = 0;
    while i < fields.len()
        invariant
            i <= fields@.len(),
            ctx == fn_ctx(*func),
            iv == imports_view(imports@),
            si < program.structs@.len(),
            find_struct(*program, name@, 0) == Some(si as int),
            decl@ == program.structs@[si as int].fields@,
            seen@.len() == i,
            forall|k: int| 0 <= k < i ==> (#[trigger] seen@[k])@ == fields@[k].0@,
            forall|a: int, b: int| 0 <= a < b < i ==> fields@[a].0@ != fields@[b].0@,
            struct_fields_ok(*program, ctx, iv, locals@, *fields, decl@, i as int) == struct_fields_ok(*program, ctx, iv, locals@, *fields, decl@, 0),
            fields_error(*program, ctx, iv, locals@, name@, *fields, decl@, i as int) == fields_error(*program, ctx, iv, locals@, name@, *fields, decl@, 0),
        decreases fields@.len() - i,
    {
        proof {
            reveal_with_fuel(crate::text::concat_all, 12);
        }
        let (field_name, value) = &fields[i];
        if contains_name(&seen, field_name) {
            proof {
                let k = choose|k: int| 0 <= k < seen@.len() && (#[trigger] seen@[k])@ == field_name@;
                assert(fields@[k].0@ == fields@[i as int].0@);
                assert(name_before(fields@, fields@[i as int].0@, i as int));
                assert(!distinct_names(fields@));
            }
            return Err(cat(&["构造 `", name.as_str(), "` 时字段 `", field_name.as_str(), "` 重复赋值"]));
        }
        assert forall|a: int| 0 <= a < i implies fields@[a].0@ != fields@[i as int].0@ by {
            assert(seen@[a]@ == fields@[a].0@);
        }
        assert(!name_before(fields@, fields@[i as int].0@, i as int));
        let field_ty = match find_field_type(decl, field_name) {
            Some(t) => t,
            None => {
                assert(!struct_fields_ok(*program, ctx, iv, locals@, *fields, decl@, i as int));
                return Err(cat(&["结构 `", name.as_str(), "` 没有字段 `", field_name.as_str(), "`"]));
            },
        };
        proof {
            assert(decreases_to!(fields => fields@[i as int]));
            assert(decreases_to!(fields@[i as int] => fields@[i as int].1));
        }
        let value_type = match validate_expr(value, program, func, imports, locals) {
            Ok(t) => t,
            Err(e) => {
                assert(!struct_fields_ok(*program, ctx, iv, locals@, *fields, decl@, i as int));
                return Err(e);
            },
        };
        if !type_eq(&value_type, &field_ty) {
            assert(!struct_fields_ok(*program, ctx, iv, locals@, *fields, decl@, i as int));
            let f = type_text(&field_ty);
            let v = type_text(&value_type);
            return Err(cat(&["构造 `", name.as_str(), "` 的字段 `", field_name.as_str(), "` 类型不匹配\n  = 字段类型: ", f.as_str(), "\n  = 表达式类型: ", v.as_str()]));
        }
        seen.push(copy_string(field_name));
        i += 1;
    }
    assert(distinct_names(fields@));
    assert(fields_error(*program, ctx, iv, locals@, name@, *fields, decl@, 0) == missing_field_error(name@, fields@, decl@, 0));
    let mut j: usize = 0;
    while j < decl.len()
        invariant
            j <= decl@.len(),
            si < program.structs@.len(),
            find_struct(*program, name@, 0) == Some(si as int),
            decl@ == program.structs@[si as int].fields@,
            seen@.len() == fields@.len(),
            forall|k: int| 0 <= k < seen@.len() ==> (#[trigger] seen@[k])@ == fields@[k].0@,
            forall|k: int| 0 <= k < j ==> exists|a: int| 0 <= a < fields@.len() && fields@[a].0@ == (#[trigger] decl@[k]).name@,
            ctx == fn_ctx(*func),
            iv == imports_view(imports@),
            fields_error(*program, ctx, iv, locals@, name@, *fields, decl@, 0) == missing_field_error(name@, fields@, decl@, j as int),
        decreases decl@.len() - j,
    {
        proof {
            reveal_with_fuel(crate::text::concat_all, 12);
        }
        if !contains_name(&seen, &decl[j].name) {
            proof {
                assert forall|a: int| 0 <= a < fields@.len() implies fields@[a].0@ != decl@[j as int].name@ by {
                    assert(seen@[a]@ == fields@[a].0@);
                }
                assert(!covers_fields(fields@, decl@));
            }
            return Err(cat(&["构造 `", name.as_str(), "` 缺少字段 `", decl[j].name.as_str(), "`"]));
        }
        proof {
            let k = choose|k: int| 0 <= k < seen@.len() && (#[trigger] seen@[k])@ == decl@[j as int].name@;
            assert(fields@[k].0@ == decl@[j as int].name@);
        }
        j += 1;
    }
    assert(covers_fields(fields@, decl@));
    Ok(Type::Struct(copy_string(name)))
}

/// Checks `创建 Name（args）` against the object's constructor.
fn validate_object_create(
    name: &String,
    args: &Vec<Expr>,
    program: &Program,
    func: &FunctionDef,
    imports: &Vec<ImportDecl>,
    locals: &Locals,
) -> (r: Result<Type, String>)
    ensures
        match r {
            Ok(t) => expr_type(*program, fn_ctx(*func), imports_view(imports@), locals@, Expr::ObjectCreate { name: *name, args: *args }) == Some(t@),
            Err(_) => expr_type(*program, fn_ctx(*func), imports_view(imports@), locals@, Expr::ObjectCreate { name: *name, args: *args }) is None,
        },
        r matches Err(m) ==> m@ == expr_error(*program, fn_ctx(*func), imports_view(imports@), locals@, Expr::ObjectCreate { name: *name, args: *args }),
    decreases args, 1int,
{
    proof {
        reveal_with_fuel(crate::text::concat_all, 12);
    }
    let oi = match find_object_index(program, name) {
        Some(oi) => oi,
        None => {
            return Err(cat(&["未定义的对象 `", name.as_str(), "`\n  = 帮助: 请先在顶层写 `定义对象", name.as_str(), "：...。。`。"]));
        },
    };
    let empty: Vec<Param> = Vec::new();
    let params = match &program.objects[oi].constructor {
        Some(c) => &c.params,
        None => &empty,
    };
    assert(params@.skip(0) =~= params@);
    check_args("创建", name, args, params, 0, program, func, imports, locals)?;
    Ok(Type::Struct(copy_string(name)))
}

/// Checks `receiver->method（args）`: the method exists, is public or called
/// from inside the object, and the arguments match its parameters after
/// `当前`.
fn validate_method_call(
    receiver: &Expr,
    receiver_type: Type,
    method: &String,
    args: &Vec<Expr>,
    program: &Program,
    func: &FunctionDef,
    imports: &Vec<ImportDecl>,
    locals: &Locals,
) -> (r: Result<Type, String>)
    requires
        expr_type(*program, fn_ctx(*func), imports_view(imports@), locals@, *receiver) == Some(receiver_type@),
    ensures
        match r {
            Ok(t) => expr_type(*program, fn_ctx(*func), imports_view(imports@), locals@, Expr::MethodCall { receiver: Box::new(*receiver), method: *method, args: *args }) == Some(t@),
            Err(_) => expr_type(*program, fn_ctx(*func), imports_view(imports@), locals@, Expr::MethodCall { receiver: Box::new(*receiver), method: *method, args: *args }) is None,
        },
        r matches Err(m) ==> m@ == expr_error(*program, fn_ctx(*func), imports_view(imports@), locals@, Expr::MethodCall { receiver: Box::new(*receiver), method: *method, args: *args }),
    decreases args, 1int,
{
    proof {
        reveal_with_fuel(crate::text::concat_all, 12);
    }
    let object_name = match receiver_type {
        Type::Struct(object_name) => object_name,
        other => {
            let n = type_text(&other);
            return Err(cat(&["不能对 ", n.as_str(), " 类型调用对象方法\n  = 帮助: 方法调用形如 `对象变量->方法（参数）`。"]));
        },
    };
    let not_found = cat(&["对象 `", object_name.as_str(), "` 没有方法 `", method.as_str(), "`"]);
    let oi = match find_object_index(program, &object_name) {
        Some(oi) => oi,
        None => {
            return Err(not_found);
        },
    };
    let mi = match find_method_index(&program.objects[oi].methods, method) {
        Some(mi) => mi,
        None => {
            return Err(not_found);
        },
    };
    let method_def = &program.objects[oi].methods[mi];
    if matches!(method_def.access, MemberAccess::Private) && !same_opt(&current_object_name(func), &object_name) {
        return Err(cat(&["对象 `", object_name.as_str(), "` 的私有方法 `", method.as_str(), "` 不能在这里调用"]));
    }
    if method_def.function.params.len() < 1 {
        return Err(cat(&["方法 `", method.as_str(), "` 缺少接收者参数"]));
    }
    check_args("方法", method, args, &method_def.function.params, 1, program, func, imports, locals)?;
    Ok(copy_type(&method_def.function.return_type))
}

/// The type of a formatted-string placeholder (see `placeholder_type`).
fn validate_format_placeholder(
    name: &String,
    program: &Program,
    func: &FunctionDef,
    locals: &Locals,
) -> (r: Result<Type, String>)
    ensures
        match r {
            Ok(t) => placeholder_type(*program, fn_ctx(*func), locals@, name@) == Some(t@),
            Err(_) => placeholder_type(*program, fn_ctx(*func), locals@, name@) is None,
        },
        r matches Err(m) ==> m@ == placeholder_error(*program, fn_ctx(*func), locals@, name@),
{
    proof {
        reveal_with_fuel(crate::text::concat_all, 12);
    }
    let chars = str_chars(name.as_str());
    let a = find_arrow_exec(&chars);
    if a < chars.len() {
        let (b0, b1) = trimmed_bounds(&chars, 0, a);
        let (f0, f1) = trimmed_bounds(&chars, a + 2, chars.len());
        let base = chars_to_string(&chars, b0, b1);
        let field = chars_to_string(&chars, f0, f1);
        let base_type = match locals.get(&base) {
            Some(info) => copy_type(&info.ty),
            None => {
                return Err(cat(&["未定义的变量 `", base.as_str(), "`\n  = 帮助: 请确认名字拼写一致，并且声明出现在使用之前。"]));
            },
        };
        return field_access(program, func, base_type, &field);
    }
    match locals.get(name) {
        Some(info) => Ok(copy_type(&info.ty)),
        None => Err(cat(&["未定义的格式化变量 `", name.as_str(), "`\n  = 帮助: 格式化字符串 `{...}` 中只能引用当前作用域内已声明的变量。"])),
    }
}

pub(crate) fn find_arrow_exec(s: &Vec<char>) -> (r: usize)
    ensures
        r as int == find_arrow(s@, 0),
        r == s@.len() || r + 2 <= s@.len(),
{
    let mut i: usize = 0;
    while i < s.len() && i + 1 < s.len() && !(s[i] == '-' && s[i + 1] == '>')
        invariant
            find_arrow(s@, i as int) == find_arrow(s@, 0),
            i <= s@.len(),
        decreases s@.len() - i,
    {
        i += 1;
    }
    if i < s.len() && i + 1 < s.len() {
        i
    } else {
        s.len()
    }
}

fn validate_placeholders(
    parts: &Vec<FormatPart>,
    program: &Program,
    func: &FunctionDef,
    locals: &Locals,
) -> (r: Result<(), String>)
    ensures
        r is Ok <==> placeholders_ok(*program, fn_ctx(*func), locals@, parts@),
        r matches Err(m) ==> m@ == placeholders_error(*program, fn_ctx(*func), locals@, parts@, 0),
{
    let mut i: usize = 0;
    while i < parts.len()
        invariant
            i <= parts@.len(),
            forall|k: int| 0 <= k < i ==> match #[trigger] parts@[k] {
                FormatPart::Placeholder(n) => placeholder_type(*program, fn_ctx(*func), locals@, n@) is Some,
                FormatPart::Text(_) => true,
            },
            placeholders_error(*program, fn_ctx(*func), locals@, parts@, i as int) == placeholders_error(*program, fn_ctx(*func), locals@, parts@, 0),
        decreases parts@.len() - i,
    {
        if let FormatPart::Placeholder(name) = &parts[i] {
            validate_format_placeholder(name, program, func, locals)?;
        }
        i += 1;
    }
    Ok(())
}

/// The type of an expression in a scope (see `expr_type`).
#[verifier::rlimit(60)]
fn validate_expr(
    expr: &Expr,
    program: &Program,
    func: &FunctionDef,
    imports: &Vec<ImportDecl>,
    locals: &Locals,
) -> (r: Result<Type, String>)
    ensures
        match r {
            Ok(t) => expr_type(*program, fn_ctx(*func), imports_view(imports@), locals@, *expr) == Some(t@),
            Err(_) => expr_type(*program, fn_ctx(*func), imports_view(imports@), locals@, *expr) is None,
        },
        r matches Err(m) ==> m@ == expr_error(*program, fn_ctx(*func), imports_view(imports@), locals@, *expr),
    decreases expr, 2int,
{
    proof {
        reveal_with_fuel(crate::text::concat_all, 12);
    }
    match expr {
        Expr::IntLiteral(_) => Ok(Type::Int),
        Expr::DoubleLiteral(_) => Ok(Type::Double),
        Expr::StringLiteral(_) => Ok(Type::String),
        Expr::Ident(name) => match locals.get(name) {
            Some(info) => Ok(copy_type(&info.ty)),
            None => Err(cat(&["未定义的变量 `", name.as_str(), "`\n  = 帮助: 请确认名字拼写一致，并且声明出现在使用之前。"])),
        },
        Expr::FormattedString(parts) => {
            validate_placeholders(parts, program, func, locals)?;
            Ok(Type::String)
        },
        Expr::Call { target, type_arg, args } => {
            let resolved = match resolve_execute_target(program, func, imports.as_slice(), target.as_str()) {
                Some(resolved) => resolved,
                None => {
                    return Err(cat(&["未找到模块或方法 `", target.as_str(), "`\n  = 帮助: 如果这是外部模块中的方法，请先写 `引用 模块：路径`，或使用引用别名。"]));
                },
            };
            let k = match find_function_index(program, &resolved) {
                Some(k) => k,
                None => {
                    return Err(cat(&["未找到方法: ", resolved.as_str()]));
                },
            };
            let called = &program.functions[k];
            if matches!(called.return_type, Type::Void) {
                return Err(cat(&["方法 `", target.as_str(), "` 没有返回值\n  = 实际返回类型: 无\n  = 帮助: `无` 返回值的方法只能用 `执行` 调用，不能放在表达式里。"]));
            }
            if let Some(t) = type_arg {
                if !type_eq(t, &called.return_type) {
                    let a = type_text(t);
                    let b = type_text(&called.return_type);
                    return Err(cat(&["方法 `", target.as_str(), "` 的泛型类型不匹配\n  = `->` 指定: ", a.as_str(), "\n  = 实际返回: ", b.as_str()]));
                }
            }
            assert(called.params@.skip(0) =~= called.params@);
            check_args("方法", target, args, &called.params, 0, program, func, imports, locals)?;
            Ok(copy_type(&called.return_type))
        },
        Expr::ArrayLiteral(elements) => validate_array_literal(elements, program, func, imports, locals),
        Expr::StructLiteral { name, fields } => validate_struct_literal(name, fields, program, func, imports, locals),
        Expr::ObjectCreate { name, args } => validate_object_create(name, args, program, func, imports, locals),
        Expr::Index { array, index } => {
            if !matches!(**array, Expr::Ident(_)) {
                return Err(owned("当前只支持通过变量名访问数组\n  = 帮助: 请写成 `arr[n]`。"));
            }
            let array_type = validate_expr(array, program, func, imports, locals)?;
            let index_type = validate_expr(index, program, func, imports, locals)?;
            if !matches!(index_type, Type::Int) {
                let n = type_text(&index_type);
                return Err(cat(&["数组下标类型不匹配\n  = 期望: 整数\n  = 实际: ", n.as_str()]));
            }
            match array_type {
                Type::Array { element_type, length } => {
                    if let (Some(length), Expr::IntLiteral(index_value)) = (length, &**index) {
                        if *index_value < 0 || *index_value as u64 >= length as u64 {
                            let l = usize_to_string(length);
                            let mut v = String::new();
                            push_signed_dec(&mut v, *index_value);
                            return Err(cat(&["数组下标越界\n  = 数组长度: ", l.as_str(), "\n  = 下标: ", v.as_str(), "\n  = 帮助: 数组下标从 0 开始。"]));
                        }
                    }
                    Ok(*element_type)
                },
                other => {
                    let n = type_text(&other);
                    Err(cat(&["不能对 ", n.as_str(), " 类型使用数组访问\n  = 帮助: 数组访问形如 `arr[n]`，左侧必须是数组。"]))
                },
            }
        },
        Expr::FieldAccess { base, field } => {
            let base_type = validate_expr(base, program, func, imports, locals)?;
            field_access(program, func, base_type, field)
        },
        Expr::MethodCall { receiver, method, args } => {
            let receiver_type = validate_expr(receiver, program, func, imports, locals)?;
            validate_method_call(receiver, receiver_type, method, args, program, func, imports, locals)
        },
        Expr::Unary { op, expr: inner } => {
            let ty = validate_expr(inner, program, func, imports, locals)?;
            match (op, &ty) {
                (UnaryOp::Neg, Type::Int) => Ok(Type::Int),
                (UnaryOp::Neg, Type::Double) => Ok(Type::Double),
                (UnaryOp::Not, Type::Int) | (UnaryOp::Not, Type::Bool) => Ok(Type::Bool),
                (UnaryOp::Neg, _) => {
                    let n = type_text(&ty);
                    Err(cat(&["一元 `-` 不支持 ", n.as_str(), " 类型"]))
                },
                (UnaryOp::Not, _) => {
                    let n = type_text(&ty);
                    Err(cat(&["一元 `!` 不支持 ", n.as_str(), " 类型"]))
                },
            }
        },
        Expr::Binary { left, op, right } => {
            let left_ty = validate_expr(left, program, func, imports, locals)?;
            let right_ty = validate_expr(right, program, func, imports, locals)?;
            match binary_result(op, &left_ty, &right_ty) {
                Some(t) => Ok(t),
                None => {
                    let kind = match op {
                        BinaryOp::Add | BinaryOp::Sub | BinaryOp::Mul | BinaryOp::Div | BinaryOp::Rem => "算术运算符 `",
                        BinaryOp::Eq | BinaryOp::NotEq => "相等运算符 `",
                        BinaryOp::Less | BinaryOp::LessEq | BinaryOp::Greater | BinaryOp::GreaterEq => "比较运算符 `",
                        BinaryOp::And | BinaryOp::Or => "逻辑运算符 `",
                    };
                    let rule = match op {
                        BinaryOp::Add | BinaryOp::Sub | BinaryOp::Mul | BinaryOp::Div | BinaryOp::Rem => "` 需要同类型数字操作数\n  = 左侧: ",
                        BinaryOp::Eq | BinaryOp::NotEq => "` 两侧类型必须相同\n  = 左侧: ",
                        BinaryOp::Less | BinaryOp::LessEq | BinaryOp::Greater | BinaryOp::GreaterEq => "` 需要同类型数字操作数\n  = 左侧: ",
                        BinaryOp::And | BinaryOp::Or => "` 需要整数或布尔操作数\n  = 左侧: ",
                    };
                    let l = type_text(&left_ty);
                    let r = type_text(&right_ty);
                    Err(cat(&[kind, binary_op_name(op), rule, l.as_str(), "\n  = 右侧: ", r.as_str()]))
                },
            }
        },
    }
}

/// The result type of a binary operation (see `binary_type`).
fn binary_result(op: &BinaryOp, l: &Type, r: &Type) -> (res: Option<Type>)
    ensures
        match res {
            Some(t) => binary_type(*op, l@, r@) == Some(t@),
            None => binary_type(*op, l@, r@) is None,
        },
{
    let l_int = matches!(l, Type::Int);
    let r_int = matches!(r, Type::Int);
    let l_double = matches!(l, Type::Double);
    let r_double = matches!(r, Type::Double);
    let l_logic = matches!(l, Type::Int | Type::Bool);
    let r_logic = matches!(r, Type::Int | Type::Bool);
    match op {
        BinaryOp::Add | BinaryOp::Sub | BinaryOp::Mul | BinaryOp::Div | BinaryOp::Rem => {
            if l_int && r_int {
                Some(Type::Int)
            } else if l_double && r_double {
                Some(Type::Double)
            } else {
                None
            }
        },
        BinaryOp::Eq | BinaryOp::NotEq => if type_eq(l, r) {
            Some(Type::Bool)
        } else {
            None
        },
        BinaryOp::Less | BinaryOp::LessEq | BinaryOp::Greater | BinaryOp::GreaterEq => {
            if (l_int && r_int) || (l_double && r_double) {
                Some(Type::Bool)
            } else {
                None
            }
        },
        BinaryOp::And | BinaryOp::Or => if l_logic && r_logic {
            Some(Type::Bool)
        } else {
            None
        },
    }
}
// ---------------------------------------------------------------------------
// The diagnostics of rejected statements.
// ---------------------------------------------------------------------------

/// What a reassignment of an immutable binding reports: the rendered
/// diagnostic where the source and the declaration are known, else the
/// plain message.
pub open spec fn immutable_message(sc: SourceContext, name: Seq<char>, declaration_span: Option<Span>, span: Span, plain: Seq<char>) -> Seq<char> {
    match (sc.source, declaration_span) {
        (Some(source), Some(d)) => immutable_text(
            match sc.source_name {
                Some(n) => Some(n@),
                None => None,
            },
            source@,
            name,
            d,
            span,
        ),
        _ => plain,
    }
}

/// The message for a type that a position requires to be an integer.
pub open spec fn expect_int_message(prefix: Seq<char>, t: SpecType) -> Seq<char> {
    prefix + type_text_spec(t)
}

/// The message for a rejected condition.
pub open spec fn condition_error(p: Program, ctx: FnCtx, imports: Seq<ImportView>, locals: Map<Seq<char>, LocalView>, e: Expr) -> Seq<char> {
    match expr_type(p, ctx, imports, locals, e) {
        None => expr_error(p, ctx, imports, locals, e),
        Some(t) => "条件表达式类型不匹配\n  = 期望: 整数 或 布尔\n  = 实际: "@ + type_text_spec(t),
    }
}

/// The message for a rejected variable declaration.
pub open spec fn var_decl_error(p: Program, ctx: FnCtx, imports: Seq<ImportView>, locals: Map<Seq<char>, LocalView>, v: VarDecl) -> Seq<char> {
    let n = v.name@;
    match (v.var_type, v.init) {
        (Some(t), Some(init)) => match expr_type(p, ctx, imports, locals, init) {
            None => expr_error(p, ctx, imports, locals, init),
            Some(it) => "变量初始化类型不匹配: `"@ + n + "`\n  = 声明类型: "@ + type_text_spec(t@) + "\n  = 表达式类型: "@ + type_text_spec(it)
                + "\n  = 帮助: 请让初始化表达式返回相同类型，或调整变量的声明类型。"@,
        },
        (Some(_), None) => "数组预定义 `"@ + n + "` 缺少长度\n  = 帮助: 请写成 `定义 变量：数组 "@ + n + "[10]`，或使用数组字面量初始化。"@,
        (None, Some(init)) => expr_error(p, ctx, imports, locals, init),
        (None, None) => "预定义变量 `"@ + n + "` 缺少类型\n  = 帮助: 预定义变量需要写出类型，例如 `定义 变量：整数"@ + n + "`。"@,
    }
}

/// The message for the reassignment of an immutable variable, without the
/// source.
pub open spec fn immutable_plain_message(n: Seq<char>) -> Seq<char> {
    "不可变变量不能重新赋值: `"@ + n + "`\n  = 原因: `定义 变量` 默认不可变\n  = 帮助: 如果需要重新赋值，请声明为 `定义 可变 变量："@ + n + " = ...`，或使用 `设 "@ + n
        + "`。"@
}

/// The message for a rejected assignment.
pub open spec fn assign_error(p: Program, ctx: FnCtx, imports: Seq<ImportView>, locals: Map<Seq<char>, LocalView>, sc: SourceContext, a: AssignStmt) -> Seq<char> {
    let n = a.name@;
    if !locals.contains_key(n) {
        "未定义的变量 `"@ + n + "`\n  = 帮助: 请确认变量已在当前方法、判断分支或循环作用域中声明。"@
    } else if !locals[n].1 {
        immutable_message(sc, n, locals[n].2, a.span, immutable_plain_message(n))
    } else {
        match expr_type(p, ctx, imports, locals, a.value) {
            None => expr_error(p, ctx, imports, locals, a.value),
            Some(vt) => "赋值类型不匹配: `"@ + n + "`\n  = 变量类型: "@ + type_text_spec(locals[n].0) + "\n  = 表达式类型: "@ + type_text_spec(vt)
                + "\n  = 帮助: 请让右侧表达式返回相同类型，或调整变量的声明类型。"@,
        }
    }
}

/// The message for a rejected array element assignment.
pub open spec fn array_assign_error(p: Program, ctx: FnCtx, imports: Seq<ImportView>, locals: Map<Seq<char>, LocalView>, sc: SourceContext, a: ArrayAssignStmt) -> Seq<char> {
    let n = a.name@;
    if !locals.contains_key(n) {
        "未定义的变量 `"@ + n + "`\n  = 帮助: 请确认数组已在当前作用域中声明。"@
    } else if !locals[n].1 {
        immutable_message(sc, n, locals[n].2, a.span, "不可变数组不能修改元素: `"@ + n + "`"@)
    } else {
        match locals[n].0 {
            SpecType::Array { element_type, length } => match expr_type(p, ctx, imports, locals, a.index) {
                None => expr_error(p, ctx, imports, locals, a.index),
                Some(it) => if !(it is Int) {
                    index_type_message(it)
                } else if literal_out_of_bounds(length, a.index) {
                    match (length, a.index) {
                        (Some(l), Expr::IntLiteral(v)) => out_of_bounds_message(l, v),
                        _ => Seq::empty(),
                    }
                } else {
                    match expr_type(p, ctx, imports, locals, a.value) {
                        None => expr_error(p, ctx, imports, locals, a.value),
                        Some(vt) => "数组元素赋值类型不匹配: `"@ + n + "`\n  = 元素类型: "@ + type_text_spec(*element_type) + "\n  = 表达式类型: "@
                            + type_text_spec(vt),
                    }
                },
            },
            other => "不能对 "@ + type_text_spec(other) + " 类型设置数组元素\n  = 帮助: 元素设置形如 `设arr[1]=10`，目标必须是数组。"@,
        }
    }
}

/// The message for a rejected field assignment.
pub open spec fn field_assign_error(p: Program, ctx: FnCtx, imports: Seq<ImportView>, locals: Map<Seq<char>, LocalView>, a: FieldAssignStmt) -> Seq<char> {
    match expr_type(p, ctx, imports, locals, a.base) {
        None => expr_error(p, ctx, imports, locals, a.base),
        Some(SpecType::Struct(n)) => if !field_access_allowed(p, ctx, n) || field_type(p, n, a.field@) is None {
            field_access_error(p, ctx, SpecType::Struct(n), a.field@)
        } else {
            match expr_type(p, ctx, imports, locals, a.value) {
                None => expr_error(p, ctx, imports, locals, a.value),
                Some(vt) => "字段 `"@ + a.field@ + "` 赋值类型不匹配\n  = 字段类型: "@ + type_text_spec(field_type(p, n, a.field@)->0)
                    + "\n  = 表达式类型: "@ + type_text_spec(vt),
            }
        },
        Some(bt) => "不能对 "@ + type_text_spec(bt) + " 类型设置字段\n  = 帮助: 字段赋值形如 `令当前->x = 1`。"@,
    }
}

/// The message for a rejected return statement.
pub open spec fn return_error(p: Program, ctx: FnCtx, imports: Seq<ImportView>, locals: Map<Seq<char>, LocalView>, r: ReturnStmt) -> Seq<char> {
    match r.value {
        None => "返回语句缺少返回值\n  = 期望返回类型: "@ + type_text_spec(ctx.ret) + "\n  = 帮助: 写成 `返回 <表达式>`，或把方法返回类型改为 `无`。"@,
        Some(e) => if ctx.ret is Void {
            "无返回值方法不能返回表达式\n  = 期望: 只写 `返回` 或省略返回语句\n  = 帮助: 如果确实需要返回值，请修改方法签名中的 `返回 无`。"@
        } else {
            match expr_type(p, ctx, imports, locals, e) {
                None => expr_error(p, ctx, imports, locals, e),
                Some(at) => "返回类型不匹配\n  = 期望: "@ + type_text_spec(ctx.ret) + "\n  = 实际: "@ + type_text_spec(at)
                    + "\n  = 帮助: 返回表达式的类型必须和方法签名里的返回类型一致。"@,
            }
        },
    }
}

/// The message for the first ill-typed argument from `i` on.
pub open spec fn all_typed_error(p: Program, ctx: FnCtx, imports: Seq<ImportView>, locals: Map<Seq<char>, LocalView>, args: Vec<Expr>, i: int) -> Seq<char>
    decreases args@.len() - i,
{
    if i < 0 || i >= args@.len() {
        Seq::empty()
    } else if expr_type(p, ctx, imports, locals, args@[i]) is None {
        expr_error(p, ctx, imports, locals, args@[i])
    } else {
        all_typed_error(p, ctx, imports, locals, args, i + 1)
    }
}

/// The message that checking a rejected statement gives: the first failing
/// check, in the order in which the checker makes them.
pub open spec fn stmt_error(p: Program, ctx: FnCtx, imports: Seq<ImportView>, locals: Map<Seq<char>, LocalView>, sc: SourceContext, s: Stmt) -> Seq<char>
    decreases s, 1int,
{
    match s {
        Stmt::Import(i) => missing_import_message(i.path@),
        Stmt::Execute(x) => if resolve_target(p, ctx, imports, x.target@) is None {
            "未找到模块或方法: "@ + x.target@
        } else {
            all_typed_error(p, ctx, imports, locals, x.args, 0)
        },
        Stmt::VarDecl(v) => var_decl_error(p, ctx, imports, locals, v),
        Stmt::Assign(a) => assign_error(p, ctx, imports, locals, sc, a),
        Stmt::ArrayAssign(a) => array_assign_error(p, ctx, imports, locals, sc, a),
        Stmt::FieldAssign(a) => field_assign_error(p, ctx, imports, locals, a),
        Stmt::Return(r) => return_error(p, ctx, imports, locals, r),
        Stmt::If(i) => if !branches_ok(p, ctx, imports, locals, i.branches, 0) {
            branches_error(p, ctx, imports, locals, sc, i.branches, 0)
        } else {
            match i.else_body {
                Some(body) => block_error(p, ctx, imports, locals, sc, body),
                None => Seq::empty(),
            }
        },
        Stmt::Select(c) => if !locals.contains_key(c.target@) {
            "未定义的变量 `"@ + c.target@ + "`\n  = 帮助: `当前` 后面只能接当前作用域内已声明的变量。"@
        } else if !cases_ok(p, ctx, imports, locals, locals[c.target@].0, c.cases, 0) {
            cases_error(p, ctx, imports, locals, sc, c.target@, locals[c.target@].0, c.cases, 0)
        } else {
            match c.default_body {
                Some(body) => block_error(p, ctx, imports, locals, sc, body),
                None => Seq::empty(),
            }
        },
        Stmt::Loop(l) => match l {
            LoopStmt::Count { var_name, end, body } => match expr_type(p, ctx, imports, locals, end) {
                None => expr_error(p, ctx, imports, locals, end),
                Some(t) => if !(t is Int) {
                    expect_int_message("计数循环上限类型不匹配\n  = 期望: 整数\n  = 实际: "@, t)
                } else {
                    block_error(p, ctx, imports, locals.insert(var_name@, (SpecType::Int, false, None)), sc, body)
                },
            },
            LoopStmt::Iterate { var_name, start, end, body } => match expr_type(p, ctx, imports, locals, start) {
                None => expr_error(p, ctx, imports, locals, start),
                Some(t) => if !(t is Int) {
                    expect_int_message("迭代循环起始值类型不匹配\n  = 期望: 整数\n  = 实际: "@, t)
                } else {
                    match expr_type(p, ctx, imports, locals, end) {
                        None => expr_error(p, ctx, imports, locals, end),
                        Some(t2) => if !(t2 is Int) {
                            expect_int_message("迭代循环结束值类型不匹配\n  = 期望: 整数\n  = 实际: "@, t2)
                        } else {
                            block_error(p, ctx, imports, locals.insert(var_name@, (SpecType::Int, false, None)), sc, body)
                        },
                    }
                },
            },
            LoopStmt::Condition { condition, body } => if !condition_ok(p, ctx, imports, locals, condition) {
                condition_error(p, ctx, imports, locals, condition)
            } else {
                block_error(p, ctx, imports, locals, sc, body)
            },
        },
    }
}

/// The message for the first rejected statement from `i` on, each checked
/// in the scope the ones before it leave.
pub open spec fn stmts_error(p: Program, ctx: FnCtx, imports: Seq<ImportView>, locals: Map<Seq<char>, LocalView>, sc: SourceContext, body: Vec<Stmt>, i: int) -> Seq<char>
    decreases body, body@.len() - i,
{
    if i < 0 || i >= body@.len() {
        Seq::empty()
    } else {
        match stmt_scope(p, ctx, imports, locals, body@[i]) {
            None => stmt_error(p, ctx, imports, locals, sc, body@[i]),
            Some((imports2, locals2)) => stmts_error(p, ctx, imports2, locals2, sc, body, i + 1),
        }
    }
}

/// The message for a rejected block.
pub open spec fn block_error(p: Program, ctx: FnCtx, imports: Seq<ImportView>, locals: Map<Seq<char>, LocalView>, sc: SourceContext, body: Vec<Stmt>) -> Seq<char>
    decreases body, body@.len() + 1,
{
    stmts_error(p, ctx, imports, locals, sc, body, 0)
}

/// The message for the first rejected `判断` branch from `i` on.
pub open spec fn branches_error(p: Program, ctx: FnCtx, imports: Seq<ImportView>, locals: Map<Seq<char>, LocalView>, sc: SourceContext, branches: Vec<IfBranch>, i: int) -> Seq<char>
    decreases branches, branches@.len() - i,
{
    if i < 0 || i >= branches@.len() {
        Seq::empty()
    } else if !condition_ok(p, ctx, imports, locals, branches@[i].condition) {
        condition_error(p, ctx, imports, locals, branches@[i].condition)
    } else if !block_ok(p, ctx, imports, locals, branches@[i].body) {
        block_error(p, ctx, imports, locals, sc, branches@[i].body)
    } else {
        branches_error(p, ctx, imports, locals, sc, branches, i + 1)
    }
}

/// The message for the first rejected `取` case from `i` on: an ill-typed
/// value, a value of another type than the selected variable, or a rejected
/// body.
pub open spec fn cases_error(
    p: Program,
    ctx: FnCtx,
    imports: Seq<ImportView>,
    locals: Map<Seq<char>, LocalView>,
    sc: SourceContext,
    target_name: Seq<char>,
    target: SpecType,
    cases: Vec<SelectCase>,
    i: int,
) -> Seq<char>
    decreases cases, cases@.len() - i,
{
    if i < 0 || i >= cases@.len() {
        Seq::empty()
    } else {
        match expr_type(p, ctx, imports, locals, cases@[i].value) {
            None => expr_error(p, ctx, imports, locals, cases@[i].value),
            Some(vt) => if vt != target {
                "选择分支类型不匹配\n  = 当前变量 `"@ + target_name + "`: "@ + type_text_spec(target) + "\n  = 取值: "@ + type_text_spec(vt)
            } else if !block_ok(p, ctx, imports, locals, cases@[i].body) {
                block_error(p, ctx, imports, locals, sc, cases@[i].body)
            } else {
                cases_error(p, ctx, imports, locals, sc, target_name, target, cases, i + 1)
            },
        }
    }
}

// ---------------------------------------------------------------------------
// Statements.
// ---------------------------------------------------------------------------

/// Where diagnostics quote the source from, when it is known.
#[derive(Clone, Copy)]
pub struct SourceContext<'a> {
    pub source: Option<&'a str>,
    pub source_name: Option<&'a str>,
}

fn copy_import(i: &ImportDecl) -> (r: ImportDecl)
    ensures
        import_view(r) == import_view(*i),
{
    ImportDecl {
        path: copy_string(&i.path),
        alias: match &i.alias {
            Some(a) => Some(copy_string(a)),
            None => None,
        },
    }
}

fn copy_imports(v: &Vec<ImportDecl>) -> (r: Vec<ImportDecl>)
    ensures
        imports_view(r@) == imports_view(v@),
{
    let mut r: Vec<ImportDecl> = Vec::new();
    let mut i: usize = 0;
    while i < v.len()
        invariant
            i <= v@.len(),
            imports_view(r@) == imports_view(v@.take(i as int)),
        decreases v@.len() - i,
    {
        let ghost before = r@;
        r.push(copy_import(&v[i]));
        assert(imports_view(r@) =~= imports_view(before).push(import_view(v@[i as int])));
        assert(v@.take(i + 1) =~= v@.take(i as int).push(v@[i as int]));
        assert(imports_view(v@.take(i + 1)) =~= imports_view(v@.take(i as int)).push(import_view(v@[i as int])));
        i += 1;
    }
    assert(v@.take(v@.len() as int) =~= v@);
    r
}

/// Checks that an import names a module or a function.
fn validate_import(import: &ImportDecl, registry: &ModuleRegistry) -> (r: Result<(), String>)
    requires
        exists|p: Program| registry.models(p),
    ensures
        forall|p: Program| registry.models(p) ==> (r is Ok <==> import_target_exists(p, import.path@)),
        r matches Err(m) ==> m@ == missing_import_message(import.path@),
{
    if registry.import_exists(&import.path) {
        Ok(())
    } else {
        Err(
            concat3(
                "未找到模块或方法 `",
                import.path.as_str(),
                "`\n  = 帮助: 请确认 `#模块` 路径、方法名以及 `引用 模块：...` 中的路径完全一致。",
            ),
        )
    }
}

/// The error for an import that names neither a module nor a function.
pub open spec fn missing_import_message(path: Seq<char>) -> Seq<char> {
    "未找到模块或方法 `"@ + path + "`\n  = 帮助: 请确认 `#模块` 路径、方法名以及 `引用 模块：...` 中的路径完全一致。"@
}

/// The first import from `i` on that names neither a module nor a function.
pub open spec fn first_missing_import(p: Program, i: int) -> Option<int>
    decreases p.imports@.len() - i,
{
    if i < 0 || i >= p.imports@.len() {
        None
    } else if !import_target_exists(p, p.imports@[i].path@) {
        Some(i)
    } else {
        first_missing_import(p, i + 1)
    }
}

/// The type a declaration names, resolved against the initializer's type
/// (see `resolve_declared_type_spec`).
pub fn resolve_declared_type(declared: &Type, inferred: &Type) -> (r: Option<Type>)
    ensures
        match r {
            Some(t) => resolve_declared_type_spec(declared@, inferred@) == Some(t@),
            None => resolve_declared_type_spec(declared@, inferred@) is None,
        },
{
    match (declared, inferred) {
        (Type::Array { element_type: de, length: None }, Type::Array { element_type: ie, length: Some(l) }) => {
            if type_eq(de, ie) {
                Some(Type::Array { element_type: Box::new(copy_type(de)), length: Some(*l) })
            } else {
                None
            }
        },
        _ => if type_eq(declared, inferred) {
            Some(copy_type(declared))
        } else {
            None
        },
    }
}

/// An integer array whose length is not given.
pub fn is_unsized_array(ty: &Type) -> (r: bool)
    ensures
        r == is_unsized_array_spec(ty@),
{
    matches!(ty, Type::Array { length: None, .. })
}

fn validate_var_decl(
    var: &VarDecl,
    program: &Program,
    func: &FunctionDef,
    imports: &Vec<ImportDecl>,
    locals: &mut Locals,
) -> (r: Result<(), String>)
    ensures
        match var_decl_type(*program, fn_ctx(*func), imports_view(imports@), old(locals)@, *var) {
            Some(t) => r is Ok && final(locals)@ == old(locals)@.insert(var.name@, (t, var.is_mutable, Some(var.name_span))),
            None => r is Err,
        },
        r is Err ==> final(locals)@ == old(locals)@,
        r matches Err(m) ==> m@ == var_decl_error(*program, fn_ctx(*func), imports_view(imports@), old(locals)@, *var),
{
    proof {
        reveal_with_fuel(crate::text::concat_all, 12);
    }
    let var_type = match (&var.var_type, &var.init) {
        (Some(var_type), Some(init)) => {
            let inferred = validate_expr(init, program, func, imports, locals)?;
            match resolve_declared_type(var_type, &inferred) {
                Some(t) => t,
                None => {
                    let a = type_text(var_type);
                    let b = type_text(&inferred);
                    return Err(cat(&["变量初始化类型不匹配: `", var.name.as_str(), "`\n  = 声明类型: ", a.as_str(), "\n  = 表达式类型: ", b.as_str(), "\n  = 帮助: 请让初始化表达式返回相同类型，或调整变量的声明类型。"]));
                },
            }
        },
        (Some(var_type), None) => {
            if is_unsized_array(var_type) {
                return Err(cat(&["数组预定义 `", var.name.as_str(), "` 缺少长度\n  = 帮助: 请写成 `定义 变量：数组 ", var.name.as_str(), "[10]`，或使用数组字面量初始化。"]));
            }
            copy_type(var_type)
        },
        (None, Some(init)) => validate_expr(init, program, func, imports, locals)?,
        (None, None) => {
            return Err(cat(&["预定义变量 `", var.name.as_str(), "` 缺少类型\n  = 帮助: 预定义变量需要写出类型，例如 `定义 变量：整数", var.name.as_str(), "`。"]));
        },
    };
    locals.insert(
        copy_string(&var.name),
        LocalInfo { ty: var_type, is_mutable: var.is_mutable, declaration_span: Some(var.name_span) },
    );
    Ok(())
}

fn immutable_error(source_context: SourceContext, name: &String, declaration_span: Option<Span>, span: Span, plain: String) -> (r: String)
    ensures
        r@ == immutable_message(source_context, name@, declaration_span, span, plain@),
{
    match (source_context.source, declaration_span) {
        (Some(source), Some(declaration_span)) => render_immutable_assignment(
            source_context.source_name,
            source,
            name.as_str(),
            declaration_span,
            span,
        ),
        _ => plain,
    }
}

fn validate_assign_stmt(
    assign: &AssignStmt,
    program: &Program,
    func: &FunctionDef,
    imports: &Vec<ImportDecl>,
    locals: &Locals,
    source_context: SourceContext,
) -> (r: Result<(), String>)
    ensures
        r is Ok <==> stmt_scope(*program, fn_ctx(*func), imports_view(imports@), locals@, Stmt::Assign(*assign)) is Some,
        r matches Err(m) ==> m@ == assign_error(*program, fn_ctx(*func), imports_view(imports@), locals@, source_context, *assign),
{
    proof {
        reveal_with_fuel(crate::text::concat_all, 12);
    }
    let target = match locals.get(&assign.name) {
        Some(target) => target,
        None => {
            return Err(cat(&["未定义的变量 `", assign.name.as_str(), "`\n  = 帮助: 请确认变量已在当前方法、判断分支或循环作用域中声明。"]));
        },
    };
    if !target.is_mutable {
        let n = assign.name.as_str();
        let plain = cat(&["不可变变量不能重新赋值: `", n, "`\n  = 原因: `定义 变量` 默认不可变\n  = 帮助: 如果需要重新赋值，请声明为 `定义 可变 变量：", n, " = ...`，或使用 `设 ", n, "`。"]);
        return Err(immutable_error(source_context, &assign.name, target.declaration_span, assign.span, plain));
    }
    let value_type = validate_expr(&assign.value, program, func, imports, locals)?;
    if type_eq(&value_type, &target.ty) {
        Ok(())
    } else {
        let a = type_text(&target.ty);
        let b = type_text(&value_type);
        Err(cat(&["赋值类型不匹配: `", assign.name.as_str(), "`\n  = 变量类型: ", a.as_str(), "\n  = 表达式类型: ", b.as_str(), "\n  = 帮助: 请让右侧表达式返回相同类型，或调整变量的声明类型。"]))
    }
}

fn validate_array_assign_stmt(
    assign: &ArrayAssignStmt,
    program: &Program,
    func: &FunctionDef,
    imports: &Vec<ImportDecl>,
    locals: &Locals,
    source_context: SourceContext,
) -> (r: Result<(), String>)
    ensures
        r is Ok <==> stmt_scope(*program, fn_ctx(*func), imports_view(imports@), locals@, Stmt::ArrayAssign(*assign)) is Some,
        r matches Err(m) ==> m@ == array_assign_error(*program, fn_ctx(*func), imports_view(imports@), locals@, source_context, *assign),
{
    proof {
        reveal_with_fuel(crate::text::concat_all, 12);
    }
    let target = match locals.get(&assign.name) {
        Some(target) => target,
        None => {
            return Err(cat(&["未定义的变量 `", assign.name.as_str(), "`\n  = 帮助: 请确认数组已在当前作用域中声明。"]));
        },
    };
    if !target.is_mutable {
        let plain = cat(&["不可变数组不能修改元素: `", assign.name.as_str(), "`"]);
        return Err(immutable_error(source_context, &assign.name, target.declaration_span, assign.span, plain));
    }
    let (element_type, length) = match &target.ty {
        Type::Array { element_type, length } => (element_type, length),
        other => {
            let n = type_text(other);
            return Err(cat(&["不能对 ", n.as_str(), " 类型设置数组元素\n  = 帮助: 元素设置形如 `设arr[1]=10`，目标必须是数组。"]));
        },
    };
    let index_type = validate_expr(&assign.index, program, func, imports, locals)?;
    if !matches!(index_type, Type::Int) {
        let n = type_text(&index_type);
        return Err(cat(&["数组下标类型不匹配\n  = 期望: 整数\n  = 实际: ", n.as_str()]));
    }
    if let (Some(length), Expr::IntLiteral(index_value)) = (length, &assign.index) {
        if *index_value < 0 || *index_value as u64 >= *length as u64 {
            let l = usize_to_string(*length);
            let mut v = String::new();
            push_signed_dec(&mut v, *index_value);
            return Err(cat(&["数组下标越界\n  = 数组长度: ", l.as_str(), "\n  = 下标: ", v.as_str(), "\n  = 帮助: 数组下标从 0 开始。"]));
        }
    }
    let value_type = validate_expr(&assign.value, program, func, imports, locals)?;
    if type_eq(&value_type, element_type) {
        Ok(())
    } else {
        let a = type_text(element_type);
        let b = type_text(&value_type);
        Err(cat(&["数组元素赋值类型不匹配: `", assign.name.as_str(), "`\n  = 元素类型: ", a.as_str(), "\n  = 表达式类型: ", b.as_str()]))
    }
}

fn validate_field_assign_stmt(
    assign: &FieldAssignStmt,
    program: &Program,
    func: &FunctionDef,
    imports: &Vec<ImportDecl>,
    locals: &Locals,
) -> (r: Result<(), String>)
    ensures
        r is Ok <==> stmt_scope(*program, fn_ctx(*func), imports_view(imports@), locals@, Stmt::FieldAssign(*assign)) is Some,
        r matches Err(m) ==> m@ == field_assign_error(*program, fn_ctx(*func), imports_view(imports@), locals@, *assign),
{
    proof {
        reveal_with_fuel(crate::text::concat_all, 12);
    }
    let base_type = validate_expr(&assign.base, program, func, imports, locals)?;
    let type_name_value = match base_type {
        Type::Struct(n) => n,
        other => {
            let n = type_text(&other);
            return Err(cat(&["不能对 ", n.as_str(), " 类型设置字段\n  = 帮助: 字段赋值形如 `令当前->x = 1`。"]));
        },
    };
    ensure_object_field_access_allowed(program, func, &type_name_value, &assign.field)?;
    let field_ty = aggregate_field_info(program, &type_name_value, &assign.field)?;
    let value_type = validate_expr(&assign.value, program, func, imports, locals)?;
    if type_eq(&value_type, &field_ty) {
        Ok(())
    } else {
        let a = type_text(&field_ty);
        let b = type_text(&value_type);
        Err(cat(&["字段 `", assign.field.as_str(), "` 赋值类型不匹配\n  = 字段类型: ", a.as_str(), "\n  = 表达式类型: ", b.as_str()]))
    }
}

fn validate_return_stmt(
    ret: &ReturnStmt,
    program: &Program,
    func: &FunctionDef,
    imports: &Vec<ImportDecl>,
    locals: &Locals,
) -> (r: Result<(), String>)
    ensures
        r is Ok <==> stmt_scope(*program, fn_ctx(*func), imports_view(imports@), locals@, Stmt::Return(*ret)) is Some,
        r matches Err(m) ==> m@ == return_error(*program, fn_ctx(*func), imports_view(imports@), locals@, *ret),
{
    proof {
        reveal_with_fuel(crate::text::concat_all, 12);
    }
    let expected_type = &func.return_type;
    match &ret.value {
        None => {
            if matches!(expected_type, Type::Void) {
                Ok(())
            } else {
                let n = type_text(expected_type);
                Err(cat(&["返回语句缺少返回值\n  = 期望返回类型: ", n.as_str(), "\n  = 帮助: 写成 `返回 <表达式>`，或把方法返回类型改为 `无`。"]))
            }
        },
        Some(expr) => {
            if matches!(expected_type, Type::Void) {
                return Err(owned("无返回值方法不能返回表达式\n  = 期望: 只写 `返回` 或省略返回语句\n  = 帮助: 如果确实需要返回值，请修改方法签名中的 `返回 无`。"));
            }
            let actual = validate_expr(expr, program, func, imports, locals)?;
            if type_eq(&actual, expected_type) {
                Ok(())
            } else {
                let a = type_text(expected_type);
                let b = type_text(&actual);
                Err(cat(&["返回类型不匹配\n  = 期望: ", a.as_str(), "\n  = 实际: ", b.as_str(), "\n  = 帮助: 返回表达式的类型必须和方法签名里的返回类型一致。"]))
            }
        },
    }
}

fn validate_condition(
    expr: &Expr,
    program: &Program,
    func: &FunctionDef,
    imports: &Vec<ImportDecl>,
    locals: &Locals,
) -> (r: Result<(), String>)
    ensures
        r is Ok <==> condition_ok(*program, fn_ctx(*func), imports_view(imports@), locals@, *expr),
        r matches Err(m) ==> m@ == condition_error(*program, fn_ctx(*func), imports_view(imports@), locals@, *expr),
{
    proof {
        reveal_with_fuel(crate::text::concat_all, 12);
    }
    let t = validate_expr(expr, program, func, imports, locals)?;
    if matches!(t, Type::Int | Type::Bool) {
        Ok(())
    } else {
        let n = type_text(&t);
        Err(cat(&["条件表达式类型不匹配\n  = 期望: 整数 或 布尔\n  = 实际: ", n.as_str()]))
    }
}

/// Checks a block in a copy of the scope.
fn validate_block(
    body: &Vec<Stmt>,
    program: &Program,
    func: &FunctionDef,
    registry: &ModuleRegistry,
    imports: &Vec<ImportDecl>,
    locals: &Locals,
    source_context: SourceContext,
) -> (r: Result<(), String>)
    requires
        registry.models(*program),
    ensures
        r is Ok <==> block_ok(*program, fn_ctx(*func), imports_view(imports@), locals@, *body),
        r matches Err(m) ==> m@ == block_error(*program, fn_ctx(*func), imports_view(imports@), locals@, source_context, *body),
    decreases body, 1int,
{
    let mut block_imports = copy_imports(imports);
    let mut block_locals = locals.copy();
    validate_stmts(body, program, func, registry, &mut block_imports, &mut block_locals, source_context)
}

/// Checks statements in order, extending the scope as they declare.
fn validate_stmts(
    body: &Vec<Stmt>,
    program: &Program,
    func: &FunctionDef,
    registry: &ModuleRegistry,
    imports: &mut Vec<ImportDecl>,
    locals: &mut Locals,
    source_context: SourceContext,
) -> (r: Result<(), String>)
    requires
        registry.models(*program),
    ensures
        r is Ok <==> stmts_scope(*program, fn_ctx(*func), imports_view(old(imports)@), old(locals)@, *body, 0) is Some,
        r is Ok ==> stmts_scope(*program, fn_ctx(*func), imports_view(old(imports)@), old(locals)@, *body, 0)
            == Some((imports_view(final(imports)@), final(locals)@)),
        r matches Err(m) ==> m@ == stmts_error(*program, fn_ctx(*func), imports_view(old(imports)@), old(locals)@, source_context, *body, 0),
    decreases body, 0int,
{
    let ghost ctx = fn_ctx(*func);
    let mut i: usize = 0;
    while i < body.len()
        invariant
            i <= body@.len(),
            registry.models(*program),
            ctx == fn_ctx(*func),
            stmts_scope(*program, ctx, imports_view(imports@), locals@, *body, i as int)
                == stmts_scope(*program, ctx, imports_view(old(imports)@), old(locals)@, *body, 0),
            stmts_error(*program, ctx, imports_view(imports@), locals@, source_context, *body, i as int)
                == stmts_error(*program, ctx, imports_view(old(imports)@), old(locals)@, source_context, *body, 0),
        decreases body@.len() - i,
    {
        proof {
            assert(decreases_to!(body => body@[i as int]));
        }
        validate_stmt(&body[i], program, func, registry, imports, locals, source_context)?;
        i += 1;
    }
    Ok(())
}

fn validate_branches(
    branches: &Vec<IfBranch>,
    program: &Program,
    func: &FunctionDef,
    registry: &ModuleRegistry,
    imports: &Vec<ImportDecl>,
    locals: &Locals,
    source_context: SourceContext,
) -> (r: Result<(), String>)
    requires
        registry.models(*program),
    ensures
        r is Ok <==> branches_ok(*program, fn_ctx(*func), imports_view(imports@), locals@, *branches, 0),
        r matches Err(m) ==> m@ == branches_error(*program, fn_ctx(*func), imports_view(imports@), locals@, source_context, *branches, 0),
    decreases branches, 0int,
{
    let ghost ctx = fn_ctx(*func);
    let mut i: usize = 0;
    while i < branches.len()
        invariant
            i <= branches@.len(),
            registry.models(*program),
            ctx == fn_ctx(*func),
            branches_ok(*program, ctx, imports_view(imports@), locals@, *branches, i as int)
                == branches_ok(*program, ctx, imports_view(imports@), locals@, *branches, 0),
            branches_error(*program, ctx, imports_view(imports@), locals@, source_context, *branches, i as int)
                == branches_error(*program, ctx, imports_view(imports@), locals@, source_context, *branches, 0),
        decreases branches@.len() - i,
    {
        proof {
            assert(decreases_to!(branches => branches@[i as int]));
            assert(decreases_to!(branches@[i as int] => branches@[i as int].body));
        }
        let branch = &branches[i];
        validate_condition(&branch.condition, program, func, imports, locals)?;
        validate_block(&branch.body, program, func, registry, imports, locals, source_context)?;
        i += 1;
    }
    Ok(())
}

fn validate_cases(
    target_name: &String,
    target_type: &Type,
    cases: &Vec<SelectCase>,
    program: &Program,
    func: &FunctionDef,
    registry: &ModuleRegistry,
    imports: &Vec<ImportDecl>,
    locals: &Locals,
    source_context: SourceContext,
) -> (r: Result<(), String>)
    requires
        registry.models(*program),
    ensures
        r is Ok <==> cases_ok(*program, fn_ctx(*func), imports_view(imports@), locals@, target_type@, *cases, 0),
        r matches Err(m) ==> m@ == cases_error(*program, fn_ctx(*func), imports_view(imports@), locals@, source_context, target_name@, target_type@, *cases, 0),
    decreases cases, 0int,
{
    proof {
        reveal_with_fuel(crate::text::concat_all, 12);
    }
    let ghost ctx = fn_ctx(*func);
    let mut i: usize = 0;
    while i < cases.len()
        invariant
            i <= cases@.len(),
            registry.models(*program),
            ctx == fn_ctx(*func),
            cases_ok(*program, ctx, imports_view(imports@), locals@, target_type@, *cases, i as int)
                == cases_ok(*program, ctx, imports_view(imports@), locals@, target_type@, *cases, 0),
            cases_error(*program, ctx, imports_view(imports@), locals@, source_context, target_name@, target_type@, *cases, i as int)
                == cases_error(*program, ctx, imports_view(imports@), locals@, source_context, target_name@, target_type@, *cases, 0),
        decreases cases@.len() - i,
    {
        proof {
            reveal_with_fuel(crate::text::concat_all, 12);
        }
        proof {
            assert(decreases_to!(cases => cases@[i as int]));
            assert(decreases_to!(cases@[i as int] => cases@[i as int].body));
        }
        let case = &cases[i];
        let value_type = validate_expr(&case.value, program, func, imports, locals)?;
        if !type_eq(&value_type, target_type) {
            let a = type_text(target_type);
            let b = type_text(&value_type);
            return Err(cat(&["选择分支类型不匹配\n  = 当前变量 `", target_name.as_str(), "`: ", a.as_str(), "\n  = 取值: ", b.as_str()]));
        }
        validate_block(&case.body, program, func, registry, imports, locals, source_context)?;
        i += 1;
    }
    Ok(())
}

fn validate_all_typed(
    args: &Vec<Expr>,
    program: &Program,
    func: &FunctionDef,
    imports: &Vec<ImportDecl>,
    locals: &Locals,
) -> (r: Result<(), String>)
    ensures
        r is Ok <==> all_typed(*program, fn_ctx(*func), imports_view(imports@), locals@, *args, 0),
        r matches Err(m) ==> m@ == all_typed_error(*program, fn_ctx(*func), imports_view(imports@), locals@, *args, 0),
{
    let ghost ctx = fn_ctx(*func);
    let mut i: usize = 0;
    while i < args.len()
        invariant
            i <= args@.len(),
            ctx == fn_ctx(*func),
            all_typed(*program, ctx, imports_view(imports@), locals@, *args, i as int)
                == all_typed(*program, ctx, imports_view(imports@), locals@, *args, 0),
            all_typed_error(*program, ctx, imports_view(imports@), locals@, *args, i as int)
                == all_typed_error(*program, ctx, imports_view(imports@), locals@, *args, 0),
        decreases args@.len() - i,
    {
        validate_expr(&args[i], program, func, imports, locals)?;
        i += 1;
    }
    Ok(())
}

/// A loop variable: an immutable integer.
fn loop_scope(locals: &Locals, var_name: &String) -> (r: Locals)
    ensures
        r@ == locals@.insert(var_name@, (SpecType::Int, false, None)),
{
    let mut l = locals.copy();
    l.insert(copy_string(var_name), LocalInfo { ty: Type::Int, is_mutable: false, declaration_span: None });
    l
}

fn expect_int(t: &Type, message: &str) -> (r: Result<(), String>)
    ensures
        r is Ok <==> t@ is Int,
        r matches Err(m) ==> m@ == expect_int_message(message@, t@),
{
    proof {
        reveal_with_fuel(crate::text::concat_all, 12);
    }
    if matches!(t, Type::Int) {
        Ok(())
    } else {
        let n = type_text(t);
        Err(cat(&[message, n.as_str()]))
    }
}

/// Checks one statement and extends the scope (see `stmt_scope`).
fn validate_stmt(
    stmt: &Stmt,
    program: &Program,
    func: &FunctionDef,
    registry: &ModuleRegistry,
    imports: &mut Vec<ImportDecl>,
    locals: &mut Locals,
    source_context: SourceContext,
) -> (r: Result<(), String>)
    requires
        registry.models(*program),
    ensures
        r is Ok <==> stmt_scope(*program, fn_ctx(*func), imports_view(old(imports)@), old(locals)@, *stmt) is Some,
        r is Ok ==> stmt_scope(*program, fn_ctx(*func), imports_view(old(imports)@), old(locals)@, *stmt)
            == Some((imports_view(final(imports)@), final(locals)@)),
        r is Err ==> final(imports)@ == old(imports)@ && final(locals)@ == old(locals)@,
        r matches Err(m) ==> m@ == stmt_error(*program, fn_ctx(*func), imports_view(old(imports)@), old(locals)@, source_context, *stmt),
    decreases stmt, 2int,
{
    proof {
        reveal_with_fuel(crate::text::concat_all, 12);
    }
    match stmt {
        Stmt::Import(import) => {
            validate_import(import, registry)?;
            let ghost before = imports@;
            imports.push(copy_import(import));
            assert(imports_view(imports@) =~= imports_view(before).push(import_view(*import)));
            Ok(())
        },
        Stmt::Execute(exec) => {
            if resolve_execute_target(program, func, imports.as_slice(), exec.target.as_str()).is_none() {
                return Err(cat(&["未找到模块或方法: ", exec.target.as_str()]));
            }
            validate_all_typed(&exec.args, program, func, imports, locals)
        },
        Stmt::VarDecl(var) => validate_var_decl(var, program, func, imports, locals),
        Stmt::Assign(assign) => validate_assign_stmt(assign, program, func, imports, locals, source_context),
        Stmt::ArrayAssign(assign) => validate_array_assign_stmt(assign, program, func, imports, locals, source_context),
        Stmt::FieldAssign(assign) => validate_field_assign_stmt(assign, program, func, imports, locals),
        Stmt::Return(ret) => validate_return_stmt(ret, program, func, imports, locals),
        Stmt::If(if_stmt) => {
            proof {
                assert(decreases_to!(stmt => if_stmt.branches));
            }
            validate_branches(&if_stmt.branches, program, func, registry, imports, locals, source_context)?;
            if let Some(body) = &if_stmt.else_body {
                proof {
                    assert(decreases_to!(stmt => *body));
                }
                validate_block(body, program, func, registry, imports, locals, source_context)?;
            }
            Ok(())
        },
        Stmt::Select(select_stmt) => {
            let target_type = match locals.get(&select_stmt.target) {
                Some(local) => copy_type(&local.ty),
                None => {
                    return Err(cat(&["未定义的变量 `", select_stmt.target.as_str(), "`\n  = 帮助: `当前` 后面只能接当前作用域内已声明的变量。"]));
                },
            };
            proof {
                assert(decreases_to!(stmt => select_stmt.cases));
            }
            validate_cases(&select_stmt.target, &target_type, &select_stmt.cases, program, func, registry, imports, locals, source_context)?;
            if let Some(body) = &select_stmt.default_body {
                proof {
                    assert(decreases_to!(stmt => *body));
                }
                validate_block(body, program, func, registry, imports, locals, source_context)?;
            }
            Ok(())
        },
        Stmt::Loop(loop_stmt) => match loop_stmt {
            LoopStmt::Count { var_name, end, body } => {
                let end_type = validate_expr(end, program, func, imports, locals)?;
                expect_int(&end_type, "计数循环上限类型不匹配\n  = 期望: 整数\n  = 实际: ")?;
                let loop_locals = loop_scope(locals, var_name);
                validate_block(body, program, func, registry, imports, &loop_locals, source_context)
            },
            LoopStmt::Iterate { var_name, start, end, body } => {
                let start_type = validate_expr(start, program, func, imports, locals)?;
                expect_int(&start_type, "迭代循环起始值类型不匹配\n  = 期望: 整数\n  = 实际: ")?;
                let end_type = validate_expr(end, program, func, imports, locals)?;
                expect_int(&end_type, "迭代循环结束值类型不匹配\n  = 期望: 整数\n  = 实际: ")?;
                let loop_locals = loop_scope(locals, var_name);
                validate_block(body, program, func, registry, imports, &loop_locals, source_context)
            },
            LoopStmt::Condition { condition, body } => {
                validate_condition(condition, program, func, imports, locals)?;
                validate_block(body, program, func, registry, imports, locals, source_context)
            },
        },
    }
}
// ---------------------------------------------------------------------------
// The diagnostics of rejected declarations and programs.
// ---------------------------------------------------------------------------

/// The message for a type that names an undeclared struct or object.
pub open spec fn declared_type_error(t: SpecType) -> Seq<char>
    decreases t,
{
    match t {
        SpecType::Struct(n) => "未定义的结构或对象 `"@ + n + "`"@,
        SpecType::Array { element_type, .. } => declared_type_error(*element_type),
        _ => Seq::empty(),
    }
}

/// Whether the name of field `i` is the name of an earlier field.
pub open spec fn field_repeated(fields: Seq<StructField>, i: int) -> bool {
    exists|k: int| 0 <= k < i && (#[trigger] fields[k]).name@ == fields[i].name@
}

/// The message for the first field, from `i` on, whose name repeats an
/// earlier one; `kind` and `owner` name the struct or object.
pub open spec fn repeated_field_error(kind: Seq<char>, owner: Seq<char>, fields: Seq<StructField>, i: int) -> Seq<char>
    decreases fields.len() - i,
{
    if i < 0 || i >= fields.len() {
        Seq::empty()
    } else if field_repeated(fields, i) {
        kind + " `"@ + owner + "` 中字段 `"@ + fields[i].name@ + "` 重复定义"@
    } else {
        repeated_field_error(kind, owner, fields, i + 1)
    }
}

/// The message for the first field, from `k` on, whose type is undeclared.
pub open spec fn field_types_error(fields: Seq<StructField>, structs: Seq<StructDef>, objects: Seq<ObjectDef>, k: int) -> Seq<char>
    decreases fields.len() - k,
{
    if k < 0 || k >= fields.len() {
        Seq::empty()
    } else if !type_declared(fields[k].field_type@, structs, objects) {
        declared_type_error(fields[k].field_type@)
    } else {
        field_types_error(fields, structs, objects, k + 1)
    }
}

/// Whether every field has a declared type.
pub open spec fn field_types_ok(fields: Seq<StructField>, structs: Seq<StructDef>, objects: Seq<ObjectDef>) -> bool {
    forall|k: int| 0 <= k < fields.len() ==> type_declared((#[trigger] fields[k]).field_type@, structs, objects)
}

/// The message for the first struct, from `a` on, with a field of an
/// undeclared type.
pub open spec fn struct_types_error(structs: Seq<StructDef>, objects: Seq<ObjectDef>, a: int) -> Seq<char>
    decreases structs.len() - a,
{
    if a < 0 || a >= structs.len() {
        Seq::empty()
    } else if !field_types_ok(structs[a].fields@, structs, objects) {
        field_types_error(structs[a].fields@, structs, objects, 0)
    } else {
        struct_types_error(structs, objects, a + 1)
    }
}

/// The message for rejected struct definitions: the first struct, from `i`
/// on, whose name repeats, is an object's, or whose fields are missing or
/// repeat; then the first field of an undeclared type.
pub open spec fn structs_error(structs: Seq<StructDef>, objects: Seq<ObjectDef>, i: int) -> Seq<char>
    decreases structs.len() - i,
{
    if i < 0 || i >= structs.len() {
        struct_types_error(structs, objects, 0)
    } else {
        let n = structs[i].name@;
        if exists|k: int| 0 <= k < i && (#[trigger] structs[k]).name@ == n {
            "结构 `"@ + n + "` 重复定义"@
        } else if exists|b: int| 0 <= b < objects.len() && (#[trigger] objects[b]).name@ == n {
            "类型 `"@ + n + "` 同时定义为结构和对象"@
        } else if structs[i].fields@.len() == 0 {
            "结构 `"@ + n + "` 至少需要一个字段\n  = 帮助: 写成 `定义结构"@ + n + "：字段：整数。。`。"@
        } else if !distinct_fields(structs[i].fields@) {
            repeated_field_error("结构"@, n, structs[i].fields@, 0)
        } else {
            structs_error(structs, objects, i + 1)
        }
    }
}

/// The message for the first field of an object, from `i` on, whose name
/// repeats or whose type is undeclared.
pub open spec fn object_fields_error(owner: Seq<char>, fields: Seq<StructField>, p: Program, i: int) -> Seq<char>
    decreases fields.len() - i,
{
    if i < 0 || i >= fields.len() {
        Seq::empty()
    } else if field_repeated(fields, i) {
        "对象 `"@ + owner + "` 中字段 `"@ + fields[i].name@ + "` 重复定义"@
    } else if !type_declared(fields[i].field_type@, p.structs@, p.objects@) {
        declared_type_error(fields[i].field_type@)
    } else {
        object_fields_error(owner, fields, p, i + 1)
    }
}

/// The scope a constructor body starts in.
pub open spec fn constructor_scope(c: ConstructorDef, name: Seq<char>) -> Map<Seq<char>, LocalView> {
    params_scope(c.params@, c.params@.len() as int).insert("当前"@, (SpecType::Struct(name), false, None))
}

/// Where diagnostics of constructor bodies quote from: nowhere.
pub open spec fn no_source() -> SourceContext<'static> {
    SourceContext { source: None, source_name: None }
}

/// The message for rejected object definitions: the first object, from `i`
/// on, whose name repeats, that has no field, whose fields are rejected, or
/// whose constructor body is.
pub open spec fn objects_error(p: Program, i: int) -> Seq<char>
    decreases p.objects@.len() - i,
{
    if i < 0 || i >= p.objects@.len() {
        Seq::empty()
    } else {
        let o = p.objects@[i];
        let n = o.name@;
        if exists|k: int| 0 <= k < i && (#[trigger] p.objects@[k]).name@ == n {
            "对象 `"@ + n + "` 重复定义"@
        } else if o.fields@.len() == 0 {
            "对象 `"@ + n + "` 至少需要一个结构字段\n  = 帮助: 在对象内写 `结构：字段：类型`。"@
        } else if !(distinct_fields(o.fields@) && field_types_ok(o.fields@, p.structs@, p.objects@)) {
            object_fields_error(n, o.fields@, p, 0)
        } else {
            match o.constructor {
                Some(c) => if !block_ok(p, constructor_ctx(n), imports_view(p.imports@), constructor_scope(c, n), c.body) {
                    block_error(p, constructor_ctx(n), imports_view(p.imports@), constructor_scope(c, n), no_source(), c.body)
                } else {
                    objects_error(p, i + 1)
                },
                None => objects_error(p, i + 1),
            }
        }
    }
}

/// The message for the first parameter, from `k` on, of an undeclared type.
pub open spec fn param_types_error(params: Seq<Param>, p: Program, k: int) -> Seq<char>
    decreases params.len() - k,
{
    if k < 0 || k >= params.len() {
        Seq::empty()
    } else if !type_declared(params[k].param_type@, p.structs@, p.objects@) {
        declared_type_error(params[k].param_type@)
    } else {
        param_types_error(params, p, k + 1)
    }
}

/// A body's message as a function reports it: a rendered diagnostic as it
/// is, any other followed by the function's path and a hint.
pub open spec fn located_message(err: Seq<char>, f: FunctionDef) -> Seq<char> {
    if has_prefix(err, "error["@) || has_prefix(err, "错误["@) {
        err
    } else {
        err + "\n --> 方法 `"@ + function_path_spec(f)
            + "`\n  = 帮助: 语义错误通常不是标点问题，而是名字解析、类型或可变性不满足要求；请从上面指出的实体开始检查。"@
    }
}

/// The message for a rejected function.
pub open spec fn function_error(p: Program, sc: SourceContext, f: FunctionDef) -> Seq<char> {
    if !(forall|k: int| 0 <= k < f.params@.len() ==> type_declared((#[trigger] f.params@[k]).param_type@, p.structs@, p.objects@)) {
        param_types_error(f.params@, p, 0)
    } else if !type_declared(f.return_type@, p.structs@, p.objects@) {
        declared_type_error(f.return_type@)
    } else {
        located_message(
            block_error(p, fn_ctx(f), imports_view(p.imports@), params_scope(f.params@, f.params@.len() as int), sc, f.body),
            f,
        )
    }
}

/// The message for the first rejected function from `i` on.
pub open spec fn functions_error(p: Program, sc: SourceContext, i: int) -> Seq<char>
    decreases p.functions@.len() - i,
{
    if i < 0 || i >= p.functions@.len() {
        Seq::empty()
    } else if !function_ok(p, p.functions@[i]) {
        function_error(p, sc, p.functions@[i])
    } else {
        functions_error(p, sc, i + 1)
    }
}

/// The message semantic analysis gives for a rejected program: the first
/// unresolved import; else the first rejected struct, object or function,
/// in that order. With the source, an assignment to an immutable variable is
/// rendered with both places quoted.
pub open spec fn analysis_error(p: Program, source: Option<&str>, source_name: Option<&str>) -> Seq<char> {
    match first_missing_import(p, 0) {
        Some(k) => missing_import_message(p.imports@[k].path@),
        None => if !structs_ok(p.structs@, p.objects@) {
            structs_error(p.structs@, p.objects@, 0)
        } else if !objects_ok(p) {
            objects_error(p, 0)
        } else {
            functions_error(p, SourceContext { source, source_name }, 0)
        },
    }
}

// ---------------------------------------------------------------------------
// Declarations and whole programs.
// ---------------------------------------------------------------------------

fn has_struct_named(structs: &Vec<StructDef>, name: &String) -> (r: bool)
    ensures
        r == exists|i: int| 0 <= i < structs@.len() && (#[trigger] structs@[i]).name@ == name@,
{
    let mut i: usize = 0;
    while i < structs.len()
        invariant
            i <= structs@.len(),
            forall|k: int| 0 <= k < i ==> (#[trigger] structs@[k]).name@ != name@,
        decreases structs@.len() - i,
    {
        if same(&structs[i].name, name) {
            return true;
        }
        i += 1;
    }
    false
}

fn has_object_named(objects: &Vec<ObjectDef>, name: &String) -> (r: bool)
    ensures
        r == exists|i: int| 0 <= i < objects@.len() && (#[trigger] objects@[i]).name@ == name@,
{
    let mut i: usize = 0;
    while i < objects.len()
        invariant
            i <= objects@.len(),
            forall|k: int| 0 <= k < i ==> (#[trigger] objects@[k]).name@ != name@,
        decreases objects@.len() - i,
    {
        if same(&objects[i].name, name) {
            return true;
        }
        i += 1;
    }
    false
}

/// Checks that a type names only existing structs and objects.
fn validate_declared_type_in_structs(ty: &Type, structs: &Vec<StructDef>, objects: &Vec<ObjectDef>) -> (r: Result<(), String>)
    ensures
        r is Ok <==> type_declared(ty@, structs@, objects@),
        r matches Err(m) ==> m@ == declared_type_error(ty@),
    decreases ty,
{
    proof {
        reveal_with_fuel(crate::text::concat_all, 12);
    }
    match ty {
        Type::Struct(name) => {
            if has_struct_named(structs, name) || has_object_named(objects, name) {
                Ok(())
            } else {
                Err(cat(&["未定义的结构或对象 `", name.as_str(), "`"]))
            }
        },
        Type::Array { element_type, .. } => validate_declared_type_in_structs(element_type, structs, objects),
        _ => Ok(()),
    }
}

fn validate_declared_type(ty: &Type, program: &Program) -> (r: Result<(), String>)
    ensures
        r is Ok <==> type_declared(ty@, program.structs@, program.objects@),
        r matches Err(m) ==> m@ == declared_type_error(ty@),
{
    validate_declared_type_in_structs(ty, &program.structs, &program.objects)
}

/// Checks that field names are unique; `owner` names the struct or object.
fn check_distinct_fields(kind: &str, owner: &String, fields: &Vec<StructField>) -> (r: Result<(), String>)
    ensures
        r is Ok <==> distinct_fields(fields@),
        r matches Err(m) ==> m@ == repeated_field_error(kind@, owner@, fields@, 0),
{
    let mut seen: Vec<String> = Vec::new();
    let mut i: usize = 0;
    while i < fields.len()
        invariant
            i <= fields@.len(),
            seen@.len() == i,
            forall|k: int| 0 <= k < i ==> (#[trigger] seen@[k])@ == fields@[k].name@,
            forall|a: int, b: int| 0 <= a < b < i ==> fields@[a].name@ != fields@[b].name@,
            repeated_field_error(kind@, owner@, fields@, i as int) == repeated_field_error(kind@, owner@, fields@, 0),
        decreases fields@.len() - i,
    {
        proof {
            reveal_with_fuel(crate::text::concat_all, 12);
        }
        if contains_name(&seen, &fields[i].name) {
            proof {
                let k = choose|k: int| 0 <= k < seen@.len() && (#[trigger] seen@[k])@ == fields@[i as int].name@;
                assert(fields@[k].name@ == fields@[i as int].name@);
                assert(field_repeated(fields@, i as int));
            }
            return Err(cat(&[kind, " `", owner.as_str(), "` 中字段 `", fields[i].name.as_str(), "` 重复定义"]));
        }
        assert forall|a: int| 0 <= a < i implies fields@[a].name@ != fields@[i as int].name@ by {
            assert(seen@[a]@ == fields@[a].name@);
        }
        assert(!field_repeated(fields@, i as int));
        seen.push(copy_string(&fields[i].name));
        i += 1;
    }
    Ok(())
}

/// Checks that every field's type is declared.
fn validate_field_types(fields: &Vec<StructField>, structs: &Vec<StructDef>, objects: &Vec<ObjectDef>) -> (r: Result<(), String>)
    ensures
        r is Ok <==> forall|k: int| 0 <= k < fields@.len() ==> type_declared((#[trigger] fields@[k]).field_type@, structs@, objects@),
        r matches Err(m) ==> m@ == field_types_error(fields@, structs@, objects@, 0),
{
    let mut k: usize = 0;
    while k < fields.len()
        invariant
            k <= fields@.len(),
            forall|k2: int| 0 <= k2 < k ==> type_declared((#[trigger] fields@[k2]).field_type@, structs@, objects@),
            field_types_error(fields@, structs@, objects@, k as int) == field_types_error(fields@, structs@, objects@, 0),
        decreases fields@.len() - k,
    {
        validate_declared_type_in_structs(&fields[k].field_type, structs, objects)?;
        k += 1;
    }
    Ok(())
}

/// Checks an object's fields in order: each name is new and each type is
/// declared.
fn check_object_fields(owner: &String, fields: &Vec<StructField>, program: &Program) -> (r: Result<(), String>)
    ensures
        r is Ok <==> distinct_fields(fields@) && forall|k: int| 0 <= k < fields@.len() ==> type_declared(
            (#[trigger] fields@[k]).field_type@,
            program.structs@,
            program.objects@,
        ),
        r matches Err(m) ==> m@ == object_fields_error(owner@, fields@, *program, 0),
{
    let mut seen: Vec<String> = Vec::new();
    let mut i: usize = 0;
    while i < fields.len()
        invariant
            i <= fields@.len(),
            seen@.len() == i,
            forall|k: int| 0 <= k < i ==> (#[trigger] seen@[k])@ == fields@[k].name@,
            forall|a: int, b: int| 0 <= a < b < i ==> fields@[a].name@ != fields@[b].name@,
            forall|k: int| 0 <= k < i ==> type_declared((#[trigger] fields@[k]).field_type@, program.structs@, program.objects@),
            object_fields_error(owner@, fields@, *program, i as int) == object_fields_error(owner@, fields@, *program, 0),
        decreases fields@.len() - i,
    {
        proof {
            reveal_with_fuel(crate::text::concat_all, 12);
        }
        if contains_name(&seen, &fields[i].name) {
            proof {
                let k = choose|k: int| 0 <= k < seen@.len() && (#[trigger] seen@[k])@ == fields@[i as int].name@;
                assert(fields@[k].name@ == fields@[i as int].name@);
                assert(field_repeated(fields@, i as int));
            }
            return Err(cat(&["对象 `", owner.as_str(), "` 中字段 `", fields[i].name.as_str(), "` 重复定义"]));
        }
        assert forall|a: int| 0 <= a < i implies fields@[a].name@ != fields@[i as int].name@ by {
            assert(seen@[a]@ == fields@[a].name@);
        }
        assert(!field_repeated(fields@, i as int));
        validate_declared_type(&fields[i].field_type, program)?;
        seen.push(copy_string(&fields[i].name));
        i += 1;
    }
    Ok(())
}

/// Checks struct definitions (see `structs_ok`).
fn validate_structs(structs: &Vec<StructDef>, objects: &Vec<ObjectDef>) -> (r: Result<(), String>)
    ensures
        r is Ok <==> structs_ok(structs@, objects@),
        r matches Err(m) ==> m@ == structs_error(structs@, objects@, 0),
{
    let mut names: Vec<String> = Vec::new();
    let mut i: usize = 0;
    while i < structs.len()
        invariant
            i <= structs@.len(),
            names@.len() == i,
            forall|k: int| 0 <= k < i ==> (#[trigger] names@[k])@ == structs@[k].name@,
            forall|a: int, b: int| 0 <= a < b < i ==> structs@[a].name@ != structs@[b].name@,
            forall|a: int, b: int| 0 <= a < i && 0 <= b < objects@.len() ==> structs@[a].name@ != objects@[b].name@,
            forall|a: int| 0 <= a < i ==> (#[trigger] structs@[a]).fields@.len() > 0 && distinct_fields(structs@[a].fields@),
            structs_error(structs@, objects@, i as int) == structs_error(structs@, objects@, 0),
        decreases structs@.len() - i,
    {
        proof {
            reveal_with_fuel(crate::text::concat_all, 12);
        }
        let struct_def = &structs[i];
        if contains_name(&names, &struct_def.name) {
            proof {
                let k = choose|k: int| 0 <= k < names@.len() && (#[trigger] names@[k])@ == structs@[i as int].name@;
                assert(structs@[k].name@ == structs@[i as int].name@);
            }
            return Err(cat(&["结构 `", struct_def.name.as_str(), "` 重复定义"]));
        }
        assert forall|a: int| 0 <= a < i implies structs@[a].name@ != structs@[i as int].name@ by {
            assert(names@[a]@ == structs@[a].name@);
        }
        if has_object_named(objects, &struct_def.name) {
            return Err(cat(&["类型 `", struct_def.name.as_str(), "` 同时定义为结构和对象"]));
        }
        if struct_def.fields.len() == 0 {
            return Err(cat(&["结构 `", struct_def.name.as_str(), "` 至少需要一个字段\n  = 帮助: 写成 `定义结构", struct_def.name.as_str(), "：字段：整数。。`。"]));
        }
        check_distinct_fields("结构", &struct_def.name, &struct_def.fields)?;
        names.push(copy_string(&struct_def.name));
        i += 1;
    }
    assert(structs_error(structs@, objects@, structs@.len() as int) == struct_types_error(structs@, objects@, 0));
    let mut a: usize = 0;
    while a < structs.len()
        invariant
            a <= structs@.len(),
            forall|x: int, k: int| 0 <= x < a && 0 <= k < structs@[x].fields@.len() ==> type_declared(
                (#[trigger] structs@[x].fields@[k]).field_type@,
                structs@,
                objects@,
            ),
            structs_error(structs@, objects@, 0) == struct_types_error(structs@, objects@, a as int),
        decreases structs@.len() - a,
    {
        proof {
            reveal_with_fuel(crate::text::concat_all, 12);
        }
        validate_field_types(&structs[a].fields, structs, objects)?;
        a += 1;
    }
    Ok(())
}

/// The function a constructor body is checked as: it lives in the object's
/// module and returns nothing.
fn constructor_function(object_name: &String) -> (r: FunctionDef)
    ensures
        fn_ctx(r) == constructor_ctx(object_name@),
{
    FunctionDef {
        name: owned("构造方法"),
        module_name: Some(object_module_name(object_name.as_str())),
        params: Vec::new(),
        return_type: Type::Void,
        is_entry: false,
        is_external: false,
        external_symbol: None,
        body: Vec::new(),
    }
}

/// Checks object definitions (see `objects_ok`).
fn validate_objects(program: &Program) -> (r: Result<(), String>)
    ensures
        r is Ok <==> objects_ok(*program),
        r matches Err(m) ==> m@ == objects_error(*program, 0),
{
    let objects = &program.objects;
    let mut names: Vec<String> = Vec::new();
    let mut i: usize = 0;
    while i < objects.len()
        invariant
            i <= objects@.len(),
            objects@ == program.objects@,
            names@.len() == i,
            forall|k: int| 0 <= k < i ==> (#[trigger] names@[k])@ == objects@[k].name@,
            forall|a: int, b: int| 0 <= a < b < i ==> objects@[a].name@ != objects@[b].name@,
            forall|a: int| 0 <= a < i ==> (#[trigger] objects@[a]).fields@.len() > 0 && distinct_fields(objects@[a].fields@),
            forall|a: int, k: int| 0 <= a < i && 0 <= k < objects@[a].fields@.len() ==> type_declared(
                (#[trigger] objects@[a].fields@[k]).field_type@,
                program.structs@,
                program.objects@,
            ),
            forall|a: int| 0 <= a < i ==> match (#[trigger] objects@[a]).constructor {
                Some(c) => block_ok(
                    *program,
                    constructor_ctx(objects@[a].name@),
                    imports_view(program.imports@),
                    params_scope(c.params@, c.params@.len() as int).insert("当前"@, (SpecType::Struct(objects@[a].name@), false, None)),
                    c.body,
                ),
                None => true,
            },
            objects_error(*program, i as int) == objects_error(*program, 0),
        decreases objects@.len() - i,
    {
        proof {
            reveal_with_fuel(crate::text::concat_all, 12);
        }
        let object = &objects[i];
        if contains_name(&names, &object.name) {
            proof {
                let k = choose|k: int| 0 <= k < names@.len() && (#[trigger] names@[k])@ == objects@[i as int].name@;
                assert(objects@[k].name@ == objects@[i as int].name@);
            }
            return Err(cat(&["对象 `", object.name.as_str(), "` 重复定义"]));
        }
        assert forall|a: int| 0 <= a < i implies objects@[a].name@ != objects@[i as int].name@ by {
            assert(names@[a]@ == objects@[a].name@);
        }
        if object.fields.len() == 0 {
            return Err(cat(&["对象 `", object.name.as_str(), "` 至少需要一个结构字段\n  = 帮助: 在对象内写 `结构：字段：类型`。"]));
        }
        check_object_fields(&object.name, &object.fields, program)?;
        if let Some(constructor) = &object.constructor {
            let mut locals = params_locals(&constructor.params);
            locals.insert(
                owned("当前"),
                LocalInfo { ty: Type::Struct(copy_string(&object.name)), is_mutable: false, declaration_span: None },
            );
            let constructor_func = constructor_function(&object.name);
            let registry = ModuleRegistry::from_program(program);
            validate_block(
                &constructor.body,
                program,
                &constructor_func,
                &registry,
                &program.imports,
                &locals,
                SourceContext { source: None, source_name: None },
            )?;
        }
        names.push(copy_string(&object.name));
        i += 1;
    }
    Ok(())
}

/// Analyses a program without its source text.
pub fn analyze(program: &Program) -> (r: Result<(), String>)
    ensures
        r is Ok <==> program_ok(*program),
        first_missing_import(*program, 0) matches Some(k) ==> (r matches Err(m) && m@ == missing_import_message(
            program.imports@[k].path@,
        )),
        r matches Err(m) ==> m@ == analysis_error(*program, None, None),
{
    analyze_with_source(program, None, None)
}

/// Semantic analysis: imports resolve, declarations are well-formed, and
/// every function body is well-typed (see `program_ok`). With the source
/// text, an assignment to an immutable variable is reported with both
/// places quoted. A call of a method without the receiver parameter, which
/// parsed programs never have (see `lemma_shape_has_receiver`), is reported
/// as such.
pub fn analyze_with_source(program: &Program, source: Option<&str>, source_name: Option<&str>) -> (r: Result<(), String>)
    ensures
        r is Ok <==> program_ok(*program),
        first_missing_import(*program, 0) matches Some(k) ==> (r matches Err(m) && m@ == missing_import_message(
            program.imports@[k].path@,
        )),
        r matches Err(m) ==> m@ == analysis_error(*program, source, source_name),
{
    let source_context = SourceContext { source, source_name };
    let registry = ModuleRegistry::from_program(program);
    let mut i: usize = 0;
    while i < program.imports.len()
        invariant
            i <= program.imports@.len(),
            registry.models(*program),
            forall|k: int| 0 <= k < i ==> import_target_exists(*program, (#[trigger] program.imports@[k]).path@),
            first_missing_import(*program, i as int) == first_missing_import(*program, 0),
        decreases program.imports@.len() - i,
    {
        validate_import(&program.imports[i], &registry)?;
        i += 1;
    }
    assert(first_missing_import(*program, i as int) is None);
    validate_structs(&program.structs, &program.objects)?;
    validate_objects(program)?;
    let mut f: usize = 0;
    while f < program.functions.len()
        invariant
            f <= program.functions@.len(),
            registry.models(*program),
            forall|k: int| 0 <= k < f ==> function_ok(*program, #[trigger] program.functions@[k]),
            first_missing_import(*program, 0) is None,
            structs_ok(program.structs@, program.objects@),
            objects_ok(*program),
            source_context == (SourceContext { source, source_name }),
            functions_error(*program, source_context, f as int) == functions_error(*program, source_context, 0),
        decreases program.functions@.len() - f,
    {
        proof {
            reveal_with_fuel(crate::text::concat_all, 12);
        }
        let func = &program.functions[f];
        let mut k: usize = 0;
        while k < func.params.len()
            invariant
                f < program.functions@.len(),
                *func == program.functions@[f as int],
                k <= func.params@.len(),
                forall|k2: int| 0 <= k2 < k ==> type_declared((#[trigger] func.params@[k2]).param_type@, program.structs@, program.objects@),
                first_missing_import(*program, 0) is None,
                param_types_error(func.params@, *program, k as int) == param_types_error(func.params@, *program, 0),
                structs_ok(program.structs@, program.objects@),
                objects_ok(*program),
                source_context == (SourceContext { source, source_name }),
                functions_error(*program, source_context, f as int) == functions_error(*program, source_context, 0),
            decreases func.params@.len() - k,
        {
            validate_declared_type(&func.params[k].param_type, program)?;
            k += 1;
        }
        validate_declared_type(&func.return_type, program)?;
        let locals = params_locals(&func.params);
        let result = validate_block(&func.body, program, func, &registry, &program.imports, &locals, source_context);
        if let Err(err) = result {
            if starts_with_str(&err, "error[") || starts_with_str(&err, "错误[") {
                return Err(err);
            }
            let path = function_path(func);
            return Err(cat(&[err.as_str(), "\n --> 方法 `", path.as_str(), "`\n  = 帮助: 语义错误通常不是标点问题，而是名字解析、类型或可变性不满足要求；请从上面指出的实体开始检查。"]));
        }
        f += 1;
    }
    Ok(())
}

fn starts_with_str(s: &String, pre: &str) -> (r: bool)
    ensures
        r == has_prefix(s@, pre@),
{
    strip_prefix(s, &owned(pre)).is_some()
}

// ---------------------------------------------------------------------------
// The immutable-assignment diagnostic.
// ---------------------------------------------------------------------------

/// The quoted line of a span with a marker run (`-` for a secondary span,
/// `^` else) and a label, its line number right-aligned to `width`.
pub open spec fn span_note_text(src: Seq<char>, span: Span, label: Seq<char>, width: nat, is_secondary: bool) -> Seq<char> {
    let w = dec(line_col_spec(src, span.start as int).0).len();
    (if w < width {
        repeat(' ', (width - w) as nat)
    } else {
        Seq::empty()
    }) + snippet_text(src, span, if is_secondary { '-' } else { '^' }) + " "@ + label + "\n"@
}

/// Appends the quoted line of a span with a marker run and a label.
fn push_span_note(out: &mut String, src: &Vec<char>, span: Span, label: &str, line_number_width: usize, is_secondary: bool)
    requires
        src@.len() < usize::MAX,
    ensures
        final(out)@ == old(out)@ + span_note_text(src@, span, label@, line_number_width as nat, is_secondary),
{
    let ghost start = out@;
    let (line_no, _, _) = line_col(src, span.start);
    let line_str = usize_to_string(line_no);
    let w = line_str.as_str().unicode_len();
    if w < line_number_width {
        push_repeat(out, ' ', line_number_width - w);
    } else {
        assert(out@ =~= start + Seq::<char>::empty());
    }
    push_snippet(out, src, span, if is_secondary { '-' } else { '^' });
    push_str(out, " ");
    push_str(out, label);
    push_str(out, "\n");
    reveal(span_note_text);
    assert(out@ =~= start + span_note_text(src@, span, label@, line_number_width as nat, is_secondary));
}

/// The first `变量` in `src[k..hi]`, by the offset of its `变`.
pub open spec fn first_variable_keyword(src: Seq<char>, k: int, hi: int) -> Option<int>
    decreases hi - k,
{
    if k + 1 >= hi || k < 0 {
        None
    } else if src[k] == '变' && src[k + 1] == '量' {
        Some(k)
    } else {
        first_variable_keyword(src, k + 1, hi)
    }
}

/// The index of the first `变量` in `line[lo..hi]`.
fn find_variable_keyword(src: &Vec<char>, lo: usize, hi: usize) -> (r: Option<usize>)
    requires
        lo <= hi <= src@.len(),
    ensures
        r matches Some(k) ==> lo <= k && k + 2 <= hi && src@[k as int] == '变' && src@[k + 1] == '量',
        match r {
            Some(k) => first_variable_keyword(src@, lo as int, hi as int) == Some(k as int),
            None => first_variable_keyword(src@, lo as int, hi as int) is None,
        },
{
    let mut k = lo;
    while k < hi && k + 1 < hi
        invariant
            lo <= k <= hi,
            hi <= src@.len(),
            first_variable_keyword(src@, k as int, hi as int) == first_variable_keyword(src@, lo as int, hi as int),
        decreases hi - k,
    {
        if src[k] == '变' && src[k + 1] == '量' {
            return Some(k);
        }
        k += 1;
    }
    None
}

/// The declaration line with `可变 ` inserted before its first `变量`: the
/// line number, the new line, the column of the insertion and its width.
pub open spec fn mutable_suggestion_spec(src: Seq<char>, declaration_span: Span) -> Option<(nat, Seq<char>, int, int)> {
    let (line_no, _, start) = line_col_spec(src, declaration_span.start as int);
    let end: int = start as int + line_text(src, start as int).len();
    match first_variable_keyword(src, start as int, end) {
        Some(k) => Some(
            (line_no, src.subrange(start as int, k) + "可变 "@ + src.subrange(k, end), k - start + 1, 3),
        ),
        None => None,
    }
}

/// The declaration line with `可变 ` inserted before `变量`: its line
/// number, text, the column of the insertion and its width.
fn mutable_suggestion(src: &Vec<char>, declaration_span: Span) -> (r: Option<(usize, String, usize, usize)>)
    requires
        src@.len() < usize::MAX,
    ensures
        match r {
            Some((line_no, text, col, width)) => mutable_suggestion_spec(src@, declaration_span) == Some(
                (line_no as nat, text@, col as int, width as int),
            ),
            None => mutable_suggestion_spec(src@, declaration_span) is None,
        },
{
    let (line_no, _, start) = line_col(src, declaration_span.start);
    let (ls, le) = line_bounds(src, start);
    let k = find_variable_keyword(src, ls, le)?;
    let mut suggested = String::new();
    push_chars(&mut suggested, src, ls, k);
    push_str(&mut suggested, "可变 ");
    push_chars(&mut suggested, src, k, le);
    Some((line_no, suggested, k - ls + 1, 3))
}

/// The title line of the immutable-assignment diagnostic.
pub open spec fn immutable_title(name: Seq<char>) -> Seq<char> {
    "错误[E0384]: 不能给不可变变量 `"@ + name + "` 重复赋值\n"@
}

/// The line with `可变 ` inserted, its number right-aligned to `width`,
/// and a `+` run under the insertion.
pub open spec fn suggested_lines(width: nat, line_no: nat, suggested: Seq<char>, plus_col: int, plus_width: int) -> Seq<char> {
    let nw = dec(line_no).len();
    repeat(' ', width) + " |\n"@ + (if nw < width {
        repeat(' ', (width - nw) as nat)
    } else {
        Seq::empty()
    }) + dec(line_no) + " | "@ + suggested + "\n"@ + repeat(' ', width) + " | "@ + repeat(
        ' ',
        (if plus_col >= 1 { plus_col - 1 } else { 0 }) as nat,
    ) + repeat('+', plus_width as nat) + "\n"@
}

/// The closing lines of the immutable-assignment diagnostic: the line with
/// `可变 ` inserted and a `+` run under the insertion, or a help line where
/// the declaration shows no `变量`.
#[verifier::opaque]
pub open spec fn suggestion_text(src: Seq<char>, declaration_span: Span, width: nat) -> Seq<char> {
    match mutable_suggestion_spec(src, declaration_span) {
        Some((line_no, suggested, plus_col, plus_width)) => suggested_lines(width, line_no, suggested, plus_col, plus_width),
        None => "  = 帮助: 将声明改为 `定义 可变 变量：...`，或使用 `设` 声明可变变量。\n"@,
    }
}

/// The diagnostic for assigning to an immutable variable, quoting the
/// declaration and the assignment; only its title where the source is too
/// long to index.
pub open spec fn immutable_text(
    source_name: Option<Seq<char>>,
    src: Seq<char>,
    name: Seq<char>,
    declaration_span: Span,
    assignment_span: Span,
) -> Seq<char> {
    if src.len() >= usize::MAX {
        immutable_title(name)
    } else {
        let (assign_line, assign_col, _) = line_col_spec(src, assignment_span.start as int);
        let decl_line = line_col_spec(src, declaration_span.start as int).0;
        let widest = if assign_line >= decl_line { assign_line } else { decl_line };
        let width = dec(widest).len();
        immutable_title(name) + location_text(source_name, assign_line, assign_col) + repeat(' ', width)
            + " |\n"@ + span_note_text(src, declaration_span, "第一次赋值给 `"@ + name + "`"@, width, true)
            + span_note_text(src, assignment_span, "不能给不可变变量重复赋值"@, width, false) + repeat(' ', width)
            + " |\n"@ + "帮助: 可以把这个绑定声明为可变\n"@ + suggestion_text(src, declaration_span, width)
    }
}

/// Appends the suggestion to declare the variable mutable (see
/// `suggestion_text`).
fn push_suggestion(out: &mut String, src: &Vec<char>, declaration_span: Span, line_number_width: usize)
    requires
        src@.len() < usize::MAX,
    ensures
        final(out)@ == old(out)@ + suggestion_text(src@, declaration_span, line_number_width as nat),
{
    let ghost before = out@;
    let ghost width = line_number_width as nat;
    reveal(suggestion_text);
    match mutable_suggestion(src, declaration_span) {
        Some((line_no, suggested, plus_col, plus_width)) => {
            push_repeat(out, ' ', line_number_width);
            push_str(out, " |\n");
            let n = usize_to_string(line_no);
            let nw = n.as_str().unicode_len();
            if nw < line_number_width {
                push_repeat(out, ' ', line_number_width - nw);
            }
            push_str(out, n.as_str());
            push_str(out, " | ");
            push_str(out, suggested.as_str());
            push_str(out, "\n");
            push_repeat(out, ' ', line_number_width);
            push_str(out, " | ");
            push_repeat(out, ' ', if plus_col >= 1 { plus_col - 1 } else { 0 });
            push_repeat(out, '+', plus_width);
            push_str(out, "\n");
            assert(out@ =~= before + suggested_lines(width, line_no as nat, suggested@, plus_col as int, plus_width as int));
        },
        None => {
            push_str(out, "  = 帮助: 将声明改为 `定义 可变 变量：...`，或使用 `设` 声明可变变量。\n");
        },
    }
}

/// The diagnostic for assigning to an immutable variable: both the
/// declaration and the assignment are quoted, with a suggestion to declare
/// the variable mutable.
fn render_immutable_assignment(
    source_name: Option<&str>,
    source: &str,
    name: &str,
    declaration_span: Span,
    assignment_span: Span,
) -> (r: String)
    ensures
        r@ == immutable_text(
            match source_name {
                Some(n) => Some(n@),
                None => None,
            },
            source@,
            name@,
            declaration_span,
            assignment_span,
        ),
{
    let src = str_chars(source);
    if src.len() >= usize::MAX {
        return concat3("错误[E0384]: 不能给不可变变量 `", name, "` 重复赋值\n");
    }
    let (assign_line, assign_col, _) = line_col(&src, assignment_span.start);
    let (decl_line, _, _) = line_col(&src, declaration_span.start);
    let widest = if assign_line >= decl_line { assign_line } else { decl_line };
    let widest_str = usize_to_string(widest);
    let line_number_width = widest_str.as_str().unicode_len();
    let mut out = concat3("错误[E0384]: 不能给不可变变量 `", name, "` 重复赋值\n");
    push_location(&mut out, source_name, assign_line, assign_col);
    push_repeat(&mut out, ' ', line_number_width);
    push_str(&mut out, " |\n");
    let first = concat3("第一次赋值给 `", name, "`");
    push_span_note(&mut out, &src, declaration_span, first.as_str(), line_number_width, true);
    push_span_note(&mut out, &src, assignment_span, "不能给不可变变量重复赋值", line_number_width, false);
    push_repeat(&mut out, ' ', line_number_width);
    push_str(&mut out, " |\n");
    push_str(&mut out, "帮助: 可以把这个绑定声明为可变\n");
    push_suggestion(&mut out, &src, declaration_span, line_number_width);
    out
}

} // verus!
