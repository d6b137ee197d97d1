use vstd::prelude::*;
use crate::parser::{
    BinaryOp, Expr, FormatPart, FunctionDef, ImportDecl, Program, SpecType, StructField, Type,
    UnaryOp, VarDecl, copy_type, trim, trimmed_bounds, type_view,
};
use crate::semantic::{
    FnCtx, ImportView, LocalView, Locals, field_type, find_arrow, find_arrow_exec, find_function,
    find_function_index, find_method, find_method_index, find_object, find_object_index,
    find_struct, find_struct_index, fn_ctx, imports_view, is_unsized_array,
    is_unsized_array_spec, resolve_declared_type, resolve_declared_type_spec,
    resolve_execute_target, resolve_target, type_text, type_text_spec,
};
use crate::text::{chars_to_string, concat3, copy_string, owned, push_str, str_chars};

verus! {

broadcast use vstd::string::group_string_axioms;

// ---------------------------------------------------------------------------
// The types code generation gives expressions. They follow the analysis,
// but read less: code generation runs on analysed programs.
// ---------------------------------------------------------------------------

/// The first field called `name` from `i` on, by position.
pub open spec fn find_field_index(fields: Seq<StructField>, name: Seq<char>, i: int) -> Option<int>
    decreases fields.len() - i,
{
    if i < 0 || i >= fields.len() {
        None
    } else if fields[i].name@ == name {
        Some(i)
    } else {
        find_field_index(fields, name, i + 1)
    }
}

/// The fields of the struct or else the object called `name`.
pub open spec fn aggregate_fields_spec(p: Program, name: Seq<char>) -> Option<Seq<StructField>> {
    match find_struct(p, name, 0) {
        Some(i) => Some(p.structs@[i].fields@),
        None => match find_object(p, name, 0) {
            Some(j) => Some(p.objects@[j].fields@),
            None => None,
        },
    }
}

/// The position and type of a field of a struct or object, or the error
/// that names what is missing.
pub open spec fn field_info_result(p: Program, name: Seq<char>, field: Seq<char>) -> Result<(int, SpecType), Seq<char>> {
    match aggregate_fields_spec(p, name) {
        Some(fields) => match find_field_index(fields, field, 0) {
            Some(k) => Ok((k, fields[k].field_type@)),
            None => Err("结构或对象 `"@ + name + "` 没有字段 `"@ + field + "`"@),
        },
        None => Err("未定义的结构或对象: "@ + name),
    }
}

/// The type of a local variable.
pub open spec fn local_type_spec(locals: Map<Seq<char>, LocalView>, name: Seq<char>) -> Option<SpecType> {
    if locals.contains_key(name) {
        Some(locals[name].0)
    } else {
        None
    }
}

pub open spec fn field_access_error(t: SpecType) -> Seq<char> {
    "不能对 "@ + type_text_spec(t) + " 类型使用字段访问"@
}

/// The type of a placeholder: `base->field` of a struct or object local,
/// or a local variable; else the error that says why not.
pub open spec fn placeholder_result(p: Program, locals: Map<Seq<char>, LocalView>, name: Seq<char>) -> Result<SpecType, Seq<char>> {
    let a = find_arrow(name, 0);
    if a < name.len() {
        let base = trim(name.subrange(0, a));
        match local_type_spec(locals, base) {
            Some(SpecType::Struct(s)) => match field_info_result(p, s, trim(name.subrange(a + 2, name.len() as int))) {
                Ok((_, t)) => Ok(t),
                Err(m) => Err(m),
            },
            Some(t) => Err(field_access_error(t)),
            None => Err("未定义的格式化变量: "@ + base),
        }
    } else {
        match local_type_spec(locals, name) {
            Some(t) => Ok(t),
            None => Err("未定义的格式化变量: "@ + name),
        }
    }
}

/// The placeholders from part `i` on have types, or the error of the first
/// that has none.
pub open spec fn placeholders_result(p: Program, locals: Map<Seq<char>, LocalView>, parts: Seq<FormatPart>, i: int) -> Result<(), Seq<char>>
    decreases parts.len() - i,
{
    if i < 0 || i >= parts.len() {
        Ok(())
    } else {
        match parts[i] {
            FormatPart::Placeholder(n) => match placeholder_result(p, locals, n@) {
                Ok(_) => placeholders_result(p, locals, parts, i + 1),
                Err(m) => Err(m),
            },
            FormatPart::Text(_) => placeholders_result(p, locals, parts, i + 1),
        }
    }
}

pub open spec fn method_missing_error(object: Seq<char>, method: Seq<char>) -> Seq<char> {
    "对象 `"@ + object + "` 没有方法 `"@ + method + "`"@
}

/// The return type of the method `method` of the first object called
/// `object`.
pub open spec fn object_method_result(p: Program, object: Seq<char>, method: Seq<char>) -> Result<SpecType, Seq<char>> {
    match find_object(p, object, 0) {
        Some(oi) => match find_method(p.objects@[oi].methods@, method, 0) {
            Some(mi) => Ok(p.objects@[oi].methods@[mi].function.return_type@),
            None => Err(method_missing_error(object, method)),
        },
        None => Err(method_missing_error(object, method)),
    }
}

/// The type code generation gives an expression, or the error that stops
/// it.
pub open spec fn infer_result(p: Program, ctx: FnCtx, imports: Seq<ImportView>, locals: Map<Seq<char>, LocalView>, e: Expr) -> Result<SpecType, Seq<char>>
    decreases e, 0int,
{
    match e {
        Expr::IntLiteral(_) => Ok(SpecType::Int),
        Expr::DoubleLiteral(_) => Ok(SpecType::Double),
        Expr::StringLiteral(_) => Ok(SpecType::String),
        Expr::Ident(n) => match local_type_spec(locals, n@) {
            Some(t) => Ok(t),
            None => Err("未定义的变量: "@ + n@),
        },
        Expr::FormattedString(parts) => match placeholders_result(p, locals, parts@, 0) {
            Ok(_) => Ok(SpecType::String),
            Err(m) => Err(m),
        },
        Expr::Call { target, .. } => match resolve_target(p, ctx, imports, target@) {
            Some(path) => match find_function(p, path, 0) {
                Some(k) => Ok(p.functions@[k].return_type@),
                None => Err("未找到方法: "@ + path),
            },
            None => Err("未找到模块或方法: "@ + target@),
        },
        Expr::StructLiteral { name, .. } => Ok(SpecType::Struct(name@)),
        Expr::ObjectCreate { name, .. } => Ok(SpecType::Struct(name@)),
        Expr::ArrayLiteral(elements) => if elements@.len() == 0 {
            Err("数组字面量不能为空"@)
        } else {
            match elements_result(p, ctx, imports, locals, elements, 0) {
                Ok(_) => Ok(SpecType::Array { element_type: Box::new(SpecType::Int), length: Some(elements@.len() as usize) }),
                Err(m) => Err(m),
            }
        },
        Expr::Index { array, index } => match infer_result(p, ctx, imports, locals, *array) {
            Ok(at) => match infer_result(p, ctx, imports, locals, *index) {
                Ok(SpecType::Int) => match at {
                    SpecType::Array { element_type, .. } => Ok(*element_type),
                    _ => Err("不能对 "@ + type_text_spec(at) + " 类型使用数组访问"@),
                },
                Ok(it) => Err("数组下标必须是整数，实际为 "@ + type_text_spec(it)),
                Err(m) => Err(m),
            },
            Err(m) => Err(m),
        },
        Expr::FieldAccess { base, field } => match infer_result(p, ctx, imports, locals, *base) {
            Ok(SpecType::Struct(s)) => match field_info_result(p, s, field@) {
                Ok((_, t)) => Ok(t),
                Err(m) => Err(m),
            },
            Ok(t) => Err(field_access_error(t)),
            Err(m) => Err(m),
        },
        Expr::MethodCall { receiver, method, .. } => match infer_result(p, ctx, imports, locals, *receiver) {
            Ok(SpecType::Struct(o)) => object_method_result(p, o, method@),
            Ok(t) => Err("不能对 "@ + type_text_spec(t) + " 类型调用对象方法"@),
            Err(m) => Err(m),
        },
        Expr::Unary { op, expr } => match op {
            UnaryOp::Neg => infer_result(p, ctx, imports, locals, *expr),
            UnaryOp::Not => Ok(SpecType::Bool),
        },
        Expr::Binary { left, op, .. } => match op {
            BinaryOp::Add | BinaryOp::Sub | BinaryOp::Mul | BinaryOp::Div | BinaryOp::Rem => infer_result(
                p,
                ctx,
                imports,
                locals,
                *left,
            ),
            _ => Ok(SpecType::Bool),
        },
    }
}

/// Every element from `i` on is an integer, or the error of the first that
/// is not.
pub open spec fn elements_result(p: Program, ctx: FnCtx, imports: Seq<ImportView>, locals: Map<Seq<char>, LocalView>, elements: Vec<Expr>, i: int) -> Result<(), Seq<char>>
    decreases elements, elements@.len() - i,
{
    if i < 0 || i >= elements@.len() {
        Ok(())
    } else {
        match infer_result(p, ctx, imports, locals, elements@[i]) {
            Ok(SpecType::Int) => elements_result(p, ctx, imports, locals, elements, i + 1),
            Ok(t) => Err("数组元素暂只支持整数，实际为 "@ + type_text_spec(t)),
            Err(m) => Err(m),
        }
    }
}

/// The type a variable declaration gives its variable in code generation,
/// or the error that stops it.
pub open spec fn var_type_result(p: Program, ctx: FnCtx, imports: Seq<ImportView>, locals: Map<Seq<char>, LocalView>, v: VarDecl) -> Result<SpecType, Seq<char>> {
    match (v.var_type, v.init) {
        (Some(t), Some(init)) => match infer_result(p, ctx, imports, locals, init) {
            Ok(it) => match resolve_declared_type_spec(t@, it) {
                Some(r) => Ok(r),
                None => Err(
                    "变量初始化类型不匹配: `"@ + v.name@ + "`\n  = 声明类型: "@ + type_text_spec(t@) + "\n  = 表达式类型: "@
                        + type_text_spec(it),
                ),
            },
            Err(m) => Err(m),
        },
        (Some(t), None) => if is_unsized_array_spec(t@) {
            Err("数组预定义缺少长度: "@ + v.name@)
        } else {
            Ok(t@)
        },
        (None, Some(init)) => infer_result(p, ctx, imports, locals, init),
        (None, None) => Err("预定义变量缺少类型: "@ + v.name@),
    }
}

fn find_field_index_exec(fields: &Vec<StructField>, name: &String) -> (r: Option<usize>)
    ensures
        match r {
            Some(k) => k < fields@.len() && find_field_index(fields@, name@, 0) == Some(k as int),
            None => find_field_index(fields@, name@, 0) is None,
        },
{
    let mut i: usize = 0;
    while i < fields.len()
        invariant
            i <= fields@.len(),
            find_field_index(fields@, name@, i as int) == find_field_index(fields@, name@, 0),
        decreases fields@.len() - i,
    {
        if fields[i].name == *name {
            return Some(i);
        }
        i += 1;
    }
    None
}

/// `a` followed by `b`.
fn join2(a: &str, b: &str) -> (r: String)
    ensures
        r@ == a@ + b@,
{
    let mut r = owned(a);
    push_str(&mut r, b);
    r
}

/// The fields of the struct or else the object called `name`.
pub fn aggregate_fields<'a>(program: &'a Program, name: &String) -> (r: Result<&'a Vec<StructField>, String>)
    ensures
        match r {
            Ok(fields) => aggregate_fields_spec(*program, name@) == Some(fields@),
            Err(m) => aggregate_fields_spec(*program, name@) is None && m@ == "未定义的结构或对象: "@ + name@,
        },
{
    if let Some(i) = find_struct_index(program, name) {
        return Ok(&program.structs[i].fields);
    }
    if let Some(j) = find_object_index(program, name) {
        return Ok(&program.objects[j].fields);
    }
    Err(join2("未定义的结构或对象: ", name.as_str()))
}

/// The position and type of `field` in the struct or object called
/// `struct_name`.
pub fn struct_field_info(program: &Program, struct_name: &String, field: &String) -> (r: Result<(usize, Type), String>)
    ensures
        match r {
            Ok((k, t)) => field_info_result(*program, struct_name@, field@) == Ok::<(int, SpecType), Seq<char>>((k as int, t@)),
            Err(m) => field_info_result(*program, struct_name@, field@) == Err::<(int, SpecType), Seq<char>>(m@),
        },
{
    let fields = aggregate_fields(program, struct_name)?;
    match find_field_index_exec(fields, field) {
        Some(k) => Ok((k, copy_type(&fields[k].field_type))),
        None => {
            let mut m = concat3("结构或对象 `", struct_name.as_str(), "` 没有字段 `");
            push_str(&mut m, field.as_str());
            push_str(&mut m, "`");
            Err(m)
        },
    }
}

fn local_type(locals: &Locals, name: &String) -> (r: Option<Type>)
    ensures
        match r {
            Some(t) => local_type_spec(locals@, name@) == Some(t@),
            None => local_type_spec(locals@, name@) is None,
        },
{
    match locals.get(name) {
        Some(info) => Some(copy_type(&info.ty)),
        None => None,
    }
}

/// The error for a field access on a value of type `ty`.
fn field_access_error_text(ty: &Type) -> (r: String)
    ensures
        r@ == field_access_error(ty@),
{
    let n = type_text(ty);
    concat3("不能对 ", n.as_str(), " 类型使用字段访问")
}

/// The type of a formatted-string placeholder (see `placeholder_result`).
pub fn infer_format_placeholder_type(name: &String, program: &Program, locals: &Locals) -> (r: Result<Type, String>)
    ensures
        match r {
            Ok(t) => placeholder_result(*program, locals@, name@) == Ok::<SpecType, Seq<char>>(t@),
            Err(m) => placeholder_result(*program, locals@, name@) == Err::<SpecType, Seq<char>>(m@),
        },
{
    let chars = str_chars(name.as_str());
    let a = find_arrow_exec(&chars);
    if a < chars.len() {
        let (b0, b1) = trimmed_bounds(&chars, 0, a);
        let base = chars_to_string(&chars, b0, b1);
        let (f0, f1) = trimmed_bounds(&chars, a + 2, chars.len());
        let field = chars_to_string(&chars, f0, f1);
        let base_ty = match local_type(locals, &base) {
            Some(t) => t,
            None => {
                return Err(join2("未定义的格式化变量: ", base.as_str()));
            },
        };
        match base_ty {
            Type::Struct(struct_name) => {
                let (_, t) = struct_field_info(program, &struct_name, &field)?;
                Ok(t)
            },
            other => Err(field_access_error_text(&other)),
        }
    } else {
        match local_type(locals, name) {
            Some(t) => Ok(t),
            None => Err(join2("未定义的格式化变量: ", name.as_str())),
        }
    }
}

fn infer_placeholders(parts: &Vec<FormatPart>, program: &Program, locals: &Locals) -> (r: Result<(), String>)
    ensures
        match r {
            Ok(_) => placeholders_result(*program, locals@, parts@, 0) == Ok::<(), Seq<char>>(()),
            Err(m) => placeholders_result(*program, locals@, parts@, 0) == Err::<(), Seq<char>>(m@),
        },
{
    let mut i: usize = 0;
    while i < parts.len()
        invariant
            i <= parts@.len(),
            placeholders_result(*program, locals@, parts@, i as int) == placeholders_result(*program, locals@, parts@, 0),
        decreases parts@.len() - i,
    {
        match &parts[i] {
            FormatPart::Placeholder(name) => {
                infer_format_placeholder_type(name, program, locals)?;
            },
            FormatPart::Text(_) => {},
        }
        i += 1;
    }
    Ok(())
}

/// The type of `base->field`.
pub fn infer_field_type(
    base: &Expr,
    field: &String,
    current_func: &FunctionDef,
    program: &Program,
    scoped_imports: &[ImportDecl],
    locals: &Locals,
) -> (r: Result<Type, String>)
    ensures
        match r {
            Ok(t) => infer_result(*program, fn_ctx(*current_func), imports_view(scoped_imports@), locals@, Expr::FieldAccess { base: Box::new(*base), field: *field }) == Ok::<SpecType, Seq<char>>(t@),
            Err(m) => infer_result(*program, fn_ctx(*current_func), imports_view(scoped_imports@), locals@, Expr::FieldAccess { base: Box::new(*base), field: *field }) == Err::<SpecType, Seq<char>>(m@),
        },
    decreases base, 3int,
{
    let base_type = infer_type_from_expr(base, current_func, program, scoped_imports, locals)?;
    match base_type {
        Type::Struct(struct_name) => {
            let (_, t) = struct_field_info(program, &struct_name, field)?;
            Ok(t)
        },
        other => Err(field_access_error_text(&other)),
    }
}

fn infer_array_literal(
    elements: &Vec<Expr>,
    current_func: &FunctionDef,
    program: &Program,
    scoped_imports: &[ImportDecl],
    locals: &Locals,
) -> (r: Result<Type, String>)
    ensures
        match r {
            Ok(t) => infer_result(*program, fn_ctx(*current_func), imports_view(scoped_imports@), locals@, Expr::ArrayLiteral(*elements)) == Ok::<SpecType, Seq<char>>(t@),
            Err(m) => infer_result(*program, fn_ctx(*current_func), imports_view(scoped_imports@), locals@, Expr::ArrayLiteral(*elements)) == Err::<SpecType, Seq<char>>(m@),
        },
    decreases elements, 1int,
{
    let ghost ctx = fn_ctx(*current_func);
    let ghost iv = imports_view(scoped_imports@);
    if elements.len() == 0 {
        return Err(owned("数组字面量不能为空"));
    }
    let mut i: usize = 0;
    while i < elements.len()
        invariant
            i <= elements@.len(),
            ctx == fn_ctx(*current_func),
            iv == imports_view(scoped_imports@),
            elements_result(*program, ctx, iv, locals@, *elements, i as int) == elements_result(
                *program,
                ctx,
                iv,
                locals@,
                *elements,
                0,
            ),
        decreases elements@.len() - i,
    {
        proof {
            assert(decreases_to!(elements => elements@[i as int]));
        }
        let element_type = infer_type_from_expr(&elements[i], current_func, program, scoped_imports, locals)?;
        if !matches!(element_type, Type::Int) {
            let n = type_text(&element_type);
            return Err(join2("数组元素暂只支持整数，实际为 ", n.as_str()));
        }
        i += 1;
    }
    assert(type_view(Type::Int) == SpecType::Int);
    Ok(Type::Array { element_type: Box::new(Type::Int), length: Some(elements.len()) })
}

/// The type code generation gives an expression (see `infer_result`).
pub fn infer_type_from_expr(
    expr: &Expr,
    current_func: &FunctionDef,
    program: &Program,
    scoped_imports: &[ImportDecl],
    locals: &Locals,
) -> (r: Result<Type, String>)
    ensures
        match r {
            Ok(t) => infer_result(*program, fn_ctx(*current_func), imports_view(scoped_imports@), locals@, *expr) == Ok::<SpecType, Seq<char>>(t@),
            Err(m) => infer_result(*program, fn_ctx(*current_func), imports_view(scoped_imports@), locals@, *expr) == Err::<SpecType, Seq<char>>(m@),
        },
    decreases expr, 2int,
{
    match expr {
        Expr::IntLiteral(_) => Ok(Type::Int),
        Expr::DoubleLiteral(_) => Ok(Type::Double),
        Expr::StringLiteral(_) => Ok(Type::String),
        Expr::Ident(name) => match local_type(locals, name) {
            Some(t) => Ok(t),
            None => Err(join2("未定义的变量: ", name.as_str())),
        },
        Expr::FormattedString(parts) => {
            infer_placeholders(parts, program, locals)?;
            Ok(Type::String)
        },
        Expr::Call { target, .. } => {
            let resolved = match resolve_execute_target(program, current_func, scoped_imports, target.as_str()) {
                Some(r) => r,
                None => {
                    return Err(join2("未找到模块或方法: ", target.as_str()));
                },
            };
            match find_function_index(program, &resolved) {
                Some(k) => Ok(copy_type(&program.functions[k].return_type)),
                None => Err(join2("未找到方法: ", resolved.as_str())),
            }
        },
        Expr::StructLiteral { name, .. } => Ok(Type::Struct(copy_string(name))),
        Expr::ObjectCreate { name, .. } => Ok(Type::Struct(copy_string(name))),
        Expr::ArrayLiteral(elements) => infer_array_literal(elements, current_func, program, scoped_imports, locals),
        Expr::Index { array, index } => {
            let array_type = infer_type_from_expr(array, current_func, program, scoped_imports, locals)?;
            let index_type = infer_type_from_expr(index, current_func, program, scoped_imports, locals)?;
            if !matches!(index_type, Type::Int) {
                let n = type_text(&index_type);
                return Err(join2("数组下标必须是整数，实际为 ", n.as_str()));
            }
            match array_type {
                Type::Array { element_type, .. } => Ok(*element_type),
                other => {
                    let n = type_text(&other);
                    Err(concat3("不能对 ", n.as_str(), " 类型使用数组访问"))
                },
            }
        },
        Expr::FieldAccess { base, field } => infer_field_type(base, field, current_func, program, scoped_imports, locals),
        Expr::MethodCall { receiver, method, .. } => {
            let receiver_type = infer_type_from_expr(receiver, current_func, program, scoped_imports, locals)?;
            let object_name = match receiver_type {
                Type::Struct(object_name) => object_name,
                other => {
                    let n = type_text(&other);
                    return Err(concat3("不能对 ", n.as_str(), " 类型调用对象方法"));
                },
            };
            let mut not_found = concat3("对象 `", object_name.as_str(), "` 没有方法 `");
            push_str(&mut not_found, method.as_str());
            push_str(&mut not_found, "`");
            let oi = match find_object_index(program, &object_name) {
                Some(oi) => oi,
                None => {
                    return Err(not_found);
                },
            };
            match find_method_index(&program.objects[oi].methods, method) {
                Some(mi) => Ok(copy_type(&program.objects[oi].methods[mi].function.return_type)),
                None => Err(not_found),
            }
        },
        Expr::Unary { op, expr: inner } => match op {
            UnaryOp::Neg => infer_type_from_expr(inner, current_func, program, scoped_imports, locals),
            UnaryOp::Not => Ok(Type::Bool),
        },
        Expr::Binary { left, op, .. } => match op {
            BinaryOp::Add | BinaryOp::Sub | BinaryOp::Mul | BinaryOp::Div | BinaryOp::Rem => infer_type_from_expr(
                left,
                current_func,
                program,
                scoped_imports,
                locals,
            ),
            _ => Ok(Type::Bool),
        },
    }
}

/// The type a variable declaration gives its variable (see
/// `var_type_result`).
pub fn resolve_var_type(
    var: &VarDecl,
    current_func: &FunctionDef,
    program: &Program,
    scoped_imports: &[ImportDecl],
    locals: &Locals,
) -> (r: Result<Type, String>)
    ensures
        match r {
            Ok(t) => var_type_result(*program, fn_ctx(*current_func), imports_view(scoped_imports@), locals@, *var) == Ok::<SpecType, Seq<char>>(t@),
            Err(m) => var_type_result(*program, fn_ctx(*current_func), imports_view(scoped_imports@), locals@, *var) == Err::<SpecType, Seq<char>>(m@),
        },
{
    match (&var.var_type, &var.init) {
        (Some(declared), Some(init)) => {
            let inferred = infer_type_from_expr(init, current_func, program, scoped_imports, locals)?;
            match resolve_declared_type(declared, &inferred) {
                Some(t) => Ok(t),
                None => {
                    let d = type_text(declared);
                    let i = type_text(&inferred);
                    let mut m = concat3("变量初始化类型不匹配: `", var.name.as_str(), "`\n  = 声明类型: ");
                    push_str(&mut m, d.as_str());
                    push_str(&mut m, "\n  = 表达式类型: ");
                    push_str(&mut m, i.as_str());
                    Err(m)
                },
            }
        },
        (Some(declared), None) => {
            if is_unsized_array(declared) {
                Err(join2("数组预定义缺少长度: ", var.name.as_str()))
            } else {
                Ok(copy_type(declared))
            }
        },
        (None, Some(init)) => infer_type_from_expr(init, current_func, program, scoped_imports, locals),
        (None, None) => Err(join2("预定义变量缺少类型: ", var.name.as_str())),
    }
}

} // verus!
