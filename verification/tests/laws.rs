use ascompiler::lexer::{Lexer, Token};
use ascompiler::parser::{FormatPart, Parser, Program, Stmt, parse_format_parts};
use ascompiler::semantic::analyze;
use ascompiler::stdlib::{merge_with_standard_library, parse_standard_library};
use ascompiler::symbols::sanitize_llvm_name;

fn parse_program(source: &str) -> Program {
    Parser::new(Lexer::new(source))
        .parse_program()
        .expect("Parse failed")
}

const FUNCTION_HINT: &str = "\n  = 帮助: 语义错误通常不是标点问题，而是名字解析、类型或可变性不满足要求；请从上面指出的实体开始检查。";

fn in_function(message: &str, path: &str) -> String {
    format!("{}\n --> 方法 `{}`{}", message, path, FUNCTION_HINT)
}

#[test]
fn test_let_declares_mutable_untyped_variable() {
    let program = parse_program("定义 方法 测试（）返回 无：设 x=1。。");
    match &program.functions[0].body[0] {
        Stmt::VarDecl(var) => {
            assert_eq!(var.name, "x");
            assert!(var.is_mutable);
            assert!(var.var_type.is_none());
            assert!(var.init.is_some());
        }
        other => panic!("Expected VarDecl, found {:?}", other),
    }
}

#[test]
fn test_object_methods_are_functions_too() {
    let program = parse_program(
        "定义对象向量：结构：x：小数 公共成员：定义方法读取x（）返回 小数：返回 当前->x。。。。",
    );
    assert_eq!(program.objects[0].methods.len(), 1);
    let method = &program.objects[0].methods[0].function;
    assert_eq!(method.name, "读取x");
    assert!(program.functions.iter().any(|f| f == method));
}

#[test]
fn test_entry_mark_applies_to_next_function_only() {
    let program = parse_program(
        "@声明 入口\n定义 方法 主（）返回 无：。。\n定义 方法 其他（）返回 无：。。",
    );
    assert!(program.functions[0].is_entry);
    assert!(!program.functions[1].is_entry);
    assert!(program.has_entry);
}

#[test]
fn test_sanitized_name_is_llvm_identifier() {
    let encoded = sanitize_llvm_name("名1");
    assert_eq!(encoded, "_540d_1");
    assert!(!encoded.starts_with(|c: char| c.is_ascii_digit()));
    assert!(encoded
        .chars()
        .all(|c| c.is_ascii_alphanumeric() || "_.$-".contains(c)));
    for name in ["", "1a", "9", "-x", "名"] {
        let out = sanitize_llvm_name(name);
        assert!(!out.is_empty());
        assert!(!out.starts_with(|c: char| c.is_ascii_digit()));
        assert!(out.chars().all(|c| c.is_ascii_alphanumeric() || "_.$-".contains(c)));
    }
}

#[test]
fn test_format_parts_never_two_texts_in_a_row() {
    let parts = parse_format_parts("a{{b}}c{x}d}}e").expect("format parse failed");
    assert_eq!(
        parts,
        vec![
            FormatPart::Text("a{b}c".to_string()),
            FormatPart::Placeholder("x".to_string()),
            FormatPart::Text("d}e".to_string()),
        ]
    );
}

#[test]
fn test_keyword_lookahead_matches_keyword() {
    let mut lexer = Lexer::new("定义x");
    assert_eq!(lexer.next_token(), Token::Define);
    assert_eq!(lexer.last_span().start, 0);
    assert_eq!(lexer.last_span().end, 2);
    assert_eq!(lexer.next_token(), Token::Ident("x".to_string()));
    assert_eq!(lexer.next_token(), Token::Eof);
}

#[test]
fn test_analyze_immutable_assignment_message() {
    let program = parse_program("定义 方法 测试（）返回 无：定义 变量：cnt = 0 cnt = 1。。");
    let plain = "不可变变量不能重新赋值: `cnt`\n  = 原因: `定义 变量` 默认不可变\n  = 帮助: 如果需要重新赋值，请声明为 `定义 可变 变量：cnt = ...`，或使用 `设 cnt`。";
    assert_eq!(analyze(&program), Err(in_function(plain, "测试")));
}

#[test]
fn test_analyze_select_case_type_message() {
    let program = parse_program("定义 方法 测试（）返回 无：设 x=1 当前x：取“不是整数”：返回。。。。");
    let message = "选择分支类型不匹配\n  = 当前变量 `x`: 整数\n  = 取值: 字符串";
    assert_eq!(analyze(&program), Err(in_function(message, "测试")));
}

#[test]
fn test_analyze_out_of_bounds_index_message() {
    let program = parse_program("定义 方法 测试（）返回 整数：定义变量：数组 arr = [1,2,3] 返回 arr[3]。。");
    let message = "数组下标越界\n  = 数组长度: 3\n  = 下标: 3\n  = 帮助: 数组下标从 0 开始。";
    assert_eq!(analyze(&program), Err(in_function(message, "测试")));
}

#[test]
fn test_analyze_missing_declared_type_message() {
    let program = parse_program("定义 方法 测试（）返回 无：定义变量：x x=10。。");
    let message = "预定义变量 `x` 缺少类型\n  = 帮助: 预定义变量需要写出类型，例如 `定义 变量：整数x`。";
    assert_eq!(analyze(&program), Err(in_function(message, "测试")));
}

#[test]
fn test_analyze_private_field_message() {
    let program = parse_program(
        "定义对象向量：结构：x：小数 公共成员：定义方法读取x（）返回 小数：返回 当前->x。。。。定义 方法 测试（）返回 小数：设 向量1=创建向量（）返回 向量1->x。。",
    );
    let message = "对象 `向量` 的结构字段 `x` 默认私有，不能在对象外访问";
    assert_eq!(analyze(&program), Err(in_function(message, "测试")));
}

fn read_all(lexer: &mut Lexer, limit: usize) -> Vec<(Token, usize, usize)> {
    let mut out = Vec::new();
    for _ in 0..limit {
        let t = lexer.next_token();
        let span = lexer.last_span();
        let done = t == Token::Eof;
        out.push((t, span.start, span.end));
        if done {
            break;
        }
    }
    out
}

#[test]
fn test_reading_reaches_eof_within_length_plus_one() {
    for source in ["", "x", "定义 方法 主（）返回 无：。。", "设 x = 12 + 3", "  // 注释\n"] {
        let n = source.chars().count();
        let mut lexer = Lexer::new(source);
        let tokens = read_all(&mut lexer, n + 1);
        assert_eq!(tokens.last().map(|t| t.0.clone()), Some(Token::Eof));
    }
}

#[test]
fn test_named_lexer_reads_like_unnamed_and_keeps_text() {
    let source = "定义 变量：x = 1\n返回 x";
    let mut plain = Lexer::new(source);
    let mut named = Lexer::new_with_name(source, "a.as".to_string());
    let a = read_all(&mut plain, 64);
    let b = read_all(&mut named, 64);
    assert_eq!(a, b);
    assert_eq!(plain.source_text(), source);
    assert_eq!(named.source_text(), source);
    assert_eq!(plain.source_name(), None);
    assert_eq!(named.source_name(), Some("a.as"));
}

#[test]
fn test_declarations_without_value_are_mutable_at_any_depth() {
    let program = parse_program(
        "定义 方法 测试（）返回 无：判断 1：定义 变量：整数 a 定义 变量：b = 1 否则：设 c = 2。。。。",
    );
    match &program.functions[0].body[0] {
        Stmt::If(if_stmt) => {
            match &if_stmt.branches[0].body[0] {
                Stmt::VarDecl(v) => assert!(v.init.is_none() && v.is_mutable),
                other => panic!("Expected VarDecl, found {:?}", other),
            }
            match &if_stmt.branches[0].body[1] {
                Stmt::VarDecl(v) => assert!(v.init.is_some() && !v.is_mutable),
                other => panic!("Expected VarDecl, found {:?}", other),
            }
            match &if_stmt.else_body.as_ref().expect("else body")[0] {
                Stmt::VarDecl(v) => assert!(v.init.is_some() && v.is_mutable && v.var_type.is_none()),
                other => panic!("Expected VarDecl, found {:?}", other),
            }
        }
        other => panic!("Expected If, found {:?}", other),
    }
}

#[test]
fn test_format_parts_error_positions() {
    assert_eq!(
        parse_format_parts("a{{b}}{x}}"),
        Err("Single '}' in formatted string".to_string())
    );
    assert_eq!(
        parse_format_parts("{x}{  }{"),
        Err("Empty placeholder in formatted string".to_string())
    );
    assert_eq!(
        parse_format_parts("ok {{ {y"),
        Err("Unclosed placeholder in formatted string".to_string())
    );
}

#[test]
fn test_standard_library_always_parses() {
    let library = parse_standard_library().expect("standard library parses");
    assert_eq!(library.functions.len(), 2);
    assert!(library.functions.iter().all(|f| f.is_external));
    let merged = merge_with_standard_library(Program {
        has_entry: false,
        modules: Vec::new(),
        imports: Vec::new(),
        structs: Vec::new(),
        objects: Vec::new(),
        functions: Vec::new(),
    })
    .expect("merge succeeds");
    assert_eq!(merged.functions, library.functions);
}
