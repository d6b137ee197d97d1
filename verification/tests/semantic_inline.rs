use ascompiler::lexer::Lexer;
use ascompiler::parser::Parser;
use ascompiler::{semantic, stdlib};

use semantic::{analyze, resolve_execute_target};

#[test]
fn semantic_test_alias_resolves_standard_output() {
    let source =
        "引用 模块：标准库-输入输出-输出 为 输出\n定义 方法 测试（）返回 无：执行 输出：“你好”。。";
    let program = Parser::new(Lexer::new(source))
        .parse_program()
        .expect("Parse failed");
    let program = stdlib::merge_with_standard_library(program).expect("std merge failed");

    analyze(&program).expect("Semantic analysis failed");
    let func = program.functions.iter().find(|f| f.name == "测试").unwrap();
    let resolved =
        resolve_execute_target(&program, func, &program.imports, "输出").expect("Resolve failed");
    assert_eq!(resolved, stdlib::STD_IO_OUTPUT_PATH);
}

#[test]
fn semantic_test_missing_import_reports_error() {
    let source = "引用 模块：不存在\n定义 方法 测试（）返回 无：。。";
    let program = Parser::new(Lexer::new(source))
        .parse_program()
        .expect("Parse failed");

    let err = analyze(&program).expect_err("Expected semantic error");
    assert!(err.contains("未找到模块或方法"));
}
