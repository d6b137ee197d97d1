use ascompiler::cli::{
    FfiLinkOptions, check_source, default_output_path, ffi_link_args, parse_args, parse_output_arg, usage,
};
use ascompiler::lexer::{Lexer, Token};
use ascompiler::parser::{FormatPart, Parser, Program, Stmt, Type, parse_format_parts};
use ascompiler::semantic::{LocalInfo, Locals, analyze, function_path};
use ascompiler::stdlib::{
    STD_IO_INPUT_PATH, STD_IO_OUTPUT_PATH, external_symbol_for, merge_with_standard_library,
};
use ascompiler::symbols::{llvm_function_name, parse_symbol_name, sanitize_llvm_name};
use ascompiler::typing::{infer_type_from_expr, resolve_var_type, struct_field_info};

fn parse(source: &str) -> Program {
    Parser::new(Lexer::new(source))
        .parse_program()
        .expect("Parse failed")
}

fn args(values: &[&str]) -> Vec<String> {
    values.iter().map(|value| value.to_string()).collect()
}

#[test]
fn test_lexer_keeps_returning_eof() {
    let mut lexer = Lexer::new("x");
    assert_eq!(lexer.next_token(), Token::Ident("x".to_string()));
    assert_eq!(lexer.next_token(), Token::Eof);
    assert_eq!(lexer.next_token(), Token::Eof);
    let mut empty = Lexer::new("");
    assert_eq!(empty.next_token(), Token::Eof);
    assert_eq!(empty.next_token(), Token::Eof);
}

#[test]
fn test_lexer_named_source_and_span() {
    let mut lexer = Lexer::new_with_name("  定义", "demo.as".to_string());
    assert_eq!(lexer.source_name(), Some("demo.as"));
    assert_eq!(lexer.source_text(), "  定义");
    assert_eq!(lexer.next_token(), Token::Define);
    assert_eq!(lexer.last_span().start, 2);
    assert_eq!(lexer.last_span().end, 4);
}

#[test]
fn test_format_parts_split_and_escape() {
    let parts = parse_format_parts("你好，{ 名字 }{{x}}").expect("format parse failed");
    assert_eq!(
        parts,
        vec![
            FormatPart::Text("你好，".to_string()),
            FormatPart::Placeholder("名字".to_string()),
            FormatPart::Text("{x}".to_string()),
        ]
    );
}

#[test]
fn test_format_parts_errors() {
    assert_eq!(
        parse_format_parts("{a"),
        Err("Unclosed placeholder in formatted string".to_string())
    );
    assert_eq!(
        parse_format_parts("{ }"),
        Err("Empty placeholder in formatted string".to_string())
    );
    assert_eq!(
        parse_format_parts("a}b"),
        Err("Single '}' in formatted string".to_string())
    );
}

#[test]
fn test_sanitize_keeps_valid_and_encodes_others() {
    assert_eq!(sanitize_llvm_name("main_1"), "main_1");
    assert_eq!(sanitize_llvm_name("a-b.c$"), "a-b.c$");
    assert_eq!(sanitize_llvm_name("测试"), "_6d4b__8bd5_");
    assert_eq!(sanitize_llvm_name("a b"), "a_20_b");
    assert_eq!(sanitize_llvm_name("x.测"), "x_2e__6d4b_");
    assert_eq!(sanitize_llvm_name(""), "_");
    assert_eq!(sanitize_llvm_name("1a"), "_1a");
    assert_eq!(sanitize_llvm_name("9测"), "_9_6d4b_");
}

#[test]
fn test_sanitize_twice_is_sanitize_once() {
    for name in ["测试", "a b", "x.测", "plain", "", "1a"] {
        let once = sanitize_llvm_name(name);
        assert_eq!(sanitize_llvm_name(&once), once);
    }
}

#[test]
fn test_llvm_function_names() {
    let program = parse(
        "#模块 数学\n定义 方法 加（）返回 整数：返回 1。。\n#模块 Rust扩展\n@声明 外部(\"wen_add\")\n定义 方法 相加（左：整数，右：整数）返回 整数\n@声明 入口\n定义 方法 主（）返回 无：。。",
    );
    let program = merge_with_standard_library(program).expect("std merge failed");
    let name_of = |path: &str| {
        let func = program
            .functions
            .iter()
            .find(|f| function_path(f) == path)
            .expect("function missing");
        llvm_function_name(func)
    };
    assert_eq!(name_of("数学-加"), "_6570__5b66__2d__52a0_");
    assert_eq!(name_of("Rust扩展-相加"), "wen_add");
    assert_eq!(name_of(STD_IO_OUTPUT_PATH), "as_std_io_output");
    assert_eq!(name_of(STD_IO_INPUT_PATH), "as_std_io_input_int");
    let entry = program.functions.iter().find(|f| f.is_entry).unwrap();
    assert_eq!(llvm_function_name(entry), "main");
}

#[test]
fn test_external_symbol_for_standard_library() {
    assert_eq!(
        external_symbol_for("标准库-输入输出-输出"),
        Some("as_std_io_output".to_string())
    );
    assert_eq!(
        external_symbol_for("标准库-输入输出-获取输入"),
        Some("as_std_io_input_int".to_string())
    );
    assert_eq!(external_symbol_for("标准库-输入输出"), None);
}

#[test]
fn test_parse_symbol_name_values_and_errors() {
    assert_eq!(parse_symbol_name("name = \"wen_add\""), Ok("wen_add".to_string()));
    assert_eq!(parse_symbol_name("  name=\"x\"  "), Ok("x".to_string()));
    assert_eq!(
        parse_symbol_name("symbol = \"x\""),
        Err("请写成 #[wenyuan_ffi::export(name = \"symbol\")]".to_string())
    );
    assert_eq!(
        parse_symbol_name("name \"x\""),
        Err("`name` 后需要 `= \"symbol\"`".to_string())
    );
    assert_eq!(
        parse_symbol_name("name = x"),
        Err("导出符号名必须是字符串字面量".to_string())
    );
    assert_eq!(
        parse_symbol_name("name = \"x"),
        Err("导出符号名缺少结束引号".to_string())
    );
    assert_eq!(
        parse_symbol_name("name = \"\""),
        Err("导出符号名不能为空".to_string())
    );
}

fn all_tokens(source: &str) -> Vec<Token> {
    let mut lexer = Lexer::new(source);
    let mut tokens = Vec::new();
    loop {
        let token = lexer.next_token();
        if token == Token::Eof {
            break;
        }
        tokens.push(token);
    }
    tokens
}

#[test]
fn test_full_width_punctuation_reads_as_ascii() {
    assert_eq!(all_tokens("（）【】：，"), all_tokens("()[]:,"));
    assert_eq!(all_tokens("（）【】：，"), vec![
        Token::LParen,
        Token::RParen,
        Token::LBracket,
        Token::RBracket,
        Token::Colon,
        Token::Comma,
    ]);
    assert_eq!(all_tokens("。。"), all_tokens(".."));
    assert_eq!(all_tokens("。。"), vec![Token::ScopeEnd]);
}

#[test]
fn test_parse_output_arg_takes_first_value() {
    assert_eq!(parse_output_arg(&args(&["asc", "a.as", "-o", "out"])), Some("out".to_string()));
    assert_eq!(parse_output_arg(&args(&["asc", "-o", "x", "-o", "y"])), Some("x".to_string()));
    assert_eq!(parse_output_arg(&args(&["asc", "a.as", "-o"])), None);
    assert_eq!(parse_output_arg(&args(&["asc", "a.as", "--ir"])), None);
}

#[test]
fn test_ffi_link_args_order() {
    let ffi = FfiLinkOptions {
        libs: vec!["libdemo.a".to_string(), "libx.so".to_string()],
        search_paths: vec!["target/debug".to_string()],
        rpaths: vec!["/opt/lib".to_string()],
    };
    assert_eq!(
        ffi_link_args(&ffi, true),
        vec![
            "-Ltarget/debug".to_string(),
            "-Wl,-rpath,/opt/lib".to_string(),
            "libdemo.a".to_string(),
            "libx.so".to_string(),
        ]
    );
    assert_eq!(
        ffi_link_args(&ffi, false),
        vec!["-Ltarget/debug".to_string(), "libdemo.a".to_string(), "libx.so".to_string()]
    );
}

#[test]
fn test_default_output_path_is_file_stem() {
    assert_eq!(default_output_path("demo/ffi.as"), "ffi");
    assert_eq!(default_output_path("prog"), "prog");
    assert_eq!(default_output_path("dir/archive.tar.gz"), "archive.tar");
    assert_eq!(default_output_path(".hidden"), ".hidden");
    assert_eq!(default_output_path("dir/sub/"), "sub");
    assert_eq!(default_output_path(""), "a.out");
    assert_eq!(default_output_path("/"), "a.out");
    assert_eq!(default_output_path("dir/.."), "a.out");
}

#[test]
fn test_default_output_path_follows_std_components() {
    assert_eq!(default_output_path("foo.txt/."), "foo");
    assert_eq!(default_output_path("a/./b.as"), "b");
    assert_eq!(default_output_path("."), "a.out");
    assert_eq!(default_output_path("/."), "a.out");
    assert_eq!(default_output_path("dir/..x"), "dir");
    assert_eq!(default_output_path("..x"), "a.out");
    assert_eq!(default_output_path("a/..."), "a.out");
    assert_eq!(default_output_path("name."), "name");
}

#[test]
fn test_parse_args_defaults_and_errors() {
    let options = parse_args(&args(&["asc", "src/main.as"])).expect("parse args failed");
    assert_eq!(options.output_path, "main");
    assert!(!options.ir_mode);
    assert!(options.ffi.libs.is_empty());

    let options = parse_args(&args(&["asc", "src/main.as", "-o", "out", "--ir"])).unwrap();
    assert!(options.ir_mode);
    assert_eq!(options.output_path, "");

    assert_eq!(parse_args(&args(&["asc"])), Err("错误: 缺少源文件".to_string()));
    assert_eq!(
        parse_args(&args(&["asc", "a.as", "-x"])),
        Err("错误: 未识别的参数 `-x`".to_string())
    );
    assert_eq!(
        parse_args(&args(&["asc", "a.as", "-o"])),
        Err("错误: `-o` 后缺少输出文件路径".to_string())
    );
    assert_eq!(
        parse_args(&args(&["asc", "a.as", "--ffi-search"])),
        Err("错误: `--ffi-search` 后缺少目录路径".to_string())
    );
    assert_eq!(
        parse_args(&args(&["asc", "a.as", "--ffi-rpath"])),
        Err("错误: `--ffi-rpath` 后缺少目录路径".to_string())
    );
}

#[test]
fn test_usage_lists_every_flag() {
    assert_eq!(
        usage(),
        "用法: asc <源文件.as> [-o <输出文件>] [--ir] [--ffi-lib <库路径>] [--ffi-search <目录>] [--ffi-rpath <目录>]"
    );
}

#[test]
fn test_check_source_requires_entry_unless_ir() {
    let source = "定义 方法 测试（）返回 无：。。";
    let err = check_source(source, "demo.as", false).expect_err("entry point should be required");
    assert!(err.starts_with("错误: 程序没有入口点\n --> demo.as\n"));
    let program = check_source(source, "demo.as", true).expect("IR mode needs no entry");
    assert!(!program.has_entry);
    let with_entry = "引用 模块：标准库-输入输出-输出 为 输出\n@声明 入口\n定义 方法 主（）返回 无：执行 输出：“你好”。。";
    let program = check_source(with_entry, "demo.as", false).expect("program should check");
    assert!(program.has_entry);
}

#[test]
fn test_check_source_reports_parse_and_semantic_errors() {
    assert!(check_source("定义 方法", "demo.as", true).is_err());
    let err = check_source("引用 模块：不存在\n定义 方法 测试（）返回 无：。。", "demo.as", true)
        .expect_err("missing import should fail");
    assert!(err.contains("未找到模块或方法"));
}

#[test]
fn test_merge_puts_standard_library_first() {
    let program = parse("#模块 我的模块\n@声明 入口\n定义 方法 主（）返回 无：。。");
    let own_functions = program.functions.len();
    let merged = merge_with_standard_library(program).expect("std merge failed");
    assert!(merged.has_entry);
    assert_eq!(merged.modules[0].name, "标准库-输入输出");
    assert_eq!(merged.modules.last().unwrap().name, "我的模块");
    assert_eq!(merged.functions.len(), own_functions + 2);
    assert_eq!(merged.functions.last().unwrap().name, "主");
    analyze(&merged).expect("Semantic analysis failed");
}

#[test]
fn test_infer_types_for_code_generation() {
    let program = parse(
        "定义结构坐标：x：小数，y：小数。。定义 方法 测试（）返回 无：设 a=1+2 设 b=a>1 设 c=[1,2,3] 定义变量：小数d 。。",
    );
    let func = &program.functions[0];
    let mut locals = Locals::new();
    let init_of = |index: usize| match &func.body[index] {
        Stmt::VarDecl(var) => var.init.clone().expect("initializer"),
        other => panic!("Expected VarDecl, found {:?}", other),
    };
    assert_eq!(
        infer_type_from_expr(&init_of(0), func, &program, &program.imports, &locals),
        Ok(Type::Int)
    );
    assert_eq!(
        infer_type_from_expr(&init_of(1), func, &program, &program.imports, &locals),
        Ok(Type::Bool)
    );
    assert_eq!(
        infer_type_from_expr(&init_of(2), func, &program, &program.imports, &locals),
        Ok(Type::Array {
            element_type: Box::new(Type::Int),
            length: Some(3)
        })
    );
    let bare = match &func.body[1] {
        Stmt::VarDecl(var) => match var.init.as_ref().unwrap() {
            ascompiler::parser::Expr::Binary { left, .. } => (**left).clone(),
            other => panic!("Expected Binary, found {:?}", other),
        },
        other => panic!("Expected VarDecl, found {:?}", other),
    };
    assert_eq!(
        infer_type_from_expr(&bare, func, &program, &program.imports, &locals),
        Err("未定义的变量: a".to_string())
    );
    locals.insert(
        "a".to_string(),
        LocalInfo {
            ty: Type::Int,
            is_mutable: true,
            declaration_span: None,
        },
    );
    assert_eq!(
        infer_type_from_expr(&bare, func, &program, &program.imports, &locals),
        Ok(Type::Int)
    );
    match &func.body[3] {
        Stmt::VarDecl(var) => assert_eq!(
            resolve_var_type(var, func, &program, &program.imports, &locals),
            Ok(Type::Double)
        ),
        other => panic!("Expected VarDecl, found {:?}", other),
    }
    assert_eq!(
        struct_field_info(&program, &"坐标".to_string(), &"y".to_string()),
        Ok((1, Type::Double))
    );
    assert_eq!(
        struct_field_info(&program, &"坐标".to_string(), &"z".to_string()),
        Err("结构或对象 `坐标` 没有字段 `z`".to_string())
    );
    assert_eq!(
        struct_field_info(&program, &"点".to_string(), &"x".to_string()),
        Err("未定义的结构或对象: 点".to_string())
    );
}
