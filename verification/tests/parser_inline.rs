use ascompiler::lexer::Lexer;
use ascompiler::parser::{BinaryOp, Expr, FormatPart, LoopStmt, Parser, Stmt, Type};

#[test]
fn parser_test_parse_simple_entry_function() {
    let source = "@声明 入口\n定义 方法 测试（）返回 无：\n。。";
    let lexer = Lexer::new(source);
    let parser = Parser::new(lexer);
    let program = parser.parse_program().expect("Parse failed");

    assert!(program.has_entry);
    assert_eq!(program.functions.len(), 1);

    let func = &program.functions[0];
    assert_eq!(func.name, "测试");
    assert!(func.params.is_empty());
    assert_eq!(func.return_type, Type::Void);
    assert!(func.is_entry);
    assert!(func.body.is_empty());
}

#[test]
fn parser_test_parse_function_with_params() {
    let source = "定义 方法 计算（参数1：整数，参数2：小数）返回 整数：。。";
    let lexer = Lexer::new(source);
    let parser = Parser::new(lexer);
    let program = parser.parse_program().expect("Parse failed");

    assert_eq!(program.functions.len(), 1);
    let func = &program.functions[0];
    assert_eq!(func.name, "计算");
    assert_eq!(func.params.len(), 2);
    assert_eq!(func.params[0].name, "参数1");
    assert_eq!(func.params[0].param_type, Type::Int);
    assert_eq!(func.params[1].name, "参数2");
    assert_eq!(func.params[1].param_type, Type::Double);
    assert_eq!(func.return_type, Type::Int);
    assert!(!func.is_entry);
    assert!(func.body.is_empty());
}

#[test]
fn parser_test_parse_english_scope_end() {
    let source = "定义 方法 f（）返回 无：..";
    let lexer = Lexer::new(source);
    let parser = Parser::new(lexer);
    let program = parser.parse_program().expect("Parse failed");
    assert_eq!(program.functions.len(), 1);
    assert!(!program.functions[0].is_entry);
    assert!(program.functions[0].body.is_empty());
}

#[test]
fn parser_test_parse_var_decl_auto_type() {
    let source = "定义 方法 测试（）返回 无：定义 变量：x=10。。";
    let lexer = Lexer::new(source);
    let parser = Parser::new(lexer);
    let program = parser.parse_program().expect("Parse failed");

    let func = &program.functions[0];
    assert_eq!(func.body.len(), 1);
    match &func.body[0] {
        Stmt::VarDecl(v) => {
            assert_eq!(v.name, "x");
            assert_eq!(v.var_type, None);
            assert!(!v.is_mutable);
            assert_eq!(v.init, Some(Expr::IntLiteral(10)));
        }
        other => panic!("Expected VarDecl, found {:?}", other),
    }
}

#[test]
fn parser_test_parse_var_decl_explicit_type() {
    let source = "定义 方法 测试（）返回 无：定义 变量：整型 y=20。。";
    let lexer = Lexer::new(source);
    let parser = Parser::new(lexer);
    let program = parser.parse_program().expect("Parse failed");

    let func = &program.functions[0];
    assert_eq!(func.body.len(), 1);
    match &func.body[0] {
        Stmt::VarDecl(v) => {
            assert_eq!(v.name, "y");
            assert_eq!(v.var_type, Some(Type::Int));
            assert!(!v.is_mutable);
            assert_eq!(v.init, Some(Expr::IntLiteral(20)));
        }
        other => panic!("Expected VarDecl, found {:?}", other),
    }
}

#[test]
fn parser_test_parse_let_stmt() {
    let source = "定义 方法 测试（）返回 无：设 z=30。。";
    let lexer = Lexer::new(source);
    let parser = Parser::new(lexer);
    let program = parser.parse_program().expect("Parse failed");

    let func = &program.functions[0];
    assert_eq!(func.body.len(), 1);
    match &func.body[0] {
        Stmt::VarDecl(v) => {
            assert_eq!(v.name, "z");
            assert_eq!(v.var_type, None);
            assert!(v.is_mutable);
            assert_eq!(v.init, Some(Expr::IntLiteral(30)));
        }
        other => panic!("Expected VarDecl, found {:?}", other),
    }
}

#[test]
fn parser_test_parse_var_decl_no_space_between_define_variable() {
    let source = "定义 方法 测试（）返回 无：定义变量：x=10。。";
    let lexer = Lexer::new(source);
    let parser = Parser::new(lexer);
    let program = parser.parse_program().expect("Parse failed");

    let func = &program.functions[0];
    assert_eq!(func.body.len(), 1);
    match &func.body[0] {
        Stmt::VarDecl(v) => {
            assert_eq!(v.name, "x");
            assert_eq!(v.var_type, None);
            assert!(!v.is_mutable);
            assert_eq!(v.init, Some(Expr::IntLiteral(10)));
        }
        other => panic!("Expected VarDecl, found {:?}", other),
    }
}

#[test]
fn parser_test_parse_mutable_var_decl_no_space_between_keywords() {
    let source = "定义 方法 测试（）返回 无：定义可变变量：cnt=0。。";
    let lexer = Lexer::new(source);
    let parser = Parser::new(lexer);
    let program = parser.parse_program().expect("Parse failed");

    let func = &program.functions[0];
    assert_eq!(func.body.len(), 1);
    match &func.body[0] {
        Stmt::VarDecl(v) => {
            assert_eq!(v.name, "cnt");
            assert!(v.is_mutable);
            assert_eq!(v.init, Some(Expr::IntLiteral(0)));
        }
        other => panic!("Expected VarDecl, found {:?}", other),
    }
}

#[test]
fn parser_test_parse_chinese_variable_name() {
    let source = "定义 方法 测试（）返回 无：设 结果=100。。";
    let lexer = Lexer::new(source);
    let parser = Parser::new(lexer);
    let program = parser.parse_program().expect("Parse failed");

    let func = &program.functions[0];
    assert_eq!(func.body.len(), 1);
    match &func.body[0] {
        Stmt::VarDecl(v) => {
            assert_eq!(v.name, "结果");
        }
        other => panic!("Expected VarDecl, found {:?}", other),
    }
}

#[test]
fn parser_test_parse_module_import_and_execute() {
    let source = "#模块 第一个模块\n引用 模块：标准库-输入输出-输出 为 输出\n@声明 入口\n定义 方法 测试（）返回 无：执行输出：“你好，世界”。。";
    let lexer = Lexer::new(source);
    let parser = Parser::new(lexer);
    let program = parser.parse_program().expect("Parse failed");

    assert_eq!(program.modules.len(), 1);
    assert_eq!(program.modules[0].name, "第一个模块");
    assert_eq!(program.imports.len(), 1);
    assert_eq!(program.imports[0].path, "标准库-输入输出-输出");
    assert_eq!(program.imports[0].alias, Some("输出".to_string()));

    let func = &program.functions[0];
    assert_eq!(func.module_name, Some("第一个模块".to_string()));
    assert_eq!(func.body.len(), 1);
    match &func.body[0] {
        Stmt::Execute(exec) => {
            assert_eq!(exec.target, "输出");
            assert_eq!(
                exec.args,
                vec![Expr::StringLiteral("你好，世界".to_string())]
            );
        }
        other => panic!("Expected Execute, found {:?}", other),
    }
}

#[test]
fn parser_test_parse_formatted_string() {
    let source = "定义 方法 测试（）返回 无：设 x=10 执行输出：f“hello,{x}”。。";
    let lexer = Lexer::new(source);
    let parser = Parser::new(lexer);
    let program = parser.parse_program().expect("Parse failed");

    let func = &program.functions[0];
    match &func.body[1] {
        Stmt::Execute(exec) => {
            assert_eq!(
                exec.args,
                vec![Expr::FormattedString(vec![
                    FormatPart::Text("hello,".to_string()),
                    FormatPart::Placeholder("x".to_string()),
                ])]
            );
        }
        other => panic!("Expected Execute, found {:?}", other),
    }
}

#[test]
fn parser_test_parse_if_else_and_cpp_expression_precedence() {
    let source = "定义 方法 测试（）返回 无：设 x=5 判断x + 1 > 3 * 2：执行输出：“大”若x==5：执行输出：“等”否则：执行输出：“小”。。。。";
    let lexer = Lexer::new(source);
    let parser = Parser::new(lexer);
    let program = parser.parse_program().expect("Parse failed");

    let func = &program.functions[0];
    assert_eq!(func.body.len(), 2);
    match &func.body[1] {
        Stmt::If(if_stmt) => {
            assert_eq!(if_stmt.branches.len(), 2);
            assert!(if_stmt.else_body.is_some());
            assert_eq!(if_stmt.branches[0].body.len(), 1);
            assert_eq!(if_stmt.branches[1].body.len(), 1);
        }
        other => panic!("Expected If, found {:?}", other),
    }
}

#[test]
fn parser_test_parse_count_loop_without_spaces() {
    let source = "定义 方法 测试（）返回 无：循环计数i<10：执行输出：f“{i}”。。。。";
    let lexer = Lexer::new(source);
    let parser = Parser::new(lexer);
    let program = parser.parse_program().expect("Parse failed");

    let func = &program.functions[0];
    assert_eq!(func.body.len(), 1);
    match &func.body[0] {
        Stmt::Loop(LoopStmt::Count {
            var_name,
            end,
            body,
        }) => {
            assert_eq!(var_name, "i");
            assert_eq!(end, &Expr::IntLiteral(10));
            assert_eq!(body.len(), 1);
        }
        other => panic!("Expected count loop, found {:?}", other),
    }
}

#[test]
fn parser_test_parse_condition_loop_with_space() {
    let source = "定义 方法 测试（）返回 无：设 x=1 循环 条件 x<3：执行输出：“x”。。。。";
    let lexer = Lexer::new(source);
    let parser = Parser::new(lexer);
    let program = parser.parse_program().expect("Parse failed");

    let func = &program.functions[0];
    assert_eq!(func.body.len(), 2);
    match &func.body[1] {
        Stmt::Loop(LoopStmt::Condition { condition, body }) => {
            assert_eq!(
                condition,
                &Expr::Binary {
                    left: Box::new(Expr::Ident("x".to_string())),
                    op: BinaryOp::Less,
                    right: Box::new(Expr::IntLiteral(3)),
                }
            );
            assert_eq!(body.len(), 1);
        }
        other => panic!("Expected condition loop, found {:?}", other),
    }
}

#[test]
fn parser_test_parse_returning_count_loop_with_assignment() {
    let source = "定义 方法 从零求和（结束值：整数）返回 整数：设 cnt = 0 循环计数i<结束值：cnt=cnt+1。。返回 cnt。。";
    let lexer = Lexer::new(source);
    let parser = Parser::new(lexer);
    let program = parser.parse_program().expect("Parse failed");

    let func = &program.functions[0];
    assert_eq!(func.return_type, Type::Int);
    assert_eq!(func.params[0].name, "结束值");
    assert_eq!(func.body.len(), 3);
    match &func.body[1] {
        Stmt::Loop(LoopStmt::Count {
            var_name,
            end,
            body,
        }) => {
            assert_eq!(var_name, "i");
            assert_eq!(end, &Expr::Ident("结束值".to_string()));
            assert_eq!(body.len(), 1);
            match &body[0] {
                Stmt::Assign(assign) => assert_eq!(assign.name, "cnt"),
                other => panic!("Expected assignment, found {:?}", other),
            }
        }
        other => panic!("Expected count loop, found {:?}", other),
    }
    assert!(matches!(&func.body[2], Stmt::Return(_)));
}

#[test]
fn parser_test_parse_call_expression_in_let() {
    let source = "定义 方法 从零求和（结束值：整数）返回 整数：返回 结束值。。定义 方法 测试（）返回 无：设 s = 从零求和（10）。。";
    let lexer = Lexer::new(source);
    let parser = Parser::new(lexer);
    let program = parser.parse_program().expect("Parse failed");

    let func = &program.functions[1];
    match &func.body[0] {
        Stmt::VarDecl(var) => {
            assert_eq!(var.name, "s");
            assert_eq!(
                var.init,
                Some(Expr::Call {
                    target: "从零求和".to_string(),
                    type_arg: None,
                    args: vec![Expr::IntLiteral(10)],
                })
            );
        }
        other => panic!("Expected VarDecl, found {:?}", other),
    }
}

#[test]
fn parser_test_parse_external_function_declaration() {
    let source = "#模块 标准库-输入输出\n@声明 外部\n定义 方法 输出（内容：字符串）返回 无";
    let lexer = Lexer::new(source);
    let parser = Parser::new(lexer);
    let program = parser.parse_program().expect("Parse failed");

    assert_eq!(program.modules[0].name, "标准库-输入输出");
    assert_eq!(program.functions.len(), 1);

    let func = &program.functions[0];
    assert_eq!(func.module_name, Some("标准库-输入输出".to_string()));
    assert_eq!(func.name, "输出");
    assert!(func.is_external);
    assert!(!func.is_entry);
    assert_eq!(func.external_symbol, None);
    assert!(func.body.is_empty());
    assert_eq!(func.params[0].param_type, Type::String);
}
