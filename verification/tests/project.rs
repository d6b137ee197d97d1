use ascompiler::project::parse_project_config;

#[test]
fn test_parse_project_config_with_rust_dependency() {
    let config = parse_project_config(
        "包配置：\n项目名 = “示例项目”\n版本 = “2026.4.1”\n许可证 = “MIT”\n启用系统级中文路径 = 否\n\n可执行文件设置：\nexe文件名 = “demo”\n\nRust依赖：\n    外部依赖测试：\n        项目路径=“./examples/rust-ffi”\n",
    )
    .expect("config should parse");

    assert_eq!(config.project_name, "示例项目");
    assert_eq!(config.version, "2026.4.1");
    assert!(!config.enable_chinese_paths);
    assert_eq!(config.exe_name, "demo");
    assert_eq!(config.rust_deps.len(), 1);
    assert_eq!(config.rust_deps[0].name, "外部依赖测试");
    assert_eq!(config.rust_deps[0].project_path, "./examples/rust-ffi".to_string());
}

#[test]
fn test_parse_project_config_defaults_exe_to_project_name() {
    let config = parse_project_config("包配置：\n项目名 = “测试”\n启用系统级中文路径 = 是\n")
        .expect("config should parse");

    assert_eq!(config.exe_name, "测试");
    assert_eq!(config.source_dir_name(), "源码");
    assert_eq!(config.target_dir_name(), "目标输出");
}

use ascompiler::project::{
    SaltCommand, TargetOs, default_config, default_main_source, ensure_no_extra_args,
    join_project_sources, parse_bool, parse_command, platform_library_file_names,
    rust_library_name, strip_comment, unquote, usage,
};

fn args(values: &[&str]) -> Vec<String> {
    values.iter().map(|value| value.to_string()).collect()
}

#[test]
fn test_parse_bool_accepts_chinese_and_english() {
    assert_eq!(parse_bool("是"), Ok(true));
    assert_eq!(parse_bool("TRUE"), Ok(true));
    assert_eq!(parse_bool("否"), Ok(false));
    assert_eq!(parse_bool("False"), Ok(false));
    assert_eq!(
        parse_bool("maybe"),
        Err("错误: 布尔值只能是 `是` 或 `否`，实际为 `maybe`".to_string())
    );
}

#[test]
fn test_unquote_and_strip_comment() {
    assert_eq!(unquote("  “你好”  "), "你好");
    assert_eq!(unquote("\"a\""), "a");
    assert_eq!(unquote("plain"), "plain");
    assert_eq!(strip_comment("a = 1 // note"), "a = 1 ");
    assert_eq!(strip_comment("a = \"x//y\""), "a = \"x//y\"");
    assert_eq!(strip_comment("a = “x//y” // c"), "a = “x//y” ");
    assert_eq!(strip_comment("//"), "");
}

#[test]
fn test_parse_project_config_errors() {
    assert_eq!(
        parse_project_config("包配置：\n版本 = 1\n"),
        Err("错误: 配置文件缺少 `项目名`".to_string())
    );
    assert_eq!(
        parse_project_config("包配置：\n项目名 \n"),
        Err("错误: 无法解析配置行 `项目名`".to_string())
    );
    assert_eq!(
        parse_project_config("Rust依赖：\n项目路径 = x\n"),
        Err("错误: `项目路径` 必须写在某个 Rust依赖 名称下面".to_string())
    );
    assert_eq!(
        parse_project_config("包配置：\n项目名 = p\nRust依赖：\n  依赖甲：\n"),
        Err("错误: Rust依赖 `依赖甲` 缺少 `项目路径`".to_string())
    );
    assert_eq!(
        parse_project_config("包配置：\n项目名 = p\n启用系统级中文路径 = 也许\n"),
        Err("错误: 布尔值只能是 `是` 或 `否`，实际为 `也许`".to_string())
    );
}

#[test]
fn test_parse_project_config_defaults_and_comments() {
    let config = parse_project_config(
        "// 注释\n包配置：\r\n项目名 = “示例” // 名字\n未知键 = 1\n\nRust依赖：\n甲：\n项目路径=“a”\n乙：\n项目路径=“b”\n",
    )
    .expect("config should parse");
    assert_eq!(config.project_name, "示例");
    assert_eq!(config.version, "0.1.0");
    assert_eq!(config.license, "");
    assert_eq!(config.exe_name, "示例");
    assert_eq!(config.source_dir_name(), "src");
    assert_eq!(config.target_dir_name(), "target");
    assert_eq!(config.rust_deps.len(), 2);
    assert_eq!(config.rust_deps[0].name, "甲");
    assert_eq!(config.rust_deps[1].project_path, "b");
}

#[test]
fn test_default_config_parses_back() {
    let text = default_config("新项目");
    assert_eq!(
        text,
        "包配置：\n项目名 = “新项目”\n版本 = “0.1.0”\n许可证 = “MIT”\n启用系统级中文路径 = 否\n\n可执行文件设置：\nexe文件名 = “新项目”\n\nRust依赖：\n"
    );
    let config = parse_project_config(&text).expect("default config should parse");
    assert_eq!(config.project_name, "新项目");
    assert_eq!(config.license, "MIT");
    assert_eq!(config.exe_name, "新项目");
    assert!(config.rust_deps.is_empty());
}

#[test]
fn test_default_main_source_greets_project() {
    assert_eq!(
        default_main_source("问源"),
        "引用 模块：标准库-输入输出-输出 为 输出\n\n@声明 入口\n定义 方法 主（）返回 无：\n    执行 输出：“你好，问源”\n。。\n"
    );
}

#[test]
fn test_rust_library_name_prefers_lib_section() {
    assert_eq!(
        rust_library_name("[package]\nname = \"my-crate\"\nversion = \"0.1.0\"\n"),
        Some("my_crate".to_string())
    );
    assert_eq!(
        rust_library_name("[package]\nname = \"my-crate\"\n\n[lib]\nname = \"core-lib\"\n"),
        Some("core_lib".to_string())
    );
    assert_eq!(rust_library_name("[dependencies]\nname = \"x\"\n"), None);
}

#[test]
fn test_platform_library_file_names() {
    assert_eq!(
        platform_library_file_names(TargetOs::Other, "demo"),
        vec!["libdemo.a".to_string(), "libdemo.so".to_string()]
    );
    assert_eq!(
        platform_library_file_names(TargetOs::MacOs, "demo"),
        vec!["libdemo.a".to_string(), "libdemo.dylib".to_string()]
    );
    assert_eq!(
        platform_library_file_names(TargetOs::Windows, "demo"),
        vec![
            "libdemo.a".to_string(),
            "demo.dll".to_string(),
            "demo.lib".to_string()
        ]
    );
}

#[test]
fn test_parse_salt_commands() {
    assert_eq!(parse_command(&args(&["salt"])), Err(usage().to_string()));
    assert_eq!(
        parse_command(&args(&["salt", "new", "演示"])),
        Ok(SaltCommand::New("演示".to_string()))
    );
    assert_eq!(
        parse_command(&args(&["salt", "new"])),
        Err("错误: `salt new` 需要项目名".to_string())
    );
    assert_eq!(
        parse_command(&args(&["salt", "new", "a", "b"])),
        Err(format!("错误: 未识别的参数 `b`\n{}", usage()))
    );
    assert_eq!(parse_command(&args(&["salt", "init", "--bin"])), Ok(SaltCommand::Init));
    assert_eq!(
        parse_command(&args(&["salt", "init"])),
        Err("错误: 目前仅支持 `salt init --bin`".to_string())
    );
    assert_eq!(parse_command(&args(&["salt", "build"])), Ok(SaltCommand::Build));
    assert_eq!(
        parse_command(&args(&["salt", "run", "x"])),
        Err(format!("错误: 未识别的参数 `x`\n{}", usage()))
    );
    assert_eq!(parse_command(&args(&["salt", "--help"])), Ok(SaltCommand::Help));
    assert_eq!(
        parse_command(&args(&["salt", "zz"])),
        Err(format!("错误: 未识别的命令 `zz`\n{}", usage()))
    );
}

#[test]
fn test_ensure_no_extra_args() {
    assert_eq!(ensure_no_extra_args(&args(&["salt", "build"]), 2), Ok(()));
    assert_eq!(
        ensure_no_extra_args(&args(&["salt", "build", "x"]), 2),
        Err(format!("错误: 未识别的参数 `x`\n{}", usage()))
    );
}

#[test]
fn test_join_project_sources_heads_each_file() {
    let files = vec![
        ("src/a.as".to_string(), "甲".to_string()),
        ("src/b.as".to_string(), "乙\n".to_string()),
    ];
    assert_eq!(
        join_project_sources(&files),
        "\n// 文件：src/a.as\n甲\n\n// 文件：src/b.as\n乙\n\n".to_string()
    );
    assert_eq!(join_project_sources(&Vec::new()), String::new());
}
