use ascompiler::cli::parse_args;

fn args(values: &[&str]) -> Vec<String> {
    values.iter().map(|value| value.to_string()).collect()
}

#[test]
fn cli_test_parse_repeated_ffi_link_args() {
    let options = parse_args(&args(&[
        "asc",
        "demo/ffi.as",
        "-o",
        "demo/ffi",
        "--ffi-lib",
        "target/debug/libdemo.a",
        "--ffi-lib",
        "target/debug/libdemo.dylib",
        "--ffi-search",
        "target/debug",
        "--ffi-rpath",
        "target/debug",
    ]))
    .expect("parse args failed");

    assert_eq!(options.input_path, "demo/ffi.as".to_string());
    assert_eq!(options.output_path, "demo/ffi".to_string());
    assert!(!options.ir_mode);
    assert_eq!(
        options.ffi.libs,
        vec![
            "target/debug/libdemo.a".to_string(),
            "target/debug/libdemo.dylib".to_string()
        ]
    );
    assert_eq!(
        options.ffi.search_paths,
        vec!["target/debug".to_string()]
    );
    assert_eq!(options.ffi.rpaths, vec!["target/debug".to_string()]);
}

#[test]
fn cli_test_parse_ffi_arg_requires_value() {
    let err = parse_args(&args(&["asc", "demo/ffi.as", "--ffi-lib"]))
        .expect_err("expected missing value error");
    assert!(err.contains("--ffi-lib"));
}
