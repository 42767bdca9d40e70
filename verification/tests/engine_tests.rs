use ppx::parse;
use ppx::parse_string;
use ppx::Error;
use ppx::FileSet;

#[test]
fn integration_test_test_define_fn() {
    assert_eq!(
        parse_string(
            "
 #define TEST(a, b) b a
 TEST(4, 5)
",
            &FileSet::new(),
            &vec![]
        )
        .unwrap()
        .trim(),
        "5 4"
    )
}

#[test]
fn integration_test_test_define_fn_multiline() {
    assert_eq!(
        parse_string(
            "
#define TEST(a, b) \
    b \
    a
TEST(world, hello)
",
            &FileSet::new(),
            &vec![]
        )
        .unwrap()
        .trim(),
        "hello world"
    );
}

#[test]
fn test_continuation_joins_body() {
    let res = parse_string(
        "#define TEST(a, b) \\\n    b \\\n    a\nTEST(world, hello)\n",
        &FileSet::new(),
        &vec![],
    )
    .unwrap();
    assert_eq!(res, "      hello     world\n");
    assert_eq!(res.trim(), "hello     world");
}

#[test]
fn test_passthrough_unchanged() {
    let doc = "plain text\n  more lines here\n\nlast one";
    assert_eq!(parse_string(doc, &FileSet::new(), &vec![]).unwrap(), doc);
}

#[test]
fn test_param_not_enough() {
    match parse_string("#param A\nA\n", &FileSet::new(), &vec![]) {
        Err(Error::NotEnoughParameters) => {}
        other => panic!("expected NotEnoughParameters, got {:?}", other),
    }
}

#[test]
fn test_param_extra_content() {
    match parse_string("#param A B\n", &FileSet::new(), &vec!["x".to_string()]) {
        Err(Error::ExtraParamsInParamMacro(0)) => {}
        other => panic!("expected ExtraParamsInParamMacro, got {:?}", other),
    }
}

#[test]
fn test_escaped_directive() {
    let res = parse_string("#define A 5\n\\#define A", &FileSet::new(), &vec![]).unwrap();
    assert_eq!(res, "#define 5");
}

#[test]
fn test_arity_too_few() {
    match parse_string("#define F(a, b) a b\nF(1)\n", &FileSet::new(), &vec![]) {
        Err(Error::NotEnoughParametersMacro(name)) => assert_eq!(name, "F"),
        other => panic!("expected NotEnoughParametersMacro, got {:?}", other),
    }
}

#[test]
fn test_arity_too_many() {
    match parse_string("#define F(a, b) a b\nF(1,2,3)\n", &FileSet::new(), &vec![]) {
        Err(Error::UnusedParametersMacro(name)) => assert_eq!(name, "F"),
        other => panic!("expected UnusedParametersMacro, got {:?}", other),
    }
}

#[test]
fn test_unknown_directive() {
    match parse_string("#foo bar\n", &FileSet::new(), &vec![]) {
        Err(Error::InvalidMacro(kw, 0)) => assert_eq!(kw, "foo"),
        other => panic!("expected InvalidMacro, got {:?}", other),
    }
}

#[test]
fn test_invalid_parameter_name() {
    match parse_string("#define F(1a) x\n", &FileSet::new(), &vec![]) {
        Err(Error::InvalidParameterName(name, 0)) => assert_eq!(name, "1a"),
        other => panic!("expected InvalidParameterName, got {:?}", other),
    }
}

#[test]
fn test_splice_path_not_quoted() {
    match parse_string("#include test.txt\n", &FileSet::new(), &vec![]) {
        Err(Error::SplicePathNotQuoted(0)) => {}
        other => panic!("expected SplicePathNotQuoted, got {:?}", other),
    }
}

#[test]
fn test_splice_file_not_found() {
    match parse_string("#include \"nope.txt\"\n", &FileSet::new(), &vec![]) {
        Err(Error::FileNotFound(path)) => assert_eq!(path, "nope.txt"),
        other => panic!("expected FileNotFound, got {:?}", other),
    }
}

#[test]
fn test_splice_cycle_depth() {
    let mut files = FileSet::new();
    files.add("a.txt", "#include \"a.txt\"\n");
    match parse_string("#include \"a.txt\"\n", &files, &vec![]) {
        Err(Error::SpliceDepthExceeded) => {}
        other => panic!("expected SpliceDepthExceeded, got {:?}", other),
    }
}

#[test]
fn test_splice_params_independent() {
    let mut files = FileSet::new();
    files.add("t.txt", "#param P\n#param Q\nP-Q\n");
    let res = parse_string(
        "#param X\n#include \"t.txt\" a,b\nX\n",
        &files,
        &vec!["outer".to_string()],
    )
    .unwrap();
    assert_eq!(res, "a-b\nouter\n");
}

#[test]
fn test_splice_inner_cursor_must_drain() {
    let mut files = FileSet::new();
    files.add("t.txt", "#param P\nP\n");
    match parse_string("#include \"t.txt\" a,b\n", &files, &vec![]) {
        Err(Error::UnusedParameters) => {}
        other => panic!("expected UnusedParameters, got {:?}", other),
    }
}

#[test]
fn test_parse_reads_from_table() {
    let mut files = FileSet::new();
    files.add("main.txt", "#define A 1\nA");
    assert_eq!(parse("main.txt", &files, &vec![]).unwrap(), "1");
}

#[test]
fn test_parse_missing_file() {
    match parse("nope", &FileSet::new(), &vec![]) {
        Err(Error::FileNotFound(path)) => assert_eq!(path, "nope"),
        other => panic!("expected FileNotFound, got {:?}", other),
    }
}

#[test]
fn test_unicode_word_boundary() {
    let res = parse_string(
        "#define \u{c9}X 5\na\u{c9}X \u{c9}X",
        &FileSet::new(),
        &vec![],
    )
    .unwrap();
    assert_eq!(res, "a\u{c9}X 5");
}

#[test]
fn test_redefinition_is_additive() {
    // later bindings rewrite what earlier ones produced, in table order
    let res = parse_string("#define A B\n#define B C\nA\n", &FileSet::new(), &vec![]).unwrap();
    assert_eq!(res, "C\n");
}

#[test]
fn test_crlf_lines_normalised() {
    let res = parse_string("#define A 1\r\nA\r\nA", &FileSet::new(), &vec![]).unwrap();
    assert_eq!(res, "1\n1");
}

#[test]
fn test_define_empty_replacement() {
    let res = parse_string("#define A\nxAx A\n", &FileSet::new(), &vec![]).unwrap();
    assert_eq!(res, "xAx \n");
}

#[test]
fn test_define_not_retroactive() {
    let res = parse_string("A\n#define A 1\nA", &FileSet::new(), &vec![]).unwrap();
    assert_eq!(res, "A\n1");
}

#[test]
fn test_replacement_keeps_inner_whitespace() {
    let res = parse_string("#define A  two  spaces\nA", &FileSet::new(), &vec![]).unwrap();
    assert_eq!(res, " two  spaces");
}

#[test]
fn test_splice_subdirectory_path() {
    let mut files = FileSet::new();
    files.add("sub/inner.txt", "inner\n");
    let res = parse_string("#include \"sub/inner.txt\"\n", &files, &vec![]).unwrap();
    assert_eq!(res, "inner\n");
}

#[test]
fn test_object_macros_rewrite_call_arguments() {
    let res = parse_string(
        "#define X 1\n#define F(a) a!\nF(X)\n",
        &FileSet::new(),
        &vec![],
    )
    .unwrap();
    assert_eq!(res, " 1!\n");
}

#[test]
fn test_replacement_not_rescanned_for_same_macro() {
    let res = parse_string("#define A xAy\nA", &FileSet::new(), &vec![]).unwrap();
    assert_eq!(res, "xAy");
}
