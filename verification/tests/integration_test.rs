use ppx::parse_string;
use ppx::FileSet;

#[test]
fn test_define() {
    assert_eq!(
        parse_string(
            "
#define TEST 5

TESTe TEST",
            &FileSet::new(),
            &vec![]
        )
        .unwrap(),
        "

TESTe 5"
    );
}

#[test]
fn test_define_fn() {
    assert_eq!(
        parse_string(
            "
 #define TEST(a, b) b a
 TEST(4, 5)
",
            &FileSet::new(),
            &vec![]
        )
        .unwrap(),
        "
   5 4
"
    )
}

#[test]
fn test_define_fn_multiline() {
    assert_eq!(
        parse_string(
            "
#define TEST(a, b) \
    b \
    a
TEST(world, hello)
",
            &FileSet::new(),
            &vec![]
        )
        .unwrap(),
        "
  hello world
"
    );
}

#[test]
fn test_param() {
    assert_eq!(
        parse_string(
            "
#param A
A
",
            &FileSet::new(),
            &vec!["hello".to_string()]
        )
        .unwrap(),
        "
hello
"
    )
}

#[test]
fn test_include() {
    let mut files = FileSet::new();
    files.add("test.txt", "Brought in from test.txt!\n");
    assert_eq!(
        parse_string(
            r#"
#include "test.txt"
"#,
            &files,
            &vec![]
        )
        .unwrap(),
        "
Brought in from test.txt!
"
    );
}

#[test]
fn test_include_with_param() {
    let mut files = FileSet::new();
    files.add("test_with_param.txt", "\n#param A\n#param B\nA B\n");
    assert_eq!(
        parse_string(
            r#"
#include "test_with_param.txt" hello,world
"#,
            &files,
            &vec![]
        )
        .unwrap(),
        "

hello world
"
    )
}

#[test]
fn too_many_parameters() {
    match parse_string("", &FileSet::new(), &vec!["".to_string()]) {
        Err(ppx::Error::UnusedParameters) => {}
        _ => panic!("Expected UnusedParameters error"),
    }
}

#[test]
fn test_too_many_parameters() {
    match parse_string("", &FileSet::new(), &vec!["".to_string()]) {
        Err(ppx::Error::UnusedParameters) => {}
        _ => panic!("Expected UnusedParameters error"),
    }
}

#[test]
fn test_param_with_paren() {
    let res = parse_string(
        "#define TEST(a) a\nTEST(b(c))",
        &FileSet::new(),
        &vec![],
    )
    .unwrap();
    assert_eq!(res, " b(c)");
}
