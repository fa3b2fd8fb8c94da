use laurn::container::{
    references, source_input, Build, BuildError, BuildFailed, Container, Error, Instantiate,
    InstantiationFailed, ToolOutput,
};

#[test]
fn parse_line_separated() {
    let input = b"/nix/store/hash-foo\n/nix/store/hash-bar";
    let (rest, out) = references(input).expect("parsing failed");
    println!("rest={:?}, out={:?}", rest, out);
    assert!(rest.is_empty());
    assert_eq!(
        out,
        vec![
            b"/nix/store/hash-foo".to_vec(),
            b"/nix/store/hash-bar".to_vec(),
        ],
    );
}

#[test]
fn parse_line_trailing_newline() {
    let input = b"/nix/store/hash-foo\n/nix/store/hash-bar\n";
    let (_rest, out) = references(input).expect("parsing failed");
    assert_eq!(
        out,
        vec![
            b"/nix/store/hash-foo".to_vec(),
            b"/nix/store/hash-bar".to_vec(),
        ],
    );
}

#[test]
fn parse_empty() {
    let input = b"\n\n";
    assert!(references(input).is_err());
    let input = b"\n";
    assert!(references(input).is_err());
    let input = b"";
    assert!(references(input).is_err());
}

#[test]
fn parse_empty_line() {
    let input = b"/nix/store/hash-foo\n\n/nix/store/hash-bar\n";
    let out = references(input);
    println!("out={:?}", out);
    assert!(out.is_err());
}

#[test]
fn parse_two_store_paths_consumes_everything() {
    let (rest, out) = references(b"/nix/store/aaa\n/nix/store/bbb").expect("parsing failed");
    assert_eq!(rest.len(), 0);
    assert_eq!(out, vec![b"/nix/store/aaa".to_vec(), b"/nix/store/bbb".to_vec()]);
}

#[test]
fn parse_single_path() {
    let (_rest, out) = references(b"/nix/store/only\n").expect("parsing failed");
    assert_eq!(out, vec![b"/nix/store/only".to_vec()]);
}

#[test]
fn parse_rejects_leading_newline_and_double_trailing() {
    assert!(references(b"\n/nix/store/a").is_err());
    assert!(references(b"/nix/store/a\n\n").is_err());
}

fn output(code: i32, stdout: &[u8]) -> ToolOutput {
    ToolOutput { code, stdout: stdout.to_vec() }
}

#[test]
fn instantiate_reads_derivation_path() {
    let i = Instantiate::new(output(0, b"/nix/store/x.drv\n")).expect("derivation");
    assert_eq!(i.0, b"/nix/store/x.drv".to_vec());
}

#[test]
fn instantiate_reports_exit_code_and_truncation() {
    assert!(matches!(
        Instantiate::new(output(3, b"/nix/store/x.drv\n")),
        Err(InstantiationFailed::Code { exit_status: 3 })
    ));
    assert!(matches!(
        Instantiate::new(output(0, b"")),
        Err(InstantiationFailed::Truncated)
    ));
}

#[test]
fn realize_reads_output_path() {
    let b = Build::realize(output(0, b"/nix/store/entry\n")).expect("output");
    assert_eq!(b.output, b"/nix/store/entry".to_vec());
    assert!(matches!(
        Build::realize(output(1, b"")),
        Err(BuildFailed::Code { exit_status: 1 })
    ));
    assert!(matches!(Build::realize(output(0, b"")), Err(BuildFailed::Truncated)));
}

#[test]
fn build_container_from_tool_outputs() {
    let c = Container::build(
        b"/home/u/p/laurn.nix".to_vec(),
        output(0, b"/nix/store/x.drv\n"),
        output(0, b"/nix/store/entry\n"),
    )
    .expect("container");
    assert_eq!(c.laurn_expr, b"/home/u/p/laurn.nix".to_vec());
    assert_eq!(c.output.output, b"/nix/store/entry".to_vec());

    let e = Container::build(b"/p/laurn.nix".to_vec(), output(2, b""), output(0, b"/x\n"));
    assert!(matches!(
        e,
        Err(BuildError::Instantiation(InstantiationFailed::Code { exit_status: 2 }))
    ));
    let e = Container::build(b"/p/laurn.nix".to_vec(), output(0, b"/d\n"), output(0, b""));
    assert!(matches!(e, Err(BuildError::Build(BuildFailed::Truncated))));
}

#[test]
fn container_references() {
    let c = Container {
        laurn_expr: b"/p/laurn.nix".to_vec(),
        output: Build { output: b"/nix/store/entry".to_vec() },
    };
    let paths = c
        .references(output(0, b"/nix/store/entry\n/nix/store/lib\n"))
        .expect("closure");
    assert_eq!(paths, vec![b"/nix/store/entry".to_vec(), b"/nix/store/lib".to_vec()]);
    assert!(matches!(
        c.references(output(0, b"/a\n\n/b")),
        Err(Error::ParsingFailed)
    ));
    assert!(matches!(
        c.references(output(4, b"/a")),
        Err(Error::Code { exit_status: 4 })
    ));
}

#[test]
fn wrapper_expression_imports_user_expression() {
    let expr = source_input(b"/home/u/p/laurn.nix");
    let text = String::from_utf8(expr).expect("utf-8");
    assert!(text.contains("origShell = (import /home/u/p/laurn.nix);"));
    assert!(text.starts_with("\n{ system ? builtins.currentSystem }:"));
    assert!(text.contains("exec @bashShell@/bin/bash -c \"$*\""));
    assert!(text.contains("pkgs.iproute"));
}

#[test]
fn single_line_output_without_newline_is_kept_whole() {
    let i = Instantiate::new(output(0, b"/nix/store/x.drv")).expect("derivation");
    assert_eq!(i.0, b"/nix/store/x.drv".to_vec());
}
