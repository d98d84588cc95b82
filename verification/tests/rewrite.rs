use unreal_rust_compile::classifier::ArgumentFiles;
use unreal_rust_compile::front_end::FrontEndError;
use unreal_rust_compile::paths::definition_path;
use unreal_rust_compile::rewrite::{rewrite_build_output, rewrite_link_line, Outcome};

fn words(items: &[&str]) -> Vec<String> {
    items.iter().map(|s| s.to_string()).collect()
}

#[test]
fn definition_file_stands_beside_the_archiver_file() {
    assert_eq!(definition_path("out/dir/lib_args.txt"), "out/dir/build_def.def");
    assert_eq!(definition_path("lib_args.txt"), "build_def.def");
    assert_eq!(definition_path("/abs/lib_args.txt"), "/abs/build_def.def");
}

#[test]
fn end_to_end_scenario() {
    let line = "link.exe \"/LIBPATH:C:\\\\lib\" foo.o \"/DEF:C:\\\\x\\\\y.def\" bar.rlib baz.dll cl.exe";
    let files = rewrite_link_line(line, "out/lib_args.txt").unwrap();
    assert_eq!(
        files.linker,
        words(&["/LIBPATH:\"C:\\lib\"", "/DEF:\"out/build_def.def\"", "\"baz.dll\""])
    );
    assert_eq!(
        files.archiver,
        words(&["\"foo.o\"", "/DEF:\"out/build_def.def\"", "\"bar.rlib\""])
    );
    assert_eq!(files.relocations, words(&["C:\\x\\y.def"]));
    assert_eq!(files.definition_path, "out/build_def.def");
}

#[test]
fn quote_in_the_middle_of_a_flag_splits_it() {
    let line = "link.exe /LIBPATH:\"C:\\lib\" foo.o /DEF:\"C:\\x\\y.def\" bar.rlib baz.dll cl.exe";
    let files = rewrite_link_line(line, "out/lib_args.txt").unwrap();
    assert_eq!(
        files.linker,
        words(&[
            "/LIBPATH:\"\"",
            "\"C:lib\"",
            "/DEF:\"out/build_def.def\"",
            "\"C:xy.def\"",
            "\"baz.dll\"",
        ])
    );
    assert_eq!(
        files.archiver,
        words(&["\"foo.o\"", "/DEF:\"out/build_def.def\"", "\"bar.rlib\""])
    );
    assert_eq!(files.relocations, words(&[""]));
}

#[test]
fn front_end_itself_is_not_classified() {
    for line in ["/opt/link.exe a.lib", "tools/link.exe/ a.lib", "-x/link.exe a.lib"] {
        let files = rewrite_link_line(line, "args").unwrap();
        assert_eq!(files.linker, words(&["\"a.lib\""]));
        assert_eq!(files.archiver, Vec::<String>::new());
    }
}

#[test]
fn unknown_front_end_is_rejected() {
    assert_eq!(
        rewrite_link_line("cl.exe a.o /DEF:x.def", "args"),
        Err(FrontEndError::Unrecognized("cl.exe".to_string()))
    );
}

#[test]
fn line_without_tokens_is_rejected() {
    assert_eq!(rewrite_link_line("", "args"), Err(FrontEndError::Missing));
    assert_eq!(rewrite_link_line("  \"\" ", "args"), Err(FrontEndError::Missing));
}

#[test]
fn each_known_front_end_proceeds() {
    for front_end in ["link.exe", "lld-link.exe", "rust-lld.exe"] {
        let line = format!("{} a.o b.lib", front_end);
        let files = rewrite_link_line(&line, "args").unwrap();
        assert_eq!(files.linker, words(&["\"b.lib\""]));
        assert_eq!(files.archiver, words(&["\"a.o\""]));
    }
}

#[test]
fn output_without_a_line_is_reported() {
    assert_eq!(rewrite_build_output("", "args"), Outcome::NoOutput);
}

#[test]
fn output_without_definition_is_a_no_op() {
    let output = "Compiling x\nlink.exe a.o b.lib\n";
    assert_eq!(rewrite_build_output(output, "args"), Outcome::NoLinkerArguments);
    assert_eq!(rewrite_build_output(output, "args"), Outcome::NoLinkerArguments);
    assert_eq!(rewrite_build_output("\n", "args"), Outcome::NoLinkerArguments);
}

#[test]
fn only_the_last_line_counts() {
    let output = "link.exe a.o /DEF:x.def\nfinished\n";
    assert_eq!(rewrite_build_output(output, "args"), Outcome::NoLinkerArguments);
}

#[test]
fn output_with_unknown_front_end_is_rejected() {
    let output = "noise\ncl.exe a.o /DEF:x.def\r\n";
    assert_eq!(
        rewrite_build_output(output, "args"),
        Outcome::Rejected(FrontEndError::Unrecognized("cl.exe".to_string()))
    );
}

#[test]
fn output_is_rewritten_from_its_last_line() {
    let output = "warning: x\r\n\"rust-lld.exe\" \"-flavor\" \"link\" \"a.o\" \"k.lib\" \"/DEF:s.def\"\r\n";
    let expected = ArgumentFiles {
        linker: words(&["\"k.lib\"", "/DEF:\"dir/build_def.def\""]),
        archiver: words(&["\"a.o\"", "/DEF:\"dir/build_def.def\""]),
        relocations: words(&["s.def"]),
        definition_path: "dir/build_def.def".to_string(),
    };
    assert_eq!(rewrite_build_output(output, "dir/lib.args"), Outcome::Rewritten(expected));
}

#[test]
fn exit_code_tells_success_from_failure() {
    assert_eq!(rewrite_build_output("", "args").exit_code(), 1);
    assert_eq!(rewrite_build_output("link.exe a.o\n", "args").exit_code(), 0);
    assert_eq!(rewrite_build_output("cl.exe a.o x.def\n", "args").exit_code(), 1);
    assert_eq!(rewrite_build_output("link.exe a.o /DEF:x.def\n", "args").exit_code(), 0);
    assert_eq!(Outcome::Rejected(FrontEndError::Missing).exit_code(), 1);
}
