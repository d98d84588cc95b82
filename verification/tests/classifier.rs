use unreal_rust_compile::classifier::{
    classify_arguments, classify_token, recognize, Classification, KnownOption,
};

fn words(items: &[&str]) -> Vec<String> {
    items.iter().map(|s| s.to_string()).collect()
}

fn linker(line: &str) -> Classification<String> {
    Classification::LinkerFile(line.to_string())
}

fn archiver(line: &str) -> Classification<String> {
    Classification::ArchiverFile(line.to_string())
}

#[test]
fn objects_go_to_the_archiver() {
    assert_eq!(classify_token("foo.o"), archiver("\"foo.o\""));
    assert_eq!(classify_token("bar.rlib"), archiver("\"bar.rlib\""));
    assert_eq!(classify_token("C:\\out\\deps\\x.rcgu.o"), archiver("\"C:\\out\\deps\\x.rcgu.o\""));
}

#[test]
fn other_paths_go_to_the_linker() {
    assert_eq!(classify_token("baz.dll"), linker("\"baz.dll\""));
    assert_eq!(classify_token("baz.lib"), linker("\"baz.lib\""));
    assert_eq!(classify_token("kernel32"), linker("\"kernel32\""));
    assert_eq!(classify_token("a.obj"), linker("\"a.obj\""));
    assert_eq!(classify_token("a.o.d"), linker("\"a.o.d\""));
}

#[test]
fn tools_are_discarded() {
    assert_eq!(classify_token("cl.exe"), Classification::Discard);
    assert_eq!(classify_token("C:\\bin\\link.exe"), Classification::Discard);
    assert_eq!(classify_token(".exe"), Classification::Discard);
}

#[test]
fn flags_that_end_like_a_tool_are_discarded() {
    assert_eq!(classify_token("/LIBPATH:tool.exe"), Classification::Discard);
    assert_eq!(classify_token("/DEF:tool.exe"), Classification::Discard);
    assert_eq!(classify_token("-flavor.exe"), Classification::Discard);
}

#[test]
fn extension_match_is_exact_in_case() {
    assert_eq!(classify_token("A.EXE"), linker("\"A.EXE\""));
    assert_eq!(classify_token("a.O"), linker("\"a.O\""));
    assert_eq!(classify_token("a.RLIB"), linker("\"a.RLIB\""));
}

#[test]
fn library_path_is_forwarded_to_the_linker() {
    assert_eq!(classify_token("/LIBPATH:C:\\x"), linker("/LIBPATH:\"C:\\x\""));
    assert_eq!(classify_token("/IMPLIB:C:\\y.lib"), linker("/IMPLIB:\"C:\\y.lib\""));
}

#[test]
fn hyphen_flags_are_written_with_a_slash() {
    assert_eq!(classify_token("-LIBPATH:dir"), linker("/LIBPATH:\"dir\""));
    assert_eq!(classify_token("-IMPLIB:a.lib"), linker("/IMPLIB:\"a.lib\""));
}

#[test]
fn value_runs_from_the_first_colon() {
    assert_eq!(classify_token("/LIBPATH:C:\\a:b"), linker("/LIBPATH:\"C:\\a:b\""));
    assert_eq!(classify_token("/LIBPATH:"), linker("/LIBPATH:\"\""));
    assert_eq!(classify_token("/LIBPATH"), linker("/LIBPATH:\"\""));
    assert_eq!(classify_token("/IMPLIB: spaced out"), linker("/IMPLIB:\" spaced out\""));
}

#[test]
fn unknown_flags_are_discarded() {
    assert_eq!(classify_token("/OUT:a.dll"), Classification::Discard);
    assert_eq!(classify_token("/NOLOGO"), Classification::Discard);
    assert_eq!(classify_token("-nologo"), Classification::Discard);
    assert_eq!(classify_token("/"), Classification::Discard);
    assert_eq!(classify_token("-"), Classification::Discard);
    assert_eq!(classify_token("/:x"), Classification::Discard);
    assert_eq!(classify_token("/libpath:x"), Classification::Discard);
    assert_eq!(classify_token("/LIBPATHS:x"), Classification::Discard);
    assert_eq!(classify_token("/foo.o"), Classification::Discard);
}

#[test]
fn flavor_takes_its_value_along() {
    assert_eq!(classify_token("-flavor"), Classification::DiscardWithValue);
    assert_eq!(classify_token("/flavor"), Classification::DiscardWithValue);
    assert_eq!(classify_token("-flavor:link"), Classification::DiscardWithValue);
    assert_eq!(classify_token("-Flavor"), Classification::Discard);
}

#[test]
fn definition_flag_names_the_file_to_relocate() {
    assert_eq!(
        classify_token("/DEF:C:\\src\\mod.def"),
        Classification::Both("C:\\src\\mod.def".to_string())
    );
    assert_eq!(classify_token("-DEF:m.def"), Classification::Both("m.def".to_string()));
    assert_eq!(classify_token("/DEF"), Classification::Both(String::new()));
}

#[test]
fn empty_token_is_a_path() {
    assert_eq!(classify_token(""), linker("\"\""));
}

#[test]
fn definition_line_goes_to_both_files() {
    let tokens = words(&["/DEF:C:\\src\\mod.def"]);
    let files = classify_arguments(&tokens, 0, "out/build_def.def");
    assert_eq!(files.linker, words(&["/DEF:\"out/build_def.def\""]));
    assert_eq!(files.archiver, words(&["/DEF:\"out/build_def.def\""]));
    assert_eq!(files.relocations, words(&["C:\\src\\mod.def"]));
    assert_eq!(files.definition_path, "out/build_def.def");
}

#[test]
fn pass_keeps_the_order_of_the_tokens() {
    let tokens = words(&[
        "link.exe", "z.lib", "/LIBPATH:b", "b.o", "a.o", "/IMPLIB:a", "a.lib", "b.o", "z.lib",
    ]);
    let files = classify_arguments(&tokens, 1, "d.def");
    assert_eq!(
        files.linker,
        words(&["\"z.lib\"", "/LIBPATH:\"b\"", "/IMPLIB:\"a\"", "\"a.lib\"", "\"z.lib\""])
    );
    assert_eq!(files.archiver, words(&["\"b.o\"", "\"a.o\"", "\"b.o\""]));
    assert_eq!(files.relocations, Vec::<String>::new());
}

#[test]
fn flavor_swallows_exactly_one_token() {
    let tokens = words(&["rust-lld.exe", "-flavor", "link", "a.o", "b.lib"]);
    let files = classify_arguments(&tokens, 1, "d.def");
    assert_eq!(files.linker, words(&["\"b.lib\""]));
    assert_eq!(files.archiver, words(&["\"a.o\""]));
}

#[test]
fn flavor_swallows_whatever_follows() {
    let tokens = words(&["-flavor", "a.o", "-flavor", "/DEF:x.def", "c.o", "-flavor", "-flavor", "d.o"]);
    let files = classify_arguments(&tokens, 0, "d.def");
    assert_eq!(files.linker, Vec::<String>::new());
    assert_eq!(files.archiver, words(&["\"c.o\"", "\"d.o\""]));
    assert_eq!(files.relocations, Vec::<String>::new());
}

#[test]
fn flavor_at_the_end_swallows_nothing() {
    let tokens = words(&["link.exe", "a.o", "-flavor"]);
    let files = classify_arguments(&tokens, 1, "d.def");
    assert_eq!(files.linker, Vec::<String>::new());
    assert_eq!(files.archiver, words(&["\"a.o\""]));
}

#[test]
fn pass_from_the_end_yields_nothing() {
    let tokens = words(&["link.exe"]);
    for from in [1usize, 2, 7, usize::MAX] {
        let files = classify_arguments(&tokens, from, "d.def");
        assert_eq!(files.linker, Vec::<String>::new());
        assert_eq!(files.archiver, Vec::<String>::new());
        assert_eq!(files.relocations, Vec::<String>::new());
        assert_eq!(files.definition_path, "d.def");
    }
}

#[test]
fn several_definition_flags_are_all_kept() {
    let tokens = words(&["/DEF:a.def", "x.o", "-DEF:b.def"]);
    let files = classify_arguments(&tokens, 0, "t/build_def.def");
    assert_eq!(
        files.linker,
        words(&["/DEF:\"t/build_def.def\"", "/DEF:\"t/build_def.def\""])
    );
    assert_eq!(
        files.archiver,
        words(&["/DEF:\"t/build_def.def\"", "\"x.o\"", "/DEF:\"t/build_def.def\""])
    );
    assert_eq!(files.relocations, words(&["a.def", "b.def"]));
}

#[test]
fn known_options_are_recognized_by_their_exact_name() {
    let name = |text: &str| text.chars().collect::<Vec<char>>();
    assert_eq!(recognize(&name("flavor")), Some(KnownOption::Flavor));
    assert_eq!(recognize(&name("LIBPATH")), Some(KnownOption::LibraryPath));
    assert_eq!(recognize(&name("IMPLIB")), Some(KnownOption::ImportLibrary));
    assert_eq!(recognize(&name("DEF")), Some(KnownOption::Definition));
    assert_eq!(recognize(&name("def")), None);
    assert_eq!(recognize(&name("OUT")), None);
    assert_eq!(recognize(&name("")), None);
    assert_eq!(recognize(&name("DEFAULTLIB")), None);
}
