//! Deciding, token by token, what goes to the linker and what to the archiver.

use vstd::prelude::*;
use crate::output::{format_option, option_line, quote, quoted};
use crate::text::{
    chars_of, ends_with, equals, find_char, lemma_prefix_without, prefix_without, string_of,
};

verus! {

/// What becomes of one token of a link command line. `T` is the text that
/// the token carries on: `String` in running code, `Seq<char>` in contracts.
#[derive(PartialEq, Eq, Debug)]
pub enum Classification<T> {
    /// The token goes nowhere.
    Discard,
    /// The token goes nowhere, and neither does the token after it, which
    /// holds its value.
    DiscardWithValue,
    /// This line goes to the linker file only.
    LinkerFile(T),
    /// This line goes to the archiver file only.
    ArchiverFile(T),
    /// The token names a module-definition file at this path. The file is
    /// relocated, and both files get a line that names the relocated file.
    Both(T),
}

impl View for Classification<String> {
    type V = Classification<Seq<char>>;

    open spec fn view(&self) -> Classification<Seq<char>> {
        match self {
            Classification::Discard => Classification::Discard,
            Classification::DiscardWithValue => Classification::DiscardWithValue,
            Classification::LinkerFile(line) => Classification::LinkerFile(line@),
            Classification::ArchiverFile(line) => Classification::ArchiverFile(line@),
            Classification::Both(source) => Classification::Both(source@),
        }
    }
}

impl Classification<Seq<char>> {
    /// What the token adds to the linker file, where the relocated
    /// module-definition file is `definition_path`.
    pub open spec fn linker_part(self, definition_path: Seq<char>) -> Seq<Seq<char>> {
        match self {
            Classification::LinkerFile(line) => seq![line],
            Classification::Both(_) => seq![definition_line(definition_path)],
            _ => Seq::empty(),
        }
    }

    /// What the token adds to the archiver file, where the relocated
    /// module-definition file is `definition_path`.
    pub open spec fn archiver_part(self, definition_path: Seq<char>) -> Seq<Seq<char>> {
        match self {
            Classification::ArchiverFile(line) => seq![line],
            Classification::Both(_) => seq![definition_line(definition_path)],
            _ => Seq::empty(),
        }
    }

    /// The module-definition file that the token asks to relocate, if any.
    pub open spec fn relocation_part(self) -> Seq<Seq<char>> {
        match self {
            Classification::Both(source) => seq![source],
            _ => Seq::empty(),
        }
    }
}

/// Whether `token` has the shape of a flag: it begins with a slash or a hyphen.
pub open spec fn is_flag(token: Seq<char>) -> bool {
    token.len() > 0 && (token[0] == '/' || token[0] == '-')
}

/// The name of the option that a flag sets: what stands between its first
/// character and its first colon, or its end where it holds no colon.
pub open spec fn option_name(token: Seq<char>) -> Seq<char>
    recommends
        is_flag(token),
{
    token.subrange(1, prefix_without(token, ':') as int)
}

/// The value that a flag carries: what follows its first colon, or nothing
/// where it holds no colon.
pub open spec fn option_value(token: Seq<char>) -> Seq<char> {
    if prefix_without(token, ':') < token.len() {
        token.skip(prefix_without(token, ':') + 1 as int)
    } else {
        Seq::empty()
    }
}

/// The options that are known by name. Every other option is dropped.
#[derive(Clone, Copy, PartialEq, Eq, Debug, Structural)]
pub enum KnownOption {
    /// `flavor` chooses the dialect of the linker. Its value is the token
    /// that follows, and neither is of use.
    Flavor,
    /// `LIBPATH` names a directory in which the linker looks for libraries.
    LibraryPath,
    /// `IMPLIB` names the import library that the linker writes.
    ImportLibrary,
    /// `DEF` names the module-definition file.
    Definition,
}

/// The option that goes by `name`, letter for letter, if it is a known one.
pub open spec fn known_option(name: Seq<char>) -> Option<KnownOption> {
    if name == "flavor"@ {
        Some(KnownOption::Flavor)
    } else if name == "LIBPATH"@ {
        Some(KnownOption::LibraryPath)
    } else if name == "IMPLIB"@ {
        Some(KnownOption::ImportLibrary)
    } else if name == "DEF"@ {
        Some(KnownOption::Definition)
    } else {
        None
    }
}

/// Whether the linker gets the option `name`, with its value.
pub open spec fn is_linker_option(name: Seq<char>) -> bool {
    known_option(name) == Some(KnownOption::LibraryPath) || known_option(name) == Some(
        KnownOption::ImportLibrary,
    )
}

/// The line that names the module-definition file at `path`.
pub open spec fn definition_line(path: Seq<char>) -> Seq<char> {
    option_line("DEF"@, path)
}

/// What becomes of `token`.
///
/// A token that ends in `.exe` names a tool and is dropped. Of the flags,
/// `flavor` is dropped with the token after it, `LIBPATH` and `IMPLIB` go to
/// the linker with their value between quotes, `DEF` names the
/// module-definition file, and all others are dropped. Any other token is a
/// path: an object or a Rust library goes to the archiver, the rest to the
/// linker, each between quotes.
pub open spec fn classify(token: Seq<char>) -> Classification<Seq<char>> {
    if ".exe"@.is_suffix_of(token) {
        Classification::Discard
    } else if is_flag(token) {
        match known_option(option_name(token)) {
            Some(KnownOption::Flavor) => Classification::DiscardWithValue,
            Some(KnownOption::LibraryPath) | Some(KnownOption::ImportLibrary) => {
                Classification::LinkerFile(option_line(option_name(token), option_value(token)))
            },
            Some(KnownOption::Definition) => Classification::Both(option_value(token)),
            None => Classification::Discard,
        }
    } else if ".o"@.is_suffix_of(token) || ".rlib"@.is_suffix_of(token) {
        Classification::ArchiverFile(quoted(token))
    } else {
        Classification::LinkerFile(quoted(token))
    }
}

/// The place of the token that is classified after the one at `at`.
pub open spec fn next_place(tokens: Seq<Seq<char>>, at: int) -> int {
    if classify(tokens[at]) is DiscardWithValue {
        at + 2
    } else {
        at + 1
    }
}

/// The classifications of the tokens from place `from` on, in order, without
/// the tokens that a flag before them took as its value.
pub open spec fn classifications(tokens: Seq<Seq<char>>, from: int) -> Seq<
    Classification<Seq<char>>,
>
    decreases tokens.len() + 1 - from,
{
    if from < 0 || from >= tokens.len() {
        Seq::empty()
    } else {
        seq![classify(tokens[from])] + classifications(tokens, next_place(tokens, from))
    }
}

/// The lines of the linker file, in the order of the tokens they come from.
pub open spec fn linker_lines(
    routes: Seq<Classification<Seq<char>>>,
    definition_path: Seq<char>,
) -> Seq<Seq<char>>
    decreases routes.len(),
{
    if routes.len() == 0 {
        Seq::empty()
    } else {
        routes[0].linker_part(definition_path) + linker_lines(
            routes.drop_first(),
            definition_path,
        )
    }
}

/// The lines of the archiver file, in the order of the tokens they come from.
pub open spec fn archiver_lines(
    routes: Seq<Classification<Seq<char>>>,
    definition_path: Seq<char>,
) -> Seq<Seq<char>>
    decreases routes.len(),
{
    if routes.len() == 0 {
        Seq::empty()
    } else {
        routes[0].archiver_part(definition_path) + archiver_lines(
            routes.drop_first(),
            definition_path,
        )
    }
}

/// The module-definition files to relocate, in the order of their flags.
pub open spec fn relocation_sources(routes: Seq<Classification<Seq<char>>>) -> Seq<Seq<char>>
    decreases routes.len(),
{
    if routes.len() == 0 {
        Seq::empty()
    } else {
        routes[0].relocation_part() + relocation_sources(routes.drop_first())
    }
}

/// A token that ends in `.exe` is dropped, whether or not it looks like a flag.
pub proof fn lemma_tool_is_discarded(token: Seq<char>)
    requires
        ".exe"@.is_suffix_of(token),
    ensures
        classify(token) == Classification::<Seq<char>>::Discard,
{
}

/// A path that is no tool goes to exactly one file, between quotes and
/// otherwise unchanged: to the archiver if it ends in `.o` or `.rlib`, to the
/// linker if not.
pub proof fn lemma_path_goes_to_one_file(token: Seq<char>, definition_path: Seq<char>)
    requires
        !is_flag(token),
        !".exe"@.is_suffix_of(token),
    ensures
        ".o"@.is_suffix_of(token) || ".rlib"@.is_suffix_of(token) ==> {
            &&& classify(token).archiver_part(definition_path) == seq![quoted(token)]
            &&& classify(token).linker_part(definition_path) == Seq::<Seq<char>>::empty()
        },
        !(".o"@.is_suffix_of(token) || ".rlib"@.is_suffix_of(token)) ==> {
            &&& classify(token).linker_part(definition_path) == seq![quoted(token)]
            &&& classify(token).archiver_part(definition_path) == Seq::<Seq<char>>::empty()
        },
        classify(token).relocation_part() == Seq::<Seq<char>>::empty(),
{
}

/// What a flag is made of is what is read out of it: a flag written as a
/// slash or a hyphen, a name without a colon, a colon and a value has that
/// name and that value.
pub proof fn lemma_flag_parts(lead: char, name: Seq<char>, value: Seq<char>)
    requires
        lead == '/' || lead == '-',
        forall|i: int| 0 <= i < name.len() ==> name[i] != ':',
    ensures
        is_flag(seq![lead] + name + seq![':'] + value),
        option_name(seq![lead] + name + seq![':'] + value) == name,
        option_value(seq![lead] + name + seq![':'] + value) == value,
{
    let token = seq![lead] + name + seq![':'] + value;
    let colon = 1 + name.len() as int;
    assert forall|i: int| 0 <= i < colon implies token[i] != ':' by {
        if i > 0 {
            assert(token[i] == name[i - 1]);
        }
    }
    assert(token[colon] == ':');
    lemma_prefix_without(token, ':', colon);
    assert(token.subrange(1, colon) =~= name);
    assert(token.skip(colon + 1) =~= value);
}

/// A library path or an import library reaches the linker, and only the
/// linker, with its value kept as it was and put between quotes.
pub proof fn lemma_linker_option_is_forwarded(
    lead: char,
    name: Seq<char>,
    value: Seq<char>,
    definition_path: Seq<char>,
)
    requires
        lead == '/' || lead == '-',
        is_linker_option(name),
        !".exe"@.is_suffix_of(value),
    ensures
        classify(seq![lead] + name + seq![':'] + value).linker_part(definition_path) == seq![
            option_line(name, value),
        ],
        classify(seq![lead] + name + seq![':'] + value).archiver_part(definition_path)
            == Seq::<Seq<char>>::empty(),
        classify(seq![lead] + name + seq![':'] + value).relocation_part() == Seq::<
            Seq<char>,
        >::empty(),
{
    let token = seq![lead] + name + seq![':'] + value;
    reveal_strlit("LIBPATH");
    reveal_strlit("IMPLIB");
    reveal_strlit("flavor");
    reveal_strlit(".exe");
    lemma_flag_parts(lead, name, value);
    lemma_suffix_of_value(lead, name, value, ".exe"@);
    assert(!".exe"@.is_suffix_of(token));
    assert(is_flag(token));
    assert(option_name(token) == name);
    assert(classify(token) == Classification::LinkerFile(option_line(name, value)));
}

/// A suffix that holds no colon and is no longer than the value of a flag
/// ends the flag if and only if it ends the value.
proof fn lemma_suffix_of_value(lead: char, name: Seq<char>, value: Seq<char>, suffix: Seq<char>)
    requires
        forall|i: int| 0 <= i < suffix.len() ==> suffix[i] != ':',
    ensures
        suffix.is_suffix_of(seq![lead] + name + seq![':'] + value) == suffix.is_suffix_of(value),
{
    let token = seq![lead] + name + seq![':'] + value;
    let colon = 1 + name.len() as int;
    assert(token[colon] == ':');
    if suffix.is_suffix_of(value) {
        assert(token.subrange(token.len() - suffix.len(), token.len() as int)
            =~= value.subrange(value.len() - suffix.len(), value.len() as int));
    }
    if suffix.is_suffix_of(token) {
        let start = token.len() - suffix.len();
        if start <= colon {
            assert(token.subrange(start, token.len() as int)[colon - start] == ':');
        }
        assert(token.subrange(token.len() - suffix.len(), token.len() as int)
            =~= value.subrange(value.len() - suffix.len(), value.len() as int));
    }
}

/// A flag that names a module-definition file puts one and the same line
/// into both files, and that line names the relocated file, whatever the
/// flag's own path was. The flag's path is what is to be relocated.
pub proof fn lemma_definition_goes_to_both(
    lead: char,
    source: Seq<char>,
    definition_path: Seq<char>,
)
    requires
        lead == '/' || lead == '-',
        !".exe"@.is_suffix_of(source),
    ensures
        classify(seq![lead] + "DEF"@ + seq![':'] + source).linker_part(definition_path) == seq![
            definition_line(definition_path),
        ],
        classify(seq![lead] + "DEF"@ + seq![':'] + source).archiver_part(definition_path)
            == seq![definition_line(definition_path)],
        classify(seq![lead] + "DEF"@ + seq![':'] + source).relocation_part() == seq![source],
{
    reveal_strlit("LIBPATH");
    reveal_strlit("IMPLIB");
    reveal_strlit("flavor");
    reveal_strlit("DEF");
    reveal_strlit(".exe");
    lemma_flag_parts(lead, "DEF"@, source);
    lemma_suffix_of_value(lead, "DEF"@, source, ".exe"@);
}

/// A flag whose name is not known reaches neither file, and neither does
/// `flavor`.
pub proof fn lemma_other_flag_is_discarded(token: Seq<char>, definition_path: Seq<char>)
    requires
        is_flag(token),
        known_option(option_name(token)) is None || known_option(option_name(token)) == Some(
            KnownOption::Flavor,
        ),
    ensures
        classify(token).linker_part(definition_path) == Seq::<Seq<char>>::empty(),
        classify(token).archiver_part(definition_path) == Seq::<Seq<char>>::empty(),
        classify(token).relocation_part() == Seq::<Seq<char>>::empty(),
{
}

/// The files keep the order of the tokens and drop nothing twice: what two
/// runs of classified tokens add to a file is what the first run adds,
/// followed by what the second adds.
pub proof fn lemma_lines_in_order(
    first: Seq<Classification<Seq<char>>>,
    second: Seq<Classification<Seq<char>>>,
    definition_path: Seq<char>,
)
    ensures
        linker_lines(first + second, definition_path) == linker_lines(first, definition_path)
            + linker_lines(second, definition_path),
        archiver_lines(first + second, definition_path) == archiver_lines(first, definition_path)
            + archiver_lines(second, definition_path),
        relocation_sources(first + second) == relocation_sources(first) + relocation_sources(
            second,
        ),
    decreases first.len(),
{
    if first.len() == 0 {
        assert(first + second =~= second);
        assert(linker_lines(first, definition_path) + linker_lines(second, definition_path)
            =~= linker_lines(second, definition_path));
        assert(archiver_lines(first, definition_path) + archiver_lines(second, definition_path)
            =~= archiver_lines(second, definition_path));
        assert(relocation_sources(first) + relocation_sources(second) =~= relocation_sources(
            second,
        ));
    } else {
        let head = first[0];
        let tail = first.drop_first();
        lemma_lines_in_order(tail, second, definition_path);
        assert((first + second).drop_first() =~= tail + second);
        assert((first + second)[0] == head);
        assert(linker_lines(first + second, definition_path) =~= head.linker_part(definition_path)
            + linker_lines(tail, definition_path) + linker_lines(second, definition_path));
        assert(archiver_lines(first + second, definition_path) =~= head.archiver_part(
            definition_path,
        ) + archiver_lines(tail, definition_path) + archiver_lines(second, definition_path));
        assert(relocation_sources(first + second) =~= head.relocation_part() + relocation_sources(
            tail,
        ) + relocation_sources(second));
    }
}

/// Where no token is a `flavor` flag, every token from `from` on is
/// classified on its own, in order.
pub proof fn lemma_classified_one_by_one(tokens: Seq<Seq<char>>, from: int)
    requires
        0 <= from <= tokens.len(),
        forall|i: int|
            from <= i < tokens.len() ==> !(#[trigger] classify(tokens[i]) is DiscardWithValue),
    ensures
        classifications(tokens, from) == Seq::new(
            (tokens.len() - from) as nat,
            |i: int| classify(tokens[from + i]),
        ),
    decreases tokens.len() - from,
{
    if from < tokens.len() {
        lemma_classified_one_by_one(tokens, from + 1);
        assert(!(classify(tokens[from]) is DiscardWithValue));
    }
    assert(classifications(tokens, from) =~= Seq::new(
        (tokens.len() - from) as nat,
        |i: int| classify(tokens[from + i]),
    ));
}

/// What one pass over the arguments of a link command line yields.
#[derive(PartialEq, Eq, Debug)]
pub struct ArgumentFiles {
    /// The lines of the linker file.
    pub linker: Vec<String>,
    /// The lines of the archiver file.
    pub archiver: Vec<String>,
    /// The module-definition files that the line names, each to be copied to
    /// `definition_path` if it exists.
    pub relocations: Vec<String>,
    /// Where the module-definition file is relocated to.
    pub definition_path: String,
}

/// An `ArgumentFiles` as contracts see it.
pub struct ArgumentFilesView {
    /// The lines of the linker file.
    pub linker: Seq<Seq<char>>,
    /// The lines of the archiver file.
    pub archiver: Seq<Seq<char>>,
    /// The module-definition files to relocate.
    pub relocations: Seq<Seq<char>>,
    /// Where the module-definition file is relocated to.
    pub definition_path: Seq<char>,
}

impl View for ArgumentFiles {
    type V = ArgumentFilesView;

    open spec fn view(&self) -> ArgumentFilesView {
        ArgumentFilesView {
            linker: self.linker.deep_view(),
            archiver: self.archiver.deep_view(),
            relocations: self.relocations.deep_view(),
            definition_path: self.definition_path@,
        }
    }
}

/// What the tokens from place `from` on yield, where the relocated
/// module-definition file is `definition_path`: each token is classified in
/// turn and its text joins the end of the files it goes to.
pub open spec fn argument_files(
    tokens: Seq<Seq<char>>,
    from: int,
    definition_path: Seq<char>,
) -> ArgumentFilesView {
    let routes = classifications(tokens, from);
    ArgumentFilesView {
        linker: linker_lines(routes, definition_path),
        archiver: archiver_lines(routes, definition_path),
        relocations: relocation_sources(routes),
        definition_path,
    }
}

/// What the files hold from place `at` on is what the token at `at` adds,
/// followed by what they hold from the next place on.
proof fn lemma_pass_step(tokens: Seq<Seq<char>>, at: int, definition_path: Seq<char>)
    requires
        0 <= at < tokens.len(),
    ensures
        linker_lines(classifications(tokens, at), definition_path) == classify(
            tokens[at],
        ).linker_part(definition_path) + linker_lines(
            classifications(tokens, next_place(tokens, at)),
            definition_path,
        ),
        archiver_lines(classifications(tokens, at), definition_path) == classify(
            tokens[at],
        ).archiver_part(definition_path) + archiver_lines(
            classifications(tokens, next_place(tokens, at)),
            definition_path,
        ),
        relocation_sources(classifications(tokens, at)) == classify(tokens[at]).relocation_part()
            + relocation_sources(classifications(tokens, next_place(tokens, at))),
{
    let here = classify(tokens[at]);
    let rest = classifications(tokens, next_place(tokens, at));
    assert(classifications(tokens, at) == seq![here] + rest);
    assert((seq![here] + rest).drop_first() =~= rest);
}

/// Classifies the tokens of a link command line from place `from` on and
/// collects what goes to the linker file and to the archiver file. The line
/// that names the module-definition file points to `definition_path`.
pub fn classify_arguments(tokens: &Vec<String>, from: usize, definition_path: &str) -> (files:
    ArgumentFiles)
    ensures
        files@ == argument_files(tokens.deep_view(), from as int, definition_path@),
{
    let ghost all = tokens.deep_view();
    let ghost target = definition_path@;
    let mut linker: Vec<String> = Vec::new();
    let mut archiver: Vec<String> = Vec::new();
    let mut relocations: Vec<String> = Vec::new();
    let mut at = from;
    let definition = format_option(
        chars_of("DEF").as_slice(),
        chars_of(definition_path).as_slice(),
    );
    assert(linker.deep_view() + linker_lines(classifications(all, at as int), target)
        =~= linker_lines(classifications(all, from as int), target));
    assert(archiver.deep_view() + archiver_lines(classifications(all, at as int), target)
        =~= archiver_lines(classifications(all, from as int), target));
    assert(relocations.deep_view() + relocation_sources(classifications(all, at as int))
        =~= relocation_sources(classifications(all, from as int)));
    while at < tokens.len()
        invariant
            all == tokens.deep_view(),
            definition@ == definition_line(target),
            linker.deep_view() + linker_lines(classifications(all, at as int), target)
                == linker_lines(classifications(all, from as int), target),
            archiver.deep_view() + archiver_lines(classifications(all, at as int), target)
                == archiver_lines(classifications(all, from as int), target),
            relocations.deep_view() + relocation_sources(classifications(all, at as int))
                == relocation_sources(classifications(all, from as int)),
        decreases tokens.len() - at,
    {
        let ghost here = classify(all[at as int]);
        let ghost rest = classifications(all, next_place(all, at as int));
        let ghost linker_before = linker.deep_view();
        let ghost archiver_before = archiver.deep_view();
        let ghost relocations_before = relocations.deep_view();
        proof {
            lemma_pass_step(all, at as int, target);
        }
        let mut width: usize = 1;
        match classify_token(tokens[at].as_str()) {
            Classification::Discard => {},
            Classification::DiscardWithValue => {
                width = 2;
            },
            Classification::LinkerFile(line) => {
                linker.push(line);
            },
            Classification::ArchiverFile(line) => {
                archiver.push(line);
            },
            Classification::Both(source) => {
                linker.push(definition.clone());
                archiver.push(definition.clone());
                relocations.push(source);
            },
        }
        proof {
            assert(linker.deep_view() =~= linker_before + here.linker_part(target));
            assert(archiver.deep_view() =~= archiver_before + here.archiver_part(target));
            assert(relocations.deep_view() =~= relocations_before + here.relocation_part());
            assert(linker.deep_view() + linker_lines(rest, target) =~= linker_before + (
            here.linker_part(target) + linker_lines(rest, target)));
            assert(archiver.deep_view() + archiver_lines(rest, target) =~= archiver_before + (
            here.archiver_part(target) + archiver_lines(rest, target)));
            assert(relocations.deep_view() + relocation_sources(rest) =~= relocations_before + (
            here.relocation_part() + relocation_sources(rest)));
        }
        if tokens.len() - at > width {
            at += width;
        } else {
            at = tokens.len();
        }
    }
    ArgumentFiles { linker, archiver, relocations, definition_path: definition_path.to_owned() }
}

/// Classifies one token.
pub fn classify_token(token: &str) -> (class: Classification<String>)
    ensures
        class@ == classify(token@),
{
    let chars = chars_of(token);
    let text = chars.as_slice();
    if ends_with(text, ".exe") {
        Classification::Discard
    } else if text.len() > 0 && (text[0] == '/' || text[0] == '-') {
        let colon = find_char(text, ':');
        let name = &text[1..colon];
        let value = option_value_of(text, colon);
        match recognize(name) {
            Some(KnownOption::Flavor) => Classification::DiscardWithValue,
            Some(KnownOption::LibraryPath) | Some(KnownOption::ImportLibrary) => {
                Classification::LinkerFile(format_option(name, value))
            },
            Some(KnownOption::Definition) => Classification::Both(string_of(value)),
            None => Classification::Discard,
        }
    } else if ends_with(text, ".o") || ends_with(text, ".rlib") {
        Classification::ArchiverFile(quote(text))
    } else {
        Classification::LinkerFile(quote(text))
    }
}

/// Looks the name of an option up among the known ones.
pub fn recognize(name: &[char]) -> (option: Option<KnownOption>)
    ensures
        option == known_option(name@),
{
    if equals(name, "flavor") {
        Some(KnownOption::Flavor)
    } else if equals(name, "LIBPATH") {
        Some(KnownOption::LibraryPath)
    } else if equals(name, "IMPLIB") {
        Some(KnownOption::ImportLibrary)
    } else if equals(name, "DEF") {
        Some(KnownOption::Definition)
    } else {
        None
    }
}

/// The part of a flag behind the colon at place `colon`.
fn option_value_of(token: &[char], colon: usize) -> (value: &[char])
    requires
        colon == prefix_without(token@, ':'),
        colon <= token.len(),
    ensures
        value@ == option_value(token@),
{
    if colon < token.len() {
        let value = &token[colon + 1..token.len()];
        proof {
            assert(value@ =~= option_value(token@));
        }
        value
    } else {
        let value = &token[colon..token.len()];
        proof {
            assert(value@ =~= option_value(token@));
        }
        value
    }
}

} // verus!
