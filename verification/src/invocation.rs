//! The arguments with which the build is started.

use vstd::prelude::*;

verus! {

/// The character that stands for the digit `d`.
pub open spec fn digit(d: nat) -> char
    recommends
        d < 10,
{
    seq!['0', '1', '2', '3', '4', '5', '6', '7', '8', '9'][d as int]
}

/// `n` written in base ten, without leading zeros.
pub open spec fn decimal(n: nat) -> Seq<char>
    decreases n,
{
    if n < 10 {
        seq![digit(n)]
    } else {
        decimal(n / 10).push(digit(n % 10))
    }
}

/// The argument that stamps the link with `version`, so that no two builds
/// hand the linker the same command line.
pub open spec fn version_argument(version: u16) -> Seq<char> {
    "-Clink-arg=/VERSION:"@ + decimal(version as nat)
}

/// The arguments that make the compiler print its link command line and keep
/// its intermediate files.
pub open spec fn print_link_arguments() -> Seq<Seq<char>> {
    seq!["--print"@, "link-args"@, "-Z"@, "unstable-options"@, "-C"@, "save-temps"@]
}

/// The arguments of one build: the subcommand, the caller's own arguments,
/// then what makes the compiler print its link command line, stamped with
/// `version`.
pub open spec fn build_arguments(cargo_args: Seq<Seq<char>>, version: u16) -> Seq<Seq<char>> {
    seq!["rustc"@] + cargo_args + print_link_arguments() + seq![version_argument(version)]
}

/// Draws a number with `rand::random`, from the generator of the thread. Any
/// `u16` may come back, and two calls need not agree, so the contract
/// promises nothing. The generator takes its seed from the operating system
/// when the thread first uses it, and panics if it gets none.
#[verifier::external_body]
pub(crate) fn random_version() -> u16 {
    rand::random::<u16>()
}

/// Appends `n` in base ten to `out`.
fn push_decimal(out: &mut String, n: u16)
    ensures
        final(out)@ == old(out)@ + decimal(n as nat),
    decreases n,
{
    if n >= 10 {
        push_decimal(out, n / 10);
    }
    let digits = ['0', '1', '2', '3', '4', '5', '6', '7', '8', '9'];
    out.push(digits[(n % 10) as usize]);
    assert(out@ =~= old(out)@ + decimal(n as nat));
}

/// The arguments of a build that is stamped with `version`.
pub fn build_arguments_for(cargo_args: &Vec<String>, version: u16) -> (arguments: Vec<String>)
    ensures
        arguments.deep_view() == build_arguments(cargo_args.deep_view(), version),
{
    let mut arguments: Vec<String> = Vec::new();
    arguments.push("rustc".to_owned());
    let mut i: usize = 0;
    while i < cargo_args.len()
        invariant
            i <= cargo_args.len(),
            arguments.deep_view() == seq!["rustc"@] + cargo_args.deep_view().take(i as int),
        decreases cargo_args.len() - i,
    {
        let ghost before = arguments.deep_view();
        arguments.push(cargo_args[i].clone());
        proof {
            assert(arguments.deep_view() =~= before.push(cargo_args[i as int]@));
            assert(cargo_args.deep_view().take(i + 1) =~= cargo_args.deep_view().take(
                i as int,
            ).push(cargo_args[i as int]@));
        }
        i += 1;
    }
    let mut stamp = "-Clink-arg=/VERSION:".to_owned();
    push_decimal(&mut stamp, version);
    let ghost head = arguments.deep_view();
    arguments.push("--print".to_owned());
    arguments.push("link-args".to_owned());
    arguments.push("-Z".to_owned());
    arguments.push("unstable-options".to_owned());
    arguments.push("-C".to_owned());
    arguments.push("save-temps".to_owned());
    arguments.push(stamp);
    proof {
        assert(cargo_args.deep_view().take(i as int) =~= cargo_args.deep_view());
        assert(arguments.deep_view() =~= head + print_link_arguments() + seq![
            version_argument(version),
        ]);
    }
    arguments
}

/// The arguments of a build that is stamped with a number drawn anew.
pub fn build_arguments_anew(cargo_args: &Vec<String>) -> (arguments: Vec<String>)
    ensures
        exists|version: u16|
            arguments.deep_view() == #[trigger] build_arguments(cargo_args.deep_view(), version),
{
    build_arguments_for(cargo_args, random_version())
}

} // verus!
