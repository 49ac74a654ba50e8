//! The trusted boundary: declarations of the collaborator crates' types and
//! thin wrappers around the calls the library makes into them. Verus believes
//! the contracts stated here; each doc comment names the outside function
//! relied on.
use vstd::prelude::*;

verus! {

#[verifier::external_type_specification]
#[verifier::external_body]
pub struct ExClapCommand(clap::Command);

#[verifier::external_type_specification]
#[verifier::external_body]
pub struct ExArgMatches(clap::ArgMatches);

#[verifier::external_type_specification]
#[verifier::external_body]
pub struct ExArg(clap::Arg);

#[verifier::external_type_specification]
#[verifier::external_body]
pub struct ExColorChoice(clap::ColorChoice);

#[verifier::external_type_specification]
#[verifier::external_body]
pub struct ExCompleteShell(clap_complete::Shell);

#[verifier::external_type_specification]
#[verifier::external_body]
pub struct ExTokenizeError(shell_words::ParseError);

/// What `shell_words::split` returns on a line: the tokens, or `None` where
/// the line is malformed. The split is a function of the characters alone.
pub uninterp spec fn split_tokens(line: Seq<char>) -> Option<Seq<Seq<char>>>;

/// Whether `part` occurs as a contiguous run inside `text`.
pub open spec fn contains_run(text: Seq<char>, part: Seq<char>) -> bool {
    exists|k: int|
        0 <= k && k + part.len() <= text.len() && #[trigger] text.subrange(
            k,
            k + part.len() as int,
        ) == part
}

/// Relies on shell_words::split: shell-style tokenization of one line,
/// deterministic in the line's characters.
#[verifier::external_body]
pub(crate) fn split_line(line: &str) -> (r: Result<Vec<String>, shell_words::ParseError>)
    ensures
        match r {
            Ok(v) => {
                &&& split_tokens(line@) is Some
                &&& v@.map_values(|s: String| s@) == split_tokens(line@).unwrap()
            },
            Err(_) => split_tokens(line@) is None,
        },
{
    shell_words::split(line)
}

/// Relies on clap::Command::new: builds an argument specification under the
/// given name.
#[verifier::external_body]
pub(crate) fn command_new(name: &str) -> (r: clap::Command) {
    clap::Command::new(name.to_owned())
}

/// Relies on clap::Command::name: renames the argument specification.
#[verifier::external_body]
pub(crate) fn command_set_name(c: clap::Command, name: &str) -> (r: clap::Command) {
    c.name(name.to_owned())
}

/// Relies on clap::Command::alias: records one hidden alias.
#[verifier::external_body]
pub(crate) fn command_alias(c: clap::Command, name: &str) -> (r: clap::Command) {
    c.alias(name.to_owned())
}

/// Relies on clap::Command::about: sets the description shown in help.
#[verifier::external_body]
pub(crate) fn command_about(c: clap::Command, about: &str) -> (r: clap::Command) {
    c.about(about.to_owned())
}

/// Relies on clap::Command::version: sets the version shown by `--version`.
#[verifier::external_body]
pub(crate) fn command_version(c: clap::Command, ver: &str) -> (r: clap::Command) {
    c.version(ver.to_owned())
}

/// Relies on clap::Command::author: sets the author metadata.
#[verifier::external_body]
pub(crate) fn command_author(c: clap::Command, author: &str) -> (r: clap::Command) {
    c.author(author.to_owned())
}

/// Relies on clap::Command::color: sets the colour preference.
#[verifier::external_body]
pub(crate) fn command_color(c: clap::Command, color: clap::ColorChoice) -> (r: clap::Command) {
    c.color(color)
}

/// Relies on clap::Command::display_order: sets the position in help listings.
#[verifier::external_body]
pub(crate) fn command_display_order(c: clap::Command, ord: usize) -> (r: clap::Command) {
    c.display_order(ord)
}

/// Relies on clap::Command::subcommand_required: a missing subcommand becomes
/// a parse error.
#[verifier::external_body]
pub(crate) fn command_subcommand_required(c: clap::Command, yes: bool) -> (r: clap::Command) {
    c.subcommand_required(yes)
}

/// Relies on clap::Command::arg_required_else_help: bare invocation shows help
/// as a parse error.
#[verifier::external_body]
pub(crate) fn command_arg_required_else_help(c: clap::Command, yes: bool) -> (r: clap::Command) {
    c.arg_required_else_help(yes)
}

/// Relies on clap::Command::arg: attaches one argument declaration.
#[verifier::external_body]
pub(crate) fn command_arg(c: clap::Command, a: clap::Arg) -> (r: clap::Command) {
    c.arg(a)
}

/// Relies on clap::Command::subcommand: attaches a child argument
/// specification.
#[verifier::external_body]
pub(crate) fn command_subcommand(c: clap::Command, sub: clap::Command) -> (r: clap::Command) {
    c.subcommand(sub)
}

/// Relies on clap::Command::clone: the specification is duplicated.
#[verifier::external_body]
pub(crate) fn command_clone(c: &clap::Command) -> (r: clap::Command) {
    c.clone()
}

/// Relies on clap::Command::try_get_matches_from: parses the tokens against
/// the specification, never exiting the process; the first token is read as
/// the binary name. A failure is rendered to its display text.
///
/// Caveat: in debug builds clap asserts the well-formedness of the assembled
/// specification and panics on a contradictory one. The duplicate-name and
/// duplicate-alias class is excluded at the library level: the functions
/// that call this one require the tree's labels to be distinct at every
/// node. What remains — conflicts inside the opaque `clap::Arg`
/// declarations a caller attaches, such as two arguments sharing an id or a
/// flag — is not statable over this signature and is relied on to be
/// consistent.
#[verifier::external_body]
pub(crate) fn command_try_parse(c: &clap::Command, tokens: &Vec<String>) -> (r: Result<
    clap::ArgMatches,
    String,
>) {
    match c.clone().try_get_matches_from(tokens) {
        Ok(m) => Ok(m),
        Err(e) => Err(e.to_string()),
    }
}

/// Relies on clap::ArgMatches::subcommand: unfolds the chain of selected
/// subcommands into the selected names (outermost first), the match data at
/// each level that made a selection, and the innermost match data.
#[verifier::external_body]
pub(crate) fn subcommand_chain(m: clap::ArgMatches) -> (r: (
    Vec<String>,
    Vec<clap::ArgMatches>,
    clap::ArgMatches,
))
    ensures
        r.0@.len() == r.1@.len(),
{
    let mut names: Vec<String> = Vec::new();
    let mut levels: Vec<clap::ArgMatches> = Vec::new();
    let mut cur: clap::ArgMatches = m;
    loop {
        match cur.subcommand().map(|(n, sm)| (n.to_owned(), sm.clone())) {
            Some((n, sm)) => { names.push(n); levels.push(cur); cur = sm; },
            None => return (names, levels, cur),
        }
    }
}

/// Relies on clap::ArgMatches::try_get_one::<String>: the value of a string
/// argument, where one was supplied.
#[verifier::external_body]
pub(crate) fn get_string_arg(m: &clap::ArgMatches, id: &str) -> (r: Option<String>) {
    match m.try_get_one::<String>(id) {
        Ok(Some(v)) => Some(v.clone()),
        _ => None,
    }
}

/// Relies on clap::ArgMatches::default: match data with no selection and no
/// values.
#[verifier::external_body]
pub(crate) fn empty_arg_matches() -> (r: clap::ArgMatches) {
    clap::ArgMatches::default()
}

/// Relies on clap::Arg::new: declares one argument under the given
/// identifier.
#[verifier::external_body]
pub(crate) fn arg_new(id: &str) -> (r: clap::Arg) {
    clap::Arg::new(id.to_owned())
}

/// Relies on clap::Arg::required: whether the argument must be supplied.
#[verifier::external_body]
pub(crate) fn arg_required(a: clap::Arg, yes: bool) -> (r: clap::Arg) {
    a.required(yes)
}

/// Relies on clap::Arg::value_parser with
/// clap::builder::PossibleValuesParser::new: the argument accepts exactly the
/// given values.
#[verifier::external_body]
pub(crate) fn arg_possible_values(a: clap::Arg, values: &Vec<String>) -> (r: clap::Arg) {
    a.value_parser(clap::builder::PossibleValuesParser::new(values.clone()))
}

/// Relies on clap_complete::Shell::from_str: exactly the five supported shell
/// identifiers name a shell; anything else is rejected.
#[verifier::external_body]
pub(crate) fn parse_shell(name: &str) -> (r: Option<clap_complete::Shell>)
    ensures
        r is Some <==> crate::shell::ShellKind::is_supported_name(name@),
{
    name.parse::<clap_complete::Shell>().ok()
}

/// Relies on clap_complete::generate: renders a completion script for the
/// shell from the argument specification. Every shell's generator writes its
/// template unconditionally, so the script is never empty, and each template
/// embeds the given binary name verbatim at least once (bash's trailing
/// `complete ... {name}` line, zsh's `#compdef {name}`, fish's
/// `complete -c {name}` lines, elvish's `var command = '{name}'`, and
/// powershell's `-CommandName '{name}'`). The generators emit text; writing
/// into a byte buffer cannot fail.
///
/// Caveats: `generate` first builds the specification, which in debug builds
/// asserts its well-formedness and panics on a contradictory one. The
/// library hands this function only specifications assembled by `build_spec`
/// from trees whose names and aliases are distinct at every level (the
/// dispatch entry points require that of the tree); what remains — conflicts
/// inside the opaque `clap::Arg` declarations a caller attaches — is not
/// statable over this signature and is relied on to be consistent.
#[verifier::external_body]
pub(crate) fn generate_completions(
    shell: clap_complete::Shell,
    c: &clap::Command,
    bin_name: &str,
) -> (r: String)
    ensures
        r@.len() > 0,
        contains_run(r@, bin_name@),
{
    let mut buf: Vec<u8> = Vec::new();
    clap_complete::generate(shell, &mut c.clone(), bin_name.to_owned(), &mut buf);
    String::from_utf8_lossy(&buf).into_owned()
}

/// Relies on std::io::Write::write_all: sends the text to standard output.
#[verifier::external_body]
pub(crate) fn write_stdout(text: &str) {
    let _ = std::io::Write::write_all(&mut std::io::stdout(), text.as_bytes());
}

} // verus!
