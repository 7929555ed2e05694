//! The arguments of the program: one file to open, an optional path of the
//! registry, and a help flag. The arguments are parsed by `getopts`; what
//! the program is asked to do is decided here.

use vstd::prelude::*;
use vstd::slice::slice_subrange;
use vstd::string::StringExecFns;
use vstd::utf8::is_ascii_chars;
use crate::error::AppError;

verus! {

/// The path of the registry where the arguments name none.
pub const DEFAULT_CONF_PATH: &'static str = "~/.config/openby/config";

#[verifier::external_type_specification]
#[verifier::external_body]
pub struct ExOptions(getopts::Options);

#[verifier::external_type_specification]
#[verifier::external_body]
pub struct ExMatches(getopts::Matches);

#[verifier::external_type_specification]
#[verifier::external_body]
pub struct ExFail(getopts::Fail);

/// An option as it was declared to a parser.
pub struct DeclaredOption {
    /// The name after one dash: one character, or empty for none.
    pub short_name: Seq<char>,
    /// The name after two dashes: empty for none.
    pub long_name: Seq<char>,
    /// The description in the usage text.
    pub desc: Seq<char>,
    /// What stands for the value in the usage text.
    pub hint: Seq<char>,
    /// The option is followed by a value.
    pub takes_value: bool,
}

/// What a successful parse found.
pub struct ParsedArguments {
    /// The arguments that are neither options nor values of options.
    pub free: Seq<Seq<char>>,
    /// For each name of a declared option, short or long, the occurrences
    /// of the option among the arguments, in order: the value given at the
    /// occurrence, or none for an option without value.
    pub found: Map<Seq<char>, Seq<Option<Seq<char>>>>,
}

/// The options that a parser holds, in the order of their declaration.
pub uninterp spec fn declared(options: getopts::Options) -> Seq<DeclaredOption>;

/// The parser is in the mode that `Options::new` sets, where options and
/// free arguments may mix and a long name takes two dashes, and each of
/// its options may be left out, may not be repeated, and either takes a
/// value or takes none.
pub uninterp spec fn in_standard_mode(options: getopts::Options) -> bool;

/// The free arguments that a parse result holds.
pub uninterp spec fn free_arguments(matches: getopts::Matches) -> Seq<Seq<char>>;

/// The occurrences that a parse result holds, by option name, as in
/// `ParsedArguments::found`.
pub uninterp spec fn occurrences(matches: getopts::Matches) -> Map<
    Seq<char>,
    Seq<Option<Seq<char>>>,
>;

/// What `Options::parse` finds in `args` with a parser in standard mode
/// that holds the options `options`; nothing where it rejects `args`.
pub uninterp spec fn parsed(options: Seq<DeclaredOption>, args: Seq<Seq<char>>) -> Option<
    ParsedArguments,
>;

/// The text of `Options::usage` for a parser in standard mode that holds
/// the options `options`, under the heading `brief`.
pub uninterp spec fn usage_text(options: Seq<DeclaredOption>, brief: Seq<char>) -> Seq<char>;

/// The names are ones that `getopts` takes for an option: a short name of
/// at most one character, which is ASCII, and a long name of any length
/// but one.
pub open spec fn names_accepted(short_name: Seq<char>, long_name: Seq<char>) -> bool {
    &&& short_name.len() <= 1
    &&& is_ascii_chars(short_name)
    &&& long_name.len() != 1
}

/// Each option has accepted names, and at least one of them.
pub open spec fn all_named(options: Seq<DeclaredOption>) -> bool {
    forall|i: int|
        0 <= i < options.len() ==> names_accepted(
            (#[trigger] options[i]).short_name,
            options[i].long_name,
        ) && options[i].short_name.len() + options[i].long_name.len() > 0
}

/// Every name of every option, short or long, has its occurrences in
/// `found`, be they none.
pub open spec fn names_known(
    options: Seq<DeclaredOption>,
    found: Map<Seq<char>, Seq<Option<Seq<char>>>>,
) -> bool {
    forall|i: int|
        0 <= i < options.len() ==> {
            &&& (#[trigger] options[i]).short_name.len() > 0 ==> found.dom().contains(
                options[i].short_name,
            )
            &&& options[i].long_name.len() > 0 ==> found.dom().contains(options[i].long_name)
        }
}

/// The value of the first occurrence, if there is an occurrence and it
/// has a value.
pub open spec fn first_value(found: Seq<Option<Seq<char>>>) -> Option<Seq<char>> {
    if found.len() > 0 {
        found[0]
    } else {
        None
    }
}

/// The arguments as sequences of characters.
pub open spec fn arguments(args: Seq<&str>) -> Seq<Seq<char>> {
    Seq::new(args.len(), |i: int| args[i]@)
}

/// `Options::new`: a parser in standard mode that holds no option.
#[verifier::external_body]
fn new_options() -> (options: getopts::Options)
    ensures
        declared(options) == Seq::<DeclaredOption>::empty(),
        in_standard_mode(options),
{
    getopts::Options::new()
}

/// `Options::parsing_style`: lets free arguments and options mix, or ends
/// the options at the first free argument. The options stay; a parser in
/// standard mode stays in it where they may mix.
#[verifier::external_body]
fn set_parsing_style(options: &mut getopts::Options, floating_frees: bool)
    ensures
        declared(*final(options)) == declared(*old(options)),
        floating_frees && in_standard_mode(*old(options)) ==> in_standard_mode(*final(options)),
{
    options.parsing_style(
        if floating_frees {
            getopts::ParsingStyle::FloatingFrees
        } else {
            getopts::ParsingStyle::StopAtFirstFree
        },
    );
}

/// `Options::optopt`: declares, after the options that the parser holds,
/// one that takes a value and may be left out. The mode stays. It panics
/// on a short name of more than one byte and on a long name of one byte.
#[verifier::external_body]
fn optopt(options: &mut getopts::Options, short_name: &str, long_name: &str, desc: &str, hint: &str)
    requires
        names_accepted(short_name@, long_name@),
    ensures
        declared(*final(options)) == declared(*old(options)).push(
            DeclaredOption {
                short_name: short_name@,
                long_name: long_name@,
                desc: desc@,
                hint: hint@,
                takes_value: true,
            },
        ),
        in_standard_mode(*final(options)) == in_standard_mode(*old(options)),
{
    options.optopt(short_name, long_name, desc, hint);
}

/// `Options::optflag`: declares, after the options that the parser holds,
/// one that takes no value and may be left out. The mode stays. It panics
/// on a short name of more than one byte and on a long name of one byte.
#[verifier::external_body]
fn optflag(options: &mut getopts::Options, short_name: &str, long_name: &str, desc: &str)
    requires
        names_accepted(short_name@, long_name@),
    ensures
        declared(*final(options)) == declared(*old(options)).push(
            DeclaredOption {
                short_name: short_name@,
                long_name: long_name@,
                desc: desc@,
                hint: Seq::empty(),
                takes_value: false,
            },
        ),
        in_standard_mode(*final(options)) == in_standard_mode(*old(options)),
{
    options.optflag(short_name, long_name, desc);
}

/// `Options::parse`. It panics on an option without any name. What it
/// finds depends on the parser and the arguments alone: the contract names
/// it, and adds that a successful parse knows every name of every option.
#[verifier::external_body]
fn parse(options: &getopts::Options, args: &[&str]) -> (r: Result<getopts::Matches, getopts::Fail>)
    requires
        in_standard_mode(*options),
        all_named(declared(*options)),
    ensures
        match r {
            Ok(matches) => {
                &&& parsed(declared(*options), arguments(args@)) == Some(
                    ParsedArguments { free: free_arguments(matches), found: occurrences(matches) },
                )
                &&& names_known(declared(*options), occurrences(matches))
            },
            Err(_) => parsed(declared(*options), arguments(args@)) is None,
        },
{
    options.parse(args)
}

/// `Matches::opt_present`: whether the option occurred. It panics on a
/// name that no option has.
#[verifier::external_body]
fn opt_present(matches: &getopts::Matches, name: &str) -> (present: bool)
    requires
        occurrences(*matches).dom().contains(name@),
    ensures
        present == (occurrences(*matches)[name@].len() > 0),
{
    matches.opt_present(name)
}

/// `Matches::opt_str`: the value at the first occurrence of the option.
/// It panics on a name that no option has.
#[verifier::external_body]
fn opt_str(matches: &getopts::Matches, name: &str) -> (value: Option<String>)
    requires
        occurrences(*matches).dom().contains(name@),
    ensures
        value.deep_view() == first_value(occurrences(*matches)[name@]),
{
    matches.opt_str(name)
}

/// The field `free` of `Matches`, copied.
#[verifier::external_body]
fn free_of(matches: &getopts::Matches) -> (free: Vec<String>)
    ensures
        free.deep_view() == free_arguments(*matches),
{
    matches.free.clone()
}

/// `Options::usage`. It panics on a short name wider than one column,
/// which no single ASCII character is.
#[verifier::external_body]
fn usage_of(options: &getopts::Options, brief: &str) -> (text: String)
    requires
        in_standard_mode(*options),
        all_named(declared(*options)),
    ensures
        text@ == usage_text(declared(*options), brief@),
{
    options.usage(brief)
}

/// The words of a failed parse, as the `Display` of `Fail` writes them.
#[verifier::external_body]
fn words_of(fail: &getopts::Fail) -> String {
    fail.to_string()
}

/// What the program is asked to do.
#[derive(PartialEq, Eq, Debug)]
pub enum Request {
    /// Show the usage text and do nothing else.
    Help,
    /// Open the file with the registry at the path.
    Open { file_name: String, conf_name: String },
}

/// What the program is asked to do, mathematically.
pub enum RequestView {
    Help,
    Open { file_name: Seq<char>, conf_name: Seq<char> },
}

impl View for Request {
    type V = RequestView;

    open spec fn view(&self) -> RequestView {
        match self {
            Request::Help => RequestView::Help,
            Request::Open { file_name, conf_name } => RequestView::Open {
                file_name: file_name@,
                conf_name: conf_name@,
            },
        }
    }
}

/// The options of the program: `-c`, `--config` with the path of the
/// registry, and `-h`, `--help`.
pub open spec fn program_options() -> Seq<DeclaredOption> {
    seq![
        DeclaredOption {
            short_name: "c"@,
            long_name: "config"@,
            desc: "specify configure file name"@,
            hint: "CONFIG"@,
            takes_value: true,
        },
        DeclaredOption {
            short_name: "h"@,
            long_name: "help"@,
            desc: "print this help menu"@,
            hint: Seq::empty(),
            takes_value: false,
        },
    ]
}

/// The heading of the usage text of `program`.
pub open spec fn brief_of(program: Seq<char>) -> Seq<char> {
    "Usage: "@ + program + " [options] FILE"@
}

/// What is asked by arguments in which the help flag was or was not found,
/// with these free arguments and this value of the registry option: help
/// where the flag was found, whatever else was; else to open the first
/// free argument, with the registry at the value or at the default path.
/// Nothing where there is neither the flag nor a free argument.
pub open spec fn request_of(help: bool, free: Seq<Seq<char>>, config: Option<Seq<char>>) -> Option<
    RequestView,
> {
    if help {
        Some(RequestView::Help)
    } else if free.len() == 0 {
        None
    } else {
        Some(
            RequestView::Open {
                file_name: free[0],
                conf_name: match config {
                    Some(path) => path,
                    None => DEFAULT_CONF_PATH@,
                },
            },
        )
    }
}

/// The words of the failure to find a file among the arguments.
pub open spec fn file_not_found() -> Seq<char> {
    "FILE is not found"@
}

/// The arguments that follow the name of the program.
pub open spec fn after_name(args: Seq<Seq<char>>) -> Seq<Seq<char>> {
    if args.len() == 0 {
        args
    } else {
        args.skip(1)
    }
}

/// `r` is what `request_of` gives: the request, or the failure to find a
/// file.
pub open spec fn is_request_of(
    r: Result<Request, AppError>,
    help: bool,
    free: Seq<Seq<char>>,
    config: Option<Seq<char>>,
) -> bool {
    match request_of(help, free, config) {
        Some(request) => r matches Ok(q) && q@ == request,
        None => r matches Err(AppError::NotFound(said)) && said@ == file_not_found(),
    }
}

/// A parser that holds the options of the program.
fn program_parser() -> (options: getopts::Options)
    ensures
        declared(options) == program_options(),
        in_standard_mode(options),
        all_named(declared(options)),
{
    proof {
        reveal_strlit("c");
        reveal_strlit("config");
        reveal_strlit("h");
        reveal_strlit("help");
    }
    let mut options = new_options();
    set_parsing_style(&mut options, true);
    optopt(&mut options, "c", "config", "specify configure file name", "CONFIG");
    optflag(&mut options, "h", "help", "print this help menu");
    assert(declared(options) =~= program_options());
    options
}

/// Decides what is asked, from what the parser found: see `request_of`.
/// Fails where there is neither the help flag nor a file.
pub fn request_for(help: bool, free: &Vec<String>, config: Option<String>) -> (r: Result<
    Request,
    AppError,
>)
    ensures
        is_request_of(r, help, free.deep_view(), config.deep_view()),
{
    if help {
        return Ok(Request::Help);
    }
    if free.len() == 0 {
        return Err(AppError::NotFound("FILE is not found".to_owned()));
    }
    let file_name = free[0].clone();
    let conf_name = match config {
        Some(path) => path,
        None => DEFAULT_CONF_PATH.to_owned(),
    };
    Ok(Request::Open { file_name, conf_name })
}

/// Reads the arguments of the program, its name first. Fails where the
/// parser rejects them, and where they name no file and do not ask for
/// help.
pub fn parse_options(args: &[&str]) -> (r: Result<Request, AppError>)
    ensures
        match parsed(program_options(), after_name(arguments(args@))) {
            None => r matches Err(AppError::Usage(_)),
            Some(p) => is_request_of(
                r,
                p.found["h"@].len() > 0,
                p.free,
                first_value(p.found["c"@]),
            ),
        },
{
    let options = program_parser();
    let rest = if args.len() == 0 {
        args
    } else {
        slice_subrange(args, 1, args.len())
    };
    proof {
        reveal_strlit("c");
        reveal_strlit("h");
        assert(arguments(rest@) =~= after_name(arguments(args@)));
        assert(program_options()[0].short_name == "c"@);
        assert(program_options()[1].short_name == "h"@);
    }
    match parse(&options, rest) {
        Err(fail) => Err(AppError::Usage(words_of(&fail))),
        Ok(matches) => {
            let help = opt_present(&matches, "h");
            let free = free_of(&matches);
            let config = opt_str(&matches, "c");
            request_for(help, &free, config)
        },
    }
}

/// The usage text of the program under the name `program`.
pub fn usage(program: &str) -> (text: String)
    ensures
        text@ == usage_text(program_options(), brief_of(program@)),
{
    let options = program_parser();
    let mut brief = "Usage: ".to_owned();
    brief.append(program);
    brief.append(" [options] FILE");
    usage_of(&options, brief.as_str())
}

} // verus!
