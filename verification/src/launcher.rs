//! The decisions of the launcher: which command opens a file, what to ask
//! the user where none does, and what to run.

use vstd::prelude::*;
use vstd::string::StringExecFns;
use crate::config::Config;
use crate::error::AppError;
use crate::model::ConfigView;

verus! {

/// The words of a line, as `str::split_whitespace` gives them: the parts of
/// the line between its runs of Unicode whitespace, in order.
pub uninterp spec fn whitespace_words(line: Seq<char>) -> Seq<Seq<char>>;

/// The extension of the file that a path names, as `Path::extension`
/// gives it: the part of the file name after its last dot; none where the
/// path has no file name, where the file name has no dot, and where its
/// only dot is its first character.
pub uninterp spec fn path_extension(path: Seq<char>) -> Option<Seq<char>>;

/// `str::split_whitespace`, with each word as a string of its own. The
/// contract names the result and claims nothing else of it.
#[verifier::external_body]
fn split_whitespace(line: &str) -> (words: Vec<String>)
    ensures
        words.deep_view() == whitespace_words(line@),
{
    let mut words = Vec::new();
    for word in line.split_whitespace() {
        words.push(word.to_owned());
    }
    words
}

/// `Path::extension` of the path that `path` spells, as a string. The
/// contract names the result and claims nothing else of it.
#[verifier::external_body]
fn extension_of(path: &str) -> (extension: Option<String>)
    ensures
        extension.deep_view() == path_extension(path@),
{
    let extension = std::path::Path::new(path).extension()?;
    Some(extension.to_str()?.to_owned())
}

/// A program to start and the arguments to give it.
#[derive(PartialEq, Eq, Debug)]
pub struct Invocation {
    pub program: String,
    pub args: Vec<String>,
}

/// What a program and its arguments are, mathematically.
#[verifier::ext_equal]
pub struct InvocationView {
    pub program: Seq<char>,
    pub args: Seq<Seq<char>>,
}

impl View for Invocation {
    type V = InvocationView;

    open spec fn view(&self) -> InvocationView {
        InvocationView { program: self.program@, args: self.args.deep_view() }
    }
}

/// What the launcher does next for a file.
#[derive(PartialEq, Eq, Debug)]
pub enum Step {
    /// A command is registered for the file: run it.
    Run(Invocation),
    /// No command is registered for the extension given here: ask the user
    /// for one.
    Ask(String),
}

/// The words of the failure to find an extension in `file_name`.
pub open spec fn has_no_extension(file_name: Seq<char>) -> Seq<char> {
    file_name + " has not extension"@
}

/// The words of the failure to find a program in a command line.
pub open spec fn no_command() -> Seq<char> {
    "no command to run"@
}

/// The words joined by single spaces. A word is set off from what comes
/// before it only where something comes before it.
pub open spec fn joined(words: Seq<Seq<char>>) -> Seq<char>
    decreases words.len(),
{
    if words.len() == 0 {
        Seq::empty()
    } else {
        let before = joined(words.drop_last());
        if before.len() > 0 {
            before + seq![' '] + words.last()
        } else {
            words.last()
        }
    }
}

/// What to run for a command line of these words on a file: the first
/// word is the program, the others are its arguments, and the file comes
/// last. Nothing can be run for no words.
pub open spec fn invocation_of(words: Seq<Seq<char>>, file_name: Seq<char>) -> Option<
    InvocationView,
> {
    if words.len() == 0 {
        None
    } else {
        Some(InvocationView { program: words[0], args: words.drop_first().push(file_name) })
    }
}

/// `r` is what `invocation_of` gives for the words and the file: the
/// program and its arguments, or the failure to find a program.
pub open spec fn is_invocation_of(
    r: Result<Invocation, AppError>,
    words: Seq<Seq<char>>,
    file_name: Seq<char>,
) -> bool {
    match invocation_of(words, file_name) {
        Some(run) => r matches Ok(i) && i@ == run,
        None => r matches Err(AppError::Launch(said)) && said@ == no_command(),
    }
}

/// `r` is the next step for a file with this name and this extension, in
/// a registry `conf`: the failure to find an extension where there is
/// none; to ask for a command where none is registered for the extension;
/// else to run the registered command on the file, if it has a program.
pub open spec fn is_step_of(
    r: Result<Step, AppError>,
    conf: ConfigView,
    extension: Option<Seq<char>>,
    file_name: Seq<char>,
) -> bool {
    match extension {
        None => r matches Err(AppError::NotFound(said)) && said@ == has_no_extension(file_name),
        Some(e) => match conf.lookup(e) {
            None => r matches Ok(Step::Ask(asked)) && asked@ == e,
            Some(command) => match invocation_of(whitespace_words(command), file_name) {
                Some(run) => r matches Ok(Step::Run(i)) && i@ == run,
                None => r matches Err(AppError::Launch(said)) && said@ == no_command(),
            },
        },
    }
}

/// Joins the words by single spaces.
pub fn join_words(words: &Vec<String>) -> (line: String)
    ensures
        line@ == joined(words.deep_view()),
{
    let mut line = String::new();
    let mut i: usize = 0;
    while i < words.len()
        invariant
            i <= words@.len(),
            line@ == joined(words.deep_view().take(i as int)),
        decreases words@.len() - i,
    {
        proof {
            reveal_strlit(" ");
            let upto = words.deep_view().take(i as int + 1);
            assert(upto.drop_last() =~= words.deep_view().take(i as int));
            assert(upto.last() == words@[i as int]@);
            assert(" "@ =~= seq![' ']);
        }
        if !line.as_str().is_empty() {
            line.append(" ");
        }
        line.append(words[i].as_str());
        i += 1;
    }
    proof {
        assert(words.deep_view().take(words@.len() as int) =~= words.deep_view());
    }
    line
}

/// The line with each run of whitespace replaced by one space, and none
/// at its ends.
pub fn normalize(line: &str) -> (normal: String)
    ensures
        normal@ == joined(whitespace_words(line@)),
{
    let words = split_whitespace(line);
    join_words(&words)
}

/// What to run for a command line of these words on the file: the first
/// word as the program, the rest and then the file as its arguments. Fails
/// where there is no word.
pub fn invocation(words: Vec<String>, file_name: &str) -> (r: Result<Invocation, AppError>)
    ensures
        is_invocation_of(r, words.deep_view(), file_name@),
{
    let mut words = words;
    if words.len() == 0 {
        return Err(AppError::Launch("no command to run".to_owned()));
    }
    let ghost all = words.deep_view();
    let program = words.remove(0);
    words.push(file_name.to_owned());
    assert(words.deep_view() =~= all.drop_first().push(file_name@));
    Ok(Invocation { program, args: words })
}

/// What to run for the command line on the file. Fails where the command
/// line has no word.
pub fn command_line(command: &str, file_name: &str) -> (r: Result<Invocation, AppError>)
    ensures
        is_invocation_of(r, whitespace_words(command@), file_name@),
{
    invocation(split_whitespace(command), file_name)
}

/// The next step for a file whose extension is already known: fails where
/// it has none; runs the command registered for the extension; asks for
/// one where none is registered.
pub fn plan_for(conf: &Config, extension: Option<String>, file_name: &str) -> (r: Result<
    Step,
    AppError,
>)
    ensures
        is_step_of(r, conf@, extension.deep_view(), file_name@),
{
    match extension {
        None => {
            let mut words = file_name.to_owned();
            words.append(" has not extension");
            Err(AppError::NotFound(words))
        },
        Some(e) => match conf.get_command(e.as_str()) {
            None => Ok(Step::Ask(e)),
            Some(command) => match command_line(command.as_str(), file_name) {
                Ok(run) => Ok(Step::Run(run)),
                Err(failure) => Err(failure),
            },
        },
    }
}

/// The next step for a file: `plan_for` with the extension that the file's
/// name has.
pub fn plan(conf: &Config, file_name: &str) -> (r: Result<Step, AppError>)
    ensures
        is_step_of(r, conf@, path_extension(file_name@), file_name@),
{
    plan_for(conf, extension_of(file_name), file_name)
}

/// Takes the user's answer to `Step::Ask`: registers the line, with its
/// whitespace normalized, as the command of the extension, and says what
/// to run for the file. The registration stands also where the line has
/// no word and nothing can be run.
pub fn answer(conf: &mut Config, extension: &str, line: &str, file_name: &str) -> (r: Result<
    Invocation,
    AppError,
>)
    ensures
        final(conf)@ == old(conf)@.with_association(
            joined(whitespace_words(line@)),
            extension@,
        ),
        old(conf)@.well_formed() ==> final(conf)@.well_formed(),
        is_invocation_of(r, whitespace_words(joined(whitespace_words(line@))), file_name@),
{
    let command = normalize(line);
    let _ = conf.add(command.as_str(), extension);
    command_line(command.as_str(), file_name)
}

} // verus!
