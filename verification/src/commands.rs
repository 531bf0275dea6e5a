//! The known commands, their handlers, and the dispatch of one input line.
use crate::definition::{ArgumentArity, DefinitionView};
use crate::error::{ArgumentError, ErrorView};
use crate::parsed::{list_of, ParsedArguments, ParsedView};
use crate::parser::{
    clean_tokens, is_clean, lemma_clean_tokens_unchanged, lemma_lone_remainder_binding, parse_of,
    ArgumentParser, ParserView,
};
use crate::text::{
    is_word, join, join_strings, lemma_trimmed_unchanged, lemma_words_clean, lowercase,
    lowercase_of, split_words, str_eq, str_views, trim, trimmed, views, words,
};
use vstd::prelude::*;
use vstd::string::*;

verus! {

/// The commands the server knows by name.
#[derive(Clone, Copy, Debug, PartialEq, Eq, Structural)]
pub enum CommandType {
    /// The `PING` command.
    Ping,
    /// The `GET` command.
    Get,
    /// The `SET` command.
    Store,
}

/// Why a line was not answered with a result.
#[derive(Debug)]
pub enum CommandError {
    /// The line names no known command; holds the name as typed, trimmed.
    Unknown(String),
    /// The command is known and has no handler yet.
    NotImplemented(CommandType),
    /// The arguments do not fit the command.
    Argument(ArgumentError),
}

/// A dispatch failure as plain values.
pub enum CommandErrorView {
    Unknown(Seq<char>),
    NotImplemented(CommandType),
    Argument(ErrorView),
}

impl View for CommandError {
    type V = CommandErrorView;

    open spec fn view(&self) -> CommandErrorView {
        match self {
            CommandError::Unknown(name) => CommandErrorView::Unknown(name@),
            CommandError::NotImplemented(kind) => CommandErrorView::NotImplemented(*kind),
            CommandError::Argument(error) => CommandErrorView::Argument(error@),
        }
    }
}

/// The text of a dispatch failure.
pub open spec fn error_text(e: CommandErrorView) -> Seq<char> {
    match e {
        CommandErrorView::Unknown(name) => "Unknown command: "@ + name,
        CommandErrorView::NotImplemented(kind) => match kind {
            CommandType::Ping => "Ping handler not implemented"@,
            CommandType::Get => "Get handler not implemented"@,
            CommandType::Store => "Set handler not implemented"@,
        },
        CommandErrorView::Argument(error) => error.message + "\n"@ + error.usage,
    }
}

impl CommandError {
    /// The text of this failure: the unknown name, the missing handler, or
    /// the argument error with its usage text.
    pub fn message(&self) -> (r: String)
        ensures
            r@ == error_text(self@),
    {
        match self {
            CommandError::Unknown(name) => {
                let mut out = String::from_str("Unknown command: ");
                out.append(name.as_str());
                out
            },
            CommandError::NotImplemented(kind) => match kind {
                CommandType::Ping => String::from_str("Ping handler not implemented"),
                CommandType::Get => String::from_str("Get handler not implemented"),
                CommandType::Store => String::from_str("Set handler not implemented"),
            },
            CommandError::Argument(error) => error.pretty(),
        }
    }
}

/// The views of the two sides of a handler's result.
pub open spec fn handler_result_view(r: Result<String, ArgumentError>) -> Result<
    Seq<char>,
    ErrorView,
> {
    match r {
        Ok(text) => Ok(text@),
        Err(error) => Err(error@),
    }
}

/// The views of the two sides of a dispatch result.
pub open spec fn dispatch_result_view(r: Result<String, CommandError>) -> Result<
    Seq<char>,
    CommandErrorView,
> {
    match r {
        Ok(text) => Ok(text@),
        Err(error) => Err(error@),
    }
}

/// What a handler with parser `p` and execution `run` answers to `args`:
/// the parse failure, or what the execution makes of the bound arguments.
pub open spec fn handle_of(
    p: ParserView,
    run: spec_fn(ParsedView) -> Result<Seq<char>, ErrorView>,
    args: Seq<Seq<char>>,
) -> Result<Seq<char>, ErrorView> {
    match parse_of(p, args) {
        Ok(parsed) => run(parsed),
        Err(error) => Err(error),
    }
}

/// A command: a name, the parameters it takes, and what it does with them.
pub trait CommandHandler {
    /// The name of the command.
    spec fn name_of(&self) -> Seq<char>;

    /// The parser of the command.
    spec fn parser_of(&self) -> ParserView;

    /// What the command answers to bound arguments.
    spec fn outcome_of(&self, args: ParsedView) -> Result<Seq<char>, ErrorView>;

    /// The name of the command.
    fn name(&self) -> (r: &'static str)
        ensures
            r@ == self.name_of(),
    ;

    /// The parser of the command. Every command states its own, so that
    /// `handle` can say exactly what it answers; a command without
    /// parameters returns `ArgumentParser::new(self.name(), Vec::new())`.
    fn parser(&self) -> (r: ArgumentParser)
        ensures
            r@ == self.parser_of(),
    ;

    /// Runs the command on bound arguments.
    fn execute(&self, args: &ParsedArguments) -> (r: Result<String, ArgumentError>)
        ensures
            handler_result_view(r) == self.outcome_of(args@),
    ;

    /// Parses `args` and, where that succeeds, executes the command.
    fn handle(&self, args: &[&str]) -> (r: Result<String, ArgumentError>)
        ensures
            handler_result_view(r) == handle_of(
                self.parser_of(),
                |parsed: ParsedView| self.outcome_of(parsed),
                str_views(args@),
            ),
    {
        let parser = self.parser();
        match parser.parse(args) {
            Ok(parsed) => self.execute(&parsed),
            Err(error) => Err(error),
        }
    }
}

/// Answers with its arguments, or with `PONG` where there are none.
pub struct PingHandler;

/// The one parameter of `PING`.
pub open spec fn ping_message() -> DefinitionView {
    DefinitionView {
        name: "message"@,
        description: "Custom response to send back to the client"@,
        required: false,
        arity: ArgumentArity::Remainder,
        default: Some(seq!["PONG"@]),
    }
}

/// The parser of `PING`.
pub open spec fn ping_parser() -> ParserView {
    ParserView { command_name: "PING"@, specs: seq![ping_message()] }
}

impl CommandHandler for PingHandler {
    open spec fn name_of(&self) -> Seq<char> {
        "PING"@
    }

    open spec fn parser_of(&self) -> ParserView {
        ping_parser()
    }

    open spec fn outcome_of(&self, args: ParsedView) -> Result<Seq<char>, ErrorView> {
        Ok(join(list_of(args, "message"@), " "@))
    }

    fn name(&self) -> (r: &'static str) {
        let name: &'static str = "PING";
        assert(self.name_of() == name@);
        name
    }

    fn parser(&self) -> (r: ArgumentParser) {
        let default: [&str; 1] = ["PONG"];
        let parser = ArgumentParser::builder(self.name()).optional_remainder_with_default(
            "message",
            "Custom response to send back to the client",
            default.as_slice(),
        ).build();
        assert(str_views(default@) =~= seq!["PONG"@]);
        assert(parser@.specs =~= seq![ping_message()]);
        assert(parser@.command_name == "PING"@);
        parser
    }

    fn execute(&self, args: &ParsedArguments) -> (r: Result<String, ArgumentError>) {
        Ok(join_strings(args.list("message"), " "))
    }
}

/// The command a lowercase name stands for.
pub open spec fn command_for(key: Seq<char>) -> Option<CommandType> {
    if key == "ping"@ {
        Some(CommandType::Ping)
    } else if key == "get"@ {
        Some(CommandType::Get)
    } else if key == "set"@ {
        Some(CommandType::Store)
    } else {
        None
    }
}

/// The command that `input` names: trimmed, and compared without regard
/// to case.
pub open spec fn command_of(input: Seq<char>) -> Result<CommandType, CommandErrorView> {
    match command_for(lowercase_of(trimmed(input))) {
        Some(kind) => Ok(kind),
        None => Err(CommandErrorView::Unknown(trimmed(input))),
    }
}

/// The command with the lowercase name `key`, if there is one.
pub fn command_for_key(key: &str) -> (r: Option<CommandType>)
    ensures
        r == command_for(key@),
{
    if str_eq(key, "ping") {
        Some(CommandType::Ping)
    } else if str_eq(key, "get") {
        Some(CommandType::Get)
    } else if str_eq(key, "set") {
        Some(CommandType::Store)
    } else {
        None
    }
}

/// Resolves a command name, ignoring case and surrounding whitespace.
pub fn match_command(input: &str) -> (r: Result<CommandType, CommandError>)
    ensures
        match (r, command_of(input@)) {
            (Ok(kind), Ok(expected)) => kind == expected,
            (Err(error), Err(expected)) => error@ == expected,
            _ => false,
        },
{
    let name = trim(input);
    let key = lowercase(name);
    match command_for_key(key.as_str()) {
        Some(kind) => Ok(kind),
        None => Err(CommandError::Unknown(String::from_str(name))),
    }
}

/// The handler of a command; a command without one is reported as such.
pub fn get_handler_for(cmd: &CommandType) -> (r: Result<PingHandler, CommandError>)
    ensures
        match *cmd {
            CommandType::Ping => r is Ok,
            other => r is Err && r->Err_0@ == CommandErrorView::NotImplemented(other),
        },
{
    match cmd {
        CommandType::Ping => Ok(PingHandler),
        CommandType::Get => Err(CommandError::NotImplemented(CommandType::Get)),
        CommandType::Store => Err(CommandError::NotImplemented(CommandType::Store)),
    }
}

/// What a command answers to raw argument tokens.
pub open spec fn execute_of(cmd: CommandType, args: Seq<Seq<char>>) -> Result<
    Seq<char>,
    CommandErrorView,
> {
    match cmd {
        CommandType::Ping => match parse_of(ping_parser(), args) {
            Ok(parsed) => Ok(join(list_of(parsed, "message"@), " "@)),
            Err(error) => Err(CommandErrorView::Argument(error)),
        },
        other => Err(CommandErrorView::NotImplemented(other)),
    }
}

/// Runs a command on raw argument tokens.
pub fn execute(cmd: &CommandType, args: &[&str]) -> (r: Result<String, CommandError>)
    ensures
        dispatch_result_view(r) == execute_of(*cmd, str_views(args@)),
{
    match get_handler_for(cmd) {
        Ok(handler) => match handler.handle(args) {
            Ok(text) => Ok(text),
            Err(error) => Err(CommandError::Argument(error)),
        },
        Err(error) => Err(error),
    }
}

/// What one input line is answered with: its first word names the
/// command, the other words are its arguments.
pub open spec fn handle_input_of(input: Seq<char>) -> Result<Seq<char>, CommandErrorView> {
    let parts = words(input);
    let head = if parts.len() > 0 {
        parts[0]
    } else {
        Seq::empty()
    };
    let rest = if parts.len() > 0 {
        parts.skip(1)
    } else {
        Seq::empty()
    };
    match command_of(head) {
        Ok(kind) => execute_of(kind, rest),
        Err(error) => Err(error),
    }
}

/// Splits a line into words, resolves the command, and runs it.
pub fn handle_input(input: &str) -> (r: Result<String, CommandError>)
    ensures
        dispatch_result_view(r) == handle_input_of(input@),
{
    let parts = split_words(input);
    let head: &str = if parts.len() > 0 {
        parts[0].as_str()
    } else {
        ""
    };
    proof {
        reveal_strlit("");
        assert(""@ =~= Seq::<char>::empty());
    }
    match match_command(head) {
        Ok(kind) => {
            let mut args: Vec<&str> = Vec::new();
            let mut i: usize = 1;
            while i < parts.len()
                invariant
                    1 <= i,
                    parts@.len() > 0 ==> i <= parts@.len(),
                    views(parts@) == words(input@),
                    args@.len() == if i <= parts@.len() { i - 1 } else { 0 },
                    forall|j: int|
                        0 <= j < args@.len() ==> (#[trigger] args@[j])@ == parts@[j + 1]@,
                decreases parts.len() - i,
            {
                args.push(parts[i].as_str());
                i = i + 1;
            }
            assert(parts@.len() > 0 ==> str_views(args@) =~= views(parts@).skip(1));
            assert(parts@.len() == 0 ==> str_views(args@) =~= Seq::<Seq<char>>::empty());
            execute(&kind, args.as_slice())
        },
        Err(error) => Err(error),
    }
}

/// The line sent back for a result: the result itself, or `Error: ` and
/// the text of the failure.
pub open spec fn response_of(r: Result<Seq<char>, CommandErrorView>) -> Seq<char> {
    match r {
        Ok(text) => text,
        Err(error) => "Error: "@ + error_text(error),
    }
}

/// Renders the result of a dispatch as the text of the response.
pub fn format_response(result: &Result<String, CommandError>) -> (r: String)
    ensures
        r@ == response_of(dispatch_result_view(*result)),
{
    match result {
        Ok(text) => text.clone(),
        Err(error) => {
            let mut out = String::from_str("Error: ");
            let text = error.message();
            out.append(text.as_str());
            out
        },
    }
}

/// The bytes' worth of text that answers `input`: the response and the
/// terminating line break.
pub fn respond(input: &str) -> (r: String)
    ensures
        r@ == response_of(handle_input_of(input@)) + "\n"@,
{
    let result = handle_input(input);
    frame(format_response(&result).as_str())
}

/// `message` terminated by a line break, as it goes onto the wire.
pub fn frame(message: &str) -> (r: String)
    ensures
        r@ == message@ + "\n"@,
{
    let mut out = String::from_str(message);
    out.append("\n");
    out
}

/// `PING` never fails: without arguments that count it answers `PONG`,
/// and otherwise its arguments, trimmed and joined by single spaces.
pub proof fn lemma_ping_answer(args: Seq<Seq<char>>)
    ensures
        execute_of(CommandType::Ping, args) == Ok::<Seq<char>, CommandErrorView>(
            if clean_tokens(args).len() == 0 {
                "PONG"@
            } else {
                join(clean_tokens(args), " "@)
            },
        ),
{
    lemma_lone_remainder_binding(ping_parser(), args);
    assert(join(seq!["PONG"@], " "@) == "PONG"@);
}

/// The words of a line reach the command as they are: trimming changes
/// none of them and drops none.
pub proof fn lemma_line_arguments_unchanged(input: Seq<char>)
    ensures
        clean_tokens(words(input)) == words(input),
{
    lemma_words_clean(input);
    lemma_clean_tokens_unchanged(words(input));
}

/// The first word of a line, or nothing for a line without words.
pub open spec fn head_of(input: Seq<char>) -> Seq<char> {
    if words(input).len() > 0 {
        words(input)[0]
    } else {
        Seq::empty()
    }
}

/// A line whose first word names `PING`, in whatever case, is answered
/// with `PONG` where nothing follows the word, and otherwise with the
/// words that follow it, joined by single spaces.
pub proof fn lemma_ping_line(input: Seq<char>)
    requires
        words(input).len() > 0,
        command_for(lowercase_of(words(input)[0])) == Some(CommandType::Ping),
    ensures
        response_of(handle_input_of(input)) == if words(input).len() == 1 {
            "PONG"@
        } else {
            join(words(input).skip(1), " "@)
        },
{
    let rest = words(input).skip(1);
    lemma_words_clean(input);
    assert(trimmed(words(input)[0]) == words(input)[0]);
    assert forall|i: int| 0 <= i < rest.len() implies is_clean(
        #[trigger] rest[i],
    ) by {
        assert(rest[i] == words(input)[i + 1]);
        assert(is_word(words(input)[i + 1]));
    }
    lemma_clean_tokens_unchanged(rest);
    lemma_ping_answer(rest);
}

/// A line whose first word names no command, an empty line among them,
/// is answered with the unknown-command error that names the word.
pub proof fn lemma_unknown_line(input: Seq<char>)
    requires
        command_for(lowercase_of(head_of(input))) is None,
    ensures
        handle_input_of(input) == Err::<Seq<char>, CommandErrorView>(
            CommandErrorView::Unknown(head_of(input)),
        ),
        response_of(handle_input_of(input)) == "Error: "@ + "Unknown command: "@ + head_of(input),
{
    assert("Error: "@ + ("Unknown command: "@ + head_of(input)) =~= "Error: "@
        + "Unknown command: "@ + head_of(input));
    lemma_words_clean(input);
    if words(input).len() > 0 {
        assert(trimmed(words(input)[0]) == words(input)[0]);
    } else {
        lemma_trimmed_unchanged(Seq::<char>::empty());
    }
}

/// A line whose first word names a command without a handler is answered
/// with the not-implemented error of that command, whatever follows the
/// word, and the same on every call.
pub proof fn lemma_unfinished_line(input: Seq<char>, kind: CommandType)
    requires
        words(input).len() > 0,
        command_for(lowercase_of(words(input)[0])) == Some(kind),
        kind != CommandType::Ping,
    ensures
        handle_input_of(input) == Err::<Seq<char>, CommandErrorView>(
            CommandErrorView::NotImplemented(kind),
        ),
{
    lemma_words_clean(input);
    assert(trimmed(words(input)[0]) == words(input)[0]);
}

} // verus!
