//! The commands of the command line.

use crate::text::same_text;
use vstd::prelude::*;

verus! {

/// What the program is asked to do.
#[derive(Debug, Clone, PartialEq, Eq)]
pub enum Command {
    /// Evaluate the expression in a file and write its value.
    Evaluate { filename: String },
    /// Write how the program is used.
    Help,
    /// Write the tree of the source in a file.
    Parse { filename: String },
    /// Run the statements in a file.
    Run { filename: String },
    /// Write the tokens of the source in a file.
    Tokenize { filename: String },
}

/// The mathematical model of a [`Command`].
pub enum CommandView {
    Evaluate { filename: Seq<char> },
    Help,
    Parse { filename: Seq<char> },
    Run { filename: Seq<char> },
    Tokenize { filename: Seq<char> },
}

impl View for Command {
    type V = CommandView;

    open spec fn view(&self) -> CommandView {
        match self {
            Command::Evaluate { filename } => CommandView::Evaluate { filename: filename@ },
            Command::Help => CommandView::Help,
            Command::Parse { filename } => CommandView::Parse { filename: filename@ },
            Command::Run { filename } => CommandView::Run { filename: filename@ },
            Command::Tokenize { filename } => CommandView::Tokenize { filename: filename@ },
        }
    }
}

/// Why the arguments name no command.
#[derive(Debug, Clone, PartialEq, Eq)]
pub enum CommandError {
    /// An argument is missing; the text says which.
    MissingArgument(&'static str),
    /// The first argument is no command.
    UnknownCommand(String),
}

/// The mathematical model of a [`CommandError`].
pub enum CommandErrorView {
    MissingArgument(Seq<char>),
    UnknownCommand(Seq<char>),
}

impl View for CommandError {
    type V = CommandErrorView;

    open spec fn view(&self) -> CommandErrorView {
        match self {
            CommandError::MissingArgument(argument) => CommandErrorView::MissingArgument(argument@),
            CommandError::UnknownCommand(command) => CommandErrorView::UnknownCommand(command@),
        }
    }
}

/// The message of a command error.
pub open spec fn command_error_text(error: CommandErrorView) -> Seq<char> {
    match error {
        CommandErrorView::MissingArgument(argument) => "missing argument `"@ + argument + "`"@,
        CommandErrorView::UnknownCommand(command) => "unknown command `"@ + command + "`"@,
    }
}

impl CommandError {
    /// The message of this error.
    pub fn to_string(&self) -> (text: String)
        ensures
            text@ == command_error_text(self@),
    {
        match self {
            CommandError::MissingArgument(argument) => {
                let mut text = "missing argument `".to_owned();
                text.append(argument);
                text.append("`");
                text
            },
            CommandError::UnknownCommand(command) => {
                let mut text = "unknown command `".to_owned();
                text.append(command.as_str());
                text.append("`");
                text
            },
        }
    }
}

/// Whether `name` is a command that takes the name of a file.
pub open spec fn takes_file(name: Seq<char>) -> bool {
    name == "evaluate"@ || name == "parse"@ || name == "run"@ || name == "tokenize"@
}

/// The command that takes the file `filename` under `name`.
pub open spec fn file_command(name: Seq<char>, filename: Seq<char>) -> CommandView {
    if name == "evaluate"@ {
        CommandView::Evaluate { filename }
    } else if name == "parse"@ {
        CommandView::Parse { filename }
    } else if name == "run"@ {
        CommandView::Run { filename }
    } else {
        CommandView::Tokenize { filename }
    }
}

/// The command that the arguments name: the first argument is the command,
/// and the second the file of a command that takes one. What follows is not
/// read.
pub open spec fn command_of(arguments: Seq<Seq<char>>) -> Result<CommandView, CommandErrorView> {
    if arguments.len() == 0 {
        Err(CommandErrorView::MissingArgument("command"@))
    } else if arguments[0] == "help"@ {
        Ok(CommandView::Help)
    } else if takes_file(arguments[0]) {
        if arguments.len() == 1 {
            Err(CommandErrorView::MissingArgument("filename"@))
        } else {
            Ok(file_command(arguments[0], arguments[1]))
        }
    } else {
        Err(CommandErrorView::UnknownCommand(arguments[0]))
    }
}

/// The model of what [`Command::from_arguments`] returns.
pub open spec fn command_result(result: Result<Command, CommandError>) -> Result<
    CommandView,
    CommandErrorView,
> {
    match result {
        Ok(command) => Ok(command@),
        Err(error) => Err(error@),
    }
}

impl Command {
    /// The command that the arguments of the program name.
    pub fn from_arguments(arguments: Vec<String>) -> (result: Result<Command, CommandError>)
        ensures
            command_result(result) == command_of(arguments.deep_view()),
    {
        if arguments.len() == 0 {
            return Err(CommandError::MissingArgument("command"));
        }
        let name = arguments[0].as_str();
        if same_text(name, "help") {
            return Ok(Command::Help);
        }
        let evaluate = same_text(name, "evaluate");
        let parse = same_text(name, "parse");
        let run = same_text(name, "run");
        let tokenize = same_text(name, "tokenize");
        if !(evaluate || parse || run || tokenize) {
            return Err(CommandError::UnknownCommand(arguments[0].clone()));
        }
        if arguments.len() == 1 {
            return Err(CommandError::MissingArgument("filename"));
        }
        let filename = arguments[1].clone();
        if evaluate {
            Ok(Command::Evaluate { filename })
        } else if parse {
            Ok(Command::Parse { filename })
        } else if run {
            Ok(Command::Run { filename })
        } else {
            Ok(Command::Tokenize { filename })
        }
    }
}

} // verus!
