//! The errors of this crate.

use vstd::prelude::*;

verus! {

/// Why a list of binaries could not be made from the messages of a build.
#[derive(Clone, Debug, PartialEq, Eq)]
pub enum FromMessagesError {
    /// The stream of build messages could not be read.
    ReadMessages {
        /// What went wrong, in words.
        message: String,
    },
    /// A build message names a package that the workspace does not know.
    PackageGraph {
        /// The identifier that was not found.
        package_id: String,
    },
    /// A build message gives a target without a kind, so that no unique
    /// identifier can be made for its binary.
    MissingTargetKind {
        /// The name of the package.
        package_name: String,
        /// The name of the binary.
        binary_name: String,
    },
}

/// The model of a `FromMessagesError`.
pub enum FromMessagesErrorView {
    /// The stream of build messages could not be read.
    ReadMessages { message: Seq<char> },
    /// A build message names a package that the workspace does not know.
    PackageGraph { package_id: Seq<char> },
    /// A build message gives a target without a kind.
    MissingTargetKind { package_name: Seq<char>, binary_name: Seq<char> },
}

impl View for FromMessagesError {
    type V = FromMessagesErrorView;

    open spec fn view(&self) -> FromMessagesErrorView {
        match self {
            FromMessagesError::ReadMessages { message } => FromMessagesErrorView::ReadMessages {
                message: message@,
            },
            FromMessagesError::PackageGraph { package_id } => FromMessagesErrorView::PackageGraph {
                package_id: package_id@,
            },
            FromMessagesError::MissingTargetKind {
                package_name,
                binary_name,
            } => FromMessagesErrorView::MissingTargetKind {
                package_name: package_name@,
                binary_name: binary_name@,
            },
        }
    }
}

/// Why the tests of a binary could not be listed.
#[derive(Clone, Debug, PartialEq, Eq)]
pub enum ParseTestListError {
    /// The binary could not be run, or did not end well.
    Command {
        /// The command that was tried.
        command: String,
        /// What went wrong, in words.
        error: String,
    },
    /// A line of the binary's output is no line of a test list.
    ParseLine {
        /// What is wrong with the line; the line is quoted in it.
        message: String,
        /// Everything that the binary wrote.
        full_output: String,
    },
}

/// The model of a `ParseTestListError`.
pub enum ParseTestListErrorView {
    /// The binary could not be run, or did not end well.
    Command { command: Seq<char>, error: Seq<char> },
    /// A line of the binary's output is no line of a test list.
    ParseLine { message: Seq<char>, full_output: Seq<char> },
}

impl View for ParseTestListError {
    type V = ParseTestListErrorView;

    open spec fn view(&self) -> ParseTestListErrorView {
        match self {
            ParseTestListError::Command { command, error } => ParseTestListErrorView::Command {
                command: command@,
                error: error@,
            },
            ParseTestListError::ParseLine {
                message,
                full_output,
            } => ParseTestListErrorView::ParseLine {
                message: message@,
                full_output: full_output@,
            },
        }
    }
}

impl ParseTestListError {
    /// The error of a binary that could not be run: `command` is what was
    /// tried and `error` what went wrong.
    pub fn command(command: String, error: String) -> (e: Self)
        ensures
            e@ == (ParseTestListErrorView::Command { command: command@, error: error@ }),
    {
        ParseTestListError::Command { command, error }
    }

    /// The error of a line that is no line of a test list.
    pub fn parse_line(message: String, full_output: &str) -> (e: Self)
        ensures
            e@ == (ParseTestListErrorView::ParseLine {
                message: message@,
                full_output: full_output@,
            }),
    {
        ParseTestListError::ParseLine { message, full_output: full_output.to_string() }
    }
}

} // verus!
