//! What a run asks of its caller, what the caller reports back, and the
//! errors that end a run.

use vstd::prelude::*;
use vstd::string::*;

use crate::names::copy_names;

verus! {

/// Why a run was given up.
#[derive(Clone, Copy, Debug, PartialEq, Eq, Structural)]
pub enum ErrorKind {
    /// The builder has no input files.
    NoInput,
    /// A directory could not be probed, removed, created or listed, or the
    /// index file could not be written.
    Filesystem,
    /// No protobuf compiler could be located.
    CompilerNotFound,
    /// The compiler did not tell its version.
    CompilerVersionUnreadable,
    /// The compiler's major version is not 3.
    WrongCompilerVersion,
    /// The code generator failed.
    Generation,
    /// The caller reported something that does not answer the pending action.
    UnexpectedEvent,
}

/// An error that ends a run: its kind, and the text to abort with.
#[derive(Debug, PartialEq, Eq)]
pub struct BuildError {
    pub kind: ErrorKind,
    pub message: String,
}

/// A [`BuildError`] with its message as a sequence of characters.
pub struct BuildErrorView {
    pub kind: ErrorKind,
    pub message: Seq<char>,
}

impl View for BuildError {
    type V = BuildErrorView;

    open spec fn view(&self) -> BuildErrorView {
        BuildErrorView { kind: self.kind, message: self.message@ }
    }
}

impl Clone for BuildError {
    fn clone(&self) -> (r: Self)
        ensures
            r@ == self@,
    {
        BuildError { kind: self.kind, message: self.message.clone() }
    }
}

/// What the caller is to do next.
#[derive(Debug, PartialEq, Eq)]
pub enum Action {
    /// Find out whether the output directory exists.
    ProbeOutDir { path: String },
    /// Delete the output directory with all that is in it.
    RemoveOutDir { path: String },
    /// Create the output directory, and its parents where they are missing.
    CreateOutDir { path: String },
    /// Locate the protobuf compiler.
    LocateCompiler,
    /// Ask the compiler at this path for its version.
    ReadCompilerVersion { compiler: String },
    /// Run the code generator with this compiler on `inputs`, resolving
    /// imports below `includes`, without customization, into `out_dir`.
    Compile { compiler: String, inputs: Vec<String>, includes: Vec<String>, out_dir: String },
    /// List the names of the entries of the output directory.
    ListOutDir { path: String },
    /// Write the index file.
    WriteIndex { path: String, content: String },
    /// Nothing is left to do: the run has succeeded.
    Finish,
    /// Give up the run with this error.
    Abort { error: BuildError },
}

/// An [`Action`] with its texts as sequences of characters.
pub enum ActionView {
    ProbeOutDir { path: Seq<char> },
    RemoveOutDir { path: Seq<char> },
    CreateOutDir { path: Seq<char> },
    LocateCompiler,
    ReadCompilerVersion { compiler: Seq<char> },
    Compile {
        compiler: Seq<char>,
        inputs: Seq<Seq<char>>,
        includes: Seq<Seq<char>>,
        out_dir: Seq<char>,
    },
    ListOutDir { path: Seq<char> },
    WriteIndex { path: Seq<char>, content: Seq<char> },
    Finish,
    Abort { error: BuildErrorView },
}

impl View for Action {
    type V = ActionView;

    open spec fn view(&self) -> ActionView {
        match *self {
            Action::ProbeOutDir { path } => ActionView::ProbeOutDir { path: path@ },
            Action::RemoveOutDir { path } => ActionView::RemoveOutDir { path: path@ },
            Action::CreateOutDir { path } => ActionView::CreateOutDir { path: path@ },
            Action::LocateCompiler => ActionView::LocateCompiler,
            Action::ReadCompilerVersion { compiler } => ActionView::ReadCompilerVersion {
                compiler: compiler@,
            },
            Action::Compile { compiler, inputs, includes, out_dir } => ActionView::Compile {
                compiler: compiler@,
                inputs: inputs.deep_view(),
                includes: includes.deep_view(),
                out_dir: out_dir@,
            },
            Action::ListOutDir { path } => ActionView::ListOutDir { path: path@ },
            Action::WriteIndex { path, content } => ActionView::WriteIndex {
                path: path@,
                content: content@,
            },
            Action::Finish => ActionView::Finish,
            Action::Abort { error } => ActionView::Abort { error: error@ },
        }
    }
}

impl Clone for Action {
    fn clone(&self) -> (r: Self)
        ensures
            r@ == self@,
    {
        match self {
            Action::ProbeOutDir { path } => Action::ProbeOutDir { path: path.clone() },
            Action::RemoveOutDir { path } => Action::RemoveOutDir { path: path.clone() },
            Action::CreateOutDir { path } => Action::CreateOutDir { path: path.clone() },
            Action::LocateCompiler => Action::LocateCompiler,
            Action::ReadCompilerVersion { compiler } => Action::ReadCompilerVersion {
                compiler: compiler.clone(),
            },
            Action::Compile { compiler, inputs, includes, out_dir } => Action::Compile {
                compiler: compiler.clone(),
                inputs: copy_names(inputs.as_slice()),
                includes: copy_names(includes.as_slice()),
                out_dir: out_dir.clone(),
            },
            Action::ListOutDir { path } => Action::ListOutDir { path: path.clone() },
            Action::WriteIndex { path, content } => Action::WriteIndex {
                path: path.clone(),
                content: content.clone(),
            },
            Action::Finish => Action::Finish,
            Action::Abort { error } => Action::Abort { error: error.clone() },
        }
    }
}

/// What the caller reports once it has performed an action.
#[derive(Debug, PartialEq, Eq)]
pub enum Event {
    /// The output directory was probed.
    OutDirProbed { exists: bool },
    /// The action was performed and has nothing more to tell.
    Completed,
    /// The compiler was located at this path.
    CompilerLocated { path: String },
    /// The compiler told its version, and whether that is of major version
    /// 3.
    VersionRead { major_is_three: bool },
    /// The output directory holds entries of these names.
    OutputListed { names: Vec<String> },
    /// The action failed, for the reason given.
    Failed { message: String },
}

/// An [`Event`] with its texts as sequences of characters.
pub enum EventView {
    OutDirProbed { exists: bool },
    Completed,
    CompilerLocated { path: Seq<char> },
    VersionRead { major_is_three: bool },
    OutputListed { names: Seq<Seq<char>> },
    Failed { message: Seq<char> },
}

impl View for Event {
    type V = EventView;

    open spec fn view(&self) -> EventView {
        match *self {
            Event::OutDirProbed { exists } => EventView::OutDirProbed { exists },
            Event::Completed => EventView::Completed,
            Event::CompilerLocated { path } => EventView::CompilerLocated { path: path@ },
            Event::VersionRead { major_is_three } => EventView::VersionRead { major_is_three },
            Event::OutputListed { names } => EventView::OutputListed { names: names.deep_view() },
            Event::Failed { message } => EventView::Failed { message: message@ },
        }
    }
}

impl Clone for Event {
    fn clone(&self) -> (r: Self)
        ensures
            r@ == self@,
    {
        match self {
            Event::OutDirProbed { exists } => Event::OutDirProbed { exists: *exists },
            Event::Completed => Event::Completed,
            Event::CompilerLocated { path } => Event::CompilerLocated { path: path.clone() },
            Event::VersionRead { major_is_three } => Event::VersionRead {
                major_is_three: *major_is_three,
            },
            Event::OutputListed { names } => Event::OutputListed {
                names: copy_names(names.as_slice()),
            },
            Event::Failed { message } => Event::Failed { message: message.clone() },
        }
    }
}

impl ActionView {
    /// The action ends the run: nothing follows it.
    pub open spec fn is_terminal(self) -> bool {
        self is Finish || self is Abort
    }

    /// The action runs the code generator.
    pub open spec fn is_generation(self) -> bool {
        self is Compile
    }

    /// The action reads or changes the file system.
    pub open spec fn touches_filesystem(self) -> bool {
        self is ProbeOutDir || self is RemoveOutDir || self is CreateOutDir || self is Compile
            || self is ListOutDir || self is WriteIndex
    }
}

impl Action {
    /// Tells whether the action ends the run.
    pub fn is_terminal(&self) -> (r: bool)
        ensures
            r == self@.is_terminal(),
    {
        match self {
            Action::Finish => true,
            Action::Abort { .. } => true,
            _ => false,
        }
    }
}

} // verus!
