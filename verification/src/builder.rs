//! The builder: where the generated sources go, which files they are
//! generated from, and the run that generates them.

use vstd::prelude::*;
use vstd::string::*;

use crate::discovery::{discovered, select_protos, Entry};
use crate::index::{index_modules_of, render_index};
use crate::names::{copy_names, join, joined};
use crate::run::{
    abort, first_action, generation, index_writing, next_action, out_dir_preparation,
    unexpected_event_error, wrong_version_error,
};
use crate::steps::{Action, BuildError, BuildErrorView, ErrorKind, Event};

verus! {

/// Plans the generation of sources from interface definitions.
pub struct Builder {
    /// The directory that the generated sources go to.
    out_dir: String,
    /// The interface definitions to generate from.
    files: Vec<String>,
    /// The directory below which imports are resolved.
    include_dir: String,
}

/// A [`Builder`] as plain sequences of characters.
pub struct BuilderView {
    pub out_dir: Seq<char>,
    pub files: Seq<Seq<char>>,
    pub include_dir: Seq<char>,
}

impl View for Builder {
    type V = BuilderView;

    closed spec fn view(&self) -> BuilderView {
        BuilderView {
            out_dir: self.out_dir@,
            files: self.files.deep_view(),
            include_dir: self.include_dir@,
        }
    }
}

/// The configuration that a builder starts with below the output root
/// `out_root`: it writes to `protos` below the root, resolves imports below
/// `protos`, and has no files yet.
pub open spec fn default_config(out_root: Seq<char>) -> BuilderView {
    BuilderView {
        out_dir: joined(out_root, "protos"@),
        files: Seq::empty(),
        include_dir: "protos"@,
    }
}

/// The action that gives up a run with an error of this kind and message.
fn give_up(kind: ErrorKind, message: String) -> (a: Action)
    ensures
        a@ == abort(BuildErrorView { kind, message: message@ }),
{
    Action::Abort { error: BuildError { kind, message } }
}

impl Builder {
    /// A builder for the output root `out_root`, with the default
    /// configuration.
    pub fn new(out_root: &str) -> (b: Builder)
        ensures
            b@ == default_config(out_root@),
    {
        let b = Builder {
            out_dir: join(out_root, "protos"),
            files: Vec::new(),
            include_dir: String::from_str("protos"),
        };
        assert(b.files.deep_view() =~= Seq::<Seq<char>>::empty());
        b
    }

    /// Sets the directory that the generated sources go to. Nothing else
    /// changes, and the builder is handed back for the next call.
    pub fn out_dir(&mut self, out_dir: &str) -> (r: &mut Self)
        ensures
            r@ == (BuilderView { out_dir: out_dir@, ..old(self)@ }),
            *final(self) == *final(r),
    {
        self.out_dir = String::from_str(out_dir);
        self
    }

    /// Takes as files the interface definitions of the directory
    /// `proto_dir`, whose listing is `entries`: the path of every entry that
    /// is no directory and whose name ends in `.proto`, in the order of the
    /// listing. The files that the builder had are dropped; nothing else
    /// changes.
    pub fn search_dir_for_protos(&mut self, proto_dir: &str, entries: &[Entry]) -> (r:
        &mut Self)
        ensures
            r@ == (BuilderView {
                files: discovered(proto_dir@, entries.deep_view()),
                ..old(self)@
            }),
            *final(self) == *final(r),
    {
        self.files = select_protos(proto_dir, entries);
        self
    }

    /// Begins a run and tells what to do first. A builder without files
    /// gives up at once, before anything is touched.
    pub fn generate(&self) -> (first: Action)
        ensures
            first@ == first_action(self@),
            first@ is Abort <==> self@.files.len() == 0,
    {
        if self.files.len() == 0 {
            give_up(ErrorKind::NoInput, String::from_str("No files specified for generation"))
        } else {
            Action::ProbeOutDir { path: self.out_dir.clone() }
        }
    }

    /// The first step that makes the output directory ready, given whether
    /// it exists: an existing one is to be removed, a missing one created.
    pub fn prepare_out_dir(&self, exists: bool) -> (a: Action)
        ensures
            a@ == out_dir_preparation(self@, exists),
    {
        if exists {
            Action::RemoveOutDir { path: self.out_dir.clone() }
        } else {
            Action::CreateOutDir { path: self.out_dir.clone() }
        }
    }

    /// The request to the code generator, for the compiler at `compiler`.
    pub fn generate_files(&self, compiler: String) -> (a: Action)
        ensures
            a@ == generation(self@, compiler@),
    {
        let mut includes: Vec<String> = Vec::new();
        includes.push(self.include_dir.clone());
        let a = Action::Compile {
            compiler,
            inputs: copy_names(self.files.as_slice()),
            includes,
            out_dir: self.out_dir.clone(),
        };
        assert(includes.deep_view() =~= seq![self.include_dir@]);
        a
    }

    /// The writing of the index file, given the names that the output
    /// directory lists after generation.
    pub fn generate_mod_file(&self, listing: &[String]) -> (a: Action)
        ensures
            a@ == index_writing(self@, listing.deep_view()),
    {
        let modules = index_modules_of(listing);
        Action::WriteIndex {
            path: join(self.out_dir.as_str(), "mod.rs"),
            content: render_index(modules.as_slice()),
        }
    }

    /// Tells what to do next, once the caller has performed `pending` and
    /// reports `event`.
    pub fn advance(&self, pending: &Action, event: Event) -> (next: Action)
        ensures
            next@ == next_action(self@, pending@, event@),
    {
        match pending {
            Action::Finish => Action::Finish,
            Action::Abort { error } => Action::Abort { error: error.clone() },
            Action::ProbeOutDir { .. } => match event {
                Event::OutDirProbed { exists } => self.prepare_out_dir(exists),
                Event::Failed { message } => give_up(ErrorKind::Filesystem, message),
                _ => unexpected(),
            },
            Action::RemoveOutDir { .. } => match event {
                Event::Completed => Action::CreateOutDir { path: self.out_dir.clone() },
                Event::Failed { message } => give_up(ErrorKind::Filesystem, message),
                _ => unexpected(),
            },
            Action::CreateOutDir { .. } => match event {
                Event::Completed => Action::LocateCompiler,
                Event::Failed { message } => give_up(ErrorKind::Filesystem, message),
                _ => unexpected(),
            },
            Action::LocateCompiler => match event {
                Event::CompilerLocated { path } => Action::ReadCompilerVersion { compiler: path },
                Event::Failed { message } => give_up(ErrorKind::CompilerNotFound, message),
                _ => unexpected(),
            },
            Action::ReadCompilerVersion { compiler } => match event {
                Event::VersionRead { major_is_three } => {
                    match check_and_get_protoc_bin_path(compiler.as_str(), major_is_three) {
                        Ok(path) => self.generate_files(path),
                        Err(error) => Action::Abort { error },
                    }
                },
                Event::Failed { message } => give_up(ErrorKind::CompilerVersionUnreadable, message),
                _ => unexpected(),
            },
            Action::Compile { .. } => match event {
                Event::Completed => Action::ListOutDir { path: self.out_dir.clone() },
                Event::Failed { message } => {
                    let mut text = String::from_str("Failed to compile protobuf and grpc files: ");
                    text.append(message.as_str());
                    give_up(ErrorKind::Generation, text)
                },
                _ => unexpected(),
            },
            Action::ListOutDir { .. } => match event {
                Event::OutputListed { names } => self.generate_mod_file(names.as_slice()),
                Event::Failed { message } => give_up(ErrorKind::Filesystem, message),
                _ => unexpected(),
            },
            Action::WriteIndex { .. } => match event {
                Event::Completed => Action::Finish,
                Event::Failed { message } => give_up(ErrorKind::Filesystem, message),
                _ => unexpected(),
            },
        }
    }
}

/// Checks what the compiler at `compiler` tells of its version, and hands
/// the path on if it is of major version 3.
pub fn check_and_get_protoc_bin_path(compiler: &str, major_is_three: bool) -> (r: Result<
    String,
    BuildError,
>)
    ensures
        r is Ok <==> major_is_three,
        r is Ok ==> r->Ok_0@ == compiler@,
        r is Err ==> r->Err_0@ == wrong_version_error(),
{
    if major_is_three {
        Ok(String::from_str(compiler))
    } else {
        Err(
            BuildError {
                kind: ErrorKind::WrongCompilerVersion,
                message: String::from_str("The protobuf compiler is not of major version 3"),
            },
        )
    }
}

/// The action that gives up a run whose caller reported out of turn.
fn unexpected() -> (a: Action)
    ensures
        a@ == abort(unexpected_event_error()),
{
    give_up(
        ErrorKind::UnexpectedEvent,
        String::from_str("The event does not answer the pending action"),
    )
}

} // verus!
