//! The commands of the command-line tool, and what each of them reports.
//!
//! Reading the file and printing the report are left to the program around
//! the library: `run` takes the bytes of the file and gives the lines to
//! print and the exit status.

use crate::error::PeError;
use crate::exports::{export_functions, exports};
use crate::header::{is_pe, is_pe_image};
use crate::imports::{import_functions, imports, Import};
use std::path::PathBuf;
use vstd::prelude::*;
use vstd::string::StringExecFns;

verus! {

/// `std::path::PathBuf`, which the library only carries from the command
/// line to whoever opens the file.
#[verifier::external_type_specification]
#[verifier::external_body]
pub struct ExPathBuf(PathBuf);

/// What the tool is asked to do.
pub enum Subcommands {
    /// Check that the file has PE magic numbers.
    IsPe {
        /// Path to PE file (if none, reads from stdin).
        filepath: Option<PathBuf>,
    },
    /// List out functions imported by a PE.
    ImportFunctions {
        /// Path to PE file (if none, reads from stdin).
        filepath: Option<PathBuf>,
    },
    /// List out functions exported by a PE.
    ExportFunctions {
        /// Path to PE file (if none, reads from stdin).
        filepath: Option<PathBuf>,
    },
}

/// The arguments of the tool.
pub struct Cli {
    pub subcommand: Subcommands,
}

/// What a command prints, line by line, and the exit status it ends with.
#[derive(Debug, PartialEq, Eq)]
pub struct Report {
    pub lines: Vec<String>,
    pub exit_code: i32,
}

/// The line of a function name under the name of its library.
pub open spec fn indented(name: Seq<char>) -> Seq<char> {
    "    "@ + name
}

/// The lines for one library: its name, then its functions, indented.
pub open spec fn library_lines(import: Import) -> Seq<Seq<char>> {
    seq![import.0] + import.1.map_values(|name: Seq<char>| indented(name))
}

/// The lines for a list of libraries.
pub open spec fn import_lines(found: Seq<Import>) -> Seq<Seq<char>>
    decreases found.len(),
{
    if found.len() == 0 {
        Seq::empty()
    } else {
        import_lines(found.drop_last()) + library_lines(found.last())
    }
}

/// The lines and the exit status with which `subcommand` answers on `file`.
pub open spec fn report(subcommand: Subcommands, file: Seq<u8>) -> Result<
    (Seq<Seq<char>>, i32),
    PeError,
> {
    match subcommand {
        Subcommands::IsPe { .. } => if is_pe_image(file) {
            Ok((seq!["PE"@], 0i32))
        } else {
            Ok((seq!["Not PE"@], 1i32))
        },
        Subcommands::ImportFunctions { .. } => match imports(file) {
            Ok(found) => Ok((import_lines(found), 0i32)),
            Err(e) => Err(e),
        },
        Subcommands::ExportFunctions { .. } => match exports(file) {
            Ok(names) => Ok((names, 0i32)),
            Err(e) => Err(e),
        },
    }
}

impl Subcommands {
    /// The file to read; `None` stands for the standard input.
    pub fn filepath(&self) -> (r: &Option<PathBuf>)
        ensures
            *r == match *self {
                Subcommands::IsPe { filepath } => filepath,
                Subcommands::ImportFunctions { filepath } => filepath,
                Subcommands::ExportFunctions { filepath } => filepath,
            },
    {
        match self {
            Subcommands::IsPe { filepath } => filepath,
            Subcommands::ImportFunctions { filepath } => filepath,
            Subcommands::ExportFunctions { filepath } => filepath,
        }
    }
}

/// Lays out a list of imports: one line per library, each followed by one
/// indented line per function.
pub fn render_imports(found: &[(String, Vec<String>)]) -> (lines: Vec<String>)
    ensures
        lines.deep_view() == import_lines(found.deep_view()),
{
    let mut lines: Vec<String> = Vec::new();
    let mut i: usize = 0;
    assert(found.deep_view().take(0) =~= Seq::<Import>::empty());
    assert(lines.deep_view() =~= Seq::<Seq<char>>::empty());
    while i < found.len()
        invariant
            i <= found@.len(),
            lines.deep_view() == import_lines(found.deep_view().take(i as int)),
        decreases found@.len() - i,
    {
        let library = &found[i];
        let ghost before = lines.deep_view();
        let ghost names = library.1.deep_view();
        lines.push(library.0.clone());
        assert(lines.deep_view() =~= before + seq![library.0@] + names.take(0).map_values(
            |name: Seq<char>| indented(name),
        ));
        let mut j: usize = 0;
        while j < library.1.len()
            invariant
                j <= library.1@.len(),
                names == library.1.deep_view(),
                lines.deep_view() == before + seq![library.0@] + names.take(j as int).map_values(
                    |name: Seq<char>| indented(name),
                ),
            decreases library.1@.len() - j,
        {
            let ghost so_far = lines.deep_view();
            let line = String::from_str("    ").concat(library.1[j].as_str());
            proof {
                assert(line@ == indented(names[j as int]));
                assert(names.take(j + 1).map_values(|name: Seq<char>| indented(name))
                    =~= names.take(j as int).map_values(|name: Seq<char>| indented(name)).push(
                    line@,
                ));
            }
            lines.push(line);
            assert(lines.deep_view() =~= so_far.push(line@));
            j += 1;
        }
        proof {
            let prefix = found.deep_view().take(i + 1);
            assert(names.take(j as int) =~= names);
            assert(prefix.drop_last() =~= found.deep_view().take(i as int));
            assert(prefix.last() == library.deep_view());
            assert(library.deep_view() == (library.0@, names));
        }
        i += 1;
    }
    assert(found.deep_view().take(i as int) =~= found.deep_view());
    lines
}

/// Answers a command on the bytes of the file it names.
///
/// `is-pe` prints `PE` and ends with status 0 on an image that has the PE
/// signature, and prints `Not PE` and ends with status 1 on any other. The
/// two listings print one name per line, the functions imported from a
/// library indented under its name, and end with status 0; where the image
/// cannot be parsed they give the error instead.
pub fn run(arguments: &Cli, file: &[u8]) -> (r: Result<Report, PeError>)
    ensures
        match r {
            Ok(answer) => report(arguments.subcommand, file@) == Ok::<
                (Seq<Seq<char>>, i32),
                PeError,
            >((answer.lines.deep_view(), answer.exit_code)),
            Err(e) => report(arguments.subcommand, file@) == Err::<(Seq<Seq<char>>, i32), PeError>(
                e,
            ),
        },
{
    match &arguments.subcommand {
        Subcommands::IsPe { .. } => {
            let mut lines: Vec<String> = Vec::new();
            if is_pe(file) {
                lines.push(String::from_str("PE"));
                assert(lines.deep_view() =~= seq!["PE"@]);
                Ok(Report { lines, exit_code: 0 })
            } else {
                lines.push(String::from_str("Not PE"));
                assert(lines.deep_view() =~= seq!["Not PE"@]);
                Ok(Report { lines, exit_code: 1 })
            }
        },
        Subcommands::ImportFunctions { .. } => match import_functions(file) {
            Ok(found) => Ok(Report { lines: render_imports(found.as_slice()), exit_code: 0 }),
            Err(e) => Err(e),
        },
        Subcommands::ExportFunctions { .. } => match export_functions(file) {
            Ok(names) => Ok(Report { lines: names, exit_code: 0 }),
            Err(e) => Err(e),
        },
    }
}

} // verus!
