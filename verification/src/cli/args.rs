//! From the arguments of the command line to the settings of a run.

use vstd::prelude::*;
use vstd::string::StringExecFns;
use crate::text::{parsed_usize, str_parse_usize};

verus! {

/// The buffer size of a stream when none is given, or none that is a
/// number.
pub const DEFAULT_BUFFER_SIZE: usize = 4096;

/// The directory of the output files when none is given.
pub const DEFAULT_OUTPUT_DIRECTORY: &'static str = "output";

/// The name under which a filing that is read from standard input goes.
pub const STDIN_NAME: &'static str = "STDIN_DATA";

/// The arguments as they were given, before any default is applied.
#[derive(Debug)]
pub struct CliArguments {
    /// The filing's identifier, or the path of its file.
    pub fec_id: Option<String>,
    pub include_filing_id: bool,
    pub silent: bool,
    pub warn: bool,
    /// Whether standard input is to be left alone even where it is piped.
    pub disable_stdin: bool,
    pub show_usage: bool,
    pub output_directory: Option<String>,
    pub write_to_disk: bool,
    /// The buffer size, as it was typed.
    pub buffer_size: Option<String>,
}

/// The settings of a run.
#[derive(Debug)]
pub struct CliConfig {
    /// The filing's identifier, or the path of its file.
    pub fec_id: String,
    /// Whether records begin with the filing's identifier.
    pub include_filing_id: bool,
    /// Whether messages are suppressed.
    pub silent: bool,
    /// Whether warnings are wanted.
    pub warn: bool,
    /// Whether the filing is read from standard input.
    pub use_stdin: bool,
    /// Whether the usage is to be shown.
    pub show_usage: bool,
    /// The directory of the output files.
    pub output_directory: String,
    /// Whether output goes to disk.
    pub write_to_disk: bool,
    /// The buffer size of each stream.
    pub buffer_size: usize,
}

/// The text of an optional argument; the empty text when it was not given.
pub open spec fn given_text(argument: Option<String>) -> Seq<char> {
    match argument {
        Some(text) => text@,
        None => Seq::<char>::empty(),
    }
}

/// Whether a run with these arguments reads standard input: it does when
/// standard input is piped, reading it is not disabled, and no filing is
/// named.
pub open spec fn reads_stdin(arguments: CliArguments, stdin_piped: bool) -> bool {
    stdin_piped && !arguments.disable_stdin && given_text(arguments.fec_id).len() == 0
}

/// The buffer size that the arguments ask for: the number typed, and the
/// default when none was typed or what was typed is no number.
pub open spec fn wanted_buffer_size(argument: Option<String>) -> usize {
    match argument {
        Some(text) => match parsed_usize(text@) {
            Some(size) => size,
            None => DEFAULT_BUFFER_SIZE,
        },
        None => DEFAULT_BUFFER_SIZE,
    }
}

/// Settles the settings of a run from its arguments and from whether
/// standard input is piped.
pub fn resolve_args(arguments: CliArguments, stdin_piped: bool) -> (config: CliConfig)
    ensures
        config.use_stdin == reads_stdin(arguments, stdin_piped),
        config.fec_id@ == if reads_stdin(arguments, stdin_piped) {
            STDIN_NAME@
        } else {
            given_text(arguments.fec_id)
        },
        config.output_directory@ == match arguments.output_directory {
            Some(directory) => directory@,
            None => DEFAULT_OUTPUT_DIRECTORY@,
        },
        config.buffer_size == wanted_buffer_size(arguments.buffer_size),
        config.include_filing_id == arguments.include_filing_id,
        config.silent == arguments.silent,
        config.warn == arguments.warn,
        config.show_usage == arguments.show_usage,
        config.write_to_disk == arguments.write_to_disk,
{
    let fec_id = match arguments.fec_id {
        Some(id) => id,
        None => String::new(),
    };
    let use_stdin = stdin_piped && !arguments.disable_stdin && fec_id.as_str().is_empty();
    let output_directory = match arguments.output_directory {
        Some(directory) => directory,
        None => String::from_str(DEFAULT_OUTPUT_DIRECTORY),
    };
    let buffer_size = match arguments.buffer_size {
        Some(text) => match str_parse_usize(text.as_str()) {
            Some(size) => size,
            None => DEFAULT_BUFFER_SIZE,
        },
        None => DEFAULT_BUFFER_SIZE,
    };
    CliConfig {
        fec_id: if use_stdin {
            String::from_str(STDIN_NAME)
        } else {
            fec_id
        },
        include_filing_id: arguments.include_filing_id,
        silent: arguments.silent,
        warn: arguments.warn,
        use_stdin,
        show_usage: arguments.show_usage,
        output_directory,
        write_to_disk: arguments.write_to_disk,
        buffer_size,
    }
}

} // verus!
