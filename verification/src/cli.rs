//! The command line, once parsed, and the job that it asks for. Paths are
//! the bytes that the platform gave.

use vstd::prelude::*;
use vstd::string::StringExecFns;
use crate::entry::PackOptions;

verus! {

/// The parsed command line.
#[derive(Debug, Clone, PartialEq, Eq)]
pub struct Cli {
    pub command: Commands,
}

/// The two subcommands with their arguments.
#[derive(Debug, Clone, PartialEq, Eq)]
pub enum Commands {
    /// Compress a directory into an archive.
    Pack {
        /// Input directory.
        input: Vec<u8>,
        /// Output file; by default the directory's name with `.tar.zst`.
        output: Option<Vec<u8>>,
        /// Compression level.
        level: i32,
        /// Number of threads; by default the number of processors.
        threads: Option<u32>,
        /// Switches long-distance matching off.
        no_long: bool,
        /// Skips entries that cannot be read instead of failing.
        ignore_failed_read: bool,
    },
    /// Restore a directory tree from an archive.
    Unpack {
        /// Input archive.
        input: Vec<u8>,
        /// Output directory; by default the current one.
        output: Option<Vec<u8>>,
        /// Number of threads; by default the number of processors.
        threads: Option<u32>,
    },
}

/// What the program is to do, every default filled in.
#[derive(Debug, Clone, PartialEq, Eq)]
pub enum Job {
    Pack { input: Vec<u8>, output: Vec<u8>, options: PackOptions },
    Unpack { input: Vec<u8>, output: Vec<u8>, threads: u32 },
}

/// Why a command line names no job.
#[derive(Debug, Clone, Copy, PartialEq, Eq, Structural)]
pub enum CliError {
    /// No output was given and the input path has no last name to derive
    /// one from.
    InvalidInputPath,
}

/// The compression level used where none is given.
pub const DEFAULT_LEVEL: i32 = 3;

pub open spec fn spec_thread_count(requested: Option<u32>, cpus: usize) -> u32 {
    match requested {
        Some(n) => n,
        None => if cpus > u32::MAX {
            u32::MAX
        } else {
            cpus as u32
        },
    }
}

/// The number of threads: the one asked for, else the number of
/// processors, cut to what 32 bits hold.
pub fn thread_count(requested: Option<u32>, cpus: usize) -> (threads: u32)
    ensures
        threads == spec_thread_count(requested, cpus),
{
    match requested {
        Some(n) => n,
        None => if cpus > 0xffff_ffff {
            0xffff_ffff
        } else {
            cpus as u32
        },
    }
}

/// The ending `.tar.zst` of a default archive name.
pub open spec fn spec_archive_suffix() -> Seq<u8> {
    seq![0x2eu8, 0x74, 0x61, 0x72, 0x2e, 0x7a, 0x73, 0x74]
}

/// The path `.`, the default output of unpack.
pub open spec fn spec_current_dir() -> Seq<u8> {
    seq![0x2eu8]
}

/// The default archive name for a directory called `name`: the name with
/// `.tar.zst` behind it.
pub fn default_output(name: Vec<u8>) -> (output: Vec<u8>)
    ensures
        output@ == name@ + spec_archive_suffix(),
{
    let mut output = name;
    let mut suffix: Vec<u8> = vec![0x2eu8, 0x74, 0x61, 0x72, 0x2e, 0x7a, 0x73, 0x74];
    output.append(&mut suffix);
    output
}

/// A job as mathematics.
pub enum JobView {
    Pack { input: Seq<u8>, output: Seq<u8>, options: PackOptions },
    Unpack { input: Seq<u8>, output: Seq<u8>, threads: u32 },
}

impl View for Job {
    type V = JobView;

    open spec fn view(&self) -> JobView {
        match *self {
            Job::Pack { input, output, options } => JobView::Pack {
                input: input@,
                output: output@,
                options,
            },
            Job::Unpack { input, output, threads } => JobView::Unpack {
                input: input@,
                output: output@,
                threads,
            },
        }
    }
}

pub open spec fn spec_plan_job(cli: Cli, input_name: Option<Vec<u8>>, cpus: usize) -> Result<
    JobView,
    CliError,
> {
    match cli.command {
        Commands::Pack { input, output, level, threads, no_long, ignore_failed_read } => {
            let options = PackOptions {
                level,
                threads: spec_thread_count(threads, cpus),
                long_distance: !no_long,
                ignore_errors: ignore_failed_read,
            };
            match (output, input_name) {
                (Some(path), _) => Ok(JobView::Pack { input: input@, output: path@, options }),
                (None, Some(name)) => Ok(
                    JobView::Pack { input: input@, output: name@ + spec_archive_suffix(), options },
                ),
                (None, None) => Err(CliError::InvalidInputPath),
            }
        },
        Commands::Unpack { input, output, threads } => Ok(
            JobView::Unpack {
                input: input@,
                output: match output {
                    Some(path) => path@,
                    None => spec_current_dir(),
                },
                threads: spec_thread_count(threads, cpus),
            },
        ),
    }
}

/// Fills in the defaults of a command line. `input_name` is the last name
/// of the input path, where it has one, and `cpus` the number of
/// processors.
///
/// Pack writes to the given output, else to the input's name with
/// `.tar.zst`, and fails where there is neither. Long-distance matching is
/// on unless switched off. Unpack writes to the given output, else to `.`.
/// The thread count defaults to the number of processors.
pub fn plan_job(cli: Cli, input_name: Option<Vec<u8>>, cpus: usize) -> (job: Result<Job, CliError>)
    ensures
        match spec_plan_job(cli, input_name, cpus) {
            Ok(planned) => job is Ok && job->Ok_0@ == planned,
            Err(error) => job == Err::<Job, CliError>(error),
        },
{
    match cli.command {
        Commands::Pack { input, output, level, threads, no_long, ignore_failed_read } => {
            let options = PackOptions {
                level,
                threads: thread_count(threads, cpus),
                long_distance: !no_long,
                ignore_errors: ignore_failed_read,
            };
            let output = match output {
                Some(path) => path,
                None => match input_name {
                    Some(name) => default_output(name),
                    None => {
                        return Err(CliError::InvalidInputPath);
                    },
                },
            };
            Ok(Job::Pack { input, output, options })
        },
        Commands::Unpack { input, output, threads } => {
            let output = match output {
                Some(path) => path,
                None => {
                    let here: Vec<u8> = vec![0x2eu8];
                    assert(here@ =~= spec_current_dir());
                    here
                },
            };
            Ok(Job::Unpack { input, output, threads: thread_count(threads, cpus) })
        },
    }
}

/// What a directory picker shows of a folder.
#[derive(Debug, Clone, PartialEq, Eq)]
pub struct FolderInfo {
    pub name: String,
    pub path: String,
    /// The size for display.
    pub size: String,
    pub size_bytes: u64,
}

impl FolderInfo {
    /// Describes a folder; one without a last name is called `Unknown`.
    pub fn new(name: Option<String>, path: String, size: String, size_bytes: u64) -> (info: Self)
        ensures
            info.name@ == match name {
                Some(given) => given@,
                None => "Unknown"@,
            },
            info.path == path,
            info.size == size,
            info.size_bytes == size_bytes,
    {
        let name = match name {
            Some(given) => given,
            None => "Unknown".to_owned(),
        };
        FolderInfo { name, path, size, size_bytes }
    }
}

/// The character of one decimal digit.
pub open spec fn spec_digit(d: nat) -> char
    recommends
        d < 10,
{
    ((d + 0x30) as u8) as char
}

/// A number in decimal digits, without leading zeros.
pub open spec fn spec_decimal(n: nat) -> Seq<char>
    decreases n,
{
    if n < 10 {
        seq![spec_digit(n)]
    } else {
        spec_decimal(n / 10).push(spec_digit(n % 10))
    }
}

fn digit_text(d: u32) -> (text: &'static str)
    requires
        d < 10,
    ensures
        text@ == seq![spec_digit(d as nat)],
{
    proof {
        reveal_strlit("0");
        reveal_strlit("1");
        reveal_strlit("2");
        reveal_strlit("3");
        reveal_strlit("4");
        reveal_strlit("5");
        reveal_strlit("6");
        reveal_strlit("7");
        reveal_strlit("8");
        reveal_strlit("9");
    }
    let text = match d {
        0 => "0",
        1 => "1",
        2 => "2",
        3 => "3",
        4 => "4",
        5 => "5",
        6 => "6",
        7 => "7",
        8 => "8",
        _ => "9",
    };
    assert(text@ =~= seq![spec_digit(d as nat)]);
    text
}

/// Writes a number in decimal digits.
pub fn decimal(n: u32) -> (text: String)
    ensures
        text@ == spec_decimal(n as nat),
    decreases n,
{
    if n < 10 {
        digit_text(n).to_owned()
    } else {
        let front = decimal(n / 10);
        let text = front.concat(digit_text(n % 10));
        assert(text@ =~= spec_decimal((n / 10) as nat).push(spec_digit((n % 10) as nat)));
        text
    }
}

/// The words of a list of arguments, as mathematics.
pub open spec fn words(args: Seq<String>) -> Seq<Seq<char>> {
    Seq::new(args.len(), |i: int| args[i]@)
}

pub open spec fn spec_option(flag: Seq<char>, value: Option<u32>) -> Seq<Seq<char>> {
    match value {
        Some(n) => seq![flag, spec_decimal(n as nat)],
        None => Seq::empty(),
    }
}

pub open spec fn spec_switch(flag: Seq<char>, on: Option<bool>) -> Seq<Seq<char>> {
    if on == Some(true) {
        seq![flag]
    } else {
        Seq::empty()
    }
}

/// The command line that packs `source` into `output`.
pub open spec fn spec_pack_args(
    source: Seq<char>,
    output: Seq<char>,
    level: Option<u32>,
    threads: Option<u32>,
    ignore_failed_read: Option<bool>,
    no_long: Option<bool>,
) -> Seq<Seq<char>> {
    seq!["pack"@, source, "-o"@, output] + spec_option("--level"@, level) + spec_option(
        "--threads"@,
        threads,
    ) + spec_switch("--ignore-failed-read"@, ignore_failed_read) + spec_switch(
        "--no-long"@,
        no_long,
    )
}

/// The command line that unpacks `archive` into `output`.
pub open spec fn spec_unpack_args(archive: Seq<char>, output: Seq<char>, threads: Option<u32>) -> Seq<
    Seq<char>,
> {
    seq!["unpack"@, archive, "-o"@, output] + spec_option("--threads"@, threads)
}

fn push_word(args: &mut Vec<String>, word: String)
    ensures
        words(final(args)@) == words(old(args)@).push(word@),
{
    args.push(word);
    assert(words(args@) =~= words(old(args)@).push(word@));
}

fn push_option(args: &mut Vec<String>, flag: &str, value: Option<u32>)
    ensures
        words(final(args)@) == words(old(args)@) + spec_option(flag@, value),
{
    match value {
        Some(n) => {
            push_word(args, flag.to_owned());
            push_word(args, decimal(n));
            assert(words(args@) =~= words(old(args)@) + spec_option(flag@, value));
        },
        None => {
            assert(words(args@) =~= words(old(args)@) + spec_option(flag@, value));
        },
    }
}

fn push_switch(args: &mut Vec<String>, flag: &str, on: Option<bool>)
    ensures
        words(final(args)@) == words(old(args)@) + spec_switch(flag@, on),
{
    match on {
        Some(true) => {
            push_word(args, flag.to_owned());
            assert(words(args@) =~= words(old(args)@) + spec_switch(flag@, on));
        },
        _ => {
            assert(words(args@) =~= words(old(args)@) + spec_switch(flag@, on));
        },
    }
}

fn first_words(command: &str, input: String, output: String) -> (args: Vec<String>)
    ensures
        words(args@) == seq![command@, input@, "-o"@, output@],
{
    let mut args: Vec<String> = Vec::new();
    assert(words(args@) =~= Seq::empty());
    push_word(&mut args, command.to_owned());
    push_word(&mut args, input);
    push_word(&mut args, "-o".to_owned());
    push_word(&mut args, output);
    assert(words(args@) =~= seq![command@, input@, "-o"@, output@]);
    args
}

/// Builds the arguments with which a front end asks for a pack run: the
/// subcommand, the source, `-o` and the output, then level and thread count
/// where they are given, and the two switches where they are on.
pub fn pack_args(
    source: String,
    output: String,
    level: Option<u32>,
    threads: Option<u32>,
    ignore_failed_read: Option<bool>,
    no_long: Option<bool>,
) -> (args: Vec<String>)
    ensures
        words(args@) == spec_pack_args(
            source@,
            output@,
            level,
            threads,
            ignore_failed_read,
            no_long,
        ),
{
    let mut args = first_words("pack", source, output);
    push_option(&mut args, "--level", level);
    push_option(&mut args, "--threads", threads);
    push_switch(&mut args, "--ignore-failed-read", ignore_failed_read);
    push_switch(&mut args, "--no-long", no_long);
    args
}

/// Builds the arguments with which a front end asks for an unpack run: the
/// subcommand, the archive, `-o` and the output, then the thread count
/// where it is given.
pub fn unpack_args(archive: String, output: String, threads: Option<u32>) -> (args: Vec<String>)
    ensures
        words(args@) == spec_unpack_args(archive@, output@, threads),
{
    let mut args = first_words("unpack", archive, output);
    push_option(&mut args, "--threads", threads);
    args
}

} // verus!
