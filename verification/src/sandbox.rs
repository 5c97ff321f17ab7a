//! Reading a file inside a sandbox: the command that is run there and what its
//! outcome means.

use crate::base64_codec::{base64_char, base64_decoded, base64_len, decode};
use crate::error::{outcome, Error};
use crate::megabytes::{megabytes, push_megabytes, MEGABYTE};
use crate::numeral::{
    decimal, is_digit, law_decimal_is_digits, law_decimal_round_trip, parse_u64, parsed_u64, push_decimal,
    push_signed_decimal, signed_decimal,
};
use crate::shell::{law_quoting_is_read_back, shell_single_quote, shell_word, single_quoted};
use crate::text::{
    find_line_after_prefix, first_stripped, law_first_line_with_prefix_counts,
    law_nothing_is_found_without_prefix, lemma_single_line, lemma_trimmed_blanks, lemma_trimmed_ending,
    lines_of, trim, trimmed, white_space,
};
use vstd::prelude::*;

verus! {

/// The largest file that is read, in bytes.
pub const MAX_FILE_SIZE: u64 = 20 * 1024 * 1024;

/// The most output that is taken from a command in a sandbox, in bytes.
pub const MAX_SANDBOX_OUTPUT_BYTES: usize = 32 * 1024 * 1024;

/// How the command marks the line in which it reports the size of a file that is too large.
pub const SANDBOX_TOO_LARGE_PREFIX: &'static str = "__MOLTIS_READ_IMAGE_TOO_LARGE__:";

/// The text of the refusal of a file of the given size.
pub open spec fn too_large_text(size: nat) -> Seq<char> {
    "file is too large ("@ + megabytes(size) + " MB) — maximum is "@ + decimal(
        (MAX_FILE_SIZE / MEGABYTE) as nat,
    ) + " MB"@
}

/// The refusal of a file of the given size.
pub fn too_large(size: u64) -> (error: Error)
    ensures
        error@ == too_large_text(size as nat),
{
    let mut text = String::new();
    text.append("file is too large (");
    push_megabytes(&mut text, size);
    text.append(" MB) — maximum is ");
    push_decimal(&mut text, MAX_FILE_SIZE / MEGABYTE);
    text.append(" MB");
    assert(text@ =~= too_large_text(size as nat));
    Error::message(text)
}

/// What becomes of the bytes of a file: they are handed on, unless they are too many.
pub open spec fn within_limit(bytes: Seq<u8>) -> Result<Seq<u8>, Seq<char>> {
    if bytes.len() > MAX_FILE_SIZE {
        Err(too_large_text(bytes.len()))
    } else {
        Ok(bytes)
    }
}

/// Hands the bytes of a file on, unless they are too many.
pub fn check_limit(bytes: Vec<u8>) -> (result: Result<Vec<u8>, Error>)
    ensures
        outcome(result) == within_limit(bytes@),
{
    let size: u64 = bytes.len() as u64;
    if size > MAX_FILE_SIZE {
        Err(too_large(size))
    } else {
        Ok(bytes)
    }
}

/// How a command is run in a sandbox.
#[derive(Debug)]
pub struct ExecOpts {
    pub timeout_secs: u64,
    pub max_output_bytes: usize,
    pub working_dir: Option<String>,
    pub env: Vec<(String, String)>,
}

/// What a command in a sandbox left behind.
#[derive(Debug)]
pub struct ExecResult {
    pub exit_code: i32,
    pub stdout: String,
    pub stderr: String,
}

/// How the read command is run: for at most half a minute, from the sandbox's home
/// directory, with nothing added to its environment.
pub fn read_exec_opts() -> (opts: ExecOpts)
    ensures
        opts.timeout_secs == 30,
        opts.max_output_bytes == MAX_SANDBOX_OUTPUT_BYTES,
        opts.working_dir is Some,
        opts.working_dir->0@ == "/home/sandbox"@,
        opts.env@ == Seq::<(String, String)>::empty(),
{
    ExecOpts {
        timeout_secs: 30,
        max_output_bytes: MAX_SANDBOX_OUTPUT_BYTES,
        working_dir: Some("/home/sandbox".to_owned()),
        env: Vec::new(),
    }
}

/// The shell command that writes the base64 text of a file to its output. It exits
/// with 2 if there is no regular file at the path, and with 3, after reporting the
/// size, if the file is too large.
pub open spec fn read_command_text(path: Seq<char>) -> Seq<char> {
    let quoted = single_quoted(path);
    "if [ ! -f "@ + quoted + " ]; then echo \"path is not a regular file\" >&2; exit 2; fi; size=$(wc -c < "@
        + quoted + "); if [ \"$size\" -gt "@ + decimal(MAX_FILE_SIZE as nat) + " ]; then echo \""@
        + SANDBOX_TOO_LARGE_PREFIX@ + "$size\" >&2; exit 3; fi; base64 < "@ + quoted
        + " | tr -d '\\n'"@
}

/// The shell command that reads the file at a path.
pub fn read_command(path: &str) -> (command: String)
    ensures
        command@ == read_command_text(path@),
{
    let quoted = shell_single_quote(path);
    let mut command = String::new();
    command.append("if [ ! -f ");
    command.append(quoted.as_str());
    command.append(" ]; then echo \"path is not a regular file\" >&2; exit 2; fi; size=$(wc -c < ");
    command.append(quoted.as_str());
    command.append("); if [ \"$size\" -gt ");
    push_decimal(&mut command, MAX_FILE_SIZE);
    command.append(" ]; then echo \"");
    command.append(SANDBOX_TOO_LARGE_PREFIX);
    command.append("$size\" >&2; exit 3; fi; base64 < ");
    command.append(quoted.as_str());
    command.append(" | tr -d '\\n'");
    assert(command@ =~= read_command_text(path@));
    command
}

/// The size that the command reported for a file that is too large: the number in
/// the first marked line, if there is such a line and it holds a number.
pub open spec fn reported_size(stderr: Seq<char>) -> Option<u64> {
    match first_stripped(lines_of(stderr), SANDBOX_TOO_LARGE_PREFIX@) {
        Some(rest) => parsed_u64(trimmed(rest)),
        None => None,
    }
}

/// The words for a failed command: what it wrote to standard error, else what it
/// wrote to standard output, else its exit code.
pub open spec fn failure_detail(exit_code: i32, stdout: Seq<char>, stderr: Seq<char>) -> Seq<char> {
    if trimmed(stderr).len() > 0 {
        trimmed(stderr)
    } else if trimmed(stdout).len() > 0 {
        trimmed(stdout)
    } else {
        "sandbox command failed with exit code "@ + signed_decimal(exit_code as int)
    }
}

/// The text of the error for a read command that failed.
pub open spec fn failure_text(
    path: Seq<char>,
    exit_code: i32,
    stdout: Seq<char>,
    stderr: Seq<char>,
) -> Seq<char> {
    match reported_size(stderr) {
        Some(size) => too_large_text(size as nat),
        None => "cannot access '"@ + path + "' in sandbox: "@ + failure_detail(
            exit_code,
            stdout,
            stderr,
        ),
    }
}

/// The error for a read command that failed.
pub fn read_failure(path: &str, result: &ExecResult) -> (error: Error)
    ensures
        error@ == failure_text(path@, result.exit_code, result.stdout@, result.stderr@),
{
    if let Some(rest) = find_line_after_prefix(result.stderr.as_str(), SANDBOX_TOO_LARGE_PREFIX) {
        if let Some(size) = parse_u64(trim(rest.as_str())) {
            return too_large(size);
        }
    }
    let mut text = String::new();
    text.append("cannot access '");
    text.append(path);
    text.append("' in sandbox: ");
    let stderr = trim(result.stderr.as_str());
    let stdout = trim(result.stdout.as_str());
    if !stderr.is_empty() {
        text.append(stderr);
    } else if !stdout.is_empty() {
        text.append(stdout);
    } else {
        text.append("sandbox command failed with exit code ");
        push_signed_decimal(&mut text, result.exit_code);
    }
    assert(text@ =~= failure_text(path@, result.exit_code, result.stdout@, result.stderr@));
    Error::message(text)
}

/// What becomes of the decoded output of a read command.
pub open spec fn decoded_outcome(path: Seq<char>, decoded: Result<Seq<u8>, Seq<char>>) -> Result<
    Seq<u8>,
    Seq<char>,
> {
    match decoded {
        Ok(bytes) => within_limit(bytes),
        Err(reason) => Err("failed to decode sandbox file '"@ + path + "': "@ + reason),
    }
}

/// Takes the decoded output of a read command as the bytes of the file.
pub fn accept_decoded(path: &str, decoded: Result<Vec<u8>, String>) -> (result: Result<
    Vec<u8>,
    Error,
>)
    ensures
        outcome(result) == decoded_outcome(
            path@,
            match decoded {
                Ok(bytes) => Ok(bytes@),
                Err(reason) => Err(reason@),
            },
        ),
{
    match decoded {
        Ok(bytes) => check_limit(bytes),
        Err(reason) => {
            let mut text = String::new();
            text.append("failed to decode sandbox file '");
            text.append(path);
            text.append("': ");
            text.append(reason.as_str());
            assert(text@ =~= "failed to decode sandbox file '"@ + path@ + "': "@ + reason@);
            Err(Error::message(text))
        },
    }
}

/// What the outcome of the read command means for the file at a path.
pub open spec fn read_outcome(
    path: Seq<char>,
    exit_code: i32,
    stdout: Seq<char>,
    stderr: Seq<char>,
) -> Result<Seq<u8>, Seq<char>> {
    if exit_code != 0 {
        Err(failure_text(path, exit_code, stdout, stderr))
    } else {
        decoded_outcome(path, base64_decoded(trimmed(stdout)))
    }
}

/// Takes the outcome of the read command as the bytes of the file, or as an error.
pub fn finish_read(path: &str, result: &ExecResult) -> (bytes: Result<Vec<u8>, Error>)
    ensures
        outcome(bytes) == read_outcome(path@, result.exit_code, result.stdout@, result.stderr@),
{
    if result.exit_code != 0 {
        Err(read_failure(path, result))
    } else {
        accept_decoded(path, decode(trim(result.stdout.as_str())))
    }
}

/// A command that failed never yields bytes, and one that succeeded yields at most
/// as many as the limit.
pub proof fn law_read_outcome_is_bounded(
    path: Seq<char>,
    exit_code: i32,
    stdout: Seq<char>,
    stderr: Seq<char>,
)
    ensures
        read_outcome(path, exit_code, stdout, stderr) matches Ok(bytes) ==> exit_code == 0
            && bytes.len() <= MAX_FILE_SIZE,
{
}

/// The base64 text of a file within the limit fits in the output that is taken
/// from the command.
pub proof fn law_output_of_allowed_file_fits(size: nat)
    requires
        size <= MAX_FILE_SIZE,
    ensures
        base64_len(size) <= MAX_SANDBOX_OUTPUT_BYTES,
{
}

/// When the command prints the base64 text of a file within the limit and succeeds,
/// the bytes of the file come back, whether or not a line ending follows the text
/// and whatever stands on standard error.
pub proof fn law_file_is_read_back(
    path: Seq<char>,
    bytes: Seq<u8>,
    text: Seq<char>,
    ending: Seq<char>,
    stderr: Seq<char>,
)
    requires
        bytes.len() <= MAX_FILE_SIZE,
        base64_decoded(text) == Ok::<Seq<u8>, Seq<char>>(bytes),
        forall|i: int| 0 <= i < text.len() ==> base64_char(#[trigger] text[i]),
        forall|i: int| 0 <= i < ending.len() ==> white_space(#[trigger] ending[i]),
    ensures
        read_outcome(path, 0, text + ending, stderr) == Ok::<Seq<u8>, Seq<char>>(bytes),
{
    lemma_trimmed_ending(text, ending);
}

/// When the command reports a file as too large, the refusal names the reported
/// size, also where the size stands behind blanks, as some systems print it.
pub proof fn law_reported_size_is_recognised(
    path: Seq<char>,
    exit_code: i32,
    stdout: Seq<char>,
    blanks: Seq<char>,
    size: u64,
)
    requires
        exit_code != 0,
        forall|i: int| 0 <= i < blanks.len() ==> #[trigger] blanks[i] == ' ',
    ensures
        read_outcome(
            path,
            exit_code,
            stdout,
            SANDBOX_TOO_LARGE_PREFIX@ + blanks + decimal(size as nat) + seq!['\n'],
        ) == Err::<Seq<u8>, Seq<char>>(too_large_text(size as nat)),
{
    reveal_strlit("__MOLTIS_READ_IMAGE_TOO_LARGE__:");
    let number = decimal(size as nat);
    let rest = blanks + number;
    let prefix = SANDBOX_TOO_LARGE_PREFIX@;
    let line = prefix + rest;
    let stderr = prefix + blanks + number + seq!['\n'];
    law_decimal_is_digits(size as nat);
    law_decimal_round_trip(size);
    assert(stderr =~= line + seq!['\n']);
    assert forall|i: int| 0 <= i < line.len() implies #[trigger] line[i] != '\n' && line[i] != '\r' by {
        if i < prefix.len() {
            assert(line[i] == prefix[i]);
        } else if i < prefix.len() + blanks.len() {
            assert(line[i] == blanks[i - prefix.len()]);
        } else {
            assert(line[i] == number[i - prefix.len() - blanks.len()]);
        }
    }
    lemma_single_line(line);
    assert(lines_of(stderr).first() == line);
    assert(prefix.is_prefix_of(line));
    assert(line.skip(prefix.len() as int) =~= rest);
    assert(is_digit(number[0]) && is_digit(number[number.len() - 1]));
    lemma_trimmed_blanks(blanks, number);
    assert(reported_size(stderr) == Some(size));
}

/// The read command is one fixed text with one word in three places, and the shell
/// reads that word as the path: the file that is printed is the file that was
/// tested and measured, and it is the file that was asked for.
pub proof fn law_command_reads_the_requested_file(path: Seq<char>)
    ensures
        exists|word: Seq<char>|
            {
                &&& #[trigger] shell_word(word, false) == Some(path)
                &&& read_command_text(path) == "if [ ! -f "@ + word
                    + " ]; then echo \"path is not a regular file\" >&2; exit 2; fi; size=$(wc -c < "@
                    + word + "); if [ \"$size\" -gt "@ + "20971520"@ + " ]; then echo \""@
                    + "__MOLTIS_READ_IMAGE_TOO_LARGE__:"@ + "$size\" >&2; exit 3; fi; base64 < "@ + word
                    + " | tr -d '\\n'"@
            },
{
    let word = single_quoted(path);
    law_quoting_is_read_back(path);
    lemma_decimal_limit();
    assert(shell_word(word, false) == Some(path));
}

proof fn lemma_decimal_limit()
    ensures
        decimal(MAX_FILE_SIZE as nat) == "20971520"@,
{
    reveal_strlit("20971520");
    reveal_with_fuel(decimal, 8);
    assert(decimal(20971520) =~= "20971520"@);
}

/// The refusal of a file names its size in megabytes and the limit of 20 MB.
pub proof fn law_refusal_names_size_and_limit(size: nat)
    ensures
        too_large_text(size) == "file is too large ("@ + megabytes(size) + " MB) — maximum is "@
            + "20"@ + " MB"@,
{
    reveal_strlit("20");
    reveal_with_fuel(decimal, 2);
    assert(decimal(20) =~= "20"@);
}

/// Bytes are handed on as they are up to 20 MB, and from there on they are refused
/// with their number.
pub proof fn law_limit_is_twenty_megabytes(bytes: Seq<u8>)
    ensures
        bytes.len() <= 20 * 1048576 ==> within_limit(bytes) == Ok::<Seq<u8>, Seq<char>>(bytes),
        bytes.len() > 20 * 1048576 ==> within_limit(bytes) == Err::<Seq<u8>, Seq<char>>(
            too_large_text(bytes.len()),
        ),
{
}

/// The size that a failed command reported stands in the first line of its standard
/// error that begins with the mark, wherever that line stands.
pub proof fn law_size_stands_in_the_first_marked_line(stderr: Seq<char>, at: int, rest: Seq<char>)
    requires
        0 <= at < lines_of(stderr).len(),
        lines_of(stderr)[at] == "__MOLTIS_READ_IMAGE_TOO_LARGE__:"@ + rest,
        forall|i: int|
            0 <= i < at ==> !"__MOLTIS_READ_IMAGE_TOO_LARGE__:"@.is_prefix_of(
                #[trigger] lines_of(stderr)[i],
            ),
    ensures
        reported_size(stderr) == parsed_u64(trimmed(rest)),
{
    law_first_line_with_prefix_counts(lines_of(stderr), SANDBOX_TOO_LARGE_PREFIX@, at, rest);
}

/// Without a marked line no size is reported.
pub proof fn law_no_size_without_mark(stderr: Seq<char>)
    requires
        forall|i: int|
            0 <= i < lines_of(stderr).len() ==> !"__MOLTIS_READ_IMAGE_TOO_LARGE__:"@.is_prefix_of(
                #[trigger] lines_of(stderr)[i],
            ),
    ensures
        reported_size(stderr) is None,
{
    law_nothing_is_found_without_prefix(lines_of(stderr), SANDBOX_TOO_LARGE_PREFIX@);
}

/// A command that failed ends the read with an error. A reported size refuses the
/// file as too large. Otherwise the error names the path and says what stands on
/// standard error, else what stands on standard output, else the exit code.
pub proof fn law_failed_command_is_explained(
    path: Seq<char>,
    exit_code: i32,
    stdout: Seq<char>,
    stderr: Seq<char>,
)
    requires
        exit_code != 0,
    ensures
        ({
            let head = "cannot access '"@ + path + "' in sandbox: "@;
            let error = read_outcome(path, exit_code, stdout, stderr);
            &&& reported_size(stderr) matches Some(size) ==> error == Err::<Seq<u8>, Seq<char>>(
                too_large_text(size as nat),
            )
            &&& reported_size(stderr) is None && trimmed(stderr) != Seq::<char>::empty() ==> error
                == Err::<Seq<u8>, Seq<char>>(head + trimmed(stderr))
            &&& reported_size(stderr) is None && trimmed(stderr) == Seq::<char>::empty()
                && trimmed(stdout) != Seq::<char>::empty() ==> error == Err::<Seq<u8>, Seq<char>>(
                head + trimmed(stdout),
            )
            &&& reported_size(stderr) is None && trimmed(stderr) == Seq::<char>::empty()
                && trimmed(stdout) == Seq::<char>::empty() ==> error == Err::<Seq<u8>, Seq<char>>(
                head + ("sandbox command failed with exit code "@ + signed_decimal(exit_code as int)),
            )
        }),
{
    if trimmed(stderr).len() == 0 {
        assert(trimmed(stderr) =~= Seq::<char>::empty());
    }
    if trimmed(stdout).len() == 0 {
        assert(trimmed(stdout) =~= Seq::<char>::empty());
    }
}

/// A command that succeeded ends the read with what its trimmed output decodes to,
/// whatever stands on standard error, unless that is more than 20 MB. Output that
/// does not decode is an error that names the path and the reason.
pub proof fn law_output_of_command_is_decoded(path: Seq<char>, stdout: Seq<char>, stderr: Seq<char>)
    ensures
        match base64_decoded(trimmed(stdout)) {
            Ok(bytes) => if bytes.len() <= 20 * 1048576 {
                read_outcome(path, 0, stdout, stderr) == Ok::<Seq<u8>, Seq<char>>(bytes)
            } else {
                read_outcome(path, 0, stdout, stderr) == Err::<Seq<u8>, Seq<char>>(
                    too_large_text(bytes.len()),
                )
            },
            Err(reason) => read_outcome(path, 0, stdout, stderr) == Err::<Seq<u8>, Seq<char>>(
                "failed to decode sandbox file '"@ + path + "': "@ + reason,
            ),
        },
{
}


} // verus!
