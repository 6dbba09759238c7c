//! Descriptions of external commands and the errors their execution can
//! produce. Building a command is pure; executing it is left to the binary
//! that embeds this library.

use vstd::prelude::*;
use vstd::utf8::{decode_utf8, valid_utf8};

use crate::text;

verus! {

/// Why executing a command failed. The embedding binary constructs these
/// from the outcome of the actual process invocation.
#[derive(Debug)]
pub enum Error {
    FailedToExecute(String),
    FailedToReadStdout(String),
    FailedToReadStderr(String),
    ExitFailure { stdout: String, stderr: String, exit_status: Option<i32> },
}

/// A command to execute: working directory, program, and arguments.
#[derive(Debug, Clone)]
pub struct Config {
    pub work_dir: String,
    pub cmd: String,
    pub args: Vec<String>,
}

/// The mathematical content of a command description.
#[verifier::ext_equal]
pub ghost struct ConfigView {
    pub work_dir: Seq<char>,
    pub cmd: Seq<char>,
    pub args: Seq<Seq<char>>,
}

impl View for Config {
    type V = ConfigView;

    open spec fn view(&self) -> ConfigView {
        ConfigView { work_dir: self.work_dir@, cmd: self.cmd@, args: self.args.deep_view() }
    }
}

/// Relies on `String::from_utf8`: decodes the bytes when they are valid
/// UTF-8, and reports the error's description otherwise.
#[verifier::external_body]
fn string_from_utf8(bytes: Vec<u8>) -> (r: Result<String, String>)
    ensures
        valid_utf8(bytes@) ==> (r is Ok && r->Ok_0@ == decode_utf8(bytes@)),
        !valid_utf8(bytes@) ==> (r is Err),
{
    String::from_utf8(bytes).map_err(|e| e.to_string())
}

/// What executing a command produced, reduced to the plain values the
/// library reads: whether the process exited successfully, its exit status
/// if any, and the raw output streams. The embedding binary fills this in
/// from the actual process invocation.
pub struct Output {
    pub success: bool,
    pub exit_status: Option<i32>,
    pub stdout: Vec<u8>,
    pub stderr: Vec<u8>,
}

impl Output {
    /// The command's standard output, decoded, when it exited successfully;
    /// otherwise the failure, carrying both decoded streams and the exit
    /// status. Output that is not valid UTF-8 is its own failure.
    pub fn read_stdout(self) -> (r: Result<String, Error>)
        ensures
            self.success && valid_utf8(self.stdout@) ==> (r matches Ok(s) && s@ == decode_utf8(
                self.stdout@,
            )),
            !valid_utf8(self.stdout@) ==> (r matches Err(e) && e is FailedToReadStdout),
            !self.success && valid_utf8(self.stdout@) && !valid_utf8(self.stderr@) ==> (r matches
                Err(e) && e is FailedToReadStderr),
            !self.success && valid_utf8(self.stdout@) && valid_utf8(self.stderr@) ==> (r matches
                Err(e) && e matches Error::ExitFailure { stdout, stderr, exit_status } && stdout@
                == decode_utf8(self.stdout@) && stderr@ == decode_utf8(self.stderr@) && exit_status
                == self.exit_status),
    {
        if self.success {
            match string_from_utf8(self.stdout) {
                Ok(s) => Ok(s),
                Err(msg) => Err(Error::FailedToReadStdout(msg)),
            }
        } else {
            let stdout = match string_from_utf8(self.stdout) {
                Ok(s) => s,
                Err(msg) => {
                    return Err(Error::FailedToReadStdout(msg));
                }
            };
            let stderr = match string_from_utf8(self.stderr) {
                Ok(s) => s,
                Err(msg) => {
                    return Err(Error::FailedToReadStderr(msg));
                }
            };
            Err(Error::ExitFailure { stdout, stderr, exit_status: self.exit_status })
        }
    }
}

/// Copies a slice of string literals into owned argument strings.
pub fn to_args(args: &[&str]) -> (r: Vec<String>)
    ensures
        r.deep_view().len() == args@.len(),
        forall|i: int| 0 <= i < args@.len() ==> r.deep_view()[i] == args@[i]@,
{
    let mut out: Vec<String> = Vec::new();
    let mut i: usize = 0;
    while i < args.len()
        invariant
            0 <= i <= args@.len(),
            out.deep_view().len() == i,
            forall|k: int| 0 <= k < i ==> out.deep_view()[k] == args@[k]@,
        decreases args@.len() - i,
    {
        let ghost dv0 = out.deep_view();
        out.push(args[i].to_owned());
        proof {
            assert(out.deep_view() =~= dv0.push(args@[i as int]@));
        }
        i += 1;
    }
    out
}

/// Splits a command line into its program and arguments on whitespace;
/// a line with no word yields nothing.
pub fn cmd_from_str(s: &str) -> (r: Option<(String, Vec<String>)>)
    ensures
        text::space_tokens_seq(s@).len() == 0 <==> r is None,
        r matches Some((cmd, args)) ==> cmd@ == text::space_tokens_seq(s@)[0]
            && args.deep_view() == text::space_tokens_seq(s@).drop_first(),
{
    let tokens = text::space_tokens(s);
    if tokens.len() == 0 {
        return None;
    }
    let cmd = tokens[0].clone();
    let mut args: Vec<String> = Vec::new();
    let mut i: usize = 1;
    while i < tokens.len()
        invariant
            1 <= i <= tokens@.len(),
            tokens.deep_view().len() == tokens@.len(),
            args.deep_view().len() == i - 1,
            forall|k: int| 0 <= k < i - 1 ==> args.deep_view()[k] == tokens.deep_view()[k + 1],
        decreases tokens@.len() - i,
    {
        let ghost dv0 = args.deep_view();
        args.push(tokens[i].clone());
        proof {
            assert(args.deep_view() =~= dv0.push(tokens.deep_view()[i as int]));
        }
        i += 1;
    }
    proof {
        assert(args.deep_view() =~= tokens.deep_view().drop_first());
        assert(cmd@ == tokens.deep_view()[0]);
    }
    Some((cmd, args))
}

} // verus!
