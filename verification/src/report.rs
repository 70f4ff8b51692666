//! The supervisor's finish step: the spawn-failure messages, the color
//! environment overrides handed to the child, and — after the child exits —
//! the decision between a silent success and a failure replay: a banner with
//! the exit code, then the stderr history verbatim, or the stdout history
//! when stderr stayed empty.

use vstd::prelude::*;
use crate::chars::push_char;
use crate::history::StreamHistory;
use vstd::string::{StrSliceExecFns, StringExecFns};

verus! {

/// The decimal digit character for `d < 10`.
pub open spec fn digit_char(d: nat) -> char {
    ((48 + d) as u8) as char
}

/// The decimal digits of `n`, most significant first.
pub open spec fn dec_digits(n: nat) -> Seq<char>
    decreases n,
{
    if n < 10 {
        seq![digit_char(n)]
    } else {
        dec_digits(n / 10).push(digit_char(n % 10))
    }
}

/// The decimal rendering of a signed number.
pub open spec fn dec_of(n: int) -> Seq<char> {
    if n >= 0 {
        dec_digits(n as nat)
    } else {
        seq!['-'] + dec_digits((-n) as nat)
    }
}

fn format_u32(n: u32) -> (r: String)
    ensures
        r@ == dec_digits(n as nat),
    decreases n,
{
    if n < 10 {
        let mut s = String::new();
        let d: u8 = 48 + (n as u8);
        push_char(&mut s, d as char);
        proof {
            assert(s@ =~= seq![digit_char(n as nat)]);
        }
        s
    } else {
        let mut s = format_u32(n / 10);
        let d: u8 = 48 + ((n % 10) as u8);
        push_char(&mut s, d as char);
        s
    }
}

/// Renders a signed number in decimal.
pub fn format_i32(n: i32) -> (r: String)
    ensures
        r@ == dec_of(n as int),
{
    if n >= 0 {
        format_u32(n as u32)
    } else {
        let w: i64 = n as i64;
        let m: u32 = (-w) as u32;
        let mut s = String::new();
        push_char(&mut s, '-');
        let t = format_u32(m);
        s.append(t.as_str());
        proof {
            assert(Seq::<char>::empty().push('-') =~= seq!['-']);
        }
        s
    }
}

/// The exit code shown in the failure banner: the child's, or -1 when the
/// child was ended by a signal and has none.
pub open spec fn shown_code(code: Option<i32>) -> int {
    match code {
        Some(c) => c as int,
        None => -1,
    }
}

/// The failure banner announcing the child's exit code.
pub open spec fn banner_of(code: Option<i32>) -> Seq<char> {
    "Error: Command failed with exit code "@ + dec_of(shown_code(code))
}

/// Builds the failure banner.
pub fn failure_banner(code: Option<i32>) -> (r: String)
    ensures
        r@ == banner_of(code),
{
    let mut s = "Error: Command failed with exit code ".to_owned();
    let c: i32 = match code {
        Some(c) => c,
        None => -1,
    };
    let t = format_i32(c);
    s.append(t.as_str());
    s
}

/// What a failure replays: the stderr history, or the stdout history when
/// stderr stayed empty.
pub open spec fn replay_of(out_hist: Seq<Seq<char>>, err_hist: Seq<Seq<char>>) -> Seq<Seq<char>> {
    if err_hist.len() > 0 {
        err_hist
    } else {
        out_hist
    }
}

/// Everything the failure path prints to the error stream, in order: the
/// banner, the replay heading, then the replayed history verbatim.
pub open spec fn failure_lines_of(
    code: Option<i32>,
    out_hist: Seq<Seq<char>>,
    err_hist: Seq<Seq<char>>,
) -> Seq<Seq<char>> {
    seq![banner_of(code), "Error output:"@] + replay_of(out_hist, err_hist)
}

/// The process's own exit code on a failed run: the child's, or 1 when the
/// child has none.
pub open spec fn exit_code_of(code: Option<i32>) -> int {
    match code {
        Some(c) => c as int,
        None => 1,
    }
}

/// Everything the supervisor does once capturers and renderer are joined:
/// whether to emit the trailing newline, what to print to the error stream,
/// and the code to exit with.
pub struct RunReport {
    pub trailing_newline: bool,
    pub error_lines: Vec<String>,
    pub exit_code: i32,
}

/// Decides the run's ending. On success nothing is printed to the error
/// stream and the exit code is 0; on failure the banner, the heading and
/// the replayed history are printed in order, and the child's code (or 1
/// when it has none) is propagated. The trailing newline comes exactly when
/// the renderer printed something.
pub fn wrap_up(
    printed: bool,
    success: bool,
    code: Option<i32>,
    stdout_history: &StreamHistory,
    stderr_history: &StreamHistory,
) -> (r: RunReport)
    ensures
        r.trailing_newline == printed,
        success ==> r.error_lines@.len() == 0 && r.exit_code == 0,
        !success ==> r.error_lines.deep_view() == failure_lines_of(
            code,
            stdout_history@,
            stderr_history@,
        ),
        !success ==> r.exit_code as int == exit_code_of(code),
{
    if success {
        RunReport { trailing_newline: printed, error_lines: Vec::new(), exit_code: 0 }
    } else {
        let ghost replay = replay_of(stdout_history@, stderr_history@);
        let mut lines: Vec<String> = Vec::new();
        lines.push(failure_banner(code));
        lines.push("Error output:".to_owned());
        proof {
            assert(lines.deep_view() =~= seq![
                banner_of(code),
                "Error output:"@,
            ] + replay.take(0));
        }
        let source: &StreamHistory = if stderr_history.len() > 0 {
            stderr_history
        } else {
            stdout_history
        };
        let n = source.len();
        let mut i: usize = 0;
        while i < n
            invariant
                i <= n,
                n == source@.len(),
                source@ == replay,
                lines.deep_view() == seq![banner_of(code), "Error output:"@] + replay.take(
                    i as int,
                ),
            decreases n - i,
        {
            let line = source.line_at(i).clone();
            let ghost pre = lines.deep_view();
            lines.push(line);
            proof {
                assert(lines.deep_view() =~= pre.push(replay[i as int]));
                assert(replay.take(i as int + 1) =~= replay.take(i as int).push(
                    replay[i as int],
                ));
                assert(pre.push(replay[i as int]) =~= seq![
                    banner_of(code),
                    "Error output:"@,
                ] + replay.take(i as int + 1));
            }
            i = i + 1;
        }
        proof {
            assert(replay.take(n as int) =~= replay);
        }
        let ec: i32 = match code {
            Some(c) => c,
            None => 1,
        };
        RunReport { trailing_newline: printed, error_lines: lines, exit_code: ec }
    }
}

/// How a spawn failure is reported: a command that does not exist gets its
/// own message; any other operating-system failure gets a generic one with
/// the underlying detail.
#[derive(Clone, Copy, PartialEq, Eq, Structural, Debug)]
pub enum SpawnErrorKind {
    NotFound,
    Io,
    Other,
}

/// The user-facing message for each spawn failure.
pub open spec fn spawn_message_of(kind: SpawnErrorKind, command: Seq<char>, detail: Seq<char>) -> Seq<
    char,
> {
    match kind {
        SpawnErrorKind::NotFound => "Command not found: "@ + command,
        SpawnErrorKind::Io => "Error: "@ + detail,
        SpawnErrorKind::Other => "Error: Failed to start command: "@ + detail,
    }
}

/// Builds the spawn-failure message for the classified error.
pub fn spawn_failure_message(kind: SpawnErrorKind, command: &str, detail: &str) -> (r: String)
    ensures
        r@ == spawn_message_of(kind, command@, detail@),
{
    match kind {
        SpawnErrorKind::NotFound => {
            let mut s = "Command not found: ".to_owned();
            s.append(command);
            s
        },
        SpawnErrorKind::Io => {
            let mut s = "Error: ".to_owned();
            s.append(detail);
            s
        },
        SpawnErrorKind::Other => {
            let mut s = "Error: Failed to start command: ".to_owned();
            s.append(detail);
            s
        },
    }
}

/// The environment overrides that force colorized child output: a
/// 256-color-capable terminal type and two independent force-color values,
/// all set regardless of which one the child honors.
pub fn color_env_overrides() -> (r: Vec<(String, String)>)
    ensures
        r@.len() == 3,
        r@[0].0@ == "TERM"@ && r@[0].1@ == "xterm-256color"@,
        r@[1].0@ == "FORCE_COLOR"@ && r@[1].1@ == "1"@,
        r@[2].0@ == "CLICOLOR_FORCE"@ && r@[2].1@ == "1"@,
{
    let mut v: Vec<(String, String)> = Vec::new();
    v.push(("TERM".to_owned(), "xterm-256color".to_owned()));
    v.push(("FORCE_COLOR".to_owned(), "1".to_owned()));
    v.push(("CLICOLOR_FORCE".to_owned(), "1".to_owned()));
    v
}

} // verus!
