//! The decisions around the commands that scripts run: how the output of a
//! finished command is shaped, how waiting on a background command's output
//! proceeds, how its output is pumped, and which failures to stop a process
//! group are fatal.

use vstd::prelude::*;
use vstd::utf8::{decode_utf8, valid_utf8};

use crate::text::{append_chars, from_chars, to_chars, trim_end, trim_end_chars};

verus! {

/// The text that bytes spell as UTF-8, or the empty text where they are not
/// UTF-8.
pub open spec fn utf8_or_empty(b: Seq<u8>) -> Seq<char> {
    if valid_utf8(b) {
        decode_utf8(b)
    } else {
        Seq::empty()
    }
}

/// What `String::from_utf8_lossy` gives for bytes: their text, with each
/// invalid sequence replaced by U+FFFD.
pub uninterp spec fn utf8_lossy(b: Seq<u8>) -> Seq<char>;

/// Calls `String::from_utf8`: the text where the bytes are UTF-8, else nothing.
#[verifier::external_body]
fn string_from_utf8(bytes: Vec<u8>) -> (r: Option<String>)
    ensures
        r is Some <==> valid_utf8(bytes@),
        r matches Some(s) ==> s@ == decode_utf8(bytes@),
{
    String::from_utf8(bytes).ok()
}

/// Calls `String::from_utf8_lossy`; the result is named `utf8_lossy`.
#[verifier::external_body]
fn string_from_utf8_lossy(bytes: &Vec<u8>) -> (r: String)
    ensures
        r@ == utf8_lossy(bytes@),
{
    String::from_utf8_lossy(bytes).into_owned()
}

/// The text of bytes, or the empty text where they are not UTF-8.
pub fn utf8_text_or_empty(bytes: Vec<u8>) -> (r: String)
    ensures
        r@ == utf8_or_empty(bytes@),
{
    match string_from_utf8(bytes) {
        Some(s) => s,
        None => String::new(),
    }
}

/// A copy of bytes.
fn copy_bytes(v: &Vec<u8>) -> (r: Vec<u8>)
    ensures
        r@ == v@,
{
    let mut r: Vec<u8> = Vec::new();
    let n = v.len();
    let mut i: usize = 0;
    while i < n
        invariant
            n == v.len(),
            i <= n,
            r@ == v@.take(i as int),
        decreases n - i,
    {
        r.push(v[i]);
        i = i + 1;
        assert(r@ =~= v@.take(i as int));
    }
    assert(v@.take(n as int) =~= v@);
    r
}

/// Appends bytes to bytes.
fn append_bytes(v: &mut Vec<u8>, w: &Vec<u8>)
    ensures
        final(v)@ == old(v)@ + w@,
{
    let n = w.len();
    let mut i: usize = 0;
    while i < n
        invariant
            n == w.len(),
            i <= n,
            v@ == old(v)@ + w@.take(i as int),
        decreases n - i,
    {
        v.push(w[i]);
        i = i + 1;
        assert(v@ =~= old(v)@ + w@.take(i as int));
    }
    assert(w@.take(n as int) =~= w@);
}

/// The output of a background command that the wait ended on: the text of
/// each stream, or the empty text where it is not UTF-8.
pub fn to_exec_bg_result(stdout: Vec<u8>, stderr: Vec<u8>) -> (r: (Option<String>, Option<String>))
    ensures
        r.0 matches Some(o) && o@ == utf8_or_empty(stdout@),
        r.1 matches Some(e) && e@ == utf8_or_empty(stderr@),
{
    (Some(utf8_text_or_empty(stdout)), Some(utf8_text_or_empty(stderr)))
}

/// What a finished command gave: its two output streams and its exit code
/// (none when a signal ended it).
#[derive(Debug)]
pub struct CommandOutput {
    pub stdout: Vec<u8>,
    pub stderr: Vec<u8>,
    pub status: Option<i32>,
}

/// What `exec` hands back to the script.
#[derive(Debug)]
pub struct ExecResult {
    pub stdout: Option<String>,
    pub stderr: Option<String>,
    pub error: Option<String>,
    pub status: Option<i32>,
}

/// The result of `exec` for a command that ran or could not be run: the
/// streams' text without trailing white space (empty where not UTF-8) and the
/// exit code; or, for a command that could not be run, empty streams and the
/// error's message.
pub fn exec_result(output: Result<CommandOutput, String>) -> (r: ExecResult)
    ensures
        match output {
            Ok(out) => {
                &&& r.stdout matches Some(o) && o@ == trim_end(utf8_or_empty(out.stdout@))
                &&& r.stderr matches Some(e) && e@ == trim_end(utf8_or_empty(out.stderr@))
                &&& r.error is None
                &&& r.status == out.status
            },
            Err(msg) => {
                &&& r.stdout matches Some(o) && o@.len() == 0
                &&& r.stderr matches Some(e) && e@.len() == 0
                &&& r.error matches Some(m) && m@ == msg@
                &&& r.status is None
            },
        },
{
    match output {
        Err(msg) => ExecResult {
            stdout: Some(String::new()),
            stderr: Some(String::new()),
            error: Some(msg),
            status: None,
        },
        Ok(out) => {
            let status = out.status;
            let stdout = utf8_text_or_empty(out.stdout);
            let stderr = utf8_text_or_empty(out.stderr);
            let stdout = from_chars(&trim_end_chars(&to_chars(stdout.as_str())));
            let stderr = from_chars(&trim_end_chars(&to_chars(stderr.as_str())));
            ExecResult { stdout: Some(stdout), stderr: Some(stderr), error: None, status }
        },
    }
}

/// A piece of a background command's output.
#[derive(Debug)]
pub enum ProcessOutput {
    Stdout(Vec<u8>),
    Stderr(Vec<u8>),
}

/// What a wait for output received in one poll.
#[derive(Debug)]
pub enum Received {
    Output(ProcessOutput),
    /// Reading a stream failed, with this message.
    ReadFailed(String),
    /// Nothing arrived within the poll interval.
    NothingYet,
    /// Both streams ended.
    Closed,
}

/// Why waiting for a background command's output ended without success.
#[derive(Debug)]
pub enum WaitProcessError<E> {
    IoError(String),
    /// The script's wait function failed.
    LuaError(E),
    TimedOut { stdout: Vec<u8>, stderr: Vec<u8> },
}

/// The standard output that one poll brought.
pub open spec fn stdout_part(received: Received) -> Seq<u8> {
    match received {
        Received::Output(ProcessOutput::Stdout(chunk)) => chunk@,
        _ => Seq::empty(),
    }
}

/// The standard error that one poll brought.
pub open spec fn stderr_part(received: Received) -> Seq<u8> {
    match received {
        Received::Output(ProcessOutput::Stderr(chunk)) => chunk@,
        _ => Seq::empty(),
    }
}

/// The standard output that a sequence of polls brought, in order.
pub open spec fn stdout_received(polls: Seq<Received>) -> Seq<u8>
    decreases polls.len(),
{
    if polls.len() == 0 {
        Seq::empty()
    } else {
        stdout_received(polls.drop_last()) + stdout_part(polls.last())
    }
}

/// The standard error that a sequence of polls brought, in order.
pub open spec fn stderr_received(polls: Seq<Received>) -> Seq<u8>
    decreases polls.len(),
{
    if polls.len() == 0 {
        Seq::empty()
    } else {
        stderr_received(polls.drop_last()) + stderr_part(polls.last())
    }
}

/// The output a wait has received so far.
#[derive(Debug)]
pub struct OutputWait {
    pub stdout: Vec<u8>,
    pub stderr: Vec<u8>,
}

impl OutputWait {
    /// A wait that has received nothing.
    pub fn new() -> (r: OutputWait)
        ensures
            r.stdout@.len() == 0,
            r.stderr@.len() == 0,
    {
        OutputWait { stdout: Vec::new(), stderr: Vec::new() }
    }

    /// The failure for a wait whose time ran out, with the output so far.
    pub fn timed_out<E>(&self) -> (r: WaitProcessError<E>)
        ensures
            r matches WaitProcessError::TimedOut { stdout, stderr } && stdout@ == self.stdout@
                && stderr@ == self.stderr@,
    {
        WaitProcessError::TimedOut { stdout: copy_bytes(&self.stdout), stderr: copy_bytes(&self.stderr) }
    }

    /// Takes in what one poll received: output is added to its stream; a read
    /// failure or the end of both streams ends the wait; after output or an
    /// empty poll (`None`), the script's wait function is to be asked.
    pub fn receive<E>(&mut self, received: Received) -> (r: Option<WaitProcessError<E>>)
        ensures
            final(self).stdout@ == old(self).stdout@ + stdout_part(received),
            final(self).stderr@ == old(self).stderr@ + stderr_part(received),
            match received {
                Received::Output(ProcessOutput::Stdout(chunk)) => {
                    &&& final(self).stdout@ == old(self).stdout@ + chunk@
                    &&& final(self).stderr@ == old(self).stderr@
                    &&& r is None
                },
                Received::Output(ProcessOutput::Stderr(chunk)) => {
                    &&& final(self).stdout@ == old(self).stdout@
                    &&& final(self).stderr@ == old(self).stderr@ + chunk@
                    &&& r is None
                },
                Received::NothingYet => {
                    &&& final(self).stdout@ == old(self).stdout@
                    &&& final(self).stderr@ == old(self).stderr@
                    &&& r is None
                },
                Received::ReadFailed(msg) => {
                    &&& final(self).stdout@ == old(self).stdout@
                    &&& final(self).stderr@ == old(self).stderr@
                    &&& r matches Some(WaitProcessError::IoError(m)) && m@ == msg@
                },
                Received::Closed => {
                    &&& final(self).stdout@ == old(self).stdout@
                    &&& final(self).stderr@ == old(self).stderr@
                    &&& r matches Some(WaitProcessError::TimedOut { stdout, stderr }) && stdout@
                        == old(self).stdout@ && stderr@ == old(self).stderr@
                },
            },
    {
        match received {
            Received::Output(ProcessOutput::Stdout(chunk)) => {
                append_bytes(&mut self.stdout, &chunk);
                None
            },
            Received::Output(ProcessOutput::Stderr(chunk)) => {
                append_bytes(&mut self.stderr, &chunk);
                None
            },
            Received::NothingYet => None,
            Received::ReadFailed(msg) => Some(WaitProcessError::IoError(msg)),
            Received::Closed => Some(self.timed_out()),
        }
    }

    /// Takes in the answer of the script's wait function about the output so
    /// far: `true` ends the wait with the output, `false` (`None`) goes on, and
    /// a failure of the function ends the wait with it.
    pub fn decide<E>(&self, verdict: Result<bool, E>) -> (r: Option<
        Result<(Option<String>, Option<String>), WaitProcessError<E>>,
    >)
        ensures
            match verdict {
                Ok(true) => r matches Some(Ok((Some(o), Some(e)))) && o@ == utf8_or_empty(
                    self.stdout@,
                ) && e@ == utf8_or_empty(self.stderr@),
                Ok(false) => r is None,
                Err(err) => r == Some(
                    Err::<(Option<String>, Option<String>), _>(WaitProcessError::LuaError(err)),
                ),
            },
    {
        match verdict {
            Ok(true) => Some(Ok(to_exec_bg_result(copy_bytes(&self.stdout), copy_bytes(&self.stderr)))),
            Ok(false) => None,
            Err(err) => Some(Err(WaitProcessError::LuaError(err))),
        }
    }
}

/// What a wait hands to the script's wait function never shrinks: a wait
/// starts with nothing (`OutputWait::new`) and each poll adds to each stream
/// what it brought (`OutputWait::receive`), so after the first `i` of a run of
/// polls each text is a prefix of the text after the first `j`, for `i <= j`,
/// and of all that the run brought on that stream.
pub proof fn waited_output_only_grows(polls: Seq<Received>, i: int, j: int)
    requires
        0 <= i <= j <= polls.len(),
    ensures
        stdout_received(polls.take(i)).is_prefix_of(stdout_received(polls.take(j))),
        stderr_received(polls.take(i)).is_prefix_of(stderr_received(polls.take(j))),
        stdout_received(polls.take(i)).is_prefix_of(stdout_received(polls)),
        stderr_received(polls.take(i)).is_prefix_of(stderr_received(polls)),
{
    lemma_received_grows(polls, i, j);
    lemma_received_grows(polls, i, polls.len() as int);
    assert(polls.take(polls.len() as int) =~= polls);
}

proof fn lemma_received_grows(polls: Seq<Received>, i: int, j: int)
    requires
        0 <= i <= j <= polls.len(),
    ensures
        stdout_received(polls.take(i)).is_prefix_of(stdout_received(polls.take(j))),
        stderr_received(polls.take(i)).is_prefix_of(stderr_received(polls.take(j))),
    decreases j - i,
{
    if i < j {
        lemma_received_grows(polls, i, j - 1);
        let before = polls.take(j - 1);
        let after = polls.take(j);
        assert(after.drop_last() =~= before);
        let o = stdout_received(polls.take(i));
        let e = stderr_received(polls.take(i));
        assert(stdout_received(after) == stdout_received(before) + stdout_part(after.last()));
        assert(stderr_received(after) == stderr_received(before) + stderr_part(after.last()));
        assert(stdout_received(after).subrange(0, o.len() as int) =~= stdout_received(
            before,
        ).subrange(0, o.len() as int));
        assert(stderr_received(after).subrange(0, e.len() as int) =~= stderr_received(
            before,
        ).subrange(0, e.len() as int));
    } else {
        assert(stdout_received(polls.take(i)).subrange(0, stdout_received(polls.take(i)).len() as int) =~= stdout_received(polls.take(i)));
        assert(stderr_received(polls.take(i)).subrange(0, stderr_received(polls.take(i)).len() as int) =~= stderr_received(polls.take(i)));
    }
}

/// Why `exec_bg` fails.
#[derive(Debug)]
pub enum ExecBgError<E> {
    /// A runtime error with this message.
    Runtime(String),
    /// The script's wait function failed with this error.
    Script(E),
}

/// The message for a wait that timed out.
pub open spec fn timed_out_message(stdout: Seq<u8>, stderr: Seq<u8>) -> Seq<char> {
    "Timed out: stdout: "@ + utf8_lossy(stdout) + "; stderr: "@ + utf8_lossy(stderr)
}

/// The result `exec_bg` hands back: the output the wait ended on (empty when
/// it did not wait), or the failure of the wait as an error.
pub fn exec_bg_result<E>(
    waited: Result<(Option<String>, Option<String>), WaitProcessError<E>>,
) -> (r: Result<(String, String), ExecBgError<E>>)
    ensures
        match waited {
            Ok((o, e)) => r matches Ok((so, se)) && so@ == (match o {
                Some(s) => s@,
                None => Seq::empty(),
            }) && se@ == (match e {
                Some(s) => s@,
                None => Seq::empty(),
            }),
            Err(WaitProcessError::IoError(msg)) => r matches Err(ExecBgError::Runtime(m)) && m@
                == msg@,
            Err(WaitProcessError::LuaError(err)) => r == Err::<(String, String), _>(
                ExecBgError::Script(err),
            ),
            Err(WaitProcessError::TimedOut { stdout, stderr }) => r matches Err(
                ExecBgError::Runtime(m),
            ) && m@ == timed_out_message(stdout@, stderr@),
        },
{
    match waited {
        Ok((o, e)) => {
            let o = match o {
                Some(s) => s,
                None => String::new(),
            };
            let e = match e {
                Some(s) => s,
                None => String::new(),
            };
            Ok((o, e))
        },
        Err(WaitProcessError::IoError(msg)) => Err(ExecBgError::Runtime(msg)),
        Err(WaitProcessError::LuaError(err)) => Err(ExecBgError::Script(err)),
        Err(WaitProcessError::TimedOut { stdout, stderr }) => {
            let mut m = to_chars("Timed out: stdout: ");
            append_chars(&mut m, &to_chars(string_from_utf8_lossy(&stdout).as_str()));
            append_chars(&mut m, &to_chars("; stderr: "));
            append_chars(&mut m, &to_chars(string_from_utf8_lossy(&stderr).as_str()));
            Err(ExecBgError::Runtime(from_chars(&m)))
        },
    }
}

/// The state of the loop that moves one output stream of a background command
/// to the wait and to the file that saves it.
#[derive(Debug)]
pub struct OutputPump {
    /// Whether the wait still takes the output.
    pub send_output: bool,
}

/// The next step of an output pump.
#[derive(Debug)]
pub enum PumpStep<E> {
    /// The stream is done.
    Finish,
    /// Hand this error to the wait, then finish.
    Report(E),
    /// Save this chunk to the file, if there is one.
    Save(Vec<u8>),
    /// Hand this chunk to the wait.
    Forward(Vec<u8>),
    /// Read the next chunk.
    ReadMore,
}

/// The step after a read: an empty chunk ends the stream, a chunk is saved
/// first, and a failed read is reported to a wait that still listens.
pub open spec fn read_step<E>(send_output: bool, read: Result<Vec<u8>, E>) -> PumpStep<E> {
    match read {
        Ok(chunk) => if chunk@.len() == 0 {
            PumpStep::Finish
        } else {
            PumpStep::Save(chunk)
        },
        Err(err) => if send_output {
            PumpStep::Report(err)
        } else {
            PumpStep::Finish
        },
    }
}

/// The step after saving a chunk: a failure to save ends the stream (reported
/// to a wait that still listens); a saved chunk goes to a wait that still
/// listens, else the next read follows.
pub open spec fn save_step<E>(send_output: bool, chunk: Vec<u8>, saved: Result<(), E>) -> PumpStep<
    E,
> {
    match saved {
        Ok(()) => if send_output {
            PumpStep::Forward(chunk)
        } else {
            PumpStep::ReadMore
        },
        Err(err) => if send_output {
            PumpStep::Report(err)
        } else {
            PumpStep::Finish
        },
    }
}

/// How one round of a pump's loop turns out: what the read gave, whether
/// saving its chunk worked, and whether the wait took the chunk.
pub struct PumpRound<E> {
    pub read: Result<Vec<u8>, E>,
    pub saved: Result<(), E>,
    pub delivered: bool,
}

/// What a pump's loop does over a run of rounds, from `send_output`, step by
/// step as `after_read`, `after_save` and `after_send` decide: the chunks it
/// saves, and the chunks it hands to the wait.
pub open spec fn pump_run<E>(send_output: bool, rounds: Seq<PumpRound<E>>) -> (
    Seq<Seq<u8>>,
    Seq<Seq<u8>>,
)
    decreases rounds.len(),
{
    if rounds.len() == 0 {
        (Seq::empty(), Seq::empty())
    } else {
        let round = rounds[0];
        match read_step(send_output, round.read) {
            PumpStep::Save(chunk) => match save_step(send_output, chunk, round.saved) {
                PumpStep::Forward(c) => {
                    let rest = pump_run(send_output && round.delivered, rounds.drop_first());
                    (seq![c@] + rest.0, seq![c@] + rest.1)
                },
                PumpStep::ReadMore => {
                    let rest = pump_run(send_output, rounds.drop_first());
                    (seq![chunk@] + rest.0, rest.1)
                },
                _ => (Seq::empty(), Seq::empty()),
            },
            _ => (Seq::empty(), Seq::empty()),
        }
    }
}

/// The chunks of a run of rounds up to the first that ends the stream, fails
/// to read or fails to save.
pub open spec fn chunks_until_stop<E>(rounds: Seq<PumpRound<E>>) -> Seq<Seq<u8>>
    decreases rounds.len(),
{
    if rounds.len() == 0 {
        Seq::empty()
    } else {
        match rounds[0].read {
            Ok(chunk) => if chunk@.len() > 0 && rounds[0].saved is Ok {
                seq![chunk@] + chunks_until_stop(rounds.drop_first())
            } else {
                Seq::empty()
            },
            Err(_) => Seq::empty(),
        }
    }
}

/// Whether or not the wait still listens, a pump keeps reading and saving its
/// stream until the stream ends, a read fails or saving fails: what it saves
/// does not depend on the wait at all. It hands the wait a first part of what
/// it saved, and nothing once the wait is gone.
pub proof fn pump_saves_whatever_the_wait_does<E>(send_output: bool, rounds: Seq<PumpRound<E>>)
    ensures
        pump_run(send_output, rounds).0 == chunks_until_stop(rounds),
        pump_run(send_output, rounds).1.is_prefix_of(pump_run(send_output, rounds).0),
        !send_output ==> pump_run(send_output, rounds).1.len() == 0,
    decreases rounds.len(),
{
    let run = pump_run(send_output, rounds);
    if rounds.len() > 0 {
        let round = rounds[0];
        let rest_rounds = rounds.drop_first();
        match round.read {
            Ok(chunk) => {
                if chunk@.len() > 0 && round.saved is Ok {
                    let next = send_output && round.delivered;
                    pump_saves_whatever_the_wait_does(next, rest_rounds);
                    pump_saves_whatever_the_wait_does(send_output, rest_rounds);
                    if send_output {
                        let rest = pump_run(next, rest_rounds);
                        assert(run.0 == seq![chunk@] + rest.0);
                        assert(run.1 == seq![chunk@] + rest.1);
                        assert(run.1 =~= run.0.subrange(0, run.1.len() as int));
                    } else {
                        let rest = pump_run(send_output, rest_rounds);
                        assert(run.0 == seq![chunk@] + rest.0);
                        assert(run.1 == rest.1);
                        assert(run.1 =~= run.0.subrange(0, 0));
                    }
                } else {
                    assert(run.1 =~= run.0.subrange(0, 0));
                }
            },
            Err(_) => {
                assert(run.1 =~= run.0.subrange(0, 0));
            },
        }
    } else {
        assert(run.1 =~= run.0.subrange(0, 0));
    }
}

impl OutputPump {
    /// A pump whose wait takes the output.
    pub fn new() -> (r: OutputPump)
        ensures
            r.send_output,
    {
        OutputPump { send_output: true }
    }

    /// After a read: an empty chunk ends the stream, a chunk is saved first,
    /// and a failed read is reported to a wait that still listens.
    pub fn after_read<E>(&self, read: Result<Vec<u8>, E>) -> (r: PumpStep<E>)
        ensures
            r == read_step(self.send_output, read),
    {
        match read {
            Ok(chunk) => {
                if chunk.len() == 0 {
                    PumpStep::Finish
                } else {
                    PumpStep::Save(chunk)
                }
            },
            Err(err) => {
                if self.send_output {
                    PumpStep::Report(err)
                } else {
                    PumpStep::Finish
                }
            },
        }
    }

    /// After saving a chunk: a failure to save ends the stream (reported to a
    /// wait that still listens); a saved chunk goes to a wait that still
    /// listens, else the next read follows.
    pub fn after_save<E>(&self, chunk: Vec<u8>, saved: Result<(), E>) -> (r: PumpStep<E>)
        ensures
            r == save_step(self.send_output, chunk, saved),
    {
        match saved {
            Ok(()) => {
                if self.send_output {
                    PumpStep::Forward(chunk)
                } else {
                    PumpStep::ReadMore
                }
            },
            Err(err) => {
                if self.send_output {
                    PumpStep::Report(err)
                } else {
                    PumpStep::Finish
                }
            },
        }
    }

    /// After handing a chunk to the wait: once the wait no longer takes output,
    /// no more is handed to it.
    pub fn after_send(&mut self, delivered: bool)
        ensures
            final(self).send_output == (old(self).send_output && delivered),
    {
        if !delivered {
            self.send_output = false;
        }
    }
}

/// The error number of a kill aimed at a process group that no longer exists.
pub open spec fn no_such_process() -> i32 {
    3
}

/// Whether a failure to kill a process group is fatal: all are, but for a
/// group that no longer exists.
pub fn kill_failure_is_fatal(os_error: Option<i32>) -> (r: bool)
    ensures
        r == (os_error != Some(no_such_process())),
{
    match os_error {
        Some(code) => code != 3,
        None => true,
    }
}

} // verus!
