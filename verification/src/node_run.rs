//! What a module's output lines mean, and the result of a module run.
//!
//! A module writes progress lines (`PROGRESS:{done}/{total}`), status lines
//! (`STATUS:{text}`), free text, and finally one JSON line with its result.
//! The caller reads the lines, parses JSON lines into `ModuleOutput`, and
//! feeds them here; once the process has exited, `finish` gives the result.
use vstd::prelude::*;
use crate::meta::PpExecCode;
use crate::pipeline::{ModuleOutput, NodeResult, copy_strings};
use crate::text::{
    concat, contains, contains_seq, find_char, first_index, from_chars, has_prefix, lemma_first_index,
    parse_u32, parse_unsigned, slice, starts_with, strip_prefix, to_chars, trim, trim_seq,
};

verus! {

/// What a line of standard output means.
#[derive(Debug, Clone)]
pub enum StdoutEvent {
    /// The module's final result.
    Final,
    /// Progress of the module.
    Progress { done: u32, total: u32 },
    /// A status text.
    Status { text: String },
    /// A line of free text.
    Text { text: String },
    /// Nothing to report.
    Nothing,
}

/// `"PROGRESS:"`.
pub open spec fn progress_tag() -> Seq<char> {
    "PROGRESS:"@
}

/// `"STATUS:"`.
pub open spec fn status_tag() -> Seq<char> {
    "STATUS:"@
}

/// The two numbers of a progress line's text (`{done}/{total}`): the
/// trimmed text before the first `/` and the trimmed text after it.
pub open spec fn progress_numbers(rest: Seq<char>) -> Option<(nat, nat)> {
    let i = first_index(rest, '/');
    if i < 0 {
        None
    } else {
        match (
            parse_unsigned(trim_seq(rest.subrange(0, i)), u32::MAX as nat),
            parse_unsigned(trim_seq(rest.subrange(i + 1, rest.len() as int)), u32::MAX as nat),
        ) {
            (Some(d), Some(t)) => Some((d, t)),
            _ => None,
        }
    }
}

/// What a trimmed stdout line `t` means; `parsed` tells whether the line is
/// a module result (a JSON object that parses as one).
pub open spec fn stdout_kind(t: Seq<char>, parsed: bool) -> int {
    if t.len() > 0 && t[0] == '{' && parsed {
        0
    } else if has_prefix(t, progress_tag()) {
        1
    } else if has_prefix(t, status_tag()) {
        2
    } else if t.len() > 0 {
        3
    } else {
        4
    }
}

/// What the module has said so far.
#[derive(Debug, Clone)]
pub struct NodeOutputState {
    pub last_message: String,
    pub stderr_msg: String,
    pub panic_msg: String,
    pub final_output: Option<ModuleOutput>,
}

impl NodeOutputState {
    /// Nothing said yet.
    pub fn new() -> (r: NodeOutputState)
        ensures
            r.last_message@.len() == 0,
            r.stderr_msg@.len() == 0,
            r.panic_msg@.len() == 0,
            r.final_output is None,
    {
        NodeOutputState {
            last_message: String::new(),
            stderr_msg: String::new(),
            panic_msg: String::new(),
            final_output: None,
        }
    }

    /// Takes in one line of standard output. `parsed` is the line parsed as
    /// a module result, when the trimmed line starts with `{` and parses.
    /// A result line replaces any earlier one; a free-text line becomes the
    /// last message; a progress line whose numbers do not parse reports nothing.
    pub fn on_stdout_line(&mut self, line: &str, parsed: Option<ModuleOutput>) -> (r: StdoutEvent)
        ensures
            ({
                let t = trim_seq(line@);
                let k = stdout_kind(t, parsed is Some);
                &&& k == 0 ==> r is Final && final(self).final_output == parsed
                    && final(self).last_message == old(self).last_message
                &&& k == 1 ==> final(self).final_output == old(self).final_output
                    && final(self).last_message == old(self).last_message && (match progress_numbers(
                    t.subrange(progress_tag().len() as int, t.len() as int),
                ) {
                    Some((d, n)) => r matches StdoutEvent::Progress { done, total } && done == d
                        && total == n,
                    None => r is Nothing,
                })
                &&& k == 2 ==> final(self).final_output == old(self).final_output
                    && final(self).last_message == old(self).last_message && (r matches StdoutEvent::Status {
                    text,
                } && text@ == trim_seq(t.subrange(status_tag().len() as int, t.len() as int)))
                &&& k == 3 ==> final(self).final_output == old(self).final_output && final(self).last_message@ == t && (r matches StdoutEvent::Text { text } && text@ == t)
                &&& k == 4 ==> r is Nothing && final(self).final_output == old(self).final_output
                    && final(self).last_message == old(self).last_message
            }),
            final(self).stderr_msg == old(self).stderr_msg,
            final(self).panic_msg == old(self).panic_msg,
    {
        let t = trim(&to_chars(line));
        proof {
            reveal_strlit("PROGRESS:");
            reveal_strlit("STATUS:");
        }
        if t.len() > 0 && t[0] == '{' {
            match parsed {
                Some(out) => {
                    self.final_output = Some(out);
                    return StdoutEvent::Final;
                },
                None => {},
            }
        }
        match strip_prefix(&t, &to_chars("PROGRESS:")) {
            Some(rest) => {
                proof {
                    lemma_first_index(rest@, '/');
                }
                return match find_char(&rest, '/') {
                    Some(i) => {
                        let d = parse_u32(&trim(&slice(&rest, 0, i)));
                        let n = parse_u32(&trim(&slice(&rest, i + 1, rest.len())));
                        match (d, n) {
                            (Some(d), Some(n)) => StdoutEvent::Progress { done: d, total: n },
                            _ => StdoutEvent::Nothing,
                        }
                    },
                    None => StdoutEvent::Nothing,
                };
            },
            None => {},
        }
        match strip_prefix(&t, &to_chars("STATUS:")) {
            Some(rest) => {
                return StdoutEvent::Status { text: from_chars(&trim(&rest)) };
            },
            None => {},
        }
        if t.len() > 0 {
            let text = from_chars(&t);
            self.last_message = from_chars(&t);
            return StdoutEvent::Text { text };
        }
        StdoutEvent::Nothing
    }

    /// Takes in one line of standard error; returns the trimmed text to log,
    /// if any. Empty lines and the backtrace hint are ignored; the first line
    /// that reports a panic is kept; every logged line becomes the error message.
    pub fn on_stderr_line(&mut self, line: &str) -> (r: Option<String>)
        ensures
            ({
                let t = trim_seq(line@);
                let ignored = t.len() == 0 || has_prefix(t, "note: run with `RUST_BACKTRACE"@);
                &&& ignored ==> r is None && final(self).stderr_msg == old(self).stderr_msg
                    && final(self).panic_msg == old(self).panic_msg
                &&& !ignored ==> (r matches Some(s) && s@ == t) && final(self).stderr_msg@ == t && (if contains_seq(
                    t,
                    "panicked at"@,
                ) && old(self).panic_msg@.len() == 0 {
                    final(self).panic_msg@ == t
                } else {
                    final(self).panic_msg == old(self).panic_msg
                })
            }),
            final(self).last_message == old(self).last_message,
            final(self).final_output == old(self).final_output,
    {
        let t = trim(&to_chars(line));
        if t.len() == 0 || starts_with(&t, &to_chars("note: run with `RUST_BACKTRACE")) {
            return None;
        }
        if contains(&t, &to_chars("panicked at")) && self.panic_msg.as_str().is_empty() {
            self.panic_msg = from_chars(&t);
        }
        self.stderr_msg = from_chars(&t);
        Some(from_chars(&t))
    }
}

/// `"OK"`.
pub open spec fn ok_word() -> Seq<char> {
    "OK"@
}

/// The code, message and outputs of a module run that was not cancelled.
///
/// With a result line: its outputs; its code, except that `Okay` without
/// outputs becomes `Done`; its message, or else the last free-text line, or
/// else `OK`. Without one, a successful exit is `Done` with the last message
/// (or `OK`); a failed exit is an `Error` whose message is the panic line,
/// else the last error line, else the last message, else `exit ` and the status.
pub open spec fn finish_spec(
    final_output: Option<ModuleOutput>,
    exited_ok: bool,
    exit_text: Seq<char>,
    last_message: Seq<char>,
    stderr_msg: Seq<char>,
    panic_msg: Seq<char>,
) -> (PpExecCode, Seq<char>, Seq<Seq<char>>) {
    let fallback = if last_message.len() == 0 {
        ok_word()
    } else {
        last_message
    };
    match final_output {
        Some(out) => {
            let outs = match out.outputs {
                Some(v) => crate::text::strs_view(v@),
                None => seq![],
            };
            let code = if out.code is Okay && outs.len() == 0 {
                PpExecCode::Done
            } else {
                out.code
            };
            let msg = match out.message {
                Some(m) => m@,
                None => fallback,
            };
            (code, msg, outs)
        },
        None => if exited_ok {
            (PpExecCode::Done, fallback, seq![])
        } else {
            let err = if panic_msg.len() > 0 {
                panic_msg
            } else {
                stderr_msg
            };
            let msg = if err.len() > 0 {
                err
            } else if last_message.len() > 0 {
                last_message
            } else {
                "exit "@ + exit_text
            };
            (PpExecCode::Error, msg, seq![])
        },
    }
}

/// The result of a module run that was not cancelled; `exited_ok` and
/// `exit_text` describe how the process exited.
pub fn finish_node(
    state: NodeOutputState,
    effective_id: &str,
    module_id: &str,
    inputs: &Vec<String>,
    exited_ok: bool,
    exit_text: &str,
) -> (r: NodeResult)
    ensures
        r.effective_id@ == effective_id@,
        r.module_id@ == module_id@,
        r.inputs@ == inputs@,
        (r.code, r.message@, crate::text::strs_view(r.outputs@)) == finish_spec(
            state.final_output,
            exited_ok,
            exit_text@,
            state.last_message@,
            state.stderr_msg@,
            state.panic_msg@,
        ),
{
    proof {
        reveal_strlit("OK");
    }
    let NodeOutputState { last_message, stderr_msg, panic_msg, final_output } = state;
    let fallback = if last_message.as_str().is_empty() {
        String::from_str("OK")
    } else {
        last_message.clone()
    };
    let (code, message, outputs) = match final_output {
        Some(out) => {
            let outs = match out.outputs {
                Some(v) => v,
                None => {
                    let e: Vec<String> = Vec::new();
                    assert(crate::text::strs_view(e@) =~= seq![]);
                    e
                },
            };
            let code = match out.code {
                PpExecCode::Okay => if outs.len() == 0 {
                    PpExecCode::Done
                } else {
                    PpExecCode::Okay
                },
                other => other,
            };
            let msg = match out.message {
                Some(m) => m,
                None => fallback,
            };
            (code, msg, outs)
        },
        None => {
            let outs: Vec<String> = Vec::new();
            assert(crate::text::strs_view(outs@) =~= seq![]);
            if exited_ok {
                (PpExecCode::Done, fallback, outs)
            } else {
                let err = if !panic_msg.as_str().is_empty() {
                    panic_msg
                } else {
                    stderr_msg
                };
                let msg = if !err.as_str().is_empty() {
                    err
                } else if !last_message.as_str().is_empty() {
                    last_message
                } else {
                    from_chars(&concat(&to_chars("exit "), &to_chars(exit_text)))
                };
                (PpExecCode::Error, msg, outs)
            }
        },
    };
    NodeResult {
        effective_id: effective_id.to_owned(),
        module_id: module_id.to_owned(),
        code,
        message,
        outputs,
        inputs: copy_strings(inputs),
    }
}

/// The result of a module run that was cancelled.
pub fn cancelled_result(effective_id: &str, module_id: &str, inputs: &Vec<String>) -> (r: NodeResult)
    ensures
        r.effective_id@ == effective_id@,
        r.module_id@ == module_id@,
        r.inputs@ == inputs@,
        r.code is Cancelled,
        r.message@ == "cancelled"@,
        r.outputs@.len() == 0,
{
    NodeResult {
        effective_id: effective_id.to_owned(),
        module_id: module_id.to_owned(),
        code: PpExecCode::Cancelled,
        message: String::from_str("cancelled"),
        outputs: Vec::new(),
        inputs: copy_strings(inputs),
    }
}

/// The result of a module whose process could not be started or waited
/// for; `prefix` is `Failed to spawn: ` or `wait failed: `, and `error`
/// the system's message.
pub fn process_error_result(
    effective_id: &str,
    module_id: &str,
    inputs: &Vec<String>,
    prefix: &str,
    error: &str,
) -> (r: NodeResult)
    ensures
        r.effective_id@ == effective_id@,
        r.module_id@ == module_id@,
        r.inputs@ == inputs@,
        r.code is Error,
        r.message@ == prefix@ + error@,
        r.outputs@.len() == 0,
{
    NodeResult {
        effective_id: effective_id.to_owned(),
        module_id: module_id.to_owned(),
        code: PpExecCode::Error,
        message: from_chars(&concat(&to_chars(prefix), &to_chars(error))),
        outputs: Vec::new(),
        inputs: copy_strings(inputs),
    }
}

/// What a module is told of the recording it processes.
#[derive(Debug, Clone)]
pub struct RecordingContext {
    pub video_path: String,
    pub started_at: String,
    pub username: String,
}

} // verus!
