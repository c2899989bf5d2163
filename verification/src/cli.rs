//! The `dsh` command line: one task through the loop, its answer on standard output.

use crate::bridge::{direct_address, direct_url};
use crate::chat::{ChunkView, StreamChunk};
use crate::text::opt;
use vstd::prelude::*;
use vstd::string::*;

verus! {

/// The endpoint of a command: what the command line names, else the environment, else the
/// public one.
pub fn command_base_url(flag: &Option<String>, env: &Option<String>) -> (r: String)
    ensures
        r@ == direct_address(
            if flag is Some {
                opt(*flag)
            } else {
                opt(*env)
            },
        ),
{
    match flag {
        Some(_) => direct_url(flag),
        None => direct_url(env),
    }
}

/// The line of a session in the list: its id and where it works.
pub fn session_line(id: &str, cwd: &Option<String>) -> (r: String)
    ensures
        r@ == id@ + "\t"@ + match opt(*cwd) {
            Some(cwd) => cwd,
            None => "-"@,
        },
{
    let mut line = id.to_owned();
    line.append("\t");
    match cwd {
        Some(cwd) => {
            line.append(cwd.as_str());
        },
        None => {
            line.append("-");
        },
    }
    line
}

/// What a chunk puts on standard output: text as it comes, and the end of the line behind it.
pub open spec fn printed_view(chunk: ChunkView) -> Seq<char> {
    match chunk {
        ChunkView::TextDelta { index, text } => text,
        ChunkView::Finish { reason } => "\n"@,
        _ => Seq::empty(),
    }
}

/// What a chunk puts on standard output.
pub fn printed(chunk: &StreamChunk) -> (r: String)
    ensures
        r@ == printed_view(chunk@),
{
    match chunk {
        StreamChunk::TextDelta { index: _, text } => text.clone(),
        StreamChunk::Finish { reason: _ } => "\n".to_owned(),
        _ => String::new(),
    }
}

/// What a command comes to: list the sessions, run a task, or complain that there is none.
#[derive(Debug, PartialEq)]
pub enum CommandPlan {
    List,
    Run { task: String },
    NoTask { message: String },
}

/// What a command comes to. A list goes before a task.
pub fn plan_command(list: bool, task: &Option<String>) -> (r: CommandPlan)
    ensures
        match r {
            CommandPlan::List => list,
            CommandPlan::Run { task: t } => !list && opt(*task) == Some(t@),
            CommandPlan::NoTask { message } => !list && task is None && message@
                == "no task given (pass a task string, or --list)"@,
        },
{
    if list {
        return CommandPlan::List;
    }
    match task {
        Some(task) => CommandPlan::Run { task: task.clone() },
        None => CommandPlan::NoTask {
            message: "no task given (pass a task string, or --list)".to_owned(),
        },
    }
}

/// The error of a command whose turn failed.
pub fn failure_message(failure: &str) -> (r: String)
    ensures
        r@ == "task failed: "@ + failure@,
{
    let mut message = "task failed: ".to_owned();
    message.append(failure);
    message
}

/// How a command ends once its turn is over: a log that could not be written outranks a failed
/// turn.
pub fn command_result(failed: Option<String>, flushed: Result<(), String>) -> (r: Result<
    (),
    String,
>)
    ensures
        match (flushed, failed) {
            (Err(error), _) => r matches Err(e) && e@ == error@,
            (Ok(_), Some(failure)) => r matches Err(e) && e@ == "task failed: "@ + failure@,
            (Ok(_), None) => r is Ok,
        },
{
    match flushed {
        Err(error) => Err(error),
        Ok(_) => match failed {
            Some(failure) => Err(failure_message(failure.as_str())),
            None => Ok(()),
        },
    }
}

/// The answer is printed as it is told: each text delta word for word, the end of the line at
/// the finish, and nothing else.
pub proof fn law_the_answer_is_printed_as_told(chunk: ChunkView)
    ensures
        chunk matches ChunkView::TextDelta { index, text } ==> printed_view(chunk) == text,
        chunk is Finish ==> printed_view(chunk) == "\n"@,
        !(chunk is TextDelta) && !(chunk is Finish) ==> printed_view(chunk).len() == 0,
{
}

}
