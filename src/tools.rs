//! Records and decisions of the agent tools: reply, branch, spawn worker
//! and route.

use vstd::prelude::*;
use std::sync::Arc;
use crate::ids::{new_uuid_text, parse_uuid_text, parsed_uuid, UUID_TEXT_LEN};

verus! {

/// Turns a branch may take when the caller gives no limit.
pub const DEFAULT_BRANCH_MAX_TURNS: usize = 10;

/// Turns of a fire-and-forget worker when the caller gives no limit.
pub const DEFAULT_WORKER_MAX_TURNS: usize = 50;

/// Turns of an interactive worker when the caller gives no limit.
pub const DEFAULT_INTERACTIVE_MAX_TURNS: usize = 100;

/// A message received from a user, as far as the tools read it.
#[derive(Debug, Clone)]
pub struct InboundMessage {
    pub conversation_id: String,
    pub content: String,
}

/// What a reply sends back through the messaging layer.
#[derive(Debug, Clone)]
pub enum OutboundResponse {
    Text(String),
    StreamChunk(String),
}

/// Tool with which a channel replies to the user who wrote `message`.
#[derive(Debug, Clone)]
pub struct ReplyTool {
    pub message: Arc<InboundMessage>,
}

/// Failure of the reply tool.
#[derive(Debug)]
pub struct ReplyError(pub String);

/// Arguments of the reply tool.
#[derive(Debug, Clone)]
pub struct ReplyArgs {
    /// The message content to send to the user.
    pub content: String,
    /// Whether this is one chunk of a streamed reply.
    pub is_stream_chunk: bool,
}

/// Result of the reply tool.
#[derive(Debug, Clone)]
pub struct ReplyOutput {
    pub success: bool,
    pub conversation_id: String,
    pub content: String,
}

impl ReplyTool {
    pub fn new(message: Arc<InboundMessage>) -> (r: Self)
        ensures
            r.message == message,
    {
        ReplyTool { message }
    }

    /// The response a reply with `args` hands to the messaging layer.
    pub fn response(args: &ReplyArgs) -> (r: OutboundResponse)
        ensures
            args.is_stream_chunk ==> (r matches OutboundResponse::StreamChunk(c) && c@ == args.content@),
            !args.is_stream_chunk ==> (r matches OutboundResponse::Text(c) && c@ == args.content@),
    {
        if args.is_stream_chunk {
            OutboundResponse::StreamChunk(args.content.clone())
        } else {
            OutboundResponse::Text(args.content.clone())
        }
    }

    /// Sends `args.content` to the user of this tool's conversation and
    /// reports it sent.
    pub fn call(&self, args: ReplyArgs) -> (r: Result<ReplyOutput, ReplyError>)
        ensures
            r matches Ok(o) && o.success && o.conversation_id@ == self.message.conversation_id@
                && o.content@ == args.content@,
    {
        Ok(
            ReplyOutput {
                success: true,
                conversation_id: self.message.conversation_id.clone(),
                content: args.content,
            },
        )
    }
}

/// Failure of the branch tool.
#[derive(Debug)]
pub struct BranchError(pub String);

/// Arguments of the branch tool.
#[derive(Debug, Clone)]
pub struct BranchArgs {
    /// What the branch should think about or investigate.
    pub description: String,
    /// Optional context or constraints for the branch.
    pub context: Option<String>,
    /// Maximum turns for the branch.
    pub max_turns: usize,
}

/// Result of the branch tool.
#[derive(Debug, Clone)]
pub struct BranchOutput {
    pub branch_id: String,
    pub channel_id: String,
    pub spawned: bool,
    pub message: String,
}

pub fn default_max_turns() -> (r: usize)
    ensures
        r == DEFAULT_BRANCH_MAX_TURNS,
{
    DEFAULT_BRANCH_MAX_TURNS
}

/// A fresh branch id: a random UUID in hyphenated form.
pub fn create_branch_id() -> (r: String)
    ensures
        r@.len() == UUID_TEXT_LEN,
{
    new_uuid_text()
}

/// Text announcing branch `branch_id` working on `description`.
pub open spec fn branch_message(branch_id: Seq<char>, description: Seq<char>) -> Seq<char> {
    "Branch "@ + branch_id + " spawned successfully. It will investigate: "@ + description
}

/// Report of a branch spawned in `channel_id` under the id `branch_id`.
pub fn branch_output(channel_id: &String, branch_id: String, args: &BranchArgs) -> (r: BranchOutput)
    ensures
        r.branch_id@ == branch_id@,
        r.channel_id@ == channel_id@,
        r.spawned,
        r.message@ == branch_message(branch_id@, args.description@),
{
    let mut message = String::from_str("Branch ");
    message.append(branch_id.as_str());
    message.append(" spawned successfully. It will investigate: ");
    message.append(args.description.as_str());
    BranchOutput { branch_id, channel_id: channel_id.clone(), spawned: true, message }
}

/// Spawns a branch under a fresh id and reports it.
pub fn run_branch(channel_id: &String, args: &BranchArgs) -> (r: BranchOutput)
    ensures
        r.branch_id@.len() == UUID_TEXT_LEN,
        r.channel_id@ == channel_id@,
        r.spawned,
        r.message@ == branch_message(r.branch_id@, args.description@),
{
    let id = create_branch_id();
    branch_output(channel_id, id, args)
}

/// Failure of the spawn-worker tool.
#[derive(Debug)]
pub struct SpawnWorkerError(pub String);

/// Arguments of the spawn-worker tool.
#[derive(Debug, Clone)]
pub struct SpawnWorkerArgs {
    /// The task description for the worker.
    pub task: String,
    /// Whether the worker accepts follow-up messages.
    pub interactive: bool,
    /// Turn limit; the default depends on `interactive`.
    pub max_turns: Option<usize>,
    /// Tools to give the worker; empty for the default set.
    pub tools: Vec<String>,
}

/// Result of the spawn-worker tool.
#[derive(Debug, Clone)]
pub struct SpawnWorkerOutput {
    pub worker_id: String,
    pub channel_id: Option<String>,
    pub spawned: bool,
    pub interactive: bool,
    pub message: String,
}

/// Turn limit of a worker: the one asked for, else 100 for an interactive
/// worker and 50 for another.
pub fn worker_max_turns(args: &SpawnWorkerArgs) -> (r: usize)
    ensures
        args.max_turns matches Some(n) ==> r == n,
        args.max_turns is None ==> r == if args.interactive {
            DEFAULT_INTERACTIVE_MAX_TURNS
        } else {
            DEFAULT_WORKER_MAX_TURNS
        },
{
    match args.max_turns {
        Some(n) => n,
        None => if args.interactive {
            DEFAULT_INTERACTIVE_MAX_TURNS
        } else {
            DEFAULT_WORKER_MAX_TURNS
        },
    }
}

/// A fresh worker id: a random UUID in hyphenated form.
pub fn create_worker_id() -> (r: String)
    ensures
        r@.len() == UUID_TEXT_LEN,
{
    new_uuid_text()
}

/// Text announcing worker `worker_id` working on `task`.
pub open spec fn worker_message(worker_id: Seq<char>, task: Seq<char>, interactive: bool) -> Seq<char> {
    if interactive {
        "Interactive worker "@ + worker_id + " spawned. It will work on: "@ + task
            + ". You can route follow-up messages to it."@
    } else {
        "Worker "@ + worker_id + " spawned. It will complete: "@ + task + " and report back when done."@
    }
}

/// Report of a worker spawned under the id `worker_id`.
pub fn spawn_worker_output(channel_id: &Option<String>, worker_id: String, args: &SpawnWorkerArgs) -> (r:
    SpawnWorkerOutput)
    ensures
        r.worker_id@ == worker_id@,
        r.channel_id == *channel_id,
        r.spawned,
        r.interactive == args.interactive,
        r.message@ == worker_message(worker_id@, args.task@, args.interactive),
{
    let mut message;
    if args.interactive {
        message = String::from_str("Interactive worker ");
        message.append(worker_id.as_str());
        message.append(" spawned. It will work on: ");
        message.append(args.task.as_str());
        message.append(". You can route follow-up messages to it.");
    } else {
        message = String::from_str("Worker ");
        message.append(worker_id.as_str());
        message.append(" spawned. It will complete: ");
        message.append(args.task.as_str());
        message.append(" and report back when done.");
    }
    let channel = match channel_id {
        Some(c) => Some(c.clone()),
        None => None,
    };
    SpawnWorkerOutput { worker_id, channel_id: channel, spawned: true, interactive: args.interactive, message }
}

/// Spawns a worker under a fresh id and reports it.
pub fn run_spawn_worker(channel_id: &Option<String>, args: &SpawnWorkerArgs) -> (r: SpawnWorkerOutput)
    ensures
        r.worker_id@.len() == UUID_TEXT_LEN,
        r.channel_id == *channel_id,
        r.spawned,
        r.interactive == args.interactive,
        r.message@ == worker_message(r.worker_id@, args.task@, args.interactive),
{
    let id = create_worker_id();
    spawn_worker_output(channel_id, id, args)
}

/// Failure of the route tool.
#[derive(Debug)]
pub struct RouteError(pub String);

/// Arguments of the route tool.
#[derive(Debug, Clone)]
pub struct RouteArgs {
    /// The id of the worker to route to (UUID text).
    pub worker_id: String,
    /// The message to send to the worker.
    pub message: String,
}

/// Result of the route tool.
#[derive(Debug, Clone)]
pub struct RouteOutput {
    pub routed: bool,
    pub worker_id: String,
    pub channel_id: String,
    pub message: String,
}

/// Text confirming a message routed to `worker_id`.
pub open spec fn routed_message(worker_id: Seq<char>) -> Seq<char> {
    "Message routed to worker "@ + worker_id + "."@
}

/// Report of a message routed to the worker whose canonical id is
/// `worker_id`.
pub fn route_output(channel_id: &String, worker_id: String) -> (r: RouteOutput)
    ensures
        r.routed,
        r.worker_id@ == worker_id@,
        r.channel_id@ == channel_id@,
        r.message@ == routed_message(worker_id@),
{
    let mut message = String::from_str("Message routed to worker ");
    message.append(worker_id.as_str());
    message.append(".");
    RouteOutput { routed: true, worker_id, channel_id: channel_id.clone(), message }
}

/// Routes a follow-up message to a worker: the worker id must spell a UUID,
/// and the report carries its canonical form.
pub fn run_route(channel_id: &String, args: &RouteArgs) -> (r: Result<RouteOutput, RouteError>)
    ensures
        r is Ok <==> parsed_uuid(args.worker_id@) is Some,
        r matches Ok(o) ==> o.routed && Some(o.worker_id@) == parsed_uuid(args.worker_id@)
            && o.channel_id@ == channel_id@ && o.message@ == routed_message(o.worker_id@),
{
    match parse_uuid_text(args.worker_id.as_str()) {
        Ok(id) => Ok(route_output(channel_id, id)),
        Err(e) => {
            let mut text = String::from_str("Invalid worker ID: ");
            text.append(e.as_str());
            Err(RouteError(text))
        },
    }
}


/// Sends `content` as a complete reply to the author of `message`.
pub fn reply(message: &InboundMessage, content: String) -> (r: Result<(), ReplyError>)
    ensures
        r is Ok,
{
    let tool = ReplyTool::new(Arc::new(copy_message(message)));
    let args = ReplyArgs { content, is_stream_chunk: false };
    match tool.call(args) {
        Ok(_) => Ok(()),
        Err(e) => Err(e),
    }
}

/// Sends `chunk` as one piece of a streamed reply to the author of `message`.
pub fn reply_stream_chunk(message: &InboundMessage, chunk: String) -> (r: Result<(), ReplyError>)
    ensures
        r is Ok,
{
    let tool = ReplyTool::new(Arc::new(copy_message(message)));
    let args = ReplyArgs { content: chunk, is_stream_chunk: true };
    match tool.call(args) {
        Ok(_) => Ok(()),
        Err(e) => Err(e),
    }
}

fn copy_message(m: &InboundMessage) -> (r: InboundMessage)
    ensures
        r == *m,
{
    InboundMessage { conversation_id: m.conversation_id.clone(), content: m.content.clone() }
}

/// Spawns a branch of `channel_id` on `description` without a tool
/// context; yields the new branch id.
pub fn spawn_branch(_channel_id: &String, _description: String) -> (r: Result<String, BranchError>)
    ensures
        r matches Ok(id) && id@.len() == UUID_TEXT_LEN,
{
    Ok(create_branch_id())
}

/// Spawns a worker on `task` without a tool context; yields the new worker
/// id.
pub fn spawn_worker(_channel_id: &Option<String>, _task: String, _interactive: bool) -> (r: Result<
    String,
    SpawnWorkerError,
>)
    ensures
        r matches Ok(id) && id@.len() == UUID_TEXT_LEN,
{
    Ok(create_worker_id())
}

/// Routes `message` to an already parsed worker id without a tool context.
pub fn route_to_worker(_channel_id: &String, _worker_id: &String, _message: String) -> (r: Result<(), RouteError>)
    ensures
        r is Ok,
{
    Ok(())
}

} // verus!
