use std::sync::Arc;

use agent_memory::recall::{attach_importance, format_memories, resolve_records, Memory, MemoryType};
use agent_memory::search::MemorySearchResult;
use agent_memory::tools::{
    branch_output, create_branch_id, create_worker_id, default_max_turns, reply, reply_stream_chunk, route_output,
    route_to_worker, run_branch, run_route, run_spawn_worker, spawn_branch, spawn_worker, spawn_worker_output, worker_max_turns, BranchArgs, InboundMessage,
    OutboundResponse, ReplyArgs, ReplyTool, RouteArgs, SpawnWorkerArgs,
};

fn memory(content: &str, memory_type: MemoryType, importance: u64) -> Memory {
    Memory {
        id: "m".to_string(),
        content: content.to_string(),
        memory_type,
        importance,
        source: None,
        channel_id: None,
    }
}

fn worker_args(task: &str, interactive: bool, max_turns: Option<usize>) -> SpawnWorkerArgs {
    SpawnWorkerArgs { task: task.to_string(), interactive, max_turns, tools: vec![] }
}

#[test]
fn empty_recall_renders_sentinel() {
    assert_eq!(format_memories(&[]), "No relevant memories found.");
}

#[test]
fn recall_renders_rank_type_importance_and_first_line() {
    let ms = vec![
        memory("likes tea\r\nand more", MemoryType::Preference, 57),
        memory("deployed v2", MemoryType::Event, 100),
        memory("", MemoryType::Fact, 5),
    ];
    let expected = "## Relevant Memories\n\n\
1. [preference] (importance: 0.57)\n   likes tea\n\n\
2. [event] (importance: 1.00)\n   deployed v2\n\n\
3. [fact] (importance: 0.05)\n   \n\n";
    assert_eq!(format_memories(&ms), expected);
}

#[test]
fn recall_renders_ranks_past_nine() {
    let ms: Vec<Memory> = (0..12).map(|_| memory("x\ny", MemoryType::Observation, 250)).collect();
    let out = format_memories(&ms);
    assert!(out.contains("12. [observation] (importance: 2.50)\n   x\n\n"));
    assert!(out.starts_with("## Relevant Memories\n\n1. [observation]"));
}

#[test]
fn memory_type_tags() {
    assert_eq!(MemoryType::Fact.as_str(), "fact");
    assert_eq!(MemoryType::Decision.as_str(), "decision");
    assert_eq!(MemoryType::Identity.as_str(), "identity");
}

#[test]
fn reply_tool_echoes_content() {
    let msg = Arc::new(InboundMessage { conversation_id: "conv-7".to_string(), content: "hi".to_string() });
    let tool = ReplyTool::new(msg);
    let args = ReplyArgs { content: "hello".to_string(), is_stream_chunk: false };
    match ReplyTool::response(&args) {
        OutboundResponse::Text(t) => assert_eq!(t, "hello"),
        OutboundResponse::StreamChunk(_) => panic!("expected text"),
    }
    let out = tool.call(args).ok().unwrap();
    assert!(out.success);
    assert_eq!(out.conversation_id, "conv-7");
    assert_eq!(out.content, "hello");
    let chunk = ReplyArgs { content: "par".to_string(), is_stream_chunk: true };
    assert!(matches!(ReplyTool::response(&chunk), OutboundResponse::StreamChunk(c) if c == "par"));
}

#[test]
fn branch_defaults_and_message() {
    assert_eq!(default_max_turns(), 10);
    let args = BranchArgs { description: "check logs".to_string(), context: None, max_turns: 10 };
    let out = branch_output(&"chan".to_string(), "b-1".to_string(), &args);
    assert!(out.spawned);
    assert_eq!(out.channel_id, "chan");
    assert_eq!(out.message, "Branch b-1 spawned successfully. It will investigate: check logs");
    let spawned = run_branch(&"chan".to_string(), &args);
    assert_eq!(spawned.branch_id.len(), 36);
    assert!(spawned.message.contains(&spawned.branch_id));
}

#[test]
fn fresh_ids_are_uuids_and_differ() {
    let a = create_branch_id();
    let b = create_worker_id();
    assert_eq!(a.len(), 36);
    assert_eq!(b.len(), 36);
    assert_ne!(a, b);
    assert_eq!(a.chars().nth(8), Some('-'));
}

#[test]
fn worker_turn_limits() {
    assert_eq!(worker_max_turns(&worker_args("t", false, None)), 50);
    assert_eq!(worker_max_turns(&worker_args("t", true, None)), 100);
    assert_eq!(worker_max_turns(&worker_args("t", true, Some(7))), 7);
}

#[test]
fn worker_messages() {
    let out = spawn_worker_output(&Some("c".to_string()), "w-1".to_string(), &worker_args("build", false, None));
    assert_eq!(out.message, "Worker w-1 spawned. It will complete: build and report back when done.");
    assert_eq!(out.channel_id, Some("c".to_string()));
    let inter = spawn_worker_output(&None, "w-2".to_string(), &worker_args("code", true, None));
    assert_eq!(
        inter.message,
        "Interactive worker w-2 spawned. It will work on: code. You can route follow-up messages to it."
    );
    assert!(inter.interactive && inter.spawned);
    let fresh = run_spawn_worker(&None, &worker_args("x", false, None));
    assert_eq!(fresh.worker_id.len(), 36);
}

#[test]
fn route_parses_and_canonicalizes_worker_id() {
    let args = RouteArgs {
        worker_id: "67E55044-10B1-426F-9247-BB680E5FE0C8".to_string(),
        message: "go on".to_string(),
    };
    let out = run_route(&"chan".to_string(), &args).ok().unwrap();
    assert!(out.routed);
    assert_eq!(out.worker_id, "67e55044-10b1-426f-9247-bb680e5fe0c8");
    assert_eq!(out.message, "Message routed to worker 67e55044-10b1-426f-9247-bb680e5fe0c8.");
    let simple = RouteArgs { worker_id: "67e5504410b1426f9247bb680e5fe0c8".to_string(), message: String::new() };
    assert_eq!(
        run_route(&"chan".to_string(), &simple).ok().unwrap().worker_id,
        "67e55044-10b1-426f-9247-bb680e5fe0c8"
    );
    assert_eq!(route_output(&"c".to_string(), "w".to_string()).message, "Message routed to worker w.");
}

#[test]
fn route_rejects_bad_worker_id() {
    let args = RouteArgs { worker_id: "not-a-uuid".to_string(), message: "x".to_string() };
    match run_route(&"chan".to_string(), &args) {
        Err(e) => assert!(e.0.starts_with("Invalid worker ID: ")),
        Ok(_) => panic!("expected an error"),
    }
}

fn record(id: &str, importance: u64) -> Memory {
    Memory {
        id: id.to_string(),
        content: format!("content of {id}"),
        memory_type: MemoryType::Fact,
        importance,
        source: Some("chat".to_string()),
        channel_id: None,
    }
}

#[test]
fn importance_is_taken_from_records() {
    let mut cs = vec![
        MemorySearchResult { id: "a".to_string(), score: 5, importance: None },
        MemorySearchResult { id: "zz".to_string(), score: 7, importance: Some(3) },
    ];
    let records = vec![record("b", 20), record("a", 80), record("a", 10)];
    attach_importance(&mut cs, &records);
    assert_eq!(cs[0].importance, Some(80));
    assert_eq!(cs[0].score, 5);
    assert_eq!(cs[1].importance, Some(3));
}

#[test]
fn curated_ids_resolve_to_records_in_order() {
    let curated = vec![
        MemorySearchResult { id: "c".to_string(), score: 9, importance: None },
        MemorySearchResult { id: "missing".to_string(), score: 8, importance: None },
        MemorySearchResult { id: "a".to_string(), score: 7, importance: None },
    ];
    let records = vec![record("a", 1), record("b", 2), record("c", 3)];
    let r = resolve_records(&curated, &records);
    let ids: Vec<&str> = r.iter().map(|m| m.id.as_str()).collect();
    assert_eq!(ids, vec!["c", "a"]);
    assert_eq!(r[0].importance, 3);
    assert_eq!(r[0].source, Some("chat".to_string()));
    assert_eq!(r[1].content, "content of a");
}

#[test]
fn legacy_reply_functions_succeed() {
    let msg = InboundMessage { conversation_id: "c1".to_string(), content: "q".to_string() };
    assert!(reply(&msg, "answer".to_string()).is_ok());
    assert!(reply_stream_chunk(&msg, "par".to_string()).is_ok());
}

#[test]
fn legacy_spawn_and_route_functions() {
    let b = spawn_branch(&"chan".to_string(), "look".to_string()).ok().unwrap();
    assert_eq!(b.len(), 36);
    let w = spawn_worker(&None, "task".to_string(), true).ok().unwrap();
    assert_eq!(w.len(), 36);
    assert_ne!(b, w);
    assert!(route_to_worker(&"chan".to_string(), &w, "hi".to_string()).is_ok());
}
