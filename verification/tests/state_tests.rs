use mlx_local_server::lm::batch::{batch_not_found_message, BatchLog, BatchProgress, BatchStatus};
use mlx_local_server::lm::jobs::{
    default_adapter_path, default_fine_tune_type, TrainingEventKind, TrainingLifecycle, TrainingRun, TrainingSettings,
    TrainingStatus,
};
use mlx_local_server::lm::registry::{NamedList, PrefixCache};
use mlx_local_server::lm::service::{
    is_moe_layer, LoadedModel, ModelSlots, MountedAdapter, ServiceError, MAX_MOUNTED_ADAPTERS,
};
use mlx_local_server::lm::vectors::{document_id, search_top_k, StoreError, VectorStores};

#[test]
fn batch_runs_to_completion() {
    let mut b = BatchProgress::new(3, 100);
    assert!(b.status == BatchStatus::Validating);
    assert_eq!(b.status.as_str(), "validating");
    b.start(101);
    assert!(b.status == BatchStatus::InProgress);
    assert_eq!(b.in_progress_at, Some(101));
    b.record(true);
    b.record(false);
    b.record(true);
    assert_eq!(b.pending(), 0);
    b.finish(105);
    assert!(b.status == BatchStatus::Completed);
    assert_eq!(b.status.as_str(), "completed");
    assert_eq!(b.completed_at, Some(105));
    assert_eq!((b.request_counts.completed, b.request_counts.failed), (2, 1));
}

#[test]
fn batch_log_keeps_answers_and_errors_with_the_counts() {
    let mut l: BatchLog<&str> = BatchLog::new(2, 10);
    l.progress.start(11);
    assert!(l.record(true, "answer-1"));
    assert!(l.record(false, "error-2"));
    assert!(!l.record(true, "extra"));
    assert_eq!(l.results, vec!["answer-1"]);
    assert_eq!(l.errors, vec!["error-2"]);
    assert_eq!((l.progress.request_counts.completed, l.progress.request_counts.failed), (1, 1));
    l.progress.finish(12);
    assert_eq!(l.progress.status.as_str(), "completed");
}

#[test]
fn batch_with_only_failures_fails() {
    let mut b = BatchProgress::new(2, 0);
    b.start(1);
    b.record(false);
    b.record(false);
    b.finish(2);
    assert!(b.status == BatchStatus::Failed);
    assert_eq!(b.failed_at, Some(2));
    let mut empty = BatchProgress::new(0, 0);
    empty.start(1);
    empty.finish(2);
    assert!(empty.status == BatchStatus::Completed);
}

#[test]
fn cancelled_batch_stops_and_ends_cancelled() {
    let mut b = BatchProgress::new(5, 0);
    b.start(1);
    b.record(true);
    assert!(!b.stop_requested());
    b.cancel();
    assert!(b.status == BatchStatus::Cancelling);
    assert!(b.stop_requested());
    b.finish(9);
    assert!(b.status == BatchStatus::Cancelled);
    assert_eq!(b.cancelled_at, Some(9));
    // a cancel after the end changes nothing
    b.cancel();
    assert!(b.status == BatchStatus::Cancelled);
    assert_eq!(batch_not_found_message("b1"), "No batch found with id 'b1'");
}

#[test]
fn named_list_keeps_one_entry_per_name() {
    let mut l: NamedList<u32> = NamedList::new();
    l.insert("a".into(), 1);
    l.insert("b".into(), 2);
    l.insert("a".into(), 3);
    assert_eq!(l.len(), 2);
    assert_eq!(l.get("a"), Some(&3));
    assert_eq!(l.position("b"), Some(1));
    assert_eq!(l.remove("a"), Some(3));
    assert_eq!(l.remove("a"), None);
    assert!(!l.contains("a"));
    assert_eq!(l.len(), 1);
}

#[test]
fn prefix_cache_evicts_the_least_recently_hit() {
    let mut c: PrefixCache<&str> = PrefixCache::new();
    c.store(1, "one", 10, 100, 2);
    c.store(2, "two", 20, 200, 2);
    assert_eq!(c.hit(1, 300), Some(10));
    // entry 2 (last hit 200) is now the least recent
    c.store(3, "three", 30, 400, 2);
    assert_eq!(c.len(), 2);
    assert!(c.contains(1) && c.contains(3) && !c.contains(2));
    assert_eq!(c.snapshot(3), Some(&"three"));
    assert_eq!(c.hit(2, 500), None);
    let stats = c.stats();
    assert_eq!(stats.len(), 2);
    let one = stats.iter().find(|s| s.token_count == 10).unwrap();
    assert_eq!((one.hits, one.last_hit), (1, 300));
    // storing a known hash replaces it without eviction
    c.store(3, "again", 31, 600, 2);
    assert_eq!(c.len(), 2);
    assert_eq!(c.snapshot(3), Some(&"again"));
    assert_eq!(c.clear(), 2);
    assert_eq!(c.len(), 0);
}

fn adapter(name: &str) -> MountedAdapter<u8> {
    MountedAdapter { model: 1, tokenizer: 2, base_model_id: "base".into(), adapter_path: format!("./{name}"), mounted_at: 7 }
}

#[test]
fn adapters_are_capped() {
    let mut s: ModelSlots<u8> = ModelSlots::new();
    for name in ["a", "b", "c", "d"] {
        assert!(s.check_mount(name).is_ok());
        assert!(s.mount(name.to_string(), adapter(name)).is_ok());
    }
    assert_eq!(MAX_MOUNTED_ADAPTERS, 4);
    match s.check_mount("e") {
        Err(ServiceError::LoadFailed(m)) => assert_eq!(m, "Adapter limit (4) reached; unmount one first"),
        _ => panic!("expected the adapter limit"),
    }
    // mounting itself refuses a fifth adapter, and changes nothing
    match s.mount("e".into(), adapter("e")) {
        Err(ServiceError::LoadFailed(m)) => assert_eq!(m, "Adapter limit (4) reached; unmount one first"),
        _ => panic!("expected the adapter limit"),
    }
    assert_eq!(s.list_adapters().len(), 4);
    // a mounted name may be replaced
    assert!(s.check_mount("b").is_ok());
    let mut newer = adapter("b");
    newer.adapter_path = "./b-v2".into();
    assert!(s.mount("b".into(), newer).is_ok());
    assert_eq!(s.list_adapters().len(), 4);
    assert_eq!(s.list_adapters()[1].adapter_path, "./b-v2");
    assert!(s.unmount("a"));
    assert!(!s.unmount("a"));
    assert!(s.check_mount("e").is_ok());
    let listed = s.list_adapters();
    assert_eq!(listed.len(), 3);
    assert_eq!(listed[0].name, "b");
    assert_eq!(listed[0].adapter_path, "./b-v2");
}

#[test]
fn model_loading_rules() {
    let mut s: ModelSlots<u8> = ModelSlots::new();
    assert!(matches!(s.refs_for(None), Err(ServiceError::NotLoaded)));
    assert!(matches!(s.check_load("  ", &None), Err(ServiceError::LoadFailed(_))));
    let allowed = Some(vec!["m1".to_string()]);
    assert!(matches!(s.check_load("m2", &allowed), Err(ServiceError::NotAllowed(_))));
    assert!(matches!(s.check_load("m1", &allowed), Ok(false)));
    s.set_loaded(LoadedModel { model: 1, tokenizer: 2, model_id: "m1".into(), loaded_at_unix: 5, draft_model: Some(3) });
    assert!(matches!(s.check_load("m1", &allowed), Ok(true)));
    assert_eq!(s.current_model(), Some("m1".to_string()));
    assert_eq!(s.loaded_info(), Some(("m1".to_string(), 5)));
    let refs = s.refs_for(None).ok().unwrap();
    assert_eq!((*refs.model, *refs.tokenizer, refs.draft_model.copied()), (1, 2, Some(3)));
    match s.refs_for(Some("nope")) {
        Err(ServiceError::AdapterNotFound(n)) => assert_eq!(n, "nope"),
        _ => panic!("expected an unknown adapter"),
    }
    assert!(s.mount("lora".into(), adapter("lora")).is_ok());
    let refs = s.refs_for(Some("lora")).ok().unwrap();
    assert!(refs.draft_model.is_none());
    assert!(s.unload_named("other").is_err());
    assert!(s.is_loaded());
    assert!(s.unload_named("m1").is_ok());
    assert!(!s.is_loaded());
    assert_eq!(s.unload(), None);
}

#[test]
fn error_statuses_codes_and_messages() {
    let e = ServiceError::NotAllowed("m".into());
    assert_eq!((e.status(), e.code()), (400, "model_load_error"));
    assert_eq!(e.message(), "Model 'm' is not in the allowed models list");
    let e = ServiceError::AdapterNotFound("x".into());
    assert_eq!((e.status(), e.code(), e.message()), (404, "adapter_not_found", "Adapter 'x' is not mounted".to_string()));
    assert_eq!(ServiceError::NotLoaded.status(), 503);
    assert_eq!(ServiceError::Timeout.status(), 504);
    assert_eq!(ServiceError::TokenLimit("t".into()).code(), "message_too_long");
    assert_eq!(ServiceError::Internal("i".into()).message(), "Internal error: i");
}

#[test]
fn sessions_are_kept_until_deleted() {
    let mut s: ModelSlots<u8> = ModelSlots::new();
    assert!(s.session("c1").is_none());
    s.commit_session("c1".into(), 9, 120);
    assert_eq!(s.session("c1").map(|p| p.cached_tokens), Some(120));
    s.commit_session("c1".into(), 9, 240);
    assert_eq!(s.session("c1").map(|p| p.cached_tokens), Some(240));
    s.delete_session("c1");
    assert!(s.session("c1").is_none());
}

#[test]
fn training_jobs_go_pending_running_done() {
    assert_eq!(default_fine_tune_type(), "lora");
    assert_eq!(default_adapter_path(), "./adapters");
    let mut j = TrainingLifecycle::queued(10);
    assert_eq!(j.status.as_str(), "pending");
    j.start(11);
    assert!(j.status == TrainingStatus::Running);
    j.finish(20, Some("boom".into()));
    assert!(j.status == TrainingStatus::Failed);
    assert_eq!(j.completed_at, Some(20));
    assert_eq!(j.error.as_deref(), Some("boom"));
    let mut k = TrainingLifecycle::queued(0);
    k.start(1);
    k.finish(2, None);
    assert_eq!(k.status.as_str(), "completed");
    let t = TrainingSettings::resolve(None, Some(8), None, None, None, None, None, None);
    assert_eq!((t.iters, t.batch_size, t.num_layers, t.max_seq_length), (100, 8, 16, 2048));
    assert_eq!((t.steps_per_report, t.steps_per_eval, t.save_every, t.grad_accumulation_steps), (10, 200, 100, 1));
}

#[test]
fn training_runs_log_their_events() {
    let mut r = TrainingRun::queued(5);
    assert!(r.events.is_empty());
    r.start(6);
    r.start(9);
    assert_eq!(r.lifecycle.started_at, Some(6));
    r.progress("Training m".into());
    r.conclude(8, "./adapters".into(), None);
    assert_eq!(r.lifecycle.status.as_str(), "completed");
    assert_eq!(r.events.len(), 2);
    assert!(r.events[0].kind == TrainingEventKind::Progress);
    assert_eq!(r.events[1].kind.as_str(), "done");
    assert_eq!(r.events[1].adapter_path.as_deref(), Some("./adapters"));
    assert_eq!(r.events[1].message, "Training complete");
    let mut f = TrainingRun::queued(0);
    f.start(1);
    f.conclude(2, "./a".into(), Some("oom".into()));
    assert_eq!(f.lifecycle.status.as_str(), "failed");
    assert_eq!(f.lifecycle.error.as_deref(), Some("oom"));
    assert_eq!(f.events.len(), 1);
    assert_eq!(f.events[0].kind.as_str(), "error");
    assert_eq!(f.events[0].message, "oom");
    assert!(f.events[0].adapter_path.is_none());
}

#[test]
fn vector_stores_hold_documents() {
    let mut v: VectorStores<&str> = VectorStores::new();
    let created = v.create("docs".into());
    assert_eq!(created.document_count, 0);
    assert_eq!(created.id.len(), 36);
    assert!(matches!(v.documents_for_search(&created.id), Err(StoreError::Empty)));
    assert!(v.add_document(&created.id, "d1"));
    assert!(v.add_document(&created.id, "d2"));
    assert!(!v.add_document("missing", "d3"));
    assert_eq!(v.get(&created.id).unwrap().document_count, 2);
    assert_eq!(v.documents_for_search(&created.id).ok().unwrap(), &vec!["d1", "d2"]);
    assert!(matches!(v.documents_for_search("missing"), Err(StoreError::NotFound)));
    assert_eq!(v.list().len(), 1);
    assert!(v.delete(&created.id));
    assert!(v.get(&created.id).is_none());
    assert!(!v.delete(&created.id));
    assert_eq!(document_id(Some("mine".into())), "mine");
    assert_eq!(document_id(None).len(), 36);
    assert_eq!(search_top_k(None), 5);
    assert_eq!(search_top_k(Some(2)), 2);
}

#[test]
fn moe_router_layers_are_recognised_in_any_case() {
    assert!(is_moe_layer("Qwen3MoeSparseMoeBlock"));
    assert!(is_moe_layer("SwitchGLU"));
    assert!(is_moe_layer("ExpertRouter"));
    assert!(!is_moe_layer("Attention"));
    assert!(!is_moe_layer(""));
}

#[test]
fn vector_stores_record_their_creation_time() {
    let mut v: VectorStores<&str> = VectorStores::new();
    let created = v.create_at("docs".into(), 77);
    assert_eq!(created.created_at, 77);
    assert_eq!(created.name, "docs");
    assert_eq!(created.document_count, 0);
    assert_eq!(created.id.len(), 36);
}
