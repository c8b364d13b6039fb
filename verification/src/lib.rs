//! Core logic of a Bazel build-orchestration layer.
//!
//! The crate turns a raw build-event-protocol stream into self-contained
//! domain events (the hydrator), fans those events out to registered
//! handlers (the dispatcher), and drives an incremental rebuild/retest
//! cycle from file-change notifications (the auto-rebuild orchestrator).
//! Channel plumbing, subprocess launching and terminal rendering live with
//! the embedding application; everything here is pure logic with contracts.

pub mod auto_test_action;
pub mod bazel_event;
pub mod bazel_query;
pub mod error_extraction;
pub mod event_stream_listener;
pub mod hydrated_stream;
pub mod process_build_abort_errors;
pub mod progress_tab_updater;
pub mod string_kv;
