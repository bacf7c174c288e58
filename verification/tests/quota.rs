use mountfs::db::{apply_delta, bytes_written, db_error, QuotaTable};
use mountfs::error::{Error, ErrorKind};
use mountfs::quota::reservation;
use mountfs::quota::staged::{after_rename, tmp_path_for, Accounting, RenameStep};
use mountfs::quota::state::{sync_all, DEFAULT_SYNC_INTERVAL};
use mountfs::quota::{
    CloseStep, MemoryTracker, QuotaCopier, QuotaCounter, QuotaDeleter, QuotaLayer, QuotaState,
    QuotaWriter, Step, Touch,
};
use mountfs::vfs::Operation;
use std::collections::BTreeMap;

const TENANT_ID: &str = "tenant-test";

/// A store in memory, guarded by a limit: sizes by path.
struct Store {
    layer: QuotaLayer,
    files: BTreeMap<String, u64>,
    next: u64,
}

fn load(state: &mut QuotaState, tracker: &MemoryTracker, id: &str) {
    let outcome = match tracker.get_bytes(id) {
        Ok(bytes) => Ok(bytes),
        Err(e) => Err((e.kind(), e)),
    };
    state.finish_load(id, outcome).unwrap();
}

fn current(state: &mut QuotaState, tracker: &MemoryTracker, id: &str) -> u64 {
    loop {
        match state.current_bytes(id) {
            Step::Done(n) => return n,
            Step::Load => load(state, tracker, id),
            Step::Wait => panic!("nobody else loads"),
        }
    }
}

impl Store {
    fn new(id: &str, limit: u64) -> Self {
        Store {
            layer: QuotaLayer::new(id, limit),
            files: BTreeMap::new(),
            next: 0,
        }
    }

    fn staging(&mut self, path: &str) -> String {
        self.next += 1;
        tmp_path_for(path, 0, self.next)
    }

    fn write(&mut self, state: &mut QuotaState, tracker: &MemoryTracker, path: &str, len: u64) -> Result<(), Error> {
        let tmp = self.staging(path);
        let mut w = QuotaWriter::new(&self.layer, path, tmp.clone());
        w.wrote(len);
        self.files.insert(tmp, len);
        let old = *self.files.get(path).unwrap_or(&0);
        loop {
            match w.close(state, old) {
                CloseStep::Load => load(state, tracker, &self.layer.id),
                CloseStep::Wait => panic!("nobody else loads"),
                CloseStep::Reject { error, remove } => {
                    self.files.remove(&remove);
                    assert_eq!(w.written, 0);
                    return Err(error);
                }
                CloseStep::Rename { from, to } => {
                    let size = self.files.remove(&from).unwrap();
                    self.files.insert(to, size);
                    w.placed();
                    return Ok(());
                }
            }
        }
    }

    fn copy(&mut self, state: &mut QuotaState, from: &str, to: &str) -> Result<(), Error> {
        let tmp = self.staging(to);
        let from_size = *self.files.get(from).unwrap_or(&0);
        let to_size = *self.files.get(to).unwrap_or(&0);
        let c = QuotaCopier::new(&self.layer, from, to, tmp);
        match c.close(state, from_size, to_size) {
            CloseStep::Reject { error, .. } => Err(error),
            CloseStep::Rename { to, .. } => {
                self.files.insert(to, from_size);
                Ok(())
            }
            other => panic!("{other:?}"),
        }
    }

    fn rename(&mut self, state: &mut QuotaState, from: &str, to: &str) {
        match self.layer.accounting(Operation::Rename) {
            Accounting::PassedOn => {
                let size = self.files.remove(from).unwrap();
                self.files.insert(to.to_string(), size);
            }
            Accounting::Staged => self.copy(state, from, to).unwrap(),
            Accounting::Freed => self.delete(state, &[from]),
        }
    }

    fn delete(&mut self, state: &mut QuotaState, paths: &[&str]) {
        let mut d = QuotaDeleter::new(&self.layer);
        for p in paths {
            d.queued(*self.files.get(*p).unwrap_or(&0));
            self.files.remove(*p);
        }
        assert!(matches!(d.close(state), Step::Done(())));
        assert!(d.pending_sizes.is_empty());
    }
}

#[test]
fn quota_writes_within_quota_succeed_and_are_tracked() {
    let t = MemoryTracker::default();
    let mut state = QuotaState::new();
    let mut op = Store::new(TENANT_ID, 1024);
    op.write(&mut state, &t, "a.txt", 11).unwrap();
    assert_eq!(current(&mut state, &t, TENANT_ID), 11);
}

#[test]
fn quota_write_exceeding_quota_is_rejected() {
    let t = MemoryTracker::default();
    let mut state = QuotaState::new();
    let mut op = Store::new(TENANT_ID, 10);
    let err = op.write(&mut state, &t, "big.txt", 21).unwrap_err();
    assert_eq!(err.kind(), ErrorKind::RateLimited);
    assert_eq!(
        err.message,
        "write quota exceeded for 'tenant-test': 0 used, 21 would be needed, 10 limit"
    );
    assert_eq!(
        err.context,
        vec![
            ("quota_id", "tenant-test".to_string()),
            ("quota_limit", "10".to_string()),
            ("quota_used", "0".to_string()),
        ]
    );
    assert_eq!(current(&mut state, &t, TENANT_ID), 0);
    assert!(op.files.is_empty());
}

#[test]
fn overwrite_replaces_rather_than_adds() {
    let t = MemoryTracker::default();
    let mut state = QuotaState::new();
    let mut op = Store::new(TENANT_ID, 1024 * 1024);
    op.write(&mut state, &t, "f.txt", 1_000_000).unwrap();
    assert_eq!(current(&mut state, &t, TENANT_ID), 1_000_000);
    op.write(&mut state, &t, "f.txt", 500_000).unwrap();
    assert_eq!(current(&mut state, &t, TENANT_ID), 500_000);
}

#[test]
fn overwrite_that_would_exceed_quota_is_rejected_and_old_size_kept() {
    let t = MemoryTracker::default();
    let mut state = QuotaState::new();
    let mut op = Store::new(TENANT_ID, 1_000_000);
    op.write(&mut state, &t, "f.txt", 100_000).unwrap();
    op.write(&mut state, &t, "other.txt", 850_000).unwrap();
    assert_eq!(current(&mut state, &t, TENANT_ID), 950_000);
    let err = op.write(&mut state, &t, "f.txt", 200_000).unwrap_err();
    assert_eq!(err.kind(), ErrorKind::RateLimited);
    assert_eq!(current(&mut state, &t, TENANT_ID), 950_000);
    assert_eq!(op.files["f.txt"], 100_000);
}

#[test]
fn delete_releases_exact_size() {
    let t = MemoryTracker::default();
    let mut state = QuotaState::new();
    let mut op = Store::new(TENANT_ID, 1024);
    op.write(&mut state, &t, "a.txt", 11).unwrap();
    op.delete(&mut state, &["a.txt"]);
    assert_eq!(current(&mut state, &t, TENANT_ID), 0);
}

#[test]
fn delete_then_rewrite_frees_room_for_new_writes() {
    let t = MemoryTracker::default();
    let mut state = QuotaState::new();
    let mut op = Store::new(TENANT_ID, 10);
    op.write(&mut state, &t, "a.txt", 10).unwrap();
    assert!(op.write(&mut state, &t, "b.txt", 1).is_err());
    op.delete(&mut state, &["a.txt"]);
    assert_eq!(current(&mut state, &t, TENANT_ID), 0);
    op.write(&mut state, &t, "b.txt", 10).unwrap();
    assert_eq!(current(&mut state, &t, TENANT_ID), 10);
}

#[test]
fn rename_does_not_change_total_bytes_used() {
    let t = MemoryTracker::default();
    let mut state = QuotaState::new();
    let mut op = Store::new(TENANT_ID, 1024);
    op.write(&mut state, &t, "a.txt", "hello world".len() as u64).unwrap();
    let before = current(&mut state, &t, TENANT_ID);
    assert_eq!(before, 11);
    op.rename(&mut state, "a.txt", "b.txt");
    assert_eq!(current(&mut state, &t, TENANT_ID), before);
    assert_eq!(op.files["b.txt"], 11);
    assert!(!op.files.contains_key("a.txt"));
}

#[test]
fn operations_are_accounted_for() {
    let layer = QuotaLayer::new(TENANT_ID, 1);
    assert_eq!(layer.accounting(Operation::Rename), Accounting::PassedOn);
    assert_eq!(layer.accounting(Operation::CreateDir), Accounting::PassedOn);
    assert_eq!(layer.accounting(Operation::Write), Accounting::Staged);
    assert_eq!(layer.accounting(Operation::Copy), Accounting::Staged);
    assert_eq!(layer.accounting(Operation::Delete), Accounting::Freed);
}

#[test]
fn copy_of_new_object_adds_its_size_to_the_total() {
    let t = MemoryTracker::default();
    let mut state = QuotaState::new();
    let mut op = Store::new(TENANT_ID, 1024);
    op.write(&mut state, &t, "a.txt", 11).unwrap();
    op.copy(&mut state, "a.txt", "b.txt").unwrap();
    assert_eq!(current(&mut state, &t, TENANT_ID), 22);
}

#[test]
fn copy_exceeding_quota_is_rejected_and_source_untouched() {
    let t = MemoryTracker::default();
    let mut state = QuotaState::new();
    let mut op = Store::new(TENANT_ID, 15);
    op.write(&mut state, &t, "a.txt", 11).unwrap();
    let err = op.copy(&mut state, "a.txt", "b.txt").unwrap_err();
    assert_eq!(err.kind(), ErrorKind::RateLimited);
    assert_eq!(current(&mut state, &t, TENANT_ID), 11);
    assert!(!op.files.contains_key("b.txt"));
}

#[test]
fn multiple_deletes_in_one_batch_all_release() {
    let t = MemoryTracker::default();
    let mut state = QuotaState::new();
    let mut op = Store::new(TENANT_ID, 1024);
    op.write(&mut state, &t, "a.txt", 5).unwrap();
    op.write(&mut state, &t, "b.txt", 6).unwrap();
    assert_eq!(current(&mut state, &t, TENANT_ID), 11);
    op.delete(&mut state, &["a.txt", "b.txt"]);
    assert_eq!(current(&mut state, &t, TENANT_ID), 0);
}

#[test]
fn deletes_wait_for_the_id_to_be_loaded() {
    let mut state = QuotaState::new();
    let layer = QuotaLayer::new("x", 10);
    let mut d = QuotaDeleter::new(&layer);
    assert!(matches!(d.close(&mut state), Step::Done(())));
    d.queued(4);
    assert!(matches!(d.close(&mut state), Step::Load));
    assert!(matches!(d.close(&mut state), Step::Wait));
    assert_eq!(d.pending_sizes, vec![4]);
    state.finish_load::<()>("x", Ok(9)).unwrap();
    assert!(matches!(d.close(&mut state), Step::Done(())));
    assert!(matches!(layer.current_bytes(&mut state), Step::Done(5)));
    d.queued(1);
    d.discard();
    assert!(d.pending_sizes.is_empty());
}

#[test]
fn one_state_tracks_multiple_ids_independently() {
    let t = MemoryTracker::default();
    let mut state = QuotaState::new();
    let mut a = Store::new("tenant-a", 1024);
    let mut b = Store::new("tenant-b", 1024);
    a.write(&mut state, &t, "a.txt", 5).unwrap();
    b.write(&mut state, &t, "b.txt", 7).unwrap();
    assert_eq!(current(&mut state, &t, "tenant-a"), 5);
    assert_eq!(current(&mut state, &t, "tenant-b"), 7);
}

#[test]
fn id_is_loaded_lazily_only_on_first_touch() {
    let mut t = MemoryTracker::default();
    t.set_bytes("untouched", 999);
    let mut state = QuotaState::new();
    assert!(state.ids().is_empty());
    assert_eq!(current(&mut state, &t, "untouched"), 999);
}

#[test]
fn new_id_defaults_to_zero_when_nothing_persisted_yet() {
    let t = MemoryTracker::default();
    let mut state = QuotaState::new();
    assert_eq!(t.get_bytes("brand-new-id").unwrap_err().message, "id not found");
    assert_eq!(current(&mut state, &t, "brand-new-id"), 0);
}

#[test]
fn a_real_lookup_error_on_first_touch_is_propagated_not_defaulted() {
    let mut state = QuotaState::new();
    assert!(matches!(state.current_bytes(TENANT_ID), Step::Load));
    let err = state
        .finish_load(TENANT_ID, Err((ErrorKind::Unexpected, "db is on fire")))
        .unwrap_err();
    assert_eq!(err, "db is on fire");
    // The next touch tries again.
    assert!(matches!(state.current_bytes(TENANT_ID), Step::Load));
}

#[test]
fn concurrent_first_touches_on_the_same_id_load_exactly_once() {
    let mut state = QuotaState::new();
    let mut loads = 0;
    for _ in 0..20 {
        if state.touch(TENANT_ID) == Touch::Load {
            loads += 1;
        }
    }
    assert_eq!(loads, 1);
    state.finish_load::<()>(TENANT_ID, Ok(3)).unwrap();
    assert_eq!(state.touch(TENANT_ID), Touch::Ready);
}

#[test]
fn apply_delta_rejects_without_mutating_when_over_limit() {
    let mut counter = QuotaCounter::new(0);

    counter.apply_delta("id", 0, 100, 1000).unwrap();

    let err = counter.apply_delta("id", 0, 950, 1000).unwrap_err();
    assert_eq!(err.kind(), ErrorKind::RateLimited);

    // Rejected delta must not have mutated the stored value.
    assert_eq!(counter.get(), 100);
}

#[test]
fn quota_concurrent_apply_deltas_never_exceed_the_limit() {
    let mut counter = QuotaCounter::new(0);
    let succeeded = (0..20)
        .filter(|_| counter.apply_delta("shared", 0, 100, 1000).is_ok())
        .count();
    assert_eq!(succeeded, 10);
    assert_eq!(counter.get(), 1000);
}

#[test]
fn apply_delta_saturates() {
    let mut counter = QuotaCounter::new(5);
    assert_eq!(counter.apply_delta("id", 9, 1, 10).unwrap(), 1);
    assert_eq!(counter.apply_delta("id", 0, u64::MAX, u64::MAX).unwrap(), u64::MAX);
    assert!(counter.dirty);
    counter.reset();
    assert_eq!(counter.get(), 0);
}

#[test]
fn background_task_persists_dirty_total_to_tracker() {
    let mut t = MemoryTracker::default();
    let mut state = QuotaState::new();
    let mut op = Store::new(TENANT_ID, 1024);
    op.write(&mut state, &t, "a.txt", 11).unwrap();
    assert_eq!(t.snapshot(TENANT_ID), 0);
    sync_all(&mut state, &mut t);
    assert_eq!(t.snapshot(TENANT_ID), 11);
    assert_eq!(state.take_dirty(TENANT_ID), None);
}

#[test]
fn background_task_syncs_multiple_ids_independently() {
    let mut t = MemoryTracker::default();
    let mut state = QuotaState::new();
    assert_eq!(current(&mut state, &t, "a"), 0);
    assert!(matches!(state.commit_write("a", u64::MAX, 0, 5), Step::Done(Ok(5))));
    // The first write to an id asks for its total.
    assert!(matches!(state.commit_write("b", u64::MAX, 0, 9), Step::Load));
    load(&mut state, &t, "b");
    assert!(matches!(state.commit_write("b", u64::MAX, 0, 9), Step::Done(Ok(9))));
    assert_eq!(state.touch("c"), Touch::Load);
    sync_all(&mut state, &mut t);
    assert_eq!(t.snapshot("a"), 5);
    assert_eq!(t.snapshot("b"), 9);
    assert!(t.get_bytes("c").is_err());
    // After a restart the totals are what they were.
    let mut again = QuotaState::new();
    assert_eq!(current(&mut again, &t, "b"), 9);
}

#[test]
fn a_round_writes_changed_totals_alone() {
    let mut t = MemoryTracker::default();
    t.set_bytes("old", 3);
    let mut state = QuotaState::new();
    state.finish_load::<()>("read", Ok(8)).unwrap();
    state.reset("zero");
    sync_all(&mut state, &mut t);
    assert_eq!(t.get_bytes("zero").unwrap(), 0);
    assert!(t.get_bytes("read").is_err());
    assert_eq!(t.get_bytes("old").unwrap(), 3);
}

#[test]
fn refused_ids_wait_for_the_next_round() {
    let mut t = MemoryTracker::default();
    let mut state = QuotaState::new();
    for (id, bytes) in [("a", 5), ("b", 9), ("c", 2)] {
        state.finish_load::<()>(id, Ok(0)).unwrap();
        assert!(matches!(state.commit_write(id, 100, 0, bytes), Step::Done(Ok(_))));
    }
    for id in state.ids() {
        if let Some(bytes) = state.take_dirty(&id) {
            if id == "b" {
                state.sync_failed(&id);
            } else {
                t.set_bytes(&id, bytes);
            }
        }
    }
    assert_eq!((t.snapshot("a"), t.snapshot("c")), (5, 2));
    assert!(t.get_bytes("b").is_err());
    assert!(matches!(state.current_bytes("b"), Step::Done(9)));
    assert_eq!(state.take_dirty("a"), None);
    assert_eq!(state.take_dirty("b"), Some(9));
}

#[test]
fn failed_sync_is_tried_again() {
    let mut state = QuotaState::new();
    state.reset("a");
    assert_eq!(state.take_dirty("a"), Some(0));
    assert_eq!(state.take_dirty("a"), None);
    state.sync_failed("a");
    assert_eq!(state.take_dirty("a"), Some(0));
    state.sync_failed("unknown");
    assert_eq!(state.ids(), vec!["a"]);
    assert_eq!(DEFAULT_SYNC_INTERVAL, 30);
}

#[test]
fn reset_wins_over_a_load_that_is_under_way() {
    let mut state = QuotaState::new();
    assert_eq!(state.touch("a"), Touch::Load);
    state.clear("a");
    state.finish_load::<()>("a", Ok(500)).unwrap();
    assert!(matches!(state.current_bytes("a"), Step::Done(0)));
}

#[test]
fn failed_rename_takes_the_count_back() {
    let t = MemoryTracker::default();
    let mut state = QuotaState::new();
    let mut op = Store::new(TENANT_ID, 100);
    op.write(&mut state, &t, "f", 40).unwrap();
    let mut w = QuotaWriter::new(&op.layer, "f", "f.tmp".into());
    w.wrote(30);
    w.wrote(20);
    assert!(matches!(w.close(&mut state, 40), CloseStep::Rename { .. }));
    assert_eq!(current(&mut state, &t, TENANT_ID), 50);
    assert_eq!(w.rename_failed(&mut state, 40), "f.tmp");
    assert_eq!(current(&mut state, &t, TENANT_ID), 40);
    let c = QuotaCopier::new(&op.layer, "f", "g", "g.tmp".into());
    assert!(matches!(c.close(&mut state, 40, 0), CloseStep::Rename { .. }));
    assert_eq!(c.rename_failed(&mut state, 40, 0), "g.tmp");
    assert_eq!(current(&mut state, &t, TENANT_ID), 40);
    let mut w = QuotaWriter::new(&op.layer, "f", "f.tmp".into());
    w.wrote(7);
    assert_eq!(w.abort(), "f.tmp");
    assert_eq!(w.written, 0);
}

#[test]
fn staging_paths_and_renames() {
    assert_eq!(tmp_path_for("a/b.txt", 12, 3), "a/b.txt.quota-tmp-12-3");
    assert_ne!(tmp_path_for("a", 1, 2), tmp_path_for("a", 1, 3));
    assert_eq!(after_rename(false, true), RenameStep::Placed);
    assert_eq!(after_rename(false, false), RenameStep::RemoveThenRetry);
    assert_eq!(after_rename(true, true), RenameStep::Placed);
    assert_eq!(after_rename(true, false), RenameStep::GiveUp);
}

#[test]
fn reservations_are_kept_in_the_tracker() {
    let mut t = MemoryTracker::default();
    let q = reservation::QuotaState::new(TENANT_ID, 1024);
    let mut w = reservation::QuotaWriter::new();
    reservation::reserve_in(&q, &mut t, 11).unwrap();
    w.reserved(11);
    assert_eq!(t.snapshot(TENANT_ID), 11);
    w.failed(11);
    reservation::release_in(&q, &mut t, 11);
    assert_eq!(t.snapshot(TENANT_ID), 0);
    reservation::reserve_in(&q, &mut t, 5).unwrap();
    w.reserved(5);
    let back = w.abort();
    assert_eq!(back, 5);
    reservation::release_in(&q, &mut t, back);
    assert_eq!(t.snapshot(TENANT_ID), 0);
    w.reserved(3);
    w.close();
    assert_eq!(w.reserved, 0);
}

#[test]
fn reservation_over_the_limit_is_rejected() {
    let mut t = MemoryTracker::default();
    let q = reservation::QuotaState::new(TENANT_ID, 10);
    let err = reservation::reserve_in(&q, &mut t, 21).unwrap_err();
    assert_eq!(err.kind(), ErrorKind::RateLimited);
    assert_eq!(
        err.message,
        "write quota exceeded for 'tenant-test': 0 used, 21 requested, 10 limit"
    );
    assert_eq!(err.context[3], ("quota_requested", "21".to_string()));
    assert_eq!(t.snapshot(TENANT_ID), 0);
    assert!(reservation::reserve_in(&q, &mut t, 0).is_ok());
    assert!(t.get_bytes(TENANT_ID).is_err());
    assert_eq!(q.release(3, 5), 0);
}

#[test]
fn unknown_quota_id_returns_zero() {
    assert_eq!(QuotaTable::new().get_bytes_written("ghost"), 0);
    assert_eq!(bytes_written(None), 0);
    assert_eq!(bytes_written(Some(7)), 7);
}

#[test]
fn apply_delta_on_new_id_creates_row_and_returns_total() {
    let mut db = QuotaTable::new();
    let total = db.apply_delta("user:alice:primary", 0, 1_234_567, u64::MAX).unwrap();
    assert_eq!(total, 1_234_567);
    assert_eq!(db.get_bytes_written("user:alice:primary"), 1_234_567);
}

#[test]
fn apply_delta_replaces_old_size_with_new_size() {
    let mut db = QuotaTable::new();
    db.apply_delta("id", 0, 100, u64::MAX).unwrap();
    db.apply_delta("id", 100, 999, u64::MAX).unwrap();
    assert_eq!(db.get_bytes_written("id"), 999);
    db.clear("id");
    assert_eq!(db.get_bytes_written("id"), 0);
}

#[test]
fn quota_ids_are_isolated() {
    let mut db = QuotaTable::new();
    db.apply_delta("a", 0, 1, u64::MAX).unwrap();
    db.apply_delta("b", 0, 2, u64::MAX).unwrap();
    assert_eq!(db.get_bytes_written("a"), 1);
    assert_eq!(db.get_bytes_written("b"), 2);
}

#[test]
fn apply_delta_over_limit_is_rejected_and_does_not_mutate() {
    let mut db = QuotaTable::new();
    db.apply_delta("id", 0, 100, 1_000).unwrap();
    let err = db.apply_delta("id", 0, 950, 1_000).unwrap_err();
    assert_eq!(err.kind(), ErrorKind::RateLimited);
    assert_eq!(
        err.message,
        "write quota exceeded for 'id': 100 used, 1050 would be needed, 1000 limit"
    );
    assert_eq!(db.get_bytes_written("id"), 100);
}

#[test]
fn apply_delta_never_goes_negative() {
    let mut db = QuotaTable::new();
    db.apply_delta("id", 0, 50, u64::MAX).unwrap();
    assert_eq!(db.apply_delta("id", 500, 0, u64::MAX).unwrap(), 0);
}

#[test]
fn db_concurrent_apply_deltas_never_exceed_the_limit() {
    let mut db = QuotaTable::new();
    let succeeded = (0..20)
        .filter(|_| db.apply_delta("shared", 0, 100, 1_000).is_ok())
        .count();
    assert_eq!(succeeded, 10);
    assert_eq!(db.get_bytes_written("shared"), 1_000);
}

#[test]
fn tables_hold_signed_numbers() {
    let most = i64::MAX as u64;
    assert_eq!(apply_delta(Some(most), "id", 0, 0, u64::MAX).unwrap(), most);
    let err = apply_delta(Some(most), "id", 0, 1, u64::MAX).unwrap_err();
    assert_eq!(err.context[1], ("quota_limit", "9223372036854775807".to_string()));
    assert_eq!(db_error("clear quota").message, "Failed to clear quota");
    assert_eq!(db_error("clear quota").kind(), ErrorKind::Unexpected);
}
