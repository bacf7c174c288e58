use mountfs::error::ErrorKind;
use mountfs::ftp::{authenticate, check_upload, limited_point, LoginError};
use mountfs::model::{VfsPoint, VfsUser};
use mountfs::quota::{QuotaState, Step};
use mountfs::server::by_path;
use mountfs::server::files::{
    after_step, directory_exists, entry_to_node, node_name, open_write, operator_path, probe_file,
    read_range, replaces, require_path, splice, start_transfer, stat_directory, transfer,
    transfer_point, write_vfs, BackendInfo, Probe, Stat, TransferPlan, TransferStep, VfsPath,
};
use mountfs::server::handles::WriteHandles;
use mountfs::server::ids::{
    fresh_id, handle_id_from, id_text, invalid_snapshot, job_id_from, parse_handle_id,
    parse_job_id, snapshot_ids,
};
use mountfs::server::jobs::{
    Event, Jobs, Priority, RusticProgressBars, Timestamp,
};
use mountfs::server::requests::{
    backup, backup_tags, check, forget, get_snapshots, reported_summary, restore, Summary,
};
use mountfs::server::users::{
    check_local_quota, clear_removed, disk_usage, get_vfs, growth_of, jobs_to_cancel, must_measure,
    point_places, set_vfs, usage_of, Usage,
};
use mountfs::status::Code;
use mountfs::store::{mount_point, point_layers, point_store, PointStore};
use mountfs::strmap::StrMap;
use mountfs::vfs::{MountLayer, VfsBuilder};

const NOW: Timestamp = Timestamp {
    seconds: 5,
    nanos: 7,
};

fn point(name: &str, read_only: bool, max_bytes: Option<u64>, repo: Option<&str>) -> VfsPoint {
    VfsPoint {
        name: name.into(),
        max_bytes,
        read_only,
        scheme: "memory".into(),
        config: StrMap::new(),
        is_repo: repo.is_some(),
        repo_password: repo.map(str::to_string),
    }
}

/// A data point on local disk, in the directory `root` if one is given.
fn on_disk(name: &str, root: Option<&str>, max_bytes: Option<u64>) -> VfsPoint {
    let mut p = point(name, false, max_bytes, None);
    p.scheme = "fs".into();
    if let Some(root) = root {
        p.config.insert("root".into(), root.into());
    }
    p
}

fn user(name: &str, points: Vec<VfsPoint>) -> VfsUser {
    VfsUser {
        username: name.into(),
        password: "pw".into(),
        points,
    }
}

// ── Identifiers ─────────────────────────────────────────────────────────────

#[test]
fn identifiers_are_written_and_read() {
    let id = 0x550e8400_e29b_41d4_a716_446655440000u128;
    assert_eq!(id_text(id), "550e8400-e29b-41d4-a716-446655440000");
    assert_eq!(parse_job_id("550e8400-e29b-41d4-a716-446655440000").unwrap(), id);
    assert_eq!(parse_handle_id("550E8400E29B41D4A716446655440000").unwrap(), id);
    assert_eq!(id_text(1), "00000000-0000-0000-0000-000000000001");
}

#[test]
fn malformed_identifiers_are_refused() {
    let e = parse_handle_id("nope").unwrap_err();
    assert_eq!((e.code, e.message.as_str()), (Code::InvalidArgument, "malformed handle_id"));
    let e = parse_job_id("nope").unwrap_err();
    assert_eq!(e.code, Code::InvalidArgument);
    assert!(e.message.starts_with("bad job_id: "));
    assert!(e.message.len() > "bad job_id: ".len());
    assert_eq!(job_id_from(Err("why".into())).unwrap_err().message, "bad job_id: why");
    assert_eq!(handle_id_from(Ok(4)).unwrap(), 4);
}

#[test]
fn new_identifiers_are_random_ones() {
    let a = fresh_id();
    let b = fresh_id();
    assert_ne!(a, b);
    assert_eq!((a >> 76) & 0xf, 4);
    assert_eq!((a >> 62) & 0x3, 2);
}

#[test]
fn snapshots_are_named_by_64_digits() {
    let id = "0123456789ABCDEF0123456789abcdef0123456789abcdef0123456789abcdef";
    assert_eq!(snapshot_ids(&vec![id.to_string()]).unwrap(), vec![id.to_lowercase()]);
    let e = snapshot_ids(&vec![id.to_string(), "xyz".to_string(), "".to_string()]).unwrap_err();
    assert_eq!(e.code, Code::InvalidArgument);
    assert!(e.message.starts_with("invalid snapshot id 'xyz': "));
    assert!(snapshot_ids(&vec!["g".repeat(64)]).is_err());
    assert!(snapshot_ids(&vec!["0".repeat(62)]).is_err());
    assert_eq!(snapshot_ids(&vec![]).unwrap(), Vec::<String>::new());
    assert_eq!(invalid_snapshot("a", "b").message, "invalid snapshot id 'a': b");
}

// ── Jobs ────────────────────────────────────────────────────────────────────

#[test]
fn jobs_run_report_and_end() {
    let mut jobs = Jobs::new();
    let (id, text) = jobs.spawn_job("alice");
    assert_eq!(text, id_text(id));
    assert_eq!(jobs.cancel_job(&text).unwrap(), id);
    let bar = RusticProgressBars::new(id).create_new("disk");
    jobs.report(bar.set_title("reading", NOW));
    jobs.finish(id, Err("broken".into()), NOW);
    let events = jobs.poll();
    assert_eq!(events.len(), 3);
    match &events[0] {
        Event::BarTitle { title, job_id, .. } => {
            assert_eq!(title, "[disk] reading");
            assert_eq!(job_id, &text);
        }
        other => panic!("{other:?}"),
    }
    assert_eq!(
        events[1],
        Event::JobMessage {
            job_id: text.clone(),
            priority: Priority::Error,
            message: "broken".into(),
            time: NOW
        }
    );
    assert_eq!(
        events[2],
        Event::JobFinished {
            job_id: text.clone(),
            success: false,
            snapshot: None,
            time: NOW
        }
    );
    assert!(jobs.poll().is_empty());
    let e = jobs.cancel_job(&text).unwrap_err();
    assert_eq!(e.code, Code::NotFound);
    assert_eq!(e.message, format!("job '{text}' not found or already finished"));
}

#[test]
fn finished_jobs_name_their_snapshot() {
    let mut jobs = Jobs::new();
    let text = jobs.start(9, "bob");
    jobs.finish(9, Ok(Some("snap".into())), NOW);
    assert_eq!(
        jobs.poll(),
        vec![Event::JobFinished {
            job_id: text,
            success: true,
            snapshot: Some("snap".into()),
            time: NOW
        }]
    );
    assert!(jobs.cancel_id(9, "nine").is_err());
}

#[test]
fn bars_report_their_steps() {
    let bar = RusticProgressBars::new(1).create_as(2, "p");
    let (job_id, bar_id) = (id_text(1), id_text(2));
    assert_eq!(
        bar.set_length(8, NOW),
        Event::BarLength {
            job_id: job_id.clone(),
            bar_id: bar_id.clone(),
            length: 8,
            time: NOW
        }
    );
    assert_eq!(
        bar.inc(3, NOW),
        Event::BarIncrement {
            job_id: job_id.clone(),
            bar_id: bar_id.clone(),
            increment: 3,
            time: NOW
        }
    );
    assert_eq!(
        bar.finish(NOW),
        Event::BarFinished {
            job_id,
            bar_id,
            time: NOW
        }
    );
}

// ── Write handles ───────────────────────────────────────────────────────────

#[test]
fn local_files_are_written_anywhere_within_the_limit() {
    let mut h = WriteHandles::new();
    let (id, text) = h.open_local(&point("p", false, Some(100), None), 40).unwrap();
    let step = h.write_at(&text, 0, 50).unwrap();
    assert!(step.local);
    assert_eq!(step.id, id);
    h.wrote_at(id, 0, 50);
    // Inside the file nothing grows.
    assert!(h.write_at(&text, 10, 40).is_ok());
    assert!(h.write_at(&text, 55, 5).is_ok());
    let e = h.write_at(&text, 55, 6).unwrap_err();
    assert_eq!(e.code, Code::ResourceExhausted);
    assert_eq!(e.message, "write would exceed point quota (40 + 61 > 100 bytes)");
    let (closed, handle) = h.close_write(&text).unwrap();
    assert_eq!((closed, handle.len, handle.local), (id, 50, true));
    let e = h.write_at(&text, 0, 1).unwrap_err();
    assert_eq!(e.code, Code::NotFound);
    assert_eq!(e.message, "unknown or already-closed write handle");
    assert_eq!(h.close_write(&text).unwrap_err().code, Code::NotFound);
    h.wrote_at(id, 0, 1);
    assert!(h.write_to(id, 0, 1).is_err());
}

#[test]
fn writes_far_out_need_an_open_file() {
    let mut handles = WriteHandles::new();
    let e = handles.write_to(9, u64::MAX, 5).unwrap_err();
    assert_eq!(e.code, Code::NotFound);
    handles.open_remote_as(9);
    let e = handles.write_to(9, u64::MAX, 5).unwrap_err();
    assert_eq!(e.code, Code::InvalidArgument);
    let text = id_text(9);
    let e = handles.write_at(&text, u64::MAX, 5).unwrap_err();
    assert_eq!(e.code, Code::InvalidArgument);
    let e = handles.write_at("junk", u64::MAX, 5).unwrap_err();
    assert_eq!(e.message, "malformed handle_id");
    assert!(handles.judge_write("junk", u64::MAX, 5).unwrap().is_err());
    assert!(handles.judge_write(&text, u64::MAX, 5).unwrap().is_err());
    assert!(handles.judge_write(&text, 0, 5).unwrap().is_ok());
    let (_, local) = handles.open_local(&point("p", false, None, None), 0).unwrap();
    assert!(handles.judge_write(&local, u64::MAX, 5).is_none());
    assert!(handles.judge_write(&local, u64::MAX - 5, 5).unwrap().is_ok());
    handles.wrote_at(10, u64::MAX, 5);
    assert!(handles.close_id(10).is_err());
}

#[test]
fn a_point_over_its_limit_takes_no_file() {
    let mut h = WriteHandles::new();
    let p = point("p", false, Some(10), None);
    let e = h.open_local(&p, 11).unwrap_err();
    assert_eq!(e.code, Code::ResourceExhausted);
    assert_eq!(e.message, "point 'p' is already over its 10-byte quota (11 bytes used)");
    assert!(h.open_local(&p, 10).is_ok());
    assert!(h.open_local_as(7, &point("q", false, None, None), u64::MAX).is_ok());
    assert!(h.write_to(7, 5, 5).is_ok());
}

#[test]
fn other_files_are_written_in_order() {
    let mut h = WriteHandles::new();
    let (id, text) = h.open_remote();
    assert!(!h.write_at(&text, 0, 4).unwrap().local);
    h.wrote_at(id, 0, 4);
    assert!(h.write_at(&text, 4, 4).is_ok());
    let e = h.write_at(&text, 3, 1).unwrap_err();
    assert_eq!(e.code, Code::InvalidArgument);
    assert_eq!(
        e.message,
        "write_at (random access/seeking) is restricted to local backends. Non-local backends must write sequentially."
    );
    let e = h.write_at("junk", 0, 1).unwrap_err();
    assert_eq!(e.message, "malformed handle_id");
    assert_eq!(h.close_write("junk").unwrap_err().message, "malformed handle_id");
    assert_eq!(h.open_remote_as(3), id_text(3));
    assert_eq!(h.close_id(3).unwrap().len, 0);
}

// ── Users ───────────────────────────────────────────────────────────────────

#[test]
fn replacing_users_finds_what_changed() {
    let old = vec![
        user("alice", vec![point("a", false, None, None), point("r", false, None, Some("pw"))]),
        user("bob", vec![point("b", false, None, None), point("c", false, None, None)]),
        user("carol", vec![point("d", false, None, None)]),
    ];
    let new = vec![
        user("carol", vec![point("d", false, None, None)]),
        user("bob", vec![point("b", true, None, None)]),
    ];
    let change = set_vfs(&old, &new);
    let names: Vec<&str> = change.changed.iter().map(|u| u.username.as_str()).collect();
    assert_eq!(names, vec!["alice", "bob"]);
    assert_eq!(change.removed_quotas, vec!["alice-a", "bob-c"]);

    let mut jobs = Jobs::new();
    jobs.start(1, "alice");
    jobs.start(2, "carol");
    jobs.start(3, "bob");
    let mut quota = QuotaState::new();
    quota.finish_load::<()>("alice-a", Ok(50)).unwrap();
    quota.finish_load::<()>("bob-b", Ok(60)).unwrap();
    let mut cancelled = jobs_to_cancel(&change, &jobs);
    clear_removed(&change, &mut quota);
    cancelled.sort();
    assert_eq!(cancelled, vec![1, 3]);
    assert!(matches!(quota.current_bytes("alice-a"), Step::Done(0)));
    assert!(matches!(quota.current_bytes("bob-b"), Step::Done(60)));
    assert!(matches!(quota.current_bytes("bob-c"), Step::Done(0)));
}

#[test]
fn a_kept_point_keeps_its_total() {
    let kept = user("a", vec![point("b-c", false, None, None)]);
    let gone = user("a-b", vec![point("c", false, None, None)]);
    let change = set_vfs(&vec![kept.clone(), gone], &vec![kept]);
    assert_eq!(change.removed_quotas, vec!["a%2Db-c"]);
    let mut quota = QuotaState::new();
    quota.finish_load::<()>("a-b-c", Ok(70)).unwrap();
    clear_removed(&change, &mut quota);
    assert!(matches!(quota.current_bytes("a-b-c"), Step::Done(70)));
}

#[test]
fn storing_the_same_users_changes_nothing() {
    let users = vec![user("a", vec![point("p", false, Some(3), None)]), user("b", vec![])];
    let change = set_vfs(&users, &users);
    assert!(change.changed.is_empty());
    assert!(change.removed_quotas.is_empty());
}

#[test]
fn usage_is_reported_for_every_point() {
    let users = vec![
        user("a", vec![point("p", false, Some(3), None), point("r", true, None, Some("pw"))]),
        user("b", vec![]),
        user("c", vec![point("q", true, None, None)]),
    ];
    assert_eq!(point_places(&users), vec![(0, 0), (0, 1), (2, 0)]);
    let info = get_vfs(&users, &vec![1, 2, 3]);
    assert_eq!(info.len(), 3);
    assert_eq!((info[0].user.as_str(), info[0].point.name.as_str(), info[0].used_bytes), ("a", "p", 1));
    assert_eq!(info[0].point.max_bytes, 3);
    assert_eq!((info[2].user.as_str(), info[2].point.name.as_str(), info[2].used_bytes), ("c", "q", 3));
    assert!(!info[2].point.can_write);

    assert!(matches!(usage_of(&users[0], &on_disk("d", None, None)), Usage::Disk));
    let mut repo = point("l", false, None, Some("pw"));
    repo.scheme = "fs".into();
    for p in [&users[0].points[0], &users[0].points[1], &repo] {
        match usage_of(&users[0], p) {
            Usage::Counter { id } => assert_eq!(id, format!("a-{}", p.name)),
            Usage::Disk => panic!(),
        }
    }
    assert_eq!(disk_usage(Some(4)), 4);
    assert_eq!(disk_usage(None), 0);
}

#[test]
fn local_disks_have_limits_too() {
    assert!(!must_measure(None, 5));
    assert!(!must_measure(Some(5), 0));
    assert!(must_measure(Some(5), 1));
    assert_eq!(growth_of(10, 4), 6);
    assert_eq!(growth_of(4, 10), 0);
    assert!(check_local_quota(90, Some(100), 10).is_ok());
    assert!(check_local_quota(900, Some(100), 0).is_ok());
    assert!(check_local_quota(900, None, 10).is_ok());
    let e = check_local_quota(90, Some(100), 11).unwrap_err();
    assert_eq!(e.code, Code::ResourceExhausted);
    assert_eq!(e.message, "write would exceed point quota (90 + 11 > 100 bytes)");
    assert!(check_local_quota(u64::MAX, Some(100), 11).is_err());
}

// ── Jobs on repositories ────────────────────────────────────────────────────

fn alice() -> VfsUser {
    user(
        "alice",
        vec![
            point("data", false, None, None),
            point("frozen", true, None, None),
            point("repo", false, None, Some("secret")),
            point("archive", true, None, Some("secret")),
        ],
    )
}

#[test]
fn backups_need_a_writable_repository() {
    let u = alice();
    let tags = vec!["x".to_string(), "y".to_string()];
    let plan = backup(&u, "repo", "frozen", "/photos,a b/./x", &tags).unwrap();
    assert_eq!(plan.repo.password, "secret");
    assert_eq!(plan.data_point.name, "frozen");
    assert_eq!(plan.local_root, None);
    assert_eq!(plan.paths, vec!["/photos,a b/./x"]);
    assert_eq!(plan.tags, vec!["x", "y"]);
    let e = backup(&u, "archive", "data", "/", &tags).unwrap_err();
    assert_eq!((e.code, e.message.as_str()), (Code::PermissionDenied, "point 'archive' is read-only"));
    // The repository is looked at first.
    let e = backup(&u, "data", "repo", "/", &tags).unwrap_err();
    assert_eq!(e.message, "point 'data' is a data point, not a repo");
    let e = backup(&u, "repo", "archive", "/", &tags).unwrap_err();
    assert_eq!(e.message, "point 'archive' is a repo, not a data point");
}

#[test]
fn backups_read_local_data_off_its_disk() {
    let mut u = alice();
    u.points.push(on_disk("disk", Some("/srv/d"), None));
    u.points.push(on_disk("lost", None, None));
    let plan = backup(&u, "repo", "disk", "", &vec![]).unwrap();
    assert_eq!(plan.local_root.as_deref(), Some("/srv/d"));
    assert_eq!(plan.paths, vec![""]);
    let e = backup(&u, "repo", "lost", "/", &vec![]).unwrap_err();
    assert_eq!((e.code, e.message.as_str()), (Code::InvalidArgument, "point 'lost' has no root"));
}

#[test]
fn tags_are_joined_and_read_back() {
    let read = |tags: &[&str]| backup_tags(&tags.iter().map(|t| t.to_string()).collect());
    assert_eq!(read(&["b", "a"]), vec!["a", "b"]);
    assert_eq!(read(&["a,b"]), vec!["a", "b"]);
    assert_eq!(read(&["a", "b", "a"]), vec!["a", "b"]);
    assert_eq!(read(&["b", "", "a,"]), vec!["", "a", "b"]);
    assert_eq!(read(&[" a", "\u{fc}", "z"]), vec![" a", "z", "\u{fc}"]);
    assert_eq!(read(&[]), vec![""]);
}

#[test]
fn restores_need_writable_data() {
    let u = alice();
    let plan = restore(&u, "archive", "data", "abc", "/x", true).unwrap();
    assert_eq!(plan.snapshot, "abc:/x");
    assert!(!plan.writes);
    assert_eq!(plan.dest_point.name, "data");
    let e = restore(&u, "repo", "frozen", "abc", "/x", false).unwrap_err();
    assert_eq!((e.code, e.message.as_str()), (Code::PermissionDenied, "point 'frozen' is read-only"));
}

#[test]
fn checking_reads_and_forgetting_writes() {
    let u = alice();
    assert_eq!(check(&u, "archive").unwrap().repo.scheme, "memory");
    assert_eq!(forget(&u, "archive").unwrap_err().code, Code::PermissionDenied);
    assert!(forget(&u, "repo").is_ok());
    assert_eq!(get_snapshots(&u, "archive").unwrap().password, "secret");
    assert_eq!(get_snapshots(&u, "none").unwrap_err().message, "point 'none' not found");
}

#[test]
fn jobs_by_path() {
    let u = alice();
    let plan = by_path::path_job(&u, "repo", "/points/data/a/b").unwrap();
    assert_eq!((plan.path.as_str(), plan.data.scheme.as_str()), ("a/b", "memory"));
    let e = by_path::path_job(&u, "none", "/points/data").unwrap_err();
    assert_eq!((e.code, e.message.as_str()), (Code::NotFound, "repo point 'none' not found"));
    let e = by_path::path_job(&u, "repo", "/points/none").unwrap_err();
    assert_eq!((e.code, e.message.as_str()), (Code::NotFound, "data point 'none' not found"));
    let e = by_path::path_job(&u, "data", "/points/data").unwrap_err();
    assert_eq!(e.message, "point 'data' is a data point, not a repo");
    let e = by_path::resolve_data_path(&u, "/points/repo/x").unwrap_err();
    assert_eq!(e.message, "point 'repo' is a repo, not a data point");
    let e = by_path::map_vfs(mountfs::model::VfsError::UserNotFound);
    assert_eq!((e.code, e.message.as_str()), (Code::NotFound, "user not found"));
}

#[test]
fn summaries_report_packed_files() {
    let s = Summary {
        files_new: 1,
        files_changed: 2,
        files_unmodified: 3,
        total_files_processed: 4,
        total_bytes_processed: 5,
        dirs_new: 6,
        dirs_changed: 7,
        dirs_unmodified: 8,
        total_dirs_processed: 9,
        total_dirsize_processed: 10,
        data_blobs: 11,
        tree_blobs: 12,
        data_added: 13,
        data_added_packed: 14,
        data_added_files: 15,
        data_added_files_packed: 16,
        data_added_trees: 17,
        data_added_trees_packed: 18,
        backup_start: NOW,
        backup_end: NOW,
    };
    let r = reported_summary(s);
    assert_eq!(r.data_added_packed, 16);
    assert_eq!(r.data_added_files_packed, 16);
    assert_eq!(r.tree_blobs, 12);
}

// ── Files ───────────────────────────────────────────────────────────────────

#[test]
fn paths_of_requests() {
    let v = Some(VfsPath::Virtual("x/y".into()));
    let i = Some(VfsPath::Indexed {
        point_name: "data".into(),
        point_path: "sub/f".into(),
    });
    assert_eq!(require_path(&v).unwrap(), "x/y");
    assert_eq!(require_path(&i).unwrap(), "/points/data/sub/f");
    assert_eq!(operator_path(&v, true).unwrap(), "/x/y/");
    assert_eq!(operator_path(&i, false).unwrap(), "/points/data/sub/f");
    assert_eq!(require_path(&Some(VfsPath::Unset)).unwrap(), "");
    assert_eq!(operator_path(&Some(VfsPath::Unset), true).unwrap(), "/");
    let e = operator_path(&None, true).unwrap_err();
    assert_eq!((e.code, e.message.as_str()), (Code::InvalidArgument, "path is blank"));
}

#[test]
fn files_are_opened_in_writable_data_points() {
    let u = alice();
    let at = |p: &str| Some(VfsPath::Virtual(p.into()));
    let plan = open_write(&u, &at("points/data/a/b.txt")).unwrap();
    assert_eq!(plan.point.name, "data");
    assert_eq!(plan.rest, "a/b.txt");
    assert_eq!(plan.local_root, None);
    assert_eq!(plan.file_path, "/points/data/a/b.txt");
    assert_eq!(open_write(&u, &None).unwrap_err().message, "path is blank");
    let e = open_write(&u, &at("/points/frozen/x")).unwrap_err();
    assert_eq!(e.code, Code::PermissionDenied);
    assert_eq!(open_write(&u, &at("/repos/repo/x")).unwrap_err().code, Code::InvalidArgument);
    let local = user("l", vec![on_disk("disk", Some("/srv/d"), None), on_disk("lost", None, None)]);
    let plan = open_write(&local, &at("/points/disk/f")).unwrap();
    assert_eq!((plan.local_root.as_deref(), plan.rest.as_str()), (Some("/srv/d"), "f"));
    let e = open_write(&local, &at("/points/lost/f")).unwrap_err();
    assert_eq!((e.code, e.message.as_str()), (Code::InvalidArgument, "point 'lost' has no root"));
}

#[test]
fn ranges_and_splices() {
    assert_eq!(read_range(5, 0), None);
    assert_eq!(read_range(5, 3), Some((5, 8)));
    assert!(replaces(0));
    assert!(!replaces(1));
    assert_eq!(splice(vec![1, 2, 3, 4], 1, &vec![9, 9]), vec![1, 9, 9, 4]);
    assert_eq!(splice(vec![1], 3, &vec![7]), vec![1, 0, 0, 7]);
    assert_eq!(splice(vec![1, 2], 1, &vec![8, 8]), vec![1, 8, 8]);
    assert_eq!(splice(vec![1, 2], 5, &vec![]), vec![1, 2, 0, 0, 0]);
    assert_eq!(write_vfs(vec![1, 2, 3], 0, vec![9]), vec![9]);
    assert_eq!(write_vfs(vec![1, 2, 3], 1, vec![9]), vec![1, 9, 3]);
    assert_eq!(write_vfs(vec![1], 2, vec![9]), vec![1, 0, 9]);
}

#[test]
fn nodes_show_the_last_part_of_their_path() {
    assert_eq!(node_name("a/b/c.txt"), "c.txt");
    assert_eq!(node_name("/a/b//"), "b");
    assert_eq!(node_name("/"), "");
    let n = entry_to_node("/x/y/", true, 4, Some(NOW));
    assert_eq!((n.name.as_str(), n.is_dir, n.bytes, n.mtime), ("y", true, 4, Some(NOW)));
}

#[test]
fn paths_are_looked_up_as_files_first() {
    let failed = |kind| Stat::<u8>::Failed {
        kind,
        text: "t".into(),
    };
    assert!(matches!(probe_file("/a", Stat::Found(1u8)), Probe::Found(1)));
    match probe_file("/a", failed(ErrorKind::NotFound)) {
        Probe::TryDirectory { path } => assert_eq!(path, "/a/"),
        other => panic!("{other:?}"),
    }
    match probe_file("/a", failed(ErrorKind::PermissionDenied)) {
        Probe::Fail(s) => assert_eq!(s.code, Code::PermissionDenied),
        other => panic!("{other:?}"),
    }
    assert_eq!(stat_directory(Stat::Found(2u8)).unwrap(), 2);
    assert_eq!(stat_directory(failed(ErrorKind::NotFound)).unwrap_err().code, Code::NotFound);
    assert!(directory_exists(Stat::Found(0u8)).unwrap());
    assert!(!directory_exists(failed(ErrorKind::NotFound)).unwrap());
    assert_eq!(directory_exists(failed(ErrorKind::Unexpected)).unwrap_err().code, Code::Internal);
}

#[test]
fn transfers_stay_inside_a_store_where_they_can() {
    let info = |root: &str| BackendInfo {
        scheme: "fs".into(),
        root: root.into(),
        name: "n".into(),
    };
    assert_eq!(transfer(&info("/a"), &info("/a"), true), TransferPlan::Copy);
    assert_eq!(transfer(&info("/a"), &info("/a"), false), TransferPlan::Rename);
    assert_eq!(
        transfer(&info("/a"), &info("/b"), true),
        TransferPlan::Stream {
            delete_source: false
        }
    );
    assert_eq!(
        transfer(&info("/a"), &info("/b"), false),
        TransferPlan::Stream {
            delete_source: true
        }
    );
    let mut u = alice();
    u.points.push(on_disk("disk", Some("/srv/d"), None));
    u.points.push(on_disk("lost", None, None));
    let file = transfer_point(&u, "/points/disk/a/f").unwrap().unwrap();
    assert_eq!(file.point.name, "disk");
    assert_eq!((file.root.as_str(), file.rest.as_str()), ("/srv/d", "a/f"));
    assert!(transfer_point(&u, "/points/data/f").unwrap().is_none());
    assert!(transfer_point(&u, "/repos/repo/f").unwrap().is_none());
    assert_eq!(transfer_point(&u, "/points/lost/f").unwrap_err().message, "point 'lost' has no root");
}

#[test]
fn moved_files_are_deleted_once_they_were_written() {
    let steps = |plan: TransferPlan, fails: Option<TransferStep>| {
        let mut step = start_transfer(plan);
        let mut taken = vec![step];
        while step != TransferStep::Done && step != TransferStep::Fail {
            step = after_step(plan, step, Some(step) != fails);
            taken.push(step);
        }
        taken
    };
    let (moves, copies) = (
        TransferPlan::Stream {
            delete_source: true,
        },
        TransferPlan::Stream {
            delete_source: false,
        },
    );
    let (read, room) = (TransferStep::Read, TransferStep::CheckRoom);
    let (write, delete) = (TransferStep::Write, TransferStep::DeleteSource);
    let (done, fail) = (TransferStep::Done, TransferStep::Fail);
    assert_eq!(steps(moves, None), vec![read, room, write, delete, done]);
    assert_eq!(steps(copies, None), vec![read, room, write, done]);
    assert_eq!(steps(moves, Some(read)), vec![read, fail]);
    assert_eq!(steps(moves, Some(room)), vec![read, room, fail]);
    assert_eq!(steps(moves, Some(write)), vec![read, room, write, fail]);
    assert_eq!(steps(moves, Some(delete)), vec![read, room, write, delete, fail]);
    assert_eq!(steps(TransferPlan::Copy, None), vec![TransferStep::Copy, done]);
    assert_eq!(steps(TransferPlan::Rename, None), vec![TransferStep::Rename, done]);
    assert_eq!(
        steps(TransferPlan::Rename, Some(TransferStep::Rename)),
        vec![TransferStep::Rename, fail]
    );
    assert_eq!(after_step(moves, fail, true), fail);
}

// ── The tree, and logins ────────────────────────────────────────────────────

#[test]
fn points_are_guarded_by_what_they_say() {
    let u = user("alice", vec![]);
    assert_eq!(point_layers(&u, &point("ro", true, Some(4), None)), vec![MountLayer::ReadOnly]);
    assert_eq!(
        point_layers(&u, &point("quota", false, Some(4), None)),
        vec![MountLayer::Quota {
            id: "alice-quota".into(),
            limit: 4
        }]
    );
    assert!(point_layers(&u, &point("rw", false, None, None)).is_empty());
}

#[test]
fn trees_mount_points_in_two_directories() {
    let u = alice();
    let mut tree = VfsBuilder::new();
    for p in &u.points {
        match point_store(&u, p).unwrap() {
            PointStore::Repo(src) => assert_eq!(src.password, "secret"),
            PointStore::Data { layers } => assert_eq!(layers.len(), p.read_only as usize),
        }
        tree = mount_point(tree, p, p.name.clone());
    }
    let tree = tree.build().unwrap();
    assert_eq!(
        tree.paths(),
        vec!["/points/data", "/points/frozen", "/repos/archive", "/repos/repo"]
    );
    assert!(tree.write("/points/data/x").is_ok());
    assert!(tree.write("/repos/repo/x").is_err());
    let mut locked = point("r", false, None, Some(""));
    locked.repo_password = None;
    let e = point_store(&u, &locked).unwrap_err();
    assert_eq!(e.text(), "point is a repo mount but has no `repo_password`");
}

#[test]
fn logins_compare_passwords() {
    let u = alice();
    assert_eq!(authenticate(Some(&u), &Some("pw".into())), Ok(()));
    assert_eq!(authenticate(Some(&u), &Some("no".into())), Err(LoginError::BadPassword));
    assert_eq!(authenticate(Some(&u), &None), Err(LoginError::BadPassword));
    assert_eq!(authenticate(None, &Some("pw".into())), Err(LoginError::BadUser));
    let mut open = alice();
    open.password = String::new();
    assert_eq!(authenticate(Some(&open), &None), Ok(()));
}

#[test]
fn uploads_need_room() {
    let u = user(
        "a",
        vec![
            on_disk("p", Some("/srv/p"), Some(10)),
            on_disk("q", Some("/srv/q"), None),
            point("m", false, Some(10), None),
        ],
    );
    assert!(limited_point(&u, "/points/m/f").is_none());
    let (p, max) = limited_point(&u, "/points/p/f").unwrap();
    assert!(check_upload(p, 9, max).is_ok());
    assert_eq!(
        check_upload(p, 10, max).unwrap_err(),
        "point 'p' is already at or over its byte quota"
    );
    assert!(limited_point(&u, "/points/q/f").is_none());
    assert!(limited_point(&u, "/elsewhere").is_none());
}
