use mountfs::error::ErrorKind;
use mountfs::ipc;
use mountfs::model::{VfsError, VfsPoint, VfsUser};
use mountfs::status::{io_status, Code, IoErrorKind};
use mountfs::strmap::StrMap;
use mountfs::utils::{
    data_mount_path, fix_path, is_local_scheme, local_root_of, local_source_path, map_dal, map_vfs,
    opt_ts, parse_repo_src, quota_id, repo_mount_path, repo_source, require_data_point,
    require_repo_point, require_repo_src, require_writable, resolve_data_path, resolve_data_point,
    resolve_repo_point, to_ts, vfs_permission_denied, vfs_unsupported, POINTS_ROOT, REPOS_ROOT,
};
use std::path::PathBuf;

fn data_point(name: &str, read_only: bool) -> VfsPoint {
    VfsPoint {
        name: name.to_string(),
        max_bytes: None,
        read_only,
        scheme: "s3".into(),
        config: StrMap::new(),
        is_repo: false,
        repo_password: None,
    }
}

fn repo_point(name: &str, read_only: bool, password: Option<&str>) -> VfsPoint {
    VfsPoint {
        name: name.to_string(),
        max_bytes: None,
        read_only,
        scheme: "s3".into(),
        config: StrMap::new(),
        is_repo: true,
        repo_password: password.map(str::to_string),
    }
}

fn user(points: Vec<VfsPoint>) -> VfsUser {
    VfsUser {
        username: "alice".into(),
        password: "pw".into(),
        points,
    }
}

#[test]
fn mount_paths_are_namespaced() {
    assert_eq!(data_mount_path("local"), "/points/local");
    assert_eq!(repo_mount_path("backup"), "/repos/backup");
}

#[test]
fn quota_id_combines_username_and_point() {
    assert_eq!(quota_id("alice", "local"), "alice-local");
}

#[test]
fn quota_ids_tell_users_apart() {
    assert_eq!(quota_id("a", "b-c"), "a-b-c");
    assert_eq!(quota_id("a-b", "c"), "a%2Db-c");
    assert_eq!(quota_id("a%2Db", "c"), "a%252Db-c");
    assert_eq!(quota_id("", ""), "-");
}

#[test]
fn require_repo_point_rejects_data_point() {
    let u = user(vec![data_point("d", false)]);
    assert!(require_repo_point(&u, "d").is_err());
}

#[test]
fn require_repo_point_rejects_missing() {
    let u = user(vec![]);
    assert!(require_repo_point(&u, "ghost").is_err());
}

#[test]
fn require_repo_point_accepts_repo() {
    let u = user(vec![repo_point("r", false, Some("pw"))]);
    assert!(require_repo_point(&u, "r").is_ok());
}

#[test]
fn require_data_point_rejects_repo_point() {
    let u = user(vec![repo_point("r", false, Some("pw"))]);
    assert!(require_data_point(&u, "r").is_err());
}

#[test]
fn require_writable_rejects_read_only() {
    let p = data_point("d", true);
    assert!(require_writable(&p).is_err());
}

#[test]
fn require_writable_accepts_writable() {
    let p = data_point("d", false);
    assert!(require_writable(&p).is_ok());
}

#[test]
fn repo_source_requires_password() {
    let p = repo_point("r", false, None);
    assert!(repo_source(&p).is_err());
}

#[test]
fn repo_source_builds_from_point() {
    let p = repo_point("r", false, Some("secret"));
    let src = repo_source(&p).unwrap();
    assert_eq!(src.password, "secret");
    assert_eq!(src.scheme, "s3");
}

#[test]
fn resolve_repo_point_matches_require_plus_source() {
    let u = user(vec![repo_point("r", false, Some("secret"))]);
    let src = resolve_repo_point(&u, "r").unwrap();
    assert_eq!(src.password, "secret");
}

#[test]
fn resolve_data_point_returns_config_for_data_point() {
    let u = user(vec![data_point("d", false)]);
    let cfg = resolve_data_point(&u, "d", "unused");
    assert!(cfg.is_ok());
}

#[test]
fn resolve_data_point_rejects_repo() {
    let u = user(vec![repo_point("r", false, Some("pw"))]);
    assert!(resolve_data_point(&u, "r", "unused").is_err());
}

#[test]
fn resolve_data_path_requires_points_root() {
    let u = user(vec![data_point("local", false)]);
    assert!(resolve_data_path(&u, "/repos/local/x").is_err());
}

#[test]
fn resolve_data_path_splits_point_and_rest() {
    let u = user(vec![data_point("local", false)]);
    let (point, rest) = resolve_data_path(&u, "/points/local/sub/dir").unwrap();
    assert_eq!(point.name, "local");
    assert_eq!(PathBuf::from(rest), PathBuf::from("sub/dir"));
}

#[test]
fn resolve_data_path_rejects_unknown_point() {
    let u = user(vec![data_point("local", false)]);
    assert!(resolve_data_path(&u, "/points/ghost/x").is_err());
}

#[test]
fn fix_path_normalizes_dirs_and_files() {
    assert_eq!(fix_path("a/b", true), "/a/b/");
    assert_eq!(fix_path("a/b/", false), "/a/b");
    assert_eq!(fix_path("a\\b", true), "/a/b/");
}

#[test]
fn fix_path_edges() {
    assert_eq!(fix_path("", true), "/");
    assert_eq!(fix_path("", false), "");
    assert_eq!(fix_path("/", true), "/");
    assert_eq!(fix_path("/", false), "");
    assert_eq!(fix_path("a//", false), "/a/");
    assert_eq!(fix_path("a\\", true), "/a//");
    assert_eq!(fix_path("\\a", false), "//a");
}

#[test]
fn mount_roots() {
    assert_eq!(POINTS_ROOT, "points");
    assert_eq!(REPOS_ROOT, "repos");
}

#[test]
fn lookups_say_what_is_wrong() {
    let u = user(vec![
        data_point("d", true),
        repo_point("r", false, None),
        repo_point("d", false, Some("shadowed")),
    ]);
    let e = require_repo_point(&u, "d").unwrap_err();
    assert_eq!(e.code, Code::InvalidArgument);
    assert_eq!(e.message, "point 'd' is a data point, not a repo");
    let e = require_data_point(&u, "r").unwrap_err();
    assert_eq!(e.message, "point 'r' is a repo, not a data point");
    let e = require_data_point(&u, "x").unwrap_err();
    assert_eq!(e.code, Code::InvalidArgument);
    assert_eq!(e.message, "point 'x' not found");
    let e = require_writable(&u.points[0]).unwrap_err();
    assert_eq!(e.code, Code::PermissionDenied);
    assert_eq!(e.message, "point 'd' is read-only");
    let e = resolve_repo_point(&u, "r").unwrap_err();
    assert_eq!(e.code, Code::InvalidArgument);
    assert_eq!(e.message, "repo point 'r' is missing a password");
}

#[test]
fn data_path_shapes() {
    let u = user(vec![data_point("local", false), repo_point("r", false, Some("pw"))]);
    let (_, rest) = resolve_data_path(&u, "points/local").unwrap();
    assert_eq!(rest, "");
    let (_, rest) = resolve_data_path(&u, "///points/local/a//b/").unwrap();
    assert_eq!(rest, "a//b/");
    let e = resolve_data_path(&u, "/points").unwrap_err();
    assert_eq!(e.message, "path '/points' is missing a point name");
    let e = resolve_data_path(&u, "/points//x").unwrap_err();
    assert_eq!(e.message, "path '/points//x' is missing a point name");
    let e = resolve_data_path(&u, "/repos/r").unwrap_err();
    assert_eq!(
        e.message,
        "path '/repos/r' must be under /points/<name>/... (repo-mounted paths aren't supported for backup/restore)"
    );
    let e = resolve_data_path(&u, "/points/r/x").unwrap_err();
    assert_eq!(e.message, "point 'r' is a repo, not a data point");
}

#[test]
fn failures_are_reported_by_category() {
    let s = map_vfs(VfsError::UserNotFound);
    assert_eq!((s.code, s.message.as_str()), (Code::NotFound, "vfs user not found"));
    let s = map_vfs(VfsError::Internal("x".into()));
    assert_eq!((s.code, s.message.as_str()), (Code::Internal, "internal error: x"));
    let s = map_vfs(VfsError::RepoPasswordMissing);
    assert_eq!(s.message, "point is a repo mount but has no `repo_password`");
    assert_eq!(VfsError::Storage("a".into()).text(), "storage error: a");
    assert_eq!(VfsError::OpenDal("a".into()).text(), "opendal error: a");
    assert_eq!(VfsError::SqlError("a".into()).text(), "sql error: a");
    assert_eq!(VfsError::SerdeError("a".into()).text(), "serialization error: a");
    assert_eq!(VfsError::UserNotFound.text(), "user not found");

    assert_eq!(map_dal(ErrorKind::NotFound, "t".into()).code, Code::NotFound);
    assert_eq!(map_dal(ErrorKind::PermissionDenied, "t".into()).code, Code::PermissionDenied);
    assert_eq!(map_dal(ErrorKind::RateLimited, "t".into()).code, Code::Internal);
    assert_eq!(map_dal(ErrorKind::NotFound, "t".into()).message, "t");

    assert_eq!(io_status(IoErrorKind::NotFound, "t".into()).code, Code::NotFound);
    assert_eq!(io_status(IoErrorKind::PermissionDenied, "t".into()).code, Code::PermissionDenied);
    assert_eq!(io_status(IoErrorKind::Other, "t".into()).code, Code::Internal);
}

#[test]
fn file_system_errors() {
    let e = vfs_permission_denied("/a");
    assert_eq!(e.kind(), ErrorKind::PermissionDenied);
    assert_eq!(e.message, "mount is read-only");
    assert_eq!(e.context, vec![("path", "/a".to_string())]);
    let e = vfs_unsupported("copy");
    assert_eq!(e.kind(), ErrorKind::Unsupported);
    assert_eq!(e.message, "MountFs does not support `copy`.");
    assert!(e.context.is_empty());
}

fn source(scheme: &str) -> ipc::PointSource {
    let mut config = StrMap::new();
    config.insert("root".to_string(), "/tmp".to_string());
    ipc::PointSource {
        scheme: scheme.into(),
        config,
    }
}

#[test]
fn repo_sources_from_messages() {
    let src = parse_repo_src(ipc::RepoSource {
        src: Some(source("s3")),
        password: "pw".into(),
    })
    .unwrap();
    assert_eq!(src.scheme, "s3");
    assert_eq!(src.password, "pw");
    assert_eq!(src.config.get("root").unwrap(), "/tmp");
    let e = parse_repo_src(ipc::RepoSource {
        src: None,
        password: "pw".into(),
    })
    .unwrap_err();
    assert_eq!((e.code, e.message.as_str()), (Code::InvalidArgument, "missing repo src"));
    let e = require_repo_src(None, "repo").unwrap_err();
    assert_eq!((e.code, e.message.as_str()), (Code::InvalidArgument, "missing repo"));
}

#[test]
fn points_and_messages_round_trip() {
    let m = ipc::VfsPoint {
        name: "p".into(),
        max_bytes: 0,
        can_write: true,
        src: Some(ipc::Src::Data(source("fs"))),
    };
    let p = ipc::point_from(m).unwrap();
    assert_eq!(p.name, "p");
    assert_eq!(p.max_bytes, None);
    assert!(!p.read_only);
    assert!(!p.is_repo);
    assert_eq!(p.repo_password, None);
    let m = ipc::point_into(&p);
    assert_eq!(m.max_bytes, 0);
    assert!(m.can_write);
    let again = ipc::point_from(m).unwrap();
    assert!(again == p);

    let m = ipc::VfsPoint {
        name: "r".into(),
        max_bytes: 7,
        can_write: false,
        src: Some(ipc::Src::Repo(ipc::RepoSource {
            src: Some(source("s3")),
            password: "pw".into(),
        })),
    };
    let p = ipc::point_from(m).unwrap();
    assert_eq!(p.max_bytes, Some(7));
    assert!(p.read_only);
    assert!(p.is_repo);
    assert_eq!(p.repo_password.as_deref(), Some("pw"));
    assert!(ipc::point_from(ipc::point_into(&p)).unwrap() == p);
}

#[test]
fn a_limit_of_zero_is_read_back_as_none() {
    let mut p = data_point("z", false);
    p.max_bytes = Some(0);
    let back = ipc::point_from(ipc::point_into(&p)).unwrap();
    assert_eq!(back.max_bytes, None);
}

#[test]
fn first_bad_point_decides() {
    let bad = |src| ipc::VfsPoint {
        name: "b".into(),
        max_bytes: 0,
        can_write: true,
        src,
    };
    let e = ipc::user_from(ipc::VfsUser {
        name: "u".into(),
        password: "pw".into(),
        points: vec![
            bad(Some(ipc::Src::Data(source("fs")))),
            bad(Some(ipc::Src::Repo(ipc::RepoSource {
                src: None,
                password: String::new(),
            }))),
            bad(None),
        ],
    })
    .unwrap_err();
    assert_eq!((e.code, e.message.as_str()), (Code::InvalidArgument, "VfsPoint[repo].src is required"));
    let e = ipc::point_from(bad(None)).unwrap_err();
    assert_eq!(e.message, "VfsPoint.src is required");

    let users = ipc::users_from(vec![
        ipc::VfsUser {
            name: "a".into(),
            password: "1".into(),
            points: vec![],
        },
        ipc::VfsUser {
            name: "b".into(),
            password: "2".into(),
            points: vec![bad(Some(ipc::Src::Data(source("fs"))))],
        },
    ])
    .unwrap();
    assert_eq!(users.len(), 2);
    assert_eq!(users[0].username, "a");
    assert_eq!(users[1].password, "2");
    assert_eq!(users[1].points[0].name, "b");
    let e = ipc::users_from(vec![ipc::VfsUser {
        name: "a".into(),
        password: "1".into(),
        points: vec![bad(None)],
    }])
    .unwrap_err();
    assert_eq!(e.message, "VfsPoint.src is required");
}

#[test]
fn users_compare_by_what_they_say() {
    let a = user(vec![data_point("d", false)]);
    let b = a.clone();
    assert!(a == b);
    let c = user(vec![data_point("d", true)]);
    assert!(a != c);
    let mut d = a.clone();
    d.points[0].config.insert("k".into(), "v".into());
    assert!(a != d);
}

#[test]
fn times_are_kept() {
    let t = to_ts(3, 4);
    assert_eq!((t.seconds, t.nanos), (3, 4));
    assert_eq!(opt_ts(Some((3, 4))), Some(t));
    assert_eq!(opt_ts(None), None);
}

#[test]
fn local_points_name_their_directory() {
    assert!(is_local_scheme("fs"));
    assert!(!is_local_scheme("FS"));
    assert!(!is_local_scheme("memory"));
    assert!(!is_local_scheme(""));
    let mut p = data_point("p", false);
    let e = local_source_path(&p).unwrap_err();
    assert_eq!((e.code, e.message.as_str()), (Code::InvalidArgument, "point 'p' has no root"));
    assert_eq!(local_root_of(&p).unwrap(), None);
    p.scheme = "fs".into();
    assert_eq!(local_root_of(&p).unwrap_err().message, "point 'p' has no root");
    p.config.insert("root".into(), "/srv/p".into());
    assert_eq!(local_source_path(&p).unwrap(), "/srv/p");
    assert_eq!(local_root_of(&p).unwrap().as_deref(), Some("/srv/p"));
}
