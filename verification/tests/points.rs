use mountfs::error::{Error, ErrorKind};
use mountfs::model::{VfsPoint, VfsUser};
use mountfs::quota::staged::tmp_path_for;
use mountfs::quota::{CloseStep, MemoryTracker, QuotaLayer, QuotaState, QuotaWriter};
use mountfs::read_only::ReadOnlyLayer;
use mountfs::store::{point_layers, point_store, PointStore};
use mountfs::strmap::StrMap;
use mountfs::vfs::{MountLayer, Operation, VfsBuilder};
use std::collections::BTreeMap;

/// Totals that stores share.
struct Totals {
    state: QuotaState,
    tracker: MemoryTracker,
}

impl Totals {
    fn new() -> Self {
        Totals {
            state: QuotaState::new(),
            tracker: MemoryTracker::default(),
        }
    }
}

/// A store in memory, with the guards that it is wrapped in.
struct Store {
    layers: Vec<MountLayer>,
    files: BTreeMap<String, Vec<u8>>,
}

impl Store {
    fn new(layers: Vec<MountLayer>) -> Self {
        Store {
            layers,
            files: BTreeMap::new(),
        }
    }

    fn write(&mut self, totals: &mut Totals, path: &str, data: &[u8]) -> Result<(), Error> {
        for layer in &self.layers {
            match layer {
                MountLayer::ReadOnly => ReadOnlyLayer.check(Operation::Write)?,
                MountLayer::Quota { id, limit } => {
                    let layer = QuotaLayer::new(id, *limit);
                    let mut w = QuotaWriter::new(&layer, path, tmp_path_for(path, 0, 1));
                    w.wrote(data.len() as u64);
                    let old = self.files.get(path).map_or(0, |f| f.len() as u64);
                    loop {
                        match w.close(&mut totals.state, old) {
                            CloseStep::Load => {
                                let outcome = totals.tracker.get_bytes(id).map_err(|e| (e.kind(), e));
                                totals.state.finish_load(id, outcome)?;
                            }
                            CloseStep::Wait => panic!("nobody else loads"),
                            CloseStep::Reject { error, .. } => return Err(error),
                            CloseStep::Rename { to, .. } => {
                                assert_eq!(to, path);
                                break;
                            }
                        }
                    }
                }
            }
        }
        self.files.insert(path.to_string(), data.to_vec());
        Ok(())
    }

    fn read(&self, path: &str) -> Result<Vec<u8>, Error> {
        for layer in &self.layers {
            if *layer == MountLayer::ReadOnly {
                ReadOnlyLayer.check(Operation::Read)?;
            }
        }
        Ok(self.files[path].clone())
    }
}

fn memory_point(name: &str, read_only: bool, max_bytes: Option<u64>) -> VfsPoint {
    VfsPoint {
        name: name.to_string(),
        max_bytes,
        read_only,
        scheme: "memory".into(),
        config: StrMap::new(),
        is_repo: false,
        repo_password: None,
    }
}

fn user_with(points: Vec<VfsPoint>) -> VfsUser {
    VfsUser {
        username: "alice".into(),
        password: "pw".into(),
        points,
    }
}

fn point_operator(point: VfsPoint) -> Store {
    let user = user_with(vec![point.clone()]);
    Store::new(point_layers(&user, &point))
}

#[test]
fn read_only_point_operator_rejects_writes() {
    let mut op = point_operator(memory_point("ro", true, None));
    let err = op.write(&mut Totals::new(), "file.txt", b"hi").unwrap_err();
    assert_eq!(err.kind(), ErrorKind::PermissionDenied);
}

#[test]
fn read_only_point_operator_allows_reads() {
    let mut seed = point_operator(memory_point("seed", false, None));
    seed.write(&mut Totals::new(), "file.txt", b"hi").unwrap();
    assert_eq!(seed.read("file.txt").unwrap(), b"hi");
    let mut op = point_operator(memory_point("ro", true, None));
    op.files = seed.files;
    assert_eq!(op.read("file.txt").unwrap(), b"hi");
}

#[test]
fn writable_point_operator_allows_writes() {
    let mut op = point_operator(memory_point("rw", false, None));
    op.write(&mut Totals::new(), "file.txt", b"hi").unwrap();
    assert_eq!(op.read("file.txt").unwrap(), b"hi");
}

#[test]
fn quota_enforced_on_point_operator() {
    let mut totals = Totals::new();
    let mut op = point_operator(memory_point("quota", false, Some(4)));
    op.write(&mut totals, "small.txt", b"ab").unwrap();
    let err = op.write(&mut totals, "big.txt", b"toolarge").unwrap_err();
    assert_eq!(err.kind(), ErrorKind::RateLimited);
}

#[test]
fn get_data_operator_applies_same_policy_as_point_operator() {
    let point = memory_point("ro", true, None);
    let user = user_with(vec![point.clone()]);
    let mut op = match point_store(&user, &point).unwrap() {
        PointStore::Data { layers } => Store::new(layers),
        PointStore::Repo(_) => panic!("not a repository"),
    };
    assert_eq!(op.layers, point_layers(&user, &point));
    assert!(op.write(&mut Totals::new(), "x", b"y").is_err());
}

#[test]
fn quota_is_enforced_per_mount() {
    let tree = VfsBuilder::new()
        .mount("/repos/test", 0usize)
        .quota("", 10)
        .mount("/scratch", 1usize)
        .build()
        .unwrap();
    let mut totals = Totals::new();
    let mut stores = vec![
        Store::new(tree.read("/repos/test").unwrap().mount.layers()),
        Store::new(tree.read("/scratch").unwrap().mount.layers()),
    ];
    let mut write = |path: &str, data: &[u8]| {
        let target = tree.write(path)?;
        stores[target.mount.operator].write(&mut totals, &target.path, data)
    };
    write("/repos/test/a.txt", b"0123456789").unwrap();
    let err = write("/repos/test/b.txt", b"x").unwrap_err();
    assert_eq!(err.kind(), ErrorKind::RateLimited);
    write("/scratch/big.txt", b"0123456789012345678901234567890").unwrap();
}

#[test]
fn limits_of_users_are_kept_apart() {
    let limited = |name: &str, point: &str| {
        let point = memory_point(point, false, Some(4));
        let user = VfsUser {
            username: name.into(),
            password: "pw".into(),
            points: vec![point.clone()],
        };
        Store::new(point_layers(&user, &point))
    };
    let mut totals = Totals::new();
    let mut one = limited("a", "b-c");
    let mut two = limited("a-b", "c");
    one.write(&mut totals, "f", b"abcd").unwrap();
    two.write(&mut totals, "f", b"abcd").unwrap();
    assert!(one.write(&mut totals, "g", b"x").is_err());
    assert!(two.write(&mut totals, "g", b"x").is_err());
}
