use mountfs::error::ErrorKind;
use mountfs::read_only::ReadOnlyLayer;
use mountfs::strmap::StrMap;
use mountfs::vfs::util::{normalize, resolve, virtual_children};
use mountfs::vfs::{
    ListAction, MetadataStep, MountAccess, MountHandle, MountLayer, MountLister, MountReadStream,
    MountReader, MountWriter, Operation, VfsBuilder, VfsQuota, BUFFER_SIZE,
};

fn builder() -> VfsBuilder<&'static str> {
    VfsBuilder::new()
}

fn table(paths: &[&str]) -> StrMap<u8> {
    let mut t = StrMap::new();
    for (i, p) in paths.iter().enumerate() {
        t.insert(p.to_string(), i as u8);
    }
    t
}

#[test]
fn normalize_trims_slashes() {
    assert_eq!(normalize(""), "/");
    assert_eq!(normalize("///"), "/");
    assert_eq!(normalize("a/b"), "/a/b");
    assert_eq!(normalize("//a//b//"), "/a//b");
    assert_eq!(normalize(&normalize("x/")), normalize("x/"));
}

#[test]
fn longest_mount_wins() {
    let t = table(&["/a", "/a/b", "/ab"]);
    let (m, v, rel) = resolve(&t, "/a/b/c.txt").unwrap();
    assert_eq!((m.as_str(), *v, rel.as_str()), ("/a/b", 1, "c.txt"));
    let (m, _, rel) = resolve(&t, "a/bc").unwrap();
    assert_eq!((m.as_str(), rel.as_str()), ("/a", "bc"));
    let (m, _, rel) = resolve(&t, "/ab/").unwrap();
    assert_eq!((m.as_str(), rel.as_str()), ("/ab", ""));
    let (m, _, rel) = resolve(&t, "/a/x/").unwrap();
    assert_eq!((m.as_str(), rel.as_str()), ("/a", "x/"));
    assert!(resolve(&t, "/abc").is_none());
    assert!(resolve(&t, "/").is_none());
}

#[test]
fn virtual_children_are_sorted_and_unique() {
    let t = table(&["/repos/test", "/repos/other", "/images", "/repos/test/deep"]);
    assert_eq!(virtual_children(&t, "/").unwrap(), vec!["images", "repos"]);
    assert_eq!(virtual_children(&t, "repos/").unwrap(), vec!["other", "test"]);
    assert_eq!(virtual_children(&t, "/repos/test").unwrap(), vec!["deep"]);
    assert!(virtual_children(&t, "/images").is_none());
    assert!(virtual_children(&t, "/repo").is_none());
    assert_eq!(virtual_children(&table(&[]), "/").unwrap(), Vec::<String>::new());
}

fn access(paths: &[&'static str]) -> MountAccess<&'static str> {
    let mut b = builder();
    for p in paths {
        b = b.mount(p, p);
    }
    b.build().unwrap()
}

#[test]
fn write_and_read_inside_a_mount_rebases_the_path() {
    let a = access(&["/repos/test"]);
    let t = a.write("/repos/test/abc.txt").unwrap();
    assert_eq!(t.mount.operator, "/repos/test");
    let mut w = MountWriter::new(t.path);
    assert_eq!(w.must_open().unwrap(), "abc.txt");
    w.opened();
    assert!(w.must_open().is_none());
    let t = a.read("/repos/test/abc.txt").unwrap();
    let r = MountReader::new(t.path.clone());
    assert_eq!(r.open(2, Some(3)).next(), Some((2, 5)));
    assert_eq!((t.mount_path.as_str(), t.path.as_str()), ("/repos/test", "abc.txt"));
}

#[test]
fn create_dir_rebases_the_path() {
    let a = access(&["/repos/test"]);
    assert_eq!(a.create_dir("/repos/test/abc/").unwrap().path, "abc/");
}

#[test]
fn path_outside_any_mount_is_not_found() {
    let a = access(&["/repos/test"]);
    let err = a.write("/elsewhere/file.txt").unwrap_err();
    assert_eq!(err.kind(), ErrorKind::NotFound);
    assert_eq!(err.message, "no mount covers this path");
    assert_eq!(err.context, vec![("path", "/elsewhere/file.txt".to_string())]);
    assert_eq!(a.read("/x").unwrap_err().kind(), ErrorKind::NotFound);
    assert_eq!(a.delete().delete("/x").unwrap_err().kind(), ErrorKind::NotFound);
    assert_eq!(a.list("/x").unwrap_err().kind(), ErrorKind::NotFound);
    assert_eq!(a.metadata("/x").unwrap_err().kind(), ErrorKind::NotFound);
}

fn virtual_names(a: &MountAccess<&'static str>, path: &str) -> Vec<String> {
    let (mut lister, mount) = a.list(path).unwrap();
    assert!(mount.is_none());
    let mut out = Vec::new();
    loop {
        match lister.next() {
            ListAction::Yield { path } => out.push(path),
            ListAction::Done => break,
            other => panic!("{other:?}"),
        }
    }
    out
}

#[test]
fn listing_an_unmounted_ancestor_shows_virtual_subfolders() {
    let a = access(&["/repos/test", "/repos/other", "/images"]);
    let mut names = virtual_names(&a, "/");
    names.sort();
    assert_eq!(names, vec!["images/", "repos/"]);
    let mut names = virtual_names(&a, "/repos/");
    names.sort();
    assert_eq!(names, vec!["repos/other/", "repos/test/"]);
}

#[test]
fn listing_inside_a_mount_delegates_and_rebases_entries() {
    let a = access(&["/repos/test"]);
    let (mut lister, mount) = a.list("/repos/test/").unwrap();
    assert_eq!(mount.unwrap().operator, "/repos/test");
    match lister.next() {
        ListAction::Open { path } => assert_eq!(path, ""),
        other => panic!("{other:?}"),
    }
    lister.opened();
    assert!(matches!(lister.next(), ListAction::Pull));
    let mut names = Vec::new();
    for entry in [Some("/"), Some("a.txt"), Some("b.txt"), None] {
        match lister.pulled(entry) {
            ListAction::Yield { path } => names.push(path),
            ListAction::Pull => assert_eq!(entry, Some("/")),
            ListAction::Done => assert_eq!(entry, None),
            other => panic!("{other:?}"),
        }
    }
    assert_eq!(names, vec!["/repos/test/a.txt", "/repos/test/b.txt"]);
}

#[test]
fn listed_entries_lead_back() {
    let a = access(&["/m"]);
    let (lister, _) = a.list("/m").unwrap();
    for entry in ["sub/", "sub/x.txt"] {
        match lister.pulled(Some(entry)) {
            ListAction::Yield { path } => assert_eq!(a.read(&path).unwrap().path, entry),
            other => panic!("{other:?}"),
        }
    }
    let (lister, _) = a.list("/m/sub/").unwrap();
    assert!(matches!(lister.pulled(Some("sub/")), ListAction::Pull));
    assert!(matches!(lister, MountLister::Real { opened: false, .. }));
}

#[test]
fn read_only_mount_rejects_writes_but_allows_reads() {
    let a = builder().mount("/repos/test", "s").read_only().build().unwrap();
    let err = a.write("/repos/test/a.txt").unwrap_err();
    assert_eq!(err.kind(), ErrorKind::PermissionDenied);
    assert_eq!(err.message, "mount is read-only");
    assert_eq!(err.context, vec![("path", "/repos/test/a.txt".to_string())]);
    assert_eq!(a.create_dir("/repos/test/dir/").unwrap_err().kind(), ErrorKind::PermissionDenied);
    assert_eq!(a.delete().delete("/repos/test/a.txt").unwrap_err().kind(), ErrorKind::PermissionDenied);
    assert!(a.read("/repos/test/a.txt").is_ok());
}

#[test]
fn guards_of_a_mount() {
    let a = builder()
        .mount("/a", "a")
        .quota("id", 10)
        .read_only()
        .mount("/b", "b")
        .quota("b", 3)
        .mount("/c", "c")
        .build()
        .unwrap();
    let a_mount = a.read("/a").unwrap().mount;
    assert_eq!(
        a_mount.layers(),
        vec![
            MountLayer::Quota {
                id: "id".into(),
                limit: 10
            },
            MountLayer::ReadOnly
        ]
    );
    assert_eq!(a.read("/b").unwrap().mount.layers().len(), 1);
    assert!(a.read("/c").unwrap().mount.layers().is_empty());
    assert_eq!(a.paths(), vec!["/a", "/b", "/c"]);
    assert_eq!(VfsQuota::default(), VfsQuota::Disabled);
}

#[test]
fn deleting_routes_per_path() {
    let a = access(&["/repos/test", "/scratch"]);
    assert_eq!(a.delete().delete("/repos/test/a.txt").unwrap().mount.operator, "/repos/test");
    let t = a.delete().delete("/scratch/b.txt").unwrap();
    assert_eq!((t.mount.operator, t.path.as_str()), ("/scratch", "b.txt"));
}

#[test]
fn duplicate_mount_paths_are_rejected_at_build() {
    let err = builder()
        .mount("/repos/test", "a")
        .mount("/repos/test", "b")
        .build()
        .unwrap_err();
    assert_eq!(err.kind(), ErrorKind::ConfigInvalid);
    let err = builder()
        .mount("/repos/test", "a")
        .mount("repos/test/", "b")
        .build()
        .unwrap_err();
    assert_eq!(err.kind(), ErrorKind::ConfigInvalid);
    assert_eq!(err.message, "duplicate mount path");
    assert_eq!(err.context, vec![("path", "/repos/test".to_string())]);
}

#[test]
fn mounting_root_is_rejected_at_build() {
    let err = builder().mount("/", "a").build().unwrap_err();
    assert_eq!(err.kind(), ErrorKind::ConfigInvalid);
    assert_eq!(err.message, "cannot mount at the virtual root '/'");
}

#[test]
fn metadata_is_known_for_directories() {
    let a = access(&["/repos/test"]);
    assert!(matches!(a.metadata("/").unwrap(), MetadataStep::Directory));
    assert!(matches!(a.metadata("/repos").unwrap(), MetadataStep::Directory));
    assert!(matches!(a.metadata("/repos/test/").unwrap(), MetadataStep::Directory));
    match a.metadata("/repos/test/x").unwrap() {
        MetadataStep::Stat(t) => assert_eq!(t.path, "x"),
        other => panic!("{other:?}"),
    }
}

#[test]
fn operations_that_are_not_offered() {
    let a = access(&["/a"]);
    for (op, text) in [
        (Operation::Copy, "MountFs does not support `copy`."),
        (Operation::Rename, "MountFs does not support `rename`."),
        (Operation::Presign, "MountFs does not support `presign`."),
    ] {
        let e = a.offers(op).unwrap_err();
        assert_eq!((e.kind(), e.message.as_str()), (ErrorKind::Unsupported, text));
    }
    for op in [
        Operation::Stat,
        Operation::Read,
        Operation::Write,
        Operation::CreateDir,
        Operation::Delete,
        Operation::List,
    ] {
        assert!(a.offers(op).is_ok());
    }
}

#[test]
fn read_only_layer_refuses_changes() {
    for op in [
        Operation::CreateDir,
        Operation::Write,
        Operation::Delete,
        Operation::Copy,
        Operation::Rename,
    ] {
        let e = ReadOnlyLayer.check(op).unwrap_err();
        assert_eq!(e.kind(), ErrorKind::PermissionDenied);
        assert_eq!(e.message, "read-only mount point");
        assert_eq!(e.context, vec![("layer", "ReadOnlyLayer".to_string())]);
    }
    for op in [Operation::Stat, Operation::Read, Operation::List, Operation::Presign] {
        assert!(ReadOnlyLayer.check(op).is_ok());
    }
}

#[test]
fn streams_read_their_range_in_pieces() {
    let len = 2 * BUFFER_SIZE + 5;
    let mut s = MountReadStream::open(3, None);
    let mut from = 3;
    let mut pieces = 0;
    while let Some((a, b)) = s.next() {
        assert_eq!(a, from);
        let got = b.min(len) - a;
        s.advance(got);
        from += got;
        pieces += 1;
    }
    assert_eq!(from, len);
    assert_eq!(pieces, 3);
    assert_eq!(s.end, Some(len));

    let mut s = MountReadStream::open(10, Some(4));
    assert_eq!(s.next(), Some((10, 14)));
    s.advance(4);
    assert_eq!(s.next(), None);
    assert_eq!(MountReadStream::open(7, Some(0)).next(), None);
}

#[test]
fn reads_are_cut_off_at_the_end() {
    let h = MountHandle { content_length: 10 };
    assert_eq!(h.read_at(0, 4), Some((0, 4)));
    assert_eq!(h.read_at(8, 4), Some((8, 10)));
    assert_eq!(h.read_at(10, 1), None);
    assert_eq!(h.read_at(11, 0), None);
    assert_eq!(h.read_at(10, u64::MAX), None);
}
