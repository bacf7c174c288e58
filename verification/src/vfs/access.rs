//! Which mount is asked to do what.

use super::builder::Mount;
use super::lister::MountLister;
use super::reader::MountReadStream;
use super::util::{below, is_ancestor, is_child, is_owner, normal, normalize, not_found,
    not_found_view, owned, owns, permission_denied, permission_denied_view, relative, resolve, root,
    unsupported, unsupported_view, virtual_children};
use crate::error::{Error, ErrorView};
use crate::strmap::StrMap;
use crate::text::{same, trim_start, views};
use vstd::prelude::*;

verus! {

/// What can be asked of a store.
#[derive(Clone, Copy, Debug, PartialEq, Eq, Structural)]
pub enum Operation {
    CreateDir,
    Stat,
    Read,
    Write,
    Delete,
    List,
    Copy,
    Rename,
    Presign,
}

/// The mount that a path belongs to, and the path inside it.
#[derive(Debug)]
pub struct Target<'a, O> {
    pub mount_path: &'a String,
    pub mount: &'a Mount<O>,
    pub path: String,
}

/// A file of a mount that is read. Nothing is asked of its store until it is
/// opened.
#[derive(Debug)]
pub struct MountReader {
    pub path: String,
}

impl MountReader {
    /// Reads `path` of a mount.
    pub fn new(path: String) -> (r: Self)
        ensures
            r.path == path,
    {
        MountReader { path }
    }

    /// Starts to read `size` bytes from `offset` on, or all of them where no
    /// size is given.
    pub fn open(&self, offset: u64, size: Option<u64>) -> (r: MountReadStream)
        requires
            size matches Some(n) ==> offset + n <= u64::MAX,
        ensures
            r.offset == offset,
            match size {
                Some(n) => r.end == Some((offset + n) as u64),
                None => r.end is None,
            },
    {
        MountReadStream::open(offset, size)
    }
}

/// A file of a mount that is written. Nothing is asked of its store until the
/// first write, close or abort.
#[derive(Debug)]
pub struct MountWriter {
    pub path: String,
    /// Whether its store has opened it.
    pub opened: bool,
}

impl MountWriter {
    /// Writes `path` of a mount.
    pub fn new(path: String) -> (r: Self)
        ensures
            r.path == path,
            !r.opened,
    {
        MountWriter { path, opened: false }
    }

    /// The path that the store has to open first, if any.
    pub fn must_open(&self) -> (r: Option<&String>)
        ensures
            match r {
                Some(path) => !self.opened && *path == self.path,
                None => self.opened,
            },
    {
        if self.opened {
            None
        } else {
            Some(&self.path)
        }
    }

    /// The store has opened the file.
    pub fn opened(&mut self)
        ensures
            *final(self) == (MountWriter { opened: true, ..*old(self) }),
    {
        self.opened = true;
    }
}

/// A batch of deletes. Each goes to the mount that owns its path.
#[derive(Debug)]
pub struct MountDeleter<'a, O> {
    pub mounts: &'a MountAccess<O>,
}

impl<'a, O> MountDeleter<'a, O> {
    /// Where `path` is deleted.
    pub fn delete(&self, path: &str) -> (r: Result<Target<'a, O>, Error>)
        ensures
            match r {
                Ok(target) => leads_to(self.mounts@, path@, target) && !target.mount.read_only,
                Err(e) => !changeable(self.mounts@, path@) && e@ == refusal(self.mounts@, path@),
            },
    {
        self.mounts.change(path)
    }
}

/// How the metadata of a path is found.
#[derive(Debug)]
pub enum MetadataStep<'a, O> {
    /// It is a directory: a mount itself, or a directory above mounts.
    Directory,
    /// The mount's store knows.
    Stat(Target<'a, O>),
}

/// The mounts of a file system. Made by
/// [`VfsBuilder`](super::builder::VfsBuilder).
#[derive(Debug)]
pub struct MountAccess<O> {
    mounts: StrMap<Mount<O>>,
}

impl<O> View for MountAccess<O> {
    type V = Map<Seq<char>, Mount<O>>;

    closed spec fn view(&self) -> Map<Seq<char>, Mount<O>> {
        self.mounts@
    }
}

/// Whether every mount path is in normal form and below the root.
pub open spec fn valid_mounts<O>(mounts: Map<Seq<char>, Mount<O>>) -> bool {
    forall|m: Seq<char>| #[trigger] mounts.contains_key(m) ==> normal(m) == m && m != root()
}

/// Whether `target` is where `path` leads.
pub open spec fn leads_to<O>(
    mounts: Map<Seq<char>, Mount<O>>,
    path: Seq<char>,
    target: Target<O>,
) -> bool {
    &&& is_owner(mounts, path, target.mount_path@)
    &&& *target.mount == mounts[target.mount_path@]
    &&& target.path@ == relative(target.mount_path@, path)
}

/// What is answered to a change of `path` that is refused.
pub open spec fn refusal<O>(mounts: Map<Seq<char>, Mount<O>>, path: Seq<char>) -> ErrorView {
    if owned(mounts, path) {
        permission_denied_view(path)
    } else {
        not_found_view(path)
    }
}

/// Whether the mount that owns `path` takes changes.
pub open spec fn changeable<O>(mounts: Map<Seq<char>, Mount<O>>, path: Seq<char>) -> bool {
    exists|m: Seq<char>| #[trigger] is_owner(mounts, path, m) && !mounts[m].read_only
}

/// The path under which the virtual child `name` of `path` is listed.
pub open spec fn virtual_entry(path: Seq<char>, name: Seq<char>) -> Seq<char> {
    if normal(path) == root() {
        name.push('/')
    } else {
        trim_start(normal(path), '/').push('/') + name.push('/')
    }
}

impl<O> MountAccess<O> {
    #[verifier::type_invariant]
    spec fn inv(self) -> bool {
        valid_mounts(self.mounts@)
    }

    pub(crate) fn new(mounts: StrMap<Mount<O>>) -> (r: Self)
        requires
            valid_mounts(mounts@),
        ensures
            r@ == mounts@,
    {
        MountAccess { mounts }
    }

    /// The mount paths in dictionary order.
    pub fn paths(&self) -> (r: Vec<String>)
        ensures
            super::util::sorted(views(r@)),
            forall|k: Seq<char>| #[trigger] views(r@).contains(k) <==> self@.contains_key(k),
    {
        let count = self.mounts.len();
        let mut out: Vec<String> = Vec::new();
        let mut i: usize = 0;
        while i < count
            invariant
                count == self.mounts.keys().len(),
                i <= count,
                out@.len() == i,
                forall|j: int| 0 <= j < i ==> #[trigger] out@[j]@ == self.mounts.keys()[j],
            decreases count - i,
        {
            out.push(self.mounts.key_at(i).clone());
            i += 1;
        }
        assert(views(out@) =~= self.mounts.keys());
        out
    }

    /// Copying, renaming and signing links are not offered; the rest is.
    pub fn offers(&self, op: Operation) -> (r: Result<(), Error>)
        ensures
            match r {
                Ok(_) => op != Operation::Copy && op != Operation::Rename && op
                    != Operation::Presign,
                Err(e) => match op {
                    Operation::Copy => e@ == unsupported_view("copy"@),
                    Operation::Rename => e@ == unsupported_view("rename"@),
                    Operation::Presign => e@ == unsupported_view("presign"@),
                    _ => false,
                },
            },
    {
        match op {
            Operation::Copy => Err(unsupported("copy")),
            Operation::Rename => Err(unsupported("rename")),
            Operation::Presign => Err(unsupported("presign")),
            _ => Ok(()),
        }
    }

    /// How the metadata of `path` is found. A mount itself and a directory
    /// above mounts are known without asking any store.
    pub fn metadata(&self, path: &str) -> (r: Result<MetadataStep<'_, O>, Error>)
        ensures
            match r {
                Ok(MetadataStep::Directory) => {
                    ||| self@.contains_key(normal(path@))
                    ||| !owned(self@, path@) && (normal(path@) == root() || is_ancestor(
                        self@,
                        path@,
                    ))
                },
                Ok(MetadataStep::Stat(target)) => {
                    &&& leads_to(self@, path@, target)
                    &&& !self@.contains_key(normal(path@))
                },
                Err(e) => {
                    &&& !owned(self@, path@)
                    &&& normal(path@) != root()
                    &&& !is_ancestor(self@, path@)
                    &&& e@ == not_found_view(path@)
                },
            },
    {
        proof {
            use_type_invariant(self);
        }
        match resolve(&self.mounts, path) {
            Some((mount_path, mount, rel)) => {
                let normalized = normalize(path);
                if same(normalized.as_str(), mount_path.as_str()) && rel.as_str().is_empty() {
                    return Ok(MetadataStep::Directory);
                }
                proof {
                    let n = normal(path@);
                    if self@.contains_key(n) {
                        assert(owns(n, n));
                        assert(n.len() <= mount_path@.len());
                        assert(mount_path@ == n);
                        assert(n.skip(n.len() as int) =~= Seq::<char>::empty());
                        assert(rel@ =~= Seq::<char>::empty());
                    }
                }
                Ok(MetadataStep::Stat(Target { mount_path, mount, path: rel }))
            },
            None => match virtual_children(&self.mounts, path) {
                Some(_) => Ok(MetadataStep::Directory),
                None => Err(not_found(path)),
            },
        }
    }

    /// Where `path` is read from.
    pub fn read(&self, path: &str) -> (r: Result<Target<'_, O>, Error>)
        ensures
            match r {
                Ok(target) => leads_to(self@, path@, target),
                Err(e) => !owned(self@, path@) && e@ == not_found_view(path@),
            },
    {
        match resolve(&self.mounts, path) {
            Some((mount_path, mount, rel)) => Ok(Target { mount_path, mount, path: rel }),
            None => Err(not_found(path)),
        }
    }

    /// Where a change of `path` is made.
    fn change(&self, path: &str) -> (r: Result<Target<'_, O>, Error>)
        ensures
            match r {
                Ok(target) => leads_to(self@, path@, target) && !target.mount.read_only,
                Err(e) => !changeable(self@, path@) && e@ == refusal(self@, path@),
            },
    {
        match resolve(&self.mounts, path) {
            Some((mount_path, mount, rel)) => {
                assert(is_owner(self@, path@, mount_path@));
                assert(owned(self@, path@));
                if mount.read_only {
                    proof {
                        assert forall|m: Seq<char>| #[trigger]
                            is_owner(self@, path@, m) implies self@[m].read_only by {
                            super::util::law_owner_unique(self@, path@, m, mount_path@);
                        }
                    }
                    return Err(permission_denied(path));
                }
                Ok(Target { mount_path, mount, path: rel })
            },
            None => {
                proof {
                    assert forall|m: Seq<char>| !#[trigger] is_owner(self@, path@, m) by {
                        if is_owner(self@, path@, m) {
                            assert(self@.contains_key(m));
                        }
                    }
                }
                Err(not_found(path))
            },
        }
    }

    /// Where the directory `path` is made.
    pub fn create_dir(&self, path: &str) -> (r: Result<Target<'_, O>, Error>)
        ensures
            match r {
                Ok(target) => leads_to(self@, path@, target) && !target.mount.read_only,
                Err(e) => !changeable(self@, path@) && e@ == refusal(self@, path@),
            },
    {
        self.change(path)
    }

    /// Where `path` is written.
    pub fn write(&self, path: &str) -> (r: Result<Target<'_, O>, Error>)
        ensures
            match r {
                Ok(target) => leads_to(self@, path@, target) && !target.mount.read_only,
                Err(e) => !changeable(self@, path@) && e@ == refusal(self@, path@),
            },
    {
        self.change(path)
    }

    /// Starts a batch of deletes.
    pub fn delete(&self) -> (r: MountDeleter<'_, O>)
        ensures
            r.mounts@ == self@,
    {
        MountDeleter { mounts: self }
    }

    /// Starts to list `path`. A path inside a mount is listed by its store, as
    /// it is walked; a directory above mounts is known at once, and no store is
    /// asked.
    pub fn list(&self, path: &str) -> (r: Result<(MountLister, Option<&Mount<O>>), Error>)
        ensures
            match r {
                Ok((MountLister::Real { mount_path, path: rel, opened }, mount)) => {
                    &&& is_owner(self@, path@, mount_path@)
                    &&& mount matches Some(m) && *m == self@[mount_path@]
                    &&& rel@ == relative(mount_path@, path@)
                    &&& !opened
                },
                Ok((MountLister::Virtual { entries }, mount)) => {
                    &&& mount is None
                    &&& !owned(self@, path@)
                    &&& normal(path@) == root() || is_ancestor(self@, path@)
                    &&& exists|names: Seq<Seq<char>>|
                        {
                            &&& #[trigger] super::util::sorted(names)
                            &&& forall|n: Seq<char>| #[trigger]
                                names.contains(n) <==> is_child(self@, path@, n)
                            &&& views(entries@) == names.map_values(
                                |n: Seq<char>| virtual_entry(path@, n),
                            )
                        }
                },
                Err(e) => {
                    &&& !owned(self@, path@)
                    &&& normal(path@) != root()
                    &&& !is_ancestor(self@, path@)
                    &&& e@ == not_found_view(path@)
                },
            },
    {
        match resolve(&self.mounts, path) {
            Some((mount_path, mount, rel)) => {
                return Ok(
                    (
                        MountLister::Real {
                            mount_path: mount_path.clone(),
                            path: rel,
                            opened: false,
                        },
                        Some(mount),
                    ),
                );
            },
            None => {},
        }
        match virtual_children(&self.mounts, path) {
            Some(children) => {
                let base = normalize(path);
                proof {
                    reveal_strlit("/");
                    assert("/"@ =~= root());
                }
                let at_root = same(base.as_str(), "/");
                let inner = crate::text::without_lead(base.as_str(), '/');
                let mut entries: Vec<String> = Vec::new();
                let mut i: usize = 0;
                while i < children.len()
                    invariant
                        at_root == (normal(path@) == root()),
                        inner@ == trim_start(normal(path@), '/'),
                        i <= children@.len(),
                        entries@.len() == i,
                        forall|j: int|
                            0 <= j < i ==> #[trigger] entries@[j]@ == virtual_entry(
                                path@,
                                children@[j]@,
                            ),
                    decreases children@.len() - i,
                {
                    let mut full = String::new();
                    if !at_root {
                        full.append(inner.as_str());
                        full.push('/');
                    }
                    full.append(children[i].as_str());
                    full.push('/');
                    assert(full@ =~= virtual_entry(path@, children@[i as int]@));
                    entries.push(full);
                    i += 1;
                }
                proof {
                    assert(views(entries@) =~= views(children@).map_values(
                        |n: Seq<char>| virtual_entry(path@, n),
                    ));
                }
                Ok((MountLister::Virtual { entries }, None))
            },
            None => Err(not_found(path)),
        }
    }
}

// ── Laws ────────────────────────────────────────────────────────────────────

/// What is written is what is read: a path leads to one place only.
pub proof fn law_one_target<O>(
    mounts: Map<Seq<char>, Mount<O>>,
    path: Seq<char>,
    a: Target<O>,
    b: Target<O>,
)
    requires
        leads_to(mounts, path, a),
        leads_to(mounts, path, b),
    ensures
        a.mount_path@ == b.mount_path@,
        *a.mount == *b.mount,
        a.path@ == b.path@,
{
    super::util::law_owner_unique(mounts, path, a.mount_path@, b.mount_path@);
}

/// A read-only mount refuses every change below it, whatever the path.
pub proof fn law_read_only_mount_refuses<O>(
    mounts: Map<Seq<char>, Mount<O>>,
    path: Seq<char>,
    mount: Seq<char>,
)
    requires
        is_owner(mounts, path, mount),
        mounts[mount].read_only,
    ensures
        !changeable(mounts, path),
        refusal(mounts, path) == permission_denied_view(path),
{
    assert forall|m: Seq<char>| #[trigger] is_owner(mounts, path, m) implies mounts[m].read_only by {
        super::util::law_owner_unique(mounts, path, m, mount);
    }
    assert(mounts.contains_key(mount));
}

/// A name without slashes, put below a directory, gives a normal path.
proof fn lemma_child_normal(path: Seq<char>, name: Seq<char>)
    requires
        name.len() > 0,
        forall|i: int| 0 <= i < name.len() ==> name[i] != '/',
    ensures
        normal(below(path) + name) == below(path) + name,
        below(below(path) + name) == (below(path) + name).push('/'),
{
    let full = below(path) + name;
    let t = crate::text::trim(path, '/');
    crate::text::lemma_trim_ends(path, '/');
    // `full` is a slash and a text that neither begins nor ends with one.
    let inner = full.skip(1);
    assert(inner.last() == name.last());
    if normal(path) == root() {
        assert(inner =~= name);
    } else {
        assert(normal(path).len() > 1) by {
            if t.len() == 0 {
                assert(normal(path) =~= root());
            }
        }
        assert(inner[0] == t[0]);
    }
    assert(full[0] == '/');
    crate::text::lemma_lead(full, '/', 1);
    assert(trim_start(full, '/') =~= inner);
    crate::text::lemma_trail(inner, '/', 0);
    assert(inner.take(inner.len() as int) =~= inner);
    assert(full =~= root() + inner);
    assert(full != root()) by {
        assert(full.len() > 1);
    }
}

/// What a virtual directory lists exists: each child is a mount, or a virtual
/// directory itself.
pub proof fn law_virtual_children_exist<O>(
    mounts: Map<Seq<char>, Mount<O>>,
    path: Seq<char>,
    name: Seq<char>,
)
    requires
        valid_mounts(mounts),
        is_child(mounts, path, name),
        name.len() > 0,
    ensures
        normal(below(path) + name) == below(path) + name,
        mounts.contains_key(below(path) + name) || is_ancestor(mounts, below(path) + name),
{
    let m = choose|m: Seq<char>| #[trigger]
        mounts.contains_key(m) && super::util::child(below(path), m) == Some(name);
    let pre = below(path);
    let rest = m.skip(pre.len() as int);
    crate::text::lemma_first_at_is(rest, '/');
    let full = pre + name;
    assert forall|i: int| 0 <= i < name.len() implies name[i] != '/' by {
        assert(name[i] == rest[i]);
    }
    lemma_child_normal(path, name);
    assert(m =~= pre + rest);
    if name.len() == rest.len() {
        assert(name =~= rest);
    } else {
        assert(rest[name.len() as int] == '/');
        assert(full.push('/') =~= m.subrange(0, full.len() as int + 1));
        super::util::law_normal_form(m);
        assert(full.len() + 1 < m.len()) by {
            if full.len() + 1 == m.len() {
                assert(m.last() == '/');
            }
        }
        assert(super::util::child(below(full), m) is Some);
    }
}

/// A path is read from the longest mount that it equals or lies below, at what
/// follows the path of that mount; where no mount is that, it is not found.
pub proof fn law_paths_are_read_from_the_longest_mount<'a, O>(
    a: &'a MountAccess<O>,
    path: &str,
    r: Result<Target<'a, O>, Error>,
    before: nat,
    core: Seq<char>,
    after: nat,
    m: Seq<char>,
) -> (between: nat)
    requires
        call_ensures(MountAccess::<O>::read, (a, path), r),
        core.len() > 0 ==> core[0] != '/' && core[core.len() - 1] != '/',
        path@ == Seq::new(before, |i: int| '/') + core + Seq::new(after, |i: int| '/'),
    ensures
        match r {
            Ok(target) => {
                let rest = if target.path@.len() > 0 && target.path@[target.path@.len() - 1]
                    == '/' {
                    target.path@.drop_last()
                } else {
                    target.path@
                };
                &&& a@.contains_key(target.mount_path@)
                &&& *target.mount == a@[target.mount_path@]
                &&& seq!['/'] + core == target.mount_path@ + Seq::new(between, |i: int| '/') + rest
                &&& between == 0 <==> seq!['/'] + core == target.mount_path@
                &&& rest.len() > 0 ==> rest[0] != '/' && rest[rest.len() - 1] != '/'
                &&& target.path@ != rest <==> rest.len() > 0 && path@[path@.len() - 1] == '/'
                &&& a@.contains_key(m) && (m == seq!['/'] + core || m.push('/').is_prefix_of(
                    seq!['/'] + core,
                )) ==> m.len() <= target.mount_path@.len()
            },
            Err(e) => {
                &&& e.kind == crate::error::ErrorKind::NotFound
                &&& e.message@ == "no mount covers this path"@
                &&& a@.contains_key(m) ==> m != seq!['/'] + core && !m.push('/').is_prefix_of(
                    seq!['/'] + core,
                )
            },
        },
{
    crate::text::law_trimming_takes_off_what_was_put_on(before, core, after, '/');
    let n = normal(path@);
    assert(n == seq!['/'] + core);
    match r {
        Ok(target) => {
            let mount = target.mount_path@;
            let rel = target.path@;
            assert(is_owner(a@, path@, mount));
            let s = n.skip(mount.len() as int);
            let t = trim_start(s, '/');
            let between = crate::text::lead(s, '/');
            super::util::lemma_rest_ends(mount, path@);
            crate::text::lemma_lead_is(s, '/');
            assert(n =~= mount + s) by {
                if n != mount {
                    assert(mount =~= n.subrange(0, mount.len() as int));
                }
            }
            assert(s =~= Seq::new(between, |i: int| '/') + t);
            assert(n =~= mount + Seq::new(between, |i: int| '/') + t);
            if n == mount {
                assert(s.len() == 0);
            } else {
                assert(mount.push('/')[mount.len() as int] == '/');
                assert(s[0] == '/');
            }
            let rest = if rel.len() > 0 && rel[rel.len() - 1] == '/' {
                rel.drop_last()
            } else {
                rel
            };
            assert(rest =~= t);
            if t.len() > 0 {
                assert(t[0] == s[between as int]);
            }
            between
        },
        Err(_) => 0,
    }
}

/// Writing, making a directory and deleting go where reading goes, unless the
/// mount there is read-only: such a change is denied. Where nothing can be read
/// from, nothing can be changed.
pub proof fn law_changes_go_where_reads_go<'a, O>(
    a: &'a MountAccess<O>,
    path: &str,
    read: Result<Target<'a, O>, Error>,
    write: Result<Target<'a, O>, Error>,
    made: Result<Target<'a, O>, Error>,
    deleter: MountDeleter<'a, O>,
    deleted: Result<Target<'a, O>, Error>,
)
    requires
        call_ensures(MountAccess::<O>::read, (a, path), read),
        call_ensures(MountAccess::<O>::write, (a, path), write),
        call_ensures(MountAccess::<O>::create_dir, (a, path), made),
        call_ensures(MountAccess::<O>::delete, (a,), deleter),
        call_ensures(MountDeleter::<'a, O>::delete, (&deleter, path), deleted),
    ensures
        match read {
            Ok(t) => {
                &&& write is Ok <==> !t.mount.read_only
                &&& made is Ok <==> !t.mount.read_only
                &&& deleted is Ok <==> !t.mount.read_only
                &&& write matches Ok(w) ==> w.mount_path@ == t.mount_path@ && *w.mount == *t.mount
                    && w.path@ == t.path@
                &&& made matches Ok(w) ==> w.mount_path@ == t.mount_path@ && *w.mount == *t.mount
                    && w.path@ == t.path@
                &&& deleted matches Ok(w) ==> w.mount_path@ == t.mount_path@ && *w.mount == *t.mount
                    && w.path@ == t.path@
                &&& write matches Err(e) ==> e.kind == crate::error::ErrorKind::PermissionDenied
                &&& made matches Err(e) ==> e.kind == crate::error::ErrorKind::PermissionDenied
                &&& deleted matches Err(e) ==> e.kind == crate::error::ErrorKind::PermissionDenied
            },
            Err(_) => {
                &&& write matches Err(e) && e.kind == crate::error::ErrorKind::NotFound
                &&& made matches Err(e) && e.kind == crate::error::ErrorKind::NotFound
                &&& deleted matches Err(e) && e.kind == crate::error::ErrorKind::NotFound
            },
        },
{
    match read {
        Ok(t) => {
            assert(is_owner(a@, path@, t.mount_path@));
            assert(owned(a@, path@)) by {
                assert(a@.contains_key(t.mount_path@));
            }
            assert forall|m: Seq<char>| #[trigger] is_owner(a@, path@, m) implies m
                == t.mount_path@ by {
                super::util::law_owner_unique(a@, path@, m, t.mount_path@);
            }
        },
        Err(_) => {
            assert forall|m: Seq<char>| !#[trigger] is_owner(a@, path@, m) by {
                if is_owner(a@, path@, m) {
                    assert(a@.contains_key(m));
                }
            }
        },
    }
}

/// A path is listed by the mount that it is read from, at the same path in it.
/// Where it is read from none, it is listed where it is the root or a mount lies
/// below it, each entry once: the path of the directory, a name, and a slash.
/// Anything else is not found.
pub proof fn law_paths_are_listed_where_they_are_read<'a, O>(
    a: &'a MountAccess<O>,
    path: &str,
    read: Result<Target<'a, O>, Error>,
    r: Result<(MountLister, Option<&'a Mount<O>>), Error>,
    before: nat,
    core: Seq<char>,
    after: nat,
    name: Seq<char>,
    rest: Option<Seq<char>>,
)
    requires
        call_ensures(MountAccess::<O>::read, (a, path), read),
        call_ensures(MountAccess::<O>::list, (a, path), r),
        core.len() > 0 ==> core[0] != '/' && core[core.len() - 1] != '/',
        path@ == Seq::new(before, |i: int| '/') + core + Seq::new(after, |i: int| '/'),
        !name.contains('/'),
    ensures
        read matches Ok(t) ==> (r matches Ok(
            (MountLister::Real { mount_path, path: p, opened }, mount),
        ) && mount_path@ == t.mount_path@ && p@ == t.path@ && !opened && (mount matches Some(m)
            && *m == *t.mount)),
        read is Err ==> !(r matches Ok((MountLister::Real { .. }, _))),
        read is Err && core.len() == 0 ==> r is Ok,
        read is Err ==> ({
            let dir = if core.len() == 0 {
                seq!['/']
            } else {
                seq!['/'] + core + seq!['/']
            };
            let mount = dir + name + match rest {
                Some(t) => seq!['/'] + t,
                None => Seq::empty(),
            };
            a@.contains_key(mount) && mount.len() > dir.len() ==> (r matches Ok(
                (MountLister::Virtual { entries }, None),
            ) && views(entries@).contains(dir.skip(1) + name + seq!['/']))
        }),
        r matches Err(e) ==> e.kind == crate::error::ErrorKind::NotFound,
{
    crate::text::law_trimming_takes_off_what_was_put_on(before, core, after, '/');
    let n = normal(path@);
    assert(n == seq!['/'] + core);
    if read is Ok {
        let t = read->Ok_0;
        assert(is_owner(a@, path@, t.mount_path@));
        assert(owned(a@, path@)) by {
            assert(a@.contains_key(t.mount_path@));
        }
        if r is Ok {
            match r->Ok_0.0 {
                MountLister::Real { mount_path, .. } => {
                    super::util::law_owner_unique(a@, path@, mount_path@, t.mount_path@);
                },
                MountLister::Virtual { .. } => {},
            }
        }
    } else {
        if r is Ok {
            match r->Ok_0.0 {
                MountLister::Real { mount_path, .. } => {
                    assert(a@.contains_key(mount_path@));
                },
                MountLister::Virtual { .. } => {},
            }
        }
        let dir = if core.len() == 0 {
            seq!['/']
        } else {
            seq!['/'] + core + seq!['/']
        };
        if core.len() == 0 {
            assert(n =~= root());
        } else {
            assert(n.len() > 1);
        }
        assert(below(path@) =~= dir);
        let behind = name + match rest {
            Some(t) => seq!['/'] + t,
            None => Seq::empty(),
        };
        let mount = dir + name + match rest {
            Some(t) => seq!['/'] + t,
            None => Seq::empty(),
        };
        assert(mount =~= dir + behind);
        if a@.contains_key(mount) && mount.len() > dir.len() {
            assert(mount.skip(dir.len() as int) =~= behind);
            assert(dir =~= mount.subrange(0, dir.len() as int));
            match rest {
                Some(t) => {
                    assert(behind =~= name.push('/') + t);
                    crate::text::law_cutting_finds_the_first(name, t, '/');
                },
                None => {
                    assert(behind =~= name);
                    crate::text::law_cutting_finds_the_first(name, Seq::empty(), '/');
                },
            }
            assert(super::util::child(below(path@), mount) == Some(name));
            assert(is_child(a@, path@, name));
            assert(is_ancestor(a@, path@));
            assert(r is Ok);
            match r->Ok_0.0 {
                MountLister::Virtual { entries } => {
                    let names = choose|names: Seq<Seq<char>>|
                        {
                            &&& #[trigger] super::util::sorted(names)
                            &&& forall|n: Seq<char>| #[trigger]
                                names.contains(n) <==> is_child(a@, path@, n)
                            &&& views(entries@) == names.map_values(
                                |n: Seq<char>| virtual_entry(path@, n),
                            )
                        };
                    assert(names.contains(name));
                    let i = choose|i: int| 0 <= i < names.len() && names[i] == name;
                    assert(views(entries@)[i] == virtual_entry(path@, name));
                    crate::text::lemma_lead(n, '/', 1);
                    assert(trim_start(n, '/') =~= core);
                    assert(virtual_entry(path@, name) =~= dir.skip(1) + name + seq!['/']);
                },
                MountLister::Real { .. } => {},
            }
        }
    }
}

/// A directory above mounts lists nothing that no mount lies at or below: each
/// entry is the path of the directory, a name, and a slash, and some mount is
/// there or goes on from there.
pub proof fn law_listed_directories_lead_to_mounts<'a, O>(
    a: &'a MountAccess<O>,
    path: &str,
    entries: Vec<String>,
    before: nat,
    core: Seq<char>,
    after: nat,
    k: int,
) -> (found: (Seq<char>, Seq<char>))
    requires
        call_ensures(
            MountAccess::<O>::list,
            (a, path),
            Ok((MountLister::Virtual { entries }, None)),
        ),
        core.len() > 0 ==> core[0] != '/' && core[core.len() - 1] != '/',
        path@ == Seq::new(before, |i: int| '/') + core + Seq::new(after, |i: int| '/'),
        0 <= k < entries@.len(),
    ensures
        ({
            let dir = if core.len() == 0 {
                seq!['/']
            } else {
                seq!['/'] + core + seq!['/']
            };
            let (name, mount) = found;
            &&& !name.contains('/')
            &&& entries@[k]@ == dir.skip(1) + name + seq!['/']
            &&& a@.contains_key(mount)
            &&& mount.len() > dir.len()
            &&& mount == dir + name || (dir + name + seq!['/']).is_prefix_of(mount)
        }),
{
    crate::text::law_trimming_takes_off_what_was_put_on(before, core, after, '/');
    let n = normal(path@);
    assert(n == seq!['/'] + core);
    let dir = if core.len() == 0 {
        seq!['/']
    } else {
        seq!['/'] + core + seq!['/']
    };
    if core.len() == 0 {
        assert(n =~= root());
    } else {
        assert(n.len() > 1);
    }
    assert(below(path@) =~= dir);
    let names = choose|names: Seq<Seq<char>>|
        {
            &&& #[trigger] super::util::sorted(names)
            &&& forall|n: Seq<char>| #[trigger] names.contains(n) <==> is_child(a@, path@, n)
            &&& views(entries@) == names.map_values(|n: Seq<char>| virtual_entry(path@, n))
        };
    assert(views(entries@).len() == names.len());
    let name = names[k];
    assert(names.contains(name));
    assert(views(entries@)[k] == virtual_entry(path@, name));
    crate::text::lemma_lead(n, '/', 1);
    assert(trim_start(n, '/') =~= core);
    assert(virtual_entry(path@, name) =~= dir.skip(1) + name + seq!['/']);
    let m = choose|m: Seq<char>| #[trigger]
        a@.contains_key(m) && super::util::child(below(path@), m) == Some(name);
    let behind = m.skip(dir.len() as int);
    crate::text::lemma_first_at_is(behind, '/');
    assert(m =~= dir + behind);
    assert forall|i: int| 0 <= i < name.len() implies name[i] != '/' by {
        assert(name[i] == behind[i]);
    }
    if name.len() == behind.len() {
        assert(name =~= behind);
    } else {
        assert(dir + name + seq!['/'] =~= m.subrange(0, (dir + name).len() as int + 1));
    }
    (name, m)
}

/// A mount itself is a directory, and so is whatever is listed without being
/// read from a mount. Everything else that can be read is known by its mount,
/// and what can be neither read nor listed is not found.
pub proof fn law_directories_are_mounts_or_above_them<'a, O>(
    a: &'a MountAccess<O>,
    path: &str,
    read: Result<Target<'a, O>, Error>,
    list: Result<(MountLister, Option<&'a Mount<O>>), Error>,
    r: Result<MetadataStep<'a, O>, Error>,
)
    requires
        forall|m: Seq<char>| #[trigger]
            a@.contains_key(m) ==> m.len() > 1 && m[0] == '/' && m[m.len() - 1] != '/',
        call_ensures(MountAccess::<O>::read, (a, path), read),
        call_ensures(MountAccess::<O>::list, (a, path), list),
        call_ensures(MountAccess::<O>::metadata, (a, path), r),
    ensures
        read matches Ok(t) ==> if t.path@.len() == 0 {
            r matches Ok(MetadataStep::Directory)
        } else {
            r matches Ok(MetadataStep::Stat(s)) && s.mount_path@ == t.mount_path@ && *s.mount
                == *t.mount && s.path@ == t.path@
        },
        read is Err ==> (list is Ok <==> r matches Ok(MetadataStep::Directory)),
        read is Err ==> (list is Err <==> r is Err),
        r matches Err(e) ==> e.kind == crate::error::ErrorKind::NotFound,
{
    let n = normal(path@);
    match read {
        Ok(t) => {
            let mount = t.mount_path@;
            assert(is_owner(a@, path@, mount));
            assert(owned(a@, path@)) by {
                assert(a@.contains_key(mount));
            }
            let s = n.skip(mount.len() as int);
            super::util::lemma_rest_ends(mount, path@);
            crate::text::lemma_lead_is(s, '/');
            super::util::law_normal_form(path@);
            if n == mount {
                assert(s =~= Seq::<char>::empty());
            } else {
                assert(mount.push('/')[mount.len() as int] == '/');
                if trim_start(s, '/').len() == 0 {
                    assert(s.last() == n.last());
                    assert(crate::text::lead(s, '/') == s.len());
                    assert(s[s.len() - 1] == '/');
                    assert(n == root());
                    assert(n.len() == 1);
                }
            }
            if a@.contains_key(n) {
                assert(owns(n, n));
                assert(n.len() <= mount.len());
            }
            match r {
                Ok(MetadataStep::Stat(s)) => {
                    super::util::law_owner_unique(a@, path@, s.mount_path@, mount);
                },
                _ => {},
            }
        },
        Err(_) => {
            if a@.contains_key(n) {
                assert(owns(n, n));
            }
            match r {
                Ok(MetadataStep::Stat(s)) => {
                    assert(a@.contains_key(s.mount_path@));
                },
                _ => {},
            }
            if list is Ok {
                match list->Ok_0.0 {
                    MountLister::Real { mount_path, .. } => {
                        assert(a@.contains_key(mount_path@));
                    },
                    MountLister::Virtual { .. } => {},
                }
            }
        },
    }
}

/// Copying, renaming and signing links are refused as unsupported, and nothing
/// else is.
pub proof fn law_three_operations_are_not_offered<O>(
    a: &MountAccess<O>,
    op: Operation,
    r: Result<(), Error>,
)
    requires
        call_ensures(MountAccess::<O>::offers, (a, op), r),
    ensures
        r is Err <==> op == Operation::Copy || op == Operation::Rename || op == Operation::Presign,
        r matches Err(e) ==> e.kind == crate::error::ErrorKind::Unsupported,
{
}

/// A file is opened by its store once, before anything is written.
pub proof fn law_files_are_opened_once(
    path: String,
    w: MountWriter,
    before: Option<&String>,
    opened: &mut MountWriter,
    after: Option<&String>,
)
    requires
        call_ensures(MountWriter::new, (path,), w),
        *old(opened) == w,
        call_ensures(MountWriter::must_open, (&w,), before),
        call_ensures(MountWriter::opened, (opened,), ()),
        call_ensures(MountWriter::must_open, (&*final(opened),), after),
    ensures
        before matches Some(p) && p@ == path@,
        after is None,
        final(opened).path@ == path@,
{
}

/// A directory above mounts lists its names in dictionary order, each once.
pub proof fn law_listed_directories_are_in_order<'a, O>(
    a: &'a MountAccess<O>,
    path: &str,
    entries: Vec<String>,
    before: nat,
    core: Seq<char>,
    after: nat,
    k: int,
    l: int,
) -> (names: (Seq<char>, Seq<char>))
    requires
        call_ensures(
            MountAccess::<O>::list,
            (a, path),
            Ok((MountLister::Virtual { entries }, None)),
        ),
        core.len() > 0 ==> core[0] != '/' && core[core.len() - 1] != '/',
        path@ == Seq::new(before, |i: int| '/') + core + Seq::new(after, |i: int| '/'),
        0 <= k < l < entries@.len(),
    ensures
        ({
            let front = if core.len() == 0 {
                Seq::empty()
            } else {
                core + seq!['/']
            };
            &&& entries@[k]@ == front + names.0 + seq!['/']
            &&& entries@[l]@ == front + names.1 + seq!['/']
            &&& crate::text::precedes(names.0, names.1)
        }),
{
    crate::text::law_trimming_takes_off_what_was_put_on(before, core, after, '/');
    let n = normal(path@);
    assert(n == seq!['/'] + core);
    if core.len() == 0 {
        assert(n =~= root());
    } else {
        assert(n.len() > 1);
    }
    let names = choose|names: Seq<Seq<char>>|
        {
            &&& #[trigger] super::util::sorted(names)
            &&& forall|n: Seq<char>| #[trigger] names.contains(n) <==> is_child(a@, path@, n)
            &&& views(entries@) == names.map_values(|n: Seq<char>| virtual_entry(path@, n))
        };
    assert(views(entries@).len() == names.len());
    assert(views(entries@)[k] == virtual_entry(path@, names[k]));
    assert(views(entries@)[l] == virtual_entry(path@, names[l]));
    crate::text::lemma_lead(n, '/', 1);
    assert(trim_start(n, '/') =~= core);
    let front = if core.len() == 0 {
        Seq::empty()
    } else {
        core + seq!['/']
    };
    assert(virtual_entry(path@, names[k]) =~= front + names[k] + seq!['/']);
    assert(virtual_entry(path@, names[l]) =~= front + names[l] + seq!['/']);
    (names[k], names[l])
}

/// The paths of all mounts are given, each once, in dictionary order.
pub proof fn law_mounts_are_given_in_order<O>(
    a: &MountAccess<O>,
    r: Vec<String>,
    m: Seq<char>,
    k: int,
    l: int,
)
    requires
        call_ensures(MountAccess::<O>::paths, (a,), r),
    ensures
        views(r@).contains(m) <==> a@.contains_key(m),
        0 <= k < l < r@.len() ==> crate::text::precedes(r@[k]@, r@[l]@),
{
    if 0 <= k < l < r@.len() {
        let v = views(r@);
        assert(crate::text::precedes(v[k], v[l]));
    }
}

/// A file is read from the path that it was opened with, from where and as far
/// as is asked for.
pub proof fn law_files_are_read_as_asked(
    path: String,
    reader: MountReader,
    offset: u64,
    size: Option<u64>,
    r: MountReadStream,
)
    requires
        call_ensures(MountReader::new, (path,), reader),
        size matches Some(n) ==> offset + n <= u64::MAX,
        call_ensures(MountReader::open, (&reader, offset, size), r),
    ensures
        reader.path@ == path@,
        r.offset == offset,
        size is None <==> r.end is None,
        size matches Some(n) ==> (r.end matches Some(end) && end - offset == n),
{
}

} // verus!
