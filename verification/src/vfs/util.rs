//! Which mount a virtual path belongs to.

use crate::error::{Error, ErrorKind, ErrorView};
use crate::strmap::StrMap;
use crate::text::{begins, cut, ends, ends_with, head, same, starts_with, trim, trim_start, trimmed,
    without_lead};
use vstd::prelude::*;

verus! {

// ── Errors ──────────────────────────────────────────────────────────────────

/// What is answered for a path that no mount covers.
pub open spec fn not_found_view(path: Seq<char>) -> ErrorView {
    ErrorView::plain(ErrorKind::NotFound, "no mount covers this path"@).with("path"@, path)
}

/// What is answered to a change under a read-only mount.
pub open spec fn permission_denied_view(path: Seq<char>) -> ErrorView {
    ErrorView::plain(ErrorKind::PermissionDenied, "mount is read-only"@).with("path"@, path)
}

/// What is answered to an operation that the file system does not have.
pub open spec fn unsupported_view(op: Seq<char>) -> ErrorView {
    ErrorView::plain(ErrorKind::Unsupported, "MountFs does not support `"@ + op + "`."@)
}

/// No mount covers `path`.
pub fn not_found(path: &str) -> (r: Error)
    ensures
        r@ == not_found_view(path@),
{
    Error::new(ErrorKind::NotFound, "no mount covers this path".to_owned()).with_context(
        "path",
        path.to_owned(),
    )
}

/// The mount that covers `path` is read-only.
pub fn permission_denied(path: &str) -> (r: Error)
    ensures
        r@ == permission_denied_view(path@),
{
    Error::new(ErrorKind::PermissionDenied, "mount is read-only".to_owned()).with_context(
        "path",
        path.to_owned(),
    )
}

/// The file system does not have the operation `op`.
pub fn unsupported(op: &'static str) -> (r: Error)
    ensures
        r@ == unsupported_view(op@),
{
    Error::new(
        ErrorKind::Unsupported,
        "MountFs does not support `".to_owned().concat(op).concat("`."),
    )
}

// ── Paths ───────────────────────────────────────────────────────────────────

/// The virtual root.
pub open spec fn root() -> Seq<char> {
    seq!['/']
}

/// `path` with exactly one slash before it and none after it; the root for a
/// path of slashes only.
pub open spec fn normal(path: Seq<char>) -> Seq<char> {
    root() + trim(path, '/')
}

/// Brings `path` into its normal form.
pub fn normalize(path: &str) -> (r: String)
    ensures
        r@ == normal(path@),
{
    let rest = trimmed(path, '/');
    let mut out = String::new();
    out.push('/');
    out.append(rest.as_str());
    assert(out@ =~= normal(path@));
    out
}

/// Whether the mount at `mount` owns the normal path `path`: they are equal, or
/// `path` is nested under `mount`.
pub open spec fn owns(mount: Seq<char>, path: Seq<char>) -> bool {
    path == mount || mount.push('/').is_prefix_of(path)
}

/// Whether `mount` is the longest mount path that owns `path`.
pub open spec fn is_owner<V>(
    mounts: Map<Seq<char>, V>,
    path: Seq<char>,
    mount: Seq<char>,
) -> bool {
    &&& mounts.contains_key(mount)
    &&& owns(mount, normal(path))
    &&& forall|m: Seq<char>| #[trigger]
        mounts.contains_key(m) && owns(m, normal(path)) ==> m.len() <= mount.len()
}

/// Whether some mount owns `path`.
pub open spec fn owned<V>(mounts: Map<Seq<char>, V>, path: Seq<char>) -> bool {
    exists|m: Seq<char>| #[trigger] mounts.contains_key(m) && owns(m, normal(path))
}

/// `path` made relative to the mount that owns it. A trailing slash, which
/// marks a directory, is kept.
pub open spec fn relative(mount: Seq<char>, path: Seq<char>) -> Seq<char> {
    let rest = trim_start(normal(path).skip(mount.len() as int), '/');
    if ends(path, '/') && rest.len() > 0 {
        rest.push('/')
    } else {
        rest
    }
}

/// What is left of a normal path behind its mount does not end with a slash.
pub proof fn lemma_rest_ends(mount: Seq<char>, path: Seq<char>)
    requires
        owns(mount, normal(path)),
    ensures
        !ends(trim_start(normal(path).skip(mount.len() as int), '/'), '/'),
{
    let n = normal(path);
    let s = n.skip(mount.len() as int);
    let t = trim_start(s, '/');
    crate::text::lemma_lead_is(s, '/');
    crate::text::lemma_trim_ends(path, '/');
    if t.len() > 0 {
        assert(t.last() == s.last());
        assert(s.last() == n.last());
        assert(t[0] != '/');
        if n.len() > 1 {
            assert(n.last() == trim(path, '/').last());
        } else {
            assert(s[0] == n[0]);
        }
    }
}

/// Finds the mount (if any) that owns `path`, and the path made relative to
/// that mount's root. If several mounts own it, the longest (most specific)
/// one wins.
pub fn resolve<'a, V>(mounts: &'a StrMap<V>, path: &str) -> (r: Option<(&'a String, &'a V, String)>)
    ensures
        match r {
            Some((mount, value, rel)) => {
                &&& is_owner(mounts@, path@, mount@)
                &&& *value == mounts@[mount@]
                &&& rel@ == relative(mount@, path@)
            },
            None => !owned(mounts@, path@),
        },
{
    let normalized = normalize(path);
    let count = mounts.len();
    let mut best: Option<usize> = None;
    let mut i: usize = 0;
    while i < count
        invariant
            count == mounts.keys().len(),
            normalized@ == normal(path@),
            i <= count,
            match best {
                Some(b) => {
                    &&& b < i
                    &&& owns(mounts.keys()[b as int], normal(path@))
                    &&& forall|j: int|
                        0 <= j < i && owns(#[trigger] mounts.keys()[j], normal(path@))
                            ==> mounts.keys()[j].len() <= mounts.keys()[b as int].len()
                },
                None => forall|j: int|
                    0 <= j < i ==> !owns(#[trigger] mounts.keys()[j], normal(path@)),
            },
        decreases count - i,
    {
        let key = mounts.key_at(i);
        let mut nested = key.clone();
        nested.push('/');
        if same(normalized.as_str(), key.as_str()) || starts_with(
            normalized.as_str(),
            nested.as_str(),
        ) {
            let longer = match best {
                Some(b) => mounts.key_at(b).as_str().unicode_len() <= key.as_str().unicode_len(),
                None => true,
            };
            if longer {
                best = Some(i);
            }
        }
        i += 1;
    }
    match best {
        Some(b) => {
            let key = mounts.key_at(b);
            let all = crate::text::chars_of(normalized.as_str());
            let below = crate::text::text_of(&all, key.as_str().unicode_len(), all.len());
            let mut rel = without_lead(below.as_str(), '/');
            proof {
                assert(all@.subrange(key@.len() as int, all@.len() as int) == normal(path@).skip(
                    key@.len() as int,
                ));
                lemma_rest_ends(key@, path@);
                assert forall|m: Seq<char>| #[trigger]
                    mounts@.contains_key(m) && owns(m, normal(path@)) implies m.len()
                    <= key@.len() by {
                    assert(mounts.keys().contains(m));
                    let j = choose|j: int| 0 <= j < mounts.keys().len() && mounts.keys()[j] == m;
                    assert(owns(mounts.keys()[j], normal(path@)));
                }
            }
            if ends_with(path, '/') && !rel.as_str().is_empty() {
                rel.push('/');
            }
            Some((key, mounts.value_at(b), rel))
        },
        None => {
            proof {
                assert forall|m: Seq<char>| #[trigger] mounts@.contains_key(m) implies !owns(
                    m,
                    normal(path@),
                ) by {
                    assert(mounts.keys().contains(m));
                    let j = choose|j: int| 0 <= j < mounts.keys().len() && mounts.keys()[j] == m;
                    assert(!owns(mounts.keys()[j], normal(path@)));
                }
            }
            None
        },
    }
}

// ── Virtual directories ─────────────────────────────────────────────────────

/// What every path below the directory `path` starts with.
pub open spec fn below(path: Seq<char>) -> Seq<char> {
    if normal(path) == root() {
        root()
    } else {
        normal(path).push('/')
    }
}

/// The name under which the mount at `mount` shows in a directory whose paths
/// start with `prefix`, if it lies below that directory.
pub open spec fn child(prefix: Seq<char>, mount: Seq<char>) -> Option<Seq<char>> {
    if prefix.is_prefix_of(mount) && prefix.len() < mount.len() {
        Some(head(mount.skip(prefix.len() as int), '/'))
    } else {
        None
    }
}

/// Whether `name` shows in the virtual directory `path`.
pub open spec fn is_child<V>(
    mounts: Map<Seq<char>, V>,
    path: Seq<char>,
    name: Seq<char>,
) -> bool {
    exists|m: Seq<char>| #[trigger]
        mounts.contains_key(m) && child(below(path), m) == Some(name)
}

/// Whether some mount lies below the directory `path`.
pub open spec fn is_ancestor<V>(mounts: Map<Seq<char>, V>, path: Seq<char>) -> bool {
    exists|m: Seq<char>| #[trigger] mounts.contains_key(m) && child(below(path), m) is Some
}

/// Whether the texts stand in strictly ascending order.
pub open spec fn sorted(v: Seq<Seq<char>>) -> bool {
    forall|i: int, j: int|
        0 <= i < j < v.len() ==> crate::text::precedes(#[trigger] v[i], #[trigger] v[j])
}

/// The names that show in `path` where it is a virtual directory: an ancestor
/// of at least one mount, or the root. Each name occurs once, in dictionary
/// order.
pub fn virtual_children<V>(mounts: &StrMap<V>, path: &str) -> (r: Option<Vec<String>>)
    ensures
        match r {
            Some(names) => {
                &&& normal(path@) == root() || is_ancestor(mounts@, path@)
                &&& sorted(crate::text::views(names@))
                &&& forall|n: Seq<char>| #[trigger]
                    crate::text::views(names@).contains(n) <==> is_child(mounts@, path@, n)
            },
            None => normal(path@) != root() && !is_ancestor(mounts@, path@),
        },
{
    let normalized = normalize(path);
    let at_root = same(normalized.as_str(), "/");
    proof {
        reveal_strlit("/");
        assert("/"@ =~= root());
    }
    let mut prefix = normalized.clone();
    if !at_root {
        prefix.push('/');
    }
    let ghost pre = below(path@);
    let prefix_len = prefix.as_str().unicode_len();
    let mut found: StrMap<()> = StrMap::new();
    let count = mounts.len();
    let mut i: usize = 0;
    while i < count
        invariant
            count == mounts.keys().len(),
            prefix@ == pre,
            prefix_len == pre.len(),
            i <= count,
            forall|n: Seq<char>| #[trigger]
                found@.contains_key(n) <==> exists|j: int|
                    0 <= j < i && child(pre, #[trigger] mounts.keys()[j]) == Some(n),
        decreases count - i,
    {
        let key = mounts.key_at(i);
        let ghost before = found@;
        if starts_with(key.as_str(), prefix.as_str()) && prefix_len < key.as_str().unicode_len() {
            let all = crate::text::chars_of(key.as_str());
            let rest = crate::text::text_of(&all, prefix_len, all.len());
            let (name, _) = cut(rest.as_str(), '/');
            assert(rest@ == key@.skip(prefix_len as int));
            assert(child(pre, mounts.keys()[i as int]) == Some(name@));
            let ghost added = name@;
            found.insert(name, ());
            assert forall|n: Seq<char>| #[trigger]
                found@.contains_key(n) <==> exists|j: int|
                    0 <= j < i + 1 && child(pre, #[trigger] mounts.keys()[j]) == Some(n) by {
                if n == added {
                    assert(child(pre, mounts.keys()[i as int]) == Some(n));
                }
                if before.contains_key(n) {
                    let j = choose|j: int|
                        0 <= j < i && child(pre, #[trigger] mounts.keys()[j]) == Some(n);
                    assert(0 <= j < i + 1 && child(pre, mounts.keys()[j]) == Some(n));
                }
            }
        } else {
            assert(child(pre, mounts.keys()[i as int]) is None);
            assert forall|n: Seq<char>| #[trigger]
                found@.contains_key(n) <==> exists|j: int|
                    0 <= j < i + 1 && child(pre, #[trigger] mounts.keys()[j]) == Some(n) by {
                if before.contains_key(n) {
                    let j = choose|j: int|
                        0 <= j < i && child(pre, #[trigger] mounts.keys()[j]) == Some(n);
                    assert(0 <= j < i + 1 && child(pre, mounts.keys()[j]) == Some(n));
                }
            }
        }
        i += 1;
    }
    proof {
        assert forall|n: Seq<char>| #[trigger] found@.contains_key(n) <==> is_child(
            mounts@,
            path@,
            n,
        ) by {
            if found@.contains_key(n) {
                let j = choose|j: int|
                    0 <= j < count && child(pre, #[trigger] mounts.keys()[j]) == Some(n);
                assert(mounts.keys().contains(mounts.keys()[j]));
                assert(mounts@.contains_key(mounts.keys()[j]));
            }
            if is_child(mounts@, path@, n) {
                let m = choose|m: Seq<char>| #[trigger]
                    mounts@.contains_key(m) && child(below(path@), m) == Some(n);
                assert(mounts.keys().contains(m));
                let j = choose|j: int| 0 <= j < mounts.keys().len() && mounts.keys()[j] == m;
                assert(0 <= j < count && child(pre, mounts.keys()[j]) == Some(n));
            }
        }
    }
    let names_count = found.len();
    if names_count == 0 && !at_root {
        proof {
            if is_ancestor(mounts@, path@) {
                let m = choose|m: Seq<char>| #[trigger]
                    mounts@.contains_key(m) && child(below(path@), m) is Some;
                let n = child(below(path@), m).unwrap();
                assert(is_child(mounts@, path@, n));
                assert(found@.contains_key(n));
                assert(found.keys().contains(n));
            }
        }
        return None;
    }
    let mut names: Vec<String> = Vec::new();
    let mut k: usize = 0;
    while k < names_count
        invariant
            names_count == found.keys().len(),
            k <= names_count,
            names@.len() == k,
            forall|j: int| 0 <= j < k ==> #[trigger] names@[j]@ == found.keys()[j],
        decreases names_count - k,
    {
        names.push(found.key_at(k).clone());
        k += 1;
    }
    proof {
        assert(crate::text::views(names@) =~= found.keys());
        if !at_root {
            let n = found.keys()[0];
            assert(found.keys().contains(n));
            assert(is_child(mounts@, path@, n));
            let m = choose|m: Seq<char>| #[trigger]
                mounts@.contains_key(m) && child(below(path@), m) == Some(n);
            assert(child(below(path@), m) is Some);
        }
    }
    Some(names)
}

// ── Laws ────────────────────────────────────────────────────────────────────

/// Normal form is stable, starts with a slash, and ends with one only at the
/// root.
pub proof fn law_normal_form(path: Seq<char>)
    ensures
        normal(normal(path)) == normal(path),
        begins(normal(path), '/'),
        ends(normal(path), '/') ==> normal(path) == root(),
{
    let t = trim(path, '/');
    let n = normal(path);
    crate::text::lemma_trim_ends(path, '/');
    crate::text::lemma_lead(n, '/', 1);
    assert(trim_start(n, '/') =~= t);
    assert(t.take(t.len() as int) =~= t);
    if t.len() > 0 {
        assert(n.last() == t.last());
    } else {
        assert(n =~= root());
    }
}

/// At most one mount wins: two longest owners of a path are the same.
pub proof fn law_owner_unique<V>(
    mounts: Map<Seq<char>, V>,
    path: Seq<char>,
    a: Seq<char>,
    b: Seq<char>,
)
    requires
        is_owner(mounts, path, a),
        is_owner(mounts, path, b),
    ensures
        a == b,
{
    assert(a.len() <= b.len());
    assert(b.len() <= a.len());
    let n = normal(path);
    assert forall|i: int| 0 <= i < a.len() implies a[i] == b[i] by {
        if n != a {
            assert(a.push('/')[i] == n[i]);
        }
        if n != b {
            assert(b.push('/')[i] == n[i]);
        }
    }
    assert(a =~= b);
}

/// Nesting a path without slashes at its ends under a mount gives a normal
/// path, and a slash behind it changes nothing.
pub proof fn lemma_nested_normal(mount: Seq<char>, rel: Seq<char>)
    requires
        normal(mount) == mount,
        mount != root(),
        rel.len() > 0,
        !begins(rel, '/'),
        !ends(rel, '/'),
    ensures
        normal(mount.push('/') + rel) == mount.push('/') + rel,
        normal(mount.push('/') + rel.push('/')) == mount.push('/') + rel,
{
    let p = mount.push('/') + rel;
    let q = mount.push('/') + rel.push('/');
    law_normal_form(mount);
    let t = trim(mount, '/');
    crate::text::lemma_trim_ends(mount, '/');
    assert(t.len() > 0) by {
        if t.len() == 0 {
            assert(mount =~= root());
        }
    }
    let inner = t.push('/') + rel;
    assert(p =~= root() + inner);
    assert(q =~= root() + inner.push('/'));
    assert(inner[0] == t[0]);
    assert(inner.last() == rel.last());
    crate::text::lemma_lead(p, '/', 1);
    crate::text::lemma_lead(q, '/', 1);
    assert(trim_start(p, '/') =~= inner);
    assert(trim_start(q, '/') =~= inner.push('/'));
    crate::text::lemma_trail(inner, '/', 0);
    assert(inner.take(inner.len() as int) =~= inner);
    crate::text::lemma_trail(inner.push('/'), '/', 1);
    assert(inner.push('/').take(inner.len() as int) =~= inner);
}

/// A mount owns every path nested under it, by the relative path it was nested
/// with, unless a more specific mount does. A slash behind the path, which
/// marks a directory, is kept.
pub proof fn law_nested_path_resolves<V>(
    mounts: Map<Seq<char>, V>,
    mount: Seq<char>,
    rel: Seq<char>,
)
    requires
        mounts.contains_key(mount),
        normal(mount) == mount,
        mount != root(),
        rel.len() > 0,
        !begins(rel, '/'),
        !ends(rel, '/'),
        forall|m: Seq<char>| #[trigger]
            mounts.contains_key(m) && owns(m, mount.push('/') + rel) ==> m.len() <= mount.len(),
    ensures
        is_owner(mounts, mount.push('/') + rel, mount),
        is_owner(mounts, mount.push('/') + rel.push('/'), mount),
        relative(mount, mount.push('/') + rel) == rel,
        relative(mount, mount.push('/') + rel.push('/')) == rel.push('/'),
{
    let p = mount.push('/') + rel;
    let q = mount.push('/') + rel.push('/');
    lemma_nested_normal(mount, rel);
    assert(mount.push('/') =~= p.subrange(0, mount.len() as int + 1));
    let s = p.skip(mount.len() as int);
    assert(s =~= root() + rel);
    crate::text::lemma_lead(s, '/', 1);
    assert(trim_start(s, '/') =~= rel);
    assert(p.last() == rel.last());
    assert(q.last() == '/');
}

/// A normal path is one slash and the path without slashes around it.
pub proof fn law_normal_paths_have_one_slash_before(
    path: &str,
    r: String,
    before: nat,
    core: Seq<char>,
    after: nat,
)
    requires
        call_ensures(normalize, (path,), r),
        core.len() > 0 ==> core[0] != '/' && core[core.len() - 1] != '/',
        path@ == Seq::new(before, |i: int| '/') + core + Seq::new(after, |i: int| '/'),
    ensures
        r@ == seq!['/'] + core,
{
    crate::text::law_trimming_takes_off_what_was_put_on(before, core, after, '/');
}

/// A path belongs to the longest mount that it equals or lies below, with at
/// least one slash between them; a path that only begins like a mount does not
/// belong to it. What the mount is handed is what follows those slashes, with a
/// slash behind it where the path had one. Where no mount is found, the path
/// belongs to none.
pub proof fn law_paths_belong_to_the_longest_mount<'a, V>(
    mounts: &'a StrMap<V>,
    path: &str,
    r: Option<(&'a String, &'a V, String)>,
    before: nat,
    core: Seq<char>,
    after: nat,
    m: Seq<char>,
) -> (between: nat)
    requires
        call_ensures(resolve::<V>, (mounts, path), r),
        core.len() > 0 ==> core[0] != '/' && core[core.len() - 1] != '/',
        path@ == Seq::new(before, |i: int| '/') + core + Seq::new(after, |i: int| '/'),
    ensures
        match r {
            Some((mount, value, rel)) => {
                let rest = if rel@.len() > 0 && rel@[rel@.len() - 1] == '/' {
                    rel@.drop_last()
                } else {
                    rel@
                };
                &&& mounts@.contains_key(mount@)
                &&& *value == mounts@[mount@]
                &&& seq!['/'] + core == mount@ + Seq::new(between, |i: int| '/') + rest
                &&& between == 0 <==> seq!['/'] + core == mount@
                &&& rest.len() > 0 ==> rest[0] != '/' && rest[rest.len() - 1] != '/'
                &&& rel@ != rest <==> rest.len() > 0 && path@[path@.len() - 1] == '/'
                &&& mounts@.contains_key(m) && (m == seq!['/'] + core || m.push('/').is_prefix_of(
                    seq!['/'] + core,
                )) ==> m.len() <= mount@.len()
            },
            None => mounts@.contains_key(m) ==> m != seq!['/'] + core && !m.push('/').is_prefix_of(
                seq!['/'] + core,
            ),
        },
{
    crate::text::law_trimming_takes_off_what_was_put_on(before, core, after, '/');
    let n = normal(path@);
    assert(n == seq!['/'] + core);
    match r {
        Some((mount, _, rel)) => {
            assert(is_owner(mounts@, path@, mount@));
            let s = n.skip(mount@.len() as int);
            let t = trim_start(s, '/');
            let between = crate::text::lead(s, '/');
            lemma_rest_ends(mount@, path@);
            crate::text::lemma_lead_is(s, '/');
            assert(n =~= mount@ + s) by {
                if n != mount@ {
                    assert(mount@ =~= n.subrange(0, mount@.len() as int));
                }
            }
            assert(s =~= Seq::new(between, |i: int| '/') + t);
            assert(n =~= mount@ + Seq::new(between, |i: int| '/') + t);
            if n == mount@ {
                assert(s.len() == 0);
            } else {
                assert(mount@.push('/')[mount@.len() as int] == '/');
                assert(s[0] == '/');
            }
            let rest = if rel@.len() > 0 && rel@[rel@.len() - 1] == '/' {
                rel@.drop_last()
            } else {
                rel@
            };
            assert(rest =~= t);
            if t.len() > 0 {
                assert(t[0] == s[between as int]);
            }
            between
        },
        None => 0,
    }
}

/// A directory above mounts shows exactly the first part of what each mount
/// below it goes on with, each once and in order. A directory is above a mount
/// where the path of the mount goes on behind its own, after a slash.
pub proof fn law_directories_show_the_mounts_below<V>(
    mounts: &StrMap<V>,
    path: &str,
    r: Option<Vec<String>>,
    before: nat,
    core: Seq<char>,
    after: nat,
    name: Seq<char>,
    rest: Option<Seq<char>>,
)
    requires
        call_ensures(virtual_children::<V>, (mounts, path), r),
        core.len() > 0 ==> core[0] != '/' && core[core.len() - 1] != '/',
        path@ == Seq::new(before, |i: int| '/') + core + Seq::new(after, |i: int| '/'),
        !name.contains('/'),
    ensures
        core.len() == 0 ==> r is Some,
        r matches Some(names) ==> core.len() > 0 ==> names@.len() > 0,
        ({
            let dir = if core.len() == 0 {
                seq!['/']
            } else {
                seq!['/'] + core + seq!['/']
            };
            let mount = dir + name + match rest {
                Some(t) => seq!['/'] + t,
                None => Seq::empty(),
            };
            mounts@.contains_key(mount) && mount.len() > dir.len() ==> (r matches Some(names)
                && crate::text::views(names@).contains(name))
        }),
        r matches Some(names) ==> forall|i: int, j: int|
            0 <= i < j < names@.len() ==> crate::text::precedes(
                (#[trigger] names@[i])@,
                (#[trigger] names@[j])@,
            ),
{
    crate::text::law_trimming_takes_off_what_was_put_on(before, core, after, '/');
    let n = normal(path@);
    assert(n == seq!['/'] + core);
    let dir = if core.len() == 0 {
        seq!['/']
    } else {
        seq!['/'] + core + seq!['/']
    };
    if core.len() == 0 {
        assert(n =~= root());
    } else {
        assert(n.len() > 1);
    }
    assert(below(path@) =~= dir);
    let behind = name + match rest {
        Some(t) => seq!['/'] + t,
        None => Seq::empty(),
    };
    let mount = dir + name + match rest {
        Some(t) => seq!['/'] + t,
        None => Seq::empty(),
    };
    assert(mount =~= dir + behind);
    if mounts@.contains_key(mount) && mount.len() > dir.len() {
        assert(mount.skip(dir.len() as int) =~= behind);
        assert(dir =~= mount.subrange(0, dir.len() as int));
        match rest {
            Some(t) => {
                assert(behind =~= name.push('/') + t);
                crate::text::law_cutting_finds_the_first(name, t, '/');
            },
            None => {
                assert(behind =~= name);
                crate::text::law_cutting_finds_the_first(name, Seq::empty(), '/');
            },
        }
        assert(child(below(path@), mount) == Some(name));
        assert(is_child(mounts@, path@, name));
    }
    if r is Some {
        let names = r->Some_0;
        let v = crate::text::views(names@);
        if core.len() > 0 {
            let m = choose|m: Seq<char>| #[trigger]
                mounts@.contains_key(m) && child(below(path@), m) is Some;
            let shown = child(below(path@), m)->Some_0;
            assert(is_child(mounts@, path@, shown));
            assert(v.contains(shown));
        }
        assert forall|i: int, j: int| 0 <= i < j < names@.len() implies crate::text::precedes(
            (#[trigger] names@[i])@,
            (#[trigger] names@[j])@,
        ) by {
            assert(crate::text::precedes(v[i], v[j]));
        }
    }
}

/// What a directory above mounts shows belongs to a mount: some mount lies at
/// the shown name or goes on behind it after a slash.
pub proof fn law_shown_names_lead_to_mounts<V>(
    mounts: &StrMap<V>,
    path: &str,
    names: Vec<String>,
    before: nat,
    core: Seq<char>,
    after: nat,
    k: int,
) -> (mount: Seq<char>)
    requires
        call_ensures(virtual_children::<V>, (mounts, path), Some(names)),
        core.len() > 0 ==> core[0] != '/' && core[core.len() - 1] != '/',
        path@ == Seq::new(before, |i: int| '/') + core + Seq::new(after, |i: int| '/'),
        0 <= k < names@.len(),
    ensures
        !names@[k]@.contains('/'),
        mounts@.contains_key(mount),
        ({
            let dir = if core.len() == 0 {
                seq!['/']
            } else {
                seq!['/'] + core + seq!['/']
            };
            let shown = dir + names@[k]@;
            &&& mount.len() > dir.len()
            &&& mount == shown || shown.push('/').is_prefix_of(mount)
        }),
{
    crate::text::law_trimming_takes_off_what_was_put_on(before, core, after, '/');
    let n = normal(path@);
    assert(n == seq!['/'] + core);
    let dir = if core.len() == 0 {
        seq!['/']
    } else {
        seq!['/'] + core + seq!['/']
    };
    if core.len() == 0 {
        assert(n =~= root());
    } else {
        assert(n.len() > 1);
    }
    assert(below(path@) =~= dir);
    let v = crate::text::views(names@);
    let name = names@[k]@;
    assert(v[k] == name);
    assert(v.contains(name));
    assert(is_child(mounts@, path@, name));
    let m = choose|m: Seq<char>| #[trigger]
        mounts@.contains_key(m) && child(below(path@), m) == Some(name);
    let behind = m.skip(dir.len() as int);
    crate::text::lemma_first_at_is(behind, '/');
    assert(m =~= dir + behind);
    assert forall|i: int| 0 <= i < name.len() implies name[i] != '/' by {
        assert(name[i] == behind[i]);
    }
    if name.len() == behind.len() {
        assert(name =~= behind);
    } else {
        assert((dir + name).push('/') =~= m.subrange(0, (dir + name).len() as int + 1));
    }
    m
}

/// The three ways to refuse an operation have categories and texts of their
/// own, and name the path or the operation.
pub proof fn law_refusals_name_what_was_asked(
    path: &str,
    a: Error,
    b: Error,
    op: &'static str,
    c: Error,
)
    requires
        call_ensures(not_found, (path,), a),
        call_ensures(permission_denied, (path,), b),
        call_ensures(unsupported, (op,), c),
    ensures
        a.kind == ErrorKind::NotFound && a.message@ == "no mount covers this path"@,
        b.kind == ErrorKind::PermissionDenied && b.message@ == "mount is read-only"@,
        c.kind == ErrorKind::Unsupported && c.message@ == "MountFs does not support `"@ + op@
            + "`."@,
        a.context@.len() == 1 && a.context@[0].0@ == "path"@ && a.context@[0].1@ == path@,
        b.context@.len() == 1 && b.context@[0].0@ == "path"@ && b.context@[0].1@ == path@,
{
    assert(a@.context.len() == 1 && a@.context[0] == ("path"@, path@));
    assert(b@.context.len() == 1 && b@.context[0] == ("path"@, path@));
}

} // verus!
