//! Walking a directory.

use super::util::{is_owner, normal, relative, root};
use crate::text::{begins, trim, trim_end, trim_start, trimmed, without_lead, without_trail};
use vstd::prelude::*;

verus! {

/// The path inside the file system of the entry `entry` of the mount at
/// `mount`.
pub open spec fn rebased(mount: Seq<char>, entry: Seq<char>) -> Seq<char> {
    trim_end(mount, '/').push('/') + trim_start(entry, '/')
}

/// Whether `entry` is the listed directory `path` itself. Some stores yield
/// it; callers only want what is in it.
pub open spec fn is_self(path: Seq<char>, entry: Seq<char>) -> bool {
    trim(entry, '/') == trim(path, '/')
}

/// What is handed out for the entry `entry` of the directory `path` of the mount
/// at `mount`.
pub open spec fn passed_on(mount: Seq<char>, path: Seq<char>, entry: Seq<char>) -> Option<
    Seq<char>,
> {
    if is_self(path, entry) {
        None
    } else {
        Some(rebased(mount, entry))
    }
}

/// What was handed out once the store of the mount at `mount` gave `given` for
/// the directory `path`, one entry after the other.
pub open spec fn walked(mount: Seq<char>, path: Seq<char>, given: Seq<Seq<char>>) -> Seq<Seq<char>>
    decreases given.len(),
{
    if given.len() == 0 {
        Seq::empty()
    } else {
        let before = walked(mount, path, given.drop_last());
        match passed_on(mount, path, given.last()) {
            Some(p) => before.push(p),
            None => before,
        }
    }
}

/// What is handed out where `left` is known at once, one entry after the other.
pub open spec fn drained(left: Seq<Seq<char>>) -> Seq<Seq<char>>
    decreases left.len(),
{
    if left.len() == 0 {
        Seq::empty()
    } else {
        seq![left.last()] + drained(left.drop_last())
    }
}

/// What a lister does next.
#[derive(Debug)]
pub enum ListAction {
    /// Start to list `path` in the mount's store.
    Open { path: String },
    /// Take the next entry from the mount's store.
    Pull,
    /// Hand out the entry at `path`.
    Yield { path: String },
    /// There are no more entries.
    Done,
}

/// A directory that is being walked.
#[derive(Debug)]
pub enum MountLister {
    /// Listed by the store of the mount at `mount_path`, which is only asked on
    /// the first step.
    Real { mount_path: String, path: String, opened: bool },
    /// Known at once. Handed out from the end.
    Virtual { entries: Vec<String> },
}

impl MountLister {
    /// Starts a step.
    pub fn next(&mut self) -> (r: ListAction)
        ensures
            match *old(self) {
                MountLister::Real { path, opened, .. } => {
                    &&& *final(self) == *old(self)
                    &&& if opened {
                        r is Pull
                    } else {
                        r matches ListAction::Open { path: p } && p@ == path@
                    }
                },
                MountLister::Virtual { entries } => {
                    &&& *final(self) matches MountLister::Virtual { entries: left }
                    &&& if entries@.len() == 0 {
                        r is Done && left@ == entries@
                    } else {
                        &&& r matches ListAction::Yield { path }
                        &&& path@ == entries@.last()@
                        &&& left@ == entries@.drop_last()
                    }
                },
            },
    {
        match self {
            MountLister::Real { path, opened, .. } => {
                if *opened {
                    ListAction::Pull
                } else {
                    ListAction::Open { path: path.clone() }
                }
            },
            MountLister::Virtual { entries } => match entries.pop() {
                Some(path) => ListAction::Yield { path },
                None => ListAction::Done,
            },
        }
    }

    /// The mount's store has started to list.
    pub fn opened(&mut self)
        ensures
            match *old(self) {
                MountLister::Real { mount_path, path, .. } => *final(self) == (MountLister::Real {
                    mount_path,
                    path,
                    opened: true,
                }),
                MountLister::Virtual { .. } => *final(self) == *old(self),
            },
    {
        match self {
            MountLister::Real { opened, .. } => {
                *opened = true;
            },
            MountLister::Virtual { .. } => {},
        }
    }

    /// Goes on with what the mount's store gave: hands out an entry under its
    /// path in the file system, passes over the directory itself, and ends
    /// where the store ends.
    pub fn pulled(&self, entry: Option<&str>) -> (r: ListAction)
        ensures
            match *self {
                MountLister::Real { mount_path, path, .. } => match entry {
                    Some(e) => match passed_on(mount_path@, path@, e@) {
                        None => r is Pull,
                        Some(out) => r matches ListAction::Yield { path: p } && p@ == out,
                    },
                    None => r is Done,
                },
                MountLister::Virtual { .. } => r is Done,
            },
    {
        match self {
            MountLister::Real { mount_path, path, .. } => match entry {
                Some(e) => {
                    let a = trimmed(e, '/');
                    let b = trimmed(path.as_str(), '/');
                    if crate::text::same(a.as_str(), b.as_str()) {
                        return ListAction::Pull;
                    }
                    let mut out = without_trail(mount_path.as_str(), '/');
                    out.push('/');
                    out.append(without_lead(e, '/').as_str());
                    ListAction::Yield { path: out }
                },
                None => ListAction::Done,
            },
            MountLister::Virtual { .. } => ListAction::Done,
        }
    }
}

// ── Laws ────────────────────────────────────────────────────────────────────

/// Whatever entries the store gives, a walk hands out each of them but the
/// directory itself, once, in the order of the store, and under its path in the
/// file system.
pub proof fn law_listing_is_whole(mount: Seq<char>, path: Seq<char>, given: Seq<Seq<char>>)
    ensures
        walked(mount, path, given) == given.filter(|e: Seq<char>| !is_self(path, e)).map_values(
            |e: Seq<char>| rebased(mount, e),
        ),
    decreases given.len(),
{
    reveal(Seq::filter);
    let keep = |e: Seq<char>| !is_self(path, e);
    let rebase = |e: Seq<char>| rebased(mount, e);
    if given.len() > 0 {
        let front = given.drop_last();
        law_listing_is_whole(mount, path, front);
        if keep(given.last()) {
            assert(front.filter(keep).push(given.last()).map_values(rebase) =~= front.filter(
                keep,
            ).map_values(rebase).push(rebase(given.last())));
        }
    } else {
        assert(given.filter(keep).map_values(rebase) =~= Seq::empty());
    }
}

/// Entries that are known at once are handed out once each, the last one first.
pub proof fn law_known_listing_is_whole(left: Seq<Seq<char>>)
    ensures
        drained(left) == left.reverse(),
    decreases left.len(),
{
    if left.len() > 0 {
        law_known_listing_is_whole(left.drop_last());
    }
    assert(drained(left) =~= left.reverse());
}

/// What is listed can be asked for: the path handed out for an entry leads
/// back to the same mount and to the path that its store gave, unless a more
/// specific mount owns it.
pub proof fn law_listed_entry_resolves<V>(
    mounts: Map<Seq<char>, V>,
    mount: Seq<char>,
    entry: Seq<char>,
)
    requires
        mounts.contains_key(mount),
        normal(mount) == mount,
        mount != root(),
        !begins(entry, '/'),
        trim(entry, '/').len() > 0,
        entry.len() <= trim(entry, '/').len() + 1,
        forall|m: Seq<char>| #[trigger]
            mounts.contains_key(m) && super::util::owns(m, normal(rebased(mount, entry)))
                ==> m.len() <= mount.len(),
    ensures
        is_owner(mounts, rebased(mount, entry), mount),
        relative(mount, rebased(mount, entry)) == entry,
{
    super::util::law_normal_form(mount);
    crate::text::lemma_trail(mount, '/', 0);
    assert(mount.take(mount.len() as int) =~= mount);
    crate::text::lemma_lead(entry, '/', 0);
    assert(entry.skip(0) =~= entry);
    assert(rebased(mount, entry) == mount.push('/') + entry);
    let rel = trim(entry, '/');
    crate::text::lemma_trim_ends(entry, '/');
    crate::text::lemma_trail_is(entry, '/');
    let p = mount.push('/') + rel;
    let q = mount.push('/') + rel.push('/');
    assert(normal(p) == p && normal(q) == p) by {
        super::util::lemma_nested_normal(mount, rel);
    }
    if entry.len() == rel.len() {
        assert(entry =~= rel);
    } else {
        assert(entry =~= rel.push('/'));
    }
    super::util::law_nested_path_resolves(mounts, mount, rel);
    assert(mounts.contains_key(mount));
    assert(super::util::owns(mount, p));
}

/// An entry is passed over only where it is the listed directory itself: where
/// the two are the same but for slashes around them. Every other entry is handed
/// out, under the path of its mount, one slash, and its own path.
pub proof fn law_only_the_directory_itself_is_passed_over(
    lister: &MountLister,
    entry: &str,
    r: ListAction,
    mount: (Seq<char>, nat),
    dir: (nat, Seq<char>, nat),
    inner: (nat, Seq<char>, nat),
)
    requires
        call_ensures(MountLister::pulled, (lister, Some(entry)), r),
        mount.0.len() > 0 ==> mount.0[mount.0.len() - 1] != '/',
        dir.1.len() > 0 ==> dir.1[0] != '/' && dir.1[dir.1.len() - 1] != '/',
        inner.1.len() > 0 ==> inner.1[0] != '/' && inner.1[inner.1.len() - 1] != '/',
        *lister matches MountLister::Real { mount_path, path, .. } && mount_path@ == mount.0
            + Seq::new(mount.1, |i: int| '/') && path@ == Seq::new(dir.0, |i: int| '/') + dir.1
            + Seq::new(dir.2, |i: int| '/'),
        entry@ == Seq::new(inner.0, |i: int| '/') + inner.1 + Seq::new(inner.2, |i: int| '/'),
    ensures
        r is Pull <==> inner.1 == dir.1,
        inner.1 != dir.1 ==> (r matches ListAction::Yield { path: p } && p@ == mount.0 + seq!['/']
            + if inner.1.len() > 0 {
            inner.1 + Seq::new(inner.2, |i: int| '/')
        } else {
            Seq::empty()
        }),
{
    crate::text::law_trimming_takes_off_what_was_put_on(dir.0, dir.1, dir.2, '/');
    crate::text::law_trimming_takes_off_what_was_put_on(inner.0, inner.1, inner.2, '/');
    let e = entry@;
    let run = Seq::new(inner.2, |i: int| '/');
    match *lister {
        MountLister::Real { mount_path, path, .. } => {
            crate::text::lemma_trail(mount_path@, '/', mount.1 as int);
            assert(trim_end(mount_path@, '/') =~= mount.0);
            if inner.1.len() > 0 {
                crate::text::lemma_lead(e, '/', inner.0 as int);
                assert(trim_start(e, '/') =~= inner.1 + run);
            } else {
                crate::text::lemma_lead(e, '/', e.len() as int);
                assert(trim_start(e, '/') =~= Seq::empty());
            }
            assert(mount.0.push('/') =~= mount.0 + seq!['/']);
            assert(rebased(mount_path@, e) =~= mount.0 + seq!['/'] + if inner.1.len() > 0 {
                inner.1 + run
            } else {
                Seq::empty()
            });
        },
        MountLister::Virtual { .. } => {},
    }
}

/// What is in a directory is handed out: an entry that goes on behind the listed
/// directory is never passed over, nor is one that only begins alike.
pub proof fn law_what_is_in_a_directory_is_handed_out(
    lister: &MountLister,
    entry: &str,
    r: ListAction,
    dir: Seq<char>,
    more: Seq<char>,
)
    requires
        call_ensures(MountLister::pulled, (lister, Some(entry)), r),
        dir.len() > 0 ==> dir[0] != '/' && dir[dir.len() - 1] != '/',
        more.len() > 0,
        more[more.len() - 1] != '/',
        dir.len() > 0 || more[0] != '/',
        *lister matches MountLister::Real { path, .. } && (path@ == dir || path@ == dir + seq![
            '/',
        ]),
        entry@ == dir + more || entry@ == dir + more + seq!['/'],
    ensures
        r is Yield,
{
    let none = Seq::new(0, |i: int| '/');
    let one = Seq::new(1, |i: int| '/');
    let inner = dir + more;
    assert(one =~= seq!['/']);
    assert(none + dir + none =~= dir);
    assert(none + dir + one =~= dir + seq!['/']);
    assert(none + inner + none =~= inner);
    assert(none + inner + one =~= inner + seq!['/']);
    crate::text::law_trimming_takes_off_what_was_put_on(0, dir, 0, '/');
    crate::text::law_trimming_takes_off_what_was_put_on(0, dir, 1, '/');
    assert(inner.last() == more.last());
    crate::text::law_trimming_takes_off_what_was_put_on(0, inner, 0, '/');
    crate::text::law_trimming_takes_off_what_was_put_on(0, inner, 1, '/');
    assert(inner.len() > dir.len());
}

/// Over any entries, a walk passes over those that are the listed directory but
/// for slashes around them, and no others; the rest come in order, each under
/// the path of its mount.
pub proof fn law_walks_pass_over_the_directory_alone(
    mount: Seq<char>,
    path: Seq<char>,
    given: Seq<Seq<char>>,
)
    ensures
        walked(mount, path, given) == given.filter(
            |e: Seq<char>| trim(e, '/') != trim(path, '/'),
        ).map_values(|e: Seq<char>| trim_end(mount, '/') + seq!['/'] + trim_start(e, '/')),
    decreases given.len(),
{
    reveal(Seq::filter);
    let keep = |e: Seq<char>| trim(e, '/') != trim(path, '/');
    let rebase = |e: Seq<char>| trim_end(mount, '/') + seq!['/'] + trim_start(e, '/');
    if given.len() > 0 {
        let front = given.drop_last();
        let last = given.last();
        law_walks_pass_over_the_directory_alone(mount, path, front);
        assert(rebased(mount, last) =~= rebase(last));
        if keep(last) {
            assert(front.filter(keep).push(last).map_values(rebase) =~= front.filter(
                keep,
            ).map_values(rebase).push(rebase(last)));
        }
    } else {
        assert(given.filter(keep).map_values(rebase) =~= Seq::empty());
    }
}

/// A walk inside a mount opens the listed directory once, then takes entry after
/// entry until the store has no more. One above mounts asks no store, and hands
/// out each entry once.
pub proof fn law_walks_go_step_by_step(
    lister: &mut MountLister,
    step: ListAction,
    opened: &mut MountLister,
    same: &MountLister,
    end: ListAction,
)
    requires
        call_ensures(MountLister::next, (lister,), step),
        call_ensures(MountLister::opened, (opened,), ()),
        call_ensures(MountLister::pulled, (same, None::<&str>), end),
    ensures
        end is Done,
        match *old(lister) {
            MountLister::Real { path, opened, .. } => {
                &&& *final(lister) == *old(lister)
                &&& step is Pull <==> opened
                &&& !opened ==> (step matches ListAction::Open { path: p } && p@ == path@)
            },
            MountLister::Virtual { entries } => {
                &&& step is Done <==> entries@.len() == 0
                &&& step matches ListAction::Yield { path } ==> (*final(lister) matches MountLister::Virtual { entries: left } && entries@.len() == left@.len()
                    + 1 && path@ == entries@[left@.len() as int]@ && forall|i: int|
                    0 <= i < left@.len() ==> #[trigger] left@[i] == entries@[i])
            },
        },
        match *old(opened) {
            MountLister::Real { mount_path, path, .. } => *final(opened) matches MountLister::Real { mount_path: m, path: p, opened: o } && m@ == mount_path@
                && p@ == path@ && o,
            MountLister::Virtual { .. } => *final(opened) == *old(opened),
        },
{
}

} // verus!
