//! Renaming a group of the session list: which sessions move with it, and
//! the group path each of them gets.
use vstd::prelude::*;
use crate::startup::{lists_exactly, GroupByMode};
use crate::text::{chars_of, has_prefix, owned, push_all, seq_eq, starts_with_chars, str_eq, string_from, slice_chars};

verus! {

/// Whether `path` is the group `group` or lies below it (`group/...`).
pub open spec fn in_subtree(path: Seq<char>, group: Seq<char>) -> bool {
    path == group || has_prefix(path, group.push('/'))
}

/// The path `path` (in the subtree of `old`) gets when `old` is renamed to
/// `new`: `new` followed by what follows `old` in it.
pub open spec fn renamed(path: Seq<char>, old: Seq<char>, new: Seq<char>) -> Seq<char> {
    new + path.skip(old.len() as int)
}

/// Whether `path` is the group `group` or lies below it.
pub fn in_group_subtree(path: &str, group: &str) -> (r: bool)
    ensures
        r == in_subtree(path@, group@),
{
    let p = chars_of(path);
    let g = chars_of(group);
    if seq_eq(&p, &g) {
        return true;
    }
    let mut prefix = g;
    prefix.push('/');
    starts_with_chars(&p, &prefix)
}

/// The group path of a session below `old` once `old` is renamed to `new`.
pub fn renamed_group_path(path: &str, old: &str, new: &str) -> (r: String)
    requires
        in_subtree(path@, old@),
    ensures
        r@ == renamed(path@, old@, new@),
{
    let p = chars_of(path);
    let o = chars_of(old);
    let rest = slice_chars(&p, o.len(), p.len());
    let mut r = owned(new);
    let tail = string_from(&rest);
    push_all(&mut r, tail.as_str());
    assert(rest@ =~= path@.skip(old@.len() as int));
    r
}

/// The group a rename moves to: the new name when one was given and it
/// differs from the old one; the old name when only the profile changes;
/// `None` when nothing changes.
pub fn group_rename_target(new_group: Option<&str>, old_path: &str, profile_given: bool) -> (r: Option<String>)
    ensures
        match new_group {
            Some(g) if g@.len() > 0 && g@ != old_path@ => r matches Some(t) && t@ == g@,
            _ => if profile_given {
                r matches Some(t) && t@ == old_path@
            } else {
                r is None
            },
        },
{
    match new_group {
        Some(g) => {
            let gs = chars_of(g);
            if gs.len() > 0 && !str_eq(g, old_path) {
                return Some(owned(g));
            }
        },
        None => {},
    }
    if profile_given {
        Some(owned(old_path))
    } else {
        None
    }
}

/// The sessions a group rename moves, by index: those of the group's
/// profile whose group is the renamed one or lies below it. Each session is
/// given as its group path and its profile.
pub fn affected_sessions(sessions: &[(String, String)], old_path: &str, old_profile: &str) -> (r: Vec<usize>)
    ensures
        lists_exactly(
            r@,
            sessions@.len(),
            |i: int| in_subtree(sessions@[i].0@, old_path@) && sessions@[i].1@ == old_profile@,
        ),
{
    let mut r: Vec<usize> = Vec::new();
    let mut i: usize = 0;
    while i < sessions.len()
        invariant
            i <= sessions@.len(),
            forall|k: int| 0 <= k < r@.len() ==> r@[k] < i && in_subtree(sessions@[r@[k] as int].0@, old_path@)
                && sessions@[r@[k] as int].1@ == old_profile@,
            forall|k: int, l: int| 0 <= k < l < r@.len() ==> r@[k] < r@[l],
            forall|j: int|
                0 <= j < i && in_subtree(sessions@[j].0@, old_path@) && sessions@[j].1@ == old_profile@
                    ==> r@.contains(j as usize),
        decreases sessions@.len() - i,
    {
        if in_group_subtree(sessions[i].0.as_str(), old_path) && str_eq(sessions[i].1.as_str(), old_profile) {
            let ghost before = r@;
            r.push(i);
            proof {
                assert(r@[before.len() as int] == i);
                assert forall|j: int|
                    0 <= j < i + 1 && in_subtree(sessions@[j].0@, old_path@) && sessions@[j].1@ == old_profile@
                        implies r@.contains(j as usize) by {
                    if j < i {
                        let k = choose|k: int| 0 <= k < before.len() && before[k] == j as usize;
                        assert(r@[k] == before[k]);
                    }
                }
            }
        }
        i = i + 1;
    }
    r
}

/// A renamed group's sessions stay below it: a path in the subtree of the
/// old group lands in the subtree of the new one.
pub proof fn law_rename_keeps_subtree(path: Seq<char>, old: Seq<char>, new: Seq<char>)
    requires
        in_subtree(path, old),
    ensures
        in_subtree(renamed(path, old, new), new),
{
    let rest = path.skip(old.len() as int);
    if path != old {
        assert(path.take(old.len() as int + 1) == old.push('/'));
        assert(rest[0] == path[old.len() as int]);
        assert(path[old.len() as int] == old.push('/')[old.len() as int]);
        assert(renamed(path, old, new).take(new.len() as int + 1) =~= new.push('/'));
    } else {
        assert(rest =~= Seq::<char>::empty());
        assert(renamed(path, old, new) =~= new);
    }
}

/// Renaming a group back undoes the rename.
pub proof fn law_rename_back_restores(path: Seq<char>, old: Seq<char>, new: Seq<char>)
    requires
        in_subtree(path, old),
    ensures
        renamed(renamed(path, old, new), new, old) == path,
{
    let rest = path.skip(old.len() as int);
    if path != old {
        assert(path.take(old.len() as int) =~= old.push('/').take(old.len() as int));
        assert(old.push('/').take(old.len() as int) =~= old);
    }
    assert((new + rest).skip(new.len() as int) =~= rest);
    assert(old + rest =~= path) by {
        assert(path.take(old.len() as int) =~= old) by {
            if path != old {
                assert(path.take(old.len() as int + 1) == old.push('/'));
                assert(path.take(old.len() as int) =~= path.take(old.len() as int + 1).take(old.len() as int));
            }
        }
        assert(path =~= path.take(old.len() as int) + path.skip(old.len() as int));
    }
}

/// A session, as group membership sees it.
pub struct GroupMember {
    /// Its project header label.
    pub project_group: String,
    /// Its manual group path.
    pub group_path: String,
    /// The profile it is filed under.
    pub profile: String,
    pub archived: bool,
    pub trashed: bool,
}

/// Whether a session counts as an active member of the selected group:
/// not archived or trashed, within the profile filter (`None` for all
/// profiles), and, by project, under that header, or, by manual groups, in
/// the group or below it.
pub open spec fn active_member(m: GroupMember, by: GroupByMode, group: Seq<char>, profile: Option<Seq<char>>) -> bool {
    &&& !m.archived && !m.trashed
    &&& match profile {
        Some(p) => m.profile@ == p,
        None => true,
    }
    &&& match by {
        GroupByMode::Project => m.project_group@ == group,
        GroupByMode::Manual => in_subtree(m.group_path@, group),
    }
}

/// The active sessions of the selected group, by index (the targets of the
/// group-wide actions). The profile filter is the active profile for
/// project headers and the group's own profile for manual groups.
pub fn active_sessions_in_group(
    sessions: &[GroupMember],
    by: GroupByMode,
    group: &str,
    profile: Option<&str>,
) -> (r: Vec<usize>)
    ensures
        lists_exactly(
            r@,
            sessions@.len(),
            |i: int| active_member(sessions@[i], by, group@, match profile {
                Some(p) => Some(p@),
                None => None,
            }),
        ),
{
    let ghost pf = match profile {
        Some(p) => Some(p@),
        None => None::<Seq<char>>,
    };
    let mut r: Vec<usize> = Vec::new();
    let mut i: usize = 0;
    while i < sessions.len()
        invariant
            i <= sessions@.len(),
            pf == match profile {
                Some(p) => Some(p@),
                None => None::<Seq<char>>,
            },
            forall|k: int| 0 <= k < r@.len() ==> r@[k] < i && active_member(sessions@[r@[k] as int], by, group@, pf),
            forall|k: int, l: int| 0 <= k < l < r@.len() ==> r@[k] < r@[l],
            forall|j: int| 0 <= j < i && active_member(sessions@[j], by, group@, pf) ==> r@.contains(j as usize),
        decreases sessions@.len() - i,
    {
        let m = &sessions[i];
        let in_profile = match profile {
            Some(p) => str_eq(m.profile.as_str(), p),
            None => true,
        };
        let in_group = match by {
            GroupByMode::Project => str_eq(m.project_group.as_str(), group),
            GroupByMode::Manual => in_group_subtree(m.group_path.as_str(), group),
        };
        if !m.archived && !m.trashed && in_profile && in_group {
            let ghost before = r@;
            r.push(i);
            proof {
                assert(r@[before.len() as int] == i);
                assert forall|j: int| 0 <= j < i + 1 && active_member(sessions@[j], by, group@, pf) implies r@.contains(
                    j as usize,
                ) by {
                    if j < i {
                        let k = choose|k: int| 0 <= k < before.len() && before[k] == j as usize;
                        assert(r@[k] == before[k]);
                    }
                }
            }
        }
        i = i + 1;
    }
    r
}

/// Whether an emptied group is deleted: it is not the top level, no session
/// of its profile lies in it or below it, and the user built no group below
/// it.
pub open spec fn prunable(
    group: Seq<char>,
    sessions: Seq<(String, String)>,
    profile: Seq<char>,
    tree_groups: Seq<String>,
) -> bool {
    &&& group.len() > 0
    &&& forall|i: int| 0 <= i < sessions.len() ==> !(sessions[i].1@ == profile && in_subtree(#[trigger] sessions[i].0@, group))
    &&& forall|i: int| 0 <= i < tree_groups.len() ==> !has_prefix(#[trigger] tree_groups[i]@, group.push('/'))
}

/// Whether the group `group` of `profile` is deleted once a session left
/// it; `sessions` are the sessions' group paths and profiles, `tree_groups`
/// the paths of the profile's groups.
pub fn should_prune_group(group: &str, sessions: &[(String, String)], profile: &str, tree_groups: &[String]) -> (r: bool)
    ensures
        r == prunable(group@, sessions@, profile@, tree_groups@),
{
    let g = chars_of(group);
    if g.len() == 0 {
        return false;
    }
    let mut i: usize = 0;
    while i < sessions.len()
        invariant
            i <= sessions@.len(),
            forall|k: int| 0 <= k < i ==> !(sessions@[k].1@ == profile@ && in_subtree(#[trigger] sessions@[k].0@, group@)),
        decreases sessions@.len() - i,
    {
        if str_eq(sessions[i].1.as_str(), profile) && in_group_subtree(sessions[i].0.as_str(), group) {
            return false;
        }
        i = i + 1;
    }
    let mut prefix = g;
    prefix.push('/');
    let mut j: usize = 0;
    while j < tree_groups.len()
        invariant
            j <= tree_groups@.len(),
            prefix@ == group@.push('/'),
            forall|k: int| 0 <= k < j ==> !has_prefix(#[trigger] tree_groups@[k]@, group@.push('/')),
        decreases tree_groups@.len() - j,
    {
        let t = chars_of(tree_groups[j].as_str());
        if starts_with_chars(&t, &prefix) {
            return false;
        }
        j = j + 1;
    }
    true
}

} // verus!
