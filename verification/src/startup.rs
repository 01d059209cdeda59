//! Decisions the home view makes when it starts: the layout restored from
//! the saved app state, the half-created sessions a crash left behind, the
//! sessions whose missing panes startup recovery brings back, and the
//! profiles whose status hooks are loaded.
use vstd::prelude::*;
use crate::home::Status;
use crate::text::{chars_of, contains_name, names_of, owned, seq_eq};
use crate::watch::{additions, removals, select_names};
use crate::themes::{lemma_name_le_antisymmetric, lemma_name_le_trans, name_le, names_sorted, sort_names};

verus! {

/// How the session list is grouped.
#[derive(Debug, Clone, Copy, PartialEq, Eq, Structural)]
pub enum GroupByMode {
    /// The user's own groups.
    Manual,
    /// One group per project directory.
    Project,
}

/// What the saved app state holds of the home view's layout; `None` where
/// nothing was saved.
#[derive(Debug, Clone, Copy, PartialEq, Eq, Structural)]
pub struct SavedLayout {
    pub has_seen_welcome: bool,
    pub group_by: Option<GroupByMode>,
    pub list_width: Option<u16>,
    pub show_preview_info: Option<bool>,
    pub archived_section_collapsed: Option<bool>,
    pub sidebar_collapsed: Option<bool>,
}

/// The layout the home view opens with.
#[derive(Debug, Clone, Copy, PartialEq, Eq, Structural)]
pub struct HomeLayout {
    pub group_by: GroupByMode,
    pub list_width: u16,
    pub show_preview_info: bool,
    pub archived_section_collapsed: bool,
    pub sidebar_collapsed: bool,
}

/// Width of the session list when none was saved.
pub const DEFAULT_LIST_WIDTH: u16 = 35;

pub open spec fn or_default<T>(o: Option<T>, d: T) -> T {
    match o {
        Some(v) => v,
        None => d,
    }
}

/// The layout restored from `saved` (`None` when the user config could
/// not be read): each saved choice wins; otherwise a list 35 wide, the
/// preview info shown, the archived section collapsed, the sidebar open,
/// and sessions grouped by project for a user who has not yet dismissed
/// the welcome screen, by their own groups for everyone else.
pub fn initial_layout(saved: Option<SavedLayout>) -> (r: HomeLayout)
    ensures
        saved is None ==> r == (HomeLayout {
            group_by: GroupByMode::Project,
            list_width: DEFAULT_LIST_WIDTH,
            show_preview_info: true,
            archived_section_collapsed: true,
            sidebar_collapsed: false,
        }),
        saved matches Some(s) ==> r == (HomeLayout {
            group_by: or_default(
                s.group_by,
                if s.has_seen_welcome { GroupByMode::Manual } else { GroupByMode::Project },
            ),
            list_width: or_default(s.list_width, DEFAULT_LIST_WIDTH),
            show_preview_info: or_default(s.show_preview_info, true),
            archived_section_collapsed: or_default(s.archived_section_collapsed, true),
            sidebar_collapsed: or_default(s.sidebar_collapsed, false),
        }),
{
    match saved {
        None => HomeLayout {
            group_by: GroupByMode::Project,
            list_width: DEFAULT_LIST_WIDTH,
            show_preview_info: true,
            archived_section_collapsed: true,
            sidebar_collapsed: false,
        },
        Some(s) => {
            let default_group_by = if s.has_seen_welcome {
                GroupByMode::Manual
            } else {
                GroupByMode::Project
            };
            HomeLayout {
                group_by: match s.group_by {
                    Some(g) => g,
                    None => default_group_by,
                },
                list_width: match s.list_width {
                    Some(w) => w,
                    None => DEFAULT_LIST_WIDTH,
                },
                show_preview_info: match s.show_preview_info {
                    Some(b) => b,
                    None => true,
                },
                archived_section_collapsed: match s.archived_section_collapsed {
                    Some(b) => b,
                    None => true,
                },
                sidebar_collapsed: match s.sidebar_collapsed {
                    Some(b) => b,
                    None => false,
                },
            }
        },
    }
}

/// `r` lists, in increasing order and each once, exactly the indices below
/// `n` at which `pick` holds.
pub open spec fn lists_exactly(r: Seq<usize>, n: nat, pick: spec_fn(int) -> bool) -> bool {
    &&& forall|k: int| 0 <= k < r.len() ==> r[k] < n && pick(r[k] as int)
    &&& forall|k: int, l: int| 0 <= k < l < r.len() ==> r[k] < r[l]
    &&& forall|i: int| 0 <= i < n && #[trigger] pick(i) ==> r.contains(i as usize)
}

proof fn lemma_push_keeps(before: Seq<usize>, x: usize, after: Seq<usize>)
    requires
        after == before.push(x),
    ensures
        after.contains(x),
        forall|y: usize| before.contains(y) ==> after.contains(y),
{
    assert(after[before.len() as int] == x);
    assert forall|y: usize| before.contains(y) implies after.contains(y) by {
        let k = choose|k: int| 0 <= k < before.len() && before[k] == y;
        assert(after[k] == y);
    }
}

/// The sessions a crash left half-created: the indices of those still in
/// `Creating`, which the home view removes when it starts.
pub fn orphaned_creating(statuses: &[Status]) -> (r: Vec<usize>)
    ensures
        lists_exactly(r@, statuses@.len(), |i: int| statuses@[i] is Creating),
{
    let mut r: Vec<usize> = Vec::new();
    let mut i: usize = 0;
    while i < statuses.len()
        invariant
            i <= statuses@.len(),
            forall|k: int| 0 <= k < r@.len() ==> r@[k] < i && statuses@[r@[k] as int] is Creating,
            forall|k: int, l: int| 0 <= k < l < r@.len() ==> r@[k] < r@[l],
            forall|j: int| 0 <= j < i && statuses@[j] is Creating ==> r@.contains(j as usize),
        decreases statuses@.len() - i,
    {
        if matches!(statuses[i], Status::Creating) {
            let ghost before = r@;
            r.push(i);
            proof { lemma_push_keeps(before, i, r@); }
        }
        i = i + 1;
    }
    r
}

/// The sessions startup recovery restarts: those whose tmux pane is not
/// alive and that qualify for recovery, by index.
pub fn recovery_picks(pane_alive: &[bool], qualifies: &[bool]) -> (r: Vec<usize>)
    requires
        pane_alive@.len() == qualifies@.len(),
    ensures
        lists_exactly(r@, pane_alive@.len(), |i: int| !pane_alive@[i] && qualifies@[i]),
{
    let mut r: Vec<usize> = Vec::new();
    let mut i: usize = 0;
    while i < pane_alive.len()
        invariant
            i <= pane_alive@.len(),
            pane_alive@.len() == qualifies@.len(),
            forall|k: int| 0 <= k < r@.len() ==> r@[k] < i && !pane_alive@[r@[k] as int] && qualifies@[r@[k] as int],
            forall|k: int, l: int| 0 <= k < l < r@.len() ==> r@[k] < r@[l],
            forall|j: int| 0 <= j < i && !pane_alive@[j] && qualifies@[j] ==> r@.contains(j as usize),
        decreases pane_alive@.len() - i,
    {
        if !pane_alive[i] && qualifies[i] {
            let ghost before = r@;
            r.push(i);
            proof { lemma_push_keeps(before, i, r@); }
        }
        i = i + 1;
    }
    r
}

/// Names in strictly increasing order: sorted, each once.
pub open spec fn names_strictly_sorted(s: Seq<Seq<char>>) -> bool {
    forall|i: int, j: int| 0 <= i < j < s.len() ==> name_le(#[trigger] s[i], #[trigger] s[j]) && s[i] != s[j]
}

/// The profiles whose status-hook settings are loaded at start: the active
/// profile alone, or every loaded profile in unified mode; and the default
/// profile in any case, so its hooks work before it has sessions. Sorted,
/// each once.
pub fn status_hook_profile_names(active: Option<&str>, loaded: &[String], default_profile: &str) -> (r: Vec<String>)
    ensures
        names_strictly_sorted(names_of(r@)),
        names_of(r@).to_set() == (match active {
            Some(p) => set![p@],
            None => names_of(loaded@).to_set(),
        }).insert(default_profile@),
{
    let mut names: Vec<String> = Vec::new();
    match active {
        Some(p) => {
            names.push(owned(p));
        },
        None => {
            let mut i: usize = 0;
            while i < loaded.len()
                invariant
                    i <= loaded@.len(),
                    names_of(names@) == names_of(loaded@).take(i as int),
                decreases loaded@.len() - i,
            {
                let ghost before = names@;
                names.push(owned(loaded[i].as_str()));
                assert(names_of(names@) =~= names_of(before).push(loaded@[i as int]@));
                assert(names_of(names@) =~= names_of(loaded@).take(i + 1));
                i = i + 1;
            }
            assert(names_of(loaded@).take(loaded@.len() as int) =~= names_of(loaded@));
        },
    }
    let ghost base = names_of(names@);
    assert(base.to_set() == match active {
        Some(p) => set![p@],
        None => names_of(loaded@).to_set(),
    }) by {
        if let Some(p) = active {
            assert(base =~= seq![p@]);
            assert(seq![p@].to_set() =~= set![p@]) by {
                assert(seq![p@][0] == p@);
            }
        }
    }
    let d = chars_of(default_profile);
    if !contains_name(names.as_slice(), &d) {
        names.push(owned(default_profile));
    }
    let ghost with_default = names_of(names@);
    assert(with_default.to_set() =~= base.to_set().insert(default_profile@)) by {
        if with_default != base {
            assert(with_default =~= base.push(default_profile@));
            assert forall|x: Seq<char>| with_default.contains(x) <==> base.contains(x) || x == default_profile@ by {
                if with_default.contains(x) {
                    let k = choose|k: int| 0 <= k < with_default.len() && with_default[k] == x;
                    if k < base.len() {
                        assert(base[k] == x);
                    }
                }
                if base.contains(x) {
                    let k = choose|k: int| 0 <= k < base.len() && base[k] == x;
                    assert(with_default[k] == x);
                }
                if x == default_profile@ {
                    assert(with_default[base.len() as int] == x);
                }
            }
        }
    }
    let sorted = sort_names(names);
    proof {
        assert forall|x: Seq<char>| names_of(sorted@).contains(x) <==> with_default.contains(x) by {
            vstd::seq_lib::to_multiset_contains(names_of(sorted@), x);
            vstd::seq_lib::to_multiset_contains(with_default, x);
        }
        assert(names_of(sorted@).to_set() =~= with_default.to_set());
    }
    dedup_sorted(sorted)
}

/// Drops repeats from sorted names.
fn dedup_sorted(v: Vec<String>) -> (r: Vec<String>)
    requires
        names_sorted(names_of(v@)),
    ensures
        names_strictly_sorted(names_of(r@)),
        names_of(r@).to_set() == names_of(v@).to_set(),
{
    let ghost vv = names_of(v@);
    let mut out: Vec<String> = Vec::new();
    let mut i: usize = 0;
    while i < v.len()
        invariant
            i <= v@.len(),
            vv == names_of(v@),
            names_sorted(vv),
            names_strictly_sorted(names_of(out@)),
            out@.len() <= i,
            out@.len() > 0 ==> i > 0 && names_of(out@).last() == vv[i - 1],
            forall|x: Seq<char>| names_of(out@).contains(x) <==> vv.take(i as int).contains(x),
        decreases v@.len() - i,
    {
        let x = chars_of(v[i].as_str());
        let repeat = if out.len() > 0 {
            let last = chars_of(out[out.len() - 1].as_str());
            seq_eq(&last, &x)
        } else {
            false
        };
        let ghost ov = names_of(out@);
        if !repeat {
            out.push(owned(v[i].as_str()));
            proof {
                let nv = names_of(out@);
                assert(nv =~= ov.push(vv[i as int]));
                assert forall|a: int, b: int| 0 <= a < b < nv.len() implies name_le(#[trigger] nv[a], #[trigger] nv[b]) && nv[a]
                    != nv[b] by {
                    if b == nv.len() - 1 {
                        let l = ov.len() - 1;
                        assert(ov[l] == vv[i - 1]);
                        assert(name_le(vv[i - 1], vv[i as int]));
                        if a < l {
                            lemma_name_le_trans(ov[a], ov[l], vv[i as int]);
                            if ov[a] == vv[i as int] {
                                lemma_name_le_antisymmetric(ov[a], ov[l]);
                            }
                        }
                    } else {
                        assert(nv[a] == ov[a] && nv[b] == ov[b]);
                    }
                }
            }
        }
        proof {
            let nv = names_of(out@);
            let t1 = vv.take(i + 1);
            let t0 = vv.take(i as int);
            assert(t1 =~= t0.push(vv[i as int]));
            assert forall|y: Seq<char>| nv.contains(y) <==> t1.contains(y) by {
                if t1.contains(y) {
                    let k = choose|k: int| 0 <= k < t1.len() && t1[k] == y;
                    if k < i {
                        assert(t0[k] == y);
                        assert(t0.contains(y));
                        assert(ov.contains(y));
                        let m = choose|m: int| 0 <= m < ov.len() && ov[m] == y;
                        assert(nv[m] == y);
                    }
                    if k == i {
                        if repeat {
                            assert(ov[ov.len() - 1] == y);
                        } else {
                            assert(nv[nv.len() - 1] == y);
                        }
                    }
                }
                if nv.contains(y) {
                    let k = choose|k: int| 0 <= k < nv.len() && nv[k] == y;
                    if k < ov.len() {
                        assert(ov[k] == y);
                        assert(ov.contains(y));
                        let m = choose|m: int| 0 <= m < t0.len() && t0[m] == y;
                        assert(t1[m] == y);
                    } else {
                        assert(t1[i as int] == y);
                    }
                }
            }
        }
        i = i + 1;
    }
    proof {
        assert(vv.take(v@.len() as int) =~= vv);
        assert(names_of(out@).to_set() =~= vv.to_set());
    }
    out
}

/// The profiles whose sessions the home view loads: the active profile
/// alone, or every listed profile in unified mode.
pub fn loaded_profiles(active: Option<&str>, listed: &[String]) -> (r: Vec<String>)
    ensures
        match active {
            Some(p) => names_of(r@) == seq![p@],
            None => names_of(r@) == names_of(listed@),
        },
{
    match active {
        Some(p) => {
            let mut r: Vec<String> = Vec::new();
            r.push(owned(p));
            assert(names_of(r@) =~= seq![p@]);
            r
        },
        None => {
            let mut r: Vec<String> = Vec::new();
            let mut i: usize = 0;
            while i < listed.len()
                invariant
                    i <= listed@.len(),
                    names_of(r@) == names_of(listed@).take(i as int),
                decreases listed@.len() - i,
            {
                let ghost before = r@;
                r.push(owned(listed[i].as_str()));
                assert(names_of(r@) =~= names_of(before).push(listed@[i as int]@));
                assert(names_of(listed@).take(i + 1) =~= names_of(listed@).take(i as int).push(listed@[i as int]@));
                i = i + 1;
            }
            assert(names_of(listed@).take(listed@.len() as int) =~= names_of(listed@));
            r
        },
    }
}

/// The session ids of each loaded profile, each tagged with the profile it
/// is filed under, profile after profile.
pub open spec fn tagged_rows(loads: Seq<(String, Vec<String>)>) -> Seq<(Seq<char>, Seq<char>)>
    decreases loads.len(),
{
    if loads.len() == 0 {
        seq![]
    } else {
        let (profile, ids) = loads.last();
        tagged_rows(loads.drop_last()) + names_of(ids@).map_values(|id: Seq<char>| (id, profile@))
    }
}

/// The list's rows at start: every loaded profile's sessions, as `(id,
/// profile)` pairs.
pub fn tag_rows(loads: &[(String, Vec<String>)]) -> (r: Vec<(String, String)>)
    ensures
        r@.map_values(|p: (String, String)| (p.0@, p.1@)) == tagged_rows(loads@),
{
    let mut r: Vec<(String, String)> = Vec::new();
    let mut i: usize = 0;
    while i < loads.len()
        invariant
            i <= loads@.len(),
            r@.map_values(|p: (String, String)| (p.0@, p.1@)) == tagged_rows(loads@.take(i as int)),
        decreases loads@.len() - i,
    {
        assert(loads@.take(i + 1).drop_last() =~= loads@.take(i as int));
        assert(loads@.take(i + 1).last() == loads@[i as int]);
        let ghost start = r@.map_values(|p: (String, String)| (p.0@, p.1@));
        let ghost profile = loads@[i as int].0@;
        let ghost idv = names_of(loads@[i as int].1@);
        let ids = &loads[i].1;
        let mut j: usize = 0;
        while j < ids.len()
            invariant
                j <= ids@.len(),
                i < loads@.len(),
                ids@ == loads@[i as int].1@,
                idv == names_of(ids@),
                profile == loads@[i as int].0@,
                r@.map_values(|p: (String, String)| (p.0@, p.1@)) == start + idv.take(j as int).map_values(
                    |id: Seq<char>| (id, profile),
                ),
            decreases ids@.len() - j,
        {
            let ghost before = r@;
            r.push((owned(ids[j].as_str()), owned(loads[i].0.as_str())));
            assert(r@.map_values(|p: (String, String)| (p.0@, p.1@)) =~= before.map_values(
                |p: (String, String)| (p.0@, p.1@),
            ).push((idv[j as int], profile)));
            assert(idv.take(j + 1).map_values(|id: Seq<char>| (id, profile)) =~= idv.take(j as int).map_values(
                |id: Seq<char>| (id, profile),
            ).push((idv[j as int], profile)));
            j = j + 1;
        }
        assert(idv.take(ids@.len() as int) =~= idv);
        i = i + 1;
    }
    assert(loads@.take(loads@.len() as int) =~= loads@);
    r
}

/// What a reload does to the profiles held open: in unified mode it opens
/// the listed profiles not yet open and closes those no longer listed; with
/// an active profile it keeps exactly what it has.
pub struct StorageReconcile {
    pub open: Vec<String>,
    pub close: Vec<String>,
}

/// The storage reconciliation of a reload (see `StorageReconcile`).
pub fn reconcile_storages(unified: bool, loaded: &[String], current: &[String]) -> (r: StorageReconcile)
    ensures
        !unified ==> r.open@.len() == 0 && r.close@.len() == 0,
        unified ==> names_of(r.open@) == additions(names_of(loaded@), names_of(current@), seq![])
            && names_of(r.close@) == removals(names_of(loaded@), names_of(current@), seq![]),
{
    if !unified {
        return StorageReconcile { open: Vec::new(), close: Vec::new() };
    }
    let none: Vec<String> = Vec::new();
    assert(names_of(none@) =~= Seq::<Seq<char>>::empty());
    let open = select_names(current, current, loaded, none.as_slice(), false);
    let close = select_names(loaded, current, loaded, none.as_slice(), true);
    StorageReconcile { open, close }
}

} // verus!
