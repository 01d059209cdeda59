//! Reconciling file-watch subscriptions with the live profile set: which
//! subscriptions a rewire drops, which it installs, and when it is a no-op.
use vstd::prelude::*;
use crate::text::{chars_of, contains_name, names_of, owned, str_eq};

verus! {

/// The names of `s` that satisfy `keep`, in order.
pub open spec fn names_where(s: Seq<Seq<char>>, keep: spec_fn(Seq<char>) -> bool) -> Seq<Seq<char>>
    decreases s.len(),
{
    if s.len() == 0 {
        seq![]
    } else {
        let rest = names_where(s.drop_last(), keep);
        if keep(s.last()) {
            rest.push(s.last())
        } else {
            rest
        }
    }
}

/// The subscriptions a rewire drops: prior names no longer wanted, or whose
/// directory was replaced under them.
pub open spec fn removals(prior: Seq<Seq<char>>, current: Seq<Seq<char>>, invalidated: Seq<Seq<char>>) -> Seq<
    Seq<char>,
> {
    names_where(prior, |n: Seq<char>| !current.contains(n) || invalidated.contains(n))
}

/// The subscriptions a rewire installs: wanted names not yet subscribed, or
/// whose directory was replaced.
pub open spec fn additions(prior: Seq<Seq<char>>, current: Seq<Seq<char>>, invalidated: Seq<Seq<char>>) -> Seq<
    Seq<char>,
> {
    names_where(current, |n: Seq<char>| !prior.contains(n) || invalidated.contains(n))
}

proof fn lemma_names_where_contains(s: Seq<Seq<char>>, keep: spec_fn(Seq<char>) -> bool, n: Seq<char>)
    ensures
        names_where(s, keep).contains(n) <==> (s.contains(n) && keep(n)),
    decreases s.len(),
{
    if s.len() > 0 {
        lemma_names_where_contains(s.drop_last(), keep, n);
        if s.contains(n) && n != s.last() {
            let i = choose|i: int| 0 <= i < s.len() && s[i] == n;
            assert(s.drop_last()[i] == n);
        }
        if s.drop_last().contains(n) {
            let i = choose|i: int| 0 <= i < s.drop_last().len() && s.drop_last()[i] == n;
            assert(s[i] == n);
        }
        assert(s[s.len() - 1] == s.last());
        let rest = names_where(s.drop_last(), keep);
        if keep(s.last()) {
            assert(rest.push(s.last())[rest.len() as int] == s.last());
            if rest.contains(n) {
                let i = choose|i: int| 0 <= i < rest.len() && rest[i] == n;
                assert(rest.push(s.last())[i] == n);
            }
            if rest.push(s.last()).contains(n) && n != s.last() {
                let i = choose|i: int| 0 <= i < rest.len() + 1 && rest.push(s.last())[i] == n;
                assert(rest[i] == n);
            }
        }
    }
}

/// The names of `s` for which `keep` holds, in order.
pub(crate) fn select_names(s: &[String], current: &[String], prior: &[String], invalidated: &[String], from_prior: bool) -> (r: Vec<String>)
    ensures
        names_of(r@) == names_where(
            names_of(s@),
            if from_prior {
                |n: Seq<char>| !names_of(current@).contains(n) || names_of(invalidated@).contains(n)
            } else {
                |n: Seq<char>| !names_of(prior@).contains(n) || names_of(invalidated@).contains(n)
            },
        ),
{
    let ghost keep = if from_prior {
        |n: Seq<char>| !names_of(current@).contains(n) || names_of(invalidated@).contains(n)
    } else {
        |n: Seq<char>| !names_of(prior@).contains(n) || names_of(invalidated@).contains(n)
    };
    let ghost sv = names_of(s@);
    let mut r: Vec<String> = Vec::new();
    let mut i: usize = 0;
    while i < s.len()
        invariant
            i <= s@.len(),
            sv == names_of(s@),
            keep == (if from_prior {
                |n: Seq<char>| !names_of(current@).contains(n) || names_of(invalidated@).contains(n)
            } else {
                |n: Seq<char>| !names_of(prior@).contains(n) || names_of(invalidated@).contains(n)
            }),
            names_of(r@) == names_where(sv.take(i as int), keep),
        decreases s@.len() - i,
    {
        assert(sv.take(i + 1).drop_last() =~= sv.take(i as int));
        assert(sv.take(i + 1).last() == s@[i as int]@);
        let n = chars_of(s[i].as_str());
        let other = if from_prior {
            contains_name(current, &n)
        } else {
            contains_name(prior, &n)
        };
        let inv = contains_name(invalidated, &n);
        if !other || inv {
            let ghost before = r@;
            r.push(owned(s[i].as_str()));
            assert(names_of(r@) =~= names_of(before).push(s@[i as int]@));
        }
        i = i + 1;
    }
    assert(sv.take(s@.len() as int) =~= sv);
    r
}

/// What a disk-watch rewire does to the per-profile subscriptions.
pub struct DiskRewirePlan {
    /// Profiles whose subscription is dropped, in prior order.
    pub to_remove: Vec<String>,
    /// Profiles whose subscription is installed, in current order.
    pub to_add: Vec<String>,
    /// Whether the dirty latch is set afterwards, so that writes made while a
    /// replaced directory was unwatched are picked up.
    pub kick: bool,
}

/// Every name of `a` occurs in `b`.
fn all_in(a: &[String], b: &[String]) -> (r: bool)
    ensures
        r == forall|n: Seq<char>| names_of(a@).contains(n) ==> names_of(b@).contains(n),
{
    let ghost av = names_of(a@);
    let mut i: usize = 0;
    while i < a.len()
        invariant
            i <= a@.len(),
            av == names_of(a@),
            forall|k: int| 0 <= k < i ==> names_of(b@).contains(#[trigger] av[k]),
        decreases a@.len() - i,
    {
        let n = chars_of(a[i].as_str());
        if !contains_name(b, &n) {
            assert(av.contains(av[i as int]));
            return false;
        }
        i = i + 1;
    }
    assert forall|n: Seq<char>| av.contains(n) implies names_of(b@).contains(n) by {
        let k = choose|k: int| 0 <= k < av.len() && av[k] == n;
    }
    true
}

/// Plan a rewire of the per-profile storage subscriptions: `prior` holds the
/// subscribed profiles, `current` the live ones, `invalidated` the subscribed
/// profiles whose directory was replaced, and `init_error_stale` whether the
/// recorded watcher-init failure names a profile that is gone. `None` when
/// the rewire is a no-op: same name set, nothing replaced, no stale failure.
pub fn plan_disk_rewire(
    prior: &[String],
    current: &[String],
    invalidated: &[String],
    init_error_stale: bool,
) -> (r: Option<DiskRewirePlan>)
    ensures
        r is None <==> (names_of(prior@).to_set() == names_of(current@).to_set()
            && invalidated@.len() == 0 && !init_error_stale),
        r matches Some(p) ==> {
            &&& names_of(p.to_remove@) == removals(names_of(prior@), names_of(current@), names_of(invalidated@))
            &&& names_of(p.to_add@) == additions(names_of(prior@), names_of(current@), names_of(invalidated@))
            &&& p.kick == (invalidated@.len() > 0)
        },
{
    let same = all_in(prior, current) && all_in(current, prior);
    proof {
        let ps = names_of(prior@).to_set();
        let cs = names_of(current@).to_set();
        if same {
            assert(ps =~= cs);
        }
        if ps == cs {
            assert forall|n: Seq<char>| names_of(prior@).contains(n) implies names_of(
                current@,
            ).contains(n) by {
                assert(ps.contains(n));
            }
            assert forall|n: Seq<char>| names_of(current@).contains(n) implies names_of(
                prior@,
            ).contains(n) by {
                assert(cs.contains(n));
            }
        }
    }
    if same && invalidated.len() == 0 && !init_error_stale {
        return None;
    }
    let to_remove = select_names(prior, current, prior, invalidated, true);
    let to_add = select_names(current, current, prior, invalidated, false);
    Some(DiskRewirePlan { to_remove, to_add, kick: invalidated.len() > 0 })
}

/// The state of the app-wide config subscription when a rewire starts.
#[derive(Debug, Clone, Copy, PartialEq, Eq, Structural)]
pub enum GlobalWatch {
    /// Not subscribed.
    Missing,
    /// Subscribed, and its directory is the one it was installed on.
    Current,
    /// Subscribed, but its directory was replaced since.
    Stale,
}

/// What a config-watch rewire does.
pub struct ConfigRewirePlan {
    /// Whether the app-wide subscription is dropped first.
    pub drop_global: bool,
    /// Whether the app-wide subscription is installed.
    pub install_global: bool,
    /// Profiles whose config subscription is dropped, in prior order.
    pub to_remove: Vec<String>,
    /// Profiles whose config subscription is installed, in current order.
    pub to_add: Vec<String>,
    /// Whether the dirty latch is set afterwards.
    pub kick: bool,
}

/// Plan a rewire of the config subscriptions: the app-wide one, kept while
/// its directory stands, and one per live profile. `None` when nothing is to
/// be installed or dropped and the recorded watcher-init failure names no
/// missing profile.
pub fn plan_config_rewire(
    global: GlobalWatch,
    prior: &[String],
    current: &[String],
    invalidated: &[String],
    init_error_stale: bool,
) -> (r: Option<ConfigRewirePlan>)
    ensures
        ({
            let rm = removals(names_of(prior@), names_of(current@), names_of(invalidated@));
            let add = additions(names_of(prior@), names_of(current@), names_of(invalidated@));
            &&& r is None <==> (global == GlobalWatch::Current && rm.len() == 0 && add.len() == 0
                && !init_error_stale)
            &&& r matches Some(p) ==> {
                &&& p.drop_global == (global == GlobalWatch::Stale)
                &&& p.install_global == (global != GlobalWatch::Current)
                &&& names_of(p.to_remove@) == rm
                &&& names_of(p.to_add@) == add
                &&& p.kick == (global == GlobalWatch::Stale || invalidated@.len() > 0)
            }
        }),
{
    let install_global = match global {
        GlobalWatch::Current => false,
        _ => true,
    };
    let drop_global = match global {
        GlobalWatch::Stale => true,
        _ => false,
    };
    let to_remove = select_names(prior, current, prior, invalidated, true);
    let to_add = select_names(current, current, prior, invalidated, false);
    if !install_global && to_remove.len() == 0 && to_add.len() == 0 && !init_error_stale {
        return None;
    }
    Some(
        ConfigRewirePlan {
            drop_global,
            install_global,
            to_remove,
            to_add,
            kick: drop_global || invalidated.len() > 0,
        },
    )
}

/// Reconciling reaches the live set: the subscribed names, less those the
/// plan drops, plus those it installs, are exactly the live names.
pub proof fn law_rewire_reaches_current(
    prior: Seq<Seq<char>>,
    current: Seq<Seq<char>>,
    invalidated: Seq<Seq<char>>,
)
    ensures
        prior.to_set().difference(removals(prior, current, invalidated).to_set()).union(
            additions(prior, current, invalidated).to_set(),
        ) == current.to_set(),
{
    let rm_keep = |n: Seq<char>| !current.contains(n) || invalidated.contains(n);
    let add_keep = |n: Seq<char>| !prior.contains(n) || invalidated.contains(n);
    assert forall|n: Seq<char>|
        #[trigger] removals(prior, current, invalidated).contains(n) == (prior.contains(n) && rm_keep(n)) by {
        lemma_names_where_contains(prior, rm_keep, n);
    }
    assert forall|n: Seq<char>|
        #[trigger] additions(prior, current, invalidated).contains(n) == (current.contains(n) && add_keep(n)) by {
        lemma_names_where_contains(current, add_keep, n);
    }
    assert(prior.to_set().difference(removals(prior, current, invalidated).to_set()).union(
        additions(prior, current, invalidated).to_set(),
    ) =~= current.to_set());
}

/// A rewire leaves a stable subscription alone: a name that is subscribed,
/// still live and whose directory was not replaced is neither dropped nor
/// reinstalled.
pub proof fn law_rewire_keeps_stable(
    prior: Seq<Seq<char>>,
    current: Seq<Seq<char>>,
    invalidated: Seq<Seq<char>>,
    name: Seq<char>,
)
    requires
        prior.contains(name),
        current.contains(name),
        !invalidated.contains(name),
    ensures
        !removals(prior, current, invalidated).contains(name),
        !additions(prior, current, invalidated).contains(name),
{
    lemma_names_where_contains(prior, |n: Seq<char>| !current.contains(n) || invalidated.contains(n), name);
    lemma_names_where_contains(current, |n: Seq<char>| !prior.contains(n) || invalidated.contains(n), name);
}

/// A watched directory as a rewire finds it.
pub struct WatchedDir {
    /// The profile it belongs to.
    pub name: String,
    /// The canonical path the subscription was installed on.
    pub installed_canonical: String,
    /// The directory's canonical path now; `None` when it is gone.
    pub current_canonical: Option<String>,
    /// Whether the directory's identity differs from the installed one;
    /// `None` when it could not be captured.
    pub identity_changed: Option<bool>,
}

/// Whether a subscription no longer watches its directory: the directory is
/// gone, resolves elsewhere, or was replaced (its identity changed; an
/// identity that cannot be captured counts as unchanged).
pub open spec fn watch_stale(d: WatchedDir) -> bool {
    match d.current_canonical {
        None => true,
        Some(c) => c@ != d.installed_canonical@ || d.identity_changed == Some(true),
    }
}

/// Whether the subscription of `d` must be reinstalled (see `watch_stale`).
pub fn watch_invalidated(d: &WatchedDir) -> (r: bool)
    ensures
        r == watch_stale(*d),
{
    match &d.current_canonical {
        None => true,
        Some(c) => !str_eq(c.as_str(), d.installed_canonical.as_str()) || match d.identity_changed {
            Some(true) => true,
            _ => false,
        },
    }
}

/// The names whose subscriptions must be reinstalled, in order: the
/// `invalidated` input of the rewire plans.
pub fn invalidated_watches(dirs: &[WatchedDir]) -> (r: Vec<String>)
    ensures
        names_of(r@) == dirs@.filter(|d: WatchedDir| watch_stale(d)).map_values(|d: WatchedDir| d.name@),
{
    let ghost f = |d: WatchedDir| watch_stale(d);
    let ghost g = |d: WatchedDir| d.name@;
    let mut r: Vec<String> = Vec::new();
    let mut i: usize = 0;
    while i < dirs.len()
        invariant
            i <= dirs@.len(),
            f == (|d: WatchedDir| watch_stale(d)),
            g == (|d: WatchedDir| d.name@),
            names_of(r@) == dirs@.take(i as int).filter(f).map_values(g),
        decreases dirs@.len() - i,
    {
        let ghost before = r@;
        proof {
            dirs@.take(i as int).lemma_filter_push(dirs@[i as int], f);
            assert(dirs@.take(i + 1) =~= dirs@.take(i as int).push(dirs@[i as int]));
        }
        if watch_invalidated(&dirs[i]) {
            r.push(owned(dirs[i].name.as_str()));
            assert(f(dirs@[i as int]));
            let ghost kept = dirs@.take(i as int).filter(f);
            assert(dirs@.take(i + 1).filter(f) == kept.push(dirs@[i as int]));
            assert(kept.push(dirs@[i as int]).map_values(g) =~= kept.map_values(g).push(dirs@[i as int].name@));
            assert(names_of(r@) =~= names_of(before).push(dirs@[i as int].name@));
            assert(names_of(r@) =~= dirs@.take(i + 1).filter(f).map_values(g));
        } else {
            assert(names_of(r@) =~= dirs@.take(i + 1).filter(f).map_values(g));
        }
        i = i + 1;
    }
    assert(dirs@.take(dirs@.len() as int) =~= dirs@);
    r
}

} // verus!
