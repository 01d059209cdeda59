//! Saving the session list against what another process may have written
//! meanwhile: which sessions and groups end up stored, and which rows the
//! list drops because a peer removed them.
use vstd::prelude::*;
use crate::text::{contains_name, names_of, owned};

verus! {

/// `s` without the names in `drop`, in order.
pub open spec fn without(s: Seq<Seq<char>>, drop: Seq<Seq<char>>) -> Seq<Seq<char>>
    decreases s.len(),
{
    if s.len() == 0 {
        s
    } else if drop.contains(s.last()) {
        without(s.drop_last(), drop)
    } else {
        without(s.drop_last(), drop).push(s.last())
    }
}

/// Saving the session ids `listed` (the list's rows, in order) over the
/// ids `stored` on disk, already without the ones deleted here: a row the
/// disk has is merged in place; a row added here this session is appended;
/// any other row was removed by a peer. The result is the stored ids and
/// the peer-removed ids.
pub open spec fn merge_rows(stored: Seq<Seq<char>>, listed: Seq<Seq<char>>, added: Seq<Seq<char>>) -> (
    Seq<Seq<char>>,
    Seq<Seq<char>>,
)
    decreases listed.len(),
{
    if listed.len() == 0 {
        (stored, Seq::empty())
    } else {
        let (st, peer) = merge_rows(stored, listed.drop_last(), added);
        let t = listed.last();
        if st.contains(t) {
            (st, peer)
        } else if added.contains(t) {
            (st.push(t), peer)
        } else {
            (st, peer.push(t))
        }
    }
}

/// What a save writes and what it learns.
pub struct SaveMerge {
    /// The session ids stored on disk after the save, in order.
    pub stored: Vec<String>,
    /// The rows a peer removed meanwhile, which the list drops.
    pub peer_deleted: Vec<String>,
}

fn without_names(s: &[String], drop: &[String]) -> (r: Vec<String>)
    ensures
        names_of(r@) == without(names_of(s@), names_of(drop@)),
{
    let ghost sv = names_of(s@);
    let ghost dv = names_of(drop@);
    let mut r: Vec<String> = Vec::new();
    let mut i: usize = 0;
    while i < s.len()
        invariant
            i <= s@.len(),
            sv == names_of(s@),
            dv == names_of(drop@),
            names_of(r@) == without(sv.take(i as int), dv),
        decreases s@.len() - i,
    {
        assert(sv.take(i + 1).drop_last() =~= sv.take(i as int));
        assert(sv.take(i + 1).last() == s@[i as int]@);
        let v: Vec<char> = crate::text::chars_of(s[i].as_str());
        if !contains_name(drop, &v) {
            let ghost before = r@;
            r.push(owned(s[i].as_str()));
            assert(names_of(r@) =~= names_of(before).push(s@[i as int]@));
        }
        i = i + 1;
    }
    assert(sv.take(s@.len() as int) =~= sv);
    r
}

/// Merges the list's session ids into the disk's for a save: the ids
/// deleted here leave the disk's list; then each listed row is merged when
/// the disk has it, appended when it was added here, and otherwise reported
/// as removed by a peer.
pub fn merge_saved_rows(disk: &[String], deleted: &[String], listed: &[String], added: &[String]) -> (r: SaveMerge)
    ensures
        (names_of(r.stored@), names_of(r.peer_deleted@)) == merge_rows(
            without(names_of(disk@), names_of(deleted@)),
            names_of(listed@),
            names_of(added@),
        ),
{
    let ghost start = without(names_of(disk@), names_of(deleted@));
    let ghost lv = names_of(listed@);
    let ghost av = names_of(added@);
    let mut stored = without_names(disk, deleted);
    let mut peer: Vec<String> = Vec::new();
    let mut i: usize = 0;
    while i < listed.len()
        invariant
            i <= listed@.len(),
            lv == names_of(listed@),
            av == names_of(added@),
            (names_of(stored@), names_of(peer@)) == merge_rows(start, lv.take(i as int), av),
        decreases listed@.len() - i,
    {
        assert(lv.take(i + 1).drop_last() =~= lv.take(i as int));
        assert(lv.take(i + 1).last() == listed@[i as int]@);
        let t: Vec<char> = crate::text::chars_of(listed[i].as_str());
        if contains_name(stored.as_slice(), &t) {
        } else if contains_name(added, &t) {
            let ghost before = stored@;
            stored.push(owned(listed[i].as_str()));
            assert(names_of(stored@) =~= names_of(before).push(lv[i as int]));
        } else {
            let ghost before = peer@;
            peer.push(owned(listed[i].as_str()));
            assert(names_of(peer@) =~= names_of(before).push(lv[i as int]));
        }
        i = i + 1;
    }
    assert(lv.take(listed@.len() as int) =~= lv);
    SaveMerge { stored, peer_deleted: peer }
}

/// The group paths stored after a save: the disk's paths without those
/// deleted here, then each of the list's groups the disk lacks, in order
/// (groups the disk has are updated in place).
pub open spec fn merge_groups(stored: Seq<Seq<char>>, target: Seq<Seq<char>>) -> Seq<Seq<char>>
    decreases target.len(),
{
    if target.len() == 0 {
        stored
    } else {
        let st = merge_groups(stored, target.drop_last());
        if st.contains(target.last()) {
            st
        } else {
            st.push(target.last())
        }
    }
}

/// Merges the list's group paths into the disk's for a save.
pub fn merge_saved_groups(disk: &[String], deleted: &[String], target: &[String]) -> (r: Vec<String>)
    ensures
        names_of(r@) == merge_groups(without(names_of(disk@), names_of(deleted@)), names_of(target@)),
{
    let ghost start = without(names_of(disk@), names_of(deleted@));
    let ghost tv = names_of(target@);
    let mut stored = without_names(disk, deleted);
    let mut i: usize = 0;
    while i < target.len()
        invariant
            i <= target@.len(),
            tv == names_of(target@),
            names_of(stored@) == merge_groups(start, tv.take(i as int)),
        decreases target@.len() - i,
    {
        assert(tv.take(i + 1).drop_last() =~= tv.take(i as int));
        assert(tv.take(i + 1).last() == target@[i as int]@);
        let t: Vec<char> = crate::text::chars_of(target[i].as_str());
        if !contains_name(stored.as_slice(), &t) {
            let ghost before = stored@;
            stored.push(owned(target[i].as_str()));
            assert(names_of(stored@) =~= names_of(before).push(tv[i as int]));
        }
        i = i + 1;
    }
    assert(tv.take(target@.len() as int) =~= tv);
    stored
}

proof fn lemma_without_contains(s: Seq<Seq<char>>, drop: Seq<Seq<char>>, x: Seq<char>)
    ensures
        without(s, drop).contains(x) <==> (s.contains(x) && !drop.contains(x)),
    decreases s.len(),
{
    if s.len() > 0 {
        lemma_without_contains(s.drop_last(), drop, x);
        let w = without(s.drop_last(), drop);
        if s.contains(x) && x != s.last() {
            let k = choose|k: int| 0 <= k < s.len() && s[k] == x;
            assert(s.drop_last()[k] == x);
        }
        if s.drop_last().contains(x) {
            let k = choose|k: int| 0 <= k < s.drop_last().len() && s.drop_last()[k] == x;
            assert(s[k] == x);
        }
        if !drop.contains(s.last()) {
            assert(w.push(s.last())[w.len() as int] == s.last());
            if w.contains(x) {
                let k = choose|k: int| 0 <= k < w.len() && w[k] == x;
                assert(w.push(s.last())[k] == x);
            }
            if w.push(s.last()).contains(x) && x != s.last() {
                let k = choose|k: int| 0 <= k < w.len() + 1 && w.push(s.last())[k] == x;
                assert(w[k] == x);
            }
        }
        if s.contains(x) && x == s.last() {
            assert(s[s.len() - 1] == x);
        }
    }
}

proof fn lemma_merge_rows_contains(stored: Seq<Seq<char>>, listed: Seq<Seq<char>>, added: Seq<Seq<char>>, x: Seq<char>)
    ensures
        merge_rows(stored, listed, added).0.contains(x) <==> (stored.contains(x) || (listed.contains(x)
            && added.contains(x))),
        merge_rows(stored, listed, added).1.contains(x) ==> listed.contains(x) && !stored.contains(x)
            && !added.contains(x),
    decreases listed.len(),
{
    if listed.len() > 0 {
        let l0 = listed.drop_last();
        lemma_merge_rows_contains(stored, l0, added, x);
        let (st, peer) = merge_rows(stored, l0, added);
        let t = listed.last();
        assert(listed[listed.len() - 1] == t);
        if l0.contains(x) {
            let k = choose|k: int| 0 <= k < l0.len() && l0[k] == x;
            assert(listed[k] == x);
        }
        if listed.contains(x) && x != t {
            let k = choose|k: int| 0 <= k < listed.len() && listed[k] == x;
            assert(l0[k] == x);
        }
        if !st.contains(t) && added.contains(t) {
            assert(st.push(t)[st.len() as int] == t);
            if st.contains(x) {
                let k = choose|k: int| 0 <= k < st.len() && st[k] == x;
                assert(st.push(t)[k] == x);
            }
            if st.push(t).contains(x) && x != t {
                let k = choose|k: int| 0 <= k < st.len() + 1 && st.push(t)[k] == x;
                assert(st[k] == x);
            }
        }
        if !st.contains(t) && !added.contains(t) {
            if peer.push(t).contains(x) && x != t {
                let k = choose|k: int| 0 <= k < peer.len() + 1 && peer.push(t)[k] == x;
                assert(peer[k] == x);
            }
        }
    }
}

/// What a save stores: a session ends up on disk exactly when the disk had
/// it and it was not deleted here, or it was added here and is still listed;
/// a row is reported removed by a peer only when the disk lacks it and it
/// was not added here.
pub proof fn law_saved_rows(disk: Seq<Seq<char>>, deleted: Seq<Seq<char>>, listed: Seq<Seq<char>>, added: Seq<Seq<char>>, x: Seq<char>)
    ensures
        merge_rows(without(disk, deleted), listed, added).0.contains(x) <==> ((disk.contains(x)
            && !deleted.contains(x)) || (listed.contains(x) && added.contains(x))),
        merge_rows(without(disk, deleted), listed, added).1.contains(x) ==> listed.contains(x) && !added.contains(x)
            && !(disk.contains(x) && !deleted.contains(x)),
{
    lemma_without_contains(disk, deleted, x);
    lemma_merge_rows_contains(without(disk, deleted), listed, added, x);
}

/// How many profiles a save drains of their pending deletions, additions
/// and group deletions, given in the order the save wrote them whether each
/// write succeeded: those written before the first failure. The failing
/// profile and those after it keep theirs for the next save.
pub open spec fn drained_count(write_ok: Seq<bool>) -> nat
    decreases write_ok.len(),
{
    if write_ok.len() == 0 {
        0
    } else if write_ok[0] {
        1 + drained_count(write_ok.drop_first())
    } else {
        0
    }
}

/// The number of profiles whose pending changes a save drains (see
/// `drained_count`).
pub fn tombstones_to_drain(write_ok: &[bool]) -> (r: usize)
    ensures
        r == drained_count(write_ok@),
{
    let mut i: usize = 0;
    assert(write_ok@.skip(0) =~= write_ok@);
    while i < write_ok.len() && write_ok[i]
        invariant
            i <= write_ok@.len(),
            drained_count(write_ok@) == i + drained_count(write_ok@.skip(i as int)),
        decreases write_ok@.len() - i,
    {
        assert(write_ok@.skip(i as int).drop_first() =~= write_ok@.skip(i + 1));
        i = i + 1;
    }
    proof {
        if i < write_ok.len() {
            assert(write_ok@.skip(i as int)[0] == write_ok@[i as int]);
        }
    }
    i
}

/// A profile whose write failed keeps its pending changes: nothing from it
/// on is drained.
pub proof fn law_failed_write_keeps_tombstones(write_ok: Seq<bool>, k: int)
    requires
        0 <= k < write_ok.len(),
        !write_ok[k],
    ensures
        drained_count(write_ok) <= k,
    decreases k,
{
    if write_ok[0] {
        law_failed_write_keeps_tombstones(write_ok.drop_first(), k - 1);
    }
}

} // verus!
