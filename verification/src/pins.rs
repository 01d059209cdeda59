//! Pinning a project header in project view: whether a header reads as
//! pinned, and what the pin toggle does to the project registry.
use vstd::prelude::*;
use crate::text::{owned, str_eq};

verus! {

/// A saved project, with what the header matching needs of its path.
pub struct RegisteredProject {
    /// The path the project was saved with.
    pub path: String,
    /// The canonical form of that path.
    pub key: String,
    /// The header label of that path (its last component).
    pub label: String,
    /// Whether its header stays in project view without sessions.
    pub pinned: bool,
}

/// Whether a saved project backs a header: by canonical repo path when the
/// header has sessions (`header_path`), by label for an empty header.
pub open spec fn backs_header(p: RegisteredProject, label: Seq<char>, header_path: Option<Seq<char>>) -> bool {
    match header_path {
        Some(h) => p.key@ == h,
        None => p.label@ == label,
    }
}

/// A header reads as pinned when a pinned saved project backs it.
pub open spec fn header_pinned(projects: Seq<RegisteredProject>, label: Seq<char>, header_path: Option<Seq<char>>) -> bool {
    exists|i: int| 0 <= i < projects.len() && projects[i].pinned && backs_header(projects[i], label, header_path)
}

/// The first saved project from `j` on that backs the header, or -1.
pub open spec fn first_backing(
    projects: Seq<RegisteredProject>,
    label: Seq<char>,
    header_path: Option<Seq<char>>,
    j: nat,
) -> int
    decreases projects.len() - j,
{
    if j >= projects.len() {
        -1
    } else if backs_header(projects[j as int], label, header_path) {
        j as int
    } else {
        first_backing(projects, label, header_path, j + 1)
    }
}

proof fn lemma_first_backing(projects: Seq<RegisteredProject>, label: Seq<char>, header_path: Option<Seq<char>>, j: nat)
    ensures
        first_backing(projects, label, header_path, j) == -1 ==> forall|i: int|
            j <= i < projects.len() ==> !backs_header(#[trigger] projects[i], label, header_path),
        first_backing(projects, label, header_path, j) != -1 ==> j <= first_backing(
            projects,
            label,
            header_path,
            j,
        ) < projects.len() && backs_header(
            projects[first_backing(projects, label, header_path, j)],
            label,
            header_path,
        ),
    decreases projects.len() - j,
{
    if j < projects.len() && !backs_header(projects[j as int], label, header_path) {
        lemma_first_backing(projects, label, header_path, j + 1);
    }
}

fn backs(p: &RegisteredProject, label: &str, header_path: Option<&str>) -> (r: bool)
    ensures
        r == backs_header(*p, label@, match header_path {
            Some(h) => Some(h@),
            None => None,
        }),
{
    match header_path {
        Some(h) => str_eq(p.key.as_str(), h),
        None => str_eq(p.label.as_str(), label),
    }
}

/// Whether the header `label` reads as pinned; `header_path` is the
/// canonical repo path of its sessions, `None` for an empty header.
pub fn is_label_pinned(projects: &[RegisteredProject], label: &str, header_path: Option<&str>) -> (r: bool)
    ensures
        r == header_pinned(projects@, label@, match header_path {
            Some(h) => Some(h@),
            None => None,
        }),
{
    let ghost hp = match header_path {
        Some(h) => Some(h@),
        None => None::<Seq<char>>,
    };
    let mut i: usize = 0;
    while i < projects.len()
        invariant
            i <= projects@.len(),
            hp == match header_path {
                Some(h) => Some(h@),
                None => None::<Seq<char>>,
            },
            forall|k: int| 0 <= k < i ==> !(projects@[k].pinned && backs_header(#[trigger] projects@[k], label@, hp)),
        decreases projects@.len() - i,
    {
        if projects[i].pinned && backs(&projects[i], label, header_path) {
            return true;
        }
        i = i + 1;
    }
    false
}

/// What the pin toggle does.
#[derive(Debug, Clone, PartialEq, Eq)]
pub enum PinToggle {
    /// Clear the pin of the saved project with this path.
    Unpin(String),
    /// Set the pin of the saved project at this canonical path.
    PinSaved(String),
    /// Save a new project with this label and path, pinned.
    RegisterPinned { label: String, path: String },
    /// Nothing to do.
    Nothing,
}

/// The pin toggle on a project header: a pinned header unpins the first
/// saved project that backs it; an unpinned header with sessions pins its
/// repo, flipping the flag of a saved project already at that path or
/// saving it pinned; an unpinned empty header does nothing.
pub fn pin_toggle(projects: &[RegisteredProject], label: &str, header_path: Option<&str>) -> (r: PinToggle)
    ensures
        ({
            let hp = match header_path {
                Some(h) => Some(h@),
                None => None,
            };
            if header_pinned(projects@, label@, hp) {
                let i = first_backing(projects@, label@, hp, 0);
                i >= 0 && (r matches PinToggle::Unpin(p) && p@ == projects@[i].path@)
            } else {
                match header_path {
                    None => r == PinToggle::Nothing,
                    Some(h) => if exists|i: int| 0 <= i < projects@.len() && #[trigger] projects@[i].key@ == h@ {
                        r matches PinToggle::PinSaved(p) && p@ == h@
                    } else {
                        r matches PinToggle::RegisterPinned { label: l, path: p } && l@ == label@ && p@ == h@
                    },
                }
            }
        }),
{
    let ghost hp = match header_path {
        Some(h) => Some(h@),
        None => None::<Seq<char>>,
    };
    if is_label_pinned(projects, label, header_path) {
        proof {
            lemma_first_backing(projects@, label@, hp, 0);
        }
        let mut i: usize = 0;
        while i < projects.len()
            invariant
                i <= projects@.len(),
                hp == match header_path {
                    Some(h) => Some(h@),
                    None => None::<Seq<char>>,
                },
                first_backing(projects@, label@, hp, 0) == first_backing(projects@, label@, hp, i as nat),
                header_pinned(projects@, label@, hp),
            decreases projects@.len() - i,
        {
            if backs(&projects[i], label, header_path) {
                return PinToggle::Unpin(owned(projects[i].path.as_str()));
            }
            i = i + 1;
        }
        proof {
            let k = choose|k: int| 0 <= k < projects@.len() && projects@[k].pinned && backs_header(projects@[k], label@, hp);
            lemma_first_backing(projects@, label@, hp, i as nat);
            assert(backs_header(projects@[k], label@, hp));
        }
        return PinToggle::Nothing;
    }
    match header_path {
        None => PinToggle::Nothing,
        Some(h) => {
            let mut i: usize = 0;
            while i < projects.len()
                invariant
                    i <= projects@.len(),
                    hp == Some(h@),
                    header_path == Some(h),
                    !header_pinned(projects@, label@, hp),
                    forall|k: int| 0 <= k < i ==> (#[trigger] projects@[k]).key@ != h@,
                decreases projects@.len() - i,
            {
                if str_eq(projects[i].key.as_str(), h) {
                    assert(projects@[i as int].key@ == h@);
                    return PinToggle::PinSaved(owned(h));
                }
                i = i + 1;
            }
            PinToggle::RegisterPinned { label: owned(label), path: owned(h) }
        },
    }
}

} // verus!
