use vstd::prelude::*;
use crate::fields::same_text;

verus! {

/// Where a file stands against the depot and the workspace.
#[derive(Debug, Clone, Copy, PartialEq, Eq, Structural)]
pub enum FileStatus {
    Synced,
    CheckedOut,
    Added,
    Deleted,
    Modified,
    NotSynced,
    OutOfDate,
}

/// The status of a file from its open action, the revision the workspace has and the
/// head revision.
pub open spec fn status_of(action: Option<Seq<char>>, have_rev: i32, head_rev: i32) -> FileStatus {
    match action {
        Some(a) => if a == "add"@ {
            FileStatus::Added
        } else if a == "delete"@ {
            FileStatus::Deleted
        } else if a == "edit"@ || a == "integrate"@ || a == "branch"@ {
            FileStatus::CheckedOut
        } else {
            FileStatus::Modified
        },
        None => if have_rev == 0 {
            FileStatus::NotSynced
        } else if have_rev < head_rev {
            FileStatus::OutOfDate
        } else {
            FileStatus::Synced
        },
    }
}

/// The name a status goes by.
pub open spec fn status_label(s: FileStatus) -> Seq<char> {
    match s {
        FileStatus::Synced => "synced"@,
        FileStatus::CheckedOut => "checkedOut"@,
        FileStatus::Added => "added"@,
        FileStatus::Deleted => "deleted"@,
        FileStatus::Modified => "modified"@,
        FileStatus::NotSynced => "notSynced"@,
        FileStatus::OutOfDate => "outOfDate"@,
    }
}

impl FileStatus {
    /// The name this status goes by.
    pub fn label(&self) -> (r: String)
        ensures
            r@ == status_label(*self),
    {
        match self {
            FileStatus::Synced => "synced".to_owned(),
            FileStatus::CheckedOut => "checkedOut".to_owned(),
            FileStatus::Added => "added".to_owned(),
            FileStatus::Deleted => "deleted".to_owned(),
            FileStatus::Modified => "modified".to_owned(),
            FileStatus::NotSynced => "notSynced".to_owned(),
            FileStatus::OutOfDate => "outOfDate".to_owned(),
        }
    }
}

/// The status of a file from its open action and revisions.
pub fn derive_status(action: &Option<String>, have_rev: i32, head_rev: i32) -> (r: FileStatus)
    ensures
        r == status_of(action.deep_view(), have_rev, head_rev),
{
    match action {
        Some(a) => {
            if same_text(a.as_str(), "add") {
                FileStatus::Added
            } else if same_text(a.as_str(), "delete") {
                FileStatus::Deleted
            } else if same_text(a.as_str(), "edit") || same_text(a.as_str(), "integrate")
                || same_text(a.as_str(), "branch") {
                FileStatus::CheckedOut
            } else {
                FileStatus::Modified
            }
        },
        None => {
            if have_rev == 0 {
                FileStatus::NotSynced
            } else if have_rev < head_rev {
                FileStatus::OutOfDate
            } else {
                FileStatus::Synced
            }
        },
    }
}

/// The name of the status of a file from its open action and revisions.
pub fn derive_file_status(action: &Option<String>, have_rev: i32, head_rev: i32) -> (r: String)
    ensures
        r@ == status_label(status_of(action.deep_view(), have_rev, head_rev)),
{
    derive_status(action, have_rev, head_rev).label()
}

/// The status depends on the action and the two revisions alone: equal inputs give
/// equal statuses and equal names.
pub proof fn lemma_status_is_a_function(
    a1: Option<Seq<char>>,
    have1: i32,
    head1: i32,
    a2: Option<Seq<char>>,
    have2: i32,
    head2: i32,
)
    requires
        a1 == a2,
        have1 == have2,
        head1 == head2,
    ensures
        status_of(a1, have1, head1) == status_of(a2, have2, head2),
        status_label(status_of(a1, have1, head1)) == status_label(status_of(a2, have2, head2)),
{
}

/// Every status is one of the seven, named by one of seven names, and each of the
/// seven is the status of some action and revisions.
pub proof fn lemma_status_table()
    ensures
        forall|a: Option<Seq<char>>, have: i32, head: i32|
            {
                let l = #[trigger] status_label(status_of(a, have, head));
                l == "synced"@ || l == "checkedOut"@ || l == "added"@ || l == "deleted"@ || l
                    == "modified"@ || l == "notSynced"@ || l == "outOfDate"@
            },
        exists|a: Option<Seq<char>>, have: i32, head: i32| status_of(a, have, head) == FileStatus::Synced,
        exists|a: Option<Seq<char>>, have: i32, head: i32| status_of(a, have, head) == FileStatus::CheckedOut,
        exists|a: Option<Seq<char>>, have: i32, head: i32| status_of(a, have, head) == FileStatus::Added,
        exists|a: Option<Seq<char>>, have: i32, head: i32| status_of(a, have, head) == FileStatus::Deleted,
        exists|a: Option<Seq<char>>, have: i32, head: i32| status_of(a, have, head) == FileStatus::Modified,
        exists|a: Option<Seq<char>>, have: i32, head: i32| status_of(a, have, head) == FileStatus::NotSynced,
        exists|a: Option<Seq<char>>, have: i32, head: i32| status_of(a, have, head) == FileStatus::OutOfDate,
{
    reveal_strlit("add");
    reveal_strlit("delete");
    reveal_strlit("edit");
    reveal_strlit("integrate");
    reveal_strlit("branch");
    let none: Option<Seq<char>> = None;
    assert("edit"@.len() == 4 && "add"@.len() == 3 && "delete"@.len() == 6);
    assert("integrate"@.len() == 9 && "branch"@.len() == 6);
    assert("edit"@ != "add"@ && "edit"@ != "delete"@);
    let e: Seq<char> = Seq::empty();
    assert(e != "add"@ && e != "delete"@ && e != "edit"@ && e != "integrate"@ && e != "branch"@);
    assert(status_of(none, 5, 5) == FileStatus::Synced);
    assert(status_of(Some("edit"@), 1, 1) == FileStatus::CheckedOut);
    assert(status_of(Some("add"@), 0, 0) == FileStatus::Added);
    assert(status_of(Some("delete"@), 1, 1) == FileStatus::Deleted);
    assert(status_of(Some(e), 1, 1) == FileStatus::Modified);
    assert(status_of(none, 0, 1) == FileStatus::NotSynced);
    assert(status_of(none, 1, 2) == FileStatus::OutOfDate);
}

} // verus!
