//! Signalling a process group, with a fallback to its members.
//!
//! A group signal that the kernel refuses for lack of permission is retried
//! against each process still in the group, the group leader last. The retry
//! succeeds when any member was signalled, and otherwise reports its first
//! error, if any.

use vstd::prelude::*;

verus! {

/// A failed system call: its `errno`, when there is one, and its text.
#[derive(Debug, Clone, PartialEq, Eq)]
pub struct SignalError {
    pub errno: Option<i32>,
    pub message: String,
}

fn copy_error(e: &SignalError) -> (res: SignalError)
    ensures
        res == *e,
{
    SignalError { errno: e.errno, message: e.message.clone() }
}

/// How signalling a whole group came out.
#[derive(Debug, Clone, PartialEq, Eq)]
pub enum GroupOutcome {
    /// Delivered, or `false` when no such group exists.
    Signalled(bool),
    /// The caller may not signal the group.
    PermissionDenied,
    Failed(SignalError),
}

/// What follows a group signal.
#[derive(Debug, PartialEq, Eq)]
pub enum GroupStep {
    Done(Result<bool, SignalError>),
    /// Retry against the group's members.
    SignalMembers,
}

/// Only a refused group signal falls back to the members.
pub fn after_group_signal(outcome: GroupOutcome) -> (res: GroupStep)
    ensures
        match outcome {
            GroupOutcome::Signalled(b) => res == GroupStep::Done(Ok(b)),
            GroupOutcome::PermissionDenied => res == GroupStep::SignalMembers,
            GroupOutcome::Failed(e) => res == GroupStep::Done(Err(e)),
        },
{
    match outcome {
        GroupOutcome::Signalled(b) => GroupStep::Done(Ok(b)),
        GroupOutcome::PermissionDenied => GroupStep::SignalMembers,
        GroupOutcome::Failed(e) => GroupStep::Done(Err(e)),
    }
}

/// A process group id must be a positive process id.
pub fn process_group_id(id: u32) -> (res: Result<i32, String>)
    ensures
        0 < id <= i32::MAX ==> res == Ok::<i32, String>(id as i32),
        !(0 < id <= i32::MAX) ==> (res matches Err(m) && m@ == "invalid process group ID"@),
{
    if id == 0 || id > i32::MAX as u32 {
        return Err(String::from_str("invalid process group ID"));
    }
    Ok(id as i32)
}

/// The members to signal, in order: every positive id other than the group
/// leader in the order listed, then the leader's.
pub open spec fn member_order(group: i32, ids: Seq<i32>) -> Seq<i32> {
    members_where(group, ids, false) + members_where(group, ids, true)
}

/// The positive ids of `ids`, in order, that are the leader's (`leader`) or
/// not.
pub open spec fn members_where(group: i32, ids: Seq<i32>, leader: bool) -> Seq<i32>
    decreases ids.len(),
{
    if ids.len() == 0 {
        Seq::empty()
    } else {
        let prev = members_where(group, ids.drop_last(), leader);
        let p = ids.last();
        if p > 0 && (p == group) == leader {
            prev.push(p)
        } else {
            prev
        }
    }
}

pub fn order_members(group: i32, ids: &Vec<i32>) -> (res: Vec<i32>)
    ensures
        res@ == member_order(group, ids@),
{
    let mut others: Vec<i32> = Vec::new();
    let mut leaders: Vec<i32> = Vec::new();
    let mut i: usize = 0;
    while i < ids.len()
        invariant
            0 <= i <= ids.len(),
            others@ == members_where(group, ids@.take(i as int), false),
            leaders@ == members_where(group, ids@.take(i as int), true),
        decreases ids.len() - i,
    {
        let p = ids[i];
        proof {
            assert(ids@.take(i + 1).drop_last() =~= ids@.take(i as int));
            assert(ids@.take(i + 1).last() == p);
        }
        if p > 0 && p != group {
            others.push(p);
        } else if p > 0 {
            leaders.push(p);
        }
        i = i + 1;
    }
    assert(ids@.take(i as int) =~= ids@);
    let ghost a = others@;
    let ghost b = leaders@;
    others.append(&mut leaders);
    assert(others@ =~= a + b);
    others
}

/// How one member came out.
#[derive(Debug, Clone, PartialEq, Eq)]
pub enum MemberOutcome {
    /// The process is gone, or has left the group: skipped.
    Skipped,
    /// Looking up its group failed.
    LookupFailed(SignalError),
    /// Signalled: delivered, or `false` when it was already gone.
    Signalled(bool),
    /// Signalling it failed.
    Failed(SignalError),
}

/// Whether any member was signalled.
pub open spec fn any_delivered(outcomes: Seq<MemberOutcome>) -> bool {
    exists|i: int| 0 <= i < outcomes.len() && #[trigger] outcomes[i] == MemberOutcome::Signalled(true)
}

/// The first error among the members.
pub open spec fn first_error(outcomes: Seq<MemberOutcome>) -> Option<SignalError>
    decreases outcomes.len(),
{
    if outcomes.len() == 0 {
        None
    } else {
        match first_error(outcomes.drop_last()) {
            Some(e) => Some(e),
            None => match outcomes.last() {
                MemberOutcome::LookupFailed(e) => Some(e),
                MemberOutcome::Failed(e) => Some(e),
                _ => None,
            },
        }
    }
}

/// The result of signalling the members: success when any was signalled,
/// else the first error, else `false`.
pub fn tally_members(outcomes: &Vec<MemberOutcome>) -> (res: Result<bool, SignalError>)
    ensures
        any_delivered(outcomes@) ==> res == Ok::<bool, SignalError>(true),
        !any_delivered(outcomes@) ==> match first_error(outcomes@) {
            Some(e) => res == Err::<bool, SignalError>(e),
            None => res == Ok::<bool, SignalError>(false),
        },
{
    let mut signalled = false;
    let mut first: Option<SignalError> = None;
    let mut i: usize = 0;
    while i < outcomes.len()
        invariant
            0 <= i <= outcomes.len(),
            signalled == any_delivered(outcomes@.take(i as int)),
            first == first_error(outcomes@.take(i as int)),
        decreases outcomes.len() - i,
    {
        assert(outcomes@.take(i + 1).drop_last() =~= outcomes@.take(i as int));
        assert(outcomes@.take(i + 1).last() == outcomes@[i as int]);
        assert(any_delivered(outcomes@.take(i + 1)) == (any_delivered(outcomes@.take(i as int)) || outcomes@[i as int]
            == MemberOutcome::Signalled(true))) by {
            if outcomes@[i as int] == MemberOutcome::Signalled(true) {
                assert(outcomes@.take(i + 1)[i as int] == MemberOutcome::Signalled(true));
            }
            if any_delivered(outcomes@.take(i as int)) {
                let k = choose|k: int|
                    0 <= k < outcomes@.take(i as int).len() && #[trigger] outcomes@.take(i as int)[k] == MemberOutcome::Signalled(true);
                assert(outcomes@.take(i + 1)[k] == MemberOutcome::Signalled(true));
            }
            if any_delivered(outcomes@.take(i + 1)) {
                let k = choose|k: int|
                    0 <= k < outcomes@.take(i + 1).len() && #[trigger] outcomes@.take(i + 1)[k] == MemberOutcome::Signalled(true);
                if k < i {
                    assert(outcomes@.take(i as int)[k] == MemberOutcome::Signalled(true));
                }
            }
        }
        match &outcomes[i] {
            MemberOutcome::Signalled(delivered) => {
                if *delivered {
                    signalled = true;
                }
            },
            MemberOutcome::LookupFailed(e) => {
                if first.is_none() {
                    first = Some(copy_error(e));
                }
            },
            MemberOutcome::Failed(e) => {
                if first.is_none() {
                    first = Some(copy_error(e));
                }
            },
            MemberOutcome::Skipped => {},
        }
        i = i + 1;
    }
    assert(outcomes@.take(i as int) =~= outcomes@);
    if signalled {
        Ok(true)
    } else {
        match first {
            Some(e) => Err(e),
            None => Ok(false),
        }
    }
}

/// How killing a terminal's child through its own handle came out.
#[derive(Debug, Clone, PartialEq, Eq)]
pub enum ChildKill {
    Killed,
    /// The child was already gone; the error says so.
    Gone(SignalError),
    Failed(SignalError),
}

/// The result of hard-killing a terminal's child. With a known process group
/// the group is killed first and the child's own handle is tried as well, in
/// case the group id is stale: a killed child is success, a child already
/// gone leaves the group's result, and any other failure counts only when the
/// group kill failed too. Without a group only the child's handle counts.
pub fn kill_outcome(group: Option<Result<(), SignalError>>, child: ChildKill) -> (res: Result<(), SignalError>)
    ensures
        res == match group {
            None => match child {
                ChildKill::Killed => Ok::<(), SignalError>(()),
                ChildKill::Gone(e) => Err::<(), SignalError>(e),
                ChildKill::Failed(e) => Err::<(), SignalError>(e),
            },
            Some(g) => match child {
                ChildKill::Killed => Ok::<(), SignalError>(()),
                ChildKill::Gone(_) => g,
                ChildKill::Failed(e) => match g {
                    Ok(()) => Ok::<(), SignalError>(()),
                    Err(_) => Err::<(), SignalError>(e),
                },
            },
        },
{
    match group {
        None => match child {
            ChildKill::Killed => Ok(()),
            ChildKill::Gone(e) => Err(e),
            ChildKill::Failed(e) => Err(e),
        },
        Some(g) => match child {
            ChildKill::Killed => Ok(()),
            ChildKill::Gone(_) => g,
            ChildKill::Failed(e) => match g {
                Ok(()) => Ok(()),
                Err(_) => Err(e),
            },
        },
    }
}

} // verus!
