//! Decisions about the desktop session: keeping it from ending while a backup runs, and
//! following whether another application runs.

use vstd::prelude::*;

use crate::backup::ConfigId;

verus! {

/// What keeps the session from ending while a backup runs.
#[derive(Clone, Copy, Debug, PartialEq, Eq, Structural)]
pub enum InhibitAction {
    /// Ask the session not to log out or suspend.
    Inhibit,
    /// Hand back the request made earlier.
    Uninhibit,
    /// Leave things as they are.
    Keep,
}

/// What to do about inhibiting logout and suspend, given whether a backup runs and whether an
/// inhibition is held: take one while a backup runs, give it back once none does.
pub fn inhibit_action(backup_running: bool, holds_inhibit: bool) -> (r: InhibitAction)
    ensures
        r == (if backup_running && !holds_inhibit {
            InhibitAction::Inhibit
        } else if !backup_running && holds_inhibit {
            InhibitAction::Uninhibit
        } else {
            InhibitAction::Keep
        }),
{
    if backup_running {
        if !holds_inhibit {
            InhibitAction::Inhibit
        } else {
            InhibitAction::Keep
        }
    } else if holds_inhibit {
        InhibitAction::Uninhibit
    } else {
        InhibitAction::Keep
    }
}

/// What a change of owner of the bus name `name` tells about the application `app_id`: whether
/// it now runs, where the name is `app_id`, and nothing otherwise.
pub fn remote_app_running_update(app_id: &str, name: &str, has_new_owner: bool) -> (r: Option<bool>)
    ensures
        r == (if name@ == app_id@ {
            Some(has_new_owner)
        } else {
            None
        }),
{
    let a = String::from_str(app_id);
    let n = String::from_str(name);
    if n == a {
        Some(has_new_owner)
    } else {
        None
    }
}


/// What asking to quit leads to.
#[derive(Clone, Copy, Debug, PartialEq, Eq, Structural)]
pub enum QuitAction {
    /// Ask the user first, since a backup runs.
    AskUser,
    Quit,
}

/// Whether to ask the user before quitting: only while a backup runs.
pub fn quit_action(backup_running: bool) -> (r: QuitAction)
    ensures
        r == (if backup_running {
            QuitAction::AskUser
        } else {
            QuitAction::Quit
        }),
{
    if backup_running {
        QuitAction::AskUser
    } else {
        QuitAction::Quit
    }
}

/// The identifiers of `ids`, as characters.
pub open spec fn id_views(ids: Seq<ConfigId>) -> Seq<Seq<char>> {
    ids.map_values(|c: ConfigId| c@)
}

/// The configurations whose repositories are still mounted after trying to unmount that of
/// `id`: without `id` where that worked, as they were otherwise. Shutting down waits until
/// none is left.
pub fn after_unmount(mounts: &Vec<ConfigId>, id: &ConfigId, unmounted: bool) -> (r: Vec<ConfigId>)
    ensures
        id_views(r@) == if unmounted {
            id_views(mounts@).filter(|m: Seq<char>| m != id@)
        } else {
            id_views(mounts@)
        },
{
    let ghost keep = |m: Seq<char>| m != id@;
    let ghost all = id_views(mounts@);
    let mut left: Vec<ConfigId> = Vec::new();
    let n = mounts.len();
    let mut i: usize = 0;
    assert(all.take(0).filter(keep) =~= Seq::<Seq<char>>::empty());
    assert(id_views(left@) =~= Seq::<Seq<char>>::empty());
    while i < n
        invariant
            i <= n,
            n == mounts@.len(),
            all == id_views(mounts@),
            keep == (|m: Seq<char>| m != id@),
            id_views(left@) == if unmounted {
                all.take(i as int).filter(keep)
            } else {
                all.take(i as int)
            },
        decreases n - i,
    {
        assert(all.take(i + 1) =~= all.take(i as int).push(all[i as int]));
        proof {
            all.take(i as int).lemma_filter_push(all[i as int], keep);
        }
        let ghost before = left@;
        if !unmounted || !(mounts[i] == *id) {
            left.push(ConfigId::new(String::from_str(mounts[i].as_str())));
            assert(id_views(left@) =~= id_views(before).push(all[i as int]));
        }
        i = i + 1;
    }
    assert(all.take(n as int) =~= all);
    left
}

} // verus!
