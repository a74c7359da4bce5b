use pika_backup::schedule::{list, Frequency, Schedule, TimeOfDay, Weekday};
use pika_backup::paths::absolute;
use pika_backup::backup::ConfigId;
use pika_backup::prune::{prune_reports_error, untouched_archives, Keep, Prune, PruneResult};
use pika_backup::session::{
    after_unmount, inhibit_action, quit_action, remote_app_running_update, InhibitAction, QuitAction,
};
use pika_backup::status::{
    last_run_status, never_ran_status, running_display, running_status, status_source, Graphic,
    LastLog, LogLevel, Operation, Outcome, Run, StatusSource, Subtitle,
};
use pika_backup::text::{char_is_white_space, trim_str};

#[test]
fn absolute_joins_like_pathbuf() {
    assert_eq!(absolute("/home/u", "docs"), String::from("/home/u/docs"));
    assert_eq!(absolute("/home/u/", "docs"), String::from("/home/u/docs"));
    assert_eq!(absolute("/home/u", ""), String::from("/home/u/"));
    assert_eq!(absolute("/home/u", "/etc"), String::from("/etc"));
    assert_eq!(absolute("", "docs"), String::from("docs"));
    for (home, path) in [("/home/u", "docs"), ("/home/u/", "a/b"), ("/home/u", "/etc"), ("/h", "")] {
        let expected = std::path::Path::new(home).join(path);
        assert_eq!(absolute(home, path), expected.to_str().unwrap());
    }
}

#[test]
fn trim_matches_std() {
    for s in ["  a b  ", "\u{2028}x\u{85}", "", "   ", "\u{feff}x", "x\u{200b}"] {
        assert_eq!(trim_str(s), s.trim());
    }
    for c in ['\t', '\n', ' ', '\u{a0}', '\u{1680}', '\u{2000}', '\u{200a}', '\u{3000}', 'a', '\u{200b}', '\u{feff}', '-'] {
        assert_eq!(char_is_white_space(c), c.is_whitespace());
    }
}

#[test]
fn last_run_status_by_outcome() {
    let s = last_run_status(Outcome::Completed, Some(LogLevel::Info));
    assert_eq!(s.title, "Last backup successful");
    assert_eq!(s.graphic, Graphic::OkIcon(String::from("emblem-default-symbolic")));
    let s = last_run_status(Outcome::Completed, None);
    assert_eq!(s.title, "Last backup successful");
    let s = last_run_status(Outcome::Completed, Some(LogLevel::Warning));
    assert_eq!(s.title, "Last backup completed with warnings");
    assert_eq!(s.graphic, Graphic::WarningIcon(String::from("dialog-warning-symbolic")));
    let s = last_run_status(Outcome::AbortedByUser, Some(LogLevel::Error));
    assert_eq!(s.title, "Last backup aborted");
    assert_eq!(s.graphic, Graphic::WarningIcon(String::from("dialog-warning-symbolic")));
    let s = last_run_status(Outcome::Failed, None);
    assert_eq!(s.title, "Last backup failed");
    assert_eq!(s.graphic, Graphic::ErrorIcon(String::from("dialog-error-symbolic")));
}

#[test]
fn running_and_default_status() {
    assert_eq!(running_status(Run::Init).title, "Preparing backup");
    assert_eq!(running_status(Run::Running).title, "Backup running");
    assert_eq!(running_status(Run::Stalled).title, "Backup destination unresponsive");
    assert_eq!(running_status(Run::Reconnecting).title, "Reconnecting");
    assert_eq!(running_status(Run::Stopping).title, "Stopping backup");
    assert_eq!(running_status(Run::Running).graphic, Graphic::Spinner);
    let (s, sub) = never_ran_status();
    assert_eq!(s.title, "Backup never ran");
    assert_eq!(s.graphic, Graphic::WarningIcon(String::from("dialog-information-symbolic")));
    assert_eq!(sub, "Start by creating your first backup");
}

#[test]
fn inhibit_follows_running_backups() {
    assert_eq!(inhibit_action(true, false), InhibitAction::Inhibit);
    assert_eq!(inhibit_action(true, true), InhibitAction::Keep);
    assert_eq!(inhibit_action(false, true), InhibitAction::Uninhibit);
    assert_eq!(inhibit_action(false, false), InhibitAction::Keep);
}

#[test]
fn remote_app_updates_only_for_its_name() {
    assert_eq!(remote_app_running_update("org.a", "org.a", true), Some(true));
    assert_eq!(remote_app_running_update("org.a", "org.a", false), Some(false));
    assert_eq!(remote_app_running_update("org.a", "org.b", true), None);
}

#[test]
fn schedule_frequencies_on_offer() {
    assert_eq!(
        list(),
        vec![
            Frequency::Hourly,
            Frequency::Daily { preferred_time: TimeOfDay { hour: 0, minute: 0, second: 0 } },
            Frequency::Weekly { preferred_weekday: Weekday::Mon },
            Frequency::Monthly { preferred_day: 1 },
        ]
    );
}

#[test]
fn untouched_archives_counts_the_rest() {
    assert_eq!(untouched_archives(10, 3, 5), 2);
    assert_eq!(untouched_archives(4, 0, 4), 0);
}

#[test]
fn running_display_subtitles() {
    let d = running_display(Run::Running, LastLog::ArchiveProgress, true, true);
    assert_eq!(d.subtitle, Subtitle::Progress { time_left: true });
    assert!(d.show_progress && d.show_stats);
    assert_eq!(d.status.graphic, Graphic::Spinner);
    let d = running_display(Run::Stalled, LastLog::ArchiveProgress, true, true);
    assert_eq!(d.subtitle, Subtitle::Progress { time_left: false });
    let d = running_display(Run::Running, LastLog::ArchiveProgress, false, true);
    assert_eq!(d.subtitle, Subtitle::LastMessage);
    assert!(!d.show_progress && d.show_stats);
    let d = running_display(Run::Reconnecting, LastLog::ArchiveProgress, true, true);
    assert_eq!(d.subtitle, Subtitle::Reconnecting);
    assert_eq!(d.status.title, "Reconnecting");
    assert!(d.show_progress);
    let d = running_display(Run::Reconnecting, LastLog::Nothing, false, false);
    assert_eq!(d.subtitle, Subtitle::Reconnecting);
    let d = running_display(Run::Init, LastLog::Other, true, true);
    assert_eq!(d.subtitle, Subtitle::LastMessage);
    assert!(!d.show_progress && !d.show_stats);
    let d = running_display(Run::Init, LastLog::Nothing, true, true);
    assert_eq!(d.subtitle, Subtitle::Nothing);
}

#[test]
fn status_comes_from_operation_then_last_run() {
    assert_eq!(status_source(Operation::Create, true), StatusSource::Running);
    assert_eq!(status_source(Operation::Other, true), StatusSource::NeverRan);
    assert_eq!(status_source(Operation::Nothing, true), StatusSource::LastRun);
    assert_eq!(status_source(Operation::Nothing, false), StatusSource::NeverRan);
}

#[test]
fn quit_asks_only_while_running() {
    assert_eq!(quit_action(true), QuitAction::AskUser);
    assert_eq!(quit_action(false), QuitAction::Quit);
}

#[test]
fn unmounting_removes_only_on_success() {
    let mounts = vec![ConfigId::new(String::from("a")), ConfigId::new(String::from("b"))];
    let a = ConfigId::new(String::from("a"));
    assert_eq!(after_unmount(&mounts, &a, false), mounts);
    assert_eq!(after_unmount(&mounts, &a, true), vec![ConfigId::new(String::from("b"))]);
    let left = after_unmount(&mounts, &a, true);
    assert!(after_unmount(&left, &ConfigId::new(String::from("b")), true).is_empty());
}

#[test]
fn user_abort_of_pruning_is_no_error() {
    assert!(!prune_reports_error(PruneResult::Done));
    assert!(!prune_reports_error(PruneResult::AbortedByUser));
    assert!(prune_reports_error(PruneResult::Failed));
}

#[test]
fn schedule_and_prune_defaults() {
    let s = Schedule::default();
    assert!(!s.enabled);
    assert_eq!(s.frequency, Frequency::Daily { preferred_time: TimeOfDay { hour: 0, minute: 0, second: 0 } });
    let p = Prune::default();
    assert!(!p.enabled);
    assert_eq!(p.keep, Keep { hourly: 48, daily: 14, weekly: 4, monthly: 12, yearly: 10 });
}
