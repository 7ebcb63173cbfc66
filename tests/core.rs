use streamvault::capture::{capture_args, capture_tool, watch_url};
use streamvault::control::{
    add_subscriber, parse_command, remove_subscriber, reply_text, subscribers_text, ControlCommand,
    ControlOutcome,
};
use streamvault::live_state::{
    BroadcastInfo, CaptureKind, EntityLiveState, Phase, ProviderError, TaskStatus,
};
use streamvault::naming::{build_paths, today, CaptureDate};
use streamvault::provider::{
    channel_id_from_items, channel_search_url, live_broadcast_from_items, live_search_url,
    LiveSearchItem,
};
use streamvault::registry::{Registry, RegistryError, Streamer};
use streamvault::sanitize::sanitize_filename;
use streamvault::scheduler::Scheduler;

fn live(id: &str, title: &str) -> Result<Option<BroadcastInfo>, ProviderError> {
    Ok(Some(BroadcastInfo { broadcast_id: id.to_string(), title: title.to_string() }))
}

fn row(id: i64, name: &str, cid: &str) -> Streamer {
    Streamer { id, name: name.to_string(), channel_id: cid.to_string() }
}

#[test]
fn sanitize_replaces_punctuation() {
    assert_eq!(sanitize_filename("Late Night: Q&A!!"), "Late Night Q A");
}

#[test]
fn sanitize_trims_and_collapses() {
    assert_eq!(sanitize_filename("  a   b\t\tc  "), "a b c");
    assert_eq!(sanitize_filename(""), "");
    assert_eq!(sanitize_filename("!!!"), "");
    assert_eq!(sanitize_filename("Café 日本 42"), "Café 日本 42");
}

#[test]
fn sanitize_twice_is_once() {
    for s in ["Late Night: Q&A!!", "  x--y  ", "a\u{00a0}b", "", "tab\there"] {
        let once = sanitize_filename(s);
        assert_eq!(sanitize_filename(&once), once);
        assert!(!once.starts_with(' ') && !once.ends_with(' ') && !once.contains("  "));
        assert!(once.chars().all(|c| c == ' ' || c.is_alphanumeric()));
    }
}

#[test]
fn registry_add_then_duplicate() {
    let mut reg = Registry::new();
    assert_eq!(reg.add_streamer("AliceGaming", "UC123"), Ok(1));
    let rows = reg.get_streamers();
    assert_eq!(rows.len(), 1);
    assert_eq!(rows[0].name, "AliceGaming");
    assert_eq!(rows[0].channel_id, "UC123");
    assert_eq!(reg.add_streamer("AliceClone", "UC123"), Err(RegistryError::AlreadyExists));
    let rows = reg.get_streamers();
    assert_eq!(rows.len(), 1);
    assert_eq!(rows[0].name, "AliceGaming");
}

#[test]
fn registry_remove() {
    let mut reg = Registry::new();
    reg.add_streamer("a", "UC1").unwrap();
    reg.add_streamer("b", "UC2").unwrap();
    assert!(!reg.remove_streamer("UC9"));
    assert_eq!(reg.len(), 2);
    assert!(reg.remove_streamer("UC1"));
    assert!(!reg.remove_streamer("UC1"));
    let rows = reg.get_streamers();
    assert_eq!(rows.len(), 1);
    assert_eq!(rows[0].channel_id, "UC2");
    assert_eq!(reg.add_streamer("c", "UC1"), Ok(3));
}

#[test]
fn registry_restore() {
    let mut reg = Registry::new();
    assert_eq!(reg.restore_streamer(row(7, "a", "UC1")), Ok(()));
    assert_eq!(reg.restore_streamer(row(8, "b", "UC1")), Err(RegistryError::AlreadyExists));
    assert_eq!(reg.restore_streamer(row(7, "b", "UC2")), Err(RegistryError::DuplicateId));
    assert_eq!(reg.restore_streamer(row(i64::MAX, "b", "UC2")), Err(RegistryError::IdsExhausted));
    assert_eq!(reg.add_streamer("b", "UC2"), Ok(8));
    assert_eq!(reg.restore_streamer(row(i64::MAX - 1, "c", "UC3")), Ok(()));
    assert_eq!(reg.add_streamer("d", "UC4"), Err(RegistryError::IdsExhausted));
    assert_eq!(reg.len(), 3);
}

#[test]
fn paths_for_scenario() {
    let date = CaptureDate::new(2026, 10, 19).unwrap();
    let p = build_paths("/home/u/streamvault", "AliceGaming", "Late Night: Q&A!!", &date);
    assert_eq!(p.media_path, "/home/u/streamvault/AliceGaming/Late Night Q A-2026-10-19.mp4");
    assert_eq!(
        p.transcript_path,
        "/home/u/streamvault/AliceGaming/Late Night Q A-2026-10-19-chat.json"
    );
    let early = CaptureDate::new(7, 1, 2).unwrap();
    let p = build_paths("b", "n", "t", &early);
    assert_eq!(p.media_path, "b/n/t-0007-01-02.mp4");
}

#[test]
fn capture_date_range() {
    assert!(CaptureDate::new(2026, 13, 1).is_none());
    assert!(CaptureDate::new(2026, 0, 1).is_none());
    assert!(CaptureDate::new(2026, 1, 32).is_none());
    assert!(CaptureDate::new(10000, 1, 1).is_none());
    assert!(CaptureDate::new(-1, 1, 1).is_none());
    let d = today().unwrap();
    assert!(d.year >= 2024 && (1..=12).contains(&d.month) && (1..=31).contains(&d.day));
}

#[test]
fn still_live_is_not_dispatched_again() {
    let snap = vec![row(1, "AliceGaming", "UC123")];
    let mut s = Scheduler::new();
    let mut count = 0;
    for _ in 0..5 {
        count += s.plan_tick(&snap, &vec![live("vid1", "Late Night: Q&A!!")]).len();
    }
    assert_eq!(count, 1);
    assert_eq!(s.phase_of(1), Phase::Capturing);
}

#[test]
fn dispatch_carries_broadcast() {
    let snap = vec![row(1, "AliceGaming", "UC123"), row(2, "Bob", "UC9")];
    let mut s = Scheduler::new();
    let d = s.plan_tick(&snap, &vec![Ok(None), live("vid1", "T")]);
    assert_eq!(d.len(), 1);
    assert_eq!(d[0].entity_id, 2);
    assert_eq!(d[0].name, "Bob");
    assert_eq!(d[0].broadcast.broadcast_id, "vid1");
    assert_eq!(d[0].broadcast.title, "T");
    assert_eq!(s.phase_of(1), Phase::Idle);
}

#[test]
fn provider_error_leaves_state() {
    let snap = vec![row(1, "a", "UC1")];
    let mut s = Scheduler::new();
    s.plan_tick(&snap, &vec![live("vid1", "T")]);
    assert!(s.plan_tick(&snap, &vec![Err(ProviderError::Unavailable)]).is_empty());
    assert_eq!(s.phase_of(1), Phase::Capturing);
    let mut idle = Scheduler::new();
    assert!(idle.plan_tick(&snap, &vec![Err(ProviderError::Unavailable)]).is_empty());
    assert_eq!(idle.phase_of(1), Phase::Idle);
}

#[test]
fn new_broadcast_after_completion() {
    let snap = vec![row(1, "a", "UC1")];
    let mut s = Scheduler::new();
    assert_eq!(s.plan_tick(&snap, &vec![live("vid1", "T")]).len(), 1);
    assert!(!s.complete(1, CaptureKind::Media, true));
    assert_eq!(s.plan_tick(&snap, &vec![live("vid1", "T")]).len(), 0);
    assert!(s.complete(1, CaptureKind::Transcript, true));
    assert_eq!(s.plan_tick(&snap, &vec![Ok(None)]).len(), 0);
    let d = s.plan_tick(&snap, &vec![live("vid2", "U")]);
    assert_eq!(d.len(), 1);
    assert_eq!(d[0].broadcast.broadcast_id, "vid2");
}

#[test]
fn one_task_failing_does_not_block_idle() {
    let mut st = EntityLiveState::new(4);
    assert!(st.observe(&live("vid1", "T")));
    assert!(!st.report(CaptureKind::Media, false));
    assert_eq!(st.status(CaptureKind::Media), TaskStatus::Failed);
    assert_eq!(st.status(CaptureKind::Transcript), TaskStatus::Running);
    assert_eq!(st.phase(), Phase::Capturing);
    assert_eq!(st.active_broadcast_id(), Some("vid1".to_string()));
    assert!(st.report(CaptureKind::Transcript, true));
    assert_eq!(st.status(CaptureKind::Transcript), TaskStatus::Succeeded);
    assert_eq!(st.phase(), Phase::Idle);
    assert_eq!(st.active_broadcast_id(), None);
    assert!(!st.report(CaptureKind::Transcript, true));
}

#[test]
fn removed_channel_loses_state() {
    let mut s = Scheduler::new();
    s.plan_tick(&vec![row(1, "a", "UC1")], &vec![live("vid1", "T")]);
    s.plan_tick(&vec![], &vec![]);
    assert_eq!(s.phase_of(1), Phase::Idle);
    assert!(!s.complete(1, CaptureKind::Media, true));
}

#[test]
fn live_search_answers() {
    let item = |id: Option<&str>, content: &str| LiveSearchItem {
        video_id: id.map(|s| s.to_string()),
        title: "T".to_string(),
        live_broadcast_content: content.to_string(),
    };
    let r = live_broadcast_from_items(&vec![item(Some("v1"), "live")]).unwrap().unwrap();
    assert_eq!(r.broadcast_id, "v1");
    assert_eq!(r.title, "T");
    assert!(live_broadcast_from_items(&vec![item(Some("v1"), "upcoming")]).unwrap().is_none());
    assert!(live_broadcast_from_items(&vec![]).unwrap().is_none());
    assert_eq!(
        live_broadcast_from_items(&vec![item(None, "live")]).unwrap_err(),
        ProviderError::Unavailable
    );
}

#[test]
fn channel_search_answers() {
    assert_eq!(channel_id_from_items(&vec![]), Err(ProviderError::NotFound));
    assert_eq!(
        channel_id_from_items(&vec!["UC1".to_string(), "UC2".to_string()]),
        Ok("UC1".to_string())
    );
}

#[test]
fn request_urls() {
    assert_eq!(
        live_search_url("UC1", "k"),
        "https://www.googleapis.com/youtube/v3/search?part=id,snippet&channelId=UC1&eventType=live&type=video&key=k"
    );
    assert_eq!(
        channel_search_url("Alice", "k"),
        "https://www.googleapis.com/youtube/v3/search?part=id,snippet&maxResults=1&q=Alice&type=channel&key=k"
    );
}

#[test]
fn control_commands() {
    assert_eq!(parse_command("subscribers"), ControlCommand::ListSubscribers);
    assert_eq!(parse_command("add_subscriber"), ControlCommand::AddSubscriber);
    assert_eq!(parse_command("remove_subscriber"), ControlCommand::RemoveSubscriber);
    assert_eq!(parse_command("other"), ControlCommand::Unknown);
    assert_eq!(subscribers_text(&vec![]), "No subscribers found.");
    assert_eq!(
        subscribers_text(&vec![row(1, "A", "UC1"), row(2, "B", "UC2")]),
        "[A](https://youtube.com/@A) - UC1\n[B](https://youtube.com/@B) - UC2"
    );
}

#[test]
fn control_add_and_remove() {
    let mut reg = Registry::new();
    let r = add_subscriber(&mut reg, "Alice", &Ok("UC1".to_string()));
    assert_eq!(
        reply_text(&r),
        "Successfully added subscriber: Alice (UC1). Their live streams will now be recorded."
    );
    let r = add_subscriber(&mut reg, "Alice", &Ok("UC1".to_string()));
    assert!(matches!(r, ControlOutcome::AddFailed(RegistryError::AlreadyExists)));
    assert_eq!(
        reply_text(&r),
        "Failed to add subscriber to database: the channel is already tracked"
    );
    let r = add_subscriber(&mut reg, "Zed", &Err(ProviderError::NotFound));
    assert_eq!(reply_text(&r), "Failed to get channel ID: No channel found with name: Zed");
    assert_eq!(reg.len(), 1);
    let r = remove_subscriber(&mut reg, "Bob", &Ok("UC9".to_string()));
    assert_eq!(
        reply_text(&r),
        "No subscriber could be removed with the name: Bob. Please check the name and try again."
    );
    let r = remove_subscriber(&mut reg, "Alice", &Ok("UC1".to_string()));
    assert_eq!(
        reply_text(&r),
        "Successfully removed subscriber: Alice (UC1). Their live streams will no longer be recorded."
    );
    assert_eq!(reg.len(), 0);
    let r = remove_subscriber(&mut reg, "Alice", &Err(ProviderError::Unavailable));
    assert_eq!(reply_text(&r), "Failed to get channel ID: the provider is unavailable");
}

#[test]
fn sanitize_keeps_every_letter() {
    let title = "Ünïcode—Stream #7: “Live”";
    let kept: String = sanitize_filename(title).chars().filter(|c| *c != ' ').collect();
    let expected: String = title.chars().filter(|c| c.is_alphanumeric()).collect();
    assert_eq!(kept, expected);
    assert_eq!(sanitize_filename(title), "Ünïcode Stream 7 Live");
}

#[test]
fn fixed_replies() {
    assert_eq!(
        reply_text(&ControlOutcome::MissingName),
        "Invalid command usage. Please provide the YouTube channel name."
    );
    assert_eq!(reply_text(&ControlOutcome::NotImplemented), "Not implemented");
}

#[test]
fn capture_command_lines() {
    assert_eq!(watch_url("vid1"), "https://www.youtube.com/watch?v=vid1");
    assert_eq!(capture_tool(CaptureKind::Media), "yt-dlp");
    assert_eq!(capture_tool(CaptureKind::Transcript), "chat_downloader");
    assert_eq!(
        capture_args(CaptureKind::Media, "vid1", "/o/a.mp4"),
        vec!["--format", "best", "--output", "/o/a.mp4", "https://www.youtube.com/watch?v=vid1"]
    );
    assert_eq!(
        capture_args(CaptureKind::Transcript, "vid1", "/o/a-chat.json"),
        vec!["https://www.youtube.com/watch?v=vid1", "--output", "/o/a-chat.json"]
    );
}

#[test]
fn listed_rows_have_distinct_channels() {
    let mut reg = Registry::new();
    reg.add_streamer("a", "UC1").unwrap();
    assert!(reg.add_streamer("a2", "UC1").is_err());
    reg.add_streamer("b", "UC2").unwrap();
    let rows = reg.get_streamers();
    assert_eq!(rows.len(), 2);
    assert_ne!(rows[0].channel_id, rows[1].channel_id);
    assert_ne!(rows[0].id, rows[1].id);
}
