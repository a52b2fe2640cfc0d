use swb::playback::{
    comm_spec_json, game_filename, launch_comm_spec, mirror_command, Timestamp, COMMAND_ID_LEN,
};

fn ts(
    year: i32,
    month: u8,
    day: u8,
    hour: u8,
    minute: u8,
    second: u8,
) -> Timestamp {
    Timestamp { year, month, day, hour, minute, second }
}

#[test]
fn game_filename_is_timestamped() {
    let name = game_filename(ts(2024, 1, 2, 3, 4, 5)).unwrap();
    assert_eq!(name, "Game_20240102030405.slp");
    let name = game_filename(ts(1999, 12, 31, 23, 59, 59)).unwrap();
    assert_eq!(name, "Game_19991231235959.slp");
}

#[test]
fn game_filenames_differ_across_seconds() {
    let a = game_filename(ts(2024, 6, 1, 10, 0, 0)).unwrap();
    let b = game_filename(ts(2024, 6, 1, 10, 0, 1)).unwrap();
    assert_ne!(a, b);
}

#[test]
fn out_of_range_year_is_refused() {
    assert!(game_filename(ts(-1, 1, 1, 0, 0, 0)).is_none());
    assert!(game_filename(ts(10000, 1, 1, 0, 0, 0)).is_none());
}

#[test]
fn comm_spec_document_shape() {
    let doc = comm_spec_json("abc", Some("/tmp/Game_1.slp"));
    assert_eq!(
        doc,
        "{\"mode\":\"mirror\",\"commandId\":\"abc\",\"replay\":\"/tmp/Game_1.slp\"}"
    );
    // a well-formed JSON document in serde_json's eyes
    let v: serde_json::Value = serde_json::from_str(&doc).unwrap();
    assert_eq!(v["mode"], "mirror");
    assert_eq!(v["commandId"], "abc");
    assert_eq!(v["replay"], "/tmp/Game_1.slp");
}

#[test]
fn comm_spec_escapes_special_characters() {
    let doc = comm_spec_json("id", Some("C:\\Games\\\"melee\"\n"));
    let v: serde_json::Value = serde_json::from_str(&doc).unwrap();
    assert_eq!(v["replay"], "C:\\Games\\\"melee\"\n");
    let doc = comm_spec_json("id", Some("tab\there\u{1}"));
    let v: serde_json::Value = serde_json::from_str(&doc).unwrap();
    assert_eq!(v["replay"], "tab\there\u{1}");
}

#[test]
fn launch_spec_names_no_replay() {
    let doc = launch_comm_spec();
    assert_eq!(doc, "{\"mode\":\"mirror\",\"commandId\":\"0\"}");
    let v: serde_json::Value = serde_json::from_str(&doc).unwrap();
    assert_eq!(v["mode"], "mirror");
    assert!(v.get("replay").is_none());
}

#[test]
fn mirror_commands_carry_fresh_alphanumeric_ids() {
    let a = mirror_command("/tmp/Game_a.slp");
    let b = mirror_command("/tmp/Game_b.slp");
    assert_eq!(a.command_id.len(), COMMAND_ID_LEN);
    assert_eq!(b.command_id.len(), COMMAND_ID_LEN);
    assert!(a.command_id.chars().all(|c| c.is_ascii_alphanumeric()));
    assert_ne!(a.command_id, b.command_id);
    let v: serde_json::Value = serde_json::from_str(&a.comm_spec).unwrap();
    assert_eq!(v["mode"], "mirror");
    assert_eq!(v["commandId"], a.command_id.as_str());
    assert_eq!(v["replay"], "/tmp/Game_a.slp");
}

#[test]
fn local_clock_fields_are_in_range() {
    let t = swb::playback::local_timestamp();
    assert!((1..=12).contains(&t.month));
    assert!((1..=31).contains(&t.day));
    assert!(t.hour < 24);
    assert!(t.minute < 60);
    assert!(t.second < 60);
    assert!(game_filename(t).is_some());
}
