use mcdebug_launcher::attach::{attach_succeeded, classify_attach_failure, failure_detail_text, FailureKind};
use mcdebug_launcher::capture::pack_rows;
use mcdebug_launcher::client::{
    chat_target, click_button_code, click_op, hold_ticks, hotbar_key_after_scroll, look_mode, port_from_file, to_mc_key,
    world_use_target, DEFAULT_DESPOTES_PORT,
};
use mcdebug_launcher::lifecycle::{stop_step, StopStep};
use mcdebug_launcher::native_loader::AGENT_MANIFEST;
use mcdebug_launcher::options::{ensure_no_pause_on_lost_focus, get_option, set_option};

#[test]
fn test_to_mc_key() {
    assert_eq!(to_mc_key("w"), "key.keyboard.w");
    assert_eq!(to_mc_key("space"), "key.keyboard.space");
    assert_eq!(to_mc_key("escape"), "key.keyboard.escape");
    assert_eq!(to_mc_key("key.keyboard.e"), "key.keyboard.e");
    assert_eq!(to_mc_key("1"), "key.keyboard.1");
}

#[test]
fn friendly_key_aliases() {
    assert_eq!(to_mc_key("Sneak"), "key.keyboard.left.shift");
    assert_eq!(to_mc_key("RETURN"), "key.keyboard.enter");
    assert_eq!(to_mc_key("F3"), "key.keyboard.f3");
}

#[test]
fn port_file_content() {
    assert_eq!(port_from_file(None), DEFAULT_DESPOTES_PORT);
    assert_eq!(port_from_file(Some(" 25592\n")), 25592);
    assert_eq!(port_from_file(Some("70000")), DEFAULT_DESPOTES_PORT);
    assert_eq!(port_from_file(Some("x")), DEFAULT_DESPOTES_PORT);
}

#[test]
fn test_classify_attach_failure_kinds() {
    let not_jvm = "ATTACH_FAILED: com.sun.tools.attach.AttachNotSupportedException: \
                   jvm.dll not loaded by target process";
    assert_eq!(classify_attach_failure(not_jvm), FailureKind::NotJvm);
    assert_eq!(classify_attach_failure("... NoSuchProcessException ..."), FailureKind::NoProcess);
    assert_eq!(classify_attach_failure("java.lang.ModuleNotFoundException: jdk.attach"), FailureKind::NoModule);
    assert_eq!(classify_attach_failure("something else"), FailureKind::Other);
}

#[test]
fn attach_output_handling() {
    assert!(attach_succeeded(true, " OK\n"));
    assert!(!attach_succeeded(false, "OK"));
    assert_eq!(failure_detail_text("out", "err"), "out\nerr");
    assert_eq!(failure_detail_text("  ", "err"), "err");
    assert_eq!(failure_detail_text("out", ""), "out");
}

#[test]
fn test_manifest_has_both_attributes() {
    assert!(AGENT_MANIFEST.contains("Premain-Class: NativeLoaderAgent"));
    assert!(AGENT_MANIFEST.contains("Agent-Class: NativeLoaderAgent"));
    assert!(AGENT_MANIFEST.ends_with("\r\n\r\n"));
}

#[test]
fn test_padding_math() {
    let width: usize = 5;
    let height: usize = 3;
    let row_pitch = 24;
    let row_bytes = width * 4;
    let raw = vec![0u8; row_pitch * height];
    let pixels = pack_rows(&raw, width, height, row_pitch);
    assert_eq!(pixels.len(), row_bytes * height);
}

#[test]
fn padded_rows_drop_padding_bytes() {
    let raw: Vec<u8> = (0..12).collect();
    assert_eq!(pack_rows(&raw, 1, 2, 6), vec![0, 1, 2, 3, 6, 7, 8, 9]);
}

#[test]
fn test_set_and_get_option() {
    let content = "fov:0.5\nrenderDistance:12\n".to_string();
    let content = set_option(&content, "fov", "0.8");
    assert_eq!(get_option(&content, "fov").as_deref(), Some("0.8"));
    assert_eq!(get_option(&content, "renderDistance").as_deref(), Some("12"));
    let content = set_option(&content, "newKey", "value");
    assert_eq!(get_option(&content, "newKey").as_deref(), Some("value"));
    assert_eq!(content, "fov:0.8\nrenderDistance:12\nnewKey:value\n");
}

#[test]
fn test_missing_option_returns_none() {
    assert_eq!(get_option("", "anything"), None);
    assert_eq!(get_option("fov:0.5\n", "other"), None);
}

#[test]
fn test_ensure_pause_on_lost_focus() {
    let created = ensure_no_pause_on_lost_focus(None).unwrap();
    assert_eq!(get_option(&created, "pauseOnLostFocus").as_deref(), Some("false"));
    assert!(ensure_no_pause_on_lost_focus(Some(&created)).is_none());
    let flipped = set_option(&created, "pauseOnLostFocus", "true");
    let fixed = ensure_no_pause_on_lost_focus(Some(&flipped)).unwrap();
    assert_eq!(get_option(&fixed, "pauseOnLostFocus").as_deref(), Some("false"));
}

#[test]
fn stop_procedure_steps() {
    assert_eq!(stop_step(true, true, true, 0), StopStep::Kill);
    assert_eq!(stop_step(false, false, true, 0), StopStep::Kill);
    assert_eq!(stop_step(false, true, false, 3), StopStep::Done);
    assert_eq!(stop_step(false, true, true, 3), StopStep::Wait);
    assert_eq!(stop_step(false, true, true, 20), StopStep::Kill);
}

#[test]
fn input_command_fields() {
    assert_eq!(hold_ticks(0), 1);
    assert_eq!(hold_ticks(50), 1);
    assert_eq!(hold_ticks(130), 2);
    assert_eq!(hold_ticks(1000), 20);
    assert_eq!(click_button_code("left"), 0);
    assert_eq!(click_button_code("right"), 1);
    assert_eq!(click_button_code("middle"), 2);
    assert_eq!(click_op("press"), "press");
    assert_eq!(click_op("release"), "release");
    assert_eq!(click_op("tap"), "click");
    assert_eq!(world_use_target("right"), "useItem");
    assert_eq!(world_use_target("middle"), "pickBlock");
    assert_eq!(world_use_target("left"), "attack");
    assert_eq!(chat_target("/gamemode creative"), "command");
    assert_eq!(chat_target("hello"), "chat");
    assert_eq!(chat_target(""), "chat");
    assert_eq!(look_mode(true), "delta");
    assert_eq!(look_mode(false), "absolute");
}

#[test]
fn scroll_wraps_around_the_hotbar() {
    // Slot 0, wheel up one step: previous slot wraps to the ninth.
    assert_eq!(hotbar_key_after_scroll(0, -1), 9);
    // Slot 3, wheel down two steps.
    assert_eq!(hotbar_key_after_scroll(3, 2), 6);
    assert_eq!(hotbar_key_after_scroll(8, 1), 1);
    assert_eq!(hotbar_key_after_scroll(4, -22), 1);
}
