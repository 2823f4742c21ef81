use iced_layout_inspector::output::truncate_extra;
use iced_layout_inspector::socket::{parse_i32, socket_file_name, socket_path_for, stale_socket_pid};
use iced_layout_inspector::text::decimal_text;

#[test]
fn decimal_text_matches_display() {
    for n in [0usize, 7, 10, 42, 1234567890] {
        assert_eq!(decimal_text(n), n.to_string());
    }
}

#[test]
fn socket_names_carry_the_process_id() {
    assert_eq!(socket_file_name(1234), "iced-debug-1234.sock");
    assert_eq!(socket_path_for(0), "/tmp/iced-debug-0.sock");
    assert_eq!(socket_path_for(u32::MAX), "/tmp/iced-debug-4294967295.sock");
}

#[test]
fn socket_name_round_trips_to_pid() {
    for pid in [0u32, 1, 99, 31337, i32::MAX as u32] {
        assert_eq!(stale_socket_pid(&socket_file_name(pid)), Some(pid as i32));
    }
}

#[test]
fn stale_socket_pid_rejects_other_names() {
    assert_eq!(stale_socket_pid("iced-debug-abc.sock"), None);
    assert_eq!(stale_socket_pid("iced-debug-.sock"), None);
    assert_eq!(stale_socket_pid("other-12.sock"), None);
    assert_eq!(stale_socket_pid("iced-debug-12.socket"), None);
    assert_eq!(stale_socket_pid("iced-debug-2147483648.sock"), None);
    assert_eq!(stale_socket_pid("iced-debug--2147483648.sock"), Some(i32::MIN));
    assert_eq!(stale_socket_pid("iced-debug-+7.sock"), Some(7));
}

#[test]
fn parse_i32_agrees_with_std() {
    for s in ["", "+", "-", "0", "-0", "+12", "007", "12a", " 1", "2147483647", "2147483648",
        "-2147483648", "-2147483649", "99999999999999999999", "١٢"] {
        assert_eq!(parse_i32(s), s.parse::<i32>().ok(), "input {:?}", s);
    }
}

#[test]
fn truncate_extra_keeps_thirty_characters() {
    let thirty = "a".repeat(30);
    assert_eq!(truncate_extra(&thirty), thirty);
    let thirty_one = "b".repeat(31);
    assert_eq!(truncate_extra(&thirty_one), format!("{}...", "b".repeat(27)));
    let wide = "é".repeat(40);
    assert_eq!(truncate_extra(&wide), format!("{}...", "é".repeat(27)));
    assert_eq!(truncate_extra(""), "");
}
