use contextpad::launch::filter_launch_args;
use contextpad::launch::open_files_event;
use contextpad::launch::plan_cold_start;
use contextpad::launch::plan_second_instance;
use contextpad::launch::OPEN_FILES_DELAY_MS;

fn strings(xs: &[&str]) -> Vec<String> {
    xs.iter().map(|s| s.to_string()).collect()
}

#[test]
fn flags_and_absent_paths_are_dropped_in_order() {
    let args = strings(&["--flag", "/existing/file.txt", "/nonexistent/file.txt", "-x"]);
    let present = vec![false, true, false, false];
    let kept = filter_launch_args(&args, &present);
    assert_eq!(kept, strings(&["/existing/file.txt"]));
}

#[test]
fn a_present_flag_is_still_dropped() {
    let args = strings(&["-v"]);
    let present = vec![true];
    assert!(filter_launch_args(&args, &present).is_empty());
}

#[test]
fn argument_order_is_preserved() {
    let args = strings(&["/b.txt", "/a.txt", "/c.txt"]);
    let present = vec![true, true, true];
    let kept = filter_launch_args(&args, &present);
    assert_eq!(kept, strings(&["/b.txt", "/a.txt", "/c.txt"]));
}

#[test]
fn cold_start_with_no_surviving_path_schedules_nothing() {
    let argv = strings(&["contextpad", "--verbose"]);
    let present = vec![true, false];
    assert!(plan_cold_start(&argv, &present).is_none());
}

#[test]
fn cold_start_schedules_delayed_emission() {
    let argv = strings(&["contextpad", "/existing/file.txt"]);
    let present = vec![true, true];
    let plan = plan_cold_start(&argv, &present).expect("a path survived");
    assert_eq!(plan.delay_ms, OPEN_FILES_DELAY_MS);
    assert_eq!(plan.delay_ms, 500);
    assert_eq!(plan.open_paths, strings(&["/existing/file.txt"]));
}

#[test]
fn second_instance_emits_and_focuses_without_delay() {
    let argv = strings(&["contextpad", "/existing/file.txt"]);
    let present = vec![true, true];
    let directive = plan_second_instance(&argv, &present);
    assert!(directive.emit_open_files);
    assert_eq!(directive.open_paths, strings(&["/existing/file.txt"]));
    assert!(directive.focus_main_window);
}

#[test]
fn second_instance_without_paths_still_focuses() {
    let argv = strings(&["contextpad", "-h"]);
    let present = vec![true, false];
    let directive = plan_second_instance(&argv, &present);
    assert!(!directive.emit_open_files);
    assert!(directive.open_paths.is_empty());
    assert!(directive.focus_main_window);
}

#[test]
fn executable_path_itself_is_never_routed() {
    let argv = strings(&["/usr/bin/contextpad"]);
    let present = vec![true];
    let directive = plan_second_instance(&argv, &present);
    assert!(directive.open_paths.is_empty());
}

#[test]
fn event_channel_name() {
    assert_eq!(open_files_event(), "open-files");
}
