use img_rename::logfmt::{log_file_name, log_line};
use img_rename::stamp::LocalStamp;

#[test]
fn log_file_name_for_day() {
    let st = LocalStamp { year: 2024, month: 3, day: 9, hour: 1, minute: 2, second: 3, nanosecond: 0 };
    assert_eq!(log_file_name(&st), "logs/2024-03-09.log");
}

#[test]
fn log_line_layout() {
    let st = LocalStamp { year: 2024, month: 11, day: 30, hour: 7, minute: 8, second: 9, nanosecond: 5 };
    assert_eq!(
        log_line(&st, "img_rename", "WARN", "notes.txt skipped"),
        "[2024-11-30][07:08:09][img_rename][WARN] notes.txt skipped"
    );
}

#[test]
fn log_line_in_leap_second() {
    let st = LocalStamp { year: 2016, month: 12, day: 31, hour: 23, minute: 59, second: 59, nanosecond: 1_000_000_000 };
    assert_eq!(log_line(&st, "t", "INFO", ""), "[2016-12-31][23:59:60][t][INFO] ");
}

#[test]
fn log_files_differ_by_day() {
    let a = LocalStamp { year: 2024, month: 3, day: 9, hour: 23, minute: 59, second: 59, nanosecond: 0 };
    let b = LocalStamp { year: 2024, month: 3, day: 10, hour: 0, minute: 0, second: 0, nanosecond: 0 };
    let c = LocalStamp { year: 2024, month: 3, day: 9, hour: 0, minute: 0, second: 1, nanosecond: 0 };
    assert_ne!(log_file_name(&a), log_file_name(&b));
    assert_eq!(log_file_name(&a), log_file_name(&c));
}
