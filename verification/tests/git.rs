use sendit::{parse_commit_log, parse_shortstat};

#[test]
fn parse_commit_log_basic() {
    let raw = "a1b2c3d Add the widget loader\nd4e5f6a Wire widgets in\n";
    let log = parse_commit_log(raw);
    assert_eq!(log.len(), 2);
    assert_eq!(log[0].hash, "a1b2c3d");
    assert_eq!(log[0].subject, "Add the widget loader");
    assert_eq!(log[1].hash, "d4e5f6a");
    assert_eq!(log[1].subject, "Wire widgets in");
}

#[test]
fn parse_commit_log_skips_blank_and_handles_no_subject() {
    let log = parse_commit_log("\nabc123\n\n");
    assert_eq!(log.len(), 1);
    assert_eq!(log[0].hash, "abc123");
    assert_eq!(log[0].subject, "");
}

#[test]
fn parse_shortstat_full() {
    let (f, i, d) = parse_shortstat(" 3 files changed, 42 insertions(+), 7 deletions(-)");
    assert_eq!((f, i, d), (3, 42, 7));
}

#[test]
fn parse_shortstat_insertions_only() {
    let (f, i, d) = parse_shortstat(" 1 file changed, 5 insertions(+)");
    assert_eq!((f, i, d), (1, 5, 0));
}

#[test]
fn parse_shortstat_deletions_only() {
    let (f, i, d) = parse_shortstat(" 2 files changed, 3 deletions(-)");
    assert_eq!((f, i, d), (2, 0, 3));
}

#[test]
fn parse_shortstat_empty() {
    assert_eq!(parse_shortstat(""), (0, 0, 0));
}
