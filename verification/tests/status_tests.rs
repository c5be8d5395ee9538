use comic_download::status::DownloadStatus;

fn all() -> [DownloadStatus; 4] {
    [
        DownloadStatus::NotStarted,
        DownloadStatus::Downloading,
        DownloadStatus::Done,
        DownloadStatus::Failed,
    ]
}

#[test]
fn status_codes_start_at_zero_and_follow_declaration_order() {
    assert_eq!(DownloadStatus::NotStarted.code(), 0);
    assert_eq!(DownloadStatus::Downloading.code(), 1);
    assert_eq!(DownloadStatus::Done.code(), 2);
    assert_eq!(DownloadStatus::Failed.code(), 3);
}

#[test]
fn status_code_round_trip() {
    for s in all() {
        assert_eq!(DownloadStatus::from_code(s.code()), Some(s));
    }
}

#[test]
fn status_from_code_refuses_unknown_codes() {
    assert_eq!(DownloadStatus::from_code(-1), None);
    assert_eq!(DownloadStatus::from_code(4), None);
    assert_eq!(DownloadStatus::from_code(i64::MAX), None);
    assert_eq!(DownloadStatus::from_code(i64::MIN), None);
}

#[test]
fn status_transitions_are_exactly_the_four_allowed() {
    let allowed = [
        (DownloadStatus::NotStarted, DownloadStatus::Downloading),
        (DownloadStatus::Downloading, DownloadStatus::Done),
        (DownloadStatus::Downloading, DownloadStatus::Failed),
        (DownloadStatus::Failed, DownloadStatus::Downloading),
    ];
    for from in all() {
        for to in all() {
            let expected = allowed.contains(&(from, to));
            assert_eq!(from.can_become(to), expected, "{:?} -> {:?}", from, to);
        }
    }
}

#[test]
fn status_done_is_final() {
    for to in all() {
        assert!(!DownloadStatus::Done.can_become(to));
    }
}

#[test]
fn status_nothing_returns_to_not_started() {
    for from in all() {
        assert!(!from.can_become(DownloadStatus::NotStarted));
    }
}
