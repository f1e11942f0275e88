use fm26_mod_manager::download::{
    accept_response, admit_chunk, after_step, is_http_url, PartDone, Transfer, TransferError,
    TransferProgress, REPORT_INTERVAL,
};

fn percent(p: &TransferProgress) -> f64 {
    match p.part_done() {
        PartDone::All => 100.0,
        PartDone::Unknown => 0.0,
        PartDone::Part { downloaded, total } => (downloaded as f64 / total as f64) * 100.0,
    }
}

#[test]
fn only_http_locators_are_fetched() {
    assert!(is_http_url("http://example.org/pack.zip"));
    assert!(is_http_url("https://example.org/pack.zip"));
    assert!(is_http_url("http://"));
    assert!(!is_http_url("ftp://example.org/pack.zip"));
    assert!(!is_http_url("HTTP://example.org"));
    assert!(!is_http_url(" https://example.org"));
    assert!(!is_http_url("https:/example.org"));
    assert!(!is_http_url(""));
}

#[test]
fn a_status_that_is_no_success_ends_the_transfer() {
    for status in [0u16, 100, 199, 300, 301, 404, 500, 65535] {
        assert_eq!(
            accept_response(status, Some(10)),
            Err(TransferError::RemoteRejected(status))
        );
    }
    assert!(!TransferError::RemoteRejected(404).must_remove_partial_file());
}

#[test]
fn a_success_begins_the_transfer() {
    for status in [200u16, 201, 204, 206, 299] {
        assert_eq!(
            accept_response(status, Some(1000)),
            Ok(Transfer { total: 1000, downloaded: 0, last_report: 0 })
        );
    }
    assert_eq!(accept_response(200, None), Ok(Transfer { total: 0, downloaded: 0, last_report: 0 }));
}

#[test]
fn a_cancelled_transfer_stops_at_the_first_chunk() {
    assert_eq!(admit_chunk(true, true), Err(TransferError::Cancelled));
    assert_eq!(admit_chunk(true, false), Err(TransferError::Cancelled));
    assert!(TransferError::Cancelled.must_remove_partial_file());
}

#[test]
fn a_chunk_that_could_not_be_read_fails_the_transfer() {
    assert_eq!(admit_chunk(false, false), Err(TransferError::Io));
    assert!(TransferError::Io.must_remove_partial_file());
    assert_eq!(admit_chunk(false, true), Ok(()));
}

#[test]
fn reports_come_a_tenth_of_a_second_apart() {
    assert_eq!(REPORT_INTERVAL, 100_000_000);
    let mut transfer = accept_response(200, Some(1000)).unwrap();
    assert_eq!(transfer.record_chunk(100, 99_999_999), None);
    assert_eq!(transfer.downloaded, 100);
    assert_eq!(
        transfer.record_chunk(150, 100_000_000),
        Some(TransferProgress { downloaded: 250, total: 1000, elapsed: 100_000_000, finished: false })
    );
    assert_eq!(transfer.last_report, 100_000_000);
    assert_eq!(transfer.record_chunk(50, 150_000_000), None);
    assert_eq!(transfer.record_chunk(0, 199_999_999), None);
    assert_eq!(transfer.record_chunk(0, 50_000_000), None);
    let report = transfer.record_chunk(700, 200_000_000).unwrap();
    assert_eq!(report.downloaded, 1000);
    assert_eq!(percent(&report), 100.0);
    assert_eq!(transfer, Transfer { total: 1000, downloaded: 1000, last_report: 200_000_000 });
}

#[test]
fn reports_never_go_back_and_the_last_one_is_full() {
    let mut transfer = accept_response(200, Some(5000)).unwrap();
    let mut reports: Vec<TransferProgress> = Vec::new();
    let mut now: u64 = 0;
    for len in [10u64, 0, 300, 4000, 1, 2, 3, 500, 184] {
        now += 60_000_000;
        assert_eq!(admit_chunk(false, true), Ok(()));
        if let Some(report) = transfer.record_chunk(len, now) {
            reports.push(report);
        }
    }
    reports.push(transfer.finish(now + 1));
    assert!(reports.len() >= 3);
    for pair in reports.windows(2) {
        assert!(pair[0].downloaded <= pair[1].downloaded);
        assert!(pair[0].elapsed <= pair[1].elapsed);
        assert!(!pair[0].finished);
    }
    let last = reports.last().unwrap();
    assert!(last.finished);
    assert_eq!(last.downloaded, 5000);
    assert_eq!(percent(last), 100.0);
    assert_eq!(reports[0].downloaded, 10);
    assert_eq!(percent(&reports[0]), 10.0 / 5000.0 * 100.0);
    assert_eq!(reports[1].downloaded, 4310);
}

#[test]
fn a_transfer_of_unknown_size_reports_no_part_until_it_ends() {
    let mut transfer = accept_response(200, None).unwrap();
    let mut now: u64 = 0;
    let mut seen = 0;
    for len in [1000u64, 2000, 3000, 4000] {
        now += REPORT_INTERVAL;
        let report = transfer.record_chunk(len, now).unwrap();
        assert_eq!(report.total, 0);
        assert!(!report.finished);
        assert_eq!(percent(&report), 0.0);
        seen += 1;
    }
    assert_eq!(seen, 4);
    let last = transfer.finish(now);
    assert_eq!(last, TransferProgress { downloaded: 10000, total: 0, elapsed: now, finished: true });
    assert_eq!(percent(&last), 100.0);
}

#[test]
fn an_empty_transfer_still_reports_its_end() {
    let transfer = accept_response(204, Some(0)).unwrap();
    assert_eq!(
        transfer.finish(5),
        TransferProgress { downloaded: 0, total: 0, elapsed: 5, finished: true }
    );
}

#[test]
fn a_failed_step_fails_the_transfer() {
    assert_eq!(after_step(true), Ok(()));
    assert_eq!(after_step(false), Err(TransferError::Io));
}

#[test]
fn the_part_that_is_done() {
    let report = TransferProgress { downloaded: 5, total: 20, elapsed: 1, finished: false };
    assert_eq!(report.part_done(), PartDone::Part { downloaded: 5, total: 20 });
    let report = TransferProgress { downloaded: 5, total: 0, elapsed: 1, finished: false };
    assert_eq!(report.part_done(), PartDone::Unknown);
    let report = TransferProgress { downloaded: 5, total: 20, elapsed: 1, finished: true };
    assert_eq!(report.part_done(), PartDone::All);
    let report = TransferProgress { downloaded: 0, total: 0, elapsed: 0, finished: true };
    assert_eq!(report.part_done(), PartDone::All);
    let report = TransferProgress { downloaded: 30, total: 20, elapsed: 1, finished: false };
    assert_eq!(report.part_done(), PartDone::Part { downloaded: 30, total: 20 });
}
