use moesif_extproc::batch::{build_batch_delivery, write_events_json, Batcher};
use moesif_extproc::config::{Config, EnvConfig};
use moesif_extproc::utils::{choose_log_level, get_header, level_based_on_debug, LogLevel};

#[test]
fn payload_splices_members_with_commas_and_brackets() {
    let events = vec![b"{}".to_vec(), b"{\"a\":1}".to_vec(), b"3".to_vec()];
    let payload = write_events_json(&events);
    assert_eq!(payload, b"[{},{\"a\":1},3]".to_vec());
    let total: usize = events.iter().map(|e| e.len()).sum();
    assert_eq!(payload.len(), total + (events.len() - 1) + 2);
}

#[test]
fn payload_of_single_member_has_no_commas() {
    let events = vec![b"{}".to_vec()];
    let payload = write_events_json(&events);
    assert_eq!(payload, b"[{}]".to_vec());
    assert_eq!(payload.len(), 2 + 2);
}

#[test]
fn single_record_flushes_on_the_wait_window() {
    // max wait 2000 ms, max size 100: one record alone must flush on time
    let mut batcher = Batcher::new(100, 2000);
    assert_eq!(batcher.calculate_timeout(500), u64::MAX);
    batcher.handle_new_event(b"{}".to_vec(), 1_000);
    assert!(!batcher.should_flush());
    assert!(batcher.has_events());
    assert_eq!(batcher.calculate_timeout(1_000), 2_000);
    assert_eq!(batcher.calculate_timeout(2_500), 500);
    // once the window has elapsed the timer fires immediately
    let elapsed: u64 = 3_000 - 1_000;
    assert!(elapsed >= 2_000);
    assert_eq!(batcher.calculate_timeout(3_000), 0);
    assert_eq!(batcher.buffer.len(), 1);
    batcher.reset();
    assert!(!batcher.has_events());
}

#[test]
fn three_records_flush_on_size_and_reset_the_timer() {
    let mut batcher = Batcher::new(3, 10_000);
    batcher.handle_new_event(b"1".to_vec(), 100);
    assert!(!batcher.should_flush());
    batcher.handle_new_event(b"2".to_vec(), 101);
    assert!(!batcher.should_flush());
    batcher.handle_new_event(b"3".to_vec(), 102);
    assert!(batcher.should_flush());
    assert_eq!(batcher.buffer.len(), 3);
    // the window started at the first record, well before it elapses
    assert_eq!(batcher.calculate_timeout(102), 10_000 - 2);

    let payload = write_events_json(&batcher.buffer);
    assert_eq!(payload, b"[1,2,3]".to_vec());

    batcher.reset();
    assert!(!batcher.has_events());
    assert_eq!(batcher.buffer.len(), 0);
    assert_eq!(batcher.calculate_timeout(103), u64::MAX);
    // the next batch starts its own window
    batcher.handle_new_event(b"4".to_vec(), 5_000);
    assert_eq!(batcher.calculate_timeout(5_000), 10_000);
}

#[test]
fn delivery_is_built_only_for_nonempty_batches() {
    let mut env = EnvConfig::default();
    env.moesif_application_id = "app-id-123".to_string();
    let config = Config { env };

    assert!(build_batch_delivery(&config, &Vec::new()).is_none());

    let events = vec![b"{}".to_vec(), b"{}".to_vec()];
    let d = build_batch_delivery(&config, &events).unwrap();
    assert_eq!(d.method, "POST");
    assert_eq!(d.url, "https://api.moesif.net/v1/events/batch");
    assert_eq!(d.body, b"[{},{}]".to_vec());
    assert_eq!(d.headers.len(), 2);
    assert_eq!(d.headers[0].0, "content-type");
    assert_eq!(d.headers[0].1, "application/json");
    assert_eq!(d.headers[1].0, "x-moesif-application-id");
    assert_eq!(d.headers[1].1, "app-id-123");
}

#[test]
fn response_etags_are_found_case_insensitively() {
    let headers = vec![
        ("x-moesif-config-etag".to_string(), "cfg-1".to_string()),
        ("X-Moesif-Rules-Etag".to_string(), "rules-2".to_string()),
    ];
    assert_eq!(get_header(&headers, "X-Moesif-Config-Etag"), Some("cfg-1".to_string()));
    assert_eq!(get_header(&headers, "x-moesif-rules-etag"), Some("rules-2".to_string()));
    assert_eq!(get_header(&headers, "x-missing"), None);
}

#[test]
fn log_level_decision() {
    assert_eq!(choose_log_level(&Some("TRACE".to_string()), false), LogLevel::Trace);
    assert_eq!(choose_log_level(&Some("debug".to_string()), false), LogLevel::Debug);
    assert_eq!(choose_log_level(&Some("Info".to_string()), false), LogLevel::Info);
    assert_eq!(choose_log_level(&Some("warn".to_string()), true), LogLevel::Warn);
    assert_eq!(choose_log_level(&Some("error".to_string()), true), LogLevel::Error);
    assert_eq!(choose_log_level(&Some("bogus".to_string()), true), LogLevel::Trace);
    assert_eq!(choose_log_level(&Some("bogus".to_string()), false), LogLevel::Warn);
    assert_eq!(choose_log_level(&None, true), LogLevel::Trace);
    assert_eq!(choose_log_level(&None, false), LogLevel::Warn);
    assert_eq!(level_based_on_debug(true), LogLevel::Trace);
    assert_eq!(level_based_on_debug(false), LogLevel::Warn);
}

#[test]
fn validate_reports_the_first_violated_condition() {
    let mut env = EnvConfig::default();
    assert_eq!(env.validate(), Err("moesif_application_id cannot be empty.".to_string()));
    env.moesif_application_id = "app".to_string();
    assert_eq!(env.validate(), Ok(()));

    env.batch_max_size = 0;
    assert_eq!(env.validate(), Err("batch_max_size cannot be zero.".to_string()));
    env.batch_max_size = 1;
    env.batch_max_wait = 0;
    assert_eq!(env.validate(), Err("batch_max_wait cannot be zero.".to_string()));
    env.batch_max_wait = 1;
    env.queue_max_size = 0;
    assert_eq!(env.validate(), Err("queue_max_size cannot be zero.".to_string()));
    env.queue_max_size = 1;
    env.grpc_processing_queue_size = 0;
    assert_eq!(env.validate(), Err("grpc_processing_queue_size cannot be zero.".to_string()));
    env.grpc_processing_queue_size = 1;
    env.connection_timeout = 0;
    assert_eq!(env.validate(), Err("connection_timeout cannot be zero.".to_string()));
    env.connection_timeout = 1;
    env.base_uri = String::new();
    assert_eq!(env.validate(), Err("base_uri cannot be empty.".to_string()));
    env.base_uri = "https://example.test".to_string();
    assert_eq!(env.validate(), Ok(()));
}

#[test]
fn defaults_match_the_documented_values() {
    let env = EnvConfig::default();
    assert_eq!(env.batch_max_size, 100);
    assert_eq!(env.batch_max_wait, 2000);
    assert_eq!(env.queue_max_size, 10_000);
    assert_eq!(env.grpc_processing_queue_size, 4);
    assert_eq!(env.base_uri, "https://api.moesif.net");
    assert!(!env.debug);
    assert_eq!(env.connection_timeout, 5000);
}
