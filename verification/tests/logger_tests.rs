use async_logger::{AsyncLogger, AsyncLogging, Level};

fn collected_output(logger: &AsyncLogger) -> Vec<u8> {
    let mut all: Vec<u8> = Vec::new();
    let n = logger.output_segment_count();
    let mut i: usize = 0;
    while i < n {
        all.extend_from_slice(logger.output_segment(i).as_slice());
        i += 1;
    }
    all
}

#[test]
fn test_logger_simple() {
    let mut logger = AsyncLogger::new(String::from("/tmp/async_logger"), 4096, 2)
        .expect("failed to create logger");
    logger.set_log_level(Level::Info);
    logger.start();

    let s = String::from("String");
    let i = 17;
    let ind = Level::Trace;
    logger.log(
        Level::Info,
        format!("info from async: {} #{} of {}", s, i, ind.name()),
    );

    logger.stop();
}

#[test]
fn shutdown_keeps_every_line() {
    let mut logger =
        AsyncLogging::new(String::from("/tmp/async"), 1000, 3).expect("failed to create logger");
    logger.start();
    let mut expected: Vec<u8> = Vec::new();
    for i in 1..6 {
        let line = format!("line {}\n", i);
        expected.extend_from_slice(line.as_bytes());
        logger.append(line);
    }
    logger.stop();
    let mut all: Vec<u8> = Vec::new();
    let n = logger.output_segment_count();
    let mut i: usize = 0;
    while i < n {
        all.extend_from_slice(logger.output_segment(i).as_slice());
        i += 1;
    }
    assert_eq!(all, expected);
}

#[test]
fn idle_pass_still_flushes() {
    let mut logger = AsyncLogger::new(String::from("/tmp/async"), 4096, 2)
        .expect("failed to create logger");
    logger.start();
    assert_eq!(logger.flush_count(), 0);
    logger.writer_pass();
    assert_eq!(logger.flush_count(), 1);
    assert_eq!(logger.output_segment_count(), 1);
    assert_eq!(logger.output_segment(0).len(), 0);
}

#[test]
fn total_bytes_match_appends() {
    let mut logger = AsyncLogger::new(String::from("/tmp/async"), 4096, 2)
        .expect("failed to create logger");
    logger.start();
    let lines = ["alpha\n", "beta\n", "a longer line of text\n"];
    let mut total = 0;
    for l in lines {
        logger.log(Level::Error, String::from(l));
        total += l.len();
    }
    logger.stop();
    assert_eq!(collected_output(&logger).len(), total);
}

#[test]
fn rotation_opens_second_file() {
    let mut logger =
        AsyncLogger::new(String::from("/tmp/async"), 8, 1).expect("failed to create logger");
    logger.start();
    logger.log(Level::Info, String::from("abcdefg\n"));
    logger.writer_pass();
    logger.log(Level::Info, String::from("hijklmn\n"));
    logger.writer_pass();
    assert_eq!(logger.output_segment_count(), 2);
    assert_eq!(logger.output_segment(0).as_slice(), b"abcdefg\n");
    assert!(logger.output_segment(0).len() >= 8);
    assert_eq!(logger.output_segment(1).as_slice(), b"hijklmn\n");
    // The shutdown pass seals and writes the (empty) current buffer; the
    // second segment is already full, so that empty write rolls once more.
    logger.stop();
    assert_eq!(logger.output_segment_count(), 3);
    assert_eq!(logger.output_segment(2).len(), 0);
}

#[test]
fn suppressed_levels_are_dropped() {
    let mut logger = AsyncLogger::new(String::from("/tmp/async"), 4096, 2)
        .expect("failed to create logger");
    logger.set_log_level(Level::Warn);
    logger.start();
    logger.log(Level::Info, String::from("quiet\n"));
    logger.log(Level::Trace, String::from("quieter\n"));
    logger.log(Level::Error, String::from("loud\n"));
    logger.log(Level::Warn, String::from("also loud\n"));
    logger.stop();
    assert_eq!(collected_output(&logger), b"loud\nalso loud\n".to_vec());
}

#[test]
fn get_and_set_level_round_trip() {
    let mut logger = AsyncLogger::new(String::from("/tmp/async"), 4096, 2)
        .expect("failed to create logger");
    assert_eq!(logger.get_log_level(), Level::Info);
    logger.set_log_level(Level::Trace);
    assert_eq!(logger.get_log_level(), Level::Trace);
}

#[test]
fn levels_number_one_to_five() {
    assert_eq!(Level::from_u8(1), Some(Level::Error));
    assert_eq!(Level::from_u8(2), Some(Level::Warn));
    assert_eq!(Level::from_u8(3), Some(Level::Info));
    assert_eq!(Level::from_u8(4), Some(Level::Debug));
    assert_eq!(Level::from_u8(5), Some(Level::Trace));
    assert_eq!(Level::from_u8(0), None);
    assert_eq!(Level::from_u8(6), None);
    for l in [Level::Error, Level::Warn, Level::Info, Level::Debug, Level::Trace] {
        assert_eq!(Level::from_u8(l.code()), Some(l));
    }
    assert_eq!(Level::Error.name(), "ERROR");
    assert_eq!(Level::Warn.name(), "WARN");
    assert_eq!(Level::Info.name(), "INFO");
    assert_eq!(Level::Debug.name(), "DEBUG");
    assert_eq!(Level::Trace.name(), "TRACE");
}
