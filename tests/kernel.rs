use com_logger::{
    builder, init, Formatter, Level, LogRecord, Logger, PortOp, Segment, Serial, COM1_PORT,
};

const BASIC_EXPECTED_PREFIX: &'static str = "    INFO: Hello world! (basic";

const FORMAT_EXPECTED: &'static str = "**** Hello world! ****";

const READY: u8 = 0x60;

fn record(target: &str, message: String, line: u32) -> LogRecord {
    LogRecord {
        level: Level::Info,
        message,
        target: target.to_string(),
        file: Some(format!("src/{}.rs", target)),
        line: Some(line),
    }
}

/// Sends `bytes` through the serial port of `logger` and returns what reached
/// the data register. `busy` makes every other status read find the
/// transmitter busy.
fn send(logger: &Logger, bytes: &Vec<u8>, busy: bool) -> Vec<u8> {
    let serial = logger.serial();
    let mut statuses = Vec::new();
    for _ in 0..bytes.len() {
        if busy {
            statuses.push(0x00);
        }
        statuses.push(READY);
    }
    let ops = serial.transmit(bytes, &statuses).unwrap();
    let data = serial.port(0);
    ops.iter()
        .filter_map(|op| match op {
            PortOp::Write { port, value } if *port == data => Some(*value),
            _ => None,
        })
        .collect()
}

/// Lines of the serial output, last first.
fn lines(wire: Vec<u8>) -> Vec<String> {
    let output = String::from_utf8(wire).unwrap();
    let mut vec: Vec<String> = output
        .trim_end_matches('\n')
        .split('\n')
        .map(|s| s.into())
        .collect();
    vec.reverse();
    vec
}

fn basic_kernel(busy: bool) -> Vec<String> {
    let mut logger = Logger::new();
    let ops = init(&mut logger).unwrap();
    assert_eq!(ops, Serial::new(COM1_PORT).init());
    let mut wire = Vec::new();
    logger.dispatch(&record("basic", "Hello world!".to_string(), 14), &mut wire);
    lines(send(&logger, &wire, busy))
}

fn format_kernel(busy: bool) -> Vec<String> {
    let mut logger = Logger::new();
    let f = Formatter::new(vec![
        Segment::Text(b"**** ".to_vec()),
        Segment::Message,
        Segment::Text(b" ****\n".to_vec()),
    ]);
    builder().formatter(f).setup(&mut logger).unwrap();
    let mut wire = Vec::new();
    logger.dispatch(&record("format", "Hello world!".to_string(), 14), &mut wire);
    lines(send(&logger, &wire, busy))
}

fn multi_kernel(busy: bool) -> Vec<String> {
    let mut logger = Logger::new();
    let f = Formatter::new(vec![Segment::Message, Segment::Text(b"\n".to_vec())]);
    builder().formatter(f).setup(&mut logger).unwrap();
    let mut wire = Vec::new();
    for i in 0..100 {
        logger.dispatch(&record("multi", format!("Hello world! {}", i), 15), &mut wire);
    }
    lines(send(&logger, &wire, busy))
}

#[test]
fn basic_bios() {
    let output = basic_kernel(false);

    assert!(output[0].starts_with(BASIC_EXPECTED_PREFIX), "{:?}", output);
}

#[test]
fn basic_uefi() {
    let output = basic_kernel(true);

    assert!(output[0].starts_with(BASIC_EXPECTED_PREFIX), "{:?}", output);
}

#[test]
fn custom_format_uefi() {
    let output = format_kernel(true);

    assert_eq!(output[0], FORMAT_EXPECTED, "{:?}", output);
}

#[test]
fn custom_format_bios() {
    let output = format_kernel(false);

    assert_eq!(output[0], FORMAT_EXPECTED, "{:?}", output);
}

#[test]
fn multi_line_uefi() {
    let output = multi_kernel(true);

    for i in 0..100 {
        assert_eq!(output[i], format!("Hello world! {}", 99 - i), "{:?}", output);
    }
}

#[test]
fn multi_line_bios() {
    let output = multi_kernel(false);

    for i in 0..100 {
        assert_eq!(output[i], format!("Hello world! {}", 99 - i), "{:?}", output);
    }
}
