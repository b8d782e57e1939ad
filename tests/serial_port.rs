use com_logger::{LineConfig, PortOp, Serial, COM1_PORT};

fn w(port: u16, value: u8) -> PortOp {
    PortOp::Write { port, value }
}

fn blank(line_control: u8, int_enable: u8) -> LineConfig {
    LineConfig {
        int_enable,
        line_control,
        divisor_low: 0x55,
        divisor_high: 0x66,
        fifo_control: 0x77,
        modem_control: 0x88,
    }
}

#[test]
fn init_sequence_values() {
    let ops = Serial::new(0x2f8).init();
    assert_eq!(
        ops,
        vec![
            w(0x2f9, 0x00),
            w(0x2fb, 0x80),
            w(0x2f8, 0x03),
            w(0x2f9, 0x00),
            w(0x2fb, 0x03),
            w(0x2fa, 0xc7),
            w(0x2fc, 0x0b),
        ]
    );
}

#[test]
fn ports_wrap_at_top_of_port_space() {
    let s = Serial::new(0xfffe);
    assert_eq!(s.port(0), 0xfffe);
    assert_eq!(s.port(1), 0xffff);
    assert_eq!(s.port(5), 0x0003);
}

#[test]
fn init_programs_line_settings() {
    let mut cfg = blank(0x00, 0x0f);
    cfg.apply_all(COM1_PORT, &Serial::new(COM1_PORT).init());
    assert_eq!(
        cfg,
        LineConfig {
            int_enable: 0,
            line_control: 0x03,
            divisor_low: 0x03,
            divisor_high: 0x00,
            fifo_control: 0xc7,
            modem_control: 0x0b,
        }
    );
}

#[test]
fn init_twice_equals_once() {
    let ops = Serial::new(COM1_PORT).init();
    let mut once = blank(0x1b, 0x05);
    once.apply_all(COM1_PORT, &ops);
    let mut twice = once;
    twice.apply_all(COM1_PORT, &ops);
    assert_eq!(once, twice);
}

#[test]
fn init_with_latch_open_keeps_interrupts() {
    let ops = Serial::new(COM1_PORT).init();
    let mut once = blank(0x83, 0x05);
    once.apply_all(COM1_PORT, &ops);
    assert_eq!(once.int_enable, 0x05);
    assert_eq!(once.divisor_low, 0x03);
    let mut twice = once;
    twice.apply_all(COM1_PORT, &ops);
    assert_eq!(twice.int_enable, 0x00);
}

#[test]
fn writes_to_other_ports_change_nothing() {
    let mut cfg = blank(0x03, 0x00);
    cfg.apply(COM1_PORT, w(0x2fb, 0x80));
    cfg.apply(COM1_PORT, w(COM1_PORT + 8, 0x80));
    cfg.apply(COM1_PORT, PortOp::Read { port: COM1_PORT + 3, value: 0x80 });
    assert_eq!(cfg, blank(0x03, 0x00));
}

#[test]
fn write_waits_for_transmitter() {
    let s = Serial::new(COM1_PORT);
    assert_eq!(s.write(0x00, b'P'), None);
    assert_eq!(s.write(0x1f, b'P'), None);
    assert_eq!(s.write(0x20, b'P'), Some(w(COM1_PORT, b'P')));
}

#[test]
fn receive_reads_data_when_ready() {
    let s = Serial::new(COM1_PORT);
    assert_eq!(s.receive(0x60), None);
    assert_eq!(s.receive(0x61), Some(COM1_PORT));
}

#[test]
fn transmit_writes_each_byte_after_ready_read() {
    let s = Serial::new(COM1_PORT);
    let ls = COM1_PORT + 5;
    let ops = s.transmit(&vec![b'a', b'b'], &vec![0x00, 0x20, 0x01, 0x60, 0xff]).unwrap();
    assert_eq!(
        ops,
        vec![
            PortOp::Read { port: ls, value: 0x00 },
            PortOp::Read { port: ls, value: 0x20 },
            w(COM1_PORT, b'a'),
            PortOp::Read { port: ls, value: 0x01 },
            PortOp::Read { port: ls, value: 0x60 },
            w(COM1_PORT, b'b'),
        ]
    );
}

#[test]
fn transmit_counts_writes() {
    let s = Serial::new(COM1_PORT);
    let bytes: Vec<u8> = (0..50u8).collect();
    let statuses = vec![0x20u8; 50];
    let ops = s.transmit(&bytes, &statuses).unwrap();
    let writes: Vec<u8> = ops
        .iter()
        .filter_map(|op| match op {
            PortOp::Write { value, .. } => Some(*value),
            _ => None,
        })
        .collect();
    assert_eq!(writes, bytes);
    assert_eq!(ops.len(), 100);
}

#[test]
fn transmit_stalls_without_ready() {
    let s = Serial::new(COM1_PORT);
    assert_eq!(s.transmit(&vec![b'a'], &vec![0x00, 0x01, 0x40]), None);
    assert_eq!(s.transmit(&vec![], &vec![]), Some(vec![]));
}
