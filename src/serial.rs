use vstd::prelude::*;

verus! {

/// Base address of the first serial port.
pub const COM1_PORT: u16 = 0x3f8;

/// Offset of the data register (transmit and receive; divisor low byte while the latch is open).
pub const DATA: u16 = 0;

/// Offset of the interrupt-enable register (divisor high byte while the latch is open).
pub const INT_ENABLE: u16 = 1;

/// Offset of the FIFO-control register.
pub const FIFO_CONTROL: u16 = 2;

/// Offset of the line-control register.
pub const LINE_CONTROL: u16 = 3;

/// Offset of the modem-control register.
pub const MODEM_CONTROL: u16 = 4;

/// Offset of the line-status register.
pub const LINE_STATUS: u16 = 5;

/// One access to an I/O port: a read with the value it returned, or a write.
#[derive(Clone, Copy, Debug, PartialEq, Eq, Structural)]
pub enum PortOp {
    Read { port: u16, value: u8 },
    Write { port: u16, value: u8 },
}

/// The port `offset` registers above `base`, wrapping around the 16-bit port space.
pub open spec fn register(base: u16, offset: u16) -> u16 {
    if base + offset > 0xffff {
        (base + offset - 0x10000) as u16
    } else {
        (base + offset) as u16
    }
}

/// The distance from `base` up to `port`, wrapping around the 16-bit port space.
pub open spec fn port_offset(base: u16, port: u16) -> int {
    if port >= base {
        port - base
    } else {
        port - base + 0x10000
    }
}

/// The writes that program a controller: interrupts off, divisor latch open,
/// divisor 3 (38400 baud), 8 data bits without parity and one stop bit with the
/// latch closed, FIFOs enabled and cleared, modem-control lines asserted.
pub open spec fn init_ops(base: u16) -> Seq<PortOp> {
    seq![
        PortOp::Write { port: register(base, INT_ENABLE), value: 0x00 },
        PortOp::Write { port: register(base, LINE_CONTROL), value: 0x80 },
        PortOp::Write { port: register(base, DATA), value: 0x03 },
        PortOp::Write { port: register(base, INT_ENABLE), value: 0x00 },
        PortOp::Write { port: register(base, LINE_CONTROL), value: 0x03 },
        PortOp::Write { port: register(base, FIFO_CONTROL), value: 0xc7 },
        PortOp::Write { port: register(base, MODEM_CONTROL), value: 0x0b },
    ]
}

/// Bit 5 of the line status: the transmit holding register is empty.
pub open spec fn tx_ready(status: u8) -> bool {
    (status / 32) % 2 == 1
}

/// Bit 0 of the line status: a received byte waits in the data register.
pub open spec fn rx_ready(status: u8) -> bool {
    status % 2 == 1
}

/// What the port operations of sending `bytes` are, when successive reads of the
/// line status return `statuses`; `None` when the statuses run out first.
pub open spec fn tx_trace(base: u16, bytes: Seq<u8>, statuses: Seq<u8>) -> Option<Seq<PortOp>>
    decreases statuses.len(),
{
    if bytes.len() == 0 {
        Some(Seq::empty())
    } else if statuses.len() == 0 {
        None
    } else {
        let read = PortOp::Read { port: register(base, LINE_STATUS), value: statuses[0] };
        if tx_ready(statuses[0]) {
            let write = PortOp::Write { port: register(base, DATA), value: bytes[0] };
            match tx_trace(base, bytes.drop_first(), statuses.drop_first()) {
                Some(t) => Some(seq![read, write] + t),
                None => None,
            }
        } else {
            match tx_trace(base, bytes, statuses.drop_first()) {
                Some(t) => Some(seq![read] + t),
                None => None,
            }
        }
    }
}

/// `o` with `p` put in front of the trace it holds.
pub open spec fn prefixed(p: Seq<PortOp>, o: Option<Seq<PortOp>>) -> Option<Seq<PortOp>> {
    match o {
        Some(t) => Some(p + t),
        None => None,
    }
}

/// The values written to `port`, in order.
pub open spec fn written_to(t: Seq<PortOp>, port: u16) -> Seq<u8>
    decreases t.len(),
{
    if t.len() == 0 {
        Seq::empty()
    } else {
        let rest = written_to(t.drop_first(), port);
        match t[0] {
            PortOp::Write { port: p, value } => if p == port {
                seq![value] + rest
            } else {
                rest
            },
            PortOp::Read { .. } => rest,
        }
    }
}

/// Whether `op` is a read of the line status of the port at `base` that found it ready to send.
pub open spec fn is_ready_read(op: PortOp, base: u16) -> bool {
    match op {
        PortOp::Read { port, value } => port == register(base, LINE_STATUS) && tx_ready(value),
        PortOp::Write { .. } => false,
    }
}

/// Whether `op` is a write to the data register of the port at `base`.
pub open spec fn is_data_write(op: PortOp, base: u16) -> bool {
    match op {
        PortOp::Write { port, .. } => port == register(base, DATA),
        PortOp::Read { .. } => false,
    }
}

/// Sending bytes writes each of them once to the data register, in order, and
/// nothing else: every write follows directly on a read of the line status that
/// found the transmitter ready.
#[verifier::spinoff_prover]
pub proof fn lemma_transmit_protocol(base: u16, bytes: Seq<u8>, statuses: Seq<u8>)
    requires
        tx_trace(base, bytes, statuses) is Some,
    ensures
        ({
            let t = tx_trace(base, bytes, statuses).unwrap();
            &&& written_to(t, register(base, DATA)) == bytes
            &&& forall|j: int|
                0 <= j < t.len() && t[j] is Write ==> is_data_write(t[j], base) && j >= 1
                    && is_ready_read(t[j - 1], base)
        }),
    decreases statuses.len(),
{
    if bytes.len() == 0 {
        let t = tx_trace(base, bytes, statuses).unwrap();
        assert(t.len() == 0);
        assert(bytes =~= Seq::empty());
    } else {
        let read = PortOp::Read { port: register(base, LINE_STATUS), value: statuses[0] };
        let data = register(base, DATA);
        let ls = register(base, LINE_STATUS);
        assert(ls != data) by {
            assert(LINE_STATUS == 5 && DATA == 0);
        }
        if tx_ready(statuses[0]) {
            let write = PortOp::Write { port: data, value: bytes[0] };
            lemma_transmit_protocol(base, bytes.drop_first(), statuses.drop_first());
            let r = tx_trace(base, bytes.drop_first(), statuses.drop_first()).unwrap();
            let t = seq![read, write] + r;
            assert(tx_trace(base, bytes, statuses).unwrap() == t);
            assert(t.drop_first() =~= seq![write] + r);
            assert((seq![write] + r).drop_first() =~= r);
            assert(written_to(seq![write] + r, data) == seq![bytes[0]] + written_to(r, data));
            assert(written_to(t, data) == written_to(seq![write] + r, data));
            assert(bytes =~= seq![bytes[0]] + bytes.drop_first());
            assert(t.len() == r.len() + 2);
            assert(t[0] == read && t[1] == write);
            assert forall|j: int| 2 <= j < t.len() implies t[j] == r[j - 2] by {}
            assert forall|j: int|
                0 <= j < t.len() && t[j] is Write implies is_data_write(t[j], base) && j >= 1
                    && is_ready_read(t[j - 1], base) by {
                if j == 0 {
                    assert(t[0] == read);
                } else if j == 1 {
                    assert(t[1] == write);
                    assert(t[0] == read);
                } else if j == 2 {
                    assert(t[2] == r[0]);
                    assert(0 <= 0 < r.len() && r[0] is Write ==> 0 >= 1);
                } else {
                    assert(t[j] == r[j - 2]);
                    assert(t[j - 1] == r[j - 3]);
                }
            }
        } else {
            lemma_transmit_protocol(base, bytes, statuses.drop_first());
            let r = tx_trace(base, bytes, statuses.drop_first()).unwrap();
            let t = seq![read] + r;
            assert(tx_trace(base, bytes, statuses).unwrap() == t);
            assert(t.drop_first() =~= r);
            assert(written_to(t, data) == written_to(r, data));
            assert forall|j: int|
                0 <= j < t.len() && t[j] is Write implies is_data_write(t[j], base) && j >= 1
                    && is_ready_read(t[j - 1], base) by {
                if j >= 1 {
                    assert(t[j] == r[j - 1]);
                    if j >= 2 {
                        assert(t[j - 1] == r[j - 2]);
                    }
                }
            }
        }
    }
}

/// A handle on the serial controller whose registers start at `base`.
///
/// The handle holds no state of the device: it plans the port operations that
/// drive the controller, and its caller performs them.
#[derive(Clone, Copy, Debug, PartialEq, Eq, Structural)]
pub struct Serial {
    pub base: u16,
}

impl Serial {
    /// Create the handle for the controller at `base`. The controller itself is
    /// not touched: `init` gives the writes that program it.
    pub fn new(base: u16) -> (r: Serial)
        ensures
            r.base == base,
    {
        Serial { base }
    }

    /// The port of the register `offset` places above the base address.
    pub fn port(&self, offset: u16) -> (r: u16)
        requires
            offset < 8,
        ensures
            r == register(self.base, offset),
    {
        let s: u32 = self.base as u32 + offset as u32;
        if s > 0xffff {
            (s - 0x10000) as u16
        } else {
            s as u16
        }
    }

    /// The writes that program the controller, in the order they are to be made.
    pub fn init(&self) -> (r: Vec<PortOp>)
        ensures
            r@ == init_ops(self.base),
    {
        let r = vec![
            PortOp::Write { port: self.port(INT_ENABLE), value: 0x00 },
            PortOp::Write { port: self.port(LINE_CONTROL), value: 0x80 },
            PortOp::Write { port: self.port(DATA), value: 0x03 },
            PortOp::Write { port: self.port(INT_ENABLE), value: 0x00 },
            PortOp::Write { port: self.port(LINE_CONTROL), value: 0x03 },
            PortOp::Write { port: self.port(FIFO_CONTROL), value: 0xc7 },
            PortOp::Write { port: self.port(MODEM_CONTROL), value: 0x0b },
        ];
        assert(r@ =~= init_ops(self.base));
        r
    }

    /// One step of sending `d`, given the value just read from the line status:
    /// the write of `d` to the data register once the transmitter is ready, and
    /// `None` (read the line status again) while it is not.
    pub fn write(&self, status: u8, d: u8) -> (r: Option<PortOp>)
        ensures
            r == (if tx_ready(status) {
                Some(PortOp::Write { port: register(self.base, DATA), value: d })
            } else {
                None
            }),
    {
        assert((status & 0x20u8 != 0u8) == ((status / 32u8) % 2u8 == 1u8)) by (bit_vector);
        if status & 0x20u8 != 0u8 {
            Some(PortOp::Write { port: self.port(DATA), value: d })
        } else {
            None
        }
    }

    /// One step of receiving, given the value just read from the line status:
    /// the data register, to be read, when a byte waits there; else `None`.
    pub fn receive(&self, status: u8) -> (r: Option<u16>)
        ensures
            r == (if rx_ready(status) {
                Some(register(self.base, DATA))
            } else {
                None
            }),
    {
        assert((status & 0x01u8 != 0u8) == (status % 2u8 == 1u8)) by (bit_vector);
        if status & 0x01u8 != 0u8 {
            Some(self.port(DATA))
        } else {
            None
        }
    }

    /// The port operations of sending `bytes`, when successive reads of the line
    /// status return `statuses`: before each byte the line status is read until
    /// it shows the transmitter ready, then the byte is written. `None` when the
    /// statuses run out before the last byte is written.
    pub fn transmit(&self, bytes: &Vec<u8>, statuses: &Vec<u8>) -> (r: Option<Vec<PortOp>>)
        ensures
            match r {
                Some(t) => tx_trace(self.base, bytes@, statuses@) == Some(t@),
                None => tx_trace(self.base, bytes@, statuses@) is None,
            },
            r matches Some(t) ==> written_to(t@, register(self.base, DATA)) == bytes@,
            r matches Some(t) ==> forall|j: int|
                0 <= j < t@.len() && t@[j] is Write ==> is_data_write(t@[j], self.base) && j >= 1
                    && is_ready_read(t@[j - 1], self.base),
    {
        let ls = self.port(LINE_STATUS);
        let mut ops: Vec<PortOp> = Vec::new();
        let mut i: usize = 0;
        let mut k: usize = 0;
        assert(bytes@.skip(0) =~= bytes@);
        assert(statuses@.skip(0) =~= statuses@);
        assert(ops@ + Seq::<PortOp>::empty() =~= Seq::<PortOp>::empty());
        while i < bytes.len()
            invariant
                i <= bytes.len(),
                k <= statuses.len(),
                ls == register(self.base, LINE_STATUS),
                tx_trace(self.base, bytes@, statuses@) == prefixed(
                    ops@,
                    tx_trace(self.base, bytes@.skip(i as int), statuses@.skip(k as int)),
                ),
            decreases bytes.len() - i + statuses.len() - k,
        {
            let ghost rb = bytes@.skip(i as int);
            let ghost rs = statuses@.skip(k as int);
            if k == statuses.len() {
                assert(rs.len() == 0);
                assert(bytes@.skip(i as int).len() > 0);
                return None;
            }
            let s = statuses[k];
            let read = PortOp::Read { port: ls, value: s };
            let ghost before = ops@;
            ops.push(read);
            k = k + 1;
            assert(rs.drop_first() =~= statuses@.skip(k as int));
            assert(rs[0] == s);
            match self.write(s, bytes[i]) {
                Some(w) => {
                    assert(rb.drop_first() =~= bytes@.skip(i + 1));
                    ops.push(w);
                    i = i + 1;
                    proof {
                        if let Some(t) = tx_trace(self.base, bytes@.skip(i as int), statuses@.skip(k as int)) {
                            assert(before + (seq![read, w] + t) =~= ops@ + t);
                        }
                    }
                },
                None => {
                    proof {
                        if let Some(t) = tx_trace(self.base, bytes@.skip(i as int), statuses@.skip(k as int)) {
                            assert(before + (seq![read] + t) =~= ops@ + t);
                        }
                    }
                },
            }
        }
        assert(bytes@.skip(i as int).len() == 0);
        assert(ops@ + Seq::<PortOp>::empty() =~= ops@);
        proof {
            lemma_transmit_protocol(self.base, bytes@, statuses@);
        }
        Some(ops)
    }
}

/// The configuration registers of a controller, as its writes leave them.
#[derive(Clone, Copy, Debug, PartialEq, Eq, Structural)]
pub struct LineConfig {
    pub int_enable: u8,
    pub line_control: u8,
    pub divisor_low: u8,
    pub divisor_high: u8,
    pub fifo_control: u8,
    pub modem_control: u8,
}

impl LineConfig {
    /// Whether the divisor latch is open (bit 7 of the line control): writes to
    /// offsets 0 and 1 then set the baud-rate divisor.
    pub open spec fn latch_open(self) -> bool {
        self.line_control >= 0x80
    }

    /// The registers after `op` on the controller at `base`. Reads and writes
    /// to the data, status and scratch registers or to other ports leave them.
    pub open spec fn after(self, base: u16, op: PortOp) -> LineConfig {
        match op {
            PortOp::Read { .. } => self,
            PortOp::Write { port, value } => {
                let off = port_offset(base, port);
                if off == 0 && self.latch_open() {
                    LineConfig { divisor_low: value, ..self }
                } else if off == 1 && self.latch_open() {
                    LineConfig { divisor_high: value, ..self }
                } else if off == 1 {
                    LineConfig { int_enable: value, ..self }
                } else if off == 2 {
                    LineConfig { fifo_control: value, ..self }
                } else if off == 3 {
                    LineConfig { line_control: value, ..self }
                } else if off == 4 {
                    LineConfig { modem_control: value, ..self }
                } else {
                    self
                }
            },
        }
    }

    /// The registers after the operations `ops`, in order.
    pub open spec fn after_all(self, base: u16, ops: Seq<PortOp>) -> LineConfig
        decreases ops.len(),
    {
        if ops.len() == 0 {
            self
        } else {
            self.after_all(base, ops.drop_last()).after(base, ops.last())
        }
    }

    /// The line settings that `init` programs: divisor 3, 8 data bits, no parity,
    /// one stop bit, FIFOs on with a 14-byte trigger, modem-control lines set.
    pub open spec fn programmed(self) -> bool {
        &&& self.line_control == 0x03
        &&& self.divisor_low == 0x03
        &&& self.divisor_high == 0x00
        &&& self.fifo_control == 0xc7
        &&& self.modem_control == 0x0b
    }

    /// Apply the operation `op` on the controller at `base` to the registers.
    pub fn apply(&mut self, base: u16, op: PortOp)
        ensures
            *final(self) == old(self).after(base, op),
    {
        match op {
            PortOp::Read { .. } => {},
            PortOp::Write { port, value } => {
                let off: u32 = if port >= base {
                    (port - base) as u32
                } else {
                    (port as u32 + 0x10000) - base as u32
                };
                let latch = self.line_control >= 0x80;
                if off == 0 && latch {
                    self.divisor_low = value;
                } else if off == 1 && latch {
                    self.divisor_high = value;
                } else if off == 1 {
                    self.int_enable = value;
                } else if off == 2 {
                    self.fifo_control = value;
                } else if off == 3 {
                    self.line_control = value;
                } else if off == 4 {
                    self.modem_control = value;
                }
            },
        }
    }

    /// Apply the operations `ops`, in order, to the registers.
    pub fn apply_all(&mut self, base: u16, ops: &Vec<PortOp>)
        ensures
            *final(self) == old(self).after_all(base, ops@),
    {
        let ghost start = *self;
        let mut i: usize = 0;
        assert(ops@.subrange(0, 0) =~= Seq::<PortOp>::empty());
        while i < ops.len()
            invariant
                i <= ops.len(),
                *self == start.after_all(base, ops@.subrange(0, i as int)),
            decreases ops.len() - i,
        {
            assert(ops@.subrange(0, i + 1).drop_last() =~= ops@.subrange(0, i as int));
            self.apply(base, ops[i]);
            i = i + 1;
        }
        assert(ops@.subrange(0, i as int) =~= ops@);
    }
}

/// What `init` leaves in the registers, whatever they held before: the line
/// settings are programmed, and interrupts are off unless the divisor latch was
/// open with interrupts on, when the first write reaches the divisor instead.
pub proof fn lemma_init_programs(cfg: LineConfig, base: u16)
    ensures
        cfg.after_all(base, init_ops(base)).programmed(),
        cfg.after_all(base, init_ops(base)).int_enable == (if cfg.latch_open() {
            cfg.int_enable
        } else {
            0
        }),
{
    let ops = init_ops(base);
    reveal_with_fuel(LineConfig::after_all, 8);
    assert(ops.len() == 7);
    assert(ops.drop_last().drop_last().drop_last().drop_last().drop_last().drop_last().drop_last()
        =~= Seq::<PortOp>::empty());
    assert(port_offset(base, register(base, INT_ENABLE)) == 1);
    assert(port_offset(base, register(base, LINE_CONTROL)) == 3);
    assert(port_offset(base, register(base, DATA)) == 0);
    assert(port_offset(base, register(base, FIFO_CONTROL)) == 2);
    assert(port_offset(base, register(base, MODEM_CONTROL)) == 4);
}

/// Programming a controller twice leaves its registers as programming it once,
/// except when it starts with the divisor latch open and interrupts on.
pub proof fn lemma_init_idempotent(cfg: LineConfig, base: u16)
    requires
        !(cfg.latch_open() && cfg.int_enable != 0),
    ensures
        cfg.after_all(base, init_ops(base)).after_all(base, init_ops(base)) == cfg.after_all(
            base,
            init_ops(base),
        ),
{
    let once = cfg.after_all(base, init_ops(base));
    lemma_init_programs(cfg, base);
    lemma_init_programs(once, base);
}

} // verus!
