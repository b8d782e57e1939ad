use vstd::prelude::*;
use crate::format::{is_standard, render, Formatter, LogRecord};
use crate::level::{Level, LevelFilter};
use crate::serial::{init_ops, PortOp, Serial, COM1_PORT};

verus! {

/// Why installing a logger failed.
#[derive(Clone, Copy, Debug, PartialEq, Eq, Structural)]
pub enum SetupError {
    /// A logger is installed already: a process has one log sink, installed once.
    AlreadyInstalled,
}

/// The state of the process's logger: the base address of its serial port, its
/// formatter, its severity filter, and whether it is installed as the log sink.
///
/// Only `Builder::setup` changes it. Until then its filter is `Off`, so no
/// record is dispatched to it.
pub struct Logger {
    base: u16,
    formatter: Formatter,
    filter: LevelFilter,
    installed: bool,
}

impl Logger {
    /// The base address of the serial port that records go to.
    pub closed spec fn spec_base(&self) -> u16 {
        self.base
    }

    /// The formatter that renders records.
    pub closed spec fn spec_formatter(&self) -> Formatter {
        self.formatter
    }

    /// The least severe level that is logged.
    pub closed spec fn spec_filter(&self) -> LevelFilter {
        self.filter
    }

    /// Whether the logger is installed as the log sink.
    pub closed spec fn spec_installed(&self) -> bool {
        self.installed
    }

    /// The bytes that a record sends once the severity filter has had its say:
    /// the formatter's rendering when the record's level passes the filter,
    /// nothing otherwise.
    pub open spec fn emitted(&self, record: LogRecord) -> Seq<u8> {
        if self.spec_filter().spec_admits(record.level) {
            render(self.spec_formatter().segments@, record)
        } else {
            Seq::empty()
        }
    }

    /// The logger before it is installed: the first serial port, the standard
    /// formatter, nothing let through.
    pub fn new() -> (r: Logger)
        ensures
            r.spec_base() == COM1_PORT,
            is_standard(r.spec_formatter().segments@),
            r.spec_filter() == LevelFilter::Off,
            !r.spec_installed(),
    {
        Logger { base: COM1_PORT, formatter: Formatter::standard(), filter: LevelFilter::Off, installed: false }
    }

    /// Whether the logger is installed as the log sink.
    pub fn is_installed(&self) -> (r: bool)
        ensures
            r == self.spec_installed(),
    {
        self.installed
    }

    /// The base address of the serial port that records go to.
    pub fn base(&self) -> (r: u16)
        ensures
            r == self.spec_base(),
    {
        self.base
    }

    /// The least severe level that is logged.
    pub fn filter(&self) -> (r: LevelFilter)
        ensures
            r == self.spec_filter(),
    {
        self.filter
    }

    /// The handle on the serial port that records go to.
    pub fn serial(&self) -> (r: Serial)
        ensures
            r.base == self.spec_base(),
    {
        Serial::new(self.base)
    }

    /// Whether the sink takes records of `level`: always, since records are
    /// filtered by severity before they reach the sink (see `dispatch`).
    pub fn enabled(&self, level: Level) -> (r: bool)
        ensures
            r == true,
    {
        true
    }

    /// Log `record`: append to `wire` the formatter's rendering of it, the bytes
    /// to send on the serial port. Bytes of earlier records stay before it,
    /// unchanged. Filtering by severity is not done here but in `dispatch`.
    pub fn log(&self, record: &LogRecord, wire: &mut Vec<u8>)
        ensures
            final(wire)@ == old(wire)@ + render(self.spec_formatter().segments@, *record),
    {
        self.formatter.format(wire, record);
    }

    /// Hand `record` on as the logging front end does: to `log` when its level
    /// passes the installed severity filter, and nowhere otherwise. The filter of
    /// a logger that is not installed is `Off`, so nothing passes before `setup`.
    pub fn dispatch(&self, record: &LogRecord, wire: &mut Vec<u8>)
        ensures
            final(wire)@ == old(wire)@ + self.emitted(*record),
    {
        if self.filter.admits(record.level) {
            self.log(record, wire);
        } else {
            assert(wire@ =~= wire@ + Seq::<u8>::empty());
        }
    }

    /// Records are written out at once: there is nothing to flush.
    pub fn flush(&self) {
    }
}

/// A configuration for the logger, applied by `setup`.
pub struct Builder {
    base: u16,
    filter: LevelFilter,
    formatter: Formatter,
}

/// What installing `b` on the logger `before` does: on a logger that is not
/// installed, it takes `b`'s port, filter and formatter, is installed, and the
/// port is programmed; on one that is installed, it fails and nothing changes.
pub open spec fn setup_post(
    b: Builder,
    before: Logger,
    after: Logger,
    r: Result<Seq<PortOp>, SetupError>,
) -> bool {
    if before.spec_installed() {
        r == Err::<Seq<PortOp>, SetupError>(SetupError::AlreadyInstalled) && after == before
    } else {
        &&& r == Ok::<Seq<PortOp>, SetupError>(init_ops(b.spec_base()))
        &&& after.spec_installed()
        &&& after.spec_base() == b.spec_base()
        &&& after.spec_filter() == b.spec_filter()
        &&& after.spec_formatter() == b.spec_formatter()
    }
}

/// The outcome of `setup` in spec terms.
pub open spec fn setup_view(r: Result<Vec<PortOp>, SetupError>) -> Result<Seq<PortOp>, SetupError> {
    match r {
        Ok(ops) => Ok(ops@),
        Err(e) => Err(e),
    }
}

impl Builder {
    /// The base address that the configuration sets.
    pub closed spec fn spec_base(&self) -> u16 {
        self.base
    }

    /// The severity filter that the configuration sets.
    pub closed spec fn spec_filter(&self) -> LevelFilter {
        self.filter
    }

    /// The formatter that the configuration sets.
    pub closed spec fn spec_formatter(&self) -> Formatter {
        self.formatter
    }

    /// The default configuration: the first serial port, records of level
    /// `Info` and more severe, the standard formatter.
    pub fn new() -> (r: Builder)
        ensures
            r.spec_base() == COM1_PORT,
            r.spec_filter() == LevelFilter::Info,
            is_standard(r.spec_formatter().segments@),
    {
        Builder { base: COM1_PORT, filter: LevelFilter::Info, formatter: Formatter::standard() }
    }

    /// Set the base address of the serial port.
    pub fn base(self, base: u16) -> (r: Builder)
        ensures
            r.spec_base() == base,
            r.spec_filter() == self.spec_filter(),
            r.spec_formatter() == self.spec_formatter(),
    {
        Builder { base, ..self }
    }

    /// Set the severity filter.
    pub fn filter(self, filter: LevelFilter) -> (r: Builder)
        ensures
            r.spec_base() == self.spec_base(),
            r.spec_filter() == filter,
            r.spec_formatter() == self.spec_formatter(),
    {
        Builder { filter, ..self }
    }

    /// Set the formatter.
    pub fn formatter(self, formatter: Formatter) -> (r: Builder)
        ensures
            r.spec_base() == self.spec_base(),
            r.spec_filter() == self.spec_filter(),
            r.spec_formatter() == formatter,
    {
        Builder { formatter, ..self }
    }

    /// Install the configuration on `logger`. On success the result holds the
    /// writes that program the serial port, to be made before anything is sent;
    /// when a logger is installed already it is `AlreadyInstalled`, and `logger`
    /// keeps its configuration.
    pub fn setup(self, logger: &mut Logger) -> (r: Result<Vec<PortOp>, SetupError>)
        ensures
            setup_post(self, *old(logger), *final(logger), setup_view(r)),
    {
        if logger.installed {
            return Err(SetupError::AlreadyInstalled);
        }
        let ops = Serial::new(self.base).init();
        logger.base = self.base;
        logger.formatter = self.formatter;
        logger.filter = self.filter;
        logger.installed = true;
        Ok(ops)
    }
}

/// A logger is installed once: the first `setup` on a fresh logger succeeds,
/// and a second one fails with `AlreadyInstalled` and leaves the first
/// configuration in place.
pub proof fn lemma_setup_once(
    l0: Logger,
    l1: Logger,
    l2: Logger,
    b1: Builder,
    b2: Builder,
    r1: Result<Seq<PortOp>, SetupError>,
    r2: Result<Seq<PortOp>, SetupError>,
)
    requires
        !l0.spec_installed(),
        setup_post(b1, l0, l1, r1),
        setup_post(b2, l1, l2, r2),
    ensures
        r1 is Ok,
        l1.spec_installed(),
        r2 == Err::<Seq<PortOp>, SetupError>(SetupError::AlreadyInstalled),
        l2 == l1,
        l2.spec_base() == b1.spec_base(),
        l2.spec_filter() == b1.spec_filter(),
        l2.spec_formatter() == b1.spec_formatter(),
{
}

/// A record whose level does not pass the filter never reaches the formatter:
/// dispatching it sends nothing, whatever the formatter.
pub proof fn lemma_filtered_sends_nothing(l: Logger, record: LogRecord)
    requires
        !l.spec_filter().spec_admits(record.level),
    ensures
        l.emitted(record) == Seq::<u8>::empty(),
{
}

/// The bytes that dispatching `records` one after another sends, in call order.
pub open spec fn emitted_all(l: Logger, records: Seq<LogRecord>) -> Seq<u8>
    decreases records.len(),
{
    if records.len() == 0 {
        Seq::empty()
    } else {
        emitted_all(l, records.drop_last()) + l.emitted(records.last())
    }
}

/// Dispatching records one after another leaves on the wire, after what was there,
/// the bytes of each record whole and in the order of the calls: `wires[i]` is
/// the wire before the `i`-th call and `wires[i + 1]` after it.
pub proof fn lemma_log_in_order(l: Logger, records: Seq<LogRecord>, wires: Seq<Seq<u8>>)
    requires
        wires.len() == records.len() + 1,
        forall|i: int|
            0 <= i < records.len() ==> #[trigger] wires[i + 1] == wires[i] + l.emitted(records[i]),
    ensures
        wires.last() == wires[0] + emitted_all(l, records),
    decreases records.len(),
{
    if records.len() == 0 {
        assert(wires[0] + Seq::<u8>::empty() =~= wires[0]);
    } else {
        let n = records.len() - 1;
        let rs = records.drop_last();
        let ws = wires.drop_last();
        assert forall|i: int| 0 <= i < rs.len() implies #[trigger] ws[i + 1] == ws[i] + l.emitted(
            rs[i],
        ) by {
            assert(wires[i + 1] == wires[i] + l.emitted(records[i]));
        }
        lemma_log_in_order(l, rs, ws);
        assert(wires[n + 1] == wires[n] + l.emitted(records[n]));
        assert(wires.last() =~= wires[0] + emitted_all(l, records));
    }
}

/// What installing the default settings with the filter `filter` does: as
/// `setup_post`, with the first serial port and the standard formatter.
pub open spec fn default_setup_post(
    filter: LevelFilter,
    before: Logger,
    after: Logger,
    r: Result<Seq<PortOp>, SetupError>,
) -> bool {
    if before.spec_installed() {
        r == Err::<Seq<PortOp>, SetupError>(SetupError::AlreadyInstalled) && after == before
    } else {
        &&& r == Ok::<Seq<PortOp>, SetupError>(init_ops(COM1_PORT))
        &&& after.spec_installed()
        &&& after.spec_base() == COM1_PORT
        &&& after.spec_filter() == filter
        &&& is_standard(after.spec_formatter().segments@)
    }
}

/// A configuration with the default settings.
pub fn builder() -> (r: Builder)
    ensures
        r.spec_base() == COM1_PORT,
        r.spec_filter() == LevelFilter::Info,
        is_standard(r.spec_formatter().segments@),
{
    Builder::new()
}

/// Install the logger with the default settings: the first serial port, level
/// `Info`, the standard formatter.
pub fn init(logger: &mut Logger) -> (r: Result<Vec<PortOp>, SetupError>)
    ensures
        default_setup_post(LevelFilter::Info, *old(logger), *final(logger), setup_view(r)),
{
    let b = builder().filter(LevelFilter::Info);
    b.setup(logger)
}

/// Install the logger with the default settings but the severity filter `filter`.
pub fn init_with_filter(logger: &mut Logger, filter: LevelFilter) -> (r: Result<
    Vec<PortOp>,
    SetupError,
>)
    ensures
        default_setup_post(filter, *old(logger), *final(logger), setup_view(r)),
{
    let b = builder().filter(filter);
    b.setup(logger)
}

} // verus!
