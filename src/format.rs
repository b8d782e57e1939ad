use vstd::prelude::*;
use vstd::utf8::encode_utf8;
use crate::level::Level;

verus! {

/// A log record: its severity, its message with the arguments already put in,
/// the tag of its origin, and where in the source it was made, when known.
#[derive(Debug)]
pub struct LogRecord {
    pub level: Level,
    pub message: String,
    pub target: String,
    pub file: Option<String>,
    pub line: Option<u32>,
}

/// One piece of a formatter's template.
#[derive(Debug)]
pub enum Segment {
    /// These bytes, as they are.
    Text(Vec<u8>),
    /// The severity's name, right-aligned in a field of 8.
    Level,
    /// The message.
    Message,
    /// The origin tag.
    Target,
    /// The source file, or `<unknown>`.
    File,
    /// The source line in decimal, or 0.
    Line,
}

/// How records are turned into text: a template of segments, rendered in order.
#[derive(Debug)]
pub struct Formatter {
    pub segments: Vec<Segment>,
}

/// The decimal digits of `n` in ASCII, without leading zeros.
pub open spec fn decimal(n: nat) -> Seq<u8>
    decreases n,
{
    if n < 10 {
        seq![(48 + n) as u8]
    } else {
        decimal(n / 10) + seq![(48 + n % 10) as u8]
    }
}

/// `text` right-aligned with spaces in a field of `width` bytes.
pub open spec fn right_aligned(text: Seq<u8>, width: nat) -> Seq<u8> {
    if text.len() >= width {
        text
    } else {
        Seq::new((width - text.len()) as nat, |i: int| 32u8) + text
    }
}

/// The bytes `<unknown>`.
pub open spec fn unknown_file() -> Seq<u8> {
    seq![60u8, 117u8, 110u8, 107u8, 110u8, 111u8, 119u8, 110u8, 62u8]
}

/// The source file of `r` in UTF-8, or `<unknown>`.
pub open spec fn file_text(r: LogRecord) -> Seq<u8> {
    match r.file {
        Some(f) => encode_utf8(f@),
        None => unknown_file(),
    }
}

/// The source line of `r` in decimal, or `0`.
pub open spec fn line_text(r: LogRecord) -> Seq<u8> {
    match r.line {
        Some(n) => decimal(n as nat),
        None => decimal(0),
    }
}

/// The standard line for `r`: `<level>: <message> (<target>, <file>:<line>)`
/// and a newline, the level right-aligned in a field of 8.
pub open spec fn default_line(r: LogRecord) -> Seq<u8> {
    right_aligned(r.level.spec_name(), 8) + seq![58u8, 32u8] + encode_utf8(r.message@) + seq![
        32u8,
        40u8,
    ] + encode_utf8(r.target@) + seq![44u8, 32u8] + file_text(r) + seq![58u8] + line_text(r)
        + seq![41u8, 10u8]
}

/// What the segment `s` renders to for the record `r`.
pub open spec fn render_segment(s: Segment, r: LogRecord) -> Seq<u8> {
    match s {
        Segment::Text(t) => t@,
        Segment::Level => right_aligned(r.level.spec_name(), 8),
        Segment::Message => encode_utf8(r.message@),
        Segment::Target => encode_utf8(r.target@),
        Segment::File => file_text(r),
        Segment::Line => line_text(r),
    }
}

/// What the segments `segs`, in order, render to for the record `r`.
pub open spec fn render(segs: Seq<Segment>, r: LogRecord) -> Seq<u8>
    decreases segs.len(),
{
    if segs.len() == 0 {
        Seq::empty()
    } else {
        render(segs.drop_last(), r) + render_segment(segs.last(), r)
    }
}

/// Whether `s` is the text segment of the bytes `b`.
pub open spec fn text_is(s: Segment, b: Seq<u8>) -> bool {
    match s {
        Segment::Text(t) => t@ == b,
        _ => false,
    }
}

/// Whether `segs` are the segments of the standard line.
pub open spec fn is_standard(segs: Seq<Segment>) -> bool {
    &&& segs.len() == 10
    &&& segs[0] is Level
    &&& text_is(segs[1], seq![58u8, 32u8])
    &&& segs[2] is Message
    &&& text_is(segs[3], seq![32u8, 40u8])
    &&& segs[4] is Target
    &&& text_is(segs[5], seq![44u8, 32u8])
    &&& segs[6] is File
    &&& text_is(segs[7], seq![58u8])
    &&& segs[8] is Line
    &&& text_is(segs[9], seq![41u8, 10u8])
}

fn push_bytes(out: &mut Vec<u8>, b: &[u8])
    ensures
        final(out)@ == old(out)@ + b@,
{
    let ghost start = out@;
    let mut i: usize = 0;
    while i < b.len()
        invariant
            i <= b.len(),
            out@ == start + b@.subrange(0, i as int),
        decreases b.len() - i,
    {
        assert(b@.subrange(0, i + 1) =~= b@.subrange(0, i as int).push(b[i as int]));
        out.push(b[i]);
        i = i + 1;
    }
    assert(b@.subrange(0, i as int) =~= b@);
}

fn push_text(out: &mut Vec<u8>, s: &String)
    ensures
        final(out)@ == old(out)@ + encode_utf8(s@),
{
    push_bytes(out, s.as_str().as_bytes());
}

fn push_decimal(out: &mut Vec<u8>, n: u32)
    ensures
        final(out)@ == old(out)@ + decimal(n as nat),
    decreases n,
{
    let ghost start = out@;
    if n >= 10 {
        push_decimal(out, n / 10);
    }
    let d: u8 = (48 + n % 10) as u8;
    out.push(d);
    if n >= 10 {
        assert(out@ =~= start + (decimal((n / 10) as nat) + seq![d]));
    } else {
        assert(out@ =~= start + decimal(n as nat));
    }
}

fn push_right_aligned(out: &mut Vec<u8>, text: &Vec<u8>, width: usize)
    ensures
        final(out)@ == old(out)@ + right_aligned(text@, width as nat),
{
    let ghost start = out@;
    let mut k: usize = text.len();
    while k < width
        invariant
            text.len() <= k <= width || (k == text.len() && k >= width),
            out@ == start + Seq::new((k - text.len()) as nat, |i: int| 32u8),
        decreases width - k,
    {
        out.push(32u8);
        k = k + 1;
        assert(out@ =~= start + Seq::new((k - text.len()) as nat, |i: int| 32u8));
    }
    let ghost pad = out@;
    push_bytes(out, text.as_slice());
    if text.len() >= width {
        assert(pad =~= start);
    }
}

fn push_segment(out: &mut Vec<u8>, s: &Segment, r: &LogRecord)
    ensures
        final(out)@ == old(out)@ + render_segment(*s, *r),
{
    match s {
        Segment::Text(t) => push_bytes(out, t.as_slice()),
        Segment::Level => push_right_aligned(out, &r.level.name(), 8),
        Segment::Message => push_text(out, &r.message),
        Segment::Target => push_text(out, &r.target),
        Segment::File => match &r.file {
            Some(f) => push_text(out, f),
            None => {
                let u = vec![60u8, 117u8, 110u8, 107u8, 110u8, 111u8, 119u8, 110u8, 62u8];
                assert(u@ =~= unknown_file());
                push_bytes(out, u.as_slice());
            },
        },
        Segment::Line => match r.line {
            Some(n) => push_decimal(out, n),
            None => push_decimal(out, 0),
        },
    }
}

impl Formatter {
    /// The formatter of the standard line: `<level>: <message> (<target>, <file>:<line>)`.
    pub fn standard() -> (r: Formatter)
        ensures
            is_standard(r.segments@),
    {
        let colon = vec![58u8, 32u8];
        let open = vec![32u8, 40u8];
        let comma = vec![44u8, 32u8];
        let sep = vec![58u8];
        let close = vec![41u8, 10u8];
        assert(colon@ =~= seq![58u8, 32u8]);
        assert(open@ =~= seq![32u8, 40u8]);
        assert(comma@ =~= seq![44u8, 32u8]);
        assert(sep@ =~= seq![58u8]);
        assert(close@ =~= seq![41u8, 10u8]);
        let r = Formatter {
            segments: vec![
                Segment::Level,
                Segment::Text(colon),
                Segment::Message,
                Segment::Text(open),
                Segment::Target,
                Segment::Text(comma),
                Segment::File,
                Segment::Text(sep),
                Segment::Line,
                Segment::Text(close),
            ],
        };
                r
    }

    /// A formatter made of the segments `segments`, in order.
    pub fn new(segments: Vec<Segment>) -> (r: Formatter)
        ensures
            r.segments@ == segments@,
    {
        Formatter { segments }
    }

    /// Render `record` and append the bytes to `out`.
    pub fn format(&self, out: &mut Vec<u8>, record: &LogRecord)
        ensures
            final(out)@ == old(out)@ + render(self.segments@, *record),
    {
        let ghost start = out@;
        let mut i: usize = 0;
        assert(self.segments@.subrange(0, 0) =~= Seq::<Segment>::empty());
        while i < self.segments.len()
            invariant
                i <= self.segments.len(),
                out@ == start + render(self.segments@.subrange(0, i as int), *record),
            decreases self.segments.len() - i,
        {
            assert(self.segments@.subrange(0, i + 1).drop_last() =~= self.segments@.subrange(0, i as int));
            push_segment(out, &self.segments[i], record);
            i = i + 1;
            assert(out@ =~= start + render(self.segments@.subrange(0, i as int), *record));
        }
        assert(self.segments@.subrange(0, i as int) =~= self.segments@);
    }
}

/// The standard segments render the standard line.
pub proof fn lemma_standard_renders_default_line(segs: Seq<Segment>, r: LogRecord)
    requires
        is_standard(segs),
    ensures
        render(segs, r) == default_line(r),
{
    reveal_with_fuel(render, 11);
    assert(segs.drop_last().drop_last().drop_last().drop_last().drop_last().drop_last().drop_last()
        .drop_last().drop_last().drop_last() =~= Seq::<Segment>::empty());
    assert(render(segs, r) =~= default_line(r));
}

/// The standard line for `record`: `<level>: <message> (<target>, <file>:<line>)`
/// and a newline, the level right-aligned in a field of 8, `<unknown>` for a
/// missing file and 0 for a missing line.
pub fn default_formatter(record: &LogRecord) -> (r: Vec<u8>)
    ensures
        r@ == default_line(*record),
{
    let mut out: Vec<u8> = Vec::new();
    let f = Formatter::standard();
    f.format(&mut out, record);
    proof {
        lemma_standard_renders_default_line(f.segments@, *record);
        assert(out@ =~= default_line(*record));
    }
    out
}

} // verus!
