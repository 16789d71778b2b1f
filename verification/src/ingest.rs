//! Order-book events as they are read from disk: framing of the records of
//! an event file, and the selection and ordering of the events of a run.

pub mod s3;

use vstd::prelude::*;

verus! {

/// One price level of a snapshot: price, size and number of orders.
#[derive(Debug, Clone, Copy, PartialEq, Eq, Structural)]
pub struct OrderLevel {
    pub px: u64,
    pub sz: u64,
    pub n: u64,
}

/// A full snapshot of the book: `levels[0]` holds the bids, `levels[1]` the asks.
#[derive(Debug, Clone)]
pub struct L2Event {
    pub ts_ms: u64,
    pub levels: Vec<Vec<OrderLevel>>,
}

/// Why events could not be prepared.
#[derive(Debug, Clone, Copy, PartialEq, Eq, Structural)]
pub enum IngestError {
    /// No event lies within the run's time range.
    NoEvents,
    /// The compressed frame cannot be decoded.
    CorruptFrame,
}

/// The events of a run as they come in, file by file.
#[derive(Debug, Clone)]
pub struct EventBuffer {
    start_ts: u64,
    end_ts: u64,
    events: Vec<L2Event>,
}

/// What an LZ4 frame decodes to; `None` where it does not decode.
pub uninterp spec fn lz4_frame_content(frame: Seq<u8>) -> Option<Seq<u8>>;

/// Picks the events within `[start_ts, end_ts]`.
pub open spec fn in_window(start_ts: u64, end_ts: u64) -> spec_fn(L2Event) -> bool {
    |e: L2Event| start_ts <= e.ts_ms <= end_ts
}

/// Picks the events at `ts_ms`.
pub open spec fn at_time(ts_ms: u64) -> spec_fn(L2Event) -> bool {
    |e: L2Event| e.ts_ms == ts_ms
}

/// Timestamps never descend along the sequence.
pub open spec fn time_ordered(events: Seq<L2Event>) -> bool {
    forall|i: int, j: int|
        0 <= i < j < events.len() ==> (#[trigger] events[i]).ts_ms <= (#[trigger] events[j]).ts_ms
}

/// The number of bytes that the white-space character at `at` takes in
/// UTF-8, or 0 where no such character is encoded there. White space
/// is what Unicode gives the property `White_Space`:
///
/// | Characters | Bytes |
/// |---|---|
/// | U+0009 to U+000D, U+0020 | the character's number |
/// | U+0085, U+00A0 | `C2 85`, `C2 A0` |
/// | U+1680 | `E1 9A 80` |
/// | U+2000 to U+200A | `E2 80 80` to `E2 80 8A` |
/// | U+2028, U+2029, U+202F | `E2 80 A8`, `E2 80 A9`, `E2 80 AF` |
/// | U+205F | `E2 81 9F` |
/// | U+3000 | `E3 80 80` |
pub open spec fn white_space_len(s: Seq<u8>, at: int) -> int {
    if 0 <= at < s.len() && (s[at] == 0x20 || 0x09 <= s[at] <= 0x0D) {
        1
    } else if 0 <= at && at + 1 < s.len() && s[at] == 0xC2 && (s[at + 1] == 0x85 || s[at + 1]
        == 0xA0) {
        2
    } else if 0 <= at && at + 2 < s.len() && ((s[at] == 0xE1 && s[at + 1] == 0x9A && s[at + 2]
        == 0x80) || (s[at] == 0xE2 && s[at + 1] == 0x80 && (0x80 <= s[at + 2] <= 0x8A || s[at + 2]
        == 0xA8 || s[at + 2] == 0xA9 || s[at + 2] == 0xAF)) || (s[at] == 0xE2 && s[at + 1] == 0x81
        && s[at + 2] == 0x9F) || (s[at] == 0xE3 && s[at + 1] == 0x80 && s[at + 2] == 0x80)) {
        3
    } else {
        0
    }
}

/// Whether the line holds white space only from `at` on.
pub open spec fn blank_from(line: Seq<u8>, at: int) -> bool
    decreases line.len() - at,
{
    if at >= line.len() {
        true
    } else {
        let k = white_space_len(line, at);
        k > 0 && blank_from(line, at + k)
    }
}

/// A line of white space only: empty, or the UTF-8 form of white-space
/// characters, one after the other.
pub open spec fn blank(line: Seq<u8>) -> bool {
    blank_from(line, 0)
}

/// The line from `start` up to `end`, as a record where it is not blank.
pub open spec fn record_at(data: Seq<u8>, start: int, end: int) -> Seq<(usize, usize)> {
    if blank(data.subrange(start, end)) {
        Seq::empty()
    } else {
        seq![(start as usize, end as usize)]
    }
}

/// The records from `pos` on, where the line that holds `pos` began at
/// `start`: lines end at a line feed or at the end of the data.
pub open spec fn records_from(data: Seq<u8>, start: int, pos: int) -> Seq<(usize, usize)>
    decreases data.len() - pos,
{
    if pos < 0 || start < 0 || start > pos {
        Seq::empty()
    } else if pos >= data.len() {
        if start < data.len() {
            record_at(data, start, data.len() as int)
        } else {
            Seq::empty()
        }
    } else if data[pos] == 0x0A {
        record_at(data, start, pos) + records_from(data, pos + 1, pos + 1)
    } else {
        records_from(data, start, pos + 1)
    }
}

/// The records of a file of lines: the byte range of every line that is not
/// blank, without its line feed, in the order of the file.
pub open spec fn records_of(data: Seq<u8>) -> Seq<(usize, usize)> {
    records_from(data, 0, 0)
}

/// Calls `Vec::sort_by_key` with the timestamp as key. The sort is stable:
/// afterwards the timestamps never descend, and the events of each timestamp
/// are those that were there, in the order in which they were.
#[verifier::external_body]
fn sort_by_time(events: &mut Vec<L2Event>)
    ensures
        time_ordered(final(events)@),
        final(events)@.len() == old(events)@.len(),
        forall|ts_ms: u64| #[trigger]
            final(events)@.filter(at_time(ts_ms)) == old(events)@.filter(at_time(ts_ms)),
{
    events.sort_by_key(|e| e.ts_ms);
}

/// Calls `lz4_flex::frame::FrameDecoder::new` on the bytes and reads the
/// decoder to its end. The content is named `lz4_frame_content`: it depends
/// on the bytes of the frame alone.
#[verifier::external_body]
fn decompress_frame(frame: &[u8]) -> (r: Option<Vec<u8>>)
    ensures
        match r {
            Some(content) => lz4_frame_content(frame@) == Some(content@),
            None => lz4_frame_content(frame@) is None,
        },
{
    let mut decoder = lz4_flex::frame::FrameDecoder::new(frame);
    let mut content = Vec::new();
    match std::io::Read::read_to_end(&mut decoder, &mut content) {
        Ok(_) => Some(content),
        Err(_) => None,
    }
}

/// The number of files that are read at once where `requested` names none:
/// the parallelism that the machine offers, but no more than eight, and four
/// where the machine does not tell.
pub fn io_concurrency(requested: Option<usize>, available: Option<usize>) -> (n: usize)
    ensures
        n == match requested {
            Some(r) => r,
            None => match available {
                Some(a) => if a <= 8 {
                    a
                } else {
                    8
                },
                None => 4,
            },
        },
{
    match requested {
        Some(r) => r,
        None => match available {
            Some(a) => if a <= 8 {
                a
            } else {
                8
            },
            None => 4,
        },
    }
}

/// Tells whether the bytes from `start` up to `end` are a blank line.
pub fn is_blank(data: &[u8], start: usize, end: usize) -> (r: bool)
    requires
        start <= end <= data@.len(),
    ensures
        r == blank(data@.subrange(start as int, end as int)),
{
    let ghost line = data@.subrange(start as int, end as int);
    let mut at: usize = start;
    while at < end
        invariant
            start <= at <= end <= data@.len(),
            line == data@.subrange(start as int, end as int),
            blank(line) == blank_from(line, at - start),
        decreases end - at,
    {
        let b = data[at];
        let left: usize = end - at;
        let k: usize = if b == 0x20 || (0x09 <= b && b <= 0x0D) {
            1
        } else if left >= 2 && b == 0xC2 && (data[at + 1] == 0x85 || data[at + 1] == 0xA0) {
            2
        } else if left >= 3 && ((b == 0xE1 && data[at + 1] == 0x9A && data[at + 2] == 0x80) || (b
            == 0xE2 && data[at + 1] == 0x80 && ((0x80 <= data[at + 2] && data[at + 2] <= 0x8A)
            || data[at + 2] == 0xA8 || data[at + 2] == 0xA9 || data[at + 2] == 0xAF)) || (b == 0xE2
            && data[at + 1] == 0x81 && data[at + 2] == 0x9F) || (b == 0xE3 && data[at + 1] == 0x80
            && data[at + 2] == 0x80)) {
            3
        } else {
            0
        };
        proof {
            let i = at - start;
            assert(line[i] == data@[at as int]);
            if left >= 2 {
                assert(line[i + 1] == data@[at + 1]);
            }
            if left >= 3 {
                assert(line[i + 2] == data@[at + 2]);
            }
            assert(k == white_space_len(line, i));
        }
        if k == 0 {
            return false;
        }
        at = at + k;
    }
    true
}

/// Finds the records of a file of lines: for each line that is not blank the
/// range of its bytes, from its first byte up to its line feed. A line is
/// blank where it holds nothing but white space, as Unicode defines it.
pub fn record_ranges(data: &[u8]) -> (ranges: Vec<(usize, usize)>)
    ensures
        ranges@ == records_of(data@),
{
    let n = data.len();
    let mut ranges: Vec<(usize, usize)> = Vec::new();
    let mut start: usize = 0;
    let mut pos: usize = 0;
    while pos < n
        invariant
            start <= pos <= n,
            n == data@.len(),
            records_of(data@) == ranges@ + records_from(data@, start as int, pos as int),
        decreases n - pos,
    {
        if data[pos] == 0x0A {
            if !is_blank(data, start, pos) {
                ranges.push((start, pos));
            }
            proof {
                assert(records_from(data@, start as int, pos as int) == record_at(
                    data@,
                    start as int,
                    pos as int,
                ) + records_from(data@, pos + 1, pos + 1));
            }
            start = pos + 1;
        }
        pos = pos + 1;
    }
    if start < n && !is_blank(data, start, n) {
        ranges.push((start, n));
    }
    ranges
}

/// Decodes a compressed event file: the content of the LZ4 frame, with the
/// ranges of its records. Fails where the frame does not decode.
pub fn decode_records(frame: &[u8]) -> (r: Result<(Vec<u8>, Vec<(usize, usize)>), IngestError>)
    ensures
        match r {
            Ok(decoded) => lz4_frame_content(frame@) == Some(decoded.0@) && decoded.1@
                == records_of(decoded.0@),
            Err(e) => e == IngestError::CorruptFrame && lz4_frame_content(frame@) is None,
        },
{
    match decompress_frame(frame) {
        Some(content) => {
            let ranges = record_ranges(content.as_slice());
            Ok((content, ranges))
        },
        None => Err(IngestError::CorruptFrame),
    }
}

impl View for EventBuffer {
    type V = Seq<L2Event>;

    closed spec fn view(&self) -> Seq<L2Event> {
        self.events@
    }
}

impl EventBuffer {
    /// The first timestamp of the run.
    pub closed spec fn start_ts(&self) -> u64 {
        self.start_ts
    }

    /// The last timestamp of the run.
    pub closed spec fn end_ts(&self) -> u64 {
        self.end_ts
    }

    /// A buffer for the events of a run over `[start_ts, end_ts]`.
    pub fn new(start_ts: u64, end_ts: u64) -> (buffer: Self)
        ensures
            buffer@.len() == 0,
            buffer.start_ts() == start_ts,
            buffer.end_ts() == end_ts,
    {
        EventBuffer { start_ts, end_ts, events: Vec::new() }
    }

    /// Takes the events of one file: those within the run's range are kept,
    /// behind those that came before.
    pub fn add_batch(&mut self, batch: Vec<L2Event>)
        ensures
            final(self).start_ts() == old(self).start_ts(),
            final(self).end_ts() == old(self).end_ts(),
            final(self)@ == old(self)@ + batch@.filter(
                in_window(old(self).start_ts(), old(self).end_ts()),
            ),
    {
        let ghost keep = in_window(self.start_ts, self.end_ts);
        let ghost before = self.events@;
        let start_ts = self.start_ts;
        let end_ts = self.end_ts;
        let mut batch = batch;
        let ghost all = batch@;
        let n = batch.len();
        // The events are taken from the back and put back in order.
        let mut kept: Vec<L2Event> = Vec::new();
        let mut left: usize = n;
        proof {
            assert(all.take(n as int) =~= all);
            assert(all.skip(n as int) =~= Seq::<L2Event>::empty());
            assert(kept@.reverse() =~= Seq::<L2Event>::empty());
        }
        while left > 0
            invariant
                left == batch@.len(),
                left <= n,
                n == all.len(),
                batch@ == all.take(left as int),
                kept@.reverse() == all.skip(left as int).filter(keep),
                keep == in_window(start_ts, end_ts),
            decreases left,
        {
            let ghost full = batch@;
            let event = batch.pop().unwrap();
            left = left - 1;
            proof {
                assert(event == full[left as int]);
                assert(event == all[left as int]);
                assert(batch@ =~= all.take(left as int));
                let tail = all.skip(left + 1);
                let with = all.skip(left as int);
                assert(with =~= seq![event] + tail);
                tail.lemma_filter_prepend(event, keep);
            }
            if event.ts_ms >= start_ts && event.ts_ms <= end_ts {
                let ghost old_kept = kept@;
                kept.push(event);
                proof {
                    assert(kept@.reverse() =~= seq![event] + old_kept.reverse());
                }
            }
        }
        proof {
            assert(all.skip(0) =~= all);
        }
        let mut m: usize = kept.len();
        while m > 0
            invariant
                m == kept@.len(),
                self.start_ts == start_ts,
                self.end_ts == end_ts,
                self.events@ + kept@.reverse() == before + all.filter(keep),
            decreases m,
        {
            let ghost old_kept = kept@;
            let ghost old_events = self.events@;
            let event = kept.pop().unwrap();
            m = m - 1;
            self.events.push(event);
            proof {
                assert(old_kept.reverse() =~= seq![event] + kept@.reverse());
                assert(self.events@ + kept@.reverse() =~= old_events + old_kept.reverse());
            }
        }
        proof {
            assert(kept@.reverse() =~= Seq::<L2Event>::empty());
            assert(self.events@ + kept@.reverse() =~= self.events@);
        }
    }

    /// The events of the run in the order of their timestamps; events of one
    /// timestamp stay in the order in which they came. A run without events
    /// is an error.
    pub fn into_sorted(self) -> (r: Result<Vec<L2Event>, IngestError>)
        ensures
            match r {
                Ok(events) => {
                    &&& events@.len() == self@.len()
                    &&& events@.len() > 0
                    &&& time_ordered(events@)
                    &&& forall|ts_ms: u64| #[trigger]
                        events@.filter(at_time(ts_ms)) == self@.filter(at_time(ts_ms))
                },
                Err(e) => e == IngestError::NoEvents && self@.len() == 0,
            },
    {
        let mut events = self.events;
        sort_by_time(&mut events);
        if events.len() == 0 {
            return Err(IngestError::NoEvents);
        }
        Ok(events)
    }
}

} // verus!
