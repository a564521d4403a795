use vstd::prelude::*;
use vstd::utf8::{decode_utf8, encode_utf8, valid_utf8};
use std::collections::VecDeque;

verus! {

/// Upper bound, in bytes, on the text that one process log retains.
pub const LOG_CAP_BYTES: usize = 524288;

/// The output stream that a chunk of text came from.
#[derive(Clone, Copy, Debug, PartialEq, Eq, Structural)]
pub enum LogStream {
    Stdout,
    Stderr,
}

impl LogStream {
    pub open spec fn spec_name(self) -> Seq<char> {
        match self {
            LogStream::Stdout => "stdout"@,
            LogStream::Stderr => "stderr"@,
        }
    }

    /// The tag under which entries of this stream are reported.
    pub fn as_str(self) -> (r: &'static str)
        ensures
            r@ == self.spec_name(),
    {
        match self {
            LogStream::Stdout => "stdout",
            LogStream::Stderr => "stderr",
        }
    }
}

/// One captured chunk of output.
#[derive(Debug, PartialEq, Eq)]
pub struct LogEntry {
    pub stream: LogStream,
    pub text: String,
}

impl View for LogEntry {
    type V = (LogStream, Seq<char>);

    open spec fn view(&self) -> (LogStream, Seq<char>) {
        (self.stream, self.text@)
    }
}

impl Clone for LogEntry {
    fn clone(&self) -> (r: Self)
        ensures
            r == *self,
    {
        LogEntry { stream: self.stream, text: self.text.clone() }
    }
}

/// An entry as handed to callers: the stream rendered as its tag.
#[derive(Clone, Debug, PartialEq, Eq)]
pub struct BackgroundProcessLogEntry {
    pub stream: String,
    pub text: String,
}

/// The size of a text in bytes, as `str::len` reports it.
pub open spec fn byte_size(text: Seq<char>) -> nat {
    (encode_utf8(text).len() as usize) as nat
}

/// Total size in bytes of the texts of a sequence of entries.
pub open spec fn total_size(es: Seq<(LogStream, Seq<char>)>) -> nat
    decreases es.len(),
{
    if es.len() == 0 {
        0
    } else {
        byte_size(es[0].1) + total_size(es.drop_first())
    }
}

/// What remains of `es` once the oldest entries are dropped, one at a time,
/// while the total exceeds the cap; the newest entry always stays.
pub open spec fn evicted(es: Seq<(LogStream, Seq<char>)>) -> Seq<(LogStream, Seq<char>)>
    decreases es.len(),
{
    if es.len() > 1 && total_size(es) > LOG_CAP_BYTES as nat {
        evicted(es.drop_first())
    } else {
        es
    }
}

/// The text that lossy UTF-8 decoding gives for a byte sequence.
pub uninterp spec fn lossy_text(bytes: Seq<u8>) -> Seq<char>;

/// Relies on `String::from_utf8_lossy`: the text depends on the bytes alone,
/// and bytes that are valid UTF-8 decode to exactly the text they encode.
#[verifier::external_body]
fn decode_lossy(chunk: &[u8]) -> (r: String)
    ensures
        r@ == lossy_text(chunk@),
        valid_utf8(chunk@) ==> r@ == decode_utf8(chunk@),
{
    String::from_utf8_lossy(chunk).into_owned()
}

/// The log after appending a chunk of `stream` to a log holding `es`.
pub open spec fn appended(
    es: Seq<(LogStream, Seq<char>)>,
    stream: LogStream,
    chunk: Seq<u8>,
) -> Seq<(LogStream, Seq<char>)> {
    if chunk.len() == 0 {
        es
    } else {
        evicted(es.push((stream, lossy_text(chunk))))
    }
}

proof fn lemma_total_size_push(es: Seq<(LogStream, Seq<char>)>, e: (LogStream, Seq<char>))
    ensures
        total_size(es.push(e)) == total_size(es) + byte_size(e.1),
    decreases es.len(),
{
    if es.len() == 0 {
        assert(es.push(e).drop_first() =~= es);
    } else {
        assert(es.push(e).drop_first() =~= es.drop_first().push(e));
        lemma_total_size_push(es.drop_first(), e);
    }
}

/// The views of a sequence of entries.
pub open spec fn entries_view(s: Seq<LogEntry>) -> Seq<(LogStream, Seq<char>)> {
    s.map_values(|e: LogEntry| e@)
}

/// A bounded, ordered log of captured output.
pub struct ProcessLog {
    entries: VecDeque<LogEntry>,
    total_bytes: usize,
}

impl View for ProcessLog {
    type V = Seq<(LogStream, Seq<char>)>;

    closed spec fn view(&self) -> Seq<(LogStream, Seq<char>)> {
        entries_view(self.entries@)
    }
}

impl ProcessLog {
    /// The retained text fits the cap, unless a single entry is all that is retained.
    pub closed spec fn wf(&self) -> bool {
        &&& self.total_bytes as nat == total_size(self@)
        &&& (total_size(self@) <= LOG_CAP_BYTES as nat || self@.len() == 1)
    }

    pub fn new() -> (r: Self)
        ensures
            r.wf(),
            r@ == Seq::<(LogStream, Seq<char>)>::empty(),
    {
        let r = ProcessLog { entries: VecDeque::new(), total_bytes: 0 };
        assert(r@ =~= Seq::<(LogStream, Seq<char>)>::empty());
        r
    }

    /// Decodes `chunk` and appends it as one entry, then evicts the oldest
    /// entries until the cap holds again. An empty chunk changes nothing.
    pub fn append(&mut self, stream: LogStream, chunk: &[u8])
        requires
            old(self).wf(),
        ensures
            final(self).wf(),
            final(self)@ == appended(old(self)@, stream, chunk@),
            byte_size(lossy_text(chunk@)) > LOG_CAP_BYTES as nat ==> final(self)@ == seq![
                (stream, lossy_text(chunk@)),
            ],
            chunk@.len() > 0 && byte_size(lossy_text(chunk@)) <= LOG_CAP_BYTES as nat
                ==> total_size(final(self)@) <= LOG_CAP_BYTES as nat,
    {
        let text = decode_lossy(chunk);
        if chunk.len() == 0 {
            proof {
                assert(chunk@ =~= Seq::<u8>::empty());
                assert(valid_utf8(chunk@));
                assert(decode_utf8(chunk@) =~= Seq::<char>::empty());
                assert(encode_utf8(Seq::<char>::empty()) =~= Seq::<u8>::empty());
            }
            return;
        }
        proof {
            lemma_append_within_cap(old(self)@, stream, chunk@);
        }
        let size = text.as_str().len();
        let ghost e = (stream, text@);
        let ghost target = evicted(old(self)@.push(e));
        while self.entries.len() > 0 && (size > LOG_CAP_BYTES || self.total_bytes > LOG_CAP_BYTES
            - size)
            invariant
                self.wf(),
                size as nat == byte_size(e.1),
                evicted(self@.push(e)) == target,
            decreases self.entries@.len(),
        {
            let ghost pre = self@;
            proof {
                lemma_total_size_push(pre, e);
                assert(pre.push(e).drop_first() =~= pre.drop_first().push(e));
            }
            match self.entries.pop_front() {
                Some(front) => {
                    assert(self@ =~= pre.drop_first());
                    let front_size = front.text.as_str().len();
                    self.total_bytes = self.total_bytes - front_size;
                },
                None => {},
            }
        }
        let ghost pre = self@;
        proof {
            lemma_total_size_push(pre, e);
        }
        self.total_bytes = self.total_bytes + size;
        self.entries.push_back(LogEntry { stream, text });
        assert(self@ =~= pre.push(e));
    }

    /// An independent copy of the retained entries, oldest first.
    pub fn snapshot(&self) -> (r: Vec<LogEntry>)
        ensures
            entries_view(r@) == self@,
    {
        let mut r: Vec<LogEntry> = Vec::new();
        let mut i: usize = 0;
        while i < self.entries.len()
            invariant
                i <= self.entries@.len(),
                entries_view(r@) == self@.take(i as int),
            decreases self.entries@.len() - i,
        {
            let e = self.entries[i].clone();
            let ghost pre = r@;
            r.push(e);
            assert(r@ =~= pre.push(e));
            assert(e@ == self@[i as int]);
            assert(entries_view(pre.push(e)) =~= entries_view(pre).push(e@));
            assert(self@.take(i as int + 1) =~= self@.take(i as int).push(self@[i as int]));
            i = i + 1;
            assert(entries_view(r@) =~= self@.take(i as int));
        }
        assert(self@.take(i as int) =~= self@);
        r
    }

    /// The retained entries with each stream rendered as its tag.
    pub fn rendered(&self) -> (r: Vec<BackgroundProcessLogEntry>)
        ensures
            r@.len() == self@.len(),
            forall|i: int|
                0 <= i < r@.len() ==> (#[trigger] r@[i]).stream@ == self@[i].0.spec_name()
                    && r@[i].text@ == self@[i].1,
    {
        let mut r: Vec<BackgroundProcessLogEntry> = Vec::new();
        let mut i: usize = 0;
        while i < self.entries.len()
            invariant
                i <= self.entries@.len(),
                r@.len() == i,
                forall|j: int|
                    0 <= j < i ==> (#[trigger] r@[j]).stream@ == self@[j].0.spec_name()
                        && r@[j].text@ == self@[j].1,
            decreases self.entries@.len() - i,
        {
            let e = &self.entries[i];
            let stream = e.stream.as_str().to_owned();
            r.push(BackgroundProcessLogEntry { stream, text: e.text.clone() });
            i = i + 1;
        }
        r
    }
}

/// Reads one pump step: `None` is a failed read, an empty chunk is the end of
/// the stream, anything else is appended. Returns whether to keep reading.
pub fn pump_step(log: &mut ProcessLog, stream: LogStream, read: Option<&[u8]>) -> (keep_reading:
    bool)
    requires
        old(log).wf(),
    ensures
        final(log).wf(),
        keep_reading == (read is Some && read.unwrap()@.len() > 0),
        keep_reading ==> final(log)@ == appended(old(log)@, stream, read.unwrap()@),
        !keep_reading ==> final(log)@ == old(log)@,
{
    match read {
        Some(chunk) => {
            if chunk.len() == 0 {
                false
            } else {
                log.append(stream, chunk);
                true
            }
        },
        None => false,
    }
}

/// Eviction keeps a non-empty suffix of the entries: the oldest go first.
proof fn lemma_evicted_suffix(es: Seq<(LogStream, Seq<char>)>) -> (k: int)
    requires
        es.len() > 0,
    ensures
        0 <= k < es.len(),
        evicted(es) == es.subrange(k, es.len() as int),
        total_size(evicted(es)) <= LOG_CAP_BYTES as nat || evicted(es).len() == 1,
    decreases es.len(),
{
    if es.len() > 1 && total_size(es) > LOG_CAP_BYTES as nat {
        let j = lemma_evicted_suffix(es.drop_first());
        assert(es.drop_first().subrange(j, es.len() - 1) =~= es.subrange(j + 1, es.len() as int));
        j + 1
    } else {
        assert(es.subrange(0, es.len() as int) =~= es);
        0
    }
}

/// After any append the retained text fits the cap, unless the new entry
/// alone exceeds it, in which case that entry alone is retained, in full.
pub proof fn lemma_append_within_cap(
    es: Seq<(LogStream, Seq<char>)>,
    stream: LogStream,
    chunk: Seq<u8>,
)
    requires
        chunk.len() > 0,
    ensures
        total_size(appended(es, stream, chunk)) <= LOG_CAP_BYTES as nat || (byte_size(
            lossy_text(chunk),
        ) > LOG_CAP_BYTES as nat && appended(es, stream, chunk) == seq![
            (stream, lossy_text(chunk)),
        ]),
{
    let s = es.push((stream, lossy_text(chunk)));
    let k = lemma_evicted_suffix(s);
    let r = evicted(s);
    if r.len() == 1 && total_size(r) > LOG_CAP_BYTES as nat {
        assert(r[0] == s[s.len() - 1]);
        assert(r.drop_first() =~= Seq::<(LogStream, Seq<char>)>::empty());
        assert(total_size(r.drop_first()) == 0);
        assert(r =~= seq![(stream, lossy_text(chunk))]);
    }
}

/// An append drops only the oldest entries, and never the entry it adds:
/// the result is the old entries less some prefix, followed by the new one.
pub proof fn lemma_append_evicts_oldest(
    es: Seq<(LogStream, Seq<char>)>,
    stream: LogStream,
    chunk: Seq<u8>,
)
    requires
        chunk.len() > 0,
    ensures
        exists|k: int|
            0 <= k <= es.len() && #[trigger] appended(es, stream, chunk) == es.subrange(
                k,
                es.len() as int,
            ).push((stream, lossy_text(chunk))),
{
    let e = (stream, lossy_text(chunk));
    let s = es.push(e);
    let k = lemma_evicted_suffix(s);
    assert(s.subrange(k, s.len() as int) =~= es.subrange(k, es.len() as int).push(e));
}

/// The entries that a sequence of chunks decodes to.
pub open spec fn decoded(chunks: Seq<(LogStream, Seq<u8>)>) -> Seq<(LogStream, Seq<char>)> {
    chunks.map_values(|c: (LogStream, Seq<u8>)| (c.0, lossy_text(c.1)))
}

/// The log after appending each chunk in turn, starting from `es`.
pub open spec fn appended_all(
    es: Seq<(LogStream, Seq<char>)>,
    chunks: Seq<(LogStream, Seq<u8>)>,
) -> Seq<(LogStream, Seq<char>)>
    decreases chunks.len(),
{
    if chunks.len() == 0 {
        es
    } else {
        let last = chunks.last();
        appended(appended_all(es, chunks.drop_last()), last.0, last.1)
    }
}

/// Appending non-empty chunks to an empty log, with a total under the cap,
/// retains exactly those entries, in the order they were appended.
pub proof fn lemma_appends_under_cap_kept(chunks: Seq<(LogStream, Seq<u8>)>)
    requires
        forall|i: int| 0 <= i < chunks.len() ==> (#[trigger] chunks[i]).1.len() > 0,
        total_size(decoded(chunks)) <= LOG_CAP_BYTES as nat,
    ensures
        appended_all(Seq::empty(), chunks) == decoded(chunks),
    decreases chunks.len(),
{
    if chunks.len() == 0 {
        assert(decoded(chunks) =~= Seq::<(LogStream, Seq<char>)>::empty());
    } else {
        let front = chunks.drop_last();
        let last = chunks.last();
        let e = (last.0, lossy_text(last.1));
        assert(decoded(chunks) =~= decoded(front).push(e));
        lemma_total_size_push(decoded(front), e);
        assert forall|i: int| 0 <= i < front.len() implies (#[trigger] front[i]).1.len() > 0 by {
            assert(front[i] == chunks[i]);
        }
        lemma_appends_under_cap_kept(front);
        assert(chunks[chunks.len() - 1].1.len() > 0);
    }
}

} // verus!
