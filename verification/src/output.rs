//! What a worker prints, and what that tells about it.
//!
//! Everything a worker prints goes to the log, each line tagged with the
//! worker's address. A line on standard error that announces the API's
//! documentation page says that the worker is serving.

use crate::text::{address, contains};
use vstd::prelude::*;

verus! {

/// How long a worker may take to announce that it is serving.
pub const READY_TIMEOUT_SECS: u64 = 30;

/// How long a worker that announced itself is left alone before it is used.
pub const SETTLE_MILLIS: u64 = 100;

/// `line` as the worker at `tag` printed it.
pub open spec fn tagged_text(tag: Seq<char>, line: Seq<char>) -> Seq<char> {
    "["@ + tag + "] "@ + line
}

/// Tags a line of output.
pub fn tagged(tag: &str, line: &str) -> (text: String)
    ensures
        text@ == tagged_text(tag@, line@),
{
    let mut text = "[".to_owned();
    text.append(tag);
    text.append("] ");
    text.append(line);
    text
}

/// Whether `line` announces that the worker is serving.
pub open spec fn announces(line: Seq<char>) -> bool {
    crate::text::has_phrase(line, "Running swagger"@) || crate::text::has_phrase(
        line,
        "Running rapidoc"@,
    )
}

/// What the log says once a worker has closed its standard error.
pub open spec fn closed_text(tag: Seq<char>) -> Seq<char> {
    tagged_text(tag, "worker stderr closed (process exited)"@)
}

/// What is left of `raw` without the end of the line, `\n` or `\r\n`.
pub open spec fn without_line_end(raw: Seq<u8>) -> Seq<u8> {
    if raw.len() > 0 && raw.last() == 10 {
        let line = raw.drop_last();
        if line.len() > 0 && line.last() == 13 {
            line.drop_last()
        } else {
            line
        }
    } else {
        raw
    }
}

/// Takes the end of the line, if there is one, off what was read.
pub fn strip_line_end(raw: Vec<u8>) -> (line: Vec<u8>)
    ensures
        line@ == without_line_end(raw@),
{
    let mut line = raw;
    if line.len() > 0 && line[line.len() - 1] == 10 {
        line.pop();
        if line.len() > 0 && line[line.len() - 1] == 13 {
            line.pop();
        }
    }
    line
}

/// What `String::from_utf8_lossy` makes of `bytes`.
pub uninterp spec fn lossy_text(bytes: Seq<u8>) -> Seq<char>;

/// Calls `String::from_utf8_lossy`.
///
/// Claimed: the text depends on the bytes alone, and bytes that are valid UTF-8
/// are decoded as they stand. What the others are decoded to is left unsaid.
#[verifier::external_body]
fn decode(bytes: &Vec<u8>) -> (text: String)
    ensures
        text@ == lossy_text(bytes@),
        vstd::utf8::valid_utf8(bytes@) ==> text@ == vstd::utf8::decode_utf8(bytes@),
{
    String::from_utf8_lossy(bytes).into_owned()
}

/// The line that a worker wrote as `raw`, bytes up to and with the end of the
/// line.
pub open spec fn line_text(raw: Seq<u8>) -> Seq<char> {
    lossy_text(without_line_end(raw))
}

/// `line` is what a worker wrote as `raw`: where that is valid UTF-8, its decoding
/// without the end of the line.
pub open spec fn is_written_as(line: Seq<char>, raw: Seq<u8>) -> bool {
    &&& line == line_text(raw)
    &&& vstd::utf8::valid_utf8(without_line_end(raw)) ==> line == vstd::utf8::decode_utf8(
        without_line_end(raw),
    )
}

/// Reads a line as a worker wrote it.
pub fn read_line(raw: Vec<u8>) -> (line: String)
    ensures
        is_written_as(line@, raw@),
{
    decode(&strip_line_end(raw))
}

/// Reads a line as a worker wrote it, and tags it.
pub fn tagged_raw(tag: &str, raw: Vec<u8>) -> (text: String)
    ensures
        text@ == tagged_text(tag@, line_text(raw@)),
        is_written_as(line_text(raw@), raw@),
{
    tagged(tag, read_line(raw).as_str())
}

/// The reader of a worker's standard error.
#[derive(Debug)]
pub struct StderrReader {
    /// The worker's address.
    pub tag: String,
    /// Whether the worker has been reported ready.
    pub signalled: bool,
}

/// What becomes of a line.
#[derive(Debug)]
pub struct LineReport {
    /// What goes to the log.
    pub log: String,
    /// Whether the worker is to be reported ready now.
    pub ready: bool,
}

impl StderrReader {
    /// A reader that was `self` has taken in `line` with `report`, and is `after`.
    pub open spec fn took_in(
        self,
        line: Seq<char>,
        after: StderrReader,
        report: LineReport,
    ) -> bool {
        &&& report.log@ == tagged_text(self.tag@, line)
        &&& report.ready <==> !self.signalled && announces(line)
        &&& after.signalled <==> self.signalled || announces(line)
        &&& after.tag == self.tag
    }

    /// A reader for the worker at `host:port`, before its first line.
    pub fn new(host: &str, port: u16) -> (reader: Self)
        ensures
            reader.tag@ == crate::text::address_text(host@, port),
            !reader.signalled,
    {
        StderrReader { tag: address(host, port), signalled: false }
    }

    /// Takes in a line.
    pub fn line(&mut self, line: &str) -> (report: LineReport)
        ensures
            old(self).took_in(line@, *final(self), report),
            report.ready <==> !old(self).signalled && (crate::text::has_phrase(
                line@,
                "Running swagger"@,
            ) || crate::text::has_phrase(line@, "Running rapidoc"@)),
    {
        let ready = !self.signalled && (contains(line, "Running swagger") || contains(
            line,
            "Running rapidoc",
        ));
        if ready {
            self.signalled = true;
        }
        LineReport { log: tagged(self.tag.as_str(), line), ready }
    }

    /// Takes in a line as the worker wrote it.
    pub fn raw_line(&mut self, raw: Vec<u8>) -> (report: LineReport)
        ensures
            old(self).took_in(line_text(raw@), *final(self), report),
            is_written_as(line_text(raw@), raw@),
    {
        self.line(read_line(raw).as_str())
    }

    /// The last line of the log, once there is nothing more to read.
    pub fn closed(&self) -> (log: String)
        ensures
            log@ == closed_text(self.tag@),
    {
        tagged(self.tag.as_str(), "worker stderr closed (process exited)")
    }
}

/// How the wait for a worker to announce itself ended.
#[derive(Clone, Copy, Debug, PartialEq, Eq, Structural)]
pub enum Readiness {
    /// It announced itself.
    Announced,
    /// It exited before that.
    Exited,
    /// It did not do so within `READY_TIMEOUT_SECS`.
    TimedOut,
}

/// How long to wait on before the worker is used, where it is ready. One that is
/// not is used all the same: the health check finds it out.
pub fn settle(readiness: Readiness) -> (millis: Option<u64>)
    ensures
        millis == (if readiness == Readiness::Announced {
            Some(SETTLE_MILLIS)
        } else {
            None
        }),
{
    match readiness {
        Readiness::Announced => Some(SETTLE_MILLIS),
        Readiness::Exited => None,
        Readiness::TimedOut => None,
    }
}

/// `readers` are the states of one reader that takes in `lines` with `reports`,
/// one after the other.
pub open spec fn reads(
    readers: Seq<StderrReader>,
    lines: Seq<Seq<char>>,
    reports: Seq<LineReport>,
) -> bool {
    &&& readers.len() == lines.len() + 1
    &&& reports.len() == lines.len()
    &&& forall|i: int|
        0 <= i < lines.len() ==> (#[trigger] readers[i]).took_in(
            lines[i],
            readers[i + 1],
            reports[i],
        )
}

/// What the log holds of `lines`, printed by the worker at `tag` on its standard
/// output: each of them, in order, under its tag.
pub open spec fn stdout_log(tag: Seq<char>, lines: Seq<Seq<char>>) -> Seq<Seq<char>> {
    lines.map_values(|line: Seq<char>| tagged_text(tag, line))
}

/// What the log holds of `lines`, printed on standard error: the same, and at the
/// end that there is no more to come.
pub open spec fn stderr_log(tag: Seq<char>, lines: Seq<Seq<char>>) -> Seq<Seq<char>> {
    stdout_log(tag, lines).push(closed_text(tag))
}

proof fn lemma_reader_keeps_tag(
    readers: Seq<StderrReader>,
    lines: Seq<Seq<char>>,
    reports: Seq<LineReport>,
    i: int,
)
    requires
        reads(readers, lines, reports),
        0 <= i <= lines.len(),
    ensures
        readers[i].tag == readers[0].tag,
        readers[i].signalled <==> readers[0].signalled || exists|j: int|
            0 <= j < i && announces(#[trigger] lines[j]),
    decreases i,
{
    if i > 0 {
        lemma_reader_keeps_tag(readers, lines, reports, i - 1);
        assert(readers[i - 1].took_in(lines[i - 1], readers[i], reports[i - 1]));
        if announces(lines[i - 1]) {
            assert(exists|j: int| 0 <= j < i && announces(#[trigger] lines[j]));
        }
    }
}

/// Everything a worker prints on its standard error goes to the log, in order and
/// under its tag, before as after it was reported ready, and then that it is
/// closed: the logs of the lines and of the end make up `stderr_log`.
pub proof fn law_whole_stderr_is_logged(
    readers: Seq<StderrReader>,
    lines: Seq<Seq<char>>,
    reports: Seq<LineReport>,
    closing: Seq<char>,
)
    requires
        reads(readers, lines, reports),
        closing == closed_text(readers.last().tag@),
    ensures
        reports.map_values(|r: LineReport| r.log@).push(closing) == stderr_log(
            readers[0].tag@,
            lines,
        ),
{
    let logs = reports.map_values(|r: LineReport| r.log@);
    assert forall|i: int| 0 <= i < lines.len() implies #[trigger] logs[i] == tagged_text(
        readers[0].tag@,
        lines[i],
    ) by {
        lemma_reader_keeps_tag(readers, lines, reports, i);
        assert(readers[i].took_in(lines[i], readers[i + 1], reports[i]));
    }
    assert(logs =~= stdout_log(readers[0].tag@, lines));
    lemma_reader_keeps_tag(readers, lines, reports, lines.len() as int);
}

/// Everything a worker prints on its standard output goes to the log, in order
/// and under its tag: where each line has been tagged, the texts make up
/// `stdout_log`.
pub proof fn law_whole_stdout_is_logged(
    tag: Seq<char>,
    lines: Seq<Seq<char>>,
    texts: Seq<String>,
)
    requires
        texts.len() == lines.len(),
        forall|i: int|
            0 <= i < lines.len() ==> (#[trigger] texts[i])@ == tagged_text(tag, lines[i]),
    ensures
        texts.map_values(|t: String| t@) == stdout_log(tag, lines),
{
    assert(texts.map_values(|t: String| t@) =~= stdout_log(tag, lines));
}

/// The log follows what a worker wrote: each of `raws`, in order and whatever it
/// holds, stands in the log under the worker's tag, and the text of one that is
/// valid UTF-8 encodes to the very bytes that were written, without the end of the
/// line.
pub proof fn law_log_follows_what_was_written(
    readers: Seq<StderrReader>,
    raws: Seq<Seq<u8>>,
    lines: Seq<Seq<char>>,
    reports: Seq<LineReport>,
    closing: Seq<char>,
)
    requires
        reads(readers, lines, reports),
        closing == closed_text(readers.last().tag@),
        raws.len() == lines.len(),
        forall|i: int| 0 <= i < raws.len() ==> is_written_as(#[trigger] lines[i], raws[i]),
    ensures
        reports.map_values(|r: LineReport| r.log@).push(closing) == stderr_log(
            readers[0].tag@,
            raws.map_values(|raw: Seq<u8>| line_text(raw)),
        ),
        forall|i: int|
            0 <= i < raws.len() && vstd::utf8::valid_utf8(without_line_end(#[trigger] raws[i]))
                ==> vstd::utf8::encode_utf8(lines[i]) == without_line_end(raws[i]),
{
    broadcast use vstd::utf8::decode_utf8_encode_utf8;

    law_whole_stderr_is_logged(readers, lines, reports, closing);
    assert(lines =~= raws.map_values(|raw: Seq<u8>| line_text(raw)));
    assert forall|i: int|
        0 <= i < raws.len() && vstd::utf8::valid_utf8(
            without_line_end(#[trigger] raws[i]),
        ) implies vstd::utf8::encode_utf8(lines[i]) == without_line_end(raws[i]) by {
        assert(is_written_as(lines[i], raws[i]));
    }
}

/// What was logged stays: more output only adds to the log.
pub proof fn law_log_only_grows(tag: Seq<char>, lines: Seq<Seq<char>>, more: Seq<Seq<char>>)
    ensures
        stdout_log(tag, lines + more) == stdout_log(tag, lines) + stdout_log(tag, more),
{
    assert(stdout_log(tag, lines + more) =~= stdout_log(tag, lines) + stdout_log(tag, more));
}

/// A worker is reported ready at its first announcement.
pub proof fn law_ready_at_first_announcement(
    readers: Seq<StderrReader>,
    lines: Seq<Seq<char>>,
    reports: Seq<LineReport>,
    i: int,
)
    requires
        reads(readers, lines, reports),
        !readers[0].signalled,
        0 <= i < lines.len(),
    ensures
        reports[i].ready <==> announces(lines[i]) && forall|j: int|
            0 <= j < i ==> !announces(#[trigger] lines[j]),
{
    lemma_reader_keeps_tag(readers, lines, reports, i);
    assert(readers[i].took_in(lines[i], readers[i + 1], reports[i]));
}

/// A worker is reported ready no more than once, whatever it prints.
pub proof fn law_ready_at_most_once(
    readers: Seq<StderrReader>,
    lines: Seq<Seq<char>>,
    reports: Seq<LineReport>,
    i: int,
    k: int,
)
    requires
        reads(readers, lines, reports),
        !readers[0].signalled,
        0 <= i < lines.len(),
        0 <= k < lines.len(),
        reports[i].ready,
        reports[k].ready,
    ensures
        i == k,
{
    law_ready_at_first_announcement(readers, lines, reports, i);
    law_ready_at_first_announcement(readers, lines, reports, k);
}

/// A worker is reported ready exactly where some line of its announces it.
pub proof fn law_ready_where_announced(
    readers: Seq<StderrReader>,
    lines: Seq<Seq<char>>,
    reports: Seq<LineReport>,
)
    requires
        reads(readers, lines, reports),
        !readers[0].signalled,
    ensures
        (exists|i: int| 0 <= i < reports.len() && (#[trigger] reports[i]).ready) <==> (exists|
            i: int,
        |
            0 <= i < lines.len() && announces(#[trigger] lines[i])),
        readers.last().signalled <==> exists|i: int|
            0 <= i < lines.len() && announces(#[trigger] lines[i]),
{
    lemma_reader_keeps_tag(readers, lines, reports, lines.len() as int);
    if exists|i: int| 0 <= i < reports.len() && (#[trigger] reports[i]).ready {
        let i = choose|i: int| 0 <= i < reports.len() && (#[trigger] reports[i]).ready;
        law_ready_at_first_announcement(readers, lines, reports, i);
        assert(announces(lines[i]));
    }
    if exists|i: int| 0 <= i < lines.len() && announces(#[trigger] lines[i]) {
        let i = choose|i: int| 0 <= i < lines.len() && announces(#[trigger] lines[i]);
        lemma_first_announcement(lines, i);
        let k = choose|k: int|
            0 <= k < lines.len() && announces(#[trigger] lines[k]) && forall|j: int|
                0 <= j < k ==> !announces(#[trigger] lines[j]);
        law_ready_at_first_announcement(readers, lines, reports, k);
        assert(reports[k].ready);
    }
}

proof fn lemma_first_announcement(lines: Seq<Seq<char>>, i: int)
    requires
        0 <= i < lines.len(),
        announces(lines[i]),
    ensures
        exists|k: int|
            0 <= k < lines.len() && announces(#[trigger] lines[k]) && forall|j: int|
                0 <= j < k ==> !announces(#[trigger] lines[j]),
    decreases i,
{
    if exists|j: int| 0 <= j < i && announces(#[trigger] lines[j]) {
        let j = choose|j: int| 0 <= j < i && announces(#[trigger] lines[j]);
        lemma_first_announcement(lines, j);
    }
}

/// `text` reads as `tag` in brackets, a blank, and `line`.
pub open spec fn reads_as_tagged(text: Seq<char>, tag: Seq<char>, line: Seq<char>) -> bool {
    &&& text.len() == tag.len() + line.len() + 3
    &&& text[0] == '['
    &&& text.subrange(1, 1 + tag.len() as int) == tag
    &&& text[1 + tag.len() as int] == ']'
    &&& text[2 + tag.len() as int] == ' '
    &&& text.skip(3 + tag.len() as int) == line
}

/// `body` is the line that was written as `raw`: it stands before a `\n` or a
/// `\r\n`, or at the end of the output, where there is neither.
pub open spec fn is_line_of(body: Seq<u8>, raw: Seq<u8>) -> bool {
    ||| raw == body + seq![13u8, 10u8]
    ||| raw == body + seq![10u8] && !(body.len() > 0 && body.last() == 13)
    ||| raw == body && !(body.len() > 0 && body.last() == 10)
}

proof fn lemma_tagged_text_reads_as_tagged(tag: Seq<char>, line: Seq<char>)
    ensures
        reads_as_tagged(tagged_text(tag, line), tag, line),
{
    reveal_strlit("[");
    reveal_strlit("] ");
    let text = tagged_text(tag, line);
    assert(text.subrange(1, 1 + tag.len() as int) =~= tag);
    assert(text.skip(3 + tag.len() as int) =~= line);
}

proof fn lemma_line_stands_before_its_end(body: Seq<u8>, raw: Seq<u8>)
    requires
        is_line_of(body, raw),
    ensures
        without_line_end(raw) == body,
{
    if raw == body + seq![13u8, 10u8] {
        assert(raw.drop_last().drop_last() =~= body);
    } else if raw == body + seq![10u8] {
        assert(raw.drop_last() =~= body);
    }
}

/// The tag and the line can be read off a line of the log, whatever they hold.
pub proof fn law_log_line_shows_tag_and_line(tag: &str, line: &str, text: String)
    requires
        call_ensures(tagged, (tag, line), text),
    ensures
        reads_as_tagged(text@, tag@, line@),
{
    lemma_tagged_text_reads_as_tagged(tag@, line@);
}

/// What is left without the end of the line is the line, whatever it holds: no
/// byte of it is lost, and no more than one `\r` goes with the `\n`.
pub proof fn law_only_the_line_end_is_taken_off(raw: Vec<u8>, body: Seq<u8>, line: Vec<u8>)
    requires
        call_ensures(strip_line_end, (raw,), line),
        is_line_of(body, raw@),
    ensures
        line@ == body,
{
    lemma_line_stands_before_its_end(body, raw@);
}

/// A line is read as it was written: its text encodes to its bytes where these are
/// valid UTF-8, and is what `String::from_utf8_lossy` makes of them elsewhere,
/// whatever ends the line.
pub proof fn law_line_is_read_as_it_was_written(raw: Vec<u8>, body: Seq<u8>, line: String)
    requires
        call_ensures(read_line, (raw,), line),
        is_line_of(body, raw@),
    ensures
        line@ == lossy_text(body),
        vstd::utf8::valid_utf8(body) ==> vstd::utf8::encode_utf8(line@) == body,
{
    broadcast use vstd::utf8::decode_utf8_encode_utf8;

    lemma_line_stands_before_its_end(body, raw@);
}

/// A line of a worker's standard output is logged under its tag as it was written.
pub proof fn law_written_line_is_logged(tag: &str, raw: Vec<u8>, body: Seq<u8>, text: String)
    requires
        call_ensures(tagged_raw, (tag, raw), text),
        is_line_of(body, raw@),
    ensures
        reads_as_tagged(text@, tag@, lossy_text(body)),
        vstd::utf8::valid_utf8(body) ==> vstd::utf8::encode_utf8(lossy_text(body)) == body,
{
    broadcast use vstd::utf8::decode_utf8_encode_utf8;

    lemma_line_stands_before_its_end(body, raw@);
    lemma_tagged_text_reads_as_tagged(tag@, lossy_text(body));
}

/// A reader logs under the address of its worker, and has heard nothing yet.
pub proof fn law_reader_is_tagged_with_its_worker(host: &str, port: u16, reader: StderrReader)
    requires
        call_ensures(StderrReader::new, (host, port), reader),
    ensures
        crate::text::reads_as_address(reader.tag@, host@, port as int),
        !reader.signalled,
{
    crate::text::lemma_address_text_reads_as_address(host@, port);
}

/// An announcement is heard wherever it stands in a line, however long, whatever
/// stands before and after it, and nothing else is taken for one: the worker is
/// reported ready at the first line that holds one of the two phrases. Every line
/// is logged under the worker's tag.
pub proof fn law_announcement_is_heard_anywhere_in_a_line(
    reader: &mut StderrReader,
    line: &str,
    report: LineReport,
)
    requires
        call_ensures(StderrReader::line, (reader, line), report),
    ensures
        report.ready <==> !old(reader).signalled && ((exists|
            before: Seq<char>,
            after: Seq<char>,
        |
            line@ == #[trigger] (before + "Running swagger"@ + after)) || (exists|
            before: Seq<char>,
            after: Seq<char>,
        |
            line@ == #[trigger] (before + "Running rapidoc"@ + after))),
        final(reader).signalled <==> old(reader).signalled || report.ready,
        final(reader).tag == old(reader).tag,
        reads_as_tagged(report.log@, old(reader).tag@, line@),
{
    crate::text::lemma_phrase_stands_between(line@, "Running swagger"@);
    crate::text::lemma_phrase_stands_between(line@, "Running rapidoc"@);
    lemma_tagged_text_reads_as_tagged(old(reader).tag@, line@);
}

/// A line that a worker writes is heard and logged as it was written, whatever
/// ends it.
pub proof fn law_written_announcement_is_heard(
    reader: &mut StderrReader,
    raw: Vec<u8>,
    body: Seq<u8>,
    report: LineReport,
)
    requires
        call_ensures(StderrReader::raw_line, (reader, raw), report),
        is_line_of(body, raw@),
    ensures
        report.ready <==> !old(reader).signalled && ((exists|
            before: Seq<char>,
            after: Seq<char>,
        |
            lossy_text(body) == #[trigger] (before + "Running swagger"@ + after)) || (exists|
            before: Seq<char>,
            after: Seq<char>,
        |
            lossy_text(body) == #[trigger] (before + "Running rapidoc"@ + after))),
        final(reader).signalled <==> old(reader).signalled || report.ready,
        final(reader).tag == old(reader).tag,
        reads_as_tagged(report.log@, old(reader).tag@, lossy_text(body)),
        vstd::utf8::valid_utf8(body) ==> vstd::utf8::encode_utf8(lossy_text(body)) == body,
{
    broadcast use vstd::utf8::decode_utf8_encode_utf8;

    lemma_line_stands_before_its_end(body, raw@);
    crate::text::lemma_phrase_stands_between(lossy_text(body), "Running swagger"@);
    crate::text::lemma_phrase_stands_between(lossy_text(body), "Running rapidoc"@);
    lemma_tagged_text_reads_as_tagged(old(reader).tag@, lossy_text(body));
}

/// The last line of the log says, under the worker's tag, that there is no more.
pub proof fn law_end_of_output_is_logged(reader: StderrReader, log: String)
    requires
        call_ensures(StderrReader::closed, (&reader,), log),
    ensures
        reads_as_tagged(log@, reader.tag@, "worker stderr closed (process exited)"@),
{
    lemma_tagged_text_reads_as_tagged(reader.tag@, "worker stderr closed (process exited)"@);
}

/// Only a worker that announced itself is given time to settle, a tenth of a
/// second. It has half a minute to do so.
pub proof fn law_ready_worker_is_left_to_settle(readiness: Readiness, millis: Option<u64>)
    requires
        call_ensures(settle, (readiness,), millis),
    ensures
        millis is Some <==> readiness is Announced,
        millis matches Some(m) ==> m == 100,
        READY_TIMEOUT_SECS == 30,
{
}

} // verus!
