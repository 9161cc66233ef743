//! Refreshing the catalogue of orbits: what is staged from each line of the downloads, and
//! when the staged catalogue takes the place of the published one.

use crate::utils::bson_doc;
use crate::utils::bson_doc::{boolean, new_document, with};
use crate::utils::calendar::DateTerms;
use crate::utils::comets;
use crate::utils::comets::{CometEntry, CometNumbers};
use crate::utils::double::Double;
use crate::utils::mpcorb;
use crate::utils::mpcorb::{is_record_shaped, parse_line, LineNumbers, MpcorbEntry};
use crate::utils::orbits;
use crate::utils::orbits::{orbit_document, to_document, ORBITS_COLLECTION};
use crate::utils::sso_geometry::{OrbitalElements, Perihelion};
use crate::utils::text;
use crate::utils::text::{chars, decimal_text, text_of};
use mongodb::bson::Document;
use vstd::prelude::*;
use vstd::string::*;

verus! {

/// Built here, then renamed over the target so readers never see a partial catalogue.
pub const STAGING_COLLECTION: &'static str = "MPC_orbits_staging";

pub const DEFAULT_MPCORB_URL: &'static str =
    "https://www.minorplanetcenter.net/iau/MPCORB/MPCORB.DAT";

/// Fewer orbits than this means a truncated download, not a smaller catalogue.
pub const MIN_PLAUSIBLE_ORBITS: u64 = 100_000;

/// How many parsed orbits between progress lines.
pub const PROGRESS_INTERVAL: u64 = 200_000;

/// Seconds that a download may take. One with no bound can hang for as long as the peer
/// keeps the socket open, which would stall the caller indefinitely.
pub const DOWNLOAD_TIMEOUT: u64 = 1_800;

/// How many rejected lines a report shows, and how much of each.
pub const MAX_SAMPLES: usize = 5;

pub const SAMPLE_CHARS: usize = 120;

/// Why a refresh failed.
#[derive(Debug)]
pub enum RefreshError {
    Download(String),
    Io(String),
    Mongo(String),
    ImplausiblyShort { parsed: u64, collection: String },
}

/// The text of an error.
pub open spec fn error_text(e: RefreshError) -> Seq<char> {
    match e {
        RefreshError::Download(why) => "failed to download MPCORB: "@ + why@,
        RefreshError::Io(why) => "failed to read the download: "@ + why@,
        RefreshError::Mongo(why) => why@,
        RefreshError::ImplausiblyShort { parsed, collection } => "only "@ + text::decimal(
            parsed as nat,
        ) + " orbits parsed, refusing to replace "@ + collection@,
    }
}

impl RefreshError {
    /// The text of the error.
    pub fn message(&self) -> (r: String)
        ensures
            r@ == error_text(*self),
    {
        match self {
            RefreshError::Download(why) => "failed to download MPCORB: ".to_owned().concat(
                why.as_str(),
            ),
            RefreshError::Io(why) => "failed to read the download: ".to_owned().concat(why.as_str()),
            RefreshError::Mongo(why) => why.clone(),
            RefreshError::ImplausiblyShort { parsed, collection } => "only ".to_owned().concat(
                decimal_text(*parsed).as_str(),
            ).concat(" orbits parsed, refusing to replace ").concat(collection.as_str()),
        }
    }
}

/// Outcome of parsing MPCORB, whether or not it was written.
#[derive(Debug, Clone, PartialEq, Eq)]
pub struct RefreshReport {
    pub lines: u64,
    pub parsed: u64,
    pub skipped: u64,
    /// Record-shaped lines that failed to parse. Always empty in a healthy run --
    /// anything here is data being dropped silently.
    pub rejected_samples: Vec<String>,
    /// Comet orbits staged alongside the minor planets.
    pub comets: u64,
}

/// How far the reading of a catalogue has come.
pub struct Progress {
    pub lines: int,
    pub parsed: int,
    pub skipped: int,
    pub samples: Seq<Seq<char>>,
    /// The documents that wait to be inserted.
    pub batch: Seq<Seq<(Seq<char>, bson_doc::Content)>>,
    /// How many orbits were parsed at the last progress line.
    pub mark: int,
}

/// Nothing was read yet.
pub open spec fn at_start() -> Progress {
    Progress {
        lines: 0,
        parsed: 0,
        skipped: 0,
        samples: Seq::empty(),
        batch: Seq::empty(),
        mark: 0,
    }
}

/// The first characters of a line.
pub open spec fn sample(line: Seq<char>) -> Seq<char> {
    if line.len() <= SAMPLE_CHARS {
        line
    } else {
        line.take(SAMPLE_CHARS as int)
    }
}

/// A line was read, and `document` is what it gave.
pub open spec fn after_reading(
    p: Progress,
    line: Seq<char>,
    document: Option<Seq<(Seq<char>, bson_doc::Content)>>,
) -> Progress {
    match document {
        Some(d) => Progress {
            lines: p.lines + 1,
            parsed: p.parsed + 1,
            batch: p.batch.push(d),
            ..p
        },
        None => Progress {
            lines: p.lines + 1,
            skipped: p.skipped + 1,
            samples: if mpcorb::has_record_shape(line) && p.samples.len() < MAX_SAMPLES {
                p.samples.push(sample(line))
            } else {
                p.samples
            },
            ..p
        },
    }
}

/// The batch is full.
pub open spec fn is_full(p: Progress, batch_size: int) -> bool {
    p.batch.len() >= batch_size
}

/// It is time for a progress line.
pub open spec fn is_due(p: Progress) -> bool {
    p.parsed - p.mark >= PROGRESS_INTERVAL
}

/// The batch was handed over.
pub open spec fn after_flush(p: Progress) -> Progress {
    Progress {
        batch: Seq::empty(),
        mark: if is_due(p) {
            p.parsed
        } else {
            p.mark
        },
        ..p
    }
}

/// A line was read, and the batch was handed over where it was full.
pub open spec fn after_line(
    p: Progress,
    line: Seq<char>,
    document: Option<Seq<(Seq<char>, bson_doc::Content)>>,
    batch_size: int,
) -> Progress {
    let next = after_reading(p, line, document);
    if is_full(next, batch_size) {
        after_flush(next)
    } else {
        next
    }
}

/// A batch to be inserted, and whether a progress line is due behind it.
pub struct Flush {
    pub documents: Vec<Document>,
    pub report_progress: bool,
}

/// What a parsed entry is stored as.
pub open spec fn stored(
    entry: Option<MpcorbEntry>,
    now: Double,
) -> Option<Seq<(Seq<char>, bson_doc::Content)>> {
    match entry {
        Some(e) => Some(orbits::orbit_fields(e.designation@, e.elements, e.h, e.g, now)),
        None => None,
    }
}

/// A catalogue in the course of being read.
pub struct CatalogueReader {
    report: RefreshReport,
    batch: Vec<Document>,
    last_progress: u64,
    batch_size: usize,
}

impl CatalogueReader {
    /// How far the reading has come.
    pub closed spec fn progress(self) -> Progress {
        Progress {
            lines: self.report.lines as int,
            parsed: self.report.parsed as int,
            skipped: self.report.skipped as int,
            samples: text::texts(self.report.rejected_samples@),
            batch: bson_doc::documents(self.batch@),
            mark: self.last_progress as int,
        }
    }

    /// How many documents are inserted together.
    pub closed spec fn size(self) -> int {
        self.batch_size as int
    }

    /// The counts agree: every line was parsed or skipped, and comets come later.
    pub closed spec fn well_formed(self) -> bool {
        &&& self.report.parsed + self.report.skipped == self.report.lines
        &&& self.last_progress <= self.report.parsed
        &&& self.report.comets == 0
    }

    /// In a well-formed reader every line was parsed or skipped, and no more orbits were
    /// parsed at the last progress line than now.
    pub proof fn law_lines_are_parsed_or_skipped(self)
        requires
            self.well_formed(),
        ensures
            self.progress().parsed + self.progress().skipped == self.progress().lines,
            0 <= self.progress().mark <= self.progress().parsed,
            0 <= self.progress().skipped,
    {
    }

    /// A reader that inserts `batch_size` documents together.
    pub fn new(batch_size: usize) -> (r: Self)
        ensures
            r.well_formed(),
            r.progress() == at_start(),
            r.size() == batch_size,
    {
        let r = CatalogueReader {
            report: RefreshReport {
                comets: 0,
                lines: 0,
                parsed: 0,
                skipped: 0,
                rejected_samples: Vec::new(),
            },
            batch: Vec::new(),
            last_progress: 0,
            batch_size,
        };
        assert(r.progress().samples =~= at_start().samples);
        assert(r.progress().batch =~= at_start().batch);
        r
    }

    /// Take in a line of which `entry` is what it parsed to. Returns the batch where it is
    /// full.
    pub fn take_entry(&mut self, line: &str, entry: Option<MpcorbEntry>, now: Double) -> (r: Option<
        Flush,
    >)
        requires
            old(self).well_formed(),
            old(self).progress().lines < u64::MAX,
        ensures
            final(self).well_formed(),
            final(self).size() == old(self).size(),
            final(self).progress() == after_line(
                old(self).progress(),
                line@,
                stored(entry, now),
                old(self).size(),
            ),
            ({
                let read = after_reading(old(self).progress(), line@, stored(entry, now));
                match r {
                    Some(flush) => is_full(read, old(self).size()) && bson_doc::documents(
                        flush.documents@,
                    ) == read.batch && flush.report_progress == is_due(read),
                    None => !is_full(read, old(self).size()),
                }
            }),
    {
        let ghost before = self.progress();
        let ghost read = after_reading(before, line@, stored(entry, now));
        self.report.lines = self.report.lines + 1;
        match entry {
            Some(e) => {
                let ghost waiting = self.batch@;
                self.batch.push(to_document(&e, now));
                assert(bson_doc::documents(self.batch@) =~= bson_doc::documents(waiting).push(
                    stored(entry, now)->0,
                ));
                self.report.parsed = self.report.parsed + 1;
            },
            None => {
                self.report.skipped = self.report.skipped + 1;
                // Blank lines and the headers are expected; a dropped record is not.
                if is_record_shaped(line) && self.report.rejected_samples.len() < MAX_SAMPLES {
                    let ghost shown = self.report.rejected_samples@;
                    self.report.rejected_samples.push(sample_of(line));
                    assert(text::texts(self.report.rejected_samples@) =~= text::texts(shown).push(
                        sample(line@),
                    ));
                }
            },
        }
        assert(self.progress().samples == read.samples);
        assert(self.progress().batch == read.batch);
        if self.batch.len() >= self.batch_size {
            let mut documents: Vec<Document> = Vec::new();
            documents.append(&mut self.batch);
            assert(bson_doc::documents(documents@) =~= read.batch);
            assert(bson_doc::documents(self.batch@) =~= after_flush(read).batch);
            // Compared against a running mark rather than tested for divisibility:
            // `parsed` only lands on a multiple of the interval when the batch size
            // happens to divide it.
            let due = self.report.parsed - self.last_progress >= PROGRESS_INTERVAL;
            if due {
                self.last_progress = self.report.parsed;
            }
            Some(Flush { documents, report_progress: due })
        } else {
            None
        }
    }

    /// Take in a line of the catalogue. Returns the batch where it is full.
    ///
    /// The file opens with a prose header and separates its three sections
    /// with blank lines; both are skipped.
    pub fn take_line<F: Fn(&str) -> Option<Double>, P: Fn(OrbitalElements) -> Perihelion>(
        &mut self,
        line: &str,
        now: Double,
        number: &F,
        perihelion: &P,
    ) -> (r: Option<Flush>)
        requires
            old(self).well_formed(),
            old(self).progress().lines < u64::MAX,
            forall|s: &str| #[trigger] number.requires((s,)),
            forall|e: OrbitalElements| #[trigger] perihelion.requires((e,)),
        ensures
            final(self).well_formed(),
            final(self).size() == old(self).size(),
            exists|entry: Option<MpcorbEntry>| #[trigger]
                is_parse_of(entry, line@, *number, *perihelion) && ({
                    let read = after_reading(old(self).progress(), line@, stored(entry, now));
                    &&& final(self).progress() == after_line(
                        old(self).progress(),
                        line@,
                        stored(entry, now),
                        old(self).size(),
                    )
                    &&& match r {
                        Some(flush) => is_full(read, old(self).size()) && bson_doc::documents(
                            flush.documents@,
                        ) == read.batch && flush.report_progress == is_due(read),
                        None => !is_full(read, old(self).size()),
                    }
                }),
    {
        let entry = parse_line(line, number, perihelion);
        assert(is_parse_of(entry, line@, *number, *perihelion));
        self.take_entry(line, entry, now)
    }

    /// The end of the catalogue: the documents that still wait, and the report, unless so
    /// few orbits were parsed that the download must have been cut short.
    pub fn finish(self) -> (r: (Vec<Document>, Result<RefreshReport, RefreshError>))
        requires
            self.well_formed(),
        ensures
            bson_doc::documents(r.0@) == self.progress().batch,
            match r.1 {
                Ok(report) => {
                    &&& self.progress().parsed >= MIN_PLAUSIBLE_ORBITS
                    &&& reports(report, self.progress(), 0)
                    &&& report.parsed + report.skipped == report.lines
                },
                Err(RefreshError::ImplausiblyShort { parsed, collection }) => parsed
                    < MIN_PLAUSIBLE_ORBITS && parsed == self.progress().parsed && collection@
                    == ORBITS_COLLECTION@,
                Err(_) => false,
            },
    {
        if self.report.parsed < MIN_PLAUSIBLE_ORBITS {
            (
                self.batch,
                Err(
                    RefreshError::ImplausiblyShort {
                        parsed: self.report.parsed,
                        collection: ORBITS_COLLECTION.to_owned(),
                    },
                ),
            )
        } else {
            (self.batch, Ok(self.report))
        }
    }
}

/// `report` tells of this progress and this many comets.
pub open spec fn reports(report: RefreshReport, p: Progress, comets: int) -> bool {
    &&& report.lines == p.lines
    &&& report.parsed == p.parsed
    &&& report.skipped == p.skipped
    &&& text::texts(report.rejected_samples@) == p.samples
    &&& report.comets == comets
}

/// `entry` is what parsing `line` gives.
pub open spec fn is_parse_of<
    F: Fn(&str) -> Option<Double>,
    P: Fn(OrbitalElements) -> Perihelion,
>(entry: Option<MpcorbEntry>, line: Seq<char>, number: F, perihelion: P) -> bool {
    exists|n: LineNumbers| #[trigger]
        mpcorb::line_reads(number, line, n) && match entry {
            Some(e) => mpcorb::is_entry_of(e, line, n, perihelion),
            None => !mpcorb::is_record(line, n),
        }
}

/// The first characters of a line.
fn sample_of(line: &str) -> (r: String)
    ensures
        r@ == sample(line@),
{
    let c = chars(line);
    let end: usize = if c.len() <= SAMPLE_CHARS {
        c.len()
    } else {
        SAMPLE_CHARS
    };
    assert(c@.subrange(0, end as int) =~= sample(line@));
    text_of(&c, 0, end)
}

/// How far a reader has come behind these lines, each with what it gave.
pub open spec fn after_lines(
    lines: Seq<(Seq<char>, Option<Seq<(Seq<char>, bson_doc::Content)>>)>,
    batch_size: int,
) -> Progress
    decreases lines.len(),
{
    if lines.len() == 0 {
        at_start()
    } else {
        after_line(
            after_lines(lines.drop_last(), batch_size),
            lines.last().0,
            lines.last().1,
            batch_size,
        )
    }
}

/// Everything that was handed over for insertion while these lines were read, in order.
pub open spec fn handed_over(
    lines: Seq<(Seq<char>, Option<Seq<(Seq<char>, bson_doc::Content)>>)>,
    batch_size: int,
) -> Seq<Seq<(Seq<char>, bson_doc::Content)>>
    decreases lines.len(),
{
    if lines.len() == 0 {
        Seq::empty()
    } else {
        let read = after_reading(
            after_lines(lines.drop_last(), batch_size),
            lines.last().0,
            lines.last().1,
        );
        handed_over(lines.drop_last(), batch_size) + if is_full(read, batch_size) {
            read.batch
        } else {
            Seq::empty()
        }
    }
}

/// The documents that these lines gave, in order.
pub open spec fn given(
    lines: Seq<(Seq<char>, Option<Seq<(Seq<char>, bson_doc::Content)>>)>,
) -> Seq<Seq<(Seq<char>, bson_doc::Content)>>
    decreases lines.len(),
{
    if lines.len() == 0 {
        Seq::empty()
    } else {
        match lines.last().1 {
            Some(d) => given(lines.drop_last()).push(d),
            None => given(lines.drop_last()),
        }
    }
}

/// Every document that a line gave is handed over once, in the order of the lines, or
/// still waits at the end.
pub proof fn law_no_orbit_is_lost(
    lines: Seq<(Seq<char>, Option<Seq<(Seq<char>, bson_doc::Content)>>)>,
    batch_size: int,
)
    ensures
        handed_over(lines, batch_size) + after_lines(lines, batch_size).batch == given(lines),
    decreases lines.len(),
{
    if lines.len() > 0 {
        law_no_orbit_is_lost(lines.drop_last(), batch_size);
        let before = after_lines(lines.drop_last(), batch_size);
        let read = after_reading(before, lines.last().0, lines.last().1);
        let sent = handed_over(lines.drop_last(), batch_size);
        match lines.last().1 {
            Some(d) => {
                assert(sent + before.batch.push(d) =~= (sent + before.batch).push(d));
            },
            None => {},
        }
        assert(sent + read.batch == given(lines));
        if is_full(read, batch_size) {
            assert((sent + read.batch) + after_flush(read).batch =~= sent + read.batch);
        } else {
            assert((sent + Seq::empty()) + read.batch =~= sent + read.batch);
        }
    }
}

/// Each line was parsed or skipped, and the orbits that were counted are those that were
/// given.
pub proof fn law_counts_agree(
    lines: Seq<(Seq<char>, Option<Seq<(Seq<char>, bson_doc::Content)>>)>,
    batch_size: int,
)
    ensures
        ({
            let p = after_lines(lines, batch_size);
            &&& p.lines == lines.len()
            &&& p.parsed + p.skipped == p.lines
            &&& p.parsed == given(lines).len()
            &&& 0 <= p.mark <= p.parsed
        }),
    decreases lines.len(),
{
    if lines.len() > 0 {
        law_counts_agree(lines.drop_last(), batch_size);
    }
}

/// A batch that is handed over holds exactly as many documents as were asked for, and one
/// that waits holds fewer. (Where none are asked for, every line hands over a batch.)
pub proof fn law_batches_are_full(
    lines: Seq<(Seq<char>, Option<Seq<(Seq<char>, bson_doc::Content)>>)>,
    batch_size: int,
)
    requires
        batch_size > 0,
    ensures
        ({
            let p = after_lines(lines, batch_size);
            &&& p.batch.len() < batch_size
            &&& forall|line: Seq<char>, document: Option<Seq<(Seq<char>, bson_doc::Content)>>|
                is_full(#[trigger] after_reading(p, line, document), batch_size)
                    ==> after_reading(p, line, document).batch.len() == batch_size
        }),
    decreases lines.len(),
{
    if lines.len() > 0 {
        law_batches_are_full(lines.drop_last(), batch_size);
    }
}

/// The beginnings of the lines that looked like records and gave nothing, in order.
pub open spec fn rejected(
    lines: Seq<(Seq<char>, Option<Seq<(Seq<char>, bson_doc::Content)>>)>,
) -> Seq<Seq<char>>
    decreases lines.len(),
{
    if lines.len() == 0 {
        Seq::empty()
    } else if lines.last().1 is None && mpcorb::has_record_shape(lines.last().0) {
        rejected(lines.drop_last()).push(sample(lines.last().0))
    } else {
        rejected(lines.drop_last())
    }
}

/// A report shows the first so many of the lines that looked like records and gave nothing,
/// in order, and no more than so many characters of each.
pub proof fn law_samples_are_rejected_records(
    lines: Seq<(Seq<char>, Option<Seq<(Seq<char>, bson_doc::Content)>>)>,
    batch_size: int,
)
    ensures
        ({
            let samples = after_lines(lines, batch_size).samples;
            let all = rejected(lines);
            &&& samples == if all.len() <= MAX_SAMPLES {
                all
            } else {
                all.take(MAX_SAMPLES as int)
            }
            &&& forall|i: int|
                0 <= i < samples.len() ==> (#[trigger] samples[i]).len() <= SAMPLE_CHARS
        }),
    decreases lines.len(),
{
    if lines.len() > 0 {
        law_samples_are_rejected_records(lines.drop_last(), batch_size);
        let before = rejected(lines.drop_last());
        if before.len() >= MAX_SAMPLES {
            assert(rejected(lines).take(MAX_SAMPLES as int) =~= before.take(MAX_SAMPLES as int));
            assert(before.take(before.len() as int) =~= before);
        }
    }
}

/// The report of a finished reading, with the comets that were staged beside it.
pub fn with_comets(report: RefreshReport, comets: u64) -> (r: RefreshReport)
    ensures
        r == (RefreshReport { comets, ..report }),
{
    RefreshReport {
        lines: report.lines,
        parsed: report.parsed,
        skipped: report.skipped,
        rejected_samples: report.rejected_samples,
        comets,
    }
}

/// The command that puts the staged catalogue in the place of the published one.
pub open spec fn rename_fields(database: Seq<char>) -> Seq<(Seq<char>, bson_doc::Content)> {
    let from = database + "."@ + STAGING_COLLECTION@;
    let to = database + "."@ + ORBITS_COLLECTION@;
    let d = bson_doc::no_fields();
    let d = bson_doc::with_field(d, "renameCollection"@, bson_doc::Content::Text(from));
    let d = bson_doc::with_field(d, "to"@, bson_doc::Content::Text(to));
    bson_doc::with_field(d, "dropTarget"@, bson_doc::Content::Bool(true))
}

/// The command that puts the staged catalogue in the place of the published one.
pub fn rename_command(database: &str) -> (r: Document)
    ensures
        bson_doc::document_fields(r) == rename_fields(database@),
{
    let from = database.to_owned().concat(".").concat(STAGING_COLLECTION);
    let to = database.to_owned().concat(".").concat(ORBITS_COLLECTION);
    let d = with(new_document(), "renameCollection", bson_doc::text_value(from.as_str()));
    let d = with(d, "to", bson_doc::text_value(to.as_str()));
    with(d, "dropTarget", boolean(true))
}

/// What follows the filling of the staging collection.
pub enum Publication {
    /// Run this command, then report.
    Rename { command: Document, report: RefreshReport },
    /// There is no database: report.
    Report(RefreshReport),
    /// Drop the staging collection, then fail.
    Discard(RefreshError),
    /// There is no database: fail.
    Fail(RefreshError),
}

/// Decide what follows the filling of the staging collection. The published catalogue is
/// replaced only by one that was staged whole; what a failed run staged is dropped.
pub fn refresh_orbits(
    database: Option<&str>,
    filled: Result<RefreshReport, RefreshError>,
) -> (r: Publication)
    ensures
        match (filled, database) {
            (Ok(report), Some(name)) => r matches Publication::Rename { command, report: told }
                && told == report && bson_doc::document_fields(command) == rename_fields(name@),
            (Ok(report), None) => r == Publication::Report(report),
            (Err(e), Some(_)) => r == Publication::Discard(e),
            (Err(e), None) => r == Publication::Fail(e),
        },
{
    match (filled, database) {
        (Ok(report), Some(name)) => Publication::Rename { command: rename_command(name), report },
        (Ok(report), None) => Publication::Report(report),
        // Staging holds a partial catalogue on failure, and nothing else reads it.
        (Err(e), Some(_)) => Publication::Discard(e),
        (Err(e), None) => Publication::Fail(e),
    }
}

/// The collection that is filled is not the one that is read, so a command of
/// `refresh_orbits` is the only thing that touches the published catalogue.
pub proof fn law_staging_is_not_the_live_collection()
    ensures
        STAGING_COLLECTION@ != ORBITS_COLLECTION@,
{
    reveal_strlit("MPC_orbits");
    reveal_strlit("MPC_orbits_staging");
    assert(STAGING_COLLECTION@.len() == 18 && ORBITS_COLLECTION@.len() == 10);
}

/// `entry` is what parsing a line of the comet file gives.
pub open spec fn is_comet_parse_of<
    F: Fn(&str) -> Option<Double>,
    D: Fn(DateTerms, Double) -> Double,
    A: Fn(Double, Double) -> Double,
>(entry: Option<CometEntry>, line: Seq<char>, number: F, date: D, axis: A) -> bool {
    exists|n: CometNumbers| #[trigger]
        comets::line_reads(number, line, n) && match entry {
            Some(e) => comets::is_entry_of(e, line, n, date, axis),
            None => !comets::is_record(line, n),
        }
}

/// The documents of the comets among these entries, in order.
pub open spec fn comet_fields(entries: Seq<Option<CometEntry>>, now: Double) -> Seq<
    Seq<(Seq<char>, bson_doc::Content)>,
>
    decreases entries.len(),
{
    if entries.len() == 0 {
        Seq::empty()
    } else {
        let before = comet_fields(entries.drop_last(), now);
        match entries.last() {
            Some(e) => before.push(
                orbits::orbit_fields(e.designation@, e.elements, e.h, e.g, now),
            ),
            None => before,
        }
    }
}

/// Render the comets among these entries as stored documents.
pub fn comet_documents(entries: &Vec<Option<CometEntry>>, now: Double) -> (r: Vec<Document>)
    ensures
        bson_doc::documents(r@) == comet_fields(entries@, now),
{
    let mut out: Vec<Document> = Vec::new();
    let mut i: usize = 0;
    assert(bson_doc::documents(out@) =~= comet_fields(entries@.take(0), now));
    while i < entries.len()
        invariant
            i <= entries.len(),
            bson_doc::documents(out@) == comet_fields(entries@.take(i as int), now),
        decreases entries.len() - i,
    {
        assert(entries@.take(i + 1).drop_last() =~= entries@.take(i as int));
        match &entries[i] {
            Some(e) => {
                let ghost before = out@;
                let d = orbit_document(e.designation.as_str(), &e.elements, e.h, e.g, now);
                out.push(d);
                assert(bson_doc::documents(out@) =~= bson_doc::documents(before).push(
                    bson_doc::document_fields(d),
                ));
            },
            None => {},
        }
        i = i + 1;
    }
    assert(entries@.take(i as int) =~= entries@);
    out
}

/// What the comet file adds to the catalogue, from the lines of its download.
///
/// A failed download is not fatal to the refresh: minor planets are the bulk of
/// the catalogue and are already staged by this point, so a comet file that is
/// unreachable costs comets rather than everything.
pub fn refresh_comets<
    F: Fn(&str) -> Option<Double>,
    D: Fn(DateTerms, Double) -> Double,
    A: Fn(Double, Double) -> Double,
>(
    downloaded: Result<Vec<String>, String>,
    now: Double,
    number: &F,
    date: &D,
    axis: &A,
) -> (r: Vec<Document>)
    requires
        forall|s: &str| #[trigger] number.requires((s,)),
        forall|t: DateTerms, d: Double| #[trigger] date.requires((t, d)),
        forall|q: Double, e: Double| #[trigger] axis.requires((q, e)),
        downloaded matches Ok(lines) ==> forall|i: int, n: CometNumbers|
            0 <= i < lines@.len() && #[trigger] comets::line_reads(*number, lines@[i]@, n)
                ==> comets::is_readable(lines@[i]@, n),
    ensures
        match downloaded {
            Ok(lines) => exists|entries: Seq<Option<CometEntry>>|
                entries.len() == lines@.len() && (forall|i: int|
                    0 <= i < entries.len() ==> is_comet_parse_of(
                        #[trigger] entries[i],
                        lines@[i]@,
                        *number,
                        *date,
                        *axis,
                    )) && bson_doc::documents(r@) == #[trigger] comet_fields(entries, now),
            Err(_) => r@.len() == 0,
        },
{
    match downloaded {
        Ok(lines) => {
            let mut entries: Vec<Option<CometEntry>> = Vec::new();
            let mut i: usize = 0;
            while i < lines.len()
                invariant
                    i <= lines.len(),
                    entries@.len() == i,
                    forall|s: &str| #[trigger] number.requires((s,)),
                    forall|t: DateTerms, d: Double| #[trigger] date.requires((t, d)),
                    forall|q: Double, e: Double| #[trigger] axis.requires((q, e)),
                    forall|k: int, n: CometNumbers|
                        0 <= k < lines@.len() && #[trigger] comets::line_reads(
                            *number,
                            lines@[k]@,
                            n,
                        ) ==> comets::is_readable(lines@[k]@, n),
                    forall|k: int|
                        0 <= k < i ==> is_comet_parse_of(
                            #[trigger] entries@[k],
                            lines@[k]@,
                            *number,
                            *date,
                            *axis,
                        ),
                decreases lines.len() - i,
            {
                let entry = comets::parse_line(lines[i].as_str(), number, date, axis);
                assert(is_comet_parse_of(entry, lines@[i as int]@, *number, *date, *axis));
                entries.push(entry);
                i = i + 1;
            }
            comet_documents(&entries, now)
        },
        Err(_) => Vec::new(),
    }
}

} // verus!
