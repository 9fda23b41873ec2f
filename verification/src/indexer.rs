//! The decisions of a directory scan: which files are images, which are
//! unchanged since they were indexed, when a batch of parsed files is
//! written, and how the counts of a scan add up.
use vstd::prelude::*;
use crate::metadata::text_view;
use crate::text::{ascii_lowercase, chars_of, string_of, to_ascii_lowercase};

verus! {

/// Progress of a scan, reported as files are processed.
pub struct ScanProgress {
    /// One-based number of the file being processed.
    pub current: usize,
    pub total: usize,
    pub file_name: String,
}

impl ScanProgress {
    /// The report for file number `index` (zero-based) of `total`.
    pub fn at(index: usize, total: usize, file_name: String) -> (p: ScanProgress)
        requires
            index < total,
        ensures
            p.current == index + 1,
            p.total == total,
            p.file_name == file_name,
    {
        ScanProgress { current: index + 1, total, file_name }
    }
}

/// The outcome of a scan.
pub struct ScanResult {
    pub indexed: usize,
    pub skipped: usize,
    pub errors: usize,
    pub error_details: Vec<String>,
}

/// The texts of each string of a sequence.
pub open spec fn texts(v: Seq<String>) -> Seq<Seq<char>> {
    v.map_values(|s: String| s@)
}

/// `a`, `: `, then `b`.
pub open spec fn colon_join(a: Seq<char>, b: Seq<char>) -> Seq<char> {
    a + seq![':', ' '] + b
}

impl ScanResult {
    /// A result with nothing counted.
    pub fn new() -> (r: ScanResult)
        ensures
            r.indexed == 0,
            r.skipped == 0,
            r.errors == 0,
            r.error_details@.len() == 0,
    {
        ScanResult { indexed: 0, skipped: 0, errors: 0, error_details: Vec::new() }
    }

    /// Adds the counts and error details of `other` (a later scan) to these.
    pub fn merge(&mut self, other: ScanResult)
        requires
            old(self).indexed + other.indexed <= usize::MAX,
            old(self).skipped + other.skipped <= usize::MAX,
            old(self).errors + other.errors <= usize::MAX,
        ensures
            final(self).indexed == old(self).indexed + other.indexed,
            final(self).skipped == old(self).skipped + other.skipped,
            final(self).errors == old(self).errors + other.errors,
            texts(final(self).error_details@) == texts(old(self).error_details@) + texts(
                other.error_details@,
            ),
    {
        self.indexed = self.indexed + other.indexed;
        self.skipped = self.skipped + other.skipped;
        self.errors = self.errors + other.errors;
        let ghost before = texts(self.error_details@);
        let mut details = other.error_details;
        let ghost added = texts(details@);
        let mut i: usize = 0;
        while i < details.len()
            invariant
                i <= details@.len(),
                texts(details@) == added,
                self.indexed == old(self).indexed + other.indexed,
                self.skipped == old(self).skipped + other.skipped,
                self.errors == old(self).errors + other.errors,
                texts(self.error_details@) == before + added.take(i as int),
            decreases details.len() - i,
        {
            let d = details[i].clone();
            let ghost dv = d@;
            let ghost prev = self.error_details@;
            assert(added[i as int] == dv);
            self.error_details.push(d);
            assert(self.error_details@ == prev.push(self.error_details@.last()));
            assert(texts(self.error_details@) =~= texts(prev).push(dv));
            assert(added.take(i + 1) =~= added.take(i as int).push(dv));
            assert(texts(self.error_details@) =~= before + added.take(i + 1));
            i = i + 1;
        }
        assert(added.take(details@.len() as int) == added);
    }

    /// Counts a directory that could not be scanned, with its message.
    pub fn record_failure(&mut self, message: String)
        requires
            old(self).errors < usize::MAX,
        ensures
            final(self).indexed == old(self).indexed,
            final(self).skipped == old(self).skipped,
            final(self).errors == old(self).errors + 1,
            texts(final(self).error_details@) == texts(old(self).error_details@).push(message@),
    {
        self.errors = self.errors + 1;
        let ghost before = texts(self.error_details@);
        self.error_details.push(message);
        assert(texts(self.error_details@) =~= before.push(self.error_details@.last()@));
    }
}

// ---------------------------------------------------------------------------
// File types
// ---------------------------------------------------------------------------

/// The header formats this library reads.
pub enum ImageFormat {
    Fits,
    Xisf,
}

/// The format an extension (already in lower case) names: `fits` and `fit`
/// are FITS, `xisf` is XISF.
pub open spec fn format_of(ext: Seq<char>) -> Option<ImageFormat> {
    if ext == "fits"@ || ext == "fit"@ {
        Some(ImageFormat::Fits)
    } else if ext == "xisf"@ {
        Some(ImageFormat::Xisf)
    } else {
        None
    }
}

/// The format an extension (already in lower case) names.
pub fn image_format(ext: &str) -> (r: Option<ImageFormat>)
    ensures
        r == format_of(ext@),
{
    let e = String::from_str(ext);
    if e == String::from_str("fits") || e == String::from_str("fit") {
        Some(ImageFormat::Fits)
    } else if e == String::from_str("xisf") {
        Some(ImageFormat::Xisf)
    } else {
        None
    }
}

/// An extension in ASCII lower case, or the empty text when there is none.
pub open spec fn lowered(ext: Option<Seq<char>>) -> Seq<char> {
    match ext {
        Some(e) => ascii_lowercase(e),
        None => Seq::empty(),
    }
}

/// The extension `Path::extension` reports, in ASCII lower case, or the empty
/// text when there is none.
pub fn lower_extension(ext: Option<&str>) -> (r: String)
    ensures
        r@ == lowered(match ext {
            Some(e) => Some(e@),
            None => None,
        }),
{
    match ext {
        Some(e) => {
            let c = chars_of(e);
            let l = to_ascii_lowercase(&c);
            string_of(&l)
        },
        None => String::new(),
    }
}

/// Whether `e` follows a `.` somewhere in `path`, and holds no `.` itself:
/// what every extension of the path is, whatever the platform's rules for
/// splitting it into components.
pub open spec fn is_dot_suffix_in(path: Seq<char>, e: Seq<char>) -> bool {
    &&& !e.contains('.')
    &&& exists|k: int| 0 <= k && k + 1 + e.len() <= path.len() && #[trigger] path.subrange(
        k,
        k + 1 + e.len(),
    ) == seq!['.'] + e
}

/// A path separator on some platform: `/`, or `\` on Windows.
pub open spec fn is_separator(c: char) -> bool {
    c == '/' || c == '\\'
}

/// Where the last component of a path begins: just past its last separator
/// (0 when it has none).
pub open spec fn name_start(p: Seq<char>) -> int
    decreases p.len(),
{
    if p.len() == 0 {
        0
    } else if is_separator(p.last()) {
        p.len() as int
    } else {
        name_start(p.drop_last())
    }
}

/// The index of the last `.` in `p`, or -1 when there is none.
pub open spec fn last_dot(p: Seq<char>) -> int
    decreases p.len(),
{
    if p.len() == 0 {
        -1
    } else if p.last() == '.' {
        p.len() - 1
    } else {
        last_dot(p.drop_last())
    }
}

/// Whether every platform reads the last component of `p` as the text after
/// its last separator: the path does not start with two separators (a
/// Windows network or device prefix), and that text is not empty, `.` or
/// `..`, and holds no `:` (a Windows drive prefix).
pub open spec fn plain_path(p: Seq<char>) -> bool {
    let name = p.skip(name_start(p));
    &&& !(p.len() >= 2 && is_separator(p[0]) && is_separator(p[1]))
    &&& name.len() > 0
    &&& name != "."@
    &&& name != ".."@
    &&& !name.contains(':')
}

/// The extension of a path where every platform agrees on it:
/// `Some(Some(e))` when the last component has a `.` after its first
/// character and `e` follows the last one, `Some(None)` when it has no such
/// `.` (and the path no `\`, which only Windows splits at), `None` for the
/// paths where platforms may differ.
pub open spec fn agreed_extension(p: Seq<char>) -> Option<Option<Seq<char>>> {
    if !plain_path(p) {
        None
    } else if last_dot(p) > name_start(p) {
        Some(Some(p.skip(last_dot(p) + 1)))
    } else if !p.contains('\\') {
        Some(None)
    } else {
        None
    }
}

/// The extension of the last component of a path (`Path::extension`), when
/// it is UTF-8 text: the part of the file name after its final `.`, none
/// when the name has no `.` or only a leading one. Any extension is a part
/// of the path after a `.`; the exact result is stated for the paths whose
/// last component all platforms agree on (`agreed_extension`), not for
/// paths with a Windows prefix or a trailing `.`/`..` component.
#[verifier::external_body]
fn path_extension(path: &str) -> (r: Option<String>)
    ensures
        r matches Some(e) ==> is_dot_suffix_in(path@, e@),
        agreed_extension(path@) matches Some(x) ==> text_view(r) == x,
{
    std::path::Path::new(path).extension().and_then(|e| e.to_str()).map(|e| e.to_string())
}

/// The extension of a path in ASCII lower case, or the empty text when it has
/// none.
pub fn extension_lower(path: &str) -> (r: String)
    ensures
        r@.len() == 0 || exists|e: Seq<char>| is_dot_suffix_in(path@, e) && r@ == ascii_lowercase(e),
        agreed_extension(path@) matches Some(x) ==> r@ == lowered(x),
{
    match path_extension(path) {
        Some(e) => lower_extension(Some(e.as_str())),
        None => String::new(),
    }
}

/// Whether an extension, as `Path::extension` reports it, names a FITS or
/// XISF file.
pub fn is_image_extension(ext: Option<&str>) -> (b: bool)
    ensures
        b == format_of(lowered(match ext {
            Some(e) => Some(e@),
            None => None,
        })) is Some,
{
    let l = lower_extension(ext);
    image_format(l.as_str()).is_some()
}

/// Whether a path names a FITS or XISF file by its extension.
pub fn is_image_file(path: &str) -> (b: bool)
    ensures
        b ==> exists|e: Seq<char>| is_dot_suffix_in(path@, e) && format_of(ascii_lowercase(e)) is Some,
        agreed_extension(path@) matches Some(x) ==> b == format_of(lowered(x)) is Some,
{
    match path_extension(path) {
        Some(e) => is_image_extension(Some(e.as_str())),
        None => {
            proof {
                reveal_strlit("fits");
                reveal_strlit("fit");
                reveal_strlit("xisf");
                assert(lowered(None) =~= Seq::<char>::empty());
            }
            false
        },
    }
}

// ---------------------------------------------------------------------------
// Change detection
// ---------------------------------------------------------------------------

/// What the index holds of a file: its size and modification time.
pub struct ExistingRecord {
    pub file_size: i64,
    pub file_modified_at: Option<String>,
}

impl ExistingRecord {
    /// Whether a file with this size and modification time is unchanged
    /// since it was indexed: both are equal to the record's.
    pub fn unchanged(&self, file_size: i64, file_modified: &Option<String>) -> (b: bool)
        ensures
            b == (self.file_size == file_size && text_view(self.file_modified_at) == text_view(
                *file_modified,
            )),
    {
        if self.file_size != file_size {
            return false;
        }
        match (&self.file_modified_at, file_modified) {
            (Some(a), Some(b)) => *a == *b,
            (None, None) => true,
            _ => false,
        }
    }
}

/// The RFC 3339 text that chrono writes for an instant in UTC given as
/// seconds and nanoseconds since the Unix epoch
/// (`DateTime::<Utc>::from_timestamp(secs, nanos)` then `to_rfc3339`), none
/// when chrono cannot represent the instant.
pub uninterp spec fn rfc3339_utc(secs: int, nanos: int) -> Option<Seq<char>>;

/// Calls `DateTime::<Utc>::from_timestamp` and writes the instant with
/// `to_rfc3339`. The text is named `rfc3339_utc`; the calendar is not
/// restated. The epoch itself is always representable.
#[verifier::external_body]
fn utc_text(secs: i64, nanos: u32) -> (r: Option<String>)
    ensures
        text_view(r) == rfc3339_utc(secs as int, nanos as int),
        secs == 0 && nanos == 0 ==> r is Some,
{
    match chrono::DateTime::<chrono::Utc>::from_timestamp(secs, nanos) {
        Some(d) => Some(d.to_rfc3339()),
        None => None,
    }
}

/// The text recorded for a file's modification time, `secs` whole seconds
/// after the Unix epoch: the seconds read as `i64` the way `as` does, and
/// the epoch for an instant chrono cannot represent.
pub open spec fn modified_text_of(secs: u64) -> Seq<char> {
    match rfc3339_utc(secs as i64 as int, 0) {
        Some(t) => t,
        None => rfc3339_utc(0, 0).unwrap(),
    }
}

/// A file's modification time, `secs` whole seconds after the Unix epoch, as
/// RFC 3339 text in UTC; the epoch when the time is out of chrono's range.
pub fn modified_text(secs: u64) -> (r: String)
    ensures
        r@ == modified_text_of(secs),
{
    let s: i64 = secs as i64;
    match utc_text(s, 0) {
        Some(t) => t,
        None => utc_text(0, 0).unwrap(),
    }
}

// ---------------------------------------------------------------------------
// Batches
// ---------------------------------------------------------------------------

/// Files written to the index in one transaction.
pub const BATCH: usize = 50;

/// What happened to one file of a scan.
pub enum FileOutcome {
    /// Parsed and waiting to be written.
    Parsed,
    /// Unchanged since it was indexed.
    Unchanged,
    /// Could not be read or parsed: the file's path and the message.
    Failed { path: String, message: String },
}

/// What the scanner does after a file.
pub enum ScanStep {
    /// Go on with the next file.
    Continue,
    /// Write the pending batch first.
    WriteBatch,
}

/// The state of a scan of one directory: the counts so far, how many parsed
/// files wait to be written, and how many were written.
pub struct ScanState {
    pub result: ScanResult,
    pub pending: usize,
    pub written: usize,
}

impl ScanState {
    /// Every parsed file is either written or pending, and fewer than a
    /// batch are pending.
    pub open spec fn consistent(&self) -> bool {
        &&& self.pending + self.written == self.result.indexed
        &&& self.pending < BATCH
    }

    /// A scan that has not looked at any file.
    pub fn new() -> (s: ScanState)
        ensures
            s.consistent(),
            s.result.indexed == 0 && s.result.skipped == 0 && s.result.errors == 0,
            s.result.error_details@.len() == 0,
            s.written == 0,
    {
        ScanState { result: ScanResult::new(), pending: 0, written: 0 }
    }

    /// Counts one file; a parsed file joins the pending batch, which is to be
    /// written once it holds `BATCH` files. An error is recorded as
    /// `path: message`.
    pub fn file_done(&mut self, outcome: FileOutcome) -> (step: ScanStep)
        requires
            old(self).consistent(),
            old(self).result.indexed < usize::MAX,
            old(self).result.skipped < usize::MAX,
            old(self).result.errors < usize::MAX,
        ensures
            final(self).written == old(self).written,
            final(self).pending + final(self).written == final(self).result.indexed,
            step is WriteBatch <==> final(self).pending >= BATCH,
            final(self).pending <= BATCH,
            match outcome {
                FileOutcome::Parsed => {
                    &&& final(self).result.indexed == old(self).result.indexed + 1
                    &&& final(self).result.skipped == old(self).result.skipped
                    &&& final(self).result.errors == old(self).result.errors
                    &&& final(self).pending == old(self).pending + 1
                    &&& texts(final(self).result.error_details@) == texts(
                        old(self).result.error_details@,
                    )
                },
                FileOutcome::Unchanged => {
                    &&& final(self).result.indexed == old(self).result.indexed
                    &&& final(self).result.skipped == old(self).result.skipped + 1
                    &&& final(self).result.errors == old(self).result.errors
                    &&& final(self).pending == old(self).pending
                    &&& texts(final(self).result.error_details@) == texts(
                        old(self).result.error_details@,
                    )
                },
                FileOutcome::Failed { path, message } => {
                    &&& final(self).result.indexed == old(self).result.indexed
                    &&& final(self).result.skipped == old(self).result.skipped
                    &&& final(self).result.errors == old(self).result.errors + 1
                    &&& final(self).pending == old(self).pending
                    &&& texts(final(self).result.error_details@) == texts(
                        old(self).result.error_details@,
                    ).push(colon_join(path@, message@))
                },
            },
    {
        match outcome {
            FileOutcome::Parsed => {
                self.result.indexed = self.result.indexed + 1;
                self.pending = self.pending + 1;
            },
            FileOutcome::Unchanged => {
                self.result.skipped = self.result.skipped + 1;
            },
            FileOutcome::Failed { path, message } => {
                let line = path.concat(": ").concat(message.as_str());
                proof {
                    reveal_strlit(": ");
                }
                assert(line@ =~= colon_join(path@, message@));
                self.result.record_failure(line);
            },
        }
        if self.pending >= BATCH {
            ScanStep::WriteBatch
        } else {
            ScanStep::Continue
        }
    }

    /// Records that the pending batch was written.
    pub fn batch_written(&mut self)
        requires
            old(self).pending + old(self).written == old(self).result.indexed,
        ensures
            final(self).pending == 0,
            final(self).written == old(self).result.indexed,
            final(self).result == old(self).result,
            final(self).consistent(),
    {
        self.written = self.written + self.pending;
        self.pending = 0;
    }

    /// Whether parsed files still wait to be written when the scan stops,
    /// whether it ran to the end or was cancelled.
    pub fn needs_final_write(&self) -> (b: bool)
        ensures
            b == (self.pending > 0),
    {
        self.pending > 0
    }
}

// ---------------------------------------------------------------------------
// Progress
// ---------------------------------------------------------------------------

/// The least time between two progress reports: 100 ms, in nanoseconds.
pub const PROGRESS_INTERVAL_NANOS: u128 = 100_000_000;

/// Whether a progress report is due, `elapsed_nanos` after the last one.
pub fn progress_due(elapsed_nanos: u128) -> (b: bool)
    ensures
        b == (elapsed_nanos >= PROGRESS_INTERVAL_NANOS),
{
    elapsed_nanos >= PROGRESS_INTERVAL_NANOS
}

} // verus!
