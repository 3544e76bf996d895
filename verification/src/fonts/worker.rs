//! The decisions around a FontForge font job: which fonts may be sent, what
//! the job is asked to produce, and whether its answer is accepted.

use std::time::Duration;
use vstd::prelude::*;

use crate::model::{FontId, FontSource, ProcessedFont};
use crate::output::markup::{decimal, io_error_text, joined_text, push_char, push_decimal, starts_with};

verus! {

/// How long a font job may run, in milliseconds, unless configured
/// otherwise: ten seconds.
pub const DEFAULT_TIMEOUT_MILLIS: u64 = 10_000;

/// How a font job is run: the FontForge executable, how long a job may run
/// (in milliseconds) and the web-font format it produces.
#[derive(Debug, Clone)]
pub struct WorkerConfig {
    pub executable: String,
    pub timeout_millis: u64,
    pub output_format: FontOutputFormat,
}

impl WorkerConfig {
    /// A configuration for `executable` with the default timeout of ten
    /// seconds and WOFF2 output.
    pub fn new(executable: &str) -> (config: Self)
        ensures
            config.executable@ == executable@,
            config.timeout_millis == DEFAULT_TIMEOUT_MILLIS,
            config.output_format == FontOutputFormat::Woff2,
    {
        WorkerConfig {
            executable: executable.to_owned(),
            timeout_millis: DEFAULT_TIMEOUT_MILLIS,
            output_format: FontOutputFormat::Woff2,
        }
    }

    /// The same configuration with another output format.
    pub fn with_format(self, output_format: FontOutputFormat) -> (config: Self)
        ensures
            config.executable == self.executable,
            config.timeout_millis == self.timeout_millis,
            config.output_format == output_format,
    {
        let mut config = self;
        config.output_format = output_format;
        config
    }
}

/// Runs font jobs through FontForge with a Python worker script.
#[derive(Debug)]
pub struct FontForgeWorker {
    config: WorkerConfig,
    script: String,
}

impl FontForgeWorker {
    /// A worker running FontForge as `config` says, with the worker script
    /// at `script`.
    pub fn new(config: WorkerConfig, script: &str) -> (worker: Self)
        ensures
            worker.config() == config,
            worker.script()@ == script@,
    {
        FontForgeWorker { config, script: script.to_owned() }
    }

    pub closed spec fn config(&self) -> WorkerConfig {
        self.config
    }

    pub closed spec fn script(&self) -> String {
        self.script
    }

    /// How the worker runs FontForge.
    pub fn configuration(&self) -> (config: &WorkerConfig)
        ensures
            *config == self.config(),
    {
        &self.config
    }

    /// The path of the worker script.
    pub fn script_path(&self) -> (script: &str)
        ensures
            script@ == self.script()@,
    {
        self.script.as_str()
    }
}

/// The web-font format a job produces.
#[derive(Debug, Clone, Copy, PartialEq, Eq, Structural)]
pub enum FontOutputFormat {
    Woff2,
    Woff,
}

/// The four bytes every file of `format` starts with.
pub open spec fn format_signature(format: FontOutputFormat) -> Seq<u8> {
    match format {
        FontOutputFormat::Woff2 => seq![0x77u8, 0x4Fu8, 0x46u8, 0x32u8],
        FontOutputFormat::Woff => seq![0x77u8, 0x4Fu8, 0x46u8, 0x46u8],
    }
}

/// The file extension of `format`.
pub open spec fn format_extension(format: FontOutputFormat) -> Seq<char> {
    match format {
        FontOutputFormat::Woff2 => seq!['w', 'o', 'f', 'f', '2'],
        FontOutputFormat::Woff => seq!['w', 'o', 'f', 'f'],
    }
}

impl FontOutputFormat {
    pub fn extension(self) -> (ext: String)
        ensures
            ext@ == format_extension(self),
    {
        let mut ext = String::new();
        push_char(&mut ext, 'w');
        push_char(&mut ext, 'o');
        push_char(&mut ext, 'f');
        push_char(&mut ext, 'f');
        if self == FontOutputFormat::Woff2 {
            push_char(&mut ext, '2');
        }
        assert(ext@ =~= format_extension(self));
        ext
    }

    /// Whether `data` starts with the signature of this format (`wOF2` or
    /// `wOFF`).
    pub fn has_signature(self, data: &[u8]) -> (valid: bool)
        ensures
            valid == (data@.len() >= 4 && data@.take(4) == format_signature(self)),
    {
        if data.len() < 4 {
            return false;
        }
        let last: u8 = match self {
            FontOutputFormat::Woff2 => 0x32,
            FontOutputFormat::Woff => 0x46,
        };
        let valid = data[0] == 0x77 && data[1] == 0x4F && data[2] == 0x46 && data[3] == last;
        assert(valid == (data@.take(4) =~= format_signature(self)));
        valid
    }
}

/// A font is sent to FontForge only when its data is a TrueType (`00 01 00
/// 00`) or CFF OpenType (`OTTO`) sfnt.
pub open spec fn spec_is_supported_font(data: Seq<u8>) -> bool {
    data.len() >= 4 && (data.take(4) == seq![0u8, 1u8, 0u8, 0u8] || data.take(4) == seq![
        0x4Fu8,
        0x54u8,
        0x54u8,
        0x4Fu8,
    ])
}

pub fn is_supported_font(data: &[u8]) -> (supported: bool)
    ensures
        supported == spec_is_supported_font(data@),
{
    if data.len() < 4 {
        return false;
    }
    let truetype = data[0] == 0 && data[1] == 1 && data[2] == 0 && data[3] == 0;
    let opentype = data[0] == 0x4F && data[1] == 0x54 && data[2] == 0x54 && data[3] == 0x4F;
    assert(truetype == (data@.take(4) =~= seq![0u8, 1u8, 0u8, 0u8]));
    assert(opentype == (data@.take(4) =~= seq![0x4Fu8, 0x54u8, 0x54u8, 0x4Fu8]));
    truetype || opentype
}

/// A font job: the font to process and the id it is known by.
#[derive(Debug, Clone)]
pub struct FontJobRequest<'a> {
    pub id: FontId,
    pub source: &'a FontSource,
}

/// The web font a successful job produced.
#[derive(Debug, Clone, PartialEq, Eq)]
pub struct FontJobResult {
    pub font: ProcessedFont,
}

/// Why a font job failed.
#[derive(Debug)]
pub enum FontJobError {
    MissingData,
    UnsupportedFormat,
    UnprovenMapping,
    Workspace(std::io::Error),
    Start(std::io::Error),
    Timeout(Duration),
    Process(String),
    InvalidOutput,
    InvalidResponse(String),
}

/// The written form of a `Duration` (its `Debug` text, such as `10s`).
/// `Duration` has no model here, so nothing is claimed of it.
#[verifier::external_body]
fn duration_text(duration: &Duration) -> String {
    format!("{duration:?}")
}

impl FontJobError {
    /// The error message. The messages of failures that come from the
    /// operating system, and the written time limit, end with text that is
    /// not modelled here.
    pub fn message(&self) -> (text: String)
        ensures
            match *self {
                FontJobError::MissingData => text@ == "font has no embedded data"@,
                FontJobError::UnsupportedFormat => text@
                    == "font format is not supported by the FontForge pipeline"@,
                FontJobError::UnprovenMapping => text@ == "font mapping is not proven"@,
                FontJobError::Workspace(_) => starts_with(text@, "could not create font job workspace: "@),
                FontJobError::Start(_) => starts_with(text@, "could not start FontForge: "@),
                FontJobError::Timeout(_) => starts_with(text@, "FontForge job timed out after "@),
                FontJobError::Process(stderr) => text@ == "FontForge exited unsuccessfully: "@ + stderr@,
                FontJobError::InvalidOutput => text@ == "FontForge did not produce a valid web-font asset"@,
                FontJobError::InvalidResponse(reason) => text@ == "FontForge response was invalid: "@
                    + reason@,
            },
    {
        match self {
            FontJobError::MissingData => "font has no embedded data".to_owned(),
            FontJobError::UnsupportedFormat => "font format is not supported by the FontForge pipeline".to_owned(),
            FontJobError::UnprovenMapping => "font mapping is not proven".to_owned(),
            FontJobError::Workspace(error) => joined_text(
                "could not create font job workspace: ",
                io_error_text(error).as_str(),
            ),
            FontJobError::Start(error) => joined_text("could not start FontForge: ", io_error_text(error).as_str()),
            FontJobError::Timeout(limit) => joined_text("FontForge job timed out after ", duration_text(limit).as_str()),
            FontJobError::Process(stderr) => joined_text("FontForge exited unsuccessfully: ", stderr.as_str()),
            FontJobError::InvalidOutput => "FontForge did not produce a valid web-font asset".to_owned(),
            FontJobError::InvalidResponse(reason) => joined_text("FontForge response was invalid: ", reason.as_str()),
        }
    }
}

/// What FontForge reported about the font it wrote.
#[derive(Debug, Clone, PartialEq, Eq)]
pub struct WorkerReport {
    pub family_name: String,
    pub glyph_count: usize,
    pub advance_widths: Vec<u16>,
}

/// The checks made before FontForge is started: the font has data, in a
/// supported format, and its Unicode mapping is proven.
pub open spec fn spec_check_source(source: FontSource) -> Option<FontJobError> {
    match source.data {
        None => Some(FontJobError::MissingData),
        Some(data) => if !spec_is_supported_font(data@) {
            Some(FontJobError::UnsupportedFormat)
        } else if !source.mapping_proven {
            Some(FontJobError::UnprovenMapping)
        } else {
            None
        },
    }
}

/// The font data to send to FontForge, or why the font may not be sent.
pub fn check_source(source: &FontSource) -> (checked: Result<&[u8], FontJobError>)
    ensures
        match spec_check_source(*source) {
            Some(error) => checked matches Err(e) && e == error,
            None => checked matches Ok(data) && source.data matches Some(d) && data@ == d@,
        },
{
    let data = match &source.data {
        Some(d) => d.as_slice(),
        None => return Err(FontJobError::MissingData),
    };
    if !is_supported_font(data) {
        return Err(FontJobError::UnsupportedFormat);
    }
    if !source.mapping_proven {
        return Err(FontJobError::UnprovenMapping);
    }
    Ok(data)
}

/// The CSS family name of the web font made from font `id`.
pub open spec fn spec_family_name(id: FontId) -> Seq<char> {
    seq!['p', 'd', 'f', '-', 'f', 'o', 'n', 't', '-'] + decimal(id as nat)
}

/// The asset file name of the web font made from font `id`.
pub open spec fn spec_asset_name(id: FontId, format: FontOutputFormat) -> Seq<char> {
    seq!['f', 'o', 'n', 't', '-'] + decimal(id as nat) + seq!['.'] + format_extension(format)
}

pub fn family_name(id: FontId) -> (name: String)
    ensures
        name@ == spec_family_name(id),
{
    let mut name = String::new();
    push_char(&mut name, 'p');
    push_char(&mut name, 'd');
    push_char(&mut name, 'f');
    push_char(&mut name, '-');
    push_char(&mut name, 'f');
    push_char(&mut name, 'o');
    push_char(&mut name, 'n');
    push_char(&mut name, 't');
    push_char(&mut name, '-');
    push_decimal(&mut name, id);
    assert(name@ =~= spec_family_name(id));
    name
}

pub fn asset_name(id: FontId, format: FontOutputFormat) -> (name: String)
    ensures
        name@ == spec_asset_name(id, format),
{
    let mut name = String::new();
    push_char(&mut name, 'f');
    push_char(&mut name, 'o');
    push_char(&mut name, 'n');
    push_char(&mut name, 't');
    push_char(&mut name, '-');
    push_decimal(&mut name, id);
    push_char(&mut name, '.');
    let ext = format.extension();
    name.append(ext.as_str());
    assert(name@ =~= spec_asset_name(id, format));
    name
}

/// The code points of `used`, in decimal, separated by commas: the list of
/// characters FontForge must keep.
pub open spec fn spec_unicode_argument(used: Seq<char>) -> Seq<char>
    decreases used.len(),
{
    if used.len() == 0 {
        Seq::empty()
    } else if used.len() == 1 {
        decimal(used[0] as u32 as nat)
    } else {
        spec_unicode_argument(used.drop_last()) + seq![','] + decimal(used.last() as u32 as nat)
    }
}

pub fn unicode_argument(used: &[char]) -> (argument: String)
    ensures
        argument@ == spec_unicode_argument(used@),
{
    let mut argument = String::new();
    let mut index: usize = 0;
    while index < used.len()
        invariant
            index <= used@.len(),
            argument@ == spec_unicode_argument(used@.take(index as int)),
        decreases used@.len() - index,
    {
        let ghost before = argument@;
        if index > 0 {
            push_char(&mut argument, ',');
        }
        let code = used[index] as u32;
        assert(code as nat == used@[index as int] as u32 as nat);
        push_decimal(&mut argument, code as usize);
        proof {
            let prefix = used@.take(index + 1);
            assert(prefix.drop_last() =~= used@.take(index as int));
            assert(prefix.last() == used@[index as int]);
            if index == 0 {
                assert(prefix[0] == used@[0]);
                assert(argument@ =~= spec_unicode_argument(prefix));
            } else {
                assert(argument@ =~= spec_unicode_argument(prefix));
            }
        }
        index = index + 1;
    }
    assert(used@.take(used@.len() as int) =~= used@);
    argument
}

/// The message of a report that does not match its request.
pub open spec fn report_mismatch_message() -> Seq<char> {
    "family, glyph count, or metrics do not match the request"@
}

/// FontForge's report is accepted when it names the requested family, has
/// at least one glyph per used character, and one advance width per glyph.
pub open spec fn spec_report_matches(report: WorkerReport, family_name: Seq<char>, used_count: nat) -> bool {
    &&& report.family_name@ == family_name
    &&& report.glyph_count >= used_count
    &&& report.advance_widths@.len() == report.glyph_count
}

pub fn validate_report(report: &WorkerReport, family_name: &str, used_count: usize) -> (checked:
    Result<(), FontJobError>)
    ensures
        spec_report_matches(*report, family_name@, used_count as nat) ==> checked is Ok,
        !spec_report_matches(*report, family_name@, used_count as nat) ==> (checked matches Err(
            FontJobError::InvalidResponse(message),
        ) && message@ == report_mismatch_message()),
{
    if report.family_name != family_name.to_owned() || report.glyph_count < used_count
        || report.advance_widths.len() != report.glyph_count {
        return Err(
            FontJobError::InvalidResponse(
                "family, glyph count, or metrics do not match the request".to_owned(),
            ),
        );
    }
    Ok(())
}

/// The job's output is a web font of `format`: it was written and starts
/// with the format's signature.
pub open spec fn output_is_valid(format: FontOutputFormat, output: Option<Vec<u8>>) -> bool {
    output matches Some(data) && data@.len() >= 4 && data@.take(4) == format_signature(format)
}

/// Accepts the answer of a job for font `id`: the file it wrote (`None`
/// when there is none to read) and its report (or why the report could not
/// be read). The file must be a web font of `format`, then the report must
/// match the request; the web font is named after the font's id.
pub fn complete_job(
    id: FontId,
    format: FontOutputFormat,
    output: Option<Vec<u8>>,
    report: Result<WorkerReport, String>,
    used_count: usize,
) -> (result: Result<FontJobResult, FontJobError>)
    ensures
        !output_is_valid(format, output) ==> result matches Err(
            FontJobError::InvalidOutput,
        ),
        output_is_valid(format, output) ==> match report {
            Err(reason) => result matches Err(FontJobError::InvalidResponse(message)) && message@
                == reason@,
            Ok(report) => if spec_report_matches(report, spec_family_name(id), used_count as nat) {
                &&& result matches Ok(job)
                &&& job.font.asset_name@ == spec_asset_name(id, format)
                &&& job.font.family_name@ == spec_family_name(id)
                &&& job.font.data@ == output.unwrap()@
                &&& job.font.data@.take(4) == format_signature(format)
                &&& job.font.glyph_count == report.glyph_count
                &&& job.font.advance_widths@ == report.advance_widths@
            } else {
                result matches Err(FontJobError::InvalidResponse(message)) && message@
                    == report_mismatch_message()
            },
        },
{
    let data = match output {
        Some(data) => data,
        None => return Err(FontJobError::InvalidOutput),
    };
    if !format.has_signature(data.as_slice()) {
        return Err(FontJobError::InvalidOutput);
    }
    let report = match report {
        Ok(report) => report,
        Err(reason) => return Err(FontJobError::InvalidResponse(reason)),
    };
    let family = family_name(id);
    match validate_report(&report, family.as_str(), used_count) {
        Err(error) => Err(error),
        Ok(()) => Ok(
            FontJobResult {
                font: ProcessedFont {
                    asset_name: asset_name(id, format),
                    family_name: family,
                    data,
                    glyph_count: report.glyph_count,
                    advance_widths: report.advance_widths,
                },
            },
        ),
    }
}

/// What to do after one look at a running FontForge process.
#[derive(Debug, Clone, Copy, PartialEq, Eq, Structural)]
pub enum PollAction {
    /// The process exited successfully: read its output.
    Finished,
    /// The process exited unsuccessfully: report its error output.
    Failed,
    /// The process is still running past its time limit: stop it and report
    /// a timeout.
    TimedOut,
    /// The process is still running: look again a little later.
    Wait,
}

/// The decision after one look at the process: `exit` is its exit success
/// when it has exited; `timed_out` says whether the time limit has passed.
pub open spec fn spec_poll_action(exit: Option<bool>, timed_out: bool) -> PollAction {
    match exit {
        Some(true) => PollAction::Finished,
        Some(false) => PollAction::Failed,
        None => if timed_out {
            PollAction::TimedOut
        } else {
            PollAction::Wait
        },
    }
}

pub fn poll_action(exit: Option<bool>, timed_out: bool) -> (action: PollAction)
    ensures
        action == spec_poll_action(exit, timed_out),
{
    match exit {
        Some(true) => PollAction::Finished,
        Some(false) => PollAction::Failed,
        None => if timed_out {
            PollAction::TimedOut
        } else {
            PollAction::Wait
        },
    }
}

} // verus!
