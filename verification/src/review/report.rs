//! Reports in the formats of [`OutputType`]: which renderer is used and the
//! name of the report file.
use crate::text::{chars_of, decimal, push_all, push_decimal, string_of};
use vstd::prelude::*;

verus! {

/// The formats a report can be written in.
#[derive(Clone, Copy, Debug, PartialEq, Eq, Structural)]
pub enum OutputType {
    Json,
    Pdf,
    Html,
}

impl Default for OutputType {
    fn default() -> (r: Self)
        ensures
            r == OutputType::Json,
    {
        OutputType::Json
    }
}

impl OutputType {
    /// The name of the format, which is also the report file's extension.
    pub open spec fn spec_name(self) -> Seq<char> {
        match self {
            OutputType::Json => "json"@,
            OutputType::Pdf => "pdf"@,
            OutputType::Html => "html"@,
        }
    }

    /// The name of the format: `json`, `pdf` or `html`.
    pub fn as_str(&self) -> (r: &'static str)
        ensures
            r@ == self.spec_name(),
    {
        match self {
            OutputType::Json => "json",
            OutputType::Pdf => "pdf",
            OutputType::Html => "html",
        }
    }
}

/// An error in producing a report.
#[derive(Clone, Copy, Debug, PartialEq, Eq, Structural)]
pub enum ReportError {
    NotImplemented,
}

impl ReportError {
    /// The error as text.
    pub fn as_str(&self) -> (r: &'static str)
        ensures
            r@ == "Feature not implemented"@,
    {
        "Feature not implemented"
    }
}

/// How a report is rendered.
#[derive(Clone, Copy, Debug, PartialEq, Eq, Structural)]
pub enum ReportRenderer {
    Json,
    Html,
}

/// The renderer for the configured output type: JSON and HTML are
/// rendered, PDF is not implemented.
pub fn create_report(output_type: OutputType) -> (r: Result<ReportRenderer, ReportError>)
    ensures
        r == match output_type {
            OutputType::Json => Ok::<ReportRenderer, ReportError>(ReportRenderer::Json),
            OutputType::Html => Ok(ReportRenderer::Html),
            OutputType::Pdf => Err(ReportError::NotImplemented),
        },
{
    match output_type {
        OutputType::Json => Ok(ReportRenderer::Json),
        OutputType::Html => Ok(ReportRenderer::Html),
        OutputType::Pdf => Err(ReportError::NotImplemented),
    }
}

/// A local date and time, as the parts a report's file name is made of.
#[derive(Clone, Copy, Debug, PartialEq, Eq, Structural)]
pub struct ReportTimestamp {
    pub year: i32,
    pub month: u32,
    pub day: u32,
    pub hour: u32,
    pub minute: u32,
    pub second: u32,
}

/// The decimal digit for `d` (0..10).
pub open spec fn digit(d: int) -> char {
    ((d + 48) as u8) as char
}

/// The last `width` decimal digits of `n` (`n >= 0`), so `n` zero-padded
/// to `width` digits when `n < 10^width`.
pub open spec fn padded(n: int, width: nat) -> Seq<char>
    decreases width,
{
    if width == 0 {
        Seq::empty()
    } else {
        padded(n / 10, (width - 1) as nat) + seq![digit(n % 10)]
    }
}

/// The year as `chrono` formats it with `%Y`: four digits for years 0 to
/// 9999; any other year with its sign (`+` or `-`) and at least four digits.
pub open spec fn year_text(y: int) -> Seq<char> {
    let a = if y < 0 { -y } else { y };
    if 0 <= y <= 9999 {
        padded(y, 4)
    } else {
        (if y < 0 { seq!['-'] } else { seq!['+'] }) + (if a <= 9999 { padded(a, 4) } else { decimal(a as nat) })
    }
}

/// The timestamp as `chrono` formats it with `%Y%m%d_%H%M%S`: the year,
/// then two digits each of month and day, `_`, and two digits each of hour,
/// minute and second.
pub open spec fn spec_timestamp_text(t: ReportTimestamp) -> Seq<char> {
    year_text(t.year as int) + padded(t.month as int, 2) + padded(t.day as int, 2) + seq!['_']
        + padded(t.hour as int, 2) + padded(t.minute as int, 2) + padded(t.second as int, 2)
}

fn digit_char(d: u32) -> (r: char)
    requires
        d < 10,
    ensures
        r == digit(d as int),
{
    (d as u8 + 48) as char
}

/// `n` zero-padded to `width` digits, for `n < 10^width`.
fn push_padded(out: &mut Vec<char>, n: u32, width: u32)
    requires
        1 <= width <= 4,
        (width == 1 ==> n < 10),
        (width == 2 ==> n < 100),
        (width == 3 ==> n < 1000),
        (width == 4 ==> n < 10000),
    ensures
        final(out)@ == old(out)@ + padded(n as int, width as nat),
    decreases width,
{
    if width == 1 {
        out.push(digit_char(n));
        assert(padded(n as int / 10, 0) =~= Seq::<char>::empty());
        assert(out@ =~= old(out)@ + padded(n as int, width as nat));
    } else {
        push_padded(out, n / 10, width - 1);
        out.push(digit_char(n % 10));
        assert(padded(n as int, width as nat) == padded(n as int / 10, (width - 1) as nat) + seq![digit(n as int % 10)]);
        assert(out@ =~= old(out)@ + padded(n as int, width as nat));
    }
}

/// Appends the year as `%Y` formats it.
fn push_year(out: &mut Vec<char>, year: i32)
    ensures
        final(out)@ == old(out)@ + year_text(year as int),
{
    if 0 <= year && year <= 9999 {
        push_padded(out, year as u32, 4);
    } else {
        let wide: i64 = year as i64;
        let a: u64 = if wide < 0 { (0 - wide) as u64 } else { wide as u64 };
        let ghost mid = old(out)@.push(if year < 0 { '-' } else { '+' });
        if year < 0 {
            out.push('-');
        } else {
            out.push('+');
        }
        if a <= 9999 {
            push_padded(out, a as u32, 4);
        } else {
            push_decimal(out, a);
        }
        assert(out@ =~= old(out)@ + year_text(year as int));
    }
}

/// `PathBuf::join` on Unix paths: `name` when it is absolute or `base` is
/// empty, else `base`, a `/` unless `base` ends with one, and `name`.
pub open spec fn spec_join(base: Seq<char>, name: Seq<char>) -> Seq<char> {
    if name.len() > 0 && name[0] == '/' {
        name
    } else if base.len() == 0 {
        name
    } else if base.last() == '/' {
        base + name
    } else {
        base + seq!['/'] + name
    }
}

/// Creates the path of a timestamped report file:
/// `<base_path>/<repo_name>-<YYYYmmdd_HHMMSS>.<file_extension>`.
pub fn create_named_timestamped_filename(
    base_path: &str,
    repo_name: &str,
    file_extension: &str,
    timestamp: ReportTimestamp,
) -> (r: String)
    requires
        timestamp.month <= 99,
        timestamp.day <= 99,
        timestamp.hour <= 99,
        timestamp.minute <= 99,
        timestamp.second <= 99,
    ensures
        r@ == spec_join(
            base_path@,
            repo_name@ + seq!['-'] + spec_timestamp_text(timestamp) + seq!['.'] + file_extension@,
        ),
{
    let mut name = chars_of(repo_name);
    name.push('-');
    push_year(&mut name, timestamp.year);
    push_padded(&mut name, timestamp.month, 2);
    push_padded(&mut name, timestamp.day, 2);
    name.push('_');
    push_padded(&mut name, timestamp.hour, 2);
    push_padded(&mut name, timestamp.minute, 2);
    push_padded(&mut name, timestamp.second, 2);
    name.push('.');
    let ext = chars_of(file_extension);
    push_all(&mut name, &ext);
    assert(name@ =~= repo_name@ + seq!['-'] + spec_timestamp_text(timestamp) + seq!['.'] + file_extension@);
    let base = chars_of(base_path);
    if name.len() > 0 && name[0] == '/' {
        return string_of(&name);
    }
    if base.len() == 0 {
        return string_of(&name);
    }
    let mut out = base;
    if out[out.len() - 1] != '/' {
        out.push('/');
    }
    push_all(&mut out, &name);
    string_of(&out)
}

} // verus!
