//! Printing through the operating system's print spooler: which commands are
//! run, how their output is read, and what their outcome means.
use vstd::prelude::*;
use crate::config::AgentConfig;
use crate::platform::Os;
use crate::numfmt::{
    all_decimal_digits, decimal, decimal_u8, decimal_value, lemma_decimal_reads_back,
};
use crate::text::{
    ascii_lower_char, ascii_upper, ascii_upper_char, is_space, lemma_trim_bounds, occurs_at,
    opt_string_view, trim_end, trim_start,
    ascii_lower, ascii_lower_chars, chars_of, contains_chars, contains_text, copy_range,
    first_word, first_word_chars, lemma_first_word_nonempty, lines, split_lines, starts_with, starts_with_chars,
    string_from_chars, string_views, trim, trim_chars, views,
};

verus! {

/// The `std::io::Error` type.
#[verifier::external_type_specification]
#[verifier::external_body]
pub struct ExIoError(std::io::Error);

/// Errors of the system print path.
#[derive(Debug)]
pub enum SystemPrinterError {
    /// No system printer found.
    NotFound,
    /// The print command could not be started or fed.
    Command(std::io::Error),
    /// The print command failed; its error output, trimmed.
    CommandFailed(String),
}

/// The message for a missing system printer.
pub const NO_SYSTEM_PRINTER: &'static str = "No system printer found. Install or select a default printer in the OS.";

/// The text of an I/O error: calls `ToString::to_string`, which uses
/// `std::io::Error`'s `Display`. The text depends on the error's contents,
/// which Verus does not see: nothing is claimed of it.
#[verifier::external_body]
pub(crate) fn io_error_text(e: &std::io::Error) -> (r: String) {
    e.to_string()
}

/// The message that describes a system print error.
pub open spec fn system_error_text(e: SystemPrinterError, m: Seq<char>) -> bool {
    match e {
        SystemPrinterError::NotFound => m == NO_SYSTEM_PRINTER@,
        SystemPrinterError::Command(_) => exists|detail: Seq<char>|
            m == "Failed to start print command: "@ + detail,
        SystemPrinterError::CommandFailed(s) => m == "Print command failed: "@ + s@,
    }
}

impl SystemPrinterError {
    /// The message that describes the error.
    pub fn message(&self) -> (r: String)
        ensures
            system_error_text(*self, r@),
    {
        match self {
            SystemPrinterError::NotFound => String::from_str(NO_SYSTEM_PRINTER),
            SystemPrinterError::Command(e) => {
                let detail = io_error_text(e);
                let mut out = String::from_str("Failed to start print command: ");
                out.append(detail.as_str());
                assert(out@ == "Failed to start print command: "@ + detail@);
                out
            },
            SystemPrinterError::CommandFailed(s) => {
                let mut out = String::from_str("Print command failed: ");
                out.append(s.as_str());
                out
            },
        }
    }
}

/// A command to run: program, arguments, and the bytes to feed to its
/// standard input, if any.
pub struct SystemCommand {
    pub program: String,
    pub args: Vec<String>,
    pub stdin: Option<Vec<u8>>,
}

/// What a finished command reported.
pub struct CommandOutput {
    /// The command exited successfully.
    pub success: bool,
    /// Its standard output, as text.
    pub stdout: String,
    /// Its standard error, as text.
    pub stderr: String,
}

/// A command has this program, these arguments and this standard input.
pub open spec fn command_is(
    cmd: SystemCommand,
    program: Seq<char>,
    args: Seq<Seq<char>>,
    stdin: Option<Seq<u8>>,
) -> bool {
    &&& cmd.program@ == program
    &&& string_views(cmd.args@) == args
    &&& match cmd.stdin {
        Some(bytes) => stdin == Some(bytes@),
        None => stdin is None,
    }
}

/// The message for a platform without a print backend.
pub const UNSUPPORTED_BACKEND: &'static str = "unsupported print backend on this platform";

/// The PowerShell pipeline that lists the printers on Windows.
pub const WINDOWS_LIST_SCRIPT: &'static str = "Get-Printer | Select-Object -ExpandProperty Name";

/// The default-printer expression of the Windows print script.
pub const WINDOWS_DEFAULT_PRINTER: &'static str = "(Get-CimInstance Win32_Printer | Where-Object Default | Select-Object -First 1 -ExpandProperty Name)";

/// The Windows print script up to the expression that names the printer.
pub const WINDOWS_SCRIPT_HEAD: &'static str = r#"
$printerName = "#;

/// The Windows print script between the printer expression and the bytes.
pub const WINDOWS_SCRIPT_MIDDLE: &'static str = r#"
if ([string]::IsNullOrWhiteSpace($printerName)) { throw 'No default printer configured' }
$code = @"
using System;
using System.Runtime.InteropServices;
public static class RawPrinterHelper {
  [StructLayout(LayoutKind.Sequential, CharSet=CharSet.Unicode)]
  public class DOCINFO {
    [MarshalAs(UnmanagedType.LPWStr)] public string pDocName;
    [MarshalAs(UnmanagedType.LPWStr)] public string pOutputFile;
    [MarshalAs(UnmanagedType.LPWStr)] public string pDataType;
  }
  [DllImport("winspool.drv", EntryPoint="OpenPrinterW", SetLastError=true, CharSet=CharSet.Unicode)]
  public static extern bool OpenPrinter(string pPrinterName, out IntPtr hPrinter, IntPtr pDefault);
  [DllImport("winspool.drv", SetLastError=true, CharSet=CharSet.Unicode)]
  public static extern bool ClosePrinter(IntPtr hPrinter);
  [DllImport("winspool.drv", SetLastError=true, CharSet=CharSet.Unicode)]
  public static extern bool StartDocPrinter(IntPtr hPrinter, int level, DOCINFO di);
  [DllImport("winspool.drv", SetLastError=true, CharSet=CharSet.Unicode)]
  public static extern bool EndDocPrinter(IntPtr hPrinter);
  [DllImport("winspool.drv", SetLastError=true, CharSet=CharSet.Unicode)]
  public static extern bool StartPagePrinter(IntPtr hPrinter);
  [DllImport("winspool.drv", SetLastError=true, CharSet=CharSet.Unicode)]
  public static extern bool EndPagePrinter(IntPtr hPrinter);
  [DllImport("winspool.drv", SetLastError=true)]
  public static extern bool WritePrinter(IntPtr hPrinter, byte[] pBytes, int dwCount, out int dwWritten);
}
"@
Add-Type -TypeDefinition $code
$bytes = [byte[]]@("#;

/// The Windows print script after the bytes.
pub const WINDOWS_SCRIPT_TAIL: &'static str = r#")
$doc = New-Object RawPrinterHelper+DOCINFO
$doc.pDocName = 'efact receipt'
$doc.pDataType = 'RAW'
$handle = [IntPtr]::Zero
if (-not [RawPrinterHelper]::OpenPrinter($printerName, [ref]$handle, [IntPtr]::Zero)) { throw 'OpenPrinter failed' }
try {
  if (-not [RawPrinterHelper]::StartDocPrinter($handle, 1, $doc)) { throw 'StartDocPrinter failed' }
  try {
    if (-not [RawPrinterHelper]::StartPagePrinter($handle)) { throw 'StartPagePrinter failed' }
    try {
      $written = 0
      if (-not [RawPrinterHelper]::WritePrinter($handle, $bytes, $bytes.Length, [ref]$written)) { throw 'WritePrinter failed' }
      if ($written -ne $bytes.Length) { throw "Partial write: $written / $($bytes.Length)" }
    } finally { [void][RawPrinterHelper]::EndPagePrinter($handle) }
  } finally { [void][RawPrinterHelper]::EndDocPrinter($handle) }
} finally { [void][RawPrinterHelper]::ClosePrinter($handle) }
"#;

/// Names of virtual printers, which print to no paper.
pub open spec fn virtual_printer_names() -> Seq<Seq<char>> {
    seq![
        "microsoft print to pdf"@,
        "microsoft xps document writer"@,
        "fax"@,
        "onenote"@,
        "send to onenote"@,
    ]
}

/// A printer name names a virtual printer: trimmed and in ASCII lower case,
/// it holds one of the virtual printer names.
pub open spec fn is_virtual_name(name: Seq<char>) -> bool {
    exists|i: int|
        0 <= i < virtual_printer_names().len() && contains_text(
            ascii_lower(trim(name)),
            #[trigger] virtual_printer_names()[i],
        )
}

/// The printer that a line of `lpstat -p` names: the first word after
/// `"printer "`.
pub open spec fn lpstat_entry(line: Seq<char>) -> Option<Seq<char>> {
    if starts_with(line, "printer "@) {
        first_word(line.skip("printer "@.len() as int))
    } else {
        None
    }
}

/// The real printers that the lines of `lpstat -p` name, in order.
pub open spec fn lpstat_printers(ls: Seq<Seq<char>>) -> Seq<Seq<char>>
    decreases ls.len(),
{
    if ls.len() == 0 {
        Seq::empty()
    } else {
        let rest = lpstat_printers(ls.drop_last());
        match lpstat_entry(ls.last()) {
            Some(name) => if is_virtual_name(name) {
                rest
            } else {
                rest.push(name)
            },
            None => rest,
        }
    }
}

/// The real printers that the lines of `Get-Printer` name: each non-blank
/// line, trimmed, in order.
pub open spec fn windows_printers(ls: Seq<Seq<char>>) -> Seq<Seq<char>>
    decreases ls.len(),
{
    if ls.len() == 0 {
        Seq::empty()
    } else {
        let rest = windows_printers(ls.drop_last());
        let name = trim(ls.last());
        if name.len() > 0 && !is_virtual_name(name) {
            rest.push(name)
        } else {
            rest
        }
    }
}

/// The printers that a listing command's output names.
pub open spec fn listed_printers(platform: Os, stdout: Seq<char>) -> Seq<Seq<char>> {
    match platform {
        Os::Windows => windows_printers(lines(stdout)),
        _ => lpstat_printers(lines(stdout)),
    }
}

/// The result of listing printers from a finished listing command: its
/// trimmed error output if it failed, `NotFound` if it named no real
/// printer, and the printers otherwise.
pub open spec fn listing_outcome(
    platform: Os,
    out: CommandOutput,
    r: Result<Vec<String>, SystemPrinterError>,
) -> bool {
    if !out.success {
        r matches Err(SystemPrinterError::CommandFailed(m)) && m@ == trim(out.stderr@)
    } else if listed_printers(platform, out.stdout@).len() == 0 {
        r matches Err(SystemPrinterError::NotFound)
    } else {
        r matches Ok(v) && string_views(v@) == listed_printers(platform, out.stdout@)
    }
}

/// The command that lists the printers.
pub open spec fn listing_command(platform: Os, cmd: SystemCommand) -> bool {
    match platform {
        Os::Linux | Os::MacOs => command_is(cmd, "lpstat"@, seq!["-p"@], None),
        Os::Windows => command_is(
            cmd,
            "powershell"@,
            seq!["-NoProfile"@, "-Command"@, WINDOWS_LIST_SCRIPT@],
            None,
        ),
        Os::Other => false,
    }
}

/// The arguments of `lp` for a raw job, to the named printer if one is given.
pub open spec fn lp_args(printer_name: Option<Seq<char>>) -> Seq<Seq<char>> {
    match printer_name {
        Some(name) => seq!["-o"@, "raw"@, "-d"@, name],
        None => seq!["-o"@, "raw"@],
    }
}

/// `s` with each single quote doubled, as a PowerShell single-quoted string
/// needs it.
pub open spec fn escape_quotes(s: Seq<char>) -> Seq<char>
    decreases s.len(),
{
    if s.len() == 0 {
        Seq::empty()
    } else {
        escape_quotes(s.drop_last()) + if s.last() == '\'' {
            seq!['\'', '\'']
        } else {
            seq![s.last()]
        }
    }
}

/// A char that PowerShell reads as a single quote: the ASCII one and the
/// typographic ones, U+2018 to U+201B.
pub open spec fn is_single_quote(c: char) -> bool {
    c == '\'' || ('\u{2018}' <= c && c <= '\u{201B}')
}

/// The body of a PowerShell single-quoted literal stays inside it: every
/// single quote in it is one of a doubled pair.
pub open spec fn stays_in_literal(x: Seq<char>) -> bool
    decreases x.len(),
{
    if x.len() == 0 {
        true
    } else if is_single_quote(x[0]) {
        x.len() >= 2 && is_single_quote(x[1]) && stays_in_literal(x.skip(2))
    } else {
        stays_in_literal(x.drop_first())
    }
}

/// The text that the body of a single-quoted literal denotes: each doubled
/// quote stands for its first quote.
pub open spec fn literal_text(x: Seq<char>) -> Seq<char>
    decreases x.len(),
{
    if x.len() == 0 {
        Seq::empty()
    } else if is_single_quote(x[0]) && x.len() >= 2 && is_single_quote(x[1]) {
        seq![x[0]] + literal_text(x.skip(2))
    } else {
        seq![x[0]] + literal_text(x.drop_first())
    }
}

/// What escaping does to one char.
pub open spec fn escape_char(c: char) -> Seq<char> {
    if c == '\'' {
        seq!['\'', '\'']
    } else {
        seq![c]
    }
}

/// Escaping works char by char from the front too.
proof fn lemma_escape_front(c: char, s: Seq<char>)
    ensures
        escape_quotes(seq![c] + s) == escape_char(c) + escape_quotes(s),
    decreases s.len(),
{
    if s.len() == 0 {
        assert(seq![c] + s =~= seq![c]);
        assert(seq![c].drop_last() =~= Seq::<char>::empty());
        assert(escape_quotes(Seq::<char>::empty()) =~= Seq::<char>::empty());
        assert(seq![c].last() == c);
        assert(escape_quotes(seq![c]) =~= escape_char(c));
    } else {
        lemma_escape_front(c, s.drop_last());
        assert((seq![c] + s).drop_last() =~= seq![c] + s.drop_last());
        assert((seq![c] + s).last() == s.last());
        assert(escape_quotes(seq![c] + s) =~= escape_char(c) + escape_quotes(s));
    }
}

/// A printer name without typographic quotes, escaped, stays inside the
/// single-quoted literal of the Windows print script and denotes exactly that
/// name: no name can end the literal early or add script.
pub proof fn lemma_escaped_name_reads_back(name: Seq<char>)
    requires
        forall|i: int| 0 <= i < name.len() ==> !('\u{2018}' <= #[trigger] name[i] && name[i] <= '\u{201B}'),
    ensures
        stays_in_literal(escape_quotes(name)),
        literal_text(escape_quotes(name)) == name,
    decreases name.len(),
{
    if name.len() == 0 {
        assert(literal_text(escape_quotes(name)) =~= name);
    } else {
        let c = name[0];
        let t = name.drop_first();
        assert(name =~= seq![c] + t);
        lemma_escape_front(c, t);
        assert forall|i: int| 0 <= i < t.len() implies !('\u{2018}' <= #[trigger] t[i] && t[i]
            <= '\u{201B}') by {
            assert(t[i] == name[i + 1]);
        }
        lemma_escaped_name_reads_back(t);
        let x = escape_quotes(name);
        let rest = escape_quotes(t);
        if c == '\'' {
            assert(x =~= seq!['\'', '\''] + rest);
            assert(x.skip(2) =~= rest);
        } else {
            assert(x =~= seq![c] + rest);
            assert(x.drop_first() =~= rest);
        }
        assert(literal_text(x) =~= name);
    }
}

/// The PowerShell expression for the printer: the quoted name, or the
/// default printer's name.
pub open spec fn printer_expr(printer_name: Option<Seq<char>>) -> Seq<char> {
    match printer_name {
        Some(name) => seq!['\''] + escape_quotes(name) + seq!['\''],
        None => WINDOWS_DEFAULT_PRINTER@,
    }
}

/// The bytes in decimal, separated by commas.
pub open spec fn byte_list(data: Seq<u8>) -> Seq<char>
    decreases data.len(),
{
    if data.len() == 0 {
        Seq::empty()
    } else if data.len() == 1 {
        decimal(data[0] as nat)
    } else {
        byte_list(data.drop_last()) + seq![','] + decimal(data.last() as nat)
    }
}

/// The fields of `t` between commas, as `str::split(',')` gives them.
pub open spec fn comma_fields(t: Seq<char>) -> Seq<Seq<char>>
    decreases t.len(),
{
    if t.len() == 0 {
        seq![Seq::<char>::empty()]
    } else if t.last() == ',' {
        comma_fields(t.drop_last()).push(Seq::<char>::empty())
    } else {
        let f = comma_fields(t.drop_last());
        f.update(f.len() - 1, f.last().push(t.last()))
    }
}

/// Appending a field without commas after a comma adds that field.
proof fn lemma_comma_fields_append(x: Seq<char>, y: Seq<char>)
    requires
        forall|i: int| 0 <= i < y.len() ==> #[trigger] y[i] != ',',
    ensures
        comma_fields(x + seq![','] + y) == comma_fields(x).push(y),
        comma_fields(x).len() > 0,
    decreases y.len(),
{
    lemma_comma_fields_nonempty(x);
    if y.len() == 0 {
        assert(x + seq![','] + y =~= x.push(','));
        assert((x + seq![','] + y).drop_last() =~= x);
        assert((x + seq![','] + y).last() == ',');
        assert(y =~= Seq::<char>::empty());
    } else {
        let y1 = y.drop_last();
        lemma_comma_fields_append(x, y1);
        let t = x + seq![','] + y;
        assert(t.drop_last() =~= x + seq![','] + y1);
        assert(t.last() == y.last());
        assert(y1.push(y.last()) =~= y);
        assert(comma_fields(t) =~= comma_fields(x).push(y));
    }
}

/// There is always at least one field.
proof fn lemma_comma_fields_nonempty(t: Seq<char>)
    ensures
        comma_fields(t).len() > 0,
    decreases t.len(),
{
    if t.len() > 0 {
        lemma_comma_fields_nonempty(t.drop_last());
    }
}

/// Text without commas is one field.
proof fn lemma_comma_fields_single(y: Seq<char>)
    requires
        forall|i: int| 0 <= i < y.len() ==> #[trigger] y[i] != ',',
    ensures
        comma_fields(y) == seq![y],
    decreases y.len(),
{
    if y.len() > 0 {
        let y1 = y.drop_last();
        lemma_comma_fields_single(y1);
        assert(y1.push(y.last()) =~= y);
        assert(comma_fields(y) =~= seq![y]);
    } else {
        assert(y =~= Seq::<char>::empty());
        assert(comma_fields(y) =~= seq![y]);
    }
}

/// The byte list of the Windows print script reads back as the job: split
/// at its commas, each field is the decimal text of the byte in its place,
/// and reads back as that byte.
pub proof fn lemma_byte_list_reads_back(data: Seq<u8>)
    requires
        data.len() > 0,
    ensures
        comma_fields(byte_list(data)).len() == data.len(),
        forall|i: int|
            0 <= i < data.len() ==> all_decimal_digits(#[trigger] comma_fields(byte_list(data))[i])
                && decimal_value(comma_fields(byte_list(data))[i]) == data[i] as int,
    decreases data.len(),
{
    let f = comma_fields(byte_list(data));
    let last = decimal(data.last() as nat);
    lemma_decimal_reads_back(data.last() as nat);
    assert forall|i: int| 0 <= i < last.len() implies #[trigger] last[i] != ',' by {
        assert('0' <= last[i] && last[i] <= '9');
    }
    if data.len() == 1 {
        lemma_comma_fields_single(last);
        assert(data.last() == data[0]);
    } else {
        let d1 = data.drop_last();
        lemma_byte_list_reads_back(d1);
        lemma_comma_fields_append(byte_list(d1), last);
        assert forall|i: int| 0 <= i < data.len() implies all_decimal_digits(#[trigger] f[i])
            && decimal_value(f[i]) == data[i] as int by {
            if i < data.len() - 1 {
                assert(f[i] == comma_fields(byte_list(d1))[i]);
                assert(data[i] == d1[i]);
            } else {
                assert(f[i] == last);
            }
        }
    }
}

/// The PowerShell script that sends `data` raw to the printer.
pub open spec fn windows_script(data: Seq<u8>, printer_name: Option<Seq<char>>) -> Seq<char> {
    WINDOWS_SCRIPT_HEAD@ + printer_expr(printer_name) + WINDOWS_SCRIPT_MIDDLE@ + byte_list(data)
        + WINDOWS_SCRIPT_TAIL@
}

/// The command that prints `data`: `lp` fed with the bytes on Unix, a
/// PowerShell script that holds them on Windows.
pub open spec fn print_command(
    platform: Os,
    data: Seq<u8>,
    printer_name: Option<Seq<char>>,
    cmd: SystemCommand,
) -> bool {
    match platform {
        Os::Linux | Os::MacOs => command_is(cmd, "lp"@, lp_args(printer_name), Some(data)),
        Os::Windows => command_is(
            cmd,
            "powershell"@,
            seq!["-NoProfile"@, "-Command"@, windows_script(data, printer_name)],
            None,
        ),
        Os::Other => false,
    }
}

/// The result of a finished print command.
pub open spec fn print_outcome(out: CommandOutput, r: Result<(), SystemPrinterError>) -> bool {
    if out.success {
        r is Ok
    } else {
        r matches Err(SystemPrinterError::CommandFailed(m)) && m@ == trim(out.stderr@)
    }
}

/// An optional string slice as an optional char sequence.
pub open spec fn opt_str_view(o: Option<&str>) -> Option<Seq<char>> {
    match o {
        Some(s) => Some(s@),
        None => None,
    }
}

/// Every printer that `lpstat` lines name is a real printer with a name.
proof fn lemma_lpstat_printers_real(ls: Seq<Seq<char>>)
    ensures
        forall|i: int|
            0 <= i < lpstat_printers(ls).len() ==> (#[trigger] lpstat_printers(ls)[i]).len() > 0
                && !is_virtual_name(lpstat_printers(ls)[i]),
    decreases ls.len(),
{
    if ls.len() > 0 {
        lemma_lpstat_printers_real(ls.drop_last());
        let line = ls.last();
        let rest = lpstat_printers(ls.drop_last());
        let all = lpstat_printers(ls);
        if starts_with(line, "printer "@) {
            lemma_first_word_nonempty(line.skip("printer "@.len() as int));
        }
        assert forall|i: int| 0 <= i < all.len() implies (#[trigger] all[i]).len() > 0
            && !is_virtual_name(all[i]) by {
            if i < rest.len() {
                assert(all[i] == rest[i]);
            }
        }
    }
}

/// Every printer that `Get-Printer` lines name is a real printer with a name.
proof fn lemma_windows_printers_real(ls: Seq<Seq<char>>)
    ensures
        forall|i: int|
            0 <= i < windows_printers(ls).len() ==> (#[trigger] windows_printers(ls)[i]).len() > 0
                && !is_virtual_name(windows_printers(ls)[i]),
    decreases ls.len(),
{
    if ls.len() > 0 {
        lemma_windows_printers_real(ls.drop_last());
        let rest = windows_printers(ls.drop_last());
        let all = windows_printers(ls);
        assert forall|i: int| 0 <= i < all.len() implies (#[trigger] all[i]).len() > 0
            && !is_virtual_name(all[i]) by {
            if i < rest.len() {
                assert(all[i] == rest[i]);
            }
        }
    }
}

/// The system printer list holds no virtual printer (PDF or XPS writer, fax,
/// OneNote) and no empty name.
pub proof fn lemma_listed_printers_real(platform: Os, stdout: Seq<char>)
    ensures
        forall|i: int|
            0 <= i < listed_printers(platform, stdout).len() ==> (
            #[trigger] listed_printers(platform, stdout)[i]).len() > 0 && !is_virtual_name(
                listed_printers(platform, stdout)[i],
            ),
{
    lemma_lpstat_printers_real(lines(stdout));
    lemma_windows_printers_real(lines(stdout));
}

/// Folding to lower case after folding to upper case is folding to lower
/// case.
proof fn lemma_lower_upper(c: char)
    ensures
        ascii_lower_char(ascii_upper_char(c)) == ascii_lower_char(c),
        is_space(ascii_upper_char(c)) == is_space(c),
{
    if 'a' <= c && c <= 'z' {
        let u = ascii_upper_char(c);
        assert(u as u32 == c as u32 - 32);
        assert('A' <= u && u <= 'Z');
        assert(ascii_lower_char(u) as u32 == c as u32);
    }
}

/// Trimming and upper-casing commute.
proof fn lemma_trim_upper(x: Seq<char>)
    ensures
        trim(ascii_upper(x)) == ascii_upper(trim(x)),
{
    lemma_trim_start_upper(x);
    lemma_trim_end_upper(trim_start(x));
}

proof fn lemma_trim_start_upper(x: Seq<char>)
    ensures
        trim_start(ascii_upper(x)) == ascii_upper(trim_start(x)),
    decreases x.len(),
{
    if x.len() > 0 {
        lemma_lower_upper(x[0]);
        assert(ascii_upper(x)[0] == ascii_upper_char(x[0]));
        assert(ascii_upper(x).drop_first() =~= ascii_upper(x.drop_first()));
        lemma_trim_start_upper(x.drop_first());
    } else {
        assert(ascii_upper(x) =~= x);
    }
}

proof fn lemma_trim_end_upper(x: Seq<char>)
    ensures
        trim_end(ascii_upper(x)) == ascii_upper(trim_end(x)),
    decreases x.len(),
{
    if x.len() > 0 {
        lemma_lower_upper(x.last());
        assert(ascii_upper(x).last() == ascii_upper_char(x.last()));
        assert(ascii_upper(x).drop_last() =~= ascii_upper(x.drop_last()));
        lemma_trim_end_upper(x.drop_last());
    } else {
        assert(ascii_upper(x) =~= x);
    }
}

/// Upper-casing the ASCII letters of a name does not change whether it names
/// a virtual printer.
pub proof fn lemma_virtual_ignores_case(name: Seq<char>)
    ensures
        is_virtual_name(ascii_upper(name)) == is_virtual_name(name),
{
    lemma_trim_upper(name);
    let t = trim(name);
    assert forall|i: int| 0 <= i < t.len() implies #[trigger] ascii_lower(ascii_upper(t))[i]
        == ascii_lower(t)[i] by {
        lemma_lower_upper(t[i]);
    }
    assert(ascii_lower(ascii_upper(t)) =~= ascii_lower(t));
}

/// Whitespace around a name does not change what it trims to.
proof fn lemma_trim_padded(pre: Seq<char>, x: Seq<char>, post: Seq<char>)
    requires
        forall|i: int| 0 <= i < pre.len() ==> is_space(#[trigger] pre[i]),
        forall|i: int| 0 <= i < post.len() ==> is_space(#[trigger] post[i]),
    ensures
        trim(pre + x + post) == trim(x),
{
    let t = pre + x + post;
    let p = pre.len() as int;
    let (k, e) = lemma_trim_bounds(x);
    let (kk, ee) = lemma_trim_bounds(t);
    assert forall|i: int| 0 <= i < x.len() implies #[trigger] t[p + i] == x[i] by {}
    if k < e {
        assert(t[p + k] == x[k]);
        assert(t[p + e - 1] == x[e - 1]);
        assert forall|i: int| 0 <= i < p + k implies is_space(#[trigger] t[i]) by {
            if i < p {
                assert(t[i] == pre[i]);
            } else {
                assert(t[i] == x[i - p]);
            }
        }
        assert forall|i: int| p + e <= i < t.len() implies is_space(#[trigger] t[i]) by {
            if i < p + x.len() {
                assert(t[i] == x[i - p]);
            } else {
                assert(t[i] == post[i - p - x.len()]);
            }
        }
        assert(kk == p + k);
        assert(ee == p + e);
        assert(t.subrange(kk, ee) =~= x.subrange(k, e));
    } else {
        assert forall|i: int| 0 <= i < t.len() implies is_space(#[trigger] t[i]) by {
            if i < p {
                assert(t[i] == pre[i]);
            } else if i < p + x.len() {
                assert(t[i] == x[i - p]);
            } else {
                assert(t[i] == post[i - p - x.len()]);
            }
        }
        if kk < ee {
            assert(is_space(t[kk]));
        }
        assert(t.subrange(kk, ee) =~= x.subrange(k, e));
    }
}

/// Whitespace around a name does not change whether it names a virtual
/// printer.
pub proof fn lemma_virtual_ignores_padding(pre: Seq<char>, name: Seq<char>, post: Seq<char>)
    requires
        forall|i: int| 0 <= i < pre.len() ==> is_space(#[trigger] pre[i]),
        forall|i: int| 0 <= i < post.len() ==> is_space(#[trigger] post[i]),
    ensures
        is_virtual_name(pre + name + post) == is_virtual_name(name),
{
    lemma_trim_padded(pre, name, post);
}

/// A name that holds the name of a virtual printer names a virtual printer
/// too.
pub proof fn lemma_virtual_in_longer_name(a: Seq<char>, name: Seq<char>, b: Seq<char>)
    requires
        is_virtual_name(name),
    ensures
        is_virtual_name(a + name + b),
{
    let t = a + name + b;
    let p = a.len() as int;
    let (k, e) = lemma_trim_bounds(name);
    let (kk, ee) = lemma_trim_bounds(t);
    let n = choose|n: int|
        0 <= n < virtual_printer_names().len() && contains_text(
            ascii_lower(trim(name)),
            #[trigger] virtual_printer_names()[n],
        );
    let pat = virtual_printer_names()[n];
    let low = ascii_lower(trim(name));
    let i = choose|i: int| occurs_at(low, pat, i);
    let big = ascii_lower(trim(t));
    assert forall|j: int| 0 <= j < name.len() implies #[trigger] t[p + j] == name[j] by {}
    if k < e {
        assert(t[p + k] == name[k]);
        assert(t[p + e - 1] == name[e - 1]);
        assert(kk <= p + k);
        assert(ee >= p + e);
        let j = i + p + k - kk;
        assert(big.subrange(j, j + pat.len()) =~= low.subrange(i, i + pat.len())) by {
            assert forall|m: int| 0 <= m < pat.len() implies #[trigger] big.subrange(
                j,
                j + pat.len(),
            )[m] == low.subrange(i, i + pat.len())[m] by {
                assert(big[j + m] == ascii_lower_char(t[kk + j + m]));
                assert(low[i + m] == ascii_lower_char(name[k + i + m]));
            }
        }
        assert(occurs_at(big, pat, j));
    } else {
        assert(low.len() == 0);
        assert(pat.len() == 0);
        assert(big.subrange(0, 0) =~= pat);
        assert(occurs_at(big, pat, 0));
    }
    assert(contains_text(big, pat));
}

/// A printer name is virtual exactly when, trimmed and in ASCII lower case,
/// it holds one of the five names of virtual printers: Microsoft's PDF and
/// XPS writers, fax, OneNote and "Send to OneNote".
pub proof fn lemma_virtual_names_are_these(name: Seq<char>)
    ensures
        is_virtual_name(name) <==> {
            let n = ascii_lower(trim(name));
            ||| contains_text(n, "microsoft print to pdf"@)
            ||| contains_text(n, "microsoft xps document writer"@)
            ||| contains_text(n, "fax"@)
            ||| contains_text(n, "onenote"@)
            ||| contains_text(n, "send to onenote"@)
        },
{
    let names = virtual_printer_names();
    assert(names[0] == "microsoft print to pdf"@);
    assert(names[1] == "microsoft xps document writer"@);
    assert(names[2] == "fax"@);
    assert(names[3] == "onenote"@);
    assert(names[4] == "send to onenote"@);
    assert(names.len() == 5);
}

/// On Linux and on macOS a job is printed with `lp -o raw`, to the named
/// printer with `-d <name>` when a name is given, the job's bytes fed to it.
pub proof fn lemma_unix_print_uses_lp(
    platform: Os,
    data: Seq<u8>,
    printer_name: Option<Seq<char>>,
    cmd: SystemCommand,
)
    requires
        platform == Os::Linux || platform == Os::MacOs,
        print_command(platform, data, printer_name, cmd),
    ensures
        cmd.program@ == "lp"@,
        cmd.stdin matches Some(bytes) && bytes@ == data,
        printer_name matches Some(name) ==> string_views(cmd.args@) == seq![
            "-o"@,
            "raw"@,
            "-d"@,
            name,
        ],
        printer_name is None ==> string_views(cmd.args@) == seq!["-o"@, "raw"@],
{
}

/// On Windows a job is printed by PowerShell, with the job's bytes and the
/// printer expression inside the script it is given, and nothing fed to it.
pub proof fn lemma_windows_print_uses_powershell(
    data: Seq<u8>,
    printer_name: Option<Seq<char>>,
    cmd: SystemCommand,
)
    requires
        print_command(Os::Windows, data, printer_name, cmd),
    ensures
        cmd.program@ == "powershell"@,
        cmd.stdin is None,
        string_views(cmd.args@).len() == 3,
        string_views(cmd.args@)[0] == "-NoProfile"@,
        string_views(cmd.args@)[1] == "-Command"@,
        string_views(cmd.args@)[2] == WINDOWS_SCRIPT_HEAD@ + printer_expr(printer_name)
            + WINDOWS_SCRIPT_MIDDLE@ + byte_list(data) + WINDOWS_SCRIPT_TAIL@,
{
}

/// The printers are listed with `lpstat -p` on Linux and macOS and with
/// PowerShell's `Get-Printer` on Windows, feeding nothing to the command.
pub proof fn lemma_listing_commands(platform: Os, cmd: SystemCommand)
    requires
        listing_command(platform, cmd),
    ensures
        platform != Os::Other,
        cmd.stdin is None,
        platform == Os::Linux || platform == Os::MacOs ==> cmd.program@ == "lpstat"@
            && string_views(cmd.args@) == seq!["-p"@],
        platform == Os::Windows ==> cmd.program@ == "powershell"@ && string_views(cmd.args@)
            == seq![
            "-NoProfile"@,
            "-Command"@,
            "Get-Printer | Select-Object -ExpandProperty Name"@,
        ],
{
}

/// Does `name` name a virtual printer (PDF or XPS writer, fax, OneNote)?
pub fn is_virtual_printer_name(name: &str) -> (r: bool)
    ensures
        r == is_virtual_name(name@),
{
    let raw = chars_of(name);
    let trimmed = trim_chars(raw.as_slice());
    let normalized = ascii_lower_chars(trimmed.as_slice());
    let patterns: [&str; 5] = [
        "microsoft print to pdf",
        "microsoft xps document writer",
        "fax",
        "onenote",
        "send to onenote",
    ];
    assert(patterns@.map_values(|p: &str| p@) =~= virtual_printer_names());
    let mut i: usize = 0;
    while i < 5
        invariant
            i <= 5,
            normalized@ == ascii_lower(trim(name@)),
            patterns@.map_values(|p: &str| p@) == virtual_printer_names(),
            forall|j: int|
                0 <= j < i ==> !contains_text(normalized@, #[trigger] virtual_printer_names()[j]),
        decreases 5 - i,
    {
        let pattern = chars_of(patterns[i]);
        assert(pattern@ == virtual_printer_names()[i as int]);
        if contains_chars(normalized.as_slice(), pattern.as_slice()) {
            return true;
        }
        i = i + 1;
    }
    false
}

/// The printer that a line of `lpstat -p` names, if it names one.
pub fn lpstat_entry_of(line: &[char]) -> (r: Option<Vec<char>>)
    ensures
        r matches Some(w) ==> lpstat_entry(line@) == Some(w@),
        r is None ==> lpstat_entry(line@) is None,
{
    let prefix = chars_of("printer ");
    if !starts_with_chars(line, prefix.as_slice()) {
        return None;
    }
    let rest = copy_range(line, prefix.len(), line.len());
    assert(rest@ =~= line@.skip(prefix@.len() as int));
    first_word_chars(rest.as_slice())
}

/// The real printers that a listing command's output names.
pub fn parse_printer_listing(platform: Os, stdout: &str) -> (r: Vec<String>)
    ensures
        string_views(r@) == listed_printers(platform, stdout@),
{
    let text = chars_of(stdout);
    let ls = split_lines(text.as_slice());
    let ghost lv = views(ls@);
    let mut out: Vec<String> = Vec::new();
    let mut i: usize = 0;
    while i < ls.len()
        invariant
            i <= ls@.len(),
            lv == views(ls@),
            lv == lines(stdout@),
            platform == Os::Windows ==> string_views(out@) == windows_printers(
                lv.take(i as int),
            ),
            platform != Os::Windows ==> string_views(out@) == lpstat_printers(
                lv.take(i as int),
            ),
        decreases ls@.len() - i,
    {
        assert(lv.take(i + 1).drop_last() =~= lv.take(i as int));
        assert(lv.take(i + 1).last() == ls@[i as int]@);
        let line = ls[i].as_slice();
        let ghost before = out@;
        match platform {
            Os::Windows => {
                let name = trim_chars(line);
                if name.len() > 0 {
                    let text = string_from_chars(name.as_slice());
                    if !is_virtual_printer_name(text.as_str()) {
                        out.push(text);
                        assert(string_views(out@) =~= string_views(before).push(name@));
                    }
                }
            },
            _ => {
                match lpstat_entry_of(line) {
                    Some(name) => {
                        let text = string_from_chars(name.as_slice());
                        if !is_virtual_printer_name(text.as_str()) {
                            out.push(text);
                            assert(string_views(out@) =~= string_views(before).push(name@));
                        }
                    },
                    None => {},
                }
            },
        }
        i = i + 1;
    }
    assert(lv.take(ls@.len() as int) =~= lv);
    out
}

/// The listing result for a finished listing command.
pub fn printers_from_output(platform: Os, out: &CommandOutput) -> (r: Result<
    Vec<String>,
    SystemPrinterError,
>)
    ensures
        listing_outcome(platform, *out, r),
{
    if !out.success {
        let err = chars_of(out.stderr.as_str());
        let trimmed = trim_chars(err.as_slice());
        return Err(SystemPrinterError::CommandFailed(string_from_chars(trimmed.as_slice())));
    }
    let printers = parse_printer_listing(platform, out.stdout.as_str());
    if printers.len() == 0 {
        return Err(SystemPrinterError::NotFound);
    }
    Ok(printers)
}

/// The command that lists the printers, where the platform has one.
pub fn listing_command_for(platform: Os) -> (r: Option<SystemCommand>)
    ensures
        r matches Some(cmd) ==> listing_command(platform, cmd),
        r is None <==> platform == Os::Other,
{
    match platform {
        Os::Linux | Os::MacOs => {
            let mut args: Vec<String> = Vec::new();
            args.push(String::from_str("-p"));
            assert(string_views(args@) =~= seq!["-p"@]);
            Some(SystemCommand { program: String::from_str("lpstat"), args, stdin: None })
        },
        Os::Windows => {
            let mut args: Vec<String> = Vec::new();
            args.push(String::from_str("-NoProfile"));
            args.push(String::from_str("-Command"));
            args.push(String::from_str(WINDOWS_LIST_SCRIPT));
            assert(string_views(args@) =~= seq!["-NoProfile"@, "-Command"@, WINDOWS_LIST_SCRIPT@]);
            Some(SystemCommand { program: String::from_str("powershell"), args, stdin: None })
        },
        Os::Other => None,
    }
}

/// Lists the real system printers by running the listing command through
/// `run`.
pub fn list_system_printers<F: Fn(&SystemCommand) -> Result<CommandOutput, std::io::Error>>(
    platform: Os,
    run: F,
) -> (r: Result<Vec<String>, SystemPrinterError>)
    requires
        forall|c: &SystemCommand| call_requires(run, (c,)),
    ensures
        platform == Os::Other ==> (r matches Err(SystemPrinterError::CommandFailed(m))
            && m@ == UNSUPPORTED_BACKEND@),
        platform != Os::Other ==> exists|
            cmd: SystemCommand,
            done: Result<CommandOutput, std::io::Error>,
        |
            #![trigger call_ensures(run, (&cmd,), done)]
            listing_command(platform, cmd) && call_ensures(run, (&cmd,), done) && match done {
                Err(e) => r == Err::<Vec<String>, SystemPrinterError>(
                    SystemPrinterError::Command(e),
                ),
                Ok(out) => listing_outcome(platform, out, r),
            },
{
    let cmd = match listing_command_for(platform) {
        Some(cmd) => cmd,
        None => {
            return Err(SystemPrinterError::CommandFailed(String::from_str(UNSUPPORTED_BACKEND)));
        },
    };
    let done = run(&cmd);
    match done {
        Err(e) => Err(SystemPrinterError::Command(e)),
        Ok(out) => printers_from_output(platform, &out),
    }
}

/// The arguments of `lp` for a raw job.
pub fn lp_command_args(printer_name: Option<&str>) -> (r: Vec<String>)
    ensures
        string_views(r@) == lp_args(opt_str_view(printer_name)),
{
    let mut args: Vec<String> = Vec::new();
    args.push(String::from_str("-o"));
    args.push(String::from_str("raw"));
    match printer_name {
        Some(name) => {
            args.push(String::from_str("-d"));
            args.push(String::from_str(name));
            assert(string_views(args@) =~= seq!["-o"@, "raw"@, "-d"@, name@]);
        },
        None => {
            assert(string_views(args@) =~= seq!["-o"@, "raw"@]);
        },
    }
    args
}

/// `s` with each single quote doubled.
pub fn escape_quotes_chars(s: &[char]) -> (r: Vec<char>)
    ensures
        r@ == escape_quotes(s@),
{
    let mut out: Vec<char> = Vec::new();
    let mut i: usize = 0;
    while i < s.len()
        invariant
            i <= s@.len(),
            out@ == escape_quotes(s@.take(i as int)),
        decreases s@.len() - i,
    {
        assert(s@.take(i + 1).drop_last() =~= s@.take(i as int));
        let c = s[i];
        let ghost before = out@;
        out.push(c);
        if c == '\'' {
            out.push('\'');
        }
        assert(out@ =~= escape_quotes(s@.take(i + 1)));
        i = i + 1;
    }
    assert(s@.take(s@.len() as int) =~= s@);
    out
}

/// The PowerShell expression that names the printer.
pub fn printer_expr_text(printer_name: Option<&str>) -> (r: Vec<char>)
    ensures
        r@ == printer_expr(opt_str_view(printer_name)),
{
    match printer_name {
        Some(name) => {
            let raw = chars_of(name);
            let mut escaped = escape_quotes_chars(raw.as_slice());
            let mut out: Vec<char> = Vec::new();
            out.push('\'');
            out.append(&mut escaped);
            out.push('\'');
            assert(out@ =~= seq!['\''] + escape_quotes(name@) + seq!['\'']);
            out
        },
        None => chars_of(WINDOWS_DEFAULT_PRINTER),
    }
}

/// The bytes in decimal, separated by commas.
pub fn byte_list_text(data: &[u8]) -> (r: Vec<char>)
    ensures
        r@ == byte_list(data@),
{
    let mut out: Vec<char> = Vec::new();
    let mut i: usize = 0;
    while i < data.len()
        invariant
            i <= data@.len(),
            out@ == byte_list(data@.take(i as int)),
        decreases data@.len() - i,
    {
        let ghost before = out@;
        assert(data@.take(i + 1).drop_last() =~= data@.take(i as int));
        if i > 0 {
            out.push(',');
        }
        let mut digits = decimal_u8(data[i]);
        out.append(&mut digits);
        if i == 0 {
            assert(out@ =~= byte_list(data@.take(1)));
        } else {
            assert(out@ =~= before + seq![','] + decimal(data@[i as int] as nat));
        }
        i = i + 1;
    }
    assert(data@.take(data@.len() as int) =~= data@);
    out
}

/// The PowerShell script that sends `data` raw to the printer.
pub fn windows_print_script(data: &[u8], printer_name: Option<&str>) -> (r: String)
    ensures
        r@ == windows_script(data@, opt_str_view(printer_name)),
{
    let mut out = chars_of(WINDOWS_SCRIPT_HEAD);
    let mut part = printer_expr_text(printer_name);
    out.append(&mut part);
    let mut part = chars_of(WINDOWS_SCRIPT_MIDDLE);
    out.append(&mut part);
    let mut part = byte_list_text(data);
    out.append(&mut part);
    let mut part = chars_of(WINDOWS_SCRIPT_TAIL);
    out.append(&mut part);
    string_from_chars(out.as_slice())
}

/// The command that prints `data`, where the platform has one.
pub fn print_command_for(platform: Os, data: &[u8], printer_name: Option<&str>) -> (r:
    Option<SystemCommand>)
    ensures
        r matches Some(cmd) ==> print_command(platform, data@, opt_str_view(printer_name), cmd),
        r is None <==> platform == Os::Other,
{
    match platform {
        Os::Linux | Os::MacOs => {
            let args = lp_command_args(printer_name);
            let bytes = vstd::slice::slice_to_vec(data);
            Some(SystemCommand { program: String::from_str("lp"), args, stdin: Some(bytes) })
        },
        Os::Windows => {
            let script = windows_print_script(data, printer_name);
            let mut args: Vec<String> = Vec::new();
            args.push(String::from_str("-NoProfile"));
            args.push(String::from_str("-Command"));
            let ghost sv = script@;
            args.push(script);
            assert(string_views(args@) =~= seq!["-NoProfile"@, "-Command"@, sv]);
            Some(SystemCommand { program: String::from_str("powershell"), args, stdin: None })
        },
        Os::Other => None,
    }
}

/// The print result for a finished print command.
pub fn print_result(out: &CommandOutput) -> (r: Result<(), SystemPrinterError>)
    ensures
        print_outcome(*out, r),
{
    if out.success {
        Ok(())
    } else {
        let err = chars_of(out.stderr.as_str());
        let trimmed = trim_chars(err.as_slice());
        Err(SystemPrinterError::CommandFailed(string_from_chars(trimmed.as_slice())))
    }
}

/// Prints `data` through the system spooler by running the print command
/// through `run`.
pub fn print_with_system_backend<F: Fn(&SystemCommand) -> Result<CommandOutput, std::io::Error>>(
    data: &[u8],
    printer_name: Option<&str>,
    platform: Os,
    run: F,
) -> (r: Result<(), SystemPrinterError>)
    requires
        forall|c: &SystemCommand| call_requires(run, (c,)),
    ensures
        platform == Os::Other ==> (r matches Err(SystemPrinterError::CommandFailed(m))
            && m@ == UNSUPPORTED_BACKEND@),
        platform != Os::Other ==> exists|
            cmd: SystemCommand,
            done: Result<CommandOutput, std::io::Error>,
        |
            #![trigger call_ensures(run, (&cmd,), done)]
            print_command(platform, data@, opt_str_view(printer_name), cmd) && call_ensures(
                run,
                (&cmd,),
                done,
            ) && match done {
                Err(e) => r == Err::<(), SystemPrinterError>(SystemPrinterError::Command(e)),
                Ok(out) => print_outcome(out, r),
            },
{
    let cmd = match print_command_for(platform, data, printer_name) {
        Some(cmd) => cmd,
        None => {
            return Err(SystemPrinterError::CommandFailed(String::from_str(UNSUPPORTED_BACKEND)));
        },
    };
    let done = run(&cmd);
    match done {
        Err(e) => Err(SystemPrinterError::Command(e)),
        Ok(out) => print_result(&out),
    }
}

/// Sends print jobs to the operating system's print spooler.
#[derive(Clone)]
pub struct SystemPrinterManager {
    config: AgentConfig,
}

impl SystemPrinterManager {
    /// The configuration that the manager works with.
    pub closed spec fn config(&self) -> AgentConfig {
        self.config
    }

    /// A manager for the given configuration.
    pub fn new(config: AgentConfig) -> (r: Self)
        ensures
            r.config() == config,
    {
        SystemPrinterManager { config }
    }

    /// The real system printers; empty when they cannot be listed.
    pub fn list<F: Fn(&SystemCommand) -> Result<CommandOutput, std::io::Error>>(
        &self,
        platform: Os,
        run: F,
    ) -> (r: Vec<String>)
        requires
            forall|c: &SystemCommand| call_requires(run, (c,)),
        ensures
            platform == Os::Other ==> r@.len() == 0,
            platform != Os::Other ==> exists|
                cmd: SystemCommand,
                done: Result<CommandOutput, std::io::Error>,
            |
                #![trigger call_ensures(run, (&cmd,), done)]
                listing_command(platform, cmd) && call_ensures(run, (&cmd,), done) && match done {
                    Ok(out) => if out.success && listed_printers(platform, out.stdout@).len()
                        > 0 {
                        string_views(r@) == listed_printers(platform, out.stdout@)
                    } else {
                        r@.len() == 0
                    },
                    Err(_) => r@.len() == 0,
                },
    {
        match list_system_printers(platform, run) {
            Ok(printers) => printers,
            Err(_) => Vec::new(),
        }
    }

    /// Prints `data` on the configured system printer, or on the default one.
    pub fn print<F: Fn(&SystemCommand) -> Result<CommandOutput, std::io::Error>>(
        &self,
        data: &[u8],
        platform: Os,
        run: F,
    ) -> (r: Result<(), SystemPrinterError>)
        requires
            forall|c: &SystemCommand| call_requires(run, (c,)),
        ensures
            platform == Os::Other ==> (r matches Err(
                SystemPrinterError::CommandFailed(m),
            ) && m@ == UNSUPPORTED_BACKEND@),
            platform != Os::Other ==> exists|
                cmd: SystemCommand,
                done: Result<CommandOutput, std::io::Error>,
            |
                #![trigger call_ensures(run, (&cmd,), done)]
                print_command(
                    platform,
                    data@,
                    opt_string_view(self.config().system_printer_name),
                    cmd,
                ) && call_ensures(run, (&cmd,), done) && match done {
                    Err(e) => r == Err::<(), SystemPrinterError>(SystemPrinterError::Command(e)),
                    Ok(out) => print_outcome(out, r),
                },
    {
        let name: Option<&str> = match &self.config.system_printer_name {
            Some(n) => Some(n.as_str()),
            None => None,
        };
        print_with_system_backend(data, name, platform, run)
    }
}

} // verus!
