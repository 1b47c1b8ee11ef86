//! The gateway to the external flashing utility: the dispatch trait the
//! application implements, the option structs callers fill in, and the
//! operations the harness performs through it.  Every piece of utility
//! output is interpreted by a verified reader.

use vstd::prelude::*;
use vstd::string::StrSliceExecFns;
use vstd::string::StringExecFns;
use crate::strings::{
    contains_seq, is_ascii_space, is_valid_i64_string, i64_string_val, split_lines, trim_end_spec,
    trim_end_ascii,
};
use crate::types::FlashChip;
use crate::utils::{qgrep, vgrep, vgrep_spec};

verus! {

/// Failures of a gateway dispatch.
#[derive(Debug, Clone, PartialEq, Eq)]
pub enum GatewayError {
    /// The utility exited with a nonzero code; the code and its error
    /// text are kept.
    ExitCode(i32, String),
    /// The utility was terminated by a signal, so no exit code exists.
    Terminated,
    /// Output that should have carried an expected value (such as a chip
    /// size) could not be interpreted.
    Protocol(String),
}

/// The error the gateway operations surface.
pub type FlashromError = GatewayError;

/// Write-protect sub-options of a dispatch.
pub struct WPOpt {
    /// `--wp-range start len`
    pub range: Option<(i64, i64)>,
    /// `--wp-status`
    pub status: bool,
    /// `--wp-list`
    pub list: bool,
    /// `--wp-enable`
    pub enable: bool,
    /// `--wp-disable`
    pub disable: bool,
}

impl Default for WPOpt {
    fn default() -> (r: Self)
        ensures
            r.range is None,
            !r.status,
            !r.list,
            !r.enable,
            !r.disable,
    {
        WPOpt { range: None, status: false, list: false, enable: false, disable: false }
    }
}

/// Read, write, verify and erase sub-options; at most one is honoured.
pub struct IOOpt<'a> {
    /// `-r file`
    pub read: Option<&'a str>,
    /// `-w file`
    pub write: Option<&'a str>,
    /// `-v file`
    pub verify: Option<&'a str>,
    /// `-E`
    pub erase: bool,
}

impl<'a> Default for IOOpt<'a> {
    fn default() -> (r: Self)
        ensures
            r.read is None,
            r.write is None,
            r.verify is None,
            !r.erase,
    {
        IOOpt { read: None, write: None, verify: None, erase: false }
    }
}

/// One dispatch's option set.
pub struct FlashromOpt<'a> {
    pub wp_opt: WPOpt,
    pub io_opt: IOOpt<'a>,
    /// `-l file`
    pub layout: Option<&'a str>,
    /// `-i name`
    pub image: Option<&'a str>,
    /// `--flash-name`
    pub flash_name: bool,
    /// `--ignore-fmap`
    pub ignore_fmap: bool,
    /// `-V`
    pub verbose: bool,
}

impl<'a> Default for FlashromOpt<'a> {
    fn default() -> (r: Self)
        ensures
            r.wp_opt.range is None,
            !r.wp_opt.status,
            !r.wp_opt.list,
            !r.wp_opt.enable,
            !r.wp_opt.disable,
            r.io_opt.read is None,
            r.io_opt.write is None,
            r.io_opt.verify is None,
            !r.io_opt.erase,
            r.layout is None,
            r.image is None,
            !r.flash_name,
            !r.ignore_fmap,
            !r.verbose,
    {
        FlashromOpt {
            wp_opt: Default::default(),
            io_opt: Default::default(),
            layout: None,
            image: None,
            flash_name: false,
            ignore_fmap: false,
            verbose: false,
        }
    }
}

/// An argument value that may be handed to the external utility: no
/// embedded whitespace, which the process invocation contract forbids.
pub open spec fn arg_ok(s: Seq<char>) -> bool {
    forall|i: int| 0 <= i < s.len() ==> !is_ascii_space(#[trigger] s[i])
}

/// Every string carried by the option set is an acceptable argument.
pub open spec fn opts_args_ok(opts: FlashromOpt) -> bool {
    &&& (opts.io_opt.read is Some ==> arg_ok(opts.io_opt.read->0@))
    &&& (opts.io_opt.write is Some ==> arg_ok(opts.io_opt.write->0@))
    &&& (opts.io_opt.verify is Some ==> arg_ok(opts.io_opt.verify->0@))
    &&& (opts.layout is Some ==> arg_ok(opts.layout->0@))
    &&& (opts.image is Some ==> arg_ok(opts.image->0@))
}

/// The gateway to the external flashing utility.  The application
/// implements it by spawning the utility; the harness assumes nothing
/// about what a dispatch returns, so verified readers interpret every
/// output.
pub trait Flashrom: Sized {
    /// The chip size in bytes, as the utility reports it.
    fn get_size(&self) -> Result<i64, GatewayError>;

    /// Build a gateway for the utility at `path` targeting chip kind `fc`.
    fn new(path: String, fc: FlashChip) -> Self;

    /// Run the utility once with the given options, yielding the captured
    /// standard output and standard error text.
    fn dispatch<'a>(&self, fropt: FlashromOpt<'a>) -> Result<(String, String), GatewayError>
        requires
            opts_args_ok(fropt),
    ;
}

/// What the name query keeps of the utility's output: the lines of the
/// utility's own tables dropped, trailing whitespace removed.
pub open spec fn flash_name_of(output: Seq<char>) -> Seq<char> {
    trim_end_spec(vgrep_spec(split_lines(output), "coreboot"@))
}

/// Interpret a name report: drop the utility's table lines and trailing
/// whitespace.
pub fn extract_flash_name(output: &str) -> (r: String)
    ensures
        r@ == flash_name_of(output@),
{
    let kept = vgrep(output, "coreboot");
    trim_end_ascii(kept.as_str()).to_owned()
}

/// Query the chip's name with `--flash-name`.  The returned text is
/// `flash_name_of` the dispatch output.
pub fn name<C: Flashrom>(cmd: &C) -> (r: Result<String, GatewayError>) {
    match cmd.dispatch(name_opts()) {
        Ok((stdout, _stderr)) => Ok(extract_flash_name(stdout.as_str())),
        Err(e) => Err(e),
    }
}

/// Interpret a size report: drop the utility's table lines, trim, and
/// read a decimal integer; anything else is a protocol failure.
pub fn parse_size_output(s: &str) -> (r: Result<i64, GatewayError>)
    ensures
        r is Ok <==> is_valid_i64_string(trim_end_spec(vgrep_spec(split_lines(s@), "coreboot"@))),
        r is Ok ==> r->Ok_0 as int == i64_string_val(
            trim_end_spec(vgrep_spec(split_lines(s@), "coreboot"@)),
        ),
        r is Err ==> r->Err_0 is Protocol,
{
    let kept = vgrep(s, "coreboot");
    let trimmed = trim_end_ascii(kept.as_str());
    match crate::strings::parse_i64(trimmed) {
        Some(v) => Ok(v),
        None => Err(
            GatewayError::Protocol(
                "'flashrom --get-size' output did not parse as int correctly".to_owned(),
            ),
        ),
    }
}

/// Details of a write restricted to one named region of a layout.
pub struct ROMWriteSpecifics<'a> {
    pub layout_file: Option<&'a str>,
    pub write_file: Option<&'a str>,
    pub name_file: Option<&'a str>,
}

/// No write-protect option is requested.
pub open spec fn wp_opt_cleared(w: WPOpt) -> bool {
    w.range is None && !w.status && !w.list && !w.enable && !w.disable
}

/// No read, write, verify or erase operation is requested.
pub open spec fn io_opt_cleared(io: IOOpt) -> bool {
    io.read is None && io.write is None && io.verify is None && !io.erase
}

/// No layout, image or flag option is set.
pub open spec fn misc_opts_cleared(opts: FlashromOpt) -> bool {
    opts.layout is None && opts.image is None && !opts.flash_name && !opts.ignore_fmap
        && !opts.verbose
}

/// The option set of a name query: only `--flash-name`.
pub fn name_opts<'a>() -> (o: FlashromOpt<'a>)
    ensures
        wp_opt_cleared(o.wp_opt),
        io_opt_cleared(o.io_opt),
        o.layout is None,
        o.image is None,
        o.flash_name,
        !o.ignore_fmap,
        !o.verbose,
{
    FlashromOpt { flash_name: true, ..Default::default() }
}

/// The option set of a range lock: exactly the range, with the enable
/// flag as asked.
pub fn wp_range_opts<'a>(range: (i64, i64), wp_enable: bool) -> (o: FlashromOpt<'a>)
    ensures
        o.wp_opt.range == Some(range),
        !o.wp_opt.status,
        !o.wp_opt.list,
        o.wp_opt.enable == wp_enable,
        !o.wp_opt.disable,
        io_opt_cleared(o.io_opt),
        misc_opts_cleared(o),
{
    FlashromOpt {
        wp_opt: WPOpt { range: Some(range), enable: wp_enable, ..Default::default() },
        ..Default::default()
    }
}

/// The option set of a range list query: only `--wp-list`.
pub fn wp_list_opts<'a>() -> (o: FlashromOpt<'a>)
    ensures
        o.wp_opt.range is None,
        !o.wp_opt.status,
        o.wp_opt.list,
        !o.wp_opt.enable,
        !o.wp_opt.disable,
        io_opt_cleared(o.io_opt),
        misc_opts_cleared(o),
{
    FlashromOpt {
        wp_opt: WPOpt { list: true, ..Default::default() },
        ..Default::default()
    }
}

/// The option set of a status query: only `--wp-status`.
pub fn wp_status_opts<'a>() -> (o: FlashromOpt<'a>)
    ensures
        o.wp_opt.range is None,
        o.wp_opt.status,
        !o.wp_opt.list,
        !o.wp_opt.enable,
        !o.wp_opt.disable,
        io_opt_cleared(o.io_opt),
        misc_opts_cleared(o),
{
    FlashromOpt {
        wp_opt: WPOpt { status: true, ..Default::default() },
        ..Default::default()
    }
}

/// The option set of a software write-protect toggle: the enable flag as
/// asked, the disable flag its opposite, and the range when one is given.
pub fn wp_toggle_opts<'a>(range: Option<(i64, i64)>, en: bool) -> (o: FlashromOpt<'a>)
    ensures
        o.wp_opt.range == range,
        !o.wp_opt.status,
        !o.wp_opt.list,
        o.wp_opt.enable == en,
        o.wp_opt.disable == !en,
        io_opt_cleared(o.io_opt),
        misc_opts_cleared(o),
{
    FlashromOpt {
        wp_opt: WPOpt { range, enable: en, disable: !en, ..Default::default() },
        ..Default::default()
    }
}

/// The option set of a chip read into `path`: only `-r path`.
pub fn read_opts<'a>(path: &'a str) -> (o: FlashromOpt<'a>)
    ensures
        wp_opt_cleared(o.wp_opt),
        o.io_opt.read is Some && o.io_opt.read->0@ == path@,
        o.io_opt.write is None,
        o.io_opt.verify is None,
        !o.io_opt.erase,
        misc_opts_cleared(o),
{
    FlashromOpt {
        io_opt: IOOpt { read: Some(path), ..Default::default() },
        ..Default::default()
    }
}

/// The option set of a chip write from `path`: only `-w path`.
pub fn write_opts<'a>(path: &'a str) -> (o: FlashromOpt<'a>)
    ensures
        wp_opt_cleared(o.wp_opt),
        o.io_opt.read is None,
        o.io_opt.write is Some && o.io_opt.write->0@ == path@,
        o.io_opt.verify is None,
        !o.io_opt.erase,
        misc_opts_cleared(o),
{
    FlashromOpt {
        io_opt: IOOpt { write: Some(path), ..Default::default() },
        ..Default::default()
    }
}

/// The option set of a verification against `path`: only `-v path`.
pub fn verify_opts<'a>(path: &'a str) -> (o: FlashromOpt<'a>)
    ensures
        wp_opt_cleared(o.wp_opt),
        o.io_opt.read is None,
        o.io_opt.write is None,
        o.io_opt.verify is Some && o.io_opt.verify->0@ == path@,
        !o.io_opt.erase,
        misc_opts_cleared(o),
{
    FlashromOpt {
        io_opt: IOOpt { verify: Some(path), ..Default::default() },
        ..Default::default()
    }
}

/// The option set of a whole-chip erase: only `-E`.
pub fn erase_opts<'a>() -> (o: FlashromOpt<'a>)
    ensures
        wp_opt_cleared(o.wp_opt),
        o.io_opt.read is None,
        o.io_opt.write is None,
        o.io_opt.verify is None,
        o.io_opt.erase,
        misc_opts_cleared(o),
{
    FlashromOpt {
        io_opt: IOOpt { erase: true, ..Default::default() },
        ..Default::default()
    }
}

/// The option set of a layout-restricted write: the write file, the
/// layout file, the region name, and the ignore-flash-map flag.
pub fn write_file_with_layout_opts<'a>(rws: &ROMWriteSpecifics<'a>) -> (o: FlashromOpt<'a>)
    ensures
        wp_opt_cleared(o.wp_opt),
        o.io_opt.read is None,
        o.io_opt.write is Some <==> rws.write_file is Some,
        rws.write_file is Some ==> o.io_opt.write->0@ == rws.write_file->0@,
        o.io_opt.verify is None,
        !o.io_opt.erase,
        o.layout is Some <==> rws.layout_file is Some,
        rws.layout_file is Some ==> o.layout->0@ == rws.layout_file->0@,
        o.image is Some <==> rws.name_file is Some,
        rws.name_file is Some ==> o.image->0@ == rws.name_file->0@,
        !o.flash_name,
        o.ignore_fmap,
        !o.verbose,
{
    FlashromOpt {
        io_opt: IOOpt { write: rws.write_file, ..Default::default() },
        layout: rws.layout_file,
        image: rws.name_file,
        ignore_fmap: true,
        ..Default::default()
    }
}

/// Write one named region from a file, against a layout file, ignoring
/// the flash map.  Success reports `true`.
pub fn write_file_with_layout<C: Flashrom>(cmd: &C, rws: &ROMWriteSpecifics) -> (r: Result<
    bool,
    GatewayError,
>)
    requires
        rws.layout_file is Some ==> arg_ok(rws.layout_file->0@),
        rws.write_file is Some ==> arg_ok(rws.write_file->0@),
        rws.name_file is Some ==> arg_ok(rws.name_file->0@),
    ensures
        r is Ok ==> r->Ok_0 == true,
{
    match cmd.dispatch(write_file_with_layout_opts(rws)) {
        Ok(_) => Ok(true),
        Err(e) => Err(e),
    }
}

/// Lock or unlock the given `(start, length)` range.  Success reports
/// `true`.
pub fn wp_range<C: Flashrom>(cmd: &C, range: (i64, i64), wp_enable: bool) -> (r: Result<
    bool,
    GatewayError,
>)
    ensures
        r is Ok ==> r->Ok_0 == true,
{
    match cmd.dispatch(wp_range_opts(range, wp_enable)) {
        Ok(_) => Ok(true),
        Err(e) => Err(e),
    }
}

/// List the write-protectable ranges.  An empty report means the
/// platform driver offers no list, which is surfaced as an error; a
/// successful result is never empty.
pub fn wp_list<C: Flashrom>(cmd: &C) -> (r: Result<String, GatewayError>)
    ensures
        r is Ok ==> r->Ok_0@.len() > 0,
{
    match cmd.dispatch(wp_list_opts()) {
        Ok((stdout, _stderr)) => {
            if stdout.as_str().is_empty() {
                Err(
                    GatewayError::Protocol(
                        "wp_list isn't supported on platforms using the Linux kernel SPI driver wp_list".to_owned(),
                    ),
                )
            } else {
                Ok(stdout)
            }
        },
        Err(e) => Err(e),
    }
}

/// The sentinel the status report carries: a locale-sensitive exact
/// substring, kept as the compatibility policy the wrapped tool forces.
pub open spec fn wp_sentinel(en: bool) -> Seq<char> {
    if en {
        "write protect is enabled"@
    } else {
        "write protect is disabled"@
    }
}

/// Whether a status report says write-protect is in the asked-for state:
/// an exact sentinel substring match.
pub fn wp_status_matches(output: &str, en: bool) -> (r: bool)
    ensures
        r == contains_seq(output@, wp_sentinel(en)),
{
    if en {
        qgrep(output, "write protect is enabled")
    } else {
        qgrep(output, "write protect is disabled")
    }
}

/// The raw text of a `--wp-status` dispatch.
pub fn wp_status_text<C: Flashrom>(cmd: &C) -> (r: Result<String, GatewayError>) {
    match cmd.dispatch(wp_status_opts()) {
        Ok((stdout, _stderr)) => Ok(stdout),
        Err(e) => Err(e),
    }
}

/// Whether the chip reports software write-protect as enabled (`en` is
/// true) or disabled: the status report matched against the sentinel.
pub fn wp_status<C: Flashrom>(cmd: &C, en: bool) -> (r: Result<bool, GatewayError>) {
    match wp_status_text(cmd) {
        Ok(output) => Ok(wp_status_matches(output.as_str(), en)),
        Err(e) => Err(e),
    }
}

/// Enable or disable software write-protect.  Enabling requests a
/// full-range lock (offset 0, length the chip size), because some
/// backends require an explicit range with the enable flag; the status
/// is re-queried afterwards.  Success reports `true`.
pub fn wp_toggle<C: Flashrom>(cmd: &C, en: bool) -> (r: Result<bool, GatewayError>)
    ensures
        r is Ok ==> r->Ok_0 == true,
{
    let range: Option<(i64, i64)>;
    if en {
        match cmd.get_size() {
            Ok(rom_sz) => {
                range = Some((0, rom_sz));
            },
            Err(e) => {
                return Err(e);
            },
        }
    } else {
        range = None;
    }
    match cmd.dispatch(wp_toggle_opts(range, en)) {
        Ok(_) => {},
        Err(e) => {
            return Err(e);
        },
    }
    match wp_status(cmd, true) {
        Ok(_ret) => Ok(true),
        Err(e) => Err(e),
    }
}

/// Read the chip into `path`.
pub fn read<C: Flashrom>(cmd: &C, path: &str) -> (r: Result<(), GatewayError>)
    requires
        arg_ok(path@),
{
    match cmd.dispatch(read_opts(path)) {
        Ok(_) => Ok(()),
        Err(e) => Err(e),
    }
}

/// Write the chip from `path`.
pub fn write<C: Flashrom>(cmd: &C, path: &str) -> (r: Result<(), GatewayError>)
    requires
        arg_ok(path@),
{
    match cmd.dispatch(write_opts(path)) {
        Ok(_) => Ok(()),
        Err(e) => Err(e),
    }
}

/// Verify the chip against `path`.
pub fn verify<C: Flashrom>(cmd: &C, path: &str) -> (r: Result<(), GatewayError>)
    requires
        arg_ok(path@),
{
    match cmd.dispatch(verify_opts(path)) {
        Ok(_) => Ok(()),
        Err(e) => Err(e),
    }
}

/// Erase the whole chip.
pub fn erase<C: Flashrom>(cmd: &C) -> (r: Result<(), GatewayError>)
{
    match cmd.dispatch(erase_opts()) {
        Ok(_) => Ok(()),
        Err(e) => Err(e),
    }
}

} // verus!
