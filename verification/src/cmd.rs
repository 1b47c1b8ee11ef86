//! The concrete configuration of the external flashing utility and the
//! verified translation of an option set into its argument list.

use vstd::prelude::*;
use vstd::string::StrSliceExecFns;
use crate::flashrom::{
    arg_ok, io_opt_cleared, misc_opts_cleared, opts_args_ok, wp_opt_cleared, FlashromOpt, IOOpt,
    WPOpt,
};
use crate::types::FlashChip;
use crate::utils::{hex_string, hex_string_spec};
use crate::strings::hex_seq_upper;

verus! {

/// Where the external flashing utility lives and which chip it targets.
/// The surrounding application wraps this in its gateway implementation.
pub struct FlashromCmd {
    pub path: String,
    pub fc: FlashChip,
}

impl FlashromCmd {
    /// Remember the utility's path and the targeted chip kind.
    pub fn new(path: String, fc: FlashChip) -> (r: Self)
        ensures
            r.path@ == path@,
            r.fc == fc,
    {
        FlashromCmd { path, fc }
    }
}

/// The write-protect range arguments, when a range is given.
pub open spec fn wp_range_args(w: WPOpt) -> Seq<Seq<char>> {
    if w.range is Some {
        seq![
            "--wp-range"@,
            hex_string_spec((w.range->0).0),
            hex_string_spec((w.range->0).1),
        ]
    } else {
        Seq::empty()
    }
}

/// The write-protect mode argument: status wins over list, list over
/// enable, enable over disable.
pub open spec fn wp_mode_args(w: WPOpt) -> Seq<Seq<char>> {
    if w.status {
        seq!["--wp-status"@]
    } else if w.list {
        seq!["--wp-list"@]
    } else if w.enable {
        seq!["--wp-enable"@]
    } else if w.disable {
        seq!["--wp-disable"@]
    } else {
        Seq::empty()
    }
}

/// The i/o arguments: read wins over write, write over verify, verify
/// over erase.
pub open spec fn io_args(io: IOOpt) -> Seq<Seq<char>> {
    if io.read is Some {
        seq!["-r"@, io.read->0@]
    } else if io.write is Some {
        seq!["-w"@, io.write->0@]
    } else if io.verify is Some {
        seq!["-v"@, io.verify->0@]
    } else if io.erase {
        seq!["-E"@]
    } else {
        Seq::empty()
    }
}

/// The layout, image and flag arguments.
pub open spec fn misc_args(opts: FlashromOpt) -> Seq<Seq<char>> {
    (if opts.layout is Some {
        seq!["-l"@, opts.layout->0@]
    } else {
        Seq::empty()
    }).add(
        if opts.image is Some {
            seq!["-i"@, opts.image->0@]
        } else {
            Seq::empty()
        },
    ).add(
        if opts.flash_name {
            seq!["--flash-name"@]
        } else {
            Seq::empty()
        },
    ).add(
        if opts.ignore_fmap {
            seq!["--ignore-fmap"@]
        } else {
            Seq::empty()
        },
    ).add(
        if opts.verbose {
            seq!["-V"@]
        } else {
            Seq::empty()
        },
    )
}

/// The whole argument list an option set translates to, in order:
/// write-protect range, write-protect mode, i/o operation, then the
/// layout, image and flag arguments.
pub open spec fn decode_opts_spec(opts: FlashromOpt) -> Seq<Seq<char>> {
    wp_range_args(opts.wp_opt).add(wp_mode_args(opts.wp_opt)).add(io_args(opts.io_opt)).add(
        misc_args(opts),
    )
}

/// The name query dispatches exactly `--flash-name`.
pub proof fn lemma_name_args(opts: FlashromOpt)
    requires
        wp_opt_cleared(opts.wp_opt),
        io_opt_cleared(opts.io_opt),
        opts.layout is None,
        opts.image is None,
        opts.flash_name,
        !opts.ignore_fmap,
        !opts.verbose,
    ensures
        decode_opts_spec(opts) == seq!["--flash-name"@],
{
    assert(decode_opts_spec(opts) =~= seq!["--flash-name"@]);
}

/// A range lock dispatches exactly the range and, when asked, the
/// enable flag.
pub proof fn lemma_wp_range_args(opts: FlashromOpt, range: (i64, i64), wp_enable: bool)
    requires
        opts.wp_opt.range == Some(range),
        !opts.wp_opt.status,
        !opts.wp_opt.list,
        opts.wp_opt.enable == wp_enable,
        !opts.wp_opt.disable,
        io_opt_cleared(opts.io_opt),
        misc_opts_cleared(opts),
    ensures
        wp_enable ==> decode_opts_spec(opts) == seq![
            "--wp-range"@,
            hex_string_spec(range.0),
            hex_string_spec(range.1),
            "--wp-enable"@,
        ],
        !wp_enable ==> decode_opts_spec(opts) == seq![
            "--wp-range"@,
            hex_string_spec(range.0),
            hex_string_spec(range.1),
        ],
{
    if wp_enable {
        assert(decode_opts_spec(opts) =~= seq![
            "--wp-range"@,
            hex_string_spec(range.0),
            hex_string_spec(range.1),
            "--wp-enable"@,
        ]);
    } else {
        assert(decode_opts_spec(opts) =~= seq![
            "--wp-range"@,
            hex_string_spec(range.0),
            hex_string_spec(range.1),
        ]);
    }
}

/// The range list query dispatches exactly `--wp-list`.
pub proof fn lemma_wp_list_args(opts: FlashromOpt)
    requires
        opts.wp_opt.range is None,
        !opts.wp_opt.status,
        opts.wp_opt.list,
        !opts.wp_opt.enable,
        !opts.wp_opt.disable,
        io_opt_cleared(opts.io_opt),
        misc_opts_cleared(opts),
    ensures
        decode_opts_spec(opts) == seq!["--wp-list"@],
{
    assert(decode_opts_spec(opts) =~= seq!["--wp-list"@]);
}

/// The status query dispatches exactly `--wp-status`.
pub proof fn lemma_wp_status_args(opts: FlashromOpt)
    requires
        opts.wp_opt.range is None,
        opts.wp_opt.status,
        !opts.wp_opt.list,
        !opts.wp_opt.enable,
        !opts.wp_opt.disable,
        io_opt_cleared(opts.io_opt),
        misc_opts_cleared(opts),
    ensures
        decode_opts_spec(opts) == seq!["--wp-status"@],
{
    assert(decode_opts_spec(opts) =~= seq!["--wp-status"@]);
}

/// The software write-protect toggle dispatches the range when one is
/// given, then exactly the enable or the disable flag.
pub proof fn lemma_wp_toggle_args(opts: FlashromOpt, range: Option<(i64, i64)>, en: bool)
    requires
        opts.wp_opt.range == range,
        !opts.wp_opt.status,
        !opts.wp_opt.list,
        opts.wp_opt.enable == en,
        opts.wp_opt.disable == !en,
        io_opt_cleared(opts.io_opt),
        misc_opts_cleared(opts),
    ensures
        decode_opts_spec(opts) == wp_range_args(opts.wp_opt).add(
            seq![if en { "--wp-enable"@ } else { "--wp-disable"@ }],
        ),
        range is Some ==> wp_range_args(opts.wp_opt) == seq![
            "--wp-range"@,
            hex_string_spec((range->0).0),
            hex_string_spec((range->0).1),
        ],
        range is None ==> wp_range_args(opts.wp_opt) == Seq::<Seq<char>>::empty(),
{
    assert(decode_opts_spec(opts) =~= wp_range_args(opts.wp_opt).add(
        seq![if en { "--wp-enable"@ } else { "--wp-disable"@ }],
    ));
    if range is Some {
        assert(wp_range_args(opts.wp_opt) =~= seq![
            "--wp-range"@,
            hex_string_spec((range->0).0),
            hex_string_spec((range->0).1),
        ]);
    } else {
        assert(wp_range_args(opts.wp_opt) =~= Seq::<Seq<char>>::empty());
    }
}

/// A chip read dispatches exactly `-r` and the file.
pub proof fn lemma_read_args(opts: FlashromOpt, path: Seq<char>)
    requires
        wp_opt_cleared(opts.wp_opt),
        opts.io_opt.read is Some && opts.io_opt.read->0@ == path,
        opts.io_opt.write is None,
        opts.io_opt.verify is None,
        !opts.io_opt.erase,
        misc_opts_cleared(opts),
    ensures
        decode_opts_spec(opts) == seq!["-r"@, path],
{
    assert(decode_opts_spec(opts) =~= seq!["-r"@, path]);
}

/// A chip write dispatches exactly `-w` and the file.
pub proof fn lemma_write_args(opts: FlashromOpt, path: Seq<char>)
    requires
        wp_opt_cleared(opts.wp_opt),
        opts.io_opt.read is None,
        opts.io_opt.write is Some && opts.io_opt.write->0@ == path,
        opts.io_opt.verify is None,
        !opts.io_opt.erase,
        misc_opts_cleared(opts),
    ensures
        decode_opts_spec(opts) == seq!["-w"@, path],
{
    assert(decode_opts_spec(opts) =~= seq!["-w"@, path]);
}

/// A verification dispatches exactly `-v` and the file.
pub proof fn lemma_verify_args(opts: FlashromOpt, path: Seq<char>)
    requires
        wp_opt_cleared(opts.wp_opt),
        opts.io_opt.read is None,
        opts.io_opt.write is None,
        opts.io_opt.verify is Some && opts.io_opt.verify->0@ == path,
        !opts.io_opt.erase,
        misc_opts_cleared(opts),
    ensures
        decode_opts_spec(opts) == seq!["-v"@, path],
{
    assert(decode_opts_spec(opts) =~= seq!["-v"@, path]);
}

/// An erase dispatches exactly `-E`.
pub proof fn lemma_erase_args(opts: FlashromOpt)
    requires
        wp_opt_cleared(opts.wp_opt),
        opts.io_opt.read is None,
        opts.io_opt.write is None,
        opts.io_opt.verify is None,
        opts.io_opt.erase,
        misc_opts_cleared(opts),
    ensures
        decode_opts_spec(opts) == seq!["-E"@],
{
    assert(decode_opts_spec(opts) =~= seq!["-E"@]);
}

/// A layout-restricted write with all three files named dispatches
/// exactly the write file, the layout file, the region name, and the
/// ignore-flash-map flag.
pub proof fn lemma_write_file_with_layout_args(
    opts: FlashromOpt,
    write_file: Seq<char>,
    layout_file: Seq<char>,
    name_file: Seq<char>,
)
    requires
        wp_opt_cleared(opts.wp_opt),
        opts.io_opt.read is None,
        opts.io_opt.write is Some && opts.io_opt.write->0@ == write_file,
        opts.io_opt.verify is None,
        !opts.io_opt.erase,
        opts.layout is Some && opts.layout->0@ == layout_file,
        opts.image is Some && opts.image->0@ == name_file,
        !opts.flash_name,
        opts.ignore_fmap,
        !opts.verbose,
    ensures
        decode_opts_spec(opts) == seq![
            "-w"@,
            write_file,
            "-l"@,
            layout_file,
            "-i"@,
            name_file,
            "--ignore-fmap"@,
        ],
{
    assert(decode_opts_spec(opts) =~= seq![
        "-w"@,
        write_file,
        "-l"@,
        layout_file,
        "-i"@,
        name_file,
        "--ignore-fmap"@,
    ]);
}

fn push_arg(params: &mut Vec<String>, s: &str)
    ensures
        final(params).deep_view() == old(params).deep_view().push(s@),
{
    params.push(s.to_owned());
    proof {
        assert(params.deep_view() =~= old(params).deep_view().push(s@));
    }
}

fn push_arg_string(params: &mut Vec<String>, s: String)
    ensures
        final(params).deep_view() == old(params).deep_view().push(s@),
{
    let ghost v = s@;
    params.push(s);
    proof {
        assert(params.deep_view() =~= old(params).deep_view().push(v));
    }
}

fn decode_wp_opts(w: &WPOpt) -> (params: Vec<String>)
    ensures
        params.deep_view() == wp_range_args(*w).add(wp_mode_args(*w)),
{
    let mut params: Vec<String> = Vec::new();
    if let Some((x0, x1)) = w.range {
        push_arg(&mut params, "--wp-range");
        push_arg_string(&mut params, hex_string(x0));
        push_arg_string(&mut params, hex_string(x1));
    }
    proof {
        assert(params.deep_view() =~= wp_range_args(*w));
    }
    let ghost done_range = params.deep_view();
    if w.status {
        push_arg(&mut params, "--wp-status");
    } else if w.list {
        push_arg(&mut params, "--wp-list");
    } else if w.enable {
        push_arg(&mut params, "--wp-enable");
    } else if w.disable {
        push_arg(&mut params, "--wp-disable");
    }
    proof {
        assert(params.deep_view() =~= done_range.add(wp_mode_args(*w)));
    }
    params
}

fn decode_io_opts<'a>(io: &IOOpt<'a>) -> (params: Vec<String>)
    ensures
        params.deep_view() == io_args(*io),
{
    let mut params: Vec<String> = Vec::new();
    if let Some(rd) = io.read {
        push_arg(&mut params, "-r");
        push_arg(&mut params, rd);
    } else if let Some(wr) = io.write {
        push_arg(&mut params, "-w");
        push_arg(&mut params, wr);
    } else if let Some(vf) = io.verify {
        push_arg(&mut params, "-v");
        push_arg(&mut params, vf);
    } else if io.erase {
        push_arg(&mut params, "-E");
    }
    proof {
        assert(params.deep_view() =~= io_args(*io));
    }
    params
}

fn decode_misc_opts<'a>(opts: &FlashromOpt<'a>) -> (params: Vec<String>)
    ensures
        params.deep_view() == misc_args(*opts),
{
    let mut params: Vec<String> = Vec::new();
    if let Some(lay) = opts.layout {
        push_arg(&mut params, "-l");
        push_arg(&mut params, lay);
    }
    let ghost done_layout = params.deep_view();
    if let Some(img) = opts.image {
        push_arg(&mut params, "-i");
        push_arg(&mut params, img);
    }
    let ghost done_image = params.deep_view();
    if opts.flash_name {
        push_arg(&mut params, "--flash-name");
    }
    let ghost done_name = params.deep_view();
    if opts.ignore_fmap {
        push_arg(&mut params, "--ignore-fmap");
    }
    let ghost done_fmap = params.deep_view();
    if opts.verbose {
        push_arg(&mut params, "-V");
    }
    proof {
        assert(params.deep_view() =~= misc_args(*opts));
    }
    params
}

/// Append every element of `tail`, in order.
fn append_args(params: &mut Vec<String>, tail: Vec<String>)
    ensures
        final(params).deep_view() == old(params).deep_view().add(tail.deep_view()),
{
    let ghost base = params.deep_view();
    let ghost tail_view = tail.deep_view();
    let mut i: usize = 0;
    proof {
        assert(params.deep_view() =~= base.add(tail_view.take(0)));
    }
    while i < tail.len()
        invariant
            i <= tail.len(),
            tail.deep_view() == tail_view,
            params.deep_view() == base.add(tail_view.take(i as int)),
        decreases tail.len() - i,
    {
        push_arg(params, tail[i].as_str());
        proof {
            assert(tail_view.take(i + 1) =~= tail_view.take(i as int).push(tail_view[i as int]));
            assert(params.deep_view() =~= base.add(tail_view.take(i + 1)));
        }
        i = i + 1;
    }
    proof {
        assert(tail_view.take(tail_view.len() as int) =~= tail_view);
    }
}

/// Translate an option set into the flat argument list for the external
/// utility.  No produced argument carries embedded whitespace.
pub fn flashrom_decode_opts(opts: FlashromOpt) -> (params: Vec<String>)
    requires
        opts_args_ok(opts),
    ensures
        params.deep_view() == decode_opts_spec(opts),
        forall|k: int|
            0 <= k < params.deep_view().len() ==> arg_ok(#[trigger] params.deep_view()[k]),
{
    let mut params = decode_wp_opts(&opts.wp_opt);
    append_args(&mut params, decode_io_opts(&opts.io_opt));
    append_args(&mut params, decode_misc_opts(&opts));
    proof {
        assert(params.deep_view() =~= decode_opts_spec(opts));
        lemma_decode_opts_whitespace_free(opts);
    }
    params
}

/// The full command line for one dispatch: the programmer selector for
/// the chip kind first, then the translated options.
pub fn flashrom_cmdline(fc: FlashChip, opts: FlashromOpt) -> (args: Vec<String>)
    requires
        opts_args_ok(opts),
    ensures
        args.deep_view().len() == 2 + decode_opts_spec(opts).len(),
        args.deep_view()[0] == "-p"@,
        args.deep_view()[1] == fc.spec_to(),
        args.deep_view().skip(2) == decode_opts_spec(opts),
        forall|k: int| 0 <= k < args.deep_view().len() ==> arg_ok(#[trigger] args.deep_view()[k]),
{
    let mut args: Vec<String> = Vec::new();
    push_arg(&mut args, "-p");
    push_arg(&mut args, FlashChip::to(fc));
    let params = flashrom_decode_opts(opts);
    let ghost prefix = args.deep_view();
    let mut i: usize = 0;
    while i < params.len()
        invariant
            i <= params.len(),
            args.deep_view() == prefix.add(params.deep_view().take(i as int)),
            prefix.len() == 2,
        decreases params.len() - i,
    {
        let ghost before = args.deep_view();
        push_arg(&mut args, params[i].as_str());
        proof {
            assert(params.deep_view().take(i + 1) =~= params.deep_view().take(i as int).push(
                params.deep_view()[i as int],
            ));
            assert(args.deep_view() =~= prefix.add(params.deep_view().take(i + 1)));
        }
        i = i + 1;
    }
    proof {
        assert(params.deep_view().take(params.deep_view().len() as int) =~= params.deep_view());
        assert(args.deep_view().skip(2) =~= decode_opts_spec(opts));
        reveal_strlit("-p");
        reveal_strlit("ec");
        reveal_strlit("host");
        reveal_strlit("ft2232_spi:type=servo-v2");
        reveal_strlit("dediprog");
        assert(arg_ok("-p"@));
        assert(arg_ok(fc.spec_to()));
        assert forall|k: int| 0 <= k < args.deep_view().len() implies arg_ok(
            #[trigger] args.deep_view()[k],
        ) by {
            if k >= 2 {
                assert(args.deep_view()[k] == args.deep_view().skip(2)[k - 2]);
            }
        }
    }
    args
}


/// Every argument of both lists is whitespace-free.
proof fn lemma_args_concat(a: Seq<Seq<char>>, b: Seq<Seq<char>>)
    requires
        forall|k: int| 0 <= k < a.len() ==> arg_ok(#[trigger] a[k]),
        forall|k: int| 0 <= k < b.len() ==> arg_ok(#[trigger] b[k]),
    ensures
        forall|k: int| 0 <= k < a.add(b).len() ==> arg_ok(#[trigger] a.add(b)[k]),
{
    assert forall|k: int| 0 <= k < a.add(b).len() implies arg_ok(#[trigger] a.add(b)[k]) by {
        if k < a.len() {
            assert(a.add(b)[k] == a[k]);
        } else {
            assert(a.add(b)[k] == b[k - a.len()]);
        }
    }
}

/// A rendered offset argument is whitespace-free.
proof fn lemma_hex_string_arg_ok(v: i64)
    ensures
        arg_ok(hex_string_spec(v)),
{
    crate::strings::lemma_hex_seq_upper_chars(v as u64 as nat);
    let digits = hex_seq_upper(v as u64 as nat);
    let s = hex_string_spec(v);
    assert forall|i: int| 0 <= i < s.len() implies !crate::strings::is_ascii_space(
        #[trigger] s[i],
    ) by {
        if i == 0 {
            assert(s[i] == '0');
        } else if i == 1 {
            assert(s[i] == 'x');
        } else if digits.len() >= 6 {
            assert(s[i] == digits[i - 2]);
        } else if i < 2 + 6 - digits.len() {
            assert(s[i] == '0');
        } else {
            assert(s[i] == digits[i - 2 - (6 - digits.len())]);
        }
    }
}

/// The process invocation contract: with acceptable option strings, no
/// argument the translation produces carries embedded whitespace.
pub proof fn lemma_decode_opts_whitespace_free(opts: FlashromOpt)
    requires
        opts_args_ok(opts),
    ensures
        forall|k: int|
            0 <= k < decode_opts_spec(opts).len() ==> arg_ok(#[trigger] decode_opts_spec(opts)[k]),
{
    reveal_strlit("--wp-range");
    reveal_strlit("--wp-status");
    reveal_strlit("--wp-list");
    reveal_strlit("--wp-enable");
    reveal_strlit("--wp-disable");
    reveal_strlit("-r");
    reveal_strlit("-w");
    reveal_strlit("-v");
    reveal_strlit("-E");
    reveal_strlit("-l");
    reveal_strlit("-i");
    reveal_strlit("--flash-name");
    reveal_strlit("--ignore-fmap");
    reveal_strlit("-V");
    assert(arg_ok("--wp-range"@));
    assert(arg_ok("--wp-status"@));
    assert(arg_ok("--wp-list"@));
    assert(arg_ok("--wp-enable"@));
    assert(arg_ok("--wp-disable"@));
    assert(arg_ok("-r"@));
    assert(arg_ok("-w"@));
    assert(arg_ok("-v"@));
    assert(arg_ok("-E"@));
    assert(arg_ok("-l"@));
    assert(arg_ok("-i"@));
    assert(arg_ok("--flash-name"@));
    assert(arg_ok("--ignore-fmap"@));
    assert(arg_ok("-V"@));
    if opts.wp_opt.range is Some {
        lemma_hex_string_arg_ok((opts.wp_opt.range->0).0);
        lemma_hex_string_arg_ok((opts.wp_opt.range->0).1);
    }
    let wr = wp_range_args(opts.wp_opt);
    let wm = wp_mode_args(opts.wp_opt);
    let io = io_args(opts.io_opt);
    let mi = misc_args(opts);
    assert(forall|k: int| 0 <= k < wr.len() ==> arg_ok(#[trigger] wr[k]));
    assert(forall|k: int| 0 <= k < wm.len() ==> arg_ok(#[trigger] wm[k]));
    assert(forall|k: int| 0 <= k < io.len() ==> arg_ok(#[trigger] io[k]));
    let m1 = if opts.layout is Some {
        seq!["-l"@, opts.layout->0@]
    } else {
        Seq::<Seq<char>>::empty()
    };
    let m2 = if opts.image is Some {
        seq!["-i"@, opts.image->0@]
    } else {
        Seq::<Seq<char>>::empty()
    };
    let m3 = if opts.flash_name {
        seq!["--flash-name"@]
    } else {
        Seq::<Seq<char>>::empty()
    };
    let m4 = if opts.ignore_fmap {
        seq!["--ignore-fmap"@]
    } else {
        Seq::<Seq<char>>::empty()
    };
    let m5 = if opts.verbose {
        seq!["-V"@]
    } else {
        Seq::<Seq<char>>::empty()
    };
    assert(forall|k: int| 0 <= k < m1.len() ==> arg_ok(#[trigger] m1[k]));
    assert(forall|k: int| 0 <= k < m2.len() ==> arg_ok(#[trigger] m2[k]));
    assert(forall|k: int| 0 <= k < m3.len() ==> arg_ok(#[trigger] m3[k]));
    assert(forall|k: int| 0 <= k < m4.len() ==> arg_ok(#[trigger] m4[k]));
    assert(forall|k: int| 0 <= k < m5.len() ==> arg_ok(#[trigger] m5[k]));
    lemma_args_concat(m1, m2);
    lemma_args_concat(m1.add(m2), m3);
    lemma_args_concat(m1.add(m2).add(m3), m4);
    lemma_args_concat(m1.add(m2).add(m3).add(m4), m5);
    assert(mi == m1.add(m2).add(m3).add(m4).add(m5));
    lemma_args_concat(wr, wm);
    lemma_args_concat(wr.add(wm), io);
    lemma_args_concat(wr.add(wm).add(io), mi);
    assert(decode_opts_spec(opts) == wr.add(wm).add(io).add(mi));
}

} // verus!
