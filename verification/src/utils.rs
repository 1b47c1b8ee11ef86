//! Harness utilities: output filtering, hexadecimal rendering, and the
//! ROM partition layout calculator with its descriptor serialization.

use vstd::prelude::*;
use vstd::string::StrSliceExecFns;
use vstd::string::StringExecFns;
use crate::strings::{
    all_hex_digits, contains_seq, contains_str, find_char, hex_digits_val, hex_seq, hex_seq_upper,
    index_of_char, is_hex_digit, lemma_hex_leading_zeros, lemma_hex_roundtrip,
    lemma_index_of_char_props, lemma_index_of_concat, lemma_split_concat, parse_hex_i64,
    is_dec_digit, split_lines, split_lines_exec, split_term_lines, split_term_lines_exec,
    strip_char_all, strip_char_all_exec, strip_prefix_all, strip_prefix_all_exec, to_hex,
    to_hex_upper,
};

verus! {

/// The lines of `ls` that do not contain `m`, concatenated.
pub open spec fn vgrep_spec(ls: Seq<Seq<char>>, m: Seq<char>) -> Seq<char>
    decreases ls.len(),
{
    if ls.len() == 0 {
        Seq::<char>::empty()
    } else if contains_seq(ls[0], m) {
        vgrep_spec(ls.drop_first(), m)
    } else {
        ls[0].add(vgrep_spec(ls.drop_first(), m))
    }
}

/// Drop every line of `s` that contains `m` and concatenate the rest.
pub fn vgrep(s: &str, m: &str) -> (r: String)
    ensures
        r@ == vgrep_spec(split_lines(s@), m@),
{
    let lines = split_lines_exec(s);
    let ghost all = split_lines(s@);
    let mut acc = String::new();
    let mut i: usize = 0;
    proof {
        assert(all.skip(0) =~= all);
        assert(vgrep_spec(all, m@) =~= acc@.add(vgrep_spec(all.skip(0), m@)));
    }
    while i < lines.len()
        invariant
            i <= lines.len(),
            lines.deep_view() == all,
            vgrep_spec(all, m@) == acc@.add(vgrep_spec(all.skip(i as int), m@)),
        decreases lines.len() - i,
    {
        proof {
            assert(all.skip(i as int)[0] == all[i as int]);
            assert(all.skip(i as int).drop_first() =~= all.skip(i + 1));
            assert(all[i as int] == lines[i as int]@);
        }
        let line = &lines[i];
        if !contains_str(line.as_str(), m) {
            acc.append(line.as_str());
        }
        proof {
            assert(vgrep_spec(all, m@) =~= acc@.add(vgrep_spec(all.skip(i + 1), m@)));
        }
        i = i + 1;
    }
    proof {
        assert(all.skip(lines.deep_view().len() as int) =~= Seq::<Seq<char>>::empty());
        assert(vgrep_spec(all, m@) =~= acc@);
    }
    acc
}

/// True for any substring match.
pub fn qgrep(s: &str, m: &str) -> (r: bool)
    ensures
        r == contains_seq(s@, m@),
{
    contains_str(s, m)
}

/// The suffix of `s` after its last newline character; all of `s` when it
/// has none.
pub open spec fn last_line_spec(s: Seq<char>) -> Seq<char>
    decreases s.len(),
{
    if s.len() == 0 {
        s
    } else if s[s.len() - 1] == '\n' {
        Seq::<char>::empty()
    } else {
        last_line_spec(s.drop_last()).push(s[s.len() - 1])
    }
}

proof fn lemma_last_line_suffix(s: Seq<char>, k: int)
    requires
        0 <= k <= s.len(),
        forall|j: int| k <= j < s.len() ==> s[j] != '\n',
        k == 0 || s[k - 1] == '\n',
    ensures
        last_line_spec(s) =~= s.skip(k),
    decreases s.len(),
{
    if s.len() == k {
        if k == 0 {
        }
    } else {
        lemma_last_line_suffix(s.drop_last(), k);
        assert(s.drop_last().skip(k) =~= s.skip(k).drop_last());
    }
}

/// The contents of `s` after its last newline; all of `s` when it has none.
pub fn last_line(s: &str) -> (r: &str)
    ensures
        r@ == last_line_spec(s@),
{
    let s_len = s.unicode_len();
    let mut k: usize = s_len;
    while k > 0 && s.get_char(k - 1) != '\n'
        invariant
            k <= s_len,
            s_len == s@.len(),
            forall|j: int| k <= j < s@.len() ==> s@[j] != '\n',
        decreases k,
    {
        k = k - 1;
    }
    proof {
        lemma_last_line_suffix(s@, k as int);
    }
    s.substring_char(k, s_len)
}


/// The rendering `hex_string` produces: a `0x` prefix and uppercase
/// hexadecimal digits of the two's-complement value, zero-padded to at
/// least six digits.
pub open spec fn hex_string_spec(v: i64) -> Seq<char> {
    let digits = hex_seq_upper(v as u64 as nat);
    let padded = if digits.len() >= 6 {
        digits
    } else {
        Seq::new((6 - digits.len()) as nat, |i: int| '0').add(digits)
    };
    seq!['0', 'x'].add(padded)
}

/// Render `v` as `0x`-prefixed uppercase hexadecimal, at least six digits.
pub fn hex_string(v: i64) -> (r: String)
    ensures
        r@ == hex_string_spec(v),
{
    let digits = to_hex_upper(#[verifier::truncate] (v as u64));
    let n = digits.unicode_len();
    let mut r = "0x".to_owned();
    proof {
        reveal_strlit("0x");
        reveal_strlit("0");
        assert(r@ =~= seq!['0', 'x']);
    }
    let mut pad: usize = 0;
    let ghost target = if digits@.len() >= 6 {
        Seq::<char>::empty()
    } else {
        Seq::new((6 - digits@.len()) as nat, |i: int| '0')
    };
    while n < 6 && pad < 6 - n
        invariant
            n == digits@.len(),
            n < 6 ==> pad <= 6 - n,
            n < 6 ==> target == Seq::new((6 - digits@.len()) as nat, |i: int| '0'),
            n >= 6 ==> pad == 0,
            r@ == seq!['0', 'x'].add(target.take(pad as int)),
        decreases 6 - n - pad,
    {
        r.append("0");
        proof {
            reveal_strlit("0");
            assert(target.take(pad + 1) =~= target.take(pad as int).push('0'));
            assert(r@ =~= seq!['0', 'x'].add(target.take(pad + 1)));
        }
        pad = pad + 1;
    }
    proof {
        assert(target.take(target.len() as int) =~= target);
    }
    r.append(digits.as_str());
    proof {
        assert(r@ =~= hex_string_spec(v));
    }
    r
}


/// The four named ROM partitions.
#[derive(Copy, Clone, Debug, PartialEq, Eq, Structural)]
pub enum LayoutNames {
    TopQuad,
    TopHalf,
    BottomHalf,
    BottomQuad,
}

/// Failures of the layout calculator.
#[derive(Copy, Clone, Debug, PartialEq, Eq, Structural)]
pub enum LayoutError {
    /// The ROM size was not a positive even number.
    InvalidSize,
    /// A layout descriptor line did not have the `start:end NAME` shape.
    Malformed,
}

/// Byte offsets of the four overlapping ROM partitions.
#[derive(Copy, Clone, Debug, PartialEq, Eq, Structural)]
pub struct LayoutSizes {
    pub half_sz: i64,
    pub quad_sz: i64,
    pub rom_top: i64,
    pub bottom_half_top: i64,
    pub bottom_quad_top: i64,
    pub top_quad_bottom: i64,
}

/// Compute the partition boundaries for a ROM of `rom_sz` bytes.
/// The size must be positive and even; anything else is rejected.
pub fn get_layout_sizes(rom_sz: i64) -> (r: Result<LayoutSizes, LayoutError>)
    ensures
        r is Ok <==> (rom_sz > 0 && rom_sz % 2 == 0),
        r is Err ==> r->Err_0 == LayoutError::InvalidSize,
        r is Ok ==> r->Ok_0.half_sz == rom_sz / 2 && r->Ok_0.quad_sz == rom_sz / 4
            && r->Ok_0.rom_top == rom_sz - 1 && r->Ok_0.bottom_half_top == rom_sz / 2 - 1
            && r->Ok_0.bottom_quad_top == rom_sz / 4 - 1 && r->Ok_0.top_quad_bottom == (rom_sz / 4)
            * 3,
{
    if rom_sz <= 0 {
        return Err(LayoutError::InvalidSize);
    }
    if rom_sz % 2 != 0 {
        return Err(LayoutError::InvalidSize);
    }
    proof {
        vstd::arithmetic::div_mod::lemma_div_is_ordered(rom_sz as int, i64::MAX as int, 4);
    }
    Ok(
        LayoutSizes {
            half_sz: rom_sz / 2,
            quad_sz: rom_sz / 4,
            rom_top: rom_sz - 1,
            bottom_half_top: rom_sz / 2 - 1,
            bottom_quad_top: rom_sz / 4 - 1,
            top_quad_bottom: (rom_sz / 4) * 3,
        },
    )
}

/// The name, start offset and length of one partition.
pub fn layout_section(ls: &LayoutSizes, ln: LayoutNames) -> (r: (&'static str, i64, i64))
    ensures
        ln == LayoutNames::TopQuad ==> r.0@ == "TOP_QUAD"@ && r.1 == ls.top_quad_bottom && r.2
            == ls.quad_sz,
        ln == LayoutNames::TopHalf ==> r.0@ == "TOP_HALF"@ && r.1 == ls.half_sz && r.2
            == ls.half_sz,
        ln == LayoutNames::BottomHalf ==> r.0@ == "BOTTOM_HALF"@ && r.1 == 0 && r.2 == ls.half_sz,
        ln == LayoutNames::BottomQuad ==> r.0@ == "BOTTOM_QUAD"@ && r.1 == 0 && r.2 == ls.quad_sz,
        crate::flashrom::arg_ok(r.0@),
{
    proof {
        reveal_strlit("TOP_QUAD");
        reveal_strlit("TOP_HALF");
        reveal_strlit("BOTTOM_HALF");
        reveal_strlit("BOTTOM_QUAD");
        assert(crate::flashrom::arg_ok("TOP_QUAD"@));
        assert(crate::flashrom::arg_ok("TOP_HALF"@));
        assert(crate::flashrom::arg_ok("BOTTOM_HALF"@));
        assert(crate::flashrom::arg_ok("BOTTOM_QUAD"@));
    }
    match ln {
        LayoutNames::TopQuad => ("TOP_QUAD", ls.top_quad_bottom, ls.quad_sz),
        LayoutNames::TopHalf => ("TOP_HALF", ls.half_sz, ls.half_sz),
        LayoutNames::BottomHalf => ("BOTTOM_HALF", 0, ls.half_sz),
        LayoutNames::BottomQuad => ("BOTTOM_QUAD", 0, ls.quad_sz),
    }
}

/// The computed partition boundaries obey the published formulas: the
/// quarter is a fourth of the ROM, the half is half of it, the top half
/// starts at the half boundary and the top quarter at three quarters.
pub proof fn lemma_layout_formulas(rom_sz: i64, ls: LayoutSizes)
    requires
        rom_sz > 0,
        rom_sz % 2 == 0,
        ls.half_sz == rom_sz / 2,
        ls.quad_sz == rom_sz / 4,
        ls.rom_top == rom_sz - 1,
        ls.bottom_half_top == rom_sz / 2 - 1,
        ls.bottom_quad_top == rom_sz / 4 - 1,
        ls.top_quad_bottom == (rom_sz / 4) * 3,
    ensures
        ls.quad_sz == rom_sz / 4,
        ls.half_sz == rom_sz / 2,
        ls.top_quad_bottom == 3 * ls.quad_sz,
        ls.rom_top == rom_sz - 1,
        ls.bottom_half_top + 1 == ls.half_sz,
        ls.bottom_quad_top + 1 == ls.quad_sz,
{
}

/// Lowercase hexadecimal digits of the two's-complement value of `v`,
/// as the layout descriptor renders offsets.
pub open spec fn hex_of(v: i64) -> Seq<char> {
    hex_seq(v as u64 as nat)
}

/// The six-zero start field the descriptor uses for bottom partitions.
pub open spec fn zeros6() -> Seq<char> {
    seq!['0', '0', '0', '0', '0', '0']
}

/// One descriptor line without its newline: `start:end NAME`.
pub open spec fn layout_line_spec(start: Seq<char>, end: Seq<char>, name: Seq<char>) -> Seq<char> {
    start.add(seq![':']).add(end).add(seq![' ']).add(name)
}

/// The whole descriptor: four lines, each newline-terminated, in the
/// fixed order bottom quad, bottom half, top half, top quad.
pub open spec fn layout_descriptor_spec(ls: LayoutSizes) -> Seq<char> {
    layout_line_spec(zeros6(), hex_of(ls.bottom_quad_top), "BOTTOM_QUAD"@).push('\n').add(
        layout_line_spec(zeros6(), hex_of(ls.bottom_half_top), "BOTTOM_HALF"@).push('\n'),
    ).add(layout_line_spec(hex_of(ls.half_sz), hex_of(ls.rom_top), "TOP_HALF"@).push('\n')).add(
        layout_line_spec(hex_of(ls.top_quad_bottom), hex_of(ls.rom_top), "TOP_QUAD"@).push('\n'),
    )
}

/// Render the four-line layout descriptor the external flashing utility
/// consumes.  Offsets are lowercase hexadecimal, end offsets inclusive.
pub fn construct_layout_file(ls: &LayoutSizes) -> (r: String)
    ensures
        r@ == layout_descriptor_spec(*ls),
{
    let mut r = String::new();
    r.append("000000:");
    r.append(to_hex(#[verifier::truncate] (ls.bottom_quad_top as u64)).as_str());
    r.append(" BOTTOM_QUAD\n");
    proof {
        reveal_strlit("000000:");
        reveal_strlit(" BOTTOM_QUAD\n");
        reveal_strlit("BOTTOM_QUAD");
        assert(r@ =~= layout_line_spec(zeros6(), hex_of(ls.bottom_quad_top), "BOTTOM_QUAD"@).push(
            '\n',
        ));
    }
    let ghost part1 = r@;
    r.append("000000:");
    r.append(to_hex(#[verifier::truncate] (ls.bottom_half_top as u64)).as_str());
    r.append(" BOTTOM_HALF\n");
    proof {
        reveal_strlit("000000:");
        reveal_strlit(" BOTTOM_HALF\n");
        reveal_strlit("BOTTOM_HALF");
        assert(r@ =~= part1.add(
            layout_line_spec(zeros6(), hex_of(ls.bottom_half_top), "BOTTOM_HALF"@).push('\n'),
        ));
    }
    let ghost part2 = r@;
    r.append(to_hex(#[verifier::truncate] (ls.half_sz as u64)).as_str());
    r.append(":");
    r.append(to_hex(#[verifier::truncate] (ls.rom_top as u64)).as_str());
    r.append(" TOP_HALF\n");
    proof {
        reveal_strlit(":");
        reveal_strlit(" TOP_HALF\n");
        reveal_strlit("TOP_HALF");
        assert(r@ =~= part2.add(
            layout_line_spec(hex_of(ls.half_sz), hex_of(ls.rom_top), "TOP_HALF"@).push('\n'),
        ));
    }
    let ghost part3 = r@;
    r.append(to_hex(#[verifier::truncate] (ls.top_quad_bottom as u64)).as_str());
    r.append(":");
    r.append(to_hex(#[verifier::truncate] (ls.rom_top as u64)).as_str());
    r.append(" TOP_QUAD\n");
    proof {
        reveal_strlit(":");
        reveal_strlit(" TOP_QUAD\n");
        reveal_strlit("TOP_QUAD");
        assert(r@ =~= part3.add(
            layout_line_spec(hex_of(ls.top_quad_bottom), hex_of(ls.rom_top), "TOP_QUAD"@).push(
                '\n',
            ),
        ));
        assert(r@ =~= layout_descriptor_spec(*ls));
    }
    r
}


/// What one descriptor line `start:end NAME` denotes: the name and the
/// two offsets, when the line has that shape and both offsets fit.
pub open spec fn parse_layout_line_spec(l: Seq<char>) -> Option<(Seq<char>, int, int)> {
    let ci = index_of_char(l, ':');
    if ci < 0 {
        None
    } else {
        let h1 = l.take(ci);
        let rest = l.skip(ci + 1);
        let si = index_of_char(rest, ' ');
        if si < 0 {
            None
        } else {
            let h2 = rest.take(si);
            let name = rest.skip(si + 1);
            if h1.len() >= 1 && all_hex_digits(h1) && hex_digits_val(h1) <= 0x7fff_ffff_ffff_ffff
                && h2.len() >= 1 && all_hex_digits(h2) && hex_digits_val(h2)
                <= 0x7fff_ffff_ffff_ffff && name.len() >= 1 {
                Some((name, hex_digits_val(h1) as int, hex_digits_val(h2) as int))
            } else {
                None
            }
        }
    }
}

/// What a sequence of descriptor lines denotes; empty lines are skipped,
/// and any malformed line spoils the whole descriptor.
pub open spec fn parse_lines_spec(ls: Seq<Seq<char>>) -> Option<Seq<(Seq<char>, int, int)>>
    decreases ls.len(),
{
    if ls.len() == 0 {
        Some(Seq::empty())
    } else if ls[0].len() == 0 {
        parse_lines_spec(ls.drop_first())
    } else {
        match (parse_layout_line_spec(ls[0]), parse_lines_spec(ls.drop_first())) {
            (Some(t), Some(r)) => Some(seq![t].add(r)),
            _ => None,
        }
    }
}

/// The name and offsets of the parsed sections, as character sequences
/// and unbounded integers.
pub open spec fn sections_view(v: Seq<(String, i64, i64)>) -> Seq<(Seq<char>, int, int)> {
    Seq::new(v.len(), |i: int| (v[i].0@, v[i].1 as int, v[i].2 as int))
}

/// Read one descriptor line back into its name and offsets.
pub fn parse_layout_line(l: &str) -> (r: Option<(String, i64, i64)>)
    ensures
        r is Some <==> parse_layout_line_spec(l@) is Some,
        r is Some ==> ((r->0).0@, (r->0).1 as int, (r->0).2 as int) == parse_layout_line_spec(l@)->0,
{
    let l_len = l.unicode_len();
    proof {
        lemma_index_of_char_props(l@, ':');
    }
    match find_char(l, ':') {
        None => None,
        Some(ci) => {
            let h1 = l.substring_char(0, ci);
            let rest = l.substring_char(ci + 1, l_len);
            proof {
                assert(h1@ =~= l@.take(ci as int));
                assert(rest@ =~= l@.skip(ci + 1));
                lemma_index_of_char_props(rest@, ' ');
            }
            let rest_len = rest.unicode_len();
            match find_char(rest, ' ') {
                None => None,
                Some(si) => {
                    let h2 = rest.substring_char(0, si);
                    let name = rest.substring_char(si + 1, rest_len);
                    proof {
                        assert(h2@ =~= rest@.take(si as int));
                        assert(name@ =~= rest@.skip(si + 1));
                    }
                    if name.is_empty() {
                        return None;
                    }
                    match (parse_hex_i64(h1), parse_hex_i64(h2)) {
                        (Some(v1), Some(v2)) => Some((name.to_owned(), v1, v2)),
                        _ => None,
                    }
                },
            }
        },
    }
}

/// Read a layout descriptor back: one `start:end NAME` triple per
/// nonempty line, in order.
pub fn parse_layout_file(s: &str) -> (r: Result<Vec<(String, i64, i64)>, LayoutError>)
    ensures
        r is Ok <==> parse_lines_spec(split_lines(s@)) is Some,
        r is Err ==> r->Err_0 == LayoutError::Malformed,
        r is Ok ==> sections_view(r->Ok_0@) == parse_lines_spec(split_lines(s@))->0,
{
    let lines = split_lines_exec(s);
    let ghost all = split_lines(s@);
    let mut out: Vec<(String, i64, i64)> = Vec::new();
    let mut i: usize = 0;
    proof {
        assert(all.skip(0) =~= all);
        assert(sections_view(out@) =~= Seq::<(Seq<char>, int, int)>::empty());
        if parse_lines_spec(all.skip(0)) is Some {
            assert(sections_view(out@).add(parse_lines_spec(all.skip(0))->0) =~= parse_lines_spec(
                all.skip(0),
            )->0);
        }
    }
    while i < lines.len()
        invariant
            i <= lines.len(),
            lines.deep_view() == all,
            all == split_lines(s@),
            parse_lines_spec(all) is Some <==> parse_lines_spec(all.skip(i as int)) is Some,
            parse_lines_spec(all) is Some ==> parse_lines_spec(all)->0 == sections_view(
                out@,
            ).add(parse_lines_spec(all.skip(i as int))->0),
        decreases lines.len() - i,
    {
        proof {
            assert(all.skip(i as int)[0] == all[i as int]);
            assert(all.skip(i as int).drop_first() =~= all.skip(i + 1));
            assert(all[i as int] == lines[i as int]@);
        }
        let line = &lines[i];
        if !line.as_str().is_empty() {
            match parse_layout_line(line.as_str()) {
                None => {
                    proof {
                        assert(all.skip(i as int).len() > 0);
                        assert(all.skip(i as int)[0].len() != 0);
                        assert(parse_layout_line_spec(all.skip(i as int)[0]) is None);
                        assert(parse_lines_spec(all.skip(i as int)) is None);
                    }
                    return Err(LayoutError::Malformed);
                },
                Some(t) => {
                    let ghost old_out = out@;
                    out.push(t);
                    proof {
                        assert(sections_view(out@) =~= sections_view(old_out).push(
                            (t.0@, t.1 as int, t.2 as int),
                        ));
                        if parse_lines_spec(all.skip(i + 1)) is Some {
                            assert(sections_view(old_out).add(
                                seq![(t.0@, t.1 as int, t.2 as int)].add(
                                    parse_lines_spec(all.skip(i + 1))->0,
                                ),
                            ) =~= sections_view(out@).add(parse_lines_spec(all.skip(i + 1))->0));
                        }
                    }
                },
            }
        }
        i = i + 1;
    }
    proof {
        assert(all.skip(lines.deep_view().len() as int) =~= Seq::<Seq<char>>::empty());
        if parse_lines_spec(all) is Some {
            assert(parse_lines_spec(all)->0 =~= sections_view(out@));
        }
    }
    Ok(out)
}

proof fn lemma_parse_built_line(start: Seq<char>, end: Seq<char>, name: Seq<char>)
    requires
        start.len() >= 1,
        all_hex_digits(start),
        hex_digits_val(start) <= 0x7fff_ffff_ffff_ffff,
        end.len() >= 1,
        all_hex_digits(end),
        hex_digits_val(end) <= 0x7fff_ffff_ffff_ffff,
        name.len() >= 1,
    ensures
        parse_layout_line_spec(layout_line_spec(start, end, name)) == Some(
            (name, hex_digits_val(start) as int, hex_digits_val(end) as int),
        ),
{
    let l = layout_line_spec(start, end, name);
    let tail = seq![':'].add(end).add(seq![' ']).add(name);
    assert(l =~= start.add(tail));
    assert forall|i: int| 0 <= i < start.len() implies start[i] != ':' by {
        assert(is_hex_digit(start[i]));
    }
    lemma_index_of_concat(start, tail, ':');
    let ci = index_of_char(l, ':');
    assert(ci == start.len());
    assert(l.take(ci) =~= start);
    let rest = l.skip(ci + 1);
    assert(rest =~= end.add(seq![' ']).add(name));
    let tail2 = seq![' '].add(name);
    assert(rest =~= end.add(tail2));
    assert forall|i: int| 0 <= i < end.len() implies end[i] != ' ' by {
        assert(is_hex_digit(end[i]));
    }
    lemma_index_of_concat(end, tail2, ' ');
    let si = index_of_char(rest, ' ');
    assert(si == end.len());
    assert(rest.take(si) =~= end);
    assert(rest.skip(si + 1) =~= name);
}

/// Serializing computed layout sizes and reading the descriptor back
/// reproduces the four `(name, start, end)` triples, in order.
#[verifier::rlimit(100)]
pub proof fn lemma_layout_round_trip(ls: LayoutSizes)
    requires
        ls.bottom_quad_top >= 0,
        ls.bottom_half_top >= 0,
        ls.half_sz >= 0,
        ls.rom_top >= 0,
        ls.top_quad_bottom >= 0,
    ensures
        parse_lines_spec(split_lines(layout_descriptor_spec(ls))) == Some(
            seq![
                ("BOTTOM_QUAD"@, 0int, ls.bottom_quad_top as int),
                ("BOTTOM_HALF"@, 0int, ls.bottom_half_top as int),
                ("TOP_HALF"@, ls.half_sz as int, ls.rom_top as int),
                ("TOP_QUAD"@, ls.top_quad_bottom as int, ls.rom_top as int),
            ],
        ),
{
    reveal_strlit("BOTTOM_QUAD");
    reveal_strlit("BOTTOM_HALF");
    reveal_strlit("TOP_HALF");
    reveal_strlit("TOP_QUAD");
    // The zero-padded start field.
    let z = zeros6();
    lemma_hex_leading_zeros(z, Seq::<char>::empty());
    assert(z.add(Seq::<char>::empty()) =~= z);
    assert(hex_digits_val(Seq::<char>::empty()) == 0);
    assert(all_hex_digits(Seq::<char>::empty()));
    assert(all_hex_digits(z));
    assert(hex_digits_val(z) == 0);
    // Hexadecimal fields round-trip.
    lemma_hex_roundtrip(ls.bottom_quad_top as nat);
    lemma_hex_roundtrip(ls.bottom_half_top as nat);
    lemma_hex_roundtrip(ls.half_sz as nat);
    lemma_hex_roundtrip(ls.rom_top as nat);
    lemma_hex_roundtrip(ls.top_quad_bottom as nat);
    assert(hex_of(ls.bottom_quad_top) == hex_seq(ls.bottom_quad_top as nat));
    let l1 = layout_line_spec(z, hex_of(ls.bottom_quad_top), "BOTTOM_QUAD"@);
    let l2 = layout_line_spec(z, hex_of(ls.bottom_half_top), "BOTTOM_HALF"@);
    let l3 = layout_line_spec(hex_of(ls.half_sz), hex_of(ls.rom_top), "TOP_HALF"@);
    let l4 = layout_line_spec(hex_of(ls.top_quad_bottom), hex_of(ls.rom_top), "TOP_QUAD"@);
    lemma_parse_built_line(z, hex_of(ls.bottom_quad_top), "BOTTOM_QUAD"@);
    lemma_parse_built_line(z, hex_of(ls.bottom_half_top), "BOTTOM_HALF"@);
    lemma_parse_built_line(hex_of(ls.half_sz), hex_of(ls.rom_top), "TOP_HALF"@);
    lemma_parse_built_line(hex_of(ls.top_quad_bottom), hex_of(ls.rom_top), "TOP_QUAD"@);
    // No line contains a newline, so splitting recovers the four lines.
    let d = layout_descriptor_spec(ls);
    let r2 = l2.push('\n').add(l3.push('\n')).add(l4.push('\n'));
    let r3 = l3.push('\n').add(l4.push('\n'));
    let r4 = l4.push('\n');
    assert(d =~= l1.add(seq!['\n']).add(r2));
    lemma_line_no_newline(z, hex_of(ls.bottom_quad_top), "BOTTOM_QUAD"@);
    lemma_line_no_newline(z, hex_of(ls.bottom_half_top), "BOTTOM_HALF"@);
    lemma_line_no_newline(hex_of(ls.half_sz), hex_of(ls.rom_top), "TOP_HALF"@);
    lemma_line_no_newline(hex_of(ls.top_quad_bottom), hex_of(ls.rom_top), "TOP_QUAD"@);
    lemma_split_concat(l1, r2);
    assert(r2 =~= l2.add(seq!['\n']).add(r3));
    lemma_split_concat(l2, r3);
    assert(r3 =~= l3.add(seq!['\n']).add(r4));
    lemma_split_concat(l3, r4);
    assert(r4 =~= l4.add(seq!['\n']).add(Seq::<char>::empty()));
    lemma_split_concat(l4, Seq::<char>::empty());
    let e = Seq::<char>::empty();
    assert(split_lines(e) =~= seq![e]);
    assert(split_lines(d) =~= seq![l1, l2, l3, l4, e]);
    // Parse the five lines.
    let lines = seq![l1, l2, l3, l4, e];
    let t1 = ("BOTTOM_QUAD"@, 0int, ls.bottom_quad_top as int);
    let t2 = ("BOTTOM_HALF"@, 0int, ls.bottom_half_top as int);
    let t3 = ("TOP_HALF"@, ls.half_sz as int, ls.rom_top as int);
    let t4 = ("TOP_QUAD"@, ls.top_quad_bottom as int, ls.rom_top as int);
    assert(lines.drop_first() =~= seq![l2, l3, l4, e]);
    assert(seq![l2, l3, l4, e].drop_first() =~= seq![l3, l4, e]);
    assert(seq![l3, l4, e].drop_first() =~= seq![l4, e]);
    assert(seq![l4, e].drop_first() =~= seq![e]);
    assert(seq![e].drop_first() =~= Seq::<Seq<char>>::empty());
    assert(parse_lines_spec(seq![e].drop_first()) == Some(Seq::<(Seq<char>, int, int)>::empty()));
    assert(parse_lines_spec(seq![e]) == Some(Seq::<(Seq<char>, int, int)>::empty()));
    assert(l4.len() > 0);
    assert(parse_lines_spec(seq![l4, e]) == Some(seq![t4].add(Seq::<(Seq<char>, int, int)>::empty())));
    assert(parse_lines_spec(seq![l3, l4, e]) == Some(seq![t3].add(seq![t4].add(Seq::<(Seq<char>, int, int)>::empty()))));
    assert(parse_lines_spec(seq![l2, l3, l4, e]) == Some(seq![t2].add(seq![t3].add(seq![t4].add(Seq::<(Seq<char>, int, int)>::empty())))));
    assert(parse_lines_spec(lines) == Some(seq![t1].add(seq![t2].add(seq![t3].add(seq![t4].add(Seq::<(Seq<char>, int, int)>::empty()))))));
    assert(seq![t1].add(seq![t2].add(seq![t3].add(seq![t4].add(Seq::<(Seq<char>, int, int)>::empty())))) =~= seq![t1, t2, t3, t4]);
}

/// The round trip for sizes as `get_layout_sizes` computes them: for
/// any even ROM size of at least four bytes, serializing and re-reading
/// reproduces the four section triples with their formula values.
pub proof fn lemma_computed_layout_round_trip(rom_sz: i64, ls: LayoutSizes)
    requires
        rom_sz >= 4,
        rom_sz % 2 == 0,
        ls.half_sz == rom_sz / 2,
        ls.quad_sz == rom_sz / 4,
        ls.rom_top == rom_sz - 1,
        ls.bottom_half_top == rom_sz / 2 - 1,
        ls.bottom_quad_top == rom_sz / 4 - 1,
        ls.top_quad_bottom == (rom_sz / 4) * 3,
    ensures
        parse_lines_spec(split_lines(layout_descriptor_spec(ls))) == Some(
            seq![
                ("BOTTOM_QUAD"@, 0int, rom_sz as int / 4 - 1),
                ("BOTTOM_HALF"@, 0int, rom_sz as int / 2 - 1),
                ("TOP_HALF"@, rom_sz as int / 2, rom_sz as int - 1),
                ("TOP_QUAD"@, (rom_sz as int / 4) * 3, rom_sz as int - 1),
            ],
        ),
{
    assert(rom_sz / 4 >= 1) by {
        vstd::arithmetic::div_mod::lemma_div_is_ordered(4, rom_sz as int, 4);
    }
    assert(rom_sz / 2 >= 2) by {
        vstd::arithmetic::div_mod::lemma_div_is_ordered(4, rom_sz as int, 2);
    }
    lemma_layout_round_trip(ls);
}

proof fn lemma_line_no_newline(start: Seq<char>, end: Seq<char>, name: Seq<char>)
    requires
        all_hex_digits(start),
        all_hex_digits(end),
        forall|i: int| 0 <= i < name.len() ==> name[i] != '\n',
    ensures
        forall|i: int|
            0 <= i < layout_line_spec(start, end, name).len() ==> layout_line_spec(
                start,
                end,
                name,
            )[i] != '\n',
{
    let l = layout_line_spec(start, end, name);
    assert forall|i: int| 0 <= i < l.len() implies l[i] != '\n' by {
        if i < start.len() {
            assert(l[i] == start[i]);
            assert(is_hex_digit(start[i]));
        } else if i == start.len() {
            assert(l[i] == ':');
        } else if i < start.len() + 1 + end.len() {
            assert(l[i] == end[i - start.len() - 1]);
            assert(is_hex_digit(end[i - start.len() - 1]));
        } else if i == start.len() + 1 + end.len() {
            assert(l[i] == ' ');
        } else {
            assert(l[i] == name[i - start.len() - 1 - end.len() - 1]);
        }
    }
}


/// Failures when reading the hardware write-protect state from the
/// platform's state report.
#[derive(Copy, Clone, Debug, PartialEq, Eq, Structural)]
pub enum CrosssystemError {
    /// The platform state report could not be produced at all.
    ReportUnavailable,
    /// No line of the report mentions the write-protect switch.
    MissingWpState,
    /// The switch state was a digit other than 0 or 1.
    UnknownStateValue,
    /// The switch state was empty or not a digit.
    CannotParseStateValue,
}

/// Report lines that are kept: those without firmware or hardware
/// identifier assignments.
pub open spec fn crosssystem_line_kept(l: Seq<char>) -> bool {
    !contains_seq(l, "fwid +="@) && !contains_seq(l, "hwid +="@)
}

/// The kept lines, in order.
pub open spec fn filter_kept(ls: Seq<Seq<char>>) -> Seq<Seq<char>>
    decreases ls.len(),
{
    if ls.len() == 0 {
        Seq::empty()
    } else if crosssystem_line_kept(ls[0]) {
        seq![ls[0]].add(filter_kept(ls.drop_first()))
    } else {
        filter_kept(ls.drop_first())
    }
}

/// The first line mentioning the write-protect switch, if any.
pub open spec fn first_wp_line(ls: Seq<Seq<char>>) -> Option<Seq<char>>
    decreases ls.len(),
{
    if ls.len() == 0 {
        None
    } else if contains_seq(ls[0], "wpsw_cur"@) {
        Some(ls[0])
    } else {
        first_wp_line(ls.drop_first())
    }
}

/// The switch-state token of a write-protect line: the line with the
/// `wpsw_cur` label, spaces, the equals sign, and spaces stripped.
pub open spec fn wp_token(l: Seq<char>) -> Seq<char> {
    strip_char_all(
        strip_char_all(strip_char_all(strip_prefix_all(l, "wpsw_cur"@), ' '), '='),
        ' ',
    )
}

proof fn lemma_first_wp_concat(a: Seq<Seq<char>>, b: Seq<Seq<char>>)
    ensures
        first_wp_line(a.add(b)) == (if first_wp_line(a) is Some {
            first_wp_line(a)
        } else {
            first_wp_line(b)
        }),
    decreases a.len(),
{
    if a.len() == 0 {
        assert(a.add(b) =~= b);
    } else {
        lemma_first_wp_concat(a.drop_first(), b);
        assert(a.add(b).drop_first() =~= a.drop_first().add(b));
        assert(a.add(b)[0] == a[0]);
    }
}

/// Read the platform state report: keep the informational lines and
/// decide from the `wpsw_cur` line whether the hardware write-protect
/// switch is asserted.
pub fn parse_crosssystem(s: &str) -> (r: Result<(Vec<String>, bool), CrosssystemError>)
    ensures
        r is Ok <==> (first_wp_line(filter_kept(split_term_lines(s@))) is Some && {
            let tok = wp_token(first_wp_line(filter_kept(split_term_lines(s@)))->0);
            tok.len() > 0 && (tok[0] == '0' || tok[0] == '1')
        }),
        r is Ok ==> (r->Ok_0).0.deep_view() == filter_kept(split_term_lines(s@)),
        r is Ok ==> first_wp_line(filter_kept(split_term_lines(s@))) is Some,
        r is Ok ==> {
            let tok = wp_token(first_wp_line(filter_kept(split_term_lines(s@)))->0);
            tok.len() > 0 && (tok[0] == '0' || tok[0] == '1') && ((r->Ok_0).1 <==> tok[0] == '1')
        },
        (r is Err && r->Err_0 == CrosssystemError::MissingWpState) <==> first_wp_line(
            filter_kept(split_term_lines(s@)),
        ) is None,
        (r is Err && r->Err_0 == CrosssystemError::CannotParseStateValue) <==> (first_wp_line(
            filter_kept(split_term_lines(s@)),
        ) is Some && {
            let tok = wp_token(first_wp_line(filter_kept(split_term_lines(s@)))->0);
            tok.len() == 0 || !is_dec_digit(tok[0])
        }),
        (r is Err && r->Err_0 == CrosssystemError::UnknownStateValue) <==> (first_wp_line(
            filter_kept(split_term_lines(s@)),
        ) is Some && {
            let tok = wp_token(first_wp_line(filter_kept(split_term_lines(s@)))->0);
            tok.len() > 0 && is_dec_digit(tok[0]) && tok[0] != '0' && tok[0] != '1'
        }),
{
    let lines = split_term_lines_exec(s);
    let ghost all = split_term_lines(s@);
    let mut kept: Vec<String> = Vec::new();
    let mut wp_line: Option<String> = None;
    let mut i: usize = 0;
    proof {
        assert(all.skip(0) =~= all);
        assert(filter_kept(all) =~= kept.deep_view().add(filter_kept(all.skip(0))));
    }
    while i < lines.len()
        invariant
            i <= lines.len(),
            lines.deep_view() == all,
            all == split_term_lines(s@),
            filter_kept(all) == kept.deep_view().add(filter_kept(all.skip(i as int))),
            first_wp_line(kept.deep_view()) == (match wp_line {
                Some(w) => Some(w@),
                None => None::<Seq<char>>,
            }),
        decreases lines.len() - i,
    {
        proof {
            assert(all.skip(i as int)[0] == all[i as int]);
            assert(all.skip(i as int).drop_first() =~= all.skip(i + 1));
            assert(all[i as int] == lines[i as int]@);
        }
        let ghost old_kept = kept.deep_view();
        let line = &lines[i];
        if !contains_str(line.as_str(), "fwid +=") && !contains_str(line.as_str(), "hwid +=") {
            kept.push(line.clone());
            proof {
                assert(kept.deep_view() =~= old_kept.push(line@));
                assert(kept.deep_view() =~= old_kept.add(seq![line@]));
                assert(filter_kept(all.skip(i as int)) == seq![all[i as int]].add(
                    filter_kept(all.skip(i + 1)),
                ));
                assert(filter_kept(all) =~= kept.deep_view().add(filter_kept(all.skip(i + 1))));
                lemma_first_wp_concat(old_kept, seq![line@]);
            }
            if wp_line.is_none() && contains_str(line.as_str(), "wpsw_cur") {
                wp_line = Some(line.clone());
            }
            proof {
                if first_wp_line(old_kept) is None && !contains_seq(line@, "wpsw_cur"@) {
                    assert(seq![line@].drop_first() =~= Seq::<Seq<char>>::empty());
                    assert(first_wp_line(Seq::<Seq<char>>::empty()) is None);
                    assert(first_wp_line(seq![line@]) is None);
                }
            }
        } else {
            proof {
                assert(filter_kept(all.skip(i as int)) == filter_kept(all.skip(i + 1)));
            }
        }
        i = i + 1;
    }
    proof {
        assert(all.skip(lines.deep_view().len() as int) =~= Seq::<Seq<char>>::empty());
        assert(filter_kept(Seq::<Seq<char>>::empty()) =~= Seq::<Seq<char>>::empty());
        assert(filter_kept(all) =~= kept.deep_view());
    }
    match wp_line {
        None => Err(CrosssystemError::MissingWpState),
        Some(w) => {
            let stripped = strip_prefix_all_exec(w.as_str(), "wpsw_cur");
            let stripped = strip_char_all_exec(stripped, ' ');
            let stripped = strip_char_all_exec(stripped, '=');
            let stripped = strip_char_all_exec(stripped, ' ');
            proof {
                assert(stripped@ == wp_token(w@));
            }
            if stripped.is_empty() {
                return Err(CrosssystemError::CannotParseStateValue);
            }
            let c = stripped.get_char(0);
            if c == '1' {
                Ok((kept, true))
            } else if c == '0' {
                Ok((kept, false))
            } else if ('0' as u32) <= (c as u32) && (c as u32) <= ('9' as u32) {
                Err(CrosssystemError::UnknownStateValue)
            } else {
                Err(CrosssystemError::CannotParseStateValue)
            }
        },
    }
}


/// Platform operations outside the flashing utility: the physical
/// write-protect toggle and read-only platform introspection.  The
/// surrounding application implements these with external programs or
/// operator interaction; nothing is assumed about what they return, so
/// every result is handed to a verified reader.
pub trait Platform: Sized {
    /// Request the physical hardware write-protect change (for example
    /// by asking the operator to connect or disconnect the battery).
    /// Fire-and-forget: there is no confirmation channel, so callers
    /// re-query the state afterwards.
    fn toggle_hw_wp(&mut self, dis: bool);

    /// The platform state report text that `parse_crosssystem` reads.
    fn crossystem_text(&mut self) -> Result<String, String>;

    /// The firmware event log, one event per line.
    fn eventlog_list(&mut self) -> Result<String, String>;

    /// The os-release metadata text, when it can be read.
    fn os_release_text(&mut self) -> Option<String>;
}

/// Gather the platform state report and decide whether the hardware
/// write-protect switch is asserted; the kept report lines come along
/// for the run log.
pub fn gather_system_info<P: Platform>(p: &mut P) -> (r: Result<(Vec<String>, bool), CrosssystemError>)
{
    match p.crossystem_text() {
        Err(_) => Err(CrosssystemError::ReportUnavailable),
        Ok(text) => parse_crosssystem(text.as_str()),
    }
}

} // verus!
