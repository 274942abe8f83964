//! What can be read back from the text that the command line prints.

use crate::report;
use vstd::prelude::*;

verus! {

/// The value of a digit, by its code point.
pub open spec fn digit_value(c: char) -> int {
    if '0' as int <= c as int <= '9' as int {
        c as int - '0' as int
    } else {
        c as int - 'A' as int + 10
    }
}

/// The value of a run of digits in a base, most significant digit first.
pub open spec fn value_in_base(digits: Seq<char>, base: int) -> int
    decreases digits.len(),
{
    if digits.len() == 0 {
        0
    } else {
        value_in_base(digits.drop_last(), base) * base + digit_value(digits.last())
    }
}

/// `s` writes `n` in decimal: it has only the digits `0` to `9`, no leading
/// zero unless it is `0` itself, and the value `n`.
pub open spec fn writes_decimal(s: Seq<char>, n: int) -> bool {
    &&& s.len() > 0
    &&& forall|i: int| 0 <= i < s.len() ==> '0' as int <= #[trigger] s[i] as int <= '9' as int
    &&& s.len() > 1 ==> s[0] != '0'
    &&& value_in_base(s, 10) == n
}

/// `s` writes `n` in hexadecimal: it has eight of the digits `0` to `9` and
/// `A` to `F`, and the value `n`.
pub open spec fn writes_hexadecimal(s: Seq<char>, n: int) -> bool {
    &&& s.len() == 8
    &&& forall|i: int|
        0 <= i < s.len() ==> '0' as int <= #[trigger] s[i] as int <= '9' as int || 'A' as int
            <= s[i] as int <= 'F' as int
    &&& value_in_base(s, 16) == n
}

proof fn lemma_digit(d: int)
    requires
        0 <= d < 16,
    ensures
        digit_value(report::digit(d)) == d,
        d < 10 ==> report::digit(d) as int == '0' as int + d,
        d >= 10 ==> report::digit(d) as int == 'A' as int + d - 10,
{
    assert(d == 0 || d == 1 || d == 2 || d == 3 || d == 4 || d == 5 || d == 6 || d == 7 || d == 8
        || d == 9 || d == 10 || d == 11 || d == 12 || d == 13 || d == 14 || d == 15);
}

/// The decimal digits of a number read back as the number.
pub proof fn decimal_reads_back(n: nat)
    ensures
        writes_decimal(report::decimal(n), n as int),
        n > 0 ==> report::decimal(n)[0] != '0',
    decreases n,
{
    let s = report::decimal(n);
    if n < 10 {
        lemma_digit(n as int);
        assert(s.drop_last() =~= Seq::empty());
        reveal_with_fuel(value_in_base, 2);
    } else {
        decimal_reads_back(n / 10);
        lemma_digit((n % 10) as int);
        assert(s.drop_last() =~= report::decimal(n / 10));
        assert forall|i: int| 0 <= i < s.len() implies '0' as int <= #[trigger] s[i] as int
            <= '9' as int by {
            if i < s.len() - 1 {
                assert(s[i] == report::decimal(n / 10)[i]);
            }
        }
        assert(s[0] == report::decimal(n / 10)[0]);
    }
}

spec fn power_of_16(width: nat) -> int
    decreases width,
{
    if width == 0 {
        1
    } else {
        16 * power_of_16((width - 1) as nat)
    }
}

proof fn lemma_hexadecimal(n: nat, width: nat)
    requires
        n < power_of_16(width),
    ensures
        report::hexadecimal(n, width).len() == width,
        forall|i: int|
            0 <= i < width ==> '0' as int <= #[trigger] report::hexadecimal(n, width)[i] as int
                <= '9' as int || 'A' as int <= report::hexadecimal(n, width)[i] as int
                <= 'F' as int,
        value_in_base(report::hexadecimal(n, width), 16) == n,
    decreases width,
{
    let s = report::hexadecimal(n, width);
    if width > 0 {
        let w = (width - 1) as nat;
        lemma_hexadecimal(n / 16, w);
        lemma_digit((n % 16) as int);
        assert(s.drop_last() =~= report::hexadecimal(n / 16, w));
        assert forall|i: int| 0 <= i < width implies '0' as int <= #[trigger] s[i] as int
            <= '9' as int || 'A' as int <= s[i] as int <= 'F' as int by {
            if i < width - 1 {
                assert(s[i] == report::hexadecimal(n / 16, w)[i]);
            }
        }
    }
}

/// The eight hexadecimal digits of a 32-bit number read back as the number.
pub proof fn hexadecimal_reads_back(n: u32)
    ensures
        writes_hexadecimal(report::hexadecimal(n as nat, 8), n as int),
{
    reveal_with_fuel(power_of_16, 9);
    assert(power_of_16(8) == 0x1_0000_0000);
    lemma_hexadecimal(n as nat, 8);
}

/// `line` is `label` with the decimal number `n` behind it.
pub open spec fn shows_decimal(line: Seq<char>, label: Seq<char>, n: int) -> bool {
    &&& line.len() >= label.len()
    &&& line.take(label.len() as int) == label
    &&& writes_decimal(line.skip(label.len() as int), n)
}

/// `line` is `label` with the hexadecimal number `n` behind it.
pub open spec fn shows_hexadecimal(line: Seq<char>, label: Seq<char>, n: int) -> bool {
    &&& line.len() >= label.len()
    &&& line.take(label.len() as int) == label
    &&& writes_hexadecimal(line.skip(label.len() as int), n)
}

proof fn lemma_shows_decimal(label: Seq<char>, n: nat)
    ensures
        shows_decimal(label + report::decimal(n), label, n as int),
{
    let line = label + report::decimal(n);
    decimal_reads_back(n);
    assert(line.take(label.len() as int) =~= label);
    assert(line.skip(label.len() as int) =~= report::decimal(n));
}

proof fn lemma_shows_hexadecimal(label: Seq<char>, n: u32)
    ensures
        shows_hexadecimal(label + report::hexadecimal(n as nat, 8), label, n as int),
{
    let line = label + report::hexadecimal(n as nat, 8);
    hexadecimal_reads_back(n);
    assert(line.take(label.len() as int) =~= label);
    assert(line.skip(label.len() as int) =~= report::hexadecimal(n as nat, 8));
}

/// Each line of a volume's report is its label and the field, and the number
/// behind the label reads back as the field, whatever the field is.
pub proof fn report_shows_every_field(info: report::VolumeInfo, quoted_name: Seq<char>)
    ensures
        ({
            let lines = report::info_lines(info, quoted_name);
            &&& lines.len() == 10
            &&& shows_hexadecimal(lines[0], "magic            0x"@, info.magic as int)
            &&& shows_decimal(lines[1], "block size       "@, info.block_size as int)
            &&& shows_decimal(lines[2], "blocks           "@, info.blocks as int)
            &&& shows_decimal(lines[3], "inodes           "@, info.inodes as int)
            &&& shows_decimal(lines[4], "root nid         "@, info.root_nid as int)
            &&& shows_decimal(lines[5], "meta_blkaddr     "@, info.meta_blkaddr as int)
            &&& shows_decimal(lines[6], "xattr_blkaddr    "@, info.xattr_blkaddr as int)
            &&& lines[7] == "volume name      "@ + quoted_name
            &&& shows_hexadecimal(lines[8], "feature_compat   0x"@, info.feature_compat as int)
            &&& shows_hexadecimal(lines[9], "feature_incompat 0x"@, info.feature_incompat as int)
        }),
{
    lemma_shows_hexadecimal("magic            0x"@, info.magic);
    lemma_shows_decimal("block size       "@, info.block_size as nat);
    lemma_shows_decimal("blocks           "@, info.blocks as nat);
    lemma_shows_decimal("inodes           "@, info.inodes as nat);
    lemma_shows_decimal("root nid         "@, info.root_nid as nat);
    lemma_shows_decimal("meta_blkaddr     "@, info.meta_blkaddr as nat);
    lemma_shows_decimal("xattr_blkaddr    "@, info.xattr_blkaddr as nat);
    lemma_shows_hexadecimal("feature_compat   0x"@, info.feature_compat);
    lemma_shows_hexadecimal("feature_incompat 0x"@, info.feature_incompat);
}

/// Volumes with the same report have the same fields, and names that are
/// quoted in the same way.
pub proof fn report_tells_volumes_apart(
    a: report::VolumeInfo,
    quoted_a: Seq<char>,
    b: report::VolumeInfo,
    quoted_b: Seq<char>,
)
    requires
        report::info_lines(a, quoted_a) == report::info_lines(b, quoted_b),
    ensures
        a.magic == b.magic,
        a.block_size == b.block_size,
        a.blocks == b.blocks,
        a.inodes == b.inodes,
        a.root_nid == b.root_nid,
        a.meta_blkaddr == b.meta_blkaddr,
        a.xattr_blkaddr == b.xattr_blkaddr,
        quoted_a == quoted_b,
        a.feature_compat == b.feature_compat,
        a.feature_incompat == b.feature_incompat,
{
    report_shows_every_field(a, quoted_a);
    report_shows_every_field(b, quoted_b);
    let label = "volume name      "@;
    assert((label + quoted_a).skip(label.len() as int) =~= quoted_a);
    assert((label + quoted_b).skip(label.len() as int) =~= quoted_b);
}

/// A line of a listing ends in the whole name, and what stands before the
/// name does not depend on it.
pub proof fn listing_line_ends_in_the_name(
    file_type: u8,
    nid: u64,
    name: Seq<char>,
    other: Seq<char>,
)
    ensures
        ({
            let line = report::row_line(file_type, nid, name);
            let second = report::row_line(file_type, nid, other);
            &&& line.len() >= name.len()
            &&& line.skip(line.len() - name.len()) == name
            &&& line.take(line.len() - name.len()) == second.take(second.len() - other.len())
            &&& line == second ==> name == other
        }),
{
    let head = report::row_line(file_type, nid, Seq::empty());
    let line = report::row_line(file_type, nid, name);
    let second = report::row_line(file_type, nid, other);
    assert(line =~= head + name);
    assert(second =~= head + other);
    assert(line.skip(line.len() - name.len()) =~= name);
    assert(second.skip(second.len() - other.len()) =~= other);
    assert(line.take(line.len() - name.len()) =~= head);
    assert(second.take(second.len() - other.len()) =~= head);
}

/// Of the columns of a listing line before the name, the first three hold the
/// type, from the left and filled up with blanks, and behind one blank at
/// least ten hold the number, up to the right and filled up with blanks
/// before it; one more blank ends them. Both numbers read back.
pub proof fn listing_line_shows_type_and_number(file_type: u8, nid: u64, name: Seq<char>)
    ensures
        exists|t: int, n: int|
            #![trigger report::row_line(file_type, nid, name).take(t), report::row_line(
                file_type,
                nid,
                name,
            ).take(n)]
            ({
                let line = report::row_line(file_type, nid, name);
                let end = line.len() - name.len() - 1;
                &&& 1 <= t <= 3
                &&& writes_decimal(line.take(t), file_type as int)
                &&& forall|i: int| t <= i < 4 ==> line[i] == ' '
                &&& 4 <= n < end
                &&& forall|i: int| 4 <= i < n ==> line[i] == ' '
                &&& writes_decimal(line.subrange(n, end), nid as int)
                &&& end >= 14
                &&& end > 14 ==> n == 4
                &&& line[end] == ' '
            }),
{
    let line = report::row_line(file_type, nid, name);
    let d = report::decimal(file_type as nat);
    let e = report::decimal(nid as nat);
    decimal_reads_back(file_type as nat);
    decimal_reads_back(nid as nat);
    lemma_small_decimal(file_type);
    let t = d.len() as int;
    let end = line.len() - name.len() - 1;
    let n = end - e.len();
    let left = report::left_aligned(d, 3).push(' ');
    let right = report::right_aligned(e, 10).push(' ');
    assert(left.len() == 4);
    assert(line =~= left + right + name);
    assert(line.take(t) =~= d);
    assert(line.subrange(n, end) =~= e);
    assert forall|i: int| t <= i < 4 implies line[i] == ' ' by {
        assert(line[i] == left[i]);
    }
    assert forall|i: int| 4 <= i < n implies line[i] == ' ' by {
        assert(line[i] == right[i - 4]);
    }
    assert(line[end] == right[end - 4]);
    assert(line.take(n).len() == n);
}

proof fn lemma_small_decimal(n: u8)
    ensures
        1 <= report::decimal(n as nat).len() <= 3,
{
    reveal_with_fuel(report::decimal, 3);
}

/// Two entries of one name have the same line only if they have the same
/// type and number.
pub proof fn listing_lines_tell_rows_apart(
    file_type: u8,
    nid: u64,
    other_type: u8,
    other_nid: u64,
    name: Seq<char>,
)
    requires
        report::row_line(file_type, nid, name) == report::row_line(other_type, other_nid, name),
    ensures
        file_type == other_type,
        nid == other_nid,
{
    listing_line_shows_type_and_number(file_type, nid, name);
    listing_line_shows_type_and_number(other_type, other_nid, name);
    let line = report::row_line(file_type, nid, name);
    let end = line.len() - name.len() - 1;
    let (t, n) = choose|t: int, n: int|
        #![trigger line.take(t), line.take(n)]
        {
            &&& 1 <= t <= 3
            &&& writes_decimal(line.take(t), file_type as int)
            &&& forall|i: int| t <= i < 4 ==> line[i] == ' '
            &&& 4 <= n < end
            &&& forall|i: int| 4 <= i < n ==> line[i] == ' '
            &&& writes_decimal(line.subrange(n, end), nid as int)
        };
    let (u, m) = choose|u: int, m: int|
        #![trigger line.take(u), line.take(m)]
        {
            &&& 1 <= u <= 3
            &&& writes_decimal(line.take(u), other_type as int)
            &&& forall|i: int| u <= i < 4 ==> line[i] == ' '
            &&& 4 <= m < end
            &&& forall|i: int| 4 <= i < m ==> line[i] == ' '
            &&& writes_decimal(line.subrange(m, end), other_nid as int)
        };
    if t < u {
        assert(line.take(u)[t] == line[t]);
    }
    if u < t {
        assert(line.take(t)[u] == line[u]);
    }
    if n < m {
        assert(line.subrange(n, end)[0] == line[n]);
    }
    if m < n {
        assert(line.subrange(m, end)[0] == line[m]);
    }
}

/// Regular files are never refused, anything else always is, and the message
/// is the whole path followed by the reason: different paths have different
/// messages.
pub proof fn refusal_names_the_path(path: Seq<char>, other: Seq<char>)
    ensures
        report::refusal_text(path, true) is None,
        report::refusal_text(path, false) matches Some(message) && message.len() == path.len()
            + " is not a regular file"@.len() && message.take(path.len() as int) == path
            && message.skip(path.len() as int) == " is not a regular file"@,
        report::refusal_text(path, false) == report::refusal_text(other, false) ==> path == other,
{
    let reason = " is not a regular file"@;
    let message = path + reason;
    let second = other + reason;
    assert(message.take(path.len() as int) =~= path);
    assert(message.skip(path.len() as int) =~= reason);
    assert(second.take(other.len() as int) =~= other);
}

} // verus!
