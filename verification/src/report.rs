//! The text that the command line prints.

use crate::text;
use vstd::prelude::*;

verus! {

/// The digit for `d`, which is below 16.
pub open spec fn digit(d: int) -> char {
    seq!['0', '1', '2', '3', '4', '5', '6', '7', '8', '9', 'A', 'B', 'C', 'D', 'E', 'F'][d]
}

/// `n` in decimal, without leading zeros.
pub open spec fn decimal(n: nat) -> Seq<char>
    decreases n,
{
    if n < 10 {
        seq![digit(n as int)]
    } else {
        decimal(n / 10).push(digit((n % 10) as int))
    }
}

/// The last `width` hexadecimal digits of `n`, in upper case.
pub open spec fn hexadecimal(n: nat, width: nat) -> Seq<char>
    decreases width,
{
    if width == 0 {
        Seq::empty()
    } else {
        hexadecimal(n / 16, (width - 1) as nat).push(digit((n % 16) as int))
    }
}

/// `n` blanks; none if `n` is negative.
pub open spec fn blanks(n: int) -> Seq<char> {
    Seq::new(
        if n > 0 {
            n as nat
        } else {
            0
        },
        |i: int| ' ',
    )
}

/// `s` with blanks behind it up to `width`.
pub open spec fn left_aligned(s: Seq<char>, width: int) -> Seq<char> {
    s + blanks(width - s.len())
}

/// `s` with blanks before it up to `width`.
pub open spec fn right_aligned(s: Seq<char>, width: int) -> Seq<char> {
    blanks(width - s.len()) + s
}

fn digit_char(d: u64) -> (c: char)
    requires
        d < 16,
    ensures
        c == digit(d as int),
{
    match d {
        0 => '0',
        1 => '1',
        2 => '2',
        3 => '3',
        4 => '4',
        5 => '5',
        6 => '6',
        7 => '7',
        8 => '8',
        9 => '9',
        10 => 'A',
        11 => 'B',
        12 => 'C',
        13 => 'D',
        14 => 'E',
        _ => 'F',
    }
}

fn push_decimal(out: &mut String, n: u64)
    ensures
        final(out)@ == old(out)@ + decimal(n as nat),
    decreases n,
{
    if n >= 10 {
        push_decimal(out, n / 10);
    }
    out.push(digit_char(n % 10));
    assert(out@ =~= old(out)@ + decimal(n as nat));
}

fn push_hexadecimal(out: &mut String, n: u64, width: u64)
    ensures
        final(out)@ == old(out)@ + hexadecimal(n as nat, width as nat),
    decreases width,
{
    if width > 0 {
        push_hexadecimal(out, n / 16, width - 1);
        out.push(digit_char(n % 16));
    }
    assert(out@ =~= old(out)@ + hexadecimal(n as nat, width as nat));
}

/// Pushes blanks up to `width` beside something `taken` wide.
fn push_blanks(out: &mut String, taken: usize, width: usize)
    ensures
        final(out)@ == old(out)@ + blanks(width - taken),
{
    let ghost start = out@;
    let mut i: usize = taken;
    assert(out@ =~= start + blanks(0));
    while i < width
        invariant
            taken <= i,
            taken <= width ==> i <= width,
            taken > width ==> i == taken,
            out@ == start + blanks(i - taken),
        decreases width - i,
    {
        out.push(' ');
        i = i + 1;
        assert(out@ =~= start + blanks(i - taken));
    }
    assert(taken > width ==> blanks(width - taken) =~= blanks(i - taken));
}

/// What the superblock of a volume says.
#[derive(Debug, PartialEq, Eq)]
pub struct VolumeInfo {
    pub magic: u32,
    pub block_size: u64,
    pub blocks: u64,
    pub inodes: u64,
    pub root_nid: u64,
    pub meta_blkaddr: u64,
    pub xattr_blkaddr: u64,
    pub volume_name: String,
    pub feature_compat: u32,
    pub feature_incompat: u32,
}

/// The lines of a volume's report, with the volume's name as `quoted_name`.
pub open spec fn info_lines(info: VolumeInfo, quoted_name: Seq<char>) -> Seq<Seq<char>> {
    seq![
        "magic            0x"@ + hexadecimal(info.magic as nat, 8),
        "block size       "@ + decimal(info.block_size as nat),
        "blocks           "@ + decimal(info.blocks as nat),
        "inodes           "@ + decimal(info.inodes as nat),
        "root nid         "@ + decimal(info.root_nid as nat),
        "meta_blkaddr     "@ + decimal(info.meta_blkaddr as nat),
        "xattr_blkaddr    "@ + decimal(info.xattr_blkaddr as nat),
        "volume name      "@ + quoted_name,
        "feature_compat   0x"@ + hexadecimal(info.feature_compat as nat, 8),
        "feature_incompat 0x"@ + hexadecimal(info.feature_incompat as nat, 8),
    ]
}

/// A string as `Debug` writes it, in double quotes and with escapes.
pub uninterp spec fn debug_quoted(s: Seq<char>) -> Seq<char>;

/// `Debug` for `str`, through `format!`: the string in double quotes, with
/// escapes. The result is a function of the string alone.
#[verifier::external_body]
fn quote(s: &str) -> (quoted: String)
    ensures
        quoted@ == debug_quoted(s@),
{
    format!("{:?}", s)
}

fn decimal_line(label: &str, n: u64) -> (line: String)
    ensures
        line@ == label@ + decimal(n as nat),
{
    let mut line = label.to_owned();
    push_decimal(&mut line, n);
    line
}

fn hexadecimal_line(label: &str, n: u32) -> (line: String)
    ensures
        line@ == label@ + hexadecimal(n as nat, 8),
{
    let mut line = label.to_owned();
    push_hexadecimal(&mut line, n as u64, 8);
    line
}

/// Writes the report of a volume whose name is already quoted.
pub fn info_report_with(info: &VolumeInfo, quoted_name: &str) -> (lines: Vec<String>)
    ensures
        text::texts(lines@) == info_lines(*info, quoted_name@),
        lines.len() == 10,
        forall|i: int|
            0 <= i < 10 ==> (#[trigger] lines@[i])@ == info_lines(*info, quoted_name@)[i],
{
    let name_line = "volume name      ".to_owned().concat(quoted_name);
    let mut lines: Vec<String> = Vec::new();
    lines.push(hexadecimal_line("magic            0x", info.magic));
    lines.push(decimal_line("block size       ", info.block_size));
    lines.push(decimal_line("blocks           ", info.blocks));
    lines.push(decimal_line("inodes           ", info.inodes));
    lines.push(decimal_line("root nid         ", info.root_nid));
    lines.push(decimal_line("meta_blkaddr     ", info.meta_blkaddr));
    lines.push(decimal_line("xattr_blkaddr    ", info.xattr_blkaddr));
    lines.push(name_line);
    lines.push(hexadecimal_line("feature_compat   0x", info.feature_compat));
    lines.push(hexadecimal_line("feature_incompat 0x", info.feature_incompat));
    assert(text::texts(lines@) =~= info_lines(*info, quoted_name@));
    assert forall|i: int| 0 <= i < 10 implies (#[trigger] lines@[i])@ == info_lines(
        *info,
        quoted_name@,
    )[i] by {
        assert(text::texts(lines@)[i] == lines@[i]@);
    }
    lines
}

/// Writes the report of a volume.
pub fn info_report(info: &VolumeInfo) -> (lines: Vec<String>)
    ensures
        text::texts(lines@) == info_lines(*info, debug_quoted(info.volume_name@)),
        lines.len() == 10,
        forall|i: int|
            0 <= i < 10 ==> (#[trigger] lines@[i])@ == info_lines(
                *info,
                debug_quoted(info.volume_name@),
            )[i],
{
    let quoted = quote(info.volume_name.as_str());
    info_report_with(info, quoted.as_str())
}

/// One entry of a directory of the image. The name is in bytes, as on disk.
#[derive(Debug, PartialEq, Eq)]
pub struct DirRow {
    pub file_type: u8,
    pub nid: u64,
    pub name: Vec<u8>,
}

/// The line for one entry of a directory: type, number and name.
pub open spec fn row_line(file_type: u8, nid: u64, name: Seq<char>) -> Seq<char> {
    left_aligned(decimal(file_type as nat), 3).push(' ') + right_aligned(
        decimal(nid as nat),
        10,
    ).push(' ') + name
}

/// Bytes as text, with the replacement character for what is not UTF-8.
pub uninterp spec fn lossy_text(bytes: Seq<u8>) -> Seq<char>;

/// `String::from_utf8_lossy`: valid UTF-8 is decoded as it stands, and what is
/// not UTF-8 is replaced. The result is a function of the bytes alone.
#[verifier::external_body]
fn decode_lossy(bytes: &[u8]) -> (decoded: String)
    ensures
        decoded@ == lossy_text(bytes@),
        vstd::utf8::valid_utf8(bytes@) ==> decoded@ == vstd::utf8::decode_utf8(bytes@),
{
    String::from_utf8_lossy(bytes).into_owned()
}

/// Writes the line for one entry of a directory.
pub fn listing_line(file_type: u8, nid: u64, name: &str) -> (line: String)
    ensures
        line@ == row_line(file_type, nid, name@),
        line@.len() >= name@.len(),
        line@.skip(line@.len() - name@.len()) == name@,
{
    let mut line = String::new();
    push_decimal(&mut line, file_type as u64);
    let taken: usize = line.as_str().unicode_len();
    push_blanks(&mut line, taken, 3);
    line.push(' ');
    let mut number = String::new();
    push_decimal(&mut number, nid);
    push_blanks(&mut line, number.as_str().unicode_len(), 10);
    line.append(number.as_str());
    line.push(' ');
    line.append(name);
    assert(line@ =~= row_line(file_type, nid, name@));
    assert(line@.skip(line@.len() - name@.len()) =~= name@);
    line
}

/// Writes the lines for the entries of a directory, in their order.
pub fn listing_report(rows: &Vec<DirRow>) -> (lines: Vec<String>)
    ensures
        lines.len() == rows.len(),
        forall|i: int|
            0 <= i < rows.len() ==> (#[trigger] lines@[i])@ == row_line(
                rows@[i].file_type,
                rows@[i].nid,
                lossy_text(rows@[i].name@),
            ),
        forall|i: int|
            0 <= i < rows.len() && vstd::utf8::valid_utf8(rows@[i].name@) ==> (
            #[trigger] lines@[i])@ == row_line(
                rows@[i].file_type,
                rows@[i].nid,
                vstd::utf8::decode_utf8(rows@[i].name@),
            ),
{
    let mut lines: Vec<String> = Vec::new();
    let mut i: usize = 0;
    while i < rows.len()
        invariant
            i <= rows.len(),
            lines.len() == i,
            forall|j: int|
                0 <= j < i ==> (#[trigger] lines@[j])@ == row_line(
                    rows@[j].file_type,
                    rows@[j].nid,
                    lossy_text(rows@[j].name@),
                ),
            forall|j: int|
                0 <= j < i && vstd::utf8::valid_utf8(rows@[j].name@) ==> (#[trigger] lines@[j])@
                    == row_line(
                    rows@[j].file_type,
                    rows@[j].nid,
                    vstd::utf8::decode_utf8(rows@[j].name@),
                ),
        decreases rows.len() - i,
    {
        let row = &rows[i];
        let name = decode_lossy(row.name.as_slice());
        lines.push(listing_line(row.file_type, row.nid, name.as_str()));
        i = i + 1;
    }
    lines
}

/// Why what is at `path` is not printed, if so.
pub open spec fn refusal_text(path: Seq<char>, is_regular_file: bool) -> Option<Seq<char>> {
    if is_regular_file {
        None
    } else {
        Some(path + " is not a regular file"@)
    }
}

/// Refuses to print what is not a regular file: the message, or `None` for a
/// regular file.
pub fn cat_refusal(path: &str, is_regular_file: bool) -> (refusal: Option<String>)
    ensures
        refusal is None <==> is_regular_file,
        refusal matches Some(message) ==> message@ == path@ + " is not a regular file"@,
        match refusal {
            None => refusal_text(path@, is_regular_file) is None,
            Some(message) => refusal_text(path@, is_regular_file) == Some(message@),
        },
{
    if is_regular_file {
        None
    } else {
        Some(path.to_owned().concat(" is not a regular file"))
    }
}

} // verus!
