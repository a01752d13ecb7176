use vstd::prelude::*;

verus! {

/// The lowercase hexadecimal digit of `n` (below 16), as an ASCII byte.
pub open spec fn hex_digit(n: int) -> u8 {
    if n < 10 {
        (0x30 + n) as u8
    } else {
        (0x57 + n) as u8
    }
}

/// `n` ASCII spaces.
pub open spec fn spaces(n: nat) -> Seq<u8> {
    Seq::new(n, |i: int| 0x20u8)
}

/// `n` ASCII dashes.
pub open spec fn dashes(n: nat) -> Seq<u8> {
    Seq::new(n, |i: int| 0x2du8)
}

/// The hex column of byte `j` of `data`: two hex digits and a space, or three spaces past
/// the end of `data`.
pub open spec fn hex_cell(data: Seq<u8>, j: int) -> Seq<u8> {
    if j < data.len() {
        seq![hex_digit(data[j] as int / 16), hex_digit(data[j] as int % 16), 0x20u8]
    } else {
        spaces(3)
    }
}

/// The text column of byte `j` of `data`: the byte when it is printable ASCII, a dot
/// otherwise, or three spaces past the end of `data`.
pub open spec fn char_cell(data: Seq<u8>, j: int) -> Seq<u8> {
    if j < data.len() {
        if 0x20 <= data[j] <= 0x7e {
            seq![data[j]]
        } else {
            seq![0x2eu8]
        }
    } else {
        spaces(3)
    }
}

/// The hex columns of bytes `off .. off + k`.
pub open spec fn hex_cells(data: Seq<u8>, off: int, k: nat) -> Seq<u8>
    decreases k,
{
    if k == 0 {
        Seq::empty()
    } else {
        hex_cells(data, off, (k - 1) as nat) + hex_cell(data, off + k - 1)
    }
}

/// The text columns of bytes `off .. off + k`.
pub open spec fn char_cells(data: Seq<u8>, off: int, k: nat) -> Seq<u8>
    decreases k,
{
    if k == 0 {
        Seq::empty()
    } else {
        char_cells(data, off, (k - 1) as nat) + char_cell(data, off + k - 1)
    }
}

/// The dump line of the 16 bytes from `off`: their hex columns, six spaces, their text
/// columns, and a newline.
pub open spec fn dump_line(data: Seq<u8>, off: int) -> Seq<u8> {
    hex_cells(data, off, 16) + spaces(6) + char_cells(data, off, 16) + seq![0x0au8]
}

/// The first `n` dump lines of `data`.
pub open spec fn dump_lines(data: Seq<u8>, n: nat) -> Seq<u8>
    decreases n,
{
    if n == 0 {
        Seq::empty()
    } else {
        dump_lines(data, (n - 1) as nat) + dump_line(data, 16 * (n - 1))
    }
}

/// `title` centred in a line of 70 dashes (the extra dash going right), and a newline.
pub open spec fn banner(title: Seq<u8>) -> Seq<u8> {
    let pad = (70 - title.len()) as nat;
    dashes(pad / 2) + title + dashes((pad - pad / 2) as nat) + seq![0x0au8]
}

/// " hexdump " in ASCII.
pub open spec fn start_title() -> Seq<u8> {
    seq![0x20u8, 0x68, 0x65, 0x78, 0x64, 0x75, 0x6d, 0x70, 0x20]
}

/// " hexdump end " in ASCII.
pub open spec fn end_title() -> Seq<u8> {
    seq![0x20u8, 0x68, 0x65, 0x78, 0x64, 0x75, 0x6d, 0x70, 0x20, 0x65, 0x6e, 0x64, 0x20]
}

/// The number of dump lines of `len` bytes: one per 16 bytes or part of 16.
pub open spec fn line_count(len: nat) -> nat {
    if len % 16 == 0 { len / 16 } else { len / 16 + 1 }
}

/// The whole dump of `data`.
pub open spec fn hexdump_text(data: Seq<u8>) -> Seq<u8> {
    banner(start_title()) + dump_lines(data, line_count(data.len())) + banner(end_title())
}

fn hex_digit_byte(n: u8) -> (b: u8)
    requires
        n < 16,
    ensures
        b == hex_digit(n as int),
{
    if n < 10 {
        0x30 + n
    } else {
        0x57 + n
    }
}

fn push_repeat(out: &mut Vec<u8>, b: u8, n: usize)
    ensures
        final(out)@ == old(out)@ + Seq::new(n as nat, |i: int| b),
{
    let mut i: usize = 0;
    while i < n
        invariant
            i <= n,
            out@ == old(out)@ + Seq::new(i as nat, |k: int| b),
        decreases n - i,
    {
        out.push(b);
        i = i + 1;
        proof {
            assert(out@ =~= old(out)@ + Seq::new(i as nat, |k: int| b));
        }
    }
}

fn push_banner(out: &mut Vec<u8>, title: &[u8])
    requires
        title@.len() <= 70,
    ensures
        final(out)@ == old(out)@ + banner(title@),
{
    let pad = 70 - title.len();
    let left = pad / 2;
    push_repeat(out, 0x2d, left);
    let mut i: usize = 0;
    let ghost mid = out@;
    while i < title.len()
        invariant
            i <= title@.len(),
            out@ == mid + title@.subrange(0, i as int),
        decreases title@.len() - i,
    {
        out.push(title[i]);
        i = i + 1;
        proof {
            assert(out@ =~= mid + title@.subrange(0, i as int));
        }
    }
    push_repeat(out, 0x2d, pad - left);
    out.push(0x0a);
    proof {
        assert(title@.subrange(0, title@.len() as int) =~= title@);
        assert(out@ =~= old(out)@ + banner(title@));
    }
}

/// Appends the dump line of the 16 bytes of `data` from `off`.
fn push_line(out: &mut Vec<u8>, data: &[u8], off: usize)
    requires
        off < data@.len(),
    ensures
        final(out)@ == old(out)@ + dump_line(data@, off as int),
{
    let rest = data.len() - off;
    let ghost start = out@;
    let mut i: usize = 0;
    while i < 16
        invariant
            i <= 16,
            off < data@.len(),
            rest == data@.len() - off,
            data@.len() <= usize::MAX,
            out@ == start + hex_cells(data@, off as int, i as nat),
        decreases 16 - i,
    {
        let ghost before = out@;
        if i < rest {
            let b = data[off + i];
            out.push(hex_digit_byte(b / 16));
            out.push(hex_digit_byte(b % 16));
            out.push(0x20);
        } else {
            out.push(0x20);
            out.push(0x20);
            out.push(0x20);
        }
        proof {
            assert(out@ =~= before + hex_cell(data@, off + i));
        }
        i = i + 1;
    }
    push_repeat(out, 0x20, 6);
    let ghost mid = out@;
    i = 0;
    while i < 16
        invariant
            i <= 16,
            off < data@.len(),
            rest == data@.len() - off,
            data@.len() <= usize::MAX,
            out@ == mid + char_cells(data@, off as int, i as nat),
        decreases 16 - i,
    {
        let ghost before = out@;
        if i < rest {
            let c = data[off + i];
            if c >= 0x20 && c <= 0x7e {
                out.push(c);
            } else {
                out.push(0x2e);
            }
        } else {
            out.push(0x20);
            out.push(0x20);
            out.push(0x20);
        }
        proof {
            assert(out@ =~= before + char_cell(data@, off + i));
        }
        i = i + 1;
    }
    out.push(0x0a);
    proof {
        assert(out@ =~= old(out)@ + dump_line(data@, off as int));
    }
}

/// The hex dump of `data`: a banner line " hexdump " centred in dashes, one line per 16
/// bytes (two hex digits and a space per byte, blanks past the end, six spaces, then the
/// bytes as text with a dot for each byte that is not printable ASCII), and a closing
/// banner " hexdump end ".
pub fn hexdump(data: &[u8]) -> (text: Vec<u8>)
    ensures
        text@ == hexdump_text(data@),
{
    let mut out: Vec<u8> = Vec::new();
    let start: [u8; 9] = [0x20, 0x68, 0x65, 0x78, 0x64, 0x75, 0x6d, 0x70, 0x20];
    proof {
        assert(start@ =~= start_title());
    }
    push_banner(&mut out, &start);
    let len = data.len();
    let lines = if len % 16 == 0 { len / 16 } else { len / 16 + 1 };
    let ghost head = out@;
    let mut n: usize = 0;
    while n < lines
        invariant
            len == data@.len(),
            lines == line_count(len as nat),
            n <= lines,
            out@ == head + dump_lines(data@, n as nat),
        decreases lines - n,
    {
        let off = n * 16;
        push_line(&mut out, data, off);
        n = n + 1;
        proof {
            assert(out@ =~= head + dump_lines(data@, n as nat));
        }
    }
    let end: [u8; 13] = [0x20, 0x68, 0x65, 0x78, 0x64, 0x75, 0x6d, 0x70, 0x20, 0x65, 0x6e, 0x64, 0x20];
    proof {
        assert(end@ =~= end_title());
    }
    push_banner(&mut out, &end);
    proof {
        assert(out@ =~= hexdump_text(data@));
    }
    out
}

proof fn lemma_hex_cells(data: Seq<u8>, off: int, k: nat)
    ensures
        hex_cells(data, off, k).len() == 3 * k,
        forall|x: int| 0 <= x < 3 * k ==> #[trigger] hex_cells(data, off, k)[x] == hex_cell(data, off + x / 3)[x % 3],
    decreases k,
{
    if k > 0 {
        lemma_hex_cells(data, off, (k - 1) as nat);
        let prev = hex_cells(data, off, (k - 1) as nat);
        let last = hex_cell(data, off + k - 1);
        assert(last.len() == 3);
        assert forall|x: int| 0 <= x < 3 * k implies #[trigger] hex_cells(data, off, k)[x]
            == hex_cell(data, off + x / 3)[x % 3] by {
            if x < 3 * (k - 1) {
                assert(hex_cells(data, off, k)[x] == prev[x]);
            } else {
                assert(x / 3 == k - 1);
                assert(hex_cells(data, off, k)[x] == last[x - 3 * (k - 1)]);
            }
        }
    }
}

proof fn lemma_char_cells_full(data: Seq<u8>, off: int, k: nat)
    requires
        0 <= off,
        off + k <= data.len(),
    ensures
        char_cells(data, off, k).len() == k,
    decreases k,
{
    if k > 0 {
        lemma_char_cells_full(data, off, (k - 1) as nat);
    }
}

/// A full line (16 bytes from `off` all inside `data`) is 71 bytes long, and every line
/// starts with the hex columns of its 16 bytes.
proof fn lemma_dump_line(data: Seq<u8>, off: int)
    requires
        0 <= off,
    ensures
        off + 16 <= data.len() ==> dump_line(data, off).len() == 71,
        dump_line(data, off).len() >= 48,
        forall|x: int| 0 <= x < 48 ==> #[trigger] dump_line(data, off)[x] == hex_cell(data, off + x / 3)[x % 3],
{
    lemma_hex_cells(data, off, 16);
    if off + 16 <= data.len() {
        lemma_char_cells_full(data, off, 16);
    }
}

/// The first `k + 1` dump lines stand, unchanged, at the start of the first `n` of them.
proof fn lemma_dump_lines_prefix(data: Seq<u8>, k: nat, n: nat)
    requires
        k < n,
    ensures
        dump_lines(data, k + 1).len() <= dump_lines(data, n).len(),
        forall|x: int| 0 <= x < dump_lines(data, k + 1).len() ==> #[trigger] dump_lines(data, n)[x]
            == dump_lines(data, k + 1)[x],
    decreases n,
{
    if n > k + 1 {
        lemma_dump_lines_prefix(data, k, (n - 1) as nat);
        let m = (n - 1) as nat;
        assert forall|x: int| 0 <= x < dump_lines(data, k + 1).len() implies #[trigger] dump_lines(data, n)[x]
            == dump_lines(data, k + 1)[x] by {
            assert(dump_lines(data, n)[x] == dump_lines(data, m)[x]);
        }
    }
}

/// The first `k` dump lines are 71 bytes each when their bytes all lie inside `data`.
proof fn lemma_dump_lines_len(data: Seq<u8>, k: nat)
    requires
        16 * k <= data.len(),
    ensures
        dump_lines(data, k).len() == 71 * k,
    decreases k,
{
    if k > 0 {
        lemma_dump_lines_len(data, (k - 1) as nat);
        lemma_dump_line(data, 16 * (k - 1) as int);
    }
}

/// Every byte of the input appears in the dump: byte `j` stands as its two lowercase hex
/// digits in dump line `j / 16` (the opening banner and each line before it taking 71
/// bytes), in column `j % 16`. The dump has one line per 16 bytes or part of 16.
pub proof fn law_hexdump_shows_every_byte(data: Seq<u8>)
    ensures
        forall|j: int| #![trigger data[j]] 0 <= j < data.len() ==>
            hexdump_text(data)[71 + 71 * (j / 16) + 3 * (j % 16)] == hex_digit(data[j] as int / 16)
            && hexdump_text(data)[71 + 71 * (j / 16) + 3 * (j % 16) + 1] == hex_digit(data[j] as int % 16),
        data.len() > 0 ==> 16 * (line_count(data.len()) - 1) < data.len() <= 16 * line_count(data.len()),
        data.len() == 0 ==> line_count(data.len()) == 0,
{
    let head = banner(start_title());
    assert(head.len() == 71);
    let n = line_count(data.len());
    assert forall|j: int| #![trigger data[j]] 0 <= j < data.len() implies
        hexdump_text(data)[71 + 71 * (j / 16) + 3 * (j % 16)] == hex_digit(data[j] as int / 16)
        && hexdump_text(data)[71 + 71 * (j / 16) + 3 * (j % 16) + 1] == hex_digit(data[j] as int % 16) by {
        let k = (j / 16) as nat;
        let i = j % 16;
        assert(j == 16 * k + i);
        assert(k < n);
        lemma_dump_lines_prefix(data, k, n);
        lemma_dump_lines_len(data, k);
        lemma_dump_line(data, 16 * k as int);
        let lines = dump_lines(data, n);
        let upto = dump_lines(data, k + 1);
        let line = dump_line(data, 16 * k as int);
        assert(upto == dump_lines(data, k) + line);
        let cell = hex_cell(data, j);
        assert((3 * i) / 3 == i && (3 * i) % 3 == 0);
        assert((3 * i + 1) / 3 == i && (3 * i + 1) % 3 == 1);
        assert(line[3 * i] == cell[0]);
        assert(line[3 * i + 1] == cell[1]);
        assert(upto[71 * k + 3 * i] == line[3 * i]);
        assert(upto[71 * k + 3 * i + 1] == line[3 * i + 1]);
        assert(lines[71 * k + 3 * i] == upto[71 * k + 3 * i]);
        assert(lines[71 * k + 3 * i + 1] == upto[71 * k + 3 * i + 1]);
        let text = hexdump_text(data);
        assert(text == head + lines + banner(end_title()));
        assert(text[71 + 71 * k + 3 * i] == lines[71 * k + 3 * i]);
        assert(text[71 + 71 * k + 3 * i + 1] == lines[71 * k + 3 * i + 1]);
    }
}

} // verus!
