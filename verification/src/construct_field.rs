use vstd::prelude::*;
use crate::player::Player;
use crate::text::{ascii_lower_code, chars_of};
use vstd::utf8::{char_is_scalar, encode_scalar, encode_utf8};

verus! {

broadcast use vstd::seq_lib::group_seq_properties;

// ---------------------------------------------------------------------------
// The text of a field image
// ---------------------------------------------------------------------------

/// The pieces of `s` between `\n` characters, as `str::split('\n')` gives them
/// (there is always at least one, possibly empty, piece).
pub open spec fn split_lines(s: Seq<char>) -> Seq<Seq<char>>
    decreases s.len(),
{
    if s.len() == 0 {
        seq![Seq::<char>::empty()]
    } else {
        let prev = split_lines(s.drop_last());
        if s.last() == '\n' {
            prev.push(Seq::<char>::empty())
        } else {
            prev.drop_last().push(prev.last().push(s.last()))
        }
    }
}

/// `s` without its leading spaces.
pub open spec fn trim_start_spaces(s: Seq<char>) -> Seq<char>
    decreases s.len(),
{
    if s.len() > 0 && s[0] == ' ' {
        trim_start_spaces(s.drop_first())
    } else {
        s
    }
}

/// `s` without its trailing spaces.
pub open spec fn trim_end_spaces(s: Seq<char>) -> Seq<char>
    decreases s.len(),
{
    if s.len() > 0 && s.last() == ' ' {
        trim_end_spaces(s.drop_last())
    } else {
        s
    }
}

/// `s` without leading and trailing spaces, as `str::trim_matches(' ')` gives it.
pub open spec fn trim_spaces(s: Seq<char>) -> Seq<char> {
    trim_end_spaces(trim_start_spaces(s))
}

/// The rows of a field image: its lines, trimmed of spaces, without the empty ones.
pub open spec fn image_rows(image: Seq<char>) -> Seq<Seq<char>> {
    nonempty_lines(trimmed_lines(split_lines(image)))
}

/// Each line trimmed of spaces.
pub open spec fn trimmed_lines(lines: Seq<Seq<char>>) -> Seq<Seq<char>> {
    lines.map_values(|l: Seq<char>| trim_spaces(l))
}

/// The lines that are not empty, in order.
pub open spec fn nonempty_lines(lines: Seq<Seq<char>>) -> Seq<Seq<char>> {
    lines.filter(|l: Seq<char>| l.len() > 0)
}

proof fn lemma_rows_push(lines: Seq<Seq<char>>, l: Seq<char>)
    ensures
        nonempty_lines(trimmed_lines(lines.push(l))) == if trim_spaces(l).len() > 0 {
            nonempty_lines(trimmed_lines(lines)).push(trim_spaces(l))
        } else {
            nonempty_lines(trimmed_lines(lines))
        },
{
    assert(trimmed_lines(lines.push(l)) =~= trimmed_lines(lines).push(trim_spaces(l)));
    trimmed_lines(lines).lemma_filter_push(trim_spaces(l), |l: Seq<char>| l.len() > 0);
}

proof fn lemma_split_lines_nonempty(s: Seq<char>)
    ensures
        split_lines(s).len() >= 1,
    decreases s.len(),
{
    if s.len() > 0 {
        lemma_split_lines_nonempty(s.drop_last());
    }
}

proof fn lemma_trim_start_skip(s: Seq<char>, i: int)
    requires
        0 <= i <= s.len(),
        forall|k: int| 0 <= k < i ==> s[k] == ' ',
    ensures
        trim_start_spaces(s) == trim_start_spaces(s.skip(i)),
    decreases i,
{
    if i > 0 {
        assert(s.drop_first().skip(i - 1) =~= s.skip(i));
        lemma_trim_start_skip(s.drop_first(), i - 1);
    } else {
        assert(s.skip(0) =~= s);
    }
}

proof fn lemma_trim_end_take(s: Seq<char>, j: int)
    requires
        0 <= j <= s.len(),
        forall|k: int| j <= k < s.len() ==> s[k] == ' ',
    ensures
        trim_end_spaces(s) == trim_end_spaces(s.take(j)),
    decreases s.len() - j,
{
    if j < s.len() {
        assert(s.drop_last().take(j) =~= s.take(j));
        lemma_trim_end_take(s.drop_last(), j);
    } else {
        assert(s.take(j) =~= s);
    }
}

/// The line without its leading and trailing spaces.
fn trim_line(line: &Vec<char>) -> (r: Vec<char>)
    ensures
        r@ == trim_spaces(line@),
{
    let n = line.len();
    let mut a: usize = 0;
    while a < n && line[a] == ' '
        invariant
            n == line@.len(),
            0 <= a <= n,
            forall|k: int| 0 <= k < a ==> line@[k] == ' ',
        decreases n - a,
    {
        a = a + 1;
    }
    proof {
        lemma_trim_start_skip(line@, a as int);
    }
    let ghost rest = line@.skip(a as int);
    assert(trim_start_spaces(rest) == rest);
    let mut b: usize = n;
    while b > a && line[b - 1] == ' '
        invariant
            n == line@.len(),
            0 <= a <= b <= n,
            forall|k: int| b <= k < n ==> line@[k] == ' ',
        decreases b,
    {
        b = b - 1;
    }
    proof {
        lemma_trim_end_take(rest, b - a);
        assert(rest.take(b - a) =~= line@.subrange(a as int, b as int));
    }
    let mut r: Vec<char> = Vec::new();
    let mut i: usize = a;
    while i < b
        invariant
            n == line@.len(),
            a <= i <= b <= n,
            r@ =~= line@.subrange(a as int, i as int),
        decreases b - i,
    {
        r.push(line[i]);
        i = i + 1;
    }
    r
}

/// The rows of the image whose characters are `v`, each as its characters.
fn image_rows_of(v: &Vec<char>) -> (rows: Vec<Vec<char>>)
    ensures
        rows@.len() == image_rows(v@).len(),
        forall|i: int| 0 <= i < rows@.len() ==> (#[trigger] rows@[i])@ == image_rows(v@)[i],
{
    let mut rows: Vec<Vec<char>> = Vec::new();
    let mut cur: Vec<char> = Vec::new();
    let ghost mut done: Seq<Seq<char>> = Seq::empty();
    let n = v.len();
    let mut i: usize = 0;
    while i < n
        invariant
            n == v@.len(),
            0 <= i <= n,
            split_lines(v@.take(i as int)) == done.push(cur@),
            rows@.len() == nonempty_lines(trimmed_lines(done)).len(),
            forall|k: int| 0 <= k < rows@.len() ==> (#[trigger] rows@[k])@ == nonempty_lines(trimmed_lines(done))[k],
        decreases n - i,
    {
        let c = v[i];
        proof {
            assert(v@.take(i + 1).drop_last() =~= v@.take(i as int));
            lemma_split_lines_nonempty(v@.take(i as int));
        }
        if c == '\n' {
            let t = trim_line(&cur);
            proof {
                lemma_rows_push(done, cur@);
                done = done.push(cur@);
            }
            if t.len() > 0 {
                rows.push(t);
            }
            cur = Vec::new();
            assert(split_lines(v@.take(i + 1)) =~= done.push(cur@));
        } else {
            cur.push(c);
            assert(split_lines(v@.take(i + 1)) =~= done.push(cur@));
        }
        i = i + 1;
    }
    let t = trim_line(&cur);
    proof {
        assert(v@.take(n as int) =~= v@);
        lemma_rows_push(done, cur@);
    }
    if t.len() > 0 {
        rows.push(t);
    }
    rows
}

// ---------------------------------------------------------------------------
// Widths
// ---------------------------------------------------------------------------

/// The length in bytes of the UTF-8 text of `s`, as `str::len` counts it.
pub open spec fn byte_len(s: Seq<char>) -> nat {
    encode_utf8(s).len()
}

/// A field image is usable: it has at least one row, and every row is as long (in
/// bytes, taken as a `u32`) as the first.
pub open spec fn is_field_image_spec(image: Seq<char>) -> bool {
    let rows = image_rows(image);
    &&& rows.len() > 0
    &&& forall|i: int|
        0 <= i < rows.len() ==> (byte_len(#[trigger] rows[i]) as u32) == (byte_len(rows[0]) as u32)
}

proof fn lemma_byte_len_push(s: Seq<char>, c: char)
    ensures
        byte_len(s.push(c)) == byte_len(s) + encode_scalar(c as u32).len(),
    decreases s.len(),
{
    if s.len() > 0 {
        assert(s.push(c).drop_first() =~= s.drop_first().push(c));
        lemma_byte_len_push(s.drop_first(), c);
    } else {
        assert(s.push(c).drop_first() =~= Seq::<char>::empty());
    }
}

fn char_byte_len(c: char) -> (n: u128)
    ensures
        n == encode_scalar(c as u32).len(),
{
    proof {
        char_is_scalar(c);
    }
    let code = c as u32;
    if code <= 0x7F {
        1
    } else if code <= 0x7FF {
        2
    } else if code <= 0xFFFF {
        3
    } else {
        4
    }
}

fn byte_len_of(line: &Vec<char>) -> (n: u128)
    ensures
        n == byte_len(line@),
{
    let mut n: u128 = 0;
    let mut i: usize = 0;
    while i < line.len()
        invariant
            0 <= i <= line@.len(),
            n == byte_len(line@.take(i as int)),
            n <= 4 * i,
        decreases line@.len() - i,
    {
        let w = char_byte_len(line[i]);
        proof {
            assert(line@.take(i + 1) =~= line@.take(i as int).push(line@[i as int]));
            lemma_byte_len_push(line@.take(i as int), line@[i as int]);
        }
        n = n + w;
        i = i + 1;
    }
    assert(line@.take(line@.len() as int) =~= line@);
    n
}

fn rows_are_valid(rows: &Vec<Vec<char>>) -> (b: bool)
    ensures
        b == (rows@.len() > 0 && forall|i: int|
            0 <= i < rows@.len() ==> (byte_len((#[trigger] rows@[i])@) as u32) == (byte_len(rows@[0]@) as u32)),
{
    if rows.len() == 0 {
        return false;
    }
    let width = byte_len_of(&rows[0]) as u32;
    let mut i: usize = 0;
    while i < rows.len()
        invariant
            rows@.len() > 0,
            0 <= i <= rows@.len(),
            width == byte_len(rows@[0]@) as u32,
            forall|k: int| 0 <= k < i ==> (byte_len((#[trigger] rows@[k])@) as u32) == width,
        decreases rows@.len() - i,
    {
        if byte_len_of(&rows[i]) as u32 != width {
            return false;
        }
        i = i + 1;
    }
    true
}

/// Tells whether `image` is a usable field image (see [`construct_field`]).
pub fn is_field_image(image: &str) -> (b: bool)
    ensures
        b == is_field_image_spec(image@),
{
    let v = chars_of(image);
    let rows = image_rows_of(&v);
    let b = rows_are_valid(&rows);
    proof {
        if b {
            assert forall|i: int| 0 <= i < image_rows(image@).len() implies (byte_len(
                #[trigger] image_rows(image@)[i],
            ) as u32) == (byte_len(image_rows(image@)[0]) as u32) by {
                assert(rows@[i]@ == image_rows(image@)[i]);
            }
        } else if rows@.len() > 0 {
            let i = choose|i: int|
                0 <= i < rows@.len() && !((byte_len((#[trigger] rows@[i])@) as u32) == (byte_len(
                    rows@[0]@,
                ) as u32));
            assert(rows@[i]@ == image_rows(image@)[i]);
        }
    }
    b
}

// ---------------------------------------------------------------------------
// Stones
// ---------------------------------------------------------------------------

/// `c` is an ASCII letter, the only kind of character whose ASCII lower and upper
/// case differ.
pub open spec fn is_ascii_letter(c: char) -> bool {
    ('a' <= c && c <= 'z') || ('A' <= c && c <= 'Z')
}

/// `c` is an upper-case ASCII letter.
pub open spec fn is_ascii_upper(c: char) -> bool {
    'A' <= c && c <= 'Z'
}

/// A letter of the image with its column and row.
pub type Stone = (char, u32, u32);

/// The letters of a row, left to right, each with its column and the row number `y`.
pub open spec fn row_letters(row: Seq<char>, y: u32) -> Seq<Stone>
    decreases row.len(),
{
    if row.len() == 0 {
        Seq::empty()
    } else {
        row_letters(row.drop_last(), y) + if is_ascii_letter(row.last()) {
            seq![(row.last(), (row.len() - 1) as u32, y)]
        } else {
            Seq::<Stone>::empty()
        }
    }
}

/// The letters of all rows, row after row, each with its column and row.
pub open spec fn image_letters(rows: Seq<Seq<char>>) -> Seq<Stone>
    decreases rows.len(),
{
    if rows.len() == 0 {
        Seq::empty()
    } else {
        image_letters(rows.drop_last()) + row_letters(rows.last(), (rows.len() - 1) as u32)
    }
}

/// The place of a letter in the order of moves: by letter regardless of case, and
/// for one letter the upper case first. Anything but an ASCII letter ranks 52,
/// after every letter.
pub open spec fn letter_rank(c: char) -> int {
    if is_ascii_letter(c) {
        2 * (ascii_lower_code(c) - 'a' as u32) + if is_ascii_upper(c) {
            0int
        } else {
            1int
        }
    } else {
        52
    }
}

/// The stones whose letter has rank `k`, in their order in `ms`.
pub open spec fn rank_bucket(ms: Seq<Stone>, k: int) -> Seq<Stone> {
    ms.filter(|m: Stone| letter_rank(m.0) == k)
}

/// The stones of ranks below `k`, by rank, and in their order in `ms` within a rank.
pub open spec fn sorted_below(ms: Seq<Stone>, k: nat) -> Seq<Stone>
    decreases k,
{
    if k == 0 {
        Seq::empty()
    } else {
        sorted_below(ms, (k - 1) as nat) + rank_bucket(ms, k - 1)
    }
}

/// The stones in the order of moves: the stable sort of `ms` by [`letter_rank`].
pub open spec fn sorted_stones(ms: Seq<Stone>) -> Seq<Stone> {
    sorted_below(ms, 52)
}

/// One move of a field image: a point of `player` at column `x` and row `y`.
#[derive(Clone, Copy, Debug, PartialEq, Eq, Structural)]
pub struct Move {
    pub player: Player,
    pub x: u32,
    pub y: u32,
}

/// The move a stone stands for: upper case is black, lower case red.
pub open spec fn stone_move(m: Stone) -> Move {
    Move { player: Player::spec_from_bool(is_ascii_upper(m.0)), x: m.1, y: m.2 }
}

/// The moves of a field image, in the order they are put on the field.
pub open spec fn image_moves(image: Seq<char>) -> Seq<Move> {
    sorted_stones(image_letters(image_rows(image))).map_values(|m: Stone| stone_move(m))
}

proof fn lemma_rank_bucket_push(ms: Seq<Stone>, m: Stone, k: int)
    ensures
        rank_bucket(ms.push(m), k) == if letter_rank(m.0) == k {
            rank_bucket(ms, k).push(m)
        } else {
            rank_bucket(ms, k)
        },
{
    ms.lemma_filter_push(m, |m: Stone| letter_rank(m.0) == k);
}

fn letter_rank_of(c: char) -> (r: u32)
    ensures
        r == letter_rank(c),
{
    if 'a' <= c && c <= 'z' {
        2 * (c as u32 - 'a' as u32) + 1
    } else if 'A' <= c && c <= 'Z' {
        2 * (c as u32 - 'A' as u32)
    } else {
        52
    }
}

fn push_row_letters(row: &Vec<char>, y: u32, out: &mut Vec<Stone>)
    ensures
        final(out)@ == old(out)@ + row_letters(row@, y),
{
    let ghost start = out@;
    let mut x: usize = 0;
    while x < row.len()
        invariant
            0 <= x <= row@.len(),
            out@ == start + row_letters(row@.take(x as int), y),
        decreases row@.len() - x,
    {
        let c = row[x];
        proof {
            assert(row@.take(x + 1).drop_last() =~= row@.take(x as int));
        }
        if ('a' <= c && c <= 'z') || ('A' <= c && c <= 'Z') {
            out.push((c, x as u32, y));
        }
        x = x + 1;
        assert(out@ =~= start + row_letters(row@.take(x as int), y));
    }
    assert(row@.take(row@.len() as int) =~= row@);
}

fn sort_stones(ms: &Vec<Stone>) -> (r: Vec<Stone>)
    ensures
        r@ == sorted_stones(ms@),
{
    let mut r: Vec<Stone> = Vec::new();
    let mut k: u32 = 0;
    while k < 52
        invariant
            0 <= k <= 52,
            r@ == sorted_below(ms@, k as nat),
        decreases 52 - k,
    {
        let ghost before = r@;
        let mut i: usize = 0;
        while i < ms.len()
            invariant
                0 <= i <= ms@.len(),
                r@ == before + rank_bucket(ms@.take(i as int), k as int),
            decreases ms@.len() - i,
        {
            let m = ms[i];
            proof {
                assert(ms@.take(i + 1) =~= ms@.take(i as int).push(m));
                lemma_rank_bucket_push(ms@.take(i as int), m, k as int);
            }
            if letter_rank_of(m.0) == k {
                r.push(m);
            }
            i = i + 1;
            assert(r@ =~= before + rank_bucket(ms@.take(i as int), k as int));
        }
        assert(ms@.take(ms@.len() as int) =~= ms@);
        k = k + 1;
    }
    r
}

/// A field image read into its size and moves.
pub struct FieldImage {
    pub width: u32,
    pub height: u32,
    pub moves: Vec<Move>,
}

/// Reads a field image: a picture of the field, one line per row, in which `.` (or
/// any other character but a letter) is an empty point and an ASCII letter is a
/// point, upper case for black and lower case for red. Lines are trimmed of spaces
/// and empty lines are skipped. The height is the number of rows and the width the
/// length of the first row; the moves are the letters sorted by letter regardless
/// of case, upper case first for one letter, and otherwise in reading order.
pub fn construct_field(image: &str) -> (f: FieldImage)
    requires
        is_field_image_spec(image@),
    ensures
        f.height == image_rows(image@).len() as u32,
        f.width == byte_len(image_rows(image@)[0]) as u32,
        f.moves@ == image_moves(image@),
{
    let v = chars_of(image);
    let rows = image_rows_of(&v);
    let height = rows.len() as u32;
    let width = byte_len_of(&rows[0]) as u32;
    let mut stones: Vec<Stone> = Vec::new();
    let mut y: usize = 0;
    while y < rows.len()
        invariant
            0 <= y <= rows@.len(),
            rows@.len() == image_rows(image@).len(),
            forall|i: int| 0 <= i < rows@.len() ==> (#[trigger] rows@[i])@ == image_rows(image@)[i],
            stones@ == image_letters(image_rows(image@).take(y as int)),
        decreases rows@.len() - y,
    {
        proof {
            assert(image_rows(image@).take(y + 1).drop_last() =~= image_rows(image@).take(y as int));
        }
        push_row_letters(&rows[y], y as u32, &mut stones);
        y = y + 1;
    }
    assert(image_rows(image@).take(rows@.len() as int) =~= image_rows(image@));
    let sorted = sort_stones(&stones);
    let mut moves: Vec<Move> = Vec::new();
    let mut i: usize = 0;
    while i < sorted.len()
        invariant
            0 <= i <= sorted@.len(),
            moves@ =~= sorted@.take(i as int).map_values(|m: Stone| stone_move(m)),
        decreases sorted@.len() - i,
    {
        let (c, x, y) = sorted[i];
        moves.push(Move { player: Player::from_bool('A' <= c && c <= 'Z'), x, y });
        i = i + 1;
    }
    assert(sorted@.take(sorted@.len() as int) =~= sorted@);
    FieldImage { width, height, moves }
}

// ---------------------------------------------------------------------------
// Laws
// ---------------------------------------------------------------------------

proof fn lemma_byte_len_at_least_len(s: Seq<char>)
    ensures
        byte_len(s) >= s.len(),
    decreases s.len(),
{
    if s.len() > 0 {
        lemma_byte_len_at_least_len(s.drop_last());
        assert(s.drop_last().push(s.last()) =~= s);
        lemma_byte_len_push(s.drop_last(), s.last());
    }
}

proof fn lemma_row_letters_in_row(row: Seq<char>, y: u32)
    requires
        row.len() <= u32::MAX,
    ensures
        forall|i: int|
            0 <= i < row_letters(row, y).len() ==> {
                let m = #[trigger] row_letters(row, y)[i];
                &&& is_ascii_letter(m.0)
                &&& m.2 == y
                &&& m.1 < row.len()
            },
    decreases row.len(),
{
    if row.len() > 0 {
        lemma_row_letters_in_row(row.drop_last(), y);
        let prev = row_letters(row.drop_last(), y);
        assert forall|i: int| 0 <= i < row_letters(row, y).len() implies {
            let m = #[trigger] row_letters(row, y)[i];
            &&& is_ascii_letter(m.0)
            &&& m.2 == y
            &&& m.1 < row.len()
        } by {
            if i < prev.len() {
                assert(row_letters(row, y)[i] == prev[i]);
            }
        }
    }
}

/// The letter, column and row of a stone come from a row of `rows`.
pub open spec fn stone_in_rows(rows: Seq<Seq<char>>, m: Stone) -> bool {
    exists|r: int| 0 <= r < rows.len() && m.2 == r && m.1 < (#[trigger] rows[r]).len() && is_ascii_letter(m.0)
}

proof fn lemma_image_letters_in_rows(rows: Seq<Seq<char>>)
    requires
        rows.len() <= u32::MAX,
        forall|r: int| 0 <= r < rows.len() ==> (#[trigger] rows[r]).len() <= u32::MAX,
    ensures
        forall|i: int|
            0 <= i < image_letters(rows).len() ==> stone_in_rows(rows, #[trigger] image_letters(rows)[i]),
    decreases rows.len(),
{
    if rows.len() > 0 {
        let init = rows.drop_last();
        lemma_image_letters_in_rows(init);
        let y = (rows.len() - 1) as u32;
        lemma_row_letters_in_row(rows.last(), y);
        let prev = image_letters(init);
        let last = row_letters(rows.last(), y);
        assert forall|i: int| 0 <= i < image_letters(rows).len() implies stone_in_rows(
            rows,
            #[trigger] image_letters(rows)[i],
        ) by {
            let m = image_letters(rows)[i];
            if i < prev.len() {
                assert(m == prev[i]);
                assert(stone_in_rows(init, m));
                let r = choose|r: int| 0 <= r < init.len() && m.2 == r && m.1 < (#[trigger] init[r]).len() && is_ascii_letter(m.0);
                assert(rows[r] == init[r]);
            } else {
                assert(m == last[i - prev.len()]);
                assert(rows[rows.len() - 1] == rows.last());
            }
        }
    }
}

proof fn lemma_sorted_below_from(ms: Seq<Stone>, k: nat)
    ensures
        forall|i: int| 0 <= i < sorted_below(ms, k).len() ==> ms.contains(#[trigger] sorted_below(ms, k)[i]),
    decreases k,
{
    if k > 0 {
        lemma_sorted_below_from(ms, (k - 1) as nat);
        let prev = sorted_below(ms, (k - 1) as nat);
        let b = rank_bucket(ms, k - 1);
        assert forall|i: int| 0 <= i < sorted_below(ms, k).len() implies ms.contains(
            #[trigger] sorted_below(ms, k)[i],
        ) by {
            if i < prev.len() {
                assert(sorted_below(ms, k)[i] == prev[i]);
            } else {
                let m = b[i - prev.len()];
                assert(sorted_below(ms, k)[i] == m);
                assert(b.contains(m));
                ms.lemma_filter_contains_rev(|m: Stone| letter_rank(m.0) == k - 1, m);
            }
        }
    }
}

/// Every move of a field image lies on the field: its column is below the width and
/// its row below the height. (This needs each row, and the number of rows, to fit
/// in a `u32`, which the sizes are truncated to.)
pub proof fn law_moves_lie_on_the_field(image: Seq<char>)
    requires
        is_field_image_spec(image),
        image_rows(image).len() <= u32::MAX,
        forall|r: int| 0 <= r < image_rows(image).len() ==> byte_len(#[trigger] image_rows(image)[r]) <= u32::MAX,
    ensures
        forall|i: int|
            0 <= i < image_moves(image).len() ==> {
                let m = #[trigger] image_moves(image)[i];
                &&& m.x < byte_len(image_rows(image)[0]) as u32
                &&& m.y < image_rows(image).len() as u32
            },
{
    let rows = image_rows(image);
    assert forall|r: int| 0 <= r < rows.len() implies (#[trigger] rows[r]).len() <= u32::MAX by {
        lemma_byte_len_at_least_len(rows[r]);
    }
    lemma_image_letters_in_rows(rows);
    let ms = image_letters(rows);
    lemma_sorted_below_from(ms, 52);
    let sorted = sorted_stones(ms);
    assert forall|i: int| 0 <= i < image_moves(image).len() implies {
        let m = #[trigger] image_moves(image)[i];
        &&& m.x < byte_len(image_rows(image)[0]) as u32
        &&& m.y < image_rows(image).len() as u32
    } by {
        let st = sorted[i];
        assert(image_moves(image)[i] == stone_move(st));
        assert(ms.contains(st));
        let j = choose|j: int| 0 <= j < ms.len() && ms[j] == st;
        assert(stone_in_rows(rows, ms[j]));
        let r = choose|r: int| 0 <= r < rows.len() && st.2 == r && st.1 < (#[trigger] rows[r]).len() && is_ascii_letter(st.0);
        lemma_byte_len_at_least_len(rows[r]);
        assert((byte_len(rows[r]) as u32) == (byte_len(rows[0]) as u32));
    }
}

proof fn lemma_image_letters_are_letters(rows: Seq<Seq<char>>)
    ensures
        forall|i: int| 0 <= i < image_letters(rows).len() ==> is_ascii_letter(#[trigger] image_letters(rows)[i].0),
    decreases rows.len(),
{
    if rows.len() > 0 {
        lemma_image_letters_are_letters(rows.drop_last());
        lemma_row_letters_are_letters(rows.last(), (rows.len() - 1) as u32);
        let prev = image_letters(rows.drop_last());
        let last = row_letters(rows.last(), (rows.len() - 1) as u32);
        assert forall|i: int| 0 <= i < image_letters(rows).len() implies is_ascii_letter(
            #[trigger] image_letters(rows)[i].0,
        ) by {
            if i < prev.len() {
                assert(image_letters(rows)[i] == prev[i]);
            } else {
                assert(image_letters(rows)[i] == last[i - prev.len()]);
            }
        }
    }
}

proof fn lemma_row_letters_are_letters(row: Seq<char>, y: u32)
    ensures
        forall|i: int| 0 <= i < row_letters(row, y).len() ==> is_ascii_letter(#[trigger] row_letters(row, y)[i].0),
    decreases row.len(),
{
    if row.len() > 0 {
        lemma_row_letters_are_letters(row.drop_last(), y);
        let prev = row_letters(row.drop_last(), y);
        assert forall|i: int| 0 <= i < row_letters(row, y).len() implies is_ascii_letter(
            #[trigger] row_letters(row, y)[i].0,
        ) by {
            if i < prev.len() {
                assert(row_letters(row, y)[i] == prev[i]);
            }
        }
    }
}

proof fn lemma_sorted_below_empty(k: nat)
    ensures
        sorted_below(Seq::<Stone>::empty(), k) == Seq::<Stone>::empty(),
    decreases k,
{
    if k > 0 {
        lemma_sorted_below_empty((k - 1) as nat);
        reveal(Seq::filter);
        assert(rank_bucket(Seq::<Stone>::empty(), k - 1) =~= Seq::<Stone>::empty());
        assert(sorted_below(Seq::<Stone>::empty(), k) =~= Seq::<Stone>::empty());
    }
}

proof fn lemma_sorted_below_push(ms: Seq<Stone>, m: Stone, k: nat)
    requires
        letter_rank(m.0) >= 0,
    ensures
        sorted_below(ms.push(m), k).to_multiset() == if letter_rank(m.0) < k {
            sorted_below(ms, k).to_multiset().insert(m)
        } else {
            sorted_below(ms, k).to_multiset()
        },
    decreases k,
{
    broadcast use vstd::seq_lib::lemma_multiset_commutative;

    if k > 0 {
        lemma_sorted_below_push(ms, m, (k - 1) as nat);
        lemma_rank_bucket_push(ms, m, k - 1);
        let a = sorted_below(ms, (k - 1) as nat);
        let b = rank_bucket(ms, k - 1);
        let a2 = sorted_below(ms.push(m), (k - 1) as nat);
        let b2 = rank_bucket(ms.push(m), k - 1);
        assert((a2 + b2).to_multiset() =~= a2.to_multiset().add(b2.to_multiset()));
        assert((a + b).to_multiset() =~= a.to_multiset().add(b.to_multiset()));
        if letter_rank(m.0) == k - 1 {
            assert(b2.to_multiset() =~= b.to_multiset().insert(m));
        }
    } else {
        assert(sorted_below(ms.push(m), k) =~= Seq::<Stone>::empty());
    }
}

proof fn lemma_sorted_is_permutation(ms: Seq<Stone>)
    requires
        forall|i: int| 0 <= i < ms.len() ==> is_ascii_letter(#[trigger] ms[i].0),
    ensures
        sorted_stones(ms).to_multiset() == ms.to_multiset(),
    decreases ms.len(),
{
    broadcast use vstd::seq_lib::lemma_multiset_commutative;

    if ms.len() == 0 {
        lemma_sorted_below_empty(52);
        assert(ms =~= Seq::<Stone>::empty());
    } else {
        let init = ms.drop_last();
        let m = ms.last();
        assert(init.push(m) =~= ms);
        assert(is_ascii_letter(ms[ms.len() - 1].0));
        lemma_sorted_is_permutation(init);
        lemma_sorted_below_push(init, m, 52);
        assert(ms.to_multiset() =~= init.to_multiset().insert(m));
    }
}

/// The moves of a field image are its letters, each exactly once: the stones put
/// on the field are those read from the image, rearranged.
pub proof fn law_moves_are_the_letters(image: Seq<char>)
    ensures
        sorted_stones(image_letters(image_rows(image))).to_multiset() == image_letters(
            image_rows(image),
        ).to_multiset(),
        image_moves(image) == sorted_stones(image_letters(image_rows(image))).map_values(
            |m: Stone| stone_move(m),
        ),
{
    lemma_image_letters_are_letters(image_rows(image));
    lemma_sorted_is_permutation(image_letters(image_rows(image)));
}

/// Stone `a` comes before stone `b` when reading the image: an earlier row, or the
/// same row and an earlier column.
pub open spec fn read_before(a: Stone, b: Stone) -> bool {
    a.2 < b.2 || (a.2 == b.2 && a.1 < b.1)
}

/// The stones are in reading order, each strictly before the next.
pub open spec fn in_reading_order(ms: Seq<Stone>) -> bool {
    forall|i: int, j: int| 0 <= i < j < ms.len() ==> read_before(#[trigger] ms[i], #[trigger] ms[j])
}

proof fn lemma_row_letters_ordered(row: Seq<char>, y: u32)
    requires
        row.len() <= u32::MAX,
    ensures
        in_reading_order(row_letters(row, y)),
    decreases row.len(),
{
    if row.len() > 0 {
        lemma_row_letters_ordered(row.drop_last(), y);
        lemma_row_letters_in_row(row.drop_last(), y);
        let prev = row_letters(row.drop_last(), y);
        let all = row_letters(row, y);
        assert forall|i: int, j: int| 0 <= i < j < all.len() implies read_before(
            #[trigger] all[i],
            #[trigger] all[j],
        ) by {
            assert(all[i] == prev[i]);
            if j < prev.len() {
                assert(all[j] == prev[j]);
            }
        }
    }
}

proof fn lemma_image_letters_ordered(rows: Seq<Seq<char>>)
    requires
        rows.len() <= u32::MAX,
        forall|r: int| 0 <= r < rows.len() ==> (#[trigger] rows[r]).len() <= u32::MAX,
    ensures
        in_reading_order(image_letters(rows)),
    decreases rows.len(),
{
    if rows.len() > 0 {
        let init = rows.drop_last();
        lemma_image_letters_ordered(init);
        lemma_image_letters_in_rows(init);
        let y = (rows.len() - 1) as u32;
        assert(rows[rows.len() - 1] == rows.last());
        lemma_row_letters_ordered(rows.last(), y);
        lemma_row_letters_in_row(rows.last(), y);
        let prev = image_letters(init);
        let last = row_letters(rows.last(), y);
        let all = image_letters(rows);
        assert forall|i: int, j: int| 0 <= i < j < all.len() implies read_before(
            #[trigger] all[i],
            #[trigger] all[j],
        ) by {
            if j < prev.len() {
                assert(all[i] == prev[i] && all[j] == prev[j]);
            } else if i >= prev.len() {
                assert(all[i] == last[i - prev.len()] && all[j] == last[j - prev.len()]);
            } else {
                assert(all[i] == prev[i] && all[j] == last[j - prev.len()]);
                assert(stone_in_rows(init, prev[i]));
            }
        }
    }
}

proof fn lemma_filter_keeps_reading_order(ms: Seq<Stone>, k: int)
    requires
        in_reading_order(ms),
    ensures
        in_reading_order(rank_bucket(ms, k)),
    decreases ms.len(),
{
    if ms.len() > 0 {
        let init = ms.drop_last();
        assert forall|i: int, j: int| 0 <= i < j < init.len() implies read_before(
            #[trigger] init[i],
            #[trigger] init[j],
        ) by {
            assert(init[i] == ms[i] && init[j] == ms[j]);
        }
        lemma_filter_keeps_reading_order(init, k);
        assert(init.push(ms.last()) =~= ms);
        lemma_rank_bucket_push(init, ms.last(), k);
        let b = rank_bucket(init, k);
        let all = rank_bucket(ms, k);
        assert forall|i: int, j: int| 0 <= i < j < all.len() implies read_before(
            #[trigger] all[i],
            #[trigger] all[j],
        ) by {
            if j < b.len() {
                assert(all[i] == b[i] && all[j] == b[j]);
            } else {
                assert(all[i] == b[i]);
                assert(b.contains(b[i]));
                init.lemma_filter_contains_rev(|m: Stone| letter_rank(m.0) == k, b[i]);
                let p = choose|p: int| 0 <= p < init.len() && init[p] == b[i];
                assert(ms[p] == init[p]);
                assert(read_before(ms[p], ms[ms.len() - 1]));
            }
        }
    }
}

proof fn lemma_bucket_ranks(ms: Seq<Stone>, k: int)
    ensures
        forall|i: int| 0 <= i < rank_bucket(ms, k).len() ==> letter_rank((#[trigger] rank_bucket(ms, k)[i]).0) == k,
{
    assert forall|i: int| 0 <= i < rank_bucket(ms, k).len() implies letter_rank(
        (#[trigger] rank_bucket(ms, k)[i]).0,
    ) == k by {
        ms.lemma_filter_pred(|m: Stone| letter_rank(m.0) == k, i);
    }
}

/// Stones `a` then `b` are in the order of moves: a lower letter rank, or the same
/// rank and earlier in reading order.
pub open spec fn move_order(a: Stone, b: Stone) -> bool {
    letter_rank(a.0) < letter_rank(b.0) || (letter_rank(a.0) == letter_rank(b.0) && read_before(a, b))
}

/// Letter `a` comes before letter `b` in the order of moves: an earlier letter of
/// the alphabet regardless of case, or the same letter with `a` upper case and `b`
/// lower case.
pub open spec fn letter_before(a: char, b: char) -> bool {
    ascii_lower_code(a) < ascii_lower_code(b) || (ascii_lower_code(a) == ascii_lower_code(b)
        && is_ascii_upper(a) && !is_ascii_upper(b))
}

proof fn lemma_letter_rank_order(a: char, b: char)
    requires
        letter_rank(a) < 52,
        letter_rank(b) < 52,
    ensures
        is_ascii_letter(a),
        is_ascii_letter(b),
        letter_rank(a) < letter_rank(b) <==> letter_before(a, b),
        letter_rank(a) == letter_rank(b) <==> a == b,
{
    if letter_rank(a) == letter_rank(b) {
        assert((a as u32) == (b as u32));
    }
}

proof fn lemma_sorted_below_ranks(ms: Seq<Stone>, k: nat)
    ensures
        forall|i: int, j: int|
            0 <= i < j < sorted_below(ms, k).len() ==> letter_rank((#[trigger] sorted_below(ms, k)[i]).0)
                <= letter_rank((#[trigger] sorted_below(ms, k)[j]).0),
        forall|i: int| 0 <= i < sorted_below(ms, k).len() ==> letter_rank((#[trigger] sorted_below(ms, k)[i]).0) < k,
    decreases k,
{
    if k > 0 {
        lemma_sorted_below_ranks(ms, (k - 1) as nat);
        lemma_bucket_ranks(ms, k - 1);
        let a = sorted_below(ms, (k - 1) as nat);
        let b = rank_bucket(ms, k - 1);
        let all = sorted_below(ms, k);
        assert(all == a + b);
        assert forall|i: int, j: int| 0 <= i < j < all.len() implies letter_rank((#[trigger] all[i]).0)
            <= letter_rank((#[trigger] all[j]).0) by {
            if j < a.len() {
                assert(all[i] == a[i] && all[j] == a[j]);
            } else if i >= a.len() {
                assert(all[i] == b[i - a.len()] && all[j] == b[j - a.len()]);
            } else {
                assert(all[i] == a[i] && all[j] == b[j - a.len()]);
            }
        }
        assert forall|i: int| 0 <= i < all.len() implies letter_rank((#[trigger] all[i]).0) < k by {
            if i < a.len() {
                assert(all[i] == a[i]);
            } else {
                assert(all[i] == b[i - a.len()]);
            }
        }
    }
}

/// Whatever the image, its moves come by letter regardless of case, and for one
/// letter every upper-case (black) point comes before every lower-case (red) one:
/// of two stones in the order of moves, the first has an earlier letter, or the same
/// letter in upper case where the second is lower case, or the very same letter.
/// (The moves are these stones, each as [`stone_move`]: see
/// [`law_moves_are_the_letters`].)
pub proof fn law_moves_upper_case_first(image: Seq<char>)
    ensures
        ({
            let sorted = sorted_stones(image_letters(image_rows(image)));
            &&& forall|i: int| 0 <= i < sorted.len() ==> is_ascii_letter((#[trigger] sorted[i]).0)
            &&& forall|i: int, j: int|
                0 <= i < j < sorted.len() ==> letter_before((#[trigger] sorted[i]).0, (#[trigger] sorted[j]).0)
                    || sorted[i].0 == sorted[j].0
        }),
{
    let sorted = sorted_stones(image_letters(image_rows(image)));
    lemma_sorted_below_ranks(image_letters(image_rows(image)), 52);
    assert forall|i: int| 0 <= i < sorted.len() implies is_ascii_letter((#[trigger] sorted[i]).0) by {
        lemma_letter_rank_order(sorted[i].0, sorted[i].0);
    }
    assert forall|i: int, j: int| 0 <= i < j < sorted.len() implies letter_before(
        (#[trigger] sorted[i]).0,
        (#[trigger] sorted[j]).0,
    ) || sorted[i].0 == sorted[j].0 by {
        lemma_letter_rank_order(sorted[i].0, sorted[j].0);
    }
}

proof fn lemma_sorted_below_ordered(ms: Seq<Stone>, k: nat)
    requires
        in_reading_order(ms),
    ensures
        forall|i: int, j: int|
            0 <= i < j < sorted_below(ms, k).len() ==> move_order(
                #[trigger] sorted_below(ms, k)[i],
                #[trigger] sorted_below(ms, k)[j],
            ),
        forall|i: int| 0 <= i < sorted_below(ms, k).len() ==> letter_rank((#[trigger] sorted_below(ms, k)[i]).0) < k,
    decreases k,
{
    if k > 0 {
        lemma_sorted_below_ordered(ms, (k - 1) as nat);
        lemma_filter_keeps_reading_order(ms, k - 1);
        lemma_bucket_ranks(ms, k - 1);
        let a = sorted_below(ms, (k - 1) as nat);
        let b = rank_bucket(ms, k - 1);
        let all = sorted_below(ms, k);
        assert(all == a + b);
        assert forall|i: int, j: int| 0 <= i < j < all.len() implies move_order(
            #[trigger] all[i],
            #[trigger] all[j],
        ) by {
            if j < a.len() {
                assert(all[i] == a[i] && all[j] == a[j]);
            } else if i >= a.len() {
                assert(all[i] == b[i - a.len()] && all[j] == b[j - a.len()]);
            } else {
                assert(all[i] == a[i] && all[j] == b[j - a.len()]);
            }
        }
        assert forall|i: int| 0 <= i < all.len() implies letter_rank((#[trigger] all[i]).0) < k by {
            if i < a.len() {
                assert(all[i] == a[i]);
            } else {
                assert(all[i] == b[i - a.len()]);
            }
        }
    }
}

/// The moves of a field image come in the order of their letters regardless of case,
/// upper case before lower case for one letter, and in reading order (row by row,
/// left to right) among equal letters. (This needs each row, and the number of rows,
/// to fit in a `u32`, which the coordinates are truncated to.)
pub proof fn law_moves_in_letter_order(image: Seq<char>)
    requires
        image_rows(image).len() <= u32::MAX,
        forall|r: int| 0 <= r < image_rows(image).len() ==> byte_len(#[trigger] image_rows(image)[r]) <= u32::MAX,
    ensures
        ({
            let sorted = sorted_stones(image_letters(image_rows(image)));
            &&& forall|i: int, j: int| 0 <= i < j < sorted.len() ==> move_order(#[trigger] sorted[i], #[trigger] sorted[j])
            &&& forall|i: int, j: int|
                0 <= i < j < sorted.len() ==> letter_before((#[trigger] sorted[i]).0, (#[trigger] sorted[j]).0)
                    || (sorted[i].0 == sorted[j].0 && read_before(sorted[i], sorted[j]))
        }),
{
    let rows = image_rows(image);
    assert forall|r: int| 0 <= r < rows.len() implies (#[trigger] rows[r]).len() <= u32::MAX by {
        lemma_byte_len_at_least_len(rows[r]);
    }
    lemma_image_letters_ordered(rows);
    lemma_sorted_below_ordered(image_letters(rows), 52);
    let sorted = sorted_stones(image_letters(rows));
    assert forall|i: int, j: int| 0 <= i < j < sorted.len() implies letter_before(
        (#[trigger] sorted[i]).0,
        (#[trigger] sorted[j]).0,
    ) || (sorted[i].0 == sorted[j].0 && read_before(sorted[i], sorted[j])) by {
        assert(move_order(sorted[i], sorted[j]));
        lemma_letter_rank_order(sorted[i].0, sorted[j].0);
    }
}

} // verus!
