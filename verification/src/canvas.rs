use vstd::prelude::*;
use vstd::string::StringExecFns;
use crate::color::Color;
use crate::constants::MAX_COLOR_VALUE;
use crate::scalar::{Scalar, ONE_RAW};

verus! {

/// A grid of colors, `width` across and `height` down, held row by row.
pub struct Canvas {
    pub width: usize,
    pub height: usize,
    pub color_grid: Vec<Vec<Color>>,
}

/// The most characters that a line of pixel data may hold before the next
/// pixel starts a new line.
pub const WRAP_AFTER: usize = 58;

/// The character of one decimal digit.
pub open spec fn digit_char(d: int) -> char {
    if d == 0 {
        '0'
    } else if d == 1 {
        '1'
    } else if d == 2 {
        '2'
    } else if d == 3 {
        '3'
    } else if d == 4 {
        '4'
    } else if d == 5 {
        '5'
    } else if d == 6 {
        '6'
    } else if d == 7 {
        '7'
    } else if d == 8 {
        '8'
    } else {
        '9'
    }
}

/// A number in decimal, without leading zeros.
pub open spec fn decimal(n: nat) -> Seq<char>
    decreases n,
{
    if n < 10 {
        seq![digit_char(n as int)]
    } else {
        decimal(n / 10).push(digit_char((n % 10) as int))
    }
}

/// One part of a color as it is written: 0 below zero, 255 above one, and
/// between them 255 times the part, rounded to the nearest integer with a
/// half rounded up.
pub open spec fn spec_clamp_and_scale_color_value(c: Scalar) -> u8 {
    if c.raw < 0 {
        0u8
    } else if c.raw > ONE_RAW {
        MAX_COLOR_VALUE
    } else {
        ((c.raw * 255 + ONE_RAW / 2) / (ONE_RAW as int)) as u8
    }
}

#[verifier::when_used_as_spec(spec_clamp_and_scale_color_value)]
pub fn clamp_and_scale_color_value(c: Scalar) -> (r: u8)
    ensures
        r == spec_clamp_and_scale_color_value(c),
{
    if c.raw < 0 {
        0
    } else if c.raw > ONE_RAW {
        MAX_COLOR_VALUE
    } else {
        let scaled: i64 = (c.raw * 255 + 0x8000_0000i64) / 0x1_0000_0000i64;
        scaled as u8
    }
}

/// A pixel as it is written: its three parts in decimal, a space between
/// each two.
pub open spec fn pixel_text(c: Color) -> Seq<char> {
    decimal(clamp_and_scale_color_value(c.0) as nat) + seq![' '] + decimal(
        clamp_and_scale_color_value(c.1) as nat,
    ) + seq![' '] + decimal(clamp_and_scale_color_value(c.2) as nat)
}

/// How many characters stand on the current line, each pixel counted with
/// the separator behind it, when the first `i` pixels of a row are written.
pub open spec fn row_column(row: Seq<Color>, i: int) -> int
    decreases i,
{
    if i <= 0 {
        0
    } else {
        let n = row_column(row, i - 1) + pixel_text(row[i - 1]).len() + 1;
        if i < row.len() && n > WRAP_AFTER {
            0
        } else {
            n
        }
    }
}

/// The separator behind pixel `i` of a row: a line break behind the last
/// pixel and where the line has grown past the limit, else a space.
pub open spec fn separator(row: Seq<Color>, i: int) -> char {
    if i + 1 >= row.len() || row_column(row, i) + pixel_text(row[i]).len() + 1 > WRAP_AFTER {
        '\n'
    } else {
        ' '
    }
}

/// The first `i` pixels of a row as they are written, each with its
/// separator.
pub open spec fn row_prefix(row: Seq<Color>, i: int) -> Seq<char>
    decreases i,
{
    if i <= 0 {
        Seq::empty()
    } else {
        row_prefix(row, i - 1) + pixel_text(row[i - 1]) + seq![separator(row, i - 1)]
    }
}

/// A row as it is written; a row without pixels is an empty line.
pub open spec fn row_text(row: Seq<Color>) -> Seq<char> {
    if row.len() == 0 {
        seq!['\n']
    } else {
        row_prefix(row, row.len() as int)
    }
}

fn digit_str(d: usize) -> (s: &'static str)
    requires
        d < 10,
    ensures
        s@ == seq![digit_char(d as int)],
{
    proof {
        reveal_strlit("0");
        reveal_strlit("1");
        reveal_strlit("2");
        reveal_strlit("3");
        reveal_strlit("4");
        reveal_strlit("5");
        reveal_strlit("6");
        reveal_strlit("7");
        reveal_strlit("8");
        reveal_strlit("9");
    }
    let s = if d == 0 {
        "0"
    } else if d == 1 {
        "1"
    } else if d == 2 {
        "2"
    } else if d == 3 {
        "3"
    } else if d == 4 {
        "4"
    } else if d == 5 {
        "5"
    } else if d == 6 {
        "6"
    } else if d == 7 {
        "7"
    } else if d == 8 {
        "8"
    } else {
        "9"
    };
    assert(s@ =~= seq![digit_char(d as int)]);
    s
}

/// Ten to the power of `k`.
pub open spec fn ten_to(k: nat) -> nat
    decreases k,
{
    if k == 0 {
        1
    } else {
        10 * ten_to((k - 1) as nat)
    }
}

/// A number under `10^k` has at most `k` decimal digits.
proof fn lemma_decimal_len_bound(n: nat, k: nat)
    requires
        k >= 1,
        n < ten_to(k),
    ensures
        1 <= decimal(n).len() <= k,
    decreases n,
{
    reveal_with_fuel(ten_to, 2);
    if n >= 10 {
        lemma_decimal_len_bound(n / 10, (k - 1) as nat);
    }
}

/// A number that fits a machine word has at most twenty decimal digits,
/// and one under a thousand at most three.
proof fn lemma_decimal_len(n: nat)
    requires
        n <= usize::MAX,
    ensures
        1 <= decimal(n).len() <= 20,
        n < 1000 ==> decimal(n).len() <= 3,
{
    assert(ten_to(3) == 1000) by {
        reveal_with_fuel(ten_to, 4);
    }
    assert(ten_to(20) == 100000000000000000000) by {
        reveal_with_fuel(ten_to, 21);
    }
    lemma_decimal_len_bound(n, 20);
    if n < 1000 {
        lemma_decimal_len_bound(n, 3);
    }
}

/// Appends `n` in decimal and returns how many characters that took.
fn push_decimal(out: &mut String, n: usize) -> (len: usize)
    ensures
        final(out)@ == old(out)@ + decimal(n as nat),
        len == decimal(n as nat).len(),
        1 <= len <= 20,
    decreases n,
{
    proof {
        lemma_decimal_len(n as nat);
    }
    if n < 10 {
        out.append(digit_str(n));
        proof {
            assert(final(out)@ =~= old(out)@ + decimal(n as nat));
        }
        1
    } else {
        let before: usize = push_decimal(out, n / 10);
        out.append(digit_str(n % 10));
        proof {
            assert(out@ =~= old(out)@ + decimal(n as nat));
        }
        before + 1
    }
}

/// Appends a pixel as it is written and returns how many characters that
/// took.
fn push_pixel(out: &mut String, c: Color) -> (len: usize)
    ensures
        final(out)@ == old(out)@ + pixel_text(c),
        len == pixel_text(c).len(),
        5 <= len <= 11,
{
    proof {
        reveal_strlit(" ");
        lemma_decimal_len(clamp_and_scale_color_value(c.0) as nat);
        lemma_decimal_len(clamp_and_scale_color_value(c.1) as nat);
        lemma_decimal_len(clamp_and_scale_color_value(c.2) as nat);
    }
    let red: usize = push_decimal(out, clamp_and_scale_color_value(c.0) as usize);
    out.append(" ");
    let green: usize = push_decimal(out, clamp_and_scale_color_value(c.1) as usize);
    out.append(" ");
    let blue: usize = push_decimal(out, clamp_and_scale_color_value(c.2) as usize);
    proof {
        assert(out@ =~= old(out)@ + pixel_text(c));
    }
    red + green + blue + 2
}

/// The most characters that a line of pixel data holds, its line break not
/// counted.
pub const LONGEST_LINE: usize = 69;

/// How many characters stand behind the last line break of a text.
pub open spec fn last_line_len(text: Seq<char>) -> nat
    decreases text.len(),
{
    if text.len() == 0 {
        0
    } else if text.last() == '\n' {
        0
    } else {
        last_line_len(text.drop_last()) + 1
    }
}

/// How many characters the longest line of a text holds, line breaks not
/// counted.
pub open spec fn longest_line(text: Seq<char>) -> nat
    decreases text.len(),
{
    if text.len() == 0 {
        0
    } else {
        let before = longest_line(text.drop_last());
        let now = last_line_len(text);
        if before >= now {
            before
        } else {
            now
        }
    }
}

/// Whether a text holds no line break.
pub open spec fn is_plain(text: Seq<char>) -> bool {
    forall|k: int| 0 <= k < text.len() ==> text[k] != '\n'
}

/// A text without line breaks, put behind another, makes its last line
/// longer by its own length and no other line longer.
proof fn lemma_append_plain(a: Seq<char>, b: Seq<char>)
    requires
        is_plain(b),
    ensures
        last_line_len(a + b) == last_line_len(a) + b.len(),
        longest_line(a + b) == (if longest_line(a) >= last_line_len(a) + b.len() {
            longest_line(a)
        } else {
            last_line_len(a) + b.len()
        }),
    decreases b.len(),
{
    lemma_last_line_is_a_line(a);
    if b.len() == 0 {
        assert(a + b =~= a);
    } else {
        let shorter = b.drop_last();
        assert(is_plain(shorter));
        lemma_append_plain(a, shorter);
        assert((a + b).drop_last() =~= a + shorter);
        assert((a + b).last() == b.last());
    }
}

/// The last line of a text is no longer than its longest line.
proof fn lemma_last_line_is_a_line(a: Seq<char>)
    ensures
        last_line_len(a) <= longest_line(a),
{
}

/// A line break behind a text starts an empty last line and makes no line
/// longer.
proof fn lemma_append_break(a: Seq<char>)
    ensures
        last_line_len(a.push('\n')) == 0,
        longest_line(a.push('\n')) == longest_line(a),
{
    assert(a.push('\n').drop_last() =~= a);
    assert(a.push('\n').last() == '\n');
}

/// A number in decimal holds no line break.
proof fn lemma_decimal_is_plain(n: nat)
    ensures
        is_plain(decimal(n)),
    decreases n,
{
    if n >= 10 {
        lemma_decimal_is_plain(n / 10);
    }
}

/// A pixel as it is written holds no line break and at most eleven
/// characters.
proof fn lemma_pixel_text(c: Color)
    ensures
        is_plain(pixel_text(c)),
        5 <= pixel_text(c).len() <= 11,
{
    let red = clamp_and_scale_color_value(c.0) as nat;
    let green = clamp_and_scale_color_value(c.1) as nat;
    let blue = clamp_and_scale_color_value(c.2) as nat;
    lemma_decimal_is_plain(red);
    lemma_decimal_is_plain(green);
    lemma_decimal_is_plain(blue);
    lemma_decimal_len(red);
    lemma_decimal_len(green);
    lemma_decimal_len(blue);
}

/// Behind a text that ends a line, the first `i` pixels of a row make no
/// line longer than the limit. Within the row the last line holds as many
/// characters as `row_column` counts, at most the wrap limit; at the end of
/// the row it is empty.
proof fn lemma_row_lines(before: Seq<char>, row: Seq<Color>, i: int)
    requires
        last_line_len(before) == 0,
        longest_line(before) <= LONGEST_LINE,
        0 <= i <= row.len(),
        row.len() > 0,
    ensures
        longest_line(before + row_prefix(row, i)) <= LONGEST_LINE,
        0 <= row_column(row, i),
        i < row.len() ==> row_column(row, i) <= WRAP_AFTER && last_line_len(
            before + row_prefix(row, i),
        ) == row_column(row, i),
        i == row.len() ==> last_line_len(before + row_prefix(row, i)) == 0,
    decreases i,
{
    if i == 0 {
        assert(before + row_prefix(row, 0) =~= before);
    } else {
        lemma_row_lines(before, row, i - 1);
        let so_far = before + row_prefix(row, i - 1);
        let token = pixel_text(row[i - 1]);
        lemma_pixel_text(row[i - 1]);
        lemma_append_plain(so_far, token);
        let with_token = so_far + token;
        let sep = separator(row, i - 1);
        assert(before + row_prefix(row, i) =~= with_token.push(sep));
        if sep == '\n' {
            lemma_append_break(with_token);
        } else {
            assert(sep == ' ');
            assert(is_plain(seq![' ']));
            lemma_append_plain(with_token, seq![' ']);
            assert(with_token + seq![' '] =~= with_token.push(' '));
        }
    }
}

impl Canvas {
    /// The grid has `height` rows of `width` pixels each.
    pub open spec fn well_formed(&self) -> bool {
        &&& self.color_grid.len() == self.height
        &&& forall|y: int|
            0 <= y < self.height ==> (#[trigger] self.color_grid[y]).len() == self.width
    }

    /// The color at column `x` of row `y`.
    pub open spec fn spec_pixel_at(&self, x: int, y: int) -> Color {
        self.color_grid[y][x]
    }

    /// The rows of the canvas, each as a sequence of colors.
    pub open spec fn spec_rows(&self) -> Seq<Seq<Color>> {
        Seq::new(self.color_grid.len() as nat, |y: int| self.color_grid[y]@)
    }

    /// A canvas of the given size, black all over.
    pub fn new(width: usize, height: usize) -> (c: Canvas)
        ensures
            c.well_formed(),
            c.width == width,
            c.height == height,
            forall|x: int, y: int|
                0 <= x < width && 0 <= y < height ==> c.spec_pixel_at(x, y) == Color::black(),
    {
        Canvas::with_filled_color(width, height, Color::black())
    }

    /// A canvas of the given size, of one color all over.
    pub fn with_filled_color(width: usize, height: usize, color: Color) -> (c: Canvas)
        ensures
            c.well_formed(),
            c.width == width,
            c.height == height,
            forall|x: int, y: int|
                0 <= x < width && 0 <= y < height ==> c.spec_pixel_at(x, y) == color,
    {
        let mut color_grid: Vec<Vec<Color>> = Vec::new();
        let mut y: usize = 0;
        while y < height
            invariant
                y <= height,
                color_grid.len() == y,
                forall|j: int| 0 <= j < y ==> (#[trigger] color_grid[j]).len() == width,
                forall|i: int, j: int|
                    0 <= i < width && 0 <= j < y ==> #[trigger] color_grid[j][i] == color,
            decreases height - y,
        {
            let mut row: Vec<Color> = Vec::new();
            let mut x: usize = 0;
            while x < width
                invariant
                    x <= width,
                    row.len() == x,
                    forall|i: int| 0 <= i < x ==> row[i] == color,
                decreases width - x,
            {
                row.push(color);
                x += 1;
            }
            color_grid.push(row);
            y += 1;
        }
        Canvas { width, height, color_grid }
    }

    /// Sets the pixel at column `x` of row `y` and leaves the others.
    pub fn write_pixel(&mut self, x: usize, y: usize, color: Color)
        requires
            old(self).well_formed(),
            x < old(self).width,
            y < old(self).height,
        ensures
            final(self).well_formed(),
            final(self).width == old(self).width,
            final(self).height == old(self).height,
            forall|i: int, j: int|
                0 <= i < old(self).width && 0 <= j < old(self).height ==> final(self).spec_pixel_at(
                    i,
                    j,
                ) == (if i == x && j == y {
                    color
                } else {
                    old(self).spec_pixel_at(i, j)
                }),
    {
        self.color_grid[y][x] = color;
    }

    /// The color at column `x` of row `y`.
    pub fn pixel_at(&self, x: usize, y: usize) -> (c: Color)
        requires
            self.well_formed(),
            x < self.width,
            y < self.height,
        ensures
            c == self.spec_pixel_at(x as int, y as int),
    {
        self.color_grid[y][x]
    }

    /// The first lines of the image file: the format, the size, and the
    /// largest value of a color's part.
    pub open spec fn spec_ppm_header(&self) -> Seq<char> {
        "P3\n"@ + decimal(self.width as nat) + " "@ + decimal(self.height as nat) + "\n255"@
    }

    /// The first lines of the image file.
    pub fn construct_ppm_header(&self) -> (s: String)
        ensures
            s@ == self.spec_ppm_header(),
    {
        let mut out = String::from_str("P3\n");
        push_decimal(&mut out, self.width);
        out.append(" ");
        push_decimal(&mut out, self.height);
        out.append("\n255");
        proof {
            assert(out@ =~= self.spec_ppm_header());
        }
        out
    }

    /// The first `y` rows as they are written.
    pub open spec fn spec_ppm_body_prefix(&self, y: int) -> Seq<char>
        decreases y,
    {
        if y <= 0 {
            Seq::empty()
        } else {
            self.spec_ppm_body_prefix(y - 1) + row_text(self.color_grid[y - 1]@)
        }
    }

    /// The pixel data of the image file: row after row, each pixel as three
    /// numbers, and a line break where a line would grow too long.
    pub open spec fn spec_ppm_body(&self) -> Seq<char> {
        self.spec_ppm_body_prefix(self.color_grid.len() as int)
    }

    /// No line of the pixel data holds more than 69 characters before its
    /// line break, and the data ends with a line break or is empty.
    pub proof fn lemma_ppm_body_lines(&self, y: int)
        requires
            0 <= y <= self.color_grid.len(),
        ensures
            longest_line(self.spec_ppm_body_prefix(y)) <= LONGEST_LINE,
            last_line_len(self.spec_ppm_body_prefix(y)) == 0,
        decreases y,
    {
        if y > 0 {
            self.lemma_ppm_body_lines(y - 1);
            let before = self.spec_ppm_body_prefix(y - 1);
            let row = self.color_grid[y - 1]@;
            if row.len() == 0 {
                lemma_append_break(before);
                assert(before + row_text(row) =~= before.push('\n'));
            } else {
                lemma_row_lines(before, row, row.len() as int);
            }
        }
    }

    /// The pixel data of the image file, no line of it longer than 69
    /// characters.
    pub fn construct_ppm_body(&self) -> (s: String)
        ensures
            s@ == self.spec_ppm_body(),
            longest_line(s@) <= LONGEST_LINE,
    {
        proof {
            self.lemma_ppm_body_lines(self.color_grid.len() as int);
        }
        let mut out = String::new();
        let mut y: usize = 0;
        while y < self.color_grid.len()
            invariant
                y <= self.color_grid.len(),
                out@ == self.spec_ppm_body_prefix(y as int),
            decreases self.color_grid.len() - y,
        {
            let row = &self.color_grid[y];
            let ghost before = out@;
            if row.len() == 0 {
                proof {
                    reveal_strlit("\n");
                }
                out.append("\n");
                proof {
                    assert(out@ =~= before + row_text(row@));
                }
            } else {
                let mut x: usize = 0;
                let mut column: usize = 0;
                while x < row.len()
                    invariant
                        x <= row.len(),
                        row.len() > 0,
                        column == row_column(row@, x as int),
                        column <= 70,
                        out@ == before + row_prefix(row@, x as int),
                    decreases row.len() - x,
                {
                    let ghost so_far = out@;
                    let len: usize = push_pixel(&mut out, row[x]);
                    let n: usize = column + len + 1;
                    proof {
                        reveal_strlit("\n");
                        reveal_strlit(" ");
                    }
                    if x + 1 >= row.len() || n > WRAP_AFTER {
                        out.append("\n");
                    } else {
                        out.append(" ");
                    }
                    if x + 1 < row.len() && n > WRAP_AFTER {
                        column = 0;
                    } else {
                        column = n;
                    }
                    x += 1;
                    proof {
                        assert(out@ =~= before + row_prefix(row@, x as int));
                    }
                }
            }
            y += 1;
        }
        out
    }

    /// The whole image file: the header, a line break, and the pixel data.
    pub open spec fn spec_ppm(&self) -> Seq<char> {
        self.spec_ppm_header() + "\n"@ + self.spec_ppm_body()
    }

    /// The whole image file as text.
    pub fn construct_ppm(self) -> (s: String)
        ensures
            s@ == self.spec_ppm(),
    {
        let mut out = self.construct_ppm_header();
        out.append("\n");
        let body = self.construct_ppm_body();
        out.append(body.as_str());
        out
    }
}

} // verus!
