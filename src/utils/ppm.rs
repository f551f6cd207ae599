use vstd::prelude::*;

use crate::utils::text::{decimal, push_char, push_decimal};

verus! {

/// An 8-bit color: red, green and blue.
pub type Rgb = (u8, u8, u8);

/// The header of an ASCII PPM image of the given size, with 255 as the
/// largest channel value.
pub open spec fn ppm_header(width: nat, height: nat) -> Seq<char> {
    seq!['P', '3', '\n'] + decimal(width) + seq!['\n'] + decimal(height) + seq![
        '\n',
        '2',
        '5',
        '5',
        '\n',
    ]
}

/// The body line of one pixel: `"<r> <g> <b>\n"`.
pub open spec fn pixel_line(p: Rgb) -> Seq<char> {
    decimal(p.0 as nat) + seq![' '] + decimal(p.1 as nat) + seq![' '] + decimal(p.2 as nat)
        + seq!['\n']
}

/// The body lines of the given pixels, in order.
pub open spec fn pixel_lines(pixels: Seq<Rgb>) -> Seq<char>
    decreases pixels.len(),
{
    if pixels.len() == 0 {
        seq![]
    } else {
        pixel_lines(pixels.drop_last()) + pixel_line(pixels.last())
    }
}

/// The pixels of the given rows, row after row.
pub open spec fn row_major(rows: Seq<Seq<Rgb>>) -> Seq<Rgb>
    decreases rows.len(),
{
    if rows.len() == 0 {
        seq![]
    } else {
        row_major(rows.drop_last()) + rows.last()
    }
}

/// What a `PPM` holds: the output name, the size given in the header and the
/// text written so far.
pub struct PpmView {
    pub name: Seq<char>,
    pub width: nat,
    pub height: nat,
    pub text: Seq<char>,
}

/// An ASCII PPM image being written: a header followed by one line per
/// pixel.
pub struct PPM {
    name: String,
    width: u32,
    height: u32,
    buffer: String,
}

impl View for PPM {
    type V = PpmView;

    closed spec fn view(&self) -> PpmView {
        PpmView {
            name: self.name@,
            width: self.width as nat,
            height: self.height as nat,
            text: self.buffer@,
        }
    }
}

impl PPM {
    /// Starts an image of the given size whose text is the header alone.
    pub fn from(name: String, width: u32, height: u32) -> (r: PPM)
        ensures
            r@.name == name@,
            r@.width == width,
            r@.height == height,
            r@.text == ppm_header(width as nat, height as nat),
    {
        let mut buffer = String::new();
        push_char(&mut buffer, 'P');
        push_char(&mut buffer, '3');
        push_char(&mut buffer, '\n');
        push_decimal(&mut buffer, width);
        push_char(&mut buffer, '\n');
        push_decimal(&mut buffer, height);
        push_char(&mut buffer, '\n');
        push_char(&mut buffer, '2');
        push_char(&mut buffer, '5');
        push_char(&mut buffer, '5');
        push_char(&mut buffer, '\n');
        assert(buffer@ =~= ppm_header(width as nat, height as nat));
        PPM { name, width, height, buffer }
    }

    /// Appends the line of one pixel.
    pub fn push(&mut self, r: u8, g: u8, b: u8)
        ensures
            final(self)@ == (PpmView { text: old(self)@.text + pixel_line((r, g, b)), ..old(self)@ }),
    {
        let ghost start = self.buffer@;
        push_decimal(&mut self.buffer, r as u32);
        push_char(&mut self.buffer, ' ');
        push_decimal(&mut self.buffer, g as u32);
        push_char(&mut self.buffer, ' ');
        push_decimal(&mut self.buffer, b as u32);
        push_char(&mut self.buffer, '\n');
        assert(self.buffer@ =~= start + pixel_line((r, g, b)));
    }

    /// Appends the lines of the given rows, row after row.
    pub fn push_rows(&mut self, rows: &Vec<Vec<Rgb>>)
        ensures
            final(self)@ == (PpmView {
                text: old(self)@.text + pixel_lines(row_major(rows@.map_values(|row: Vec<Rgb>| row@))),
                ..old(self)@
            }),
    {
        let ghost rows_view = rows@.map_values(|row: Vec<Rgb>| row@);
        let mut j: usize = 0;
        while j < rows.len()
            invariant
                j <= rows.len(),
                rows_view == rows@.map_values(|row: Vec<Rgb>| row@),
                self@ == (PpmView {
                    text: old(self)@.text + pixel_lines(row_major(rows_view.take(j as int))),
                    ..old(self)@
                }),
            decreases rows.len() - j,
        {
            let row = &rows[j];
            let mut i: usize = 0;
            while i < row.len()
                invariant
                    j < rows.len(),
                    row == rows@[j as int],
                    i <= row.len(),
                    rows_view == rows@.map_values(|row: Vec<Rgb>| row@),
                    self@ == (PpmView {
                        text: old(self)@.text + pixel_lines(
                            row_major(rows_view.take(j as int)) + row@.take(i as int),
                        ),
                        ..old(self)@
                    }),
                decreases row.len() - i,
            {
                let p = row[i];
                self.push(p.0, p.1, p.2);
                proof {
                    let before = row_major(rows_view.take(j as int)) + row@.take(i as int);
                    let after = row_major(rows_view.take(j as int)) + row@.take(i + 1);
                    assert(after.drop_last() =~= before);
                    assert(after.last() == p);
                    assert(pixel_lines(after) == pixel_lines(before) + pixel_line(p));
                    assert(old(self)@.text + pixel_lines(after) =~= old(self)@.text
                        + pixel_lines(before) + pixel_line(p));
                }
                i = i + 1;
            }
            proof {
                assert(rows_view.take(j + 1).drop_last() =~= rows_view.take(j as int));
                assert(row@.take(i as int) =~= row@);
            }
            j = j + 1;
        }
        assert(rows_view.take(j as int) =~= rows_view);
    }

    /// The name that the image is to be written under.
    pub fn name(&self) -> (r: &String)
        ensures
            r@ == self@.name,
    {
        &self.name
    }

    /// The width given in the header.
    pub fn width(&self) -> (r: u32)
        ensures
            r == self@.width,
    {
        self.width
    }

    /// The height given in the header.
    pub fn height(&self) -> (r: u32)
        ensures
            r == self@.height,
    {
        self.height
    }

    /// The text written so far.
    pub fn contents(&self) -> (r: &String)
        ensures
            r@ == self@.text,
    {
        &self.buffer
    }
}

} // verus!
