//! One character cell: eight Braille dots, each set by a pixel hit and never cleared.
use vstd::arithmetic::power2::{lemma2_to64, pow2};
use vstd::prelude::*;

verus! {

/// The dot that a hit in sub-column `col` and sub-row `row` of a cell sets, as a
/// bit index in `0..8` (Braille dot `n` is bit `n - 1`):
///
/// ```text
///          row 0  row 1  row 2  row 3
/// col 0    dot 1  dot 2  dot 3  dot 7
/// col 1    dot 4  dot 5  dot 6  dot 8
/// ```
pub open spec fn dot_at(col: int, row: int) -> Option<int> {
    if col == 0 && row == 0 { Some(0) }
    else if col == 0 && row == 1 { Some(1) }
    else if col == 0 && row == 2 { Some(2) }
    else if col == 0 && row == 3 { Some(6) }
    else if col == 1 && row == 0 { Some(3) }
    else if col == 1 && row == 1 { Some(4) }
    else if col == 1 && row == 2 { Some(5) }
    else if col == 1 && row == 3 { Some(7) }
    else { None }
}

/// The dot hit by the pixel `(x, y)` of a cell `width` by `height` pixels large,
/// which is split in 2 columns and 4 rows.
pub open spec fn pixel_dot(x: u32, y: u32, width: u32, height: u32) -> Option<int> {
    dot_at(x as int / (width as int / 2), y as int / (height as int / 4))
}

/// The dots of a cell after the pixel `(x, y)` hit it.
pub open spec fn with_pixel(dots: Seq<bool>, x: u32, y: u32, width: u32, height: u32) -> Seq<bool> {
    match pixel_dot(x, y, width, height) {
        Some(d) => dots.update(d, true),
        None => dots,
    }
}

/// Whether the pixel `(x, y)` sets a dot that was not yet set.
pub open spec fn pixel_is_new(dots: Seq<bool>, x: u32, y: u32, width: u32, height: u32) -> bool {
    match pixel_dot(x, y, width, height) {
        Some(d) => !dots[d],
        None => false,
    }
}

/// Eight unset dots.
pub open spec fn no_dots() -> Seq<bool> {
    Seq::new(8, |i: int| false)
}

/// The Braille pattern number of the first `n` dots: the sum of `2^i` over the
/// set dots `i < n`.
pub open spec fn dots_value(dots: Seq<bool>, n: nat) -> nat
    decreases n,
{
    if n == 0 {
        0
    } else {
        dots_value(dots, (n - 1) as nat) + if dots[n - 1] { pow2((n - 1) as nat) } else { 0 }
    }
}

/// The first code point of Unicode's Braille Patterns block.
pub const BRAILLE_BASE: u32 = 0x2800;

/// The glyph that shows the eight dots `dots`: the Braille pattern whose dot
/// `i + 1` is raised exactly where `dots[i]` holds.
pub open spec fn glyph_of(dots: Seq<bool>) -> char {
    (BRAILLE_BASE + dots_value(dots, 8)) as char
}

proof fn lemma_dots_value_bound(dots: Seq<bool>, n: nat)
    ensures
        dots_value(dots, n) < pow2(n),
    decreases n,
{
    lemma2_to64();
    if n > 0 {
        lemma_dots_value_bound(dots, (n - 1) as nat);
        vstd::arithmetic::power2::lemma_pow2_unfold(n);
    }
}

/// Relies on `char::from_u32`: it returns the `char` whose scalar value is `v`
/// when there is one, `None` otherwise.
#[verifier::external_body]
fn char_from_scalar(v: u32) -> (r: Option<char>)
    ensures
        r matches Some(c) ==> c as u32 == v,
        (v < 0xD800 || (0xDFFF < v && v <= 0x10FFFF)) ==> r is Some,
{
    char::from_u32(v)
}

/// Executable form of the dot table: the bit index of the dot at `(col, row)`.
fn dot_index(col: u32, row: u32) -> (r: Option<usize>)
    ensures
        match dot_at(col as int, row as int) {
            Some(d) => r == Some(d as usize) && 0 <= d < 8,
            None => r is None,
        },
{
    match (col, row) {
        (0, 0) => Some(0),
        (0, 1) => Some(1),
        (0, 2) => Some(2),
        (0, 3) => Some(6),
        (1, 0) => Some(3),
        (1, 1) => Some(4),
        (1, 2) => Some(5),
        (1, 3) => Some(7),
        _ => None,
    }
}

/// The pixel `(x, y)` lies in a cell of `width` by `height` pixels whose sides
/// split evenly into 2 columns and 4 rows.
pub open spec fn in_cell(x: u32, y: u32, width: u32, height: u32) -> bool {
    &&& width >= 2 && width % 2 == 0
    &&& height >= 4 && height % 4 == 0
    &&& x < width && y < height
}

/// Every pixel of a cell hits exactly one of its eight dots: that dot is set
/// afterwards and the seven others keep their state.
pub proof fn lemma_pixel_hits_one_dot(dots: Seq<bool>, x: u32, y: u32, width: u32, height: u32)
    requires
        dots.len() == 8,
        in_cell(x, y, width, height),
    ensures
        with_pixel(dots, x, y, width, height).len() == 8,
        exists|d: int|
            0 <= d < 8 && pixel_dot(x, y, width, height) == Some(d)
                && with_pixel(dots, x, y, width, height)[d]
                && forall|i: int|
                0 <= i < 8 && i != d ==> #[trigger] with_pixel(dots, x, y, width, height)[i]
                    == dots[i],
{
    let hw = width as int / 2;
    let hh = height as int / 4;
    let xi = x as int;
    let yi = y as int;
    assert(0 <= xi / hw < 2) by (nonlinear_arith)
        requires
            hw > 0,
            0 <= xi < 2 * hw,
    ;
    assert(0 <= yi / hh < 4) by (nonlinear_arith)
        requires
            hh > 0,
            0 <= yi < 4 * hh,
    ;
    let d = pixel_dot(x, y, width, height)->0;
    let after = with_pixel(dots, x, y, width, height);
    assert(after == dots.update(d, true));
    assert(forall|i: int| 0 <= i < 8 && i != d ==> #[trigger] after[i] == dots[i]);
    assert(0 <= d < 8 && pixel_dot(x, y, width, height) == Some(d) && after[d]);
}

/// Hitting the same pixel again changes nothing: on a fresh cell the first hit
/// sets a new dot, and a repeated hit never does.
pub proof fn lemma_set_pixel_idempotent(dots: Seq<bool>, x: u32, y: u32, width: u32, height: u32)
    requires
        dots.len() == 8,
        in_cell(x, y, width, height),
    ensures
        pixel_is_new(no_dots(), x, y, width, height),
        !pixel_is_new(with_pixel(dots, x, y, width, height), x, y, width, height),
        with_pixel(with_pixel(dots, x, y, width, height), x, y, width, height) == with_pixel(
            dots,
            x,
            y,
            width,
            height,
        ),
{
    lemma_pixel_hits_one_dot(dots, x, y, width, height);
    let once = with_pixel(dots, x, y, width, height);
    assert(with_pixel(once, x, y, width, height) =~= once);
}

/// A character cell of eight Braille dots.
pub struct BraileChar {
    bits: [bool; 8],
}

impl View for BraileChar {
    type V = Seq<bool>;

    /// Dot `n` of the Braille numbering is at index `n - 1`.
    closed spec fn view(&self) -> Seq<bool> {
        self.bits@
    }
}

impl BraileChar {
    /// A cell with no dot set.
    pub fn new() -> (r: BraileChar)
        ensures
            r@ == no_dots(),
    {
        let r = BraileChar { bits: [false; 8] };
        assert(r@ =~= no_dots());
        r
    }

    /// The Braille pattern of the cell's dots, in `U+2800..U+2900`.
    pub fn render(&self) -> (r: char)
        ensures
            r == glyph_of(self@),
            r as u32 == BRAILLE_BASE + dots_value(self@, 8),
            BRAILLE_BASE <= r as u32 && (r as u32) < BRAILLE_BASE + 256,
    {
        proof {
            lemma2_to64();
            lemma_dots_value_bound(self@, 8);
        }
        let mut value: u32 = 0;
        let mut weight: u32 = 1;
        let mut i: usize = 0;
        while i < 8
            invariant
                i <= 8,
                value == dots_value(self@, i as nat),
                weight == pow2(i as nat),
                value < weight,
                self@ == self.bits@,
            decreases 8 - i,
        {
            proof {
                lemma2_to64();
                vstd::arithmetic::power2::lemma_pow2_unfold((i + 1) as nat);
            }
            if self.bits[i] {
                value = value + weight;
            }
            weight = weight * 2;
            i = i + 1;
        }
        let code = BRAILLE_BASE + value;
        let c = char_from_scalar(code).unwrap();
        proof {
            vstd::utf8::char_u32_cast(c, code);
        }
        c
    }

    /// Sets the dot that the pixel `(x, y)` of a `width` by `height` cell falls on;
    /// a pixel outside the 2 by 4 dot grid changes nothing. Returns whether the dot
    /// was unset before.
    pub fn set_pixel(&mut self, x: u32, y: u32, width: u32, height: u32) -> (r: bool)
        requires
            width >= 2,
            height >= 4,
        ensures
            final(self)@ == with_pixel(old(self)@, x, y, width, height),
            r == pixel_is_new(old(self)@, x, y, width, height),
    {
        let col = x / (width / 2);
        let row = y / (height / 4);
        match dot_index(col, row) {
            Some(d) => {
                let fresh = !self.bits[d];
                self.bits[d] = true;
                fresh
            },
            None => false,
        }
    }
}

} // verus!
