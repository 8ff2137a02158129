//! The captcha image: a small SVG document with five noise lines and one
//! jittered, rotated glyph per character of the code.
//!
//! `captcha_svg_with` renders the image from given random choices;
//! `gen_captcha_svg` draws the choices from the thread-local generator.

use vstd::prelude::*;
use crate::common::error::push_str;
use crate::common::random::random_usize_up_to;
use crate::common::text::{decimal, push_char, push_decimal};

verus! {

/// The number of noise lines drawn across the image.
pub const NOISE_LINES: usize = 5;

/// The longest code whose glyph positions `18 + 27 * k + 3` stay within `i32`.
pub const MAX_CAPTCHA_GLYPHS: usize = 79_536_431;

/// One noise line: its end points and the index of its color.
#[derive(Debug, Clone, Copy)]
pub struct NoiseLine {
    pub x1: u32,
    pub y1: u32,
    pub x2: u32,
    pub y2: u32,
    pub color: usize,
}

/// The jitter of one glyph: horizontal and vertical offsets, rotation in
/// degrees, and the index of its color.
#[derive(Debug, Clone, Copy)]
pub struct GlyphJitter {
    pub dx: i32,
    pub dy: i32,
    pub rot: i32,
    pub color: usize,
}

/// The palette of the image.
pub open spec fn captcha_colors() -> Seq<Seq<char>> {
    seq!["#334155"@, "#b91c1c"@, "#1d4ed8"@, "#047857"@, "#7c3aed"@]
}

/// Whether a noise line lies in the ranges that the generator draws from:
/// `x` in `0..140`, `y` in `0..48`, a color of the palette.
pub open spec fn line_in_range(l: NoiseLine) -> bool {
    &&& l.x1 < 140
    &&& l.y1 < 48
    &&& l.x2 < 140
    &&& l.y2 < 48
    &&& l.color < 5
}

/// Whether a glyph jitter lies in the ranges that the generator draws from:
/// `dx` in `-3..4`, `dy` in `-4..5`, `rot` in `-22..23`, a color of the palette.
pub open spec fn jitter_in_range(g: GlyphJitter) -> bool {
    &&& -3 <= g.dx <= 3
    &&& -4 <= g.dy <= 4
    &&& -22 <= g.rot <= 22
    &&& g.color < 5
}

/// Whether the choices fit a code of `n` characters.
pub open spec fn choices_ok(lines: Seq<NoiseLine>, glyphs: Seq<GlyphJitter>, n: nat) -> bool {
    &&& lines.len() == NOISE_LINES
    &&& glyphs.len() == n
    &&& n <= MAX_CAPTCHA_GLYPHS
    &&& forall|i: int| 0 <= i < lines.len() ==> line_in_range(#[trigger] lines[i])
    &&& forall|i: int| 0 <= i < glyphs.len() ==> jitter_in_range(#[trigger] glyphs[i])
}

/// An integer in decimal, with a leading `-` when negative.
pub open spec fn signed_decimal(v: int) -> Seq<char> {
    if v < 0 {
        seq!['-'] + decimal((-v) as nat)
    } else {
        decimal(v as nat)
    }
}

/// The opening tag and the background of the image.
pub open spec fn svg_head() -> Seq<char> {
    "<svg xmlns=\"http://www.w3.org/2000/svg\" width=\"140\" height=\"48\" viewBox=\"0 0 140 48\">"@
        + "<rect width=\"140\" height=\"48\" rx=\"6\" fill=\"#f8fafc\"/>"@
}

/// The element of one noise line.
pub open spec fn line_text(l: NoiseLine) -> Seq<char> {
    "<line x1=\""@ + decimal(l.x1 as nat) + "\" y1=\""@ + decimal(l.y1 as nat) + "\" x2=\""@
        + decimal(l.x2 as nat) + "\" y2=\""@ + decimal(l.y2 as nat) + "\" stroke=\""@
        + captcha_colors()[l.color as int] + "\" stroke-width=\"1.5\" opacity=\"0.45\"/>"@
}

/// The elements of the noise lines, in order.
pub open spec fn lines_text(ls: Seq<NoiseLine>) -> Seq<char>
    decreases ls.len(),
{
    if ls.len() == 0 {
        Seq::empty()
    } else {
        lines_text(ls.drop_last()) + line_text(ls.last())
    }
}

/// The horizontal position of glyph `k`.
pub open spec fn glyph_x(k: int, g: GlyphJitter) -> int {
    18 + 27 * k + g.dx
}

/// The vertical position of a glyph.
pub open spec fn glyph_y(g: GlyphJitter) -> int {
    34 + g.dy
}

/// The element of glyph `k`, showing `ch`.
pub open spec fn glyph_text(k: int, ch: char, g: GlyphJitter) -> Seq<char> {
    let x = signed_decimal(glyph_x(k, g));
    let y = signed_decimal(glyph_y(g));
    "<text x=\""@ + x + "\" y=\""@ + y
        + "\" font-family=\"monospace\" font-size=\"30\" font-weight=\"bold\" fill=\""@
        + captcha_colors()[g.color as int] + "\" transform=\"rotate("@ + signed_decimal(g.rot as int)
        + " "@ + x + " "@ + y + ")\">"@ + seq![ch] + "</text>"@
}

/// The elements of the first `gs.len()` glyphs of `code`, in order.
pub open spec fn glyphs_text(code: Seq<char>, gs: Seq<GlyphJitter>) -> Seq<char>
    decreases gs.len(),
{
    if gs.len() == 0 {
        Seq::empty()
    } else {
        let k = gs.len() - 1;
        glyphs_text(code, gs.drop_last()) + glyph_text(k, code[k], gs.last())
    }
}

/// The whole image for `code` and the given choices.
pub open spec fn captcha_svg_text(code: Seq<char>, lines: Seq<NoiseLine>, glyphs: Seq<GlyphJitter>) -> Seq<
    char,
> {
    svg_head() + lines_text(lines) + glyphs_text(code, glyphs) + "</svg>"@
}

fn captcha_color(i: usize) -> (c: &'static str)
    requires
        i < 5,
    ensures
        c@ == captcha_colors()[i as int],
{
    match i {
        0 => "#334155",
        1 => "#b91c1c",
        2 => "#1d4ed8",
        3 => "#047857",
        _ => "#7c3aed",
    }
}

fn push_signed(s: &mut String, v: i64)
    requires
        v > i64::MIN,
    ensures
        final(s)@ == old(s)@ + signed_decimal(v as int),
{
    if v < 0 {
        push_char(s, '-');
        push_decimal(s, (-v) as u64);
        proof {
            assert(final(s)@ =~= old(s)@ + signed_decimal(v as int)) by {
                assert(seq!['-'] + decimal((-v) as nat) == signed_decimal(v as int));
            }
        }
    } else {
        push_decimal(s, v as u64);
    }
}

fn push_line(s: &mut String, l: &NoiseLine)
    requires
        line_in_range(*l),
    ensures
        final(s)@ == old(s)@ + line_text(*l),
{
    push_str(s, "<line x1=\"");
    push_decimal(s, l.x1 as u64);
    push_str(s, "\" y1=\"");
    push_decimal(s, l.y1 as u64);
    push_str(s, "\" x2=\"");
    push_decimal(s, l.x2 as u64);
    push_str(s, "\" y2=\"");
    push_decimal(s, l.y2 as u64);
    push_str(s, "\" stroke=\"");
    push_str(s, captcha_color(l.color));
    push_str(s, "\" stroke-width=\"1.5\" opacity=\"0.45\"/>");
    proof {
        assert(final(s)@ =~= old(s)@ + line_text(*l));
    }
}

fn push_glyph(s: &mut String, k: usize, ch: char, g: &GlyphJitter)
    requires
        jitter_in_range(*g),
        k < MAX_CAPTCHA_GLYPHS,
    ensures
        final(s)@ == old(s)@ + glyph_text(k as int, ch, *g),
{
    let x: i64 = 18 + 27 * (k as i64) + g.dx as i64;
    let y: i64 = 34 + g.dy as i64;
    let ghost xs = signed_decimal(x as int);
    let ghost ys = signed_decimal(y as int);
    push_str(s, "<text x=\"");
    push_signed(s, x);
    push_str(s, "\" y=\"");
    push_signed(s, y);
    push_str(s, "\" font-family=\"monospace\" font-size=\"30\" font-weight=\"bold\" fill=\"");
    push_str(s, captcha_color(g.color));
    push_str(s, "\" transform=\"rotate(");
    push_signed(s, g.rot as i64);
    push_str(s, " ");
    push_signed(s, x);
    push_str(s, " ");
    push_signed(s, y);
    push_str(s, ")\">");
    push_char(s, ch);
    push_str(s, "</text>");
    proof {
        assert(x as int == glyph_x(k as int, *g));
        assert(y as int == glyph_y(*g));
        assert(final(s)@ =~= old(s)@ + glyph_text(k as int, ch, *g));
    }
}

/// The captcha image of `code` for the given noise lines and glyph jitters.
pub fn captcha_svg_with(code: &str, lines: &Vec<NoiseLine>, glyphs: &Vec<GlyphJitter>) -> (svg: String)
    requires
        choices_ok(lines@, glyphs@, code@.len()),
    ensures
        svg@ == captcha_svg_text(code@, lines@, glyphs@),
{
    let mut svg = String::new();
    push_str(
        &mut svg,
        "<svg xmlns=\"http://www.w3.org/2000/svg\" width=\"140\" height=\"48\" viewBox=\"0 0 140 48\">",
    );
    push_str(&mut svg, "<rect width=\"140\" height=\"48\" rx=\"6\" fill=\"#f8fafc\"/>");
    proof {
        assert(svg@ =~= svg_head() + lines_text(lines@.subrange(0, 0)));
    }
    let mut i: usize = 0;
    while i < lines.len()
        invariant
            i <= lines@.len(),
            choices_ok(lines@, glyphs@, code@.len()),
            svg@ == svg_head() + lines_text(lines@.subrange(0, i as int)),
        decreases lines@.len() - i,
    {
        let ghost before = svg@;
        push_line(&mut svg, &lines[i]);
        proof {
            let p = lines@.subrange(0, i as int + 1);
            assert(p.drop_last() =~= lines@.subrange(0, i as int));
            assert(svg@ =~= svg_head() + lines_text(p));
        }
        i = i + 1;
    }
    proof {
        assert(lines@.subrange(0, lines@.len() as int) =~= lines@);
    }
    let ghost lines_done = svg@;
    let n = code.unicode_len();
    let mut k: usize = 0;
    proof {
        assert(svg@ =~= lines_done + glyphs_text(code@, glyphs@.subrange(0, 0)));
    }
    while k < n
        invariant
            n == code@.len(),
            k <= n,
            choices_ok(lines@, glyphs@, code@.len()),
            lines_done == svg_head() + lines_text(lines@),
            svg@ == lines_done + glyphs_text(code@, glyphs@.subrange(0, k as int)),
        decreases n - k,
    {
        let ch = code.get_char(k);
        push_glyph(&mut svg, k, ch, &glyphs[k]);
        proof {
            let p = glyphs@.subrange(0, k as int + 1);
            assert(p.drop_last() =~= glyphs@.subrange(0, k as int));
            assert(p.last() == glyphs@[k as int]);
            assert(svg@ =~= lines_done + glyphs_text(code@, p));
        }
        k = k + 1;
    }
    proof {
        assert(glyphs@.subrange(0, n as int) =~= glyphs@);
    }
    push_str(&mut svg, "</svg>");
    proof {
        assert(svg@ =~= captcha_svg_text(code@, lines@, glyphs@));
    }
    svg
}

fn random_below(n: usize) -> (r: usize)
    requires
        n > 0,
    ensures
        r < n,
{
    random_usize_up_to(n - 1)
}

/// A captcha image of `code` with random noise lines and glyph jitters: the
/// image of some choices in the generator's ranges.
pub fn gen_captcha_svg(code: &str) -> (svg: String)
    requires
        code@.len() <= MAX_CAPTCHA_GLYPHS,
    ensures
        exists|lines: Seq<NoiseLine>, glyphs: Seq<GlyphJitter>|
            choices_ok(lines, glyphs, code@.len()) && svg@ == captcha_svg_text(code@, lines, glyphs),
{
    let mut lines: Vec<NoiseLine> = Vec::new();
    let mut i: usize = 0;
    while i < NOISE_LINES
        invariant
            i <= NOISE_LINES,
            lines@.len() == i,
            forall|j: int| 0 <= j < lines@.len() ==> line_in_range(#[trigger] lines@[j]),
        decreases NOISE_LINES - i,
    {
        let x1 = random_below(140) as u32;
        let y1 = random_below(48) as u32;
        let x2 = random_below(140) as u32;
        let y2 = random_below(48) as u32;
        let color = random_below(5);
        lines.push(NoiseLine { x1, y1, x2, y2, color });
        i = i + 1;
    }
    let n = code.unicode_len();
    let mut glyphs: Vec<GlyphJitter> = Vec::new();
    let mut k: usize = 0;
    while k < n
        invariant
            k <= n,
            glyphs@.len() == k,
            forall|j: int| 0 <= j < glyphs@.len() ==> jitter_in_range(#[trigger] glyphs@[j]),
        decreases n - k,
    {
        let dx = random_below(7) as i32 - 3;
        let dy = random_below(9) as i32 - 4;
        let rot = random_below(45) as i32 - 22;
        let color = random_below(5);
        glyphs.push(GlyphJitter { dx, dy, rot, color });
        k = k + 1;
    }
    let svg = captcha_svg_with(code, &lines, &glyphs);
    proof {
        assert(choices_ok(lines@, glyphs@, code@.len()));
    }
    svg
}

} // verus!
