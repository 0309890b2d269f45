use vstd::prelude::*;
use vstd::arithmetic::div_mod::{lemma_div_by_self, lemma_div_is_ordered};
use vstd::arithmetic::mul::lemma_mul_inequality;
use vstd::slice::{slice_index_get, slice_subrange, slice_to_vec};
use vstd::string::StrSliceExecFns;
use crate::surface::{DrawHandle, OPAQUE};

verus! {

/// Magic number opening a PSF2 font container.
pub const PSF2_MAGIC: u32 = 0x864a_b572;

/// The only PSF2 version the loader accepts.
pub const PSF2_VERSION: u32 = 0;

/// Size in bytes of the PSF2 header; the header-size field must equal it.
pub const PSF2_HEADER_SIZE: u32 = 32;

/// The glyph slots the rasterizer indexes: one per seven-bit character code.
pub const GLYPH_SLOTS: u32 = 128;

/// The glyph slot a character rasterizes from: its own code for a seven-bit
/// character, the slot of `'?'` for anything else.
pub open spec fn glyph_code(c: char) -> int {
    if (c as int) < 128 {
        c as int
    } else {
        63
    }
}

/// The little-endian 32-bit field stored at byte offset `off`.
pub open spec fn le32_at(s: Seq<u8>, off: int) -> int {
    s[off] + s[off + 1] * 0x100 + s[off + 2] * 0x1_0000 + s[off + 3] * 0x100_0000
}

/// The fixed header fields the loader insists on, exactly as the container
/// format defines them: magic, version and header size. A mismatch is a
/// fatal asset-integrity failure, not a runtime error path.
pub open spec fn header_ok(s: Seq<u8>) -> bool {
    &&& s.len() >= PSF2_HEADER_SIZE
    &&& le32_at(s, 0) == PSF2_MAGIC
    &&& le32_at(s, 4) == PSF2_VERSION
    &&& le32_at(s, 8) == PSF2_HEADER_SIZE
}

/// A container the rasterizer can run on without ever indexing outside its
/// bitmap: well-formed header, at least one byte per glyph, rows of at most
/// one byte (glyph width up to eight pixels), and a bitmap long enough for
/// every glyph slot.
pub open spec fn loadable(s: Seq<u8>) -> bool {
    &&& header_ok(s)
    &&& 1 <= le32_at(s, 20)
    &&& le32_at(s, 24) <= le32_at(s, 20)
    &&& s.len() - PSF2_HEADER_SIZE >= GLYPH_SLOTS * le32_at(s, 20)
}

/// Whether `bit` is set in a glyph byte; glyph columns are stored
/// most-significant-bit first.
pub open spec fn glyph_bit(gb: u8, bit: u8) -> bool {
    gb & (1u8 << bit) != 0
}

/// Whether the bits of one glyph byte, blitted with its left edge at
/// `(px, py)`, cover the pixel `(x, y)` — restricted to the low `bit_lim`
/// bits. Bit `t` maps to column `7 - t` from the left edge.
pub open spec fn byte_covers_upto(gb: u8, bit_lim: int, px: int, py: int, x: int, y: int) -> bool {
    exists|t: u8| t < bit_lim && #[trigger] glyph_bit(gb, t) && x == px + 7 - t && y == py
}

/// Whether one glyph byte blitted at `(px, py)` covers the pixel `(x, y)`.
pub open spec fn byte_covers(gb: u8, px: int, py: int, x: int, y: int) -> bool {
    byte_covers_upto(gb, 8, px, py, x, y)
}

/// The decoded font: per-glyph geometry and the flat glyph bitmap that
/// follows the container header. Loaded once at startup and immutable
/// afterwards.
pub struct TextRenderer {
    pub bitmap: Vec<u8>,
    pub bytes_per_glyph: u32,
    pub width: u32,
    pub height: u32,
}

impl TextRenderer {
    /// The geometry bounds that keep every bitmap access of the rasterizer
    /// inside the buffer; `new` establishes them for every font it accepts.
    pub open spec fn wf(&self) -> bool {
        &&& 1 <= self.bytes_per_glyph
        &&& self.height <= self.bytes_per_glyph
        &&& self.bitmap@.len() >= GLYPH_SLOTS * self.bytes_per_glyph
    }

    /// Bytes spanning one row of a glyph, as the rasterizer walks them.
    pub open spec fn bytes_per_row(&self) -> int {
        self.height as int / self.bytes_per_glyph as int
    }

    /// The glyph byte holding row `row`, byte `b`, of the glyph in slot
    /// `code`.
    pub open spec fn glyph_byte(&self, code: int, row: int, b: int) -> u8 {
        self.bitmap@[code * self.bytes_per_glyph + row + b]
    }

    /// Whether the glyph in slot `code`, drawn at `(px, py)`, covers the
    /// pixel `(x, y)` — restricted to the rows and bytes strictly before
    /// row `row_lim`, byte `b_lim`.
    pub open spec fn char_covers_upto(
        &self,
        px: int,
        py: int,
        code: int,
        row_lim: int,
        b_lim: int,
        x: int,
        y: int,
    ) -> bool {
        exists|row: int, b: int|
            0 <= row < self.height && 0 <= b < self.bytes_per_row() && (row < row_lim || (row
                == row_lim && b < b_lim)) && byte_covers(
                #[trigger] self.glyph_byte(code, row, b),
                px,
                py + row,
                x,
                y,
            )
    }

    /// Whether the glyph in slot `code`, drawn with its top-left corner at
    /// `(px, py)`, covers the pixel `(x, y)`.
    pub open spec fn char_covers(&self, px: int, py: int, code: int, x: int, y: int) -> bool {
        self.char_covers_upto(px, py, code, self.height as int, 0, x, y)
    }

    /// Whether a text drawn at `(px, py)` covers the pixel `(x, y)`: each
    /// character is blitted one glyph width right of the one before, with
    /// no kerning and no wrapping.
    pub open spec fn text_covers(&self, px: int, py: int, text: Seq<char>, x: int, y: int) -> bool {
        exists|i: int|
            0 <= i < text.len() && self.char_covers(
                px + i * self.width,
                py,
                glyph_code(#[trigger] text[i]),
                x,
                y,
            )
    }

    /// Decodes a PSF2 font container. Returns the decoded font exactly when
    /// the container is `loadable`: the fixed header fields match and the
    /// bitmap is long enough for the declared geometry. Any other input is
    /// a malformed asset, reported as `None` for the caller to treat as
    /// fatal.
    pub fn new(font: &[u8]) -> (r: Option<TextRenderer>)
        ensures
            r is Some <==> loadable(font@),
            r matches Some(tr) ==> {
                &&& tr.wf()
                &&& tr.bytes_per_glyph == le32_at(font@, 20)
                &&& tr.height == le32_at(font@, 24)
                &&& tr.width == le32_at(font@, 28)
                &&& tr.bitmap@ == font@.subrange(PSF2_HEADER_SIZE as int, font@.len() as int)
            },
    {
        let len = font.len();
        if len < 32 {
            return None;
        }
        let magic = read_le32(font, 0);
        let version = read_le32(font, 4);
        let header_size = read_le32(font, 8);
        let _flags = read_le32(font, 12);
        let _num_glyphs = read_le32(font, 16);
        let bytes_per_glyph = read_le32(font, 20);
        let height = read_le32(font, 24);
        let width = read_le32(font, 28);
        if magic != PSF2_MAGIC || version != PSF2_VERSION || header_size != PSF2_HEADER_SIZE {
            return None;
        }
        if bytes_per_glyph < 1 || height > bytes_per_glyph {
            return None;
        }
        if ((len - 32) as u64) < (GLYPH_SLOTS as u64) * (bytes_per_glyph as u64) {
            return None;
        }
        let bitmap = slice_to_vec(slice_subrange(font, 32, len));
        Some(TextRenderer { bitmap, bytes_per_glyph, width, height })
    }

    /// Draws a text left to right from `(pos_x, pos_y)`, advancing exactly
    /// one glyph width per character; characters outside the seven-bit
    /// range are substituted with `'?'`. Set glyph bits paint `color` with
    /// the alpha byte forced opaque; clear bits leave the surface pixel
    /// untouched. No clipping happens here: pixels that fall outside the
    /// surface are dropped by the surface's own bounds check, so text
    /// running off the edge degrades gracefully.
    pub fn render(&self, d: &mut DrawHandle, pos_x: u32, pos_y: u32, color: u32, text: &str)
        requires
            old(d).wf(),
            self.wf(),
            pos_x + self.width * text@.len() <= u32::MAX,
        ensures
            final(d).wf(),
            final(d).width == old(d).width,
            final(d).height == old(d).height,
            forall|x: int, y: int|
                0 <= x < old(d).width && 0 <= y < old(d).height ==> #[trigger] final(d).pixel(x, y)
                    == if self.text_covers(pos_x as int, pos_y as int, text@, x, y) {
                    color | OPAQUE
                } else {
                    old(d).pixel(x, y)
                },
    {
        let ghost s = text@;
        let n = text.unicode_len();
        let mut i: usize = 0;
        let mut cur_x: u32 = pos_x;
        while i < n
            invariant
                self.wf(),
                d.wf(),
                d.width == old(d).width,
                d.height == old(d).height,
                i <= n,
                n == s.len(),
                s == text@,
                pos_x + self.width * s.len() <= u32::MAX,
                cur_x == pos_x + i * self.width,
                forall|x: int, y: int|
                    0 <= x < old(d).width && 0 <= y < old(d).height ==> #[trigger] d.pixel(x, y)
                        == if self.text_covers(
                        pos_x as int,
                        pos_y as int,
                        s.subrange(0, i as int),
                        x,
                        y,
                    ) {
                        color | OPAQUE
                    } else {
                        old(d).pixel(x, y)
                    },
            decreases n - i,
        {
            proof {
                lemma_mul_inequality(i as int + 1, s.len() as int, self.width as int);
            }
            let ghost prev = *d;
            let ch = text.get_char(i);
            let code: u8 = if (ch as u32) < 128 {
                (ch as u32) as u8
            } else {
                63
            };
            self.render_char(d, cur_x, pos_y, color, code);
            proof {
                assert(code as int == glyph_code(s[i as int]));
                assert forall|x: int, y: int|
                    0 <= x < old(d).width && 0 <= y < old(d).height implies #[trigger] d.pixel(x, y)
                        == if self.text_covers(
                        pos_x as int,
                        pos_y as int,
                        s.subrange(0, i + 1),
                        x,
                        y,
                    ) {
                        color | OPAQUE
                    } else {
                        old(d).pixel(x, y)
                    } by {
                    self.lemma_text_covers_extend(pos_x as int, pos_y as int, s, i as int, x, y);
                }
            }
            proof {
                lemma_mul_inequality(i as int + 1, s.len() as int, self.width as int);
                assert((i as int + 1) * self.width == i as int * self.width + self.width)
                    by (nonlinear_arith);
                assert(s.len() as int * self.width == self.width * s.len())
                    by (nonlinear_arith);
            }
            cur_x = cur_x + self.width;
            i = i + 1;
        }
        proof {
            assert(s.subrange(0, n as int) == s);
        }
    }

    /// Extending a rendered prefix by one character adds exactly that
    /// character's glyph coverage.
    proof fn lemma_text_covers_extend(
        &self,
        px: int,
        py: int,
        s: Seq<char>,
        i: int,
        x: int,
        y: int,
    )
        requires
            0 <= i < s.len(),
        ensures
            self.text_covers(px, py, s.subrange(0, i + 1), x, y) <==> (self.text_covers(
                px,
                py,
                s.subrange(0, i),
                x,
                y,
            ) || self.char_covers(px + i * self.width, py, glyph_code(s[i]), x, y)),
    {
        let pre = s.subrange(0, i);
        let ext = s.subrange(0, i + 1);
        if self.text_covers(px, py, ext, x, y) {
            let j = choose|j: int|
                0 <= j < ext.len() && self.char_covers(
                    px + j * self.width,
                    py,
                    glyph_code(#[trigger] ext[j]),
                    x,
                    y,
                );
            if j < i {
                assert(pre[j] == ext[j]);
                assert(self.text_covers(px, py, pre, x, y));
            } else {
                assert(ext[i] == s[i]);
            }
        }
        if self.text_covers(px, py, pre, x, y) {
            let j = choose|j: int|
                0 <= j < pre.len() && self.char_covers(
                    px + j * self.width,
                    py,
                    glyph_code(#[trigger] pre[j]),
                    x,
                    y,
                );
            assert(ext[j] == pre[j]);
            assert(self.text_covers(px, py, ext, x, y));
        }
        if self.char_covers(px + i * self.width, py, glyph_code(s[i]), x, y) {
            assert(ext[i] == s[i]);
            assert(self.text_covers(px, py, ext, x, y));
        }
    }

    /// Blits the glyph in slot `code` with its top-left corner at
    /// `(pos_x, pos_y)`: walks the glyph's rows and row bytes and paints
    /// every set bit through the surface's clipped setter.
    fn render_char(&self, d: &mut DrawHandle, pos_x: u32, pos_y: u32, color: u32, code: u8)
        requires
            old(d).wf(),
            self.wf(),
            code < GLYPH_SLOTS,
        ensures
            final(d).wf(),
            final(d).width == old(d).width,
            final(d).height == old(d).height,
            forall|x: int, y: int|
                0 <= x < old(d).width && 0 <= y < old(d).height ==> #[trigger] final(d).pixel(x, y)
                    == if self.char_covers(pos_x as int, pos_y as int, code as int, x, y) {
                    color | OPAQUE
                } else {
                    old(d).pixel(x, y)
                },
    {
        let bitmap_len = self.bitmap.len();
        let bytes_per_row: u32 = self.height / self.bytes_per_glyph;
        proof {
            lemma_div_is_ordered(
                self.height as int,
                self.bytes_per_glyph as int,
                self.bytes_per_glyph as int,
            );
            lemma_div_by_self(self.bytes_per_glyph as int);
            assert(self.bytes_per_row() <= 1);
            assert(GLYPH_SLOTS * self.bytes_per_glyph <= bitmap_len);
            assert((code as int) * self.bytes_per_glyph + self.bytes_per_glyph <= GLYPH_SLOTS
                * self.bytes_per_glyph) by (nonlinear_arith)
                requires
                    code < GLYPH_SLOTS,
                    self.bytes_per_glyph >= 1,
            ;
        }
        let base: usize = (code as usize) * (self.bytes_per_glyph as usize);
        let mut row: u32 = 0;
        while row < self.height
            invariant
                self.wf(),
                d.wf(),
                d.width == old(d).width,
                d.height == old(d).height,
                row <= self.height,
                bytes_per_row == self.bytes_per_row(),
                bytes_per_row <= 1,
                bitmap_len == self.bitmap@.len(),
                base == (code as int) * self.bytes_per_glyph,
                base + self.bytes_per_glyph <= bitmap_len,
                code < GLYPH_SLOTS,
                forall|x: int, y: int|
                    0 <= x < old(d).width && 0 <= y < old(d).height ==> #[trigger] d.pixel(x, y)
                        == if self.char_covers_upto(
                        pos_x as int,
                        pos_y as int,
                        code as int,
                        row as int,
                        0,
                        x,
                        y,
                    ) {
                        color | OPAQUE
                    } else {
                        old(d).pixel(x, y)
                    },
            decreases self.height - row,
        {
            let mut b: u32 = 0;
            while b < bytes_per_row
                invariant
                    self.wf(),
                    d.wf(),
                    d.width == old(d).width,
                    d.height == old(d).height,
                    row < self.height,
                    b <= bytes_per_row,
                    bytes_per_row == self.bytes_per_row(),
                    bytes_per_row <= 1,
                    bitmap_len == self.bitmap@.len(),
                    base == (code as int) * self.bytes_per_glyph,
                    base + self.bytes_per_glyph <= bitmap_len,
                    code < GLYPH_SLOTS,
                    forall|x: int, y: int|
                        0 <= x < old(d).width && 0 <= y < old(d).height ==> #[trigger] d.pixel(
                            x,
                            y,
                        ) == if self.char_covers_upto(
                            pos_x as int,
                            pos_y as int,
                            code as int,
                            row as int,
                            b as int,
                            x,
                            y,
                        ) {
                            color | OPAQUE
                        } else {
                            old(d).pixel(x, y)
                        },
                decreases bytes_per_row - b,
            {
                let ghost before = *d;
                proof {
                    assert(b == 0);
                    assert(base + row + b < bitmap_len);
                }
                let gb: u8 = self.bitmap[base + (row as usize) + (b as usize)];
                blit_byte(d, gb, pos_x, (pos_y as u64) + (row as u64), color);
                proof {
                    assert(gb == self.glyph_byte(code as int, row as int, b as int));
                    assert forall|x: int, y: int|
                        0 <= x < old(d).width && 0 <= y < old(d).height implies #[trigger] d.pixel(
                            x,
                            y,
                        ) == if self.char_covers_upto(
                            pos_x as int,
                            pos_y as int,
                            code as int,
                            row as int,
                            b as int + 1,
                            x,
                            y,
                        ) {
                            color | OPAQUE
                        } else {
                            old(d).pixel(x, y)
                        } by {
                        self.lemma_char_covers_step(
                            pos_x as int,
                            pos_y as int,
                            code as int,
                            row as int,
                            b as int,
                            x,
                            y,
                        );
                    }
                }
                b = b + 1;
            }
            proof {
                assert forall|x: int, y: int|
                    self.char_covers_upto(
                        pos_x as int,
                        pos_y as int,
                        code as int,
                        row as int,
                        bytes_per_row as int,
                        x,
                        y,
                    ) == self.char_covers_upto(
                        pos_x as int,
                        pos_y as int,
                        code as int,
                        row as int + 1,
                        0,
                        x,
                        y,
                    ) by {
                    self.lemma_char_covers_row_end(
                        pos_x as int,
                        pos_y as int,
                        code as int,
                        row as int,
                        x,
                        y,
                    );
                }
            }
            row = row + 1;
        }
    }

    /// One more glyph byte widens the partial coverage by exactly that
    /// byte's coverage.
    proof fn lemma_char_covers_step(
        &self,
        px: int,
        py: int,
        code: int,
        row: int,
        b: int,
        x: int,
        y: int,
    )
        requires
            0 <= row < self.height,
            0 <= b < self.bytes_per_row(),
        ensures
            self.char_covers_upto(px, py, code, row, b + 1, x, y) <==> (self.char_covers_upto(
                px,
                py,
                code,
                row,
                b,
                x,
                y,
            ) || byte_covers(self.glyph_byte(code, row, b), px, py + row, x, y)),
    {
        if self.char_covers_upto(px, py, code, row, b + 1, x, y) {
            let (r2, b2) = choose|r2: int, b2: int|
                0 <= r2 < self.height && 0 <= b2 < self.bytes_per_row() && (r2 < row || (r2 == row
                    && b2 < b + 1)) && byte_covers(
                    #[trigger] self.glyph_byte(code, r2, b2),
                    px,
                    py + r2,
                    x,
                    y,
                );
            if r2 == row && b2 == b {
            } else {
                assert(self.char_covers_upto(px, py, code, row, b, x, y));
            }
        }
        if self.char_covers_upto(px, py, code, row, b, x, y) {
            assert(self.char_covers_upto(px, py, code, row, b + 1, x, y));
        }
        if byte_covers(self.glyph_byte(code, row, b), px, py + row, x, y) {
            assert(self.char_covers_upto(px, py, code, row, b + 1, x, y));
        }
    }

    /// Finishing a row's bytes is the same partial coverage as standing at
    /// the start of the next row.
    proof fn lemma_char_covers_row_end(&self, px: int, py: int, code: int, row: int, x: int, y: int)
        ensures
            self.char_covers_upto(px, py, code, row, self.bytes_per_row(), x, y)
                == self.char_covers_upto(px, py, code, row + 1, 0, x, y),
    {
        if self.char_covers_upto(px, py, code, row, self.bytes_per_row(), x, y) {
            assert(self.char_covers_upto(px, py, code, row + 1, 0, x, y));
        }
        if self.char_covers_upto(px, py, code, row + 1, 0, x, y) {
            assert(self.char_covers_upto(px, py, code, row, self.bytes_per_row(), x, y));
        }
    }

    /// Non-ASCII substitution: two texts whose characters occupy the same
    /// glyph slots — in particular a text with a character outside the
    /// seven-bit range and the same text with `'?'` in its place — cover
    /// exactly the same pixels when drawn at the same position.
    pub proof fn lemma_glyph_code_substitution(
        &self,
        px: int,
        py: int,
        s1: Seq<char>,
        s2: Seq<char>,
        x: int,
        y: int,
    )
        requires
            s1.len() == s2.len(),
            forall|i: int| 0 <= i < s1.len() ==> glyph_code(s1[i]) == glyph_code(#[trigger] s2[i]),
        ensures
            self.text_covers(px, py, s1, x, y) == self.text_covers(px, py, s2, x, y),
    {
        if self.text_covers(px, py, s1, x, y) {
            let j = choose|j: int|
                0 <= j < s1.len() && self.char_covers(
                    px + j * self.width,
                    py,
                    glyph_code(#[trigger] s1[j]),
                    x,
                    y,
                );
            assert(glyph_code(s1[j]) == glyph_code(s2[j]));
            assert(self.text_covers(px, py, s2, x, y));
        }
        if self.text_covers(px, py, s2, x, y) {
            let j = choose|j: int|
                0 <= j < s2.len() && self.char_covers(
                    px + j * self.width,
                    py,
                    glyph_code(#[trigger] s2[j]),
                    x,
                    y,
                );
            assert(glyph_code(s1[j]) == glyph_code(s2[j]));
            assert(self.text_covers(px, py, s1, x, y));
        }
    }
}

/// Reads the little-endian 32-bit field at byte offset `off`.
fn read_le32(s: &[u8], off: usize) -> (r: u32)
    requires
        off + 4 <= s@.len(),
    ensures
        r == le32_at(s@, off as int),
{
    let _slice_len: usize = s.len();
    let b0 = *slice_index_get(s, off);
    let b1 = *slice_index_get(s, off + 1);
    let b2 = *slice_index_get(s, off + 2);
    let b3 = *slice_index_get(s, off + 3);
    (b0 as u32) + (b1 as u32) * 0x100 + (b2 as u32) * 0x1_0000 + (b3 as u32) * 0x100_0000
}

/// One bit of a glyph byte has been handled — written when set and inside
/// the surface, skipped otherwise — so the partial coverage grows from the
/// low `bit` bits to the low `bit + 1` bits.
proof fn lemma_blit_step(
    before: DrawHandle,
    cur: DrawHandle,
    orig: DrawHandle,
    gb: u8,
    bit: u8,
    px: int,
    py: int,
    color: u32,
    wrote: bool,
)
    requires
        bit < 8,
        orig.width == before.width,
        orig.height == before.height,
        cur.width == before.width,
        cur.height == before.height,
        forall|x: int, y: int|
            0 <= x < orig.width && 0 <= y < orig.height ==> #[trigger] before.pixel(x, y)
                == if byte_covers_upto(gb, bit as int, px, py, x, y) {
                color | OPAQUE
            } else {
                orig.pixel(x, y)
            },
        wrote ==> {
            &&& glyph_bit(gb, bit)
            &&& 0 <= px + 7 - bit < orig.width
            &&& 0 <= py < orig.height
            &&& cur.pixel(px + 7 - bit, py) == color | OPAQUE
            &&& forall|x: int, y: int|
                0 <= x < orig.width && 0 <= y < orig.height && !(x == px + 7 - bit && y == py)
                    ==> #[trigger] cur.pixel(x, y) == before.pixel(x, y)
        },
        !wrote ==> cur == before,
        !wrote ==> (glyph_bit(gb, bit) ==> !(px + 7 - bit < orig.width && py < orig.height)),
    ensures
        forall|x: int, y: int|
            0 <= x < orig.width && 0 <= y < orig.height ==> #[trigger] cur.pixel(x, y)
                == if byte_covers_upto(gb, bit as int + 1, px, py, x, y) {
                color | OPAQUE
            } else {
                orig.pixel(x, y)
            },
{
    assert forall|x: int, y: int|
        0 <= x < orig.width && 0 <= y < orig.height implies #[trigger] cur.pixel(x, y)
            == if byte_covers_upto(gb, bit as int + 1, px, py, x, y) {
            color | OPAQUE
        } else {
            orig.pixel(x, y)
        } by {
        if byte_covers_upto(gb, bit as int + 1, px, py, x, y) {
            let t = choose|t: u8|
                t < bit as int + 1 && #[trigger] glyph_bit(gb, t) && x == px + 7 - t && y == py;
            if t < bit {
                assert(byte_covers_upto(gb, bit as int, px, py, x, y));
                if wrote && x == px + 7 - bit && y == py {
                } else {
                    assert(cur.pixel(x, y) == before.pixel(x, y));
                }
            } else {
                assert(t == bit);
                assert(glyph_bit(gb, bit) && x == px + 7 - bit && y == py);
                assert(wrote);
            }
        } else {
            assert(!byte_covers_upto(gb, bit as int, px, py, x, y)) by {
                if byte_covers_upto(gb, bit as int, px, py, x, y) {
                    let t = choose|t: u8|
                        t < bit as int && #[trigger] glyph_bit(gb, t) && x == px + 7 - t && y
                            == py;
                    assert(byte_covers_upto(gb, bit as int + 1, px, py, x, y));
                }
            }
            if wrote && x == px + 7 - bit && y == py {
                assert(byte_covers_upto(gb, bit as int + 1, px, py, x, y));
            } else {
                assert(cur.pixel(x, y) == before.pixel(x, y));
            }
        }
    }
}

/// Paints the set bits of one glyph byte, left edge at `(px, py)`, through
/// the surface's clipped setter; a zero byte is skipped entirely.
fn blit_byte(d: &mut DrawHandle, gb: u8, px: u32, py: u64, color: u32)
    requires
        old(d).wf(),
    ensures
        final(d).wf(),
        final(d).width == old(d).width,
        final(d).height == old(d).height,
        forall|x: int, y: int|
            0 <= x < old(d).width && 0 <= y < old(d).height ==> #[trigger] final(d).pixel(x, y)
                == if byte_covers(gb, px as int, py as int, x, y) {
                color | OPAQUE
            } else {
                old(d).pixel(x, y)
            },
{
    if gb == 0 {
        proof {
            assert(forall|t: u8| t < 8 ==> ((0u8 & (1u8 << t)) == 0u8)) by (bit_vector);
        }
        return ;
    }
    let mut bit: u8 = 0;
    while bit < 8
        invariant
            d.wf(),
            d.width == old(d).width,
            d.height == old(d).height,
            bit <= 8,
            forall|x: int, y: int|
                0 <= x < old(d).width && 0 <= y < old(d).height ==> #[trigger] d.pixel(x, y)
                    == if byte_covers_upto(gb, bit as int, px as int, py as int, x, y) {
                    color | OPAQUE
                } else {
                    old(d).pixel(x, y)
                },
        decreases 8 - bit,
    {
        let ghost before = *d;
        if gb & (1u8 << bit) != 0 {
            proof {
                assert(glyph_bit(gb, bit));
            }
            let x64: u64 = (px as u64) + 7 - (bit as u64);
            if x64 < (d.width as u64) && py < (d.height as u64) {
                d.set(x64 as u32, py as u32, color);
                proof {
                    lemma_blit_step(
                        before,
                        *d,
                        *old(d),
                        gb,
                        bit,
                        px as int,
                        py as int,
                        color,
                        true,
                    );
                }
            } else {
                proof {
                    lemma_blit_step(
                        before,
                        *d,
                        *old(d),
                        gb,
                        bit,
                        px as int,
                        py as int,
                        color,
                        false,
                    );
                }
            }
        } else {
            proof {
                assert(!glyph_bit(gb, bit));
                lemma_blit_step(before, *d, *old(d), gb, bit, px as int, py as int, color, false);
            }
        }
        bit = bit + 1;
    }
}

impl DrawHandle {
    /// Draws a text onto this surface with the given decoded font; see
    /// `TextRenderer::render` for the pixel-level contract.
    pub fn draw_text(
        &mut self,
        tr: &TextRenderer,
        pos_x: u32,
        pos_y: u32,
        color: u32,
        text: &str,
    )
        requires
            old(self).wf(),
            tr.wf(),
            pos_x + tr.width * text@.len() <= u32::MAX,
        ensures
            final(self).wf(),
            final(self).width == old(self).width,
            final(self).height == old(self).height,
            forall|x: int, y: int|
                0 <= x < old(self).width && 0 <= y < old(self).height
                    ==> #[trigger] final(self).pixel(x, y)
                    == if tr.text_covers(pos_x as int, pos_y as int, text@, x, y) {
                    color | OPAQUE
                } else {
                    old(self).pixel(x, y)
                },
    {
        tr.render(self, pos_x, pos_y, color, text)
    }
}

} // verus!
