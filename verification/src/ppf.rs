//! The "pixel perfect format" bitmap asset loader.
//!
//! The format is text: the first line is the literal marker `ppf`; lines
//! starting with `#` are comments; every other line is a data row of
//! whitespace-separated tokens, each exactly `1` (opaque black), `0`
//! (opaque white) or `x` (transparent white).  The first data row fixes the
//! width, every later row must match it exactly, and the row count is the
//! height.  Anything else is a format error.
//!
//! The specification is a byte-at-a-time scanner: `ppf_run` folds
//! `ppf_step` over the bytes after the marker, and `parse_ppf` says exactly
//! which inputs load, to which bitmap, and which error every other input
//! produces.

use crate::bitmap::{BitMap, BitMapView, Pixel};
use vstd::arithmetic::mul::lemma_mul_is_commutative;
use vstd::prelude::*;

verus! {

/// Why an asset failed to load.
#[derive(Clone, Copy, Debug, PartialEq, Eq, Structural)]
pub enum PpfError {
    /// The input does not begin with the `ppf` marker line.
    BadMagic,
    /// A token is not one of `1`, `0`, `x`.
    BadToken,
    /// A data row's width differs from the first data row's.
    RowMismatch,
}

/// Whitespace that separates tokens within a line (space, tab, carriage
/// return, form feed); the newline itself ends the line.
pub open spec fn is_ws(b: u8) -> bool {
    b == 0x20 || b == 0x09 || b == 0x0d || b == 0x0c
}

/// The three valid tokens: `1`, `0`, `x`.
pub open spec fn is_token_byte(b: u8) -> bool {
    b == 0x31 || b == 0x30 || b == 0x78
}

/// The pixel a token denotes: `1` is opaque black, `0` opaque white, `x`
/// white data carrying the transparency marker.
pub open spec fn token_pixel(b: u8) -> Pixel {
    if b == 0x31 {
        Pixel { blue: 0x00, green: 0x00, red: 0x00, alpha: 0x00 }
    } else if b == 0x30 {
        Pixel { blue: 0xff, green: 0xff, red: 0xff, alpha: 0x00 }
    } else {
        Pixel { blue: 0xff, green: 0xff, red: 0xff, alpha: 0xff }
    }
}

/// Scanner state after some prefix of the bytes behind the marker.
#[verifier::ext_equal]
pub ghost struct PpfScan {
    /// The first error hit, if any; once set the scanner is frozen.
    pub error: Option<PpfError>,
    /// Whether a first data row has been closed (fixing the width).
    pub got_first: bool,
    /// Token count of the first data row.
    pub width: int,
    /// Tokens seen so far in the current line.
    pub count: int,
    /// Data rows closed so far.
    pub rows: int,
    /// Whether the previous byte was a token byte (tokens are single bytes).
    pub in_token: bool,
    /// Whether the current line is a comment.
    pub comment: bool,
    /// Whether the current line has any byte so far.
    pub started: bool,
    /// Pixels of the closed rows plus the current line, in order.
    pub pixels: Seq<Pixel>,
}

pub open spec fn ppf_init() -> PpfScan {
    PpfScan {
        error: Option::None,
        got_first: false,
        width: 0,
        count: 0,
        rows: 0,
        in_token: false,
        comment: false,
        started: false,
        pixels: Seq::empty(),
    }
}

/// Close the current line as a data row: the first row fixes the width,
/// every later row must match it.
pub open spec fn ppf_close_row(st: PpfScan) -> PpfScan {
    if !st.got_first {
        PpfScan {
            got_first: true,
            width: st.count,
            count: 0,
            rows: st.rows + 1,
            in_token: false,
            started: false,
            ..st
        }
    } else if st.count != st.width {
        PpfScan { error: Option::Some(PpfError::RowMismatch), ..st }
    } else {
        PpfScan { count: 0, rows: st.rows + 1, in_token: false, started: false, ..st }
    }
}

/// One byte of input.
pub open spec fn ppf_step(st: PpfScan, b: u8) -> PpfScan {
    if st.error is Some {
        st
    } else if st.comment {
        if b == 0x0a {
            PpfScan { comment: false, started: false, in_token: false, count: 0, ..st }
        } else {
            st
        }
    } else if b == 0x0a {
        ppf_close_row(st)
    } else if is_ws(b) {
        PpfScan { in_token: false, started: true, ..st }
    } else if b == 0x23 && !st.started {
        PpfScan { comment: true, ..st }
    } else if is_token_byte(b) {
        if st.in_token {
            PpfScan { error: Option::Some(PpfError::BadToken), ..st }
        } else {
            PpfScan {
                in_token: true,
                started: true,
                count: st.count + 1,
                pixels: st.pixels.push(token_pixel(b)),
                ..st
            }
        }
    } else {
        PpfScan { error: Option::Some(PpfError::BadToken), ..st }
    }
}

/// The scanner state after all of `s`.
pub open spec fn ppf_run(s: Seq<u8>) -> PpfScan
    decreases s.len(),
{
    if s.len() == 0 {
        ppf_init()
    } else {
        ppf_step(ppf_run(s.drop_last()), s.last())
    }
}

/// The width the scanner has committed to so far.
pub open spec fn scan_width(st: PpfScan) -> int {
    if st.got_first {
        st.width
    } else {
        0
    }
}

/// End of input: a final line without a trailing newline still closes as a
/// data row (a trailing comment line is skipped), and the pixels collected
/// form the bitmap.
pub open spec fn ppf_finish(st: PpfScan) -> Result<BitMapView, PpfError> {
    if st.error is Some {
        Result::Err(st.error->0)
    } else {
        let st1 = if !st.comment && st.started {
            ppf_close_row(st)
        } else {
            st
        };
        if st1.error is Some {
            Result::Err(st1.error->0)
        } else {
            Result::Ok(
                BitMapView {
                    width: scan_width(st1) as nat,
                    height: st1.rows as nat,
                    pixels: st1.pixels,
                },
            )
        }
    }
}

/// The input begins with the marker line `ppf`.
pub open spec fn has_magic(data: Seq<u8>) -> bool {
    data.len() >= 4 && data[0] == 0x70 && data[1] == 0x70 && data[2] == 0x66 && data[3] == 0x0a
}

/// Exactly what an input loads to: the bitmap for a well-formed asset, the
/// specific format error otherwise.
pub open spec fn parse_ppf(data: Seq<u8>) -> Result<BitMapView, PpfError> {
    if !has_magic(data) {
        Result::Err(PpfError::BadMagic)
    } else {
        ppf_finish(ppf_run(data.skip(4)))
    }
}

/// Structural facts every error-free scanner state satisfies: counters are
/// bounded by the input length, no rows close before the first, and the
/// pixel count is exactly full rows times the width plus the current line.
pub open spec fn scan_inv(st: PpfScan, len: int) -> bool {
    &&& 0 <= st.count <= len
    &&& 0 <= st.width <= len
    &&& 0 <= st.rows <= len
    &&& st.pixels.len() <= len
    &&& (!st.got_first ==> st.rows == 0 && st.width == 0)
    &&& (st.comment ==> st.count == 0 && !st.started)
    &&& (!st.started ==> st.count == 0)
    &&& st.pixels.len() == st.rows * scan_width(st) + st.count
}

/// The scanner invariant holds after any input.
pub proof fn lemma_ppf_run_inv(s: Seq<u8>)
    requires
        ppf_run(s).error is None,
    ensures
        scan_inv(ppf_run(s), s.len() as int),
    decreases s.len(),
{
    if s.len() > 0 {
        let st = ppf_run(s.drop_last());
        let b = s.last();
        if st.error is Some {
            assert(ppf_run(s) == st);
            assert(false);
        }
        lemma_ppf_run_inv(s.drop_last());
        if st.error is None && !st.comment && b == 0x0a {
            if !st.got_first {
                assert((st.rows + 1) * st.count == st.rows * st.count + st.count)
                    by (nonlinear_arith);
                assert(st.rows == 0);
            } else if st.count == st.width {
                assert((st.rows + 1) * st.width == st.rows * st.width + st.width)
                    by (nonlinear_arith);
            }
        }
    }
}

/// Closing the final row preserves the pixel-count relation.
pub proof fn lemma_close_row_inv(st: PpfScan, len: int)
    requires
        st.error is None,
        scan_inv(st, len),
        ppf_close_row(st).error is None,
    ensures
        scan_inv(ppf_close_row(st), len + 1),
{
    let st1 = ppf_close_row(st);
    if !st.got_first {
        assert((st.rows + 1) * st.count == st.rows * st.count + st.count) by (nonlinear_arith);
        assert(st.rows == 0);
    } else {
        assert((st.rows + 1) * st.width == st.rows * st.width + st.width) by (nonlinear_arith);
    }
}

/// Once the scanner has hit an error, the rest of the input cannot change
/// it.
pub proof fn lemma_ppf_run_frozen(s: Seq<u8>, i: int)
    requires
        0 <= i <= s.len(),
        ppf_run(s.take(i)).error is Some,
    ensures
        ppf_run(s).error == ppf_run(s.take(i)).error,
    decreases s.len() - i,
{
    if i < s.len() {
        assert(s.take(i + 1).drop_last() =~= s.take(i));
        assert(ppf_run(s.take(i + 1)) == ppf_step(ppf_run(s.take(i)), s.take(i + 1).last()));
        assert(ppf_run(s.take(i + 1)).error == ppf_run(s.take(i)).error);
        lemma_ppf_run_frozen(s, i + 1);
    } else {
        assert(s.take(i) =~= s);
    }
}

/// Load a bitmap asset from the raw bytes of a "pixel perfect format"
/// file.  Returns exactly what `parse_ppf` describes: the decoded bitmap
/// for a well-formed asset, the specific format error otherwise.
pub fn load(data: &Vec<u8>) -> (r: Result<BitMap, PpfError>)
    requires
        data@.len() <= u32::MAX,
    ensures
        ({
            let p = parse_ppf(data@);
            match r {
                Result::Ok(b) => p matches Ok(v) && b@ == v && b@.wf(),
                Result::Err(e) => p matches Err(e2) && e2 == e,
            }
        }),
{
    if data.len() < 4 {
        return Err(PpfError::BadMagic);
    }
    if !(data[0] == 0x70 && data[1] == 0x70 && data[2] == 0x66 && data[3] == 0x0a) {
        return Err(PpfError::BadMagic);
    }
    let ghost body = data@.skip(4);
    let mut i: usize = 4;
    let mut got_first: bool = false;
    let mut width: usize = 0;
    let mut count: usize = 0;
    let mut rows: usize = 0;
    let mut in_token: bool = false;
    let mut comment: bool = false;
    let mut started: bool = false;
    let mut pxs: Vec<Pixel> = Vec::new();
    while i < data.len()
        invariant
            4 <= i <= data@.len(),
            data@.len() <= u32::MAX,
            has_magic(data@),
            body == data@.skip(4),
            ({
                let st = ppf_run(body.take(i - 4));
                &&& st.error is None
                &&& st.got_first == got_first
                &&& st.width == width
                &&& st.count == count
                &&& st.rows == rows
                &&& st.in_token == in_token
                &&& st.comment == comment
                &&& st.started == started
                &&& st.pixels == pxs@
            }),
        decreases data@.len() - i,
    {
        let ghost j = i - 4;
        let ghost st = ppf_run(body.take(j));
        let b = data[i];
        proof {
            assert(body.take(j + 1).drop_last() =~= body.take(j));
            assert(body.take(j + 1).last() == body[j]);
            assert(body[j] == data@[i as int]);
            assert(ppf_run(body.take(j + 1)) == ppf_step(st, b));
            lemma_ppf_run_inv(body.take(j));
        }
        if comment {
            if b == 0x0a {
                comment = false;
                started = false;
                in_token = false;
                count = 0;
            }
        } else if b == 0x0a {
            if !got_first {
                got_first = true;
                width = count;
                count = 0;
                rows = rows + 1;
                in_token = false;
                started = false;
            } else if count != width {
                proof {
                    lemma_ppf_run_frozen(body, j + 1);
                    assert(body.take(body.len() as int) =~= body);
                }
                return Err(PpfError::RowMismatch);
            } else {
                count = 0;
                rows = rows + 1;
                in_token = false;
                started = false;
            }
        } else if b == 0x20 || b == 0x09 || b == 0x0d || b == 0x0c {
            in_token = false;
            started = true;
        } else if b == 0x23 && !started {
            comment = true;
        } else if b == 0x31 || b == 0x30 || b == 0x78 {
            if in_token {
                proof {
                    lemma_ppf_run_frozen(body, j + 1);
                    assert(body.take(body.len() as int) =~= body);
                }
                return Err(PpfError::BadToken);
            }
            in_token = true;
            started = true;
            count = count + 1;
            let px = if b == 0x31 {
                Pixel::new(0x00, 0x00, 0x00)
            } else if b == 0x30 {
                Pixel::new(0xff, 0xff, 0xff)
            } else {
                Pixel { blue: 0xff, green: 0xff, red: 0xff, alpha: 0xff }
            };
            pxs.push(px);
        } else {
            proof {
                lemma_ppf_run_frozen(body, j + 1);
                assert(body.take(body.len() as int) =~= body);
            }
            return Err(PpfError::BadToken);
        }
        i = i + 1;
    }
    proof {
        assert(body.take(i - 4) =~= body);
        lemma_ppf_run_inv(body);
    }
    let ghost st_end = ppf_run(body);
    if !comment && started {
        if !got_first {
            got_first = true;
            width = count;
            count = 0;
            rows = rows + 1;
        } else if count != width {
            return Err(PpfError::RowMismatch);
        } else {
            count = 0;
            rows = rows + 1;
        }
        proof {
            lemma_close_row_inv(st_end, body.len() as int);
        }
    }
    proof {
        lemma_mul_is_commutative(rows as int, width as int);
    }
    let bw: u32 = width as u32;
    let bh: u32 = rows as u32;
    Ok(BitMap { width: bw, height: bh, pxs })
}

} // verus!
