//! The outer terminal's geometry: how large the terminal the client draws
//! into is.

use vstd::prelude::*;

use crate::proto::Size;

verus! {

/// The geometry of a terminal that reports none.
///
/// A report of zero rows or columns is legal. Rendering into a zero-sized grid
/// would draw nothing at all, so a conventional 80x24 is substituted instead.
#[verifier::allow_in_spec]
pub fn fallback_size() -> Size
    returns
        (Size { cols: 80, rows: 24 }),
{
    Size { cols: 80, rows: 24 }
}

/// The size a report of `cols` by `rows` stands for: itself, or
/// [`fallback_size`] where either is zero.
pub fn size_from_winsize(cols: u16, rows: u16) -> (size: Size)
    ensures
        cols == 0 || rows == 0 ==> size == fallback_size(),
        cols != 0 && rows != 0 ==> size == (Size { cols, rows }),
        size.cols > 0 && size.rows > 0,
{
    if cols == 0 || rows == 0 {
        return fallback_size();
    }
    Size::new(cols, rows)
}

/// The size to draw at, given what stdout and then stdin answered.
///
/// Stdout is asked first because that is where frames are written. A terminal
/// that answers neither gets [`fallback_size`].
pub fn current_size_from(stdout: Option<Size>, stdin: Option<Size>) -> (size: Size)
    ensures
        size == (match stdout {
            Some(out) => out,
            None => match stdin {
                Some(inp) => inp,
                None => fallback_size(),
            },
        }),
{
    match stdout {
        Some(out) => out,
        None => match stdin {
            Some(inp) => inp,
            None => fallback_size(),
        },
    }
}

} // verus!
