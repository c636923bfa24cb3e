//! The frame around every view: the size gate, the header row, the body,
//! the off-screen SCORES lane of the views that do not draw their own, the
//! footer row, and where a cut lands — a takeover over everything under the
//! header, or a two-row band at the top of the body.
use vstd::prelude::*;
use crate::cut::BAND_ROWS;
use crate::layout::{plan, plan_spec};
use crate::rect::Rect;
use crate::text::{append, append_dec, dec};

verus! {

/// The smallest frame anything is drawn in.
pub const MIN_WIDTH: u16 = 40;

pub const MIN_HEIGHT: u16 = 12;

/// What the frame lays out.
#[derive(Clone, Debug)]
pub enum FrameLayout {
    /// Below 40×12: one line naming both sizes, nothing else.
    TooSmall { message: String },
    /// A full cut: the header, and the takeover on every row under it.
    Takeover { header: Rect, below: Rect },
    /// The ordinary frame. `lane` is zero rows tall when no lane draws;
    /// `band` is where a band cut is painted.
    Split { header: Rect, body: Rect, lane: Rect, footer: Rect, band: Option<Rect> },
}

/// `need 40×12, have W×H`: the limit and the actual size, both.
pub open spec fn too_small_spec(width: u16, height: u16) -> Seq<char> {
    "need 40×12, have "@ + dec(width as nat) + "×"@ + dec(height as nat)
}

/// The rows the frame's own SCORES lane takes: none on the views that
/// draw their own strip (`own_strip`: the board, the theme picker over it,
/// TV), else `lane_height` exactly when the board's plan for this size and
/// these counts would truncate.
pub open spec fn lane_rows_spec(
    width: u16,
    height: u16,
    own_strip: bool,
    live: usize,
    finals: usize,
    later: usize,
    band_games: usize,
    lane_height: u16,
) -> u16 {
    if own_strip {
        0
    } else if plan_spec(width as int, height - 2, live as int, finals as int, later as int, band_games as int).scores_lane {
        lane_height
    } else {
        0
    }
}

pub open spec fn row(y: int, width: u16, height: int) -> Rect {
    Rect { x: 0, y: y as u16, width, height: height as u16 }
}

/// The frame for a `width`×`height` screen. `cut` is the active cut's
/// `full` flag, `cut_on_board` whether its game is still on a board. The
/// header is the top row and the footer the bottom one; the lane sits right
/// above the footer; the body takes the rest. A full cut whose game is on a
/// board takes over everything under the header; a band cut whose game is
/// on a board lands on the body's top two rows when the body is taller than
/// that, and a view that does not reserve those rows (`own_strip` false)
/// gives them up.
pub open spec fn frame_spec(
    width: u16,
    height: u16,
    own_strip: bool,
    live: usize,
    finals: usize,
    later: usize,
    band_games: usize,
    lane_height: u16,
    cut: Option<bool>,
    cut_on_board: bool,
) -> (int, Rect, Rect, Rect, Rect, Option<Rect>) {
    let t = lane_rows_spec(width, height, own_strip, live, finals, later, band_games, lane_height);
    let body_h = height - 2 - t;
    let band = if cut == Some(false) && cut_on_board && body_h > BAND_ROWS {
        Some(row(1, width, BAND_ROWS as int))
    } else {
        None
    };
    let body = if band is Some && !own_strip {
        row(1 + BAND_ROWS, width, body_h - BAND_ROWS)
    } else {
        row(1, width, body_h)
    };
    let kind = if width < MIN_WIDTH || height < MIN_HEIGHT {
        0int
    } else if cut == Some(true) && cut_on_board {
        1int
    } else {
        2int
    };
    (kind, row(0, width, 1), body, row(height - 1 - t, width, t as int), row(height - 1, width, 1), band)
}

/// Lays out one frame. `lane_height` is the lane's own height, at most
/// seven rows so that the body keeps three on the smallest frame.
pub fn frame_layout(
    width: u16,
    height: u16,
    own_strip: bool,
    live: usize,
    finals: usize,
    later: usize,
    band_games: usize,
    lane_height: u16,
    cut: Option<bool>,
    cut_on_board: bool,
) -> (f: FrameLayout)
    requires
        lane_height <= 7,
    ensures
        ({
            let s = frame_spec(width, height, own_strip, live, finals, later, band_games, lane_height, cut, cut_on_board);
            match f {
                FrameLayout::TooSmall { message } => s.0 == 0 && message@ == too_small_spec(width, height),
                FrameLayout::Takeover { header, below } => s.0 == 1 && header == s.1 && below == row(
                    1,
                    width,
                    height - 1,
                ),
                FrameLayout::Split { header, body, lane, footer, band } => s.0 == 2 && header == s.1 && body == s.2
                    && lane == s.3 && footer == s.4 && band == s.5,
            }
        }),
{
    if width < MIN_WIDTH || height < MIN_HEIGHT {
        let mut message = String::new();
        append(&mut message, "need 40×12, have ");
        append_dec(&mut message, width as u64);
        append(&mut message, "×");
        append_dec(&mut message, height as u64);
        return FrameLayout::TooSmall { message };
    }
    let header = Rect { x: 0, y: 0, width, height: 1 };
    if cut == Some(true) && cut_on_board {
        return FrameLayout::Takeover { header, below: Rect { x: 0, y: 1, width, height: height - 1 } };
    }
    let t: u16 = if own_strip {
        0
    } else if plan(width, height - 2, live, finals, later, band_games).scores_lane {
        lane_height
    } else {
        0
    };
    let body_h: u16 = height - 2 - t;
    let band = if cut == Some(false) && cut_on_board && body_h > BAND_ROWS {
        Some(Rect { x: 0, y: 1, width, height: BAND_ROWS })
    } else {
        None
    };
    let body = if band.is_some() && !own_strip {
        Rect { x: 0, y: 1 + BAND_ROWS, width, height: body_h - BAND_ROWS }
    } else {
        Rect { x: 0, y: 1, width, height: body_h }
    };
    let lane = Rect { x: 0, y: height - 1 - t, width, height: t };
    let footer = Rect { x: 0, y: height - 1, width, height: 1 };
    FrameLayout::Split { header, body, lane, footer, band }
}

/// Where the footer lands: a view that ended its content above the floor
/// (`content_end`, its last row) keeps the footer on the row under it, unless
/// a lane owns the bottom of the frame; otherwise the footer stays put.
pub fn footer_at(content_end: Option<u16>, lane_rows: u16, footer: Rect) -> (r: Rect)
    ensures
        r == match content_end {
            Some(end) if lane_rows == 0 && end + 1 < footer.y => Rect { y: (end + 1) as u16, height: 1, ..footer },
            _ => footer,
        },
{
    match content_end {
        Some(end) => {
            if lane_rows == 0 && (end as u32) + 1 < footer.y as u32 {
                Rect { x: footer.x, y: end + 1, width: footer.width, height: 1 }
            } else {
                footer
            }
        },
        None => footer,
    }
}

} // verus!
