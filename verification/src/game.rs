//! Keyboard control of the brick game: which way the paddle moves and whether the
//! game is paused.
use vstd::prelude::*;

verus! {

/// Scan code of the `A` key going down.
pub const A_DOWN: u8 = 0x1e;

/// Scan code of the `A` key coming up.
pub const A_UP: u8 = 0x9e;

/// Scan code of the `D` key going down.
pub const D_DOWN: u8 = 0x20;

/// Scan code of the `D` key coming up.
pub const D_UP: u8 = 0xa0;

/// Scan code of the space bar coming up.
pub const SPACE_UP: u8 = 185;

/// The direction the paddle moves in (-1, 0 or 1) and whether the game is paused,
/// after the key with scan code `key`: `D` moves right while held, `A` left, letting
/// go of the key the paddle moves towards stops it, and the space bar toggles the
/// pause.
pub open spec fn key_effect(paddle_dir: i8, pause: bool, key: u8) -> (i8, bool) {
    if key == D_DOWN {
        (1i8, pause)
    } else if key == D_UP {
        (if paddle_dir == 1 {
            0i8
        } else {
            paddle_dir
        }, pause)
    } else if key == A_DOWN {
        (-1i8, pause)
    } else if key == A_UP {
        (if paddle_dir == -1 {
            0i8
        } else {
            paddle_dir
        }, pause)
    } else if key == SPACE_UP {
        (paddle_dir, !pause)
    } else {
        (paddle_dir, pause)
    }
}

/// Applies the key with scan code `key` to the paddle direction and the pause flag.
pub fn handle_key(paddle_dir: i8, pause: bool, key: u8) -> (r: (i8, bool))
    ensures
        r == key_effect(paddle_dir, pause, key),
{
    if key == D_DOWN {
        (1i8, pause)
    } else if key == D_UP {
        (if paddle_dir == 1 {
            0i8
        } else {
            paddle_dir
        }, pause)
    } else if key == A_DOWN {
        (-1i8, pause)
    } else if key == A_UP {
        (if paddle_dir == -1 {
            0i8
        } else {
            paddle_dir
        }, pause)
    } else if key == SPACE_UP {
        (paddle_dir, !pause)
    } else {
        (paddle_dir, pause)
    }
}

} // verus!
