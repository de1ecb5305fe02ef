//! The question whether a tool may run.

use crate::text;
use vstd::prelude::*;

verus! {

/// A rectangle of the screen.
#[derive(Clone, Copy, Debug, PartialEq, Eq, Structural)]
pub struct Area {
    pub x: u16,
    pub y: u16,
    pub width: u16,
    pub height: u16,
}

/// The rectangle of the question: seven lines in the middle, up to sixty wide.
pub open spec fn popup(a: Area) -> Area {
    let width = if a.width < 60 {
        a.width as int
    } else {
        60
    };
    Area {
        x: (a.x + (a.width - width) / 2) as u16,
        y: (a.y + (if a.height > 7 {
            (a.height - 7) / 2
        } else {
            0
        })) as u16,
        width: width as u16,
        height: 7,
    }
}

/// The rectangle of the question in the middle of `area`.
pub fn popup_area(area: Area) -> (r: Area)
    requires
        area.x + area.width <= u16::MAX,
        area.y + area.height <= u16::MAX,
    ensures
        r == popup(area),
{
    let width: u16 = if area.width < 60 {
        area.width
    } else {
        60
    };
    let spare: u16 = if area.height > 7 {
        area.height - 7
    } else {
        0
    };
    Area {
        x: area.x + (area.width - width) / 2,
        y: area.y + spare / 2,
        width,
        height: 7,
    }
}

/// The bytes of a line that fit between the borders of a question of this width.
pub open spec fn inner(width: u16) -> int {
    if width > 4 {
        width - 4
    } else {
        0
    }
}

/// Where a line that does not fit is cut.
pub open spec fn cut(width: u16) -> int {
    if inner(width) > 1 {
        inner(width) - 1
    } else {
        0
    }
}

/// The arguments as they are shown: cut off where they do not fit.
pub open spec fn shown(args: Seq<char>, width: u16) -> Seq<char> {
    if text::size(args) > inner(width) {
        text::byte_prefix(args, cut(width)) + "…"@
    } else {
        args
    }
}

/// The arguments as they are shown in a question of this width. Arguments that do not fit
/// must have a character starting right where they are cut.
pub fn args_display(args: &str, width: u16) -> (r: String)
    requires
        text::size(args@) > inner(width) ==> text::boundary(args@, cut(width)),
    ensures
        r@ == shown(args@, width),
{
    let room: usize = if width > 4 {
        width as usize - 4
    } else {
        0
    };
    if text::byte_size(args) > room {
        let at: usize = if room > 1 {
            room - 1
        } else {
            0
        };
        let mut t = text::take_bytes(args, at).to_string();
        t.append("…");
        t
    } else {
        args.to_string()
    }
}

/// The question stays inside the screen where the screen has room for it.
pub proof fn law_popup_is_inside(a: Area)
    requires
        a.x + a.width <= u16::MAX,
        a.y + a.height <= u16::MAX,
        a.height >= 7,
    ensures
        a.x <= popup(a).x,
        popup(a).x + popup(a).width <= a.x + a.width,
        a.y <= popup(a).y,
        popup(a).y + popup(a).height <= a.y + a.height,
{
}

/// Arguments that fit are shown whole, and those that do not are marked as cut.
pub proof fn law_arguments_are_shown(args: Seq<char>, width: u16)
    ensures
        text::size(args) + 4 <= width ==> shown(args, width) == args,
        text::size(args) + 4 > width && width >= 4 ==> text::finishes_with(
            shown(args, width),
            "…"@,
        ),
{
    let s = shown(args, width);
    if text::size(args) > inner(width) {
        assert(s.subrange(s.len() - "…"@.len(), s.len() as int) =~= "…"@);
    }
}

/// Arguments are cut where the mark behind them still fits.
pub proof fn law_cut_leaves_room(width: u16)
    ensures
        width > 5 ==> cut(width) + 1 + 4 == width,
        width <= 5 ==> cut(width) == 0,
{
}

} // verus!
