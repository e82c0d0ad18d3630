//! Colours of the compact visualizer's themes, and where its popups stand.
use vstd::prelude::*;
use crate::multi::config::{color_number, color_ok, parse_color, rgb_bytes, texts, Config};
use crate::studio::ui::{centered_rect, Rect};
use crate::text;

verus! {

/// The colour a text names, or white when it names none.
pub open spec fn color_of_text(s: Seq<char>) -> (u8, u8, u8) {
    if color_ok(s) {
        rgb_bytes(color_number(s)->0)
    } else {
        (255, 255, 255)
    }
}

/// The colour `s` names (`#RRGGBB`), or white.
pub fn color(s: &str) -> (r: (u8, u8, u8))
    ensures
        r == color_of_text(s@),
{
    match parse_color(s) {
        Ok(c) => c,
        Err(_) => (255, 255, 255),
    }
}

/// The gradient stops of a theme; `custom` takes the configured gradient, and an
/// unknown theme gets the aurora colours.
pub open spec fn palette_texts(theme: Seq<char>, gradient: Seq<Seq<char>>) -> Seq<Seq<char>> {
    if theme == "fire"@ {
        seq!["#FFCC66"@, "#FF7755"@, "#E64B87"@]
    } else if theme == "ocean"@ {
        seq!["#55E8EA"@, "#4299FF"@, "#6868D9"@]
    } else if theme == "mono"@ {
        seq!["#D8E2F0"@, "#FFFFFF"@]
    } else if theme == "custom"@ {
        gradient
    } else {
        seq!["#45E0B8"@, "#55A7FF"@, "#C58CFF"@]
    }
}

fn preset_texts(theme: &str) -> (r: Option<Vec<&'static str>>)
    ensures
        theme@ == "custom"@ ==> r is None,
        theme@ != "custom"@ ==> (r matches Some(v) && v@.map_values(|s: &str| s@) == palette_texts(
            theme@,
            seq![],
        )),
{
    proof {
        reveal_strlit("fire");
        reveal_strlit("ocean");
        reveal_strlit("mono");
        reveal_strlit("custom");
        assert("custom"@ != "fire"@ && "custom"@ != "ocean"@ && "custom"@ != "mono"@) by {
            assert("custom"@.len() == 6 && "fire"@.len() == 4 && "ocean"@.len() == 5 && "mono"@.len() == 4);
        }
    }
    let v: Vec<&'static str> = if text::same_text(theme, "fire") {
        vec!["#FFCC66", "#FF7755", "#E64B87"]
    } else if text::same_text(theme, "ocean") {
        vec!["#55E8EA", "#4299FF", "#6868D9"]
    } else if text::same_text(theme, "mono") {
        vec!["#D8E2F0", "#FFFFFF"]
    } else if text::same_text(theme, "custom") {
        return None;
    } else {
        vec!["#45E0B8", "#55A7FF", "#C58CFF"]
    };
    assert(v@.map_values(|s: &str| s@) =~= palette_texts(theme@, seq![]));
    Some(v)
}

/// The colours of the configured theme, in gradient order.
pub fn palette(c: &Config) -> (r: Vec<(u8, u8, u8)>)
    ensures
        r@ == palette_texts(c.theme@, texts(c.gradient@)).map_values(
            |s: Seq<char>| color_of_text(s),
        ),
{
    proof {
        reveal_strlit("fire");
        reveal_strlit("ocean");
        reveal_strlit("mono");
        reveal_strlit("custom");
        assert("custom"@ != "fire"@ && "custom"@ != "ocean"@ && "custom"@ != "mono"@) by {
            assert("custom"@.len() == 6 && "fire"@.len() == 4 && "ocean"@.len() == 5 && "mono"@.len() == 4);
        }
    }
    let ghost want = palette_texts(c.theme@, texts(c.gradient@));
    let mut out: Vec<(u8, u8, u8)> = Vec::new();
    match preset_texts(c.theme.as_str()) {
        Some(v) => {
            assert(v@.map_values(|s: &str| s@) == want);
            let mut k: usize = 0;
            while k < v.len()
                invariant
                    k <= v.len(),
                    v@.map_values(|s: &str| s@) == want,
                    out@ == want.take(k as int).map_values(|s: Seq<char>| color_of_text(s)),
                decreases v.len() - k,
            {
                assert(want[k as int] == v@[k as int]@);
                out.push(color(v[k]));
                assert(out@ =~= want.take(k + 1).map_values(|s: Seq<char>| color_of_text(s)));
                k = k + 1;
            }
            assert(want.take(k as int) =~= want);
        },
        None => {
            assert(want == texts(c.gradient@));
            let mut k: usize = 0;
            while k < c.gradient.len()
                invariant
                    k <= c.gradient.len(),
                    want == texts(c.gradient@),
                    out@ == want.take(k as int).map_values(|s: Seq<char>| color_of_text(s)),
                decreases c.gradient.len() - k,
            {
                assert(want[k as int] == c.gradient@[k as int]@);
                out.push(color(c.gradient[k].as_str()));
                assert(out@ =~= want.take(k + 1).map_values(|s: Seq<char>| color_of_text(s)));
                k = k + 1;
            }
            assert(want.take(k as int) =~= want);
        },
    }
    out
}

/// A popup's extent along one axis: what it asks for, but at most the area's extent
/// less two cells.
pub open spec fn inset_len(want: int, extent: int) -> int {
    let room = if extent >= 2 { extent - 2 } else { 0 };
    if want < room {
        want
    } else {
        room
    }
}

/// A `width` x `height` popup centred in `area`, leaving at least one cell free on
/// each side where the area is too small for it.
pub fn centered(area: Rect, width: u16, height: u16) -> (r: Rect)
    requires
        area.x + (area.width - inset_len(width as int, area.width as int)) / 2 <= u16::MAX,
        area.y + (area.height - inset_len(height as int, area.height as int)) / 2 <= u16::MAX,
    ensures
        r == centered_rect(area, inset_len(width as int, area.width as int), inset_len(height as int, area.height as int)),
        r.width as int == inset_len(width as int, area.width as int),
        r.height as int == inset_len(height as int, area.height as int),
{
    let room_w = area.width.saturating_sub(2);
    let room_h = area.height.saturating_sub(2);
    let w = if width < room_w {
        width
    } else {
        room_w
    };
    let h = if height < room_h {
        height
    } else {
        room_h
    };
    crate::studio::ui::centered(area, w, h)
}

} // verus!
