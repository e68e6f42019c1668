//! The help window: its text split into styled fragments, and its placement.
use vstd::prelude::*;

verus! {

/// The help text. Byte 0x02 starts a highlighted span and byte 0x01 returns
/// to plain text.
pub fn help_text() -> &'static str {
    "\x02        h:\x01 Toggle this help window\n\x02 ESC q ^C:\x01 Quit"
}

/// A run of help text in one style.
#[derive(Clone, Debug)]
pub struct Fragment {
    pub highlight: bool,
    pub text: Vec<u8>,
}

pub open spec fn frag_view(f: Fragment) -> (bool, Seq<u8>) {
    (f.highlight, f.text@)
}

/// Bytes below 0x08 switch the style rather than being shown.
pub open spec fn is_marker(c: u8) -> bool {
    c < 0x08
}

/// Text that uses only the two style markers.
pub open spec fn markers_known(b: Seq<u8>) -> bool {
    forall|k: int| 0 <= k < b.len() && is_marker(#[trigger] b[k]) ==> b[k] == 0x01 || b[k] == 0x02
}

/// Reading `b` from the left: the fragments closed so far, the text of the
/// open fragment, and whether it is highlighted.
pub open spec fn split_scan(b: Seq<u8>) -> (Seq<(bool, Seq<u8>)>, Seq<u8>, bool)
    decreases b.len(),
{
    if b.len() == 0 {
        (Seq::empty(), Seq::empty(), false)
    } else {
        let (done, open, hl) = split_scan(b.drop_last());
        let c = b.last();
        if is_marker(c) {
            (done.push((hl, open)), Seq::empty(), c == 0x02)
        } else {
            (done, open.push(c), hl)
        }
    }
}

/// The styled fragments of `b`: the text between markers, each in the style
/// that the marker before it chose (plain at the start).
pub open spec fn fragments_of(b: Seq<u8>) -> Seq<(bool, Seq<u8>)> {
    let (done, open, hl) = split_scan(b);
    done.push((hl, open))
}

/// Splits help text into its styled fragments.
pub fn help_fragments(b: &[u8]) -> (r: Vec<Fragment>)
    requires
        markers_known(b@),
    ensures
        r@.map_values(|f: Fragment| frag_view(f)) == fragments_of(b@),
{
    let mut done: Vec<Fragment> = Vec::new();
    let mut open: Vec<u8> = Vec::new();
    let mut hl = false;
    let n = b.len();
    let mut i: usize = 0;
    while i < n
        invariant
            n == b@.len(),
            i <= n,
            split_scan(b@.take(i as int)) == (
                done@.map_values(|f: Fragment| frag_view(f)),
                open@,
                hl,
            ),
        decreases n - i,
    {
        let c = b[i];
        assert(b@.take(i + 1).drop_last() =~= b@.take(i as int));
        if c < 0x08 {
            let ghost before = done@;
            done.push(Fragment { highlight: hl, text: open });
            assert(done@.map_values(|f: Fragment| frag_view(f)) =~= before.map_values(
                |f: Fragment| frag_view(f),
            ).push((hl, open@)));
            open = Vec::new();
            hl = c == 0x02;
        } else {
            open.push(c);
        }
        i += 1;
    }
    assert(b@.take(n as int) =~= b@);
    let ghost before = done@;
    let last = Fragment { highlight: hl, text: open };
    done.push(last);
    assert(done@.map_values(|f: Fragment| frag_view(f)) =~= before.map_values(
        |f: Fragment| frag_view(f),
    ).push(frag_view(last)));
    done
}

/// Counting lines from the left: the widest finished line and the width of
/// the current one, where a line's width counts its bytes from 0x20 up.
pub open spec fn width_scan(b: Seq<u8>) -> (nat, nat)
    decreases b.len(),
{
    if b.len() == 0 {
        (0, 0)
    } else {
        let (widest, cur) = width_scan(b.drop_last());
        let c = b.last();
        if c == 0x0a {
            (if cur > widest { cur } else { widest }, 0)
        } else if c >= 0x20 {
            (widest, cur + 1)
        } else {
            (widest, cur)
        }
    }
}

/// The width of the widest line of `b`.
pub open spec fn text_width(b: Seq<u8>) -> nat {
    let (widest, cur) = width_scan(b);
    if cur > widest {
        cur
    } else {
        widest
    }
}

pub open spec fn count_newlines(b: Seq<u8>) -> nat
    decreases b.len(),
{
    if b.len() == 0 {
        0
    } else {
        count_newlines(b.drop_last()) + if b.last() == 0x0a {
            1nat
        } else {
            0nat
        }
    }
}

/// The number of lines of `b`, where a final newline ends the last line
/// rather than starting an empty one.
pub open spec fn text_height(b: Seq<u8>) -> nat {
    if b.len() == 0 {
        0
    } else if b.last() == 0x0a {
        count_newlines(b)
    } else {
        count_newlines(b) + 1
    }
}

proof fn lemma_width_scan_bounded(b: Seq<u8>)
    ensures
        width_scan(b).0 <= b.len(),
        width_scan(b).1 <= b.len(),
    decreases b.len(),
{
    if b.len() > 0 {
        lemma_width_scan_bounded(b.drop_last());
    }
}

proof fn lemma_count_newlines_bounded(b: Seq<u8>)
    ensures
        count_newlines(b) <= b.len(),
    decreases b.len(),
{
    if b.len() > 0 {
        lemma_count_newlines_bounded(b.drop_last());
    }
}

/// The width and the number of lines of a text.
pub fn text_size(b: &[u8]) -> (r: (usize, usize))
    ensures
        r.0 == text_width(b@),
        r.1 == text_height(b@),
{
    let mut widest: usize = 0;
    let mut cur: usize = 0;
    let mut newlines: usize = 0;
    let n = b.len();
    let mut i: usize = 0;
    while i < n
        invariant
            n == b@.len(),
            i <= n,
            width_scan(b@.take(i as int)) == (widest as nat, cur as nat),
            count_newlines(b@.take(i as int)) == newlines,
        decreases n - i,
    {
        proof {
            lemma_width_scan_bounded(b@.take(i as int));
            lemma_count_newlines_bounded(b@.take(i as int));
        }
        let c = b[i];
        assert(b@.take(i + 1).drop_last() =~= b@.take(i as int));
        if c == 0x0a {
            if cur > widest {
                widest = cur;
            }
            cur = 0;
            newlines += 1;
        } else if c >= 0x20 {
            cur += 1;
        }
        i += 1;
    }
    assert(b@.take(n as int) =~= b@);
    let width = if cur > widest {
        cur
    } else {
        widest
    };
    proof {
        if n > 0 {
            lemma_count_newlines_bounded(b@.drop_last());
        }
    }
    let height = if n == 0 {
        0
    } else if b[n - 1] == 0x0a {
        newlines
    } else {
        newlines + 1
    };
    (width, height)
}

/// A rectangle of terminal cells.
#[derive(Clone, Copy, Debug, PartialEq, Eq, Structural)]
pub struct Rect {
    pub x: u16,
    pub y: u16,
    pub width: u16,
    pub height: u16,
}

pub open spec fn min_nat(a: nat, b: nat) -> nat {
    if a < b {
        a
    } else {
        b
    }
}

/// Where the help window stands in an area of `area_w` by `area_h` cells, for
/// a text of `text_w` by `text_h`: near the bottom-right corner, with the
/// text clipped to leave a margin. An area narrower or lower than five cells
/// has no room for it.
pub open spec fn help_rect_of(area_w: u16, area_h: u16, text_w: usize, text_h: usize) -> Option<Rect> {
    if area_w < 5 || area_h < 5 {
        None
    } else {
        let w = min_nat(text_w as nat, (area_w - 5) as nat);
        let h = min_nat(text_h as nat, (area_h - 5) as nat);
        Some(
            Rect {
                x: (area_w - w - 4) as u16,
                y: (area_h - h - 3) as u16,
                width: (w + 3) as u16,
                height: (h + 2) as u16,
            },
        )
    }
}

pub fn help_rect(area_w: u16, area_h: u16, text_w: usize, text_h: usize) -> (r: Option<Rect>)
    ensures
        r == help_rect_of(area_w, area_h, text_w, text_h),
{
    if area_w < 5 || area_h < 5 {
        return None;
    }
    let w: u16 = if text_w < (area_w - 5) as usize {
        text_w as u16
    } else {
        area_w - 5
    };
    let h: u16 = if text_h < (area_h - 5) as usize {
        text_h as u16
    } else {
        area_h - 5
    };
    Some(Rect { x: area_w - w - 4, y: area_h - h - 3, width: w + 3, height: h + 2 })
}

} // verus!
