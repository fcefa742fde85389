//! Screen geometry and the per-frame header/footer state of the interface.
use vstd::prelude::*;
use crate::text::{owned, str_eq, views};

verus! {

broadcast use vstd::string::group_string_axioms;

/// A terminal rectangle in cells.
#[derive(Debug, Default, Clone, Copy, PartialEq, Eq, Structural)]
pub struct Rect {
    pub x: u16,
    pub y: u16,
    pub width: u16,
    pub height: u16,
}

impl Rect {
    /// The rectangle lies inside the terminal's coordinate range.
    pub open spec fn fits(self) -> bool {
        self.x + self.width <= u16::MAX && self.y + self.height <= u16::MAX
    }

    pub open spec fn contains(self, x: int, y: int) -> bool {
        self.x <= x < self.x + self.width && self.y <= y < self.y + self.height
    }
}

/// Whether cell `(x, y)` lies in `r`.
pub fn in_rect(x: u16, y: u16, r: Rect) -> (b: bool)
    requires
        r.fits(),
    ensures
        b == r.contains(x as int, y as int),
{
    x >= r.x && x < r.x + r.width && y >= r.y && y < r.y + r.height
}

/// The row of a click inside a bordered widget: `Some(k)` for the `k`-th
/// inner row, `None` outside the widget or on its top or bottom border.
pub open spec fn inner_row(x: int, y: int, area: Rect) -> Option<usize> {
    if area.contains(x, y) && area.y + 1 <= y && y < area.y + area.height - 1 {
        Some((y - area.y - 1) as usize)
    } else {
        None
    }
}

/// click index within a widget's inner area (border excluded), or None
pub fn row_in_rect(x: u16, y: u16, area: Rect) -> (r: Option<usize>)
    requires
        area.fits(),
    ensures
        r == inner_row(x as int, y as int, area),
{
    if !in_rect(x, y, area) {
        return None;
    }
    let top = area.y + 1;
    let bottom = area.y + if area.height >= 1 {
        area.height - 1
    } else {
        0
    };
    if y >= top && y < bottom {
        Some((y - top) as usize)
    } else {
        None
    }
}

/// A rectangle centred in `area`: `percent_x` percent of its width (at
/// least 24 columns, at most all of it) and `max_h` rows (fewer when the
/// area is short, never fewer than 5).
pub fn centered_rect(area: Rect, percent_x: u16, max_h: u16) -> (r: Rect)
    requires
        area.fits(),
        area.width >= 24,
        area.width * percent_x <= u16::MAX,
    ensures
        ({
            let avail = if area.height >= 2 {
                area.height - 2
            } else {
                0
            };
            let h0 = if max_h <= avail {
                max_h as int
            } else {
                avail as int
            };
            let height = if h0 >= 5 {
                h0
            } else {
                5
            };
            let w0 = (area.width * percent_x) / 100;
            let width = if w0 < 24 {
                24
            } else if w0 > area.width {
                area.width as int
            } else {
                w0 as int
            };
            let free_w = if area.width >= width {
                area.width - width
            } else {
                0
            };
            let free_h = if area.height >= height {
                area.height - height
            } else {
                0
            };
            &&& r.width == width
            &&& r.height == height
            &&& r.x == area.x + free_w / 2
            &&& r.y == area.y + free_h / 2
        }),
{
    let avail = if area.height >= 2 {
        area.height - 2
    } else {
        0
    };
    let h0 = if max_h <= avail {
        max_h
    } else {
        avail
    };
    let height = if h0 >= 5 {
        h0
    } else {
        5
    };
    let w0 = area.width * percent_x / 100;
    let width = if w0 < 24 {
        24
    } else if w0 > area.width {
        area.width
    } else {
        w0
    };
    let free_w = if area.width >= width {
        area.width - width
    } else {
        0
    };
    let free_h = if area.height >= height {
        area.height - height
    } else {
        0
    };
    Rect { x: area.x + free_w / 2, y: area.y + free_h / 2, width, height }
}

/// `rect` without its one-cell border (saturating at the edges).
pub fn shrink(rect: Rect) -> (r: Rect)
    ensures
        r.x == if rect.x < u16::MAX {
            rect.x + 1
        } else {
            rect.x as int
        },
        r.y == if rect.y < u16::MAX {
            rect.y + 1
        } else {
            rect.y as int
        },
        r.width == if rect.width >= 2 {
            rect.width - 2
        } else {
            0
        },
        r.height == if rect.height >= 2 {
            rect.height - 2
        } else {
            0
        },
{
    Rect {
        x: if rect.x < u16::MAX {
            rect.x + 1
        } else {
            rect.x
        },
        y: if rect.y < u16::MAX {
            rect.y + 1
        } else {
            rect.y
        },
        width: if rect.width >= 2 {
            rect.width - 2
        } else {
            0
        },
        height: if rect.height >= 2 {
            rect.height - 2
        } else {
            0
        },
    }
}

#[derive(Default, Debug)]
pub struct Header {
    pub rect: Rect,
    pub text: String,
}

#[derive(Debug, Default, Clone, Copy, PartialEq, Eq, Structural)]
pub enum Screen {
    #[default]
    Menu,
    Settings,
    Calender,
}

#[derive(Default, Debug)]
pub struct Main {
    pub rect: Rect,
    pub screen: Screen,
}

#[derive(Default, Debug)]
pub struct Footer {
    pub commands: Vec<[String; 2]>,
    pub rect: Rect,
}

/// One piece of the footer line.
#[derive(Debug, Clone, PartialEq, Eq)]
pub enum FooterSpan {
    /// the key of a command, drawn emphasised
    Key(String),
    /// what the key does, drawn plain
    Text(String),
    /// the ` | ` between two commands
    Separator,
}

/// The view of a command: its key and its description.
pub open spec fn command_view(c: [String; 2]) -> (Seq<char>, Seq<char>) {
    (c@[0]@, c@[1]@)
}

pub open spec fn command_views(cs: Seq<[String; 2]>) -> Seq<(Seq<char>, Seq<char>)> {
    cs.map_values(|c: [String; 2]| command_view(c))
}

/// The view of a footer piece.
pub open spec fn span_view(s: FooterSpan) -> (int, Seq<char>) {
    match s {
        FooterSpan::Key(k) => (0, k@),
        FooterSpan::Text(t) => (1, t@),
        FooterSpan::Separator => (2, Seq::empty()),
    }
}

/// The footer pieces of the commands: each command's key then its text,
/// and a separator after every command that differs from the last one.
pub open spec fn footer_spans(cs: Seq<(Seq<char>, Seq<char>)>, last: (Seq<char>, Seq<char>)) -> Seq<
    (int, Seq<char>),
>
    decreases cs.len(),
{
    if cs.len() == 0 {
        Seq::empty()
    } else {
        let c = cs.last();
        footer_spans(cs.drop_last(), last) + seq![(0int, c.0), (1int, c.1)] + if c == last {
            Seq::empty()
        } else {
            seq![(2int, Seq::<char>::empty())]
        }
    }
}

#[derive(Default, Debug)]
pub struct UIState {
    pub header: Header,
    pub main: Main,
    pub footer: Footer,
}

impl UIState {
    pub fn set_header(&mut self, header_text: &str)
        ensures
            final(self).header.text@ == header_text@,
            final(self).header.rect == old(self).header.rect,
            final(self).main == old(self).main,
            final(self).footer == old(self).footer,
    {
        self.header.text = owned(header_text);
    }

    pub fn set_screen(&mut self, screen: Screen)
        ensures
            final(self).main.screen == screen,
            final(self).main.rect == old(self).main.rect,
            final(self).header == old(self).header,
            final(self).footer == old(self).footer,
    {
        self.main.screen = screen;
    }

    /// Replaces the footer's commands (`[key, description]` each).
    pub fn set_footer(&mut self, commands: Vec<[&str; 2]>)
        ensures
            final(self).footer.commands@.len() == commands@.len(),
            forall|i: int|
                0 <= i < commands@.len() ==> #[trigger] command_view(final(self).footer.commands@[i])
                    == (commands@[i]@[0]@, commands@[i]@[1]@),
            final(self).footer.rect == old(self).footer.rect,
            final(self).header == old(self).header,
            final(self).main == old(self).main,
    {
        let mut out: Vec<[String; 2]> = Vec::new();
        for i in 0..commands.len()
            invariant
                out@.len() == i,
                forall|j: int|
                    0 <= j < i ==> #[trigger] command_view(out@[j]) == (
                        commands@[j]@[0]@,
                        commands@[j]@[1]@,
                    ),
        {
            let pair = commands[i];
            let k = owned(pair[0]);
            let d = owned(pair[1]);
            let item = [k, d];
            assert(command_view(item) == (commands@[i as int]@[0]@, commands@[i as int]@[1]@));
            out.push(item);
        }
        self.footer.commands = out;
    }

    pub fn set_header_rect(&mut self, rect: Rect)
        ensures
            final(self).header.rect == rect,
            final(self).header.text == old(self).header.text,
            final(self).main == old(self).main,
            final(self).footer == old(self).footer,
    {
        self.header.rect = rect;
    }

    pub fn set_screen_rect(&mut self, rect: Rect)
        ensures
            final(self).main.rect == rect,
            final(self).main.screen == old(self).main.screen,
            final(self).header == old(self).header,
            final(self).footer == old(self).footer,
    {
        self.main.rect = rect;
    }

    pub fn get_screen_rect(&mut self) -> (r: Rect)
        ensures
            r == old(self).main.rect,
            *final(self) == *old(self),
    {
        self.main.rect
    }

    pub fn set_footer_rect(&mut self, rect: Rect)
        ensures
            final(self).footer.rect == rect,
            final(self).footer.commands == old(self).footer.commands,
            final(self).header == old(self).header,
            final(self).main == old(self).main,
    {
        self.footer.rect = rect;
    }

    /// The pieces of the footer line (see `footer_spans`).
    pub fn get_footer_line(&self) -> (spans: Vec<FooterSpan>)
        ensures
            spans@.map_values(|s: FooterSpan| span_view(s)) == footer_spans(
                command_views(self.footer.commands@),
                command_views(self.footer.commands@).last(),
            ),
    {
        let cs = &self.footer.commands;
        let ghost cv = command_views(cs@);
        let mut spans: Vec<FooterSpan> = Vec::new();
        let n = cs.len();
        for i in 0..n
            invariant
                n == cs.len(),
                cv == command_views(cs@),
                spans@.map_values(|s: FooterSpan| span_view(s)) == footer_spans(
                    cv.take(i as int),
                    cv.last(),
                ),
        {
            let key = cs[i][0].clone();
            let text = cs[i][1].clone();
            let ghost before = spans@.map_values(|s: FooterSpan| span_view(s));
            spans.push(FooterSpan::Key(key));
            spans.push(FooterSpan::Text(text));
            let last = &cs[n - 1];
            let same = str_eq(cs[i][0].as_str(), last[0].as_str()) && str_eq(
                cs[i][1].as_str(),
                last[1].as_str(),
            );
            if !same {
                spans.push(FooterSpan::Separator);
            }
            proof {
                assert(cv.take(i + 1).drop_last() =~= cv.take(i as int));
                assert(cv[i as int] == command_view(cs@[i as int]));
                assert(cv.last() == command_view(cs@[n - 1]));
                assert(same == (cv[i as int] == cv.last()));
            }
            assert(spans@.map_values(|s: FooterSpan| span_view(s)) =~= footer_spans(
                cv.take(i + 1),
                cv.last(),
            ));
        }
        assert(cv.take(n as int) =~= cv);
        spans
    }

    /// The header text.
    pub fn get_header_line(&self) -> (s: String)
        ensures
            s@ == self.header.text@,
    {
        self.header.text.clone()
    }
}

// ----- what the setters keep -----

/// What `set_header` keeps (whatever the text).
pub open spec fn header_text_step(u0: UIState, u1: UIState) -> bool {
    u1.header.rect == u0.header.rect && u1.main == u0.main && u1.footer == u0.footer
}

/// What `set_screen` keeps (whatever the screen).
pub open spec fn screen_step(u0: UIState, u1: UIState) -> bool {
    u1.main.rect == u0.main.rect && u1.header == u0.header && u1.footer == u0.footer
}

/// What `set_footer` keeps (whatever the commands).
pub open spec fn footer_step(u0: UIState, u1: UIState) -> bool {
    u1.footer.rect == u0.footer.rect && u1.header == u0.header && u1.main == u0.main
}

/// What `set_header_rect` keeps (whatever the rectangle).
pub open spec fn header_rect_step(u0: UIState, u1: UIState) -> bool {
    u1.header.text == u0.header.text && u1.main == u0.main && u1.footer == u0.footer
}

/// What `set_screen_rect` keeps (whatever the rectangle).
pub open spec fn screen_rect_step(u0: UIState, u1: UIState) -> bool {
    u1.main.screen == u0.main.screen && u1.header == u0.header && u1.footer == u0.footer
}

/// What `set_footer_rect` keeps (whatever the rectangle).
pub open spec fn footer_rect_step(u0: UIState, u1: UIState) -> bool {
    u1.footer.commands == u0.footer.commands && u1.header == u0.header && u1.main == u0.main
}

/// The screen rectangle set last stays through any run of the other
/// setters: `get_screen_rect` gives it back.
pub proof fn lemma_screen_rect_stays(us: Seq<UIState>)
    requires
        us.len() >= 1,
        forall|i: int|
            0 <= i < us.len() - 1 ==> header_text_step(#[trigger] us[i], us[i + 1]) || screen_step(
                us[i],
                us[i + 1],
            ) || footer_step(us[i], us[i + 1]) || header_rect_step(us[i], us[i + 1])
                || footer_rect_step(us[i], us[i + 1]),
    ensures
        us.last().main.rect == us[0].main.rect,
    decreases us.len(),
{
    if us.len() > 1 {
        let d = us.drop_last();
        assert forall|i: int| 0 <= i < d.len() - 1 implies header_text_step(#[trigger] d[i], d[i + 1])
            || screen_step(d[i], d[i + 1]) || footer_step(d[i], d[i + 1]) || header_rect_step(
            d[i],
            d[i + 1],
        ) || footer_rect_step(d[i], d[i + 1]) by {
            assert(d[i] == us[i] && d[i + 1] == us[i + 1]);
        }
        lemma_screen_rect_stays(d);
        let k = us.len() - 2;
        assert(header_text_step(us[k], us[k + 1]) || screen_step(us[k], us[k + 1]) || footer_step(
            us[k],
            us[k + 1],
        ) || header_rect_step(us[k], us[k + 1]) || footer_rect_step(us[k], us[k + 1]));
    }
}

/// The header text set last stays through any run of the other setters:
/// `get_header_line` gives it back.
pub proof fn lemma_header_text_stays(us: Seq<UIState>)
    requires
        us.len() >= 1,
        forall|i: int|
            0 <= i < us.len() - 1 ==> screen_step(#[trigger] us[i], us[i + 1]) || footer_step(
                us[i],
                us[i + 1],
            ) || header_rect_step(us[i], us[i + 1]) || screen_rect_step(us[i], us[i + 1])
                || footer_rect_step(us[i], us[i + 1]),
    ensures
        us.last().header.text == us[0].header.text,
    decreases us.len(),
{
    if us.len() > 1 {
        let d = us.drop_last();
        assert forall|i: int| 0 <= i < d.len() - 1 implies screen_step(#[trigger] d[i], d[i + 1])
            || footer_step(d[i], d[i + 1]) || header_rect_step(d[i], d[i + 1]) || screen_rect_step(
            d[i],
            d[i + 1],
        ) || footer_rect_step(d[i], d[i + 1]) by {
            assert(d[i] == us[i] && d[i + 1] == us[i + 1]);
        }
        lemma_header_text_stays(d);
        let k = us.len() - 2;
        assert(screen_step(us[k], us[k + 1]) || footer_step(us[k], us[k + 1]) || header_rect_step(
            us[k],
            us[k + 1],
        ) || screen_rect_step(us[k], us[k + 1]) || footer_rect_step(us[k], us[k + 1]));
    }
}

proof fn lemma_footer_spans_distinct(cs: Seq<(Seq<char>, Seq<char>)>, last: (Seq<char>, Seq<char>))
    requires
        forall|k: int| 0 <= k < cs.len() ==> cs[k] != last,
    ensures
        footer_spans(cs, last).len() == 3 * cs.len(),
        forall|i: int|
            0 <= i < cs.len() ==> footer_spans(cs, last)[3 * i] == (0int, (#[trigger] cs[i]).0)
                && footer_spans(cs, last)[3 * i + 1] == (1int, cs[i].1) && footer_spans(cs, last)[3
                * i + 2] == (2int, Seq::<char>::empty()),
    decreases cs.len(),
{
    if cs.len() > 0 {
        let d = cs.drop_last();
        assert forall|k: int| 0 <= k < d.len() implies d[k] != last by {
            assert(d[k] == cs[k]);
        }
        lemma_footer_spans_distinct(d, last);
        let fd = footer_spans(d, last);
        let n = d.len() as int;
        assert forall|i: int| 0 <= i < cs.len() implies footer_spans(cs, last)[3 * i] == (
            0int,
            (#[trigger] cs[i]).0,
        ) && footer_spans(cs, last)[3 * i + 1] == (1int, cs[i].1) && footer_spans(cs, last)[3 * i
            + 2] == (2int, Seq::<char>::empty()) by {
            if i < n {
                assert(cs[i] == d[i]);
            }
        }
    }
}

/// For commands that are pairwise distinct the footer has, for each
/// command in order, its key and then its text, with a separator between
/// neighbours: `3 * n - 1` pieces, none for no command.
pub proof fn lemma_footer_span_count(cs: Seq<(Seq<char>, Seq<char>)>)
    requires
        forall|a: int, b: int| 0 <= a < b < cs.len() ==> cs[a] != cs[b],
    ensures
        cs.len() == 0 ==> footer_spans(cs, cs.last()).len() == 0,
        cs.len() >= 1 ==> footer_spans(cs, cs.last()).len() == 3 * cs.len() - 1,
        forall|i: int|
            0 <= i < cs.len() ==> footer_spans(cs, cs.last())[3 * i] == (0int, (#[trigger] cs[i]).0)
                && footer_spans(cs, cs.last())[3 * i + 1] == (1int, cs[i].1) && (i < cs.len() - 1
                ==> footer_spans(cs, cs.last())[3 * i + 2] == (2int, Seq::<char>::empty())),
{
    if cs.len() >= 1 {
        let d = cs.drop_last();
        assert forall|k: int| 0 <= k < d.len() implies d[k] != cs.last() by {
            assert(d[k] == cs[k]);
        }
        lemma_footer_spans_distinct(d, cs.last());
        let n = d.len() as int;
        assert forall|i: int| 0 <= i < cs.len() implies footer_spans(cs, cs.last())[3 * i] == (
            0int,
            (#[trigger] cs[i]).0,
        ) && footer_spans(cs, cs.last())[3 * i + 1] == (1int, cs[i].1) && (i < cs.len() - 1
            ==> footer_spans(cs, cs.last())[3 * i + 2] == (2int, Seq::<char>::empty())) by {
            if i < n {
                assert(cs[i] == d[i]);
            }
        }
    }
}

/// Layout slot of the calendar screen (the screen has no content yet).
#[derive(Debug, Default)]
pub struct CalenderContainer {}

/// Layout slot of the settings screen (its panes are laid out when drawn).
#[derive(Debug, Default)]
pub struct SettingsContainer {}

} // verus!
