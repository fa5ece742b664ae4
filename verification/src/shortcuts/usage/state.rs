//! State of the standalone plugin-usage overview window: the statistics and
//! status line, whether a background scan runs, and the scroll position of
//! its document. The scan itself runs elsewhere; this state decides when
//! one starts and takes in its result.
use crate::shortcuts::usage::model::UsageStats;
use crate::text::{chars_of, concat_chars, dec_digits, decimal_chars, string_of};
use vstd::prelude::*;

verus! {

pub struct UsageOverview {
    pub stats: Option<UsageStats>,
    pub status: Option<String>,
    /// First visible document row.
    pub scroll: u16,
    /// Height of the scrolling area, cached by the renderer so paging is exact.
    pub view_h: u16,
    /// Total document rows, cached by the renderer so `End` is exact.
    pub rows: u16,
    /// A background scan runs.
    pub scanning: bool,
}

/// Last scrollable row for a document of `rows` in a view of `view_h`.
pub open spec fn spec_max_scroll(rows: u16, view_h: u16) -> int {
    if rows > view_h {
        rows - view_h
    } else {
        0
    }
}

/// `scroll` moved by `delta`, kept between 0 and `max`.
pub open spec fn clamped(scroll: int, delta: int, max: int) -> int {
    let next = scroll + delta;
    if next < 0 {
        0
    } else if next > max {
        max
    } else {
        next
    }
}

/// The status line says `t`.
pub open spec fn status_is(o: Option<String>, t: Seq<char>) -> bool {
    o matches Some(s) && s@ == t
}

/// Status line after a scan of `files` session files taking `ms` milliseconds.
pub open spec fn scanned_status(files: nat, ms: nat) -> Seq<char> {
    "Proskenováno "@ + dec_digits(files) + " souborů za "@ + dec_digits(ms) + " ms"@
}

impl UsageOverview {
    pub open spec fn is_scanning_spec(&self) -> bool {
        self.scanning
    }

    /// An empty overview: no statistics, no status, no scan, at the top.
    pub fn new() -> (r: Self)
        ensures
            r.stats is None,
            r.status is None,
            r.scroll == 0 && r.view_h == 0 && r.rows == 0,
            !r.is_scanning_spec(),
    {
        UsageOverview { stats: None, status: None, scroll: 0, view_h: 0, rows: 0, scanning: false }
    }

    /// Whether a scan runs.
    pub fn is_scanning(&self) -> (r: bool)
        ensures
            r == self.is_scanning_spec(),
    {
        self.scanning
    }

    /// Asks for a scan: `true` when one must be started (none runs yet).
    /// `force` (re-reading every session file) drops the statistics and
    /// says so in the status line.
    pub fn ensure_scan(&mut self, force: bool) -> (start: bool)
        ensures
            start == !old(self).is_scanning_spec(),
            final(self).is_scanning_spec(),
            start && force ==> final(self).stats is None && status_is(
                final(self).status,
                "Přeskenuji session logy…"@,
            ),
            !(start && force) ==> final(self).stats == old(self).stats && final(self).status
                == old(self).status,
            final(self).scroll == old(self).scroll,
            final(self).view_h == old(self).view_h,
            final(self).rows == old(self).rows,
    {
        if self.scanning {
            return false;
        }
        if force {
            self.stats = None;
            self.status = Some(crate::text::to_string("Přeskenuji session logy…"));
        }
        self.scanning = true;
        true
    }

    /// Takes in a finished scan: its statistics and a status line saying
    /// how many files it read and how long it took, or why it failed.
    pub fn finish_scan(&mut self, result: Result<UsageStats, String>)
        ensures
            !final(self).is_scanning_spec(),
            match result {
                Ok(st) => final(self).stats == Some(st) && status_is(
                    final(self).status,
                    scanned_status(st.files as nat, st.elapsed_ms as nat),
                ),
                Err(e) => final(self).stats == old(self).stats && status_is(
                    final(self).status,
                    "Skenování selhalo: "@ + e@,
                ),
            },
            final(self).scroll == old(self).scroll,
            final(self).view_h == old(self).view_h,
            final(self).rows == old(self).rows,
    {
        self.scanning = false;
        match result {
            Ok(st) => {
                let a = concat_chars(
                    chars_of("Proskenováno ").as_slice(),
                    decimal_chars(st.files as u128).as_slice(),
                );
                let b = concat_chars(a.as_slice(), chars_of(" souborů za ").as_slice());
                let c = concat_chars(b.as_slice(), decimal_chars(st.elapsed_ms as u128).as_slice());
                let d = concat_chars(c.as_slice(), chars_of(" ms").as_slice());
                self.status = Some(string_of(d.as_slice()));
                self.stats = Some(st);
            },
            Err(e) => {
                let m = concat_chars(
                    chars_of("Skenování selhalo: ").as_slice(),
                    chars_of(e.as_str()).as_slice(),
                );
                self.status = Some(string_of(m.as_slice()));
            },
        }
    }

    /// Last scrollable position, given the geometry cached by the renderer.
    pub fn max_scroll(&self) -> (r: u16)
        ensures
            r == spec_max_scroll(self.rows, self.view_h),
    {
        if self.rows > self.view_h {
            self.rows - self.view_h
        } else {
            0
        }
    }

    /// Moves the viewport by `delta` rows, clamped to the document.
    pub fn scroll_by(&mut self, delta: i32)
        requires
            i32::MIN <= old(self).scroll + delta <= i32::MAX,
        ensures
            final(self).scroll == clamped(
                old(self).scroll as int,
                delta as int,
                spec_max_scroll(old(self).rows, old(self).view_h),
            ),
            final(self).rows == old(self).rows,
            final(self).view_h == old(self).view_h,
            final(self).stats == old(self).stats,
            final(self).status == old(self).status,
            final(self).is_scanning_spec() == old(self).is_scanning_spec(),
    {
        let next: i32 = self.scroll as i32 + delta;
        let max = self.max_scroll() as i32;
        self.scroll = if next < 0 {
            0
        } else if next > max {
            max as u16
        } else {
            next as u16
        };
    }

    /// Pages by one screen, keeping one row of overlap (at least one row).
    pub fn page(&mut self, down: bool)
        ensures
            final(self).scroll == clamped(
                old(self).scroll as int,
                if down {
                    if old(self).view_h > 1 {
                        old(self).view_h - 1
                    } else {
                        1
                    }
                } else {
                    -(if old(self).view_h > 1 {
                        old(self).view_h - 1
                    } else {
                        1
                    })
                },
                spec_max_scroll(old(self).rows, old(self).view_h),
            ),
            final(self).rows == old(self).rows,
            final(self).view_h == old(self).view_h,
            final(self).stats == old(self).stats,
            final(self).status == old(self).status,
            final(self).is_scanning_spec() == old(self).is_scanning_spec(),
    {
        let page: i32 = if self.view_h > 1 {
            (self.view_h - 1) as i32
        } else {
            1
        };
        self.scroll_by(
            if down {
                page
            } else {
                -page
            },
        );
    }

    /// Jumps to the first row.
    pub fn scroll_home(&mut self)
        ensures
            final(self).scroll == 0,
            final(self).rows == old(self).rows,
            final(self).view_h == old(self).view_h,
            final(self).stats == old(self).stats,
            final(self).status == old(self).status,
            final(self).is_scanning_spec() == old(self).is_scanning_spec(),
    {
        self.scroll = 0;
    }

    /// Jumps to the last scrollable row.
    pub fn scroll_end(&mut self)
        ensures
            final(self).scroll == spec_max_scroll(old(self).rows, old(self).view_h),
            final(self).rows == old(self).rows,
            final(self).view_h == old(self).view_h,
            final(self).stats == old(self).stats,
            final(self).status == old(self).status,
            final(self).is_scanning_spec() == old(self).is_scanning_spec(),
    {
        self.scroll = self.max_scroll();
    }
}

impl UsageOverview {
    /// Takes the geometry the renderer laid out (document rows, visible
    /// rows) and pulls a stale scroll back inside the document.
    pub fn fit_view(&mut self, rows: u16, view_h: u16)
        ensures
            final(self).rows == rows,
            final(self).view_h == view_h,
            final(self).scroll == (if old(self).scroll < spec_max_scroll(rows, view_h) {
                old(self).scroll as int
            } else {
                spec_max_scroll(rows, view_h)
            }),
            final(self).stats == old(self).stats,
            final(self).status == old(self).status,
            final(self).is_scanning_spec() == old(self).is_scanning_spec(),
    {
        self.rows = rows;
        self.view_h = view_h;
        let max = self.max_scroll();
        if self.scroll > max {
            self.scroll = max;
        }
    }

    /// Where the view is, for the footer: the visible row range and the
    /// total when the document scrolls, else its row count.
    pub fn position_label(&self) -> (r: String)
        ensures
            r@ == (if self.rows > self.view_h {
                dec_digits((self.scroll + 1) as nat) + "–"@ + dec_digits(
                    (if self.scroll + self.view_h < self.rows {
                        self.scroll + self.view_h
                    } else {
                        self.rows as int
                    }) as nat,
                ) + " / "@ + dec_digits(self.rows as nat) + "  "@
            } else {
                dec_digits(self.rows as nat) + " řádků  "@
            }),
    {
        if self.rows > self.view_h {
            let first: u32 = self.scroll as u32 + 1;
            let last: u32 = if (self.scroll as u32) + (self.view_h as u32) < self.rows as u32 {
                self.scroll as u32 + self.view_h as u32
            } else {
                self.rows as u32
            };
            let a = concat_chars(decimal_chars(first as u128).as_slice(), chars_of("–").as_slice());
            let b = concat_chars(a.as_slice(), decimal_chars(last as u128).as_slice());
            let c = concat_chars(b.as_slice(), chars_of(" / ").as_slice());
            let d = concat_chars(c.as_slice(), decimal_chars(self.rows as u128).as_slice());
            let e = concat_chars(d.as_slice(), chars_of("  ").as_slice());
            string_of(e.as_slice())
        } else {
            let a = concat_chars(decimal_chars(self.rows as u128).as_slice(), chars_of(" řádků  ").as_slice());
            string_of(a.as_slice())
        }
    }
}

/// A key pressed in the overview window.
#[derive(Debug, Clone, Copy, PartialEq, Eq, Structural)]
pub enum OverviewKey {
    Char(char),
    Esc,
    Left,
    Right,
    Up,
    Down,
    PageUp,
    PageDown,
    Home,
    End,
    Other,
}

/// What a key asks of the overview window.
#[derive(Debug, Clone, Copy, PartialEq, Eq, Structural)]
pub enum OverviewAction {
    Close,
    Rescan,
    ScrollBy(i32),
    Page(bool),
    Home,
    End,
    Nothing,
}

/// The overview's keys: `Esc`/`q` (or `Ctrl+C`) close, `r` rescans,
/// `↑/↓` (`k`/`j`) scroll a row, `PgUp/PgDn` (or space) a screen,
/// `Home/End` (`g`/`G`) jump to the bounds.
pub open spec fn spec_overview_action(key: OverviewKey, ctrl: bool) -> OverviewAction {
    match key {
        OverviewKey::Esc => OverviewAction::Close,
        OverviewKey::Up => OverviewAction::ScrollBy(-1i32),
        OverviewKey::Down => OverviewAction::ScrollBy(1i32),
        OverviewKey::PageUp => OverviewAction::Page(false),
        OverviewKey::PageDown => OverviewAction::Page(true),
        OverviewKey::Home => OverviewAction::Home,
        OverviewKey::End => OverviewAction::End,
        OverviewKey::Char(c) => if c == 'q' {
            OverviewAction::Close
        } else if c == 'r' {
            OverviewAction::Rescan
        } else if c == 'k' {
            OverviewAction::ScrollBy(-1i32)
        } else if c == 'j' {
            OverviewAction::ScrollBy(1i32)
        } else if c == ' ' {
            OverviewAction::Page(true)
        } else if c == 'g' {
            OverviewAction::Home
        } else if c == 'G' {
            OverviewAction::End
        } else if c == 'c' && ctrl {
            OverviewAction::Close
        } else {
            OverviewAction::Nothing
        },
        _ => OverviewAction::Nothing,
    }
}

/// What a key asks of the overview window (see [`spec_overview_action`]).
pub fn overview_action(key: OverviewKey, ctrl: bool) -> (r: OverviewAction)
    ensures
        r == spec_overview_action(key, ctrl),
{
    match key {
        OverviewKey::Esc => OverviewAction::Close,
        OverviewKey::Up => OverviewAction::ScrollBy(-1i32),
        OverviewKey::Down => OverviewAction::ScrollBy(1i32),
        OverviewKey::PageUp => OverviewAction::Page(false),
        OverviewKey::PageDown => OverviewAction::Page(true),
        OverviewKey::Home => OverviewAction::Home,
        OverviewKey::End => OverviewAction::End,
        OverviewKey::Char(c) => if c == 'q' {
            OverviewAction::Close
        } else if c == 'r' {
            OverviewAction::Rescan
        } else if c == 'k' {
            OverviewAction::ScrollBy(-1i32)
        } else if c == 'j' {
            OverviewAction::ScrollBy(1i32)
        } else if c == ' ' {
            OverviewAction::Page(true)
        } else if c == 'g' {
            OverviewAction::Home
        } else if c == 'G' {
            OverviewAction::End
        } else if c == 'c' && ctrl {
            OverviewAction::Close
        } else {
            OverviewAction::Nothing
        },
        _ => OverviewAction::Nothing,
    }
}

/// Scrolling never leaves the document: the position stays between the
/// first row and the last scrollable one.
pub proof fn lemma_scroll_stays_in_document(scroll: int, delta: int, rows: u16, view_h: u16)
    ensures
        0 <= clamped(scroll, delta, spec_max_scroll(rows, view_h)) <= spec_max_scroll(rows, view_h),
{
}

} // verus!
