//! State of the Shortcuts tab, which only documents keybindings.
use crate::shortcuts::keys::{KeyConfig, ShortcutEntry, ShortcutSource};
use crate::text::{chars_of, concat_chars, dec_digits, decimal_chars, string_of};
use vstd::prelude::*;

verus! {

#[derive(Debug)]
pub struct ShortcutsState {
    pub entries: Vec<ShortcutEntry>,
    /// Resolved Herdr prefix chord (usually `ctrl+b`).
    pub prefix: String,
    /// Where the user bindings came from, if a config was found.
    pub config_path: Option<String>,
    pub selected: usize,
    pub scroll: u16,
    pub status: Option<String>,
}

/// Number of entries the user bound.
pub open spec fn user_count(es: Seq<ShortcutEntry>) -> nat
    decreases es.len(),
{
    if es.len() == 0 {
        0
    } else {
        user_count(es.drop_last()) + if es.last().source == ShortcutSource::User {
            1nat
        } else {
            0nat
        }
    }
}

impl ShortcutsState {
    /// The tab over a loaded key configuration.
    pub fn new(config: KeyConfig) -> (r: Self)
        ensures
            r.entries@ == config.entries@,
            r.prefix == config.prefix,
            r.config_path == config.config_path,
            r.selected == 0,
            r.scroll == 0,
            r.status is None,
    {
        ShortcutsState {
            entries: config.entries,
            prefix: config.prefix,
            config_path: config.config_path,
            selected: 0,
            scroll: 0,
            status: None,
        }
    }

    /// Takes a freshly loaded configuration (bound to `r`): the selection
    /// stays inside the new list, and the status tells how many entries it has.
    pub fn reload_keys(&mut self, config: KeyConfig)
        ensures
            final(self).entries@ == config.entries@,
            final(self).prefix == config.prefix,
            final(self).config_path == config.config_path,
            final(self).selected == (if config.entries@.len() == 0 {
                0
            } else if old(self).selected < config.entries@.len() - 1 {
                old(self).selected as int
            } else {
                config.entries@.len() - 1
            }),
            final(self).scroll == old(self).scroll,
            final(self).status matches Some(m) && m@ == "Načteno "@ + dec_digits(
                config.entries@.len(),
            ) + " zkratek"@,
    {
        self.entries = config.entries;
        self.prefix = config.prefix;
        self.config_path = config.config_path;
        let n = self.entries.len();
        let last = if n == 0 {
            0
        } else {
            n - 1
        };
        if self.selected > last {
            self.selected = last;
        }
        let head = chars_of("Načteno ");
        let digits = decimal_chars(n as u128);
        let a = concat_chars(head.as_slice(), digits.as_slice());
        let msg = concat_chars(a.as_slice(), chars_of(" zkratek").as_slice());
        self.status = Some(string_of(msg.as_slice()));
    }

    /// Chords the user bound themselves in `config.toml`.
    pub fn user_binding_count(&self) -> (n: usize)
        ensures
            n == user_count(self.entries@),
    {
        let mut n: usize = 0;
        let mut i: usize = 0;
        while i < self.entries.len()
            invariant
                0 <= i <= self.entries@.len(),
                n == user_count(self.entries@.take(i as int)),
                n <= i,
            decreases self.entries.len() - i,
        {
            assert(self.entries@.take(i + 1).drop_last() == self.entries@.take(i as int));
            if self.entries[i].source == ShortcutSource::User {
                n = n + 1;
            }
            i = i + 1;
        }
        assert(self.entries@.take(i as int) == self.entries@);
        n
    }

    /// The selected entry, if the index is inside the list.
    pub fn selected_entry(&self) -> (r: Option<&ShortcutEntry>)
        ensures
            match r {
                Some(e) => self.selected < self.entries@.len() && *e == self.entries@[self.selected as int],
                None => self.selected >= self.entries@.len(),
            },
    {
        if self.selected < self.entries.len() {
            Some(&self.entries[self.selected])
        } else {
            None
        }
    }

    /// Next entry, stopping at the last.
    pub fn next(&mut self)
        ensures
            final(self).entries == old(self).entries,
            final(self).scroll == old(self).scroll,
            final(self).selected == (if old(self).entries@.len() == 0 {
                old(self).selected as int
            } else if old(self).selected + 1 < old(self).entries@.len() - 1 {
                old(self).selected + 1
            } else {
                old(self).entries@.len() - 1
            }),
    {
        let n = self.entries.len();
        if n > 0 {
            self.selected = if self.selected < n - 1 {
                if self.selected + 1 < n - 1 {
                    self.selected + 1
                } else {
                    n - 1
                }
            } else {
                n - 1
            };
        }
    }

    /// Previous entry, stopping at the first.
    pub fn prev(&mut self)
        ensures
            final(self).entries == old(self).entries,
            final(self).scroll == old(self).scroll,
            final(self).selected == (if old(self).selected > 0 {
                old(self).selected - 1
            } else {
                0
            }),
    {
        if self.selected > 0 {
            self.selected = self.selected - 1;
        }
    }

    /// Scrolls by `lines` (negative is up), clamped to `0..=u16::MAX`.
    pub fn scroll_by(&mut self, lines: i32)
        requires
            old(self).scroll + lines <= i32::MAX,
        ensures
            final(self).entries == old(self).entries,
            final(self).selected == old(self).selected,
            final(self).scroll == (if old(self).scroll + lines < 0 {
                0
            } else if old(self).scroll + lines > u16::MAX {
                u16::MAX as int
            } else {
                old(self).scroll + lines
            }),
    {
        let next: i32 = self.scroll as i32 + lines;
        self.scroll = if next < 0 {
            0
        } else if next > 0xFFFF {
            0xFFFF
        } else {
            next as u16
        };
    }

    /// Scrolls one page (eight rows) down or up.
    pub fn page_by(&mut self, down: bool)
        ensures
            final(self).entries == old(self).entries,
            final(self).selected == old(self).selected,
            final(self).scroll == (if down {
                if old(self).scroll + 8 > u16::MAX {
                    u16::MAX as int
                } else {
                    old(self).scroll + 8
                }
            } else if old(self).scroll < 8 {
                0
            } else {
                old(self).scroll - 8
            }),
    {
        self.scroll_by(
            if down {
                8
            } else {
                -8
            },
        );
    }
}

} // verus!
