//! One physical key of a keyboard layout and the label shown for it on
//! each display page.

use vstd::prelude::*;

verus! {

/// Which aspect of a key the display is showing.
#[derive(Clone, Copy, Debug, Eq, PartialEq, Structural)]
pub enum Page {
    Layer1,
    Layer2,
    Keycaps,
    Logical,
    Electrical,
}

/// Physical position and size of a key, in hundredths of a key unit.
#[derive(Clone, Copy, Debug, Eq, PartialEq, Structural)]
pub struct Rect {
    pub x: i64,
    pub y: i64,
    pub w: i64,
    pub h: i64,
}

/// The display label a table assigns to a scancode name: the label of the
/// first entry for that name.
pub open spec fn label_lookup(entries: Seq<(String, String)>, name: Seq<char>) -> Option<
    Seq<char>,
>
    decreases entries.len(),
{
    if entries.len() == 0 {
        None
    } else if entries[0].0@ == name {
        Some(entries[0].1@)
    } else {
        label_lookup(entries.drop_first(), name)
    }
}

/// The label shown for a scancode name: its table entry, or the name
/// itself when the table has none.
pub open spec fn label_display(entries: Seq<(String, String)>, name: Seq<char>) -> Seq<char> {
    match label_lookup(entries, name) {
        Some(l) => l,
        None => name,
    }
}

/// The table of human-readable labels for scancode names.
pub struct ScancodeLabels {
    entries: Vec<(String, String)>,
}

impl ScancodeLabels {
    pub closed spec fn view(&self) -> Seq<(String, String)> {
        self.entries@
    }

    pub fn new() -> (r: ScancodeLabels)
        ensures
            r@.len() == 0,
    {
        ScancodeLabels { entries: Vec::new() }
    }

    /// Add one scancode-name-to-label entry.
    pub fn push(&mut self, keysym: String, label: String)
        ensures
            final(self)@ == old(self)@.push((keysym, label)),
    {
        self.entries.push((keysym, label));
    }

    /// The label for a scancode name, if the table has one.
    pub fn get(&self, keysym: &String) -> (r: Option<&String>)
        ensures
            r matches Some(l) ==> label_lookup(self@, keysym@) == Some(l@),
            r is None ==> label_lookup(self@, keysym@) is None,
    {
        let n = self.entries.len();
        proof {
            assert(self.entries@.skip(0) =~= self.entries@);
        }
        let mut i: usize = 0;
        while i < n
            invariant
                i <= n,
                n == self.entries@.len(),
                label_lookup(self.entries@, keysym@) == label_lookup(
                    self.entries@.skip(i as int),
                    keysym@,
                ),
            decreases n - i,
        {
            proof {
                assert(self.entries@.skip(i as int)[0] == self.entries@[i as int]);
                assert(self.entries@.skip(i as int).drop_first() =~= self.entries@.skip(
                    i as int + 1,
                ));
            }
            let e = &self.entries[i];
            if e.0 == *keysym {
                return Some(&e.1);
            }
            i = i + 1;
        }
        proof {
            assert(self.entries@.skip(n as int) =~= Seq::<(String, String)>::empty());
        }
        None
    }
}

/// One physical key: its logical, physical and electrical identities, the
/// scancodes currently loaded per layer, and its display colors.
#[derive(Debug)]
pub struct Key {
    /// Logical position (row, column).
    pub logical: (u8, u8),
    /// Logical name (something like K01, where 0 is the row and 1 is the column).
    pub logical_name: String,
    /// Physical position and size.
    pub physical: Rect,
    /// Physical key name (what is printed on the keycap).
    pub physical_name: String,
    /// Electrical mapping (output, input).
    pub electrical: (u8, u8),
    /// Electrical name (output, input).
    pub electrical_name: String,
    /// Currently loaded scancodes and their names, one per layer.
    pub scancodes: Vec<(u16, String)>,
    /// Background color.
    pub background_color: String,
    /// Foreground color.
    pub foreground_color: String,
}

impl Key {
    /// The label shown for this key on a display page: for a layer page,
    /// the label of the scancode loaded at that layer (or the raw scancode
    /// name when the table has no entry for it); otherwise the respective
    /// name of the key.
    pub fn get_label(&self, page: Page, labels: &ScancodeLabels) -> (r: String)
        requires
            page == Page::Layer1 ==> self.scancodes@.len() >= 1,
            page == Page::Layer2 ==> self.scancodes@.len() >= 2,
        ensures
            page == Page::Layer1 ==> r@ == label_display(labels@, self.scancodes@[0].1@),
            page == Page::Layer2 ==> r@ == label_display(labels@, self.scancodes@[1].1@),
            page == Page::Keycaps ==> r@ == self.physical_name@,
            page == Page::Logical ==> r@ == self.logical_name@,
            page == Page::Electrical ==> r@ == self.electrical_name@,
    {
        match page {
            Page::Layer1 => {
                let scancode_name = &self.scancodes[0].1;
                match labels.get(scancode_name) {
                    Some(l) => l.clone(),
                    None => scancode_name.clone(),
                }
            },
            Page::Layer2 => {
                let scancode_name = &self.scancodes[1].1;
                match labels.get(scancode_name) {
                    Some(l) => l.clone(),
                    None => scancode_name.clone(),
                }
            },
            Page::Keycaps => self.physical_name.clone(),
            Page::Logical => self.logical_name.clone(),
            Page::Electrical => self.electrical_name.clone(),
        }
    }
}

} // verus!
