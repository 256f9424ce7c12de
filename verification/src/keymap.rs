//! The table from key names to key codes, built once from the keyboard
//! mapping of the display server and handed to whoever parses key bindings.

use vstd::prelude::*;

verus! {

/// The table that a list of named key codes stands for: a later entry
/// replaces an earlier one of the same name.
pub open spec fn table_of(entries: Seq<(String, u16)>) -> Map<Seq<char>, u16>
    decreases entries.len(),
{
    if entries.len() == 0 {
        Map::empty()
    } else {
        table_of(entries.drop_last()).insert(entries.last().0@, entries.last().1)
    }
}

/// The table built from the first `count` symbols of a keyboard mapping.
/// The mapping lists `per_keycode` symbols for each key code from
/// `min_keycode` on; a symbol of value 0 is no symbol, and symbols beyond the
/// last complete group belong to no key. Symbol number `k` names key code
/// `min_keycode + k / per_keycode`; of two symbols with one name the later
/// one counts.
pub open spec fn mapping_table(
    min_keycode: u8,
    per_keycode: u8,
    symbols: Seq<(u32, String)>,
    count: nat,
) -> Map<Seq<char>, u16>
    decreases count,
{
    if count == 0 {
        Map::empty()
    } else {
        let k = (count - 1) as int;
        let earlier = mapping_table(min_keycode, per_keycode, symbols, (count - 1) as nat);
        if symbols[k].0 > 0 && k / (per_keycode as int) < symbols.len() / (per_keycode as nat) {
            earlier.insert(symbols[k].1@, (min_keycode + k / (per_keycode as int)) as u16)
        } else {
            earlier
        }
    }
}

/// The key code of each named key.
pub struct Keymap {
    entries: Vec<(String, u16)>,
}

impl View for Keymap {
    type V = Map<Seq<char>, u16>;

    closed spec fn view(&self) -> Map<Seq<char>, u16> {
        table_of(self.entries@)
    }
}

/// A name is in the table exactly when an entry has it, and the table gives
/// it the code of the last such entry.
proof fn lemma_table_lookup(entries: Seq<(String, u16)>, name: Seq<char>, last: int)
    requires
        -1 <= last < entries.len(),
        last >= 0 ==> entries[last].0@ == name,
        forall|j: int| last < j < entries.len() ==> entries[j].0@ != name,
    ensures
        table_of(entries).contains_key(name) == (last >= 0),
        last >= 0 ==> table_of(entries)[name] == entries[last].1,
    decreases entries.len(),
{
    if entries.len() > 0 {
        if last < entries.len() - 1 {
            lemma_table_lookup(entries.drop_last(), name, last);
        }
    }
}

impl Keymap {
    /// An empty table.
    pub fn new() -> (keymap: Keymap)
        ensures
            keymap@ == Map::<Seq<char>, u16>::empty(),
    {
        Keymap { entries: Vec::new() }
    }

    /// Gives the key `name` the code `keycode`.
    pub fn insert(&mut self, name: String, keycode: u16)
        ensures
            final(self)@ == old(self)@.insert(name@, keycode),
    {
        self.entries.push((name, keycode));
        assert(self.entries@.drop_last() =~= old(self).entries@);
    }

    /// Looks up the code of the key `name`.
    pub fn get(&self, name: &str) -> (keycode: Option<u16>)
        ensures
            keycode == (if self@.contains_key(name@) {
                Some(self@[name@])
            } else {
                None
            }),
    {
        let wanted: String = name.to_owned();
        let mut i: usize = self.entries.len();
        while i > 0
            invariant
                i <= self.entries.len(),
                wanted@ == name@,
                forall|j: int| i <= j < self.entries.len() ==> self.entries@[j].0@ != name@,
            decreases i,
        {
            i -= 1;
            if self.entries[i].0 == wanted {
                proof {
                    lemma_table_lookup(self.entries@, name@, i as int);
                }
                return Some(self.entries[i].1);
            }
        }
        proof {
            lemma_table_lookup(self.entries@, name@, -1);
        }
        None
    }
}

/// Whether a keyboard mapping can be turned into a table: it lists at least
/// one symbol for each key code, and its key codes fit in 16 bits.
pub open spec fn mapping_ok(min_keycode: u8, per_keycode: u8, symbols: Seq<(u32, String)>) -> bool {
    &&& per_keycode > 0
    &&& min_keycode + symbols.len() / (per_keycode as nat) <= u16::MAX + 1
}

/// Builds the table of key names from a keyboard mapping: `symbols` lists,
/// for each key code from `min_keycode` on, `per_keycode` symbols, each with
/// its name.
pub fn init_keymap(min_keycode: u8, per_keycode: u8, symbols: &Vec<(u32, String)>) -> (keymap:
    Keymap)
    requires
        mapping_ok(min_keycode, per_keycode, symbols@),
    ensures
        keymap@ == mapping_table(min_keycode, per_keycode, symbols@, symbols@.len()),
{
    let mut keymap = Keymap::new();
    let per: usize = per_keycode as usize;
    let groups: usize = symbols.len() / per;
    let mut k: usize = 0;
    while k < symbols.len()
        invariant
            k <= symbols.len(),
            per == per_keycode,
            per > 0,
            groups == symbols@.len() / (per_keycode as nat),
            min_keycode + groups <= u16::MAX + 1,
            keymap@ == mapping_table(min_keycode, per_keycode, symbols@, k as nat),
        decreases symbols.len() - k,
    {
        let group: usize = k / per;
        if symbols[k].0 > 0 && group < groups {
            let keycode: u16 = (min_keycode as usize + group) as u16;
            keymap.insert(symbols[k].1.clone(), keycode);
        }
        k += 1;
    }
    keymap
}

} // verus!
