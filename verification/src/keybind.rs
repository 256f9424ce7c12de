//! Key bindings: chords such as `M4+SHIFT+c`, parsed against the table of
//! key names, and the commands bound to them.

use vstd::prelude::*;
use vstd::string::*;
use x11rb::protocol::xproto::ModMask;
use crate::keymap::Keymap;
use crate::layout::LayoutKind;

verus! {

/// A modifier that a chord can name.
#[derive(Clone, Copy, Debug, PartialEq, Eq, Structural)]
pub enum Modifier {
    Shift,
    Lock,
    Control,
    M1,
    M2,
    M3,
    M4,
    M5,
    Any,
}

impl Modifier {
    /// The modifier's bit in the modifier mask of a key or button event.
    pub open spec fn bits(self) -> u16 {
        match self {
            Modifier::Shift => 0x0001,
            Modifier::Lock => 0x0002,
            Modifier::Control => 0x0004,
            Modifier::M1 => 0x0008,
            Modifier::M2 => 0x0010,
            Modifier::M3 => 0x0020,
            Modifier::M4 => 0x0040,
            Modifier::M5 => 0x0080,
            Modifier::Any => 0x8000,
        }
    }
}

/// The bits of the nine modifiers, in the order of `Modifier`.
pub open spec fn modifier_bits() -> Seq<u16> {
    seq![
        0x0001u16,
        0x0002u16,
        0x0004u16,
        0x0008u16,
        0x0010u16,
        0x0020u16,
        0x0040u16,
        0x0080u16,
        0x8000u16,
    ]
}

/// The constants `SHIFT`, `LOCK`, `CONTROL`, `M1` to `M5` and `ANY` of
/// `x11rb::protocol::xproto::ModMask`, each as the `u16` that its `From`
/// impl gives: bit 0 for shift up to bit 7 for the fifth modifier, and
/// bit 15 for "any".
#[verifier::external_body]
fn modifier_masks() -> (bits: [u16; 9])
    ensures
        bits@ == modifier_bits(),
{
    [
        u16::from(ModMask::SHIFT),
        u16::from(ModMask::LOCK),
        u16::from(ModMask::CONTROL),
        u16::from(ModMask::M1),
        u16::from(ModMask::M2),
        u16::from(ModMask::M3),
        u16::from(ModMask::M4),
        u16::from(ModMask::M5),
        u16::from(ModMask::ANY),
    ]
}

/// Looks up the bit of a modifier.
pub fn modifier_mask(modifier: Modifier) -> (bits: u16)
    ensures
        bits == modifier.bits(),
{
    let all = modifier_masks();
    match modifier {
        Modifier::Shift => all[0],
        Modifier::Lock => all[1],
        Modifier::Control => all[2],
        Modifier::M1 => all[3],
        Modifier::M2 => all[4],
        Modifier::M3 => all[5],
        Modifier::M4 => all[6],
        Modifier::M5 => all[7],
        Modifier::Any => all[8],
    }
}

/// The modifier that a word of a chord names, if it names one.
pub open spec fn modifier_named(word: Seq<char>) -> Option<Modifier> {
    if word == "SHIFT"@ {
        Some(Modifier::Shift)
    } else if word == "LOCK"@ {
        Some(Modifier::Lock)
    } else if word == "CONTROL"@ {
        Some(Modifier::Control)
    } else if word == "M1"@ {
        Some(Modifier::M1)
    } else if word == "M2"@ {
        Some(Modifier::M2)
    } else if word == "M3"@ {
        Some(Modifier::M3)
    } else if word == "M4"@ {
        Some(Modifier::M4)
    } else if word == "M5"@ {
        Some(Modifier::M5)
    } else if word == "ANY"@ {
        Some(Modifier::Any)
    } else {
        None
    }
}

/// A key with the modifiers to hold with it.
#[derive(Clone, Copy, Debug, PartialEq, Eq, Hash, Structural)]
pub struct KeyBind {
    pub mask: u16,
    pub key: u16,
}

/// The words of a chord: what stands between its `+` signs. A chord without
/// a `+` is one word, and so is the empty chord.
pub open spec fn chord_words(chord: Seq<char>) -> Seq<Seq<char>>
    decreases chord.len(),
{
    if chord.len() == 0 {
        seq![Seq::<char>::empty()]
    } else {
        let earlier = chord_words(chord.drop_last());
        if chord.last() == '+' {
            earlier.push(Seq::<char>::empty())
        } else {
            earlier.drop_last().push(earlier.last().push(chord.last()))
        }
    }
}

/// What one more word makes of a binding: a modifier's name adds its bit to
/// the mask, any other word is the name of the key, and an unknown name
/// spoils the binding.
pub open spec fn bind_word(
    bind: Option<KeyBind>,
    word: Seq<char>,
    keymap: Map<Seq<char>, u16>,
) -> Option<KeyBind> {
    match bind {
        None => None,
        Some(bind) => match modifier_named(word) {
            Some(modifier) => Some(KeyBind { mask: bind.mask | modifier.bits(), key: bind.key }),
            None => if keymap.contains_key(word) {
                Some(KeyBind { mask: bind.mask, key: keymap[word] })
            } else {
                None
            },
        },
    }
}

/// The binding that a list of words stands for, read from left to right.
pub open spec fn bind_words(words: Seq<Seq<char>>, keymap: Map<Seq<char>, u16>) -> Option<
    KeyBind,
>
    decreases words.len(),
{
    if words.len() == 0 {
        Some(KeyBind { mask: 0, key: 0 })
    } else {
        bind_word(bind_words(words.drop_last(), keymap), words.last(), keymap)
    }
}

/// The binding that a chord stands for, or nothing where it names a key
/// that the table does not hold.
pub open spec fn chord_binding(chord: Seq<char>, keymap: Map<Seq<char>, u16>) -> Option<KeyBind> {
    bind_words(chord_words(chord), keymap)
}

/// Tests whether `word` is the text `text`.
fn is_word(word: &String, text: &str) -> (same: bool)
    ensures
        same == (word@ == text@),
{
    let other: String = text.to_owned();
    *word == other
}

/// Finds the modifier that a word names.
pub fn modifier_for(word: &str) -> (modifier: Option<Modifier>)
    ensures
        modifier == modifier_named(word@),
{
    let word: String = word.to_owned();
    if is_word(&word, "SHIFT") {
        Some(Modifier::Shift)
    } else if is_word(&word, "LOCK") {
        Some(Modifier::Lock)
    } else if is_word(&word, "CONTROL") {
        Some(Modifier::Control)
    } else if is_word(&word, "M1") {
        Some(Modifier::M1)
    } else if is_word(&word, "M2") {
        Some(Modifier::M2)
    } else if is_word(&word, "M3") {
        Some(Modifier::M3)
    } else if is_word(&word, "M4") {
        Some(Modifier::M4)
    } else if is_word(&word, "M5") {
        Some(Modifier::M5)
    } else if is_word(&word, "ANY") {
        Some(Modifier::Any)
    } else {
        None
    }
}

/// Takes one more word into a binding.
fn take_word(bind: Option<KeyBind>, word: &str, keymap: &Keymap) -> (result: Option<KeyBind>)
    ensures
        result == bind_word(bind, word@, keymap@),
{
    match bind {
        None => None,
        Some(bind) => match modifier_for(word) {
            Some(modifier) => Some(
                KeyBind { mask: bind.mask | modifier_mask(modifier), key: bind.key },
            ),
            None => match keymap.get(word) {
                Some(key) => Some(KeyBind { mask: bind.mask, key }),
                None => None,
            },
        },
    }
}

impl KeyBind {
    /// Parses a chord: modifier names and one key name, joined by `+`.
    /// Returns nothing where a word is neither a modifier nor a key of the
    /// table.
    pub fn parse(chord: &str, keymap: &Keymap) -> (bind: Option<KeyBind>)
        ensures
            bind == chord_binding(chord@, keymap@),
    {
        let n: usize = chord.unicode_len();
        let mut start: usize = 0;
        let mut i: usize = 0;
        let mut bind: Option<KeyBind> = Some(KeyBind { mask: 0, key: 0 });
        while i < n
            invariant
                start <= i <= n,
                n == chord@.len(),
                chord_words(chord@.take(i as int)).len() >= 1,
                chord_words(chord@.take(i as int)).last() == chord@.subrange(
                    start as int,
                    i as int,
                ),
                bind == bind_words(chord_words(chord@.take(i as int)).drop_last(), keymap@),
            decreases n - i,
        {
            let c = chord.get_char(i);
            let ghost before = chord@.take(i as int);
            let ghost after = chord@.take(i + 1);
            let ghost words = chord_words(before);
            proof {
                assert(after.drop_last() =~= before);
            }
            if c == '+' {
                let word = chord.substring_char(start, i);
                bind = take_word(bind, word, keymap);
                start = i + 1;
                proof {
                    assert(chord_words(after).drop_last() =~= words);
                }
            } else {
                proof {
                    assert(chord_words(after).drop_last() =~= words.drop_last());
                }
            }
            i += 1;
        }
        assert(chord@.take(n as int) =~= chord@);
        let word = chord.substring_char(start, n);
        take_word(bind, word, keymap)
    }
}

/// What a key binding asks of the window manager.
#[derive(Debug, PartialEq, Eq)]
pub enum Command {
    /// Tile all windows with the given layout.
    ApplyLayout(LayoutKind),
    /// Move the focused window one place towards the front of the tiling
    /// order.
    StackInc,
    /// Move the focused window one place towards the end of the tiling
    /// order.
    StackDec,
    /// Start a program.
    Spawn(String),
}

/// The bindings that a list of bound keys stands for: a later entry replaces
/// an earlier one for the same key.
pub open spec fn bindings_of<A>(entries: Seq<(KeyBind, A)>) -> Map<KeyBind, A>
    decreases entries.len(),
{
    if entries.len() == 0 {
        Map::empty()
    } else {
        bindings_of(entries.drop_last()).insert(entries.last().0, entries.last().1)
    }
}

/// The bindings that a list of chords with their actions stands for, or
/// nothing where one of the chords cannot be parsed.
pub open spec fn chords_bound<A>(
    chords: Seq<(&str, A)>,
    keymap: Map<Seq<char>, u16>,
) -> Option<Map<KeyBind, A>>
    decreases chords.len(),
{
    if chords.len() == 0 {
        Some(Map::empty())
    } else {
        match (chords_bound(chords.drop_last(), keymap), chord_binding(chords.last().0@, keymap)) {
            (Some(earlier), Some(bind)) => Some(earlier.insert(bind, chords.last().1)),
            _ => None,
        }
    }
}

/// A key is bound exactly when an entry has it, and it is bound to the
/// action of the last such entry.
proof fn lemma_bindings_lookup<A>(entries: Seq<(KeyBind, A)>, bind: KeyBind, last: int)
    requires
        -1 <= last < entries.len(),
        last >= 0 ==> entries[last].0 == bind,
        forall|j: int| last < j < entries.len() ==> entries[j].0 != bind,
    ensures
        bindings_of(entries).contains_key(bind) == (last >= 0),
        last >= 0 ==> bindings_of(entries)[bind] == entries[last].1,
    decreases entries.len(),
{
    if entries.len() > 0 {
        if last < entries.len() - 1 {
            lemma_bindings_lookup(entries.drop_last(), bind, last);
        }
    }
}

/// Whether an entry of the list is for the key `bind`.
pub open spec fn has_key<A>(entries: Seq<(KeyBind, A)>, bind: KeyBind) -> bool {
    exists|j: int| 0 <= j < entries.len() && #[trigger] entries[j].0 == bind
}

/// The bound keys are those of the entries.
proof fn lemma_bindings_dom<A>(entries: Seq<(KeyBind, A)>, bind: KeyBind)
    ensures
        bindings_of(entries).contains_key(bind) == has_key(entries, bind),
    decreases entries.len(),
{
    if entries.len() > 0 {
        lemma_bindings_dom(entries.drop_last(), bind);
        lemma_has_key_step(entries, entries.len() - 1, bind);
        assert(entries.take(entries.len() - 1) =~= entries.drop_last());
        assert(entries.take(entries.len() as int) =~= entries);
    }
}

/// One more entry adds its key to those of the entries before it.
proof fn lemma_has_key_step<A>(entries: Seq<(KeyBind, A)>, count: int, bind: KeyBind)
    requires
        0 <= count < entries.len(),
    ensures
        has_key(entries.take(count + 1), bind) == (has_key(entries.take(count), bind)
            || entries[count].0 == bind),
{
    let shorter = entries.take(count);
    let longer = entries.take(count + 1);
    if has_key(shorter, bind) {
        let j = choose|j: int| 0 <= j < shorter.len() && #[trigger] shorter[j].0 == bind;
        assert(longer[j].0 == bind);
    }
    if entries[count].0 == bind {
        assert(longer[count].0 == bind);
    }
    if has_key(longer, bind) {
        let j = choose|j: int| 0 <= j < longer.len() && #[trigger] longer[j].0 == bind;
        if j < count {
            assert(shorter[j].0 == bind);
        }
    }
}

/// A list of keys with one more key holds what it held and that key.
proof fn lemma_key_pushed(keys: Seq<KeyBind>, bind: KeyBind)
    ensures
        forall|other: KeyBind|
            keys.push(bind).contains(other) <==> (keys.contains(other) || other == bind),
{
    let longer = keys.push(bind);
    assert forall|other: KeyBind| longer.contains(other) <==> (keys.contains(other) || other
        == bind) by {
        if keys.contains(other) {
            let k = choose|k: int| 0 <= k < keys.len() && keys[k] == other;
            assert(longer[k] == other);
        }
        if other == bind {
            assert(longer[keys.len() as int] == other);
        }
    }
}

/// Whoever decides what a key press means.
pub trait KeyHandler {
    /// The command bound to each key.
    spec fn bound(&self) -> Map<KeyBind, Command>;

    /// Lists the keys to grab on every managed window: each bound key once.
    fn grab_keys(&self) -> (keys: Vec<KeyBind>)
        ensures
            keys@.no_duplicates(),
            forall|bind: KeyBind| keys@.contains(bind) <==> self.bound().contains_key(bind),
    ;

    /// Finds the command bound to the key `key` pressed under the modifiers
    /// `mask`.
    fn handle_key_bind(&self, mask: u16, key: u8) -> (command: Option<&Command>)
        ensures
            match command {
                Some(command) => self.bound().contains_key(KeyBind { mask, key: key as u16 })
                    && *command == self.bound()[KeyBind { mask, key: key as u16 }],
                None => !self.bound().contains_key(KeyBind { mask, key: key as u16 }),
            },
    ;
}

/// Key bindings held in a list.
pub struct KeyBindHandler<A> {
    bind_map: Vec<(KeyBind, A)>,
}

impl<A> View for KeyBindHandler<A> {
    type V = Map<KeyBind, A>;

    closed spec fn view(&self) -> Map<KeyBind, A> {
        bindings_of(self.bind_map@)
    }
}

/// Tests whether a list of keys holds `bind`.
fn holds_key(keys: &Vec<KeyBind>, bind: KeyBind) -> (found: bool)
    ensures
        found == keys@.contains(bind),
{
    let mut i: usize = 0;
    while i < keys.len()
        invariant
            i <= keys.len(),
            forall|j: int| 0 <= j < i ==> keys@[j] != bind,
        decreases keys.len() - i,
    {
        if keys[i] == bind {
            return true;
        }
        i += 1;
    }
    false
}

impl<A> KeyBindHandler<A> {
    /// A handler without bindings.
    pub fn empty() -> (handler: KeyBindHandler<A>)
        ensures
            handler@ == Map::<KeyBind, A>::empty(),
    {
        KeyBindHandler { bind_map: Vec::new() }
    }

    /// Binds `action` to `bind`, in place of what was bound to it before.
    pub fn bind(&mut self, bind: KeyBind, action: A)
        ensures
            final(self)@ == old(self)@.insert(bind, action),
    {
        self.bind_map.push((bind, action));
        assert(self.bind_map@.drop_last() =~= old(self).bind_map@);
    }

    /// Builds a handler from chords and their actions, each chord parsed
    /// against `keymap`. Of two chords for the same key the later one
    /// counts. Returns nothing where a chord cannot be parsed.
    pub fn new(keymap: &Keymap, map: Vec<(&str, A)>) -> (handler: Option<KeyBindHandler<A>>)
        ensures
            match handler {
                Some(handler) => chords_bound(map@, keymap@) == Some(handler@),
                None => chords_bound(map@, keymap@).is_none(),
            },
    {
        let mut handler: KeyBindHandler<A> = KeyBindHandler::empty();
        let mut rest = map;
        let ghost all = rest@;
        let mut reversed: Vec<(&str, A)> = Vec::new();
        // Take the entries off the end, then bind them from the first on.
        while rest.len() > 0
            invariant
                rest@ + reversed@.reverse() == all,
            decreases rest.len(),
        {
            let entry = rest.pop().unwrap();
            reversed.push(entry);
        }
        let ghost total = all.len();
        let mut ok = true;
        while reversed.len() > 0
            invariant
                total == all.len(),
                reversed.len() <= total,
                forall|j: int|
                    0 <= j < reversed.len() ==> reversed@[j] == all[total - 1 - j],
                ok ==> chords_bound(all.take(total - reversed.len()), keymap@) == Some(handler@),
                !ok ==> chords_bound(all.take(total - reversed.len()), keymap@).is_none(),
            decreases reversed.len(),
        {
            let ghost done = total - reversed.len();
            let entry = reversed.pop().unwrap();
            proof {
                assert(all.take(done + 1).drop_last() =~= all.take(done));
            }
            let (chord, action) = entry;
            match KeyBind::parse(chord, keymap) {
                Some(bind) => {
                    if ok {
                        handler.bind(bind, action);
                    }
                },
                None => {
                    ok = false;
                },
            }
        }
        assert(all.take(total as int) =~= all);
        if ok {
            Some(handler)
        } else {
            None
        }
    }

    /// Looks up what is bound to `bind`.
    pub fn get(&self, bind: KeyBind) -> (action: Option<&A>)
        ensures
            match action {
                Some(action) => self@.contains_key(bind) && *action == self@[bind],
                None => !self@.contains_key(bind),
            },
    {
        let mut i: usize = self.bind_map.len();
        while i > 0
            invariant
                i <= self.bind_map.len(),
                forall|j: int| i <= j < self.bind_map.len() ==> self.bind_map@[j].0 != bind,
            decreases i,
        {
            i -= 1;
            if self.bind_map[i].0 == bind {
                proof {
                    lemma_bindings_lookup(self.bind_map@, bind, i as int);
                }
                return Some(&self.bind_map[i].1);
            }
        }
        proof {
            lemma_bindings_lookup(self.bind_map@, bind, -1);
        }
        None
    }

    /// Lists the bound keys, each once.
    pub fn keys(&self) -> (keys: Vec<KeyBind>)
        ensures
            keys@.no_duplicates(),
            forall|bind: KeyBind| keys@.contains(bind) <==> self@.contains_key(bind),
    {
        let mut keys: Vec<KeyBind> = Vec::new();
        let mut i: usize = 0;
        while i < self.bind_map.len()
            invariant
                i <= self.bind_map.len(),
                keys@.no_duplicates(),
                forall|bind: KeyBind|
                    keys@.contains(bind) <==> has_key(self.bind_map@.take(i as int), bind),
            decreases self.bind_map.len() - i,
        {
            let bind = self.bind_map[i].0;
            let ghost before = keys@;
            if !holds_key(&keys, bind) {
                keys.push(bind);
            }
            proof {
                lemma_key_pushed(before, bind);
                assert forall|other: KeyBind| keys@.contains(other) <==> has_key(
                    self.bind_map@.take(i + 1),
                    other,
                ) by {
                    lemma_has_key_step(self.bind_map@, i as int, other);
                    assert(before.contains(other) <==> has_key(
                        self.bind_map@.take(i as int),
                        other,
                    ));
                    assert(before.push(bind).contains(other) <==> (before.contains(other) || other
                        == bind));
                }
            }
            i += 1;
        }
        proof {
            assert(self.bind_map@.take(i as int) =~= self.bind_map@);
            assert forall|bind: KeyBind| keys@.contains(bind) <==> self@.contains_key(bind) by {
                lemma_bindings_dom(self.bind_map@, bind);
            }
        }
        keys
    }
}

impl KeyHandler for KeyBindHandler<Command> {
    open spec fn bound(&self) -> Map<KeyBind, Command> {
        self@
    }

    fn grab_keys(&self) -> (keys: Vec<KeyBind>) {
        self.keys()
    }

    fn handle_key_bind(&self, mask: u16, key: u8) -> (command: Option<&Command>) {
        self.get(KeyBind { mask, key: key as u16 })
    }
}

} // verus!
