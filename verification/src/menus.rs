//! Numbered text menus: entries, input handling and rendering, and the
//! capability shared by the states that only deal with a menu.

use vstd::prelude::*;
use vstd::string::StrSliceExecFns;

use crate::input::InputEvent;
use crate::rendering::{Color, Error, Renderer};
use crate::states::{transition_wf, StateTransition};
use crate::text::{
    digits_part, digits_value, format_usize, lemma_decimal_digits_len, parse_usize,
    parses_to_usize,
};

verus! {

/// Represents an item in a menu.
pub struct MenuEntry {
    /// The color that will be used to draw this entry.
    pub color: Color,
    /// Indicates whether this entry can be triggered. To keep it from being
    /// presented to the user, prefer `is_visible = false`.
    pub is_enabled: bool,
    /// Indicates whether this entry will be drawn.
    pub is_visible: bool,
    /// The number that will trigger this entry.
    pub key: usize,
    /// The text to display.
    pub text: String,
}

/// What textwrap's wrapping yields, as character sequences: the lines of
/// the text broken to the given width.
pub uninterp spec fn wrapped_lines(text: Seq<char>, width: int) -> Seq<Seq<char>>;

/// Relies on `textwrap::wrap`: breaks the text into lines at word
/// boundaries so that each fits the given width where possible; the
/// result is a function of the text and the width alone.
#[verifier::external_body]
fn wrap_text(text: &str, width: usize) -> (r: Vec<String>)
    ensures
        r@.map_values(|l: String| l@) == wrapped_lines(text@, width as int),
{
    textwrap::wrap(text, width).into_iter().map(|line| line.into_owned()).collect()
}

/// A string of `n` spaces.
fn spaces(n: usize) -> (s: String)
    ensures
        s@.len() == n,
{
    let mut s = String::new();
    let mut i: usize = 0;
    while i < n
        invariant
            i <= n,
            s@.len() == i,
        decreases n - i,
    {
        proof {
            reveal_strlit(" ");
        }
        s.append(" ");
        i = i + 1;
    }
    s
}

impl MenuEntry {
    /// Constructs a new menu entry with the given text and key; it starts
    /// enabled, visible and white.
    pub fn new(text: String, key: usize) -> (e: Self)
        ensures
            e.color is White,
            e.is_enabled,
            e.is_visible,
            e.key == key,
            e.text == text,
    {
        MenuEntry { color: Color::White, is_enabled: true, is_visible: true, key, text }
    }

    /// Renders this entry to the terminal: its number (or a mark when it is
    /// disabled), then its text wrapped to the screen width, with later
    /// lines indented past the number.
    fn render<R: Renderer>(&self, renderer: &R) -> Result<(), Error> {
        if self.is_visible {
            let margin: usize;
            if self.is_enabled {
                let key_string = format_usize(self.key);
                proof {
                    lemma_decimal_digits_len(self.key as int);
                }
                renderer.set_foreground_color(self.color)?;
                renderer.write(key_string.as_str())?;
                renderer.write(") ")?;
                margin = key_string.as_str().unicode_len() + 2;
            } else {
                renderer.set_foreground_color(Color::Red)?;
                renderer.write("x) ")?;
                renderer.set_foreground_color(self.color)?;
                margin = 4;
            }
            let indent_string = spaces(margin);
            let width = renderer.get_screen_size().0 as usize;
            let wrap_width = if width > margin {
                width - margin
            } else {
                1
            };
            let lines = wrap_text(self.text.as_str(), wrap_width);
            let mut index: usize = 0;
            while index < lines.len()
                invariant
                    index <= lines@.len(),
                decreases lines@.len() - index,
            {
                if index > 0 {
                    renderer.write(indent_string.as_str())?;
                }
                renderer.write(lines[index].as_str())?;
                renderer.write("\n")?;
                index = index + 1;
            }
        }
        Ok(())
    }
}

/// A menu entry identifier, unique across the menu that handed it out.
#[derive(Clone, Copy, Debug, PartialEq, Eq, Structural)]
pub struct MenuEntryId(pub usize);

/// An entry as `MenuEntry::new` builds it: enabled, visible, white, with
/// the given key and text.
pub open spec fn fresh_entry(e: MenuEntry, key: int, text: Seq<char>) -> bool {
    &&& e.color is White
    &&& e.is_enabled
    &&& e.is_visible
    &&& e.key == key
    &&& e.text@ == text
}

/// Represents a menu.
pub struct Menu {
    /// The entries, oldest first, each with the identifier it was handed
    /// out under.
    pub entries: Vec<(MenuEntryId, MenuEntry)>,
    /// The identifier the next pushed entry will get.
    pub next_id: usize,
}

/// The index of the first entry from `i` on that carries the given key, or
/// the number of entries if there is none.
pub open spec fn find_key_index(entries: Seq<(MenuEntryId, MenuEntry)>, key: int, i: int) -> int
    decreases entries.len() - i,
{
    if !(0 <= i < entries.len()) {
        entries.len() as int
    } else if entries[i].1.key == key {
        i
    } else {
        find_key_index(entries, key, i + 1)
    }
}

proof fn lemma_find_key_prefix(entries: Seq<(MenuEntryId, MenuEntry)>, key: int, i: int)
    requires
        0 <= i <= entries.len(),
        forall|j: int| 0 <= j < i ==> (#[trigger] entries[j]).1.key != key,
    ensures
        find_key_index(entries, key, 0) == find_key_index(entries, key, i),
    decreases i,
{
    if i > 0 {
        lemma_find_key_prefix(entries, key, i - 1);
    }
}

/// What `handle_input` yields for an input line: the identifier of the
/// first entry carrying the entered number, provided that entry is enabled
/// and visible; otherwise nothing.
pub open spec fn menu_selection(entries: Seq<(MenuEntryId, MenuEntry)>, s: Seq<char>) -> Option<
    MenuEntryId,
> {
    if !parses_to_usize(s) {
        Option::None
    } else {
        let key = digits_value(digits_part(s));
        let i = find_key_index(entries, key, 0);
        if i < entries.len() {
            if entries[i].1.is_enabled && entries[i].1.is_visible {
                Option::Some(entries[i].0)
            } else {
                Option::None
            }
        } else {
            Option::None
        }
    }
}

impl Menu {
    /// Validity: every identifier handed out so far lies below the
    /// counter, and no two entries share one, so each identifier names at
    /// most one entry.
    pub open spec fn wf(self) -> bool {
        &&& forall|i: int|
            0 <= i < self.entries@.len() ==> (#[trigger] self.entries@[i]).0.0 < self.next_id
        &&& forall|i: int, j: int|
            0 <= i < j < self.entries@.len() ==> (#[trigger] self.entries@[i]).0 != (
            #[trigger] self.entries@[j]).0
    }

    /// Constructs a new menu.
    pub fn new() -> (m: Self)
        ensures
            m.wf(),
            m.entries@.len() == 0,
            m.next_id == 0,
    {
        Menu { entries: Vec::new(), next_id: 0 }
    }

    /// Handles input for this menu: returns the identifier of the chosen
    /// entry, or nothing when the input names no enabled, visible entry.
    pub fn handle_input(&self, input: &str) -> (r: Option<MenuEntryId>)
        ensures
            r == menu_selection(self.entries@, input@),
    {
        let parsed = parse_usize(input);
        if let Some(key) = parsed {
            let ghost entries = self.entries@;
            let mut i: usize = 0;
            while i < self.entries.len()
                invariant
                    i <= entries.len(),
                    entries == self.entries@,
                    parses_to_usize(input@),
                    key as int == digits_value(digits_part(input@)),
                    forall|j: int| 0 <= j < i ==> (#[trigger] entries[j]).1.key != key,
                decreases entries.len() - i,
            {
                if self.entries[i].1.key == key {
                    proof {
                        lemma_find_key_prefix(entries, key as int, i as int);
                        assert(find_key_index(entries, key as int, i as int) == i as int);
                    }
                    if self.entries[i].1.is_enabled && self.entries[i].1.is_visible {
                        return Some(self.entries[i].0);
                    }
                    return None;
                }
                i = i + 1;
            }
            proof {
                lemma_find_key_prefix(entries, key as int, entries.len() as int);
            }
        }
        None
    }

    /// Pushes a new entry to this menu and returns its new identifier,
    /// which is distinct from every identifier the menu handed out before.
    pub fn push(&mut self, entry: MenuEntry) -> (id: MenuEntryId)
        requires
            old(self).wf(),
            old(self).next_id < usize::MAX,
        ensures
            final(self).wf(),
            id == MenuEntryId(old(self).next_id),
            final(self).entries@ == old(self).entries@.push((id, entry)),
            final(self).next_id == old(self).next_id + 1,
            forall|i: int|
                0 <= i < old(self).entries@.len() ==> (#[trigger] old(self).entries@[i]).0 != id,
    {
        let id = MenuEntryId(self.next_id);
        self.entries.push((id, entry));
        self.next_id = self.next_id + 1;
        id
    }

    /// Renders this menu to the terminal, entry by entry.
    pub fn render<R: Renderer>(&self, renderer: &R) -> Result<(), Error> {
        let mut i: usize = 0;
        while i < self.entries.len()
            invariant
                i <= self.entries@.len(),
            decreases self.entries@.len() - i,
        {
            self.entries[i].1.render(renderer)?;
            i = i + 1;
        }
        Ok(())
    }
}

/// A convenient capability for states that only deal with a menu.
pub trait MenuState: Sized {
    /// Well-formedness of the state's data.
    spec fn wf(&self) -> bool;

    /// The entries of the menu this state shows.
    spec fn menu_view(&self) -> Seq<(MenuEntryId, MenuEntry)>;

    /// What choosing an entry does to this state and what transition it
    /// yields; each state pins its own selections exactly.
    spec fn selection_outcome(&self, entry: MenuEntryId, after: Self, t: StateTransition) -> bool;

    /// Should return a reference to the menu.
    fn get_menu(&self) -> (m: &Menu)
        ensures
            m.entries@ == self.menu_view(),
    ;

    /// Used to handle the user's choice, exactly as the state's
    /// `selection_outcome` describes; any state a transition carries is
    /// well formed, and so is this state afterwards.
    fn handle_selection(&mut self, entry: MenuEntryId) -> (t: StateTransition)
        requires
            old(self).wf(),
        ensures
            transition_wf(t),
            final(self).wf(),
            old(self).selection_outcome(entry, *final(self), t),
    ;

    /// Used to render something on top of the screen.
    fn render_header<R: Renderer>(&self, renderer: &R) -> Result<(), Error>
        requires
            self.wf(),
    ;
}

/// What one input event does to a state that wraps a menu: a line whose
/// text selects an enabled, visible entry yields that entry's
/// `selection_outcome`; any other line, and any non-line event, changes
/// nothing.
pub open spec fn menu_input_step<T: MenuState>(
    before: T,
    input: InputEvent,
    after: T,
    t: StateTransition,
) -> bool {
    &&& (input matches InputEvent::Line(line) ==> (match menu_selection(
        before.menu_view(),
        line@,
    ) {
        Option::Some(entry) => before.selection_outcome(entry, after, t),
        Option::None => t is NoChange && after == before,
    }))
    &&& (!(input is Line) ==> (t is NoChange && after == before))
}

/// Handles one input event for a state that wraps a menu: a line that
/// names an enabled, visible entry goes to the state's selection handler,
/// and any other event changes nothing.
pub fn menu_state_handle_input<T: MenuState>(state: &mut T, input: InputEvent) -> (t:
    StateTransition)
    requires
        old(state).wf(),
    ensures
        transition_wf(t),
        final(state).wf(),
        menu_input_step(*old(state), input, *final(state), t),
{
    if let InputEvent::Line(line) = input {
        if let Some(entry) = state.get_menu().handle_input(line.as_str()) {
            return state.handle_selection(entry);
        }
    }
    StateTransition::NoChange
}

/// Renders a menu state: a cleared screen, the state's header, then the
/// menu.
pub fn menu_state_render<T: MenuState, R: Renderer>(state: &T, renderer: &R) -> Result<(), Error>
    requires
        state.wf(),
{
    renderer.clear()?;
    state.render_header(renderer)?;
    state.get_menu().render(renderer)
}

} // verus!
