//! Keyboard input: the line buffer that keystrokes fill, the registry of
//! hooks that give keystrokes their meaning, and the front end that an
//! interrupt hands each scancode byte to.

use vstd::prelude::*;
use vstd::string::StringSliceAdditionalSpecFns;
use crate::decoder::{decode, new_decoder, Decoder, Key, RawKey};
use crate::shell::{edit_flush, edit_stored, shell, shell_ran, EditStore};
use crate::text::{
    blinked, erased_last, fresh_screen, overwritten, wrote_byte, Screen, Writer, CELLS, DEFAULT_CLR,
};

verus! {

/// Slots of the line buffer.
pub const INPUT_CAPACITY: usize = 128;

/// Characters the line buffer accepts; one more is refused.
pub const INPUT_LIMIT: usize = 127;

/// The backspace control character.
pub const BACKSPACE: char = '\u{8}';

/// The character of an empty slot.
pub const NUL: char = '\0';

/// Color of status warnings: bright white on bright red.
pub const WARNING_CLR: u8 = 0xCF;

/// Shown, without moving the cursor, when a character does not fit.
pub const OVERFLOW_WARNING: &'static str = "[Input buffer length maxed.]";

/// Shown by the default commit hook.
pub const FLUSH_REFUSED: &'static str = "[Cannot flush input]";

/// What the line buffer holds, as mathematics.
pub struct Line {
    pub cells: Seq<char>,
    pub length: nat,
}

/// Every slot empty.
pub open spec fn empty_cells() -> Seq<char> {
    Seq::new(INPUT_CAPACITY as nat, |i: int| NUL)
}

pub open spec fn empty_line() -> Line {
    Line { cells: empty_cells(), length: 0 }
}

pub open spec fn line_wf(l: Line) -> bool {
    l.cells.len() == INPUT_CAPACITY && l.length <= INPUT_LIMIT
}

/// A printable character arriving when the buffer is full: it is refused.
pub open spec fn overflows(l: Line, c: char) -> bool {
    c != BACKSPACE && l.length >= INPUT_LIMIT
}

/// What a character other than the commit delimiter does to the buffer.
/// Backspace steps back (not below zero) and empties the slot it lands on;
/// a printable character is stored at `length` and counted, unless the
/// buffer is full, which leaves it as it was.
pub open spec fn edited(l: Line, c: char) -> Line {
    if c == BACKSPACE {
        let n: nat = if l.length == 0 {
            0
        } else {
            (l.length - 1) as nat
        };
        Line { cells: l.cells.update(n as int, NUL), length: n }
    } else if overflows(l, c) {
        l
    } else {
        Line { cells: l.cells.update(l.length as int, c), length: l.length + 1 }
    }
}

/// The line buffer: a fixed array of slots and the count of those in use.
pub struct LineBuffer {
    cells: [char; 128],
    length: usize,
}

impl View for LineBuffer {
    type V = Line;

    closed spec fn view(&self) -> Line {
        Line { cells: self.cells@, length: self.length as nat }
    }
}

impl LineBuffer {
    pub closed spec fn wf(&self) -> bool {
        self.length <= INPUT_LIMIT
    }

    /// All slots empty.
    pub fn new() -> (r: LineBuffer)
        ensures
            r.wf(),
            r@ == empty_line(),
    {
        let r = LineBuffer { cells: [NUL; 128], length: 0 };
        assert(r@.cells =~= empty_cells());
        r
    }

    pub fn length(&self) -> (r: usize)
        ensures
            r == self@.length,
    {
        self.length
    }

    /// A copy of every slot.
    pub fn snapshot(&self) -> (r: [char; 128])
        ensures
            r@ == self@.cells,
    {
        self.cells
    }

    /// Applies a character other than the commit delimiter; tells whether
    /// it was refused for want of room.
    pub fn edit(&mut self, c: char) -> (overflowed: bool)
        requires
            old(self).wf(),
        ensures
            final(self).wf(),
            final(self)@ == edited(old(self)@, c),
            overflowed == overflows(old(self)@, c),
    {
        if c == BACKSPACE {
            if self.length != 0 {
                self.length = self.length - 1;
            }
            self.cells[self.length] = NUL;
            false
        } else if self.length >= INPUT_LIMIT {
            true
        } else {
            self.cells[self.length] = c;
            self.length = self.length + 1;
            false
        }
    }

    /// Empties every slot.
    pub fn reset(&mut self)
        ensures
            final(self).wf(),
            final(self)@ == empty_line(),
    {
        *self = LineBuffer::new();
    }

    /// Moves the logical cursor one slot left.
    pub fn step_left(&mut self)
        requires
            old(self).wf(),
            old(self)@.length > 0,
        ensures
            final(self).wf(),
            final(self)@ == (Line { length: (old(self)@.length - 1) as nat, ..old(self)@ }),
    {
        self.length = self.length - 1;
    }

    /// Moves the logical cursor one slot right.
    pub fn step_right(&mut self)
        requires
            old(self).wf(),
            old(self)@.length < INPUT_LIMIT,
        ensures
            final(self).wf(),
            final(self)@ == (Line { length: old(self)@.length + 1, ..old(self)@ }),
    {
        self.length = self.length + 1;
    }
}

/// What a typed character does at once, before the buffer sees it.
#[derive(Clone, Copy, Debug, PartialEq, Eq, Structural)]
pub enum CharHook {
    /// Shows the character, or erases one on backspace, flashing the caret.
    Echo,
    /// Shows nothing.
    Ignore,
}

/// What a key without a character does.
#[derive(Clone, Copy, Debug, PartialEq, Eq, Structural)]
pub enum RawHook {
    /// Nothing.
    Ignore,
    /// The left and right arrows move the logical and visual cursors
    /// together, never past either end of the line.
    MoveCursor,
}

/// What receives a committed line.
#[derive(Clone, Copy, Debug, PartialEq, Eq, Structural)]
pub enum CommitHook {
    /// Declines with a status message.
    Refuse,
    /// The command shell.
    Shell,
    /// The line editor, which stores each line.
    Edit,
}

/// The hook registry: one active value per slot, replaced whole.
#[derive(Clone, Copy, Debug, PartialEq, Eq, Structural)]
pub struct Hooks {
    pub on_unicode_key: CharHook,
    pub on_raw_key: RawHook,
    pub on_commit: CommitHook,
    pub commit_delimiter: char,
}

/// The hooks installed at boot.
pub open spec fn boot_hooks() -> Hooks {
    Hooks {
        on_unicode_key: CharHook::Echo,
        on_raw_key: RawHook::Ignore,
        on_commit: CommitHook::Refuse,
        commit_delimiter: '\n',
    }
}

impl Hooks {
    /// Echo, no raw-key action, commits refused, line feed as delimiter.
    pub fn new() -> (r: Hooks)
        ensures
            r == boot_hooks(),
    {
        Hooks {
            on_unicode_key: CharHook::Echo,
            on_raw_key: RawHook::Ignore,
            on_commit: CommitHook::Refuse,
            commit_delimiter: '\n',
        }
    }
}

/// The echo of a typed character: the caret flashed around showing it (or,
/// for backspace, erasing the last cell).
pub open spec fn echoed(s: Screen, c: char) -> Screen {
    if c == BACKSPACE {
        blinked(erased_last(blinked(s)))
    } else {
        blinked(wrote_byte(blinked(s), c as u8, DEFAULT_CLR))
    }
}

/// The default character hook: echoes the character.
pub fn on_key(writer: &mut Writer, inp: char)
    requires
        old(writer).wf(),
    ensures
        final(writer).wf(),
        final(writer)@ == echoed(old(writer)@, inp),
{
    if inp == BACKSPACE {
        writer.blink();
        writer.clear_last();
        writer.blink();
    } else {
        writer.blink();
        writer.write_byte(inp as u8, DEFAULT_CLR);
        writer.blink();
    }
}

/// The default raw-key hook: does nothing.
pub fn on_raw(_key: RawKey) {
}

/// The default commit hook: declines the line with a status message that
/// leaves the cursor where it was.
pub fn flush_in(writer: &mut Writer, _inp: &[char; 128])
    requires
        old(writer).wf(),
    ensures
        final(writer).wf(),
        final(writer)@ == overwritten(old(writer)@, FLUSH_REFUSED.spec_bytes(), WARNING_CLR),
{
    writer.display_overwrite(FLUSH_REFUSED, WARNING_CLR);
}

/// The whole console, as mathematics.
pub struct ConsoleState {
    pub line: Line,
    pub hooks: Hooks,
    pub screen: Screen,
    pub stored: Seq<Seq<char>>,
}

/// The console: line buffer, hooks, display, the editor's stored lines and
/// the scancode decoder, owned together so that one exclusive borrow
/// covers everything a keystroke touches.
pub struct Console {
    pub input: LineBuffer,
    pub hooks: Hooks,
    pub writer: Writer,
    pub stored: EditStore,
    pub decoder: Decoder,
}

impl View for Console {
    type V = ConsoleState;

    open spec fn view(&self) -> ConsoleState {
        ConsoleState {
            line: self.input@,
            hooks: self.hooks,
            screen: self.writer@,
            stored: self.stored@,
        }
    }
}

/// The character hook at work.
pub open spec fn char_hooked(h: CharHook, s: Screen, c: char) -> Screen {
    match h {
        CharHook::Echo => echoed(s, c),
        CharHook::Ignore => s,
    }
}

/// The raw-key hook at work.
pub open spec fn raw_hooked(st: ConsoleState, k: RawKey) -> ConsoleState {
    match st.hooks.on_raw_key {
        RawHook::Ignore => st,
        RawHook::MoveCursor => {
            if k == RawKey::ArrowLeft && st.line.length != 0 && st.screen.cursor != 0 {
                ConsoleState {
                    line: Line { length: (st.line.length - 1) as nat, ..st.line },
                    screen: blinked(Screen { cursor: (st.screen.cursor - 1) as nat, ..blinked(st.screen) }),
                    ..st
                }
            } else if k == RawKey::ArrowRight && st.line.length != INPUT_LIMIT && st.screen.cursor < CELLS {
                ConsoleState {
                    line: Line { length: st.line.length + 1, ..st.line },
                    screen: blinked(Screen { cursor: st.screen.cursor + 1, ..blinked(st.screen) }),
                    ..st
                }
            } else {
                st
            }
        },
    }
}

/// The commit hook at work on a snapshot.
pub open spec fn committed(st: ConsoleState, snap: Seq<char>) -> ConsoleState {
    match st.hooks.on_commit {
        CommitHook::Refuse => ConsoleState {
            screen: overwritten(st.screen, FLUSH_REFUSED.spec_bytes(), WARNING_CLR),
            ..st
        },
        CommitHook::Shell => shell_ran(st, snap),
        CommitHook::Edit => edit_stored(st, snap),
    }
}

/// What one decoded key does to the console. A character goes to the
/// character hook first; then the commit delimiter hands a snapshot to the
/// commit hook and empties the buffer, and any other character edits the
/// buffer, a refused one showing the overflow warning. A raw key goes to
/// the raw-key hook alone.
pub open spec fn after_key(st: ConsoleState, key: Key) -> ConsoleState {
    match key {
        Key::Unicode(c) => {
            let s1 = ConsoleState { screen: char_hooked(st.hooks.on_unicode_key, st.screen, c), ..st };
            if c == st.hooks.commit_delimiter {
                ConsoleState { line: empty_line(), ..committed(s1, s1.line.cells) }
            } else if overflows(s1.line, c) {
                ConsoleState {
                    screen: overwritten(s1.screen, OVERFLOW_WARNING.spec_bytes(), WARNING_CLR),
                    ..s1
                }
            } else {
                ConsoleState { line: edited(s1.line, c), ..s1 }
            }
        },
        Key::Raw(k) => raw_hooked(st, k),
    }
}

/// The snapshot that one decoded key hands to the commit hook, if any.
pub open spec fn commit_of(st: ConsoleState, key: Key) -> Option<Seq<char>> {
    match key {
        Key::Unicode(c) => if c == st.hooks.commit_delimiter {
            Some(st.line.cells)
        } else {
            None
        },
        Key::Raw(_) => None,
    }
}

impl Console {
    pub open spec fn wf(&self) -> bool {
        self.input.wf() && self.writer.wf() && self.stored.wf()
    }

    /// An empty buffer, the boot hooks, a fresh display and decoder.
    pub fn new() -> (r: Console)
        ensures
            r.wf(),
            r@.line == empty_line(),
            r@.hooks == boot_hooks(),
            r@.screen == fresh_screen(),
            r@.stored == Seq::<Seq<char>>::empty(),
    {
        let r = Console {
            input: LineBuffer::new(),
            hooks: Hooks::new(),
            writer: Writer::new(),
            stored: EditStore::new(),
            decoder: new_decoder(),
        };
        r
    }
    /// Hands a snapshot to the installed commit hook.
    pub fn run_commit(&mut self, snap: &[char; 128])
        requires
            old(self).wf(),
        ensures
            final(self).wf(),
            final(self)@ == committed(old(self)@, snap@),
    {
        match self.hooks.on_commit {
            CommitHook::Refuse => flush_in(&mut self.writer, snap),
            CommitHook::Shell => shell(self, snap),
            CommitHook::Edit => edit_flush(self, snap),
        }
    }

    /// Hands a typed character to the installed character hook.
    pub fn run_char_hook(&mut self, c: char)
        requires
            old(self).wf(),
        ensures
            final(self).wf(),
            final(self)@ == (ConsoleState {
                screen: char_hooked(old(self)@.hooks.on_unicode_key, old(self)@.screen, c),
                ..old(self)@
            }),
    {
        match self.hooks.on_unicode_key {
            CharHook::Echo => on_key(&mut self.writer, c),
            CharHook::Ignore => {},
        }
    }

    /// Hands a raw key to the installed raw-key hook.
    pub fn run_raw_hook(&mut self, key: RawKey)
        requires
            old(self).wf(),
        ensures
            final(self).wf(),
            final(self)@ == raw_hooked(old(self)@, key),
    {
        match self.hooks.on_raw_key {
            RawHook::Ignore => on_raw(key),
            RawHook::MoveCursor => {
                if key == RawKey::ArrowLeft && self.input.length() != 0 && self.writer.cursor() != 0 {
                    self.writer.blink();
                    self.input.step_left();
                    self.writer.cursor_left();
                    self.writer.blink();
                } else if key == RawKey::ArrowRight && self.input.length() != INPUT_LIMIT
                    && self.writer.cursor() < CELLS {
                    self.writer.blink();
                    self.input.step_right();
                    self.writer.cursor_right();
                    self.writer.blink();
                }
            },
        }
    }

    /// The front end for one decoded key: see `after_key`. Returns the
    /// snapshot handed to the commit hook, if the key committed the line.
    pub fn handle_key(&mut self, key: Key) -> (r: Option<[char; 128]>)
        requires
            old(self).wf(),
        ensures
            final(self).wf(),
            final(self)@ == after_key(old(self)@, key),
            snapshot_view(r) == commit_of(old(self)@, key),
    {
        match key {
            Key::Unicode(c) => {
                self.run_char_hook(c);
                if c == self.hooks.commit_delimiter {
                    let snap = self.input.snapshot();
                    self.run_commit(&snap);
                    self.input.reset();
                    Some(snap)
                } else {
                    let overflowed = self.input.edit(c);
                    if overflowed {
                        self.writer.display_overwrite(OVERFLOW_WARNING, WARNING_CLR);
                    }
                    None
                }
            },
            Key::Raw(k) => {
                self.run_raw_hook(k);
                None
            },
        }
    }
}

/// A snapshot as mathematics.
pub open spec fn snapshot_view(r: Option<[char; 128]>) -> Option<Seq<char>> {
    match r {
        Some(a) => Some(a@),
        None => None,
    }
}

/// The console after the characters of `cs`, typed one after the other.
pub open spec fn after_chars(st: ConsoleState, cs: Seq<char>) -> ConsoleState
    decreases cs.len(),
{
    if cs.len() == 0 {
        st
    } else {
        after_key(after_chars(st, cs.drop_last()), Key::Unicode(cs.last()))
    }
}

/// Characters typed, less the backspaces that found something to remove.
pub open spec fn typed_count(cs: Seq<char>) -> nat
    decreases cs.len(),
{
    if cs.len() == 0 {
        0
    } else if cs.last() == BACKSPACE {
        let n = typed_count(cs.drop_last());
        if n == 0 {
            0
        } else {
            (n - 1) as nat
        }
    } else {
        typed_count(cs.drop_last()) + 1
    }
}

/// None of the characters commits the line.
pub open spec fn no_delimiter(cs: Seq<char>, delim: char) -> bool {
    forall|i: int| 0 <= i < cs.len() ==> cs[i] != delim
}

/// From an empty buffer, after at most 127 characters none of which is the
/// commit delimiter, the buffer's length is the number of characters other
/// than backspace less the backspaces that had something to remove.
pub proof fn lemma_length_counts_typing(st: ConsoleState, cs: Seq<char>)
    requires
        st.line == empty_line(),
        cs.len() <= INPUT_LIMIT,
        no_delimiter(cs, st.hooks.commit_delimiter),
    ensures
        after_chars(st, cs).line.length == typed_count(cs),
{
    lemma_typing_keeps_hooks(st, cs);
}

proof fn lemma_typing_keeps_hooks(st: ConsoleState, cs: Seq<char>)
    requires
        st.line == empty_line(),
        cs.len() <= INPUT_LIMIT,
        no_delimiter(cs, st.hooks.commit_delimiter),
    ensures
        after_chars(st, cs).hooks == st.hooks,
        after_chars(st, cs).line.length == typed_count(cs),
        typed_count(cs) <= cs.len(),
        after_chars(st, cs).line.cells.len() == INPUT_CAPACITY,
    decreases cs.len(),
{
    if cs.len() > 0 {
        let pre = cs.drop_last();
        assert(no_delimiter(pre, st.hooks.commit_delimiter)) by {
            assert forall|i: int| 0 <= i < pre.len() implies pre[i] != st.hooks.commit_delimiter by {
                assert(pre[i] == cs[i]);
            }
        }
        assert(cs.last() == cs[cs.len() - 1]);
        lemma_typing_keeps_hooks(st, pre);
    }
}

/// From an empty buffer, typing characters that are neither backspace nor
/// the delimiter (at most 127 of them) and then the delimiter hands the
/// commit hook a snapshot that starts with those characters, in order,
/// with every later slot empty; afterwards the buffer is empty.
pub proof fn lemma_commit_hands_typed_line(st: ConsoleState, cs: Seq<char>)
    requires
        st.line == empty_line(),
        cs.len() <= INPUT_LIMIT,
        no_delimiter(cs, st.hooks.commit_delimiter),
        forall|i: int| 0 <= i < cs.len() ==> cs[i] != BACKSPACE,
    ensures
        ({
            let before = after_chars(st, cs);
            let key = Key::Unicode(st.hooks.commit_delimiter);
            &&& commit_of(before, key) is Some
            &&& commit_of(before, key)->0.len() == INPUT_CAPACITY
            &&& commit_of(before, key)->0.take(cs.len() as int) == cs
            &&& forall|i: int|
                cs.len() <= i < INPUT_CAPACITY ==> #[trigger] commit_of(before, key)->0[i] == NUL
            &&& after_key(before, key).line.length == 0
        }),
    decreases cs.len(),
{
    lemma_printable_fill(st, cs);
}

proof fn lemma_printable_fill(st: ConsoleState, cs: Seq<char>)
    requires
        st.line == empty_line(),
        cs.len() <= INPUT_LIMIT,
        no_delimiter(cs, st.hooks.commit_delimiter),
        forall|i: int| 0 <= i < cs.len() ==> cs[i] != BACKSPACE,
    ensures
        after_chars(st, cs).hooks == st.hooks,
        after_chars(st, cs).line.length == cs.len(),
        after_chars(st, cs).line.cells.len() == INPUT_CAPACITY,
        after_chars(st, cs).line.cells.take(cs.len() as int) == cs,
        forall|i: int|
            cs.len() <= i < INPUT_CAPACITY ==> #[trigger] after_chars(st, cs).line.cells[i] == NUL,
    decreases cs.len(),
{
    if cs.len() == 0 {
        assert(after_chars(st, cs).line.cells.take(0) =~= cs);
    } else {
        let pre = cs.drop_last();
        assert(no_delimiter(pre, st.hooks.commit_delimiter)) by {
            assert forall|i: int| 0 <= i < pre.len() implies pre[i] != st.hooks.commit_delimiter by {
                assert(pre[i] == cs[i]);
            }
        }
        assert(cs.last() == cs[cs.len() - 1]);
        lemma_printable_fill(st, pre);
        let b = after_chars(st, pre);
        let a = after_chars(st, cs);
        assert(a.line.cells == b.line.cells.update(pre.len() as int, cs.last()));
        assert(a.line.cells.take(cs.len() as int) =~= cs) by {
            assert forall|i: int| 0 <= i < cs.len() implies a.line.cells[i] == cs[i] by {
                if i < pre.len() {
                    assert(b.line.cells.take(pre.len() as int)[i] == pre[i]);
                }
            }
        }
    }
}

/// A character other than backspace and the delimiter, typed into a full
/// buffer, leaves the buffer as it was and shows the overflow warning once,
/// after the character hook, with the cursor kept where it was.
pub proof fn lemma_full_buffer_refuses(st: ConsoleState, c: char)
    requires
        st.line.length == INPUT_LIMIT,
        c != BACKSPACE,
        c != st.hooks.commit_delimiter,
    ensures
        after_key(st, Key::Unicode(c)).line == st.line,
        after_key(st, Key::Unicode(c)).screen == overwritten(
            char_hooked(st.hooks.on_unicode_key, st.screen, c),
            OVERFLOW_WARNING.spec_bytes(),
            WARNING_CLR,
        ),
        after_key(st, Key::Unicode(c)).hooks == st.hooks,
        commit_of(st, Key::Unicode(c)) is None,
{
}

/// The work of a keyboard interrupt, given the byte read from the data
/// port: the byte goes to the decoder, and a key that comes out of it to
/// `handle_key`. Whatever the decoder makes of the byte, the console either
/// stays as it was or takes exactly the step of one key, and the snapshot
/// returned is the one that key hands to the commit hook.
pub fn keyboard_handler(console: &mut Console, scancode: u8) -> (r: Option<[char; 128]>)
    requires
        old(console).wf(),
    ensures
        final(console).wf(),
        (final(console)@ == old(console)@ && r.is_none()) || exists|k: Key|
            final(console)@ == after_key(old(console)@, k) && snapshot_view(r) == commit_of(
                old(console)@,
                k,
            ),
{
    match decode(&mut console.decoder, scancode) {
        Some(key) => console.handle_key(key),
        None => None,
    }
}

/// A foreground routine takes over the console: the shell runs once on an
/// empty line (which shows the prompt), then receives every commit, and the
/// arrows move the cursor.
pub fn prompt(console: &mut Console)
    requires
        old(console).wf(),
    ensures
        final(console).wf(),
        final(console)@ == (ConsoleState {
            hooks: Hooks {
                on_raw_key: RawHook::MoveCursor,
                on_commit: CommitHook::Shell,
                ..shell_ran(old(console)@, empty_cells()).hooks
            },
            ..shell_ran(old(console)@, empty_cells())
        }),
{
    let empty: [char; 128] = [NUL; 128];
    assert(empty@ =~= empty_cells());
    shell(console, &empty);
    console.hooks.on_raw_key = RawHook::MoveCursor;
    console.hooks.on_commit = CommitHook::Shell;
}

} // verus!
