//! The command shell and line editor: foreground routines that take over
//! the console by installing hooks and act on each committed line.

use vstd::prelude::*;
use vstd::string::StringSliceAdditionalSpecFns;
use crate::keyboard::{CommitHook, Console, ConsoleState, Hooks, WARNING_CLR};
use crate::text::{blinked, cleared, overwritten, wrote_bytes, PANIC_CLR, SPACE};

verus! {

/// Shown after each command, in the protected color.
pub const PROMPT: &'static str = " $:";

pub const ECHO: &'static str = "echo";

pub const CD: &'static str = "cd";

pub const EDIT: &'static str = "edit";

pub const NEWLINE_TEXT: &'static str = "\n";

pub const NO_STORAGE: &'static str = "Hardware storage not supported.\n";

pub const UNKNOWN_HEAD: &'static str = "Unknown command: [";

pub const UNKNOWN_TAIL: &'static str = "]. Fiddle has no storage support.\n";

pub const EDIT_TITLE: &'static str = "Edit [v.01]\n";

pub const EDIT_GREETING: &'static str = "Hello world";

pub const EDIT_READY: &'static str = "Test2";

pub const EDIT_FULL: &'static str = "[Edit mem buffer maxed]";

/// Color of the editor's title bar: bright white on magenta.
pub const TITLE_CLR: u8 = 0x5F;

/// Lines the editor stores.
pub const EDIT_CAPACITY: usize = 128;

/// Bytes equal to zero.
pub open spec fn zeros(b: Seq<u8>) -> nat
    decreases b.len(),
{
    if b.len() == 0 {
        0
    } else {
        zeros(b.drop_last()) + if b.last() == 0 {
            1nat
        } else {
            0nat
        }
    }
}

proof fn lemma_zeros_bound(b: Seq<u8>)
    ensures
        zeros(b) <= b.len(),
    decreases b.len(),
{
    if b.len() > 0 {
        lemma_zeros_bound(b.drop_last());
    }
}

/// The snapshot's characters as bytes (each cut to its low eight bits),
/// as many of them, from the front, as the snapshot has bytes that are
/// not zero.
pub open spec fn command_line(inp: Seq<char>) -> Seq<u8> {
    let b = inp.map_values(|c: char| c as u8);
    b.take(b.len() - zeros(b))
}

/// `k` ends the first word of `line`: it is the first space, or the end.
pub open spec fn is_word_end(line: Seq<u8>, k: int) -> bool {
    &&& 0 <= k <= line.len()
    &&& (k == line.len() || line[k] == SPACE)
    &&& forall|j: int| 0 <= j < k ==> line[j] != SPACE
}

pub open spec fn word_end(line: Seq<u8>) -> int {
    choose|k: int| is_word_end(line, k)
}

/// The command word.
pub open spec fn command_word(line: Seq<u8>) -> Seq<u8> {
    line.take(word_end(line))
}

/// What follows the first space, if there is one.
pub open spec fn arguments(line: Seq<u8>) -> Seq<u8> {
    if word_end(line) < line.len() {
        line.skip(word_end(line) + 1)
    } else {
        Seq::empty()
    }
}

proof fn lemma_word_end(line: Seq<u8>, k: int)
    requires
        is_word_end(line, k),
    ensures
        word_end(line) == k,
{
    let w = word_end(line);
    assert(is_word_end(line, w));
    if w < k {
        assert(line[w] != SPACE);
    } else if w > k {
        assert(line[k] != SPACE);
    }
}

/// What the shell's command does, before the prompt comes back: `echo`
/// prints its arguments and a line feed, `cd` says there is no storage,
/// `edit` clears the screen and hands commits to the editor, an empty word
/// does nothing, and any other word is named as unknown. All of it in the
/// ambient color but for the editor's banner.
pub open spec fn command_ran(st: ConsoleState, line: Seq<u8>) -> ConsoleState {
    let cmd = command_word(line);
    let s = st.screen;
    let a = s.ambient;
    if cmd == ECHO.spec_bytes() {
        ConsoleState {
            screen: wrote_bytes(wrote_bytes(s, arguments(line), a), NEWLINE_TEXT.spec_bytes(), a),
            ..st
        }
    } else if cmd == CD.spec_bytes() {
        ConsoleState { screen: wrote_bytes(s, NO_STORAGE.spec_bytes(), a), ..st }
    } else if cmd == EDIT.spec_bytes() {
        ConsoleState {
            screen: wrote_bytes(
                wrote_bytes(
                    wrote_bytes(cleared(s, a), EDIT_TITLE.spec_bytes(), TITLE_CLR),
                    EDIT_GREETING.spec_bytes(),
                    WARNING_CLR,
                ),
                EDIT_READY.spec_bytes(),
                a,
            ),
            hooks: Hooks { on_commit: CommitHook::Edit, ..st.hooks },
            ..st
        }
    } else if cmd.len() == 0 {
        st
    } else {
        ConsoleState {
            screen: wrote_bytes(
                wrote_bytes(wrote_bytes(s, UNKNOWN_HEAD.spec_bytes(), a), cmd, a),
                UNKNOWN_TAIL.spec_bytes(),
                a,
            ),
            ..st
        }
    }
}

/// The shell on a committed snapshot: the command, then the prompt with
/// the caret flashed on.
pub open spec fn shell_ran(st: ConsoleState, inp: Seq<char>) -> ConsoleState {
    let st2 = command_ran(st, command_line(inp));
    ConsoleState { screen: blinked(wrote_bytes(st2.screen, PROMPT.spec_bytes(), PANIC_CLR)), ..st2 }
}

/// The editor on a committed snapshot: a greeting, then the line is
/// stored, or, with no room left, a warning shown in its stead.
pub open spec fn edit_stored(st: ConsoleState, inp: Seq<char>) -> ConsoleState {
    let s1 = wrote_bytes(st.screen, EDIT_GREETING.spec_bytes(), WARNING_CLR);
    if st.stored.len() < EDIT_CAPACITY {
        ConsoleState { screen: s1, stored: st.stored.push(inp), ..st }
    } else {
        ConsoleState { screen: overwritten(s1, EDIT_FULL.spec_bytes(), WARNING_CLR), ..st }
    }
}

/// Whether `a[lo..hi]` equals `b`.
fn same_bytes(a: &[u8], lo: usize, hi: usize, b: &[u8]) -> (r: bool)
    requires
        lo <= hi <= a@.len(),
    ensures
        r == (a@.subrange(lo as int, hi as int) == b@),
{
    if hi - lo != b.len() {
        return false;
    }
    let mut i: usize = 0;
    while i < b.len()
        invariant
            lo <= hi <= a@.len(),
            hi - lo == b@.len(),
            i <= b@.len(),
            forall|j: int| 0 <= j < i ==> a@[lo + j] == b@[j],
        decreases b@.len() - i,
    {
        if a[lo + i] != b[i] {
            return false;
        }
        i = i + 1;
    }
    assert(a@.subrange(lo as int, hi as int) =~= b@);
    true
}

/// The command line of a snapshot (see `command_line`): the first `r.1`
/// bytes of `r.0`.
pub fn read_command_line(inp: &[char; 128]) -> (r: ([u8; 128], usize))
    ensures
        r.1 <= 128,
        r.0@.subrange(0, r.1 as int) == command_line(inp@),
{
    let ghost b = inp@.map_values(|c: char| c as u8);
    let mut all: [u8; 128] = [0u8; 128];
    let mut z: usize = 0;
    let mut i: usize = 0;
    while i < 128
        invariant
            i <= 128,
            inp@.len() == 128,
            all@.len() == 128,
            b == inp@.map_values(|c: char| c as u8),
            forall|j: int| 0 <= j < i ==> all@[j] == b[j],
            z == zeros(b.take(i as int)),
            z <= i,
        decreases 128 - i,
    {
        let byte = inp[i] as u8;
        all[i] = byte;
        assert(b.take(i as int + 1).drop_last() =~= b.take(i as int));
        if byte == 0 {
            z = z + 1;
        }
        i = i + 1;
    }
    assert(all@ =~= b);
    assert(b.take(128) =~= b);
    assert(all@.subrange(0, 128 - z) =~= b.take(128 - z));
    (all, 128 - z)
}

/// The shell: runs the command on the committed line and shows the prompt.
pub fn shell(console: &mut Console, inp: &[char; 128])
    requires
        old(console).wf(),
    ensures
        final(console).wf(),
        final(console)@ == shell_ran(old(console)@, inp@),
{
    let (bytes, n) = read_command_line(inp);
    let ghost line = bytes@.subrange(0, n as int);
    let mut k: usize = 0;
    while k < n && bytes[k] != SPACE
        invariant
            k <= n <= 128,
            bytes@.len() == 128,
            forall|j: int| 0 <= j < k ==> bytes@[j] != SPACE,
        decreases n - k,
    {
        k = k + 1;
    }
    proof {
        assert(is_word_end(line, k as int));
        lemma_word_end(line, k as int);
    }
    let b = bytes.as_slice();
    assert(b@.subrange(0, k as int) =~= command_word(line));
    let a = console.writer.ambient();
    if same_bytes(b, 0, k, ECHO.as_bytes()) {
        if k < n {
            assert(b@.subrange(k + 1, n as int) =~= arguments(line));
            console.writer.display_range(b, k + 1, n, a);
        } else {
            assert(arguments(line) =~= Seq::<u8>::empty());
        }
        console.writer.display(NEWLINE_TEXT, a);
    } else if same_bytes(b, 0, k, CD.as_bytes()) {
        console.writer.display(NO_STORAGE, a);
    } else if same_bytes(b, 0, k, EDIT.as_bytes()) {
        console.writer.clear(a);
        console.writer.display(EDIT_TITLE, TITLE_CLR);
        console.writer.display(EDIT_GREETING, WARNING_CLR);
        console.hooks.on_commit = CommitHook::Edit;
        console.writer.display(EDIT_READY, a);
    } else if k == 0 {
    } else {
        console.writer.display(UNKNOWN_HEAD, a);
        console.writer.display_range(b, 0, k, a);
        console.writer.display(UNKNOWN_TAIL, a);
    }
    console.writer.display(PROMPT, PANIC_CLR);
    console.writer.blink();
}

/// The editor's lines: a fixed number of slots, filled in order.
pub struct EditStore {
    lines: [[char; 128]; 128],
    count: usize,
}

impl View for EditStore {
    type V = Seq<Seq<char>>;

    closed spec fn view(&self) -> Seq<Seq<char>> {
        Seq::new(self.count as nat, |i: int| self.lines@[i]@)
    }
}

impl EditStore {
    pub closed spec fn wf(&self) -> bool {
        self.count <= EDIT_CAPACITY
    }

    /// No lines.
    pub fn new() -> (r: EditStore)
        ensures
            r.wf(),
            r@ == Seq::<Seq<char>>::empty(),
    {
        let r = EditStore { lines: [['\0'; 128]; 128], count: 0 };
        assert(r@ =~= Seq::<Seq<char>>::empty());
        r
    }

    /// Lines stored.
    pub fn len(&self) -> (r: usize)
        requires
            self.wf(),
        ensures
            r == self@.len(),
    {
        self.count
    }

    /// Line `i`.
    pub fn line(&self, i: usize) -> (r: [char; 128])
        requires
            self.wf(),
            i < self@.len(),
        ensures
            r@ == self@[i as int],
    {
        self.lines[i]
    }

    /// Stores a line after the others.
    pub fn push(&mut self, line: &[char; 128])
        requires
            old(self).wf(),
            old(self)@.len() < EDIT_CAPACITY,
        ensures
            final(self).wf(),
            final(self)@ == old(self)@.push(line@),
    {
        self.lines[self.count] = *line;
        self.count = self.count + 1;
        assert(self@ =~= old(self)@.push(line@));
    }
}

/// The editor's commit hook: greets, then stores the line while there is
/// room and warns when there is none.
pub fn edit_flush(console: &mut Console, inp: &[char; 128])
    requires
        old(console).wf(),
    ensures
        final(console).wf(),
        final(console)@ == edit_stored(old(console)@, inp@),
{
    console.writer.display(EDIT_GREETING, WARNING_CLR);
    if console.stored.len() < EDIT_CAPACITY {
        console.stored.push(inp);
    } else {
        console.writer.display_overwrite(EDIT_FULL, WARNING_CLR);
    }
}

} // verus!
