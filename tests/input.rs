use fiddle_os::decoder::{decode, Key, RawKey};
use fiddle_os::interrupts::InterruptIndex;
use fiddle_os::keyboard::{keyboard_handler, prompt, CommitHook, Console, RawHook};
use fiddle_os::shell::read_command_line;
use fiddle_os::text::{Writer, DEFAULT_CLR, PANIC_CLR};

fn text_at(w: &Writer, from: usize, n: usize) -> String {
    (from..from + n).map(|i| w.cell(i).0 as char).collect()
}

fn type_str(c: &mut Console, s: &str) -> Option<[char; 128]> {
    let mut last = None;
    for ch in s.chars() {
        last = c.handle_key(Key::Unicode(ch));
    }
    last
}

#[test]
fn typed_line_is_committed_on_delimiter() {
    let mut c = Console::new();
    assert_eq!(c.handle_key(Key::Unicode('h')), None);
    assert_eq!(c.handle_key(Key::Unicode('i')), None);
    let snap = c.handle_key(Key::Unicode('\n')).expect("the delimiter commits");
    assert_eq!(snap[0], 'h');
    assert_eq!(snap[1], 'i');
    assert!(snap[2..].iter().all(|&x| x == '\0'));
    assert_eq!(c.input.length(), 0);
    assert!(c.input.snapshot().iter().all(|&x| x == '\0'));
}

#[test]
fn default_hooks_echo_and_refuse_commit() {
    let mut c = Console::new();
    type_str(&mut c, "hi\n");
    assert_eq!(c.writer.cell(0), (b'h', DEFAULT_CLR));
    assert_eq!(c.writer.cell(1), (b'i', DEFAULT_CLR));
    assert_eq!(c.writer.cursor(), 80);
    assert_eq!(text_at(&c.writer, 80, 20), "[Cannot flush input]");
    assert_eq!(c.writer.cell(80).1, 0xCF);
}

#[test]
fn full_buffer_refuses_character_with_warning() {
    let mut c = Console::new();
    for _ in 0..127 {
        assert_eq!(c.handle_key(Key::Unicode('x')), None);
    }
    assert_eq!(c.input.length(), 127);
    assert_eq!(c.handle_key(Key::Unicode('x')), None);
    assert_eq!(c.input.length(), 127);
    let snap = c.input.snapshot();
    assert!(snap[..127].iter().all(|&x| x == 'x'));
    assert_eq!(snap[127], '\0');
    let warning = "[Input buffer length maxed.]";
    assert_eq!(text_at(&c.writer, 128, warning.len()), warning);
    assert_eq!(c.writer.cell(128).1, 0xCF);
    assert_eq!(c.writer.cursor(), 128);
}

#[test]
fn left_arrow_at_line_start_changes_nothing() {
    let mut c = Console::new();
    prompt(&mut c);
    let before: Vec<(u8, u8)> = (0..2000).map(|i| c.writer.cell(i)).collect();
    let cursor = c.writer.cursor();
    assert_eq!(c.handle_key(Key::Raw(RawKey::ArrowLeft)), None);
    assert_eq!(c.input.length(), 0);
    assert_eq!(c.writer.cursor(), cursor);
    let after: Vec<(u8, u8)> = (0..2000).map(|i| c.writer.cell(i)).collect();
    assert_eq!(before, after);
}

#[test]
fn arrows_move_both_cursors_after_prompt() {
    let mut c = Console::new();
    prompt(&mut c);
    type_str(&mut c, "ab");
    assert_eq!(c.input.length(), 2);
    assert_eq!(c.writer.cursor(), 5);
    c.handle_key(Key::Raw(RawKey::ArrowLeft));
    assert_eq!(c.input.length(), 1);
    assert_eq!(c.writer.cursor(), 4);
    c.handle_key(Key::Raw(RawKey::ArrowRight));
    assert_eq!(c.input.length(), 2);
    assert_eq!(c.writer.cursor(), 5);
}

#[test]
fn arrows_do_nothing_with_boot_hooks() {
    let mut c = Console::new();
    type_str(&mut c, "ab");
    c.handle_key(Key::Raw(RawKey::ArrowLeft));
    assert_eq!(c.input.length(), 2);
    assert_eq!(c.writer.cursor(), 2);
}

#[test]
fn right_arrow_stops_at_last_slot() {
    let mut c = Console::new();
    prompt(&mut c);
    for _ in 0..127 {
        c.handle_key(Key::Unicode('y'));
    }
    let cursor = c.writer.cursor();
    c.handle_key(Key::Raw(RawKey::ArrowRight));
    assert_eq!(c.input.length(), 127);
    assert_eq!(c.writer.cursor(), cursor);
}

#[test]
fn backspace_removes_last_character() {
    let mut c = Console::new();
    type_str(&mut c, "ab\u{8}");
    assert_eq!(c.input.length(), 1);
    let snap = c.input.snapshot();
    assert_eq!(snap[0], 'a');
    assert_eq!(snap[1], '\0');
    assert_eq!(c.writer.cursor(), 1);
}

#[test]
fn backspace_on_empty_line_keeps_length_zero() {
    let mut c = Console::new();
    type_str(&mut c, "\u{8}\u{8}a");
    assert_eq!(c.input.length(), 1);
    assert_eq!(c.input.snapshot()[0], 'a');
}

#[test]
fn length_counts_characters_less_backspaces() {
    let mut c = Console::new();
    type_str(&mut c, "abc\u{8}d\u{8}\u{8}ef");
    assert_eq!(c.input.length(), 3);
}

#[test]
fn prompt_shows_marker_and_installs_hooks() {
    let mut c = Console::new();
    prompt(&mut c);
    assert_eq!(text_at(&c.writer, 0, 3), " $:");
    assert_eq!(c.writer.cell(0).1, PANIC_CLR);
    assert_eq!(c.writer.cursor(), 3);
    assert_eq!(c.hooks.on_raw_key, RawHook::MoveCursor);
    assert_eq!(c.hooks.on_commit, CommitHook::Shell);
}

#[test]
fn shell_echo_prints_arguments() {
    let mut c = Console::new();
    prompt(&mut c);
    let snap = type_str(&mut c, "echo hi  there\n").expect("commit");
    assert_eq!(snap[0], 'e');
    assert_eq!(text_at(&c.writer, 80, 9), "hi  there");
    assert_eq!(c.writer.cell(80).1, DEFAULT_CLR);
    assert_eq!(text_at(&c.writer, 160, 3), " $:");
    assert_eq!(c.writer.cell(160).1, PANIC_CLR);
    assert_eq!(c.writer.cursor(), 163);
    assert_eq!(c.input.length(), 0);
}

#[test]
fn shell_cd_reports_no_storage() {
    let mut c = Console::new();
    prompt(&mut c);
    type_str(&mut c, "cd home\n");
    let msg = "Hardware storage not supported.";
    assert_eq!(text_at(&c.writer, 80, msg.len()), msg);
    assert_eq!(text_at(&c.writer, 160, 3), " $:");
}

#[test]
fn shell_names_unknown_command() {
    let mut c = Console::new();
    prompt(&mut c);
    type_str(&mut c, "foo bar\n");
    let msg = "Unknown command: [foo]. Fiddle has no storage support.";
    assert_eq!(text_at(&c.writer, 80, msg.len()), msg);
    assert_eq!(text_at(&c.writer, 160, 3), " $:");
}

#[test]
fn shell_empty_line_only_prompts() {
    let mut c = Console::new();
    prompt(&mut c);
    type_str(&mut c, "\n");
    assert_eq!(text_at(&c.writer, 80, 3), " $:");
    assert_eq!(c.writer.cursor(), 83);
}

#[test]
fn shell_edit_hands_commits_to_editor() {
    let mut c = Console::new();
    prompt(&mut c);
    type_str(&mut c, "edit\n");
    assert_eq!(c.hooks.on_commit, CommitHook::Edit);
    assert_eq!(text_at(&c.writer, 0, 11), "Edit [v.01]");
    assert_eq!(c.writer.cell(0).1, 0x5F);
    assert_eq!(text_at(&c.writer, 80, 11), "Hello world");
    assert_eq!(c.writer.cell(80).1, 0xCF);
    assert_eq!(text_at(&c.writer, 91, 5), "Test2");
    assert_eq!(text_at(&c.writer, 96, 3), " $:");
    type_str(&mut c, "ab\n");
    assert_eq!(c.stored.len(), 1);
    assert_eq!(c.stored.line(0)[0], 'a');
    assert_eq!(c.stored.line(0)[1], 'b');
    assert_eq!(c.input.length(), 0);
}

#[test]
fn editor_warns_when_full() {
    let mut c = Console::new();
    c.hooks.on_commit = CommitHook::Edit;
    for _ in 0..129 {
        type_str(&mut c, "z\n");
    }
    assert_eq!(c.stored.len(), 128);
    let warning = "[Edit mem buffer maxed]";
    let at = c.writer.cursor();
    assert_eq!(text_at(&c.writer, at, warning.len()), warning);
}

#[test]
fn command_line_counts_nonzero_slots() {
    let mut snap = ['\0'; 128];
    snap[0] = 'a';
    snap[1] = 'b';
    let (bytes, n) = read_command_line(&snap);
    assert_eq!(&bytes[..n], b"ab");
    let mut gap = ['\0'; 128];
    gap[0] = 'a';
    gap[2] = 'c';
    let (bytes, n) = read_command_line(&gap);
    assert_eq!(&bytes[..n], &[b'a', 0]);
    let (_, n) = read_command_line(&['\0'; 128]);
    assert_eq!(n, 0);
}

#[test]
fn decoder_turns_scancodes_into_keys() {
    let mut c = Console::new();
    let d = &mut c.decoder;
    assert_eq!(decode(d, 0x23), Some(Key::Unicode('h')));
    assert_eq!(decode(d, 0xA3), None);
    assert_eq!(decode(d, 0x1C), Some(Key::Unicode('\n')));
    assert_eq!(decode(d, 0x0E), Some(Key::Unicode('\u{8}')));
    assert_eq!(decode(d, 0xE0), None);
    assert_eq!(decode(d, 0x4B), Some(Key::Raw(RawKey::ArrowLeft)));
    assert_eq!(decode(d, 0xE0), None);
    assert_eq!(decode(d, 0x4D), Some(Key::Raw(RawKey::ArrowRight)));
}

#[test]
fn interrupt_handler_feeds_buffer_from_scancodes() {
    let mut c = Console::new();
    assert_eq!(keyboard_handler(&mut c, 0x23), None);
    assert_eq!(keyboard_handler(&mut c, 0xA3), None);
    assert_eq!(keyboard_handler(&mut c, 0x17), None);
    assert_eq!(c.input.length(), 2);
    let snap = keyboard_handler(&mut c, 0x1C).expect("enter commits");
    assert_eq!(snap[0], 'h');
    assert_eq!(snap[1], 'i');
    assert_eq!(c.input.length(), 0);
}

#[test]
fn interrupt_vectors_follow_controller_offset() {
    assert_eq!(InterruptIndex::Timer.as_u8(), 32);
    assert_eq!(InterruptIndex::Keyboard.as_u8(), 33);
    assert_eq!(InterruptIndex::Keyboard.as_usize(), 33);
}

#[test]
fn arrow_scancodes_move_cursor_after_prompt() {
    let mut c = Console::new();
    prompt(&mut c);
    keyboard_handler(&mut c, 0x1E);
    assert_eq!(c.input.length(), 1);
    assert_eq!(c.input.snapshot()[0], 'a');
    assert_eq!(keyboard_handler(&mut c, 0xE0), None);
    keyboard_handler(&mut c, 0x4B);
    assert_eq!(c.input.length(), 0);
    assert_eq!(c.writer.cursor(), 3);
    keyboard_handler(&mut c, 0xE0);
    keyboard_handler(&mut c, 0x4B);
    assert_eq!(c.input.length(), 0);
    assert_eq!(c.writer.cursor(), 3);
}
