use mpd::args::{command_line, render_signed, render_unsigned, Quoted, ToArguments};
use mpd::idle::Subsystem;
use mpd::playlist::{EditAction, SaveMode};
use mpd::status::ReplayGain;

fn tokens<A: ToArguments>(a: &A) -> Vec<String> {
    let mut out = Vec::new();
    a.to_arguments(&mut out);
    out
}

#[test]
fn quoting_escapes_backslash_and_quote() {
    assert_eq!(Quoted("He said \"hi\"\\").to_quoted_string(), "\"He said \\\"hi\\\"\\\\\"");
    assert_eq!(Quoted("").to_quoted_string(), "\"\"");
    assert_eq!(Quoted("a b: c").to_quoted_string(), "\"a b: c\"");
}

#[test]
fn numbers_render_in_decimal() {
    assert_eq!(render_unsigned(0), "0");
    assert_eq!(render_unsigned(1000), "1000");
    assert_eq!(render_unsigned(u64::MAX), "18446744073709551615");
    assert_eq!(render_signed(-5), "-5");
    assert_eq!(render_signed(i64::MIN), "-9223372036854775808");
    assert_eq!(tokens(&(-1i8)), vec!["-1"]);
    assert_eq!(tokens(&255u8), vec!["255"]);
}

#[test]
fn tuples_and_slices_flatten_in_order() {
    assert_eq!(tokens(&("a", 1u32, "b")), vec!["a", "1", "b"]);
    assert_eq!(tokens(&()), Vec::<String>::new());
    let subs: &[Subsystem] = &[Subsystem::Player, Subsystem::Queue, Subsystem::Playlist];
    assert_eq!(tokens(&subs), vec!["player", "playlist", "stored_playlist"]);
    assert_eq!(tokens(&ReplayGain::Auto), vec!["auto"]);
}

#[test]
fn edit_actions() {
    let add = EditAction::Add("list".to_string(), "a.mp3".to_string(), Some(3));
    assert_eq!(add.command(), "playlistadd");
    assert_eq!(tokens(&add), vec!["list", "a.mp3", "3"]);
    let add2 = EditAction::Add("list".to_string(), "a.mp3".to_string(), None);
    assert_eq!(tokens(&add2), vec!["list", "a.mp3"]);
    let mv = EditAction::Move("list".to_string(), 1, 2);
    assert_eq!(mv.command(), "playlistmove");
    assert_eq!(tokens(&mv), vec!["list", "1", "2"]);
    assert_eq!(EditAction::Clear("l".to_string()).command(), "playlistclear");
    assert_eq!(tokens(&EditAction::Delete("l".to_string(), 7)), vec!["l", "7"]);
    assert_eq!(EditAction::Delete("l".to_string(), 7).command(), "playlistdelete");
    assert_eq!(SaveMode::Create.as_str(), "create");
    assert_eq!(SaveMode::Replace.as_str(), "replace");
    assert_eq!(SaveMode::Append.as_str(), "append");
}

#[test]
fn command_lines_quote_every_argument() {
    assert_eq!(command_line("status", &()), "status\n");
    assert_eq!(command_line("add", &"My \"Song\".mp3"), "add \"My \\\"Song\\\".mp3\"\n");
    assert_eq!(command_line("move", &(1u32, 2u32)), "move \"1\" \"2\"\n");
}
