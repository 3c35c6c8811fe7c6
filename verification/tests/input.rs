use icb::input::{History, Input};

fn typed(text: &str) -> Input {
    let mut input = Input::new();
    for c in text.chars() {
        input.insert(c);
    }
    input
}

#[test]
fn a_new_input_is_empty() {
    let input = Input::new();
    assert_eq!(input.get_string(), "");
    assert_eq!(input.cursor(), 0);
    assert!(input.is_empty());
}

#[test]
fn insert_at_the_cursor() {
    let mut input = typed("helo");
    assert_eq!(input.cursor(), 4);
    input.move_left(1);
    input.insert('l');
    assert_eq!(input.get_string(), "hello");
    assert_eq!(input.cursor(), 4);
    input.move_to_start();
    input.insert('>');
    assert_eq!(input.get_string(), ">hello");
    assert_eq!(input.cursor(), 1);
    assert!(!input.is_empty());
}

#[test]
fn backspace_deletes_before_the_cursor() {
    let mut input = typed("abc");
    input.backspace();
    assert_eq!(input.get_string(), "ab");
    assert_eq!(input.cursor(), 2);
    input.move_left(1);
    input.backspace();
    assert_eq!(input.get_string(), "b");
    assert_eq!(input.cursor(), 0);
    input.backspace();
    assert_eq!(input.get_string(), "b");
    assert_eq!(input.cursor(), 0);
}

#[test]
fn backspace_takes_marks_without_width_along() {
    let mut input = typed("xe\u{301}\u{302}");
    assert_eq!(input.cursor(), 4);
    input.backspace();
    assert_eq!(input.get_string(), "x");
    assert_eq!(input.cursor(), 1);
    let mut input = typed("\u{301}\u{301}");
    input.backspace();
    assert_eq!(input.get_string(), "");
    assert_eq!(input.cursor(), 0);
    let mut input = typed("a\u{301}b");
    input.backspace();
    assert_eq!(input.get_string(), "a\u{301}");
    assert_eq!(input.cursor(), 2);
}

#[test]
fn backspace_stops_at_a_control_character() {
    let mut input = typed("a\tb");
    input.move_left(1);
    input.backspace();
    assert_eq!(input.get_string(), "ab");
    assert_eq!(input.cursor(), 1);
}

#[test]
fn delete_at_the_cursor() {
    let mut input = typed("abc");
    input.delete();
    assert_eq!(input.get_string(), "abc");
    input.move_to_start();
    input.delete();
    assert_eq!(input.get_string(), "bc");
    assert_eq!(input.cursor(), 0);
    input.move_right(1);
    input.delete();
    assert_eq!(input.get_string(), "b");
    assert_eq!(input.cursor(), 1);
}

#[test]
fn delete_takes_marks_without_width_along() {
    let mut input = typed("e\u{301}\u{302}x");
    input.move_to_start();
    input.delete();
    assert_eq!(input.get_string(), "x");
    assert_eq!(input.cursor(), 0);
    let mut input = typed("ae\u{301}");
    input.move_to_start();
    input.move_right(1);
    assert_eq!(input.cursor(), 1);
    input.delete();
    assert_eq!(input.get_string(), "a");
    assert_eq!(input.cursor(), 1);
}

#[test]
fn backspace_word() {
    let mut input = typed("hello big world");
    input.backspace_word();
    assert_eq!(input.get_string(), "hello big ");
    input.backspace_word();
    assert_eq!(input.get_string(), "hello ");
    assert_eq!(input.cursor(), 6);
    input.backspace_word();
    assert_eq!(input.get_string(), "");
    input.backspace_word();
    assert_eq!(input.get_string(), "");
    assert_eq!(input.cursor(), 0);
}

#[test]
fn backspace_word_in_the_middle() {
    let mut input = typed("one two  three");
    input.move_left(5);
    assert_eq!(input.cursor(), 9);
    input.backspace_word();
    assert_eq!(input.get_string(), "one three");
    assert_eq!(input.cursor(), 4);
    let mut input = typed("   ");
    input.backspace_word();
    assert_eq!(input.get_string(), "");
    let mut input = typed("a\u{a0}\u{2003}b");
    input.move_left(1);
    input.backspace_word();
    assert_eq!(input.get_string(), "b");
    assert_eq!(input.cursor(), 0);
}

#[test]
fn move_right_and_left() {
    let mut input = typed("abc");
    input.move_right(1);
    assert_eq!(input.cursor(), 3);
    input.move_left(1);
    assert_eq!(input.cursor(), 2);
    input.move_left(5);
    assert_eq!(input.cursor(), 0);
    input.move_left(1);
    assert_eq!(input.cursor(), 0);
    input.move_right(2);
    assert_eq!(input.cursor(), 2);
    input.move_right(usize::MAX);
    assert_eq!(input.cursor(), 2);
    input.move_right(7);
    assert_eq!(input.cursor(), 3);
    input.move_right(0);
    assert_eq!(input.cursor(), 3);
    input.move_left(0);
    assert_eq!(input.cursor(), 3);
}

#[test]
fn the_cursor_does_not_rest_on_a_mark_without_width() {
    let mut input = typed("ae\u{301}\u{302}b");
    input.move_to_start();
    input.move_right(1);
    assert_eq!(input.cursor(), 1);
    input.move_right(1);
    assert_eq!(input.cursor(), 4);
    input.move_left(1);
    assert_eq!(input.cursor(), 1);
    input.move_to_end();
    assert_eq!(input.cursor(), 5);
    input.move_left(2);
    assert_eq!(input.cursor(), 1);
    let mut input = typed("\u{301}a");
    input.move_left(1);
    assert_eq!(input.cursor(), 1);
    input.move_left(1);
    assert_eq!(input.cursor(), 0);
    let mut input = typed("a\u{301}");
    input.move_to_start();
    input.move_right(1);
    assert_eq!(input.cursor(), 2);
}

#[test]
fn move_to_start_and_end() {
    let mut input = typed("hello");
    input.move_to_start();
    assert_eq!(input.cursor(), 0);
    assert_eq!(input.get_string(), "hello");
    input.move_to_end();
    assert_eq!(input.cursor(), 5);
    assert_eq!(input.get_string(), "hello");
}

#[test]
fn view_of_a_short_line() {
    let input = typed("hello");
    assert_eq!(input.view(80), ("hello".to_string(), 5));
    assert_eq!(input.view(8), ("hello".to_string(), 5));
    let input = Input::new();
    assert_eq!(input.view(80), (String::new(), 0));
}

#[test]
fn view_of_a_long_line() {
    let input = typed("abcdefghijklmnopqrstuvwxyz");
    assert_eq!(input.view(20), ("lmnopqrstuvwxyz".to_string(), 15));
    assert_eq!(input.view(23), ("lmnopqrstuvwxyz".to_string(), 15));
    assert_eq!(input.view(4), ("xyz".to_string(), 3));
    assert_eq!(input.view(3), ("".to_string(), 0));
    assert_eq!(input.view(0), ("".to_string(), 0));
    let mut input = typed("abcdefghij");
    input.move_left(4);
    assert_eq!(input.view(8), ("abcdefghij".to_string(), 6));
    assert_eq!(input.view(4), ("defghij".to_string(), 3));
}

#[test]
fn view_counts_columns() {
    let input = typed("ab\u{4e2d}\u{6587}");
    assert_eq!(input.view(4), ("\u{4e2d}\u{6587}".to_string(), 3));
    assert_eq!(input.view(8), ("ab\u{4e2d}\u{6587}".to_string(), 6));
    let input = typed("a\tb");
    assert_eq!(input.view(8), ("a\tb".to_string(), 2));
    let input = typed("abe\u{301}");
    assert_eq!(input.view(4), ("abe\u{301}".to_string(), 3));
}

#[test]
fn a_new_history_has_one_empty_line() {
    let history = History::new();
    assert_eq!(history.current().get_string(), "");
    assert_eq!(history.current().cursor(), 0);
}

#[test]
fn history_new_line_and_steps() {
    let mut history = History::new();
    history.new_line();
    history.current_mut().insert('a');
    assert_eq!(history.current().get_string(), "a");
    history.new_line();
    assert_eq!(history.current().get_string(), "");
    history.current_mut().insert('b');
    history.new_line();
    history.new_line();
    assert_eq!(history.current().get_string(), "");
    history.prev();
    assert_eq!(history.current().get_string(), "b");
    history.prev();
    assert_eq!(history.current().get_string(), "a");
    history.prev();
    assert_eq!(history.current().get_string(), "a");
    history.next();
    assert_eq!(history.current().get_string(), "b");
    history.next();
    assert_eq!(history.current().get_string(), "");
    history.next();
    assert_eq!(history.current().get_string(), "");
    history.prev();
    history.prev();
    history.new_line();
    assert_eq!(history.current().get_string(), "");
    history.prev();
    assert_eq!(history.current().get_string(), "b");
}

#[test]
fn history_edits_the_line_it_stands_on() {
    let mut history = History::new();
    history.current_mut().insert('x');
    history.new_line();
    history.current_mut().insert('y');
    history.prev();
    history.current_mut().insert('z');
    history.current_mut().move_to_start();
    history.current_mut().delete();
    assert_eq!(history.current().get_string(), "z");
    history.next();
    assert_eq!(history.current().get_string(), "y");
    history.current_mut().backspace();
    assert_eq!(history.current().get_string(), "");
}
