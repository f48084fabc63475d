use cli_utils::colors::{blue, bold, green, red, reset, Color, ColorString};

#[test]
fn test_red_coloring() {
    let mut color_string = ColorString {
        color: Color::Red,
        string: "Hello".to_string(),
        colorized: "".to_string(),
    };

    color_string.paint();

    assert_eq!(color_string.colorized.to_string(), "\x1b[31mHello\x1b[0m");
}

#[test]
fn test_red_exact() {
    assert_eq!(red("Hello"), "\x1b[31mHello\x1b[0m");
}

#[test]
fn test_green_exact() {
    assert_eq!(green("Hello"), "\x1b[32mHello\x1b[0m");
}

#[test]
fn test_blue_exact() {
    assert_eq!(blue("Hello"), "\x1b[34mHello\x1b[0m");
}

#[test]
fn test_bold_exact() {
    assert_eq!(bold("Hello"), "\x1b[1mHello\x1b[0m");
}

#[test]
fn test_reset_exact() {
    assert_eq!(reset("Hello"), "\x1b[0mHello\x1b[0m");
}

#[test]
fn test_reset_empty() {
    assert_eq!(reset(""), "\x1b[0m\x1b[0m");
}

#[test]
fn test_decorate_empty() {
    assert_eq!(red(""), "\x1b[31m\x1b[0m");
}

#[test]
fn test_decorate_distinct_texts() {
    assert_ne!(red("one"), red("two"));
}

#[test]
fn test_decorate_nests() {
    let once = red("Hi");
    let twice = red(&once);
    assert_eq!(twice, "\x1b[31m\x1b[31mHi\x1b[0m\x1b[0m");
    assert_ne!(twice, once);
}

#[test]
fn test_paint_each_color() {
    assert_eq!(green("x"), "\x1b[32mx\x1b[0m");
    let mut holder = ColorString {
        color: Color::Green,
        string: "x".to_string(),
        colorized: String::new(),
    };
    holder.paint();
    assert_eq!(holder.colorized, "\x1b[32mx\x1b[0m");
    holder.color = Color::Blue;
    holder.paint();
    assert_eq!(holder.colorized, "\x1b[34mx\x1b[0m");
    holder.color = Color::Bold;
    holder.paint();
    assert_eq!(holder.colorized, "\x1b[1mx\x1b[0m");
}

#[test]
fn test_color_string_reset() {
    let mut holder = ColorString {
        color: Color::Red,
        string: "Hello".to_string(),
        colorized: String::new(),
    };
    holder.reset();
    assert_eq!(holder.colorized, "\x1b[0mHello\x1b[0m");
}
