use colored::Colorize;
use rainbow::classify::Context;
use rainbow::colour::Rgb;
use rainbow::line::format_line;
use rainbow::paint::{paint, Style};
use rainbow::tail::{tail_step, Action, Event};

fn force_colours() {
    colored::control::set_override(true);
}

#[test]
fn fixed_styles_are_painted_with_their_codes() {
    force_colours();
    assert_eq!(paint("12:00:01", Style::Blue), "\u{1b}[34m12:00:01\u{1b}[0m");
    assert_eq!(paint("error", Style::BoldRed), "\u{1b}[1;31merror\u{1b}[0m");
    assert_eq!(paint("0xFF", Style::Green), "\u{1b}[32m0xFF\u{1b}[0m");
    assert_eq!(paint("hit", Style::Yellow), "\u{1b}[33mhit\u{1b}[0m");
}

#[test]
fn a_derived_colour_is_handed_to_the_painter() {
    force_colours();
    let painted = paint("at", Style::TrueColor(Rgb { r: 194, g: 232, b: 96 }));
    assert_eq!(painted, format!("{}", "at".truecolor(194, 232, 96)));
    assert_ne!(painted, "at");
    assert!(painted.starts_with("\u{1b}["));
    assert!(painted.ends_with("mat\u{1b}[0m"));
    let other = paint("at", Style::TrueColor(Rgb { r: 0, g: 0, b: 0 }));
    assert_eq!(other, format!("{}", "at".truecolor(0, 0, 0)));
    assert_ne!(other, painted);
}

#[test]
fn a_derived_colour_is_painted_with_its_own_code_or_a_plain_one() {
    force_colours();
    let colours = [(194, 232, 96), (0, 0, 0), (255, 255, 255), (96, 96, 96), (7, 70, 200)];
    for (r, g, b) in colours {
        let painted = paint("at", Style::TrueColor(Rgb { r, g, b }));
        let own = format!("\u{1b}[38;2;{};{};{}mat\u{1b}[0m", r, g, b);
        let mut allowed = vec![own];
        for tens in ["3", "9"] {
            for unit in 0..8 {
                allowed.push(format!("\u{1b}[{}{}mat\u{1b}[0m", tens, unit));
            }
        }
        assert!(allowed.contains(&painted), "{:?}", painted);
    }
}

#[test]
fn a_line_is_painted_token_by_token() {
    force_colours();
    let context = Context { highlight: Some("hit".to_string()) };
    let out = format_line("12:00:01 error at 0xFF code 42 ahitb", &context);
    let expected = format!(
        "{} {} {} {} {} {} {}\n",
        "\u{1b}[34m12:00:01\u{1b}[0m",
        "\u{1b}[1;31merror\u{1b}[0m",
        "at".truecolor(194, 232, 96),
        "\u{1b}[32m0xFF\u{1b}[0m",
        "code".truecolor(198, 222, 200),
        "\u{1b}[32m42\u{1b}[0m",
        "\u{1b}[33mahitb\u{1b}[0m",
    );
    assert_eq!(out, expected);
}

#[test]
fn a_first_token_that_looks_like_an_error_is_painted_as_the_timestamp() {
    force_colours();
    let context = Context { highlight: None };
    assert_eq!(format_line("error", &context), "\u{1b}[34merror\u{1b}[0m\n");
    assert_eq!(
        format_line("42 42", &context),
        "\u{1b}[34m42\u{1b}[0m \u{1b}[32m42\u{1b}[0m\n"
    );
}

#[test]
fn a_blank_line_is_painted_as_the_placeholder() {
    force_colours();
    let context = Context { highlight: None };
    assert_eq!(format_line("", &context), "\u{1b}[34m¿\u{1b}[0m\n");
    assert_eq!(format_line("   ", &context), "\u{1b}[34m¿\u{1b}[0m\n");
}

#[test]
fn whitespace_between_tokens_becomes_one_space() {
    force_colours();
    let context = Context { highlight: None };
    assert_eq!(
        format_line("  1 \t 2  ", &context),
        "\u{1b}[34m1\u{1b}[0m \u{1b}[32m2\u{1b}[0m\n"
    );
}

#[test]
fn every_token_stands_in_the_painted_line_in_order() {
    force_colours();
    let context = Context { highlight: Some("o".to_string()) };
    let line = "t0 error at 0xFF code 42 fin";
    let out = format_line(line, &context);
    let mut from = 0;
    for token in line.split_whitespace() {
        let at = out[from..].find(token).expect("the token stands in the output");
        from += at + token.len();
    }
    assert!(out.ends_with('\n'));
    assert_eq!(out.matches('\n').count(), 1);
}

#[test]
fn a_token_with_a_reset_sequence_is_painted_too() {
    force_colours();
    let context = Context { highlight: None };
    let out = format_line("t a\u{1b}[0mb", &context);
    assert!(out.starts_with("\u{1b}[34mt\u{1b}[0m "));
    assert!(out.ends_with("b\u{1b}[0m\n"));
}

#[test]
fn the_read_loop_prints_lines_skips_failures_and_stops_at_the_end() {
    force_colours();
    let context = Context { highlight: None };
    assert_eq!(
        tail_step(&Event::Line("7 err".to_string()), &context),
        Action::Print("\u{1b}[34m7\u{1b}[0m \u{1b}[1;31merr\u{1b}[0m\n".to_string())
    );
    assert_eq!(tail_step(&Event::ReadFailed, &context), Action::Skip);
    assert_eq!(tail_step(&Event::Closed, &context), Action::Stop);
}
