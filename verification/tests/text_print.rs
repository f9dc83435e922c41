use story_text::text_print::{
    letters, push_decimal, FontWeight, SoundTrigger, TextOption, TextPrint, TextSize, TextStyle,
};

#[test]
fn the_initial_run() {
    let run = TextPrint::default();
    assert_eq!(run.color, "black");
    assert_eq!(run.option, TextOption::Normal);
    assert_eq!(run.msg, "");
    assert_eq!(run.size, TextSize::Base);
    assert_eq!(run.speed, 60);
    assert!(!run.is_split);
    assert_eq!(run.style, TextStyle::Plain);
    assert_eq!(run.font, "hancom-malang");
    assert_eq!(run.font_weight, FontWeight::Normal);
    assert_eq!(run.class, "");
    assert_eq!(run.sound, None);
}

#[test]
fn builders_set_one_attribute_each() {
    let run = TextPrint::default()
        .msg("m")
        .font("f")
        .font_weight(FontWeight::Num(700))
        .option(TextOption::Oblique(3))
        .speed(7)
        .color("c")
        .size(TextSize::Written("1.5".to_owned()))
        .style(TextStyle::Unit)
        .sound(SoundTrigger::AnimalCrossing("k".to_owned()))
        .class("cl")
        .is_split(true);
    assert_eq!(run.msg, "m");
    assert_eq!(run.font, "f");
    assert_eq!(run.font_weight, FontWeight::Num(700));
    assert_eq!(run.option, TextOption::Oblique(3));
    assert_eq!(run.speed, 7);
    assert_eq!(run.color, "c");
    assert_eq!(run.size, TextSize::Written("1.5".to_owned()));
    assert_eq!(run.style, TextStyle::Unit);
    assert_eq!(run.sound, Some(SoundTrigger::AnimalCrossing("k".to_owned())));
    assert_eq!(run.sound.as_ref().unwrap().key(), "k");
    assert_eq!(run.class, "cl");
    assert!(run.is_split);
}

#[test]
fn color_bold_is_bold_and_slow() {
    let run = TextPrint::color_bold("hi", "red");
    assert_eq!(run.msg, "hi");
    assert_eq!(run.color, "red");
    assert_eq!(run.speed, 100);
    assert_eq!(run.font_weight, FontWeight::Bold);
    assert_eq!(run.font, "hancom-malang");
    assert_eq!(run.size, TextSize::Base);
}

#[test]
fn new_takes_every_attribute_but_the_sound() {
    let run = TextPrint::new(
        "m",
        "f",
        FontWeight::Bold,
        TextOption::Italic,
        "c",
        TextSize::Written("3".to_owned()),
        9,
        TextStyle::MinMax2(vec!["1".to_owned(), "2".to_owned()]),
        "cl",
        true,
    );
    assert_eq!(run.msg, "m");
    assert_eq!(run.font, "f");
    assert_eq!(run.font_weight, FontWeight::Bold);
    assert_eq!(run.option, TextOption::Italic);
    assert_eq!(run.color, "c");
    assert_eq!(run.size, TextSize::Written("3".to_owned()));
    assert_eq!(run.speed, 9);
    assert_eq!(run.style, TextStyle::MinMax2(vec!["1".to_owned(), "2".to_owned()]));
    assert_eq!(run.class, "cl");
    assert!(run.is_split);
    assert_eq!(run.sound, None);
}

#[test]
fn equality_looks_at_seven_attributes() {
    let base = TextPrint::default().msg("m");
    assert_eq!(base, base.clone());
    assert_eq!(base, base.clone().font_weight(FontWeight::Bold));
    assert_eq!(base, base.clone().size(TextSize::Written("9".to_owned())));
    assert_eq!(base, base.clone().style(TextStyle::Unit));
    assert_eq!(base, base.clone().sound(SoundTrigger::AnimalCrossing("k".to_owned())));
    assert_ne!(base, base.clone().color("red"));
    assert_ne!(base, base.clone().option(TextOption::Italic));
    assert_ne!(base, base.clone().msg("n"));
    assert_ne!(base, base.clone().speed(1));
    assert_ne!(base, base.clone().font("serif"));
    assert_ne!(base, base.clone().is_split(true));
    assert_ne!(base, base.clone().class("c"));
}

#[test]
fn clone_keeps_everything() {
    let run = TextPrint::default()
        .msg("메세지")
        .size(TextSize::Written("1.5".to_owned()))
        .style(TextStyle::MinMax4(vec!["1".to_owned(), "2".to_owned()]))
        .sound(SoundTrigger::AnimalCrossing("k".to_owned()))
        .font_weight(FontWeight::Num(3));
    let copy = run.clone();
    assert_eq!(copy.msg, "메세지");
    assert_eq!(copy.size, run.size);
    assert_eq!(copy.style, run.style);
    assert_eq!(copy.sound, run.sound);
    assert_eq!(copy.font_weight, run.font_weight);
}

#[test]
fn css_text_of_slant_and_weight() {
    assert_eq!(TextOption::Normal.css(), "normal");
    assert_eq!(TextOption::Italic.css(), "italic");
    assert_eq!(TextOption::Oblique(20).css(), "oblique 20deg");
    assert_eq!(TextOption::Oblique(0).css(), "oblique 0deg");
    assert_eq!(FontWeight::Normal.css(), "normal");
    assert_eq!(FontWeight::Bold.css(), "bold");
    assert_eq!(FontWeight::Num(700).css(), "700");
    assert_eq!(FontWeight::Num(4294967295).css(), "4294967295");
}

#[test]
fn push_decimal_appends() {
    for n in [0u32, 1, 9, 10, 11, 99, 100, 101, 1234567890, u32::MAX] {
        let mut s = "n=".to_owned();
        push_decimal(&mut s, n);
        assert_eq!(s, format!("n={}", n));
    }
}

#[test]
fn constant_style_text() {
    assert_eq!(TextStyle::Plain.constant(), Some(String::new()));
    assert_eq!(TextStyle::Unit.constant(), Some("--min:1;--max:1".to_owned()));
    assert_eq!(TextStyle::MinMax2(vec![]).constant(), None);
    assert_eq!(TextStyle::MinMax4(vec![]).constant(), None);
}

#[test]
fn part_print_cuts_by_code_points() {
    let run = TextPrint::default().msg("메세지!").color("red").speed(3);
    assert_eq!(run.len(), 4);
    assert_eq!(run.part_print(0).msg, "");
    assert_eq!(run.part_print(2).msg, "메세");
    assert_eq!(run.part_print(4).msg, "메세지!");
    assert_eq!(run.part_print(100).msg, "메세지!");
    let part = run.part_print(1);
    assert_eq!(part.color, "red");
    assert_eq!(part.speed, 3);
    assert_eq!(run.msg, "메세지!");
}

#[test]
fn lines_are_cut_at_line_feeds() {
    let lines = |text: &str| TextPrint::default().msg(text).lines();
    assert_eq!(lines("a\nb"), vec!["a", "b"]);
    assert_eq!(lines("a"), vec!["a"]);
    assert_eq!(lines(""), vec![""]);
    assert_eq!(lines("\n메\n\n"), vec!["", "메", "", ""]);
    assert_eq!(lines("a\r\nb"), vec!["a\r", "b"]);
}

#[test]
fn letters_are_single_code_points() {
    assert_eq!(letters("메a!"), vec!["메", "a", "!"]);
    assert!(letters("").is_empty());
}

#[test]
fn outer_class_is_empty_for_split_runs() {
    assert_eq!(TextPrint::default().class("big").outer_class(), "big");
    assert_eq!(TextPrint::default().class("big").is_split(true).outer_class(), "");
}
