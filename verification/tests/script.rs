use std::collections::HashSet;
use story_text::script::generate;

fn by_formatting(input: &str) -> String {
    let mut lines = input.split("\n");
    let title = lines.next().unwrap().trim().replace(" ", "_");
    let mut speakers = HashSet::new();
    let mut steps = String::from("vec![\n");
    for line in lines {
        if line == "" {
            continue;
        }
        let parts: Vec<&str> = line.split(":").collect();
        if parts.len() == 2 {
            let name = parts[0].trim();
            let value = parts[1].trim();
            speakers.insert(name);
            steps.push_str(&format!(
                "\t\t{name}_story.clone().msg(TextPrint::parse(format!(\"{{{{{{{{color:{{{name}_color}}}}}}}}}}{value}\"))),\n"
            ));
        } else {
            let value = parts[0];
            steps.push_str(&format!(
                "\t\tbase_story.clone().msg(TextPrint::parse(format!(\"{{{{{{{{}}}}}}}}{value}\"))),\n"
            ));
        }
    }
    steps.push_str("\n\t]\n}");
    let mut speakers: Vec<&str> = speakers.into_iter().collect();
    speakers.sort();
    let mut head =
        format!("pub fn {title}() -> Vec<Story>{{\n\tlet mut base_story = Story::default();\n");
    for name in speakers {
        head.push_str(&format!(
            "\tlet mut {name}_story = base_story.clone().title(TextPrint::parse(format!(\"{{{{{{{{}}}}}}}}{name}\")));\n\tlet mut {name}_color = \"input_color\";\n"
        ));
    }
    format!("{head}{steps}")
}

#[test]
fn a_script_of_two_speakers() {
    let input = "테스트 스크립트\n히오스를 좋아하는 두 친구가 대화한다.\n등장인물2 : 잘지내?\n등장인물1 : 안녕?\n";
    let expected = concat_lines(&[
        "pub fn 테스트_스크립트() -> Vec<Story>{",
        "\tlet mut base_story = Story::default();",
        "\tlet mut 등장인물1_story = base_story.clone().title(TextPrint::parse(format!(\"{{{{}}}}등장인물1\")));",
        "\tlet mut 등장인물1_color = \"input_color\";",
        "\tlet mut 등장인물2_story = base_story.clone().title(TextPrint::parse(format!(\"{{{{}}}}등장인물2\")));",
        "\tlet mut 등장인물2_color = \"input_color\";",
        "vec![",
        "\t\tbase_story.clone().msg(TextPrint::parse(format!(\"{{{{}}}}히오스를 좋아하는 두 친구가 대화한다.\"))),",
        "\t\t등장인물2_story.clone().msg(TextPrint::parse(format!(\"{{{{color:{등장인물2_color}}}}}잘지내?\"))),",
        "\t\t등장인물1_story.clone().msg(TextPrint::parse(format!(\"{{{{color:{등장인물1_color}}}}}안녕?\"))),",
        "",
        "\t]",
    ]) + "}";
    assert_eq!(generate(input), expected);
}

fn concat_lines(lines: &[&str]) -> String {
    let mut out = String::new();
    for line in lines {
        out.push_str(line);
        out.push('\n');
    }
    out
}

#[test]
fn a_script_of_a_title_alone() {
    assert_eq!(
        generate("  my first story  "),
        "pub fn my_first_story() -> Vec<Story>{\n\tlet mut base_story = Story::default();\nvec![\n\n\t]\n}"
    );
    assert_eq!(
        generate(""),
        "pub fn () -> Vec<Story>{\n\tlet mut base_story = Story::default();\nvec![\n\n\t]\n}"
    );
}

#[test]
fn a_line_with_more_colons_is_a_bare_message_up_to_the_first() {
    assert_eq!(
        generate("t\na: b: c"),
        "pub fn t() -> Vec<Story>{\n\tlet mut base_story = Story::default();\nvec![\n\t\tbase_story.clone().msg(TextPrint::parse(format!(\"{{{{}}}}a\"))),\n\n\t]\n}"
    );
}

#[test]
fn speakers_are_declared_once_and_in_order() {
    let out = generate("t\nb: 1\na: 2\nb: 3\nab: 4\n: 5\nB: 6\n가: 7");
    let declared: Vec<&str> = out
        .lines()
        .filter(|line| line.ends_with("_color = \"input_color\";"))
        .collect();
    assert_eq!(
        declared,
        vec![
            "\tlet mut _color = \"input_color\";",
            "\tlet mut B_color = \"input_color\";",
            "\tlet mut a_color = \"input_color\";",
            "\tlet mut ab_color = \"input_color\";",
            "\tlet mut b_color = \"input_color\";",
            "\tlet mut 가_color = \"input_color\";",
        ]
    );
}

#[test]
fn generate_agrees_with_formatting() {
    for input in [
        "",
        "\n",
        "title",
        "a b  c\n\n\nx\n",
        "t\nspeaker: hello\nspeaker : again\n other :x\nbare\n:\n::\n a:b:c \n",
        "t\r\nz: 1\r\ny: 2\r\n",
        "제목 하나\n나: 안녕 하세요\n너:반가워\n나:  또 봐  \n설명 줄\n",
        "t\n\u{e9}: 1\ne\u{301}: 2\nz: 3\n\u{1F600}: 4\n\u{FFFD}: 5\n",
    ] {
        assert_eq!(generate(input), by_formatting(input), "{:?}", input);
    }
}
