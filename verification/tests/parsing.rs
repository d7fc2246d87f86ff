use svggen::{Argument, Image, Model, ModelPart};

fn text(content: &str) -> ModelPart {
    ModelPart::Text(content.as_bytes().to_vec())
}

fn lines_of<'a>(lines: &[&'a str]) -> Vec<&'a [u8]> {
    lines.iter().map(|line| line.as_bytes()).collect()
}

#[test]
fn a_placeholder_stands_alone_between_the_literals() {
    let model = Model::parse(b"A\n#GET 0\nB");
    assert_eq!(model.parts(), &[text("A\n"), ModelPart::Argument(0), text("\nB")]);
}

#[test]
fn svg_frame_is_read_as_three_parts() {
    let model = Model::parse(b"<svg>\n#GET 0\n</svg>");
    assert_eq!(
        model.parts(),
        &[text("<svg>\n"), ModelPart::Argument(0), text("\n</svg>")]
    );
}

#[test]
fn svg_frame_with_a_circle() {
    let model = Model::parse(b"<svg>\n#GET 0\n</svg>");
    let circle = Image::from("<circle/>".as_bytes());
    let image = model.generate(&[Argument::Image(&circle)]).unwrap();
    assert_eq!(image.content(), b"<svg>\n<circle/>\n</svg>");
}

#[test]
fn literal_lines_come_back_joined() {
    let source = b"first line\n  second, indented\n\nfourth after an empty one";
    let model = Model::parse(source);
    assert_eq!(model.parts().len(), 1);
    for args in [
        vec![],
        vec![Argument::Empty],
        vec![Argument::from("x".as_bytes()), Argument::from("y".as_bytes())],
    ] {
        let image = model.generate(&args).unwrap();
        assert_eq!(image.content(), &source[..]);
    }
}

#[test]
fn no_line_feed_is_added_after_the_last_line() {
    let model = Model::parse(b"one\ntwo\n");
    assert_eq!(model.parts(), &[text("one\ntwo")]);
    assert_eq!(model.generate(&[]).unwrap().content(), b"one\ntwo");
}

#[test]
fn empty_source_is_an_empty_model() {
    assert!(Model::parse(b"").parts().is_empty());
    assert_eq!(Model::parse(b"").generate(&[]).unwrap().content(), b"");
}

#[test]
fn a_lone_line_feed_is_one_empty_line() {
    assert!(Model::parse(b"\n").parts().is_empty());
    assert_eq!(Model::parse(b"\n\n").parts(), &[text("\n")]);
}

#[test]
fn only_a_directive() {
    assert_eq!(Model::parse(b"#GET 4").parts(), &[ModelPart::Argument(4)]);
    assert_eq!(Model::parse(b"#GET 4\n").parts(), &[ModelPart::Argument(4)]);
}

#[test]
fn directives_in_a_row_close_nothing() {
    let model = Model::parse(b"#GET 1\n#GET 0\n#GET 1");
    assert_eq!(
        model.parts(),
        &[ModelPart::Argument(1), ModelPart::Argument(0), ModelPart::Argument(1)]
    );
}

#[test]
fn text_after_a_leading_directive_keeps_its_line_feed() {
    let model = Model::parse(b"#GET 0\nB");
    assert_eq!(model.parts(), &[ModelPart::Argument(0), text("\nB")]);
}

#[test]
fn text_before_a_directive_ends_in_a_line_feed() {
    let model = Model::parse(b"a\nb\n#GET 2");
    assert_eq!(model.parts(), &[text("a\nb\n"), ModelPart::Argument(2)]);
}

#[test]
fn an_empty_first_line_closes_no_segment() {
    let model = Model::parse(b"\n#GET 0\nrest");
    assert_eq!(model.parts(), &[ModelPart::Argument(0), text("\nrest")]);
}

#[test]
fn an_empty_line_after_text_is_kept() {
    let model = Model::parse(b"a\n\n#GET 0");
    assert_eq!(model.parts(), &[text("a\n\n"), ModelPart::Argument(0)]);
}

#[test]
fn an_empty_line_between_directives_is_a_line_feed() {
    let model = Model::parse(b"#GET 0\n\n#GET 1");
    assert_eq!(
        model.parts(),
        &[ModelPart::Argument(0), text("\n\n"), ModelPart::Argument(1)]
    );
}

#[test]
fn an_indented_directive_is_a_directive() {
    let model = Model::parse(b"<g>\n\t  #GET 12  \r\n</g>");
    assert_eq!(
        model.parts(),
        &[text("<g>\n"), ModelPart::Argument(12), text("\n</g>")]
    );
}

#[test]
fn literal_lines_keep_their_blanks() {
    let model = Model::parse(b"  padded  \n#GET 0\n\ttabbed\t");
    assert_eq!(
        model.parts(),
        &[text("  padded  \n"), ModelPart::Argument(0), text("\n\ttabbed\t")]
    );
}

#[test]
fn a_malformed_directive_is_literal_text() {
    for line in ["#GET 3abc", "#GET", "#GET ", "#GET -1", "#GET  3", "#get 3", "#GET3", "# GET 3", "x #GET 3", "#GET 3 4", "#GET 1.0", "#GET +", "#GET ++1"] {
        let model = Model::parse(line.as_bytes());
        assert_eq!(model.parts(), &[text(line)], "{}", line);
    }
}

#[test]
fn a_malformed_directive_joins_the_text_around_it() {
    let model = Model::parse(b"a\n#GET x\nb");
    assert_eq!(model.parts(), &[text("a\n#GET x\nb")]);
}

#[test]
fn an_index_too_large_is_literal_text() {
    let line = "#GET 340282366920938463463374607431768211456";
    assert_eq!(Model::parse(line.as_bytes()).parts(), &[text(line)]);
    let largest = format!("#GET {}", usize::MAX);
    assert_eq!(
        Model::parse(largest.as_bytes()).parts(),
        &[ModelPart::Argument(usize::MAX)]
    );
}

#[test]
fn a_carriage_return_before_a_line_feed_is_dropped() {
    let model = Model::parse(b"a\r\nb\r\n#GET 0\r\nc\r");
    assert_eq!(
        model.parts(),
        &[text("a\nb\n"), ModelPart::Argument(0), text("\nc\r")]
    );
}

#[test]
fn bytes_that_are_no_text_survive() {
    let source: &[u8] = &[0xff, 0xfe, 0x0a, 0x23, 0x47, 0x45, 0x54, 0x20, 0x30, 0x0a, 0x80];
    let model = Model::parse(source);
    assert_eq!(
        model.parts(),
        &[
            ModelPart::Text(vec![0xff, 0xfe, 0x0a]),
            ModelPart::Argument(0),
            ModelPart::Text(vec![0x0a, 0x80]),
        ]
    );
}

#[test]
fn from_lines_reads_what_parse_reads() {
    let lines = lines_of(&["A", "#GET 0", "B"]);
    assert_eq!(Model::from_lines(&lines), Model::parse(b"A\n#GET 0\nB"));
    assert_eq!(Model::from_lines(&[]), Model::parse(b""));
}

#[test]
fn from_lines_takes_each_line_as_it_stands() {
    let lines = lines_of(&["a\r", "", "  #GET 7"]);
    let model = Model::from_lines(&lines);
    assert_eq!(model.parts(), &[text("a\r\n\n"), ModelPart::Argument(7)]);
}

#[test]
fn parsing_twice_gives_the_same_model_and_output() {
    let source = b"<svg>\n#GET 1\n<!-- -->\n#GET 0\n</svg>\n";
    let first = Model::parse(source);
    let second = Model::parse(source);
    assert_eq!(first, second);
    let args = [Argument::from("left".as_bytes()), Argument::Empty];
    assert_eq!(first.generate(&args), second.generate(&args));
    assert_eq!(first.generate(&[]), second.generate(&[]));
    assert_eq!(first.generate(&[]), Err(1));
}
