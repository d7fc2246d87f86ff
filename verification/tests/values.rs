use svggen::{Argument, Image, Model, ModelPart};

#[test]
fn image_holds_its_content() {
    let image = Image::from("Hello World!".as_bytes());
    assert_eq!(image.content(), b"Hello World!");
    assert_eq!(Image::new(vec![1, 2, 3]).content(), [1, 2, 3]);
    assert_eq!(Image::from(Vec::<u8>::new()).content(), b"");
}

#[test]
fn images_with_the_same_content_are_equal() {
    assert_eq!(Image::from("a".as_bytes()), Image::new(vec![0x61]));
    assert_ne!(Image::from("a".as_bytes()), Image::from("b".as_bytes()));
}

#[test]
fn model_part_from_bytes_is_text() {
    let part = ModelPart::from("Hello World!".as_bytes());
    assert_eq!(part, ModelPart::Text(b"Hello World!".to_vec()));
}

#[test]
fn argument_from_bytes_is_text() {
    let arg = Argument::from("Hello World!".as_bytes());
    assert_eq!(arg, Argument::Text(b"Hello World!".to_vec()));
}

#[test]
fn argument_bytes_follow_the_variant() {
    let image = Image::from("<circle/>".as_bytes());
    assert_eq!(Argument::from("text".as_bytes()).as_bytes(), b"text");
    assert_eq!(Argument::Image(&image).as_bytes(), b"<circle/>");
    assert_eq!(Argument::Empty.as_bytes(), b"");
}

#[test]
fn model_returns_its_parts_in_order() {
    let model = Model::from(vec![
        ModelPart::from("Hello ".as_bytes()),
        ModelPart::Argument(0),
        ModelPart::from("!".as_bytes()),
    ]);
    assert_eq!(
        model.parts(),
        &[
            ModelPart::Text(b"Hello ".to_vec()),
            ModelPart::Argument(0),
            ModelPart::Text(b"!".to_vec()),
        ]
    );
}

#[test]
fn model_new_keeps_the_parts() {
    let parts = vec![ModelPart::Argument(3), ModelPart::Text(vec![0])];
    assert_eq!(Model::new(parts.clone()).parts(), &parts[..]);
    assert_eq!(Model::new(parts.clone()), Model::from(parts));
}
