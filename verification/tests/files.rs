use photo_blog::error::PostError;
use photo_blog::files::{file_stem, is_jpg_name, parse_integer, select_jpg_names, ImageFile};
use std::path::Path;

fn strings(items: &[&str]) -> Vec<String> {
    items.iter().map(|item| item.to_string()).collect()
}

#[test]
fn jpg_names_end_with_the_lower_case_extension() {
    assert!(is_jpg_name("photo.jpg"));
    assert!(is_jpg_name("42.jpg"));
    assert!(is_jpg_name(".jpg"));
    assert!(is_jpg_name("a.b.jpg"));
    assert!(is_jpg_name("süß.jpg"));
    assert!(!is_jpg_name("photo.png"));
    assert!(!is_jpg_name("photo.JPG"));
    assert!(!is_jpg_name("photo.Jpg"));
    assert!(!is_jpg_name("photo.jpeg"));
    assert!(!is_jpg_name("photo.jpg "));
    assert!(!is_jpg_name("photojpg"));
    assert!(!is_jpg_name("jpg"));
    assert!(!is_jpg_name(""));
}

#[test]
fn jpg_names_agree_with_ends_with() {
    for name in ["x.jpg", "x.jp", ".jpg", "jpg", "", "ä.jpg", "a.jpgx", "a.JPG", "日本.jpg", "..jpg"] {
        assert_eq!(is_jpg_name(name), name.ends_with(".jpg"), "{:?}", name);
    }
}

#[test]
fn selection_keeps_jpg_names_in_order() {
    let names = strings(&["b.jpg", "notes.txt", "a.jpg", "photo.png", "photo.JPG", "c.jpg", "a.jpg"]);
    assert_eq!(select_jpg_names(&names), strings(&["b.jpg", "a.jpg", "c.jpg", "a.jpg"]));
}

#[test]
fn selection_of_nothing_is_empty() {
    assert_eq!(select_jpg_names(&Vec::new()), Vec::<String>::new());
    assert_eq!(select_jpg_names(&strings(&["photo.png", "photo.JPG"])), Vec::<String>::new());
}

#[test]
fn stem_is_what_stands_before_the_last_dot() {
    assert_eq!(file_stem("42.jpg"), "42");
    assert_eq!(file_stem("a.b.jpg"), "a.b");
    assert_eq!(file_stem("noext"), "noext");
    assert_eq!(file_stem(".jpg"), ".jpg");
    assert_eq!(file_stem("name."), "name");
    assert_eq!(file_stem(""), "");
    assert_eq!(file_stem("..jpg"), ".");
}

#[test]
fn stem_agrees_with_the_standard_library() {
    for name in ["42.jpg", "a.b.jpg", "noext", ".jpg", "name.", "..jpg", "é.jpg", "100.tar.gz", ".a.b"] {
        let expected = Path::new(name).file_stem().unwrap().to_str().unwrap();
        assert_eq!(file_stem(name), expected, "{:?}", name);
    }
}

#[test]
fn integers_are_parsed_as_the_standard_library_parses_them() {
    let samples = [
        "0", "7", "42", "100", "-7", "+5", "-0", "+0", "007", "", "+", "-", "+-5", "--5", "abc",
        "12a", "a12", " 42", "42 ", "4 2", "1_000", "1.5", "2147483647", "2147483648",
        "-2147483648", "-2147483649", "+2147483647", "+2147483648", "99999999999999999999999",
        "-99999999999999999999999", "0000000000000000000000000012",
        "-0000000000000000000002147483648", "00000000000000000000002147483648", "٣", "１２",
    ];
    for text in samples {
        assert_eq!(parse_integer(text), text.parse::<i32>().ok(), "{:?}", text);
    }
}

#[test]
fn integer_values_are_exact() {
    assert_eq!(parse_integer("42"), Some(42));
    assert_eq!(parse_integer("-2147483648"), Some(i32::MIN));
    assert_eq!(parse_integer("2147483647"), Some(i32::MAX));
    assert_eq!(parse_integer("2147483648"), None);
    assert_eq!(parse_integer("abc"), None);
}

#[test]
fn image_file_takes_stem_number_and_significant_digits() {
    let image = ImageFile::parse("12345.jpg").unwrap();
    assert_eq!(image.stem(), "12345");
    assert_eq!(image.numeric_id(), 12345);
    assert_eq!(image.significant_digits(), "123");
}

#[test]
fn significant_digits_of_short_stems() {
    let three = ImageFile::parse("423.jpg").unwrap();
    assert_eq!(three.significant_digits(), "4");
    let two = ImageFile::parse("42.jpg").unwrap();
    assert_eq!(two.stem(), "42");
    assert_eq!(two.numeric_id(), 42);
    assert_eq!(two.significant_digits(), "");
    let one = ImageFile::parse("7.jpg").unwrap();
    assert_eq!(one.stem(), "7");
    assert_eq!(one.significant_digits(), "");
}

#[test]
fn image_file_with_a_sign() {
    let negative = ImageFile::parse("-105.jpg").unwrap();
    assert_eq!(negative.numeric_id(), -105);
    assert_eq!(negative.significant_digits(), "-1");
    let positive = ImageFile::parse("+7.jpg").unwrap();
    assert_eq!(positive.numeric_id(), 7);
    assert_eq!(positive.significant_digits(), "");
}

#[test]
fn image_file_with_a_stem_that_is_no_integer() {
    assert_eq!(ImageFile::parse("abc.jpg"), Err(PostError::InvalidFileName));
    assert_eq!(ImageFile::parse(".jpg"), Err(PostError::InvalidFileName));
    assert_eq!(ImageFile::parse("1.5.jpg"), Err(PostError::InvalidFileName));
    assert_eq!(ImageFile::parse("12 .jpg"), Err(PostError::InvalidFileName));
    assert_eq!(ImageFile::parse("4294967296.jpg"), Err(PostError::InvalidFileName));
    assert_eq!(ImageFile::parse(""), Err(PostError::InvalidFileName));
}

#[test]
fn error_messages() {
    assert_eq!(PostError::InvalidStartDate.message(), "Date must be a Monday, Wednesday, or Friday");
    assert_eq!(PostError::InvalidFileName.message(), "File name must be an integer");
    assert_eq!(PostError::Template.message(), "Post template could not be rendered");
}
