use worldgen::block::Block;
use worldgen::colour::{hex_digit, hex_pair, Colour};
use worldgen::logger::{LogLevel, Logger};
use worldgen::matrix::{Matrix, Vector};

#[test]
fn colour_constructors_set_the_channels() {
    assert_eq!(Colour::rgba(1, 2, 3, 4), Colour { a: 4, r: 1, g: 2, b: 3 });
    assert_eq!(Colour::rgb(1, 2, 3), Colour { a: 255, r: 1, g: 2, b: 3 });
    assert_eq!(Colour::grey(9), Colour { a: 255, r: 9, g: 9, b: 9 });
}

#[test]
fn colour_is_the_number_aarrggbb() {
    assert_eq!(Colour::from(0x11223344u32), Colour { a: 0x11, r: 0x22, g: 0x33, b: 0x44 });
    assert_eq!(Colour::from(0u32), Colour { a: 0, r: 0, g: 0, b: 0 });
    assert_eq!(Colour::from(u32::MAX), Colour { a: 255, r: 255, g: 255, b: 255 });
    assert_eq!(u32::from(Colour { a: 0x11, r: 0x22, g: 0x33, b: 0x44 }), 0x11223344);
    assert_eq!(u32::from(Colour::rgb(255, 0, 1)), 0xFFFF0001);
    for number in [0u32, 1, 0x00FF00FF, 0x80000000, 0xDEADBEEF, u32::MAX] {
        assert_eq!(u32::from(Colour::from(number)), number);
    }
}

#[test]
fn hexadecimal_digits_in_either_case() {
    assert_eq!(hex_digit('0'), Some(0));
    assert_eq!(hex_digit('9'), Some(9));
    assert_eq!(hex_digit('a'), Some(10));
    assert_eq!(hex_digit('f'), Some(15));
    assert_eq!(hex_digit('A'), Some(10));
    assert_eq!(hex_digit('F'), Some(15));
    assert_eq!(hex_digit('g'), None);
    assert_eq!(hex_digit('G'), None);
    assert_eq!(hex_digit('/'), None);
    assert_eq!(hex_digit(':'), None);
    assert_eq!(hex_digit('@'), None);
    assert_eq!(hex_digit('`'), None);
    assert_eq!(hex_digit('+'), None);
    assert_eq!(hex_digit('é'), None);
    assert_eq!(hex_pair('f', 'F'), Some(255));
    assert_eq!(hex_pair('1', '0'), Some(16));
    assert_eq!(hex_pair('1', 'x'), None);
    assert_eq!(hex_pair('x', '1'), None);
}

#[test]
fn colour_of_three_digits() {
    assert_eq!(Colour::try_from("#999"), Ok(Colour::rgb(0x99, 0x99, 0x99)));
    assert_eq!(Colour::try_from("#C82"), Ok(Colour::rgb(0xCC, 0x88, 0x22)));
    assert_eq!(Colour::try_from("c51"), Ok(Colour::rgb(0xCC, 0x55, 0x11)));
    assert_eq!(Colour::try_from("#000"), Ok(Colour::rgb(0, 0, 0)));
}

#[test]
fn colour_of_four_digits() {
    assert_eq!(Colour::try_from("#1234"), Ok(Colour::rgba(0x11, 0x22, 0x33, 0x44)));
    assert_eq!(Colour::try_from("fFf0"), Ok(Colour::rgba(255, 255, 255, 0)));
}

#[test]
fn colour_of_six_digits() {
    assert_eq!(Colour::try_from("#050505"), Ok(Colour::rgb(5, 5, 5)));
    assert_eq!(Colour::try_from("A1b2C3"), Ok(Colour::rgb(0xA1, 0xB2, 0xC3)));
}

#[test]
fn colour_of_eight_digits() {
    assert_eq!(Colour::try_from("#12345678"), Ok(Colour::rgba(0x12, 0x34, 0x56, 0x78)));
    assert_eq!(Colour::try_from("ffffff00"), Ok(Colour::rgba(255, 255, 255, 0)));
    assert_eq!(Colour::try_from("#123456+7"), Ok(Colour::rgba(0x12, 0x34, 0x56, 0x07)));
}

#[test]
fn text_that_is_no_colour() {
    for text in [
        "",
        "#",
        "#1",
        "#12",
        "12",
        "#12345",
        "#1234567",
        "#123456789",
        "#GGG",
        "#12x",
        "#12345g",
        "##123",
        "#+123",
        "#123+",
        "#1234567+",
        "#+2345678",
        "#12 ",
        " 123",
        "#é23",
        "#-23",
    ] {
        assert_eq!(Colour::try_from(text), Err("Not a valid colour"), "{:?}", text);
    }
}

#[test]
fn colour_text_is_rrggbbaa() {
    assert_eq!(Colour::rgba(0x12, 0x34, 0x56, 0x78).to_hex(), "#12345678");
    assert_eq!(Colour::rgb(0xAB, 0xCD, 0xEF).to_hex(), "#ABCDEFFF");
    assert_eq!(Colour::rgba(0, 1, 10, 0).to_hex(), "#00010A00");
}

#[test]
fn colour_text_reads_back() {
    for colour in [Colour::rgba(0, 0, 0, 0), Colour::rgba(1, 2, 3, 4), Colour::rgb(250, 128, 15), Colour::grey(255)] {
        assert_eq!(Colour::try_from(&colour.to_hex()), Ok(colour));
    }
}

#[test]
fn block_colour_is_lowered_by_half_the_variations() {
    let block = Block::new(Colour::rgba(100, 150, 200, 77), 20, 5, true);
    assert_eq!(block.colour, Colour::rgba(88, 138, 188, 77));
    assert_eq!(block.brightness_variation, 20);
    assert_eq!(block.colour_variation, 5);
    assert!(block.solid);
    let block = Block::new(Colour::rgb(255, 128, 127), 255, 0, false);
    assert_eq!(block.colour, Colour::rgb(128, 1, 0));
    let block = Block::new(Colour::rgb(1, 2, 3), 1, 0, false);
    assert_eq!(block.colour, Colour::rgb(1, 2, 3));
}

#[test]
fn foreground_is_solid_and_background_is_not() {
    let front = Block::fg(Colour::rgb(0xCC, 0x88, 0x22), 20, 5);
    assert!(front.solid);
    assert_eq!(front.colour, Colour::rgb(192, 124, 22));
    assert_eq!(front, Block::new(Colour::rgb(0xCC, 0x88, 0x22), 20, 5, true));
    let back = Block::bg(Colour::rgb(0x99, 0x99, 0x99), 100, 100);
    assert!(!back.solid);
    assert_eq!(back.colour, Colour::rgb(53, 53, 53));
    assert_eq!(back, Block::new(Colour::rgb(0x99, 0x99, 0x99), 100, 100, false));
}

#[test]
fn log_levels_are_ordered_and_named() {
    let levels = [LogLevel::Debug, LogLevel::Info, LogLevel::Warning, LogLevel::Error, LogLevel::Critical];
    let names = ["DEBUG", "INFO", "WARNING", "ERROR", "CRITICAL"];
    for (i, level) in levels.iter().enumerate() {
        assert_eq!(level.rank(), i as u8);
        assert_eq!(level.name(), names[i]);
    }
}

#[test]
fn log_lines_carry_level_and_message() {
    assert_eq!(Logger::debug("Generating (0, -1)"), Some("[DEBUG]: Generating (0, -1)".to_string()));
    assert_eq!(Logger::info("Started"), Some("[INFO]: Started".to_string()));
    assert_eq!(Logger::warning("Drawing outside canvas"), Some("[WARNING]: Drawing outside canvas".to_string()));
    assert_eq!(Logger::error(""), Some("[ERROR]: ".to_string()));
    assert_eq!(Logger::critical("x"), Some("[CRITICAL]: x".to_string()));
    assert_eq!(Logger::log(LogLevel::Warning, "w"), Some("[WARNING]: w".to_string()));
}

#[test]
fn matrix_is_stored_by_columns() {
    let matrix = Matrix::new([[1, 2, 3], [4, 5, 6]]);
    assert_eq!(matrix.get(0, 0), 1);
    assert_eq!(matrix.get(2, 0), 3);
    assert_eq!(matrix.get(0, 1), 4);
    assert_eq!(matrix.get(2, 1), 6);
}

#[test]
fn rows_are_swapped() {
    let mut matrix = Matrix::new([[1, 2, 3], [4, 5, 6]]);
    matrix.swap_row(0, 2);
    assert_eq!(matrix.contents, [[3, 2, 1], [6, 5, 4]]);
    matrix.swap_row(1, 1);
    assert_eq!(matrix.contents, [[3, 2, 1], [6, 5, 4]]);
    matrix.swap_row(2, 1);
    assert_eq!(matrix.contents, [[3, 1, 2], [6, 4, 5]]);
}

#[test]
fn columns_are_swapped() {
    let mut matrix = Matrix::new([[1, 2], [3, 4], [5, 6]]);
    matrix.swap_col(0, 2);
    assert_eq!(matrix.contents, [[5, 6], [3, 4], [1, 2]]);
    matrix.swap_col(1, 1);
    assert_eq!(matrix.contents, [[5, 6], [3, 4], [1, 2]]);
}

#[test]
fn vector_is_one_column() {
    let vector: Vector<i32, 3> = Vector::v_new([7, 8, 9]);
    assert_eq!(vector.contents, [[7, 8, 9]]);
    assert_eq!(vector.get(1, 0), 8);
}
