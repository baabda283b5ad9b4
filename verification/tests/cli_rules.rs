use s2_tracts::cli::{
    dataset_file_name, parse_command, parse_ids, stdin_id, take_vintage, vintage_directory_name,
    Command, CommandError, VintageError,
};
use s2_tracts::text::NumberError;

fn strings(v: &[&str]) -> Vec<String> {
    v.iter().map(|s| s.to_string()).collect()
}

#[test]
fn vintage_option_selects_one_year_and_defaults_to_2020() {
    assert_eq!(take_vintage(&mut vec![]).unwrap(), 2020);
    let mut args = vec![
        "lookup".into(),
        "--vintage".into(),
        "2019".into(),
        "42".into(),
    ];
    assert_eq!(take_vintage(&mut args).unwrap(), 2019);
    assert_eq!(args, ["lookup", "42"]);
    assert!(take_vintage(&mut vec!["--vintage".into(), "2009".into()]).is_err());
}

#[test]
fn vintage_option_errors() {
    let mut args = strings(&["--vintage"]);
    assert_eq!(take_vintage(&mut args), Err(VintageError::NotExactlyOnce));
    let mut args = strings(&["--vintage", "2019", "--vintage", "2020"]);
    assert_eq!(take_vintage(&mut args), Err(VintageError::NotExactlyOnce));
    assert_eq!(args, ["--vintage", "2020"]);
    let mut args = strings(&["--vintage", "20x9"]);
    assert_eq!(take_vintage(&mut args), Err(VintageError::Number(NumberError::InvalidDigit)));
    let mut args = strings(&["--vintage", "99999"]);
    assert_eq!(take_vintage(&mut args), Err(VintageError::Number(NumberError::TooLarge)));
    let mut args = strings(&["--vintage", ""]);
    assert_eq!(take_vintage(&mut args), Err(VintageError::Number(NumberError::Empty)));
    let mut args = strings(&["--vintage", "2026"]);
    assert_eq!(take_vintage(&mut args), Err(VintageError::OutOfRange));
    let mut args = strings(&["--vintage", "+2010", "7"]);
    assert_eq!(take_vintage(&mut args), Ok(2010));
    assert_eq!(args, ["7"]);
    let mut args = strings(&["1", "2"]);
    assert_eq!(take_vintage(&mut args), Ok(2020));
    assert_eq!(args, ["1", "2"]);
}

#[test]
fn command_forms() {
    assert!(matches!(parse_command(strings(&["1", "-h"]), false), Ok(Command::Help)));
    assert!(matches!(parse_command(strings(&["--help", "--vintage"]), false), Ok(Command::Help)));
    assert!(matches!(parse_command(strings(&["--version"]), false), Ok(Command::Version)));
    assert!(matches!(parse_command(strings(&["-V"]), true), Ok(Command::Version)));
    match parse_command(strings(&["-V", "1"]), true) {
        Ok(Command::Lookup { ids, vintage }) => {
            assert_eq!(ids, ["-V", "1"]);
            assert_eq!(vintage, 2020);
        }
        other => panic!("unexpected {other:?}"),
    }
    match parse_command(strings(&["lookup", "--vintage", "2011", "5", "6"]), true) {
        Ok(Command::Lookup { ids, vintage }) => {
            assert_eq!(ids, ["5", "6"]);
            assert_eq!(vintage, 2011);
        }
        other => panic!("unexpected {other:?}"),
    }
    assert!(matches!(
        parse_command(strings(&["data", "install", "--vintage", "2019"]), true),
        Ok(Command::DataInstall { vintage: 2019 })
    ));
    assert!(matches!(
        parse_command(strings(&["data", "path"]), false),
        Ok(Command::DataPath { vintage: 2020 })
    ));
    assert!(matches!(
        parse_command(strings(&["data", "remove"]), false),
        Err(CommandError::DataUsage)
    ));
    assert!(matches!(
        parse_command(strings(&["data", "path", "x"]), false),
        Err(CommandError::DataUsage)
    ));
    assert!(matches!(parse_command(vec![], true), Ok(Command::Help)));
    match parse_command(vec![], false) {
        Ok(Command::Lookup { ids, vintage }) => {
            assert!(ids.is_empty());
            assert_eq!(vintage, 2020);
        }
        other => panic!("unexpected {other:?}"),
    }
    assert!(matches!(
        parse_command(strings(&["--vintage", "1999"]), false),
        Err(CommandError::Vintage(VintageError::OutOfRange))
    ));
}

#[test]
fn identifier_arguments() {
    let ids = parse_ids(&strings(&["9936721416563002943", "0", "+7"])).unwrap();
    assert_eq!(ids, vec![9936721416563002943, 0, 7]);
    let err = parse_ids(&strings(&["1", "18446744073709551616", "x"])).unwrap_err();
    assert_eq!(err.position, 2);
    assert_eq!(err.value, "18446744073709551616");
    let err = parse_ids(&strings(&["-1"])).unwrap_err();
    assert_eq!(err.position, 1);
    assert_eq!(parse_ids(&strings(&["18446744073709551615"])).unwrap(), vec![u64::MAX]);
}

#[test]
fn stdin_lines() {
    assert_eq!(stdin_id(0, "  42 \t").unwrap(), "42");
    assert_eq!(stdin_id(4, " \t "), Err(5));
    assert_eq!(stdin_id(0, ""), Err(1));
}

#[test]
fn data_layout_names() {
    assert_eq!(dataset_file_name(2019), "tracts_2019.fgb");
    assert_eq!(vintage_directory_name(2020), "tracts-2020-r2");
}

#[test]
fn stdin_lines_trim_unicode_white_space() {
    assert_eq!(stdin_id(0, "\u{3000}12\u{85}").unwrap(), "12");
    assert_eq!(stdin_id(2, "\u{a0}\u{2028}"), Err(3));
    assert_eq!(stdin_id(0, " 1 2 ").unwrap(), "1 2");
}
