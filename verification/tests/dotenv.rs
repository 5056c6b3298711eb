use student_tracker::dotenv::{parse_dotenv, settings_to_set, split_once};

fn pair(key: &str, value: &str) -> (String, String) {
    (key.to_string(), value.to_string())
}

#[test]
fn reads_settings_line_by_line() {
    let content = "# portals\r\n\r\n ERC20_PORTAL_ADDRESS = 0xAA \r\nA=b=c\nnothing\n  #x=y\nLAST=";
    assert_eq!(
        parse_dotenv(content),
        vec![pair("ERC20_PORTAL_ADDRESS", "0xAA"), pair("A", "b=c"), pair("LAST", "")]
    );
}

#[test]
fn reads_nothing_from_nothing() {
    assert!(parse_dotenv("").is_empty());
    assert!(parse_dotenv("\n\n").is_empty());
    assert!(parse_dotenv("# only = a comment").is_empty());
}

#[test]
fn keeps_every_setting_of_a_key() {
    assert_eq!(parse_dotenv("A=1\nA=2\n=3"), vec![pair("A", "1"), pair("A", "2"), pair("", "3")]);
}

#[test]
fn settings_of_two_files_follow_each_other() {
    let first = "A=1\nB=2";
    let second = "#\nC=3";
    let mut both = parse_dotenv(first);
    both.extend(parse_dotenv(second));
    assert_eq!(parse_dotenv(&format!("{}\n{}", first, second)), both);
}

#[test]
fn splits_where_a_character_first_occurs() {
    assert_eq!(split_once("a=b=c", '='), Some(pair("a", "b=c")));
    assert_eq!(split_once("=", '='), Some(pair("", "")));
    assert_eq!(split_once("abc", '='), None);
}

#[test]
fn first_setting_of_a_key_takes_effect() {
    let settings = parse_dotenv("A=1\nB=2\nA=3\nC=4\nB=5");
    let known = vec!["C".to_string(), "D".to_string()];
    assert_eq!(settings_to_set(&settings, &known), vec![pair("A", "1"), pair("B", "2")]);
    assert_eq!(
        settings_to_set(&settings, &vec![]),
        vec![pair("A", "1"), pair("B", "2"), pair("C", "4")]
    );
    assert!(settings_to_set(&vec![], &known).is_empty());
}
