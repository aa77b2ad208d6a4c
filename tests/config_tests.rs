use yasg::config::{print_usage, Config, Mode};

#[test]
fn parse_supports_single_file_mode() {
    let args = vec![
        "yasg".to_string(),
        "data.yaml".to_string(),
        "template.html".to_string(),
    ];
    let config = Config::parse(&args).unwrap_or_else(|e| panic!("Failed to parse config: {}", e));
    match config.mode {
        Mode::SingleFile {
            data_file_path,
            template_file_path,
        } => {
            assert_eq!(data_file_path, "data.yaml");
            assert_eq!(template_file_path, "template.html");
        }
        _ => panic!("Expected SingleFile mode, got {:#?}", config),
    }
}

#[test]
fn parse_single_file_mode_fails_if_not_enough_args() {
    let args = vec!["yasg".to_string(), "data.yaml".to_string()];
    let config = Config::parse(&args);
    let err = config.unwrap_err();
    assert_eq!(err, "Single-file mode requires two parameters.");
}

#[test]
fn parse_single_file_mode_fails_if_too_many_args() {
    let args = vec![
        "yasg".to_string(),
        "data1.yaml".to_string(),
        "data2.yaml".to_string(),
        "template.html".to_string(),
    ];
    let config = Config::parse(&args);
    let err = config.unwrap_err();
    assert_eq!(err, "Single-file mode requires two parameters.");
}

#[test]
fn parse_supports_recursive_mode() {
    let args = vec![
        "yasg".to_string(),
        "-r".to_string(),
        "src".to_string(),
        "dst".to_string(),
    ];
    let config = Config::parse(&args).unwrap_or_else(|e| panic!("Failed to parse config: {}", e));
    match config.mode {
        Mode::Recursive {
            src_dir_path,
            dst_dir_path,
        } => {
            assert_eq!(src_dir_path, "src");
            assert_eq!(dst_dir_path, "dst");
        }
        _ => panic!("Expected Recursive mode, got {:#?}", config),
    }
}

#[test]
fn parse_recursive_mode_fails_if_not_enough_args() {
    let args = vec!["yasg".to_string(), "-r".to_string(), "src".to_string()];
    let config = Config::parse(&args);
    let err = config.unwrap_err();
    assert_eq!(err, "Recursive mode requires two parameters.");
}

#[test]
fn parse_recursive_mode_fails_if_too_many_args() {
    let args = vec![
        "yasg".to_string(),
        "-r".to_string(),
        "src".to_string(),
        "dst".to_string(),
        "extra".to_string(),
    ];
    let config = Config::parse(&args);
    let err = config.unwrap_err();
    assert_eq!(err, "Recursive mode requires two parameters.");
}

#[test]
fn parse_fails_without_arguments() {
    let args = vec!["yasg".to_string()];
    assert_eq!(Config::parse(&args).unwrap_err(), "Not enough arguments provided.");
    let none: Vec<String> = Vec::new();
    assert_eq!(Config::parse(&none).unwrap_err(), "Not enough arguments provided.");
}

#[test]
fn print_usage_names_the_program_twice() {
    let args = vec!["yasg".to_string(), "x".to_string()];
    assert_eq!(
        print_usage(&args),
        "Usage: yasg <data-file> <template-file>\n   or: yasg -r <source-dir> <dest-dir>"
    );
}
