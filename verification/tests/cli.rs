use seoggi::cli::compile_report;
use seoggi::cli::has_source_extension;
use seoggi::cli::missing_input;

#[test]
fn seo_extension_is_accepted() {
    assert!(has_source_extension("program.seo"));
    assert!(has_source_extension(".seo"));
    assert!(has_source_extension("dir/prog.seo"));
}

#[test]
fn other_extensions_are_rejected() {
    assert!(!has_source_extension("program.rs"));
    assert!(!has_source_extension("seo"));
    assert!(!has_source_extension(""));
    assert!(!has_source_extension("program.seox"));
}

#[test]
fn missing_input_means_fewer_than_two_arguments() {
    assert!(missing_input(0));
    assert!(missing_input(1));
    assert!(!missing_input(2));
    assert!(!missing_input(3));
}

#[test]
fn report_follows_exit_status_alone() {
    assert_eq!(compile_report(true), "Successfully compiled!");
    assert_eq!(compile_report(false), "Failed to compile");
}
