use ensh::config::render_config;
use ensh::init_shell;
use ensh::shell::{keep_marked, Shell};

// Returns a vector with some sample default paths for the purposes of testing
fn create_default_path_vec() -> Vec<String> {
    vec![
        "/usr/bin".to_string(),
        "/usr/local/bin".to_string(),
        "/bin/".to_string(),
    ]
}

#[test]
fn test_default_shell_init() {
    let shell = Shell::default();
    assert_eq!(shell.get_cwd(), "/");
    assert!(shell.get_paths().is_empty());
}

#[test]
fn test_load_paths() {
    let mut shell = Shell::default();
    let def_paths_vec = create_default_path_vec();
    let text = render_config(&def_paths_vec);
    shell.load_paths(&text);
    assert!(shell.get_paths().len() > 0);
}

#[test]
fn test_search_bin() {
    let mut shell = Shell::default();
    let def_paths_vec = create_default_path_vec();
    shell.set_paths(def_paths_vec);
    assert!(!shell.find_bin(""));
    assert!(shell.find_bin("cat"));
}

#[test]
fn test_cwd() {
    let mut shell = Shell::default();
    let def_paths_vec = create_default_path_vec();
    shell.set_paths(def_paths_vec);
    assert!(shell.change_working_dir("/", true));
}

#[test]
fn test_print_wd() {
    let mut shell = Shell::default();
    shell.change_working_dir("/", true);
    assert_eq!(shell.get_cwd(), "/");
}

#[test]
fn test_init_shell() {
    let config_vec = vec![String::from("1"), String::from("2"), String::from("3")];
    let text = render_config(&config_vec);
    let shell = init_shell(&text);
    assert_eq!(shell.get_cwd(), "/");
}

#[test]
fn failed_directory_change_leaves_state_alone() {
    let mut shell = Shell::default();
    assert!(shell.change_working_dir("/usr", true));
    assert!(!shell.change_working_dir("/no/such/directory/here", false));
    assert_eq!(shell.get_cwd(), "/usr");
}

#[test]
fn find_bin_rejects_blank_and_unknown_names() {
    let mut shell = Shell::default();
    assert!(!shell.find_bin("cat"));
    shell.set_paths(create_default_path_vec());
    assert!(!shell.find_bin(""));
    assert!(!shell.find_bin("   "));
    assert!(!shell.find_bin("doesnotexistbinary"));
    assert!(shell.find_bin("  cat \n"));
}

#[test]
fn find_bin_skips_missing_directories() {
    let mut shell = Shell::default();
    shell.set_paths(vec!["/no/such/directory".to_string(), "/bin".to_string()]);
    assert!(shell.find_bin("ls"));
}

#[test]
fn load_paths_keeps_existing_lines_in_order() {
    let mut shell = Shell::default();
    shell.load_paths("/no/such/dir\n/bin\n\n/usr\r\n/usr/bin");
    assert_eq!(
        shell.get_paths(),
        &vec!["/bin".to_string(), "/usr".to_string(), "/usr/bin".to_string()]
    );
    shell.load_paths("");
    assert!(shell.get_paths().is_empty());
}

#[test]
fn init_shell_keeps_only_existing_paths() {
    let shell = init_shell("/bin\n/no/such/dir\n");
    assert_eq!(shell.get_paths(), &vec!["/bin".to_string()]);
    assert_eq!(shell.get_cwd(), "/");
}

#[test]
fn bin_candidates_join_each_path_with_the_name() {
    let mut shell = Shell::default();
    shell.set_paths(vec!["/usr/bin".to_string(), "/bin/".to_string()]);
    assert_eq!(
        shell.bin_candidates(" cat\n"),
        vec!["/usr/bin/cat".to_string(), "/bin//cat".to_string()]
    );
    assert!(shell.bin_candidates("  ").is_empty());
    assert!(shell.bin_candidates("").is_empty());
}

#[test]
fn keep_marked_keeps_flagged_items_in_order() {
    let items = vec!["a".to_string(), "b".to_string(), "c".to_string()];
    assert_eq!(
        keep_marked(items.clone(), &vec![true, false, true]),
        vec!["a".to_string(), "c".to_string()]
    );
    assert!(keep_marked(items.clone(), &vec![false, false, false]).is_empty());
    assert_eq!(keep_marked(items.clone(), &vec![true, true, true]), items);
}
