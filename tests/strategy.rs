use laurn::config::{Config, LaurnConfig, Mode, NetworkConfig};
use laurn::strategy::{ExposedPath, Strategy};

#[test]
fn rust() {
    let strategy = Strategy::from(Mode::Rust);
    assert_eq!(
        strategy.ro_paths,
        vec![
            ExposedPath::project(".git"),
            ExposedPath::project(".laurnrc"),
            ExposedPath::project("laurn.nix"),
            ExposedPath::project("nix"),
        ]
    );
    assert_eq!(strategy.rw_paths, vec![ExposedPath::user_home(".cargo")]);
}

#[test]
fn bare_mode_is_empty() {
    let strategy = Strategy::for_mode(Mode::Bare);
    assert!(strategy.ro_paths.is_empty());
    assert!(strategy.rw_paths.is_empty());
    let converted = Strategy::from(Mode::Bare);
    assert!(converted.ro_paths.is_empty());
    assert!(converted.rw_paths.is_empty());
}

#[test]
fn new_appends_builtins_after_given_entries() {
    let strategy = Strategy::new(
        vec![ExposedPath::project("docs")],
        vec![ExposedPath::user_home(".config")],
    );
    assert_eq!(
        strategy.ro_paths,
        vec![
            ExposedPath::project("docs"),
            ExposedPath::project(".git"),
            ExposedPath::project(".laurnrc"),
            ExposedPath::project("laurn.nix"),
            ExposedPath::project("nix"),
        ]
    );
    assert_eq!(strategy.rw_paths, vec![ExposedPath::user_home(".config")]);
}

#[test]
fn exposed_path_bytes() {
    assert_eq!(ExposedPath::project(".git"), ExposedPath::Project(b".git".to_vec()));
    assert_eq!(ExposedPath::user_home(".cargo"), ExposedPath::UserHome(b".cargo".to_vec()));
}

#[test]
fn default_config() {
    let config = Config::default();
    assert_eq!(config.laurn.mode, Mode::Bare);
    assert_eq!(config.laurn.network, NetworkConfig::Isolated);
    let laurn = LaurnConfig::default();
    assert_eq!(laurn, config.laurn);
    assert_eq!(NetworkConfig::default(), NetworkConfig::Isolated);
}
