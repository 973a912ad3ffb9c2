use easycfg::args::Args;
use easycfg::distro::{Distri, DistriOpt};
use easycfg::utils::Utils;

#[test]
fn unknown_driver_is_inert() {
    let d = DistriOpt::from(Distri::Unknown);
    assert_eq!(d.distri, Distri::Unknown);
    assert_eq!(d.install.program, "");
    assert!(d.install.args.is_empty());
    assert!(d.install.stdin.is_none());
}

#[test]
fn arch_driver_template() {
    let d = DistriOpt::from(Distri::Arch);
    assert_eq!(d.distri, Distri::Arch);
    assert_eq!(d.install.program, "pacman");
    assert_eq!(d.install.args, vec!["-S".to_string()]);
    assert_eq!(d.install.stdin.as_deref(), Some("\n"));
}

#[test]
fn opensuse_driver_template() {
    let d = DistriOpt::from(Distri::OpenSUSE);
    assert_eq!(d.distri, Distri::OpenSUSE);
    assert_eq!(d.install.program, "zypper");
    assert_eq!(d.install.args, vec!["install".to_string()]);
    assert_eq!(d.install.stdin.as_deref(), Some("\n"));
}

#[test]
fn distri_labels() {
    assert_eq!(Distri::Unknown.label(), "Unknown");
    assert_eq!(Distri::Arch.label(), "Arch");
    assert_eq!(Distri::OpenSUSE.label(), "OpenSUSE");
}

#[test]
fn distri_default_is_unknown() {
    assert_eq!(Distri::default(), Distri::Unknown);
}

#[test]
fn replace_home_replaces_first_tilde() {
    let u = Utils::with_home("/home/me".to_string());
    assert_eq!(u.replace_home("~/notes"), "/home/me/notes");
    assert_eq!(u.replace_home("no tilde"), "no tilde");
    assert_eq!(u.replace_home("a~b~c"), "a/home/meb~c");
    assert_eq!(u.replace_home(""), "");
    assert_eq!(u.replace_home("~"), "/home/me");
}

#[test]
fn utils_new_agrees_with_environment() {
    match (Utils::new(), dirs::home_dir()) {
        (Some(u), Some(p)) => {
            if let Some(home) = p.to_str() {
                assert_eq!(u.replace_home("~"), home);
            }
        }
        (None, _) => {}
        (Some(_), None) => panic!("a home directory appeared from nowhere"),
    }
}

#[test]
fn args_default_directory() {
    let a = Args::default();
    assert_eq!(a.directory, "./");
}
