use archlink::candidate::Source;
use archlink::install::{command_line, installer_name, InstallFlow, Installer, Phase};

#[test]
fn official_flow_attempts_the_primary_manager_first() {
    let flow = InstallFlow::new(Source::Official);
    assert_eq!(flow.current_phase(), Phase::Attempting);
    assert_eq!(flow.current_installer(), Installer::Pacman);
    assert_eq!(flow.attempted(), &vec![Installer::Pacman]);
}

#[test]
fn unknown_source_is_treated_like_official() {
    let flow = InstallFlow::new(Source::Unknown);
    assert_eq!(flow.current_phase(), Phase::Attempting);
    assert_eq!(flow.current_installer(), Installer::Pacman);
}

#[test]
fn aur_flow_skips_the_primary_manager() {
    let flow = InstallFlow::new(Source::Aur);
    assert_eq!(flow.current_phase(), Phase::Probing);
    assert_eq!(flow.current_installer(), Installer::Yay);
    assert!(flow.attempted().is_empty());
}

#[test]
fn failing_primary_with_successful_fallback_reports_success() {
    // The primary manager fails; the first helper is present and its
    // invocation succeeds. The flow ends in success and the attempted
    // list still names the primary manager.
    let mut flow = InstallFlow::new(Source::Official);
    flow.attempt_done(false);
    assert_eq!(flow.current_phase(), Phase::Probing);
    assert_eq!(flow.current_installer(), Installer::Yay);
    flow.probe_done(true);
    assert_eq!(flow.current_phase(), Phase::Attempting);
    flow.attempt_done(true);
    assert_eq!(flow.current_phase(), Phase::Succeeded(Installer::Yay));
    assert_eq!(flow.attempted(), &vec![Installer::Pacman, Installer::Yay]);
}

#[test]
fn exhaustion_names_every_invoked_program_in_order() {
    // The primary manager fails, the first helper is absent, the second
    // is present but fails: the flow is exhausted and names exactly what
    // ran — the absent helper is not in the list.
    let mut flow = InstallFlow::new(Source::Official);
    flow.attempt_done(false);
    flow.probe_done(false);
    assert_eq!(flow.current_phase(), Phase::Probing);
    assert_eq!(flow.current_installer(), Installer::Paru);
    flow.probe_done(true);
    flow.attempt_done(false);
    assert_eq!(flow.current_phase(), Phase::Exhausted);
    assert_eq!(flow.attempted(), &vec![Installer::Pacman, Installer::Paru]);
}

#[test]
fn no_helpers_present_exhausts_with_only_the_primary() {
    let mut flow = InstallFlow::new(Source::Official);
    flow.attempt_done(false);
    flow.probe_done(false);
    flow.probe_done(false);
    assert_eq!(flow.current_phase(), Phase::Exhausted);
    assert_eq!(flow.attempted(), &vec![Installer::Pacman]);
}

#[test]
fn aur_flow_with_no_helpers_attempts_nothing() {
    let mut flow = InstallFlow::new(Source::Aur);
    flow.probe_done(false);
    flow.probe_done(false);
    assert_eq!(flow.current_phase(), Phase::Exhausted);
    assert!(flow.attempted().is_empty());
}

#[test]
fn primary_success_ends_the_flow_at_once() {
    let mut flow = InstallFlow::new(Source::Unknown);
    flow.attempt_done(true);
    assert_eq!(flow.current_phase(), Phase::Succeeded(Installer::Pacman));
    assert_eq!(flow.attempted(), &vec![Installer::Pacman]);
}

#[test]
fn command_lines_match_each_installer() {
    let pacman = command_line(Installer::Pacman, "firefox");
    assert_eq!(pacman, vec!["sudo", "pacman", "-S", "firefox", "--noconfirm"]);
    let yay = command_line(Installer::Yay, "yay-bin");
    assert_eq!(yay, vec!["yay", "-S", "yay-bin"]);
    let paru = command_line(Installer::Paru, "paru-bin");
    assert_eq!(paru, vec!["paru", "-S", "paru-bin"]);
}

#[test]
fn installer_names_match_the_programs() {
    assert_eq!(installer_name(Installer::Pacman), "pacman");
    assert_eq!(installer_name(Installer::Yay), "yay");
    assert_eq!(installer_name(Installer::Paru), "paru");
}
