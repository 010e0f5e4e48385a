use std::collections::BTreeMap;

use belt_cli::assistant::Assistant;
use belt_cli::auto::command_files;
use belt_cli::auto::install;
use belt_cli::auto::install_message;
use belt_cli::auto::is_installed;
use belt_cli::auto::status_message;
use belt_cli::auto::uninstall;
use belt_cli::auto::uninstall_message;
use belt_cli::auto::AUTO_COMMAND_MD;

fn helper() -> Assistant {
    Assistant::new("helper")
}

const AUTO_MD: &str = "/p/.helper/commands/auto.md";

/// A file system in memory.
struct Disk {
    files: BTreeMap<String, String>,
}

impl Disk {
    fn new() -> Disk {
        Disk { files: BTreeMap::new() }
    }

    fn present(&self) -> Vec<bool> {
        command_files("/p", &helper()).iter().map(|f| self.files.contains_key(&f.path)).collect()
    }

    fn install(&mut self, force: bool) -> Vec<String> {
        let written = install("/p", force, &self.present(), &helper());
        let paths = written.iter().map(|f| f.path.clone()).collect();
        for f in written {
            self.files.insert(f.path, f.content);
        }
        paths
    }

    fn uninstall(&mut self) -> Vec<String> {
        let gone = uninstall("/p", &self.present(), &helper());
        for path in &gone {
            self.files.remove(path);
        }
        gone
    }
}

#[test]
fn install_creates_command_file() {
    let mut disk = Disk::new();
    let written = disk.install(false);
    assert_eq!(written, vec![AUTO_MD.to_string()]);

    let content = &disk.files[AUTO_MD];
    assert!(content.contains("belt autopilot daemon"));
    assert!(content.contains("belt start"));
    assert!(content.contains("belt stop"));
    assert!(content.contains("belt restart"));
}

#[test]
fn install_skips_existing_without_force() {
    let mut disk = Disk::new();
    disk.install(false);

    // Write custom content.
    disk.files.insert(AUTO_MD.to_string(), "# custom".to_string());

    // Re-install without force -- should skip.
    let written = disk.install(false);
    assert!(written.is_empty());
    assert_eq!(disk.files[AUTO_MD], "# custom");
}

#[test]
fn install_force_overwrites() {
    let mut disk = Disk::new();
    disk.install(false);
    disk.files.insert(AUTO_MD.to_string(), "# custom".to_string());

    let written = disk.install(true);
    assert_eq!(written.len(), 1);
    assert!(disk.files[AUTO_MD].contains("belt autopilot daemon"));
}

#[test]
fn uninstall_removes_command_file() {
    let mut disk = Disk::new();
    disk.install(false);
    assert!(disk.files.contains_key(AUTO_MD));

    let removed = disk.uninstall();
    assert_eq!(removed.len(), 1);
    assert!(!disk.files.contains_key(AUTO_MD));
}

#[test]
fn uninstall_noop_when_not_installed() {
    let mut disk = Disk::new();
    let removed = disk.uninstall();
    assert!(removed.is_empty());
}

#[test]
fn is_installed_reports_correctly() {
    let mut disk = Disk::new();
    assert!(!is_installed(&disk.present()));

    disk.install(false);
    assert!(is_installed(&disk.present()));

    disk.uninstall();
    assert!(!is_installed(&disk.present()));
}

#[test]
fn command_template_has_valid_frontmatter() {
    // The template must start with YAML front-matter delimiters.
    assert!(AUTO_COMMAND_MD.starts_with("---\n"));
    assert!(AUTO_COMMAND_MD.contains("\n---\n"));
    // Must declare allowed-tools.
    assert!(AUTO_COMMAND_MD.contains("allowed-tools:"));
    assert!(AUTO_COMMAND_MD.contains("Bash"));
}

#[test]
fn plugin_messages() {
    assert_eq!(
        install_message(&Vec::new(), &helper()),
        "No files written (already installed). Use --force to overwrite.\n"
    );
    assert_eq!(
        install_message(&vec!["a".to_string()], &helper()),
        "Installed: a\n\n/auto slash command installed. Restart Helper Code to activate.\n"
    );
    assert_eq!(uninstall_message(&Vec::new()), "Nothing to remove (not installed).\n");
    assert_eq!(uninstall_message(&vec!["a".to_string()]), "Removed: a\n");
    assert_eq!(status_message(true), "Installed\n");
    assert_eq!(status_message(false), "Not installed\n");
}
