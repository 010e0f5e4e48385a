//! The `/auto` slash command: its file, and where it is installed.

use vstd::prelude::*;

use crate::assistant::commands_part;
use crate::assistant::product;
use crate::assistant::Assistant;
use crate::files::after_writing;
use crate::files::choose_files;
use crate::files::chosen;
use crate::files::file_paths;
use crate::files::file_views;
use crate::files::law_every_file_exists_afterwards;
use crate::files::new_file;
use crate::files::paths_of;
use crate::files::present;
use crate::files::FileSystem;
use crate::files::FileView;
use crate::files::NewFile;
use crate::paths::path_in;
use crate::paths::under;
use crate::pieces::group_holds;
use crate::pieces::holds;
use crate::text::cat3;
use crate::text::texts;

verus! {

/// The definition of the `/auto` slash command: how `/auto <subcommand>` is
/// handled.
pub const AUTO_COMMAND_MD: &'static str = r#"---
description: Control the belt autopilot daemon (start/stop/restart/status)
argument-hint: "<start|stop|restart|status> [options]"
allowed-tools:
  - Bash
---

# /auto -- Belt Autopilot Daemon Control

Runs belt daemon control commands inside the current project.

## Usage

The user invokes `/auto <subcommand>` where subcommand is one of:

| Subcommand | Belt CLI equivalent | Description |
|------------|-------------------|-------------|
| `start`    | `belt start`      | Start the daemon |
| `stop`     | `belt stop`       | Stop the daemon |
| `restart`  | `belt restart`    | Restart the daemon |
| `status`   | `belt status --format json` | Show daemon and queue status |

## Execution

Parse the argument to determine the subcommand and run the corresponding
belt CLI command via Bash:

1. If the argument is empty or `status`, run: `belt status --format json`
2. If the argument is `start`, run: `belt start`
3. If the argument is `stop`, run: `belt stop`
4. If the argument is `restart`, run: `belt restart`
5. For any other argument, show this help message.

Always capture and display the command output to the user.

## Examples

```
/auto start        => belt start
/auto stop         => belt stop
/auto restart      => belt restart
/auto status       => belt status --format json
/auto              => belt status --format json
```
"#;

/// The files of the `/auto` plugin in a project.
pub open spec fn command_template(project_root: Seq<char>, assistant: Seq<char>) -> Seq<FileView> {
    seq![
        FileView {
            path: path_in(path_in(project_root, commands_part(assistant)), "auto.md"@),
            content: AUTO_COMMAND_MD@,
        },
    ]
}

/// All files that make up the `/auto` plugin in the given project root.
pub fn command_files(project_root: &str, assistant: &Assistant) -> (r: Vec<NewFile>)
    ensures
        file_views(r@) == command_template(project_root@, assistant.name@),
{
    let commands = assistant.commands_part();
    let commands_dir = under(project_root, commands.as_str());
    let mut out: Vec<NewFile> = Vec::new();
    out.push(new_file(under(commands_dir.as_str(), "auto.md"), AUTO_COMMAND_MD));
    proof {
        assert(file_views(out@) =~= command_template(project_root@, assistant.name@));
    }
    out
}

/// Installs the `/auto` slash command plugin into the given project root.
///
/// `exists` says of each file of the plugin whether it exists. Existing files
/// are only overwritten when `force` is `true`. Returns the files to be written.
pub fn install(project_root: &str, force: bool, exists: &Vec<bool>, assistant: &Assistant) -> (r: Vec<
    NewFile,
>)
    requires
        exists.len() == 1,
    ensures
        file_views(r@) == chosen(command_template(project_root@, assistant.name@), exists@, force, 1),
{
    let files = command_files(project_root, assistant);
    proof {
        assert(file_views(files@).len() == 1);
    }
    let (chosen_files, _) = choose_files(&files, exists, force);
    chosen_files
}

/// The paths of the first `n` files that exist.
pub open spec fn existing_paths(template: Seq<FileView>, exists: Seq<bool>, n: nat) -> Seq<Seq<char>>
    decreases n,
{
    if n == 0 {
        seq![]
    } else if exists[n - 1] {
        existing_paths(template, exists, (n - 1) as nat).push(template[n - 1].path)
    } else {
        existing_paths(template, exists, (n - 1) as nat)
    }
}

/// Removes the `/auto` slash command plugin from the given project root.
///
/// Returns the paths of the files to be removed: those of the plugin that exist.
pub fn uninstall(project_root: &str, exists: &Vec<bool>, assistant: &Assistant) -> (r: Vec<String>)
    requires
        exists.len() == 1,
    ensures
        texts(r@) == existing_paths(command_template(project_root@, assistant.name@), exists@, 1),
{
    let files = command_files(project_root, assistant);
    let paths = paths_of(&files);
    let ghost all = command_template(project_root@, assistant.name@);
    let mut out: Vec<String> = Vec::new();
    let mut i: usize = 0;
    proof {
        assert(file_views(files@).len() == 1);
        assert(texts(paths@).len() == 1);
        assert(texts(out@) =~= existing_paths(all, exists@, 0));
    }
    while i < paths.len()
        invariant
            i <= paths.len(),
            paths.len() == 1,
            exists.len() == 1,
            all.len() == 1,
            texts(paths@) == file_paths(all),
            texts(out@) == existing_paths(all, exists@, i as nat),
        decreases paths.len() - i,
    {
        let ghost before = out@;
        if exists[i] {
            out.push(paths[i].clone());
            proof {
                assert(texts(paths@)[i as int] == all[i as int].path);
                assert(texts(out@) =~= texts(before).push(all[i as int].path));
            }
        }
        i = i + 1;
    }
    out
}

/// Whether the `/auto` plugin is installed: all of its files exist.
pub fn is_installed(exists: &Vec<bool>) -> (r: bool)
    ensures
        r == forall|i: int| 0 <= i < exists.len() ==> #[trigger] exists@[i],
{
    let mut i: usize = 0;
    while i < exists.len()
        invariant
            i <= exists.len(),
            forall|k: int| 0 <= k < i ==> #[trigger] exists@[k],
        decreases exists.len() - i,
    {
        if !exists[i] {
            return false;
        }
        i = i + 1;
    }
    true
}

/// After the installation the plugin is installed, with or without force.
pub proof fn law_installing_installs(
    fs: FileSystem,
    project_root: Seq<char>,
    assistant: Seq<char>,
    force: bool,
)
    ensures
        forall|i: int|
            0 <= i < 1 ==> #[trigger] present(
                after_writing(fs, command_template(project_root, assistant), force),
                command_template(project_root, assistant),
            )[i],
{
    let template = command_template(project_root, assistant);
    assert forall|i: int| 0 <= i < 1 implies #[trigger] present(
        after_writing(fs, template, force),
        template,
    )[i] by {
        law_every_file_exists_afterwards(fs, template, force, i);
    }
}

/// The file system without the files of the given paths.
pub open spec fn removed(fs: FileSystem, paths: Seq<Seq<char>>) -> FileSystem
    decreases paths.len(),
{
    if paths.len() == 0 {
        fs
    } else {
        removed(fs, paths.drop_last()).remove(paths.last())
    }
}

/// After the removal no file of the plugin exists, and a second removal finds
/// nothing to remove.
pub proof fn law_uninstalling_uninstalls(
    fs: FileSystem,
    project_root: Seq<char>,
    assistant: Seq<char>,
)
    ensures
        ({
            let template = command_template(project_root, assistant);
            let gone = removed(
                fs,
                existing_paths(template, present(fs, template), 1),
            );
            &&& !gone.contains_key(template[0].path)
            &&& existing_paths(template, present(gone, template), 1) == Seq::<
                Seq<char>,
            >::empty()
        }),
{
    let template = command_template(project_root, assistant);
    let exists = present(fs, template);
    assert(existing_paths(template, exists, 0) == Seq::<Seq<char>>::empty());
    let paths = existing_paths(template, exists, 1);
    let gone = removed(fs, paths);
    if exists[0] {
        assert(paths.drop_last() =~= seq![]);
        assert(removed(fs, paths.drop_last()) == fs);
    } else {
        assert(gone == fs);
    }
    let now = present(gone, template);
    assert(!now[0]);
    assert(existing_paths(template, now, 0) == Seq::<Seq<char>>::empty());
}

// ---------------------------------------------------------------------------
// Messages
// ---------------------------------------------------------------------------

/// One line for each of the first `n` paths.
pub open spec fn path_lines(label: Seq<char>, paths: Seq<Seq<char>>, n: nat) -> Seq<char>
    decreases n,
{
    if n == 0 {
        seq![]
    } else {
        path_lines(label, paths, (n - 1) as nat) + (label + paths[n - 1] + "\n"@)
    }
}

/// One line for each path.
pub fn write_path_lines(label: &str, paths: &Vec<String>) -> (r: String)
    ensures
        r@ == path_lines(label@, texts(paths@), paths.len() as nat),
{
    let mut out = String::new();
    let mut i: usize = 0;
    while i < paths.len()
        invariant
            i <= paths.len(),
            out@ == path_lines(label@, texts(paths@), i as nat),
        decreases paths.len() - i,
    {
        let line = cat3(label, paths[i].as_str(), "\n");
        out.append(line.as_str());
        i = i + 1;
    }
    out
}

/// What is told of an installation.
pub open spec fn install_text(written: Seq<Seq<char>>, assistant: Seq<char>) -> Seq<char> {
    if written.len() == 0 {
        "No files written (already installed). Use --force to overwrite.\n"@
    } else {
        path_lines("Installed: "@, written, written.len())
            + "\n/auto slash command installed. Restart "@ + product(assistant) + " to activate.\n"@
    }
}

/// What is told of an installation that wrote the given files.
pub fn install_message(written: &Vec<String>, assistant: &Assistant) -> (r: String)
    ensures
        r@ == install_text(texts(written@), assistant.name@),
{
    if written.len() == 0 {
        "No files written (already installed). Use --force to overwrite.\n".to_string()
    } else {
        let mut out = write_path_lines("Installed: ", written);
        let product = assistant.product();
        out.append("\n/auto slash command installed. Restart ");
        out.append(product.as_str());
        out.append(" to activate.\n");
        out
    }
}

/// What is told of a removal.
pub open spec fn uninstall_text(gone: Seq<Seq<char>>) -> Seq<char> {
    if gone.len() == 0 {
        "Nothing to remove (not installed).\n"@
    } else {
        path_lines("Removed: "@, gone, gone.len())
    }
}

/// What is told of a removal of the given files.
pub fn uninstall_message(gone: &Vec<String>) -> (r: String)
    ensures
        r@ == uninstall_text(texts(gone@)),
{
    if gone.len() == 0 {
        "Nothing to remove (not installed).\n".to_string()
    } else {
        write_path_lines("Removed: ", gone)
    }
}

/// Whether the plugin is installed, in words.
pub fn status_message(installed: bool) -> (r: String)
    ensures
        r@ == (if installed {
            "Installed\n"@
        } else {
            "Not installed\n"@
        }),
{
    if installed {
        "Installed\n".to_string()
    } else {
        "Not installed\n".to_string()
    }
}

/// The message names every path, each in a line of its own.
pub proof fn law_every_path_has_its_line(label: Seq<char>, paths: Seq<Seq<char>>, n: nat, i: int)
    requires
        0 <= i < n <= paths.len(),
    ensures
        holds(path_lines(label, paths, n), label + paths[i] + "\n"@),
    decreases n,
{
    broadcast use group_holds;

    if i < n - 1 {
        law_every_path_has_its_line(label, paths, (n - 1) as nat, i);
    }
}

/// The messages on installing and removing name what was written or removed.
pub proof fn law_messages_name_the_files(paths: Seq<Seq<char>>, assistant: Seq<char>, i: int)
    requires
        0 <= i < paths.len(),
    ensures
        holds(install_text(paths, assistant), "Installed: "@ + paths[i] + "\n"@),
        holds(uninstall_text(paths), "Removed: "@ + paths[i] + "\n"@),
{
    broadcast use group_holds;

    law_every_path_has_its_line("Installed: "@, paths, paths.len(), i);
    law_every_path_has_its_line("Removed: "@, paths, paths.len(), i);
}

} // verus!
