//! Putting a package file in its place, and undoing that when a later part of the
//! installation fails.

use crate::path::{
    extension, extension_spec, is_step, law_extension_is_exchanged, split, with_extension,
    with_extension_spec,
};
use crate::text::join2;
use vstd::prelude::*;

verus! {

/// What is being replaced.
#[derive(Debug, PartialEq, Eq)]
pub enum InstallMode {
    /// Nothing: the package is new.
    Fresh,
    /// A package that came with the system, whose file stays where it is.
    UpgradeBundled,
    /// A package that was installed before.
    UpgradeDownloaded { installed_path: String },
}

impl Clone for InstallMode {
    fn clone(&self) -> (r: Self)
        ensures
            r == *self,
    {
        match self {
            InstallMode::Fresh => InstallMode::Fresh,
            InstallMode::UpgradeBundled => InstallMode::UpgradeBundled,
            InstallMode::UpgradeDownloaded { installed_path } => InstallMode::UpgradeDownloaded {
                installed_path: installed_path.clone(),
            },
        }
    }
}

/// The part of an installation that failed.
#[derive(Debug, Clone, Copy, PartialEq, Eq, Structural)]
pub enum InstallError {
    Backup,
    Copy,
    Purge,
    Acquire,
    Build,
}

/// What has to be done next.
#[derive(Debug, Clone, Copy, PartialEq, Eq, Structural)]
pub enum InstallAction {
    /// Put the installed file aside.
    Backup,
    /// Copy the new file to its place.
    Copy,
    /// Throw the package's data away.
    Purge,
    /// Get the package's volume.
    Acquire,
    /// Make the package.
    Build,
    /// Remove what was put aside; that it fails does no harm.
    RemoveBackup,
    /// Undo what was done to files; that it fails changes nothing of the result.
    RollBack(InstallError),
    Installed,
    Failed(InstallError),
}

/// Where a file is put aside: its extension with `.old` behind it.
pub open spec fn backup_path_spec(path: Seq<char>) -> Seq<char> {
    let ext = match extension_spec(path) {
        Some(e) => e,
        None => Seq::empty(),
    };
    with_extension_spec(path, ext + ".old"@)
}

pub fn backup_path_of(path: &str) -> (r: String)
    ensures
        r@ == backup_path_spec(path@),
{
    let ext = match extension(path) {
        Some(e) => e,
        None => String::new(),
    };
    assert(ext@ == match extension_spec(path@) {
        Some(e) => e,
        None => Seq::empty(),
    });
    with_extension(path, join2(ext.as_str(), ".old").as_str())
}

/// What came of removing a file.
#[derive(Debug, Clone, Copy, PartialEq, Eq, Structural)]
pub enum RemoveOutcome {
    Removed,
    NotFound,
    Failed,
}

/// Whether a file was removed. One that is not there is no failure; `None` is one.
pub fn remove_file_if_exists(outcome: RemoveOutcome) -> (r: Option<bool>)
    ensures
        r == match outcome {
            RemoveOutcome::Removed => Some(true),
            RemoveOutcome::NotFound => Some(false),
            RemoveOutcome::Failed => None::<bool>,
        },
{
    match outcome {
        RemoveOutcome::Removed => Some(true),
        RemoveOutcome::NotFound => Some(false),
        RemoveOutcome::Failed => None,
    }
}

/// After a failure files are put back, unless nothing was replaced.
pub open spec fn undo(mode: InstallMode, e: InstallError) -> InstallAction {
    if mode is Fresh {
        InstallAction::Failed(e)
    } else {
        InstallAction::RollBack(e)
    }
}

pub open spec fn first_action(mode: InstallMode) -> InstallAction {
    if mode is UpgradeDownloaded {
        InstallAction::Backup
    } else {
        InstallAction::Copy
    }
}

/// The action that follows `action`, by whether that succeeded.
pub open spec fn install_step(
    mode: InstallMode,
    remove_data: bool,
    action: InstallAction,
    ok: bool,
) -> InstallAction {
    match action {
        InstallAction::Backup => if ok {
            InstallAction::Copy
        } else {
            InstallAction::Failed(InstallError::Backup)
        },
        InstallAction::Copy => if !ok {
            undo(mode, InstallError::Copy)
        } else if remove_data {
            InstallAction::Purge
        } else {
            InstallAction::Acquire
        },
        InstallAction::Purge => if ok {
            InstallAction::Acquire
        } else {
            undo(mode, InstallError::Purge)
        },
        InstallAction::Acquire => if ok {
            InstallAction::Build
        } else {
            undo(mode, InstallError::Acquire)
        },
        InstallAction::Build => if !ok {
            undo(mode, InstallError::Build)
        } else if mode is UpgradeDownloaded {
            InstallAction::RemoveBackup
        } else {
            InstallAction::Installed
        },
        InstallAction::RemoveBackup => InstallAction::Installed,
        InstallAction::RollBack(e) => InstallAction::Failed(e),
        InstallAction::Installed => action,
        InstallAction::Failed(_) => action,
    }
}

/// What an action does to files.
#[derive(Debug)]
pub enum FileOp {
    Nothing,
    Rename { from: String, to: String },
    Copy { from: String, to: String },
    /// Remove a file that need not be there.
    Remove { path: String },
}

pub enum FileOpView {
    Nothing,
    Rename { from: Seq<char>, to: Seq<char> },
    Copy { from: Seq<char>, to: Seq<char> },
    Remove { path: Seq<char> },
}

impl View for FileOp {
    type V = FileOpView;

    open spec fn view(&self) -> FileOpView {
        match self {
            FileOp::Nothing => FileOpView::Nothing,
            FileOp::Rename { from, to } => FileOpView::Rename { from: from@, to: to@ },
            FileOp::Copy { from, to } => FileOpView::Copy { from: from@, to: to@ },
            FileOp::Remove { path } => FileOpView::Remove { path: path@ },
        }
    }
}

pub open spec fn file_op_spec(
    mode: InstallMode,
    source: Seq<char>,
    dest: Seq<char>,
    action: InstallAction,
) -> FileOpView {
    match (action, mode) {
        (InstallAction::Backup, InstallMode::UpgradeDownloaded { installed_path }) => {
            FileOpView::Rename { from: installed_path@, to: backup_path_spec(installed_path@) }
        },
        (InstallAction::Copy, _) => FileOpView::Copy { from: source, to: dest },
        (InstallAction::RemoveBackup, InstallMode::UpgradeDownloaded { installed_path }) => {
            FileOpView::Remove { path: backup_path_spec(installed_path@) }
        },
        (InstallAction::RollBack(_), InstallMode::UpgradeDownloaded { installed_path }) => {
            FileOpView::Rename { from: backup_path_spec(installed_path@), to: installed_path@ }
        },
        (InstallAction::RollBack(_), InstallMode::UpgradeBundled) => FileOpView::Remove {
            path: dest,
        },
        _ => FileOpView::Nothing,
    }
}

/// An installation under way.
#[derive(Debug)]
pub struct InstallFlow {
    pub mode: InstallMode,
    pub source: String,
    pub dest: String,
    pub remove_data: bool,
    pub action: InstallAction,
}

impl InstallFlow {
    pub fn new(mode: InstallMode, source: String, dest: String, remove_data: bool) -> (r: Self)
        ensures
            r == (InstallFlow { mode, source, dest, remove_data, action: first_action(mode) }),
    {
        let action = match &mode {
            InstallMode::UpgradeDownloaded { .. } => InstallAction::Backup,
            _ => InstallAction::Copy,
        };
        InstallFlow { mode, source, dest, remove_data, action }
    }

    /// What the pending action does to files.
    pub fn file_op(&self) -> (r: FileOp)
        ensures
            r@ == file_op_spec(self.mode, self.source@, self.dest@, self.action),
    {
        match (&self.action, &self.mode) {
            (InstallAction::Backup, InstallMode::UpgradeDownloaded { installed_path }) => {
                FileOp::Rename {
                    from: installed_path.clone(),
                    to: backup_path_of(installed_path.as_str()),
                }
            },
            (InstallAction::Copy, _) => FileOp::Copy {
                from: self.source.clone(),
                to: self.dest.clone(),
            },
            (InstallAction::RemoveBackup, InstallMode::UpgradeDownloaded { installed_path }) => {
                FileOp::Remove { path: backup_path_of(installed_path.as_str()) }
            },
            (InstallAction::RollBack(_), InstallMode::UpgradeDownloaded { installed_path }) => {
                FileOp::Rename {
                    from: backup_path_of(installed_path.as_str()),
                    to: installed_path.clone(),
                }
            },
            (InstallAction::RollBack(_), InstallMode::UpgradeBundled) => FileOp::Remove {
                path: self.dest.clone(),
            },
            _ => FileOp::Nothing,
        }
    }

    fn after_failure(&self, e: InstallError) -> (r: InstallAction)
        ensures
            r == undo(self.mode, e),
    {
        match &self.mode {
            InstallMode::Fresh => InstallAction::Failed(e),
            _ => InstallAction::RollBack(e),
        }
    }

    /// Takes the installation one action further.
    pub fn next(&mut self, ok: bool)
        ensures
            final(self).mode == old(self).mode,
            final(self).source == old(self).source,
            final(self).dest == old(self).dest,
            final(self).remove_data == old(self).remove_data,
            final(self).action == install_step(
                old(self).mode,
                old(self).remove_data,
                old(self).action,
                ok,
            ),
    {
        let action = match self.action {
            InstallAction::Backup => if ok {
                InstallAction::Copy
            } else {
                InstallAction::Failed(InstallError::Backup)
            },
            InstallAction::Copy => if !ok {
                self.after_failure(InstallError::Copy)
            } else if self.remove_data {
                InstallAction::Purge
            } else {
                InstallAction::Acquire
            },
            InstallAction::Purge => if ok {
                InstallAction::Acquire
            } else {
                self.after_failure(InstallError::Purge)
            },
            InstallAction::Acquire => if ok {
                InstallAction::Build
            } else {
                self.after_failure(InstallError::Acquire)
            },
            InstallAction::Build => if !ok {
                self.after_failure(InstallError::Build)
            } else {
                match &self.mode {
                    InstallMode::UpgradeDownloaded { .. } => InstallAction::RemoveBackup,
                    _ => InstallAction::Installed,
                }
            },
            InstallAction::RemoveBackup => InstallAction::Installed,
            InstallAction::RollBack(e) => InstallAction::Failed(e),
            InstallAction::Installed => InstallAction::Installed,
            InstallAction::Failed(e) => InstallAction::Failed(e),
        };
        self.action = action;
    }
}

/// The files there are, by path, with a number for what is in each.
pub type Files = Map<Seq<char>, int>;

/// The files after an operation. One that fails changes nothing.
pub open spec fn files_after(files: Files, op: FileOpView, ok: bool) -> Files {
    if !ok {
        files
    } else {
        match op {
            FileOpView::Nothing => files,
            FileOpView::Rename { from, to } => files.remove(from).insert(to, files[from]),
            FileOpView::Copy { from, to } => files.insert(to, files[from]),
            FileOpView::Remove { path } => files.remove(path),
        }
    }
}

/// The action and the files after any number of outcomes.
pub open spec fn install_run(
    mode: InstallMode,
    source: Seq<char>,
    dest: Seq<char>,
    remove_data: bool,
    files: Files,
    outcomes: Seq<bool>,
) -> (InstallAction, Files)
    decreases outcomes.len(),
{
    if outcomes.len() == 0 {
        (first_action(mode), files)
    } else {
        let before = install_run(mode, source, dest, remove_data, files, outcomes.drop_last());
        (
            install_step(mode, remove_data, before.0, outcomes.last()),
            files_after(
                before.1,
                file_op_spec(mode, source, dest, before.0),
                outcomes.last(),
            ),
        )
    }
}

/// The installed package can be put aside and back: its file is there, it is what the new
/// one replaces, and nothing lies where it is put.
pub open spec fn can_put_aside(mode: InstallMode, source: Seq<char>, dest: Seq<char>, files: Files) -> bool {
    match mode {
        InstallMode::UpgradeDownloaded { installed_path } => {
            let aside = backup_path_spec(installed_path@);
            &&& files.dom().contains(installed_path@)
            &&& dest == installed_path@
            &&& aside != installed_path@
            &&& !files.dom().contains(aside)
            &&& source != aside
        },
        InstallMode::UpgradeBundled => !files.dom().contains(dest),
        InstallMode::Fresh => true,
    }
}

/// What holds of the files at each action.
spec fn files_fit(
    mode: InstallMode,
    source: Seq<char>,
    dest: Seq<char>,
    files: Files,
    action: InstallAction,
    now: Files,
) -> bool {
    match mode {
        InstallMode::UpgradeDownloaded { installed_path } => {
            let aside = backup_path_spec(installed_path@);
            let moved = files.remove(installed_path@).insert(aside, files[installed_path@]);
            match action {
                InstallAction::Backup => now == files,
                InstallAction::Copy => now == moved,
                InstallAction::Purge | InstallAction::Acquire | InstallAction::Build => now == moved.insert(
                    dest,
                    moved[source],
                ),
                InstallAction::RemoveBackup => now == moved.insert(dest, moved[source]),
                InstallAction::RollBack(e) => if e is Copy {
                    now == moved
                } else {
                    now == moved.insert(dest, moved[source])
                },
                InstallAction::Installed => true,
                InstallAction::Failed(e) => e is Backup ==> now == files,
            }
        },
        InstallMode::UpgradeBundled => match action {
            InstallAction::Copy => now == files,
            InstallAction::Purge | InstallAction::Acquire | InstallAction::Build
            | InstallAction::Installed => now == files.insert(dest, files[source]),
            InstallAction::RollBack(e) => if e is Copy {
                now == files
            } else {
                now == files.insert(dest, files[source])
            },
            InstallAction::Failed(_) => true,
            _ => false,
        },
        InstallMode::Fresh => true,
    }
}

proof fn lemma_files_fit(
    mode: InstallMode,
    source: Seq<char>,
    dest: Seq<char>,
    remove_data: bool,
    files: Files,
    outcomes: Seq<bool>,
)
    requires
        can_put_aside(mode, source, dest, files),
    ensures
        ({
            let now = install_run(mode, source, dest, remove_data, files, outcomes);
            files_fit(mode, source, dest, files, now.0, now.1)
        }),
    decreases outcomes.len(),
{
    if outcomes.len() > 0 {
        lemma_files_fit(mode, source, dest, remove_data, files, outcomes.drop_last());
    }
}

/// An upgrade that fails leaves the files as they were: once what was done has been
/// undone, the installed package, and all else, is there as before.
pub proof fn law_failed_upgrade_restores_files(
    mode: InstallMode,
    source: Seq<char>,
    dest: Seq<char>,
    remove_data: bool,
    files: Files,
    outcomes: Seq<bool>,
)
    requires
        can_put_aside(mode, source, dest, files),
        outcomes.len() > 0,
        install_run(mode, source, dest, remove_data, files, outcomes.drop_last()).0 is RollBack,
        outcomes.last(),
    ensures
        install_run(mode, source, dest, remove_data, files, outcomes).0 is Failed,
        install_run(mode, source, dest, remove_data, files, outcomes).1 == files,
{
    lemma_files_fit(mode, source, dest, remove_data, files, outcomes.drop_last());
    let now = install_run(mode, source, dest, remove_data, files, outcomes).1;
    assert(now =~= files);
}

/// An upgrade whose first step fails has touched nothing.
pub proof fn law_failed_backup_touches_nothing(
    mode: InstallMode,
    source: Seq<char>,
    dest: Seq<char>,
    remove_data: bool,
    files: Files,
    outcomes: Seq<bool>,
)
    requires
        can_put_aside(mode, source, dest, files),
        mode is UpgradeDownloaded,
        install_run(mode, source, dest, remove_data, files, outcomes).0 == InstallAction::Failed(
            InstallError::Backup,
        ),
    ensures
        install_run(mode, source, dest, remove_data, files, outcomes).1 == files,
{
    lemma_files_fit(mode, source, dest, remove_data, files, outcomes);
}

/// A package that is installed has the new file in its place, and nothing of the old one
/// is left once the backup is removed.
pub proof fn law_installed_has_new_file(
    mode: InstallMode,
    source: Seq<char>,
    dest: Seq<char>,
    remove_data: bool,
    files: Files,
    outcomes: Seq<bool>,
)
    requires
        can_put_aside(mode, source, dest, files),
        mode is UpgradeDownloaded,
        source != dest,
        outcomes.len() > 0,
        install_run(mode, source, dest, remove_data, files, outcomes.drop_last()).0
            is RemoveBackup,
        outcomes.last(),
    ensures
        install_run(mode, source, dest, remove_data, files, outcomes).0 is Installed,
        install_run(mode, source, dest, remove_data, files, outcomes).1 == files.insert(
            dest,
            files[source],
        ),
{
    lemma_files_fit(mode, source, dest, remove_data, files, outcomes.drop_last());
    let now = install_run(mode, source, dest, remove_data, files, outcomes).1;
    assert(now =~= files.insert(dest, files[source]));
}

/// Without a wish to throw data away none is: whatever happens, no purge is asked for. With
/// one, the volume is not taken before the purge succeeded.
pub proof fn law_purge_follows_the_wish(
    mode: InstallMode,
    source: Seq<char>,
    dest: Seq<char>,
    remove_data: bool,
    files: Files,
    outcomes: Seq<bool>,
)
    ensures
        install_run(mode, source, dest, remove_data, files, outcomes).0 is Purge ==> remove_data,
        remove_data && outcomes.len() > 0 && install_run(
            mode,
            source,
            dest,
            remove_data,
            files,
            outcomes,
        ).0 is Acquire ==> outcomes.last() && install_run(
            mode,
            source,
            dest,
            remove_data,
            files,
            outcomes.drop_last(),
        ).0 is Purge,
{
}

/// How an installation goes when nothing fails: the installed file is put aside where there
/// is one, the new file is copied, data goes where that was asked for, the volume is taken,
/// the package is made, and what was put aside is removed.
pub proof fn law_installation_when_nothing_fails(
    mode: InstallMode,
    source: Seq<char>,
    dest: Seq<char>,
    files: Files,
)
    ensures
        ({
            let run = |purge: bool, n: nat|
                install_run(mode, source, dest, purge, files, Seq::new(n, |i: int| true)).0;
            let k: nat = if mode is UpgradeDownloaded {
                1
            } else {
                0
            };
            &&& mode is UpgradeDownloaded ==> run(true, 0) is Backup && run(false, 0) is Backup
            &&& run(true, k) is Copy
            &&& run(true, (k + 1) as nat) is Purge
            &&& run(true, (k + 2) as nat) is Acquire
            &&& run(true, (k + 3) as nat) is Build
            &&& run(false, k) is Copy
            &&& run(false, (k + 1) as nat) is Acquire
            &&& run(false, (k + 2) as nat) is Build
            &&& mode is UpgradeDownloaded ==> run(false, 4) is RemoveBackup && run(false, 5)
                is Installed && run(true, 5) is RemoveBackup && run(true, 6) is Installed
            &&& !(mode is UpgradeDownloaded) ==> run(false, 3) is Installed && run(true, 4)
                is Installed
        }),
{
    assert(Seq::new(1, |i: int| true).drop_last() =~= Seq::new(0, |i: int| true));
    assert(Seq::new(2, |i: int| true).drop_last() =~= Seq::new(1, |i: int| true));
    assert(Seq::new(3, |i: int| true).drop_last() =~= Seq::new(2, |i: int| true));
    assert(Seq::new(4, |i: int| true).drop_last() =~= Seq::new(3, |i: int| true));
    assert(Seq::new(5, |i: int| true).drop_last() =~= Seq::new(4, |i: int| true));
    assert(Seq::new(6, |i: int| true).drop_last() =~= Seq::new(5, |i: int| true));
    reveal_with_fuel(install_run, 7);
}

/// A failure ends an installation in the error of the part that failed. Where something was
/// replaced, what was done is undone first; where the package is new, or nothing was done
/// yet, there is nothing to undo.
pub proof fn law_failure_is_told(mode: InstallMode, remove_data: bool, ok: bool, e: InstallError)
    ensures
        install_step(mode, remove_data, InstallAction::Backup, false) == InstallAction::Failed(
            InstallError::Backup,
        ),
        ({
            let after = |action: InstallAction| install_step(mode, remove_data, action, false);
            if mode is Fresh {
                &&& after(InstallAction::Copy) == InstallAction::Failed(InstallError::Copy)
                &&& after(InstallAction::Purge) == InstallAction::Failed(InstallError::Purge)
                &&& after(InstallAction::Acquire) == InstallAction::Failed(InstallError::Acquire)
                &&& after(InstallAction::Build) == InstallAction::Failed(InstallError::Build)
            } else {
                &&& after(InstallAction::Copy) == InstallAction::RollBack(InstallError::Copy)
                &&& after(InstallAction::Purge) == InstallAction::RollBack(InstallError::Purge)
                &&& after(InstallAction::Acquire) == InstallAction::RollBack(InstallError::Acquire)
                &&& after(InstallAction::Build) == InstallAction::RollBack(InstallError::Build)
            }
        }),
        install_step(mode, remove_data, InstallAction::RollBack(e), ok) == InstallAction::Failed(e),
        install_step(mode, remove_data, InstallAction::RemoveBackup, ok)
            == InstallAction::Installed,
{
}

/// A new package, or one that replaces a package of the system, has its file in place once it
/// is installed, and no other file has changed.
pub proof fn law_installed_file_is_in_place(
    mode: InstallMode,
    source: Seq<char>,
    dest: Seq<char>,
    remove_data: bool,
    files: Files,
    outcomes: Seq<bool>,
)
    requires
        !(mode is UpgradeDownloaded),
    ensures
        ({
            let now = install_run(mode, source, dest, remove_data, files, outcomes);
            &&& now.0 is Installed || now.0 is Build || now.0 is Acquire || now.0 is Purge ==> now.1
                == files.insert(dest, files[source])
            &&& now.0 is Copy ==> now.1 == files
            &&& !(now.0 is Backup) && !(now.0 is RemoveBackup)
        }),
    decreases outcomes.len(),
{
    if outcomes.len() > 0 {
        law_installed_file_is_in_place(
            mode,
            source,
            dest,
            remove_data,
            files,
            outcomes.drop_last(),
        );
    }
}

/// What each part of an installation does to files: the new file is copied to its place; the
/// installed one is put aside before that, and back where the installation fails, or removed
/// where it succeeds; and what replaced a package of the system is removed again.
pub proof fn law_what_is_done_to_files(
    installed: String,
    source: Seq<char>,
    dest: Seq<char>,
    mode: InstallMode,
    e: InstallError,
)
    ensures
        file_op_spec(mode, source, dest, InstallAction::Copy) == (FileOpView::Copy {
            from: source,
            to: dest,
        }),
        ({
            let upgrade = InstallMode::UpgradeDownloaded { installed_path: installed };
            let aside = backup_path_spec(installed@);
            &&& file_op_spec(upgrade, source, dest, InstallAction::Backup) == (FileOpView::Rename {
                from: installed@,
                to: aside,
            })
            &&& file_op_spec(upgrade, source, dest, InstallAction::RollBack(e)) == (
            FileOpView::Rename { from: aside, to: installed@ })
            &&& file_op_spec(upgrade, source, dest, InstallAction::RemoveBackup) == (
            FileOpView::Remove { path: aside })
        }),
        file_op_spec(InstallMode::UpgradeBundled, source, dest, InstallAction::RollBack(e)) == (
        FileOpView::Remove { path: dest }),
        file_op_spec(mode, source, dest, InstallAction::Purge) is Nothing,
        file_op_spec(mode, source, dest, InstallAction::Acquire) is Nothing,
        file_op_spec(mode, source, dest, InstallAction::Build) is Nothing,
{
}

/// A file is put aside in its own directory, under its own name with `.old` behind it.
pub proof fn law_place_of_a_backup(dir: Seq<char>, stem: Seq<char>, ext: Seq<char>)
    requires
        dir.len() > 0,
        dir.last() != '/',
        is_step(split(dir, '/').last()),
        stem.len() > 0,
        stem != seq!['.'],
        !stem.contains('/'),
        !ext.contains('/'),
        !ext.contains('.'),
    ensures
        backup_path_spec(dir + seq!['/'] + stem + seq!['.'] + ext) == dir + seq!['/'] + stem + seq![
            '.',
        ] + ext + ".old"@,
{
    reveal_strlit(".old");
    law_extension_is_exchanged(dir, stem, ext, ext + ".old"@);
    assert(dir + seq!['/'] + stem + seq!['.'] + (ext + ".old"@) =~= dir + seq!['/'] + stem + seq![
        '.',
    ] + ext + ".old"@);
}

} // verus!
