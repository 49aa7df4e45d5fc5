//! The flag set consumed by the move logic, and the backup-choice enum.
//!
//! Flags that the surrounding command accepts but never acts upon
//! (exchange, force/interactive/no-clobber, update policies) are not part
//! of this structure: they are handled, and ignored, by the caller.

use vstd::prelude::*;

verus! {

/// The byte value of `~`, the default backup suffix.
pub const TILDE: u8 = 126;

/// Which backup-naming algorithm to use for a destination that would be
/// overwritten.
#[derive(Clone, Copy, Debug, PartialEq, Eq, Structural)]
pub enum BackupChoice {
    /// Make no backup even though backing up was requested.
    NoBackup,
    /// Always probe `dest~0`, `dest~1`, ... and use the first free slot.
    Numbered,
    /// Use `dest~` if free; otherwise fall back to numbered probing.
    Existing,
    /// Always use `dest~`, overwriting any previous backup there.
    Simple,
}

/// The label the progress log prints for a backup choice, naming the
/// canonical spelling and its accepted alias.
pub open spec fn label_spec(c: BackupChoice) -> Seq<char> {
    match c {
        BackupChoice::NoBackup => "None/Off"@,
        BackupChoice::Numbered => "Numbered/T"@,
        BackupChoice::Existing => "Existing/Nil"@,
        BackupChoice::Simple => "Simple/Never"@,
    }
}

impl BackupChoice {
    /// The label to print for this choice.
    pub fn label(&self) -> (r: &'static str)
        ensures
            r@ == label_spec(*self),
    {
        match self {
            BackupChoice::NoBackup => "None/Off",
            BackupChoice::Numbered => "Numbered/T",
            BackupChoice::Existing => "Existing/Nil",
            BackupChoice::Simple => "Simple/Never",
        }
    }
}

/// The options a single invocation is resolved to.  Paths and the backup
/// suffix are byte strings, as the operating system sees them.
pub struct Options {
    /// Backup requested without an explicit choice (`-b`).
    pub backup: bool,
    /// Backup requested with an explicit choice (`--backup=CHOICE`).
    pub backup_choice: Option<BackupChoice>,
    /// Emit debug messages; implies verbose.
    pub debug: bool,
    /// Do not fall back to a whole-file copy when the rename fails.
    pub no_copy: bool,
    /// Strip trailing slashes from each source argument.
    pub strip_trailing_slashes: bool,
    /// Backup suffix to use instead of `~`.
    pub suffix: Option<Vec<u8>>,
    /// Treat the destination as a directory.
    pub target_directory: bool,
    /// Treat the destination as a plain file.
    pub no_target_directory: bool,
    /// Emit progress messages.
    pub verbose: bool,
}

impl Options {
    /// Whether any form of backing up was asked for.
    pub open spec fn backup_requested_spec(&self) -> bool {
        self.backup || self.backup_choice is Some
    }

    pub fn backup_requested(&self) -> (r: bool)
        ensures
            r == self.backup_requested_spec(),
    {
        self.backup || self.backup_choice.is_some()
    }

    /// The backup choice in force: an explicit choice wins, and a bare
    /// request defaults to `Existing`.
    pub open spec fn choice_spec(&self) -> BackupChoice {
        match self.backup_choice {
            Option::Some(c) => c,
            Option::None => BackupChoice::Existing,
        }
    }

    pub fn effective_choice(&self) -> (c: BackupChoice)
        ensures
            c == self.choice_spec(),
    {
        match self.backup_choice {
            Option::Some(c) => c,
            Option::None => BackupChoice::Existing,
        }
    }

    /// The backup suffix in force: the explicit one, or `~`.
    pub open spec fn suffix_spec(&self) -> Seq<u8> {
        match self.suffix {
            Option::Some(s) => s@,
            Option::None => seq![TILDE],
        }
    }

    pub fn suffix_bytes(&self) -> (r: Vec<u8>)
        ensures
            r@ == self.suffix_spec(),
    {
        match &self.suffix {
            Option::Some(s) => crate::paths::clone_bytes(s),
            Option::None => {
                let mut v: Vec<u8> = Vec::new();
                v.push(TILDE);
                proof {
                    assert(v@ =~= seq![TILDE]);
                }
                v
            },
        }
    }

    /// Whether progress messages should be emitted.
    pub open spec fn log_enabled_spec(&self) -> bool {
        self.verbose || self.debug
    }

    pub fn log_enabled(&self) -> (r: bool)
        ensures
            r == self.log_enabled_spec(),
    {
        self.verbose || self.debug
    }
}

} // verus!
