//! A PGP back-end that drives the command-line `gpg`.
//!
//! The library decides what is run and what its outcome means. Running it (temporary files,
//! the child process) is left to the program around the library.

use vstd::prelude::*;
use vstd::string::*;

use crate::text::{decimal_of, join};
use crate::PgpError;

verus! {

/// A PGP Backend using the command-line gpg.
#[derive(Debug, PartialEq, Eq)]
pub struct GPGBackend {
    temp_dir: String,
    keyring: String,
    quiet: bool,
}

impl Clone for GPGBackend {
    fn clone(&self) -> (copy: Self)
        ensures
            copy == *self,
    {
        GPGBackend {
            temp_dir: self.temp_dir.clone(),
            keyring: self.keyring.clone(),
            quiet: self.quiet,
        }
    }
}

/// The flag that makes `gpg` quiet, or nothing.
pub open spec fn quiet_flag(quiet: bool) -> Seq<char> {
    if quiet {
        "-q"@
    } else {
        ""@
    }
}

/// The command line that imports the key file at `key_path` into `keyring`.
pub open spec fn import_command_text(keyring: Seq<char>, quiet: bool, key_path: Seq<char>) -> Seq<
    char,
> {
    "gpg --no-default-keyring --keyring="@ + keyring + " --import --yes "@ + quiet_flag(quiet)
        + " "@ + key_path
}

/// The command line that encrypts the file at `in_path` for `recipients` into `out_path`.
pub open spec fn encrypt_command_text(
    keyring: Seq<char>,
    quiet: bool,
    recipients: Seq<Seq<char>>,
    in_path: Seq<char>,
    out_path: Seq<char>,
) -> Seq<char> {
    "gpg --no-default-keyring --keyring="@ + keyring + " -R \""@ + crate::text::joined(
        recipients,
        " -r "@,
    ) + "\" -a -o "@ + out_path + " "@ + quiet_flag(quiet) + " --always-trust -e "@ + in_path
}

/// What an exit code of `gpg` means: success for 0, else the words of the error.
pub open spec fn exit_meaning(code: Option<i32>) -> Result<(), Seq<char>> {
    match code {
        Some(0) => Ok(()),
        Some(other) => Err(
            "GPG exited with code "@ + crate::text::decimal(other as int)
                + "\nPlease check the GPG output for more information about the error."@,
        ),
        None => Err("GPG exited without any exit code!"@),
    }
}

impl GPGBackend {
    /// The directory for temporary files.
    pub closed spec fn spec_temp_dir(&self) -> Seq<char> {
        self.temp_dir@
    }

    /// The key ring file.
    pub closed spec fn spec_keyring(&self) -> Seq<char> {
        self.keyring@
    }

    /// Whether `gpg` is told to be quiet.
    pub closed spec fn spec_quiet(&self) -> bool {
        self.quiet
    }

    /// Create a new GPGBackend instance that keeps its temporary files under `temp_dir` and
    /// its keys in the file `keyring`.
    pub fn new(temp_dir: String, keyring: String, quiet: bool) -> (backend: Self)
        ensures
            backend.spec_temp_dir() == temp_dir@,
            backend.spec_keyring() == keyring@,
            backend.spec_quiet() == quiet,
    {
        Self { temp_dir, keyring, quiet }
    }

    /// The name of the key ring file: `keyring.gpg` where the back-end got a fresh directory
    /// of its own, else a name that is safe to use in the shared temporary directory.
    pub fn keyring_name(fresh_dir: bool) -> (name: &'static str)
        ensures
            name@ == if fresh_dir {
                "keyring.gpg"@
            } else {
                "cypherpunk-cli_keyring.gpg"@
            },
    {
        if fresh_dir {
            "keyring.gpg"
        } else {
            "cypherpunk-cli_keyring.gpg"
        }
    }

    /// The directory for temporary files.
    pub fn temp_dir(&self) -> (dir: &String)
        ensures
            dir@ == self.spec_temp_dir(),
    {
        &self.temp_dir
    }

    /// The key ring file.
    pub fn keyring(&self) -> (file: &String)
        ensures
            file@ == self.spec_keyring(),
    {
        &self.keyring
    }

    /// Whether `gpg` is told to be quiet.
    pub fn is_quiet(&self) -> (quiet: bool)
        ensures
            quiet == self.spec_quiet(),
    {
        self.quiet
    }

    /// The program that runs a command line, and the flag in front of the command line.
    pub fn shell(windows: bool) -> (shell: (&'static str, &'static str))
        ensures
            shell.0@ == if windows {
                "cmd"@
            } else {
                "sh"@
            },
            shell.1@ == if windows {
                "/C"@
            } else {
                "-c"@
            },
    {
        if windows {
            ("cmd", "/C")
        } else {
            ("sh", "-c")
        }
    }

    /// The command line that imports the key file at `key_path`.
    pub fn import_command(&self, key_path: &str) -> (command: String)
        ensures
            command@ == import_command_text(self.spec_keyring(), self.spec_quiet(), key_path@),
    {
        let mut command = String::from_str("gpg --no-default-keyring --keyring=");
        command.append(self.keyring.as_str());
        command.append(" --import --yes ");
        command.append(if self.quiet { "-q" } else { "" });
        command.append(" ");
        command.append(key_path);
        command
    }

    /// The command line that encrypts the file at `in_path` for `recipients` and writes the
    /// armoured result to `out_path`.
    pub fn encrypt_command(&self, recipients: &Vec<String>, in_path: &str, out_path: &str) -> (command:
        String)
        ensures
            command@ == encrypt_command_text(
                self.spec_keyring(),
                self.spec_quiet(),
                recipients.deep_view(),
                in_path@,
                out_path@,
            ),
    {
        let list = join(recipients, " -r ");
        let mut command = String::from_str("gpg --no-default-keyring --keyring=");
        command.append(self.keyring.as_str());
        command.append(" -R \"");
        command.append(list.as_str());
        command.append("\" -a -o ");
        command.append(out_path);
        command.append(" ");
        command.append(if self.quiet { "-q" } else { "" });
        command.append(" --always-trust -e ");
        command.append(in_path);
        command
    }

    /// What the exit of `gpg` means. `None` stands for a process that ended without an exit
    /// code.
    pub fn check_exit(code: Option<i32>) -> (outcome: Result<(), PgpError>)
        ensures
            match exit_meaning(code) {
                Ok(_) => outcome is Ok,
                Err(words) => outcome matches Err(e) && e.message@ == words,
            },
    {
        match code {
            Some(0) => Ok(()),
            Some(other) => {
                let mut message = String::from_str("GPG exited with code ");
                message.append(decimal_of(other as i64).as_str());
                message.append(
                    "\nPlease check the GPG output for more information about the error.",
                );
                Err(PgpError { message })
            },
            None => Err(PgpError { message: String::from_str("GPG exited without any exit code!") }),
        }
    }
}

} // verus!
