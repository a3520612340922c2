//! Registration of the player as the handler of audio file types. The writes
//! and removals are planned here; only Windows has a registry to carry them
//! out, so on other systems registering succeeds without doing anything.

use vstd::prelude::*;

verus! {

/// The root a registry key path is relative to.
#[derive(Debug, Clone, Copy, PartialEq, Eq, Structural)]
pub enum RegistryRoot {
    /// `HKEY_CURRENT_USER\Software\Classes`
    UserClasses,
    /// `HKEY_CURRENT_USER\Software`
    UserSoftware,
}

/// One value to write: the key is created if missing.
#[derive(Debug, Clone)]
pub struct RegistryWrite {
    pub root: RegistryRoot,
    pub key: String,
    pub name: String,
    pub value: String,
}

/// One removal: a whole key tree, or one value of a key.
#[derive(Debug, Clone)]
pub enum RegistryRemoval {
    KeyTree { root: RegistryRoot, key: String },
    Value { root: RegistryRoot, key: String, name: String },
}

/// A write as plain values.
pub open spec fn write_view(w: RegistryWrite) -> (RegistryRoot, Seq<char>, Seq<char>, Seq<char>) {
    (w.root, w.key@, w.name@, w.value@)
}

/// A removal as plain values: root, key, and the value name for a value removal.
pub open spec fn removal_view(r: RegistryRemoval) -> (RegistryRoot, Seq<char>, Option<Seq<char>>) {
    match r {
        RegistryRemoval::KeyTree { root, key } => (root, key@, None),
        RegistryRemoval::Value { root, key, name } => (root, key@, Some(name@)),
    }
}

/// The program identifier the player registers.
pub open spec fn prog_id() -> Seq<char> {
    "JustMusic.AudioFile"@
}

/// The `i`-th supported extension.
pub open spec fn supported_extension(i: int) -> Seq<char> {
    if i == 0 {
        "mp3"@
    } else if i == 1 {
        "flac"@
    } else if i == 2 {
        "wav"@
    } else if i == 3 {
        "ogg"@
    } else if i == 4 {
        "m4a"@
    } else if i == 5 {
        "aac"@
    } else if i == 6 {
        "opus"@
    } else if i == 7 {
        "wma"@
    } else {
        "aiff"@
    }
}

/// The number of supported extensions.
pub const EXTENSION_COUNT: usize = 9;

fn extension_at(i: usize) -> (e: &'static str)
    requires
        i < EXTENSION_COUNT,
    ensures
        e@ == supported_extension(i as int),
{
    if i == 0 {
        "mp3"
    } else if i == 1 {
        "flac"
    } else if i == 2 {
        "wav"
    } else if i == 3 {
        "ogg"
    } else if i == 4 {
        "m4a"
    } else if i == 5 {
        "aac"
    } else if i == 6 {
        "opus"
    } else if i == 7 {
        "wma"
    } else {
        "aiff"
    }
}

/// The number of writes in a registration.
pub const REGISTRATION_LEN: usize = 34;

/// The number of removals in an unregistration.
pub const UNREGISTRATION_LEN: usize = 12;

/// The `j`-th write of a registration for the executable at `exe`, in order:
/// the program identifier with its name, icon and open command; for each
/// extension, the identifier as its handler and as an "open with" choice;
/// the application's capabilities with its file associations; and its entry
/// among the registered applications.
pub open spec fn registration_entry(exe: Seq<char>, j: int) -> (RegistryRoot, Seq<char>, Seq<char>, Seq<char>) {
    let classes = RegistryRoot::UserClasses;
    let software = RegistryRoot::UserSoftware;
    if j == 0 {
        (classes, prog_id(), ""@, "Just Music Audio File"@)
    } else if j == 1 {
        (classes, prog_id(), "FriendlyTypeName"@, "Just Music Audio File"@)
    } else if j == 2 {
        (classes, prog_id() + "\\DefaultIcon"@, ""@, "\""@ + exe + "\",0"@)
    } else if j == 3 {
        (classes, prog_id() + "\\shell\\open\\command"@, ""@, "\""@ + exe + "\" \"%1\""@)
    } else if j < 4 + 2 * EXTENSION_COUNT {
        let ext = supported_extension((j - 4) / 2);
        if (j - 4) % 2 == 0 {
            (classes, "."@ + ext, ""@, prog_id())
        } else {
            (classes, "."@ + ext + "\\OpenWithProgids"@, prog_id(), ""@)
        }
    } else if j == 4 + 2 * EXTENSION_COUNT {
        (software, "JustMusic\\Capabilities"@, "ApplicationName"@, "Just Music"@)
    } else if j == 5 + 2 * EXTENSION_COUNT {
        (software, "JustMusic\\Capabilities"@, "ApplicationDescription"@, "Just Music High-Fidelity Audio Player"@)
    } else if j < 6 + 3 * EXTENSION_COUNT {
        (
            software,
            "JustMusic\\Capabilities\\FileAssociations"@,
            "."@ + supported_extension(j - (6 + 2 * EXTENSION_COUNT)),
            prog_id(),
        )
    } else {
        (software, "RegisteredApplications"@, "JustMusic"@, "Software\\JustMusic\\Capabilities"@)
    }
}

/// The writes of a registration for the executable at `exe`.
pub open spec fn registration_writes(exe: Seq<char>) -> Seq<(RegistryRoot, Seq<char>, Seq<char>, Seq<char>)> {
    Seq::new(REGISTRATION_LEN as nat, |j: int| registration_entry(exe, j))
}

/// The `j`-th removal that undoes a registration: the program identifier's
/// key; the identifier among each extension's "open with" choices; the
/// application's key; and its entry among the registered applications.
pub open spec fn unregistration_entry(j: int) -> (RegistryRoot, Seq<char>, Option<Seq<char>>) {
    if j == 0 {
        (RegistryRoot::UserClasses, prog_id(), None)
    } else if j < 1 + EXTENSION_COUNT {
        (RegistryRoot::UserClasses, "."@ + supported_extension(j - 1) + "\\OpenWithProgids"@, Some(prog_id()))
    } else if j == 1 + EXTENSION_COUNT {
        (RegistryRoot::UserSoftware, "JustMusic"@, None)
    } else {
        (RegistryRoot::UserSoftware, "RegisteredApplications"@, Some("JustMusic"@))
    }
}

/// The removals that undo a registration, in order.
pub open spec fn unregistration_removals() -> Seq<(RegistryRoot, Seq<char>, Option<Seq<char>>)> {
    Seq::new(UNREGISTRATION_LEN as nat, |j: int| unregistration_entry(j))
}

fn write(root: RegistryRoot, key: String, name: String, value: String) -> (w: RegistryWrite)
    ensures
        write_view(w) == (root, key@, name@, value@),
{
    RegistryWrite { root, key, name, value }
}

fn owned(s: &str) -> (r: String)
    ensures
        r@ == s@,
{
    String::from_str(s)
}

/// Registers and unregisters the player's file associations.
pub struct AssociationManager;

impl AssociationManager {
    /// The file extensions the player registers for.
    pub const SUPPORTED_EXTENSIONS: [&'static str; 9] = [
        "mp3",
        "flac",
        "wav",
        "ogg",
        "m4a",
        "aac",
        "opus",
        "wma",
        "aiff",
    ];

    /// The registry writes that register the executable at `exe_path` (see
    /// [`registration_entry`]).
    pub fn registration_plan(exe_path: &str) -> (plan: Vec<RegistryWrite>)
        ensures
            plan@.map_values(|w: RegistryWrite| write_view(w)) == registration_writes(exe_path@),
    {
        let classes = RegistryRoot::UserClasses;
        let software = RegistryRoot::UserSoftware;
        let prog = "JustMusic.AudioFile";
        let mut plan: Vec<RegistryWrite> = Vec::new();
        plan.push(write(classes, owned(prog), owned(""), owned("Just Music Audio File")));
        plan.push(write(classes, owned(prog), owned("FriendlyTypeName"), owned("Just Music Audio File")));
        plan.push(
            write(
                classes,
                owned(prog).concat("\\DefaultIcon"),
                owned(""),
                owned("\"").concat(exe_path).concat("\",0"),
            ),
        );
        plan.push(
            write(
                classes,
                owned(prog).concat("\\shell\\open\\command"),
                owned(""),
                owned("\"").concat(exe_path).concat("\" \"%1\""),
            ),
        );
        let mut i: usize = 0;
        while i < EXTENSION_COUNT
            invariant
                i <= EXTENSION_COUNT,
                plan@.len() == 4 + 2 * i,
                classes == RegistryRoot::UserClasses,
                prog@ == prog_id(),
                forall|j: int| 0 <= j < plan@.len() ==> write_view(#[trigger] plan@[j]) == registration_entry(exe_path@, j),
            decreases EXTENSION_COUNT - i,
        {
            let ext = extension_at(i);
            plan.push(write(classes, owned(".").concat(ext), owned(""), owned(prog)));
            plan.push(write(classes, owned(".").concat(ext).concat("\\OpenWithProgids"), owned(prog), owned("")));
            proof {
                let a = 4 + 2 * i;
                assert((a - 4) / 2 == i && (a - 4) % 2 == 0);
                assert((a + 1 - 4) / 2 == i && (a + 1 - 4) % 2 == 1);
                assert(write_view(plan@[a]) == registration_entry(exe_path@, a));
                assert(write_view(plan@[a + 1]) == registration_entry(exe_path@, a + 1));
            }
            i = i + 1;
        }
        plan.push(write(software, owned("JustMusic\\Capabilities"), owned("ApplicationName"), owned("Just Music")));
        plan.push(
            write(
                software,
                owned("JustMusic\\Capabilities"),
                owned("ApplicationDescription"),
                owned("Just Music High-Fidelity Audio Player"),
            ),
        );
        let mut k: usize = 0;
        while k < EXTENSION_COUNT
            invariant
                k <= EXTENSION_COUNT,
                plan@.len() == 6 + 2 * EXTENSION_COUNT + k,
                software == RegistryRoot::UserSoftware,
                prog@ == prog_id(),
                forall|j: int| 0 <= j < plan@.len() ==> write_view(#[trigger] plan@[j]) == registration_entry(exe_path@, j),
            decreases EXTENSION_COUNT - k,
        {
            let ext = extension_at(k);
            plan.push(
                write(
                    software,
                    owned("JustMusic\\Capabilities\\FileAssociations"),
                    owned(".").concat(ext),
                    owned(prog),
                ),
            );
            assert(write_view(plan@[6 + 2 * EXTENSION_COUNT + k]) == registration_entry(
                exe_path@,
                6 + 2 * EXTENSION_COUNT + k,
            ));
            k = k + 1;
        }
        plan.push(
            write(
                software,
                owned("RegisteredApplications"),
                owned("JustMusic"),
                owned("Software\\JustMusic\\Capabilities"),
            ),
        );
        assert(plan@.map_values(|w: RegistryWrite| write_view(w)) =~= registration_writes(exe_path@));
        plan
    }

    /// The registry removals that undo a registration (see [`unregistration_entry`]).
    pub fn unregistration_plan() -> (plan: Vec<RegistryRemoval>)
        ensures
            plan@.map_values(|r: RegistryRemoval| removal_view(r)) == unregistration_removals(),
    {
        let prog = "JustMusic.AudioFile";
        let mut plan: Vec<RegistryRemoval> = Vec::new();
        plan.push(RegistryRemoval::KeyTree { root: RegistryRoot::UserClasses, key: owned(prog) });
        let mut i: usize = 0;
        while i < EXTENSION_COUNT
            invariant
                i <= EXTENSION_COUNT,
                plan@.len() == 1 + i,
                prog@ == prog_id(),
                forall|j: int| 0 <= j < plan@.len() ==> removal_view(#[trigger] plan@[j]) == unregistration_entry(j),
            decreases EXTENSION_COUNT - i,
        {
            let ext = extension_at(i);
            plan.push(
                RegistryRemoval::Value {
                    root: RegistryRoot::UserClasses,
                    key: owned(".").concat(ext).concat("\\OpenWithProgids"),
                    name: owned(prog),
                },
            );
            assert(removal_view(plan@[1 + i]) == unregistration_entry(1 + i));
            i = i + 1;
        }
        plan.push(RegistryRemoval::KeyTree { root: RegistryRoot::UserSoftware, key: owned("JustMusic") });
        plan.push(
            RegistryRemoval::Value {
                root: RegistryRoot::UserSoftware,
                key: owned("RegisteredApplications"),
                name: owned("JustMusic"),
            },
        );
        assert(plan@.map_values(|r: RegistryRemoval| removal_view(r)) =~= unregistration_removals());
        plan
    }

    /// Registers the player for the supported extensions; without a system
    /// registry this succeeds without doing anything.
    pub fn register_all() -> (r: Result<(), String>)
        ensures
            r is Ok,
    {
        Ok(())
    }

    /// Removes the player's registrations; without a system registry this
    /// succeeds without doing anything.
    pub fn unregister_all() -> (r: Result<(), String>)
        ensures
            r is Ok,
    {
        Ok(())
    }
}

} // verus!
