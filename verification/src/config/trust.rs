//! Which files are trusted: their paths, owners, modes and access lists.
use crate::config::error::ConfigError;
use crate::config::path::FilePath;
use crate::storage;
use vstd::prelude::*;

verus! {

/// The most bytes that a configuration file has.
pub const MAX_CONFIG_BYTES: u64 = 1024 * 1024;

/// How much a file is trusted with.
#[derive(Clone, Copy, Debug, PartialEq, Eq, Structural)]
pub enum TrustedFileMode {
    /// Others may read it, and only its owner may write it.
    SharedReadable,
    /// Only its owner may read or write it.
    OwnerOnly,
    /// It belongs to the system, and others may read it.
    SystemOwned,
}

// ---------------------------------------------------------------------------
// Unix
// ---------------------------------------------------------------------------

/// Why the owner or the mode of a file or directory is refused, if it is.
pub open spec fn owner_refusal(path: FilePath, owner: u32, current: u32, mode: u32) -> Option<ConfigError> {
    if owner != 0 && owner != current {
        Some(ConfigError::WrongOwner { path, owner })
    } else if mode & 0o022 != 0 {
        Some(ConfigError::InsecurePermissions { path, mode: mode & 0o7777 })
    } else {
        None
    }
}

/// Checks that a file or directory belongs to root or the current user, and that nobody
/// else may write it.
pub fn verify_owner_and_mode(path: &FilePath, owner: u32, current: u32, mode: u32) -> (result: Result<(), ConfigError>)
    ensures
        match owner_refusal(*path, owner, current, mode) {
            Some(error) => result == Err::<(), ConfigError>(error),
            None => result is Ok,
        },
{
    if owner != 0 && owner != current {
        return Err(ConfigError::WrongOwner { path: path.clone(), owner });
    }
    if mode & 0o022 != 0 {
        return Err(ConfigError::InsecurePermissions { path: path.clone(), mode: mode & 0o7777 });
    }
    Ok(())
}

/// What the system says of an opened file.
#[derive(Clone, Copy, Debug, PartialEq, Eq, Structural)]
pub struct FileFacts {
    /// Whether it is a regular file.
    pub regular: bool,
    /// Its owner.
    pub owner: u32,
    /// Its permission mode.
    pub mode: u32,
    /// Its length.
    pub length: u64,
}

/// Why a trusted file is refused before it is read, if it is.
pub open spec fn file_refusal(
    path: FilePath,
    facts: FileFacts,
    current: u32,
    max_bytes: u64,
    mode: TrustedFileMode,
) -> Option<ConfigError> {
    if !path.absolute {
        Some(ConfigError::PathNotAbsolute)
    } else if !facts.regular {
        Some(ConfigError::NotRegularFile(path))
    } else {
        match owner_refusal(path, facts.owner, current, facts.mode) {
            Some(error) => Some(error),
            None => if mode == TrustedFileMode::OwnerOnly && facts.mode & 0o077 != 0 {
                Some(ConfigError::InsecurePermissions { path, mode: facts.mode & 0o7777 })
            } else if facts.length > max_bytes {
                Some(ConfigError::FileTooLarge(path))
            } else {
                None
            },
        }
    }
}

/// Checks an opened file before it is read.
pub fn verify_file(path: &FilePath, facts: FileFacts, current: u32, max_bytes: u64, mode: TrustedFileMode) -> (result:
    Result<(), ConfigError>)
    ensures
        match file_refusal(*path, facts, current, max_bytes, mode) {
            Some(error) => result == Err::<(), ConfigError>(error),
            None => result is Ok,
        },
{
    if !path.absolute {
        return Err(ConfigError::PathNotAbsolute);
    }
    if !facts.regular {
        return Err(ConfigError::NotRegularFile(path.clone()));
    }
    if let Err(error) = verify_owner_and_mode(path, facts.owner, current, facts.mode) {
        return Err(error);
    }
    if mode == TrustedFileMode::OwnerOnly && facts.mode & 0o077 != 0 {
        return Err(ConfigError::InsecurePermissions { path: path.clone(), mode: facts.mode & 0o7777 });
    }
    if facts.length > max_bytes {
        return Err(ConfigError::FileTooLarge(path.clone()));
    }
    Ok(())
}

/// Takes what was read of a trusted file, unless it grew beyond its limit meanwhile.
pub fn accept_contents(path: &FilePath, bytes: Vec<u8>, max_bytes: u64) -> (result: Result<Vec<u8>, ConfigError>)
    ensures
        if bytes@.len() > max_bytes {
            result == Err::<Vec<u8>, ConfigError>(ConfigError::FileTooLarge(*path))
        } else {
            result == Ok::<Vec<u8>, ConfigError>(bytes)
        },
{
    if bytes.len() as u64 > max_bytes {
        return Err(ConfigError::FileTooLarge(path.clone()));
    }
    Ok(bytes)
}

/// The bits of a mode by which the group or others may write.
proof fn lemma_write_bits(mode: u32)
    ensures
        mode & 0o077 == 0 ==> mode & 0o022 == 0,
{
    assert(mode & 0o077 == 0 ==> mode & 0o022 == 0) by (bit_vector);
}

/// An accepted file belongs to root or to the current user, and its group and others may
/// not write it. Where it is for its owner only, they have no right at all.
pub proof fn law_accepted_file_is_private(
    path: FilePath,
    facts: FileFacts,
    current: u32,
    max_bytes: u64,
    mode: TrustedFileMode,
)
    requires
        file_refusal(path, facts, current, max_bytes, mode) is None,
    ensures
        facts.owner == 0 || facts.owner == current,
        facts.mode & 0o022 == 0,
        mode == TrustedFileMode::OwnerOnly ==> facts.mode & 0o077 == 0,
        facts.regular && facts.length <= max_bytes,
{
    lemma_write_bits(facts.mode);
}

/// The names that a path walks through, or none where it has a parent component. `part` is
/// what was read of the current name.
pub open spec fn names_in(text: Seq<char>, part: Seq<char>) -> Option<Seq<Seq<char>>>
    decreases text.len(),
{
    let own = if part.len() == 0 || part == seq!['.'] {
        Seq::empty()
    } else {
        seq![part]
    };
    if text.len() == 0 || text[0] == '/' {
        if part == seq!['.', '.'] {
            None
        } else if text.len() == 0 {
            Some(own)
        } else {
            match names_in(text.skip(1), Seq::empty()) {
                Some(rest) => Some(own + rest),
                None => None,
            }
        }
    } else {
        names_in(text.skip(1), part.push(text[0]))
    }
}

/// The names that lie at some places of a text.
pub open spec fn at_places(text: Seq<char>, places: Seq<(usize, usize)>) -> Seq<Seq<char>> {
    Seq::new(places.len(), |index: int| text.subrange(places[index].0 as int, places[index].1 as int))
}

/// Where the names lie that a path walks through, the directories first and the file
/// last. A path with a parent component, or without a name, is not opened.
pub fn secure_names(text: &[char]) -> (result: Result<Vec<(usize, usize)>, ConfigError>)
    ensures
        match names_in(text@, Seq::empty()) {
            Some(names) if names.len() > 0 => {
                &&& result matches Ok(places)
                &&& at_places(text@, places@) == names
                &&& forall|index: int|
                    0 <= index < places@.len() ==> (#[trigger] places@[index]).0 <= places@[index].1 <= text@.len()
            },
            _ => result == Err::<Vec<(usize, usize)>, ConfigError>(ConfigError::SecureOpen),
        },
{
    let mut places: Vec<(usize, usize)> = Vec::new();
    let mut start: usize = 0;
    let mut at: usize = 0;
    assert(text@.skip(0) =~= text@);
    assert(text@.subrange(0, 0) =~= Seq::empty());
    assert(at_places(text@, places@) =~= Seq::empty());
    proof {
        if let Some(names) = names_in(text@, Seq::empty()) {
            assert(at_places(text@, places@) + names =~= names);
        }
    }
    loop
        invariant_except_break
            start <= at <= text@.len(),
            forall|index: int|
                0 <= index < places@.len() ==> (#[trigger] places@[index]).0 <= places@[index].1 <= text@.len(),
            names_in(text@, Seq::empty()) == (match names_in(
                text@.skip(at as int),
                text@.subrange(start as int, at as int),
            ) {
                Some(rest) => Some(at_places(text@, places@) + rest),
                None => None,
            }),
        ensures
            start <= text@.len(),
            forall|index: int|
                0 <= index < places@.len() ==> (#[trigger] places@[index]).0 <= places@[index].1 <= text@.len(),
            names_in(text@, Seq::empty()) == Some(at_places(text@, places@)),
        decreases text@.len() - at + 1,
    {
        let ghost rest = text@.skip(at as int);
        let ghost part = text@.subrange(start as int, at as int);
        let ended: bool = at >= text.len();
        if ended || text[at] == '/' {
            let length: usize = at - start;
            if length == 2 && text[start] == '.' && text[start + 1] == '.' {
                assert(part =~= seq!['.', '.']);
                return Err(ConfigError::SecureOpen);
            }
            proof {
                assert(part.len() == length);
                assert(length == 2 && part[0] == text@[start as int] && part[1] == text@[start + 1] ==> part != seq![
                    '.',
                    '.',
                ]);
                if part == seq!['.', '.'] {
                    assert(part[0] == '.' && part[1] == '.');
                }
            }
            let ghost before = at_places(text@, places@);
            let skipped: bool = length == 0 || (length == 1 && text[start] == '.');
            proof {
                if length == 1 && text@[start as int] == '.' {
                    assert(part =~= seq!['.']);
                }
                if part == seq!['.'] {
                    assert(part[0] == '.');
                }
            }
            if !skipped {
                places.push((start, at));
            }
            proof {
                let own = if skipped {
                    Seq::empty()
                } else {
                    seq![part]
                };
                assert(at_places(text@, places@) =~= before + own);
                if ended {
                    assert(rest.len() == 0);
                    assert(names_in(rest, part) == Some(own));
                } else {
                    assert(rest[0] == '/');
                    assert(rest.skip(1) =~= text@.skip(at + 1));
                    assert(text@.subrange(at + 1, at + 1) =~= Seq::empty());
                    if let Some(tail) = names_in(rest.skip(1), Seq::empty()) {
                        assert(before + (own + tail) =~= at_places(text@, places@) + tail);
                    }
                }
            }
            if ended {
                break;
            }
            at = at + 1;
            start = at;
        } else {
            assert(rest.skip(1) =~= text@.skip(at + 1));
            assert(part.push(rest[0]) =~= text@.subrange(start as int, at + 1));
            at = at + 1;
        }
    }
    if places.len() == 0 {
        return Err(ConfigError::SecureOpen);
    }
    Ok(places)
}

// ---------------------------------------------------------------------------
// Windows
// ---------------------------------------------------------------------------

/// The four bytes of a number, the low one first.
pub open spec fn le32(value: u32) -> Seq<u8> {
    seq![
        (value % 256) as u8,
        (value / 0x100 % 256) as u8,
        (value / 0x1_0000 % 256) as u8,
        (value / 0x100_0000) as u8,
    ]
}

/// Some numbers, each by its four bytes.
pub open spec fn le32s(values: Seq<u32>) -> Seq<u8>
    decreases values.len(),
{
    if values.len() == 0 {
        Seq::empty()
    } else {
        le32s(values.drop_last()) + le32(values.last())
    }
}

/// The bytes of a security identifier of the NT authority.
pub open spec fn nt_identifier(parts: Seq<u32>) -> Seq<u8> {
    seq![1u8, parts.len() as u8, 0, 0, 0, 0, 0, 5] + le32s(parts)
}

/// The identifier of the local system.
pub open spec fn local_system() -> Seq<u8> {
    nt_identifier(seq![18u32])
}

/// The identifier of the administrators.
pub open spec fn administrators() -> Seq<u8> {
    nt_identifier(seq![32u32, 544])
}

/// The identifier of the service that owns the system's files.
pub open spec fn trusted_installer() -> Seq<u8> {
    nt_identifier(seq![80u32, 956_008_885, 3_418_522_649, 1_831_038_044, 1_853_292_631, 2_271_478_464])
}

/// Whether a security identifier is one of the system's own.
pub open spec fn system_identifier(sid: Seq<u8>) -> bool {
    sid == local_system() || sid == administrators() || sid == trusted_installer()
}

fn nt_sid(parts: &[u32]) -> (sid: Vec<u8>)
    requires
        parts@.len() <= 15,
    ensures
        sid@ == nt_identifier(parts@),
{
    let mut sid: Vec<u8> = vec![1, parts.len() as u8, 0, 0, 0, 0, 0, 5];
    let mut at: usize = 0;
    assert(parts@.take(0) =~= Seq::empty());
    assert(sid@ =~= seq![1u8, parts@.len() as u8, 0, 0, 0, 0, 0, 5] + le32s(parts@.take(0)));
    while at < parts.len()
        invariant
            at <= parts@.len() <= 15,
            sid@ == seq![1u8, parts@.len() as u8, 0, 0, 0, 0, 0, 5] + le32s(parts@.take(at as int)),
        decreases parts@.len() - at,
    {
        let value: u32 = parts[at];
        sid.push((value % 256) as u8);
        sid.push((value / 0x100 % 256) as u8);
        sid.push((value / 0x1_0000 % 256) as u8);
        sid.push((value / 0x100_0000) as u8);
        proof {
            assert(parts@.take(at + 1).drop_last() =~= parts@.take(at as int));
            assert(parts@.take(at + 1).last() == value);
        }
        at = at + 1;
        assert(sid@ =~= seq![1u8, parts@.len() as u8, 0, 0, 0, 0, 0, 5] + le32s(parts@.take(at as int)));
    }
    assert(parts@.take(at as int) =~= parts@);
    sid
}

/// Whether a security identifier is that of the local system, of the administrators, or of
/// the service that owns the system's files.
pub fn is_windows_system_sid(sid: &[u8]) -> (system: bool)
    ensures
        system == system_identifier(sid@),
{
    let system: [u32; 1] = [18];
    let group: [u32; 2] = [32, 544];
    let installer: [u32; 6] = [80, 956_008_885, 3_418_522_649, 1_831_038_044, 1_853_292_631, 2_271_478_464];
    assert(system@ =~= seq![18u32]);
    assert(group@ =~= seq![32u32, 544]);
    assert(installer@ =~= seq![80u32, 956_008_885, 3_418_522_649, 1_831_038_044, 1_853_292_631, 2_271_478_464]);
    storage::equal(sid, nt_sid(&system).as_slice()) || storage::equal(sid, nt_sid(&group).as_slice())
        || storage::equal(sid, nt_sid(&installer).as_slice())
}

/// One entry of an access list.
#[derive(Debug)]
pub struct AccessEntry {
    /// The size of the entry in bytes.
    pub size: u16,
    /// Its flags.
    pub flags: u8,
    /// Its kind.
    pub kind: u8,
    /// The rights that it speaks of.
    pub mask: u32,
    /// Whose rights they are.
    pub sid: Vec<u8>,
}

/// What the system says of the owner and the access list of a file.
#[derive(Debug)]
pub struct FileSecurity {
    /// The owner of the file.
    pub owner: Vec<u8>,
    /// The user of this process.
    pub user: Vec<u8>,
    /// The access list, if the file has one.
    pub entries: Option<Vec<AccessEntry>>,
}

/// The rights by which a file or its protection is changed.
pub const WRITE_MASK: u32 = 0x500d_0156;

const INHERIT_ONLY: u8 = 0x08;

/// Whether an entry lets nobody do more than the mode allows: it is for other files, takes
/// rights away, or gives them to the owner or the system, or gives rights that do not
/// change the file and may be shared.
pub open spec fn entry_allowed(entry: AccessEntry, owner: Seq<u8>, mode: TrustedFileMode) -> bool {
    entry.size >= 4 && (entry.flags & 0x08 != 0 || entry.kind == 1 || entry.kind == 0 && entry.size >= 12 && (
    entry.sid@ == owner || system_identifier(entry.sid@) || mode != TrustedFileMode::OwnerOnly && entry.mask
        & WRITE_MASK == 0))
}

/// Whether a file may be trusted on Windows.
pub open spec fn security_trusted(security: FileSecurity, mode: TrustedFileMode) -> bool {
    &&& match mode {
        TrustedFileMode::SystemOwned => system_identifier(security.owner@),
        _ => security.owner@ == security.user@,
    }
    &&& security.entries matches Some(entries) && forall|index: int|
        0 <= index < entries@.len() ==> entry_allowed(#[trigger] entries@[index], security.owner@, mode)
}

/// Checks the owner and the access list of a file. `None` says that the system did not
/// tell them.
pub fn verify_owner_and_acl(path: &FilePath, security: Option<&FileSecurity>, mode: TrustedFileMode) -> (result: Result<
    (),
    ConfigError,
>)
    ensures
        if security matches Some(known) && security_trusted(*known, mode) {
            result is Ok
        } else {
            result == Err::<(), ConfigError>(ConfigError::InsecureAcl(*path))
        },
{
    let known: &FileSecurity = match security {
        Some(known) => known,
        None => return Err(ConfigError::InsecureAcl(path.clone())),
    };
    let owned: bool = match mode {
        TrustedFileMode::SystemOwned => is_windows_system_sid(known.owner.as_slice()),
        _ => storage::equal(known.owner.as_slice(), known.user.as_slice()),
    };
    if !owned {
        return Err(ConfigError::InsecureAcl(path.clone()));
    }
    let entries: &Vec<AccessEntry> = match &known.entries {
        Some(entries) => entries,
        None => return Err(ConfigError::InsecureAcl(path.clone())),
    };
    if entries_allowed(entries.as_slice(), known.owner.as_slice(), mode) {
        Ok(())
    } else {
        Err(ConfigError::InsecureAcl(path.clone()))
    }
}

fn entries_allowed(entries: &[AccessEntry], owner: &[u8], mode: TrustedFileMode) -> (allowed: bool)
    ensures
        allowed == (forall|index: int|
            0 <= index < entries@.len() ==> entry_allowed(#[trigger] entries@[index], owner@, mode)),
{
    let mut at: usize = 0;
    while at < entries.len()
        invariant
            at <= entries@.len(),
            forall|index: int| 0 <= index < at ==> entry_allowed(#[trigger] entries@[index], owner@, mode),
        decreases entries@.len() - at,
    {
        if !is_allowed(&entries[at], owner, mode) {
            return false;
        }
        at = at + 1;
    }
    true
}

fn is_allowed(entry: &AccessEntry, owner: &[u8], mode: TrustedFileMode) -> (allowed: bool)
    ensures
        allowed == entry_allowed(*entry, owner@, mode),
{
    if entry.size < 4 {
        return false;
    }
    if entry.flags & INHERIT_ONLY != 0 || entry.kind == 1 {
        return true;
    }
    if entry.kind != 0 || entry.size < 12 {
        return false;
    }
    let trusted: bool = storage::equal(entry.sid.as_slice(), owner) || is_windows_system_sid(entry.sid.as_slice());
    trusted || (mode != TrustedFileMode::OwnerOnly && entry.mask & WRITE_MASK == 0)
}

/// A trusted file gives nobody but its owner and the system a right to change it. Where it
/// is for its owner only, it gives nobody else any right.
pub proof fn law_trusted_file_is_not_changed_by_others(security: FileSecurity, mode: TrustedFileMode)
    requires
        security_trusted(security, mode),
    ensures
        security.entries matches Some(entries) && forall|index: int|
            0 <= index < entries@.len() && (#[trigger] entries@[index]).kind == 0 && entries@[index].flags & 0x08 == 0
                && entries@[index].sid@ != security.owner@ && !system_identifier(entries@[index].sid@)
                ==> entries@[index].mask & WRITE_MASK == 0 && mode != TrustedFileMode::OwnerOnly,
{
}

}
