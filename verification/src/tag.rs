//! Lightweight git tags for the pubspec version: deciding the tag names
//! from the parsed version, checking which already exist, and creating or
//! force-recreating the preferred one at the repository head.
//!
//! The repository itself is only reached through a few trusted calls into
//! the git library; every decision around them is verified.

use vstd::prelude::*;

use crate::version::{
    parse_version, read_pubspec_version, semver_parse, spec_read_pubspec_version, spec_tag_base,
    tag_base, Version,
};

verus! {

/// The git repository handle of the git library, carried through opaquely.
#[verifier::external_type_specification]
#[verifier::external_body]
pub struct ExRepository(gix::Repository);

/// The object identifier of the git library, carried through opaquely.
#[verifier::external_type_specification]
#[verifier::external_body]
pub struct ExObjectId(gix::ObjectId);

/// How talking to the repository can fail.
#[derive(Debug)]
pub enum GitError {
    /// A reference lookup failed.
    Lookup,
    /// A reference could not be deleted.
    Delete,
    /// The tag could not be created; carries the tag name and the
    /// library's message.
    Create { tag: String, message: String },
}

/// Relies on `gix::discover` to find the repository enclosing `dir`;
/// absent means none was found or it could not be opened.
#[verifier::external_body]
fn discover_repo(dir: &str) -> (r: Option<gix::Repository>)
{
    gix::discover(dir).ok()
}

/// Relies on `gix::Repository::try_find_reference`: whether the reference
/// with this full name exists.
#[verifier::external_body]
fn find_reference_exists(repo: &gix::Repository, full_name: &str) -> (r: Result<bool, GitError>)
{
    match repo.try_find_reference(full_name) {
        Ok(found) => Ok(found.is_some()),
        Err(_) => Err(GitError::Lookup),
    }
}

/// Relies on `gix::Repository::head_id` for the fully peeled head commit;
/// the error covers an unborn head.
#[verifier::external_body]
fn head_commit_id(repo: &gix::Repository) -> (r: Option<gix::ObjectId>)
{
    match repo.head_id() {
        Ok(id) => Some(id.detach()),
        Err(_) => None,
    }
}

/// Relies on `gix::Repository::tag_reference` to create a lightweight tag
/// at `target`, refusing an existing tag unless overwriting is asked for.
#[verifier::external_body]
fn create_tag_reference(
    repo: &gix::Repository,
    name: &str,
    target: &gix::ObjectId,
    overwrite: bool,
) -> (r: Result<(), String>)
{
    let constraint = if overwrite {
        gix::refs::transaction::PreviousValue::Any
    } else {
        gix::refs::transaction::PreviousValue::MustNotExist
    };
    match repo.tag_reference(name, *target, constraint) {
        Ok(_) => Ok(()),
        Err(e) => Err(e.to_string()),
    }
}

/// Relies on `gix::Repository::try_find_reference` and
/// `gix::Reference::delete`: removes the reference with this full name if
/// it exists, and says whether it did.
#[verifier::external_body]
fn delete_reference_if_exists(repo: &gix::Repository, full_name: &str) -> (r: Result<
    bool,
    GitError,
>)
{
    match repo.try_find_reference(full_name) {
        Ok(Some(reference)) => match reference.delete() {
            Ok(()) => Ok(true),
            Err(_) => Err(GitError::Delete),
        },
        Ok(None) => Ok(false),
        Err(_) => Err(GitError::Lookup),
    }
}

/// The full reference name of a tag.
pub open spec fn spec_tag_ref_name(tag: Seq<char>) -> Seq<char> {
    "refs/tags/"@ + tag
}

fn tag_ref_name(tag: &str) -> (r: String)
    ensures
        r@ == spec_tag_ref_name(tag@),
{
    let mut s = "refs/tags/".to_owned();
    s.append(tag);
    s
}

/// Whether a tag with this name exists in the repository.
pub fn tag_exists(repo: &gix::Repository, tag: &str) -> (r: Result<bool, GitError>)
{
    let full = tag_ref_name(tag);
    find_reference_exists(repo, full.as_str())
}

/// Whether created tags carry a leading `v`.
#[derive(Clone, Copy, PartialEq, Eq, Structural, Debug)]
pub enum TagPrefix {
    V,
    Plain,
}

/// The tag name the caller prefers for a version's tag base.
pub open spec fn spec_preferred_tag(prefix: TagPrefix, base: Seq<char>) -> Seq<char> {
    match prefix {
        TagPrefix::V => seq!['v'] + base,
        TagPrefix::Plain => base,
    }
}

fn v_tag_of(base: &str) -> (r: String)
    ensures
        r@ == seq!['v'] + base@,
{
    proof {
        reveal_strlit("v");
        assert("v"@ =~= seq!['v']);
    }
    let mut s = "v".to_owned();
    s.append(base);
    s
}

/// What tagging the current version came to.
pub enum EnsureTagOutcome {
    /// The starting directory lies in no git repository; the tag step is
    /// skipped.
    NotARepository,
    /// The manifest declares no version; the tag step is skipped.
    NoVersion,
    /// The declared version is no semantic version; the tag step is
    /// skipped. Carries the value found and the parser's message.
    InvalidVersion { found: String, message: String },
    /// A tag for the version already exists under either convention;
    /// carries the version and both names that were checked.
    AlreadyTagged { version: String, tag_plain: String, tag_v: String },
    /// The repository has no commits yet; nothing to point a tag at.
    NoCommits,
    /// The preferred tag was created at the head; carries its name and
    /// the version it stands for.
    Created { tag: String, version: String },
}

/// Makes sure the version the manifest text declares is tagged: reads and
/// parses the version, skips when a tag under either convention already
/// exists, and otherwise creates the preferred tag at the head.
pub fn ensure_current_version_tag(start_dir: &str, content: &str, tag_prefix: TagPrefix)
    -> (r: Result<EnsureTagOutcome, GitError>)
    ensures
        match r {
            Ok(outcome) => match outcome {
                EnsureTagOutcome::NotARepository => true,
                EnsureTagOutcome::NoVersion => spec_read_pubspec_version(content@) is None,
                EnsureTagOutcome::InvalidVersion { found, message } => spec_read_pubspec_version(
                    content@,
                ) == Some(found@) && semver_parse(found@) is None,
                EnsureTagOutcome::AlreadyTagged { version, tag_plain, tag_v } => {
                    &&& spec_read_pubspec_version(content@) == Some(version@)
                    &&& (semver_parse(version@) matches Some(v) && tag_plain@ == spec_tag_base(v)
                        && tag_v@ == seq!['v'] + spec_tag_base(v))
                },
                EnsureTagOutcome::NoCommits => spec_read_pubspec_version(content@) is Some
                    && semver_parse(spec_read_pubspec_version(content@)->0) is Some,
                EnsureTagOutcome::Created { tag, version } => {
                    &&& spec_read_pubspec_version(content@) == Some(version@)
                    &&& (semver_parse(version@) matches Some(v) && tag@ == spec_preferred_tag(
                        tag_prefix,
                        spec_tag_base(v),
                    ))
                },
            },
            Err(_) => true,
        },
{
    let repo = match discover_repo(start_dir) {
        Some(r) => r,
        None => {
            return Ok(EnsureTagOutcome::NotARepository);
        },
    };
    let repo = &repo;
    let version_str = match read_pubspec_version(content) {
        Some(v) => v,
        None => {
            return Ok(EnsureTagOutcome::NoVersion);
        },
    };
    let parsed: Version = match parse_version(version_str.as_str()) {
        Ok(v) => v,
        Err(message) => {
            return Ok(EnsureTagOutcome::InvalidVersion { found: version_str, message });
        },
    };
    let tag_plain = tag_base(&parsed);
    let tag_v = v_tag_of(tag_plain.as_str());
    let plain_there = match tag_exists(repo, tag_plain.as_str()) {
        Ok(b) => b,
        Err(e) => {
            return Err(e);
        },
    };
    let v_there = match tag_exists(repo, tag_v.as_str()) {
        Ok(b) => b,
        Err(e) => {
            return Err(e);
        },
    };
    if plain_there || v_there {
        return Ok(
            EnsureTagOutcome::AlreadyTagged { version: version_str, tag_plain, tag_v },
        );
    }
    let head = match head_commit_id(repo) {
        Some(id) => id,
        None => {
            return Ok(EnsureTagOutcome::NoCommits);
        },
    };
    let preferred = match tag_prefix {
        TagPrefix::V => tag_v,
        TagPrefix::Plain => tag_plain,
    };
    match create_tag_reference(repo, preferred.as_str(), &head, false) {
        Ok(()) => Ok(EnsureTagOutcome::Created { tag: preferred, version: version_str }),
        Err(message) => Err(GitError::Create { tag: preferred, message }),
    }
}

/// What the tagging command came to.
pub enum TagCommandOutcome {
    /// The starting directory lies in no git repository.
    NotARepository,
    /// The manifest declares no version.
    NoVersion,
    /// The declared version is no semantic version.
    InvalidVersion { found: String, message: String },
    /// The bare-name tag already exists and overwriting was not asked
    /// for; `wanted_v_note` says the caller preferred the `v` name and
    /// that name is still absent.
    PlainExists { tag_plain: String, wanted_v_note: bool },
    /// The `v` tag already exists and overwriting was not asked for;
    /// `wanted_plain_note` says the caller preferred the bare name.
    VExists { tag_v: String, wanted_plain_note: bool },
    /// The repository has no commits yet.
    NoCommits,
    /// The preferred tag was created; says which existing tags were
    /// deleted first.
    Created { tag: String, version: String, deleted_plain: bool, deleted_v: bool },
}

/// Tags the current version, optionally force-recreating existing tags:
/// without force an existing tag under either convention stops the
/// command; with force both conventions' tags are deleted first and the
/// preferred one is recreated at the head.
pub fn tag_current_version(
    start_dir: &str,
    content: &str,
    tag_prefix: TagPrefix,
    force: bool,
) -> (r: Result<TagCommandOutcome, GitError>)
    ensures
        match r {
            Ok(outcome) => match outcome {
                TagCommandOutcome::NotARepository => true,
                TagCommandOutcome::NoVersion => spec_read_pubspec_version(content@) is None,
                TagCommandOutcome::InvalidVersion { found, message } => spec_read_pubspec_version(
                    content@,
                ) == Some(found@) && semver_parse(found@) is None,
                TagCommandOutcome::PlainExists { tag_plain, wanted_v_note } => {
                    &&& !force
                    &&& spec_read_pubspec_version(content@) is Some
                    &&& (semver_parse(spec_read_pubspec_version(content@)->0) matches Some(v)
                        && tag_plain@ == spec_tag_base(v))
                },
                TagCommandOutcome::VExists { tag_v, wanted_plain_note } => {
                    &&& !force
                    &&& wanted_plain_note == (tag_prefix == TagPrefix::Plain)
                    &&& spec_read_pubspec_version(content@) is Some
                    &&& (semver_parse(spec_read_pubspec_version(content@)->0) matches Some(v)
                        && tag_v@ == seq!['v'] + spec_tag_base(v))
                },
                TagCommandOutcome::NoCommits => spec_read_pubspec_version(content@) is Some
                    && semver_parse(spec_read_pubspec_version(content@)->0) is Some,
                TagCommandOutcome::Created { tag, version, deleted_plain, deleted_v } => {
                    &&& spec_read_pubspec_version(content@) == Some(version@)
                    &&& (semver_parse(version@) matches Some(v) && tag@ == spec_preferred_tag(
                        tag_prefix,
                        spec_tag_base(v),
                    ))
                    &&& ((deleted_plain || deleted_v) ==> force)
                },
            },
            Err(_) => true,
        },
{
    let repo = match discover_repo(start_dir) {
        Some(r) => r,
        None => {
            return Ok(TagCommandOutcome::NotARepository);
        },
    };
    let repo = &repo;
    let version_str = match read_pubspec_version(content) {
        Some(v) => v,
        None => {
            return Ok(TagCommandOutcome::NoVersion);
        },
    };
    let parsed: Version = match parse_version(version_str.as_str()) {
        Ok(v) => v,
        Err(message) => {
            return Ok(TagCommandOutcome::InvalidVersion { found: version_str, message });
        },
    };
    let tag_plain = tag_base(&parsed);
    let tag_v = v_tag_of(tag_plain.as_str());
    let mut deleted_plain = false;
    let mut deleted_v = false;
    let plain_there = match tag_exists(repo, tag_plain.as_str()) {
        Ok(b) => b,
        Err(e) => {
            return Err(e);
        },
    };
    if plain_there {
        if force {
            let full = tag_ref_name(tag_plain.as_str());
            match delete_reference_if_exists(repo, full.as_str()) {
                Ok(d) => {
                    deleted_plain = d;
                },
                Err(e) => {
                    return Err(e);
                },
            }
        } else {
            let v_there = match tag_exists(repo, tag_v.as_str()) {
                Ok(b) => b,
                Err(e) => {
                    return Err(e);
                },
            };
            let wanted_v_note = match tag_prefix {
                TagPrefix::V => !v_there,
                TagPrefix::Plain => false,
            };
            return Ok(TagCommandOutcome::PlainExists { tag_plain, wanted_v_note });
        }
    }
    let v_there = match tag_exists(repo, tag_v.as_str()) {
        Ok(b) => b,
        Err(e) => {
            return Err(e);
        },
    };
    if v_there {
        if force {
            let full = tag_ref_name(tag_v.as_str());
            match delete_reference_if_exists(repo, full.as_str()) {
                Ok(d) => {
                    deleted_v = d;
                },
                Err(e) => {
                    return Err(e);
                },
            }
        } else {
            let wanted_plain_note = match tag_prefix {
                TagPrefix::V => false,
                TagPrefix::Plain => true,
            };
            return Ok(TagCommandOutcome::VExists { tag_v, wanted_plain_note });
        }
    }
    let head = match head_commit_id(repo) {
        Some(id) => id,
        None => {
            return Ok(TagCommandOutcome::NoCommits);
        },
    };
    let preferred = match tag_prefix {
        TagPrefix::V => tag_v,
        TagPrefix::Plain => tag_plain,
    };
    match create_tag_reference(repo, preferred.as_str(), &head, force) {
        Ok(()) => Ok(
            TagCommandOutcome::Created { tag: preferred, version: version_str, deleted_plain, deleted_v },
        ),
        Err(message) => Err(GitError::Create { tag: preferred, message }),
    }
}

} // verus!
