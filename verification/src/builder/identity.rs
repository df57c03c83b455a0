//! What a build names after its derivation key, and what it publishes.

use vstd::prelude::*;
use vstd::utf8::{encode_utf8, encode_utf8_decode_utf8};

use crate::builder::plan::{
    deterministic_uuid, format_arguments, mke2fs_arguments, uuid_bytes, uuid_text,
};
use crate::digest::{digest_text, sha256_of, ArtifactDigest};
use crate::text::{join, texts};

verus! {

/// The stage that formats and fills the scratch filesystem.
pub const FORMAT_PAYLOAD_STAGE: &'static str = "format-payload";

/// The stage that formats the target filesystem.
pub const FORMAT_TARGET_STAGE: &'static str = "format-target";

/// The stage that checks the built target filesystem.
pub const CHECK_TARGET_STAGE: &'static str = "check-target";

pub const PAYLOAD_LABEL: &'static str = "pocket-input";

pub const TARGET_LABEL: &'static str = "pocket-root";

pub const PAYLOAD_UUID_DOMAIN: &'static str = "pocket-payload-ext4\0v1\0";

pub const PAYLOAD_SEED_DOMAIN: &'static str = "pocket-payload-directory-hash-seed\0v1\0";

pub const TARGET_UUID_DOMAIN: &'static str = "pocket-target-ext4\0v1\0";

pub const TARGET_SEED_DOMAIN: &'static str = "pocket-target-directory-hash-seed\0v1\0";

/// What is hashed for a name of a build.
pub open spec fn identity_input(domain: Seq<char>, derivation_key: Seq<u8>) -> Seq<u8> {
    encode_utf8(domain) + derivation_key
}

/// A name of a build, which its domain and its derivation key determine.
pub open spec fn build_uuid(domain: Seq<char>, derivation_key: Seq<u8>) -> Seq<char> {
    uuid_text(uuid_bytes(sha256_of(identity_input(domain, derivation_key))))
}

/// The names of a build's two filesystems and of their directory hashes.
#[derive(Debug, Clone)]
pub struct BuildIdentities {
    pub payload_uuid: String,
    pub payload_hash_seed: String,
    pub target_uuid: String,
    pub target_hash_seed: String,
}

/// Derives the names of a build.
pub fn build_identities(derivation_key: &[u8; 32]) -> (identities: BuildIdentities)
    ensures
        identities.payload_uuid@ == build_uuid(PAYLOAD_UUID_DOMAIN@, derivation_key@),
        identities.payload_hash_seed@ == build_uuid(PAYLOAD_SEED_DOMAIN@, derivation_key@),
        identities.target_uuid@ == build_uuid(TARGET_UUID_DOMAIN@, derivation_key@),
        identities.target_hash_seed@ == build_uuid(TARGET_SEED_DOMAIN@, derivation_key@),
{
    BuildIdentities {
        payload_uuid: deterministic_uuid(PAYLOAD_UUID_DOMAIN.as_bytes(), derivation_key),
        payload_hash_seed: deterministic_uuid(PAYLOAD_SEED_DOMAIN.as_bytes(), derivation_key),
        target_uuid: deterministic_uuid(TARGET_UUID_DOMAIN.as_bytes(), derivation_key),
        target_hash_seed: deterministic_uuid(TARGET_SEED_DOMAIN.as_bytes(), derivation_key),
    }
}

proof fn lemma_domains_keep_inputs_apart(left: Seq<char>, right: Seq<char>, key: Seq<u8>)
    requires
        left != right,
    ensures
        identity_input(left, key) != identity_input(right, key),
{
    encode_utf8_decode_utf8(left);
    encode_utf8_decode_utf8(right);
    let first = encode_utf8(left);
    let second = encode_utf8(right);
    assert(first != second);
    if first + key == second + key {
        assert((first + key).len() == first.len() + key.len());
        assert((second + key).len() == second.len() + key.len());
        assert(first =~= (first + key).take(first.len() as int));
        assert(second =~= (second + key).take(second.len() as int));
    }
}

/// No two names of a build are digests of the same bytes.
pub proof fn law_each_name_has_its_own_domain(derivation_key: Seq<u8>)
    ensures
        identity_input(PAYLOAD_UUID_DOMAIN@, derivation_key) != identity_input(
            PAYLOAD_SEED_DOMAIN@,
            derivation_key,
        ),
        identity_input(PAYLOAD_UUID_DOMAIN@, derivation_key) != identity_input(
            TARGET_UUID_DOMAIN@,
            derivation_key,
        ),
        identity_input(PAYLOAD_UUID_DOMAIN@, derivation_key) != identity_input(
            TARGET_SEED_DOMAIN@,
            derivation_key,
        ),
        identity_input(PAYLOAD_SEED_DOMAIN@, derivation_key) != identity_input(
            TARGET_UUID_DOMAIN@,
            derivation_key,
        ),
        identity_input(PAYLOAD_SEED_DOMAIN@, derivation_key) != identity_input(
            TARGET_SEED_DOMAIN@,
            derivation_key,
        ),
        identity_input(TARGET_UUID_DOMAIN@, derivation_key) != identity_input(
            TARGET_SEED_DOMAIN@,
            derivation_key,
        ),
{
    reveal_strlit("pocket-payload-ext4\0v1\0");
    reveal_strlit("pocket-payload-directory-hash-seed\0v1\0");
    reveal_strlit("pocket-target-ext4\0v1\0");
    reveal_strlit("pocket-target-directory-hash-seed\0v1\0");
    let payload_uuid = PAYLOAD_UUID_DOMAIN@;
    let payload_seed = PAYLOAD_SEED_DOMAIN@;
    let target_uuid = TARGET_UUID_DOMAIN@;
    let target_seed = TARGET_SEED_DOMAIN@;
    lemma_domains_keep_inputs_apart(payload_uuid, payload_seed, derivation_key);
    lemma_domains_keep_inputs_apart(payload_uuid, target_uuid, derivation_key);
    lemma_domains_keep_inputs_apart(payload_uuid, target_seed, derivation_key);
    lemma_domains_keep_inputs_apart(payload_seed, target_uuid, derivation_key);
    lemma_domains_keep_inputs_apart(payload_seed, target_seed, derivation_key);
    lemma_domains_keep_inputs_apart(target_uuid, target_seed, derivation_key);
}

/// The arguments that format the scratch filesystem and fill it with the
/// layout.
pub fn payload_format(image: &str, identities: &BuildIdentities, inodes: u64, layout: &str) -> (arguments:
    Vec<String>)
    ensures
        texts(arguments@) == format_arguments(
            image@,
            PAYLOAD_LABEL@,
            identities.payload_uuid@,
            identities.payload_hash_seed@,
            inodes as nat,
            Some(layout@),
        ),
{
    mke2fs_arguments(
        image,
        PAYLOAD_LABEL,
        &identities.payload_uuid,
        &identities.payload_hash_seed,
        inodes,
        Some(layout),
    )
}

/// The arguments that format the empty target filesystem.
pub fn target_format(image: &str, identities: &BuildIdentities, inodes: u64) -> (arguments: Vec<
    String,
>)
    ensures
        texts(arguments@) == format_arguments(
            image@,
            TARGET_LABEL@,
            identities.target_uuid@,
            identities.target_hash_seed@,
            inodes as nat,
            None,
        ),
{
    mke2fs_arguments(
        image,
        TARGET_LABEL,
        &identities.target_uuid,
        &identities.target_hash_seed,
        inodes,
        None,
    )
}

// ---------------------------------------------------------------------------
// Sidecars
// ---------------------------------------------------------------------------

/// How many sidecars a built generation has.
pub const SIDECAR_COUNT: usize = 7;

/// The sidecars of a built generation, in the order of their names.
pub open spec fn sidecar_names() -> Seq<Seq<char>> {
    seq![
        "accounts.cbor"@,
        "artifact.digest"@,
        "build-record.json"@,
        "build.log"@,
        "image-config.json"@,
        "metadata.manifest"@,
        "validation-evidence.cbor"@,
    ]
}

/// The name of the sidecar at a position.
pub fn sidecar_name(position: usize) -> (name: Option<&'static str>)
    ensures
        match name {
            Some(name) => position < SIDECAR_COUNT && name@ == sidecar_names()[position as int],
            None => position >= SIDECAR_COUNT,
        },
{
    if position == 0 {
        Some("accounts.cbor")
    } else if position == 1 {
        Some("artifact.digest")
    } else if position == 2 {
        Some("build-record.json")
    } else if position == 3 {
        Some("build.log")
    } else if position == 4 {
        Some("image-config.json")
    } else if position == 5 {
        Some("metadata.manifest")
    } else if position == 6 {
        Some("validation-evidence.cbor")
    } else {
        None
    }
}

/// The contents of the sidecar that states a base's digest.
pub fn artifact_digest_text(base: ArtifactDigest) -> (text: String)
    ensures
        text@ == digest_text(base@) + "\n"@,
{
    join(&base.to_text(), "\n")
}

/// Every identity of a build is made of the derivation key under a name of its
/// own.
pub proof fn law_identities_follow_the_derivation(
    derivation_key: &[u8; 32],
    identities: BuildIdentities,
)
    requires
        call_ensures(build_identities, (derivation_key,), identities),
    ensures
        identities.payload_uuid@ == uuid_text(
            uuid_bytes(sha256_of(encode_utf8("pocket-payload-ext4\0v1\0"@) + derivation_key@)),
        ),
        identities.payload_hash_seed@ == uuid_text(
            uuid_bytes(
                sha256_of(
                    encode_utf8("pocket-payload-directory-hash-seed\0v1\0"@) + derivation_key@,
                ),
            ),
        ),
        identities.target_uuid@ == uuid_text(
            uuid_bytes(sha256_of(encode_utf8("pocket-target-ext4\0v1\0"@) + derivation_key@)),
        ),
        identities.target_hash_seed@ == uuid_text(
            uuid_bytes(
                sha256_of(
                    encode_utf8("pocket-target-directory-hash-seed\0v1\0"@) + derivation_key@,
                ),
            ),
        ),
{
}

/// The scratch filesystem is formatted under its own label and identities and
/// filled from the layout; the target is formatted under its own and left
/// empty.
pub proof fn law_each_filesystem_has_its_own_identity(
    image: &str,
    identities: BuildIdentities,
    inodes: u64,
    layout: &str,
    payload: Vec<String>,
    target: Vec<String>,
)
    requires
        call_ensures(payload_format, (image, &identities, inodes, layout), payload),
        call_ensures(target_format, (image, &identities, inodes), target),
    ensures
        texts(payload@) == format_arguments(
            image@,
            "pocket-input"@,
            identities.payload_uuid@,
            identities.payload_hash_seed@,
            inodes as nat,
            Some(layout@),
        ),
        texts(target@) == format_arguments(
            image@,
            "pocket-root"@,
            identities.target_uuid@,
            identities.target_hash_seed@,
            inodes as nat,
            None,
        ),
        FORMAT_PAYLOAD_STAGE@ == "format-payload"@,
        FORMAT_TARGET_STAGE@ == "format-target"@,
        CHECK_TARGET_STAGE@ == "check-target"@,
{
}

/// A generation has seven sidecars, in the order of their names.
pub proof fn law_sidecars_are_in_order(position: usize, name: Option<&'static str>)
    requires
        call_ensures(sidecar_name, (position,), name),
    ensures
        name is Some <==> position < 7,
        position == 0 ==> name->Some_0@ == "accounts.cbor"@,
        position == 1 ==> name->Some_0@ == "artifact.digest"@,
        position == 2 ==> name->Some_0@ == "build-record.json"@,
        position == 3 ==> name->Some_0@ == "build.log"@,
        position == 4 ==> name->Some_0@ == "image-config.json"@,
        position == 5 ==> name->Some_0@ == "metadata.manifest"@,
        position == 6 ==> name->Some_0@ == "validation-evidence.cbor"@,
{
}

/// The digest file is one line with the digest of the base.
pub proof fn law_digest_file_is_one_line(base: ArtifactDigest, text: String)
    requires
        call_ensures(artifact_digest_text, (base,), text),
    ensures
        text@ == digest_text(base@).push('\n'),
{
    reveal_strlit("\n");
    assert("\n"@ =~= seq!['\n']);
    assert(digest_text(base@) + "\n"@ =~= digest_text(base@).push('\n'));
}

} // verus!
