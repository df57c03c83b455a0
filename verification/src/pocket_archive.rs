//! A generation moved between stores without being rebuilt.
//!
//! The archive carries the generation itself -- the ext4 image, its sidecars,
//! and the input contract that names it -- and the far side verifies rather
//! than recomputes. The image is stored as its allocated extents: a base is
//! mostly holes, and writing those out would make the archive three orders of
//! magnitude larger than the data in it.

use vstd::prelude::*;
use vstd::utf8::*;

use crate::digest::{
    digest_text, lemma_digest_text_names_it, sha256_of, ArtifactDigest, FileDigest,
};
use crate::error::first_of;
use crate::text::{
    copy_texts, debug_spelling, debug_text, join, join3, optional_text, same_text, texts,
};

verus! {

pub const SCHEMA: &'static str = "pocket-archive-v1";

/// The container is deliberately not a tar. Only pocket reads this file, and a
/// framed layout -- magic, a length-prefixed document, then the bytes the
/// document describes in the order it lists them -- needs no tar reader on the
/// receiving side and can be streamed in one pass.
pub const MAGIC: [u8; 16] = [
    112u8, 111u8, 99u8, 107u8, 101u8, 116u8, 45u8, 97u8, 114u8, 99u8, 104u8, 105u8, 118u8, 101u8,
    49u8, 10u8,
];

/// One contiguous run of allocated bytes in the base image.
#[derive(Debug, Clone, Copy, PartialEq, Eq, Structural)]
pub struct Extent {
    pub offset: u64,
    pub length: u64,
}

#[derive(Debug, Clone, PartialEq, Eq)]
pub struct PlatformRecord {
    pub os: String,
    pub architecture: String,
    pub variant: Option<String>,
    pub os_version: Option<String>,
    pub os_features: Vec<String>,
}

/// A platform as the store identifies it.
#[derive(Debug, Clone, PartialEq, Eq)]
pub struct Platform {
    pub os: String,
    pub architecture: String,
    pub variant: Option<String>,
    pub os_version: Option<String>,
    pub os_features: Vec<String>,
}

/// The text of a platform.
pub struct PlatformText {
    pub os: Seq<char>,
    pub architecture: Seq<char>,
    pub variant: Option<Seq<char>>,
    pub os_version: Option<Seq<char>>,
    pub os_features: Seq<Seq<char>>,
}

impl View for PlatformRecord {
    type V = PlatformText;

    open spec fn view(&self) -> PlatformText {
        PlatformText {
            os: self.os@,
            architecture: self.architecture@,
            variant: optional_text(self.variant),
            os_version: optional_text(self.os_version),
            os_features: texts(self.os_features@),
        }
    }
}

impl View for Platform {
    type V = PlatformText;

    open spec fn view(&self) -> PlatformText {
        PlatformText {
            os: self.os@,
            architecture: self.architecture@,
            variant: optional_text(self.variant),
            os_version: optional_text(self.os_version),
            os_features: texts(self.os_features@),
        }
    }
}

/// A copy of an optional string.
pub fn copy_optional(item: &Option<String>) -> (copy: Option<String>)
    ensures
        optional_text(copy) == optional_text(*item),
{
    match item {
        Some(text) => Some(text.clone()),
        None => None,
    }
}

impl Platform {
    /// The same platform once more.
    pub fn copy(&self) -> (copy: Platform)
        ensures
            copy@ == self@,
    {
        Platform {
            os: self.os.clone(),
            architecture: self.architecture.clone(),
            variant: copy_optional(&self.variant),
            os_version: copy_optional(&self.os_version),
            os_features: copy_texts(&self.os_features),
        }
    }
}

impl PlatformRecord {
    pub fn of(platform: &Platform) -> (record: PlatformRecord)
        ensures
            record@ == platform@,
    {
        PlatformRecord {
            os: platform.os.clone(),
            architecture: platform.architecture.clone(),
            variant: copy_optional(&platform.variant),
            os_version: copy_optional(&platform.os_version),
            os_features: copy_texts(&platform.os_features),
        }
    }

    /// Asks the store for the platform, which it may refuse.
    pub fn build<P>(&self, make: &P) -> (platform: Result<Platform, String>) where
        P: Fn(&PlatformRecord) -> Result<Platform, String>

        requires
            call_requires(*make, (self,)),
        ensures
            call_ensures(*make, (self,), platform),
    {
        make(self)
    }
}

/// The input contract a generation was published under.
///
/// Carried in full rather than recomputed, because it is what decides the
/// generation's identity: the far side must arrive at the same derivation key,
/// or it is publishing something else under a borrowed name.
#[derive(Debug, Clone, PartialEq, Eq)]
pub struct SpecRecord {
    pub selected_manifest_digest: String,
    pub config_digest: String,
    pub layer_digests: Vec<String>,
    pub diff_ids: Vec<String>,
    pub descriptor_platform: Option<PlatformRecord>,
    pub config_platform: PlatformRecord,
    pub effective_platform: PlatformRecord,
    pub selector_policy_id: String,
    pub profile_id: String,
    pub profile_revision: String,
    pub root_layout_contract: String,
    pub filesystem_contract: String,
    pub build_contract_digest: String,
}

/// The input contract of a generation, with its digests as bytes.
#[derive(Debug, Clone, PartialEq, Eq)]
pub struct GenerationSpec {
    pub selected_manifest_digest: ArtifactDigest,
    pub config_digest: ArtifactDigest,
    pub layer_digests: Vec<ArtifactDigest>,
    pub diff_ids: Vec<ArtifactDigest>,
    pub descriptor_platform: Option<Platform>,
    pub config_platform: Platform,
    pub effective_platform: Platform,
    pub selector_policy_id: String,
    pub profile_id: String,
    pub profile_revision: ArtifactDigest,
    pub root_layout_contract: String,
    pub filesystem_contract: String,
    pub build_contract_digest: ArtifactDigest,
}

pub open spec fn digest_texts(digests: Seq<ArtifactDigest>) -> Seq<Seq<char>> {
    Seq::new(digests.len(), |i: int| digest_text(digests[i]@))
}

pub open spec fn optional_record(record: Option<PlatformRecord>) -> Option<PlatformText> {
    match record {
        Some(record) => Some(record@),
        None => None,
    }
}

pub open spec fn optional_platform(platform: Option<Platform>) -> Option<PlatformText> {
    match platform {
        Some(platform) => Some(platform@),
        None => None,
    }
}

/// Whether a record spells a specification.
pub open spec fn records(record: SpecRecord, spec: GenerationSpec) -> bool {
    &&& record.selected_manifest_digest@ == digest_text(spec.selected_manifest_digest@)
    &&& record.config_digest@ == digest_text(spec.config_digest@)
    &&& texts(record.layer_digests@) == digest_texts(spec.layer_digests@)
    &&& texts(record.diff_ids@) == digest_texts(spec.diff_ids@)
    &&& optional_record(record.descriptor_platform) == optional_platform(spec.descriptor_platform)
    &&& record.config_platform@ == spec.config_platform@
    &&& record.effective_platform@ == spec.effective_platform@
    &&& record.selector_policy_id@ == spec.selector_policy_id@
    &&& record.profile_id@ == spec.profile_id@
    &&& record.profile_revision@ == digest_text(spec.profile_revision@)
    &&& record.root_layout_contract@ == spec.root_layout_contract@
    &&& record.filesystem_contract@ == spec.filesystem_contract@
    &&& record.build_contract_digest@ == digest_text(spec.build_contract_digest@)
}

fn digest_strings(digests: &Vec<ArtifactDigest>) -> (strings: Vec<String>)
    ensures
        texts(strings@) == digest_texts(digests@),
{
    let mut strings: Vec<String> = Vec::new();
    let mut i: usize = 0;
    while i < digests.len()
        invariant
            i <= digests@.len(),
            texts(strings@) == digest_texts(digests@).take(i as int),
        decreases digests@.len() - i,
    {
        crate::text::push_text(&mut strings, &digests[i].to_text());
        i += 1;
        assert(texts(strings@) =~= digest_texts(digests@).take(i as int));
    }
    assert(digest_texts(digests@).take(i as int) =~= digest_texts(digests@));
    strings
}

/// What the store answers to each part of a specification's record: the digest
/// that a text spells, the platform that a record names, or why there is none.
#[derive(Debug)]
pub struct SpecAnswers {
    pub selected_manifest_digest: Result<ArtifactDigest, String>,
    pub config_digest: Result<ArtifactDigest, String>,
    pub layer_digests: Vec<Result<ArtifactDigest, String>>,
    pub diff_ids: Vec<Result<ArtifactDigest, String>>,
    pub descriptor_platform: Option<Result<Platform, String>>,
    pub config_platform: Result<Platform, String>,
    pub effective_platform: Result<Platform, String>,
    pub profile_revision: Result<ArtifactDigest, String>,
    pub build_contract_digest: Result<ArtifactDigest, String>,
}

/// Whether these are answers to the texts, one for each.
pub open spec fn are_digests<D>(
    parse: D,
    items: Seq<String>,
    answers: Seq<Result<ArtifactDigest, String>>,
) -> bool where D: Fn(&String) -> Result<ArtifactDigest, String> {
    &&& answers.len() == items.len()
    &&& forall|i: int|
        0 <= i < items.len() ==> call_ensures(parse, (&items[i],), #[trigger] answers[i])
}

/// Whether these are the store's answers to a record.
pub open spec fn are_answers<D, P>(
    record: SpecRecord,
    parse: D,
    make: P,
    answers: SpecAnswers,
) -> bool where
    D: Fn(&String) -> Result<ArtifactDigest, String>,
    P: Fn(&PlatformRecord) -> Result<Platform, String>,
 {
    &&& call_ensures(
        parse,
        (&record.selected_manifest_digest,),
        answers.selected_manifest_digest,
    )
    &&& call_ensures(parse, (&record.config_digest,), answers.config_digest)
    &&& are_digests(parse, record.layer_digests@, answers.layer_digests@)
    &&& are_digests(parse, record.diff_ids@, answers.diff_ids@)
    &&& match (record.descriptor_platform, answers.descriptor_platform) {
        (Some(record), Some(answer)) => call_ensures(make, (&record,), answer),
        (None, None) => true,
        _ => false,
    }
    &&& call_ensures(make, (&record.config_platform,), answers.config_platform)
    &&& call_ensures(make, (&record.effective_platform,), answers.effective_platform)
    &&& call_ensures(parse, (&record.profile_revision,), answers.profile_revision)
    &&& call_ensures(parse, (&record.build_contract_digest,), answers.build_contract_digest)
}

/// Why one answer is a refusal, if it is.
pub open spec fn refusal<T>(answer: Result<T, String>) -> Option<Seq<char>> {
    match answer {
        Ok(_) => None,
        Err(reason) => Some(reason@),
    }
}

/// The first refusal of several.
pub open spec fn first_refusal<T>(answers: Seq<Result<T, String>>) -> Option<Seq<char>>
    decreases answers.len(),
{
    if answers.len() == 0 {
        None
    } else {
        first_of(first_refusal(answers.drop_last()), refusal(answers.last()))
    }
}

/// Why a specification's record is refused, if it is: the first refusal in the
/// order in which a specification takes its parts.
pub open spec fn answers_refusal(answers: SpecAnswers) -> Option<Seq<char>> {
    first_of(
        refusal(answers.selected_manifest_digest),
        first_of(
            refusal(answers.config_digest),
            first_of(
                first_refusal(answers.layer_digests@),
                first_of(
                    first_refusal(answers.diff_ids@),
                    first_of(
                        match answers.descriptor_platform {
                            Some(answer) => refusal(answer),
                            None => None,
                        },
                        first_of(
                            refusal(answers.config_platform),
                            first_of(
                                refusal(answers.effective_platform),
                                first_of(
                                    refusal(answers.profile_revision),
                                    refusal(answers.build_contract_digest),
                                ),
                            ),
                        ),
                    ),
                ),
            ),
        ),
    )
}

/// Whether the answers are these values, none of them a refusal.
pub open spec fn are_values<T>(answers: Seq<Result<T, String>>, values: Seq<T>) -> bool {
    &&& values.len() == answers.len()
    &&& forall|i: int| 0 <= i < values.len() ==> answers[i] == Ok::<T, String>(#[trigger] values[i])
}

/// Whether a specification is put together from a record and what the store
/// answered to it.
pub open spec fn is_built(record: SpecRecord, answers: SpecAnswers, spec: GenerationSpec) -> bool {
    &&& answers.selected_manifest_digest == Ok::<_, String>(spec.selected_manifest_digest)
    &&& answers.config_digest == Ok::<_, String>(spec.config_digest)
    &&& are_values(answers.layer_digests@, spec.layer_digests@)
    &&& are_values(answers.diff_ids@, spec.diff_ids@)
    &&& answers.descriptor_platform == match spec.descriptor_platform {
        Some(platform) => Some(Ok::<_, String>(platform)),
        None => None,
    }
    &&& answers.config_platform == Ok::<_, String>(spec.config_platform)
    &&& answers.effective_platform == Ok::<_, String>(spec.effective_platform)
    &&& spec.selector_policy_id@ == record.selector_policy_id@
    &&& spec.profile_id@ == record.profile_id@
    &&& answers.profile_revision == Ok::<_, String>(spec.profile_revision)
    &&& spec.root_layout_contract@ == record.root_layout_contract@
    &&& spec.filesystem_contract@ == record.filesystem_contract@
    &&& answers.build_contract_digest == Ok::<_, String>(spec.build_contract_digest)
}

/// Whether the store refuses the specification that was put together.
pub open spec fn is_spec_refused<S>(
    record: SpecRecord,
    answers: SpecAnswers,
    refuse: S,
    reason: String,
) -> bool where S: Fn(&GenerationSpec) -> Option<String> {
    exists|spec: GenerationSpec| #[trigger]
        is_built(record, answers, spec) && call_ensures(refuse, (&spec,), Some(reason))
}

/// Asks the store for the digest that each text spells.
fn ask_digests<D>(items: &Vec<String>, parse: &D) -> (answers: Vec<
    Result<ArtifactDigest, String>,
>) where D: Fn(&String) -> Result<ArtifactDigest, String>
    requires
        forall|item: &String| #[trigger] call_requires(*parse, (item,)),
    ensures
        are_digests(*parse, items@, answers@),
{
    let mut answers: Vec<Result<ArtifactDigest, String>> = Vec::new();
    let mut i: usize = 0;
    while i < items.len()
        invariant
            i <= items@.len(),
            i == answers@.len(),
            forall|item: &String| #[trigger] call_requires(*parse, (item,)),
            forall|j: int|
                0 <= j < i ==> call_ensures(*parse, (&items@[j],), #[trigger] answers@[j]),
        decreases items@.len() - i,
    {
        let answer = parse(&items[i]);
        answers.push(answer);
        i += 1;
    }
    answers
}

proof fn lemma_refusal_prefix<T>(answers: Seq<Result<T, String>>, n: int)
    requires
        0 <= n <= answers.len(),
        first_refusal(answers.take(n)) is Some,
    ensures
        first_refusal(answers) == first_refusal(answers.take(n)),
    decreases answers.len(),
{
    if n == answers.len() {
        assert(answers.take(n) =~= answers);
    } else {
        assert(answers.drop_last().take(n) =~= answers.take(n));
        lemma_refusal_prefix(answers.drop_last(), n);
    }
}

/// The answered digests, or the first refusal.
fn all_digests(answers: &Vec<Result<ArtifactDigest, String>>) -> (digests: Result<
    Vec<ArtifactDigest>,
    String,
>)
    ensures
        match digests {
            Ok(digests) => are_values(answers@, digests@) && first_refusal(answers@) is None,
            Err(reason) => first_refusal(answers@) == Some(reason@),
        },
{
    let mut digests: Vec<ArtifactDigest> = Vec::new();
    let mut i: usize = 0;
    while i < answers.len()
        invariant
            i <= answers@.len(),
            i == digests@.len(),
            first_refusal(answers@.take(i as int)) is None,
            forall|j: int|
                0 <= j < i ==> answers@[j] == Ok::<_, String>(#[trigger] digests@[j]),
        decreases answers@.len() - i,
    {
        assert(answers@.take(i + 1).drop_last() =~= answers@.take(i as int));
        assert(answers@.take(i + 1).last() == answers@[i as int]);
        match &answers[i] {
            Ok(digest) => {
                digests.push(*digest);
            },
            Err(reason) => {
                proof {
                    lemma_refusal_prefix(answers@, i + 1);
                }
                return Err(reason.clone());
            },
        }
        i += 1;
    }
    assert(answers@.take(i as int) =~= answers@);
    Ok(digests)
}

impl SpecRecord {
    /// Spells a specification.
    pub fn of(spec: &GenerationSpec) -> (record: SpecRecord)
        ensures
            records(record, *spec),
    {
        SpecRecord {
            selected_manifest_digest: spec.selected_manifest_digest.to_text(),
            config_digest: spec.config_digest.to_text(),
            layer_digests: digest_strings(&spec.layer_digests),
            diff_ids: digest_strings(&spec.diff_ids),
            descriptor_platform: match &spec.descriptor_platform {
                Some(platform) => Some(PlatformRecord::of(platform)),
                None => None,
            },
            config_platform: PlatformRecord::of(&spec.config_platform),
            effective_platform: PlatformRecord::of(&spec.effective_platform),
            selector_policy_id: spec.selector_policy_id.clone(),
            profile_id: spec.profile_id.clone(),
            profile_revision: spec.profile_revision.to_text(),
            root_layout_contract: spec.root_layout_contract.clone(),
            filesystem_contract: spec.filesystem_contract.clone(),
            build_contract_digest: spec.build_contract_digest.to_text(),
        }
    }

    /// Asks the store for every digest and every platform of the record.
    pub fn ask<D, P>(&self, parse: &D, make: &P) -> (answers: SpecAnswers) where
        D: Fn(&String) -> Result<ArtifactDigest, String>,
        P: Fn(&PlatformRecord) -> Result<Platform, String>,

        requires
            forall|item: &String| #[trigger] call_requires(*parse, (item,)),
            forall|record: &PlatformRecord| #[trigger] call_requires(*make, (record,)),
        ensures
            are_answers(*self, *parse, *make, answers),
    {
        SpecAnswers {
            selected_manifest_digest: parse(&self.selected_manifest_digest),
            config_digest: parse(&self.config_digest),
            layer_digests: ask_digests(&self.layer_digests, parse),
            diff_ids: ask_digests(&self.diff_ids, parse),
            descriptor_platform: match &self.descriptor_platform {
                Some(record) => Some(record.build(make)),
                None => None,
            },
            config_platform: self.config_platform.build(make),
            effective_platform: self.effective_platform.build(make),
            profile_revision: parse(&self.profile_revision),
            build_contract_digest: parse(&self.build_contract_digest),
        }
    }

    /// Puts the specification together from what the store answered to the
    /// record.
    pub fn assemble(&self, answers: SpecAnswers) -> (spec: Result<GenerationSpec, String>)
        ensures
            match spec {
                Ok(spec) => answers_refusal(answers) is None && is_built(*self, answers, spec),
                Err(reason) => answers_refusal(answers) == Some(reason@),
            },
    {
        let layer_digests = all_digests(&answers.layer_digests);
        let diff_ids = all_digests(&answers.diff_ids);
        let selected_manifest_digest = match answers.selected_manifest_digest {
            Ok(digest) => digest,
            Err(reason) => {
                return Err(reason);
            },
        };
        let config_digest = match answers.config_digest {
            Ok(digest) => digest,
            Err(reason) => {
                return Err(reason);
            },
        };
        let layer_digests = match layer_digests {
            Ok(digests) => digests,
            Err(reason) => {
                return Err(reason);
            },
        };
        let diff_ids = match diff_ids {
            Ok(digests) => digests,
            Err(reason) => {
                return Err(reason);
            },
        };
        let descriptor_platform = match answers.descriptor_platform {
            None => None,
            Some(Ok(platform)) => Some(platform),
            Some(Err(reason)) => {
                return Err(reason);
            },
        };
        let config_platform = match answers.config_platform {
            Ok(platform) => platform,
            Err(reason) => {
                return Err(reason);
            },
        };
        let effective_platform = match answers.effective_platform {
            Ok(platform) => platform,
            Err(reason) => {
                return Err(reason);
            },
        };
        let profile_revision = match answers.profile_revision {
            Ok(digest) => digest,
            Err(reason) => {
                return Err(reason);
            },
        };
        let build_contract_digest = match answers.build_contract_digest {
            Ok(digest) => digest,
            Err(reason) => {
                return Err(reason);
            },
        };
        Ok(
            GenerationSpec {
                selected_manifest_digest,
                config_digest,
                layer_digests,
                diff_ids,
                descriptor_platform,
                config_platform,
                effective_platform,
                selector_policy_id: self.selector_policy_id.clone(),
                profile_id: self.profile_id.clone(),
                profile_revision,
                root_layout_contract: self.root_layout_contract.clone(),
                filesystem_contract: self.filesystem_contract.clone(),
                build_contract_digest,
            },
        )
    }

    /// Reads the specification back, refusing what the store refuses: a digest
    /// that is none, a platform that is none, or the whole of them.
    pub fn build<D, P, S>(&self, parse: &D, make: &P, refuse: &S) -> (spec: Result<
        GenerationSpec,
        String,
    >) where
        D: Fn(&String) -> Result<ArtifactDigest, String>,
        P: Fn(&PlatformRecord) -> Result<Platform, String>,
        S: Fn(&GenerationSpec) -> Option<String>,

        requires
            forall|item: &String| #[trigger] call_requires(*parse, (item,)),
            forall|record: &PlatformRecord| #[trigger] call_requires(*make, (record,)),
            forall|spec: &GenerationSpec| #[trigger] call_requires(*refuse, (spec,)),
        ensures
            exists|answers: SpecAnswers|
                {
                    &&& #[trigger] are_answers(*self, *parse, *make, answers)
                    &&& match spec {
                        Ok(spec) => is_built(*self, answers, spec) && call_ensures(
                            *refuse,
                            (&spec,),
                            None,
                        ),
                        Err(reason) => match answers_refusal(answers) {
                            Some(refusal) => reason@ == refusal,
                            None => is_spec_refused(*self, answers, *refuse, reason),
                        },
                    }
                },
    {
        let answers = self.ask(parse, make);
        let ghost asked = answers;
        assert(are_answers(*self, *parse, *make, asked));
        let spec = match self.assemble(answers) {
            Ok(spec) => spec,
            Err(reason) => {
                return Err(reason);
            },
        };
        match refuse(&spec) {
            None => Ok(spec),
            Some(reason) => Err(reason),
        }
    }
}

#[derive(Debug, Clone, PartialEq, Eq)]
pub struct SidecarRecord {
    pub name: String,
    pub digest: String,
    pub size: u64,
}

/// A sidecar as the store binds it.
#[derive(Debug, Clone, PartialEq, Eq)]
pub struct ImmutableSidecar {
    pub name: String,
    pub digest: ArtifactDigest,
    pub size: u64,
}

impl ImmutableSidecar {
    /// A sidecar that was read to its end.
    pub fn of_file(name: &str, file: FileDigest) -> (sidecar: ImmutableSidecar)
        ensures
            sidecar.name@ == name@,
            sidecar.digest@ == sha256_of(file.bytes()),
            sidecar.size == file.bytes().len(),
    {
        let (digest, size) = file.finish();
        ImmutableSidecar { name: name.to_owned(), digest, size }
    }
}

impl SidecarRecord {
    pub fn of(sidecar: &ImmutableSidecar) -> (record: SidecarRecord)
        ensures
            record.name@ == sidecar.name@,
            record.digest@ == digest_text(sidecar.digest@),
            record.size == sidecar.size,
    {
        SidecarRecord {
            name: sidecar.name.clone(),
            digest: sidecar.digest.to_text(),
            size: sidecar.size,
        }
    }

    /// Reads the sidecar back, refusing what the store refuses.
    pub fn build<D, A>(&self, parse: &D, refuse: &A) -> (sidecar: Result<
        ImmutableSidecar,
        String,
    >) where
        D: Fn(&String) -> Result<ArtifactDigest, String>,
        A: Fn(&ImmutableSidecar) -> Option<String>,

        requires
            call_requires(*parse, (&self.digest,)),
            forall|sidecar: &ImmutableSidecar| #[trigger] call_requires(*refuse, (sidecar,)),
        ensures
            match sidecar {
                Ok(sidecar) => {
                    &&& is_sidecar(*self, *parse, sidecar)
                    &&& call_ensures(*refuse, (&sidecar,), None)
                },
                Err(reason) => {
                    ||| call_ensures(*parse, (&self.digest,), Err(reason))
                    ||| is_sidecar_refused(*self, *parse, *refuse, reason)
                },
            },
    {
        let digest = match parse(&self.digest) {
            Ok(digest) => digest,
            Err(reason) => {
                return Err(reason);
            },
        };
        let sidecar = ImmutableSidecar { name: self.name.clone(), digest, size: self.size };
        assert(is_sidecar(*self, *parse, sidecar));
        match refuse(&sidecar) {
            None => Ok(sidecar),
            Some(reason) => Err(reason),
        }
    }
}

/// Whether a sidecar is what a record says, with the digest that the store
/// reads in it.
pub open spec fn is_sidecar<D>(record: SidecarRecord, parse: D, sidecar: ImmutableSidecar) -> bool where
    D: Fn(&String) -> Result<ArtifactDigest, String>,
 {
    &&& sidecar.name@ == record.name@
    &&& call_ensures(parse, (&record.digest,), Ok(sidecar.digest))
    &&& sidecar.size == record.size
}

/// Whether the store refuses the sidecar of a record.
pub open spec fn is_sidecar_refused<D, A>(
    record: SidecarRecord,
    parse: D,
    refuse: A,
    reason: String,
) -> bool where
    D: Fn(&String) -> Result<ArtifactDigest, String>,
    A: Fn(&ImmutableSidecar) -> Option<String>,
 {
    exists|sidecar: ImmutableSidecar| #[trigger]
        is_sidecar(record, parse, sidecar) && call_ensures(refuse, (&sidecar,), Some(reason))
}

#[derive(Debug, Clone, PartialEq, Eq)]
pub struct BaseRecord {
    pub size: u64,
    pub digest: String,
    pub extents: Vec<Extent>,
}

#[derive(Debug, Clone, PartialEq, Eq)]
pub struct Document {
    pub schema: String,
    pub generation_id: String,
    pub reference: String,
    pub spec: SpecRecord,
    pub base: BaseRecord,
    pub sidecars: Vec<SidecarRecord>,
}

pub open spec fn extent_end(extent: Extent) -> int {
    extent.offset + extent.length
}

/// Where the last extent ends.
pub open spec fn last_end(extents: Seq<Extent>) -> int {
    if extents.len() == 0 {
        0
    } else {
        extent_end(extents.last())
    }
}

/// How many bytes the extents carry.
pub open spec fn covered(extents: Seq<Extent>) -> nat
    decreases extents.len(),
{
    if extents.len() == 0 {
        0
    } else {
        covered(extents.drop_last()) + extents.last().length as nat
    }
}

/// Why one extent is refused after the given earlier ones, if it is.
pub open spec fn extent_complaint(earlier: Seq<Extent>, extent: Extent, size: u64) -> Option<
    Seq<char>,
> {
    if extent.length == 0 {
        Some("archive records an empty extent"@)
    } else if extent.offset < last_end(earlier) {
        Some("archive extents overlap or are unordered"@)
    } else if extent_end(extent) > u64::MAX {
        Some("archive extent overflows"@)
    } else if extent_end(extent) > size {
        Some("archive extent runs past the end of the image"@)
    } else {
        None
    }
}

pub open spec fn extents_complaint(extents: Seq<Extent>, size: u64) -> Option<Seq<char>>
    decreases extents.len(),
{
    if extents.len() == 0 {
        None
    } else {
        first_of(
            extents_complaint(extents.drop_last(), size),
            extent_complaint(extents.drop_last(), extents.last(), size),
        )
    }
}

/// Why a document is refused, if it is.
pub open spec fn document_complaint(document: Document) -> Option<Seq<char>> {
    if document.schema@ != SCHEMA@ {
        Some(
            "archive schema is "@ + debug_spelling(document.schema@) + ", not "@ + SCHEMA@,
        )
    } else {
        extents_complaint(document.base.extents@, document.base.size)
    }
}

/// Accepted extents end inside the image and carry no more than what lies
/// before their end.
proof fn lemma_extents_are_bounded(extents: Seq<Extent>, size: u64)
    requires
        extents_complaint(extents, size) is None,
    ensures
        covered(extents) <= last_end(extents) <= size,
    decreases extents.len(),
{
    if extents.len() > 0 {
        lemma_extents_are_bounded(extents.drop_last(), size);
    }
}

proof fn lemma_complaint_prefix(extents: Seq<Extent>, size: u64, n: int)
    requires
        0 <= n <= extents.len(),
        extents_complaint(extents.take(n), size) is Some,
    ensures
        extents_complaint(extents, size) == extents_complaint(extents.take(n), size),
    decreases extents.len(),
{
    if n == extents.len() {
        assert(extents.take(n) =~= extents);
    } else {
        assert(extents.drop_last().take(n) =~= extents.take(n));
        lemma_complaint_prefix(extents.drop_last(), size, n);
    }
}

/// A prefix of the extents carries no more than all of them.
proof fn lemma_covered_prefix(extents: Seq<Extent>, n: int)
    requires
        0 <= n <= extents.len(),
    ensures
        covered(extents.take(n)) <= covered(extents),
    decreases extents.len(),
{
    if n == extents.len() {
        assert(extents.take(n) =~= extents);
    } else {
        assert(extents.drop_last().take(n) =~= extents.take(n));
        lemma_covered_prefix(extents.drop_last(), n);
    }
}

impl Document {
    /// Check what can be checked before a single byte is written anywhere.
    pub fn validate(&self) -> (valid: Result<(), String>)
        ensures
            match valid {
                Ok(()) => document_complaint(*self) is None,
                Err(reason) => document_complaint(*self) == Some(reason@),
            },
    {
        if !same_text(&self.schema, SCHEMA) {
            return Err(
                join(&join3("archive schema is ", &debug_text(&self.schema), ", not "), SCHEMA),
            );
        }
        let ghost extents = self.base.extents@;
        let mut previous_end: u64 = 0;
        let mut i: usize = 0;
        assert(extents.take(0) =~= Seq::<Extent>::empty());
        while i < self.base.extents.len()
            invariant
                i <= extents.len(),
                extents == self.base.extents@,
                self.schema@ == SCHEMA@,
                previous_end == last_end(extents.take(i as int)),
                extents_complaint(extents.take(i as int), self.base.size) is None,
            decreases extents.len() - i,
        {
            let ghost next = extents.take(i + 1);
            proof {
                assert(next.drop_last() =~= extents.take(i as int));
                assert(next.last() == extents[i as int]);
                if extents_complaint(next, self.base.size) is Some {
                    lemma_complaint_prefix(extents, self.base.size, i + 1);
                }
            }
            let extent = self.base.extents[i];
            if extent.length == 0 {
                return Err("archive records an empty extent".to_owned());
            }
            if extent.offset < previous_end {
                return Err("archive extents overlap or are unordered".to_owned());
            }
            let end: u64 = match extent.offset.checked_add(extent.length) {
                Some(end) => end,
                None => {
                    return Err("archive extent overflows".to_owned());
                },
            };
            if end > self.base.size {
                return Err("archive extent runs past the end of the image".to_owned());
            }
            previous_end = end;
            i += 1;
        }
        assert(extents.take(i as int) =~= extents);
        Ok(())
    }

    /// Total bytes the extents carry, which is what `base.data` must hold.
    pub fn data_length(&self) -> (length: u64)
        requires
            covered(self.base.extents@) <= u64::MAX,
        ensures
            length == covered(self.base.extents@),
    {
        let ghost extents = self.base.extents@;
        let mut length: u64 = 0;
        let mut i: usize = 0;
        assert(extents.take(0) =~= Seq::<Extent>::empty());
        while i < self.base.extents.len()
            invariant
                i <= extents.len(),
                extents == self.base.extents@,
                covered(extents) <= u64::MAX,
                length == covered(extents.take(i as int)),
            decreases extents.len() - i,
        {
            proof {
                assert(extents.take(i + 1).drop_last() =~= extents.take(i as int));
                lemma_covered_prefix(extents, i + 1);
            }
            length += self.base.extents[i].length;
            i += 1;
        }
        assert(extents.take(i as int) =~= extents);
        length
    }
}

/// The extents of an accepted document are not empty, lie inside the image, and
/// together carry no more bytes than the image has.
pub proof fn law_accepted_extents_fit_the_image(document: Document)
    requires
        document_complaint(document) is None,
    ensures
        covered(document.base.extents@) <= document.base.size,
        forall|i: int|
            0 <= i < document.base.extents@.len() ==> 0 < (
            #[trigger] document.base.extents@[i]).length && extent_end(document.base.extents@[i])
                <= document.base.size,
{
    lemma_extents_are_bounded(document.base.extents@, document.base.size);
    assert forall|i: int| 0 <= i < document.base.extents@.len() implies 0 < (
    #[trigger] document.base.extents@[i]).length && extent_end(document.base.extents@[i])
        <= document.base.size by {
        lemma_extent_fits(document.base.extents@, document.base.size, i);
    }
}

proof fn lemma_extent_fits(extents: Seq<Extent>, size: u64, i: int)
    requires
        extents_complaint(extents, size) is None,
        0 <= i < extents.len(),
    ensures
        0 < extents[i].length,
        extent_end(extents[i]) <= size,
    decreases extents.len(),
{
    if i < extents.len() - 1 {
        lemma_extent_fits(extents.drop_last(), size, i);
        assert(extents.drop_last()[i] == extents[i]);
    }
}

/// The extents of an accepted document are in order and apart from each other.
pub proof fn law_accepted_extents_are_disjoint(document: Document, i: int, j: int)
    requires
        document_complaint(document) is None,
        0 <= i < j < document.base.extents@.len(),
    ensures
        extent_end(document.base.extents@[i]) <= document.base.extents@[j].offset,
{
    lemma_extents_are_apart(document.base.extents@, document.base.size, i, j);
}

proof fn lemma_extents_are_apart(extents: Seq<Extent>, size: u64, i: int, j: int)
    requires
        extents_complaint(extents, size) is None,
        0 <= i < j < extents.len(),
    ensures
        0 < extents[i].length,
        extent_end(extents[i]) <= extents[j].offset,
        extent_end(extents[j]) <= size,
    decreases extents.len(),
{
    let shorter = extents.drop_last();
    if j < extents.len() - 1 {
        lemma_extents_are_apart(shorter, size, i, j);
        assert(shorter[i] == extents[i] && shorter[j] == extents[j]);
    } else if i < j - 1 {
        lemma_extents_are_apart(shorter, size, i, j - 1);
        assert(shorter[i] == extents[i]);
        assert(shorter.last() == extents[j - 1]);
    } else {
        assert(shorter.last() == extents[i]);
        assert(extents_complaint(shorter, size) is None);
        assert(shorter.len() > 0);
    }
}

pub open spec fn digest_views(digests: Seq<ArtifactDigest>) -> Seq<Seq<u8>> {
    Seq::new(digests.len(), |i: int| digests[i]@)
}

/// Whether two specifications agree in every field.
pub open spec fn same_generation(left: GenerationSpec, right: GenerationSpec) -> bool {
    &&& left.selected_manifest_digest@ == right.selected_manifest_digest@
    &&& left.config_digest@ == right.config_digest@
    &&& digest_views(left.layer_digests@) == digest_views(right.layer_digests@)
    &&& digest_views(left.diff_ids@) == digest_views(right.diff_ids@)
    &&& optional_platform(left.descriptor_platform) == optional_platform(right.descriptor_platform)
    &&& left.config_platform@ == right.config_platform@
    &&& left.effective_platform@ == right.effective_platform@
    &&& left.selector_policy_id@ == right.selector_policy_id@
    &&& left.profile_id@ == right.profile_id@
    &&& left.profile_revision@ == right.profile_revision@
    &&& left.root_layout_contract@ == right.root_layout_contract@
    &&& left.filesystem_contract@ == right.filesystem_contract@
    &&& left.build_contract_digest@ == right.build_contract_digest@
}

proof fn lemma_digest_lists(left: Seq<ArtifactDigest>, right: Seq<ArtifactDigest>)
    requires
        digest_texts(left) == digest_texts(right),
    ensures
        digest_views(left) == digest_views(right),
{
    assert(left.len() == digest_texts(left).len() == digest_texts(right).len() == right.len());
    assert forall|i: int| 0 <= i < left.len() implies left[i]@ == right[i]@ by {
        assert(digest_texts(left)[i] == digest_text(left[i]@));
        assert(digest_texts(right)[i] == digest_text(right[i]@));
        lemma_digest_text_names_it(left[i], right[i]);
    }
    assert(digest_views(left) =~= digest_views(right));
}

/// Whether each answer is the digest that its text spells.
pub open spec fn are_spelled(items: Seq<String>, answers: Seq<Result<ArtifactDigest, String>>) -> bool {
    &&& answers.len() == items.len()
    &&& forall|i: int|
        0 <= i < items.len() ==> (#[trigger] answers[i]) is Ok && digest_text(answers[i]->Ok_0@)
            == items[i]@
}

/// Whether the store reads in a record what the record spells.
pub open spec fn are_faithful(record: SpecRecord, answers: SpecAnswers) -> bool {
    &&& answers.selected_manifest_digest matches Ok(digest) && digest_text(digest@)
        == record.selected_manifest_digest@
    &&& answers.config_digest matches Ok(digest) && digest_text(digest@) == record.config_digest@
    &&& are_spelled(record.layer_digests@, answers.layer_digests@)
    &&& are_spelled(record.diff_ids@, answers.diff_ids@)
    &&& match (record.descriptor_platform, answers.descriptor_platform) {
        (Some(record), Some(Ok(platform))) => platform@ == record@,
        (None, None) => true,
        _ => false,
    }
    &&& answers.config_platform matches Ok(platform) && platform@ == record.config_platform@
    &&& answers.effective_platform matches Ok(platform) && platform@ == record.effective_platform@
    &&& answers.profile_revision matches Ok(digest) && digest_text(digest@)
        == record.profile_revision@
    &&& answers.build_contract_digest matches Ok(digest) && digest_text(digest@)
        == record.build_contract_digest@
}

proof fn lemma_no_refusal<T>(answers: Seq<Result<T, String>>)
    requires
        forall|i: int| 0 <= i < answers.len() ==> (#[trigger] answers[i]) is Ok,
    ensures
        first_refusal(answers) is None,
    decreases answers.len(),
{
    if answers.len() > 0 {
        assert forall|i: int| 0 <= i < answers.len() - 1 implies (
        #[trigger] answers.drop_last()[i]) is Ok by {
            assert(answers.drop_last()[i] == answers[i]);
        }
        lemma_no_refusal(answers.drop_last());
        assert(answers.last() == answers[answers.len() - 1]);
    }
}

proof fn lemma_read_list(
    items: Seq<String>,
    answers: Seq<Result<ArtifactDigest, String>>,
    spelled: Seq<ArtifactDigest>,
    read: Seq<ArtifactDigest>,
)
    requires
        texts(items) == digest_texts(spelled),
        are_spelled(items, answers),
        are_values(answers, read),
    ensures
        digest_views(spelled) == digest_views(read),
{
    assert(texts(items).len() == items.len());
    assert forall|i: int| 0 <= i < read.len() implies digest_texts(read)[i] == digest_texts(
        spelled,
    )[i] by {
        assert(answers[i] == Ok::<_, String>(read[i]));
        assert(texts(items)[i] == items[i]@);
    }
    assert(digest_texts(read) =~= digest_texts(spelled));
    lemma_digest_lists(spelled, read);
}

/// A specification survives the archive: where the store reads each digest and
/// each platform as it is spelled, no part of its record is refused, and what
/// is read back from it is the specification itself, field for field.
pub proof fn law_spec_record_round_trips(
    record: SpecRecord,
    spec: GenerationSpec,
    answers: SpecAnswers,
    read: GenerationSpec,
)
    requires
        records(record, spec),
        are_faithful(record, answers),
    ensures
        answers_refusal(answers) is None,
        is_built(record, answers, read) ==> same_generation(spec, read),
{
    lemma_no_refusal(answers.layer_digests@);
    lemma_no_refusal(answers.diff_ids@);
    if is_built(record, answers, read) {
        lemma_digest_text_names_it(spec.selected_manifest_digest, read.selected_manifest_digest);
        lemma_digest_text_names_it(spec.config_digest, read.config_digest);
        lemma_digest_text_names_it(spec.profile_revision, read.profile_revision);
        lemma_digest_text_names_it(spec.build_contract_digest, read.build_contract_digest);
        lemma_read_list(
            record.layer_digests@,
            answers.layer_digests@,
            spec.layer_digests@,
            read.layer_digests@,
        );
        lemma_read_list(record.diff_ids@, answers.diff_ids@, spec.diff_ids@, read.diff_ids@);
    }
}

/// An archive begins with `pocket-archive1` and a line feed, and its document
/// says `pocket-archive-v1`.
pub proof fn law_archive_says_its_format()
    ensures
        MAGIC@ == encode_utf8("pocket-archive1\n"@),
        SCHEMA@ == "pocket-archive-v1"@,
{
    reveal_strlit("pocket-archive1\n");
    is_ascii_chars_encode_utf8("pocket-archive1\n"@);
    assert(MAGIC@ =~= encode_utf8("pocket-archive1\n"@));
}

/// A document is valid exactly where it says its format and its extents are not
/// empty, follow one another and end within the image.
pub proof fn law_document_is_valid_within_the_image(
    document: Document,
    valid: Result<(), String>,
)
    requires
        call_ensures(Document::validate, (&document,), valid),
    ensures
        valid is Ok <==> {
            let extents = document.base.extents@;
            &&& document.schema@ == "pocket-archive-v1"@
            &&& forall|i: int|
                0 <= i < extents.len() ==> (#[trigger] extents[i]).length > 0 && extents[i].offset
                    + extents[i].length <= document.base.size
            &&& forall|i: int|
                1 <= i < extents.len() ==> extents[i - 1].offset + extents[i - 1].length <= (
                #[trigger] extents[i]).offset
        },
{
    lemma_extents_complaint(document.base.extents@, document.base.size);
}

proof fn lemma_extents_complaint(extents: Seq<Extent>, size: u64)
    ensures
        extents_complaint(extents, size) is None <==> {
            &&& forall|i: int|
                0 <= i < extents.len() ==> (#[trigger] extents[i]).length > 0 && extents[i].offset
                    + extents[i].length <= size
            &&& forall|i: int|
                1 <= i < extents.len() ==> extents[i - 1].offset + extents[i - 1].length <= (
                #[trigger] extents[i]).offset
        },
    decreases extents.len(),
{
    if extents.len() > 0 {
        let front = extents.drop_last();
        let last = extents.len() - 1;
        lemma_extents_complaint(front, size);
        assert(extents[last] == extents.last());
        assert forall|i: int| 0 <= i < front.len() implies #[trigger] extents[i] == front[i] by {}
        assert forall|i: int| 0 <= i < front.len() implies #[trigger] front[i] == extents[i] by {}
        if front.len() > 0 {
            assert(front.last() == extents[last - 1]);
        }
        if extents_complaint(extents, size) is None {
            assert forall|i: int| 1 <= i < extents.len() implies extents[i - 1].offset
                + extents[i - 1].length <= (#[trigger] extents[i]).offset by {
                if i < front.len() {
                    assert(front[i - 1] == extents[i - 1]);
                    assert(front[i] == extents[i]);
                }
            }
        }
        if (forall|i: int|
            1 <= i < extents.len() ==> extents[i - 1].offset + extents[i - 1].length <= (
            #[trigger] extents[i]).offset) {
            assert forall|i: int| 1 <= i < front.len() implies front[i - 1].offset
                + front[i - 1].length <= (#[trigger] front[i]).offset by {
                assert(front[i - 1] == extents[i - 1]);
                assert(front[i] == extents[i]);
            }
        }
    }
}

/// The data of an archive is as long as its extents are together.
pub proof fn law_data_is_the_extents(left: Seq<Extent>, extent: Extent)
    ensures
        covered(left.push(extent)) == covered(left) + extent.length,
        covered(Seq::<Extent>::empty()) == 0,
{
    assert(left.push(extent).drop_last() =~= left);
}

/// Everything in a record is what the generation has under the same name, with
/// the digests spelled out.
pub proof fn law_record_says_the_generation(spec: GenerationSpec, record: SpecRecord)
    requires
        call_ensures(SpecRecord::of, (&spec,), record),
    ensures
        record.selected_manifest_digest@ == digest_text(spec.selected_manifest_digest@),
        record.config_digest@ == digest_text(spec.config_digest@),
        record.profile_revision@ == digest_text(spec.profile_revision@),
        record.build_contract_digest@ == digest_text(spec.build_contract_digest@),
        record.layer_digests@.len() == spec.layer_digests@.len(),
        forall|i: int|
            0 <= i < spec.layer_digests@.len() ==> (#[trigger] record.layer_digests@[i])@
                == digest_text(spec.layer_digests@[i]@),
        record.diff_ids@.len() == spec.diff_ids@.len(),
        forall|i: int|
            0 <= i < spec.diff_ids@.len() ==> (#[trigger] record.diff_ids@[i])@ == digest_text(
                spec.diff_ids@[i]@,
            ),
        record.descriptor_platform is Some <==> spec.descriptor_platform is Some,
        record.descriptor_platform matches Some(platform) ==> platform@
            == spec.descriptor_platform->Some_0@,
        record.config_platform@ == spec.config_platform@,
        record.effective_platform@ == spec.effective_platform@,
        record.selector_policy_id@ == spec.selector_policy_id@,
        record.profile_id@ == spec.profile_id@,
        record.root_layout_contract@ == spec.root_layout_contract@,
        record.filesystem_contract@ == spec.filesystem_contract@,
{
    assert(texts(record.layer_digests@).len() == record.layer_digests@.len());
    assert(texts(record.diff_ids@).len() == record.diff_ids@.len());
    assert forall|i: int| 0 <= i < spec.layer_digests@.len() implies (
    #[trigger] record.layer_digests@[i])@ == digest_text(spec.layer_digests@[i]@) by {
        assert(texts(record.layer_digests@)[i] == digest_texts(spec.layer_digests@)[i]);
    }
    assert forall|i: int| 0 <= i < spec.diff_ids@.len() implies (#[trigger] record.diff_ids@[i])@
        == digest_text(spec.diff_ids@[i]@) by {
        assert(texts(record.diff_ids@)[i] == digest_texts(spec.diff_ids@)[i]);
    }
}

/// What a record is read as has every part from the answer for that part, and is
/// read exactly where every answer is one.
pub proof fn law_generation_is_read_part_by_part(
    record: SpecRecord,
    answers: SpecAnswers,
    spec: Result<GenerationSpec, String>,
)
    requires
        call_ensures(SpecRecord::assemble, (&record, answers), spec),
    ensures
        spec is Ok ==> {
            let read = spec->Ok_0;
            &&& answers.selected_manifest_digest == Ok::<_, String>(read.selected_manifest_digest)
            &&& answers.config_digest == Ok::<_, String>(read.config_digest)
            &&& answers.profile_revision == Ok::<_, String>(read.profile_revision)
            &&& answers.build_contract_digest == Ok::<_, String>(read.build_contract_digest)
            &&& answers.config_platform == Ok::<_, String>(read.config_platform)
            &&& answers.effective_platform == Ok::<_, String>(read.effective_platform)
            &&& answers.layer_digests@.len() == read.layer_digests@.len()
            &&& forall|i: int|
                0 <= i < read.layer_digests@.len() ==> answers.layer_digests@[i] == Ok::<_, String>(
                    #[trigger] read.layer_digests@[i],
                )
            &&& answers.diff_ids@.len() == read.diff_ids@.len()
            &&& forall|i: int|
                0 <= i < read.diff_ids@.len() ==> answers.diff_ids@[i] == Ok::<_, String>(
                    #[trigger] read.diff_ids@[i],
                )
            &&& answers.descriptor_platform is Some <==> read.descriptor_platform is Some
            &&& read.descriptor_platform matches Some(platform) ==> answers.descriptor_platform
                == Some(Ok::<_, String>(platform))
            &&& read.selector_policy_id@ == record.selector_policy_id@
            &&& read.profile_id@ == record.profile_id@
            &&& read.root_layout_contract@ == record.root_layout_contract@
            &&& read.filesystem_contract@ == record.filesystem_contract@
        },
        answers.selected_manifest_digest is Err ==> spec is Err,
        answers.config_digest is Err ==> spec is Err,
        answers.config_platform is Err ==> spec is Err,
        answers.effective_platform is Err ==> spec is Err,
        answers.profile_revision is Err ==> spec is Err,
        answers.build_contract_digest is Err ==> spec is Err,
{
}

/// A sidecar is named, measured and recorded as the file that it is.
pub proof fn law_sidecar_is_its_file(
    name: &str,
    file: FileDigest,
    sidecar: ImmutableSidecar,
    record: SidecarRecord,
)
    requires
        call_ensures(ImmutableSidecar::of_file, (name, file), sidecar),
        call_ensures(SidecarRecord::of, (&sidecar,), record),
    ensures
        record.name@ == name@,
        record.digest@ == digest_text(sha256_of(file.bytes())),
        record.size == file.bytes().len(),
        sidecar.name@ == name@,
        sidecar.digest@ == sha256_of(file.bytes()),
        sidecar.size == file.bytes().len(),
{
}

} // verus!
