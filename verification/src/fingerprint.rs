//! The fingerprint of a scan: the SHA-256 digest of the text that stands for
//! the projects found, in lower-case hexadecimal digits.

use crate::hex::{hex_lower, lemma_hex_lower_injective, lemma_hex_lower_len, to_hex};
use crate::json::{law_projects_json_is_injective, projects_json, projects_to_json};
use crate::project::{Project, ProjectView};
use sha2::{Digest, Sha256};
use vstd::prelude::*;
use vstd::string::*;
use vstd::utf8::{encode_utf8, encode_utf8_decode_utf8};

verus! {

/// The SHA-256 digest of `data`: what the crate `sha2` computes for it.
pub uninterp spec fn sha256(data: Seq<u8>) -> Seq<u8>;

/// `Sha256::digest` of the crate `sha2`. Believed of it: the digest depends
/// on the bytes of `data` alone, and has 32 bytes.
#[verifier::external_body]
fn sha256_digest(data: &[u8]) -> (digest: Vec<u8>)
    ensures
        digest@ == sha256(data@),
        digest@.len() == 32,
{
    Sha256::digest(data).to_vec()
}

/// The fingerprint of `projects`: the digest of the UTF-8 bytes of their
/// text, written in hexadecimal digits.
pub open spec fn fingerprint(projects: Seq<ProjectView>) -> Seq<char> {
    hex_lower(sha256(encode_utf8(projects_json(projects))))
}

/// Computes the fingerprint of `projects`.
pub fn calculate_hash(projects: &[Project]) -> (hash: String)
    ensures
        hash@ == fingerprint(projects.deep_view()),
        hash@.len() == 64,
{
    let text = projects_to_json(projects);
    let digest = sha256_digest(text.as_str().as_bytes());
    proof {
        lemma_hex_lower_len(digest@);
    }
    to_hex(digest.as_slice())
}

/// The record of a scan: the projects found, with their fingerprint.
pub struct ProjectFile {
    hash: String,
    projects: Vec<Project>,
}

/// What a [`ProjectFile`] stands for.
pub struct ProjectFileView {
    pub hash: Seq<char>,
    pub projects: Seq<ProjectView>,
}

impl View for ProjectFile {
    type V = ProjectFileView;

    closed spec fn view(&self) -> ProjectFileView {
        ProjectFileView { hash: self.hash@, projects: self.projects.deep_view() }
    }
}

impl ProjectFile {
    /// The hash of a record is the fingerprint of its projects.
    #[verifier::type_invariant]
    spec fn hash_is_fingerprint(self) -> bool {
        self.hash@ == fingerprint(self.projects.deep_view())
    }

    /// The record of `projects`.
    pub fn new(projects: Vec<Project>) -> (file: ProjectFile)
        ensures
            file@.projects == projects.deep_view(),
            file@.hash == fingerprint(projects.deep_view()),
    {
        let hash = calculate_hash(projects.as_slice());
        ProjectFile { hash, projects }
    }

    /// The fingerprint of the projects of the record.
    pub fn hash(&self) -> (hash: &String)
        ensures
            hash@ == self@.hash,
            hash@ == fingerprint(self@.projects),
    {
        proof {
            use_type_invariant(self);
        }
        &self.hash
    }

    /// The projects of the record.
    pub fn projects(&self) -> (projects: &Vec<Project>)
        ensures
            projects.deep_view() == self@.projects,
    {
        &self.projects
    }

    /// Takes the record apart, into its hash and its projects.
    pub fn into_parts(self) -> (parts: (String, Vec<Project>))
        ensures
            parts.0@ == self@.hash,
            parts.1.deep_view() == self@.projects,
            parts.0@ == fingerprint(parts.1.deep_view()),
    {
        proof {
            use_type_invariant(&self);
        }
        (self.hash, self.projects)
    }
}

/// Equal lists of projects have equal fingerprints.
pub proof fn law_fingerprint_is_deterministic(a: Seq<ProjectView>, b: Seq<ProjectView>)
    requires
        a =~= b,
    ensures
        fingerprint(a) == fingerprint(b),
{
}

/// The fingerprint is as sensitive to the projects and to their order as
/// SHA-256 is to its input: two different lists have different bytes to
/// digest, and their fingerprints are equal only where the digests of those
/// bytes are.
pub proof fn law_fingerprints_differ_unless_digests_collide(
    a: Seq<ProjectView>,
    b: Seq<ProjectView>,
)
    requires
        a != b,
    ensures
        encode_utf8(projects_json(a)) != encode_utf8(projects_json(b)),
        fingerprint(a) == fingerprint(b) ==> sha256(encode_utf8(projects_json(a))) == sha256(
            encode_utf8(projects_json(b)),
        ),
{
    if projects_json(a) == projects_json(b) {
        law_projects_json_is_injective(a, b);
    }
    encode_utf8_decode_utf8(projects_json(a));
    encode_utf8_decode_utf8(projects_json(b));
    if fingerprint(a) == fingerprint(b) {
        lemma_hex_lower_injective(
            sha256(encode_utf8(projects_json(a))),
            sha256(encode_utf8(projects_json(b))),
        );
    }
}

} // verus!
