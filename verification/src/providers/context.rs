//! What one provider run produces: targets, and the problems it met on the way.

use vstd::prelude::*;

use crate::models::{CleanupTarget, RiskLevel, ScanIssue, TargetKind};
use crate::safety::{verdict, PathFacts, SafetyPolicy};
use crate::text::owned;

verus! {

/// Targets plus non-fatal issues from one provider run.
#[derive(Debug)]
pub struct ScanOutput {
    pub targets: Vec<CleanupTarget>,
    pub issues: Vec<ScanIssue>,
}

/// What the file system said about a path a provider found.
#[derive(Debug, Clone)]
pub struct Measurement {
    pub is_dir: bool,
    pub files: u64,
    pub bytes: u64,
    /// Milliseconds since the Unix epoch, when the modification time could be read.
    pub modified_at: Option<i64>,
}

impl Default for ScanOutput {
    fn default() -> (r: Self)
        ensures
            r.targets@.len() == 0,
            r.issues@.len() == 0,
    {
        ScanOutput { targets: Vec::new(), issues: Vec::new() }
    }
}

impl ScanOutput {
    pub fn issue(&mut self, path: &str, message: String)
        ensures
            final(self).targets@ == old(self).targets@,
            final(self).issues@.len() == old(self).issues@.len() + 1,
            forall|i: int| 0 <= i < old(self).issues@.len() ==> final(self).issues@[i] == old(self).issues@[i],
            final(self).issues@.last().path@ == path@,
            final(self).issues@.last().message@ == message@,
    {
        self.issues.push(ScanIssue { path: owned(path), message });
    }

    /// Appends a measured path as a target. Empty entries are skipped. The risk is escalated to
    /// `Protected` when the safety policy refuses the path (`facts` is what the file system
    /// says about it), so protected items are still visible but can never be selected.
    pub fn add_measured(
        &mut self,
        policy: &SafetyPolicy,
        provider_id: &str,
        path: &str,
        label: String,
        risk: RiskLevel,
        description: Option<String>,
        permanent_only: bool,
        measured: &Measurement,
        facts: &PathFacts,
    ) -> (r: bool)
        ensures
            final(self).issues@ == old(self).issues@,
            r == !(measured.files == 0 && measured.bytes == 0),
            !r ==> final(self).targets@ == old(self).targets@,
            r ==> final(self).targets@.len() == old(self).targets@.len() + 1,
            r ==> final(self).targets@.drop_last() == old(self).targets@,
            r ==> ({
                let t = final(self).targets@.last();
                &&& t.id@ == crate::models::make_id_spec(
                    vstd::utf8::encode_utf8(provider_id@),
                    vstd::utf8::encode_utf8(path@),
                )
                &&& t.provider_id@ == provider_id@
                &&& t.path@ == path@
                &&& t.kind == if measured.is_dir { TargetKind::Directory } else { TargetKind::File }
                &&& t.size_bytes == measured.bytes
                &&& t.file_count == measured.files
                &&& t.risk == if verdict(policy@, path@, *facts) is Allowed { risk } else { RiskLevel::Protected }
                &&& t.label == label
                &&& t.description == description
                &&& t.modified_at == measured.modified_at
                &&& t.permanent_only == permanent_only
                &&& t.group is None
            }),
    {
        if measured.bytes == 0 && measured.files == 0 {
            return false;
        }
        let risk = if policy.is_protected(path, facts) {
            RiskLevel::Protected
        } else {
            risk
        };
        self.targets.push(CleanupTarget {
            id: CleanupTarget::make_id(provider_id, path),
            provider_id: owned(provider_id),
            path: owned(path),
            kind: if measured.is_dir {
                TargetKind::Directory
            } else {
                TargetKind::File
            },
            size_bytes: measured.bytes,
            file_count: measured.files,
            risk,
            label,
            description,
            modified_at: measured.modified_at,
            permanent_only,
            group: None,
        });
        assert(self.targets@.drop_last() =~= old(self).targets@);
        true
    }

    /// Appends what another run produced.
    pub fn merge(&mut self, other: ScanOutput)
        ensures
            final(self).targets@ == old(self).targets@ + other.targets@,
            final(self).issues@ == old(self).issues@ + other.issues@,
    {
        let mut t = other.targets;
        let mut i = other.issues;
        self.targets.append(&mut t);
        self.issues.append(&mut i);
    }
}

} // verus!
