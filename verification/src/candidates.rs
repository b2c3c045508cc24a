//! Image candidates: encrypted chat images found on disk and their way
//! through stability checks, decryption, verification and ingestion.
use vstd::prelude::*;
use crate::mapping::opt_text;
use crate::text::str_eq;

verus! {

/// Where an image candidate is in its processing.
#[derive(Debug, Clone, Copy, PartialEq, Eq, Structural)]
pub enum ImageCandidateStatus {
    Discovered,
    WaitingStable,
    Preparing,
    DecryptedPendingVerify,
    VerifiedPlaintext,
    Ingested,
    Archived,
    Failed,
}

/// The stored text of a status.
pub open spec fn status_text(s: ImageCandidateStatus) -> Seq<char> {
    match s {
        ImageCandidateStatus::Discovered => "discovered"@,
        ImageCandidateStatus::WaitingStable => "waiting_stable"@,
        ImageCandidateStatus::Preparing => "preparing"@,
        ImageCandidateStatus::DecryptedPendingVerify => "decrypted_pending_verify"@,
        ImageCandidateStatus::VerifiedPlaintext => "verified_plaintext"@,
        ImageCandidateStatus::Ingested => "ingested"@,
        ImageCandidateStatus::Archived => "archived"@,
        ImageCandidateStatus::Failed => "failed"@,
    }
}

impl ImageCandidateStatus {
    /// The stored text of the status.
    pub fn as_str(self) -> (r: &'static str)
        ensures
            r@ == status_text(self),
    {
        match self {
            ImageCandidateStatus::Discovered => "discovered",
            ImageCandidateStatus::WaitingStable => "waiting_stable",
            ImageCandidateStatus::Preparing => "preparing",
            ImageCandidateStatus::DecryptedPendingVerify => "decrypted_pending_verify",
            ImageCandidateStatus::VerifiedPlaintext => "verified_plaintext",
            ImageCandidateStatus::Ingested => "ingested",
            ImageCandidateStatus::Archived => "archived",
            ImageCandidateStatus::Failed => "failed",
        }
    }
}

/// The status a stored text names; unknown texts count as discovered.
pub open spec fn parse_status_spec(s: Seq<char>) -> ImageCandidateStatus {
    if s == "waiting_stable"@ {
        ImageCandidateStatus::WaitingStable
    } else if s == "preparing"@ {
        ImageCandidateStatus::Preparing
    } else if s == "decrypted_pending_verify"@ {
        ImageCandidateStatus::DecryptedPendingVerify
    } else if s == "verified_plaintext"@ {
        ImageCandidateStatus::VerifiedPlaintext
    } else if s == "ingested"@ {
        ImageCandidateStatus::Ingested
    } else if s == "archived"@ {
        ImageCandidateStatus::Archived
    } else if s == "failed"@ {
        ImageCandidateStatus::Failed
    } else {
        ImageCandidateStatus::Discovered
    }
}

/// Reads a stored status text; unknown texts count as discovered.
pub fn parse_candidate_status(s: &str) -> (r: ImageCandidateStatus)
    ensures
        r == parse_status_spec(s@),
{
    if str_eq(s, "waiting_stable") {
        ImageCandidateStatus::WaitingStable
    } else if str_eq(s, "preparing") {
        ImageCandidateStatus::Preparing
    } else if str_eq(s, "decrypted_pending_verify") {
        ImageCandidateStatus::DecryptedPendingVerify
    } else if str_eq(s, "verified_plaintext") {
        ImageCandidateStatus::VerifiedPlaintext
    } else if str_eq(s, "ingested") {
        ImageCandidateStatus::Ingested
    } else if str_eq(s, "archived") {
        ImageCandidateStatus::Archived
    } else if str_eq(s, "failed") {
        ImageCandidateStatus::Failed
    } else {
        ImageCandidateStatus::Discovered
    }
}

proof fn lemma_status_texts_distinct()
    ensures
        forall|a: ImageCandidateStatus, b: ImageCandidateStatus| a != b ==> status_text(a) != status_text(b),
{
    reveal_strlit("discovered");
    reveal_strlit("waiting_stable");
    reveal_strlit("preparing");
    reveal_strlit("decrypted_pending_verify");
    reveal_strlit("verified_plaintext");
    reveal_strlit("ingested");
    reveal_strlit("archived");
    reveal_strlit("failed");
    assert forall|a: ImageCandidateStatus, b: ImageCandidateStatus| a != b implies status_text(a) != status_text(b) by {
        let x = status_text(a);
        let y = status_text(b);
        if x.len() == y.len() {
            assert(x[0] != y[0] || x[1] != y[1]);
        }
    }
}

/// Every status survives being stored and read back.
pub proof fn lemma_status_roundtrip(s: ImageCandidateStatus)
    ensures
        parse_status_spec(status_text(s)) == s,
{
    lemma_status_texts_distinct();
    let t = status_text(s);
    assert(status_text(ImageCandidateStatus::Discovered) == "discovered"@);
    assert(status_text(ImageCandidateStatus::WaitingStable) == "waiting_stable"@);
    assert(status_text(ImageCandidateStatus::Preparing) == "preparing"@);
    assert(status_text(ImageCandidateStatus::DecryptedPendingVerify) == "decrypted_pending_verify"@);
    assert(status_text(ImageCandidateStatus::VerifiedPlaintext) == "verified_plaintext"@);
    assert(status_text(ImageCandidateStatus::Ingested) == "ingested"@);
    assert(status_text(ImageCandidateStatus::Archived) == "archived"@);
    assert(status_text(ImageCandidateStatus::Failed) == "failed"@);
}

/// One image candidate as stored.
#[derive(Debug, Clone)]
pub struct ImageCandidateRow {
    pub candidate_id: String,
    pub source_root: String,
    pub source_account_id: String,
    pub source_path: String,
    pub source_size: i64,
    pub source_mtime_ms: i64,
    pub source_digest: Option<String>,
    pub conv_hash: Option<String>,
    pub month: Option<String>,
    pub normalized_stem: Option<String>,
    pub image_group_key: Option<String>,
    pub status: String,
    pub error_code: Option<String>,
    pub attempt_count: i64,
    pub record_id: Option<String>,
}

/// What a newly found candidate records.
pub struct CandidateSource {
    pub source_size: i64,
    pub source_mtime_ms: i64,
    pub conv_hash: Option<String>,
    pub month: Option<String>,
    pub normalized_stem: Option<String>,
    pub image_group_key: Option<String>,
}

/// A known value is kept unless a new one is given.
pub open spec fn keep_or_new(old: Option<String>, new: Option<String>) -> Option<Seq<char>> {
    if new is Some { opt_text(new) } else { opt_text(old) }
}

fn take_or_keep(old: Option<String>, new: Option<String>) -> (r: Option<String>)
    ensures
        opt_text(r) == keep_or_new(old, new),
{
    match new {
        Some(n) => Some(n),
        None => old,
    }
}

impl ImageCandidateRow {
    /// A candidate found for the first time: discovered, never attempted.
    pub fn discovered(
        candidate_id: String,
        source_root: String,
        source_account_id: String,
        source_path: String,
        src: CandidateSource,
    ) -> (r: ImageCandidateRow)
        ensures
            r.candidate_id@ == candidate_id@,
            r.source_root@ == source_root@,
            r.source_account_id@ == source_account_id@,
            r.source_path@ == source_path@,
            r.source_size == src.source_size,
            r.source_mtime_ms == src.source_mtime_ms,
            opt_text(r.conv_hash) == opt_text(src.conv_hash),
            opt_text(r.month) == opt_text(src.month),
            opt_text(r.normalized_stem) == opt_text(src.normalized_stem),
            opt_text(r.image_group_key) == opt_text(src.image_group_key),
            r.status@ == status_text(ImageCandidateStatus::Discovered),
            r.source_digest is None,
            r.error_code is None,
            r.attempt_count == 0,
            r.record_id is None,
    {
        ImageCandidateRow {
            candidate_id,
            source_root,
            source_account_id,
            source_path,
            source_size: src.source_size,
            source_mtime_ms: src.source_mtime_ms,
            source_digest: None,
            conv_hash: src.conv_hash,
            month: src.month,
            normalized_stem: src.normalized_stem,
            image_group_key: src.image_group_key,
            status: String::from_str(ImageCandidateStatus::Discovered.as_str()),
            error_code: None,
            attempt_count: 0,
            record_id: None,
        }
    }

    /// Seeing a known candidate again: its size and time are replaced, its
    /// descriptive fields only where new values are given, and a failed
    /// candidate is discovered again without its error, since its source may
    /// have changed; any other status and the identity stay.
    pub fn refresh(&mut self, src: CandidateSource)
        ensures
            final(self).source_size == src.source_size,
            final(self).source_mtime_ms == src.source_mtime_ms,
            opt_text(final(self).conv_hash) == keep_or_new(old(self).conv_hash, src.conv_hash),
            opt_text(final(self).month) == keep_or_new(old(self).month, src.month),
            opt_text(final(self).normalized_stem) == keep_or_new(old(self).normalized_stem, src.normalized_stem),
            opt_text(final(self).image_group_key) == keep_or_new(old(self).image_group_key, src.image_group_key),
            old(self).status@ == status_text(ImageCandidateStatus::Failed) ==>
                final(self).status@ == status_text(ImageCandidateStatus::Discovered)
                && final(self).error_code is None,
            old(self).status@ != status_text(ImageCandidateStatus::Failed) ==>
                final(self).status == old(self).status && final(self).error_code == old(self).error_code,
            *final(self) == (ImageCandidateRow {
                source_size: final(self).source_size,
                source_mtime_ms: final(self).source_mtime_ms,
                conv_hash: final(self).conv_hash,
                month: final(self).month,
                normalized_stem: final(self).normalized_stem,
                image_group_key: final(self).image_group_key,
                status: final(self).status,
                error_code: final(self).error_code,
                ..*old(self)
            }),
    {
        if str_eq(self.status.as_str(), ImageCandidateStatus::Failed.as_str()) {
            self.status = String::from_str(ImageCandidateStatus::Discovered.as_str());
            self.error_code = None;
        }
        self.source_size = src.source_size;
        self.source_mtime_ms = src.source_mtime_ms;
        let c = self.conv_hash.take();
        self.conv_hash = take_or_keep(c, src.conv_hash);
        let m = self.month.take();
        self.month = take_or_keep(m, src.month);
        let s = self.normalized_stem.take();
        self.normalized_stem = take_or_keep(s, src.normalized_stem);
        let g = self.image_group_key.take();
        self.image_group_key = take_or_keep(g, src.image_group_key);
    }

    /// Records a failed attempt with its error code.
    pub fn mark_failed(&mut self, error_code: &str)
        requires
            old(self).attempt_count < i64::MAX,
        ensures
            final(self).status@ == status_text(ImageCandidateStatus::Failed),
            opt_text(final(self).error_code) == Some(error_code@),
            final(self).attempt_count == old(self).attempt_count + 1,
            *final(self) == (ImageCandidateRow {
                status: final(self).status,
                error_code: final(self).error_code,
                attempt_count: final(self).attempt_count,
                ..*old(self)
            }),
    {
        self.status = String::from_str(ImageCandidateStatus::Failed.as_str());
        self.error_code = Some(String::from_str(error_code));
        self.attempt_count = self.attempt_count + 1;
    }

    /// Marks the candidate as being prepared.
    pub fn mark_preparing(&mut self)
        ensures
            final(self).status@ == status_text(ImageCandidateStatus::Preparing),
            *final(self) == (ImageCandidateRow { status: final(self).status, ..*old(self) }),
    {
        self.status = String::from_str(ImageCandidateStatus::Preparing.as_str());
    }

    /// Records that the decrypted content was verified, with its digest.
    pub fn mark_verified(&mut self, digest: &str)
        ensures
            final(self).status@ == status_text(ImageCandidateStatus::VerifiedPlaintext),
            opt_text(final(self).source_digest) == Some(digest@),
            *final(self) == (ImageCandidateRow {
                status: final(self).status,
                source_digest: final(self).source_digest,
                ..*old(self)
            }),
    {
        self.status = String::from_str(ImageCandidateStatus::VerifiedPlaintext.as_str());
        self.source_digest = Some(String::from_str(digest));
    }

    /// Records that the content was ingested as record `record_id`.
    pub fn mark_ingested(&mut self, record_id: &str)
        ensures
            final(self).status@ == status_text(ImageCandidateStatus::Ingested),
            opt_text(final(self).record_id) == Some(record_id@),
            final(self).error_code is None,
            *final(self) == (ImageCandidateRow {
                status: final(self).status,
                record_id: final(self).record_id,
                error_code: final(self).error_code,
                ..*old(self)
            }),
    {
        self.status = String::from_str(ImageCandidateStatus::Ingested.as_str());
        self.record_id = Some(String::from_str(record_id));
        self.error_code = None;
    }

    /// An explicit retry: a failed candidate is discovered again with no
    /// error; any other is left alone. Returns whether it was reset.
    pub fn reset_failed(&mut self) -> (r: bool)
        ensures
            r == (old(self).status@ == status_text(ImageCandidateStatus::Failed)),
            r ==> final(self).status@ == status_text(ImageCandidateStatus::Discovered)
                && final(self).error_code is None,
            !r ==> *final(self) == *old(self),
            *final(self) == (ImageCandidateRow {
                status: final(self).status,
                error_code: final(self).error_code,
                ..*old(self)
            }),
    {
        if str_eq(self.status.as_str(), ImageCandidateStatus::Failed.as_str()) {
            self.status = String::from_str(ImageCandidateStatus::Discovered.as_str());
            self.error_code = None;
            true
        } else {
            false
        }
    }
}

/// A candidate waiting to be worked on: its status is one of the states
/// that still need work, and its retry time (if any) has come.
pub open spec fn candidate_pending_spec(status: Seq<char>, next_retry_ms: Option<i64>, now_ms: i64) -> bool {
    &&& (status == status_text(ImageCandidateStatus::Discovered)
        || status == status_text(ImageCandidateStatus::WaitingStable)
        || status == status_text(ImageCandidateStatus::Failed)
        || status == status_text(ImageCandidateStatus::DecryptedPendingVerify))
    &&& (next_retry_ms matches Some(t) ==> t <= now_ms)
}

/// Whether a candidate of `status` is handed out for work at `now_ms`.
pub fn candidate_pending(status: &str, next_retry_ms: Option<i64>, now_ms: i64) -> (r: bool)
    ensures
        r == candidate_pending_spec(status@, next_retry_ms, now_ms),
{
    let due = match next_retry_ms {
        Some(t) => t <= now_ms,
        None => true,
    };
    due && (str_eq(status, ImageCandidateStatus::Discovered.as_str())
        || str_eq(status, ImageCandidateStatus::WaitingStable.as_str())
        || str_eq(status, ImageCandidateStatus::Failed.as_str())
        || str_eq(status, ImageCandidateStatus::DecryptedPendingVerify.as_str()))
}

/// An explicit retry brings a failed candidate back to work at once, and an
/// ingested one is never handed out again.
pub proof fn lemma_reset_candidate_is_pending(now_ms: i64, next_retry_ms: Option<i64>)
    ensures
        candidate_pending_spec(status_text(ImageCandidateStatus::Discovered), None, now_ms),
        !candidate_pending_spec(status_text(ImageCandidateStatus::Ingested), next_retry_ms, now_ms),
        !candidate_pending_spec(status_text(ImageCandidateStatus::VerifiedPlaintext), next_retry_ms, now_ms),
{
    lemma_status_texts_distinct();
    assert(ImageCandidateStatus::Ingested != ImageCandidateStatus::Discovered);
    assert(ImageCandidateStatus::Ingested != ImageCandidateStatus::WaitingStable);
    assert(ImageCandidateStatus::Ingested != ImageCandidateStatus::Failed);
    assert(ImageCandidateStatus::Ingested != ImageCandidateStatus::DecryptedPendingVerify);
    assert(ImageCandidateStatus::VerifiedPlaintext != ImageCandidateStatus::Discovered);
    assert(ImageCandidateStatus::VerifiedPlaintext != ImageCandidateStatus::WaitingStable);
    assert(ImageCandidateStatus::VerifiedPlaintext != ImageCandidateStatus::Failed);
    assert(ImageCandidateStatus::VerifiedPlaintext != ImageCandidateStatus::DecryptedPendingVerify);
}

} // verus!
