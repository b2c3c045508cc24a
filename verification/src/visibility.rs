//! Object visibility: hiding, restoring and purging a content object, both as
//! local user actions and as events received from other devices.
use vstd::prelude::*;
use crate::error::{ChatVaultError, msg};
use crate::ordering::{Version, lemma_vlt_order, version_less, vlt};

verus! {

/// Visibility state of one content object in the local index.
pub struct ObjectVisibility {
    /// The object row exists locally.
    pub exists: bool,
    /// A purge marker exists.
    pub purged: bool,
    /// The hidden marker and its version, if hidden.
    pub hidden: Option<Version>,
}

/// State as values.
pub type VisibilityView = (bool, bool, Option<(u64, Seq<char>, Seq<char>)>);

impl View for ObjectVisibility {
    type V = VisibilityView;

    open spec fn view(&self) -> VisibilityView {
        (self.exists, self.purged, match self.hidden { Some(v) => Some(v@), None => None })
    }
}

/// A received hide event: ignored once purged; otherwise it marks the object
/// hidden unless a strictly newer hide marker is already there.
pub open spec fn after_hidden(s: VisibilityView, v: (u64, Seq<char>, Seq<char>)) -> VisibilityView {
    if s.1 {
        s
    } else {
        match s.2 {
            Some(h) => if vlt(v, h) { s } else { (s.0, s.1, Some(v)) },
            None => (s.0, s.1, Some(v)),
        }
    }
}

/// A received restore event: ignored once purged; clears a hide marker that is
/// not newer than the restore.
pub open spec fn after_restored(s: VisibilityView, v: (u64, Seq<char>, Seq<char>)) -> VisibilityView {
    if s.1 {
        s
    } else {
        match s.2 {
            Some(h) => if vlt(v, h) { s } else { (s.0, s.1, None) },
            None => s,
        }
    }
}

/// A received purge event: marks the object purged; when the object exists its
/// hide marker (with its records) is removed.
pub open spec fn after_purged(s: VisibilityView) -> VisibilityView {
    if s.0 { (s.0, true, None) } else { (s.0, true, s.2) }
}

/// Applies a hide event received from another device.
pub fn apply_hidden_event(s: &mut ObjectVisibility, v: Version)
    ensures
        final(s)@ == after_hidden(old(s)@, v@),
{
    if s.purged {
        return;
    }
    let replace = match &s.hidden {
        Some(h) => !version_less(&v, h),
        None => true,
    };
    if replace {
        s.hidden = Some(v);
    }
}

/// Applies a restore event received from another device.
pub fn apply_restored_event(s: &mut ObjectVisibility, v: &Version)
    ensures
        final(s)@ == after_restored(old(s)@, v@),
{
    if s.purged {
        return;
    }
    let clear = match &s.hidden {
        Some(h) => !version_less(v, h),
        None => false,
    };
    if clear {
        s.hidden = None;
    }
}

/// Applies a purge event received from another device.
pub fn apply_purged_event(s: &mut ObjectVisibility)
    ensures
        final(s)@ == after_purged(old(s)@),
{
    s.purged = true;
    if s.exists {
        s.hidden = None;
    }
}

/// A purged object stays purged and unchanged whatever hide or restore events follow.
pub proof fn lemma_purge_absorbs(s: VisibilityView, v: (u64, Seq<char>, Seq<char>))
    ensures
        after_purged(s).1,
        after_hidden(after_purged(s), v) == after_purged(s),
        after_restored(after_purged(s), v) == after_purged(s),
{
}

/// Replaying a received hide or restore event changes nothing.
pub proof fn lemma_visibility_events_idempotent(s: VisibilityView, v: (u64, Seq<char>, Seq<char>))
    ensures
        after_hidden(after_hidden(s, v), v) == after_hidden(s, v),
        after_restored(after_restored(s, v), v) == after_restored(s, v),
        after_purged(after_purged(s)) == after_purged(s),
{
    lemma_vlt_order(v, v, v);
}

/// A hide followed by a restore that is not older shows the object again; a
/// restore older than the hide leaves it hidden.
pub proof fn lemma_restore_after_hide(
    s: VisibilityView,
    h: (u64, Seq<char>, Seq<char>),
    r: (u64, Seq<char>, Seq<char>),
)
    requires
        !s.1,
        s.2 is None,
    ensures
        after_restored(after_hidden(s, h), r).2 is None <==> !vlt(r, h),
{
}

/// A received hide leaves the object hidden under the newest hide seen: the
/// marker afterwards is the event's version or the marker before, and is
/// older than neither. Nothing else about the object changes.
pub proof fn lemma_hide_marker_is_newest(s: VisibilityView, v: (u64, Seq<char>, Seq<char>))
    requires
        !s.1,
    ensures
        after_hidden(s, v).0 == s.0,
        !after_hidden(s, v).1,
        after_hidden(s, v).2 matches Some(m) && !vlt(m, v) && (s.2 matches Some(h) ==> !vlt(m, h))
            && (m == v || s.2 == Some(m)),
{
    lemma_vlt_order(v, v, v);
    if let Some(h) = s.2 {
        lemma_vlt_order(v, h, v);
        lemma_vlt_order(h, h, h);
    }
}

/// Received hide events commute: whatever order two of them arrive in, the
/// object ends in the same state.
pub proof fn lemma_hides_commute(
    s: VisibilityView,
    a: (u64, Seq<char>, Seq<char>),
    b: (u64, Seq<char>, Seq<char>),
)
    ensures
        after_hidden(after_hidden(s, a), b) == after_hidden(after_hidden(s, b), a),
{
    lemma_vlt_order(a, b, a);
    lemma_vlt_order(b, a, b);
    if let Some(h) = s.2 {
        lemma_vlt_order(a, b, h);
        lemma_vlt_order(b, a, h);
        lemma_vlt_order(a, h, b);
        lemma_vlt_order(b, h, a);
        lemma_vlt_order(h, a, b);
        lemma_vlt_order(h, b, a);
    }
}

/// A restore older than a hide commutes with it: in either order the restore
/// cannot show the object again, and the object ends hidden under the same
/// (newest) marker, or untouched when purged.
pub proof fn lemma_older_restore_commutes_with_hide(
    s: VisibilityView,
    h: (u64, Seq<char>, Seq<char>),
    r: (u64, Seq<char>, Seq<char>),
)
    requires
        vlt(r, h),
    ensures
        after_restored(after_hidden(s, h), r) == after_hidden(after_restored(s, r), h),
        !s.1 ==> after_restored(after_hidden(s, h), r).2 is Some,
{
    lemma_vlt_order(r, h, r);
    if let Some(m) = s.2 {
        lemma_vlt_order(r, m, h);
        lemma_vlt_order(r, h, m);
        lemma_vlt_order(m, r, h);
        lemma_vlt_order(h, m, r);
        lemma_vlt_order(m, h, r);
    }
}

/// Local action on an object's visibility.
#[derive(Debug, Clone, Copy, PartialEq, Eq)]
pub enum VisibilityAction {
    Hide,
    Restore,
    Purge,
}

/// What a local action does: an error, nothing (already in the target state),
/// or a change that is also recorded as a journal event.
pub open spec fn local_action_outcome(a: VisibilityAction, s: VisibilityView) -> Option<bool> {
    if !s.0 || s.1 {
        None
    } else {
        match a {
            VisibilityAction::Hide => Some(s.2 is None),
            VisibilityAction::Restore => Some(s.2 is Some),
            VisibilityAction::Purge => if s.2 is Some { Some(true) } else { None },
        }
    }
}

/// Decides a local hide, restore or purge: `Ok(true)` when the state changes and an
/// event is written, `Ok(false)` when nothing is to be done, an error when the
/// object is unknown or purged, or (for purge) not hidden first.
pub fn decide_local_action(a: VisibilityAction, s: &ObjectVisibility) -> (r: Result<bool, ChatVaultError>)
    ensures
        match local_action_outcome(a, s@) {
            Some(b) => r == Ok::<bool, ChatVaultError>(b),
            None => r matches Err(e) && e is Internal,
        },
{
    if !s.exists {
        return Err(ChatVaultError::Internal(msg("内容对象不存在")));
    }
    if s.purged {
        return Err(ChatVaultError::Internal(msg("对象已彻底删除")));
    }
    match a {
        VisibilityAction::Hide => Ok(s.hidden.is_none()),
        VisibilityAction::Restore => Ok(s.hidden.is_some()),
        VisibilityAction::Purge => {
            if s.hidden.is_some() {
                Ok(true)
            } else {
                Err(ChatVaultError::Internal(msg("请先隐藏后再彻底删除")))
            }
        }
    }
}

} // verus!
