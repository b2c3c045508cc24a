//! Ordering of texts by code point (the order SQLite's binary collation
//! gives UTF-8 text) and of synchronized versions.
use vstd::prelude::*;

verus! {

/// `a` sorts strictly before `b`, character by character.
pub open spec fn text_lt(a: Seq<char>, b: Seq<char>) -> bool
    decreases a.len(),
{
    if a.len() == 0 {
        b.len() > 0
    } else if b.len() == 0 {
        false
    } else if a[0] < b[0] {
        true
    } else if a[0] == b[0] {
        text_lt(a.drop_first(), b.drop_first())
    } else {
        false
    }
}

/// No text sorts before itself.
pub proof fn lemma_text_lt_irreflexive(a: Seq<char>)
    ensures
        !text_lt(a, a),
    decreases a.len(),
{
    if a.len() > 0 {
        lemma_text_lt_irreflexive(a.drop_first());
    }
}

/// Two texts cannot each sort before the other.
pub proof fn lemma_text_lt_asymmetric(a: Seq<char>, b: Seq<char>)
    ensures
        !(text_lt(a, b) && text_lt(b, a)),
    decreases a.len(),
{
    if a.len() > 0 && b.len() > 0 && a[0] == b[0] {
        lemma_text_lt_asymmetric(a.drop_first(), b.drop_first());
    }
}

/// Sorting before is transitive.
pub proof fn lemma_text_lt_transitive(a: Seq<char>, b: Seq<char>, c: Seq<char>)
    requires
        text_lt(a, b),
        text_lt(b, c),
    ensures
        text_lt(a, c),
    decreases a.len(),
{
    if a.len() > 0 && b.len() > 0 && c.len() > 0 && a[0] == b[0] && b[0] == c[0] {
        lemma_text_lt_transitive(a.drop_first(), b.drop_first(), c.drop_first());
    }
}

/// Distinct texts are ordered one way or the other.
pub proof fn lemma_text_lt_total(a: Seq<char>, b: Seq<char>)
    requires
        a != b,
    ensures
        text_lt(a, b) || text_lt(b, a),
    decreases a.len(),
{
    if a.len() > 0 && b.len() > 0 && a[0] == b[0] {
        if a.drop_first() == b.drop_first() {
            assert(a =~= seq![a[0]] + a.drop_first());
            assert(b =~= seq![b[0]] + b.drop_first());
        }
        lemma_text_lt_total(a.drop_first(), b.drop_first());
    } else if a.len() == 0 && b.len() == 0 {
        assert(a =~= b);
    }
}

/// Whether `a` sorts strictly before `b`.
pub fn text_less(a: &str, b: &str) -> (r: bool)
    ensures
        r == text_lt(a@, b@),
{
    let n = a.unicode_len();
    let m = b.unicode_len();
    let mut i: usize = 0;
    proof {
        assert(a@.subrange(0, n as int) =~= a@);
        assert(b@.subrange(0, m as int) =~= b@);
    }
    while i < n && i < m && a.get_char(i) == b.get_char(i)
        invariant
            n == a@.len(),
            m == b@.len(),
            i <= n,
            i <= m,
            text_lt(a@, b@) == text_lt(a@.subrange(i as int, n as int), b@.subrange(i as int, m as int)),
        decreases n - i,
    {
        proof {
            let x = a@.subrange(i as int, n as int);
            let y = b@.subrange(i as int, m as int);
            assert(x.drop_first() =~= a@.subrange(i + 1, n as int));
            assert(y.drop_first() =~= b@.subrange(i + 1, m as int));
        }
        i = i + 1;
    }
    proof {
        assert(a@.subrange(0, n as int) =~= a@);
        assert(b@.subrange(0, m as int) =~= b@);
    }
    if i == n {
        i < m
    } else if i == m {
        false
    } else {
        a.get_char(i) < b.get_char(i)
    }
}

/// Version of a synchronized update; versions compare by logical clock, then
/// device identifier, then event identifier.
pub struct Version {
    pub logical_clock: u64,
    pub device_id: String,
    pub event_id: String,
}

/// `a` is strictly older than `b`.
pub open spec fn version_lt(a: Version, b: Version) -> bool {
    ||| a.logical_clock < b.logical_clock
    ||| (a.logical_clock == b.logical_clock && text_lt(a.device_id@, b.device_id@))
    ||| (a.logical_clock == b.logical_clock && a.device_id@ == b.device_id@ && text_lt(a.event_id@, b.event_id@))
}

/// `a` and `b` denote the same version.
pub open spec fn version_eq(a: Version, b: Version) -> bool {
    a.logical_clock == b.logical_clock && a.device_id@ == b.device_id@ && a.event_id@ == b.event_id@
}

/// Whether `a` is strictly older than `b`.
pub fn version_less(a: &Version, b: &Version) -> (r: bool)
    ensures
        r == version_lt(*a, *b),
{
    if a.logical_clock != b.logical_clock {
        return a.logical_clock < b.logical_clock;
    }
    if text_less(a.device_id.as_str(), b.device_id.as_str()) {
        return true;
    }
    if text_less(b.device_id.as_str(), a.device_id.as_str()) {
        proof { lemma_text_lt_asymmetric(a.device_id@, b.device_id@); }
        return false;
    }
    proof {
        if a.device_id@ != b.device_id@ {
            lemma_text_lt_total(a.device_id@, b.device_id@);
        }
    }
    text_less(a.event_id.as_str(), b.event_id.as_str())
}

/// Versions are totally ordered: exactly one of older, same, newer.
pub proof fn lemma_version_trichotomy(a: Version, b: Version)
    ensures
        version_lt(a, b) || version_eq(a, b) || version_lt(b, a),
        !(version_lt(a, b) && version_lt(b, a)),
        version_eq(a, b) ==> !version_lt(a, b),
{
    lemma_text_lt_asymmetric(a.device_id@, b.device_id@);
    lemma_text_lt_asymmetric(a.event_id@, b.event_id@);
    lemma_text_lt_irreflexive(a.device_id@);
    lemma_text_lt_irreflexive(a.event_id@);
    if a.device_id@ != b.device_id@ {
        lemma_text_lt_total(a.device_id@, b.device_id@);
    }
    if a.event_id@ != b.event_id@ {
        lemma_text_lt_total(a.event_id@, b.event_id@);
    }
}

/// Being older is transitive.
pub proof fn lemma_version_transitive(a: Version, b: Version, c: Version)
    requires
        version_lt(a, b),
        version_lt(b, c),
    ensures
        version_lt(a, c),
{
    if a.logical_clock == b.logical_clock && b.logical_clock == c.logical_clock {
        if text_lt(a.device_id@, b.device_id@) && text_lt(b.device_id@, c.device_id@) {
            lemma_text_lt_transitive(a.device_id@, b.device_id@, c.device_id@);
        }
        lemma_text_lt_irreflexive(a.device_id@);
        lemma_text_lt_irreflexive(b.device_id@);
        if a.device_id@ == b.device_id@ && b.device_id@ == c.device_id@ {
            lemma_text_lt_transitive(a.event_id@, b.event_id@, c.event_id@);
        }
    }
}

} // verus!

verus! {

impl View for Version {
    type V = (u64, Seq<char>, Seq<char>);

    open spec fn view(&self) -> (u64, Seq<char>, Seq<char>) {
        (self.logical_clock, self.device_id@, self.event_id@)
    }
}

/// Version order on views: clock, then device, then event.
pub open spec fn vlt(a: (u64, Seq<char>, Seq<char>), b: (u64, Seq<char>, Seq<char>)) -> bool {
    ||| a.0 < b.0
    ||| (a.0 == b.0 && text_lt(a.1, b.1))
    ||| (a.0 == b.0 && a.1 == b.1 && text_lt(a.2, b.2))
}

/// The view order agrees with the version order.
pub proof fn lemma_vlt_is_version_lt(a: Version, b: Version)
    ensures
        vlt(a@, b@) == version_lt(a, b),
{
}

/// View versions are totally and transitively ordered.
pub proof fn lemma_vlt_order(
    a: (u64, Seq<char>, Seq<char>),
    b: (u64, Seq<char>, Seq<char>),
    c: (u64, Seq<char>, Seq<char>),
)
    ensures
        !vlt(a, a),
        !(vlt(a, b) && vlt(b, a)),
        a != b ==> vlt(a, b) || vlt(b, a),
        vlt(a, b) && vlt(b, c) ==> vlt(a, c),
{
    lemma_text_lt_irreflexive(a.1);
    lemma_text_lt_irreflexive(a.2);
    lemma_text_lt_irreflexive(b.1);
    lemma_text_lt_asymmetric(a.1, b.1);
    lemma_text_lt_asymmetric(a.2, b.2);
    if a.1 != b.1 {
        lemma_text_lt_total(a.1, b.1);
    }
    if a.2 != b.2 {
        lemma_text_lt_total(a.2, b.2);
    }
    if vlt(a, b) && vlt(b, c) && a.0 == b.0 && b.0 == c.0 {
        if text_lt(a.1, b.1) && text_lt(b.1, c.1) {
            lemma_text_lt_transitive(a.1, b.1, c.1);
        }
        if a.1 == b.1 && b.1 == c.1 && text_lt(a.2, b.2) && text_lt(b.2, c.2) {
            lemma_text_lt_transitive(a.2, b.2, c.2);
        }
    }
}


/// Inserting `x` at `pos` adds it to the end of the items of its kind, when no
/// item of its kind follows `pos`; items of other kinds keep their order.
/// This is what makes an insertion sort keep equal keys in arrival order.
pub proof fn lemma_filter_insert<A>(s: Seq<A>, pos: int, x: A, pred: spec_fn(A) -> bool)
    requires
        0 <= pos <= s.len(),
        pred(x) ==> forall|j: int| pos <= j < s.len() ==> !pred(#[trigger] s[j]),
    ensures
        s.insert(pos, x).filter(pred) == if pred(x) { s.filter(pred).push(x) } else { s.filter(pred) },
{
    let pre = s.subrange(0, pos);
    let post = s.subrange(pos, s.len() as int);
    assert(s =~= pre + post);
    assert(s.insert(pos, x) =~= pre.push(x) + post);
    Seq::filter_distributes_over_add(pre, post, pred);
    Seq::filter_distributes_over_add(pre.push(x), post, pred);
    pre.lemma_filter_push(x, pred);
    if pred(x) {
        assert forall|j: int| 0 <= j < post.len() implies !pred(#[trigger] post[j]) by {
            assert(post[j] == s[pos + j]);
        }
        assert(post.all(|y: A| !pred(y)));
        post.lemma_all_neg_filter_empty(pred);
        assert(post.filter(pred) =~= Seq::<A>::empty());
        assert(pre.filter(pred).push(x) + post.filter(pred) =~= pre.filter(pred).push(x));
        assert(pre.filter(pred) + post.filter(pred) =~= pre.filter(pred));
    }
}

} // verus!
