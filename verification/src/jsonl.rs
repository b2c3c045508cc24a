//! Line framing of journal segments: one serialized event per line.
use vstd::prelude::*;
use crate::text::{push_char, trim_both, trim_str};

verus! {

/// The pieces of `s` between newline characters, in order; the text after
/// the last newline is the last piece (empty when `s` ends with a newline).
pub open spec fn split_nl(s: Seq<char>) -> Seq<Seq<char>>
    decreases s.len(),
{
    if s.len() == 0 {
        seq![Seq::empty()]
    } else {
        let r = split_nl(s.drop_last());
        if s.last() == '\n' {
            r.push(Seq::empty())
        } else {
            r.update(r.len() - 1, r.last().push(s.last()))
        }
    }
}

proof fn lemma_split_nl_nonempty(s: Seq<char>)
    ensures
        split_nl(s).len() >= 1,
    decreases s.len(),
{
    if s.len() > 0 {
        lemma_split_nl_nonempty(s.drop_last());
    }
}

/// A piece is kept when something is left of it after trimming.
pub open spec fn non_blank_piece() -> spec_fn(Seq<char>) -> bool {
    |l: Seq<char>| l.len() > 0
}

/// The trimmed pieces of a segment's text.
pub open spec fn trimmed_pieces(s: Seq<char>) -> Seq<Seq<char>> {
    split_nl(s).map_values(|l: Seq<char>| trim_both(l))
}

/// The lines of a segment that carry an event: every piece between newlines,
/// trimmed, without the ones left empty.
pub open spec fn jsonl_lines_spec(s: Seq<char>) -> Seq<Seq<char>> {
    trimmed_pieces(s).filter(non_blank_piece())
}

/// The texts of a list of strings.
pub open spec fn string_texts(v: Seq<String>) -> Seq<Seq<char>> {
    v.map_values(|x: String| x@)
}

/// Splits a segment's text into the lines that carry events, each trimmed.
pub fn jsonl_lines(text: &str) -> (r: Vec<String>)
    ensures
        string_texts(r@) == jsonl_lines_spec(text@),
{
    broadcast use vstd::string::axiom_spec_iter;
    let n = text.unicode_len();
    let mut pieces: Vec<String> = Vec::new();
    let mut cur = String::new();
    let mut i: usize = 0;
    proof {
        assert(text@.subrange(0, 0) =~= Seq::<char>::empty());
        assert(string_texts(pieces@).push(cur@) =~= split_nl(text@.subrange(0, 0)));
    }
    for c in it: text.chars()
        invariant
            n == text@.len(),
            i == it.index(),
            it.seq() == text@,
            string_texts(pieces@).push(cur@) == split_nl(text@.subrange(0, i as int)),
    {
        let ghost before = text@.subrange(0, i as int);
        let ghost after = text@.subrange(0, i + 1);
        proof {
            assert(after.drop_last() =~= before);
            assert(after.last() == c);
            lemma_split_nl_nonempty(before);
        }
        if c == '\n' {
            let ghost ps = string_texts(pieces@);
            let ghost cv = cur@;
            let mut done = String::new();
            std::mem::swap(&mut done, &mut cur);
            pieces.push(done);
            proof {
                assert(string_texts(pieces@) =~= ps.push(cv));
                assert(string_texts(pieces@).push(cur@) =~= split_nl(before).push(Seq::empty()));
            }
        } else {
            let ghost ps = string_texts(pieces@);
            let ghost cv = cur@;
            push_char(&mut cur, c);
            proof {
                let r = split_nl(before);
                assert(r == ps.push(cv));
                assert(ps.push(cur@) =~= r.update(r.len() - 1, r.last().push(c)));
            }
        }
        i = i + 1;
    }
    let ghost ps = string_texts(pieces@);
    let ghost cv = cur@;
    pieces.push(cur);
    proof {
        assert(text@.subrange(0, n as int) =~= text@);
        assert(string_texts(pieces@) =~= ps.push(cv));
        assert(string_texts(pieces@) == split_nl(text@));
    }
    let ghost all = trimmed_pieces(text@);
    let mut out: Vec<String> = Vec::new();
    let m = pieces.len();
    let mut k: usize = 0;
    proof {
        reveal(Seq::filter);
        assert(all.subrange(0, 0) =~= Seq::<Seq<char>>::empty());
    }
    while k < m
        invariant
            m == pieces@.len(),
            k <= m,
            all == trimmed_pieces(text@),
            string_texts(pieces@) == split_nl(text@),
            all.len() == m,
            string_texts(out@) == all.subrange(0, k as int).filter(non_blank_piece()),
        decreases m - k,
    {
        let t = trim_str(pieces[k].as_str());
        proof {
            reveal(Seq::filter);
            assert(all.subrange(0, k + 1).drop_last() =~= all.subrange(0, k as int));
            assert(all.subrange(0, k + 1).last() == all[k as int]);
            assert(string_texts(pieces@)[k as int] == pieces@[k as int]@);
            assert(all[k as int] == trim_both(split_nl(text@)[k as int]));
            assert(t@ == all[k as int]);
        }
        if t.unicode_len() > 0 {
            let ghost before = string_texts(out@);
            out.push(String::from_str(t));
            proof {
                assert(string_texts(out@) =~= before.push(t@));
            }
        }
        k = k + 1;
    }
    proof {
        assert(all.subrange(0, m as int) =~= all);
    }
    out
}

} // verus!

verus! {

/// A segment's text: each line followed by a newline.
pub open spec fn jsonl_text_spec(lines: Seq<Seq<char>>) -> Seq<char>
    decreases lines.len(),
{
    if lines.len() == 0 {
        Seq::empty()
    } else {
        jsonl_text_spec(lines.drop_last()) + lines.last().push('\n')
    }
}

/// Writes a segment's text: each line followed by a newline.
pub fn jsonl_text(lines: &Vec<String>) -> (r: String)
    ensures
        r@ == jsonl_text_spec(string_texts(lines@)),
{
    let mut out = String::new();
    let n = lines.len();
    let mut k: usize = 0;
    proof {
        assert(string_texts(lines@).subrange(0, 0) =~= Seq::<Seq<char>>::empty());
    }
    while k < n
        invariant
            n == lines@.len(),
            k <= n,
            out@ == jsonl_text_spec(string_texts(lines@).subrange(0, k as int)),
        decreases n - k,
    {
        proof {
            let all = string_texts(lines@);
            assert(all.subrange(0, k + 1).drop_last() =~= all.subrange(0, k as int));
            assert(all.subrange(0, k + 1).last() == lines@[k as int]@);
        }
        let ghost before = out@;
        out.append(lines[k].as_str());
        push_char(&mut out, '\n');
        proof {
            assert(out@ =~= before + lines@[k as int]@.push('\n'));
        }
        k = k + 1;
    }
    proof {
        assert(string_texts(lines@).subrange(0, n as int) =~= string_texts(lines@));
    }
    out
}

/// A line that frames without change: non-empty, already trimmed, and free
/// of newlines (what a serialized event is).
pub open spec fn framable_line(l: Seq<char>) -> bool {
    &&& l.len() > 0
    &&& trim_both(l) == l
    &&& forall|i: int| 0 <= i < l.len() ==> l[i] != '\n'
}

proof fn lemma_split_append_plain(p: Seq<char>, t: Seq<char>)
    requires
        forall|i: int| 0 <= i < t.len() ==> t[i] != '\n',
    ensures
        split_nl(p + t) == split_nl(p).update(split_nl(p).len() - 1, split_nl(p).last() + t),
    decreases t.len(),
{
    lemma_split_nl_nonempty(p);
    if t.len() == 0 {
        assert(p + t =~= p);
        assert(split_nl(p).last() + t =~= split_nl(p).last());
        assert(split_nl(p).update(split_nl(p).len() - 1, split_nl(p).last()) =~= split_nl(p));
    } else {
        let t0 = t.drop_last();
        lemma_split_append_plain(p, t0);
        assert((p + t).drop_last() =~= p + t0);
        assert((p + t).last() == t.last());
        let r = split_nl(p);
        let r0 = r.update(r.len() - 1, r.last() + t0);
        assert(r0.last() == r.last() + t0);
        assert(r0.last().push(t.last()) =~= r.last() + t);
        assert(r0.update(r0.len() - 1, r0.last().push(t.last())) =~= r.update(r.len() - 1, r.last() + t));
    }
}

proof fn lemma_split_text(lines: Seq<Seq<char>>)
    requires
        forall|k: int| 0 <= k < lines.len() ==> framable_line(#[trigger] lines[k]),
    ensures
        split_nl(jsonl_text_spec(lines)) == lines.push(Seq::<char>::empty()),
    decreases lines.len(),
{
    if lines.len() == 0 {
        assert(split_nl(Seq::<char>::empty()) =~= seq![Seq::<char>::empty()]);
        assert(lines.push(Seq::<char>::empty()) =~= seq![Seq::<char>::empty()]);
    } else {
        let init = lines.drop_last();
        let l = lines.last();
        assert forall|k: int| 0 <= k < init.len() implies framable_line(#[trigger] init[k]) by {
            assert(init[k] == lines[k]);
        }
        lemma_split_text(init);
        let p = jsonl_text_spec(init);
        assert(framable_line(lines[lines.len() - 1]));
        lemma_split_append_plain(p, l);
        let whole = jsonl_text_spec(lines);
        assert(whole =~= (p + l).push('\n'));
        assert(whole.drop_last() =~= p + l);
        let r = init.push(Seq::<char>::empty());
        assert(r.last() + l =~= l);
        assert(r.update(r.len() - 1, l) =~= lines);
    }
}

proof fn lemma_trim_empty()
    ensures
        trim_both(Seq::<char>::empty()) == Seq::<char>::empty(),
{
}

proof fn lemma_filter_all_kept(ls: Seq<Seq<char>>)
    requires
        forall|k: int| 0 <= k < ls.len() ==> (#[trigger] ls[k]).len() > 0,
    ensures
        ls.filter(non_blank_piece()) == ls,
    decreases ls.len(),
{
    reveal(Seq::filter);
    if ls.len() > 0 {
        let init = ls.drop_last();
        assert forall|k: int| 0 <= k < init.len() implies (#[trigger] init[k]).len() > 0 by {
            assert(init[k] == ls[k]);
        }
        lemma_filter_all_kept(init);
        assert(ls.last().len() > 0);
        assert(init.push(ls.last()) =~= ls);
    }
}

/// Framing round trip: splitting the text written for event lines gives the
/// same lines back, in order.
pub proof fn lemma_jsonl_roundtrip(lines: Seq<Seq<char>>)
    requires
        forall|k: int| 0 <= k < lines.len() ==> framable_line(#[trigger] lines[k]),
    ensures
        jsonl_lines_spec(jsonl_text_spec(lines)) == lines,
{
    lemma_split_text(lines);
    lemma_trim_empty();
    let pieces = lines.push(Seq::<char>::empty());
    let trimmed = pieces.map_values(|l: Seq<char>| trim_both(l));
    assert(trimmed =~= pieces) by {
        assert forall|k: int| 0 <= k < pieces.len() implies trimmed[k] == pieces[k] by {
            if k < lines.len() {
                assert(framable_line(lines[k]));
            }
        }
    }
    reveal(Seq::filter);
    assert(pieces.drop_last() =~= lines);
    assert(!(non_blank_piece())(pieces.last()));
    assert forall|k: int| 0 <= k < lines.len() implies (#[trigger] lines[k]).len() > 0 by {
        assert(framable_line(lines[k]));
    }
    lemma_filter_all_kept(lines);
}

} // verus!
