//! Hint search integration and rendering: trimming the query, filtering the
//! provider's results, validating the stored match offsets, and composing the
//! highlighted status line.
//!
//! The search provider itself is outside work: the host calls
//! [`Chat::begin_update_hints`], runs the search on the returned query (if
//! any), hands the results to [`Chat::finish_update_hints`], and emits what
//! [`Chat::render_hints`] composes.

use vstd::prelude::*;

use crate::chat::cands_view;
use crate::chat::clone_chars;
use crate::chat::Chat;
use crate::chat::ChatModel;

verus! {

/// Greatest length a candidate may have and still be offered as a hint:
/// longer ones could never be typed back into the chat input.
pub const MAX_INPUT_LEN: usize = 192;

/// Width beyond which the status line will be cut off by the host display.
pub const STATUS_DISPLAY_LIMIT: usize = 64;

/// Appends `src[from .. to]` to `dst`.
pub fn push_range(dst: &mut Vec<char>, src: &Vec<char>, from: usize, to: usize)
    requires
        from <= to <= src@.len(),
    ensures
        final(dst)@ == old(dst)@ + src@.subrange(from as int, to as int),
{
    proof {
        assert(dst@ =~= old(dst)@ + src@.subrange(from as int, from as int));
    }
    let mut k = from;
    while k < to
        invariant
            from <= k <= to <= src@.len(),
            dst@ == old(dst)@ + src@.subrange(from as int, k as int),
        decreases to - k,
    {
        dst.push(src[k]);
        k = k + 1;
        proof {
            assert(dst@ =~= old(dst)@ + src@.subrange(from as int, k as int));
        }
    }
}

/// First index at or after `i` holding a non-space, or the length.
pub open spec fn first_non_space(s: Seq<char>, i: int) -> int
    decreases s.len() - i,
{
    if i < 0 || i >= s.len() {
        s.len() as int
    } else if s[i] != ' ' {
        i
    } else {
        first_non_space(s, i + 1)
    }
}

/// Least end position at or before `j` whose last character is a non-space,
/// or 0 when `s[..j]` is all spaces.
pub open spec fn last_non_space_end(s: Seq<char>, j: int) -> int
    decreases j,
{
    if j <= 0 {
        0
    } else if s[j - 1] != ' ' {
        j
    } else {
        last_non_space_end(s, j - 1)
    }
}

/// The buffer with leading and trailing spaces removed.
pub open spec fn trim_spaces(s: Seq<char>) -> Seq<char> {
    let a = first_non_space(s, 0);
    let b = last_non_space_end(s, s.len() as int);
    if a <= b {
        s.subrange(a, b)
    } else {
        Seq::empty()
    }
}

/// The first-non-space scan stays in range and stops on a non-space.
pub proof fn lemma_first_non_space_props(s: Seq<char>, i: int)
    requires
        0 <= i <= s.len(),
    ensures
        i <= first_non_space(s, i) <= s.len(),
        first_non_space(s, i) < s.len() ==> s[first_non_space(s, i)] != ' ',
    decreases s.len() - i,
{
    if i < s.len() && s[i] == ' ' {
        lemma_first_non_space_props(s, i + 1);
    }
}

/// The last-non-space scan stays in range and stops after a non-space.
pub proof fn lemma_last_non_space_end_props(s: Seq<char>, j: int)
    requires
        0 <= j <= s.len(),
    ensures
        0 <= last_non_space_end(s, j) <= j,
        last_non_space_end(s, j) > 0 ==> s[last_non_space_end(s, j) - 1] != ' ',
    decreases j,
{
    if j > 0 && s[j - 1] == ' ' {
        lemma_last_non_space_end_props(s, j - 1);
    }
}

/// Copies the buffer with leading and trailing spaces removed.
fn trimmed_text(text: &Vec<char>) -> (r: Vec<char>)
    ensures
        r@ == trim_spaces(text@),
{
    let n = text.len();
    let mut a: usize = 0;
    while a < n && text[a] == ' '
        invariant
            n == text@.len(),
            a <= n,
            first_non_space(text@, 0) == first_non_space(text@, a as int),
        decreases n - a,
    {
        a = a + 1;
    }
    proof {
        assert(a as int == first_non_space(text@, 0));
    }
    let mut b: usize = n;
    while b > a && text[b - 1] == ' '
        invariant
            n == text@.len(),
            a <= b <= n,
            a as int == first_non_space(text@, 0),
            last_non_space_end(text@, n as int) == last_non_space_end(text@, b as int),
            a < b || b == n,
        decreases b,
    {
        proof {
            if b - 1 == a && a < n {
                lemma_first_non_space_props(text@, 0);
                assert(false);
            }
        }
        b = b - 1;
    }
    let mut r: Vec<char> = Vec::new();
    push_range(&mut r, text, a, b);
    proof {
        lemma_last_non_space_end_props(text@, n as int);
        if b > a {
            assert(last_non_space_end(text@, b as int) == b);
        }
        assert(r@ =~= trim_spaces(text@));
    }
    r
}

/// The candidates kept from a search: those short enough to type back.
pub open spec fn kept_candidates(rs: Seq<(usize, Seq<char>)>) -> Seq<(usize, Seq<char>)>
    decreases rs.len(),
{
    if rs.len() == 0 {
        Seq::empty()
    } else {
        let rest = kept_candidates(rs.drop_last());
        if rs.last().1.len() <= MAX_INPUT_LEN {
            rest.push(rs.last())
        } else {
            rest
        }
    }
}

/// Effect of storing a finished search: the kept candidates become the hint
/// set (with the query they answered) when any survive; otherwise nothing
/// changes and hints stay absent.
pub open spec fn spec_store_hints(
    m: ChatModel,
    q: Seq<char>,
    rs: Seq<(usize, Seq<char>)>,
) -> ChatModel {
    let kept = kept_candidates(rs);
    if kept.len() > 0 {
        ChatModel { search: Some(q), hints: Some(kept), ..m }
    } else {
        m
    }
}

/// Appending a candidate keeps the views aligned.
proof fn lemma_cands_view_push(s: Seq<(usize, Vec<char>)>, p: (usize, Vec<char>))
    ensures
        cands_view(s.push(p)) == cands_view(s).push((p.0, p.1@)),
{
    assert(cands_view(s.push(p)) =~= cands_view(s).push((p.0, p.1@)));
}

/// `n` occurs in `h` starting at `i`.
pub open spec fn match_at(h: Seq<char>, n: Seq<char>, i: int) -> bool {
    0 <= i && i + n.len() <= h.len() && h.subrange(i, i + n.len()) == n
}

/// First position at or after `i` where `n` occurs in `h`, if any.
pub open spec fn find_from(h: Seq<char>, n: Seq<char>, i: int) -> Option<int>
    decreases h.len() + 1 - i,
{
    if i < 0 || i + n.len() > h.len() {
        None
    } else if match_at(h, n, i) {
        Some(i)
    } else {
        find_from(h, n, i + 1)
    }
}

/// A found position is a real occurrence.
pub proof fn lemma_find_from_some(h: Seq<char>, n: Seq<char>, i: int, j: int)
    requires
        find_from(h, n, i) == Some(j),
    ensures
        match_at(h, n, j),
        i <= j,
    decreases h.len() + 1 - i,
{
    if !(i < 0 || i + n.len() > h.len()) && !match_at(h, n, i) {
        lemma_find_from_some(h, n, i + 1, j);
    }
}

/// First occurrence of `n` inside `h`, if any.
pub fn find_subseq(h: &Vec<char>, n: &Vec<char>) -> (r: Option<usize>)
    ensures
        match r {
            Some(i) => find_from(h@, n@, 0) == Some(i as int),
            None => find_from(h@, n@, 0) is None,
        },
{
    if n.len() > h.len() {
        return None;
    }
    let bound = h.len() - n.len();
    let mut i: usize = 0;
    loop
        invariant
            n@.len() <= h@.len(),
            h@.len() <= usize::MAX,
            bound == h@.len() - n@.len(),
            i <= bound + 1,
            find_from(h@, n@, 0) == find_from(h@, n@, i as int),
        decreases bound + 1 - i,
    {
        if i > bound {
            return None;
        }
        let mut j: usize = 0;
        let mut mismatch = false;
        while j < n.len() && !mismatch
            invariant
                n@.len() <= h@.len(),
                h@.len() <= usize::MAX,
                bound == h@.len() - n@.len(),
                i <= bound,
                j <= n@.len(),
                !mismatch ==> forall|k: int| 0 <= k < j ==> h@[i + k] == n@[k],
                mismatch ==> !match_at(h@, n@, i as int),
            decreases n@.len() - j, (if mismatch {
                0int
            } else {
                1int
            }),
        {
            if h[i + j] != n[j] {
                proof {
                    assert(h@.subrange(i as int, i + n@.len())[j as int] == h@[i + j]);
                }
                mismatch = true;
            } else {
                j = j + 1;
            }
        }
        if !mismatch {
            proof {
                assert(h@.subrange(i as int, i + n@.len()) =~= n@);
            }
            return Some(i);
        }
        proof {
            if n@.len() == 0 {
                assert(h@.subrange(i as int, i as int) =~= n@);
                assert(false);
            }
        }
        i = i + 1;
    }
}

/// What a hint rendering pass produces.
#[derive(Debug)]
pub enum RenderOutcome {
    /// The composed status line, to be shown persistently (empty when there
    /// are no hints, clearing any prior display).
    Status(Vec<char>),
    /// The stored match offset of the displayed candidate disagrees with the
    /// query's actual position in it: the frame is aborted and this is
    /// reported as a diagnostic, leaving the engine unchanged.
    OffsetMismatch { stored: usize, found: Option<usize> },
}

/// The uncut display: the candidate's left context (muted), the query
/// (bright), and the right context (muted). Mute and bright are conveyed by
/// two-character markup prefixes.
pub open spec fn render_base(q: Seq<char>, off: int, cand: Seq<char>) -> Seq<char> {
    if off == 0 {
        q
    } else {
        seq!['&', '7'] + cand.subrange(0, off) + seq!['&', 'f'] + q
    }
}

/// The uncut display with the right context appended, when there is one.
pub open spec fn render_full(q: Seq<char>, off: int, cand: Seq<char>) -> Seq<char> {
    let base = render_base(q, off, cand);
    if off + q.len() < cand.len() {
        base + seq!['&', '7'] + cand.subrange(off + q.len(), cand.len() as int)
    } else {
        base
    }
}

/// The status line for one candidate: the query alone when it matches the
/// candidate end to end; otherwise the highlighted composition, shifted left
/// when it would be cut off, had no left context, and the query is longer
/// than two characters.
pub open spec fn render_display(q: Seq<char>, off: int, cand: Seq<char>) -> Seq<char> {
    if off == 0 && cand.len() == q.len() {
        q
    } else {
        let full = render_full(q, off, cand);
        if full.len() > STATUS_DISPLAY_LIMIT && off == 0 && q.len() > 2 {
            full.subrange(q.len() - 2, full.len() as int)
        } else {
            full
        }
    }
}

impl Chat {
    /// Starts a hint refresh after a buffer mutation: clears the hint set and
    /// index, and returns the trimmed buffer exactly when it is long enough
    /// (at least two characters) to search for — the search provider is
    /// invoked only in that case.
    pub fn begin_update_hints(&mut self) -> (q: Option<Vec<char>>)
        requires
            old(self)@.wf(),
        ensures
            final(self)@ == (ChatModel { hints: None, hint_pos: 0, ..old(self)@ }),
            final(self)@.wf(),
            match q {
                Some(s) => s@ == trim_spaces(old(self)@.text) && s@.len() >= 2,
                None => trim_spaces(old(self)@.text).len() < 2,
            },
    {
        self.hints = None;
        self.hint_pos = 0;
        let trimmed = trimmed_text(&self.text);
        proof {
            assert(self@ =~~= (ChatModel { hints: None, hint_pos: 0, ..old(self)@ }));
        }
        if trimmed.len() >= 2 {
            Some(trimmed)
        } else {
            None
        }
    }

    /// Stores the provider's results for the query a preceding
    /// [`Chat::begin_update_hints`] returned — exactly the trimmed buffer, at
    /// least two characters long: candidates longer than [`MAX_INPUT_LEN`]
    /// are dropped, and the rest become the hint set — unless none survive,
    /// in which case hints stay absent.
    pub fn finish_update_hints(&mut self, query: Vec<char>, results: Vec<(usize, Vec<char>)>)
        requires
            old(self)@.wf(),
            old(self)@.hints is None,
            old(self)@.hint_pos == 0,
            query@ == trim_spaces(old(self)@.text),
            query@.len() >= 2,
        ensures
            final(self)@ == spec_store_hints(old(self)@, query@, cands_view(results@)),
            final(self)@.wf(),
    {
        let ghost cs = cands_view(results@);
        let mut kept: Vec<(usize, Vec<char>)> = Vec::new();
        proof {
            assert(cs.subrange(0, 0) =~= Seq::<(usize, Seq<char>)>::empty());
            assert(cands_view(kept@) =~= kept_candidates(cs.subrange(0, 0)));
        }
        let mut i: usize = 0;
        while i < results.len()
            invariant
                cs == cands_view(results@),
                i <= results@.len(),
                cands_view(kept@) == kept_candidates(cs.subrange(0, i as int)),
            decreases results@.len() - i,
        {
            if results[i].1.len() <= MAX_INPUT_LEN {
                let off = results[i].0;
                let ctext = clone_chars(&results[i].1);
                let ghost kpre = kept@;
                kept.push((off, ctext));
                proof {
                    lemma_cands_view_push(kpre, (off, ctext));
                }
            }
            proof {
                assert(cs.subrange(0, i + 1).drop_last() =~= cs.subrange(0, i as int));
                assert(cs[i as int] == (results@[i as int].0, results@[i as int].1@));
                assert(cands_view(kept@) =~= kept_candidates(cs.subrange(0, i + 1)));
            }
            i = i + 1;
        }
        proof {
            assert(cs.subrange(0, results@.len() as int) =~= cs);
        }
        if kept.len() > 0 {
            self.search = Some(query);
            self.hints = Some(kept);
            proof {
                assert(self@ =~~= spec_store_hints(old(self)@, query@, cs));
            }
        } else {
            proof {
                assert(self@ =~~= spec_store_hints(old(self)@, query@, cs));
            }
        }
    }

    /// Composes the status line for the current hint state. With no hints,
    /// the status is empty (clearing any prior display). Otherwise the
    /// displayed candidate's stored match offset is checked against the
    /// query's actual first occurrence; on disagreement the frame is aborted
    /// with a diagnostic instead of a status.
    pub fn render_hints(&self) -> (r: RenderOutcome)
        requires
            self@.wf(),
        ensures
            ({
                let m = self@;
                match (m.hints, m.search) {
                    (None, _) => r matches RenderOutcome::Status(s) && s@ == Seq::<char>::empty(),
                    (Some(h), Some(q)) => {
                        let off = h[m.hint_pos].0;
                        let cand = h[m.hint_pos].1;
                        if find_from(cand, q, 0) == Some(off as int) {
                            r matches RenderOutcome::Status(s) && s@ == render_display(
                                q,
                                off as int,
                                cand,
                            )
                        } else {
                            r matches RenderOutcome::OffsetMismatch { stored, found } && stored
                                == off && (match found {
                                Some(t) => find_from(cand, q, 0) == Some(t as int),
                                None => find_from(cand, q, 0) is None,
                            })
                        }
                    },
                    (Some(h), None) => true,
                }
            }),
    {
        let h = match &self.hints {
            None => {
                return RenderOutcome::Status(Vec::new());
            },
            Some(h) => h,
        };
        let q: &Vec<char> = match &self.search {
            Some(s) => s,
            None => {
                return RenderOutcome::Status(Vec::new());
            },
        };
        let off: usize = h[self.hint_pos].0;
        let cand: &Vec<char> = &h[self.hint_pos].1;
        proof {
            assert(cands_view(h@)[self@.hint_pos] == (h@[self@.hint_pos].0, h@[
                self@.hint_pos].1@));
        }
        let found = find_subseq(cand, q);
        let matches_stored = match found {
            Some(t) => t == off,
            None => false,
        };
        if !matches_stored {
            return RenderOutcome::OffsetMismatch { stored: off, found };
        }
        proof {
            lemma_find_from_some(cand@, q@, 0, off as int);
        }
        let qlen = q.len();
        let clen = cand.len();
        if off == 0 && clen == qlen {
            return RenderOutcome::Status(clone_chars(q));
        }
        let mut colored: Vec<char> = Vec::new();
        if off > 0 {
            colored.push('&');
            colored.push('7');
            push_range(&mut colored, cand, 0, off);
            colored.push('&');
            colored.push('f');
            push_range(&mut colored, q, 0, qlen);
            proof {
                assert(q@.subrange(0, qlen as int) =~= q@);
                assert(colored@ =~= render_base(q@, off as int, cand@));
            }
        } else {
            push_range(&mut colored, q, 0, qlen);
            proof {
                assert(q@.subrange(0, qlen as int) =~= q@);
                assert(colored@ =~= render_base(q@, off as int, cand@));
            }
        }
        if off + qlen < clen {
            colored.push('&');
            colored.push('7');
            push_range(&mut colored, cand, off + qlen, clen);
            proof {
                assert(colored@ =~= render_full(q@, off as int, cand@));
            }
        }
        proof {
            assert(colored@ == render_full(q@, off as int, cand@));
        }
        if colored.len() > STATUS_DISPLAY_LIMIT && off == 0 && qlen > 2 {
            proof {
                assert(render_base(q@, off as int, cand@) == q@);
                assert(colored@.len() >= qlen);
            }
            let mut shifted: Vec<char> = Vec::new();
            push_range(&mut shifted, &colored, qlen - 2, colored.len());
            proof {
                assert(shifted@ =~= render_display(q@, off as int, cand@));
            }
            return RenderOutcome::Status(shifted);
        }
        proof {
            assert(colored@ =~= render_display(q@, off as int, cand@));
        }
        RenderOutcome::Status(colored)
    }
}

} // verus!
