//! The clipboard history: newest first, no duplicates, never longer than the
//! configured limit; and the watcher that decides what a clipboard change adds.
use vstd::prelude::*;

use crate::text::{is_blank, is_blank_text};

verus! {

/// The characters of each text, in order.
pub open spec fn texts(v: Seq<String>) -> Seq<Seq<char>> {
    v.map_values(|s: String| s@)
}

/// Keeps the entries that differ from `text`.
pub open spec fn other_than(text: Seq<char>) -> spec_fn(Seq<char>) -> bool {
    |e: Seq<char>| e != text
}

/// The limit in force: a configured limit of zero keeps one entry.
pub open spec fn effective_limit(limit: nat) -> nat {
    if limit == 0 {
        1
    } else {
        limit
    }
}

/// The first `n` items of `s`, or all of them when there are fewer
/// (`Vec::truncate`).
pub open spec fn keep_at_most<A>(s: Seq<A>, n: nat) -> Seq<A> {
    if s.len() <= n {
        s
    } else {
        s.take(n as int)
    }
}

/// The history after `text` is recorded: `text` first, then the earlier
/// entries other than `text` in their order, cut to the limit.
pub open spec fn remembered(history: Seq<Seq<char>>, text: Seq<char>, limit: nat) -> Seq<
    Seq<char>,
> {
    keep_at_most(seq![text] + history.filter(other_than(text)), effective_limit(limit))
}

/// What every history satisfies: a limit of at least one, no more entries than
/// the limit, and no entry twice.
pub open spec fn history_ok(history: Seq<Seq<char>>, limit: nat) -> bool {
    &&& limit >= 1
    &&& history.len() <= limit
    &&& history.no_duplicates()
}

/// The history as the rest of the program sees it.
#[verifier::ext_equal]
pub struct ClipModel {
    /// The entries, newest first.
    pub history: Seq<Seq<char>>,
    /// How many entries are kept.
    pub limit: nat,
    /// Texts asked to be put back on the clipboard, oldest first, not yet
    /// handed to the watcher.
    pub requests: Seq<Seq<char>>,
    /// Whether a watcher takes requests; once none does, copies are dropped.
    pub accepting: bool,
}

/// Clipboard history, fed by the watcher that owns the OS clipboard.
pub struct Clip {
    history: Vec<String>,
    limit: usize,
    requests: Vec<String>,
    accepting: bool,
}

impl View for Clip {
    type V = ClipModel;

    closed spec fn view(&self) -> ClipModel {
        ClipModel {
            history: texts(self.history@),
            limit: self.limit as nat,
            requests: texts(self.requests@),
            accepting: self.accepting,
        }
    }
}

/// Filtering keeps a sequence free of duplicates.
proof fn lemma_filter_no_duplicates<A>(s: Seq<A>, p: spec_fn(A) -> bool)
    requires
        s.no_duplicates(),
    ensures
        s.filter(p).no_duplicates(),
    decreases s.len(),
{
    reveal(Seq::filter);
    if s.len() > 0 {
        let init = s.drop_last();
        assert(init.no_duplicates());
        lemma_filter_no_duplicates(init, p);
        let f = init.filter(p);
        if p(s.last()) {
            assert forall|i: int| 0 <= i < f.len() implies f[i] != s.last() by {
                assert(f.contains(f[i]));
                init.lemma_filter_contains_rev(p, f[i]);
                let j = choose|j: int| 0 <= j < init.len() && init[j] == f[i];
                assert(s[j] == init[j]);
            }
            assert(f.push(s.last()) == s.filter(p));
        }
    }
}

/// Filtering a sequence whose items all pass leaves it as it is.
proof fn lemma_filter_all_pass<A>(s: Seq<A>, p: spec_fn(A) -> bool)
    requires
        forall|i: int| 0 <= i < s.len() ==> p(#[trigger] s[i]),
    ensures
        s.filter(p) == s,
    decreases s.len(),
{
    reveal(Seq::filter);
    if s.len() > 0 {
        let init = s.drop_last();
        assert forall|i: int| 0 <= i < init.len() implies p(#[trigger] init[i]) by {
            assert(init[i] == s[i]);
        }
        lemma_filter_all_pass(init, p);
        assert(init.push(s.last()) =~= s);
    }
}

/// Recording a text puts it first and keeps the history well formed.
pub proof fn lemma_remembered_newest_first(history: Seq<Seq<char>>, text: Seq<char>, limit: nat)
    requires
        history.no_duplicates(),
    ensures
        remembered(history, text, limit).len() >= 1,
        remembered(history, text, limit)[0] == text,
        history_ok(remembered(history, text, limit), effective_limit(limit)),
{
    broadcast use vstd::seq_lib::group_filter_ensures;

    let f = history.filter(other_than(text));
    lemma_filter_no_duplicates(history, other_than(text));
    assert forall|i: int| 0 <= i < f.len() implies f[i] != text by {
        assert(other_than(text)(f[i]));
    }
    let all = seq![text] + f;
    vstd::seq_lib::lemma_no_dup_in_concat(seq![text], f);
    let r = remembered(history, text, limit);
    let n = effective_limit(limit);
    if all.len() > n {
        assert forall|i: int, j: int| 0 <= i < r.len() && 0 <= j < r.len() && i != j implies r[i]
            != r[j] by {
            assert(r[i] == all[i] && r[j] == all[j]);
        }
    }
    assert(r[0] == all[0]);
}

/// Recording the same text twice in a row gives the history that recording it once gives.
pub proof fn lemma_remember_twice_same_as_once(
    history: Seq<Seq<char>>,
    text: Seq<char>,
    limit: nat,
)
    ensures
        remembered(remembered(history, text, limit), text, limit) == remembered(
            history,
            text,
            limit,
        ),
{
    broadcast use vstd::seq_lib::group_filter_ensures;

    let p = other_than(text);
    let f = history.filter(p);
    let n = effective_limit(limit);
    let r = remembered(history, text, limit);
    let g = r.drop_first();
    assert(r =~= seq![text] + g);
    assert forall|i: int| 0 <= i < g.len() implies p(#[trigger] g[i]) by {
        assert(g[i] == f[i]);
        assert(p(f[i]));
    }
    lemma_filter_all_pass(g, p);
    assert(seq![text].filter(p) =~= Seq::<Seq<char>>::empty()) by {
        reveal_with_fuel(Seq::filter, 2);
        assert(seq![text].drop_last() =~= Seq::<Seq<char>>::empty());
        assert(!p(text));
    }
    Seq::filter_distributes_over_add(seq![text], g, p);
    assert(r.filter(p) =~= g);
}

/// While there is room, recording a text drops nothing: the history afterwards
/// holds exactly the earlier entries and the text.
pub proof fn lemma_remember_drops_nothing_below_limit(
    history: Seq<Seq<char>>,
    text: Seq<char>,
    limit: nat,
)
    requires
        history.len() < effective_limit(limit),
    ensures
        forall|e: Seq<char>|
            #[trigger] remembered(history, text, limit).contains(e) <==> (e == text
                || history.contains(e)),
{
    broadcast use vstd::seq_lib::group_filter_ensures;

    let p = other_than(text);
    let f = history.filter(p);
    let all = seq![text] + f;
    assert(remembered(history, text, limit) == all);
    assert forall|e: Seq<char>| #[trigger] all.contains(e) <==> (e == text || history.contains(e)) by {
        if all.contains(e) && e != text {
            let i = choose|i: int| 0 <= i < all.len() && all[i] == e;
            assert(f[i - 1] == e);
            assert(f.contains(e));
            history.lemma_filter_contains_rev(p, e);
        }
        if history.contains(e) && e != text {
            let i = choose|i: int| 0 <= i < history.len() && history[i] == e;
            assert(p(history[i]));
            assert(f.contains(e));
            let j = choose|j: int| 0 <= j < f.len() && f[j] == e;
            assert(all[j + 1] == e);
        }
        if e == text {
            assert(all[0] == e);
        }
    }
}

/// Dropping the entries equal to an entry that occurs once removes exactly one.
proof fn lemma_filter_removes_one(s: Seq<Seq<char>>, text: Seq<char>)
    requires
        s.no_duplicates(),
        s.contains(text),
    ensures
        s.filter(other_than(text)).len() == s.len() - 1,
    decreases s.len(),
{
    reveal(Seq::filter);
    let init = s.drop_last();
    assert(init.no_duplicates());
    if s.last() == text {
        assert forall|i: int| 0 <= i < init.len() implies other_than(text)(#[trigger] init[i]) by {
            assert(init[i] == s[i]);
            assert(s[i] != s[s.len() - 1]);
        }
        lemma_filter_all_pass(init, other_than(text));
    } else {
        let k = choose|k: int| 0 <= k < s.len() && s[k] == text;
        assert(init[k] == text);
        lemma_filter_removes_one(init, text);
    }
}

/// Recopying an entry that is already in the history moves it to the top
/// without adding an entry: the history keeps its length and its entries.
pub proof fn lemma_recopy_moves_up(history: Seq<Seq<char>>, text: Seq<char>, limit: nat)
    requires
        history_ok(history, effective_limit(limit)),
        history.contains(text),
    ensures
        remembered(history, text, limit).len() == history.len(),
        remembered(history, text, limit)[0] == text,
        forall|e: Seq<char>|
            #[trigger] remembered(history, text, limit).contains(e) <==> history.contains(e),
{
    broadcast use vstd::seq_lib::group_filter_ensures;

    lemma_filter_removes_one(history, text);
    let p = other_than(text);
    let f = history.filter(p);
    let all = seq![text] + f;
    assert(remembered(history, text, limit) == all);
    assert forall|e: Seq<char>| #[trigger] all.contains(e) <==> history.contains(e) by {
        if all.contains(e) && e != text {
            let i = choose|i: int| 0 <= i < all.len() && all[i] == e;
            assert(f[i - 1] == e);
            assert(f.contains(e));
            history.lemma_filter_contains_rev(p, e);
        }
        if history.contains(e) && e != text {
            let i = choose|i: int| 0 <= i < history.len() && history[i] == e;
            assert(p(history[i]));
            assert(f.contains(e));
            let j = choose|j: int| 0 <= j < f.len() && f[j] == e;
            assert(all[j + 1] == e);
        }
        if e == text {
            assert(all[0] == e);
        }
    }
}

/// Cutting a history to a smaller limit keeps its newest entries, in order.
pub proof fn lemma_keep_at_most_is_prefix<A>(s: Seq<A>, n: nat)
    ensures
        keep_at_most(s, n).len() <= n,
        keep_at_most(s, n).len() <= s.len(),
        forall|i: int| 0 <= i < keep_at_most(s, n).len() ==> #[trigger] keep_at_most(s, n)[i] == s[i],
{
}

/// `idx` picks `a` out of `b`: `a[k]` is `b[idx[k]]`, at increasing positions.
pub open spec fn picks_out<A>(idx: Seq<int>, a: Seq<A>, b: Seq<A>) -> bool {
    &&& idx.len() == a.len()
    &&& forall|k: int| 0 <= k < idx.len() ==> 0 <= #[trigger] idx[k] < b.len() && a[k] == b[idx[k]]
    &&& forall|k: int, j: int| 0 <= k < j < idx.len() ==> idx[k] < idx[j]
}

/// `a` is `b` with some items left out, the rest in their order.
pub open spec fn is_subsequence<A>(a: Seq<A>, b: Seq<A>) -> bool {
    exists|idx: Seq<int>| #[trigger] picks_out(idx, a, b)
}

/// The positions of `s` whose items pass `p`, in order.
pub open spec fn passing_positions<A>(s: Seq<A>, p: spec_fn(A) -> bool) -> Seq<int>
    decreases s.len(),
{
    if s.len() == 0 {
        seq![]
    } else if p(s.last()) {
        passing_positions(s.drop_last(), p).push(s.len() - 1)
    } else {
        passing_positions(s.drop_last(), p)
    }
}

/// Filtering leaves a subsequence.
proof fn lemma_filter_picks_out<A>(s: Seq<A>, p: spec_fn(A) -> bool)
    ensures
        picks_out(passing_positions(s, p), s.filter(p), s),
    decreases s.len(),
{
    reveal(Seq::filter);
    if s.len() > 0 {
        let init = s.drop_last();
        lemma_filter_picks_out(init, p);
        let r = passing_positions(init, p);
        let f = init.filter(p);
        assert forall|k: int| 0 <= k < r.len() implies 0 <= #[trigger] r[k] < s.len() && f[k]
            == s[r[k]] by {
            assert(init[r[k]] == s[r[k]]);
        }
        if p(s.last()) {
            let r2 = r.push(s.len() - 1);
            let f2 = f.push(s.last());
            assert forall|k: int| 0 <= k < r2.len() implies 0 <= #[trigger] r2[k] < s.len() && f2[k]
                == s[r2[k]] by {
                if k < r.len() {
                    assert(r2[k] == r[k] && f2[k] == f[k]);
                }
            }
            assert forall|k: int, j: int| 0 <= k < j < r2.len() implies r2[k] < r2[j] by {
                if j < r.len() {
                    assert(r2[k] == r[k] && r2[j] == r[j]);
                } else {
                    assert(r2[k] == r[k]);
                }
            }
            assert(picks_out(r2, f2, s));
        }
    }
}

/// Recording a text invents nothing: after the text come earlier entries only,
/// none of them the text, in the order they had.
pub proof fn lemma_remembered_rest_is_subsequence(
    history: Seq<Seq<char>>,
    text: Seq<char>,
    limit: nat,
)
    ensures
        is_subsequence(remembered(history, text, limit).drop_first(), history),
        !remembered(history, text, limit).drop_first().contains(text),
{
    broadcast use vstd::seq_lib::group_filter_ensures;

    let p = other_than(text);
    let f = history.filter(p);
    let idx = passing_positions(history, p);
    lemma_filter_picks_out(history, p);
    let r = remembered(history, text, limit);
    let rest = r.drop_first();
    let n = rest.len();
    assert(n <= f.len());
    assert forall|k: int| 0 <= k < n implies #[trigger] rest[k] == f[k] by {
        assert(rest[k] == r[k + 1]);
    }
    let idx2 = idx.take(n as int);
    assert(picks_out(idx2, rest, history)) by {
        assert forall|k: int| 0 <= k < idx2.len() implies 0 <= #[trigger] idx2[k] < history.len()
            && rest[k] == history[idx2[k]] by {
            assert(idx2[k] == idx[k]);
        }
        assert forall|k: int, j: int| 0 <= k < j < idx2.len() implies idx2[k] < idx2[j] by {
            assert(idx2[k] == idx[k] && idx2[j] == idx[j]);
        }
    }
    assert forall|k: int| 0 <= k < n implies rest[k] != text by {
        assert(p(f[k]));
    }
}

/// The requests after `text` is asked for: queued while a watcher takes
/// requests, dropped otherwise.
pub open spec fn queued(m: ClipModel, text: Seq<char>) -> Seq<Seq<char>> {
    if m.accepting {
        m.requests.push(text)
    } else {
        m.requests
    }
}

/// A change to the history other than a new limit.
pub enum ClipEvent {
    /// `Clip::remember` (also what the watcher does when it records a text).
    Remember(Seq<char>),
    /// `Clip::copy`.
    Copy(Seq<char>),
    /// `Clip::take_requests`.
    TakeRequests,
    /// `Clip::clear`.
    Clear,
    /// `Clip::close_requests`.
    CloseRequests,
}

/// The history after `event`.
pub open spec fn after_event(m: ClipModel, event: ClipEvent) -> ClipModel {
    match event {
        ClipEvent::Remember(t) => ClipModel { history: remembered(m.history, t, m.limit), ..m },
        ClipEvent::Copy(t) => ClipModel { requests: queued(m, t), ..m },
        ClipEvent::TakeRequests => ClipModel { requests: seq![], ..m },
        ClipEvent::Clear => ClipModel { history: seq![], ..m },
        ClipEvent::CloseRequests => ClipModel { requests: seq![], accepting: false, ..m },
    }
}

/// The history after `events`, in order.
pub open spec fn after_events(m: ClipModel, events: Seq<ClipEvent>) -> ClipModel
    decreases events.len(),
{
    if events.len() == 0 {
        m
    } else {
        after_event(after_events(m, events.drop_last()), events.last())
    }
}

/// The history after `Clip::set_limit(limit)`.
pub open spec fn after_set_limit(m: ClipModel, limit: nat) -> ClipModel {
    ClipModel {
        limit: effective_limit(limit),
        history: keep_at_most(m.history, effective_limit(limit)),
        ..m
    }
}

/// After `set_limit(n)`, whatever is recorded, copied, taken or cleared until
/// the next `set_limit`, the history keeps at most `max(n, 1)` entries and no
/// entry twice.
pub proof fn lemma_limit_holds_until_next_set_limit(
    m: ClipModel,
    n: nat,
    events: Seq<ClipEvent>,
)
    requires
        history_ok(m.history, m.limit),
    ensures
        after_events(after_set_limit(m, n), events).limit == effective_limit(n),
        history_ok(after_events(after_set_limit(m, n), events).history, effective_limit(n)),
    decreases events.len(),
{
    if events.len() == 0 {
        let h = m.history;
        let k = effective_limit(n);
        if h.len() > k {
            assert forall|i: int, j: int|
                0 <= i < k && 0 <= j < k && i != j implies h.take(k as int)[i] != h.take(
                k as int,
            )[j] by {
                assert(h.take(k as int)[i] == h[i] && h.take(k as int)[j] == h[j]);
            }
        }
    } else {
        lemma_limit_holds_until_next_set_limit(m, n, events.drop_last());
        let before = after_events(after_set_limit(m, n), events.drop_last());
        match events.last() {
            ClipEvent::Remember(t) => {
                lemma_remembered_newest_first(before.history, t, before.limit);
            },
            ClipEvent::Clear => {
                assert(Seq::<Seq<char>>::empty().no_duplicates());
            },
            _ => {},
        }
    }
}

impl Clip {
    /// The history in its well-formed state.
    pub open spec fn well_formed(&self) -> bool {
        history_ok(self@.history, self@.limit)
    }

    /// An empty history that keeps at most `limit` entries, and at least one.
    pub fn start(limit: usize) -> (r: Clip)
        ensures
            r.well_formed(),
            r@.history == Seq::<Seq<char>>::empty(),
            r@.limit == effective_limit(limit as nat),
            r@.requests == Seq::<Seq<char>>::empty(),
            r@.accepting,
    {
        let limit = if limit == 0 {
            1
        } else {
            limit
        };
        let r = Clip { history: Vec::new(), limit, requests: Vec::new(), accepting: true };
        assert(r@.history =~= Seq::<Seq<char>>::empty());
        assert(r@.requests =~= Seq::<Seq<char>>::empty());
        r
    }

    /// The entries, newest first.
    pub fn entries(&self) -> (r: Vec<String>)
        ensures
            texts(r@) == self@.history,
    {
        let mut r: Vec<String> = Vec::new();
        let mut i: usize = 0;
        while i < self.history.len()
            invariant
                i <= self.history.len(),
                r@ == self.history@.take(i as int),
            decreases self.history.len() - i,
        {
            r.push(self.history[i].clone());
            assert(self.history@.take(i + 1) =~= self.history@.take(i as int).push(
                self.history@[i as int],
            ));
            i = i + 1;
        }
        assert(self.history@.take(i as int) =~= self.history@);
        r
    }

    /// Asks for `text` to be put back on the clipboard and moved to the top of
    /// the history; the watcher does both when it takes the request. Without
    /// a watcher the request is dropped.
    pub fn copy(&mut self, text: String)
        ensures
            final(self)@ == after_event(old(self)@, ClipEvent::Copy(text@)),
            final(self)@.requests == queued(old(self)@, text@),
            final(self)@.history == old(self)@.history,
            final(self)@.limit == old(self)@.limit,
            final(self)@.accepting == old(self)@.accepting,
    {
        if self.accepting {
            self.requests.push(text);
            assert(texts(self.requests@) =~= texts(old(self).requests@).push(text@));
        }
    }

    /// No watcher will take requests any more (the clipboard is out of reach):
    /// the pending ones are dropped, and so are later ones.
    pub fn close_requests(&mut self)
        ensures
            final(self)@ == after_event(old(self)@, ClipEvent::CloseRequests),
            final(self)@.requests == Seq::<Seq<char>>::empty(),
            !final(self)@.accepting,
            final(self)@.history == old(self)@.history,
            final(self)@.limit == old(self)@.limit,
    {
        self.requests.clear();
        self.accepting = false;
        assert(texts(self.requests@) =~= Seq::<Seq<char>>::empty());
    }

    /// Hands over the texts asked for so far, oldest first, and forgets them.
    pub fn take_requests(&mut self) -> (r: Vec<String>)
        ensures
            final(self)@ == after_event(old(self)@, ClipEvent::TakeRequests),
            texts(r@) == old(self)@.requests,
            final(self)@.requests == Seq::<Seq<char>>::empty(),
            final(self)@.history == old(self)@.history,
            final(self)@.limit == old(self)@.limit,
    {
        let mut out: Vec<String> = Vec::new();
        std::mem::swap(&mut out, &mut self.requests);
        assert(texts(self.requests@) =~= Seq::<Seq<char>>::empty());
        out
    }

    /// Changes the limit (to at least one) and drops the entries beyond it,
    /// oldest first.
    pub fn set_limit(&mut self, limit: usize)
        requires
            old(self).well_formed(),
        ensures
            final(self)@ == after_set_limit(old(self)@, limit as nat),
            final(self).well_formed(),
            final(self)@.limit == effective_limit(limit as nat),
            final(self)@.history == keep_at_most(
                old(self)@.history,
                effective_limit(limit as nat),
            ),
            final(self)@.requests == old(self)@.requests,
    {
        let limit = if limit == 0 {
            1
        } else {
            limit
        };
        self.limit = limit;
        self.history.truncate(limit);
        proof {
            let h = old(self)@.history;
            if h.len() > limit {
                assert(texts(self.history@) =~= h.take(limit as int));
                assert forall|i: int, j: int|
                    0 <= i < limit && 0 <= j < limit && i != j implies h.take(limit as int)[i]
                    != h.take(limit as int)[j] by {
                    assert(h.take(limit as int)[i] == h[i] && h.take(limit as int)[j] == h[j]);
                }
            } else {
                assert(self.history@ =~= old(self).history@);
            }
        }
    }

    /// Forgets every entry.
    pub fn clear(&mut self)
        requires
            old(self).well_formed(),
        ensures
            final(self)@ == after_event(old(self)@, ClipEvent::Clear),
            final(self).well_formed(),
            final(self)@.history == Seq::<Seq<char>>::empty(),
            final(self)@.limit == old(self)@.limit,
            final(self)@.requests == old(self)@.requests,
    {
        self.history.clear();
        assert(texts(self.history@) =~= Seq::<Seq<char>>::empty());
    }

    /// Records `text` as the newest entry: an equal older entry moves up
    /// rather than staying twice, and the oldest entries beyond the limit go.
    pub fn remember(&mut self, text: String)
        requires
            old(self).well_formed(),
        ensures
            final(self)@ == after_event(old(self)@, ClipEvent::Remember(text@)),
            final(self).well_formed(),
            final(self)@.history == remembered(old(self)@.history, text@, old(self)@.limit),
            final(self)@.limit == old(self)@.limit,
            final(self)@.requests == old(self)@.requests,
    {
        let ghost h = self.history@;
        let ghost p = other_than(text@);
        let mut kept: Vec<String> = Vec::new();
        let mut i: usize = 0;
        while i < self.history.len()
            invariant
                h == self.history@,
                p == other_than(text@),
                i <= h.len(),
                texts(kept@) == texts(h.take(i as int)).filter(p),
            decreases h.len() - i,
        {
            let ghost before = texts(h.take(i as int));
            let ghost after = texts(h.take(i + 1));
            assert(after.drop_last() =~= before);
            assert(after.last() == h[i as int]@);
            reveal(Seq::filter);
            if self.history[i] != text {
                kept.push(self.history[i].clone());
                assert(texts(kept@) =~= before.filter(p).push(h[i as int]@));
            } else {
                assert(!p(after.last()));
            }
            i = i + 1;
        }
        assert(h.take(h.len() as int) =~= h);
        let mut fresh: Vec<String> = Vec::new();
        fresh.push(text);
        fresh.append(&mut kept);
        assert(texts(fresh@) =~= seq![text@] + texts(h).filter(p));
        fresh.truncate(self.limit);
        proof {
            lemma_remembered_newest_first(texts(h), text@, self.limit as nat);
        }
        assert(texts(fresh@) =~= remembered(texts(h), text@, self.limit as nat));
        self.history = fresh;
    }
}

/// What the watcher does when the clipboard changes on its own: a text that is
/// not blank and differs from what it last saw is recorded. Returns the text
/// it last saw and the history afterwards.
pub open spec fn after_poll(
    last: Seq<char>,
    history: Seq<Seq<char>>,
    limit: nat,
    polled: Option<Seq<char>>,
) -> (Seq<char>, Seq<Seq<char>>) {
    match polled {
        Some(t) => if !is_blank_text(t) && t != last {
            (t, remembered(history, t, limit))
        } else {
            (last, history)
        },
        None => (last, history),
    }
}

/// What the watcher does after it tried to put `text` on the clipboard: when
/// that worked, the text is what it last saw and it is recorded.
pub open spec fn after_copy(
    last: Seq<char>,
    history: Seq<Seq<char>>,
    limit: nat,
    text: Seq<char>,
    stored: bool,
) -> (Seq<char>, Seq<Seq<char>>) {
    if stored {
        (text, remembered(history, text, limit))
    } else {
        (last, history)
    }
}

/// The watcher's memory: the text it last saw on, or put on, the clipboard.
pub struct Watcher {
    last: String,
}

impl View for Watcher {
    type V = Seq<char>;

    closed spec fn view(&self) -> Seq<char> {
        self.last@
    }
}

impl Watcher {
    /// A watcher that has seen nothing yet.
    pub fn new() -> (r: Watcher)
        ensures
            r@ == Seq::<char>::empty(),
    {
        Watcher { last: String::new() }
    }

    /// After the watcher tried to put `text` on the clipboard (`stored` tells
    /// whether that worked): our own copies are recorded here, so that the next
    /// look at the clipboard does not take them for new ones.
    pub fn copied(&mut self, clip: &mut Clip, text: String, stored: bool)
        requires
            old(clip).well_formed(),
        ensures
            final(clip).well_formed(),
            (final(self)@, final(clip)@.history) == after_copy(
                old(self)@,
                old(clip)@.history,
                old(clip)@.limit,
                text@,
                stored,
            ),
            final(clip)@.limit == old(clip)@.limit,
            final(clip)@.accepting == old(clip)@.accepting,
            final(clip)@.requests == old(clip)@.requests,
    {
        if stored {
            self.last = text.clone();
            clip.remember(text);
        }
    }

    /// After the watcher looked at the clipboard (`None` when it held no text).
    pub fn observed(&mut self, clip: &mut Clip, polled: Option<String>)
        requires
            old(clip).well_formed(),
        ensures
            final(clip).well_formed(),
            (final(self)@, final(clip)@.history) == after_poll(
                old(self)@,
                old(clip)@.history,
                old(clip)@.limit,
                match polled {
                    Some(t) => Some(t@),
                    None => None,
                },
            ),
            final(clip)@.limit == old(clip)@.limit,
            final(clip)@.accepting == old(clip)@.accepting,
            final(clip)@.requests == old(clip)@.requests,
    {
        if let Some(text) = polled {
            if !is_blank(text.as_str()) && text != self.last {
                self.last = text.clone();
                clip.remember(text);
            }
        }
    }
}

/// Our own copy is not recorded a second time when the watcher next finds it
/// on the clipboard.
pub proof fn lemma_own_copy_not_echoed(
    last: Seq<char>,
    history: Seq<Seq<char>>,
    limit: nat,
    text: Seq<char>,
)
    ensures
        ({
            let (last1, history1) = after_copy(last, history, limit, text, true);
            after_poll(last1, history1, limit, Some(text)) == (last1, history1)
        }),
{
}

/// A blank clipboard never adds an entry.
pub proof fn lemma_blank_never_recorded(
    last: Seq<char>,
    history: Seq<Seq<char>>,
    limit: nat,
    polled: Seq<char>,
)
    requires
        is_blank_text(polled),
    ensures
        after_poll(last, history, limit, Some(polled)) == (last, history),
{
}

/// A clipboard text that is blank, or that the watcher last saw or set,
/// changes nothing; any other text becomes the first entry, once, and the
/// text the watcher last saw.
pub proof fn lemma_poll_records_new_text_once(
    last: Seq<char>,
    history: Seq<Seq<char>>,
    limit: nat,
    polled: Seq<char>,
)
    requires
        history.no_duplicates(),
    ensures
        ({
            let (last1, history1) = after_poll(last, history, limit, Some(polled));
            if is_blank_text(polled) || polled == last {
                last1 == last && history1 == history
            } else {
                &&& last1 == polled
                &&& history1 == remembered(history, polled, limit)
                &&& history1.len() >= 1
                &&& history1[0] == polled
                &&& forall|i: int| 1 <= i < history1.len() ==> history1[i] != polled
            }
        }),
{
    if !is_blank_text(polled) && polled != last {
        lemma_remembered_newest_first(history, polled, limit);
    }
}

/// Finding the same text on the clipboard twice records it once.
pub proof fn lemma_poll_twice_same_as_once(
    last: Seq<char>,
    history: Seq<Seq<char>>,
    limit: nat,
    polled: Seq<char>,
)
    ensures
        ({
            let (last1, history1) = after_poll(last, history, limit, Some(polled));
            after_poll(last1, history1, limit, Some(polled)) == (last1, history1)
        }),
{
}

/// One step of the watcher's loop.
pub enum WatcherStep {
    /// It looked at the clipboard (`None` when it held no text).
    Poll(Option<Seq<char>>),
    /// It tried to put a requested text on the clipboard; `true` when that worked.
    Copied(Seq<char>, bool),
}

/// The text the watcher last saw and the history, after one step.
pub open spec fn after_step(
    state: (Seq<char>, Seq<Seq<char>>),
    limit: nat,
    step: WatcherStep,
) -> (Seq<char>, Seq<Seq<char>>) {
    match step {
        WatcherStep::Poll(polled) => after_poll(state.0, state.1, limit, polled),
        WatcherStep::Copied(text, stored) => after_copy(state.0, state.1, limit, text, stored),
    }
}

/// The text the watcher last saw and the history after `steps`, from the
/// start: `Watcher::new()` beside `Clip::start`, which has seen nothing and
/// holds nothing.
pub open spec fn after_steps(limit: nat, steps: Seq<WatcherStep>) -> (Seq<char>, Seq<Seq<char>>)
    decreases steps.len(),
{
    if steps.len() == 0 {
        (Seq::empty(), Seq::empty())
    } else {
        after_step(after_steps(limit, steps.drop_last()), limit, steps.last())
    }
}

/// Every history the watcher builds from the start is well formed.
proof fn lemma_steps_keep_history_ok(limit: nat, steps: Seq<WatcherStep>)
    requires
        limit >= 1,
    ensures
        history_ok(after_steps(limit, steps).1, limit),
    decreases steps.len(),
{
    if steps.len() > 0 {
        lemma_steps_keep_history_ok(limit, steps.drop_last());
        let (last, h) = after_steps(limit, steps.drop_last());
        match steps.last() {
            WatcherStep::Poll(Some(t)) => {
                lemma_remembered_newest_first(h, t, limit);
            },
            WatcherStep::Copied(t, true) => {
                lemma_remembered_newest_first(h, t, limit);
            },
            _ => {},
        }
    }
}

/// With the watcher running from `Clip::start(limit)`, whatever it did before:
/// a clipboard text that is blank, or that it last saw or set, leaves the
/// history as it is; any other text becomes the first entry, exactly once,
/// and the history stays within the limit.
pub proof fn lemma_watcher_poll_law(limit: usize, steps: Seq<WatcherStep>, polled: Seq<char>)
    ensures
        ({
            let n = effective_limit(limit as nat);
            let (last, history) = after_steps(n, steps);
            let (last1, history1) = after_poll(last, history, n, Some(polled));
            &&& history_ok(history, n)
            &&& history_ok(history1, n)
            &&& (is_blank_text(polled) || polled == last) ==> last1 == last && history1 == history
            &&& !(is_blank_text(polled) || polled == last) ==> {
                &&& last1 == polled
                &&& history1.len() >= 1
                &&& history1[0] == polled
                &&& forall|i: int| 1 <= i < history1.len() ==> history1[i] != polled
            }
        }),
{
    let n = effective_limit(limit as nat);
    lemma_steps_keep_history_ok(n, steps);
    let (last, history) = after_steps(n, steps);
    lemma_poll_records_new_text_once(last, history, n, polled);
    if !is_blank_text(polled) && polled != last {
        lemma_remembered_newest_first(history, polled, n);
        assert(effective_limit(n) == n);
    }
}

/// A look at the clipboard that finds no text (an image, say) changes nothing:
/// the watcher's last-seen text and the history stay as they were.
pub proof fn lemma_poll_without_text_changes_nothing(
    last: Seq<char>,
    history: Seq<Seq<char>>,
    limit: nat,
)
    ensures
        after_poll(last, history, limit, None) == (last, history),
{
}

/// A poll never loses an entry that is not pushed out by the limit: every
/// earlier entry is still there afterwards, unless the history was full.
pub proof fn lemma_poll_keeps_entries_below_limit(
    last: Seq<char>,
    history: Seq<Seq<char>>,
    limit: nat,
    polled: Option<Seq<char>>,
)
    requires
        history.len() < effective_limit(limit),
    ensures
        forall|e: Seq<char>|
            history.contains(e) ==> #[trigger] after_poll(last, history, limit, polled).1.contains(e),
{
    if let Some(t) = polled {
        if !is_blank_text(t) && t != last {
            lemma_remember_drops_nothing_below_limit(history, t, limit);
        }
    }
}

/// A copy that the clipboard refused changes nothing.
pub proof fn lemma_refused_copy_changes_nothing(
    last: Seq<char>,
    history: Seq<Seq<char>>,
    limit: nat,
    text: Seq<char>,
)
    ensures
        after_copy(last, history, limit, text, false) == (last, history),
{
}

/// The limit in force is at least one, and any limit of at least one is kept.
pub proof fn lemma_effective_limit(limit: nat)
    ensures
        effective_limit(limit) >= 1,
        limit >= 1 ==> effective_limit(limit) == limit,
        limit == 0 ==> effective_limit(limit) == 1,
{
}

/// Cutting to `n` keeps exactly `min(len, n)` entries, the first ones.
pub proof fn lemma_keep_at_most_length<A>(s: Seq<A>, n: nat)
    ensures
        keep_at_most(s, n).len() == if s.len() <= n {
            s.len()
        } else {
            n
        },
        forall|i: int| 0 <= i < keep_at_most(s, n).len() ==> #[trigger] keep_at_most(s, n)[i] == s[i],
{
}

} // verus!
