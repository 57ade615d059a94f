//! A bounded cache of highlighted line spans, keyed by where a side's
//! content is read from (per blob, not per view), so a file side is
//! highlighted at most once however many views show it. Each entry carries
//! a recency stamp; once the cached lines pass [`MAX_CACHED_LINES`], the
//! least recently used entries are evicted, never the one just inserted.
use vstd::prelude::*;

use crate::syntax::{ContentSource, SourceV, source_path};
use crate::restore::lists_path;
use crate::text::str_eq;

verus! {

/// How many cached lines the cache holds before evicting.
pub const MAX_CACHED_LINES: usize = 150000;

/// One cached side: its source, its spans per line, and when it was last
/// used.
#[derive(Debug)]
struct Slot<L> {
    source: ContentSource,
    spans: Vec<L>,
    used: u64,
}

/// Highlighted spans per content source, bounded by [`MAX_CACHED_LINES`].
#[derive(Debug)]
pub struct HighlightCache<L> {
    slots: Vec<Slot<L>>,
    lines: usize,
    clock: u64,
}

/// The sources of `s`, in order.
spec fn keys_of<L>(s: Seq<Slot<L>>) -> Seq<SourceV> {
    Seq::new(s.len(), |i: int| s[i].source@)
}

/// No source occurs twice in `s`, and no two entries share a stamp.
spec fn distinct<L>(s: Seq<Slot<L>>) -> bool {
    &&& forall|i: int, j: int| 0 <= i < j < s.len() ==> s[i].source@ != s[j].source@
    &&& forall|i: int, j: int| 0 <= i < j < s.len() ==> s[i].used != s[j].used
}

/// The index of the entry for `k`.
spec fn index_of<L>(s: Seq<Slot<L>>, k: SourceV) -> int {
    choose|i: int| 0 <= i < s.len() && s[i].source@ == k
}

/// The spans cached per source.
spec fn map_of<L>(s: Seq<Slot<L>>) -> Map<SourceV, Seq<L>> {
    Map::new(|k: SourceV| keys_of(s).contains(k), |k: SourceV| s[index_of(s, k)].spans@)
}

/// The stamp of each source's entry.
spec fn stamps_of<L>(s: Seq<Slot<L>>) -> Map<SourceV, u64> {
    Map::new(|k: SourceV| keys_of(s).contains(k), |k: SourceV| s[index_of(s, k)].used)
}

/// The number of lines cached across `s`.
spec fn total<L>(s: Seq<Slot<L>>) -> nat
    decreases s.len(),
{
    if s.len() == 0 {
        0
    } else {
        total(s.drop_last()) + s.last().spans@.len()
    }
}

proof fn lemma_index_of<L>(s: Seq<Slot<L>>, i: int)
    requires
        distinct(s),
        0 <= i < s.len(),
    ensures
        index_of(s, s[i].source@) == i,
{
    let k = s[i].source@;
    assert(keys_of(s)[i] == k);
    let j = index_of(s, k);
    assert(0 <= j < s.len() && s[j].source@ == k);
}

proof fn lemma_total_push<L>(s: Seq<Slot<L>>, x: Slot<L>)
    ensures
        total(s.push(x)) == total(s) + x.spans@.len(),
{
    assert(s.push(x).drop_last() =~= s);
}

proof fn lemma_total_update<L>(s: Seq<Slot<L>>, i: int, x: Slot<L>)
    requires
        0 <= i < s.len(),
    ensures
        total(s.update(i, x)) + s[i].spans@.len() == total(s) + x.spans@.len(),
    decreases s.len(),
{
    if i == s.len() - 1 {
        assert(s.update(i, x).drop_last() =~= s.drop_last());
    } else {
        lemma_total_update(s.drop_last(), i, x);
        assert(s.update(i, x).drop_last() =~= s.drop_last().update(i, x));
    }
}

proof fn lemma_total_remove<L>(s: Seq<Slot<L>>, i: int)
    requires
        0 <= i < s.len(),
    ensures
        total(s.remove(i)) + s[i].spans@.len() == total(s),
    decreases s.len(),
{
    if i == s.len() - 1 {
        assert(s.remove(i) =~= s.drop_last());
    } else {
        lemma_total_remove(s.drop_last(), i);
        assert(s.remove(i).drop_last() =~= s.drop_last().remove(i));
    }
}

proof fn lemma_push<L>(s: Seq<Slot<L>>, x: Slot<L>)
    requires
        distinct(s),
        !keys_of(s).contains(x.source@),
        forall|i: int| 0 <= i < s.len() ==> s[i].used != x.used,
    ensures
        distinct(s.push(x)),
        map_of(s.push(x)) == map_of(s).insert(x.source@, x.spans@),
        stamps_of(s.push(x)) == stamps_of(s).insert(x.source@, x.used),
{
    let t = s.push(x);
    assert forall|i: int, j: int| 0 <= i < j < t.len() implies t[i].source@ != t[j].source@ by {
        if j == s.len() {
            assert(keys_of(s)[i] == s[i].source@);
        }
    }
    lemma_index_of(t, s.len() as int);
    assert forall|k: SourceV| #[trigger] keys_of(t).contains(k) == (keys_of(s).contains(k) || k
        == x.source@) by {
        if keys_of(t).contains(k) {
            let i = choose|i: int| 0 <= i < t.len() && keys_of(t)[i] == k;
            if i < s.len() {
                assert(keys_of(s)[i] == k);
            }
        }
        if keys_of(s).contains(k) {
            let i = choose|i: int| 0 <= i < s.len() && keys_of(s)[i] == k;
            assert(keys_of(t)[i] == k);
        }
        if k == x.source@ {
            assert(keys_of(t)[s.len() as int] == k);
        }
    }
    assert forall|k: SourceV| keys_of(s).contains(k) implies index_of(t, k) == index_of(s, k) by {
        let i = choose|i: int| 0 <= i < s.len() && keys_of(s)[i] == k;
        lemma_index_of(s, i);
        lemma_index_of(t, i);
    }
    assert(map_of(t) =~= map_of(s).insert(x.source@, x.spans@));
    assert(stamps_of(t) =~= stamps_of(s).insert(x.source@, x.used));
}

proof fn lemma_update<L>(s: Seq<Slot<L>>, i: int, x: Slot<L>)
    requires
        distinct(s),
        0 <= i < s.len(),
        x.source@ == s[i].source@,
        forall|j: int| 0 <= j < s.len() && j != i ==> s[j].used != x.used,
    ensures
        distinct(s.update(i, x)),
        map_of(s.update(i, x)) == map_of(s).insert(x.source@, x.spans@),
        stamps_of(s.update(i, x)) == stamps_of(s).insert(x.source@, x.used),
{
    let t = s.update(i, x);
    assert(keys_of(t) =~= keys_of(s));
    lemma_index_of(t, i);
    assert forall|k: SourceV| keys_of(s).contains(k) && k != x.source@ implies index_of(t, k)
        == index_of(s, k) by {
        let j = choose|j: int| 0 <= j < s.len() && keys_of(s)[j] == k;
        lemma_index_of(s, j);
        lemma_index_of(t, j);
    }
    assert(map_of(t) =~= map_of(s).insert(x.source@, x.spans@)) by {
        assert(keys_of(s)[i] == x.source@);
    }
    assert(stamps_of(t) =~= stamps_of(s).insert(x.source@, x.used)) by {
        assert(keys_of(s)[i] == x.source@);
    }
}

proof fn lemma_remove<L>(s: Seq<Slot<L>>, i: int)
    requires
        distinct(s),
        0 <= i < s.len(),
    ensures
        distinct(s.remove(i)),
        map_of(s.remove(i)) == map_of(s).remove(s[i].source@),
        stamps_of(s.remove(i)) == stamps_of(s).remove(s[i].source@),
{
    let t = s.remove(i);
    let k0 = s[i].source@;
    assert forall|a: int, b: int| 0 <= a < b < t.len() implies t[a].source@ != t[b].source@
        && t[a].used != t[b].used by {
        let a1 = if a < i {
            a
        } else {
            a + 1
        };
        let b1 = if b < i {
            b
        } else {
            b + 1
        };
        assert(t[a] == s[a1] && t[b] == s[b1]);
    }
    assert forall|k: SourceV| #[trigger] keys_of(t).contains(k) == (keys_of(s).contains(k) && k
        != k0) by {
        if keys_of(t).contains(k) {
            let j = choose|j: int| 0 <= j < t.len() && keys_of(t)[j] == k;
            let j1 = if j < i {
                j
            } else {
                j + 1
            };
            assert(t[j] == s[j1]);
            assert(keys_of(s)[j1] == k);
        }
        if keys_of(s).contains(k) && k != k0 {
            let j = choose|j: int| 0 <= j < s.len() && keys_of(s)[j] == k;
            assert(j != i);
            let j1 = if j < i {
                j
            } else {
                j - 1
            };
            assert(t[j1] == s[j]);
            assert(keys_of(t)[j1] == k);
        }
    }
    assert forall|k: SourceV| keys_of(t).contains(k) implies s[index_of(s, k)] == t[index_of(
        t,
        k,
    )] by {
        let j = choose|j: int| 0 <= j < t.len() && keys_of(t)[j] == k;
        let j1 = if j < i {
            j
        } else {
            j + 1
        };
        assert(t[j] == s[j1]);
        lemma_index_of(t, j);
        lemma_index_of(s, j1);
    }
    assert(map_of(t) =~= map_of(s).remove(k0));
    assert(stamps_of(t) =~= stamps_of(s).remove(k0));
}

/// Whether `a` and `b` name the same source.
fn same_source(a: &ContentSource, b: &ContentSource) -> (r: bool)
    ensures
        r == (a@ == b@),
{
    match (a, b) {
        (ContentSource::Worktree { path: p }, ContentSource::Worktree { path: q }) => str_eq(
            p.as_str(),
            q.as_str(),
        ),
        (ContentSource::Show { rev: r1, path: p }, ContentSource::Show { rev: r2, path: q }) => {
            str_eq(r1.as_str(), r2.as_str()) && str_eq(p.as_str(), q.as_str())
        },
        _ => false,
    }
}

/// Every well-formed cache is bounded: it holds at most
/// [`MAX_CACHED_LINES`] lines, unless a single entry holds more by itself.
pub proof fn lemma_cache_bounded<L>(c: HighlightCache<L>)
    requires
        c.wf(),
    ensures
        c.bounded(),
{
}

/// Which paths a retain keeps.
enum PathFilter<'a> {
    /// Every path but this one.
    Drop(&'a str),
    /// Only these paths.
    Among(&'a Vec<String>),
}

spec fn filter_keeps(f: PathFilter, p: Seq<char>) -> bool {
    match f {
        PathFilter::Drop(d) => p != d@,
        PathFilter::Among(ps) => lists_path(ps@, p),
    }
}

impl<'a> PathFilter<'a> {
    fn keeps(&self, p: &str) -> (b: bool)
        ensures
            b == filter_keeps(*self, p@),
    {
        match self {
            PathFilter::Drop(d) => !str_eq(d, p),
            PathFilter::Among(ps) => {
                let mut i: usize = 0;
                while i < ps.len()
                    invariant
                        i <= ps@.len(),
                        forall|j: int| 0 <= j < i ==> ps@[j]@ != p@,
                        filter_keeps(*self, p@) == lists_path(ps@, p@),
                    decreases ps.len() - i,
                {
                    if str_eq(ps[i].as_str(), p) {
                        assert(ps@[i as int]@ == p@);
                        return true;
                    }
                    i = i + 1;
                }
                false
            },
        }
    }
}

/// A copy of `s`.
fn clone_source(s: &ContentSource) -> (r: ContentSource)
    ensures
        r@ == s@,
{
    match s {
        ContentSource::Worktree { path } => ContentSource::Worktree { path: path.clone() },
        ContentSource::Show { rev, path } => ContentSource::Show { rev: rev.clone(), path: path.clone() },
    }
}

impl<L> View for HighlightCache<L> {
    type V = Map<SourceV, Seq<L>>;

    closed spec fn view(&self) -> Map<SourceV, Seq<L>> {
        map_of(self.slots@)
    }
}

impl<L> HighlightCache<L> {
    /// The cache's invariants: no source twice, every stamp distinct and no
    /// later than the clock, the line count kept in step with the entries,
    /// and the bound held (see [`HighlightCache::bounded`]).
    pub closed spec fn wf(&self) -> bool {
        &&& distinct(self.slots@)
        &&& forall|i: int| 0 <= i < self.slots@.len() ==> self.slots@[i].used <= self.clock
        &&& self.lines == total(self.slots@)
        &&& self.bounded()
    }

    /// The number of lines cached across every entry.
    pub closed spec fn lines_spec(&self) -> nat {
        self.lines as nat
    }

    /// The recency stamp of each cached source: higher is more recent.
    pub closed spec fn stamps(&self) -> Map<SourceV, u64> {
        stamps_of(self.slots@)
    }

    /// How many times the recency clock has advanced.
    pub closed spec fn clock_spec(&self) -> nat {
        self.clock as nat
    }

    /// Whether the recency clock can still advance.
    pub open spec fn ticking(&self) -> bool {
        self.clock_spec() < u64::MAX
    }

    /// The bound: at most [`MAX_CACHED_LINES`] lines, unless a single entry
    /// holds more by itself.
    pub open spec fn bounded(&self) -> bool {
        self.lines_spec() <= MAX_CACHED_LINES || self@.dom().len() <= 1
    }

    /// An empty cache.
    pub fn new() -> (c: HighlightCache<L>)
        ensures
            c.wf(),
            c.bounded(),
            c.clock_spec() == 0,
            c@ == Map::<SourceV, Seq<L>>::empty(),
            c.lines_spec() == 0,
    {
        let c = HighlightCache { slots: Vec::new(), lines: 0, clock: 0 };
        assert(c@ =~= Map::<SourceV, Seq<L>>::empty());
        c
    }

    /// The number of sources cached.
    pub fn len(&self) -> (n: usize)
        requires
            self.wf(),
        ensures
            n == self@.dom().len(),
    {
        proof {
            self.lemma_dom_len();
        }
        self.slots.len()
    }

    /// The number of lines cached across every entry.
    pub fn cached_lines(&self) -> (n: usize)
        ensures
            n == self.lines_spec(),
    {
        self.lines
    }

    proof fn lemma_dom_len(&self)
        requires
            distinct(self.slots@),
        ensures
            self@.dom().len() == self.slots@.len(),
            self@.dom() == keys_of(self.slots@).to_set(),
    {
        let ks = keys_of(self.slots@);
        assert forall|i: int, j: int| 0 <= i < j < ks.len() implies ks[i] != ks[j] by {}
        assert(ks.no_duplicates());
        ks.unique_seq_to_set();
        assert(self@.dom() =~= ks.to_set());
    }

    /// Drops every entry.
    pub fn clear(&mut self)
        requires
            old(self).wf(),
        ensures
            final(self).wf(),
            final(self).bounded(),
            final(self)@ == Map::<SourceV, Seq<L>>::empty(),
            final(self).lines_spec() == 0,
            final(self).clock_spec() == old(self).clock_spec(),
    {
        self.slots = Vec::new();
        self.lines = 0;
        assert(self@ =~= Map::<SourceV, Seq<L>>::empty());
    }

    /// The index of `source`'s entry, if cached.
    fn find(&self, source: &ContentSource) -> (r: Option<usize>)
        ensures
            match r {
                Some(i) => i < self.slots@.len() && self.slots@[i as int].source@ == source@,
                None => !keys_of(self.slots@).contains(source@),
            },
    {
        let mut i: usize = 0;
        while i < self.slots.len()
            invariant
                i <= self.slots@.len(),
                forall|j: int| 0 <= j < i ==> self.slots@[j].source@ != source@,
            decreases self.slots.len() - i,
        {
            if same_source(&self.slots[i].source, source) {
                return Some(i);
            }
            i = i + 1;
        }
        proof {
            if keys_of(self.slots@).contains(source@) {
                let j = choose|j: int|
                    0 <= j < self.slots@.len() && keys_of(self.slots@)[j] == source@;
                assert(self.slots@[j].source@ == source@);
            }
        }
        None
    }

    /// Whether any cached entry reads `path`.
    pub fn has_path(&self, path: &str) -> (b: bool)
        ensures
            b == exists|k: SourceV| #[trigger] self@.dom().contains(k) && source_path(k) == path@,
    {
        let mut i: usize = 0;
        while i < self.slots.len()
            invariant
                i <= self.slots@.len(),
                forall|j: int| 0 <= j < i ==> source_path(self.slots@[j].source@) != path@,
            decreases self.slots.len() - i,
        {
            if str_eq(self.slots[i].source.path().as_str(), path) {
                proof {
                    assert(keys_of(self.slots@)[i as int] == self.slots@[i as int].source@);
                    assert(self@.dom().contains(self.slots@[i as int].source@));
                }
                return true;
            }
            i = i + 1;
        }
        proof {
            assert forall|k: SourceV| #[trigger] self@.dom().contains(k) implies source_path(k)
                != path@ by {
                let j = choose|j: int|
                    0 <= j < self.slots@.len() && keys_of(self.slots@)[j] == k;
                assert(self.slots@[j].source@ == k);
            }
        }
        false
    }

    /// The spans cached for `source`, empty when it is not cached.
    pub fn get(&self, source: &ContentSource) -> (r: &[L])
        requires
            self.wf(),
        ensures
            r@ == (if self@.dom().contains(source@) {
                self@[source@]
            } else {
                Seq::<L>::empty()
            }),
    {
        match self.find(source) {
            Some(i) => {
                proof {
                    lemma_index_of(self.slots@, i as int);
                    assert(keys_of(self.slots@)[i as int] == source@);
                }
                self.slots[i].spans.as_slice()
            },
            None => &[],
        }
    }

    /// Stamps `source` as just used and says whether it was cached; the
    /// cached spans do not change.
    pub fn touch(&mut self, source: &ContentSource) -> (hit: bool)
        requires
            old(self).wf(),
            old(self).ticking(),
        ensures
            final(self).wf(),
            final(self).bounded(),
            hit == old(self)@.dom().contains(source@),
            final(self)@ == old(self)@,
            final(self).clock_spec() == old(self).clock_spec() + 1,
            final(self).lines_spec() == old(self).lines_spec(),
            hit ==> final(self).stamps() == old(self).stamps().insert(
                source@,
                final(self).stamps()[source@],
            ),
            hit ==> forall|k: SourceV|
                #[trigger] final(self)@.dom().contains(k) && k != source@ ==> final(self).stamps()[k]
                    < final(self).stamps()[source@],
            !hit ==> final(self).stamps() == old(self).stamps(),
    {
        self.clock = self.clock + 1;
        let now = self.clock;
        match self.find(source) {
            Some(i) => {
                let ghost s = self.slots@;
                let mut slot = self.slots.remove(i);
                slot.used = now;
                proof {
                    assert(s.remove(i as int).insert(i as int, slot) =~= s.update(i as int, slot));
                    lemma_update(s, i as int, slot);
                    lemma_total_update(s, i as int, slot);
                    assert(keys_of(s)[i as int] == source@);
                }
                self.slots.insert(i, slot);
                proof {
                    assert(self@ =~= old(self)@);
                    assert(self.slots@ == s.update(i as int, slot));
                    assert(total(self.slots@) == total(s));
                    assert(forall|t: int| 0 <= t < self.slots@.len() ==> self.slots@[t].used <= self.clock);
                    assert forall|k: SourceV| #[trigger]
                        self@.dom().contains(k) && k != source@ implies self.stamps()[k]
                        < self.stamps()[source@] by {
                        let j = index_of(s, k);
                        assert(keys_of(s).contains(k));
                        let jj = choose|jj: int| 0 <= jj < s.len() && keys_of(s)[jj] == k;
                        lemma_index_of(s, jj);
                    }
                }
                true
            },
            None => false,
        }
    }

    /// The number of lines cached once `spans` replace what `source` held.
    pub open spec fn lines_after_insert(&self, source: SourceV, spans: Seq<L>) -> int {
        self.lines_spec() + spans.len() - (if self@.dom().contains(source) {
            self@[source].len() as int
        } else {
            0
        })
    }

    /// Caches `spans` for `source` (replacing any earlier spans) as the
    /// most recently used entry, then evicts least recently used entries
    /// while the cache holds more than [`MAX_CACHED_LINES`] lines and more
    /// than one entry. The new entry is never evicted; nothing is evicted
    /// unless the cache went over the bound; and every evicted entry was
    /// used less recently than every other entry that stays.
    #[verifier::spinoff_prover]
    pub fn insert(&mut self, source: ContentSource, spans: Vec<L>)
        requires
            old(self).wf(),
            old(self).ticking(),
            old(self).lines_spec() + spans@.len() <= usize::MAX,
        ensures
            final(self).wf(),
            final(self).bounded(),
            final(self).clock_spec() == old(self).clock_spec() + 1,
            final(self)@.dom().contains(source@),
            final(self)@[source@] == spans@,
            final(self)@.dom().subset_of(old(self)@.dom().insert(source@)),
            forall|k: SourceV|
                #[trigger] final(self)@.dom().contains(k) && k != source@ ==> final(self)@[k]
                    == old(self)@[k] && final(self).stamps()[k] == old(self).stamps()[k],
            forall|k: SourceV|
                #[trigger] final(self)@.dom().contains(k) && k != source@ ==> final(self).stamps()[k]
                    < final(self).stamps()[source@],
            final(self)@.dom() != old(self)@.dom().insert(source@) ==> old(self).lines_after_insert(
                source@,
                spans@,
            ) > MAX_CACHED_LINES,
            forall|e: SourceV, k: SourceV|
                #![trigger old(self).stamps()[e], final(self)@.dom().contains(k)]
                old(self)@.dom().contains(e) && e != source@ && !final(self)@.dom().contains(e)
                    && final(self)@.dom().contains(k) && k != source@ ==> old(self).stamps()[e]
                    < old(self).stamps()[k],
    {
        self.clock = self.clock + 1;
        let now = self.clock;
        let ghost s0 = self.slots@;
        let ghost m0 = self@;
        let ghost st0 = self.stamps();
        let ghost sv = source@;
        let ghost sp = spans@;
        match self.find(&source) {
            Some(i) => {
                let ghost s = self.slots@;
                let mut slot = self.slots.remove(i);
                let old_len = slot.spans.len();
                proof {
                    lemma_total_remove(s, i as int);
                }
                slot.spans = spans;
                slot.used = now;
                proof {
                    assert(s.remove(i as int).insert(i as int, slot) =~= s.update(i as int, slot));
                    lemma_update(s, i as int, slot);
                    lemma_total_update(s, i as int, slot);
                    lemma_index_of(s, i as int);
                    assert(keys_of(s)[i as int] == sv);
                }
                self.lines = self.lines - old_len + slot.spans.len();
                self.slots.insert(i, slot);
            },
            None => {
                let slot = Slot { source, spans, used: now };
                proof {
                    lemma_push(self.slots@, slot);
                    lemma_total_push(self.slots@, slot);
                }
                self.lines = self.lines + slot.spans.len();
                self.slots.push(slot);
            },
        }
        let ghost m1 = self@;
        let ghost st1 = self.stamps();
        let ghost lines1 = self.lines;
        proof {
            assert(m1 == m0.insert(sv, sp));
            assert(st1 == st0.insert(sv, now));
            assert(lines1 == old(self).lines_after_insert(sv, sp));
            assert forall|k: SourceV| #[trigger]
                self@.dom().contains(k) && k != sv implies self.stamps()[k] < self.stamps()[sv] by {
                let jj = choose|jj: int| 0 <= jj < s0.len() && keys_of(s0)[jj] == k;
                lemma_index_of(s0, jj);
            }
        }
        while self.lines > MAX_CACHED_LINES && self.slots.len() > 1
            invariant
                distinct(self.slots@),
                forall|i: int| 0 <= i < self.slots@.len() ==> self.slots@[i].used <= self.clock,
                self.lines == total(self.slots@),
                self.lines <= lines1,
                self.clock == now,
                self@.dom() != m1.dom() ==> lines1 > MAX_CACHED_LINES,
                self@.dom().contains(sv),
                self@.dom().subset_of(m1.dom()),
                forall|k: SourceV| #[trigger]
                    self@.dom().contains(k) ==> self@[k] == m1[k] && self.stamps()[k] == st1[k],
                forall|k: SourceV| #[trigger]
                    self@.dom().contains(k) && k != sv ==> self.stamps()[k] < self.stamps()[sv],
                forall|e: SourceV, k: SourceV|
                    #![trigger st1[e], self@.dom().contains(k)]
                    m1.dom().contains(e) && !self@.dom().contains(e) && self@.dom().contains(k)
                        && k != sv ==> st1[e] < st1[k],
            decreases self.slots.len(),
        {
            let mut v: usize = 0;
            let mut j: usize = 1;
            while j < self.slots.len()
                invariant
                    0 <= v < j <= self.slots@.len(),
                    forall|t: int| 0 <= t < j ==> self.slots@[v as int].used <= self.slots@[t].used,
                decreases self.slots.len() - j,
            {
                if self.slots[j].used < self.slots[v].used {
                    v = j;
                }
                j = j + 1;
            }
            let ghost s = self.slots@;
            let ghost kv = s[v as int].source@;
            proof {
                lemma_remove(s, v as int);
                lemma_total_remove(s, v as int);
                lemma_index_of(s, v as int);
                assert(keys_of(s)[v as int] == kv);
                if kv == sv {
                    let t: int = if v == 0 {
                        1
                    } else {
                        0
                    };
                    lemma_index_of(s, t);
                    assert(keys_of(s)[t] == s[t].source@);
                    assert(self@.dom().contains(s[t].source@));
                    assert(self.stamps()[s[t].source@] < self.stamps()[sv]);
                    assert(false);
                }
                assert(self@.dom().contains(kv));
                assert(st1[kv] == self.stamps()[kv]);
                assert(self.stamps()[kv] == s[v as int].used);
                assert forall|k: SourceV| #[trigger]
                    self@.dom().contains(k) && k != kv implies st1[kv] < st1[k] by {
                    let t = choose|t: int| 0 <= t < s.len() && keys_of(s)[t] == k;
                    lemma_index_of(s, t);
                    assert(s[t].source@ == k);
                    assert(t != v);
                    assert(self.stamps()[k] == s[t].used);
                    assert(st1[k] == self.stamps()[k]);
                    assert(s[v as int].used <= s[t].used);
                    assert(s[v as int].used != s[t].used);
                }
            }
            let evicted = self.slots.remove(v);
            self.lines = self.lines - evicted.spans.len();
        }
        proof {
            self.lemma_dom_len();
            assert forall|e: SourceV, k: SourceV|
                #![trigger st0[e], self@.dom().contains(k)]
                m0.dom().contains(e) && e != sv && !self@.dom().contains(e) && self@.dom().contains(
                    k,
                ) && k != sv implies st0[e] < st0[k] by {
                assert(m1.dom().contains(e));
                assert(st1[e] < st1[k]);
            }
        }
    }

    /// Keeps the entries whose path `keep` admits.
    fn retain_by(&mut self, keep: &PathFilter)
        requires
            old(self).wf(),
        ensures
            final(self).wf(),
            final(self).bounded(),
            final(self)@ == old(self)@.restrict(
                old(self)@.dom().filter(|k: SourceV| filter_keeps(*keep, source_path(k))),
            ),
            forall|k: SourceV| #[trigger]
                final(self)@.dom().contains(k) ==> final(self).stamps()[k] == old(self).stamps()[k],
            final(self).clock_spec() == old(self).clock_spec(),
    {
        let ghost m0 = self@;
        let ghost st0 = self.stamps();
        let ghost n0 = self.slots@.len();
        let ghost l0 = self.lines;
        proof {
            self.lemma_dom_len();
        }
        let mut i: usize = self.slots.len();
        while i > 0
            invariant
                distinct(self.slots@),
                forall|t: int| 0 <= t < self.slots@.len() ==> self.slots@[t].used <= self.clock,
                self.clock == old(self).clock,
                self.lines == total(self.slots@),
                self.lines <= l0,
                self.slots@.len() <= n0,
                l0 <= MAX_CACHED_LINES || n0 <= 1,
                i <= self.slots@.len(),
                self@.dom().subset_of(m0.dom()),
                forall|k: SourceV| #[trigger]
                    self@.dom().contains(k) ==> self@[k] == m0[k] && self.stamps()[k] == st0[k],
                forall|k: SourceV| #[trigger]
                    m0.dom().contains(k) && !self@.dom().contains(k) ==> !filter_keeps(
                        *keep,
                        source_path(k),
                    ),
                forall|t: int| #![trigger self.slots@[t]]
                    i <= t < self.slots@.len() ==> filter_keeps(
                        *keep,
                        source_path(self.slots@[t].source@),
                    ),
            decreases i,
        {
            i = i - 1;
            if !keep.keeps(self.slots[i].source.path().as_str()) {
                let ghost s = self.slots@;
                proof {
                    lemma_remove(s, i as int);
                    lemma_total_remove(s, i as int);
                    assert(keys_of(s)[i as int] == s[i as int].source@);
                }
                let gone = self.slots.remove(i);
                self.lines = self.lines - gone.spans.len();
                proof {
                    assert forall|t: int| #![trigger self.slots@[t]]
                        i <= t < self.slots@.len() implies filter_keeps(
                        *keep,
                        source_path(self.slots@[t].source@),
                    ) by {
                        assert(self.slots@[t] == s[t + 1]);
                    }
                }
            }
        }
        proof {
            self.lemma_dom_len();
            assert forall|k: SourceV| #[trigger] self@.dom().contains(k) implies filter_keeps(
                *keep,
                source_path(k),
            ) by {
                let t = choose|t: int| 0 <= t < self.slots@.len() && keys_of(self.slots@)[t] == k;
                assert(self.slots@[t].source@ == k);
            }
            assert(self@ =~= m0.restrict(
                m0.dom().filter(|k: SourceV| filter_keeps(*keep, source_path(k))),
            ));
        }
    }

    /// Drops every entry that reads `path` (both sides of a file whose
    /// content changed); every other entry stays as it was.
    pub fn invalidate_path(&mut self, path: &str)
        requires
            old(self).wf(),
        ensures
            final(self).wf(),
            final(self).bounded(),
            final(self)@ == old(self)@.restrict(
                old(self)@.dom().filter(|k: SourceV| source_path(k) != path@),
            ),
            forall|k: SourceV| #[trigger]
                final(self)@.dom().contains(k) ==> final(self).stamps()[k] == old(self).stamps()[k],
            final(self).clock_spec() == old(self).clock_spec(),
    {
        let f = PathFilter::Drop(path);
        self.retain_by(&f);
        proof {
            assert(old(self)@.dom().filter(|k: SourceV| filter_keeps(f, source_path(k)))
                =~= old(self)@.dom().filter(|k: SourceV| source_path(k) != path@));
        }
    }

    /// Keeps only the entries that read one of `paths` (the files still in
    /// the diff after a refresh); they stay as they were.
    pub fn retain_paths(&mut self, paths: &Vec<String>)
        requires
            old(self).wf(),
        ensures
            final(self).wf(),
            final(self).bounded(),
            final(self)@ == old(self)@.restrict(
                old(self)@.dom().filter(|k: SourceV| lists_path(paths@, source_path(k))),
            ),
            forall|k: SourceV| #[trigger]
                final(self)@.dom().contains(k) ==> final(self).stamps()[k] == old(self).stamps()[k],
            final(self).clock_spec() == old(self).clock_spec(),
    {
        let f = PathFilter::Among(paths);
        self.retain_by(&f);
        proof {
            assert(old(self)@.dom().filter(|k: SourceV| filter_keeps(f, source_path(k)))
                =~= old(self)@.dom().filter(|k: SourceV| lists_path(paths@, source_path(k))));
        }
    }

    /// Makes sure `source` is cached: a hit only stamps it as just used
    /// (`compute` does not run); on a miss `compute` runs once and its
    /// spans are inserted (see [`HighlightCache::insert`]), unless they
    /// would overflow the line count.
    pub fn populate<F: FnOnce() -> Vec<L>>(&mut self, source: &ContentSource, compute: F)
        requires
            old(self).wf(),
            old(self).clock_spec() + 2 <= u64::MAX,
            compute.requires(()),
        ensures
            final(self).wf(),
            final(self).bounded(),
            final(self).clock_spec() <= old(self).clock_spec() + 2,
            old(self)@.dom().contains(source@) ==> final(self)@ == old(self)@,
            !old(self)@.dom().contains(source@) ==> exists|spans: Vec<L>| #[trigger]
                compute.ensures((), spans) && (if old(self).lines_spec() + spans@.len()
                    <= usize::MAX {
                    final(self)@.dom().contains(source@) && final(self)@[source@] == spans@
                } else {
                    final(self)@ == old(self)@
                }),
    {
        if self.touch(source) {
            return;
        }
        let spans = compute();
        if spans.len() > usize::MAX - self.lines {
            return;
        }
        let key = clone_source(source);
        self.insert(key, spans);
    }
}

} // verus!
