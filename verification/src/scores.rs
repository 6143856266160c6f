//! The high-score ledger: a name-to-points table kept sorted for broadcast.
//!
//! Entries are created lazily on the first score or penalty event and are
//! never removed, so a departed player's score persists and reappears if they
//! rejoin under the same name. The ledger is kept sorted descending by
//! points, with ties broken ascending by name, so the order is stable and
//! deterministic across ticks.

use vstd::prelude::*;

verus! {

use vstd::utf8::{encode_utf8, encode_utf8_decode_utf8};

/// A single player's score.
#[derive(Clone, Debug)]
pub struct Score {
    pub name: String,
    pub points: i64,
}

/// The UTF-8 bytes of an entry's name; names sort by these bytes, which
/// orders them exactly as comparing their characters would.
pub open spec fn name_bytes(s: Score) -> Seq<u8> {
    encode_utf8(s.name@)
}

/// Strict lexicographic order on byte sequences.
pub open spec fn lex_lt(a: Seq<u8>, b: Seq<u8>) -> bool
    decreases a.len(),
{
    if b.len() == 0 {
        false
    } else if a.len() == 0 {
        true
    } else if a[0] < b[0] {
        true
    } else if a[0] > b[0] {
        false
    } else {
        lex_lt(a.drop_first(), b.drop_first())
    }
}

/// Any two byte sequences are equal or strictly ordered one way.
pub proof fn lemma_lex_total(a: Seq<u8>, b: Seq<u8>)
    ensures
        a == b || lex_lt(a, b) || lex_lt(b, a),
    decreases a.len(),
{
    if a.len() > 0 && b.len() > 0 && a[0] == b[0] {
        lemma_lex_total(a.drop_first(), b.drop_first());
        if a.drop_first() == b.drop_first() {
            assert forall|i: int| 0 <= i < a.len() implies a[i] == b[i] by {
                if i > 0 {
                    assert(a[i] == a.drop_first()[i - 1]);
                    assert(b[i] == b.drop_first()[i - 1]);
                }
            }
            assert(a =~= b);
        }
    }
}

/// Lexicographic order is transitive.
pub proof fn lemma_lex_trans(a: Seq<u8>, b: Seq<u8>, c: Seq<u8>)
    requires
        lex_lt(a, b),
        lex_lt(b, c),
    ensures
        lex_lt(a, c),
    decreases a.len(),
{
    if a.len() > 0 && b.len() > 0 && c.len() > 0 && a[0] == b[0] && b[0] == c[0] {
        lemma_lex_trans(a.drop_first(), b.drop_first(), c.drop_first());
    }
}

/// A sequence is not lexicographically less than itself.
pub proof fn lemma_lex_irrefl(a: Seq<u8>)
    ensures
        !lex_lt(a, a),
    decreases a.len(),
{
    if a.len() > 0 {
        lemma_lex_irrefl(a.drop_first());
    }
}

/// Entry `a` sorts at or before `b`: more points first, ties broken by name,
/// ascending.
pub open spec fn ranks_le(a: Score, b: Score) -> bool {
    ||| a.points > b.points
    ||| (a.points == b.points && (a.name@ == b.name@ || lex_lt(name_bytes(a), name_bytes(b))))
}

/// The sort order is total.
pub proof fn lemma_ranks_le_total(a: Score, b: Score)
    ensures
        ranks_le(a, b) || ranks_le(b, a),
{
    if a.points == b.points {
        lemma_lex_total(name_bytes(a), name_bytes(b));
        if name_bytes(a) == name_bytes(b) {
            encode_utf8_decode_utf8(a.name@);
            encode_utf8_decode_utf8(b.name@);
        }
    }
}

/// The sort order is transitive.
pub proof fn lemma_ranks_le_trans(a: Score, b: Score, c: Score)
    requires
        ranks_le(a, b),
        ranks_le(b, c),
    ensures
        ranks_le(a, c),
{
    if a.points == b.points && b.points == c.points {
        if a.name@ != b.name@ && b.name@ != c.name@ {
            if a.name@ == c.name@ {
                assert(lex_lt(name_bytes(a), name_bytes(b)));
                assert(lex_lt(name_bytes(b), name_bytes(a)));
                lemma_lex_trans(name_bytes(a), name_bytes(b), name_bytes(a));
                lemma_lex_irrefl(name_bytes(a));
            } else {
                lemma_lex_trans(name_bytes(a), name_bytes(b), name_bytes(c));
            }
        }
    }
}

/// Every pair of entries is in sort order.
pub open spec fn sorted_scores(s: Seq<Score>) -> bool {
    forall|i: int, j: int| 0 <= i < j < s.len() ==> ranks_le(s[i], s[j])
}

/// No two entries share a name.
pub open spec fn names_distinct(s: Seq<Score>) -> bool {
    forall|i: int, j: int| 0 <= i < j < s.len() ==> s[i].name@ != s[j].name@
}

/// Whether some entry carries this name.
pub open spec fn has_name(s: Seq<Score>, name: Seq<char>) -> bool {
    exists|i: int| 0 <= i < s.len() && s[i].name@ == name
}

/// The points of the entry with this name (meaningful when the name is
/// present and names are distinct).
pub open spec fn points_of(s: Seq<Score>, name: Seq<char>) -> int {
    s[choose|i: int| 0 <= i < s.len() && s[i].name@ == name].points as int
}

/// The ledger as a partial map from name to points: `None` when absent.
pub open spec fn ledger_entry(s: Seq<Score>, name: Seq<char>) -> Option<int> {
    if has_name(s, name) {
        Some(points_of(s, name))
    } else {
        None
    }
}

/// Adding one point, saturating at the integer limit.
pub open spec fn bump_up(p: int) -> int {
    if p < i64::MAX {
        p + 1
    } else {
        p
    }
}

/// Removing one point, saturating at the integer limit.
pub open spec fn bump_down(p: int) -> int {
    if p > i64::MIN {
        p - 1
    } else {
        p
    }
}

impl Score {
    /// Create a new score.
    pub fn new(name: &str, points: i64) -> (s: Score)
        ensures
            s.name@ == name@,
            s.points == points,
    {
        Score { name: name.to_owned(), points }
    }

    /// An equal copy.
    pub fn duplicate(&self) -> (s: Score)
        ensures
            s == *self,
    {
        Score { name: self.name.clone(), points: self.points }
    }
}

/// Inserting at the position found by a left-to-right scan keeps the
/// sequence sorted.
proof fn lemma_insert_sorted(s: Seq<Score>, pos: int, x: Score)
    requires
        sorted_scores(s),
        0 <= pos <= s.len(),
        forall|k: int| 0 <= k < pos ==> ranks_le(#[trigger] s[k], x),
        pos < s.len() ==> ranks_le(x, s[pos]),
    ensures
        sorted_scores(s.insert(pos, x)),
{
    let t = s.insert(pos, x);
    assert forall|i: int, j: int| 0 <= i < j < t.len() implies ranks_le(t[i], t[j]) by {
        if i < pos && j == pos {
            assert(t[i] == s[i] && t[j] == x);
        } else if i == pos && j > pos {
            assert(t[i] == x && t[j] == s[j - 1]);
            if j - 1 > pos {
                lemma_ranks_le_trans(x, s[pos], s[j - 1]);
            }
        } else if i < pos && j > pos {
            assert(t[i] == s[i] && t[j] == s[j - 1]);
            if j - 1 == i {
                lemma_ranks_le_trans(s[i], x, s[j - 1]);
            }
        } else if i > pos && j > pos {
            assert(t[i] == s[i - 1] && t[j] == s[j - 1]);
        } else if i < pos && j < pos {
            assert(t[i] == s[i] && t[j] == s[j]);
        }
    }
}

/// Inserting an entry whose name is fresh keeps names distinct.
proof fn lemma_insert_distinct(s: Seq<Score>, pos: int, x: Score)
    requires
        names_distinct(s),
        0 <= pos <= s.len(),
        !has_name(s, x.name@),
    ensures
        names_distinct(s.insert(pos, x)),
{
    let t = s.insert(pos, x);
    assert forall|i: int, j: int| 0 <= i < j < t.len() implies t[i].name@ != t[j].name@ by {
        if i == pos {
            assert(t[j] == s[j - 1]);
            assert(0 <= j - 1 < s.len() && s[j - 1].name@ == t[j].name@);
        } else if j == pos {
            assert(t[i] == s[i]);
        } else {
            let si = if i < pos { i } else { i - 1 };
            let sj = if j < pos { j } else { j - 1 };
            assert(t[i] == s[si] && t[j] == s[sj]);
        }
    }
}

/// Inserting an entry leaves every other name's ledger entry unchanged.
proof fn lemma_entry_insert_other(s: Seq<Score>, pos: int, x: Score, nm: Seq<char>)
    requires
        names_distinct(s),
        0 <= pos <= s.len(),
        nm != x.name@,
    ensures
        ledger_entry(s.insert(pos, x), nm) == ledger_entry(s, nm),
{
    let t = s.insert(pos, x);
    if has_name(t, nm) {
        let i = choose|i: int| 0 <= i < t.len() && t[i].name@ == nm;
        assert(i != pos);
        let si = if i < pos { i } else { i - 1 };
        assert(t[i] == s[si]);
        assert(has_name(s, nm));
    }
    if has_name(s, nm) {
        let i = choose|i: int| 0 <= i < s.len() && s[i].name@ == nm;
        let ti = if i < pos { i } else { i + 1 };
        assert(t[ti] == s[i]);
        assert(has_name(t, nm));
        let j = choose|j: int| 0 <= j < t.len() && t[j].name@ == nm;
        assert(j != pos);
        let sj = if j < pos { j } else { j - 1 };
        assert(t[j] == s[sj]);
        assert(s[sj].name@ == nm && s[i].name@ == nm);
        if sj != i {
            assert(false);
        }
        assert(points_of(t, nm) == points_of(s, nm));
    }
}

/// Inserting an entry whose name was absent makes its ledger entry exactly
/// its points.
proof fn lemma_entry_insert_new(s: Seq<Score>, pos: int, x: Score)
    requires
        0 <= pos <= s.len(),
        !has_name(s, x.name@),
    ensures
        ledger_entry(s.insert(pos, x), x.name@) == Some(x.points as int),
{
    let t = s.insert(pos, x);
    assert(t[pos] == x);
    assert(has_name(t, x.name@));
    let i = choose|i: int| 0 <= i < t.len() && t[i].name@ == x.name@;
    if i != pos {
        let si = if i < pos { i } else { i - 1 };
        assert(t[i] == s[si]);
        assert(has_name(s, x.name@));
    }
}

/// Removing an entry leaves every other name's ledger entry unchanged.
proof fn lemma_entry_remove_other(s: Seq<Score>, pos: int, nm: Seq<char>)
    requires
        names_distinct(s),
        0 <= pos < s.len(),
        s[pos].name@ != nm,
    ensures
        ledger_entry(s.remove(pos), nm) == ledger_entry(s, nm),
{
    let t = s.remove(pos);
    if has_name(t, nm) {
        let i = choose|i: int| 0 <= i < t.len() && t[i].name@ == nm;
        let si = if i < pos { i } else { i + 1 };
        assert(t[i] == s[si]);
        assert(has_name(s, nm));
    }
    if has_name(s, nm) {
        let i = choose|i: int| 0 <= i < s.len() && s[i].name@ == nm;
        assert(i != pos);
        let ti = if i < pos { i } else { i - 1 };
        assert(t[ti] == s[i]);
        assert(has_name(t, nm));
        let j = choose|j: int| 0 <= j < t.len() && t[j].name@ == nm;
        let sj = if j < pos { j } else { j + 1 };
        assert(t[j] == s[sj]);
        if sj != i {
            assert(false);
        }
        assert(points_of(t, nm) == points_of(s, nm));
    }
}

/// Removing an entry keeps the rest sorted and distinct, and drops its name.
proof fn lemma_remove_keeps_wf(s: Seq<Score>, pos: int)
    requires
        sorted_scores(s),
        names_distinct(s),
        0 <= pos < s.len(),
    ensures
        sorted_scores(s.remove(pos)),
        names_distinct(s.remove(pos)),
        !has_name(s.remove(pos), s[pos].name@),
{
    let t = s.remove(pos);
    assert forall|i: int, j: int| 0 <= i < j < t.len() implies ranks_le(t[i], t[j])
        && t[i].name@ != t[j].name@ by {
        let si = if i < pos { i } else { i + 1 };
        let sj = if j < pos { j } else { j + 1 };
        assert(t[i] == s[si] && t[j] == s[sj]);
    }
    if has_name(t, s[pos].name@) {
        let i = choose|i: int| 0 <= i < t.len() && t[i].name@ == s[pos].name@;
        let si = if i < pos { i } else { i + 1 };
        assert(t[i] == s[si]);
        assert(si != pos);
        assert(false);
    }
}

/// High scores: reset when the server restarts, persistent across joins and
/// leaves while it runs.
#[derive(Clone, Debug)]
pub struct HighScores {
    pub scores: Vec<Score>,
}

impl HighScores {
    /// Sorted descending by points with the deterministic name tie-break,
    /// one entry per name.
    pub open spec fn wf(self) -> bool {
        sorted_scores(self.scores@) && names_distinct(self.scores@)
    }

    /// The ledger entry for a name, as a partial map.
    pub open spec fn entry_of(self, name: Seq<char>) -> Option<int> {
        ledger_entry(self.scores@, name)
    }

    /// Create a new, blank set of high scores.
    pub fn new() -> (h: HighScores)
        ensures
            h.wf(),
            h.scores@.len() == 0,
    {
        HighScores { scores: Vec::new() }
    }

    /// The first position whose entry does not sort at-or-before `x`; the
    /// place to insert `x` to keep the ledger sorted.
    fn insert_position(&self, x: &Score) -> (pos: usize)
        requires
            self.wf(),
        ensures
            pos <= self.scores@.len(),
            forall|k: int| 0 <= k < pos ==> ranks_le(#[trigger] self.scores@[k], *x),
            pos < self.scores@.len() ==> ranks_le(*x, self.scores@[pos as int]),
    {
        let mut pos: usize = 0;
        while pos < self.scores.len()
            invariant
                pos <= self.scores@.len(),
                forall|k: int| 0 <= k < pos ==> ranks_le(#[trigger] self.scores@[k], *x),
            decreases self.scores@.len() - pos,
        {
            if !ranks_at_or_before(&self.scores[pos], x) {
                proof {
                    lemma_ranks_le_total(self.scores@[pos as int], *x);
                }
                return pos;
            }
            pos = pos + 1;
        }
        pos
    }

    /// The index of the entry carrying `name`.
    fn find_index(&self, name: &String) -> (i: usize)
        requires
            has_name(self.scores@, name@),
        ensures
            i < self.scores@.len(),
            self.scores@[i as int].name@ == name@,
    {
        let mut i: usize = 0;
        while i < self.scores.len()
            invariant
                i <= self.scores@.len(),
                has_name(self.scores@, name@),
                forall|k: int| 0 <= k < i ==> #[trigger] self.scores@[k].name@ != name@,
            decreases self.scores@.len() - i,
        {
            if self.scores[i].name == *name {
                return i;
            }
            i = i + 1;
        }
        proof {
            let w = choose|w: int| 0 <= w < self.scores@.len()
                && self.scores@[w].name@ == name@;
            assert(false);
        }
        0
    }

    /// Add a new player with a zero score; a no-op if the name is already
    /// present. Used internally by both `score` and `penalize`.
    pub fn add_player(&mut self, name: &str)
        requires
            old(self).wf(),
        ensures
            final(self).wf(),
            has_name(old(self).scores@, name@) ==> *final(self) == *old(self),
            !has_name(old(self).scores@, name@) ==> {
                &&& final(self).entry_of(name@) == Some(0int)
                &&& final(self).scores@.len() == old(self).scores@.len() + 1
            },
            forall|nm: Seq<char>| nm != name@ ==> final(self).entry_of(nm)
                == old(self).entry_of(nm),
    {
        let name_string: String = name.to_owned();
        if self.contains_name(&name_string) {
            return;
        }
        let entry = Score::new(name, 0);
        let pos = self.insert_position(&entry);
        proof {
            lemma_insert_sorted(self.scores@, pos as int, entry);
            lemma_insert_distinct(self.scores@, pos as int, entry);
            lemma_entry_insert_new(self.scores@, pos as int, entry);
            assert forall|nm: Seq<char>| nm != name@ implies
                ledger_entry(self.scores@.insert(pos as int, entry), nm)
                    == ledger_entry(self.scores@, nm) by {
                lemma_entry_insert_other(self.scores@, pos as int, entry, nm);
            }
        }
        self.scores.insert(pos, entry);
    }

    /// Bump a player's score up by one (saturating); absent players are
    /// added first, so they end at one point.
    pub fn score(&mut self, name: &str)
        requires
            old(self).wf(),
        ensures
            final(self).wf(),
            final(self).entry_of(name@) == Some(
                match old(self).entry_of(name@) {
                    Some(p) => bump_up(p),
                    None => 1int,
                },
            ),
            forall|nm: Seq<char>| nm != name@ ==> final(self).entry_of(nm)
                == old(self).entry_of(nm),
            final(self).scores@.len() == old(self).scores@.len()
                + if has_name(old(self).scores@, name@) { 0int } else { 1int },
    {
        self.add_player(name);
        self.adjust(name, true);
    }

    /// Decrement a player's score by one (saturating); absent players are
    /// added first, so they end at minus one point.
    pub fn penalize(&mut self, name: &str)
        requires
            old(self).wf(),
        ensures
            final(self).wf(),
            final(self).entry_of(name@) == Some(
                match old(self).entry_of(name@) {
                    Some(p) => bump_down(p),
                    None => -1int,
                },
            ),
            forall|nm: Seq<char>| nm != name@ ==> final(self).entry_of(nm)
                == old(self).entry_of(nm),
            final(self).scores@.len() == old(self).scores@.len()
                + if has_name(old(self).scores@, name@) { 0int } else { 1int },
    {
        self.add_player(name);
        self.adjust(name, false);
    }

    /// Move the (present) entry for `name` up or down one point, keeping the
    /// ledger sorted by removing and re-inserting it.
    fn adjust(&mut self, name: &str, up: bool)
        requires
            old(self).wf(),
            has_name(old(self).scores@, name@),
        ensures
            final(self).wf(),
            final(self).entry_of(name@) == Some(
                if up {
                    bump_up(points_of(old(self).scores@, name@))
                } else {
                    bump_down(points_of(old(self).scores@, name@))
                },
            ),
            forall|nm: Seq<char>| nm != name@ ==> final(self).entry_of(nm)
                == old(self).entry_of(nm),
            final(self).scores@.len() == old(self).scores@.len(),
    {
        let name_string: String = name.to_owned();
        let idx = self.find_index(&name_string);
        let ghost s0 = self.scores@;
        proof {
            lemma_points_at_index(s0, idx as int);
            lemma_remove_keeps_wf(s0, idx as int);
            assert forall|nm: Seq<char>| nm != name@ implies
                ledger_entry(s0.remove(idx as int), nm) == ledger_entry(s0, nm) by {
                lemma_entry_remove_other(s0, idx as int, nm);
            }
        }
        let mut entry = self.scores.remove(idx);
        if up {
            if entry.points < i64::MAX {
                entry.points = entry.points + 1;
            }
        } else {
            if entry.points > i64::MIN {
                entry.points = entry.points - 1;
            }
        }
        let pos = self.insert_position(&entry);
        proof {
            lemma_insert_sorted(self.scores@, pos as int, entry);
            lemma_insert_distinct(self.scores@, pos as int, entry);
            lemma_entry_insert_new(self.scores@, pos as int, entry);
            assert forall|nm: Seq<char>| nm != name@ implies
                ledger_entry(self.scores@.insert(pos as int, entry), nm)
                    == ledger_entry(self.scores@, nm) by {
                lemma_entry_insert_other(self.scores@, pos as int, entry, nm);
            }
        }
        self.scores.insert(pos, entry);
    }

    /// A snapshot holding only the first ten entries (fewer if the ledger is
    /// shorter), without mutating the ledger. What the server broadcasts.
    pub fn top10(&self) -> (r: HighScores)
        requires
            self.wf(),
        ensures
            r.wf(),
            r.scores@ == top10_view(*self),
    {
        let take = if self.scores.len() > 10 { 10 } else { self.scores.len() };
        let mut out: Vec<Score> = Vec::new();
        let mut i: usize = 0;
        while i < take
            invariant
                take <= self.scores@.len(),
                i <= take,
                out@ == self.scores@.take(i as int),
            decreases take - i,
        {
            out.push(self.scores[i].duplicate());
            proof {
                assert(out@ =~= self.scores@.take(i + 1));
            }
            i = i + 1;
        }
        proof {
            assert forall|i: int, j: int| 0 <= i < j < out@.len() implies
                ranks_le(out@[i], out@[j]) && out@[i].name@ != out@[j].name@ by {
                assert(out@[i] == self.scores@[i] && out@[j] == self.scores@[j]);
            }
            assert(out@ =~= top10_view(*self));
        }
        HighScores { scores: out }
    }

    /// Whether the ledger has an entry under this name.
    pub fn contains_name(&self, name: &String) -> (r: bool)
        ensures
            r == has_name(self.scores@, name@),
    {
        let mut i: usize = 0;
        while i < self.scores.len()
            invariant
                i <= self.scores@.len(),
                forall|k: int| 0 <= k < i ==> #[trigger] self.scores@[k].name@ != name@,
            decreases self.scores@.len() - i,
        {
            if self.scores[i].name == *name {
                return true;
            }
            i = i + 1;
        }
        false
    }
}

/// The view `top10` returns: the first ten entries (or all of them when the
/// ledger is shorter).
pub open spec fn top10_view(h: HighScores) -> Seq<Score> {
    if h.scores@.len() > 10 {
        h.scores@.take(10)
    } else {
        h.scores@
    }
}

/// Two `top10` snapshots taken with no mutation in between are identical:
/// the result is a pure function of the ledger.
pub proof fn lemma_top10_idempotent(h: HighScores, r1: HighScores, r2: HighScores)
    requires
        r1.scores@ == top10_view(h),
        r2.scores@ == top10_view(h),
    ensures
        r1.scores@ == r2.scores@,
{
}

/// With distinct names, the points at a found index are the ledger's points
/// for that name.
proof fn lemma_points_at_index(s: Seq<Score>, i: int)
    requires
        names_distinct(s),
        0 <= i < s.len(),
    ensures
        points_of(s, s[i].name@) == s[i].points as int,
        has_name(s, s[i].name@),
{
    let nm = s[i].name@;
    assert(has_name(s, nm));
    let j = choose|j: int| 0 <= j < s.len() && s[j].name@ == nm;
    if j != i {
        assert(false);
    }
}

/// Exec comparison matching [`ranks_le`].
fn ranks_at_or_before(a: &Score, b: &Score) -> (r: bool)
    ensures
        r == ranks_le(*a, *b),
{
    if a.points > b.points {
        true
    } else if a.points < b.points {
        false
    } else {
        name_le(&a.name, &b.name)
    }
}

/// Exec comparison: `a` equals `b` or precedes it lexicographically.
fn name_le(a: &String, b: &String) -> (r: bool)
    ensures
        r == (a@ == b@ || lex_lt(encode_utf8(a@), encode_utf8(b@))),
{
    let ab = a.as_str().as_bytes();
    let bb = b.as_str().as_bytes();
    let ghost abs = encode_utf8(a@);
    let ghost bbs = encode_utf8(b@);
    let mut i: usize = 0;
    let alen = ab.len();
    let blen = bb.len();
    proof {
        assert(abs.skip(0) =~= abs);
        assert(bbs.skip(0) =~= bbs);
        assert(abs.take(0) =~= bbs.take(0));
    }
    while i < alen && i < blen
        invariant
            ab@ == abs,
            bb@ == bbs,
            abs == encode_utf8(a@),
            bbs == encode_utf8(b@),
            alen == abs.len(),
            blen == bbs.len(),
            i <= alen,
            i <= blen,
            abs.take(i as int) == bbs.take(i as int),
            lex_lt(abs, bbs) == lex_lt(abs.skip(i as int), bbs.skip(i as int)),
        decreases alen - i,
    {
        let ca = ab[i];
        let cb = bb[i];
        proof {
            assert(abs.skip(i as int)[0] == abs[i as int]);
            assert(bbs.skip(i as int)[0] == bbs[i as int]);
        }
        if ca < cb {
            return true;
        }
        if ca > cb {
            proof {
                assert(a@ == b@ ==> abs == bbs);
            }
            return false;
        }
        proof {
            assert(abs.skip(i as int).drop_first() =~= abs.skip(i + 1));
            assert(bbs.skip(i as int).drop_first() =~= bbs.skip(i + 1));
            assert(abs.take(i + 1) =~= abs.take(i as int).push(abs[i as int]));
            assert(bbs.take(i + 1) =~= bbs.take(i as int).push(bbs[i as int]));
        }
        i = i + 1;
    }
    proof {
        if alen == blen {
            assert(abs =~= bbs) by {
                assert(abs.take(i as int) =~= abs);
                assert(bbs.take(i as int) =~= bbs);
            }
            encode_utf8_decode_utf8(a@);
            encode_utf8_decode_utf8(b@);
        } else if i == alen {
            assert(abs.skip(i as int).len() == 0);
            assert(bbs.skip(i as int).len() > 0);
            assert(lex_lt(abs, bbs));
        } else {
            assert(bbs.skip(i as int).len() == 0);
            assert(abs.skip(i as int).len() > 0);
            assert(!lex_lt(abs, bbs));
            assert(a@ == b@ ==> abs == bbs);
        }
    }
    alen <= blen
}

} // verus!
