//! Literal substring substitution and the ordered rewrite table.

use vstd::prelude::*;
use crate::text::{chars_of, push_range};

verus! {

/// `s` with every occurrence of `from` replaced by `to`, scanning left to right and
/// never matching inside a piece already replaced. An empty `from` matches before
/// every character and at the end, as `str::replace` does.
pub open spec fn replace_all(s: Seq<char>, from: Seq<char>, to: Seq<char>) -> Seq<char>
    decreases s.len(),
{
    if from.len() == 0 {
        if s.len() == 0 {
            to
        } else {
            to + seq![s[0]] + replace_all(s.drop_first(), from, to)
        }
    } else if s.len() < from.len() {
        s
    } else if s.subrange(0, from.len() as int) == from {
        to + replace_all(s.subrange(from.len() as int, s.len() as int), from, to)
    } else {
        seq![s[0]] + replace_all(s.drop_first(), from, to)
    }
}

/// Applies each rule of `rules` in turn, the first rule first.
pub open spec fn rewrite_all(s: Seq<char>, rules: Seq<(Seq<char>, Seq<char>)>) -> Seq<char>
    decreases rules.len(),
{
    if rules.len() == 0 {
        s
    } else {
        rewrite_all(replace_all(s, rules[0].0, rules[0].1), rules.drop_first())
    }
}

/// Whether `pat` occurs in `s` at position `i`.
fn occurs_at(s: &Vec<char>, i: usize, pat: &Vec<char>) -> (r: bool)
    requires
        i + pat.len() <= s.len(),
    ensures
        r == (s@.subrange(i as int, i + pat.len()) == pat@),
{
    let mut j: usize = 0;
    while j < pat.len()
        invariant
            i + pat.len() <= s.len(),
            j <= pat.len(),
            forall|k: int| 0 <= k < j ==> s@[i + k] == pat@[k],
        decreases pat.len() - j,
    {
        if s[i + j] != pat[j] {
            assert(s@.subrange(i as int, i + pat.len())[j as int] != pat@[j as int]);
            return false;
        }
        j += 1;
    }
    assert(s@.subrange(i as int, i + pat.len()) =~= pat@);
    true
}

/// Replaces every occurrence of `from` in `s` by `to`, as `replace_all` describes.
pub fn replace_chars(s: &Vec<char>, from: &Vec<char>, to: &Vec<char>) -> (r: Vec<char>)
    ensures
        r@ == replace_all(s@, from@, to@),
{
    let n = s.len();
    let k = from.len();
    let mut out: Vec<char> = Vec::new();
    let mut i: usize = 0;
    assert(s@.subrange(0, n as int) =~= s@);
    assert(out@ + replace_all(s@, from@, to@) =~= replace_all(s@, from@, to@));
    if k == 0 {
        while i < n
            invariant
                n == s.len(),
                k == from.len() == 0,
                i <= n,
                out@ + replace_all(s@.subrange(i as int, n as int), from@, to@)
                    == replace_all(s@, from@, to@),
            decreases n - i,
        {
            let ghost rest = s@.subrange(i as int, n as int);
            assert(rest.drop_first() =~= s@.subrange(i + 1, n as int));
            push_range(&mut out, to, 0, to.len());
            out.push(s[i]);
            i += 1;
            assert(to@.subrange(0, to@.len() as int) =~= to@);
            assert(out@ + replace_all(s@.subrange(i as int, n as int), from@, to@)
                =~= out@.subrange(0, out@.len() - 1 - to@.len() as int) + replace_all(rest, from@, to@));
        }
        assert(s@.subrange(n as int, n as int) =~= Seq::<char>::empty());
        push_range(&mut out, to, 0, to.len());
        assert(to@.subrange(0, to@.len() as int) =~= to@);
    } else {
        while k <= n - i
            invariant
                n == s.len(),
                k == from.len() > 0,
                i <= n,
                out@ + replace_all(s@.subrange(i as int, n as int), from@, to@)
                    == replace_all(s@, from@, to@),
            decreases n - i,
        {
            let ghost old_out = out@;
            let ghost rest = s@.subrange(i as int, n as int);
            assert(rest.subrange(0, k as int) =~= s@.subrange(i as int, i + k));
            if occurs_at(s, i, from) {
                assert(rest.subrange(k as int, rest.len() as int) =~= s@.subrange(i + k, n as int));
                push_range(&mut out, to, 0, to.len());
                assert(to@.subrange(0, to@.len() as int) =~= to@);
                i += k;
                assert(out@ + replace_all(s@.subrange(i as int, n as int), from@, to@)
                    =~= old_out + replace_all(rest, from@, to@));
            } else {
                assert(rest.drop_first() =~= s@.subrange(i + 1, n as int));
                out.push(s[i]);
                i += 1;
                assert(out@ + replace_all(s@.subrange(i as int, n as int), from@, to@)
                    =~= old_out + replace_all(rest, from@, to@));
            }
        }
        push_range(&mut out, s, i, n);
        assert(out@ =~= out@ + replace_all(s@.subrange(n as int, n as int), from@, to@)) by {
            assert(s@.subrange(n as int, n as int).len() == 0);
        }
    }
    out
}

/// No two rules of `rules` share their key.
pub open spec fn keys_distinct(rules: Seq<(Seq<char>, Seq<char>)>) -> bool {
    forall|i: int, j: int| 0 <= i < j < rules.len() ==> rules[i].0 != rules[j].0
}

/// Whether some rule of `rules` has the key `key`.
pub open spec fn has_key_in(rules: Seq<(Seq<char>, Seq<char>)>, key: Seq<char>) -> bool {
    exists|i: int| 0 <= i < rules.len() && #[trigger] rules[i].0 == key
}

/// An ordered list of literal substitutions, each a (from, to) pair with its own key.
/// The rules are applied in the order in which they stand.
pub struct RewriteTable {
    rules: Vec<(String, String)>,
}

impl View for RewriteTable {
    type V = Seq<(Seq<char>, Seq<char>)>;

    closed spec fn view(&self) -> Seq<(Seq<char>, Seq<char>)> {
        self.rules@.map_values(|p: (String, String)| (p.0@, p.1@))
    }
}

impl RewriteTable {
    /// Keys are unique.
    pub open spec fn wf(&self) -> bool {
        keys_distinct(self@)
    }

    /// The table without rules.
    pub fn new() -> (t: RewriteTable)
        ensures
            t@ == Seq::<(Seq<char>, Seq<char>)>::empty(),
            t.wf(),
    {
        let t = RewriteTable { rules: Vec::new() };
        assert(t@ =~= Seq::<(Seq<char>, Seq<char>)>::empty());
        t
    }

    /// Builds a table from rules whose keys are already known to be unique.
    pub(crate) fn from_rules(rules: Vec<(String, String)>) -> (t: RewriteTable)
        ensures
            t@ == rules@.map_values(|p: (String, String)| (p.0@, p.1@)),
    {
        RewriteTable { rules }
    }

    /// The number of rules.
    pub fn len(&self) -> (n: usize)
        ensures
            n == self@.len(),
    {
        self.rules.len()
    }

    /// Whether a rule with key `key` is present.
    pub fn has_key(&self, key: &String) -> (r: bool)
        ensures
            r == has_key_in(self@, key@),
    {
        let mut i: usize = 0;
        while i < self.rules.len()
            invariant
                i <= self.rules.len(),
                forall|j: int| 0 <= j < i ==> self@[j].0 != key@,
            decreases self.rules.len() - i,
        {
            if self.rules[i].0 == *key {
                assert(self@[i as int].0 == key@);
                return true;
            }
            i += 1;
        }
        false
    }

    /// Appends the rule `from -> to` unless a rule with key `from` is present already;
    /// tells whether it was added.
    pub fn add_rule(&mut self, from: String, to: String) -> (added: bool)
        requires
            old(self).wf(),
        ensures
            final(self).wf(),
            added == !has_key_in(old(self)@, from@),
            added ==> final(self)@ == old(self)@.push((from@, to@)),
            !added ==> final(self)@ == old(self)@,
    {
        if self.has_key(&from) {
            false
        } else {
            let ghost before = self@;
            let ghost fv = from@;
            let ghost tv = to@;
            self.rules.push((from, to));
            assert(self@ =~= before.push((fv, tv)));
            assert forall|i: int, j: int| 0 <= i < j < self@.len() implies self@[i].0
                != self@[j].0 by {
                if j == before.len() {
                    assert(before[i].0 != fv);
                }
            }
            true
        }
    }

    /// Applies every rule in order to `s`.
    pub fn apply(&self, s: &Vec<char>) -> (r: Vec<char>)
        ensures
            r@ == rewrite_all(s@, self@),
    {
        let n = self.rules.len();
        let mut cur: Vec<char> = s.clone();
        let mut i: usize = 0;
        assert(self@.subrange(0, n as int) =~= self@);
        while i < n
            invariant
                n == self@.len(),
                i <= n,
                rewrite_all(cur@, self@.subrange(i as int, n as int)) == rewrite_all(s@, self@),
            decreases n - i,
        {
            let from = chars_of(self.rules[i].0.as_str());
            let to = chars_of(self.rules[i].1.as_str());
            let ghost rest = self@.subrange(i as int, n as int);
            assert(rest.drop_first() =~= self@.subrange(i + 1, n as int));
            cur = replace_chars(&cur, &from, &to);
            i += 1;
        }
        assert(self@.subrange(n as int, n as int).len() == 0);
        cur
    }
}

} // verus!
