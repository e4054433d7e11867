//! The option parser: a comma-separated list of bare identifiers attached
//! to a transformation request becomes a set of named flags.
//!
//! The grammar accepts surrounding whitespace, an optional trailing comma
//! and an empty list. Duplicates are removed and order is discarded: the
//! transform only ever tests membership. Unrecognized names are accepted
//! and have no effect.

use vstd::prelude::*;

use crate::text::{is_ws_char, is_ident_start_char, is_ident_cont_char, str_eq, char_is_ws,
    char_is_ident_start, char_is_ident_cont};

verus! {

/// First position at or after `i` holding no whitespace.
pub open spec fn skip_ws_from(s: Seq<char>, i: int) -> int
    decreases s.len() - i when 0 <= i <= s.len()
{
    if i < s.len() && is_ws_char(s[i]) {
        skip_ws_from(s, i + 1)
    } else {
        i
    }
}

/// First position at or after `i` that cannot continue an identifier.
pub open spec fn ident_end_from(s: Seq<char>, i: int) -> int
    decreases s.len() - i when 0 <= i <= s.len()
{
    if i < s.len() && is_ident_cont_char(s[i]) {
        ident_end_from(s, i + 1)
    } else {
        i
    }
}

pub proof fn lemma_skip_ws_bounds(s: Seq<char>, i: int)
    requires
        0 <= i <= s.len(),
    ensures
        i <= skip_ws_from(s, i) <= s.len(),
    decreases s.len() - i,
{
    if i < s.len() && is_ws_char(s[i]) {
        lemma_skip_ws_bounds(s, i + 1);
    }
}

pub proof fn lemma_ident_end_bounds(s: Seq<char>, i: int)
    requires
        0 <= i <= s.len(),
    ensures
        i <= ident_end_from(s, i) <= s.len(),
    decreases s.len() - i,
{
    if i < s.len() && is_ident_cont_char(s[i]) {
        lemma_ident_end_bounds(s, i + 1);
    }
}

/// The identifiers of a well-formed option list read from position `i`,
/// where an identifier is required to start; `None` on malformed input.
pub open spec fn parse_items(s: Seq<char>, i: int) -> Option<Seq<Seq<char>>>
    decreases s.len() - i when 0 <= i <= s.len() via parse_items_decreases
{
    if i == s.len() || !is_ident_start_char(s[i]) {
        None
    } else {
        let j = ident_end_from(s, i + 1);
        let name = s.subrange(i, j);
        let k = skip_ws_from(s, j);
        if k == s.len() {
            Some(seq![name])
        } else if s[k] == ',' {
            let m = skip_ws_from(s, k + 1);
            if m == s.len() {
                Some(seq![name])
            } else {
                match parse_items(s, m) {
                    Some(rest) => Some(seq![name] + rest),
                    None => None,
                }
            }
        } else {
            None
        }
    }
}

#[via_fn]
proof fn parse_items_decreases(s: Seq<char>, i: int) {
    if !(i == s.len() || !is_ident_start_char(s[i])) {
        lemma_ident_end_bounds(s, i + 1);
        let j = ident_end_from(s, i + 1);
        lemma_skip_ws_bounds(s, j);
        let k = skip_ws_from(s, j);
        if k < s.len() && s[k] == ',' {
            lemma_skip_ws_bounds(s, k + 1);
        }
    }
}

/// The identifiers of a whole option list: `None` when the text is not a
/// well-formed comma-separated identifier list.
pub open spec fn parse_opts_spec(s: Seq<char>) -> Option<Seq<Seq<char>>> {
    let i = skip_ws_from(s, 0);
    if i == s.len() {
        Some(Seq::empty())
    } else {
        parse_items(s, i)
    }
}

/// A set of named modifier flags for one transformation request.
pub struct OptionSet {
    names: Vec<String>,
}

impl View for OptionSet {
    type V = Set<Seq<char>>;

    closed spec fn view(&self) -> Set<Seq<char>> {
        self.names.deep_view().to_set()
    }
}

impl OptionSet {
    /// The empty flag set.
    pub fn empty() -> (r: Self)
        ensures
            r@ == Set::<Seq<char>>::empty(),
    {
        let r = OptionSet { names: Vec::new() };
        proof {
            assert(r@ =~= Set::<Seq<char>>::empty());
        }
        r
    }

    /// Whether the named flag is in the set.
    pub fn contains(&self, name: &str) -> (r: bool)
        ensures
            r == self@.contains(name@),
    {
        let mut i: usize = 0;
        while i < self.names.len()
            invariant
                0 <= i <= self.names.len(),
                forall|j: int| 0 <= j < i ==> self.names.deep_view()[j] != name@,
            decreases self.names.len() - i,
        {
            if str_eq(self.names[i].as_str(), name) {
                proof {
                    assert(self.names.deep_view()[i as int] == name@);
                }
                return true;
            }
            i = i + 1;
        }
        proof {
            assert(!self.names.deep_view().contains(name@));
        }
        false
    }

    /// Adds the named flag; adding one already there changes nothing.
    pub fn insert(&mut self, name: String)
        ensures
            final(self)@ == old(self)@.insert(name@),
    {
        if !self.contains(name.as_str()) {
            let ghost pre = self.names.deep_view();
            self.names.push(name);
            proof {
                assert(self.names.deep_view() =~= pre.push(name@));
                assert forall|x: Seq<char>| self.names.deep_view().contains(x)
                    <==> (pre.contains(x) || x == name@) by {
                    if self.names.deep_view().contains(x) {
                        let w = choose|w: int|
                            0 <= w < self.names.deep_view().len()
                                && self.names.deep_view()[w] == x;
                        if w < pre.len() {
                            assert(pre[w] == x);
                        }
                    }
                    if pre.contains(x) {
                        let w = choose|w: int| 0 <= w < pre.len() && pre[w] == x;
                        assert(self.names.deep_view()[w] == x);
                    }
                    if x == name@ {
                        assert(self.names.deep_view()[pre.len() as int] == x);
                    }
                }
                assert(self@ =~= old(self)@.insert(name@));
            }
        } else {
            proof {
                assert(self@ =~= old(self)@.insert(name@));
            }
        }
    }
}

fn skip_ws_exec(s: &str, i: usize, n: usize) -> (j: usize)
    requires
        n == s@.len(),
        i <= n,
    ensures
        j == skip_ws_from(s@, i as int),
        i <= j <= n,
    decreases n - i,
{
    if i < n {
        if char_is_ws(s.get_char(i)) {
            return skip_ws_exec(s, i + 1, n);
        }
    }
    i
}

fn ident_end_exec(s: &str, i: usize, n: usize) -> (j: usize)
    requires
        n == s@.len(),
        i <= n,
    ensures
        j == ident_end_from(s@, i as int),
        i <= j <= n,
    decreases n - i,
{
    if i < n {
        if char_is_ident_cont(s.get_char(i)) {
            return ident_end_exec(s, i + 1, n);
        }
    }
    i
}

fn parse_items_exec(s: &str, i: usize, n: usize) -> (r: Option<Vec<String>>)
    requires
        n == s@.len(),
        i <= n,
    ensures
        r is Some <==> parse_items(s@, i as int) is Some,
        r matches Some(v) ==> Some(v.deep_view()) == parse_items(s@, i as int),
    decreases n - i,
{
    if i == n {
        return None;
    }
    if !char_is_ident_start(s.get_char(i)) {
        return None;
    }
    let j = ident_end_exec(s, i + 1, n);
    let name = String::from_str(s.substring_char(i, j));
    let k = skip_ws_exec(s, j, n);
    if k == n {
        let mut one: Vec<String> = Vec::new();
        one.push(name);
        proof {
            assert(one.deep_view() =~= seq![s@.subrange(i as int, j as int)]);
        }
        return Some(one);
    }
    if s.get_char(k) == ',' {
        let m = skip_ws_exec(s, k + 1, n);
        if m == n {
            let mut one: Vec<String> = Vec::new();
            one.push(name);
            proof {
                assert(one.deep_view() =~= seq![s@.subrange(i as int, j as int)]);
            }
            return Some(one);
        }
        match parse_items_exec(s, m, n) {
            Some(mut rest) => {
                rest.insert(0, name);
                proof {
                    assert(rest.deep_view() =~= seq![s@.subrange(i as int, j as int)]
                        + parse_items(s@, m as int)->0);
                }
                Some(rest)
            },
            None => None,
        }
    } else {
        None
    }
}

/// Parses the modifier list of one transformation request. Returns the
/// flag set exactly when the text is a well-formed comma-separated
/// identifier list (possibly empty, possibly with a trailing comma).
pub fn parse_options(s: &str) -> (r: Option<OptionSet>)
    ensures
        r is Some <==> parse_opts_spec(s@) is Some,
        r matches Some(o) ==> o@ == parse_opts_spec(s@)->0.to_set(),
{
    let n: usize = s.unicode_len();
    let i = skip_ws_exec(s, 0, n);
    if i == n {
        let r = OptionSet::empty();
        proof {
            assert(Seq::<Seq<char>>::empty().to_set() =~= Set::<Seq<char>>::empty());
        }
        return Some(r);
    }
    match parse_items_exec(s, i, n) {
        Some(items) => {
            let mut set = OptionSet::empty();
            let mut k: usize = 0;
            while k < items.len()
                invariant
                    0 <= k <= items.len(),
                    set@ == items.deep_view().subrange(0, k as int).to_set(),
                decreases items.len() - k,
            {
                let ghost pre = items.deep_view().subrange(0, k as int);
                set.insert(items[k].clone());
                proof {
                    assert(items.deep_view().subrange(0, k + 1 as int) =~= pre.push(
                        items.deep_view()[k as int]));
                    assert forall|x: Seq<char>|
                        pre.push(items.deep_view()[k as int]).to_set().contains(x)
                        <==> pre.to_set().insert(items.deep_view()[k as int]).contains(x) by {
                        let q = pre.push(items.deep_view()[k as int]);
                        if q.contains(x) {
                            let w = choose|w: int| 0 <= w < q.len() && q[w] == x;
                            if w < pre.len() {
                                assert(pre[w] == x);
                            }
                        }
                        if pre.contains(x) {
                            let w = choose|w: int| 0 <= w < pre.len() && pre[w] == x;
                            assert(q[w] == x);
                        }
                        if x == items.deep_view()[k as int] {
                            assert(q[pre.len() as int] == x);
                        }
                    }
                    assert(set@ =~= items.deep_view().subrange(0, k + 1 as int).to_set());
                }
                k = k + 1;
            }
            proof {
                assert(items.deep_view().subrange(0, items.len() as int) =~= items.deep_view());
            }
            Some(set)
        },
        None => None,
    }
}

} // verus!
