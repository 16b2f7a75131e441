//! Failure information carried by a parsing state: the farthest position read
//! and every item that was expected there.
use vstd::prelude::*;

verus! {

/// All the items that could have been parsed at position `farthest_read`.
#[derive(Clone, Debug)]
pub struct ParseError {
    pub farthest_read: usize,
    pub expected: Vec<&'static str>,
}

/// The text of each expected item, in order.
pub open spec fn item_views(items: Seq<&'static str>) -> Seq<Seq<char>> {
    items.map_values(|s: &'static str| s@)
}

/// The items of `s` with later repetitions removed, first occurrences in order.
pub open spec fn distinct_items(s: Seq<Seq<char>>) -> Seq<Seq<char>>
    decreases s.len(),
{
    if s.len() == 0 {
        Seq::empty()
    } else {
        let d = distinct_items(s.drop_last());
        if d.contains(s.last()) {
            d
        } else {
            d.push(s.last())
        }
    }
}

/// One item written between backquotes.
pub open spec fn quoted(item: Seq<char>) -> Seq<char> {
    seq!['`'] + item + seq!['`']
}

/// The items quoted and joined by " or ".
pub open spec fn describe(items: Seq<Seq<char>>) -> Seq<char>
    decreases items.len(),
{
    if items.len() == 0 {
        Seq::empty()
    } else if items.len() == 1 {
        quoted(items[0])
    } else {
        describe(items.drop_last()) + seq![' ', 'o', 'r', ' '] + quoted(items.last())
    }
}

/// Position kept when two failures are merged: the farther one.
pub open spec fn merged_read(a: ParseError, b: ParseError) -> usize {
    if a.farthest_read >= b.farthest_read {
        a.farthest_read
    } else {
        b.farthest_read
    }
}

/// Items kept when two failures are merged: those of the farther failure, or
/// those of both, in order and with duplicates, at equal positions.
pub open spec fn merged_expected(a: ParseError, b: ParseError) -> Seq<&'static str> {
    if a.farthest_read > b.farthest_read {
        a.expected@
    } else if a.farthest_read < b.farthest_read {
        b.expected@
    } else {
        a.expected@ + b.expected@
    }
}

impl ParseError {
    /// A failure at `farthest_read` that expected a single item.
    pub fn unique(farthest_read: usize, expect: &'static str) -> (r: ParseError)
        ensures
            r.farthest_read == farthest_read,
            r.expected@ == seq![expect],
    {
        ParseError { farthest_read, expected: vec![expect] }
    }

    /// A failure at `farthest_read` with nothing expected.
    pub fn empty(farthest_read: usize) -> (r: ParseError)
        ensures
            r.farthest_read == farthest_read,
            r.expected@.len() == 0,
    {
        ParseError { farthest_read, expected: Vec::new() }
    }

    /// The distinct expected items, each between backquotes, joined by " or ".
    pub fn expected_items(&self) -> (r: String)
        ensures
            r@ == describe(distinct_items(item_views(self.expected@))),
    {
        let ghost all = item_views(self.expected@);
        let mut seen: Vec<String> = Vec::new();
        let mut i: usize = 0;
        while i < self.expected.len()
            invariant
                0 <= i <= self.expected@.len(),
                all == item_views(self.expected@),
                seen@.map_values(|t: String| t@) == distinct_items(all.take(i as int)),
            decreases self.expected@.len() - i,
        {
            let item = String::from_str(self.expected[i]);
            let mut found = false;
            let mut j: usize = 0;
            while j < seen.len()
                invariant
                    0 <= j <= seen@.len(),
                    found == exists|k: int| 0 <= k < j && seen@[k]@ == item@,
                decreases seen@.len() - j,
            {
                if seen[j] == item {
                    found = true;
                }
                j = j + 1;
            }
            proof {
                let d = distinct_items(all.take(i as int));
                assert(all.take(i as int + 1).drop_last() == all.take(i as int));
                assert(item@ == all[i as int]);
                if found {
                    let k = choose|k: int| 0 <= k < seen@.len() && seen@[k]@ == item@;
                    assert(d[k] == item@);
                    assert(d.contains(item@));
                } else {
                    assert forall|k: int| 0 <= k < d.len() implies d[k] != item@ by {
                        assert(seen@[k]@ == d[k]);
                    }
                    assert(!d.contains(item@));
                }
            }
            if !found {
                seen.push(item);
            }
            i = i + 1;
        }
        assert(all.take(self.expected@.len() as int) == all);
        let mut desc = String::new();
        let mut n: usize = 0;
        while n < seen.len()
            invariant
                0 <= n <= seen@.len(),
                desc@ == describe(seen@.map_values(|t: String| t@).take(n as int)),
            decreases seen@.len() - n,
        {
            let ghost views = seen@.map_values(|t: String| t@);
            proof {
                reveal_strlit("`");
                reveal_strlit(" or ");
                assert(views.take(n as int + 1).drop_last() == views.take(n as int));
            }
            if n > 0 {
                desc.append(" or ");
            }
            desc.append("`");
            desc.append(seen[n].as_str());
            desc.append("`");
            proof {
                if n == 0 {
                    assert(desc@ == quoted(views[0]));
                } else {
                    assert(desc@ =~= describe(views.take(n as int)) + seq![' ', 'o', 'r', ' ']
                        + quoted(views[n as int]));
                }
            }
            n = n + 1;
        }
        assert(seen@.map_values(|t: String| t@).take(seen@.len() as int) == seen@.map_values(
            |t: String| t@,
        ));
        desc
    }

    /// Merges two failures: the farther one wins; at equal positions the
    /// expected items of both are kept, duplicates included.
    pub fn merge(self, other: ParseError) -> (r: ParseError)
        ensures
            r.farthest_read == merged_read(self, other),
            r.expected@ == merged_expected(self, other),
    {
        let mut s = self;
        s.merge_in_place(other);
        s
    }

    pub fn merge_in_place(&mut self, other: ParseError)
        ensures
            final(self).farthest_read == merged_read(*old(self), other),
            final(self).expected@ == merged_expected(*old(self), other),
    {
        if self.farthest_read > other.farthest_read {
        } else if self.farthest_read < other.farthest_read {
            self.farthest_read = other.farthest_read;
            self.expected = other.expected;
        } else {
            let mut rest = other.expected;
            self.expected.append(&mut rest);
        }
    }
}

} // verus!
