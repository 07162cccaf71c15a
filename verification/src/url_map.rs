//! The mapping from short codes to long URLs.

use crate::code::{is_code_text, ShortCode, CODE_LENGTH};
use crate::long_url::LongUrl;
use vstd::prelude::*;

verus! {

/// The mapping that a sequence of (code, URL) pairs spells when the pairs are
/// recorded one after the other: a later pair replaces an earlier one with
/// the same code.
pub open spec fn associations(pairs: Seq<(Seq<char>, Seq<char>)>) -> Map<Seq<char>, Seq<char>>
    decreases pairs.len(),
{
    if pairs.len() == 0 {
        Map::empty()
    } else {
        associations(pairs.drop_last()).insert(pairs.last().0, pairs.last().1)
    }
}

/// No two pairs share a code.
pub open spec fn distinct_codes(pairs: Seq<(Seq<char>, Seq<char>)>) -> bool {
    forall|i: int, j: int|
        0 <= i < j < pairs.len() ==> (#[trigger] pairs[i]).0 != (#[trigger] pairs[j]).0
}

/// Pairs that share no code still share none when the last pair is left out.
proof fn lemma_distinct_front(pairs: Seq<(Seq<char>, Seq<char>)>)
    requires
        distinct_codes(pairs),
        pairs.len() > 0,
    ensures
        distinct_codes(pairs.drop_last()),
{
    let front = pairs.drop_last();
    assert forall|a: int, b: int| 0 <= a < b < front.len() implies (#[trigger] front[a]).0 != (
    #[trigger] front[b]).0 by {
        assert(pairs[a].0 != pairs[b].0);
    }
}

/// A code belongs to the mapping exactly when some pair carries it, and the
/// mapping is finite.
pub proof fn lemma_associations_domain(pairs: Seq<(Seq<char>, Seq<char>)>)
    ensures
        associations(pairs).dom().finite(),
        forall|code: Seq<char>|
            associations(pairs).dom().contains(code) <==> exists|i: int|
                0 <= i < pairs.len() && (#[trigger] pairs[i]).0 == code,
    decreases pairs.len(),
{
    if pairs.len() > 0 {
        let front = pairs.drop_last();
        lemma_associations_domain(front);
        assert forall|code: Seq<char>|
            associations(pairs).dom().contains(code) <==> exists|i: int|
                0 <= i < pairs.len() && (#[trigger] pairs[i]).0 == code by {
            if associations(pairs).dom().contains(code) {
                if code == pairs.last().0 {
                    assert(pairs[pairs.len() - 1].0 == code);
                } else {
                    let i = choose|i: int| 0 <= i < front.len() && (#[trigger] front[i]).0 == code;
                    assert(pairs[i].0 == code);
                }
            }
            if exists|i: int| 0 <= i < pairs.len() && (#[trigger] pairs[i]).0 == code {
                let i = choose|i: int| 0 <= i < pairs.len() && (#[trigger] pairs[i]).0 == code;
                if i < pairs.len() - 1 {
                    assert(front[i].0 == code);
                }
            }
        }
    }
}

/// Where no two pairs share a code, each pair's code is mapped to that pair's
/// URL.
pub proof fn lemma_associations_at(pairs: Seq<(Seq<char>, Seq<char>)>, i: int)
    requires
        distinct_codes(pairs),
        0 <= i < pairs.len(),
    ensures
        associations(pairs).dom().contains(pairs[i].0),
        associations(pairs)[pairs[i].0] == pairs[i].1,
    decreases pairs.len(),
{
    if i < pairs.len() - 1 {
        let front = pairs.drop_last();
        lemma_distinct_front(pairs);
        lemma_associations_at(front, i);
        assert(front[i] == pairs[i]);
        assert(pairs[i].0 != pairs[pairs.len() - 1].0);
    }
}

/// Where no two pairs share a code, the mapping has as many codes as there
/// are pairs.
pub proof fn lemma_associations_len(pairs: Seq<(Seq<char>, Seq<char>)>)
    requires
        distinct_codes(pairs),
    ensures
        associations(pairs).dom().finite(),
        associations(pairs).dom().len() == pairs.len(),
    decreases pairs.len(),
{
    lemma_associations_domain(pairs);
    if pairs.len() > 0 {
        let front = pairs.drop_last();
        lemma_distinct_front(pairs);
        lemma_associations_len(front);
        lemma_associations_domain(front);
        assert(!associations(front).dom().contains(pairs.last().0)) by {
            if associations(front).dom().contains(pairs.last().0) {
                let i = choose|i: int|
                    0 <= i < front.len() && (#[trigger] front[i]).0 == pairs.last().0;
                assert(pairs[i].0 != pairs[pairs.len() - 1].0);
            }
        }
    }
}

/// Where no two pairs share a code, giving the pair at `i` another URL maps
/// its code to that URL and changes nothing else.
pub proof fn lemma_associations_update(pairs: Seq<(Seq<char>, Seq<char>)>, i: int, url: Seq<char>)
    requires
        distinct_codes(pairs),
        0 <= i < pairs.len(),
    ensures
        distinct_codes(pairs.update(i, (pairs[i].0, url))),
        associations(pairs.update(i, (pairs[i].0, url))) == associations(pairs).insert(
            pairs[i].0,
            url,
        ),
    decreases pairs.len(),
{
    let updated = pairs.update(i, (pairs[i].0, url));
    assert(distinct_codes(updated)) by {
        assert forall|a: int, b: int| 0 <= a < b < updated.len() implies (#[trigger] updated[a]).0
            != (#[trigger] updated[b]).0 by {
            assert(pairs[a].0 != pairs[b].0);
        }
    }
    let front = pairs.drop_last();
    lemma_distinct_front(pairs);
    if i == pairs.len() - 1 {
        assert(updated.drop_last() =~= front);
        assert(associations(updated) =~= associations(pairs).insert(pairs[i].0, url));
    } else {
        lemma_associations_update(front, i, url);
        assert(front[i] == pairs[i]);
        assert(updated.drop_last() =~= front.update(i, (pairs[i].0, url)));
        assert(pairs[i].0 != pairs[pairs.len() - 1].0);
        assert(associations(updated) =~= associations(pairs).insert(pairs[i].0, url));
    }
}

/// One association: a short code and the long URL that it stands for.
#[derive(Debug)]
pub struct UrlMapEntry {
    pub short_code: ShortCode,
    pub url: LongUrl,
}

/// The (code, URL) pairs that a sequence of entries holds.
pub open spec fn pairs_of(entries: Seq<UrlMapEntry>) -> Seq<(Seq<char>, Seq<char>)> {
    Seq::new(entries.len(), |i: int| (entries[i].short_code@, entries[i].url@))
}

/// The set of associations from short codes to long URLs. No code occurs
/// twice.
///
/// The entries are kept in a vector, in the order in which their codes first
/// came, so looking a code up and inserting one walk the entries. A hash map
/// keyed by the codes would be faster and could not be reasoned about: the
/// specification of std's `HashMap` holds only for key types with a key
/// model, and vstd gives strings none.
#[derive(Debug)]
pub struct UrlMap {
    entries: Vec<UrlMapEntry>,
}

impl View for UrlMap {
    type V = Map<Seq<char>, Seq<char>>;

    closed spec fn view(&self) -> Map<Seq<char>, Seq<char>> {
        associations(pairs_of(self.entries@))
    }
}

impl UrlMap {
    #[verifier::type_invariant]
    spec fn unique_codes(self) -> bool {
        distinct_codes(pairs_of(self.entries@))
    }

    /// The empty mapping.
    pub fn new() -> (map: UrlMap)
        ensures
            map@ == Map::<Seq<char>, Seq<char>>::empty(),
    {
        UrlMap { entries: Vec::new() }
    }

    /// The mapping that results when `entries` are recorded one after the
    /// other, a later entry replacing an earlier one with the same code.
    pub fn from_entries(entries: Vec<UrlMapEntry>) -> (map: UrlMap)
        ensures
            map@ == associations(pairs_of(entries@)),
    {
        let mut map = UrlMap::new();
        let ghost all = entries@;
        for entry in iter: entries
            invariant
                iter.seq() == all,
                map@ == associations(pairs_of(all.take(iter.index() as int))),
        {
            proof {
                let done = pairs_of(all.take(iter.index() + 1));
                assert(done.drop_last() =~= pairs_of(all.take(iter.index() as int)));
                assert(done.last() == (entry.short_code@, entry.url@));
            }
            map.insert_entry(entry);
        }
        assert(all.take(all.len() as int) =~= all);
        map
    }

    /// The mapping of entries that share no code: the entries as they are.
    pub(crate) fn from_distinct_entries(entries: Vec<UrlMapEntry>) -> (map: UrlMap)
        requires
            distinct_codes(pairs_of(entries@)),
        ensures
            map@ == associations(pairs_of(entries@)),
    {
        UrlMap { entries }
    }

    /// The entries of the mapping, one for each of its codes.
    pub fn entries(&self) -> (entries: &Vec<UrlMapEntry>)
        ensures
            distinct_codes(pairs_of(entries@)),
            associations(pairs_of(entries@)) == self@,
    {
        proof {
            use_type_invariant(self);
        }
        &self.entries
    }

    /// The number of codes in the mapping.
    pub fn len(&self) -> (count: usize)
        ensures
            self@.dom().finite(),
            count == self@.dom().len(),
    {
        proof {
            use_type_invariant(self);
            lemma_associations_len(pairs_of(self.entries@));
        }
        self.entries.len()
    }

    /// Whether the mapping holds no code at all.
    pub fn is_empty(&self) -> (empty: bool)
        ensures
            empty == (self@ == Map::<Seq<char>, Seq<char>>::empty()),
    {
        proof {
            use_type_invariant(self);
            let pairs = pairs_of(self.entries@);
            lemma_associations_domain(pairs);
            if pairs.len() > 0 {
                assert(associations(pairs).dom().contains(pairs[0].0));
            } else {
                assert(associations(pairs) =~= Map::<Seq<char>, Seq<char>>::empty());
            }
        }
        self.entries.len() == 0
    }

    /// Whether the mapping holds `code`.
    pub fn contains(&self, code: &ShortCode) -> (held: bool)
        ensures
            held == self@.dom().contains(code@),
    {
        self.lookup(code).is_some()
    }

    /// The position of the entry that carries `code`, if there is one.
    fn position(&self, code: &ShortCode) -> (found: Option<usize>)
        ensures
            match found {
                Some(i) => i < self.entries@.len() && self.entries@[i as int].short_code@ == code@,
                None => forall|j: int|
                    0 <= j < self.entries@.len() ==> (#[trigger] self.entries@[j]).short_code@
                        != code@,
            },
    {
        let mut i: usize = 0;
        while i < self.entries.len()
            invariant
                i <= self.entries@.len(),
                forall|j: int| 0 <= j < i ==> (#[trigger] self.entries@[j]).short_code@ != code@,
            decreases self.entries@.len() - i,
        {
            if self.entries[i].short_code == *code {
                return Some(i);
            }
            i += 1;
        }
        None
    }

    /// The long URL that `code` stands for, or `None` where the mapping does
    /// not hold the code.
    pub fn lookup(&self, code: &ShortCode) -> (found: Option<&LongUrl>)
        ensures
            match found {
                Some(url) => self@.dom().contains(code@) && url@ == self@[code@],
                None => !self@.dom().contains(code@),
            },
    {
        proof {
            use_type_invariant(self);
            lemma_associations_domain(pairs_of(self.entries@));
        }
        match self.position(code) {
            Some(i) => {
                proof {
                    lemma_associations_at(pairs_of(self.entries@), i as int);
                }
                Some(&self.entries[i].url)
            },
            None => {
                proof {
                    let pairs = pairs_of(self.entries@);
                    if associations(pairs).dom().contains(code@) {
                        let j = choose|j: int|
                            0 <= j < pairs.len() && (#[trigger] pairs[j]).0 == code@;
                        assert(self.entries@[j].short_code@ == code@);
                    }
                }
                None
            },
        }
    }

    /// Associates `entry.short_code` with `entry.url` and returns the code.
    /// An association that the code already had is replaced.
    pub fn insert_entry(&mut self, entry: UrlMapEntry) -> (code: ShortCode)
        ensures
            code@ == entry.short_code@,
            final(self)@ == old(self)@.insert(entry.short_code@, entry.url@),
    {
        proof {
            use_type_invariant(&*self);
        }
        let code = entry.short_code.clone();
        let ghost before = pairs_of(self.entries@);
        let found = self.position(&entry.short_code);
        let mut entries: Vec<UrlMapEntry> = Vec::new();
        std::mem::swap(&mut entries, &mut self.entries);
        match found {
            Some(i) => {
                proof {
                    lemma_associations_update(before, i as int, entry.url@);
                }
                entries.set(i, entry);
                assert(pairs_of(entries@) =~= before.update(
                    i as int,
                    (before[i as int].0, entry.url@),
                ));
            },
            None => {
                entries.push(entry);
                proof {
                    let after = pairs_of(entries@);
                    assert(after.drop_last() =~= before);
                    assert(distinct_codes(after)) by {
                        assert forall|a: int, b: int| 0 <= a < b < after.len() implies (
                        #[trigger] after[a]).0 != (#[trigger] after[b]).0 by {
                            if b < before.len() {
                                assert(before[a].0 != before[b].0);
                            } else {
                                assert(old(self).entries@[a].short_code@ != entry.short_code@);
                            }
                        }
                    }
                }
            },
        }
        self.entries = entries;
        code
    }

    /// Associates a freshly generated code with `long_url` and returns the
    /// code. The code is not checked against the mapping: if it is already
    /// there, its association is replaced.
    pub fn insert(&mut self, long_url: LongUrl) -> (code: ShortCode)
        ensures
            is_code_text(code@, CODE_LENGTH as nat),
            final(self)@ == old(self)@.insert(code@, long_url@),
    {
        let short_code = ShortCode::new();
        self.insert_entry(UrlMapEntry { short_code, url: long_url })
    }
}

} // verus!
