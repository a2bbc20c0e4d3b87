//! The cluster's membership: a mapping from peer identifier to listen
//! address, fixed at startup apart from late-joining peers discovered through
//! vote requests that carry their sender's address.
use vstd::prelude::*;

verus! {

/// True when no identifier occurs twice in the entry sequence.
pub open spec fn distinct_ids(s: Seq<(u8, Seq<char>)>) -> bool {
    forall|i: int, j: int|
        0 <= i < j < s.len() ==> (#[trigger] s[i]).0 != (#[trigger] s[j]).0
}

/// True when some entry carries the identifier.
pub open spec fn has_id(s: Seq<(u8, Seq<char>)>, id: u8) -> bool {
    exists|i: int| 0 <= i < s.len() && (#[trigger] s[i]).0 == id
}

/// Position of the entry with the identifier, when there is one.
pub open spec fn index_of_id(s: Seq<(u8, Seq<char>)>, id: u8) -> int {
    choose|i: int| 0 <= i < s.len() && (#[trigger] s[i]).0 == id
}

/// Address recorded for the identifier, when there is one.
pub open spec fn addr_of_id(s: Seq<(u8, Seq<char>)>, id: u8) -> Seq<char> {
    s[index_of_id(s, id)].1
}

/// Addresses of all entries other than `excluding`, in entry order.
pub open spec fn peer_addrs(s: Seq<(u8, Seq<char>)>, excluding: u8) -> Seq<Seq<char>>
    decreases s.len(),
{
    if s.len() == 0 {
        Seq::empty()
    } else if s.last().0 == excluding {
        peer_addrs(s.drop_last(), excluding)
    } else {
        peer_addrs(s.drop_last(), excluding).push(s.last().1)
    }
}

/// Membership of the cluster, keyed by peer identifier.
pub struct Membership {
    entries: Vec<(u8, String)>,
}

impl Membership {
    /// The entries as identifier/address pairs, addresses as character
    /// sequences.
    pub closed spec fn view(&self) -> Seq<(u8, Seq<char>)> {
        Seq::new(self.entries@.len(), |i: int| (self.entries@[i].0, self.entries@[i].1@))
    }

    /// Identifiers are unique; identifiers are bytes, so there are at most
    /// 256 members.
    pub open spec fn wf(&self) -> bool {
        &&& distinct_ids(self@)
        &&& self@.len() <= 256
    }

    /// Build the membership from identifier/address pairs with pairwise
    /// distinct identifiers.
    pub fn new(entries: Vec<(u8, String)>) -> (r: Self)
        requires
            forall|i: int, j: int|
                0 <= i < j < entries@.len() ==> (#[trigger] entries@[i]).0 != (
                #[trigger] entries@[j]).0,
            entries@.len() <= 256,
        ensures
            r.wf(),
            r@.len() == entries@.len(),
            forall|i: int|
                0 <= i < entries@.len() ==> #[trigger] r@[i] == (entries@[i].0, entries@[i].1@),
    {
        let r = Self { entries };
        proof {
            assert forall|i: int| 0 <= i < r@.len() implies #[trigger] r@[i] == (
                r.entries@[i].0,
                r.entries@[i].1@,
            ) by {}
        }
        r
    }

    /// Number of members.
    pub fn len(&self) -> (r: usize)
        ensures
            r == self@.len(),
    {
        self.entries.len()
    }

    /// Whether the identifier is a known member.
    pub fn contains(&self, id: u8) -> (r: bool)
        ensures
            r == has_id(self@, id),
    {
        let mut i: usize = 0;
        while i < self.entries.len()
            invariant
                i <= self.entries@.len(),
                self.entries@.len() == self@.len(),
                forall|j: int| 0 <= j < i ==> (#[trigger] self@[j]).0 != id,
                forall|j: int|
                    0 <= j < self@.len() ==> (#[trigger] self@[j]).0 == self.entries@[j].0,
            decreases self.entries@.len() - i,
        {
            if self.entries[i].0 == id {
                proof {
                    assert((self@[i as int]).0 == id);
                }
                return true;
            }
            i += 1;
        }
        false
    }

    /// Address of the identifier, when it is a known member.
    pub fn address_of(&self, id: u8) -> (r: Option<String>)
        requires
            self.wf(),
        ensures
            r is Some <==> has_id(self@, id),
            r matches Some(a) ==> a@ == addr_of_id(self@, id),
    {
        let mut i: usize = 0;
        while i < self.entries.len()
            invariant
                self.wf(),
                i <= self.entries@.len(),
                self.entries@.len() == self@.len(),
                forall|j: int| 0 <= j < i ==> (#[trigger] self@[j]).0 != id,
                forall|j: int|
                    0 <= j < self@.len() ==> #[trigger] self@[j] == (
                    self.entries@[j].0,
                    self.entries@[j].1@,
                ),
            decreases self.entries@.len() - i,
        {
            if self.entries[i].0 == id {
                let a = self.entries[i].1.clone();
                proof {
                    self.lemma_index_of_found(i as int, id);
                }
                return Some(a);
            }
            i += 1;
        }
        None
    }

    /// With unique identifiers, the entry found at `i` is the entry
    /// `index_of_id` denotes.
    proof fn lemma_index_of_found(&self, i: int, id: u8)
        requires
            self.wf(),
            0 <= i < self@.len(),
            self@[i].0 == id,
        ensures
            index_of_id(self@, id) == i,
            addr_of_id(self@, id) == self@[i].1,
            has_id(self@, id),
    {
        assert(has_id(self@, id));
        let j = index_of_id(self@, id);
        assert(0 <= j < self@.len() && self@[j].0 == id);
        if i < j {
            assert(self@[i].0 != self@[j].0);
        } else if j < i {
            assert(self@[j].0 != self@[i].0);
        }
    }

    /// Record a newly discovered member.
    pub fn insert(&mut self, id: u8, address: String)
        requires
            old(self).wf(),
            !has_id(old(self)@, id),
        ensures
            final(self).wf(),
            final(self)@ == old(self)@.push((id, address@)),
    {
        self.entries.push((id, address));
        proof {
            assert(self@ =~= old(self)@.push((id, address@)));
            assert forall|i: int, j: int| 0 <= i < j < self@.len() implies (
            #[trigger] self@[i]).0 != (#[trigger] self@[j]).0 by {
                if j == self@.len() - 1 {
                    assert(!has_id(old(self)@, id));
                    assert((old(self)@[i]).0 != id);
                }
            }
            lemma_distinct_u8_ids_bound(self@);
        }
    }

    /// Addresses of every member but `excluding`, ready to fan a frame out to.
    pub fn peer_addresses(&self, excluding: u8) -> (r: Vec<String>)
        ensures
            r.deep_view() == peer_addrs(self@, excluding),
    {
        let mut r: Vec<String> = Vec::new();
        let mut i: usize = 0;
        proof {
            assert(r.deep_view() =~= peer_addrs(self@.subrange(0, 0), excluding));
        }
        while i < self.entries.len()
            invariant
                i <= self.entries@.len(),
                self.entries@.len() == self@.len(),
                forall|j: int|
                    0 <= j < self@.len() ==> #[trigger] self@[j] == (
                    self.entries@[j].0,
                    self.entries@[j].1@,
                ),
                r.deep_view() == peer_addrs(self@.subrange(0, i as int), excluding),
            decreases self.entries@.len() - i,
        {
            let ghost prefix = self@.subrange(0, i as int);
            let ghost next = self@.subrange(0, i as int + 1);
            proof {
                assert(next.drop_last() =~= prefix);
                assert(next.last() == self@[i as int]);
            }
            if self.entries[i].0 != excluding {
                let a = self.entries[i].1.clone();
                r.push(a);
                proof {
                    assert(r.deep_view() =~= peer_addrs(next, excluding));
                }
            } else {
                proof {
                    assert(r.deep_view() =~= peer_addrs(next, excluding));
                }
            }
            i += 1;
        }
        proof {
            assert(self@.subrange(0, self@.len() as int) =~= self@);
        }
        r
    }
}

/// A sequence of entries with distinct byte identifiers cannot have more than
/// 256 of them: there are only 256 bytes to go around.
proof fn lemma_distinct_u8_ids_bound(s: Seq<(u8, Seq<char>)>)
    requires
        distinct_ids(s),
    ensures
        s.len() <= 256,
{
    let ids = Seq::new(s.len(), |i: int| s[i].0);
    assert forall|i: int, j: int|
        0 <= i < ids.len() && 0 <= j < ids.len() && i != j implies ids[i] != ids[j] by {
        if i < j {
            assert(s[i].0 != s[j].0);
        } else {
            assert(s[j].0 != s[i].0);
        }
    }
    assert(ids.no_duplicates());
    ids.unique_seq_to_set();
    let st = ids.to_set();
    assert(st.finite() && st.len() == ids.len()) by {
        broadcast use vstd::seq_lib::seq_to_set_is_finite;

    }
    let below = Set::new(|x: u8| 0 <= x < 255);
    let all = below.insert(255u8);
    assert(below.finite() && below.len() == 255) by {
        <u8 as vstd::set_lib::FiniteRange>::range_properties(0, 255);
        assert(below =~= <u8 as vstd::set_lib::FiniteRange>::range_set(0, 255));
    }
    assert(all.finite() && all.len() <= 256);
    assert(st.subset_of(all));
    vstd::set_lib::lemma_len_subset(st, all);
}

} // verus!
