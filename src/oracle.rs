use vstd::prelude::*;

verus! {

/// `needle` occurs somewhere in `hay`.
pub open spec fn occurs_in(needle: Seq<u8>, hay: Seq<u8>) -> bool {
    exists|i: int|
        0 <= i && i + needle.len() <= hay.len() && #[trigger] hay.subrange(i, i + needle.len()) == needle
}

/// `name` is `entry` or ends with `.` followed by `entry`.
pub open spec fn is_domain_suffix(entry: Seq<u8>, name: Seq<u8>) -> bool {
    &&& entry.len() <= name.len()
    &&& name.subrange(name.len() - entry.len(), name.len() as int) == entry
    &&& (entry.len() == name.len() || name[name.len() - entry.len() - 1] == 0x2eu8)
}

/// Number of entries that occur in `name`.
pub open spec fn occurrence_count(entries: Seq<Vec<u8>>, name: Seq<u8>) -> nat
    decreases entries.len(),
{
    if entries.len() == 0 {
        0
    } else {
        occurrence_count(entries.drop_last(), name) + if occurs_in(entries.last()@, name) { 1nat } else { 0nat }
    }
}

/// How a name is held against the entries of a domain list.
#[derive(Clone, Copy, Debug, PartialEq, Eq, Structural)]
pub enum MatchMode {
    /// Exactly one entry occurs anywhere in the name.
    ExactlyOneSubstring,
    /// Some entry is the name or a suffix of it at a label boundary.
    Suffix,
}

/// Host names or suffixes whose A queries are answered locally.
pub struct DomainSet {
    pub entries: Vec<Vec<u8>>,
}

/// Which A queries are answered locally.
pub enum Oracle {
    /// A fixed list of domains.
    Static { domains: DomainSet, mode: MatchMode },
    /// The names learned from upstream answers that pointed into the CIDR set.
    Learned,
}

pub open spec fn static_accepts(entries: Seq<Vec<u8>>, mode: MatchMode, name: Seq<u8>) -> bool {
    match mode {
        MatchMode::ExactlyOneSubstring => occurrence_count(entries, name) == 1,
        MatchMode::Suffix => exists|i: int| 0 <= i < entries.len() && is_domain_suffix(#[trigger] entries[i]@, name),
    }
}

impl Oracle {
    /// Whether the oracle takes `name`; `cached` is whether the learned
    /// cache holds it.
    pub open spec fn accepts_spec(&self, name: Seq<u8>, cached: bool) -> bool {
        match self {
            Oracle::Static { domains, mode } => static_accepts(domains.entries@, *mode, name),
            Oracle::Learned => cached,
        }
    }

    pub fn accepts(&self, name: &Vec<u8>, cached: bool) -> (r: bool)
        ensures
            r == self.accepts_spec(name@, cached),
    {
        match self {
            Oracle::Static { domains, mode } => domains.accepts(*mode, name),
            Oracle::Learned => cached,
        }
    }

    pub fn is_learned(&self) -> (r: bool)
        ensures
            r == (self is Learned),
    {
        match self {
            Oracle::Static { .. } => false,
            Oracle::Learned => true,
        }
    }
}

/// Whether `hay[start..start + needle.len()]` is `needle`.
fn matches_at(hay: &Vec<u8>, start: usize, needle: &Vec<u8>) -> (r: bool)
    requires
        start + needle@.len() <= hay@.len(),
    ensures
        r == (hay@.subrange(start as int, start + needle@.len()) == needle@),
{
    let len = hay.len();
    let mut k: usize = 0;
    while k < needle.len()
        invariant
            len == hay@.len(),
            start + needle@.len() <= hay@.len(),
            k <= needle@.len(),
            forall|j: int| 0 <= j < k ==> hay@[start + j] == needle@[j],
        decreases needle@.len() - k,
    {
        if hay[start + k] != needle[k] {
            assert(hay@.subrange(start as int, start + needle@.len())[k as int] != needle@[k as int]);
            return false;
        }
        k = k + 1;
    }
    assert(hay@.subrange(start as int, start + needle@.len()) =~= needle@);
    true
}

/// Whether `needle` occurs in `hay`.
pub fn occurs(needle: &Vec<u8>, hay: &Vec<u8>) -> (r: bool)
    ensures
        r == occurs_in(needle@, hay@),
{
    if needle.len() > hay.len() {
        return false;
    }
    let last = hay.len() - needle.len();
    let mut i: usize = 0;
    loop
        invariant
            i <= last,
            last + needle@.len() == hay@.len(),
            forall|j: int| 0 <= j < i ==> #[trigger] hay@.subrange(j, j + needle@.len()) != needle@,
        decreases last - i,
    {
        if matches_at(hay, i, needle) {
            return true;
        }
        if i == last {
            return false;
        }
        i = i + 1;
    }
}

/// Whether `name` is `entry` or ends in `.entry`.
pub fn domain_suffix(entry: &Vec<u8>, name: &Vec<u8>) -> (r: bool)
    ensures
        r == is_domain_suffix(entry@, name@),
{
    if entry.len() > name.len() {
        return false;
    }
    let start = name.len() - entry.len();
    if !matches_at(name, start, entry) {
        return false;
    }
    start == 0 || name[start - 1] == 0x2e
}

/// The lines of a domain list that are not empty, in order.
pub open spec fn nonempty_entries(lines: Seq<Vec<u8>>) -> Seq<Seq<u8>>
    decreases lines.len(),
{
    if lines.len() == 0 {
        Seq::empty()
    } else if lines.last()@.len() == 0 {
        nonempty_entries(lines.drop_last())
    } else {
        nonempty_entries(lines.drop_last()).push(lines.last()@)
    }
}

pub open spec fn views(entries: Seq<Vec<u8>>) -> Seq<Seq<u8>> {
    entries.map_values(|e: Vec<u8>| e@)
}

impl DomainSet {
    /// A domain list from its lines; empty lines name no domain and are
    /// skipped.
    pub fn from_lines(lines: Vec<Vec<u8>>) -> (r: DomainSet)
        ensures
            views(r.entries@) == nonempty_entries(lines@),
    {
        let mut entries: Vec<Vec<u8>> = Vec::new();
        let mut i: usize = 0;
        while i < lines.len()
            invariant
                i <= lines@.len(),
                views(entries@) == nonempty_entries(lines@.subrange(0, i as int)),
            decreases lines@.len() - i,
        {
            proof {
                assert(lines@.subrange(0, i + 1).drop_last() =~= lines@.subrange(0, i as int));
            }
            if lines[i].len() > 0 {
                let line = lines[i].clone();
                proof {
                    assert forall|k: int| 0 <= k < line@.len() implies line@[k] == lines@[i as int]@[k] by {
                        assert(cloned::<u8>(lines@[i as int][k], line[k]));
                    }
                    assert(line@ =~= lines@[i as int]@);
                }
                let ghost before = entries@;
                entries.push(line);
                proof {
                    assert(views(entries@) =~= views(before).push(line@));
                }
            }
            i = i + 1;
        }
        proof {
            assert(lines@.subrange(0, lines@.len() as int) =~= lines@);
        }
        DomainSet { entries }
    }

    /// Whether the list takes `name` under `mode`.
    pub fn accepts(&self, mode: MatchMode, name: &Vec<u8>) -> (r: bool)
        ensures
            r == static_accepts(self.entries@, mode, name@),
    {
        let n = self.entries.len();
        match mode {
            MatchMode::ExactlyOneSubstring => {
                let mut count: usize = 0;
                let mut i: usize = 0;
                while i < n
                    invariant
                        n == self.entries@.len(),
                        i <= n,
                        count == occurrence_count(self.entries@.subrange(0, i as int), name@),
                        count <= i,
                    decreases n - i,
                {
                    proof {
                        assert(self.entries@.subrange(0, i + 1).drop_last() =~= self.entries@.subrange(0, i as int));
                    }
                    if occurs(&self.entries[i], name) {
                        count = count + 1;
                    }
                    i = i + 1;
                }
                assert(self.entries@.subrange(0, n as int) =~= self.entries@);
                count == 1
            },
            MatchMode::Suffix => {
                let mut i: usize = 0;
                while i < n
                    invariant
                        n == self.entries@.len(),
                        i <= n,
                        mode is Suffix,
                        forall|j: int| 0 <= j < i ==> !is_domain_suffix(#[trigger] self.entries@[j]@, name@),
                    decreases n - i,
                {
                    if domain_suffix(&self.entries[i], name) {
                        assert(is_domain_suffix(self.entries@[i as int]@, name@));
                        assert(static_accepts(self.entries@, mode, name@));
                        return true;
                    }
                    i = i + 1;
                }
                false
            },
        }
    }
}

/// An empty list takes no name, under either mode.
pub proof fn lemma_empty_list_takes_nothing(mode: MatchMode, name: Seq<u8>)
    ensures
        !static_accepts(Seq::<Vec<u8>>::empty(), mode, name),
{
}

} // verus!
