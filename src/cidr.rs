use vstd::prelude::*;
use vstd::arithmetic::power2::{pow2, lemma2_to64, lemma_pow2_unfold, lemma_pow2_strictly_increases};
use vstd::arithmetic::div_mod::{lemma_fundamental_div_mod, lemma_div_pos_is_pos, lemma_mod_bound};

verus! {

/// Number of addresses in a block with the given prefix length.
pub open spec fn block_size(prefix: nat) -> nat {
    pow2((32 - prefix) as nat)
}

/// An IPv4 block `addr/prefix`; the address may carry host bits, as written.
#[derive(Clone, Copy, Debug, PartialEq, Eq, Structural)]
pub struct Ipv4Cidr {
    pub addr: u32,
    pub prefix: u8,
}

impl Ipv4Cidr {
    pub open spec fn wf(self) -> bool {
        self.prefix <= 32
    }

    pub open spec fn size(self) -> int {
        block_size(self.prefix as nat) as int
    }

    /// First address of the block: the address with its host bits cleared.
    pub open spec fn network(self) -> int {
        (self.addr as int / self.size()) * self.size()
    }

    /// Last address of the block: the address with its host bits set.
    pub open spec fn broadcast(self) -> int {
        self.network() + self.size() - 1
    }

    pub open spec fn contains_spec(self, ip: u32) -> bool {
        self.network() <= ip as int && ip as int <= self.broadcast()
    }

    /// Host addresses run from `first_host` to `last_host` inclusive; blocks
    /// shorter than /31 leave out their network and broadcast addresses.
    pub open spec fn first_host(self) -> int {
        if self.prefix < 31 { self.network() + 1 } else { self.network() }
    }

    pub open spec fn last_host(self) -> int {
        if self.prefix < 31 { self.broadcast() - 1 } else { self.broadcast() }
    }

    pub open spec fn host_count(self) -> int {
        self.last_host() - self.first_host() + 1
    }

    pub fn new(addr: u32, prefix: u8) -> (r: Option<Ipv4Cidr>)
        ensures
            prefix <= 32 ==> r == Some(Ipv4Cidr { addr, prefix }),
            prefix > 32 ==> r is None,
    {
        if prefix <= 32 {
            Some(Ipv4Cidr { addr, prefix })
        } else {
            None
        }
    }

    /// Where the block lies, and that its host range is never empty.
    pub proof fn lemma_bounds(self)
        requires
            self.wf(),
        ensures
            1 <= self.size() <= 0x1_0000_0000,
            0 <= self.first_host() <= self.last_host() <= 0xffff_ffff,
            0 <= self.network() <= self.addr,
            self.addr <= self.broadcast() <= 0xffff_ffff,
            self.network() % self.size() == 0,
    {
        let k = (32 - self.prefix) as nat;
        lemma2_to64();
        if k < 32 {
            lemma_pow2_strictly_increases(k, 32);
        }
        assert(pow2(k) >= 1) by {
            vstd::arithmetic::power2::lemma_pow2_pos(k);
        }
        if self.prefix < 31 {
            lemma_pow2_strictly_increases(1, k);
            lemma2_to64();
        }
        let s = self.size();
        let a = self.addr as int;
        lemma_fundamental_div_mod(a, s);
        lemma_mod_bound(a, s);
        lemma_div_pos_is_pos(a, s);
        let q = a / s;
        assert(q * s >= 0) by (nonlinear_arith)
            requires q >= 0, s >= 1;
        assert((q * s) % s == 0) by {
            vstd::arithmetic::div_mod::lemma_mod_multiples_basic(q, s);
        }
        // the address lies inside its block
        assert(q * s <= a && a <= q * s + s - 1) by (nonlinear_arith)
            requires a == s * q + a % s, a % s >= 0, a % s < s;
        // the block's last address stays below 2^32
        let m = pow2((32 - k) as nat) as int;
        assert(s * m == 0x1_0000_0000int) by {
            vstd::arithmetic::power2::lemma_pow2_adds(k, (32 - k) as nat);
            assert(k + (32 - k) as nat == 32nat);
        }
        assert(q < m) by (nonlinear_arith)
            requires a == s * q + a % s, a % s >= 0, a < 0x1_0000_0000, 0x1_0000_0000 == s * m, s >= 1;
        assert(q * s + s <= m * s) by (nonlinear_arith)
            requires q < m, s >= 1;
        assert(m * s == s * m) by (nonlinear_arith);
    }

    /// Number of addresses in the block.
    pub fn block_len(&self) -> (r: u64)
        requires
            self.wf(),
        ensures
            r == self.size(),
    {
        let k: u8 = 32 - self.prefix;
        let mut r: u64 = 1;
        let mut i: u8 = 0;
        proof {
            lemma2_to64();
        }
        while i < k
            invariant
                k == 32 - self.prefix,
                i <= k <= 32,
                r == pow2(i as nat),
                pow2(32) == 0x1_0000_0000,
            decreases k - i,
        {
            proof {
                lemma_pow2_unfold((i + 1) as nat);
                lemma_pow2_strictly_increases(i as nat, 32);
            }
            r = r * 2;
            i = i + 1;
        }
        r
    }

    /// First address of the block.
    pub fn network_addr(&self) -> (r: u32)
        requires
            self.wf(),
        ensures
            r == self.network(),
    {
        proof {
            self.lemma_bounds();
        }
        let s = self.block_len();
        let q: u64 = self.addr as u64 / s;
        proof {
            assert(q * s == self.network());
        }
        (q * s) as u32
    }

    /// Last address of the block.
    pub fn broadcast_addr(&self) -> (r: u32)
        requires
            self.wf(),
        ensures
            r == self.broadcast(),
    {
        proof {
            self.lemma_bounds();
        }
        let n = self.network_addr();
        let s = self.block_len();
        (n as u64 + (s - 1)) as u32
    }

    /// Whether `ip` lies in the block.
    pub fn contains(&self, ip: u32) -> (r: bool)
        requires
            self.wf(),
        ensures
            r == self.contains_spec(ip),
    {
        let n = self.network_addr();
        let b = self.broadcast_addr();
        n <= ip && ip <= b
    }

    /// First host address (see `first_host`).
    pub fn first_host_addr(&self) -> (r: u32)
        requires
            self.wf(),
        ensures
            r == self.first_host(),
    {
        proof {
            self.lemma_bounds();
            lemma2_to64();
            if self.prefix < 31 {
                lemma_pow2_strictly_increases(1, (32 - self.prefix) as nat);
            }
        }
        let n = self.network_addr();
        if self.prefix < 31 {
            n + 1
        } else {
            n
        }
    }

    /// Last host address (see `last_host`).
    pub fn last_host_addr(&self) -> (r: u32)
        requires
            self.wf(),
        ensures
            r == self.last_host(),
    {
        proof {
            self.lemma_bounds();
            lemma2_to64();
            if self.prefix < 31 {
                lemma_pow2_strictly_increases(1, (32 - self.prefix) as nat);
            }
        }
        let b = self.broadcast_addr();
        if self.prefix < 31 {
            b - 1
        } else {
            b
        }
    }
}

/// What ipnet's parser makes of a line `A.B.C.D/len`: the address as written
/// and the prefix length, or nothing where the line is not such a block.
pub uninterp spec fn block_of_text(s: Seq<char>) -> Option<(u32, u8)>;

/// Relies on ipnet's `FromStr` for `Ipv4Net`: it reads `A.B.C.D/len` with a
/// prefix length of at most 32 (two digits, below 33), keeps the address as
/// written, and fails on anything else.
#[verifier::external_body]
fn parse_block(s: &str) -> (r: Option<Ipv4Cidr>)
    ensures
        r is None ==> block_of_text(s@) is None,
        r matches Some(c) ==> block_of_text(s@) == Some((c.addr, c.prefix)) && c.prefix <= 32,
{
    let n: ipnet::Ipv4Net = s.parse().ok()?;
    Some(Ipv4Cidr { addr: u32::from(n.addr()), prefix: n.prefix_len() })
}

/// The blocks read from `lines`, in order; lines that are no block are skipped.
pub open spec fn blocks_of_lines(lines: Seq<String>) -> Seq<Ipv4Cidr>
    decreases lines.len(),
{
    if lines.len() == 0 {
        Seq::empty()
    } else {
        let rest = blocks_of_lines(lines.drop_last());
        match block_of_text(lines.last()@) {
            Some((a, p)) => rest.push(Ipv4Cidr { addr: a, prefix: p }),
            None => rest,
        }
    }
}

/// An ordered list of IPv4 blocks.
pub struct CidrSet {
    pub nets: Vec<Ipv4Cidr>,
}

impl CidrSet {
    pub open spec fn wf(&self) -> bool {
        forall|i: int| 0 <= i < self.nets@.len() ==> (#[trigger] self.nets@[i]).wf()
    }

    pub open spec fn contains_spec(&self, ip: u32) -> bool {
        exists|i: int| 0 <= i < self.nets@.len() && (#[trigger] self.nets@[i]).contains_spec(ip)
    }

    /// Whether any block of the set holds `ip`.
    pub fn contains(&self, ip: u32) -> (r: bool)
        requires
            self.wf(),
        ensures
            r == self.contains_spec(ip),
    {
        let mut i: usize = 0;
        while i < self.nets.len()
            invariant
                self.wf(),
                i <= self.nets@.len(),
                forall|j: int| 0 <= j < i ==> !(#[trigger] self.nets@[j]).contains_spec(ip),
            decreases self.nets@.len() - i,
        {
            if self.nets[i].contains(ip) {
                return true;
            }
            i = i + 1;
        }
        false
    }
}

/// Reader of CIDR list files.
pub struct Ipv4NetVec;

impl Ipv4NetVec {
    /// The blocks of a CIDR list, one candidate per line, skipping lines that
    /// do not parse.
    pub fn from_lines(lines: &Vec<String>) -> (r: CidrSet)
        ensures
            r.wf(),
            r.nets@ == blocks_of_lines(lines@),
    {
        let mut nets: Vec<Ipv4Cidr> = Vec::new();
        let mut i: usize = 0;
        while i < lines.len()
            invariant
                i <= lines@.len(),
                nets@ == blocks_of_lines(lines@.subrange(0, i as int)),
                forall|j: int| 0 <= j < nets@.len() ==> (#[trigger] nets@[j]).wf(),
            decreases lines@.len() - i,
        {
            proof {
                assert(lines@.subrange(0, i as int + 1).drop_last() =~= lines@.subrange(0, i as int));
            }
            match parse_block(lines[i].as_str()) {
                Some(c) => nets.push(c),
                None => {},
            }
            i = i + 1;
        }
        proof {
            assert(lines@.subrange(0, lines@.len() as int) =~= lines@);
        }
        CidrSet { nets }
    }
}

/// Where a sweep stands: the next host is the one at `offset` in the block
/// at index `net`, once exhausted blocks are skipped.
pub open spec fn settle(nets: Seq<Ipv4Cidr>, net: int, offset: int) -> (int, int)
    decreases nets.len() - net,
{
    if net >= nets.len() || net < 0 {
        (nets.len() as int, 0)
    } else if offset < nets[net].host_count() {
        (net, offset)
    } else {
        settle(nets, net + 1, 0)
    }
}

/// Position of the producer in its walk over every host of every block, in
/// order.
pub struct SweepCursor {
    pub net: usize,
    pub offset: u64,
}

impl SweepCursor {
    pub fn new() -> (r: SweepCursor)
        ensures
            r.net == 0 && r.offset == 0,
    {
        SweepCursor { net: 0, offset: 0 }
    }

    /// The next host to probe, or `None` once the sweep is over.
    pub fn next(&mut self, set: &CidrSet) -> (r: Option<u32>)
        requires
            set.wf(),
        ensures
            ({
                let (n, o) = settle(set.nets@, old(self).net as int, old(self).offset as int);
                if n >= set.nets@.len() {
                    r is None
                } else {
                    &&& r == Some((set.nets@[n].first_host() + o) as u32)
                    &&& final(self).net == n
                    &&& final(self).offset == o + 1
                }
            }),
    {
        let len = set.nets.len();
        while self.net < len
            invariant
                len == set.nets@.len(),
                set.wf(),
                settle(set.nets@, self.net as int, self.offset as int)
                    == settle(set.nets@, old(self).net as int, old(self).offset as int),
            decreases len - self.net,
        {
            let c = set.nets[self.net];
            proof {
                c.lemma_bounds();
            }
            let first = c.first_host_addr();
            let count: u64 = (c.last_host_addr() - first) as u64 + 1;
            if self.offset < count {
                let ip = first + self.offset as u32;
                self.offset = self.offset + 1;
                return Some(ip);
            }
            self.net = self.net + 1;
            self.offset = 0;
        }
        None
    }
}

/// A sweep over an empty set is over at once.
pub proof fn lemma_empty_set_sweep_ends(net: int, offset: int)
    ensures
        settle(Seq::<Ipv4Cidr>::empty(), net, offset).0 == 0,
{
}

/// No address lies in an empty set.
pub proof fn lemma_empty_set_contains_nothing(set: CidrSet, ip: u32)
    requires
        set.nets@.len() == 0,
    ensures
        !set.contains_spec(ip),
{
}

} // verus!
