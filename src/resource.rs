use vstd::prelude::*;
use crate::bytes::{be_value, lemma_be_value_lex, satisfies};

verus! {

/// Length in bytes of a digest and of a threshold.
pub const DIGEST_LEN: usize = 32;

/// Rarity tiers, from the most common to the rarest.
#[allow(non_camel_case_types)]
#[derive(Debug, Clone, Copy, PartialEq, Eq, Hash, Structural)]
pub enum ResourceKind {
    COAL,
    IRON,
    GOLD,
    DIAMOND,
}

/// A rarity tier bound to its 256-bit threshold, held big-endian.
#[derive(Debug, Clone, Copy, PartialEq, Eq)]
pub struct Resource {
    pub target: [u8; 32],
    pub kind: ResourceKind,
}

/// The table of tiers, rarest first.
#[derive(Debug, Clone)]
pub struct ResourceMatcher {
    pub resources: Vec<Resource>,
}

/// A configuration that mining cannot start with.
#[derive(Debug, Clone, Copy, PartialEq, Eq, Structural)]
pub enum ConfigError {
    /// The threshold text is not an even number of hexadecimal digits.
    MalformedThreshold,
    /// The threshold text holds more than 32 bytes.
    ThresholdTooWide,
    /// The worker-pool size is zero.
    InvalidThreadCount,
}

#[verifier::external_type_specification]
#[verifier::external_body]
pub struct ExFromHexError(hex::FromHexError);

/// A hexadecimal digit, upper or lower case.
pub open spec fn is_hex_digit(c: char) -> bool {
    ('0' as u32 <= c as u32 <= '9' as u32) || ('a' as u32 <= c as u32 <= 'f' as u32) || (
    'A' as u32 <= c as u32 <= 'F' as u32)
}

/// The value of a hexadecimal digit.
pub open spec fn hex_digit_value(c: char) -> nat {
    if '0' as u32 <= c as u32 <= '9' as u32 {
        (c as u32 - '0' as u32) as nat
    } else if 'a' as u32 <= c as u32 <= 'f' as u32 {
        (c as u32 - 'a' as u32 + 10) as nat
    } else {
        (c as u32 - 'A' as u32 + 10) as nat
    }
}

/// An even number of hexadecimal digits, of either case.
pub open spec fn is_hex(s: Seq<char>) -> bool {
    &&& s.len() % 2 == 0
    &&& forall|i: int| 0 <= i < s.len() ==> is_hex_digit(#[trigger] s[i])
}

/// The bytes that hexadecimal text denotes, two digits to a byte, high digit
/// first.
pub open spec fn hex_decode(s: Seq<char>) -> Seq<u8> {
    Seq::new(
        s.len() / 2,
        |i: int| (hex_digit_value(s[2 * i]) * 16 + hex_digit_value(s[2 * i + 1])) as u8,
    )
}

/// A threshold whose leading bytes are `lead`, padded with zero bytes to 32.
pub open spec fn threshold_bytes(lead: Seq<u8>) -> Seq<u8> {
    lead + Seq::new((32 - lead.len()) as nat, |i: int| 0u8)
}

/// In a well-formed table the tiers nest: a digest that satisfies a tier's
/// threshold satisfies the threshold of every less rare tier after it.
pub proof fn lemma_tiers_nested(m: ResourceMatcher, d: Seq<u8>, i: int, j: int)
    requires
        m.wf(),
        0 <= i < j < m.resources@.len(),
        satisfies(d, m.resources@[i].target@),
    ensures
        satisfies(d, m.resources@[j].target@),
{
}

/// Relies on hex's `decode`: the bytes of an even-length run of hexadecimal
/// digits, two digits each, high digit first; an error for any other text.
#[verifier::external_body]
fn decode_hex(s: &str) -> (r: Result<Vec<u8>, hex::FromHexError>)
    ensures
        r is Ok <==> is_hex(s@),
        r matches Ok(v) ==> v@ == hex_decode(s@),
{
    hex::decode(s)
}

impl Resource {
    /// The tier `kind` with the threshold whose leading bytes the hexadecimal
    /// text `v` gives, the rest zero.
    pub fn new(kind: ResourceKind, v: &str) -> (r: Result<Resource, ConfigError>)
        ensures
            r is Ok <==> is_hex(v@) && v@.len() <= 64,
            r matches Ok(res) ==> res.kind == kind && res.target@ == threshold_bytes(hex_decode(v@)),
            r == Err::<Resource, ConfigError>(ConfigError::MalformedThreshold) <==> !is_hex(v@),
    {
        let lead = match decode_hex(v) {
            Ok(b) => b,
            Err(_) => {
                return Err(ConfigError::MalformedThreshold);
            },
        };
        if lead.len() > DIGEST_LEN {
            return Err(ConfigError::ThresholdTooWide);
        }
        let mut target = [0u8; 32];
        let mut i: usize = 0;
        while i < lead.len()
            invariant
                i <= lead@.len() <= 32,
                target@.len() == 32,
                forall|j: int| 0 <= j < i ==> target@[j] == lead@[j],
                forall|j: int| i <= j < 32 ==> target@[j] == 0,
            decreases lead.len() - i,
        {
            target[i] = lead[i];
            i = i + 1;
        }
        assert(target@ =~= threshold_bytes(lead@));
        Ok(Resource { target, kind })
    }
}

/// Index of the first tier of `rs` whose threshold `d` satisfies, with no
/// earlier one satisfied.
pub open spec fn first_satisfied(rs: Seq<Resource>, d: Seq<u8>, i: int) -> bool {
    &&& 0 <= i < rs.len()
    &&& satisfies(d, rs[i].target@)
    &&& forall|j: int| 0 <= j < i ==> !satisfies(d, #[trigger] rs[j].target@)
}

/// Whether `hash`, read as a big-endian integer, is at most `target`: bytes
/// are compared from the most significant, the first difference decides, and
/// equal values count as satisfied.
pub fn meets_threshold(hash: &[u8; 32], target: &[u8; 32]) -> (r: bool)
    ensures
        r == satisfies(hash@, target@),
{
    let mut k: usize = 0;
    while k < DIGEST_LEN
        invariant
            k <= DIGEST_LEN,
            hash@.len() == DIGEST_LEN,
            target@.len() == DIGEST_LEN,
            hash@.subrange(0, k as int) == target@.subrange(0, k as int),
        decreases DIGEST_LEN - k,
    {
        if hash[k] < target[k] {
            proof {
                lemma_be_value_lex(hash@, target@, k as int);
            }
            return true;
        }
        if hash[k] > target[k] {
            proof {
                lemma_be_value_lex(target@, hash@, k as int);
            }
            return false;
        }
        assert(hash@.subrange(0, k + 1) =~= hash@.subrange(0, k as int).push(hash@[k as int]));
        assert(target@.subrange(0, k + 1) =~= target@.subrange(0, k as int).push(target@[k as int]));
        k = k + 1;
    }
    assert(hash@ =~= hash@.subrange(0, 32));
    assert(target@ =~= target@.subrange(0, 32));
    true
}

/// The rarest tier of `rs` whose threshold `d` satisfies, if any.
pub open spec fn rarest_match(rs: Seq<Resource>, d: Seq<u8>) -> Option<Resource> {
    if exists|i: int| first_satisfied(rs, d, i) {
        Some(rs[choose|i: int| first_satisfied(rs, d, i)])
    } else {
        None
    }
}

proof fn lemma_first_satisfied_unique(rs: Seq<Resource>, d: Seq<u8>, i: int, j: int)
    requires
        first_satisfied(rs, d, i),
        first_satisfied(rs, d, j),
    ensures
        i == j,
{
    if i < j {
        assert(!satisfies(d, rs[i].target@));
    } else if j < i {
        assert(!satisfies(d, rs[j].target@));
    }
}

impl ResourceMatcher {
    /// Thresholds strictly widen down the table.
    pub open spec fn wf(&self) -> bool {
        forall|i: int, j: int|
            0 <= i < j < self.resources@.len() ==> be_value(#[trigger] self.resources@[i].target@)
                < be_value(#[trigger] self.resources@[j].target@)
    }

    /// The fixed table: DIAMOND, GOLD, IRON, COAL, whose thresholds begin
    /// with the bytes `000000000fff`, `00000002ffff`, `0000000fffff` and
    /// `0000003fffff`.
    pub fn new() -> (m: ResourceMatcher)
        ensures
            m.wf(),
            m.resources@.len() == 4,
            m.resources@[0].kind == ResourceKind::DIAMOND,
            m.resources@[1].kind == ResourceKind::GOLD,
            m.resources@[2].kind == ResourceKind::IRON,
            m.resources@[3].kind == ResourceKind::COAL,
            m.resources@[0].target@ == threshold_bytes(seq![0u8, 0, 0, 0, 0x0f, 0xff]),
            m.resources@[1].target@ == threshold_bytes(seq![0u8, 0, 0, 0x02, 0xff, 0xff]),
            m.resources@[2].target@ == threshold_bytes(seq![0u8, 0, 0, 0x0f, 0xff, 0xff]),
            m.resources@[3].target@ == threshold_bytes(seq![0u8, 0, 0, 0x3f, 0xff, 0xff]),
    {
        let diamond = Resource::new(ResourceKind::DIAMOND, "000000000fff");
        let gold = Resource::new(ResourceKind::GOLD, "00000002ffff");
        let iron = Resource::new(ResourceKind::IRON, "0000000fffff");
        let coal = Resource::new(ResourceKind::COAL, "0000003fffff");
        proof {
            reveal_strlit("000000000fff");
            reveal_strlit("00000002ffff");
            reveal_strlit("0000000fffff");
            reveal_strlit("0000003fffff");
            assert(hex_decode("000000000fff"@) =~= seq![0u8, 0, 0, 0, 0x0f, 0xff]);
            assert(hex_decode("00000002ffff"@) =~= seq![0u8, 0, 0, 0x02, 0xff, 0xff]);
            assert(hex_decode("0000000fffff"@) =~= seq![0u8, 0, 0, 0x0f, 0xff, 0xff]);
            assert(hex_decode("0000003fffff"@) =~= seq![0u8, 0, 0, 0x3f, 0xff, 0xff]);
        }
        let diamond = diamond.unwrap();
        let gold = gold.unwrap();
        let iron = iron.unwrap();
        let coal = coal.unwrap();
        proof {
            assert(diamond.target@.subrange(0, 3) =~= gold.target@.subrange(0, 3));
            assert(gold.target@.subrange(0, 3) =~= iron.target@.subrange(0, 3));
            assert(iron.target@.subrange(0, 3) =~= coal.target@.subrange(0, 3));
            lemma_be_value_lex(diamond.target@, gold.target@, 3);
            lemma_be_value_lex(gold.target@, iron.target@, 3);
            lemma_be_value_lex(iron.target@, coal.target@, 3);
        }
        let mut resources: Vec<Resource> = Vec::new();
        resources.push(diamond);
        resources.push(gold);
        resources.push(iron);
        resources.push(coal);
        ResourceMatcher { resources }
    }

    /// The rarest tier whose threshold the digest satisfies, if any.
    pub fn match_hash(&self, hash: &[u8; 32]) -> (r: Option<Resource>)
        ensures
            r matches Some(res) ==> exists|i: int|
                first_satisfied(self.resources@, hash@, i) && self.resources@[i] == res,
            r is None <==> forall|i: int|
                0 <= i < self.resources@.len() ==> !satisfies(hash@, #[trigger] self.resources@[i].target@),
            r == rarest_match(self.resources@, hash@),
    {
        let n = self.resources.len();
        let mut i: usize = 0;
        while i < n
            invariant
                n == self.resources@.len(),
                i <= n,
                forall|j: int| 0 <= j < i ==> !satisfies(hash@, #[trigger] self.resources@[j].target@),
            decreases n - i,
        {
            let res = &self.resources[i];
            if meets_threshold(hash, &res.target) {
                proof {
                    let rs = self.resources@;
                    assert(first_satisfied(rs, hash@, i as int));
                    let c = choose|c: int| first_satisfied(rs, hash@, c);
                    lemma_first_satisfied_unique(rs, hash@, i as int, c);
                }
                return Some(*res);
            }
            i = i + 1;
        }
        proof {
            assert forall|c: int| !first_satisfied(self.resources@, hash@, c) by {
                if first_satisfied(self.resources@, hash@, c) {
                    assert(!satisfies(hash@, self.resources@[c].target@));
                }
            }
        }
        None
    }
}

} // verus!
