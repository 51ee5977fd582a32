use vstd::prelude::*;
use switchboard_on_demand::RandomnessAccountData;

verus! {

/// The fields of an oracle randomness account that a round reads.
#[derive(Clone, Copy, Debug, PartialEq, Eq)]
pub struct Randomness {
    /// Slot whose hash seeded the commitment.
    pub seed_slot: u64,
    /// Slot in which the value was revealed.
    pub reveal_slot: u64,
    pub value: [u8; 32],
}

/// The unsigned integer that eight bytes encode, least significant first.
pub open spec fn le_u64(b: Seq<u8>) -> int {
    b[0] + 256 * (b[1] + 256 * (b[2] + 256 * (b[3] + 256 * (b[4] + 256 * (b[5] + 256 * (b[6]
        + 256 * b[7] as int))))))
}

/// Account type tag that opens every randomness account.
pub open spec fn randomness_tag() -> Seq<u8> {
    seq![10u8, 66, 229, 135, 220, 239, 217, 114]
}

/// `r` holds the fields of the randomness account whose raw data is `data`:
/// an 8-byte tag, then the `repr(C)` record of 400 bytes, in which the seed
/// slot sits at 96, the reveal slot at 136 and the value at 144.
pub open spec fn randomness_layout(data: Seq<u8>, r: Randomness) -> bool {
    &&& data.len() >= 408
    &&& data.subrange(0, 8) == randomness_tag()
    &&& r.seed_slot == le_u64(data.subrange(104, 112))
    &&& r.reveal_slot == le_u64(data.subrange(144, 152))
    &&& r.value@ == data.subrange(152, 184)
}

/// What parsing may give for `data`: nothing, or the fields it holds.
pub open spec fn parsed_from(data: Seq<u8>, r: Option<Randomness>) -> bool {
    match r {
        Some(v) => randomness_layout(data, v),
        None => true,
    }
}

/// Relies on switchboard_on_demand's RandomnessAccountData::parse: it checks
/// the tag and the length and casts bytes 8..408 to the record. The cast also
/// rejects a misaligned buffer, so a failure says nothing of the bytes.
#[verifier::external_body]
pub(crate) fn parse_randomness(data: &[u8]) -> (r: Option<Randomness>)
    ensures
        parsed_from(data@, r),
{
    let mut buf: Vec<u8> = data.to_vec();
    let cell = std::cell::RefCell::new(&mut buf[..]);
    let r = RandomnessAccountData::parse(cell.borrow()).ok().map(
        |d| Randomness { seed_slot: d.seed_slot, reveal_slot: d.reveal_slot, value: d.value },
    );
    r
}

impl Randomness {
    /// The revealed value, available only in the slot it was revealed in.
    pub fn get_value(&self, clock_slot: u64) -> (r: Option<[u8; 32]>)
        ensures
            r == if clock_slot == self.reveal_slot {
                Some(self.value)
            } else {
                None::<[u8; 32]>
            },
    {
        if clock_slot != self.reveal_slot {
            None
        } else {
            Some(self.value)
        }
    }
}

/// Reads the first eight bytes of a value as a little-endian integer.
pub fn random_number(value: &[u8; 32]) -> (n: u64)
    ensures
        n as int == le_u64(value@.subrange(0, 8)),
{
    let b = value;
    let mut acc: u64 = b[7] as u64;
    acc = b[6] as u64 + 256 * acc;
    acc = b[5] as u64 + 256 * acc;
    acc = b[4] as u64 + 256 * acc;
    acc = b[3] as u64 + 256 * acc;
    acc = b[2] as u64 + 256 * acc;
    acc = b[1] as u64 + 256 * acc;
    acc = b[0] as u64 + 256 * acc;
    acc
}

} // verus!
