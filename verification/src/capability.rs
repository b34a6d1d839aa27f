//! Capability sets as the kernel exchanges them, and the names of their bits.

use vstd::prelude::*;

verus! {

/// Version word of the capability header that carries two 32-bit slots per set.
pub const LINUX_CAPABILITY_VERSION_3: u32 = 0x20080522;

/// The highest capability number that has a name.
pub const CAP_LAST_CAP: u8 = 40;

/// Header of a `capget`/`capset` exchange.
#[derive(Clone, Copy, Debug, PartialEq, Eq, Structural)]
pub struct CapInternalHeader {
    pub version: u32,
    pub pid: i32,
}

/// One 32-bit slot of each of the three sets.
#[derive(Clone, Copy, Debug, PartialEq, Eq, Structural)]
pub struct CapInternalData {
    pub effective: u32,
    pub permitted: u32,
    pub inheritable: u32,
}

/// What `capget` fills and `capset` reads: a header and two slots.
#[derive(Clone, Copy, Debug, PartialEq, Eq, Structural)]
pub struct CapInternalResult {
    pub header: CapInternalHeader,
    pub first: CapInternalData,
    pub second: CapInternalData,
}

/// The three capability sets of a thread, each as one 64-bit word.
#[derive(Clone, Copy, Debug, PartialEq, Eq, Structural)]
pub struct CapResult {
    pub effective: u64,
    pub permitted: u64,
    pub inheritable: u64,
}

/// The 64-bit set made of two slots: the first slot is the upper half.
pub open spec fn join_slots(first: u32, second: u32) -> u64 {
    ((first as u64) << 32) | (second as u64)
}

/// The slot that holds the upper half of a set.
pub open spec fn first_slot(set: u64) -> u32 {
    (set >> 32) as u32
}

/// The slot that holds the lower half of a set.
pub open spec fn second_slot(set: u64) -> u32 {
    set as u32
}

/// The exchange to hand to `capget` for the process `pid`: version 3, both
/// slots cleared.
pub fn capget_request(pid: i32) -> (raw: CapInternalResult)
    ensures
        raw.header == (CapInternalHeader { version: LINUX_CAPABILITY_VERSION_3, pid }),
        raw.first == (CapInternalData { effective: 0, permitted: 0, inheritable: 0 }),
        raw.second == (CapInternalData { effective: 0, permitted: 0, inheritable: 0 }),
{
    CapInternalResult {
        header: CapInternalHeader { version: LINUX_CAPABILITY_VERSION_3, pid },
        first: CapInternalData { effective: 0, permitted: 0, inheritable: 0 },
        second: CapInternalData { effective: 0, permitted: 0, inheritable: 0 },
    }
}

fn join(first: u32, second: u32) -> (set: u64)
    ensures
        set == join_slots(first, second),
{
    ((first as u64) << 32) | (second as u64)
}

/// Reads the three sets out of what `capget` filled in.
pub fn get_caps(raw: &CapInternalResult) -> (caps: CapResult)
    ensures
        caps == read_out(*raw),
{
    CapResult {
        effective: join(raw.first.effective, raw.second.effective),
        permitted: join(raw.first.permitted, raw.second.permitted),
        inheritable: join(raw.first.inheritable, raw.second.inheritable),
    }
}

/// The three sets as `capset` takes them: version 3, pid -1, the upper half
/// of each set in the first slot and the lower half in the second.
pub open spec fn laid_out(caps: CapResult) -> CapInternalResult {
    CapInternalResult {
        header: CapInternalHeader { version: LINUX_CAPABILITY_VERSION_3, pid: -1i32 },
        first: CapInternalData {
            effective: first_slot(caps.effective),
            permitted: first_slot(caps.permitted),
            inheritable: first_slot(caps.inheritable),
        },
        second: CapInternalData {
            effective: second_slot(caps.effective),
            permitted: second_slot(caps.permitted),
            inheritable: second_slot(caps.inheritable),
        },
    }
}

/// The three sets that an exchange holds.
pub open spec fn read_out(raw: CapInternalResult) -> CapResult {
    CapResult {
        effective: join_slots(raw.first.effective, raw.second.effective),
        permitted: join_slots(raw.first.permitted, raw.second.permitted),
        inheritable: join_slots(raw.first.inheritable, raw.second.inheritable),
    }
}

/// Lays the three sets out for `capset`.
pub fn set_caps(caps: CapResult) -> (raw: CapInternalResult)
    ensures
        raw == laid_out(caps),
{
    CapInternalResult {
        header: CapInternalHeader { version: LINUX_CAPABILITY_VERSION_3, pid: -1 },
        first: CapInternalData {
            effective: (caps.effective >> 32) as u32,
            permitted: (caps.permitted >> 32) as u32,
            inheritable: (caps.inheritable >> 32) as u32,
        },
        second: CapInternalData {
            effective: caps.effective as u32,
            permitted: caps.permitted as u32,
            inheritable: caps.inheritable as u32,
        },
    }
}

/// Splitting a set into its two slots and joining them gives the set back.
pub proof fn lemma_slots_round_trip(set: u64)
    ensures
        join_slots(first_slot(set), second_slot(set)) == set,
{
    assert((((set >> 32) as u32 as u64) << 32) | (set as u32 as u64) == set) by (bit_vector);
}

/// Joining two slots and splitting the result gives the slots back.
pub proof fn lemma_join_round_trip(first: u32, second: u32)
    ensures
        first_slot(join_slots(first, second)) == first,
        second_slot(join_slots(first, second)) == second,
{
    assert((((((first as u64) << 32) | (second as u64)) >> 32) as u32) == first) by (bit_vector);
    assert(((((first as u64) << 32) | (second as u64)) as u32) == second) by (bit_vector);
}

/// What `set_caps` lays out, `get_caps` reads back unchanged.
pub proof fn lemma_caps_round_trip(caps: CapResult)
    ensures
        read_out(laid_out(caps)) == caps,
{
    lemma_slots_round_trip(caps.effective);
    lemma_slots_round_trip(caps.permitted);
    lemma_slots_round_trip(caps.inheritable);
}

/// The canonical name of the capability with the given number; numbers above
/// [`CAP_LAST_CAP`] have no name of their own and read as the last one.
pub open spec fn capability_name(number: nat) -> Seq<char> {
    if number == 0 {
        "CAP_CHOWN"@
    } else if number == 1 {
        "CAP_DAC_OVERRIDE"@
    } else if number == 2 {
        "CAP_DAC_READ_SEARCH"@
    } else if number == 3 {
        "CAP_FOWNER"@
    } else if number == 4 {
        "CAP_FSETID"@
    } else if number == 5 {
        "CAP_KILL"@
    } else if number == 6 {
        "CAP_SETGID"@
    } else if number == 7 {
        "CAP_SETUID"@
    } else if number == 8 {
        "CAP_SETPCAP"@
    } else if number == 9 {
        "CAP_LINUX_IMMUTABLE"@
    } else if number == 10 {
        "CAP_NET_BIND_SERVICE"@
    } else if number == 11 {
        "CAP_NET_BROADCAST"@
    } else if number == 12 {
        "CAP_NET_ADMIN"@
    } else if number == 13 {
        "CAP_NET_RAW"@
    } else if number == 14 {
        "CAP_IPC_LOCK"@
    } else if number == 15 {
        "CAP_IPC_OWNER"@
    } else if number == 16 {
        "CAP_SYS_MODULE"@
    } else if number == 17 {
        "CAP_SYS_RAWIO"@
    } else if number == 18 {
        "CAP_SYS_CHROOT"@
    } else if number == 19 {
        "CAP_SYS_PTRACE"@
    } else if number == 20 {
        "CAP_SYS_PACCT"@
    } else if number == 21 {
        "CAP_SYS_ADMIN"@
    } else if number == 22 {
        "CAP_SYS_BOOT"@
    } else if number == 23 {
        "CAP_SYS_NICE"@
    } else if number == 24 {
        "CAP_SYS_RESOURCE"@
    } else if number == 25 {
        "CAP_SYS_TIME"@
    } else if number == 26 {
        "CAP_SYS_TTY_CONFIG"@
    } else if number == 27 {
        "CAP_MKNOD"@
    } else if number == 28 {
        "CAP_LEASE"@
    } else if number == 29 {
        "CAP_AUDIT_WRITE"@
    } else if number == 30 {
        "CAP_AUDIT_CONTROL"@
    } else if number == 31 {
        "CAP_SETFCAP"@
    } else if number == 32 {
        "CAP_MAC_OVERRIDE"@
    } else if number == 33 {
        "CAP_MAC_ADMIN"@
    } else if number == 34 {
        "CAP_SYSLOG"@
    } else if number == 35 {
        "CAP_WAKE_ALARM"@
    } else if number == 36 {
        "CAP_BLOCK_SUSPEND"@
    } else if number == 37 {
        "CAP_AUDIT_READ"@
    } else if number == 38 {
        "CAP_PERFMON"@
    } else if number == 39 {
        "CAP_BPF"@
    } else {
        "CAP_CHECKPOINT_RESTORE"@
    }
}

fn name_of(number: u8) -> (name: &'static str)
    ensures
        name@ == capability_name(number as nat),
{
    if number == 0 {
        "CAP_CHOWN"
    } else if number == 1 {
        "CAP_DAC_OVERRIDE"
    } else if number == 2 {
        "CAP_DAC_READ_SEARCH"
    } else if number == 3 {
        "CAP_FOWNER"
    } else if number == 4 {
        "CAP_FSETID"
    } else if number == 5 {
        "CAP_KILL"
    } else if number == 6 {
        "CAP_SETGID"
    } else if number == 7 {
        "CAP_SETUID"
    } else if number == 8 {
        "CAP_SETPCAP"
    } else if number == 9 {
        "CAP_LINUX_IMMUTABLE"
    } else if number == 10 {
        "CAP_NET_BIND_SERVICE"
    } else if number == 11 {
        "CAP_NET_BROADCAST"
    } else if number == 12 {
        "CAP_NET_ADMIN"
    } else if number == 13 {
        "CAP_NET_RAW"
    } else if number == 14 {
        "CAP_IPC_LOCK"
    } else if number == 15 {
        "CAP_IPC_OWNER"
    } else if number == 16 {
        "CAP_SYS_MODULE"
    } else if number == 17 {
        "CAP_SYS_RAWIO"
    } else if number == 18 {
        "CAP_SYS_CHROOT"
    } else if number == 19 {
        "CAP_SYS_PTRACE"
    } else if number == 20 {
        "CAP_SYS_PACCT"
    } else if number == 21 {
        "CAP_SYS_ADMIN"
    } else if number == 22 {
        "CAP_SYS_BOOT"
    } else if number == 23 {
        "CAP_SYS_NICE"
    } else if number == 24 {
        "CAP_SYS_RESOURCE"
    } else if number == 25 {
        "CAP_SYS_TIME"
    } else if number == 26 {
        "CAP_SYS_TTY_CONFIG"
    } else if number == 27 {
        "CAP_MKNOD"
    } else if number == 28 {
        "CAP_LEASE"
    } else if number == 29 {
        "CAP_AUDIT_WRITE"
    } else if number == 30 {
        "CAP_AUDIT_CONTROL"
    } else if number == 31 {
        "CAP_SETFCAP"
    } else if number == 32 {
        "CAP_MAC_OVERRIDE"
    } else if number == 33 {
        "CAP_MAC_ADMIN"
    } else if number == 34 {
        "CAP_SYSLOG"
    } else if number == 35 {
        "CAP_WAKE_ALARM"
    } else if number == 36 {
        "CAP_BLOCK_SUSPEND"
    } else if number == 37 {
        "CAP_AUDIT_READ"
    } else if number == 38 {
        "CAP_PERFMON"
    } else if number == 39 {
        "CAP_BPF"
    } else {
        "CAP_CHECKPOINT_RESTORE"
    }
}

/// The lowest capability number from `from` on whose name is `name`, if any.
pub open spec fn find_name(name: Seq<char>, from: nat) -> Option<nat>
    decreases 41 - from,
{
    if from > CAP_LAST_CAP {
        None
    } else if capability_name(from) == name {
        Some(from)
    } else {
        find_name(name, from + 1)
    }
}

/// Whether `name` is the canonical name of a capability.
pub open spec fn known_name(name: Seq<char>) -> bool {
    exists|number: nat| number <= CAP_LAST_CAP && #[trigger] capability_name(number) == name
}

/// Whether bit `number` is set in `mask`.
pub open spec fn has_bit(mask: u64, number: nat) -> bool {
    mask & (1u64 << (number as u64)) != 0
}

/// `mask` with the bit of every listed capability set.
pub open spec fn set_mask(mask: u64, numbers: Seq<nat>) -> u64
    decreases numbers.len(),
{
    if numbers.len() == 0 {
        mask
    } else {
        set_mask(mask, numbers.drop_last()) | (1u64 << (numbers.last() as u64))
    }
}

/// `mask` with the bit of every listed capability cleared.
pub open spec fn clear_mask(mask: u64, numbers: Seq<nat>) -> u64
    decreases numbers.len(),
{
    if numbers.len() == 0 {
        mask
    } else {
        clear_mask(mask, numbers.drop_last()) & !(1u64 << (numbers.last() as u64))
    }
}

/// The numbers of a list of capability bits, in order.
pub open spec fn numbers_of(bits: Seq<CapabilityBit>) -> Seq<nat> {
    bits.map_values(|bit: CapabilityBit| bit.number())
}

/// One bit of a capability set, known by its number and its canonical name.
#[derive(Clone, Copy, Debug)]
pub struct CapabilityBit {
    number: u8,
}

impl CapabilityBit {
    #[verifier::type_invariant]
    spec fn named(self) -> bool {
        self.number <= CAP_LAST_CAP
    }

    /// The capability's number.
    pub closed spec fn number(self) -> nat {
        self.number as nat
    }

    /// The capability with the given number, if it has a name.
    pub fn from_cap_number(number: u8) -> (bit: Option<CapabilityBit>)
        ensures
            bit is Some <==> number <= CAP_LAST_CAP,
            bit is Some ==> bit->0.number() == number,
    {
        if number <= CAP_LAST_CAP {
            Some(CapabilityBit { number })
        } else {
            None
        }
    }

    /// The capability's number, which is the position of its bit in a set.
    pub fn to_cap_number(&self) -> (number: u8)
        ensures
            number == self.number(),
            number <= CAP_LAST_CAP,
    {
        proof {
            use_type_invariant(self);
        }
        self.number
    }

    /// The capability's canonical name.
    pub fn name(&self) -> (name: &'static str)
        ensures
            name@ == capability_name(self.number()),
    {
        name_of(self.number)
    }

    /// Resolves a canonical name to its capability; `None` for any other text.
    pub fn from_name(name: &str) -> (bit: Option<CapabilityBit>)
        ensures
            bit is Some <==> known_name(name@),
            bit is Some ==> capability_name(bit->0.number()) == name@,
            bit is Some ==> find_name(name@, 0) == Some(bit->0.number()),
            bit is None ==> find_name(name@, 0) is None,
    {
        let mut number: u8 = 0;
        while number <= CAP_LAST_CAP
            invariant
                number <= CAP_LAST_CAP + 1,
                find_name(name@, 0) == find_name(name@, number as nat),
                forall|k: nat| k < number ==> #[trigger] capability_name(k) != name@,
            decreases CAP_LAST_CAP + 1 - number,
        {
            if crate::text::same_text(name, name_of(number)) {
                return Some(CapabilityBit { number });
            }
            number += 1;
        }
        None
    }

    /// Sets the bit of every listed capability in `mask`.
    pub fn set_bits(mask: u64, bits: &Vec<CapabilityBit>) -> (out: u64)
        ensures
            out == set_mask(mask, numbers_of(bits@)),
    {
        let mut out = mask;
        let mut i: usize = 0;
        while i < bits.len()
            invariant
                i <= bits.len(),
                out == set_mask(mask, numbers_of(bits@.take(i as int))),
            decreases bits.len() - i,
        {
            let number = bits[i].to_cap_number();
            proof {
                assert(numbers_of(bits@.take(i + 1)).drop_last() =~= numbers_of(
                    bits@.take(i as int),
                ));
            }
            out = out | (1u64 << (number as u64));
            i += 1;
        }
        assert(bits@.take(bits.len() as int) =~= bits@);
        out
    }

    /// Clears the bit of every listed capability in `mask`.
    pub fn clear_bits(mask: u64, bits: &Vec<CapabilityBit>) -> (out: u64)
        ensures
            out == clear_mask(mask, numbers_of(bits@)),
    {
        let mut out = mask;
        let mut i: usize = 0;
        while i < bits.len()
            invariant
                i <= bits.len(),
                out == clear_mask(mask, numbers_of(bits@.take(i as int))),
            decreases bits.len() - i,
        {
            let number = bits[i].to_cap_number();
            proof {
                assert(numbers_of(bits@.take(i + 1)).drop_last() =~= numbers_of(
                    bits@.take(i as int),
                ));
            }
            out = out & !(1u64 << (number as u64));
            i += 1;
        }
        assert(bits@.take(bits.len() as int) =~= bits@);
        out
    }
}

/// A bit is set after `set_mask` exactly when it was set before or is listed.
pub proof fn lemma_set_mask_bits(mask: u64, numbers: Seq<nat>, k: nat)
    requires
        k < 64,
        forall|i: int| 0 <= i < numbers.len() ==> numbers[i] < 64,
    ensures
        has_bit(set_mask(mask, numbers), k) <==> (has_bit(mask, k) || numbers.contains(k)),
    decreases numbers.len(),
{
    if numbers.len() > 0 {
        let init = numbers.drop_last();
        let last = numbers.last() as u64;
        let acc = set_mask(mask, init);
        let kk = k as u64;
        lemma_set_mask_bits(mask, init, k);
        assert(((acc | (1u64 << last)) & (1u64 << kk) != 0) <==> (last == kk || acc & (1u64 << kk)
            != 0)) by (bit_vector)
            requires
                last < 64,
                kk < 64,
        ;
        if numbers.contains(k) {
            let i = choose|i: int| 0 <= i < numbers.len() && numbers[i] == k;
            if i < numbers.len() - 1 {
                assert(init[i] == k);
            }
        }
        if init.contains(k) {
            let i = choose|i: int| 0 <= i < init.len() && init[i] == k;
            assert(numbers[i] == k);
        }
    }
}

/// A bit is set after `clear_mask` exactly when it was set before and is not
/// listed.
pub proof fn lemma_clear_mask_bits(mask: u64, numbers: Seq<nat>, k: nat)
    requires
        k < 64,
        forall|i: int| 0 <= i < numbers.len() ==> numbers[i] < 64,
    ensures
        has_bit(clear_mask(mask, numbers), k) <==> (has_bit(mask, k) && !numbers.contains(k)),
    decreases numbers.len(),
{
    if numbers.len() > 0 {
        let init = numbers.drop_last();
        let last = numbers.last() as u64;
        let acc = clear_mask(mask, init);
        let kk = k as u64;
        lemma_clear_mask_bits(mask, init, k);
        assert(((acc & !(1u64 << last)) & (1u64 << kk) != 0) <==> (last != kk && acc & (1u64 << kk)
            != 0)) by (bit_vector)
            requires
                last < 64,
                kk < 64,
        ;
        if numbers.contains(k) {
            let i = choose|i: int| 0 <= i < numbers.len() && numbers[i] == k;
            if i < numbers.len() - 1 {
                assert(init[i] == k);
            }
        }
        if init.contains(k) {
            let i = choose|i: int| 0 <= i < init.len() && init[i] == k;
            assert(numbers[i] == k);
        }
    }
}

/// A name that some capability from `from` on carries is found, at the
/// first capability that carries it.
pub proof fn lemma_find_name(name: Seq<char>, from: nat, witness: nat)
    requires
        from <= witness <= CAP_LAST_CAP,
        capability_name(witness) == name,
    ensures
        find_name(name, from) is Some,
        from <= find_name(name, from)->0 <= witness,
        capability_name(find_name(name, from)->0) == name,
    decreases 41 - from,
{
    if capability_name(from) != name {
        lemma_find_name(name, from + 1, witness);
    }
}

/// What tells the canonical names apart: the length of a name and three of
/// its characters.
spec fn mark(name: Seq<char>) -> (nat, char, char, char) {
    (name.len(), at_or_blank(name, 4), at_or_blank(name, 7), at_or_blank(name, 8))
}

spec fn at_or_blank(name: Seq<char>, at: int) -> char {
    if 0 <= at < name.len() {
        name[at]
    } else {
        ' '
    }
}

spec fn mark_of(number: nat) -> (nat, char, char, char) {
    if number == 0 {
        (9, 'C', 'W', 'N')
    } else if number == 1 {
        (16, 'D', '_', 'O')
    } else if number == 2 {
        (19, 'D', '_', 'R')
    } else if number == 3 {
        (10, 'F', 'N', 'E')
    } else if number == 4 {
        (10, 'F', 'T', 'I')
    } else if number == 5 {
        (8, 'K', 'L', ' ')
    } else if number == 6 {
        (10, 'S', 'G', 'I')
    } else if number == 7 {
        (10, 'S', 'U', 'I')
    } else if number == 8 {
        (11, 'S', 'P', 'C')
    } else if number == 9 {
        (19, 'L', 'U', 'X')
    } else if number == 10 {
        (20, 'N', '_', 'B')
    } else if number == 11 {
        (17, 'N', '_', 'B')
    } else if number == 12 {
        (13, 'N', '_', 'A')
    } else if number == 13 {
        (11, 'N', '_', 'R')
    } else if number == 14 {
        (12, 'I', '_', 'L')
    } else if number == 15 {
        (13, 'I', '_', 'O')
    } else if number == 16 {
        (14, 'S', '_', 'M')
    } else if number == 17 {
        (13, 'S', '_', 'R')
    } else if number == 18 {
        (14, 'S', '_', 'C')
    } else if number == 19 {
        (14, 'S', '_', 'P')
    } else if number == 20 {
        (13, 'S', '_', 'P')
    } else if number == 21 {
        (13, 'S', '_', 'A')
    } else if number == 22 {
        (12, 'S', '_', 'B')
    } else if number == 23 {
        (12, 'S', '_', 'N')
    } else if number == 24 {
        (16, 'S', '_', 'R')
    } else if number == 25 {
        (12, 'S', '_', 'T')
    } else if number == 26 {
        (18, 'S', '_', 'T')
    } else if number == 27 {
        (9, 'M', 'O', 'D')
    } else if number == 28 {
        (9, 'L', 'S', 'E')
    } else if number == 29 {
        (15, 'A', 'I', 'T')
    } else if number == 30 {
        (17, 'A', 'I', 'T')
    } else if number == 31 {
        (11, 'S', 'F', 'C')
    } else if number == 32 {
        (16, 'M', '_', 'O')
    } else if number == 33 {
        (13, 'M', '_', 'A')
    } else if number == 34 {
        (10, 'S', 'L', 'O')
    } else if number == 35 {
        (14, 'W', 'E', '_')
    } else if number == 36 {
        (17, 'B', 'C', 'K')
    } else if number == 37 {
        (14, 'A', 'I', 'T')
    } else if number == 38 {
        (11, 'P', 'F', 'M')
    } else if number == 39 {
        (7, 'B', ' ', ' ')
    } else {
        (22, 'C', 'C', 'K')
    }
}

proof fn lemma_marks(number: nat)
    requires
        number <= CAP_LAST_CAP,
    ensures
        mark(capability_name(number)) == mark_of(number),
{
    reveal_strlit("CAP_CHOWN");
    reveal_strlit("CAP_DAC_OVERRIDE");
    reveal_strlit("CAP_DAC_READ_SEARCH");
    reveal_strlit("CAP_FOWNER");
    reveal_strlit("CAP_FSETID");
    reveal_strlit("CAP_KILL");
    reveal_strlit("CAP_SETGID");
    reveal_strlit("CAP_SETUID");
    reveal_strlit("CAP_SETPCAP");
    reveal_strlit("CAP_LINUX_IMMUTABLE");
    reveal_strlit("CAP_NET_BIND_SERVICE");
    reveal_strlit("CAP_NET_BROADCAST");
    reveal_strlit("CAP_NET_ADMIN");
    reveal_strlit("CAP_NET_RAW");
    reveal_strlit("CAP_IPC_LOCK");
    reveal_strlit("CAP_IPC_OWNER");
    reveal_strlit("CAP_SYS_MODULE");
    reveal_strlit("CAP_SYS_RAWIO");
    reveal_strlit("CAP_SYS_CHROOT");
    reveal_strlit("CAP_SYS_PTRACE");
    reveal_strlit("CAP_SYS_PACCT");
    reveal_strlit("CAP_SYS_ADMIN");
    reveal_strlit("CAP_SYS_BOOT");
    reveal_strlit("CAP_SYS_NICE");
    reveal_strlit("CAP_SYS_RESOURCE");
    reveal_strlit("CAP_SYS_TIME");
    reveal_strlit("CAP_SYS_TTY_CONFIG");
    reveal_strlit("CAP_MKNOD");
    reveal_strlit("CAP_LEASE");
    reveal_strlit("CAP_AUDIT_WRITE");
    reveal_strlit("CAP_AUDIT_CONTROL");
    reveal_strlit("CAP_SETFCAP");
    reveal_strlit("CAP_MAC_OVERRIDE");
    reveal_strlit("CAP_MAC_ADMIN");
    reveal_strlit("CAP_SYSLOG");
    reveal_strlit("CAP_WAKE_ALARM");
    reveal_strlit("CAP_BLOCK_SUSPEND");
    reveal_strlit("CAP_AUDIT_READ");
    reveal_strlit("CAP_PERFMON");
    reveal_strlit("CAP_BPF");
    reveal_strlit("CAP_CHECKPOINT_RESTORE");
}

/// No two capabilities share a name.
pub proof fn lemma_names_distinct(a: nat, b: nat)
    requires
        a <= CAP_LAST_CAP,
        b <= CAP_LAST_CAP,
        a != b,
    ensures
        capability_name(a) != capability_name(b),
{
    lemma_marks(a);
    lemma_marks(b);
    assert(mark_of(a) != mark_of(b));
}

/// Every capability is found again by its canonical name: the name
/// resolves to the capability it was taken from, whose own name it is, and
/// whose number is the position of a bit in a 64-bit set.
pub proof fn lemma_name_round_trip(number: nat)
    requires
        number <= CAP_LAST_CAP,
    ensures
        find_name(capability_name(number), 0) == Some(number),
        capability_name(find_name(capability_name(number), 0)->0) == capability_name(number),
        number <= 63,
{
    lemma_find_name(capability_name(number), 0, number);
    let found = find_name(capability_name(number), 0)->0;
    if found != number {
        lemma_names_distinct(found, number);
    }
}

} // verus!
