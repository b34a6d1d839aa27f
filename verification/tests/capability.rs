use styrolite::capability::{
    capget_request, get_caps, set_caps, CapInternalData, CapInternalHeader, CapInternalResult,
    CapResult, CapabilityBit, CAP_LAST_CAP, LINUX_CAPABILITY_VERSION_3,
};

fn bit(name: &str) -> CapabilityBit {
    CapabilityBit::from_name(name).unwrap()
}

#[test]
fn every_name_round_trips() {
    for number in 0..=CAP_LAST_CAP {
        let by_number = CapabilityBit::from_cap_number(number).unwrap();
        let name = by_number.name();
        let by_name = CapabilityBit::from_name(name).unwrap();
        assert_eq!(by_name.name(), name);
        assert_eq!(by_name.to_cap_number(), number);
        assert!(by_name.to_cap_number() <= 63);
    }
}

#[test]
fn names_carry_their_kernel_numbers() {
    assert_eq!(bit("CAP_CHOWN").to_cap_number(), 0);
    assert_eq!(bit("CAP_KILL").to_cap_number(), 5);
    assert_eq!(bit("CAP_NET_ADMIN").to_cap_number(), 12);
    assert_eq!(bit("CAP_SYS_ADMIN").to_cap_number(), 21);
    assert_eq!(bit("CAP_SETFCAP").to_cap_number(), 31);
    assert_eq!(bit("CAP_MAC_OVERRIDE").to_cap_number(), 32);
    assert_eq!(bit("CAP_BPF").to_cap_number(), 39);
    assert_eq!(bit("CAP_CHECKPOINT_RESTORE").to_cap_number(), 40);
}

#[test]
fn unknown_names_resolve_to_nothing() {
    assert!(CapabilityBit::from_name("").is_none());
    assert!(CapabilityBit::from_name("CAP_").is_none());
    assert!(CapabilityBit::from_name("cap_chown").is_none());
    assert!(CapabilityBit::from_name("CAP_CHOWN ").is_none());
    assert!(CapabilityBit::from_name("CAP_SYS_ADMINISTRATOR").is_none());
    assert!(CapabilityBit::from_name("SYS_ADMIN").is_none());
}

#[test]
fn numbers_beyond_the_last_capability_have_no_bit() {
    assert!(CapabilityBit::from_cap_number(40).is_some());
    assert!(CapabilityBit::from_cap_number(41).is_none());
    assert!(CapabilityBit::from_cap_number(63).is_none());
    assert!(CapabilityBit::from_cap_number(255).is_none());
}

#[test]
fn set_bits_sets_each_listed_bit() {
    let bits = vec![bit("CAP_CHOWN"), bit("CAP_SYS_ADMIN"), bit("CAP_CHECKPOINT_RESTORE")];
    assert_eq!(CapabilityBit::set_bits(0, &bits), 1 | (1 << 21) | (1 << 40));
    assert_eq!(CapabilityBit::set_bits(0b10, &bits), 0b11 | (1 << 21) | (1 << 40));
    assert_eq!(CapabilityBit::set_bits(7, &vec![]), 7);
    let twice = vec![bit("CAP_KILL"), bit("CAP_KILL")];
    assert_eq!(CapabilityBit::set_bits(0, &twice), 1 << 5);
}

#[test]
fn clear_bits_clears_each_listed_bit() {
    let bits = vec![bit("CAP_SYS_ADMIN"), bit("CAP_CHOWN")];
    assert_eq!(CapabilityBit::clear_bits(u64::MAX, &bits), u64::MAX & !(1 << 21) & !1);
    assert_eq!(CapabilityBit::clear_bits(0, &bits), 0);
    assert_eq!(CapabilityBit::clear_bits(0xff, &vec![]), 0xff);
}

#[test]
fn capget_request_is_version_three_and_empty() {
    let raw = capget_request(4242);
    assert_eq!(raw.header, CapInternalHeader { version: 0x20080522, pid: 4242 });
    assert_eq!(LINUX_CAPABILITY_VERSION_3, 0x20080522);
    let empty = CapInternalData { effective: 0, permitted: 0, inheritable: 0 };
    assert_eq!(raw.first, empty);
    assert_eq!(raw.second, empty);
}

#[test]
fn get_caps_puts_the_first_slot_on_top() {
    let raw = CapInternalResult {
        header: CapInternalHeader { version: LINUX_CAPABILITY_VERSION_3, pid: 1 },
        first: CapInternalData { effective: 0x1, permitted: 0x2, inheritable: 0x3 },
        second: CapInternalData { effective: 0xa000_0000, permitted: 0xb, inheritable: 0xc },
    };
    let caps = get_caps(&raw);
    assert_eq!(caps.effective, 0x0000_0001_a000_0000);
    assert_eq!(caps.permitted, 0x0000_0002_0000_000b);
    assert_eq!(caps.inheritable, 0x0000_0003_0000_000c);
}

#[test]
fn set_caps_splits_each_set_in_two() {
    let raw = set_caps(CapResult {
        effective: 0x1234_5678_9abc_def0,
        permitted: 0x0000_0001_0000_0002,
        inheritable: u64::MAX,
    });
    assert_eq!(raw.header, CapInternalHeader { version: 0x20080522, pid: -1 });
    assert_eq!(
        raw.first,
        CapInternalData { effective: 0x1234_5678, permitted: 1, inheritable: u32::MAX }
    );
    assert_eq!(
        raw.second,
        CapInternalData { effective: 0x9abc_def0, permitted: 2, inheritable: u32::MAX }
    );
}

#[test]
fn sets_survive_the_round_trip_through_slots() {
    for set in [0u64, 1, 1 << 21, 1 << 32, 0x1ff_ffff_ffff, u64::MAX, 0xdead_beef_0bad_f00d] {
        let caps = CapResult { effective: set, permitted: !set, inheritable: set >> 3 };
        assert_eq!(get_caps(&set_caps(caps)), caps);
    }
}
