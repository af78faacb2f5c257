use memory_tracker::cache::CompiledContractCache;
use memory_tracker::filter::FilterBitmap;
use memory_tracker::hash::murmur64;
use memory_tracker::header::{AllocationHeader, HEADER_SIZE, MAGIC_FREED, MAGIC_LIVE};
use memory_tracker::ident::ThreadState;
use memory_tracker::sampler::should_sample;
use memory_tracker::symbols::is_ignored_symbol;
use memory_tracker::tracker::MyAllocator;
use memory_tracker::vm_errors::{convert_vm_error, EvmError, VMLogicError, VmError};

#[test]
fn murmur64_fixed_points_and_determinism() {
    // Zero is a fixed point of the finalizer.
    assert_eq!(murmur64(0), 0);
    assert_eq!(murmur64(0x12345678), murmur64(0x12345678));
    // The finalizer is a bijection, so distinct inputs stay distinct.
    assert_ne!(murmur64(1), murmur64(2));
    assert_ne!(murmur64(1), 0);
}

#[test]
fn sampling_policy_exact_cases() {
    assert!(should_sample(1024, 57));
    assert!(should_sample(4096, 99));
    assert!(should_sample(0, 0));
    assert!(should_sample(1023, 0));
    assert!(!should_sample(1023, 1));
    assert!(!should_sample(0, 99));
}

#[test]
fn filter_bits_set_once_stay_set() {
    let mut f = FilterBitmap::new();
    assert!(!f.is_set(12345));
    f.set(12345);
    assert!(f.is_set(12345));
    assert!(!f.is_set(12344));
    // Setting other slots never clears it.
    f.set(0);
    f.set(8388607);
    f.set(12344);
    assert!(f.is_set(12345));
    assert!(f.is_set(0));
    assert!(f.is_set(8388607));
}

#[test]
fn header_codec_layout_and_roundtrip() {
    let h = AllocationHeader::new_live(2000, 7, 0xdeadbeef);
    let bytes = h.encode();
    assert_eq!(bytes.len(), HEADER_SIZE);
    // The live magic tag, little endian, heads the record.
    assert_eq!(&bytes[0..8], &[0x24, 0x11, 0x99, 0x78, 0x56, 0x34, 0x12, 0x00]);
    assert_eq!(&bytes[8..16], &[0xd0, 0x07, 0, 0, 0, 0, 0, 0]);
    assert_eq!(&bytes[16..24], &[7, 0, 0, 0, 0, 0, 0, 0]);
    assert_eq!(&bytes[24..32], &[0xef, 0xbe, 0xad, 0xde, 0, 0, 0, 0]);
    let back = AllocationHeader::decode(&bytes);
    assert_eq!(back, h);

    let mut h2 = back;
    h2.mark_freed();
    assert_eq!(h2.magic, MAGIC_FREED);
    assert_eq!(h2.size, 2000);
    assert_eq!(h2.tid, 7);
    assert_eq!(h2.addr, 0xdeadbeef);
    assert!(!h2.is_live());
    assert_eq!(MAGIC_FREED, MAGIC_LIVE + 0x10);
}

#[test]
fn ignored_symbols_match_prefixes_and_infixes() {
    assert!(is_ignored_symbol(b"__rg_alloc"));
    assert!(is_ignored_symbol(b"_ZN5alloc7raw_vec11RawVec"));
    assert!(is_ignored_symbol(b"_ZN9hashbrown3map"));
    assert!(is_ignored_symbol(b"_ZN10serde_json..de..Deserializer8from_str"));
    assert!(is_ignored_symbol(b"x$LT$tracing_subscriber..fmt"));
    assert!(!is_ignored_symbol(b"main"));
    assert!(!is_ignored_symbol(b"_ZN4near5chain"));
    // A prefix pattern matches only at the start of the name.
    assert!(!is_ignored_symbol(b"x__rg_alloc"));
    assert!(!is_ignored_symbol(b""));
}

#[test]
fn walk_skips_ignored_frames_and_memoizes() {
    let mut t = MyAllocator::new();
    let mut thread = ThreadState::new();
    // Frame 1 resolves to infrastructure (ignored), frame 2 to user code,
    // frame 3 is above the high-address boundary.
    let frames = vec![0x9999u64, 0x1111, 0x800000000000, 0x2222];
    let ignored = vec![false, true, false, false];
    let out = t.record_alloc(&mut thread, 2048, 3, &frames, &ignored, false);
    assert!(out.sampled);
    // The ignored frame goes onto the skip list; the high frame is
    // rejected; the next low frame is attributed.
    assert_eq!(out.header.addr, 0x2222);
    assert!(out.deep_dump == false);

    // The accepted slot is now memoized as checked: a second walk over the
    // same frames accepts without resolving anew, so even with every
    // verdict flipped the attribution is unchanged.
    let ignored_flipped = vec![true, true, false, true];
    let out2 = t.record_alloc(&mut thread, 2048, 3, &frames, &ignored_flipped, false);
    assert_eq!(out2.header.addr, 0x2222);
}

#[test]
fn deep_dump_owed_only_for_armed_fresh_attribution() {
    let mut t = MyAllocator::new();
    let mut thread = ThreadState::new();
    let frames = vec![0x9999u64, 0x3333];
    let ignored = vec![false, false];
    // Armed and freshly attributed: a dump is owed.
    let out = t.record_alloc(&mut thread, 2048, 3, &frames, &ignored, true);
    assert!(out.deep_dump);
    // Armed but the slot is already checked: no fresh resolution, no dump.
    let out = t.record_alloc(&mut thread, 2048, 3, &frames, &ignored, true);
    assert!(!out.deep_dump);
    // Fresh attribution but not armed: no dump.
    let frames2 = vec![0x9999u64, 0x4444];
    let out = t.record_alloc(&mut thread, 2048, 3, &frames2, &ignored, false);
    assert!(!out.deep_dump);
}

#[test]
fn vm_error_conversion_variants() {
    let r = convert_vm_error(VmError::OutOfGas);
    assert!(matches!(r, VMLogicError::EvmError(EvmError::OutOfGas)));

    let r = convert_vm_error(VmError::BadJumpDestination { destination: 77 });
    assert!(matches!(
        r,
        VMLogicError::EvmError(EvmError::BadJumpDestination { destination: 77 })
    ));

    // A destination too wide for the logic layer collapses to zero.
    let r = convert_vm_error(VmError::BadJumpDestination { destination: 1 << 40 });
    assert!(matches!(
        r,
        VMLogicError::EvmError(EvmError::BadJumpDestination { destination: 0 })
    ));

    let r = convert_vm_error(VmError::StackUnderflow {
        instruction: "POP".to_string(),
        wanted: 2,
        on_stack: 1,
    });
    match r {
        VMLogicError::EvmError(EvmError::StackUnderflow { instruction, wanted, on_stack }) => {
            assert_eq!(instruction, "POP");
            assert_eq!(wanted, 2);
            assert_eq!(on_stack, 1);
        }
        _ => panic!("wrong variant"),
    }

    let r = convert_vm_error(VmError::MutableCallInStaticContext);
    assert!(matches!(r, VMLogicError::EvmError(EvmError::OutOfBounds)));

    let r = convert_vm_error(VmError::Internal("disk".to_string()));
    match r {
        VMLogicError::InconsistentStateError(
            memory_tracker::vm_errors::InconsistentStateError::StorageError(msg),
        ) => assert_eq!(msg, "disk"),
        _ => panic!("wrong variant"),
    }

    let r = convert_vm_error(VmError::Reverted);
    assert!(matches!(r, VMLogicError::EvmError(EvmError::Reverted)));
}

#[test]
fn empty_cache_stores_nothing() {
    let cache = ();
    assert!(cache.put(b"key", b"value").is_ok());
    let got = cache.get(b"key").unwrap();
    assert!(got.is_none());
}
