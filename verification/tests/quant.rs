use forge::kv_cache::{KvCacheConfig, KvCacheOrganizer, KvQuant};
use forge::mlx_pack::{pack_uniform, packed_len, scales_len, unpack_uniform, PackError};
use forge::onecomp::OneCompQuantizer;
use forge::quant_config::{
    Af1Quantizer, ArbQuantizer, BsqatQuantizer, BtcError, BtcQuantizer, DbellQuantizer, HbllmQuantizer,
    JangFormat, JangQuantizer, LittleBitQuantizer, NanoQuantQuantizer, QueptQuantizer,
};

#[test]
fn memory_fits() {
    let org = KvCacheOrganizer::new(32, 32, 128);
    let bytes = org.memory_bytes(4096);
    assert!(bytes > 0);
    assert!(bytes < 10 * 1024 * 1024 * 1024);
}

#[test]
fn kv_memory_exact_per_precision() {
    let mut org = KvCacheOrganizer::new(2, 4, 8);
    // 100 tokens: 2*4*8*2 = 128 elements per token; blocks of 64 -> 2 blocks.
    assert_eq!(org.memory_bytes(100), 100 * 128 + 2 * 2 * 4 * 4);
    org.config.quant = KvQuant::Fp16;
    assert_eq!(org.memory_bytes(100), 100 * 128 * 2 + 2 * 2 * 4 * 4);
    org.config.block_size = 100;
    assert_eq!(org.memory_bytes(100), 100 * 128 * 2 + 2 * 4 * 4);
    assert_eq!(org.memory_bytes(0), 0);
    let d = KvCacheConfig::default();
    assert_eq!(d.block_size, 64);
    assert_eq!(d.quant, KvQuant::Q4);
    assert_eq!(d.max_blocks, 0);
}

#[test]
fn packed_len_is_exact() {
    assert_eq!(packed_len(1024, 1).unwrap(), 128);
    assert_eq!(packed_len(1024, 2).unwrap(), 256);
    assert_eq!(packed_len(1024, 4).unwrap(), 512);
    assert_eq!(packed_len(1024, 8).unwrap(), 1024);
    assert!(packed_len(1024, 3).is_err());
}

#[test]
fn scales_len_g128() {
    assert_eq!(scales_len(1024, 128), 16);
    assert_eq!(scales_len(100, 128), 2);
}

#[test]
fn roundtrip_one_two_four_bit() {
    for bits in [1u8, 2, 4] {
        let levels = 1u8 << bits;
        let codes: Vec<u8> = (0..300).map(|i| (i % levels as usize) as u8).collect();
        let packed = pack_uniform(&codes, bits).unwrap();
        assert_eq!(packed.len(), packed_len(codes.len(), bits).unwrap());
        let back = unpack_uniform(&packed, bits, codes.len()).unwrap();
        assert_eq!(back, codes);
    }
}

#[test]
fn pack_masks_codes_and_rejects_bad_widths() {
    // Only the low bits of each code are stored.
    let packed = pack_uniform(&[0xFF, 0x00, 0x01], 2).unwrap();
    assert_eq!(packed, vec![0b01_00_11]);
    assert_eq!(unpack_uniform(&packed, 2, 3).unwrap(), vec![3, 0, 1]);
    // Asking for more codes than stored gives what is there.
    assert_eq!(unpack_uniform(&packed, 2, 10).unwrap().len(), 4);
    assert_eq!(pack_uniform(&[1, 2], 3), Err(PackError::UnsupportedBits(3)));
    assert_eq!(unpack_uniform(&[1, 2], 5, 2), Err(PackError::UnsupportedBits(5)));
    assert_eq!(scales_len(10, 0), 20);
}

#[test]
fn planner_fits_budget_by_demoting_largest() {
    let q = OneCompQuantizer::new(4, 2, 128, 1000);
    // 3000 elems at 4-bit = 1500B > 1000B budget -> demote largest (2000) to 2-bit: 500+500=1000.
    let bits = q.plan_bits(&[1000, 2000]);
    assert_eq!(bits, vec![4, 2]);
    let bytes: u64 = [1000usize, 2000usize]
        .iter()
        .zip(bits.iter())
        .map(|(l, b)| OneCompQuantizer::planned_bytes(*l, *b))
        .sum();
    assert!(bytes <= 1000);
}

#[test]
fn planner_keeps_all_hi_when_budget_allows() {
    let q = OneCompQuantizer::default_4bit();
    assert_eq!(q.plan_bits(&[64, 128]), vec![4, 4]);
}

#[test]
fn planner_demotes_in_size_order_with_ties_by_index() {
    let q = OneCompQuantizer::new(8, 1, 128, 2100);
    // All at 8 bits: 1000+1000+500 = 2500 bytes. Demoting index 0 (first of the
    // two largest) saves 875 -> 1625 <= 2100.
    assert_eq!(q.plan_bits(&[1000, 1000, 500]), vec![1, 8, 8]);
    // A budget nothing meets demotes everything.
    let tight = OneCompQuantizer::new(8, 1, 128, 1);
    assert_eq!(tight.plan_bits(&[10, 20, 30]), vec![1, 1, 1]);
    assert_eq!(tight.plan_bits(&[]), Vec::<u8>::new());
}

#[test]
fn onecomp_new_clamps_widths_and_group() {
    let q = OneCompQuantizer::new(12, 9, 4, 7);
    assert_eq!(q.hi_bits, 8);
    assert_eq!(q.lo_bits, 8);
    assert_eq!(q.group, 16);
    assert_eq!(q.budget_bytes, 7);
    let q2 = OneCompQuantizer::new(3, 6, 64, 0);
    assert_eq!(q2.lo_bits, 3);
    assert_eq!(OneCompQuantizer::planned_bytes(3, 3), 2);
    assert_eq!(OneCompQuantizer::planned_bytes(8, 1), 1);
}

#[test]
fn quantizer_constructors_clamp() {
    let a = Af1Quantizer::new(4, 8);
    assert_eq!((a.bits, a.group), (1, 32));
    let r = ArbQuantizer::new(5, true, 64);
    assert_eq!((r.bits, r.reorder, r.group), (2, true, 64));
    let b = BsqatQuantizer::new(1, 4);
    assert_eq!((b.bits, b.block), (2, 16));
    let t = BtcQuantizer::new(9, 8, 10);
    assert_eq!((t.bits, t.codebook, t.group), (3, 8, 32));
    let d = DbellQuantizer::new(0, 100);
    assert_eq!((d.bits, d.group), (1, 100));
    let l = LittleBitQuantizer::new(2, false, 0);
    assert_eq!((l.bits, l.residual, l.group), (1, false, 32));
    let n = NanoQuantQuantizer::new(0, 10_000, 31);
    assert_eq!((n.bits, n.iters, n.group), (1, 500, 32));
    let j = JangQuantizer::new("JANG_4M", JangFormat::Gguf);
    assert_eq!(j.profile, "JANG_4M");
    assert_eq!(j.output_format, JangFormat::Gguf);
}

#[test]
fn btc_codebook_must_have_two_to_the_bits_entries() {
    let q = BtcQuantizer::new(1, 256, 128);
    assert!(matches!(q.entries(), Err(BtcError::CodebookMismatch { codebook: 256, want: 2 })));
    let ok = BtcQuantizer::new(2, 4, 64);
    assert!(matches!(ok.entries(), Ok(4)));
}

#[test]
fn hbllm_levels_clamp_to_stages() {
    let q = HbllmQuantizer::new(99, 128); // clamped to 8 levels, 7 stages
    assert_eq!(q.levels, 8);
    assert_eq!(q.work_len(), 128);
    assert_eq!(q.stages(), 7);
    let q2 = HbllmQuantizer::new(3, 100);
    assert_eq!(q2.work_len(), 128);
    assert_eq!(q2.stages(), 3);
    let q3 = HbllmQuantizer::new(0, 16);
    assert_eq!(q3.group, 32);
    assert_eq!(q3.stages(), 1);
}

#[test]
fn quept_widths_sorted_distinct_with_defaults() {
    let q = QueptQuantizer::new(vec![8, 2, 8, 20, 0], 8, 0);
    assert_eq!(q.widths, vec![1, 2, 8]);
    assert_eq!(q.block, 16);
    assert_eq!(q.rank, 1);
    let e = QueptQuantizer::new(vec![], 256, 3);
    assert_eq!(e.widths, vec![4, 8]);
    let d = QueptQuantizer::default_elastic();
    assert_eq!(d.widths, vec![4, 8]);
    assert_eq!(d.block, 128);
    assert_eq!(d.rank, 2);
}

#[test]
fn bsqat_nibbles_roundtrip() {
    let q = BsqatQuantizer::new(4, 16);
    let codes: Vec<u8> = vec![1, 15, 0, 7, 9];
    let packed = q.pack_block(&codes);
    assert_eq!(packed, vec![0xF1, 0x70, 0x09]);
    assert_eq!(q.unpack_codes(&packed, codes.len()), codes);
    // Byte-wide widths store one code per byte.
    let q8 = BsqatQuantizer::new(8, 16);
    assert_eq!(q8.pack_block(&codes), codes);
    assert_eq!(q8.unpack_codes(&codes, 3), vec![1, 15, 0]);
}
