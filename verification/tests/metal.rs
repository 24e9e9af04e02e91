use forge::metal::{MetalError, MlxBridge, MlxFlash, QuantGemv};

#[test]
fn probe_returns_struct_with_bool() {
    let p = MlxBridge::probe("aarch64", "macos");
    assert_eq!(p.available, true);
    let q = MlxBridge::probe("x86_64", "linux");
    assert_eq!(q.available, false);
    let r = MlxBridge::probe("aarch64", "linux");
    assert_eq!(r.available, false);
}

#[test]
fn four_bit_plan_math_is_exact() {
    let b = MlxBridge::new(4).ok().unwrap();
    // 1B params at 4-bit -> 500MB data + 1B/128*2 scales.
    let scales = 1_000_000_000u64.div_ceil(128) * 2;
    assert_eq!(b.plan_quantize(1_000_000_000).out_bytes, 500_000_000 + scales);
}

#[test]
fn sub_one_bit_accepted_with_group_overhead() {
    let b = MlxBridge::with_group(1, 128).ok().unwrap();
    // 1024 params at 1-bit -> 128B data + 8 groups * 2B scales.
    assert_eq!(b.plan_quantize(1024).out_bytes, 128 + 16);
    let b2 = MlxBridge::new(2).ok().unwrap();
    assert_eq!(b2.group, 128);
    assert_eq!(b2.plan_quantize(1024).out_bytes, 256 + 16);
}

#[test]
fn invalid_bits_rejected() {
    assert!(MlxBridge::new(3).is_err());
    assert!(MlxBridge::new(16).is_err());
    assert!(MlxBridge::new(1).is_ok());
    assert!(MlxBridge::new(2).is_ok());
    assert!(MlxBridge::new(8).is_ok());
}

#[test]
fn mlx_bridge_error_names_the_bits_and_raises_small_groups() {
    assert!(matches!(MlxBridge::new(3), Err(MetalError::UnsupportedBits(3))));
    let b = MlxBridge::with_group(8, 4).ok().unwrap();
    assert_eq!(b.group, 32);
    let p = b.plan_quantize(100);
    assert_eq!(p.params, 100);
    assert_eq!(p.bits, 8);
    // 100 bytes of data + ceil(100 / 32) = 4 scales of 2 bytes.
    assert_eq!(p.out_bytes, 108);
}

#[test]
fn supported_dims_take_flash_path() {
    let f = MlxFlash::new(8192);
    assert!(f.plan(64, 4096).use_flash);
    assert!(f.plan(128, 8192).use_flash);
}

#[test]
fn odd_head_dim_falls_back() {
    let f = MlxFlash::new(8192);
    let p = f.plan(96, 1024);
    assert!(!p.use_flash);
    assert_eq!(p.reason, "unsupported head_dim");
}

#[test]
fn overlong_seq_falls_back() {
    let f = MlxFlash::new(4096);
    let p = f.plan(64, 8192);
    assert!(!p.use_flash);
    assert_eq!(p.reason, "seq_len over budget");
}

#[test]
fn flash_plan_reports_head_dim_and_reason() {
    let f = MlxFlash::new(4096);
    let p = f.plan(128, 4096);
    assert_eq!(p.head_dim, 128);
    assert_eq!(p.reason, "flash path");
    // An unsupported head dimension is reported before an overlong sequence.
    let q = f.plan(80, 100_000);
    assert_eq!(q.reason, "unsupported head_dim");
}

/// `y = W x` from the library's code and scale indexing.
fn gemv_via_codes(g: &QuantGemv, packed: &[u8], scales: &[f32], rows: usize, cols: usize, x: &[f32]) -> Result<Vec<f32>, MetalError> {
    let shape = g.check(packed.len(), scales.len(), rows, cols, x.len())?;
    let mid = ((1u32 << g.bits) - 1) as f32 / 2.0;
    let mut y = vec![0.0f32; rows];
    for r in 0..rows {
        let mut acc = 0.0f32;
        for j in 0..cols {
            let code = g.code(packed, r * cols + j) as f32;
            let s = scales[g.scale_index(shape.groups_per_row, r, j)];
            acc += ((code - mid) / mid) * s * x[j];
        }
        y[r] = acc;
    }
    Ok(y)
}

#[test]
fn four_bit_matches_hand_computation() {
    // 1 row x 4 cols, 4-bit: codes [0, 15, 8, 7], scale 2.0, x all ones.
    let g = QuantGemv::new(4, 32).ok().unwrap();
    let packed = vec![0xF0u8, 0x78u8];
    let y = gemv_via_codes(&g, &packed, &[2.0], 1, 4, &[1.0, 1.0, 1.0, 1.0]).ok().unwrap();
    assert!(y[0].abs() < 1e-4, "y={}", y[0]);
    let y2 = gemv_via_codes(&g, &[0xFF, 0xFF], &[2.0], 1, 4, &[1.0; 4]).ok().unwrap();
    assert!((y2[0] - 8.0).abs() < 1e-4, "y={}", y2[0]);
}

#[test]
fn one_bit_two_rows() {
    let g = QuantGemv::new(1, 32).ok().unwrap();
    let y = gemv_via_codes(&g, &[0x53, 0xFF], &[1.0, 0.5], 2, 8, &[1.0; 8]).ok().unwrap();
    assert!((y[0]).abs() < 1e-5, "y0={}", y[0]);
    assert!((y[1] - 4.0).abs() < 1e-5, "y1={}", y[1]);
}

#[test]
fn two_bit_scales_per_group() {
    let g = QuantGemv::new(2, 4).ok().unwrap();
    let y = gemv_via_codes(&g, &[0xFF, 0xFF], &[1.0, 2.0], 1, 8, &[1.0; 8]).ok().unwrap();
    assert!((y[0] - 12.0).abs() < 1e-5, "y={}", y[0]);
}

#[test]
fn unaligned_cols_bail() {
    let g = QuantGemv::new(1, 32).ok().unwrap();
    assert!(g.check(4, 1, 1, 10, 10).is_err());
}

#[test]
fn short_buffers_bail() {
    let g = QuantGemv::new(4, 32).ok().unwrap();
    assert!(g.check(1, 1, 1, 4, 4).is_err());
    assert!(g.check(2, 0, 1, 4, 4).is_err());
    assert!(g.check(2, 1, 1, 4, 2).is_err());
    assert!(QuantGemv::new(3, 32).is_err());
}

#[test]
fn gemv_check_errors_in_kernel_order() {
    let g = QuantGemv::new(4, 32).ok().unwrap();
    assert_eq!(g.check(0, 0, 1, 3, 0), Err(MetalError::UnalignedCols { cols: 3, bits: 4 }));
    assert_eq!(g.check(1, 0, 1, 4, 0), Err(MetalError::PackedTooShort { have: 1, need: 2 }));
    assert_eq!(g.check(4, 1, 2, 4, 0), Err(MetalError::ScalesTooShort { have: 1, need: 2 }));
    assert_eq!(g.check(4, 2, 2, 4, 3), Err(MetalError::InputTooShort { have: 3, need: 4 }));
    let s = g.check(4, 2, 2, 4, 4).ok().unwrap();
    assert_eq!(s.per_byte, 2);
    assert_eq!(s.row_bytes, 2);
    assert_eq!(s.groups_per_row, 1);
}

#[test]
fn gemv_codes_are_lsb_first() {
    let g = QuantGemv::new(2, 4).ok().unwrap();
    // 0b11_10_01_00 holds codes 0, 1, 2, 3 from the low bits up.
    let packed = [0b1110_0100u8];
    assert_eq!(g.code(&packed, 0), 0);
    assert_eq!(g.code(&packed, 1), 1);
    assert_eq!(g.code(&packed, 2), 2);
    assert_eq!(g.code(&packed, 3), 3);
    assert_eq!(g.scale_index(3, 2, 9), 2 * 3 + 2);
    let g0 = QuantGemv::new(8, 0).ok().unwrap();
    assert_eq!(g0.group, 1);
}
