//! GGUF container layout: quantization types, exact tensor sizes, the
//! tensor table with its data offsets, and the little-endian encoding of the
//! header, metadata and tensor records.
use vstd::prelude::*;
use crate::naming::raw_has;
use crate::text::{ascii_lower_chars, contains, ends_with, has_suffix, lower_utf8, str_eq, to_lowercase, unicode_lowercase, utf8};

verus! {

/// GGUF tensor encodings.
#[derive(Debug, Clone, Copy, PartialEq, Eq, Structural)]
#[allow(non_camel_case_types)]
pub enum GGUFQuantType {
    Q4_K,
    Q4_K_M,
    Q4_K_S,
    Q5_K,
    Q5_K_M,
    Q5_K_S,
    Q6_K,
    Q6_K_M,
    Q8_0,
    F16,
    BF16,
    F32,
}

/// The type a lowercased name selects.
pub open spec fn quant_type_of(l: Seq<char>) -> Option<GGUFQuantType> {
    if l == "q4_k"@ {
        Some(GGUFQuantType::Q4_K)
    } else if l == "q4_k_m"@ {
        Some(GGUFQuantType::Q4_K_M)
    } else if l == "q4_k_s"@ {
        Some(GGUFQuantType::Q4_K_S)
    } else if l == "q5_k"@ {
        Some(GGUFQuantType::Q5_K)
    } else if l == "q5_k_m"@ {
        Some(GGUFQuantType::Q5_K_M)
    } else if l == "q5_k_s"@ {
        Some(GGUFQuantType::Q5_K_S)
    } else if l == "q6_k"@ {
        Some(GGUFQuantType::Q6_K)
    } else if l == "q6_k_m"@ {
        Some(GGUFQuantType::Q6_K_M)
    } else if l == "q8_0"@ {
        Some(GGUFQuantType::Q8_0)
    } else if l == "f16"@ {
        Some(GGUFQuantType::F16)
    } else if l == "bf16"@ {
        Some(GGUFQuantType::BF16)
    } else if l == "f32"@ {
        Some(GGUFQuantType::F32)
    } else {
        None
    }
}

/// Display name of a type.
pub open spec fn quant_type_name(t: GGUFQuantType) -> Seq<char> {
    match t {
        GGUFQuantType::Q4_K => "Q4_K"@,
        GGUFQuantType::Q4_K_M => "Q4_K_M"@,
        GGUFQuantType::Q4_K_S => "Q4_K_S"@,
        GGUFQuantType::Q5_K => "Q5_K"@,
        GGUFQuantType::Q5_K_M => "Q5_K_M"@,
        GGUFQuantType::Q5_K_S => "Q5_K_S"@,
        GGUFQuantType::Q6_K => "Q6_K"@,
        GGUFQuantType::Q6_K_M => "Q6_K_M"@,
        GGUFQuantType::Q8_0 => "Q8_0"@,
        GGUFQuantType::F16 => "F16"@,
        GGUFQuantType::BF16 => "BF16"@,
        GGUFQuantType::F32 => "F32"@,
    }
}

/// llama.cpp type id of a type.
pub open spec fn quant_type_id(t: GGUFQuantType) -> u32 {
    match t {
        GGUFQuantType::Q4_K => 10,
        GGUFQuantType::Q4_K_M => 11,
        GGUFQuantType::Q4_K_S => 12,
        GGUFQuantType::Q5_K => 13,
        GGUFQuantType::Q5_K_M => 14,
        GGUFQuantType::Q5_K_S => 15,
        GGUFQuantType::Q6_K => 16,
        GGUFQuantType::Q6_K_M => 17,
        GGUFQuantType::Q8_0 => 7,
        GGUFQuantType::F16 => 1,
        GGUFQuantType::BF16 => 9,
        GGUFQuantType::F32 => 0,
    }
}

/// Whole bits per weight of a type.
pub open spec fn weight_bits(t: GGUFQuantType) -> int {
    match t {
        GGUFQuantType::Q4_K | GGUFQuantType::Q4_K_M | GGUFQuantType::Q4_K_S => 4,
        GGUFQuantType::Q5_K | GGUFQuantType::Q5_K_M | GGUFQuantType::Q5_K_S => 5,
        GGUFQuantType::Q6_K | GGUFQuantType::Q6_K_M => 6,
        GGUFQuantType::Q8_0 => 8,
        GGUFQuantType::F16 | GGUFQuantType::BF16 => 16,
        GGUFQuantType::F32 => 32,
    }
}

impl GGUFQuantType {
    /// The type a lowercased name selects.
    pub fn from_lower(l: &str) -> (r: Option<Self>)
        ensures
            r == quant_type_of(l@),
    {
        if str_eq(l, "q4_k") {
            Some(GGUFQuantType::Q4_K)
        } else if str_eq(l, "q4_k_m") {
            Some(GGUFQuantType::Q4_K_M)
        } else if str_eq(l, "q4_k_s") {
            Some(GGUFQuantType::Q4_K_S)
        } else if str_eq(l, "q5_k") {
            Some(GGUFQuantType::Q5_K)
        } else if str_eq(l, "q5_k_m") {
            Some(GGUFQuantType::Q5_K_M)
        } else if str_eq(l, "q5_k_s") {
            Some(GGUFQuantType::Q5_K_S)
        } else if str_eq(l, "q6_k") {
            Some(GGUFQuantType::Q6_K)
        } else if str_eq(l, "q6_k_m") {
            Some(GGUFQuantType::Q6_K_M)
        } else if str_eq(l, "q8_0") {
            Some(GGUFQuantType::Q8_0)
        } else if str_eq(l, "f16") {
            Some(GGUFQuantType::F16)
        } else if str_eq(l, "bf16") {
            Some(GGUFQuantType::BF16)
        } else if str_eq(l, "f32") {
            Some(GGUFQuantType::F32)
        } else {
            None
        }
    }

    /// The type a name selects, ignoring case.
    pub fn from_str(s: &str) -> (r: Option<Self>)
        ensures
            r == quant_type_of(unicode_lowercase(s@)),
            vstd::utf8::is_ascii_chars(s@) ==> r == quant_type_of(ascii_lower_chars(s@)),
    {
        let low = to_lowercase(s);
        Self::from_lower(low.as_str())
    }

    /// Bits per weight (whole numbers for every type).
    pub fn bits_per_weight(&self) -> (r: u32)
        ensures
            r == weight_bits(*self),
    {
        match self {
            GGUFQuantType::Q4_K | GGUFQuantType::Q4_K_M | GGUFQuantType::Q4_K_S => 4,
            GGUFQuantType::Q5_K | GGUFQuantType::Q5_K_M | GGUFQuantType::Q5_K_S => 5,
            GGUFQuantType::Q6_K | GGUFQuantType::Q6_K_M => 6,
            GGUFQuantType::Q8_0 => 8,
            GGUFQuantType::F16 | GGUFQuantType::BF16 => 16,
            GGUFQuantType::F32 => 32,
        }
    }

    /// Display name.
    pub fn name(&self) -> (r: &'static str)
        ensures
            r@ == quant_type_name(*self),
    {
        match self {
            GGUFQuantType::Q4_K => "Q4_K",
            GGUFQuantType::Q4_K_M => "Q4_K_M",
            GGUFQuantType::Q4_K_S => "Q4_K_S",
            GGUFQuantType::Q5_K => "Q5_K",
            GGUFQuantType::Q5_K_M => "Q5_K_M",
            GGUFQuantType::Q5_K_S => "Q5_K_S",
            GGUFQuantType::Q6_K => "Q6_K",
            GGUFQuantType::Q6_K_M => "Q6_K_M",
            GGUFQuantType::Q8_0 => "Q8_0",
            GGUFQuantType::F16 => "F16",
            GGUFQuantType::BF16 => "BF16",
            GGUFQuantType::F32 => "F32",
        }
    }

    /// llama.cpp type id.
    pub fn to_gguf_id(&self) -> (r: u32)
        ensures
            r == quant_type_id(*self),
    {
        match self {
            GGUFQuantType::Q4_K => 10,
            GGUFQuantType::Q4_K_M => 11,
            GGUFQuantType::Q4_K_S => 12,
            GGUFQuantType::Q5_K => 13,
            GGUFQuantType::Q5_K_M => 14,
            GGUFQuantType::Q5_K_S => 15,
            GGUFQuantType::Q6_K => 16,
            GGUFQuantType::Q6_K_M => 17,
            GGUFQuantType::Q8_0 => 7,
            GGUFQuantType::F16 => 1,
            GGUFQuantType::BF16 => 9,
            GGUFQuantType::F32 => 0,
        }
    }
}

/// Data bytes of a tensor of `e` elements: 34 bytes per started block of 32
/// for Q8_0, 2 or 4 bytes per element for 16- and 32-bit floats, and
/// `ceil(e * bits / 8)` for the K-quants.
pub open spec fn gguf_size_spec(e: int, t: GGUFQuantType) -> int {
    match t {
        GGUFQuantType::Q8_0 => ((e + 31) / 32) * 34,
        GGUFQuantType::F16 | GGUFQuantType::BF16 => e * 2,
        GGUFQuantType::F32 => e * 4,
        _ => (e * weight_bits(t) + 7) / 8,
    }
}

/// Exact data bytes of a tensor; the float types and Q8_0 need the size to
/// fit in `u64`.
pub fn exact_gguf_size(elements: u64, qtype: GGUFQuantType) -> (r: u64)
    requires
        gguf_size_spec(elements as int, qtype) <= u64::MAX,
    ensures
        r == gguf_size_spec(elements as int, qtype),
{
    match qtype {
        GGUFQuantType::Q8_0 => {
            let q = elements / 32;
            let blocks = q + if elements % 32 != 0 {
                1
            } else {
                0
            };
            assert(blocks == (elements + 31) / 32);
            blocks * 34
        },
        GGUFQuantType::F16 | GGUFQuantType::BF16 => elements * 2,
        GGUFQuantType::F32 => elements * 4,
        _ => {
            let b: u64 = qtype.bits_per_weight() as u64;
            assert(b == weight_bits(qtype));
            let whole = elements / 8;
            let rem = elements % 8;
            let tail = (rem * b + 7) / 8;
            assert(whole * b + tail == (elements * b + 7) / 8) by (nonlinear_arith)
                requires
                    whole == elements / 8,
                    rem == elements % 8,
                    tail == (rem * b + 7) / 8,
                    b <= 8,
            ;
            assert(whole * b <= elements) by (nonlinear_arith)
                requires
                    whole == elements / 8,
                    b <= 8,
            ;
            whole * b + tail
        },
    }
}

/// Tensors that stay 16-bit, judged on the lowercased name `l`: norms,
/// biases, embeddings and `wte` tables.
pub open spec fn gguf_passthrough_spec(l: Seq<char>) -> bool {
    raw_has(l, "norm"@) || has_suffix(utf8(l), utf8(".bias"@)) || raw_has(l, "embed"@) || raw_has(l, "wte"@)
}

/// Does a tensor with this lowercased name stay 16-bit?
pub fn passthrough_lower(lower: &str) -> (r: bool)
    ensures
        r == gguf_passthrough_spec(lower@),
{
    let b = lower.as_bytes();
    contains(b, "norm".as_bytes()) || ends_with(b, ".bias".as_bytes()) || contains(b, "embed".as_bytes())
        || contains(b, "wte".as_bytes())
}

/// Does the tensor stay 16-bit in a GGUF file (judged on its lowercase)?
pub fn is_passthrough_tensor(name: &str) -> (r: bool)
    ensures
        r == gguf_passthrough_spec(unicode_lowercase(name@)),
{
    let n = to_lowercase(name);
    passthrough_lower(n.as_str())
}

/// One tensor record of a GGUF file.
#[derive(Debug, Clone)]
pub struct GgufTensorInfo {
    pub name: String,
    pub shape: Vec<u64>,
    pub quant_type: GGUFQuantType,
    /// Byte offset of the tensor's data in the data section.
    pub offset: u64,
    pub size: u64,
}

/// Product of the dimensions.
pub open spec fn dims_product(s: Seq<u64>) -> int
    decreases s.len(),
{
    if s.len() == 0 {
        1
    } else {
        dims_product(s.drop_last()) * s.last()
    }
}

/// Encoding of a tensor in a file quantized to `q`.
pub open spec fn planned_type(name: Seq<char>, q: GGUFQuantType) -> GGUFQuantType {
    if gguf_passthrough_spec(unicode_lowercase(name)) {
        GGUFQuantType::F16
    } else {
        q
    }
}

/// Data bytes of tensor `i` of a plan.
pub open spec fn planned_size(names: Seq<String>, shapes: Seq<Vec<u64>>, q: GGUFQuantType, i: int) -> int {
    gguf_size_spec(dims_product(shapes[i]@), planned_type(names[i]@, q))
}

/// Data bytes of the first `k` tensors of a plan.
pub open spec fn planned_total(names: Seq<String>, shapes: Seq<Vec<u64>>, q: GGUFQuantType, k: int) -> int
    decreases k,
{
    if k <= 0 {
        0
    } else {
        planned_total(names, shapes, q, k - 1) + planned_size(names, shapes, q, k - 1)
    }
}

/// Every product, size and running total of a plan fits in `u64`.
pub open spec fn plan_fits(names: Seq<String>, shapes: Seq<Vec<u64>>, q: GGUFQuantType) -> bool {
    &&& forall|i: int, k: int|
        0 <= i < shapes.len() && 0 <= k <= shapes[i]@.len() ==> #[trigger] dims_product(#[trigger] shapes[i]@.take(k))
            <= u64::MAX
    &&& forall|i: int| 0 <= i < shapes.len() ==> #[trigger] planned_size(names, shapes, q, i) <= u64::MAX
    &&& forall|k: int| 0 <= k <= names.len() ==> #[trigger] planned_total(names, shapes, q, k) <= u64::MAX
}

fn product_u64(s: &Vec<u64>) -> (r: u64)
    requires
        forall|k: int| 0 <= k <= s@.len() ==> #[trigger] dims_product(s@.take(k)) <= u64::MAX,
    ensures
        r == dims_product(s@),
{
    let mut p: u64 = 1;
    let mut i: usize = 0;
    while i < s.len()
        invariant
            i <= s.len(),
            forall|k: int| 0 <= k <= s@.len() ==> #[trigger] dims_product(s@.take(k)) <= u64::MAX,
            p == dims_product(s@.take(i as int)),
        decreases s.len() - i,
    {
        assert(s@.take(i + 1).drop_last() =~= s@.take(i as int));
        assert(dims_product(s@.take(i + 1)) <= u64::MAX);
        p = p * s[i];
        i = i + 1;
    }
    assert(s@.take(s@.len() as int) =~= s@);
    p
}

/// The tensor table of a file quantized to `quant_type`: norms, biases and
/// embeddings stay F16, each tensor has its exact size, and the data of the
/// tensors is laid out back to back from offset 0 in table order.
pub fn plan_tensor_infos(names: &[String], shapes: &[Vec<u64>], quant_type: GGUFQuantType) -> (r: Vec<GgufTensorInfo>)
    requires
        names@.len() == shapes@.len(),
        plan_fits(names@, shapes@, quant_type),
    ensures
        r@.len() == names@.len(),
        forall|i: int|
            0 <= i < r@.len() ==> {
                let t = #[trigger] r@[i];
                &&& t.name@ == names@[i]@
                &&& t.shape@ == shapes@[i]@
                &&& t.quant_type == planned_type(names@[i]@, quant_type)
                &&& t.size == planned_size(names@, shapes@, quant_type, i)
                &&& t.offset == planned_total(names@, shapes@, quant_type, i)
            },
{
    let mut out: Vec<GgufTensorInfo> = Vec::new();
    let mut total: u64 = 0;
    let mut i: usize = 0;
    while i < names.len()
        invariant
            names@.len() == shapes@.len(),
            plan_fits(names@, shapes@, quant_type),
            i <= names.len(),
            out@.len() == i,
            total == planned_total(names@, shapes@, quant_type, i as int),
            forall|k: int|
                0 <= k < out@.len() ==> {
                    let t = #[trigger] out@[k];
                    &&& t.name@ == names@[k]@
                    &&& t.shape@ == shapes@[k]@
                    &&& t.quant_type == planned_type(names@[k]@, quant_type)
                    &&& t.size == planned_size(names@, shapes@, quant_type, k)
                    &&& t.offset == planned_total(names@, shapes@, quant_type, k)
                },
        decreases names.len() - i,
    {
        let pass = is_passthrough_tensor(names[i].as_str());
        let t = if pass {
            GGUFQuantType::F16
        } else {
            quant_type
        };
        assert(forall|k: int| 0 <= k <= shapes@[i as int]@.len() ==> #[trigger] dims_product(shapes@[i as int]@.take(k)) <= u64::MAX);
        let e = product_u64(&shapes[i]);
        assert(planned_size(names@, shapes@, quant_type, i as int) <= u64::MAX);
        let size = exact_gguf_size(e, t);
        assert(planned_total(names@, shapes@, quant_type, i + 1) <= u64::MAX);
        out.push(GgufTensorInfo { name: names[i].clone(), shape: shapes[i].clone(), quant_type: t, offset: total, size });
        total = total + size;
        i = i + 1;
    }
    out
}

/// The plan's records are contiguous: the first starts at 0 and each one
/// starts where the previous one ends.
pub proof fn lemma_plan_contiguous(names: Seq<String>, shapes: Seq<Vec<u64>>, q: GGUFQuantType, k: int)
    requires
        0 < k,
    ensures
        planned_total(names, shapes, q, 0) == 0,
        planned_total(names, shapes, q, k) == planned_total(names, shapes, q, k - 1) + planned_size(
            names,
            shapes,
            q,
            k - 1,
        ),
{
}

// ---------------------------------------------------------------------------
// Little-endian records
// ---------------------------------------------------------------------------

/// Little-endian bytes of a `u64`.
pub open spec fn le_u64(x: u64) -> Seq<u8> {
    Seq::new(8, |i: int| ((x >> ((8 * i) as u64)) & 0xffu64) as u8)
}

/// Little-endian bytes of a `u32`.
pub open spec fn le_u32(x: u32) -> Seq<u8> {
    Seq::new(4, |i: int| ((x >> ((8 * i) as u32)) & 0xffu32) as u8)
}

fn push_u64(out: &mut Vec<u8>, x: u64)
    ensures
        final(out)@ == old(out)@ + le_u64(x),
{
    let mut i: u64 = 0;
    while i < 8
        invariant
            i <= 8,
            out@ == old(out)@ + le_u64(x).take(i as int),
        decreases 8 - i,
    {
        let b = ((x >> (8 * i)) & 0xffu64) as u8;
        out.push(b);
        assert(le_u64(x).take(i + 1) =~= le_u64(x).take(i as int).push(b));
        i = i + 1;
    }
    assert(le_u64(x).take(8) =~= le_u64(x));
}

fn push_u32(out: &mut Vec<u8>, x: u32)
    ensures
        final(out)@ == old(out)@ + le_u32(x),
{
    let mut i: u32 = 0;
    while i < 4
        invariant
            i <= 4,
            out@ == old(out)@ + le_u32(x).take(i as int),
        decreases 4 - i,
    {
        let b = ((x >> (8 * i)) & 0xffu32) as u8;
        out.push(b);
        assert(le_u32(x).take(i + 1) =~= le_u32(x).take(i as int).push(b));
        i = i + 1;
    }
    assert(le_u32(x).take(4) =~= le_u32(x));
}

fn push_bytes(out: &mut Vec<u8>, b: &[u8])
    ensures
        final(out)@ == old(out)@ + b@,
{
    let mut i: usize = 0;
    while i < b.len()
        invariant
            i <= b.len(),
            out@ == old(out)@ + b@.take(i as int),
        decreases b.len() - i,
    {
        out.push(b[i]);
        assert(b@.take(i + 1) =~= b@.take(i as int).push(b@[i as int]));
        i = i + 1;
    }
    assert(b@.take(b@.len() as int) =~= b@);
}

/// A string as GGUF stores it: its byte length, then its UTF-8 bytes.
pub open spec fn gguf_string(s: Seq<char>) -> Seq<u8> {
    le_u64(utf8(s).len() as u64) + utf8(s)
}

/// Bytes of the dimensions, in order.
pub open spec fn dims_bytes(d: Seq<u64>) -> Seq<u8>
    decreases d.len(),
{
    if d.len() == 0 {
        Seq::empty()
    } else {
        dims_bytes(d.drop_last()) + le_u64(d.last())
    }
}

/// A tensor record: name, number of dimensions (as `u32`), each dimension,
/// type id, data offset.
pub open spec fn tensor_info_bytes(t: GgufTensorInfo) -> Seq<u8> {
    gguf_string(t.name@) + le_u32(t.shape@.len() as u32) + dims_bytes(t.shape@) + le_u32(quant_type_id(t.quant_type))
        + le_u64(t.offset)
}

fn push_string(out: &mut Vec<u8>, s: &str)
    ensures
        final(out)@ == old(out)@ + gguf_string(s@),
{
    let b = s.as_bytes();
    push_u64(out, b.len() as u64);
    push_bytes(out, b);
    assert(old(out)@ + le_u64(b@.len() as u64) + b@ =~= old(out)@ + gguf_string(s@));
}

/// Appends a tensor record.
pub fn write_tensor_info(out: &mut Vec<u8>, tensor: &GgufTensorInfo)
    ensures
        final(out)@ == old(out)@ + tensor_info_bytes(*tensor),
{
    let ghost start = out@;
    push_string(out, tensor.name.as_str());
    let ghost s1 = out@;
    push_u32(out, tensor.shape.len() as u32);
    let ghost s2 = out@;
    let mut i: usize = 0;
    while i < tensor.shape.len()
        invariant
            i <= tensor.shape@.len(),
            out@ == s2 + dims_bytes(tensor.shape@.take(i as int)),
        decreases tensor.shape.len() - i,
    {
        let ghost before = out@;
        push_u64(out, tensor.shape[i]);
        assert(tensor.shape@.take(i + 1).drop_last() =~= tensor.shape@.take(i as int));
        assert(s2 + dims_bytes(tensor.shape@.take(i + 1)) =~= before + le_u64(tensor.shape@[i as int]));
        i = i + 1;
    }
    assert(tensor.shape@.take(tensor.shape@.len() as int) =~= tensor.shape@);
    push_u32(out, tensor.quant_type.to_gguf_id());
    push_u64(out, tensor.offset);
    assert(out@ =~= start + tensor_info_bytes(*tensor));
}

/// A metadata value as the GGUF writer stores it.
#[derive(Debug, Clone)]
pub enum GgufValue {
    /// A string (type 4).
    Text(String),
    /// An unsigned integer (type 5).
    UInt(u64),
    /// A negative integer (type 6).
    Int(i64),
    /// A double, by its IEEE-754 bits (type 7).
    Float(u64),
    /// A boolean (type 8).
    Bool(bool),
}

/// A metadata entry: key, type id, payload.
pub open spec fn kv_bytes(key: Seq<char>, v: GgufValue) -> Seq<u8> {
    gguf_string(key) + match v {
        GgufValue::Text(s) => le_u32(4) + gguf_string(s@),
        GgufValue::UInt(x) => le_u32(5) + le_u64(x),
        GgufValue::Int(x) => le_u32(6) + le_u64(x as u64),
        GgufValue::Float(bits) => le_u32(7) + le_u64(bits),
        GgufValue::Bool(b) => le_u32(8) + seq![if b { 1u8 } else { 0u8 }],
    }
}

/// Appends a metadata entry.
pub fn write_kv(out: &mut Vec<u8>, key: &str, value: &GgufValue)
    ensures
        final(out)@ == old(out)@ + kv_bytes(key@, *value),
{
    let ghost start = out@;
    push_string(out, key);
    let ghost s1 = out@;
    match value {
        GgufValue::Text(s) => {
            push_u32(out, 4);
            push_string(out, s.as_str());
        },
        GgufValue::UInt(x) => {
            push_u32(out, 5);
            push_u64(out, *x);
        },
        GgufValue::Int(x) => {
            push_u32(out, 6);
            push_u64(out, *x as u64);
        },
        GgufValue::Float(bits) => {
            push_u32(out, 7);
            push_u64(out, *bits);
        },
        GgufValue::Bool(b) => {
            push_u32(out, 8);
            out.push(if *b {
                1u8
            } else {
                0u8
            });
        },
    }
    assert(out@ =~= start + kv_bytes(key@, *value));
}

/// File header: magic `GGUF`, version 3, tensor count, metadata count.
pub open spec fn header_bytes(n_tensors: u64, n_kv: u64) -> Seq<u8> {
    seq![71u8, 71u8, 85u8, 70u8] + le_u32(3) + le_u64(n_tensors) + le_u64(n_kv)
}

/// Appends the file header.
pub fn write_header(out: &mut Vec<u8>, n_tensors: u64, n_kv: u64)
    ensures
        final(out)@ == old(out)@ + header_bytes(n_tensors, n_kv),
{
    let ghost start = out@;
    out.push(71u8);
    out.push(71u8);
    out.push(85u8);
    out.push(70u8);
    push_u32(out, 3);
    push_u64(out, n_tensors);
    push_u64(out, n_kv);
    assert(out@ =~= start + header_bytes(n_tensors, n_kv));
}

/// Zero bytes that bring position `pos` to a multiple of 32.
pub fn alignment_padding(pos: u64) -> (r: u64)
    ensures
        r == (32 - pos % 32) % 32,
        r < 32,
        (pos + r) % 32 == 0,
{
    (32 - pos % 32) % 32
}

/// Metadata entries, in order.
pub open spec fn kvs_bytes(kvs: Seq<(String, GgufValue)>) -> Seq<u8>
    decreases kvs.len(),
{
    if kvs.len() == 0 {
        Seq::empty()
    } else {
        kvs_bytes(kvs.drop_last()) + kv_bytes(kvs.last().0@, kvs.last().1)
    }
}

/// Tensor records, in order.
pub open spec fn infos_bytes(ts: Seq<GgufTensorInfo>) -> Seq<u8>
    decreases ts.len(),
{
    if ts.len() == 0 {
        Seq::empty()
    } else {
        infos_bytes(ts.drop_last()) + tensor_info_bytes(ts.last())
    }
}

/// Everything before the data section: header, metadata, tensor records.
pub open spec fn prefix_body(kvs: Seq<(String, GgufValue)>, ts: Seq<GgufTensorInfo>) -> Seq<u8> {
    header_bytes(ts.len() as u64, kvs.len() as u64) + kvs_bytes(kvs) + infos_bytes(ts)
}

/// The bytes of a GGUF file before its tensor data: header, metadata in the
/// given order, tensor records, then zeros up to a multiple of 32 bytes.
pub fn encode_gguf_prefix(kvs: &[(String, GgufValue)], tensors: &[GgufTensorInfo]) -> (r: Vec<u8>)
    ensures
        r@.len() % 32 == 0,
        prefix_body(kvs@, tensors@).len() <= r@.len() < prefix_body(kvs@, tensors@).len() + 32,
        r@.subrange(0, prefix_body(kvs@, tensors@).len() as int) == prefix_body(kvs@, tensors@),
        forall|i: int| prefix_body(kvs@, tensors@).len() <= i < r@.len() ==> r@[i] == 0u8,
{
    let mut out: Vec<u8> = Vec::new();
    write_header(&mut out, tensors.len() as u64, kvs.len() as u64);
    let ghost h = out@;
    let mut i: usize = 0;
    while i < kvs.len()
        invariant
            i <= kvs@.len(),
            out@ == h + kvs_bytes(kvs@.take(i as int)),
        decreases kvs.len() - i,
    {
        let ghost before = out@;
        write_kv(&mut out, kvs[i].0.as_str(), &kvs[i].1);
        assert(kvs@.take(i + 1).drop_last() =~= kvs@.take(i as int));
        assert(out@ =~= h + kvs_bytes(kvs@.take(i + 1)));
        i = i + 1;
    }
    assert(kvs@.take(kvs@.len() as int) =~= kvs@);
    let ghost hk = out@;
    let mut j: usize = 0;
    while j < tensors.len()
        invariant
            j <= tensors@.len(),
            out@ == hk + infos_bytes(tensors@.take(j as int)),
        decreases tensors.len() - j,
    {
        write_tensor_info(&mut out, &tensors[j]);
        assert(tensors@.take(j + 1).drop_last() =~= tensors@.take(j as int));
        assert(out@ =~= hk + infos_bytes(tensors@.take(j + 1)));
        j = j + 1;
    }
    assert(tensors@.take(tensors@.len() as int) =~= tensors@);
    let ghost body = out@;
    assert(body =~= prefix_body(kvs@, tensors@));
    let pad = alignment_padding(out.len() as u64);
    let mut k: u64 = 0;
    while k < pad
        invariant
            pad < 32,
            k <= pad,
            out@.len() == body.len() + k,
            out@.subrange(0, body.len() as int) == body,
            forall|t: int| body.len() <= t < out@.len() ==> out@[t] == 0u8,
        decreases pad - k,
    {
        out.push(0u8);
        assert(out@.subrange(0, body.len() as int) =~= body);
        k = k + 1;
    }
    out
}

/// GGUF reader handle.
pub struct GgufReader;

impl GgufReader {
    /// Opens a file for reading; reading is not implemented, so this always
    /// succeeds without touching the path.
    pub fn open(path: &str) -> (r: Result<Self, ()>)
        ensures
            r is Ok,
    {
        Ok(GgufReader)
    }
}

/// The width of every type is the one its name gives: the digit after `Q`
/// for the block quantizations, the trailing number for the float types.
/// So a K-quant tensor of `e` elements takes `ceil(e * digit / 8)` bytes,
/// and a float tensor `e * width / 8` bytes.
pub proof fn lemma_weight_bits_follow_name(t: GGUFQuantType, e: nat)
    ensures
        ({
            let n = quant_type_name(t);
            &&& n.len() >= 3
            &&& n[0] == 'Q' ==> weight_bits(t) == (n[1] as int) - ('0' as int)
            &&& n[0] != 'Q' ==> weight_bits(t) == 10 * ((n[n.len() - 2] as int) - ('0' as int)) + ((n[n.len()
                - 1] as int) - ('0' as int))
            &&& n[0] == 'Q' && n[3] == 'K' ==> gguf_size_spec(e as int, t) == (e * ((n[1] as int) - ('0' as int))
                + 7) / 8
            &&& n[0] != 'Q' ==> 8 * gguf_size_spec(e as int, t) == e * weight_bits(t)
        }),
{
    reveal_strlit("Q4_K");
    reveal_strlit("Q4_K_M");
    reveal_strlit("Q4_K_S");
    reveal_strlit("Q5_K");
    reveal_strlit("Q5_K_M");
    reveal_strlit("Q5_K_S");
    reveal_strlit("Q6_K");
    reveal_strlit("Q6_K_M");
    reveal_strlit("Q8_0");
    reveal_strlit("F16");
    reveal_strlit("BF16");
    reveal_strlit("F32");
}


/// Parsing a display name gives the type back.
pub proof fn lemma_quant_type_name_roundtrip(t: GGUFQuantType)
    ensures
        vstd::utf8::is_ascii_chars(quant_type_name(t)),
        quant_type_of(ascii_lower_chars(quant_type_name(t))) == Some(t),
{
    reveal_strlit("Q4_K");
    reveal_strlit("Q4_K_M");
    reveal_strlit("Q4_K_S");
    reveal_strlit("Q5_K");
    reveal_strlit("Q5_K_M");
    reveal_strlit("Q5_K_S");
    reveal_strlit("Q6_K");
    reveal_strlit("Q6_K_M");
    reveal_strlit("Q8_0");
    reveal_strlit("F16");
    reveal_strlit("BF16");
    reveal_strlit("F32");
    reveal_strlit("q4_k");
    reveal_strlit("q4_k_m");
    reveal_strlit("q4_k_s");
    reveal_strlit("q5_k");
    reveal_strlit("q5_k_m");
    reveal_strlit("q5_k_s");
    reveal_strlit("q6_k");
    reveal_strlit("q6_k_m");
    reveal_strlit("q8_0");
    reveal_strlit("f16");
    reveal_strlit("bf16");
    reveal_strlit("f32");
    let n = quant_type_name(t);
    let l = ascii_lower_chars(n);
    assert(vstd::utf8::is_ascii_chars(n));
    match t {
        GGUFQuantType::Q4_K => {
            assert(l =~= "q4_k"@);
        },
        GGUFQuantType::Q4_K_M => {
            assert(l =~= "q4_k_m"@);
        },
        GGUFQuantType::Q4_K_S => {
            assert(l =~= "q4_k_s"@);
            assert(l[5] != "q4_k_m"@[5]);
        },
        GGUFQuantType::Q5_K => {
            assert(l =~= "q5_k"@);
            assert(l[1] != "q4_k"@[1]);
        },
        GGUFQuantType::Q5_K_M => {
            assert(l =~= "q5_k_m"@);
            assert(l[1] != "q4_k_m"@[1]);
            assert(l[1] != "q4_k_s"@[1]);
        },
        GGUFQuantType::Q5_K_S => {
            assert(l =~= "q5_k_s"@);
            assert(l[1] != "q4_k_m"@[1]);
            assert(l[1] != "q4_k_s"@[1]);
            assert(l[5] != "q5_k_m"@[5]);
        },
        GGUFQuantType::Q6_K => {
            assert(l =~= "q6_k"@);
            assert(l[1] != "q4_k"@[1]);
            assert(l[1] != "q5_k"@[1]);
        },
        GGUFQuantType::Q6_K_M => {
            assert(l =~= "q6_k_m"@);
            assert(l[1] != "q4_k_m"@[1]);
            assert(l[1] != "q4_k_s"@[1]);
            assert(l[1] != "q5_k_m"@[1]);
            assert(l[1] != "q5_k_s"@[1]);
        },
        GGUFQuantType::Q8_0 => {
            assert(l =~= "q8_0"@);
            assert(l[1] != "q4_k"@[1]);
            assert(l[1] != "q5_k"@[1]);
            assert(l[1] != "q6_k"@[1]);
        },
        GGUFQuantType::F16 => {
            assert(l =~= "f16"@);
        },
        GGUFQuantType::BF16 => {
            assert(l =~= "bf16"@);
            assert(l[0] != "q4_k"@[0]);
            assert(l[0] != "q5_k"@[0]);
            assert(l[0] != "q6_k"@[0]);
            assert(l[0] != "q8_0"@[0]);
        },
        GGUFQuantType::F32 => {
            assert(l =~= "f32"@);
            assert(l[1] != "f16"@[1]);
        },
    }
}

} // verus!
