//! The neural upscaler's plan: where the layers' weights stand in the packed
//! model, what the layers are told, and in which order they run.

use vstd::prelude::*;

verus! {

pub const INPUT_W: u32 = 320;
pub const INPUT_H: u32 = 200;
/// Bytes of a picture that goes in.
pub const INPUT_SIZE: usize = 256_000;
pub const OUTPUT_WIDTH: u32 = 1280;
pub const OUTPUT_HEIGHT: u32 = 800;
/// Bytes of a picture that comes out.
pub const OUTPUT_SIZE: usize = 4_096_000;
/// Bytes of a row of a picture that comes out.
pub const OUTPUT_ROW_BYTES: u64 = 5120;
/// Bytes of the activations between two layers: 16 vectors of 8 bytes per
/// pixel.
pub const ACTIVATION_BYTES: u64 = 8_192_000;
/// The distance of the layers' parameters.
pub const UNIFORM_STRIDE: u64 = 256;
/// Bytes of the packed model.
pub const MODEL_SIZE: usize = 1_244_000;
pub const LAYER_COUNT: usize = 18;
/// The workgroup storage that the fast kernel of the middle layers needs.
pub const FAST_MID_STORAGE: u32 = 23_040;

/// Where a layer's weights stand in the model: matrices in units of 32 bytes,
/// biases and slopes in units of 8 (0 for no slopes), and how many vectors of
/// four channels go out and in.
#[derive(Clone, Copy, Debug, PartialEq, Eq, Structural)]
pub struct LayerMeta {
    pub mat_base: u32,
    pub bias_base: u32,
    pub slope_base: u32,
    pub output_vecs: u32,
    pub input_vecs: u32,
}

/// Layer `k` of 18: the first takes one vector, the last gives twelve and has
/// no slopes.
pub open spec fn layer(k: int) -> LayerMeta {
    LayerMeta {
        mat_base: (if k == 0 { 0 } else { 144 + 2304 * (k - 1) }) as u32,
        bias_base: (154944 + 32 * k) as u32,
        slope_base: (if k == 17 { 0 } else { 154960 + 32 * k }) as u32,
        output_vecs: if k == 17 { 12 } else { 16 },
        input_vecs: if k == 0 { 1 } else { 16 },
    }
}

/// Layer `k`.
pub fn layer_meta(k: usize) -> (m: LayerMeta)
    requires
        k < 18,
    ensures
        m == layer(k as int),
{
    LayerMeta {
        mat_base: if k == 0 {
            0
        } else {
            144 + 2304 * (k as u32 - 1)
        },
        bias_base: 154944 + 32 * k as u32,
        slope_base: if k == 17 {
            0
        } else {
            154960 + 32 * k as u32
        },
        output_vecs: if k == 17 {
            12
        } else {
            16
        },
        input_vecs: if k == 0 {
            1
        } else {
            16
        },
    }
}

/// All layers.
pub fn layers() -> (r: Vec<LayerMeta>)
    ensures
        r@ == Seq::new(18, |k: int| layer(k)),
{
    let mut r: Vec<LayerMeta> = Vec::new();
    for k in 0..18usize
        invariant
            r@.len() == k,
            forall|i: int| 0 <= i < k ==> #[trigger] r@[i] == layer(i),
    {
        r.push(layer_meta(k));
    }
    assert(r@ =~= Seq::new(18, |k: int| layer(k)));
    r
}

/// What of a layer does not fit into the model.
#[derive(Clone, Copy, Debug, PartialEq, Eq, Structural)]
pub enum LayerFault {
    Matrices(usize),
    Bias(usize),
    Slope(usize),
}

/// The byte behind a layer's matrices.
pub open spec fn matrix_end(m: LayerMeta) -> int {
    32 * (m.mat_base + 9 * m.input_vecs * m.output_vecs)
}

/// The byte behind the vectors at a base.
pub open spec fn vectors_end(base: int, m: LayerMeta) -> int {
    8 * (base + m.output_vecs)
}

/// What of a layer does not fit into a model of `len` bytes, if anything.
pub open spec fn layer_fault(k: int, len: int) -> Option<LayerFault> {
    let m = layer(k);
    if matrix_end(m) > len {
        Some(LayerFault::Matrices(k as usize))
    } else if vectors_end(m.bias_base as int, m) > len {
        Some(LayerFault::Bias(k as usize))
    } else if m.slope_base != 0 && vectors_end(m.slope_base as int, m) > len {
        Some(LayerFault::Slope(k as usize))
    } else {
        None
    }
}

/// The first fault among the first `n` layers, if there is one.
pub open spec fn first_fault(len: int, n: int) -> Option<LayerFault>
    decreases n,
{
    if n <= 0 {
        None
    } else {
        match first_fault(len, n - 1) {
            Some(f) => Some(f),
            None => layer_fault(n - 1, len),
        }
    }
}

/// How many matrices the layers have.
proof fn lemma_matrices(k: int)
    requires
        0 <= k < 18,
    ensures
        layer(k).input_vecs * layer(k).output_vecs <= 256,
        9 * layer(k).input_vecs * layer(k).output_vecs == if k == 0 {
            144int
        } else if k == 17 {
            1728
        } else {
            2304
        },
{
    let a = layer(k).input_vecs as int;
    let b = layer(k).output_vecs as int;
    if k == 0 {
        assert(a * b == 16 && 9 * a * b == 144) by (nonlinear_arith)
            requires
                a == 1,
                b == 16,
        ;
    } else if k == 17 {
        assert(a * b == 192 && 9 * a * b == 1728) by (nonlinear_arith)
            requires
                a == 16,
                b == 12,
        ;
    } else {
        assert(a * b == 256 && 9 * a * b == 2304) by (nonlinear_arith)
            requires
                a == 16,
                b == 16,
        ;
    }
}

fn check_layer(k: usize, len: usize) -> (f: Option<LayerFault>)
    requires
        k < 18,
    ensures
        f == layer_fault(k as int, len as int),
{
    let m: LayerMeta = layer_meta(k);
    let len: u64 = len as u64;
    let vecs: u64 = m.output_vecs as u64;
    proof {
        lemma_matrices(k as int);
    }
    let matrices: u64 = 9 * m.input_vecs as u64 * vecs;
    if 32 * (m.mat_base as u64 + matrices) > len {
        Some(LayerFault::Matrices(k))
    } else if 8 * (m.bias_base as u64 + vecs) > len {
        Some(LayerFault::Bias(k))
    } else if m.slope_base != 0 && 8 * (m.slope_base as u64 + vecs) > len {
        Some(LayerFault::Slope(k))
    } else {
        None
    }
}

/// Check that all layers stand inside a model of `len` bytes; the first that
/// does not is told.
pub fn validate_model_metadata(len: usize) -> (r: Result<(), LayerFault>)
    ensures
        r == match first_fault(len as int, 18) {
            None => Ok::<(), LayerFault>(()),
            Some(f) => Err::<(), LayerFault>(f),
        },
{
    for k in 0..18usize
        invariant
            first_fault(len as int, k as int) is None,
    {
        if let Some(f) = check_layer(k, len) {
            proof {
                lemma_fault_stays(len as int, k + 1, 18);
            }
            return Err(f);
        }
    }
    Ok(())
}

/// A fault stays the first one.
proof fn lemma_fault_stays(len: int, n: int, m: int)
    requires
        0 <= n <= m,
        first_fault(len, n) is Some,
    ensures
        first_fault(len, m) == first_fault(len, n),
    decreases m,
{
    if n < m {
        lemma_fault_stays(len, n, m - 1);
    }
}

/// Where the parameters of a layer stand.
pub fn uniform_offset(layer: u32) -> (o: u32)
    requires
        layer < 0x100_0000,
    ensures
        o == 256 * layer,
{
    layer * 256
}

/// Word `w` of a layer's parameters.
pub open spec fn uniform_word(k: int, w: int) -> u32 {
    if w == 0 {
        layer(k).mat_base
    } else if w == 1 {
        layer(k).bias_base
    } else if w == 2 {
        layer(k).slope_base
    } else if w == 3 {
        INPUT_W
    } else if w == 4 {
        INPUT_H
    } else {
        0
    }
}

/// Byte `i` of a word, lowest first.
pub open spec fn word_byte(word: u32, i: int) -> u8 {
    if i == 0 {
        (word % 0x100) as u8
    } else if i == 1 {
        (word / 0x100 % 0x100) as u8
    } else if i == 2 {
        (word / 0x1_0000 % 0x100) as u8
    } else {
        (word / 0x100_0000) as u8
    }
}

/// Byte `i` of all layers' parameters.
pub open spec fn uniform_byte(i: int) -> u8 {
    word_byte(uniform_word(i / 256, i % 256 / 4), i % 4)
}

/// Byte `i` of a word.
fn byte_of(word: u32, i: usize) -> (b: u8)
    requires
        i < 4,
    ensures
        b == word_byte(word, i as int),
{
    if i == 0 {
        (word % 0x100) as u8
    } else if i == 1 {
        (word / 0x100 % 0x100) as u8
    } else if i == 2 {
        (word / 0x1_0000 % 0x100) as u8
    } else {
        (word / 0x100_0000) as u8
    }
}

/// The parameters of all layers, as the kernels read them.
pub fn layer_uniform_data() -> (bytes: Vec<u8>)
    ensures
        bytes@.len() == 18 * 256,
        forall|i: int| 0 <= i < 18 * 256 ==> #[trigger] bytes@[i] == uniform_byte(i),
{
    let mut bytes: Vec<u8> = Vec::new();
    for i in 0..4608usize
        invariant
            bytes@.len() == i,
            forall|j: int| 0 <= j < i ==> #[trigger] bytes@[j] == uniform_byte(j),
    {
        let m: LayerMeta = layer_meta(i / 256);
        let w: usize = i % 256 / 4;
        let word: u32 = if w == 0 {
            m.mat_base
        } else if w == 1 {
            m.bias_base
        } else if w == 2 {
            m.slope_base
        } else if w == 3 {
            INPUT_W
        } else if w == 4 {
            INPUT_H
        } else {
            0
        };
        bytes.push(byte_of(word, i % 4));
    }
    bytes
}

/// The kernels of the network.
#[derive(Clone, Copy, Debug, PartialEq, Eq, Structural)]
pub enum Kernel {
    /// Reads the picture, writes activations A.
    First,
    /// Reads activations A, writes B.
    MidAToB,
    /// Reads activations B, writes A.
    MidBToA,
    /// Reads activations A and the picture, writes the enlarged picture.
    Last,
}

/// A run of a kernel over the picture.
#[derive(Clone, Copy, Debug, PartialEq, Eq, Structural)]
pub struct Pass {
    pub kernel: Kernel,
    pub uniform_offset: u32,
    pub groups_x: u32,
    pub groups_y: u32,
}

/// Run `k` of 18: middle kernels alternate between the two activations.
pub open spec fn pass(k: int, mid_pixels: int) -> Pass {
    Pass {
        kernel: if k == 0 {
            Kernel::First
        } else if k == 17 {
            Kernel::Last
        } else if k % 2 == 1 {
            Kernel::MidAToB
        } else {
            Kernel::MidBToA
        },
        uniform_offset: (256 * k) as u32,
        groups_x: if k == 0 || k == 17 {
            40
        } else {
            ((320 + mid_pixels - 1) / mid_pixels) as u32
        },
        groups_y: 25,
    }
}

/// How many pixels a workgroup of the middle layers covers in a row, by the
/// workgroup storage of the device: 16 by the fast kernel, 8 by the other.
pub fn mid_pixels_per_workgroup(storage: u32) -> (n: u32)
    ensures
        n == if storage >= FAST_MID_STORAGE { 16u32 } else { 8 },
{
    if storage >= FAST_MID_STORAGE {
        16
    } else {
        8
    }
}

/// The runs of the network, in order.
pub fn network_passes(mid_pixels: u32) -> (r: Vec<Pass>)
    requires
        0 < mid_pixels <= 320,
    ensures
        r@ == Seq::new(18, |k: int| pass(k, mid_pixels as int)),
{
    let mut r: Vec<Pass> = Vec::new();
    let mid_groups: u32 = (320 + mid_pixels - 1) / mid_pixels;
    for k in 0..18u32
        invariant
            0 < mid_pixels <= 320,
            mid_groups == (320 + mid_pixels - 1) / (mid_pixels as int),
            r@.len() == k,
            forall|i: int| 0 <= i < k ==> #[trigger] r@[i] == pass(i, mid_pixels as int),
    {
        let kernel: Kernel = if k == 0 {
            Kernel::First
        } else if k == 17 {
            Kernel::Last
        } else if k % 2 == 1 {
            Kernel::MidAToB
        } else {
            Kernel::MidBToA
        };
        let groups_x: u32 = if k == 0 || k == 17 {
            40
        } else {
            mid_groups
        };
        r.push(Pass { kernel, uniform_offset: uniform_offset(k), groups_x, groups_y: 25 });
    }
    assert(r@ =~= Seq::new(18, |k: int| pass(k, mid_pixels as int)));
    r
}

/// What a device without a window is asked for: as much as the adapter has, up
/// to what the kernels can use.
pub fn headless_limits(storage: u32, invocations: u32, size_z: u32) -> (r: (u32, u32, u32))
    ensures
        r.0 == if storage < 32768 { storage } else { 32768 },
        r.1 == if invocations < 1024 { invocations } else { 1024 },
        r.2 == if size_z < 64 { size_z } else { 64 },
{
    (
        if storage < 32768 {
            storage
        } else {
            32768
        },
        if invocations < 1024 {
            invocations
        } else {
            1024
        },
        if size_z < 64 {
            size_z
        } else {
            64
        },
    )
}

/// The packed model holds all weights of every layer.
pub proof fn law_layers_stand_inside_the_model(k: int)
    requires
        0 <= k < 18,
    ensures
        matrix_end(layer(k)) <= MODEL_SIZE,
        vectors_end(layer(k).bias_base as int, layer(k)) <= MODEL_SIZE,
        vectors_end(layer(k).slope_base as int, layer(k)) <= MODEL_SIZE,
        layer_fault(k, MODEL_SIZE as int) is None,
{
    lemma_matrices(k);
}

/// The layers' weights do not overlap: matrices follow each other, behind the
/// last of them come biases and slopes, layer by layer.
pub proof fn law_layers_do_not_overlap(k: int)
    requires
        0 <= k < 17,
    ensures
        matrix_end(layer(k)) == 32 * layer(k + 1).mat_base,
        matrix_end(layer(17)) <= 8 * layer(0).bias_base,
        vectors_end(layer(k).bias_base as int, layer(k)) == 8 * layer(k).slope_base,
        vectors_end(layer(k).slope_base as int, layer(k)) == 8 * layer(k + 1).bias_base,
{
    lemma_matrices(k);
    lemma_matrices(17);
}

/// A kernel reads the activations that the run before it wrote.
pub proof fn law_activations_are_handed_on(k: int, mid_pixels: int)
    requires
        0 <= k < 17,
    ensures
        ({
            let writes_a = pass(k, mid_pixels).kernel == Kernel::First || pass(k, mid_pixels).kernel
                == Kernel::MidBToA;
            let reads_a = pass(k + 1, mid_pixels).kernel == Kernel::MidAToB || pass(k + 1, mid_pixels).kernel
                == Kernel::Last;
            writes_a == reads_a
        }),
{
}

/// The workgroups cover the whole picture, whichever kernel the middle layers
/// use.
pub proof fn law_workgroups_cover_the_picture(k: int)
    requires
        0 <= k < 18,
    ensures
        pass(k, 8).groups_x * 8 == 320,
        0 < k < 17 ==> pass(k, 16).groups_x * 16 == 320,
        pass(k, 8).groups_y * 8 == 200,
{
}

/// A word's bytes spell it.
pub proof fn law_parameters_read_back(k: int, w: int)
    requires
        0 <= k < 18,
        0 <= w < 64,
    ensures
        ({
            let at = 256 * k + 4 * w;
            uniform_byte(at) + 0x100 * uniform_byte(at + 1) + 0x1_0000 * uniform_byte(at + 2) + 0x100_0000 * uniform_byte(
                at + 3,
            ) == uniform_word(k, w)
        }),
{
    let at = 256 * k + 4 * w;
    assert forall|i: int| 0 <= i < 4 implies #[trigger] uniform_byte(at + i) == word_byte(uniform_word(k, w), i) by {
        assert((at + i) / 256 == k && (at + i) % 256 / 4 == w && (at + i) % 4 == i);
    }
    assert(uniform_byte(at) == uniform_byte(at + 0));
    let v = uniform_word(k, w);
    assert(v as int == v % 0x100 + 0x100 * (v / 0x100 % 0x100) + 0x1_0000 * (v / 0x1_0000 % 0x100) + 0x100_0000 * (v
        / 0x100_0000));
}

} // verus!
