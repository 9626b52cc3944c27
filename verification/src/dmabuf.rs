//! DMA-buf frame buffers: choosing a pixel format and modifier for capture,
//! naming formats for the encoder, and the triple-buffer rotation.
use vstd::prelude::*;

verus! {

/// A DRM pixel format, by its fourcc.
#[derive(Debug, Clone, Copy, PartialEq, Eq, Structural)]
pub enum PixelFormat {
    Xrgb8888,
    Argb8888,
    Xbgr8888,
    Abgr8888,
    Nv12,
    Yuyv,
    /// Any other fourcc, by its code.
    Other(u32),
}

/// A DRM format modifier (memory layout of a buffer).
#[derive(Debug, Clone, Copy, PartialEq, Eq, Structural)]
pub enum BufferModifier {
    /// Plain row-major layout.
    Linear,
    /// No explicit modifier: the driver picks the layout.
    Invalid,
    /// Any other vendor layout, by its code.
    Other(u64),
}

/// The formats in the order they are preferred: hardware encoders prefer
/// YUV (less conversion), software encoders prefer RGB.
pub open spec fn preferred_formats(prefer_hardware_encoder: bool) -> Seq<PixelFormat> {
    if prefer_hardware_encoder {
        seq![
            PixelFormat::Nv12,
            PixelFormat::Xrgb8888,
            PixelFormat::Argb8888,
            PixelFormat::Xbgr8888,
            PixelFormat::Abgr8888,
        ]
    } else {
        seq![
            PixelFormat::Xrgb8888,
            PixelFormat::Argb8888,
            PixelFormat::Xbgr8888,
            PixelFormat::Abgr8888,
            PixelFormat::Nv12,
        ]
    }
}

/// The modifier chosen among those a format offers: linear when offered
/// (maximum compatibility), else the first one, else none at all.
pub open spec fn chosen_modifier(modifiers: Seq<BufferModifier>) -> BufferModifier {
    if modifiers.contains(BufferModifier::Linear) {
        BufferModifier::Linear
    } else if modifiers.len() > 0 {
        modifiers[0]
    } else {
        BufferModifier::Invalid
    }
}

/// The first modifier of a list, or none at all.
pub open spec fn first_modifier(modifiers: Seq<BufferModifier>) -> BufferModifier {
    if modifiers.len() > 0 {
        modifiers[0]
    } else {
        BufferModifier::Invalid
    }
}

/// Whether some entry offers format `f`.
pub open spec fn offers<M>(available: Seq<(PixelFormat, M)>, f: PixelFormat) -> bool {
    exists|j: int| 0 <= j < available.len() && #[trigger] available[j].0 == f
}

/// Whether some preferred format is offered at all.
pub open spec fn offers_preferred<M>(
    available: Seq<(PixelFormat, M)>,
    prefer_hardware_encoder: bool,
) -> bool {
    exists|i: int|
        0 <= i < 5 && offers(available, #[trigger] preferred_formats(prefer_hardware_encoder)[i])
}

/// Entry `j` is the one selected: the first entry of the best-ranked
/// preferred format that is offered, or, when none is, the first entry.
pub open spec fn is_selected_entry<M>(
    available: Seq<(PixelFormat, M)>,
    prefer_hardware_encoder: bool,
    j: int,
) -> bool {
    let prefs = preferred_formats(prefer_hardware_encoder);
    &&& 0 <= j < available.len()
    &&& if offers_preferred(available, prefer_hardware_encoder) {
        &&& exists|i: int|
            #![trigger prefs[i]]
            0 <= i < 5 && prefs[i] == available[j].0 && forall|k: int|
                0 <= k < i ==> !offers(available, #[trigger] prefs[k])
        &&& forall|k: int| 0 <= k < j ==> #[trigger] available[k].0 != available[j].0
    } else {
        j == 0
    }
}

/// Law: the linear layout is chosen whenever a format offers it, wherever it
/// stands in the list; otherwise the first offered modifier is chosen, and a
/// non-empty list always yields one of its own modifiers.
pub proof fn law_linear_modifier_preferred(modifiers: Seq<BufferModifier>)
    ensures
        modifiers.contains(BufferModifier::Linear) ==> chosen_modifier(modifiers)
            == BufferModifier::Linear,
        (!modifiers.contains(BufferModifier::Linear) && modifiers.len() > 0) ==> chosen_modifier(
            modifiers,
        ) == modifiers[0],
        modifiers.len() > 0 ==> modifiers.contains(chosen_modifier(modifiers)),
{
    if modifiers.len() > 0 && !modifiers.contains(BufferModifier::Linear) {
        assert(modifiers[0] == modifiers[0]);
    }
}

/// Pick the modifier for a format: linear when offered, else the first one,
/// else none at all.
fn pick_modifier(modifiers: &Vec<BufferModifier>) -> (m: BufferModifier)
    ensures
        m == chosen_modifier(modifiers@),
{
    let mut k: usize = 0;
    while k < modifiers.len()
        invariant
            k <= modifiers.len(),
            forall|t: int| 0 <= t < k ==> modifiers@[t] != BufferModifier::Linear,
        decreases modifiers.len() - k,
    {
        if modifiers[k] == BufferModifier::Linear {
            proof {
                assert(modifiers@.contains(BufferModifier::Linear));
            }
            return BufferModifier::Linear;
        }
        k += 1;
    }
    if modifiers.len() > 0 {
        modifiers[0]
    } else {
        BufferModifier::Invalid
    }
}

fn preferred_list(prefer_hardware_encoder: bool) -> (v: Vec<PixelFormat>)
    ensures
        v@ == preferred_formats(prefer_hardware_encoder),
{
    if prefer_hardware_encoder {
        vec![
            PixelFormat::Nv12,
            PixelFormat::Xrgb8888,
            PixelFormat::Argb8888,
            PixelFormat::Xbgr8888,
            PixelFormat::Abgr8888,
        ]
    } else {
        vec![
            PixelFormat::Xrgb8888,
            PixelFormat::Argb8888,
            PixelFormat::Xbgr8888,
            PixelFormat::Abgr8888,
            PixelFormat::Nv12,
        ]
    }
}

/// Select the best format and modifier for encoding among those the
/// compositor offers: the best-ranked preferred format that is offered (its
/// first entry), with linear layout when offered; when no preferred format is
/// offered, the first entry with its first modifier; `None` when nothing is
/// offered.
pub fn select_best_format(
    available_formats: &[(PixelFormat, Vec<BufferModifier>)],
    prefer_hardware_encoder: bool,
) -> (r: Option<(PixelFormat, BufferModifier)>)
    ensures
        available_formats@.len() == 0 <==> r is None,
        r matches Some(p) ==> exists|j: int|
            #[trigger] is_selected_entry(available_formats@, prefer_hardware_encoder, j) && p == (
                available_formats@[j].0,
                if offers_preferred(available_formats@, prefer_hardware_encoder) {
                    chosen_modifier(available_formats@[j].1@)
                } else {
                    first_modifier(available_formats@[j].1@)
                },
            ),
{
    let prefs = preferred_list(prefer_hardware_encoder);
    let ghost avail = available_formats@;
    let mut i: usize = 0;
    while i < 5
        invariant
            prefs@ == preferred_formats(prefer_hardware_encoder),
            avail == available_formats@,
            i <= 5,
            forall|k: int| 0 <= k < i ==> !offers(avail, #[trigger] prefs@[k]),
        decreases 5 - i,
    {
        let want = prefs[i];
        let mut j: usize = 0;
        while j < available_formats.len()
            invariant
                prefs@ == preferred_formats(prefer_hardware_encoder),
                avail == available_formats@,
                i < 5,
                want == prefs@[i as int],
                j <= available_formats@.len(),
                forall|k: int| 0 <= k < i ==> !offers(avail, #[trigger] prefs@[k]),
                forall|t: int| 0 <= t < j ==> #[trigger] avail[t].0 != want,
            decreases available_formats@.len() - j,
        {
            if available_formats[j].0 == want {
                let m = pick_modifier(&available_formats[j].1);
                proof {
                    assert(offers(avail, prefs@[i as int]));
                    assert(offers_preferred(avail, prefer_hardware_encoder));
                    assert(is_selected_entry(avail, prefer_hardware_encoder, j as int));
                }
                return Some((available_formats[j].0, m));
            }
            j += 1;
        }
        proof {
            assert forall|t: int| 0 <= t < avail.len() implies #[trigger] avail[t].0 != want by {}
        }
        i += 1;
    }
    proof {
        assert forall|i2: int| 0 <= i2 < 5 implies !offers(
            avail,
            #[trigger] preferred_formats(prefer_hardware_encoder)[i2],
        ) by {
            assert(!offers(avail, prefs@[i2]));
        }
    }
    if available_formats.len() == 0 {
        None
    } else {
        let m = if available_formats[0].1.len() > 0 {
            available_formats[0].1[0]
        } else {
            BufferModifier::Invalid
        };
        proof {
            assert(is_selected_entry(avail, prefer_hardware_encoder, 0));
        }
        Some((available_formats[0].0, m))
    }
}

/// Whether `drm_fourcc` recognizes `code` as a DRM fourcc.
pub uninterp spec fn drm_fourcc_recognized(code: u32) -> bool;

/// The fourcc codes of the formats this library names.
pub open spec fn is_named_code(code: u32) -> bool {
    code == 875713112 || code == 875713089 || code == 875709016 || code == 875708993 || code
        == 842094158 || code == 1448695129
}

/// The pixel format a recognized fourcc code stands for.
pub open spec fn format_of_code(code: u32) -> PixelFormat {
    if code == 875713112 {
        PixelFormat::Xrgb8888
    } else if code == 875713089 {
        PixelFormat::Argb8888
    } else if code == 875709016 {
        PixelFormat::Xbgr8888
    } else if code == 875708993 {
        PixelFormat::Abgr8888
    } else if code == 842094158 {
        PixelFormat::Nv12
    } else if code == 1448695129 {
        PixelFormat::Yuyv
    } else {
        PixelFormat::Other(code)
    }
}

/// The modifier a 64-bit modifier code stands for.
pub open spec fn modifier_of_code(v: u64) -> BufferModifier {
    if v == 0 {
        BufferModifier::Linear
    } else if v == 0x00ff_ffff_ffff_ffff {
        BufferModifier::Invalid
    } else {
        BufferModifier::Other(v)
    }
}

/// Calls `DrmFourcc::try_from(code)`, which succeeds exactly for the codes
/// drm_fourcc lists (the six named formats among them, with the codes of
/// `format_of_code`); a listed code is kept as its own value.
#[verifier::external_body]
fn parse_fourcc(code: u32) -> (r: Option<PixelFormat>)
    ensures
        r is Some <==> drm_fourcc_recognized(code),
        is_named_code(code) ==> r is Some,
        r matches Some(f) ==> f == format_of_code(code),
{
    match drm_fourcc::DrmFourcc::try_from(code) {
        Ok(drm_fourcc::DrmFourcc::Xrgb8888) => Some(PixelFormat::Xrgb8888),
        Ok(drm_fourcc::DrmFourcc::Argb8888) => Some(PixelFormat::Argb8888),
        Ok(drm_fourcc::DrmFourcc::Xbgr8888) => Some(PixelFormat::Xbgr8888),
        Ok(drm_fourcc::DrmFourcc::Abgr8888) => Some(PixelFormat::Abgr8888),
        Ok(drm_fourcc::DrmFourcc::Nv12) => Some(PixelFormat::Nv12),
        Ok(drm_fourcc::DrmFourcc::Yuyv) => Some(PixelFormat::Yuyv),
        Ok(other) => Some(PixelFormat::Other(other as u32)),
        Err(_) => None,
    }
}

/// Calls `DrmModifier::from(v)`: code 0 is the linear layout, the all-ones
/// 56-bit code is "no modifier", any other code is kept as its own value.
#[verifier::external_body]
fn parse_modifier(v: u64) -> (m: BufferModifier)
    ensures
        m == modifier_of_code(v),
{
    match drm_fourcc::DrmModifier::from(v) {
        drm_fourcc::DrmModifier::Linear => BufferModifier::Linear,
        drm_fourcc::DrmModifier::Invalid => BufferModifier::Invalid,
        other => BufferModifier::Other(u64::from(other)),
    }
}

/// The offered modifiers `codes` that the allocator supports (`ok`, one flag
/// per code), in order.
pub open spec fn supported_modifiers(codes: Seq<u64>, ok: Seq<bool>) -> Seq<BufferModifier>
    decreases codes.len(),
{
    if codes.len() == 0 {
        Seq::empty()
    } else {
        let rest = supported_modifiers(codes.drop_last(), ok);
        if ok[codes.len() - 1] {
            rest.push(modifier_of_code(codes.last()))
        } else {
            rest
        }
    }
}

/// The formats the compositor offers (`offered`: fourcc code and modifier
/// codes) that can be used: recognized, with at least one modifier the
/// allocator supports (`supported`, one flag per offered modifier).
pub open spec fn usable_formats(
    offered: Seq<(u32, Vec<u64>)>,
    supported: Seq<Vec<bool>>,
) -> Seq<(PixelFormat, Seq<BufferModifier>)>
    decreases offered.len(),
{
    if offered.len() == 0 {
        Seq::empty()
    } else {
        let rest = usable_formats(offered.drop_last(), supported);
        let k = offered.len() - 1;
        let mods = supported_modifiers(offered[k].1@, supported[k]@);
        if drm_fourcc_recognized(offered[k].0) && mods.len() > 0 {
            rest.push((format_of_code(offered[k].0), mods))
        } else {
            rest
        }
    }
}

/// A list of formats with their modifiers, as sequences.
pub open spec fn entries(v: Seq<(PixelFormat, Vec<BufferModifier>)>) -> Seq<(PixelFormat, Seq<BufferModifier>)> {
    v.map_values(|e: (PixelFormat, Vec<BufferModifier>)| (e.0, e.1@))
}

/// The usable formats among those the compositor offers.
pub fn usable_dmabuf_formats(offered: &[(u32, Vec<u64>)], supported: &[Vec<bool>]) -> (r: Vec<
    (PixelFormat, Vec<BufferModifier>),
>)
    requires
        offered@.len() == supported@.len(),
        forall|i: int| 0 <= i < offered@.len() ==> #[trigger] supported@[i]@.len() == offered@[i].1@.len(),
    ensures
        entries(r@) == usable_formats(offered@, supported@),
{
    let mut res: Vec<(PixelFormat, Vec<BufferModifier>)> = Vec::new();
    let mut i: usize = 0;
    while i < offered.len()
        invariant
            i <= offered@.len(),
            offered@.len() == supported@.len(),
            forall|t: int| 0 <= t < offered@.len() ==> #[trigger] supported@[t]@.len() == offered@[t].1@.len(),
            entries(res@) == usable_formats(offered@.take(i as int), supported@),
        decreases offered@.len() - i,
    {
        let codes = &offered[i].1;
        let ok = &supported[i];
        let mut mods: Vec<BufferModifier> = Vec::new();
        let mut j: usize = 0;
        while j < codes.len()
            invariant
                j <= codes@.len(),
                codes@.len() == ok@.len(),
                mods@ == supported_modifiers(codes@.take(j as int), ok@),
            decreases codes@.len() - j,
        {
            proof {
                assert(codes@.take(j + 1).drop_last() =~= codes@.take(j as int));
            }
            if ok[j] {
                mods.push(parse_modifier(codes[j]));
            }
            j += 1;
        }
        proof {
            assert(codes@.take(codes@.len() as int) =~= codes@);
            assert(offered@.take(i + 1).drop_last() =~= offered@.take(i as int));
        }
        let ghost before = res@;
        match parse_fourcc(offered[i].0) {
            Some(f) => {
                if mods.len() > 0 {
                    res.push((f, mods));
                    proof {
                        assert(entries(res@) =~= entries(before).push((f, mods@)));
                    }
                }
            },
            None => {},
        }
        i += 1;
    }
    proof {
        assert(offered@.take(offered@.len() as int) =~= offered@);
    }
    res
}

proof fn lemma_same_formats<M, N>(a: Seq<(PixelFormat, M)>, b: Seq<(PixelFormat, N)>, hw: bool)
    requires
        a.len() == b.len(),
        forall|i: int| 0 <= i < a.len() ==> #[trigger] a[i].0 == b[i].0,
    ensures
        forall|f: PixelFormat| offers(a, f) == #[trigger] offers(b, f),
        offers_preferred(a, hw) == offers_preferred(b, hw),
        forall|j: int| is_selected_entry(a, hw, j) == #[trigger] is_selected_entry(b, hw, j),
{
    assert forall|f: PixelFormat| offers(a, f) == #[trigger] offers(b, f) by {
        if offers(a, f) {
            let j = choose|j: int| 0 <= j < a.len() && #[trigger] a[j].0 == f;
            assert(b[j].0 == f);
        }
        if offers(b, f) {
            let j = choose|j: int| 0 <= j < b.len() && #[trigger] b[j].0 == f;
            assert(a[j].0 == f);
        }
    }
    let prefs = preferred_formats(hw);
    if offers_preferred(a, hw) {
        let i = choose|i: int| 0 <= i < 5 && offers(a, #[trigger] preferred_formats(hw)[i]);
        assert(offers(b, prefs[i]));
    }
    if offers_preferred(b, hw) {
        let i = choose|i: int| 0 <= i < 5 && offers(b, #[trigger] preferred_formats(hw)[i]);
        assert(offers(a, prefs[i]));
    }
    assert forall|j: int| is_selected_entry(a, hw, j) == #[trigger] is_selected_entry(b, hw, j) by {
        if is_selected_entry(a, hw, j) {
            lemma_selected_entry_transfer(a, b, hw, j);
        }
        if is_selected_entry(b, hw, j) {
            assert forall|f: PixelFormat| offers(b, f) == #[trigger] offers(a, f) by {
                assert(offers(a, f) == offers(b, f));
            }
            lemma_selected_entry_transfer(b, a, hw, j);
        }
    }
}

proof fn lemma_selected_entry_transfer<M, N>(
    a: Seq<(PixelFormat, M)>,
    b: Seq<(PixelFormat, N)>,
    hw: bool,
    j: int,
)
    requires
        a.len() == b.len(),
        forall|i: int| 0 <= i < a.len() ==> #[trigger] a[i].0 == b[i].0,
        forall|f: PixelFormat| offers(a, f) == #[trigger] offers(b, f),
        offers_preferred(a, hw) == offers_preferred(b, hw),
        is_selected_entry(a, hw, j),
    ensures
        is_selected_entry(b, hw, j),
{
    let prefs = preferred_formats(hw);
    assert(a[j].0 == b[j].0);
    if offers_preferred(a, hw) {
        let i = choose|i: int|
            #![trigger prefs[i]]
            0 <= i < 5 && prefs[i] == a[j].0 && forall|k: int|
                0 <= k < i ==> !offers(a, #[trigger] prefs[k]);
        assert forall|k: int| 0 <= k < i implies !offers(b, #[trigger] prefs[k]) by {
            assert(!offers(a, prefs[k]));
        }
        assert(prefs[i] == b[j].0);
        assert forall|k: int| 0 <= k < j implies #[trigger] b[k].0 != b[j].0 by {
            assert(a[k].0 != a[j].0);
        }
    }
}

/// Choose the DMA-buf format and modifier for zero-copy capture among those
/// the compositor offers (`offered`, with `supported` saying which modifiers
/// the allocator can use), or `None` to fall back to shared-memory capture:
/// when nothing usable is offered, or when the encoder has no name for the
/// best format.
pub fn select_dmabuf_format(
    offered: &[(u32, Vec<u64>)],
    supported: &[Vec<bool>],
    prefer_hardware_encoder: bool,
) -> (r: Option<(PixelFormat, BufferModifier)>)
    requires
        offered@.len() == supported@.len(),
        forall|i: int| 0 <= i < offered@.len() ==> #[trigger] supported@[i]@.len() == offered@[i].1@.len(),
    ensures
        ({
            let u = usable_formats(offered@, supported@);
            &&& u.len() == 0 ==> r is None
            &&& u.len() > 0 ==> exists|j: int|
                #[trigger] is_selected_entry(u, prefer_hardware_encoder, j) && ({
                    let best = (
                        u[j].0,
                        if offers_preferred(u, prefer_hardware_encoder) {
                            chosen_modifier(u[j].1)
                        } else {
                            first_modifier(u[j].1)
                        },
                    );
                    if gst_format_name(best.0) is Some {
                        r == Some(best)
                    } else {
                        r is None
                    }
                })
        }),
{
    if offered.len() == 0 {
        return None;
    }
    let usable = usable_dmabuf_formats(offered, supported);
    if usable.len() == 0 {
        return None;
    }
    let result = select_best_format(usable.as_slice(), prefer_hardware_encoder);
    proof {
        let u = usable_formats(offered@, supported@);
        assert(entries(usable@).len() == usable@.len());
        assert forall|i: int| 0 <= i < usable@.len() implies #[trigger] usable@[i].0 == u[i].0 by {
            assert(entries(usable@)[i].0 == usable@[i].0);
        }
        lemma_same_formats(usable@, u, prefer_hardware_encoder);
    }
    match result {
        Some((f, m)) => {
            proof {
                let u = usable_formats(offered@, supported@);
                let j = choose|j: int|
                    #[trigger] is_selected_entry(usable@, prefer_hardware_encoder, j) && (f, m) == (
                        usable@[j].0,
                        if offers_preferred(usable@, prefer_hardware_encoder) {
                            chosen_modifier(usable@[j].1@)
                        } else {
                            first_modifier(usable@[j].1@)
                        },
                    );
                assert(is_selected_entry(u, prefer_hardware_encoder, j));
                assert(entries(usable@)[j] == u[j]);
            }
            if drm_format_to_gst_format(f).is_none() {
                None
            } else {
                Some((f, m))
            }
        },
        None => None,
    }
}

/// The GStreamer name of a pixel format, for the formats the encoder accepts.
pub open spec fn gst_format_name(format: PixelFormat) -> Option<Seq<char>> {
    match format {
        PixelFormat::Xrgb8888 => Some("BGRx"@),
        PixelFormat::Argb8888 => Some("BGRA"@),
        PixelFormat::Xbgr8888 => Some("RGBx"@),
        PixelFormat::Abgr8888 => Some("RGBA"@),
        PixelFormat::Nv12 => Some("NV12"@),
        PixelFormat::Yuyv => Some("YUY2"@),
        PixelFormat::Other(_) => None,
    }
}

/// Convert a DRM fourcc to the GStreamer video format string.
pub fn drm_format_to_gst_format(format: PixelFormat) -> (r: Option<&'static str>)
    ensures
        match r {
            Some(s) => gst_format_name(format) == Some(s@),
            None => gst_format_name(format) is None,
        },
{
    match format {
        PixelFormat::Xrgb8888 => Some("BGRx"),
        PixelFormat::Argb8888 => Some("BGRA"),
        PixelFormat::Xbgr8888 => Some("RGBx"),
        PixelFormat::Abgr8888 => Some("RGBA"),
        PixelFormat::Nv12 => Some("NV12"),
        PixelFormat::Yuyv => Some("YUY2"),
        PixelFormat::Other(_) => None,
    }
}

/// Whether allocating with `modifier` needs the modifier-aware allocation
/// (linear and implicit layouts use the plain one).
pub fn needs_explicit_modifier(modifier: BufferModifier) -> (b: bool)
    ensures
        b == !(modifier == BufferModifier::Linear || modifier == BufferModifier::Invalid),
{
    match modifier {
        BufferModifier::Linear => false,
        BufferModifier::Invalid => false,
        BufferModifier::Other(_) => true,
    }
}

/// An allocated DMA-buf: its file descriptor `F` and its layout.
#[derive(Debug)]
pub struct DmabufBuffer<F> {
    /// DMA-buf file descriptor
    pub fd: F,
    /// Buffer width in pixels
    pub width: u32,
    /// Buffer height in pixels
    pub height: u32,
    /// Buffer stride in bytes
    pub stride: u32,
    /// DRM format fourcc
    pub format: PixelFormat,
    /// DRM format modifier
    pub modifier: BufferModifier,
    /// Total buffer size in bytes
    pub size: usize,
}

impl<F> DmabufBuffer<F> {
    /// Describe a buffer the allocator handed back; its size is stride times
    /// height.
    pub fn new(
        fd: F,
        width: u32,
        height: u32,
        stride: u32,
        format: PixelFormat,
        modifier: BufferModifier,
    ) -> (b: Self)
        requires
            stride * height <= u32::MAX,
        ensures
            b.fd == fd,
            b.width == width,
            b.height == height,
            b.stride == stride,
            b.format == format,
            b.modifier == modifier,
            b.size == stride * height,
    {
        let bytes: u32 = stride * height;
        DmabufBuffer { fd, width, height, stride, format, modifier, size: bytes as usize }
    }
}

/// Three buffers used in turn: one being captured by the compositor, one
/// being encoded, one ready for the next capture.
pub struct TripleBufferPool<F> {
    buffers: [DmabufBuffer<F>; 3],
    current_index: usize,
}

impl<F> TripleBufferPool<F> {
    #[verifier::type_invariant]
    spec fn index_in_range(self) -> bool {
        self.current_index < 3
    }

    /// The three buffers, in rotation order.
    pub closed spec fn spec_buffers(self) -> Seq<DmabufBuffer<F>> {
        self.buffers@
    }

    /// Which buffer is current (0, 1 or 2).
    pub closed spec fn spec_index(self) -> int {
        self.current_index as int
    }

    /// A pool over three allocated buffers, starting at the first.
    pub fn new(buffer0: DmabufBuffer<F>, buffer1: DmabufBuffer<F>, buffer2: DmabufBuffer<F>) -> (p:
        Self)
        ensures
            p.spec_buffers() == seq![buffer0, buffer1, buffer2],
            p.spec_index() == 0,
    {
        let p = TripleBufferPool { buffers: [buffer0, buffer1, buffer2], current_index: 0 };
        proof {
            assert(p.buffers@ =~= seq![buffer0, buffer1, buffer2]);
        }
        p
    }

    /// Get the current buffer for capture.
    pub fn current(&self) -> (b: &DmabufBuffer<F>)
        ensures
            0 <= self.spec_index() < 3,
            *b == self.spec_buffers()[self.spec_index()],
    {
        proof {
            use_type_invariant(self);
        }
        &self.buffers[self.current_index]
    }

    /// Advance to the next buffer.
    pub fn advance(&mut self)
        ensures
            final(self).spec_buffers() == old(self).spec_buffers(),
            final(self).spec_index() == next_buffer_index(old(self).spec_index()),
    {
        proof {
            use_type_invariant(&*self);
        }
        self.current_index = (self.current_index + 1) % 3;
    }

    /// Format of the pool's buffers (all are allocated alike).
    pub fn format(&self) -> (f: PixelFormat)
        ensures
            f == self.spec_buffers()[0].format,
    {
        self.buffers[0].format
    }

    /// Modifier of the pool's buffers.
    pub fn modifier(&self) -> (m: BufferModifier)
        ensures
            m == self.spec_buffers()[0].modifier,
    {
        self.buffers[0].modifier
    }

    /// Width of the pool's buffers.
    pub fn width(&self) -> (w: u32)
        ensures
            w == self.spec_buffers()[0].width,
    {
        self.buffers[0].width
    }

    /// Height of the pool's buffers.
    pub fn height(&self) -> (h: u32)
        ensures
            h == self.spec_buffers()[0].height,
    {
        self.buffers[0].height
    }

    /// Stride of the pool's buffers.
    pub fn stride(&self) -> (s: u32)
        ensures
            s == self.spec_buffers()[0].stride,
    {
        self.buffers[0].stride
    }

    /// Size of the pool's buffers.
    pub fn size(&self) -> (s: usize)
        ensures
            s == self.spec_buffers()[0].size,
    {
        self.buffers[0].size
    }
}

/// The buffer that follows buffer `i` in the rotation.
pub open spec fn next_buffer_index(i: int) -> int {
    (i + 1) % 3
}

/// Law: advancing three times comes back to the same buffer, and the three
/// positions visited in between are the three buffers, each once.
pub proof fn law_rotation_visits_each_buffer(i: int)
    requires
        0 <= i < 3,
    ensures
        next_buffer_index(next_buffer_index(next_buffer_index(i))) == i,
        i != next_buffer_index(i),
        i != next_buffer_index(next_buffer_index(i)),
        next_buffer_index(i) != next_buffer_index(next_buffer_index(i)),
        0 <= next_buffer_index(i) < 3,
{
}

} // verus!
